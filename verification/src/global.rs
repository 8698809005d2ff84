//! Types of global variables.
use vstd::prelude::*;
use crate::error::Trap;
use crate::value_type::ValueTypes;
use crate::value::Values;
use crate::indice::Indice;

verus! {

/// The type of a global: its value type, and whether it may be written.
#[derive(Debug, Clone, Copy, PartialEq, Eq, Structural)]
pub enum GlobalType {
    Const(ValueTypes),
    Var(ValueTypes),
}

/// The global type that a mutability byte gives a value type: 0 for a
/// constant, 1 for a variable; another byte, or none, is an invalid mutability.
pub open spec fn spec_global_type(code: Option<u8>, v: ValueTypes) -> Result<GlobalType, Trap> {
    match code {
        Some(0u8) => Ok(GlobalType::Const(v)),
        Some(1u8) => Ok(GlobalType::Var(v)),
        _ => Err(Trap::InvalidMutability),
    }
}

impl GlobalType {
    pub fn new(code: Option<u8>, v: ValueTypes) -> (r: Result<GlobalType, Trap>)
        ensures
            r == spec_global_type(code, v),
    {
        match code {
            Some(0x00) => Ok(GlobalType::Const(v)),
            Some(0x01) => Ok(GlobalType::Var(v)),
            _ => Err(Trap::InvalidMutability),
        }
    }
}

/// A global variable: its type, its value, and the name it is exported under.
#[derive(Debug)]
pub struct GlobalInstance {
    pub global_type: GlobalType,
    pub value: Values,
    pub export_name: Option<String>,
}

impl GlobalInstance {
    pub fn new(global_type: GlobalType, value: Values, export_name: Option<String>) -> (r: GlobalInstance)
        ensures
            r.global_type == global_type,
            r.value == value,
            r.export_name == export_name,
    {
        GlobalInstance { global_type, value, export_name }
    }

    /// Whether the global has type `ty`.
    pub fn is_same_type(&self, ty: &GlobalType) -> (r: bool)
        ensures
            r == (self.global_type == *ty),
    {
        self.global_type == *ty
    }

    pub fn get_value(&self) -> (r: Values)
        ensures
            r == self.value,
    {
        self.value
    }

    pub fn set_value(&mut self, value: Values)
        ensures
            final(self).value == value,
            final(self).global_type == old(self).global_type,
            final(self).export_name == old(self).export_name,
    {
        self.value = value;
    }
}

/// The values of the globals.
pub open spec fn global_values(gs: Seq<GlobalInstance>) -> Seq<Values> {
    gs.map_values(|g: GlobalInstance| g.value)
}

/// The first of `gs` exported under `name`, if there is one.
pub open spec fn find_global_named(gs: Seq<GlobalInstance>, name: Seq<char>) -> Option<GlobalInstance>
    decreases gs.len(),
{
    if gs.len() == 0 {
        None
    } else if crate::module::opt_string_view(gs[0].export_name) == Some(name) {
        Some(gs[0])
    } else {
        find_global_named(gs.drop_first(), name)
    }
}

/// The first global exported under `name` is the one `find_global_named` gives.
proof fn lemma_find_global_at(gs: Seq<GlobalInstance>, name: Seq<char>, i: int)
    requires
        0 <= i < gs.len(),
        crate::module::opt_string_view(gs[i].export_name) == Some(name),
        forall|j: int| 0 <= j < i ==> #[trigger] crate::module::opt_string_view(gs[j].export_name) != Some(name),
    ensures
        find_global_named(gs, name) == Some(gs[i]),
    decreases gs.len(),
{
    if i > 0 {
        assert forall|j: int| 0 <= j < i - 1 implies #[trigger] crate::module::opt_string_view(gs.drop_first()[j].export_name) != Some(name) by {
            assert(gs.drop_first()[j] == gs[j + 1]);
        }
        lemma_find_global_at(gs.drop_first(), name, i - 1);
    }
}

/// With no global exported under `name`, `find_global_named` gives none.
proof fn lemma_find_global_none(gs: Seq<GlobalInstance>, name: Seq<char>)
    requires
        forall|j: int| 0 <= j < gs.len() ==> #[trigger] crate::module::opt_string_view(gs[j].export_name) != Some(name),
    ensures
        find_global_named(gs, name) is None,
    decreases gs.len(),
{
    if gs.len() > 0 {
        assert(crate::module::opt_string_view(gs[0].export_name) != Some(name));
        assert forall|j: int| 0 <= j < gs.drop_first().len() implies #[trigger] crate::module::opt_string_view(gs.drop_first()[j].export_name) != Some(name) by {
            assert(gs.drop_first()[j] == gs[j + 1]);
        }
        lemma_find_global_none(gs.drop_first(), name);
    }
}

/// The global variables of a module, by index.
#[derive(Debug)]
pub struct GlobalInstances(pub Vec<GlobalInstance>);

impl GlobalInstances {
    pub fn new(global_instances: Vec<GlobalInstance>) -> (r: GlobalInstances)
        ensures
            r.0@ == global_instances@,
    {
        GlobalInstances(global_instances)
    }

    pub fn empty() -> (r: GlobalInstances)
        ensures
            r.0@.len() == 0,
    {
        GlobalInstances(Vec::new())
    }

    /// The value of the global at `idx`; past the globals, not found.
    pub fn get_global(&self, idx: &Indice) -> (r: Result<Values, Trap>)
        ensures
            idx.0 < self.0@.len() ==> r == Ok::<Values, Trap>(self.0@[idx.0 as int].value),
            idx.0 >= self.0@.len() ==> r == Err::<Values, Trap>(Trap::Notfound),
    {
        let i = idx.to_usize();
        if i < self.0.len() {
            Ok(self.0[i].get_value())
        } else {
            Err(Trap::Notfound)
        }
    }

    /// The value of the `i32` global at `idx`.
    pub fn get_global_ext(&self, idx: &Indice) -> (r: i32)
        requires
            idx.0 < self.0@.len(),
            self.0@[idx.0 as int].value is I32,
        ensures
            r == self.0@[idx.0 as int].value->I32_0,
    {
        match self.0[idx.0 as usize].value {
            Values::I32(v) => v,
            _ => 0,
        }
    }

    /// The value of the first global exported under `name`, if there is one.
    pub fn find(&self, name: &str) -> (r: Option<Values>)
        ensures
            r is Some <==> exists|i: int| 0 <= i < self.0@.len() && #[trigger] crate::module::opt_string_view(self.0@[i].export_name) == Some(name@),
            r matches Some(v) ==> exists|i: int|
                0 <= i < self.0@.len() && crate::module::opt_string_view(self.0@[i].export_name) == Some(name@)
                    && self.0@[i].value == v && forall|j: int| 0 <= j < i ==> #[trigger] crate::module::opt_string_view(self.0@[j].export_name) != Some(name@),
    {
        let key = name.to_owned();
        let mut i: usize = 0;
        while i < self.0.len()
            invariant
                i <= self.0@.len(),
                key@ == name@,
                forall|j: int| 0 <= j < i ==> #[trigger] crate::module::opt_string_view(self.0@[j].export_name) != Some(name@),
            decreases self.0@.len() - i,
        {
            let same = match &self.0[i].export_name {
                Some(n) => *n == key,
                None => false,
            };
            if same {
                proof {
                    assert(crate::module::opt_string_view(self.0@[i as int].export_name) == Some(name@));
                }
                return Some(self.0[i].value);
            }
            i = i + 1;
        }
        None
    }

    /// The first global exported under `name`, if there is one.
    pub fn find_instance(&self, name: &str) -> (r: Option<&GlobalInstance>)
        ensures
            r is Some <==> find_global_named(self.0@, name@) is Some,
            r matches Some(g) ==> find_global_named(self.0@, name@) == Some(*g),
    {
        let key = name.to_owned();
        let mut i: usize = 0;
        while i < self.0.len()
            invariant
                i <= self.0@.len(),
                key@ == name@,
                forall|j: int| 0 <= j < i ==> #[trigger] crate::module::opt_string_view(self.0@[j].export_name) != Some(name@),
            decreases self.0@.len() - i,
        {
            let same = match &self.0[i].export_name {
                Some(n) => *n == key,
                None => false,
            };
            if same {
                proof {
                    lemma_find_global_at(self.0@, name@, i as int);
                }
                return Some(&self.0[i]);
            }
            i = i + 1;
        }
        proof {
            lemma_find_global_none(self.0@, name@);
        }
        None
    }

    /// Sets the value of the global at `idx`, if there is one.
    pub fn set_global(&mut self, idx: &Indice, value: Values)
        ensures
            final(self).0@.len() == old(self).0@.len(),
            forall|i: int| 0 <= i < old(self).0@.len() && i != idx.0 ==> #[trigger] final(self).0@[i] == old(self).0@[i],
            idx.0 < old(self).0@.len() ==> final(self).0@[idx.0 as int].value == value
                && final(self).0@[idx.0 as int].global_type == old(self).0@[idx.0 as int].global_type
                && final(self).0@[idx.0 as int].export_name == old(self).0@[idx.0 as int].export_name,
    {
        let i = idx.to_usize();
        if i < self.0.len() {
            let mut g = self.0.remove(i);
            g.set_value(value);
            self.0.insert(i, g);
        }
    }
}

} // verus!
