//! Function types.
use vstd::prelude::*;
use crate::value_type::ValueTypes;
use crate::module::opt_string_view;
use crate::error::{TypeError, WasmError};

verus! {

/// The type of a function: the types of its parameters and of its results.
#[derive(Debug)]
pub struct FunctionType {
    parameters: Vec<ValueTypes>,
    returns: Vec<ValueTypes>,
}

impl View for FunctionType {
    type V = (Seq<ValueTypes>, Seq<ValueTypes>);

    /// The parameter types and the result types.
    open spec fn view(&self) -> (Seq<ValueTypes>, Seq<ValueTypes>) {
        (self.spec_parameters(), self.spec_returns())
    }
}

impl Clone for FunctionType {
    fn clone(&self) -> (r: FunctionType)
        ensures
            r@ == self@,
    {
        let parameters = self.parameters.clone();
        let results = self.returns.clone();
        proof {
            assert(parameters@ =~= self.parameters@);
            assert(results@ =~= self.returns@);
        }
        FunctionType { parameters, returns: results }
    }
}

impl FunctionType {
    /// The parameter types.
    pub closed spec fn spec_parameters(&self) -> Seq<ValueTypes> {
        self.parameters@
    }

    /// The result types.
    pub closed spec fn spec_returns(&self) -> Seq<ValueTypes> {
        self.returns@
    }

    pub fn new(parameters: Vec<ValueTypes>, returns: Vec<ValueTypes>) -> (r: FunctionType)
        ensures
            r@ == (parameters@, returns@),
    {
        FunctionType { parameters, returns }
    }

    pub fn parameters(&self) -> (r: &Vec<ValueTypes>)
        ensures
            r@ == self@.0,
    {
        &self.parameters
    }

    pub fn return_types(&self) -> (r: &Vec<ValueTypes>)
        ensures
            r@ == self@.1,
    {
        &self.returns
    }

    /// Whether two function types are the same.
    pub fn is_same(&self, other: &FunctionType) -> (r: bool)
        ensures
            r == (self@ == other@),
    {
        let (pa, ra, pb, rb) = (self.parameters(), self.return_types(), other.parameters(), other.return_types());
        if pa.len() != pb.len() || ra.len() != rb.len() {
            return false;
        }
        let mut i: usize = 0;
        while i < pa.len()
            invariant
                pa@.len() == pb@.len(),
                pa@ == self@.0,
                pb@ == other@.0,
                i <= pa@.len(),
                forall|j: int| 0 <= j < i ==> pa@[j] == pb@[j],
            decreases pa@.len() - i,
        {
            if pa[i] != pb[i] {
                proof {
                    assert(self@.0[i as int] != other@.0[i as int]);
                }
                return false;
            }
            i = i + 1;
        }
        proof {
            assert(pa@ =~= pb@);
        }
        let mut k: usize = 0;
        while k < ra.len()
            invariant
                ra@.len() == rb@.len(),
                ra@ == self@.1,
                rb@ == other@.1,
                pa@ =~= pb@,
                pa@ == self@.0,
                pb@ == other@.0,
                k <= ra@.len(),
                forall|j: int| 0 <= j < k ==> ra@[j] == rb@[j],
            decreases ra@.len() - k,
        {
            if ra[k] != rb[k] {
                proof {
                    assert(self@.1[k as int] != other@.1[k as int]);
                }
                return false;
            }
            k = k + 1;
        }
        proof {
            assert(pa@ =~= pb@);
            assert(ra@ =~= rb@);
        }
        true
    }

    /// The number of parameters, reduced to 32 bits.
    pub fn get_arity(&self) -> (r: u32)
        ensures
            r == self@.0.len() as u32,
    {
        self.parameters.len() as u32
    }
}

/// What a function of a module instance is: its type, the types of its
/// declared locals, its body in byte form, and whether it is a host
/// function, one that the embedder runs.
pub struct FuncView {
    pub ty: (Seq<ValueTypes>, Seq<ValueTypes>),
    pub locals: Seq<ValueTypes>,
    pub body: Seq<u8>,
    pub host: bool,
}

/// The first of `fs` exported under `name`, if there is one.
pub open spec fn find_function_named(fs: Seq<FunctionInstance>, name: Seq<char>) -> Option<FunctionInstance>
    decreases fs.len(),
{
    if fs.len() == 0 {
        None
    } else if fs[0].spec_export_name() == Some(name) {
        Some(fs[0])
    } else {
        find_function_named(fs.drop_first(), name)
    }
}

/// The first function exported under `name` is the one `find_function_named` gives.
pub proof fn lemma_find_function_at(fs: Seq<FunctionInstance>, name: Seq<char>, i: int)
    requires
        0 <= i < fs.len(),
        fs[i].spec_export_name() == Some(name),
        forall|j: int| 0 <= j < i ==> #[trigger] fs[j].spec_export_name() != Some(name),
    ensures
        find_function_named(fs, name) == Some(fs[i]),
    decreases fs.len(),
{
    if i > 0 {
        assert forall|j: int| 0 <= j < i - 1 implies #[trigger] fs.drop_first()[j].spec_export_name() != Some(name) by {
            assert(fs.drop_first()[j] == fs[j + 1]);
        }
        lemma_find_function_at(fs.drop_first(), name, i - 1);
    }
}

/// With no function exported under `name`, `find_function_named` gives none.
pub proof fn lemma_find_function_none(fs: Seq<FunctionInstance>, name: Seq<char>)
    requires
        forall|j: int| 0 <= j < fs.len() ==> #[trigger] fs[j].spec_export_name() != Some(name),
    ensures
        find_function_named(fs, name) is None,
    decreases fs.len(),
{
    if fs.len() > 0 {
        assert(fs[0].spec_export_name() != Some(name));
        assert forall|j: int| 0 <= j < fs.drop_first().len() implies #[trigger] fs.drop_first()[j].spec_export_name() != Some(name) by {
            assert(fs.drop_first()[j] == fs[j + 1]);
        }
        lemma_find_function_none(fs.drop_first(), name);
    }
}

/// A function of a module instance: one with a body, or a host function,
/// which has none and which the embedder runs.
#[derive(Debug)]
pub struct FunctionInstance {
    export_name: Option<String>,
    function_type: FunctionType,
    locals: Vec<ValueTypes>,
    body: Vec<u8>,
    host: bool,
    source_module_name: Option<String>,
}

impl View for FunctionInstance {
    type V = FuncView;

    closed spec fn view(&self) -> FuncView {
        FuncView { ty: self.function_type@, locals: self.locals@, body: self.body@, host: self.host }
    }
}

impl Clone for FunctionInstance {
    fn clone(&self) -> (r: FunctionInstance)
        ensures
            r@ == self@,
            r.spec_export_name() == self.spec_export_name(),
            r.spec_source_module_name() == self.spec_source_module_name(),
    {
        let locals = self.locals.clone();
        let body = self.body.clone();
        proof {
            assert(locals@ =~= self.locals@);
            assert(body@ =~= self.body@);
        }
        FunctionInstance {
            export_name: self.get_export_name(),
            function_type: self.function_type.clone(),
            locals,
            body,
            host: self.host,
            source_module_name: self.get_source_module_name(),
        }
    }
}

impl FunctionInstance {
    /// The name the function is exported under.
    pub closed spec fn spec_export_name(&self) -> Option<Seq<char>> {
        opt_string_view(self.export_name)
    }

    /// The module the function was imported from.
    pub closed spec fn spec_source_module_name(&self) -> Option<Seq<char>> {
        opt_string_view(self.source_module_name)
    }

    pub fn new(export_name: Option<String>, function_type: FunctionType, locals: Vec<ValueTypes>, body: Vec<u8>) -> (r: FunctionInstance)
        ensures
            r@ == (FuncView { ty: function_type@, locals: locals@, body: body@, host: false }),
            r.spec_export_name() == opt_string_view(export_name),
            r.spec_source_module_name() == None::<Seq<char>>,
    {
        FunctionInstance { export_name, function_type, locals, body, host: false, source_module_name: None }
    }

    /// A host function of a given type, exported under a name; the embedder runs it.
    pub fn new_host_fn(export_name: Option<String>, function_type: FunctionType) -> (r: FunctionInstance)
        ensures
            r@ == (FuncView { ty: function_type@, locals: Seq::empty(), body: Seq::empty(), host: true }),
            r.spec_export_name() == opt_string_view(export_name),
            r.spec_source_module_name() == None::<Seq<char>>,
    {
        let r = FunctionInstance {
            export_name,
            function_type,
            locals: Vec::new(),
            body: Vec::new(),
            host: true,
            source_module_name: None,
        };
        proof {
            assert(r@.locals =~= Seq::<ValueTypes>::empty());
            assert(r@.body =~= Seq::<u8>::empty());
        }
        r
    }

    /// Records the module the function was imported from, when there is one.
    pub fn set_source_module_name(&mut self, name: &Option<String>)
        ensures
            final(self)@ == old(self)@,
            final(self).spec_export_name() == old(self).spec_export_name(),
            final(self).spec_source_module_name() == match name {
                Some(n) => Some(n@),
                None => old(self).spec_source_module_name(),
            },
    {
        match name {
            Some(n) => {
                self.source_module_name = Some(n.clone());
            },
            None => {},
        }
    }

    /// The module the function was imported from.
    pub fn get_source_module_name(&self) -> (r: Option<String>)
        ensures
            opt_string_view(r) == self.spec_source_module_name(),
    {
        match &self.source_module_name {
            Some(n) => Some(n.clone()),
            None => None,
        }
    }

    /// The name the function is exported under.
    pub fn get_export_name(&self) -> (r: Option<String>)
        ensures
            opt_string_view(r) == self.spec_export_name(),
    {
        match &self.export_name {
            Some(n) => Some(n.clone()),
            None => None,
        }
    }

    /// Whether the embedder runs the function.
    pub fn is_host(&self) -> (r: bool)
        ensures
            r == self@.host,
    {
        self.host
    }

    pub fn function_type_ref(&self) -> (r: &FunctionType)
        ensures
            r@ == self@.ty,
    {
        &self.function_type
    }

    /// The types of the declared locals.
    pub fn local_types(&self) -> (r: &Vec<ValueTypes>)
        ensures
            r@ == self@.locals,
    {
        &self.locals
    }

    /// The body in byte form.
    pub fn body(&self) -> (r: &Vec<u8>)
        ensures
            r@ == self@.body,
    {
        &self.body
    }

    /// The number of parameters, reduced to 32 bits.
    pub fn get_arity(&self) -> (r: u32)
        ensures
            r == self@.ty.0.len() as u32,
    {
        self.function_type.get_arity()
    }

    /// The number of results, reduced to 32 bits.
    pub fn get_return_count(&self) -> (r: u32)
        ensures
            r == self@.ty.1.len() as u32,
    {
        self.function_type.return_types().len() as u32
    }

    /// The number of bytes of the body.
    pub fn get_expressions_count(&self) -> (r: usize)
        ensures
            r == self@.body.len(),
    {
        self.body.len()
    }

    /// Succeeds when the function has type `other`; else a type mismatch.
    pub fn validate_type(&self, other: &FunctionType) -> (r: Result<(), WasmError>)
        ensures
            r == if self@.ty == other@ {
                Ok::<(), WasmError>(())
            } else {
                Err::<(), WasmError>(WasmError::TypeError(TypeError::TypeMismatch))
            },
    {
        if self.function_type.is_same(other) {
            Ok(())
        } else {
            Err(WasmError::TypeError(TypeError::TypeMismatch))
        }
    }

    /// Whether the function is exported under `other_name`.
    pub fn is_same_name(&self, other_name: &str) -> (r: bool)
        ensures
            r == (self.spec_export_name() == Some(other_name@)),
    {
        let key = other_name.to_owned();
        match &self.export_name {
            Some(n) => *n == key,
            None => false,
        }
    }
}

} // verus!
