//! The operand stack of the runtime: a fixed number of slots, a stack pointer
//! and the frame pointer of the running function.
use vstd::prelude::*;
use crate::error::Trap;
use crate::label::{Label, LabelKind};
use crate::value::Values;
use crate::value_type::ValueTypes;

verus! {

/// A slot of the operand stack: never written, a value, or a label.
#[derive(Debug, Clone, Copy, PartialEq, Eq, Structural)]
pub enum StackEntry {
    Empty,
    Value(Values),
    Label(Label),
}

impl StackEntry {
    pub fn new_empty() -> (r: StackEntry)
        ensures
            r == StackEntry::Empty,
    {
        StackEntry::Empty
    }

    pub fn new_value(value: Values) -> (r: StackEntry)
        ensures
            r == StackEntry::Value(value),
    {
        StackEntry::Value(value)
    }

    pub fn new_label(continuation: u32, return_type: ValueTypes, source_instruction: LabelKind) -> (r: StackEntry)
        ensures
            r == StackEntry::Label(Label { source_instruction, return_type, continuation }),
    {
        StackEntry::Label(Label { source_instruction, return_type, continuation })
    }

    pub fn is_label(&self) -> (r: bool)
        ensures
            r == (*self is Label),
    {
        match self {
            StackEntry::Label(_) => true,
            _ => false,
        }
    }
}

/// The operand stack as a value: every slot, the stack pointer, the frame
/// pointer and the number of slots.
pub struct StackView {
    pub entries: Seq<StackEntry>,
    pub sp: nat,
    pub fp: nat,
    pub size: nat,
}

impl StackView {
    /// The slots hold exactly `size` entries and the stack pointer lies within them.
    pub open spec fn wf(self) -> bool {
        self.entries.len() == self.size && self.sp <= self.size
    }

    /// Pushes `e`; a full stack overflows.
    pub open spec fn push(self, e: StackEntry) -> Result<StackView, Trap> {
        if self.sp >= self.size {
            Err(Trap::StackOverflow)
        } else {
            Ok(StackView { entries: self.entries.update(self.sp as int, e), sp: self.sp + 1, ..self })
        }
    }

    /// Pops the top entry; the slot keeps it. An empty stack underflows.
    pub open spec fn pop(self) -> Result<(StackEntry, StackView), Trap> {
        if self.sp == 0 {
            Err(Trap::StackUnderflow)
        } else {
            Ok((self.entries[self.sp - 1], StackView { sp: (self.sp - 1) as nat, ..self }))
        }
    }

    /// Pops the top entry, which must be a value.
    pub open spec fn pop_value(self) -> Result<(Values, StackView), Trap> {
        match self.pop() {
            Err(e) => Err(e),
            Ok((StackEntry::Value(v), s)) => Ok((v, s)),
            Ok(_) => Err(Trap::Notfound),
        }
    }

    /// Pops the top entry, which must be an `i32` value.
    pub open spec fn pop_i32(self) -> Result<(i32, StackView), Trap> {
        match self.pop_value() {
            Err(e) => Err(e),
            Ok((Values::I32(v), s)) => Ok((v, s)),
            Ok(_) => Err(Trap::TypeMismatch),
        }
    }

    /// Writes `es` in reverse order from the stack pointer up, so that the first
    /// of `es` ends on top; unless that reaches the last slot.
    pub open spec fn push_entries(self, es: Seq<StackEntry>) -> Result<StackView, Trap> {
        if self.sp + es.len() >= self.size {
            Err(Trap::StackOverflow)
        } else {
            let rev = es.reverse();
            Ok(StackView {
                entries: Seq::new(self.size, |i: int| if self.sp <= i < self.sp + rev.len() {
                    rev[i - self.sp]
                } else {
                    self.entries[i]
                }),
                sp: self.sp + es.len(),
                ..self
            })
        }
    }

    /// Pops `n` entries, of any kind; gives them, the first popped first.
    pub open spec fn pop_n(self, n: nat) -> Result<(Seq<StackEntry>, StackView), Trap> {
        if n > self.sp {
            Err(Trap::StackUnderflow)
        } else {
            Ok((self.entries.subrange(self.sp - n, self.sp as int).reverse(), StackView { sp: (self.sp - n) as nat, ..self }))
        }
    }

    /// Pops `n` entries, each of which must be a value; gives them, the first
    /// popped first.
    pub open spec fn pop_values(self, n: nat) -> Result<(Seq<StackEntry>, StackView), Trap>
        decreases n,
    {
        if n == 0 {
            Ok((seq![], self))
        } else {
            match self.pop_value() {
                Err(e) => Err(e),
                Ok((v, s1)) => match s1.pop_values((n - 1) as nat) {
                    Err(e) => Err(e),
                    Ok((rest, s2)) => Ok((seq![StackEntry::Value(v)] + rest, s2)),
                },
            }
        }
    }

    /// Where the stack pointer stops when entries are popped from `sp` down
    /// while the top is no label.
    pub open spec fn label_below(self, sp: nat) -> nat
        decreases sp,
    {
        if sp == 0 || sp > self.entries.len() {
            sp
        } else if self.entries[sp - 1] is Label {
            sp
        } else {
            self.label_below((sp - 1) as nat)
        }
    }

    /// The stack pointer once entries that are no label are popped; a full
    /// stack shows no top, and nothing is popped.
    pub open spec fn until_label(self) -> nat {
        if self.sp >= self.size {
            self.sp
        } else {
            self.label_below(self.sp)
        }
    }

    /// Leaves `n + 1` labels: pops entries down to the next label and that
    /// label, `n + 1` times, gathering the popped entries that are no label, the
    /// first popped first. Gives them, the new stack and the last label popped.
    pub open spec fn unwind(self, n: nat, buf: Seq<StackEntry>) -> Result<(Seq<StackEntry>, StackView, Label), Trap>
        decreases n,
    {
        let sp1 = self.until_label();
        let buf1 = buf + self.entries.subrange(sp1 as int, self.sp as int).reverse();
        let s1 = StackView { sp: sp1, ..self };
        match s1.pop() {
            Err(e) => Err(e),
            Ok((StackEntry::Label(l), s2)) => if n == 0 {
                Ok((buf1, s2, l))
            } else {
                s2.unwind((n - 1) as nat, buf1)
            },
            Ok(_) => Err(Trap::Notfound),
        }
    }

    /// Branches to the label `depth` levels out: leaves it, keeps the result
    /// its type calls for, and gives where execution continues. A label of no
    /// result keeps nothing; a loop keeps every value gathered; another label
    /// keeps the value that was on top.
    pub open spec fn jump_to_label(self, depth: nat) -> Result<(u32, StackView), Trap> {
        match self.unwind(depth, seq![]) {
            Err(e) => Err(e),
            Ok((buf, s, l)) => if l.return_type == ValueTypes::Unit {
                Ok((l.continuation, s))
            } else if l.source_instruction == LabelKind::Loop {
                match s.push_entries(buf) {
                    Ok(s2) => Ok((l.continuation, s2)),
                    Err(e) => Err(e),
                }
            } else if buf.len() == 0 {
                Err(Trap::StackUnderflow)
            } else {
                match s.push(buf[0]) {
                    Ok(s2) => Ok((l.continuation, s2)),
                    Err(e) => Err(e),
                }
            },
        }
    }
}

/// A pushed entry is what the next pop gives, and the pop brings the stack
/// pointer back.
pub proof fn lemma_push_then_pop(s: StackView, e: StackEntry)
    requires
        s.wf(),
        s.sp < s.size,
    ensures
        s.push(e) matches Ok(s2) && s2.pop() matches Ok((x, s3)) && x == e && s3.sp == s.sp && s3.size == s.size
            && s3.fp == s.fp,
{
}

/// What is written into a slot is what that slot then holds; the other slots
/// keep their entries.
pub proof fn lemma_set_then_get(s: StackView, ptr: nat, e: StackEntry, other: nat)
    requires
        s.wf(),
        ptr < s.size,
        other < s.size,
        other != ptr,
    ensures
        s.entries.update(ptr as int, e)[ptr as int] == e,
        s.entries.update(ptr as int, e)[other as int] == s.entries[other as int],
{
}

/// Branching to a label whose result type is unit leaves the stack pointer
/// just below that label, whatever was above it.
pub proof fn lemma_jump_to_unit_label(s: StackView, k: nat)
    requires
        s.wf(),
        k < s.sp,
        s.sp < s.size,
        s.entries[k as int] matches StackEntry::Label(l) && l.return_type == ValueTypes::Unit,
        forall|j: int| k < j < s.sp ==> !(#[trigger] s.entries[j] is Label),
    ensures
        s.jump_to_label(0) matches Ok((c, s2)) && s2.sp == k && c == s.entries[k as int]->Label_0.continuation,
{
    lemma_label_below(s, s.sp, k);
}

/// Popping from `sp` down while the top is no label stops just above the
/// label at `k` when nothing between is a label.
proof fn lemma_label_below(s: StackView, sp: nat, k: nat)
    requires
        s.wf(),
        k < sp <= s.sp,
        s.entries[k as int] is Label,
        forall|j: int| k < j < s.sp ==> !(#[trigger] s.entries[j] is Label),
    ensures
        s.label_below(sp) == k + 1,
    decreases sp,
{
    if sp > k + 1 {
        lemma_label_below(s, (sp - 1) as nat, k);
    }
}

/// Popping `n` values gives the top `n` entries, the first popped first,
/// when they are all values.
pub proof fn lemma_pop_values(s: StackView, n: nat)
    requires
        s.wf(),
        n <= s.sp,
        forall|j: int| s.sp - n <= j < s.sp ==> #[trigger] s.entries[j] is Value,
    ensures
        s.pop_values(n) == Ok::<(Seq<StackEntry>, StackView), Trap>(
            (s.entries.subrange(s.sp - n, s.sp as int).reverse(), StackView { sp: (s.sp - n) as nat, ..s }),
        ),
    decreases n,
{
    if n > 0 {
        let s1 = StackView { sp: (s.sp - 1) as nat, ..s };
        lemma_pop_values(s1, (n - 1) as nat);
        assert(seq![s.entries[s.sp - 1]] + s.entries.subrange(s.sp - n, s.sp - 1).reverse() =~= s.entries.subrange(
            s.sp - n,
            s.sp as int,
        ).reverse());
    }
}

/// The operand stack.
#[derive(Debug)]
pub struct Stack {
    entries: Vec<StackEntry>,
    stack_ptr: usize,
    frame_ptr: usize,
    stack_size: usize,
}

impl View for Stack {
    type V = StackView;

    closed spec fn view(&self) -> StackView {
        StackView {
            entries: self.entries@,
            sp: self.stack_ptr as nat,
            fp: self.frame_ptr as nat,
            size: self.stack_size as nat,
        }
    }
}

impl Stack {
    /// A stack of `stack_size` empty slots.
    pub fn new(stack_size: usize) -> (r: Stack)
        ensures
            r@.wf(),
            r@.size == stack_size,
            r@.sp == 0,
            r@.fp == 0,
            r@.entries == Seq::new(stack_size as nat, |i: int| StackEntry::Empty),
    {
        let mut entries: Vec<StackEntry> = Vec::new();
        let mut i: usize = 0;
        while i < stack_size
            invariant
                i <= stack_size,
                entries@ == Seq::new(i as nat, |j: int| StackEntry::Empty),
            decreases stack_size - i,
        {
            entries.push(StackEntry::Empty);
            i = i + 1;
            proof {
                assert(entries@ =~= Seq::new(i as nat, |j: int| StackEntry::Empty));
            }
        }
        let r = Stack { entries, stack_ptr: 0, frame_ptr: 0, stack_size };
        proof {
            assert(r@.entries =~= Seq::new(stack_size as nat, |j: int| StackEntry::Empty));
        }
        r
    }

    pub fn stack_ptr(&self) -> (r: usize)
        ensures
            r == self@.sp,
    {
        self.stack_ptr
    }

    pub fn frame_ptr(&self) -> (r: usize)
        ensures
            r == self@.fp,
    {
        self.frame_ptr
    }

    /// The number of slots.
    pub fn stack_size(&self) -> (r: usize)
        ensures
            r == self@.size,
    {
        self.stack_size
    }

    /// Sets the frame pointer.
    pub fn set_frame_ptr(&mut self, fp: usize)
        ensures
            final(self)@ == (StackView { fp: fp as nat, ..old(self)@ }),
    {
        self.frame_ptr = fp;
    }

    /// Sets the stack pointer, within the slots.
    pub fn set_stack_ptr(&mut self, sp: usize)
        requires
            old(self)@.wf(),
            sp <= old(self)@.size,
        ensures
            final(self)@ == (StackView { sp: sp as nat, ..old(self)@ }),
    {
        self.stack_ptr = sp;
    }

    /// The entry in slot `ptr`, if there is such a slot.
    pub fn get(&self, ptr: usize) -> (r: Option<StackEntry>)
        requires
            self@.wf(),
        ensures
            r == if ptr < self@.size { Some(self@.entries[ptr as int]) } else { None::<StackEntry> },
    {
        if ptr < self.entries.len() {
            Some(self.entries[ptr])
        } else {
            None
        }
    }

    /// Writes `entry` into slot `ptr`; past the last slot the stack overflows.
    pub fn set(&mut self, ptr: usize, entry: StackEntry) -> (r: Result<(), Trap>)
        requires
            old(self)@.wf(),
        ensures
            final(self)@.wf(),
            ptr >= old(self)@.size ==> r == Err::<(), Trap>(Trap::StackOverflow) && final(self)@ == old(self)@,
            ptr < old(self)@.size ==> r is Ok
                && final(self)@ == (StackView { entries: old(self)@.entries.update(ptr as int, entry), ..old(self)@ }),
    {
        if ptr >= self.stack_size {
            return Err(Trap::StackOverflow);
        }
        self.entries.set(ptr, entry);
        Ok(())
    }

    /// Pushes `entry`; a full stack overflows.
    pub fn push(&mut self, entry: StackEntry) -> (r: Result<(), Trap>)
        requires
            old(self)@.wf(),
        ensures
            final(self)@.wf(),
            match old(self)@.push(entry) {
                Ok(s) => r is Ok && final(self)@ == s,
                Err(e) => r == Err::<(), Trap>(e) && final(self)@ == old(self)@,
            },
    {
        if self.stack_ptr >= self.stack_size {
            return Err(Trap::StackOverflow);
        }
        self.entries.set(self.stack_ptr, entry);
        self.stack_ptr = self.stack_ptr + 1;
        Ok(())
    }

    /// Pushes `entries` so that the first of them ends on top; unless that
    /// reaches the last slot.
    pub fn push_entries(&mut self, entries: &Vec<StackEntry>) -> (r: Result<(), Trap>)
        requires
            old(self)@.wf(),
        ensures
            final(self)@.wf(),
            match old(self)@.push_entries(entries@) {
                Ok(s) => r is Ok && final(self)@ == s,
                Err(e) => r == Err::<(), Trap>(e) && final(self)@ == old(self)@,
            },
    {
        let len = entries.len();
        if len >= self.stack_size || self.stack_ptr >= self.stack_size - len {
            return Err(Trap::StackOverflow);
        }
        let ghost old_entries = self.entries@;
        let ghost rev = entries@.reverse();
        let sp = self.stack_ptr;
        let mut i: usize = 0;
        while i < len
            invariant
                len == entries@.len(),
                self.stack_ptr == sp,
                self.frame_ptr == old(self).frame_ptr,
                self.stack_size == old(self).stack_size,
                sp + len < self.stack_size,
                self.entries@.len() == self.stack_size,
                old_entries.len() == self.stack_size,
                rev == entries@.reverse(),
                i <= len,
                forall|j: int| 0 <= j < self.stack_size ==> #[trigger] self.entries@[j] == if sp <= j < sp + i {
                    rev[j - sp]
                } else {
                    old_entries[j]
                },
            decreases len - i,
        {
            let e = entries[len - 1 - i];
            self.entries.set(sp + i, e);
            i = i + 1;
        }
        self.stack_ptr = sp + len;
        proof {
            let target = old(self)@.push_entries(entries@);
            assert(target is Ok);
            assert(self.entries@ =~= target->Ok_0.entries);
            assert(self@ == target->Ok_0);
        }
        Ok(())
    }

    /// The top entry, unless the stack is empty or full.
    pub fn peek(&self) -> (r: Option<StackEntry>)
        requires
            self@.wf(),
        ensures
            r == if self@.sp >= self@.size || self@.sp == 0 {
                None::<StackEntry>
            } else {
                Some(self@.entries[self@.sp - 1])
            },
    {
        if self.stack_ptr >= self.stack_size || self.stack_ptr == 0 {
            None
        } else {
            Some(self.entries[self.stack_ptr - 1])
        }
    }

    /// Pops the top entry; an empty stack underflows.
    pub fn pop(&mut self) -> (r: Result<StackEntry, Trap>)
        requires
            old(self)@.wf(),
        ensures
            final(self)@.wf(),
            match old(self)@.pop() {
                Ok((e, s)) => r == Ok::<StackEntry, Trap>(e) && final(self)@ == s,
                Err(e) => r == Err::<StackEntry, Trap>(e) && final(self)@ == old(self)@,
            },
    {
        if self.stack_ptr == 0 {
            return Err(Trap::StackUnderflow);
        }
        self.stack_ptr = self.stack_ptr - 1;
        Ok(self.entries[self.stack_ptr])
    }

    /// Pops the top entry, which must be a value; else it stays and the value
    /// is not found.
    pub fn pop_value(&mut self) -> (r: Result<Values, Trap>)
        requires
            old(self)@.wf(),
        ensures
            final(self)@.wf(),
            match old(self)@.pop_value() {
                Ok((v, s)) => r == Ok::<Values, Trap>(v) && final(self)@ == s,
                Err(e) => r == Err::<Values, Trap>(e) && final(self)@ == old(self)@,
            },
    {
        if self.stack_ptr == 0 {
            return Err(Trap::StackUnderflow);
        }
        match self.entries[self.stack_ptr - 1] {
            StackEntry::Value(v) => {
                self.stack_ptr = self.stack_ptr - 1;
                Ok(v)
            },
            _ => Err(Trap::Notfound),
        }
    }

    /// Pops the top entry, which must be an `i32` value.
    pub fn pop_i32(&mut self) -> (r: Result<i32, Trap>)
        requires
            old(self)@.wf(),
        ensures
            final(self)@.wf(),
            match old(self)@.pop_i32() {
                Ok((v, s)) => r == Ok::<i32, Trap>(v) && final(self)@ == s,
                Err(e) => r == Err::<i32, Trap>(e),
            },
    {
        match self.pop_value() {
            Ok(Values::I32(v)) => Ok(v),
            Ok(_) => Err(Trap::TypeMismatch),
            Err(e) => Err(e),
        }
    }

    /// Pops the top label.
    pub fn pop_label(&mut self) -> (r: Result<Label, Trap>)
        requires
            old(self)@.wf(),
        ensures
            final(self)@.wf(),
            match old(self)@.pop() {
                Ok((StackEntry::Label(l), s)) => r == Ok::<Label, Trap>(l) && final(self)@ == s,
                Ok(_) => r == Err::<Label, Trap>(Trap::Notfound) && final(self)@ == old(self)@,
                Err(e) => r == Err::<Label, Trap>(e) && final(self)@ == old(self)@,
            },
    {
        if self.stack_ptr == 0 {
            return Err(Trap::StackUnderflow);
        }
        match self.entries[self.stack_ptr - 1] {
            StackEntry::Label(l) => {
                self.stack_ptr = self.stack_ptr - 1;
                Ok(l)
            },
            _ => Err(Trap::Notfound),
        }
    }

    /// Pops entries while the top is no label, and gives them, the first popped first.
    pub fn pop_until_label(&mut self) -> (r: Vec<StackEntry>)
        requires
            old(self)@.wf(),
        ensures
            final(self)@.wf(),
            final(self)@ == (StackView { sp: old(self)@.until_label(), ..old(self)@ }),
            r@ == old(self)@.entries.subrange(old(self)@.until_label() as int, old(self)@.sp as int).reverse(),
    {
        let ghost s0 = self@;
        let mut buf: Vec<StackEntry> = Vec::new();
        if self.stack_ptr >= self.stack_size {
            proof {
                assert(buf@ =~= s0.entries.subrange(s0.sp as int, s0.sp as int).reverse());
            }
            return buf;
        }
        while self.stack_ptr > 0 && !self.entries[self.stack_ptr - 1].is_label()
            invariant
                self@.wf(),
                self@.entries == s0.entries,
                self@.fp == s0.fp,
                self@.size == s0.size,
                self@.sp <= s0.sp,
                s0.sp < s0.size,
                s0.label_below(s0.sp) == s0.label_below(self@.sp),
                buf@ == s0.entries.subrange(self@.sp as int, s0.sp as int).reverse(),
            decreases self.stack_ptr,
        {
            let e = self.entries[self.stack_ptr - 1];
            buf.push(e);
            self.stack_ptr = self.stack_ptr - 1;
            proof {
                assert(buf@ =~= s0.entries.subrange(self@.sp as int, s0.sp as int).reverse());
            }
        }
        buf
    }

    /// Leaves `n + 1` labels, gathering into `buf` the entries popped on the way
    /// that are no label, the first popped first; gives the last label popped.
    fn unwind(&mut self, n: u32, buf: &mut Vec<StackEntry>) -> (r: Result<Label, Trap>)
        requires
            old(self)@.wf(),
        ensures
            final(self)@.wf(),
            final(self)@.size == old(self)@.size,
            match old(self)@.unwind(n as nat, old(buf)@) {
                Ok((b, s, l)) => r == Ok::<Label, Trap>(l) && final(buf)@ == b && final(self)@ == s,
                Err(e) => r == Err::<Label, Trap>(e),
            },
        decreases n,
    {
        let mut seg = self.pop_until_label();
        buf.append(&mut seg);
        match self.pop_label() {
            Err(e) => Err(e),
            Ok(l) => if n == 0 {
                Ok(l)
            } else {
                self.unwind(n - 1, buf)
            },
        }
    }

    /// Branches to the label `depth` levels out and gives where execution continues.
    pub fn jump_to_label(&mut self, depth: u32) -> (r: Result<u32, Trap>)
        requires
            old(self)@.wf(),
        ensures
            final(self)@.wf(),
            match old(self)@.jump_to_label(depth as nat) {
                Ok((c, s)) => r == Ok::<u32, Trap>(c) && final(self)@ == s,
                Err(e) => r == Err::<u32, Trap>(e),
            },
    {
        let mut buf: Vec<StackEntry> = Vec::new();
        let label = match self.unwind(depth, &mut buf) {
            Ok(l) => l,
            Err(e) => return Err(e),
        };
        match label.return_type {
            ValueTypes::Unit => Ok(label.continuation),
            _ => match label.source_instruction {
                LabelKind::Loop => match self.push_entries(&buf) {
                    Ok(()) => Ok(label.continuation),
                    Err(e) => Err(e),
                },
                _ => {
                    if buf.len() == 0 {
                        return Err(Trap::StackUnderflow);
                    }
                    match self.push(buf[0]) {
                        Ok(()) => Ok(label.continuation),
                        Err(e) => Err(e),
                    }
                },
            },
        }
    }

    /// Pops `n` entries, of any kind, and gives them, the first popped first.
    pub fn pop_n(&mut self, n: usize) -> (r: Result<Vec<StackEntry>, Trap>)
        requires
            old(self)@.wf(),
        ensures
            final(self)@.wf(),
            match old(self)@.pop_n(n as nat) {
                Ok((es, s)) => r matches Ok(v) && v@ == es && final(self)@ == s,
                Err(e) => r == Err::<Vec<StackEntry>, Trap>(e),
            },
    {
        if n > self.stack_ptr {
            return Err(Trap::StackUnderflow);
        }
        let ghost s0 = self@;
        let mut buf: Vec<StackEntry> = Vec::new();
        let mut k: usize = 0;
        while k < n
            invariant
                n <= s0.sp,
                s0.wf(),
                k <= n,
                self@.wf(),
                self@ == (StackView { sp: (s0.sp - k) as nat, ..s0 }),
                buf@ == s0.entries.subrange(s0.sp - k, s0.sp as int).reverse(),
            decreases n - k,
        {
            let e = self.entries[self.stack_ptr - 1];
            buf.push(e);
            self.stack_ptr = self.stack_ptr - 1;
            k = k + 1;
            proof {
                assert(buf@ =~= s0.entries.subrange(s0.sp - k, s0.sp as int).reverse());
            }
        }
        Ok(buf)
    }

    /// Pops `n` entries, each of which must be a value, and gives them, the
    /// first popped first.
    pub fn pop_values(&mut self, n: usize) -> (r: Result<Vec<StackEntry>, Trap>)
        requires
            old(self)@.wf(),
        ensures
            final(self)@.wf(),
            match old(self)@.pop_values(n as nat) {
                Ok((es, s)) => r matches Ok(v) && v@ == es && final(self)@ == s,
                Err(e) => r == Err::<Vec<StackEntry>, Trap>(e),
            },
        decreases n,
    {
        if n == 0 {
            return Ok(Vec::new());
        }
        let v = match self.pop_value() {
            Ok(v) => v,
            Err(e) => return Err(e),
        };
        let mut rest = match self.pop_values(n - 1) {
            Ok(r) => r,
            Err(e) => return Err(e),
        };
        rest.insert(0, StackEntry::Value(v));
        proof {
            let target = old(self)@.pop_values(n as nat);
            assert(rest@ =~= target->Ok_0.0);
        }
        Ok(rest)
    }
}

} // verus!
