//! Labels of structured control.
use vstd::prelude::*;
use crate::value_type::ValueTypes;

verus! {

/// The instruction that opened a label.
#[derive(Debug, Clone, Copy, PartialEq, Eq, Structural)]
pub enum LabelKind {
    If,
    Else,
    Loop,
    Block,
    Frame,
}

/// A label: what opened it, the type of its result and where execution
/// continues when it is left.
#[derive(Debug, Clone, Copy, PartialEq, Eq, Structural)]
pub struct Label {
    pub source_instruction: LabelKind,
    pub return_type: ValueTypes,
    pub continuation: u32,
}

} // verus!
