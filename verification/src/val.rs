use vstd::prelude::*;

verus! {

/// A runtime value: the result of evaluating a statement or an expression.
#[derive(Debug, Clone, Copy, PartialEq, Eq, Structural)]
pub enum Val {
    /// An integer.
    Number(i32),
    /// The value of an empty block and of every definition.
    Unit,
}

impl Val {
    /// Whether the value is `Unit`.
    pub fn is_unit(&self) -> (r: bool)
        ensures
            r == (*self == Val::Unit),
    {
        match self {
            Val::Unit => true,
            Val::Number(_) => false,
        }
    }
}

} // verus!
