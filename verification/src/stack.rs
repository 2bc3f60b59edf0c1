//! The stack of the pushdown automaton.

use vstd::prelude::*;
use crate::productions::{ProductionType, SymbolView};

verus! {

/// A stack of grammar symbols.
#[derive(Debug, PartialEq)]
pub struct Stack {
    items: Vec<ProductionType>,
}

impl View for Stack {
    type V = Seq<ProductionType>;

    /// The symbols from the bottom of the stack to its top.
    closed spec fn view(&self) -> Seq<ProductionType> {
        self.items@
    }
}

impl Stack {
    /// An empty stack.
    pub fn new() -> (s: Stack)
        ensures
            s@.len() == 0,
    {
        Stack { items: Vec::new() }
    }

    /// Puts `value` on top of the stack.
    pub fn push(&mut self, value: ProductionType)
        ensures
            final(self)@ == old(self)@.push(value),
    {
        self.items.push(value);
    }

    /// Takes the top of the stack off, where there is one.
    pub fn pop(&mut self) -> (r: Option<ProductionType>)
        ensures
            old(self)@.len() == 0 ==> r is None && final(self)@ == old(self)@,
            old(self)@.len() > 0 ==> r == Some(old(self)@.last()) && final(self)@ == old(self)@.drop_last(),
    {
        self.items.pop()
    }

    /// Whether the stack is empty.
    pub fn is_empty(&self) -> (r: bool)
        ensures
            r == (self@.len() == 0),
    {
        self.items.len() == 0
    }
}

/// The symbols of a stack as mathematical values.
pub open spec fn stack_view(items: Seq<ProductionType>) -> Seq<SymbolView> {
    Seq::new(items.len(), |i: int| items[i]@)
}

} // verus!
