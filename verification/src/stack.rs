use vstd::prelude::*;

verus! {

/// The call stack: the return addresses of the subroutines that are running,
/// the innermost last.
pub struct Stack {
    pub stack: Vec<usize>,
}

impl View for Stack {
    type V = Seq<usize>;

    open spec fn view(&self) -> Seq<usize> {
        self.stack@
    }
}

impl Stack {
    /// An empty call stack.
    pub fn new() -> (stack: Stack)
        ensures
            stack@ == Seq::<usize>::empty(),
    {
        Stack { stack: Vec::new() }
    }
}

} // verus!
