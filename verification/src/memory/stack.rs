use crate::fault::Fault;
use vstd::prelude::*;

verus! {

/// How many return addresses the stack can hold.  The capacity here is 32;
/// a call beyond it is a stack overflow and fatal.
pub const STACK_CAPACITY: usize = 32;

/// The bounded LIFO of return addresses.  Addresses are pushed only by the
/// call instruction and popped only by the return instruction.
pub struct Stack {
    pub addresses: Vec<u16>,
}

impl View for Stack {
    type V = Seq<u16>;

    open spec fn view(&self) -> Seq<u16> {
        self.addresses@
    }
}

impl Stack {
    /// The depth never exceeds the capacity.
    pub open spec fn wf(self) -> bool {
        self@.len() <= STACK_CAPACITY
    }

    /// An empty stack.
    pub fn new() -> (r: Self)
        ensures
            r.wf(),
            r@ == Seq::<u16>::empty(),
    {
        Stack { addresses: Vec::new() }
    }

    /// Pushes the return address of a call.  Fails, changing nothing, when
    /// the stack is already at capacity: a runaway or malformed program.
    pub fn call(&mut self, current_pc: u16) -> (r: Result<(), Fault>)
        requires
            old(self).wf(),
        ensures
            final(self).wf(),
            old(self)@.len() < STACK_CAPACITY ==> r == Ok::<(), Fault>(())
                && final(self)@ == old(self)@.push(current_pc),
            old(self)@.len() >= STACK_CAPACITY ==> r == Err::<(), Fault>(Fault::StackOverflow)
                && final(self)@ == old(self)@,
    {
        if self.addresses.len() < STACK_CAPACITY {
            self.addresses.push(current_pc);
            Ok(())
        } else {
            Err(Fault::StackOverflow)
        }
    }

    /// Pops the most recent return address.  Fails, changing nothing, when
    /// the stack is empty: a return without a matching call.
    pub fn ret(&mut self) -> (r: Result<u16, Fault>)
        requires
            old(self).wf(),
        ensures
            final(self).wf(),
            old(self)@.len() > 0 ==> r == Ok::<u16, Fault>(old(self)@.last())
                && final(self)@ == old(self)@.drop_last(),
            old(self)@.len() == 0 ==> r == Err::<u16, Fault>(Fault::StackUnderflow)
                && final(self)@ == old(self)@,
    {
        match self.addresses.pop() {
            Some(addr) => Ok(addr),
            None => Err(Fault::StackUnderflow),
        }
    }
}

} // verus!
