use vstd::prelude::*;

use crate::errors::Error;

verus! {

/// Fixed hardware depth of the call stack.
pub const STACK_SIZE: usize = 16;

/// Fixed-depth stack of 16-bit subroutine return addresses.
///
/// The view of a `Stack` is the sequence of live frames, oldest first: the
/// slots at and above the stack pointer are dead storage and unobservable
/// through the contracts.
pub struct Stack {
    /// Backing storage, always exactly `STACK_SIZE` slots.
    pub stack: Vec<u16>,
    /// Stack pointer: number of live frames, in `[0, STACK_SIZE]`.
    pub sp: usize,
}

impl View for Stack {
    type V = Seq<u16>;

    open spec fn view(&self) -> Seq<u16> {
        self.stack@.take(self.sp as int)
    }
}

impl Stack {
    /// Structural invariant: full backing storage, pointer in range.
    pub open spec fn wf(self) -> bool {
        self.stack.len() == STACK_SIZE && self.sp <= STACK_SIZE
    }

    /// An empty stack with zeroed storage.
    pub fn new() -> (s: Stack)
        ensures
            s.wf(),
            s@ == Seq::<u16>::empty(),
            forall|i: int| 0 <= i < STACK_SIZE ==> s.stack@[i] == 0u16,
    {
        let s = Stack { stack: vec![0u16; STACK_SIZE], sp: 0 };
        proof {
            assert(s@ =~= Seq::<u16>::empty());
        }
        s
    }

    /// Push a return address; fails with `StackOverflowError` when full.
    pub fn push(&mut self, val: u16) -> (r: Result<(), Error>)
        requires
            old(self).wf(),
        ensures
            final(self).wf(),
            old(self)@.len() < STACK_SIZE ==> {
                &&& r is Ok
                &&& final(self)@ == old(self)@.push(val)
            },
            old(self)@.len() == STACK_SIZE ==> {
                &&& r == Err::<(), Error>(Error::StackOverflowError)
                &&& *final(self) == *old(self)
            },
    {
        if self.sp >= STACK_SIZE {
            return Err(Error::StackOverflowError);
        }

        self.stack.set(self.sp, val);
        self.sp = self.sp + 1;
        proof {
            assert(self@ =~= old(self)@.push(val));
        }
        Ok(())
    }

    /// Pop the most recent return address; fails with `StackUnderflowError`
    /// when empty.
    pub fn pop(&mut self) -> (r: Result<u16, Error>)
        requires
            old(self).wf(),
        ensures
            final(self).wf(),
            old(self)@.len() > 0 ==> {
                &&& r == Ok::<u16, Error>(old(self)@.last())
                &&& final(self)@ == old(self)@.drop_last()
            },
            old(self)@.len() == 0 ==> {
                &&& r == Err::<u16, Error>(Error::StackUnderflowError)
                &&& *final(self) == *old(self)
            },
    {
        if self.sp == 0 {
            return Err(Error::StackUnderflowError);
        }

        self.sp = self.sp - 1;
        proof {
            assert(self@ =~= old(self)@.drop_last());
        }
        Ok(self.stack[self.sp])
    }

    /// Empty the stack and zero its storage.
    pub fn reset(&mut self)
        ensures
            final(self).wf(),
            final(self)@ == Seq::<u16>::empty(),
            forall|i: int| 0 <= i < STACK_SIZE ==> final(self).stack@[i] == 0u16,
    {
        self.stack = vec![0u16; STACK_SIZE];
        self.sp = 0;
        proof {
            assert(self@ =~= Seq::<u16>::empty());
        }
    }
}

} // verus!
