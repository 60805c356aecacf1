//! The call stack: at most sixteen return addresses, last in first out.

use vstd::prelude::*;

verus! {

/// The number of return addresses that the stack can hold.
pub const STACK_DEPTH: usize = 16;

/// The call stack of the machine.
#[derive(Debug)]
pub struct Stack {
    sp: usize,
    frames: [u16; 16],
}

impl View for Stack {
    type V = Seq<u16>;

    /// The return addresses on the stack, the oldest first.
    closed spec fn view(&self) -> Seq<u16> {
        self.frames@.take(self.sp as int)
    }
}

impl Stack {
    /// The stack pointer counts the frames in use.
    #[verifier::type_invariant]
    spec fn wf(&self) -> bool {
        self.sp <= STACK_DEPTH
    }

    /// The empty stack.
    pub fn new() -> (r: Stack)
        ensures
            r@ == Seq::<u16>::empty(),
    {
        let r = Stack { sp: 0, frames: [0;16] };
        assert(r@ =~= Seq::<u16>::empty());
        r
    }

    /// The number of addresses on the stack.
    pub fn depth(&self) -> (n: usize)
        ensures
            n == self@.len(),
            n <= STACK_DEPTH,
    {
        proof {
            use_type_invariant(self);
        }
        self.sp
    }

    /// Whether the stack holds no address.
    pub fn is_empty(&self) -> (r: bool)
        ensures
            r == (self@.len() == 0),
    {
        proof {
            use_type_invariant(self);
        }
        self.sp == 0
    }

    /// Whether the stack holds as many addresses as it can.
    pub fn is_full(&self) -> (r: bool)
        ensures
            r == (self@.len() == STACK_DEPTH),
            self@.len() <= STACK_DEPTH,
    {
        proof {
            use_type_invariant(self);
        }
        self.sp == STACK_DEPTH
    }

    /// Takes the newest address off the stack. The stack has to hold one.
    pub fn pop(&mut self) -> (value: u16)
        requires
            old(self)@.len() > 0,
        ensures
            value == old(self)@.last(),
            final(self)@ == old(self)@.drop_last(),
    {
        proof {
            use_type_invariant(&*self);
        }
        self.sp = self.sp - 1;
        let value = self.frames[self.sp];
        assert(self@ =~= old(self)@.drop_last());
        value
    }

    /// Puts an address on the stack. The stack has to have room for it.
    pub fn push(&mut self, value: u16)
        requires
            old(self)@.len() < STACK_DEPTH,
        ensures
            final(self)@ == old(self)@.push(value),
    {
        proof {
            use_type_invariant(&*self);
        }
        let sp: usize = self.sp;
        self.frames[sp] = value;
        self.sp = sp + 1;
        assert(self@ =~= old(self)@.push(value));
    }
}

} // verus!
