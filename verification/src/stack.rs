//! Stack regions and the frame that a new task first resumes from.

use vstd::prelude::*;

verus! {

/// Size in bytes of every task's stack region.
pub const STACK_SIZE: usize = 8192;

/// Alignment in bytes that a stack region's base address must have.
pub const STACK_ALIGN: usize = 16;

/// Width in bytes of one stack slot.
pub const WORD_SIZE: usize = 8;

/// Callee-saved registers that a resume restores: rbx, rbp, r12 to r15.
pub const SAVED_REGISTERS: usize = 6;

/// Slots in an initial frame: completion handler, entry, argument, and one
/// per saved register.
pub const FRAME_WORDS: usize = 9;

/// Whether `base` can be the lowest address of a stack region: not null,
/// aligned, and with the whole region inside the address space.
pub open spec fn valid_stack_base(base: int) -> bool {
    &&& base != 0
    &&& base % (STACK_ALIGN as int) == 0
    &&& base + STACK_SIZE <= usize::MAX
}

/// The address one past the highest byte of the region that starts at `base`.
pub open spec fn stack_top(base: int) -> int {
    base + STACK_SIZE
}

/// The address of slot `k` of a frame laid out downwards from the top of the
/// region that starts at `base`; slot 0 is the highest.
pub open spec fn slot_address(base: int, k: int) -> int {
    stack_top(base) - (k + 1) * WORD_SIZE
}

/// The resume point of a task that has not run yet: the address of the
/// lowest slot of its initial frame.
pub open spec fn initial_rsp(base: int) -> int {
    slot_address(base, FRAME_WORDS - 1)
}

/// The words of an initial frame, from the highest address to the lowest:
/// the completion handler, the entry function, its argument, then a zero for
/// each saved register.
pub open spec fn frame_words(finish: usize, entry: usize, arg: usize) -> Seq<usize> {
    seq![finish, entry, arg, 0usize, 0usize, 0usize, 0usize, 0usize, 0usize]
}

/// A block of memory that serves as one task's stack.
pub struct StackRegion {
    base: usize,
}

impl View for StackRegion {
    type V = usize;

    closed spec fn view(&self) -> usize {
        self.base
    }
}

impl StackRegion {
    #[verifier::type_invariant]
    spec fn well_placed(self) -> bool {
        valid_stack_base(self.base as int)
    }

    /// Accepts `base` as a stack region if it is a valid base address.
    pub fn new(base: usize) -> (region: Option<StackRegion>)
        ensures
            region is Some <==> valid_stack_base(base as int),
            region matches Some(r) ==> r@ == base,
    {
        if base != 0 && base % STACK_ALIGN == 0 && base <= usize::MAX - STACK_SIZE {
            Some(StackRegion { base })
        } else {
            None
        }
    }

    /// The lowest address of the region.
    pub fn base(&self) -> (base: usize)
        ensures
            base == self@,
            valid_stack_base(base as int),
    {
        proof {
            use_type_invariant(self);
        }
        self.base
    }
}

/// What has to be written into a stack region before its task first runs.
pub struct InitialFrame {
    base: usize,
    words: Vec<usize>,
}

impl InitialFrame {
    #[verifier::type_invariant]
    spec fn well_formed(self) -> bool {
        &&& valid_stack_base(self.base as int)
        &&& self.words@.len() == FRAME_WORDS
    }

    /// The lowest address of the region that the frame goes into.
    pub closed spec fn stack_base(&self) -> usize {
        self.base
    }

    /// The words of the frame, from the highest address to the lowest.
    pub closed spec fn contents(&self) -> Seq<usize> {
        self.words@
    }

    /// The frame of a task that starts at `entry` with `arg`, and whose return
    /// lands in `finish`, on the stack region at `base`.
    pub fn new(base: usize, finish: usize, entry: usize, arg: usize) -> (frame: InitialFrame)
        requires
            valid_stack_base(base as int),
        ensures
            frame.stack_base() == base,
            frame.contents() == frame_words(finish, entry, arg),
    {
        let mut words: Vec<usize> = Vec::new();
        words.push(finish);
        words.push(entry);
        words.push(arg);
        let mut saved: usize = 0;
        while saved < SAVED_REGISTERS
            invariant
                saved <= SAVED_REGISTERS,
                words@.len() == 3 + saved,
                words@[0] == finish,
                words@[1] == entry,
                words@[2] == arg,
                forall|k: int| 3 <= k < words@.len() ==> words@[k] == 0,
            decreases SAVED_REGISTERS - saved,
        {
            words.push(0);
            saved += 1;
        }
        assert(words@ =~= frame_words(finish, entry, arg));
        InitialFrame { base, words }
    }

    /// The word that goes into slot `k`.
    pub fn word(&self, k: usize) -> (word: usize)
        requires
            k < FRAME_WORDS,
        ensures
            word == self.contents()[k as int],
            self.contents().len() == FRAME_WORDS,
    {
        proof {
            use_type_invariant(self);
        }
        self.words[k]
    }

    /// The address that slot `k` is written to.
    pub fn slot_address(&self, k: usize) -> (address: usize)
        requires
            k < FRAME_WORDS,
        ensures
            address == slot_address(self.stack_base() as int, k as int),
            valid_stack_base(self.stack_base() as int),
    {
        proof {
            use_type_invariant(self);
        }
        self.base + STACK_SIZE - (k + 1) * WORD_SIZE
    }

    /// The resume point to record for the task: the address of the lowest
    /// slot.
    pub fn rsp(&self) -> (rsp: usize)
        ensures
            rsp == initial_rsp(self.stack_base() as int),
            valid_stack_base(self.stack_base() as int),
    {
        proof {
            use_type_invariant(self);
        }
        self.base + STACK_SIZE - FRAME_WORDS * WORD_SIZE
    }
}

} // verus!
