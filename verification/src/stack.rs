//! Stack regions: the first context of a thread, the canary that guards the
//! far end of its stack, and how much of the stack was ever used.

use vstd::prelude::*;

verus! {

/// The byte a stack is filled with before its thread runs.
pub const CANARY: u8 = 0xAA;

/// The number of bytes at the far end of a stack that must keep the canary.
pub const SENTINEL_SIZE: usize = 4;

/// The size of a saved context: the return address, the status register and
/// thirty-two registers.
pub const FRAME_SIZE: usize = 35;

/// The status register of a thread that starts: interrupts enabled.
pub const STATUS_INIT: u8 = 0x80;

/// The byte at offset `i` of a stack of `len` bytes made ready for a thread
/// that starts at `entry` with argument `arg`. The stack grows from its last
/// byte down. The first context lies on top: the entry address in the last
/// two bytes, low byte last; below it the status register; below that the
/// registers 0 to 31, of which 24 and 25 hold the argument and the others
/// zero. All below the context holds the canary.
pub open spec fn initial_byte(len: int, i: int, entry: u16, arg: u16) -> u8 {
    if i < len - FRAME_SIZE {
        CANARY
    } else if i == len - 1 {
        (entry % 256) as u8
    } else if i == len - 2 {
        (entry / 256) as u8
    } else if i == len - 3 {
        STATUS_INIT
    } else if i == len - 28 {
        (arg % 256) as u8
    } else if i == len - 29 {
        (arg / 256) as u8
    } else {
        0
    }
}

/// A stack of `len` bytes made ready for a thread.
pub open spec fn initial_stack(len: nat, entry: u16, arg: u16) -> Seq<u8> {
    Seq::new(len, |i: int| initial_byte(len as int, i, entry, arg))
}

/// The canary at the far end of the stack is whole: the stack never grew
/// into its last bytes.
pub open spec fn canaries_intact(stack: Seq<u8>) -> bool {
    forall|i: int| 0 <= i < stack.len() && i < SENTINEL_SIZE ==> stack[i] == CANARY
}

/// The number of bytes at the far end of the stack that still hold the canary.
pub open spec fn untouched(stack: Seq<u8>) -> int
    decreases stack.len(),
{
    if stack.len() == 0 {
        0
    } else if stack[0] != CANARY {
        0
    } else {
        1 + untouched(stack.drop_first())
    }
}

/// What `untouched` returns: all bytes before it hold the canary, the byte
/// at it does not.
pub proof fn lemma_untouched(stack: Seq<u8>)
    ensures
        0 <= untouched(stack) <= stack.len(),
        forall|i: int| 0 <= i < untouched(stack) ==> stack[i] == CANARY,
        untouched(stack) < stack.len() ==> stack[untouched(stack)] != CANARY,
    decreases stack.len(),
{
    if stack.len() != 0 && stack[0] == CANARY {
        let rest = stack.drop_first();
        lemma_untouched(rest);
        assert forall|i: int| 0 <= i < untouched(stack) implies stack[i] == CANARY by {
            if i > 0 {
                assert(stack[i] == rest[i - 1]);
            }
        }
        let u = untouched(rest);
        if u < rest.len() {
            assert(stack[u + 1] == rest[u]);
        }
    }
}

/// An index with the two properties of `untouched` is `untouched`.
pub proof fn lemma_untouched_unique(stack: Seq<u8>, j: int)
    requires
        0 <= j <= stack.len(),
        forall|i: int| 0 <= i < j ==> stack[i] == CANARY,
        j < stack.len() ==> stack[j] != CANARY,
    ensures
        j == untouched(stack),
{
    lemma_untouched(stack);
    let u = untouched(stack);
    if u < j {
        assert(stack[u] == CANARY);
    } else if j < u {
        assert(stack[j] == CANARY);
    }
}

/// The number of bytes of the stack that were ever used: all from the first
/// byte that lost the canary up.
pub open spec fn usage(stack: Seq<u8>) -> int {
    stack.len() - untouched(stack)
}

/// A stack made ready for a thread has its canary whole and only its first
/// context in use.
pub proof fn lemma_initial_stack(len: nat, entry: u16, arg: u16)
    requires
        len >= FRAME_SIZE + SENTINEL_SIZE,
    ensures
        canaries_intact(initial_stack(len, entry, arg)),
        usage(initial_stack(len, entry, arg)) <= FRAME_SIZE,
{
    let s = initial_stack(len, entry, arg);
    lemma_untouched(s);
    let u = untouched(s);
    if u < len - FRAME_SIZE {
        assert(s[u] == CANARY);
    }
}

/// Makes `region` ready for a thread that starts at `entry` with argument
/// `arg`.
pub fn prepare(region: &mut Vec<u8>, entry: u16, arg: u16)
    requires
        old(region)@.len() >= FRAME_SIZE,
    ensures
        final(region)@ == initial_stack(old(region)@.len(), entry, arg),
{
    let len: usize = region.len();
    let mut i: usize = 0;
    while i < len
        invariant
            i <= len,
            len >= FRAME_SIZE,
            region@.len() == len,
            forall|k: int| 0 <= k < i ==> region@[k] == initial_byte(len as int, k, entry, arg),
        decreases len - i,
    {
        let b: u8 = if i < len - FRAME_SIZE {
            CANARY
        } else if i == len - 1 {
            (entry % 256) as u8
        } else if i == len - 2 {
            (entry / 256) as u8
        } else if i == len - 3 {
            STATUS_INIT
        } else if i == len - 28 {
            (arg % 256) as u8
        } else if i == len - 29 {
            (arg / 256) as u8
        } else {
            0
        };
        region.set(i, b);
        i = i + 1;
    }
    assert(region@ =~= initial_stack(len as nat, entry, arg));
}

/// Tests whether the canary at the far end of the stack is whole.
pub fn check_canaries(stack: &Vec<u8>) -> (ok: bool)
    ensures
        ok == canaries_intact(stack@),
{
    let mut i: usize = 0;
    while i < stack.len() && i < SENTINEL_SIZE
        invariant
            i <= stack.len(),
            i <= SENTINEL_SIZE,
            forall|k: int| 0 <= k < i ==> stack@[k] == CANARY,
        decreases stack.len() - i,
    {
        if stack[i] != CANARY {
            return false;
        }
        i = i + 1;
    }
    true
}

/// Counts the bytes of the stack that were ever used.
pub fn measure(stack: &Vec<u8>) -> (used: usize)
    ensures
        used == usage(stack@),
{
    let mut i: usize = 0;
    while i < stack.len() && stack[i] == CANARY
        invariant
            i <= stack.len(),
            forall|k: int| 0 <= k < i ==> stack@[k] == CANARY,
        decreases stack.len() - i,
    {
        i = i + 1;
    }
    proof {
        lemma_untouched_unique(stack@, i as int);
    }
    stack.len() - i
}

} // verus!
