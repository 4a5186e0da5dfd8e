//! Bit layout of a semaphore line's lock word, and the transition
//! functions that describe what the hardware does to one word.
//!
//! A lock word packs three fields: bit 31 is the lock flag, bits 11..8
//! carry the identity of the owning core, and bits 7..0 carry a process
//! tag chosen by the caller. The core and tag fields are meaningful only
//! while the lock flag is set.

use vstd::prelude::*;

verus! {

/// Bit 31 of a lock word: set while the line is locked.
pub const LOCK_BIT: u32 = 0x8000_0000;

/// Core-identity field value used by the first core.
pub const CPUID_CPU1: u8 = 0x03;

/// Core-identity field value used by the second core.
pub const CPUID_CPU2: u8 = 0x01;

/// Number of semaphore lines the peripheral offers.
pub const LINE_COUNT: u8 = 32;

/// Which of the two cores a firmware build runs on. In a real image this
/// is a build-time constant; here it is carried as a value so that both
/// cores' views of one register file can be exercised.
#[derive(Clone, Copy, PartialEq, Eq, Structural, Debug)]
pub enum CoreId {
    Cpu1,
    Cpu2,
}

impl CoreId {
    /// The value this core writes into the core-identity field.
    pub open spec fn spec_bits(self) -> u32 {
        match self {
            CoreId::Cpu1 => CPUID_CPU1 as u32,
            CoreId::Cpu2 => CPUID_CPU2 as u32,
        }
    }

    /// Executable form of [`CoreId::spec_bits`].
    pub fn bits(self) -> (r: u32)
        ensures
            r == self.spec_bits(),
    {
        match self {
            CoreId::Cpu1 => CPUID_CPU1 as u32,
            CoreId::Cpu2 => CPUID_CPU2 as u32,
        }
    }
}

/// A locked word with the given raw core-identity field and tag field.
pub open spec fn locked_word_raw(cb: u32, tag: u32) -> u32 {
    LOCK_BIT | (cb << 8) | tag
}

/// The word a core writes (and expects to read back) when taking a line.
pub open spec fn locked_word(core: CoreId, tag: u8) -> u32 {
    locked_word_raw(core.spec_bits(), tag as u32)
}

/// The word a core writes to release a line: same core and tag fields,
/// lock flag clear.
pub open spec fn release_word(core: CoreId, tag: u8) -> u32 {
    (core.spec_bits() << 8) | (tag as u32)
}

/// Whether a word's lock flag is set.
pub open spec fn word_is_locked(w: u32) -> bool {
    w & LOCK_BIT == LOCK_BIT
}

/// The core-identity field of a word.
pub open spec fn word_core_bits(w: u32) -> u32 {
    (w >> 8) & 0xF
}

/// The process-tag field of a word.
pub open spec fn word_tag(w: u32) -> u32 {
    w & 0xFF
}

/// The words a lock register can actually hold: zero when free, or a
/// well-formed locked word owned by one of the two cores. Every reachable
/// register value satisfies this.
pub open spec fn valid_word(w: u32) -> bool {
    ||| w == 0
    ||| {
        &&& (word_core_bits(w) == CPUID_CPU1 as u32 || word_core_bits(w) == CPUID_CPU2 as u32)
        &&& w == locked_word_raw(word_core_bits(w), word_tag(w))
    }
}

/// Whether a take attempt by `core` with tag `tag` succeeds against the
/// current word `w`: the line is free, or already holds exactly the word
/// this attempt writes (so the read-back comparison still matches).
pub open spec fn take_succeeds(w: u32, core: CoreId, tag: u8) -> bool {
    !word_is_locked(w) || w == locked_word(core, tag)
}

/// The word after a take attempt: a free line accepts the write, a locked
/// line silently discards it.
pub open spec fn word_after_take(w: u32, core: CoreId, tag: u8) -> u32 {
    if !word_is_locked(w) {
        locked_word(core, tag)
    } else {
        w
    }
}

/// Whether a release by `core` with tag `tag` matches the current word,
/// i.e. whether the hardware will clear the lock.
pub open spec fn release_matches(w: u32, core: CoreId, tag: u8) -> bool {
    w == locked_word(core, tag)
}

/// The word after a release attempt: cleared to zero on a match, left
/// untouched otherwise (a non-owner cannot release someone else's lock).
pub open spec fn word_after_release(w: u32, core: CoreId, tag: u8) -> u32 {
    if release_matches(w, core, tag) {
        0
    } else {
        w
    }
}

/// The value a read of the locking-read register returns: reading a free
/// line locks it for the reading core with tag zero as a hardware side
/// effect, and returns the new word; reading a locked line returns the
/// current word unchanged.
pub open spec fn fast_take_reads(w: u32, core: CoreId) -> u32 {
    if !word_is_locked(w) {
        locked_word(core, 0)
    } else {
        w
    }
}

/// Whether a fast take by `core` succeeds: the word the locking read
/// returns decodes to (locked, this core, tag zero).
pub open spec fn fast_take_succeeds(w: u32, core: CoreId) -> bool {
    let rlr = fast_take_reads(w, core);
    &&& word_is_locked(rlr)
    &&& word_core_bits(rlr) == core.spec_bits()
    &&& word_tag(rlr) == 0
}

/// The word after an arbitrary write `v` to a lock register, as the
/// hardware arbitrates it: a write with the lock flag set is a take
/// attempt, accepted only while the line is free; a write with the lock
/// flag clear is a release attempt, accepted only when the stored word is
/// exactly the locked form of the written word.
pub open spec fn word_after_write(w: u32, v: u32) -> u32 {
    if word_is_locked(v) {
        if !word_is_locked(w) {
            v
        } else {
            w
        }
    } else {
        if w == (v | LOCK_BIT) {
            0
        } else {
            w
        }
    }
}

/// Whether a write `v` to a register holding `w` performs an unlock
/// transition (the event that latches a pending interrupt).
pub open spec fn write_unlocks(w: u32, v: u32) -> bool {
    &&& !word_is_locked(v)
    &&& word_is_locked(w)
    &&& w == (v | LOCK_BIT)
}

/// Whether bit `n` of a per-core interrupt register is set.
pub open spec fn mask_bit(m: u32, n: u8) -> bool {
    m & (1u32 << n) != 0
}

/// An interrupt-enable register after setting bit `n`.
pub open spec fn ier_after_enable(m: u32, n: u8) -> u32 {
    m | (1u32 << n)
}

/// An interrupt-enable register after clearing bit `n`.
pub open spec fn ier_after_disable(m: u32, n: u8) -> u32 {
    m & !(1u32 << n)
}

/// An interrupt-status register after an unlock event on line `n`: the
/// pending bit latches only while the line is enabled in `ier`.
pub open spec fn isr_after_unlock(isr: u32, ier: u32, n: u8) -> u32 {
    isr | (ier & (1u32 << n))
}

/// An interrupt-status register after a write-one-to-clear of bit `n`.
pub open spec fn isr_after_clear(m: u32, n: u8) -> u32 {
    m & !(1u32 << n)
}

/// Field decoding of a well-formed locked word, and the relation between
/// the locked and release forms of one (core, tag) pair.
pub proof fn lemma_layout_raw(cb: u32, t: u32)
    by (bit_vector)
    requires
        cb < 16,
        t < 256,
    ensures
        word_is_locked(locked_word_raw(cb, t)),
        word_core_bits(locked_word_raw(cb, t)) == cb,
        word_tag(locked_word_raw(cb, t)) == t,
        locked_word_raw(cb, t) == ((cb << 8) | t) | LOCK_BIT,
        ((cb << 8) | t) & LOCK_BIT != LOCK_BIT,
{
}

/// Two well-formed locked words are equal only if both their core fields
/// and their tag fields agree.
pub proof fn lemma_locked_word_raw_injective(cb1: u32, t1: u32, cb2: u32, t2: u32)
    by (bit_vector)
    requires
        cb1 < 16,
        t1 < 256,
        cb2 < 16,
        t2 < 256,
        locked_word_raw(cb1, t1) == locked_word_raw(cb2, t2),
    ensures
        cb1 == cb2,
        t1 == t2,
{
}

/// The facts about `locked_word` and `release_word` that the driver
/// proofs use: the locked form is locked, decodes back to its fields, is
/// a valid register value, and is the release form with the lock flag
/// added.
pub proof fn lemma_locked_word_facts(core: CoreId, tag: u8)
    ensures
        word_is_locked(locked_word(core, tag)),
        word_core_bits(locked_word(core, tag)) == core.spec_bits(),
        word_tag(locked_word(core, tag)) == tag as u32,
        valid_word(locked_word(core, tag)),
        locked_word(core, tag) == release_word(core, tag) | LOCK_BIT,
        !word_is_locked(release_word(core, tag)),
{
    let cb = core.spec_bits();
    assert(cb == CPUID_CPU1 as u32 || cb == CPUID_CPU2 as u32);
    lemma_layout_raw(cb, tag as u32);
}

/// A free line accepts any take: the zero word is unlocked.
pub proof fn lemma_zero_word_free(core: CoreId, tag: u8)
    ensures
        !word_is_locked(0),
        take_succeeds(0, core, tag),
        valid_word(0),
{
    assert(0u32 & LOCK_BIT != LOCK_BIT) by (bit_vector);
}

} // verus!
