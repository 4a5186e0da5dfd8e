//! The peripheral's register file, modelled as an explicit value.
//!
//! Per line there is one lock word register and one locking-read
//! register (the latter is a view of the same word whose read access
//! attempts acquisition). Per core there is an interrupt-enable, an
//! interrupt-status and an interrupt-clear register, each bit-indexed by
//! line number. The mutating methods implement exactly the acceptance
//! rules the hardware applies to bus writes; they are crate-private so
//! that all mutation funnels through the capability objects.

use vstd::prelude::*;

use crate::word::CoreId;
use crate::word::LINE_COUNT;
use crate::word::LOCK_BIT;
use crate::word::fast_take_reads;
use crate::word::ier_after_disable;
use crate::word::ier_after_enable;
use crate::word::isr_after_clear;
use crate::word::isr_after_unlock;
use crate::word::locked_word;
use crate::word::lemma_locked_word_facts;
use crate::word::valid_word;
use crate::word::word_after_take;
use crate::word::word_after_write;
use crate::word::word_is_locked;
use crate::word::write_unlocks;

verus! {

/// The register file of the semaphore peripheral: 32 lock words and, per
/// core, an interrupt-enable and an interrupt-status register. The
/// write-one-to-clear interrupt-clear register is modelled by its effect
/// on the status register.
pub struct RegisterFile {
    words: Vec<u32>,
    ier1: u32,
    isr1: u32,
    ier2: u32,
    isr2: u32,
}

impl RegisterFile {
    /// The lock word currently stored for line `n`.
    pub closed spec fn lock_word(self, n: int) -> u32 {
        self.words@[n]
    }

    /// How many lock word registers the file holds.
    pub closed spec fn line_total(self) -> int {
        self.words@.len() as int
    }

    /// This core's interrupt-enable register.
    pub closed spec fn ier(self, core: CoreId) -> u32 {
        match core {
            CoreId::Cpu1 => self.ier1,
            CoreId::Cpu2 => self.ier2,
        }
    }

    /// This core's interrupt-status register.
    pub closed spec fn isr(self, core: CoreId) -> u32 {
        match core {
            CoreId::Cpu1 => self.isr1,
            CoreId::Cpu2 => self.isr2,
        }
    }

    /// Well-formedness: one lock word per line, and every stored word is
    /// a value the hardware can actually hold.
    pub open spec fn wf(self) -> bool {
        &&& self.line_total() == LINE_COUNT as int
        &&& forall|i: int|
            0 <= i < LINE_COUNT as int ==> valid_word(#[trigger] self.lock_word(i))
    }

    /// All lines free and all interrupt state clear.
    pub open spec fn is_reset(self) -> bool {
        &&& forall|i: int| 0 <= i < LINE_COUNT as int ==> #[trigger] self.lock_word(i) == 0
        &&& self.ier(CoreId::Cpu1) == 0
        &&& self.isr(CoreId::Cpu1) == 0
        &&& self.ier(CoreId::Cpu2) == 0
        &&& self.isr(CoreId::Cpu2) == 0
    }

    /// The power-on register file: every line free, no interrupt enabled
    /// or pending.
    pub fn new() -> (rf: RegisterFile)
        ensures
            rf.wf(),
            rf.is_reset(),
    {
        let mut words: Vec<u32> = Vec::new();
        let mut i: u8 = 0;
        while i < LINE_COUNT
            invariant
                i <= LINE_COUNT,
                words@.len() == i as int,
                forall|k: int| 0 <= k < i as int ==> words@[k] == 0u32,
            decreases LINE_COUNT as int - i as int,
        {
            words.push(0u32);
            i = i + 1;
        }
        RegisterFile { words, ier1: 0, isr1: 0, ier2: 0, isr2: 0 }
    }

    /// Well-formedness is preserved by a write that touches at most line
    /// `n` and leaves a valid word there.
    proof fn lemma_words_still_valid(&self, prev: RegisterFile, n: int)
        requires
            prev.wf(),
            self.line_total() == prev.line_total(),
            0 <= n < LINE_COUNT as int,
            valid_word(self.lock_word(n)),
            forall|i: int|
                0 <= i < LINE_COUNT as int && i != n ==> #[trigger] self.lock_word(i)
                    == prev.lock_word(i),
        ensures
            self.wf(),
    {
        assert forall|i: int|
            0 <= i < LINE_COUNT as int implies valid_word(#[trigger] self.lock_word(i)) by {
            if i != n {
                assert(self.lock_word(i) == prev.lock_word(i));
                assert(valid_word(prev.lock_word(i)));
            }
        }
    }

    /// Well-formedness is preserved when no lock word changes at all.
    proof fn lemma_words_unchanged_valid(&self, prev: RegisterFile)
        requires
            prev.wf(),
            self.line_total() == prev.line_total(),
            forall|i: int|
                0 <= i < LINE_COUNT as int ==> #[trigger] self.lock_word(i) == prev.lock_word(i),
        ensures
            self.wf(),
    {
        assert forall|i: int|
            0 <= i < LINE_COUNT as int implies valid_word(#[trigger] self.lock_word(i)) by {
            assert(self.lock_word(i) == prev.lock_word(i));
            assert(valid_word(prev.lock_word(i)));
        }
    }

    /// A plain read of line `n`'s lock word register (no side effect).
    pub(crate) fn read_lock_word(&self, n: u8) -> (r: u32)
        requires
            self.wf(),
            n < LINE_COUNT,
        ensures
            r == self.lock_word(n as int),
    {
        self.words[n as usize]
    }

    /// A bus write of `v` to line `n`'s lock word register, arbitrated as
    /// the hardware does: a take attempt is accepted only while the line
    /// is free, a release attempt only when core and tag fields match the
    /// stored word. An accepted release latches the pending bit of every
    /// core that has the line enabled in its interrupt-enable register.
    pub(crate) fn write_lock_word(&mut self, n: u8, v: u32)
        requires
            old(self).wf(),
            n < LINE_COUNT,
            word_is_locked(v) ==> valid_word(v),
        ensures
            final(self).wf(),
            final(self).lock_word(n as int) == word_after_write(old(self).lock_word(n as int), v),
            forall|i: int|
                0 <= i < LINE_COUNT as int && i != n as int ==> #[trigger] final(self).lock_word(i)
                    == old(self).lock_word(i),
            final(self).ier(CoreId::Cpu1) == old(self).ier(CoreId::Cpu1),
            final(self).ier(CoreId::Cpu2) == old(self).ier(CoreId::Cpu2),
            final(self).isr(CoreId::Cpu1) == if write_unlocks(old(self).lock_word(n as int), v) {
                isr_after_unlock(old(self).isr(CoreId::Cpu1), old(self).ier(CoreId::Cpu1), n)
            } else {
                old(self).isr(CoreId::Cpu1)
            },
            final(self).isr(CoreId::Cpu2) == if write_unlocks(old(self).lock_word(n as int), v) {
                isr_after_unlock(old(self).isr(CoreId::Cpu2), old(self).ier(CoreId::Cpu2), n)
            } else {
                old(self).isr(CoreId::Cpu2)
            },
    {
        let w = self.words[n as usize];
        if v & LOCK_BIT == LOCK_BIT {
            if w & LOCK_BIT != LOCK_BIT {
                self.words[n as usize] = v;
            }
        } else {
            if w == (v | LOCK_BIT) {
                proof {
                    assert((v | LOCK_BIT) & LOCK_BIT == LOCK_BIT) by (bit_vector);
                }
                self.words[n as usize] = 0;
                let bit: u32 = 1u32 << n;
                self.isr1 = self.isr1 | (self.ier1 & bit);
                self.isr2 = self.isr2 | (self.ier2 & bit);
            }
        }
        proof {
            self.lemma_words_still_valid(*old(self), n as int);
        }
    }

    /// A read of line `n`'s locking-read register by `core`: reading a
    /// free line locks it for that core with tag zero as a hardware side
    /// effect; the current (possibly just-acquired) word is returned.
    /// Acquisition is not an unlock event, so no pending bit changes.
    pub(crate) fn read_lock_read_reg(&mut self, n: u8, core: CoreId) -> (r: u32)
        requires
            old(self).wf(),
            n < LINE_COUNT,
        ensures
            final(self).wf(),
            r == fast_take_reads(old(self).lock_word(n as int), core),
            final(self).lock_word(n as int) == word_after_take(old(self).lock_word(n as int), core, 0),
            forall|i: int|
                0 <= i < LINE_COUNT as int && i != n as int ==> #[trigger] final(self).lock_word(i)
                    == old(self).lock_word(i),
            final(self).ier(CoreId::Cpu1) == old(self).ier(CoreId::Cpu1),
            final(self).ier(CoreId::Cpu2) == old(self).ier(CoreId::Cpu2),
            final(self).isr(CoreId::Cpu1) == old(self).isr(CoreId::Cpu1),
            final(self).isr(CoreId::Cpu2) == old(self).isr(CoreId::Cpu2),
    {
        let w = self.words[n as usize];
        if w & LOCK_BIT != LOCK_BIT {
            proof {
                lemma_locked_word_facts(core, 0);
            }
            let v = LOCK_BIT | (core.bits() << 8);
            assert(v == locked_word(core, 0)) by {
                let cb = core.spec_bits();
                assert(LOCK_BIT | (cb << 8) | 0u32 == LOCK_BIT | (cb << 8)) by (bit_vector);
            }
            self.words[n as usize] = v;
            proof {
                self.lemma_words_still_valid(*old(self), n as int);
            }
            v
        } else {
            proof {
                self.lemma_words_unchanged_valid(*old(self));
            }
            w
        }
    }

    /// Sets bit `n` of `core`'s interrupt-enable register.
    pub(crate) fn set_ier_bit(&mut self, core: CoreId, n: u8)
        requires
            old(self).wf(),
            n < LINE_COUNT,
        ensures
            final(self).wf(),
            final(self).ier(core) == ier_after_enable(old(self).ier(core), n),
            forall|c: CoreId| c != core ==> #[trigger] final(self).ier(c) == old(self).ier(c),
            forall|c: CoreId| #[trigger] final(self).isr(c) == old(self).isr(c),
            forall|i: int|
                0 <= i < LINE_COUNT as int ==> #[trigger] final(self).lock_word(i)
                    == old(self).lock_word(i),
    {
        let bit: u32 = 1u32 << n;
        match core {
            CoreId::Cpu1 => {
                self.ier1 = self.ier1 | bit;
            },
            CoreId::Cpu2 => {
                self.ier2 = self.ier2 | bit;
            },
        }        proof {
            self.lemma_words_unchanged_valid(*old(self));
        }
    }

    /// Clears bit `n` of `core`'s interrupt-enable register.
    pub(crate) fn clear_ier_bit(&mut self, core: CoreId, n: u8)
        requires
            old(self).wf(),
            n < LINE_COUNT,
        ensures
            final(self).wf(),
            final(self).ier(core) == ier_after_disable(old(self).ier(core), n),
            forall|c: CoreId| c != core ==> #[trigger] final(self).ier(c) == old(self).ier(c),
            forall|c: CoreId| #[trigger] final(self).isr(c) == old(self).isr(c),
            forall|i: int|
                0 <= i < LINE_COUNT as int ==> #[trigger] final(self).lock_word(i)
                    == old(self).lock_word(i),
    {
        let bit: u32 = 1u32 << n;
        match core {
            CoreId::Cpu1 => {
                self.ier1 = self.ier1 & !bit;
            },
            CoreId::Cpu2 => {
                self.ier2 = self.ier2 & !bit;
            },
        }        proof {
            self.lemma_words_unchanged_valid(*old(self));
        }
    }

    /// A plain read of `core`'s interrupt-status register.
    pub(crate) fn read_isr(&self, core: CoreId) -> (r: u32)
        requires
            self.wf(),
        ensures
            r == self.isr(core),
    {
        match core {
            CoreId::Cpu1 => self.isr1,
            CoreId::Cpu2 => self.isr2,
        }
    }

    /// A write of one to bit `n` of `core`'s interrupt-clear register:
    /// clears the pending bit, leaving the enable register untouched.
    pub(crate) fn write_icr_bit(&mut self, core: CoreId, n: u8)
        requires
            old(self).wf(),
            n < LINE_COUNT,
        ensures
            final(self).wf(),
            final(self).isr(core) == isr_after_clear(old(self).isr(core), n),
            forall|c: CoreId| c != core ==> #[trigger] final(self).isr(c) == old(self).isr(c),
            forall|c: CoreId| #[trigger] final(self).ier(c) == old(self).ier(c),
            forall|i: int|
                0 <= i < LINE_COUNT as int ==> #[trigger] final(self).lock_word(i)
                    == old(self).lock_word(i),
    {
        let bit: u32 = 1u32 << n;
        match core {
            CoreId::Cpu1 => {
                self.isr1 = self.isr1 & !bit;
            },
            CoreId::Cpu2 => {
                self.isr2 = self.isr2 & !bit;
            },
        }        proof {
            self.lemma_words_unchanged_valid(*old(self));
        }
    }
}

} // verus!
