//! The guarantees the lock protocol gives, proved once over the word
//! transitions of [`crate::word`]. The executable operations' contracts
//! say that each register access performs exactly one of those
//! transitions, so these lemmas carry over to any sequence of calls.

use vstd::prelude::*;

use crate::word::CoreId;
use crate::word::CPUID_CPU1;
use crate::word::CPUID_CPU2;
use crate::word::fast_take_succeeds;
use crate::word::ier_after_enable;
use crate::word::isr_after_clear;
use crate::word::isr_after_unlock;
use crate::word::lemma_layout_raw;
use crate::word::lemma_locked_word_raw_injective;
use crate::word::lemma_locked_word_facts;
use crate::word::lemma_zero_word_free;
use crate::word::locked_word;
use crate::word::mask_bit;
use crate::word::release_matches;
use crate::word::take_succeeds;
use crate::word::valid_word;
use crate::word::word_after_release;
use crate::word::word_after_take;
use crate::word::word_core_bits;
use crate::word::word_is_locked;
use crate::word::word_tag;

verus! {

/// Two locked words are the same only when issued by the same core under
/// the same tag.
pub proof fn lemma_locked_word_injective(c1: CoreId, t1: u8, c2: CoreId, t2: u8)
    ensures
        locked_word(c1, t1) == locked_word(c2, t2) <==> (c1 == c2 && t1 == t2),
{
    if locked_word(c1, t1) == locked_word(c2, t2) {
        lemma_locked_word_raw_injective(c1.spec_bits(), t1 as u32, c2.spec_bits(), t2 as u32);
    }
}

/// A taken line shuts everyone else out. Once a take by `c1` under tag
/// `t1` has succeeded, a take attempt by any core `c2` under any tag `t2`
/// succeeds only for the same core and the same tag, and a release
/// attempt matches — i.e. does anything at all — only for the same core
/// and the same tag. In particular, from the same core, a take or a
/// release under a different tag is shut out too.
pub proof fn lemma_lock_excludes(w: u32, c1: CoreId, t1: u8, c2: CoreId, t2: u8)
    requires
        take_succeeds(w, c1, t1),
    ensures
        take_succeeds(word_after_take(w, c1, t1), c2, t2) <==> (c1 == c2 && t1 == t2),
        release_matches(word_after_take(w, c1, t1), c2, t2) <==> (c1 == c2 && t1 == t2),
        word_after_release(word_after_take(w, c1, t1), c2, t2) == if c1 == c2 && t1 == t2 {
            0u32
        } else {
            word_after_take(w, c1, t1)
        },
{
    lemma_locked_word_facts(c1, t1);
    assert(word_after_take(w, c1, t1) == locked_word(c1, t1));
    lemma_locked_word_injective(c1, t1, c2, t2);
}

/// A take immediately followed by a release under the same tag returns
/// the line to the free state, from which a fresh take — by either core,
/// under any tag — succeeds.
pub proof fn lemma_take_release_roundtrip(w: u32, core: CoreId, t: u8, c2: CoreId, t2: u8)
    requires
        take_succeeds(w, core, t),
    ensures
        release_matches(word_after_take(w, core, t), core, t),
        word_after_release(word_after_take(w, core, t), core, t) == 0,
        take_succeeds(word_after_release(word_after_take(w, core, t), core, t), c2, t2),
{
    lemma_locked_word_facts(core, t);
    lemma_zero_word_free(c2, t2);
}

/// The fast path and the explicit tag-zero path agree: on any word a
/// lock register can actually hold, a fast take succeeds exactly when a
/// take with tag zero would succeed from the same core at the same
/// instant. (Both also leave the same word behind, since the word after
/// either is `word_after_take(w, core, 0)`.)
pub proof fn lemma_fast_take_matches_take(w: u32, core: CoreId)
    requires
        valid_word(w),
    ensures
        fast_take_succeeds(w, core) == take_succeeds(w, core, 0),
{
    lemma_locked_word_facts(core, 0);
    if word_is_locked(w) {
        let cb = word_core_bits(w);
        let t = word_tag(w);
        if w == 0 {
            assert(!word_is_locked(0u32)) by (bit_vector);
        }
        assert(cb == CPUID_CPU1 as u32 || cb == CPUID_CPU2 as u32);
        assert(word_core_bits(w) < 16 && word_tag(w) < 256) by (bit_vector);
        lemma_layout_raw(cb, t);
        if fast_take_succeeds(w, core) {
            assert(w == locked_word(core, 0));
        }
        if take_succeeds(w, core, 0) {
            assert(w == locked_word(core, 0));
        }
    }
}

/// The interrupt round trip. After enabling a line's interrupt, an
/// unlock event on that line latches the pending bit; clearing the
/// pending bit makes the status read false again, and neither step
/// touches the enable bit, so no disable is needed in between and a
/// later unlock event latches the bit anew.
pub proof fn lemma_irq_roundtrip(ier0: u32, isr0: u32, n: u8)
    by (bit_vector)
    requires
        n < 32,
    ensures
        mask_bit(ier_after_enable(ier0, n), n),
        mask_bit(isr_after_unlock(isr0, ier_after_enable(ier0, n), n), n),
        !mask_bit(isr_after_clear(isr_after_unlock(isr0, ier_after_enable(ier0, n), n), n), n),
        mask_bit(
            isr_after_unlock(
                isr_after_clear(isr_after_unlock(isr0, ier_after_enable(ier0, n), n), n),
                ier_after_enable(ier0, n),
                n,
            ),
            n,
        ),
{
}

/// Enabling, clearing or latching one line's interrupt state never
/// disturbs another line's bits in the same register.
pub proof fn lemma_irq_other_lines_untouched(m: u32, ier: u32, n: u8, k: u8)
    by (bit_vector)
    requires
        n < 32,
        k < 32,
        k != n,
    ensures
        mask_bit(ier_after_enable(m, n), k) == mask_bit(m, k),
        mask_bit(isr_after_clear(m, n), k) == mask_bit(m, k),
        mask_bit(isr_after_unlock(m, ier, n), k) == mask_bit(m, k),
{
}

} // verus!
