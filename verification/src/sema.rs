//! Per-line capabilities and the semaphore handle.
//!
//! A [`SemaOp`] is the lock capability of one line: take, fast take and
//! release. A [`SemaIntr`] is the interrupt capability of the same line:
//! enable, disable, read and clear this core's interrupt state for the
//! line. A [`Sema`] aggregates the two and either passes calls through or
//! gives them up once through [`Sema::split`]. After the split the handle
//! holds neither capability, and every pass-through method demands — as a
//! precondition a verified caller must meet — that the capability it
//! needs has not been moved away.

use vstd::prelude::*;

use crate::regs::RegisterFile;
use crate::word::CoreId;
use crate::word::LINE_COUNT;
use crate::word::LOCK_BIT;
use crate::word::fast_take_succeeds;
use crate::word::ier_after_disable;
use crate::word::ier_after_enable;
use crate::word::isr_after_clear;
use crate::word::isr_after_unlock;
use crate::laws::lemma_fast_take_matches_take;
use crate::word::lemma_locked_word_facts;
use crate::word::mask_bit;
use crate::word::release_matches;
use crate::word::take_succeeds;
use crate::word::word_after_release;
use crate::word::word_after_take;

verus! {

/// The lock capability for one semaphore line: the exclusive right of
/// this core's software to issue take, fast-take and release accesses to
/// the line's lock word and locking-read registers.
pub struct SemaOp {
    line: u8,
    core: CoreId,
}

/// The interrupt capability for one semaphore line: the exclusive right
/// of this core's software to drive the line's bit in this core's
/// interrupt-enable, interrupt-status and interrupt-clear registers.
pub struct SemaIntr {
    line: u8,
    core: CoreId,
}

impl SemaOp {
    /// The line this capability is bound to.
    pub closed spec fn spec_line(self) -> u8 {
        self.line
    }

    /// The core this capability's accesses are issued from.
    pub closed spec fn spec_core(self) -> CoreId {
        self.core
    }

    /// A capability is only ever built for a real line index.
    pub open spec fn wf(self) -> bool {
        self.spec_line() < LINE_COUNT
    }

    pub(crate) fn new(line: u8, core: CoreId) -> (c: SemaOp)
        requires
            line < LINE_COUNT,
        ensures
            c.wf(),
            c.spec_line() == line,
            c.spec_core() == core,
    {
        SemaOp { line, core }
    }

    /// Tries to take the line with the given process tag: writes the
    /// locked word for (this core, `proc_id`) and reads it back. Returns
    /// true exactly when the attempt succeeded, i.e. the line was free or
    /// already held exactly this word. Nothing but this line's lock word
    /// changes, and on success it holds the written word.
    pub fn take(&mut self, rf: &mut RegisterFile, proc_id: u8) -> (r: bool)
        requires
            old(self).wf(),
            old(rf).wf(),
        ensures
            *final(self) == *old(self),
            final(rf).wf(),
            r == take_succeeds(
                old(rf).lock_word(old(self).spec_line() as int),
                old(self).spec_core(),
                proc_id,
            ),
            final(rf).lock_word(old(self).spec_line() as int) == word_after_take(
                old(rf).lock_word(old(self).spec_line() as int),
                old(self).spec_core(),
                proc_id,
            ),
            forall|i: int|
                0 <= i < LINE_COUNT as int && i != old(self).spec_line() as int ==> #[trigger]
                    final(rf).lock_word(i) == old(rf).lock_word(i),
            forall|c: CoreId| #[trigger] final(rf).ier(c) == old(rf).ier(c),
            forall|c: CoreId| #[trigger] final(rf).isr(c) == old(rf).isr(c),
    {
        proof {
            lemma_locked_word_facts(self.core, proc_id);
        }
        let r_val: u32 = LOCK_BIT | (self.core.bits() << 8) | (proc_id as u32);
        rf.write_lock_word(self.line, r_val);
        let read_back = rf.read_lock_word(self.line);
        read_back == r_val
    }

    /// Tries to take the line through the locking-read register, the
    /// hardware's default-tag fast path: the read itself attempts
    /// acquisition with tag zero, and the returned word is decoded into
    /// (lock flag, core field, tag field). Returns true exactly when the
    /// decoded word is (locked, this core, tag zero) — which is exactly
    /// when a `take` with tag zero would have succeeded on the same
    /// state.
    pub fn fast_take(&mut self, rf: &mut RegisterFile) -> (r: bool)
        requires
            old(self).wf(),
            old(rf).wf(),
        ensures
            *final(self) == *old(self),
            final(rf).wf(),
            r == fast_take_succeeds(
                old(rf).lock_word(old(self).spec_line() as int),
                old(self).spec_core(),
            ),
            r == take_succeeds(
                old(rf).lock_word(old(self).spec_line() as int),
                old(self).spec_core(),
                0,
            ),
            final(rf).lock_word(old(self).spec_line() as int) == word_after_take(
                old(rf).lock_word(old(self).spec_line() as int),
                old(self).spec_core(),
                0,
            ),
            forall|i: int|
                0 <= i < LINE_COUNT as int && i != old(self).spec_line() as int ==> #[trigger]
                    final(rf).lock_word(i) == old(rf).lock_word(i),
            forall|c: CoreId| #[trigger] final(rf).ier(c) == old(rf).ier(c),
            forall|c: CoreId| #[trigger] final(rf).isr(c) == old(rf).isr(c),
    {
        proof {
            lemma_fast_take_matches_take(rf.lock_word(self.line as int), self.core);
        }
        let rlr = rf.read_lock_read_reg(self.line, self.core);
        let lock_flag = (rlr & LOCK_BIT) == LOCK_BIT;
        let core_field = (rlr >> 8) & 0x0000_000F;
        let tag_field = rlr & 0x0000_00FF;
        lock_flag && core_field == self.core.bits() && tag_field == 0
    }

    /// Releases the line held under the given process tag: writes the
    /// unlocked word for (this core, `proc_id`). The hardware clears the
    /// line — and latches the pending interrupt bit of every core that
    /// watches it — only if the stored word matches this core and tag
    /// exactly; otherwise the write is discarded and nothing changes. No
    /// success indicator is returned; callers that must confirm release
    /// re-check through `take`/`fast_take`.
    pub fn release(&mut self, rf: &mut RegisterFile, proc_id: u8)
        requires
            old(self).wf(),
            old(rf).wf(),
        ensures
            *final(self) == *old(self),
            final(rf).wf(),
            final(rf).lock_word(old(self).spec_line() as int) == word_after_release(
                old(rf).lock_word(old(self).spec_line() as int),
                old(self).spec_core(),
                proc_id,
            ),
            forall|i: int|
                0 <= i < LINE_COUNT as int && i != old(self).spec_line() as int ==> #[trigger]
                    final(rf).lock_word(i) == old(rf).lock_word(i),
            forall|c: CoreId| #[trigger] final(rf).ier(c) == old(rf).ier(c),
            forall|c: CoreId| #[trigger] final(rf).isr(c) == if release_matches(
                old(rf).lock_word(old(self).spec_line() as int),
                old(self).spec_core(),
                proc_id,
            ) {
                isr_after_unlock(old(rf).isr(c), old(rf).ier(c), old(self).spec_line())
            } else {
                old(rf).isr(c)
            },
    {
        proof {
            lemma_locked_word_facts(self.core, proc_id);
        }
        let r_val: u32 = (self.core.bits() << 8) | (proc_id as u32);
        rf.write_lock_word(self.line, r_val);
    }
}

impl SemaIntr {
    /// The line this capability is bound to.
    pub closed spec fn spec_line(self) -> u8 {
        self.line
    }

    /// The core whose interrupt registers this capability drives.
    pub closed spec fn spec_core(self) -> CoreId {
        self.core
    }

    /// A capability is only ever built for a real line index.
    pub open spec fn wf(self) -> bool {
        self.spec_line() < LINE_COUNT
    }

    pub(crate) fn new(line: u8, core: CoreId) -> (c: SemaIntr)
        requires
            line < LINE_COUNT,
        ensures
            c.wf(),
            c.spec_line() == line,
            c.spec_core() == core,
    {
        SemaIntr { line, core }
    }

    /// Sets this line's bit in this core's interrupt-enable register:
    /// from now on an unlock of the line latches this core's pending bit.
    pub fn enable_irq(&mut self, rf: &mut RegisterFile)
        requires
            old(self).wf(),
            old(rf).wf(),
        ensures
            *final(self) == *old(self),
            final(rf).wf(),
            final(rf).ier(old(self).spec_core()) == ier_after_enable(
                old(rf).ier(old(self).spec_core()),
                old(self).spec_line(),
            ),
            forall|c: CoreId|
                c != old(self).spec_core() ==> #[trigger] final(rf).ier(c) == old(rf).ier(c),
            forall|c: CoreId| #[trigger] final(rf).isr(c) == old(rf).isr(c),
            forall|i: int|
                0 <= i < LINE_COUNT as int ==> #[trigger] final(rf).lock_word(i)
                    == old(rf).lock_word(i),
    {
        rf.set_ier_bit(self.core, self.line);
    }

    /// Clears this line's bit in this core's interrupt-enable register.
    /// An already pending bit stays pending: disabling only stops new
    /// events from latching.
    pub fn disable_irq(&mut self, rf: &mut RegisterFile)
        requires
            old(self).wf(),
            old(rf).wf(),
        ensures
            *final(self) == *old(self),
            final(rf).wf(),
            final(rf).ier(old(self).spec_core()) == ier_after_disable(
                old(rf).ier(old(self).spec_core()),
                old(self).spec_line(),
            ),
            forall|c: CoreId|
                c != old(self).spec_core() ==> #[trigger] final(rf).ier(c) == old(rf).ier(c),
            forall|c: CoreId| #[trigger] final(rf).isr(c) == old(rf).isr(c),
            forall|i: int|
                0 <= i < LINE_COUNT as int ==> #[trigger] final(rf).lock_word(i)
                    == old(rf).lock_word(i),
    {
        rf.clear_ier_bit(self.core, self.line);
    }

    /// Reads this line's bit of this core's interrupt-status register:
    /// true while an unlock event for the line is pending for this core.
    pub fn status_irq(&mut self, rf: &RegisterFile) -> (r: bool)
        requires
            old(self).wf(),
            rf.wf(),
        ensures
            *final(self) == *old(self),
            r == mask_bit(rf.isr(old(self).spec_core()), old(self).spec_line()),
    {
        let isr = rf.read_isr(self.core);
        (isr & (1u32 << self.line)) != 0
    }

    /// Writes a one to this line's bit of this core's interrupt-clear
    /// register: the pending bit is cleared, the enable bit untouched.
    pub fn clear_irq(&mut self, rf: &mut RegisterFile)
        requires
            old(self).wf(),
            old(rf).wf(),
        ensures
            *final(self) == *old(self),
            final(rf).wf(),
            final(rf).isr(old(self).spec_core()) == isr_after_clear(
                old(rf).isr(old(self).spec_core()),
                old(self).spec_line(),
            ),
            forall|c: CoreId|
                c != old(self).spec_core() ==> #[trigger] final(rf).isr(c) == old(rf).isr(c),
            forall|c: CoreId| #[trigger] final(rf).ier(c) == old(rf).ier(c),
            forall|i: int|
                0 <= i < LINE_COUNT as int ==> #[trigger] final(rf).lock_word(i)
                    == old(rf).lock_word(i),
    {
        rf.write_icr_bit(self.core, self.line);
    }
}

/// The handle for one semaphore line: owns, at most once each, the
/// line's lock capability and interrupt capability. Before a split both
/// capabilities are reachable through the handle's pass-through methods;
/// `split` moves them out exactly once, and afterwards the handle grants
/// access to neither.
pub struct Sema {
    line: u8,
    core: CoreId,
    op: Option<SemaOp>,
    intr: Option<SemaIntr>,
}

impl Sema {
    /// The line this handle was issued for.
    pub closed spec fn spec_line(self) -> u8 {
        self.line
    }

    /// The core this handle was issued on.
    pub closed spec fn spec_core(self) -> CoreId {
        self.core
    }

    /// Whether the handle still owns the lock capability.
    pub closed spec fn has_op(self) -> bool {
        self.op is Some
    }

    /// Whether the handle still owns the interrupt capability.
    pub closed spec fn has_intr(self) -> bool {
        self.intr is Some
    }

    /// The capabilities a handle holds are bound to the handle's own line
    /// and core.
    pub closed spec fn wf(self) -> bool {
        &&& self.line < LINE_COUNT
        &&& match self.op {
            Some(c) => c.spec_line() == self.line && c.spec_core() == self.core,
            None => true,
        }
        &&& match self.intr {
            Some(c) => c.spec_line() == self.line && c.spec_core() == self.core,
            None => true,
        }
    }

    pub(crate) fn new(line: u8, core: CoreId) -> (s: Sema)
        requires
            line < LINE_COUNT,
        ensures
            s.wf(),
            s.has_op(),
            s.has_intr(),
            s.spec_line() == line,
            s.spec_core() == core,
    {
        Sema { line, core, op: Some(SemaOp::new(line, core)), intr: Some(SemaIntr::new(line, core)) }
    }

    /// Consumes the handle's two capabilities, returning them as
    /// independent objects. A handle can be split only once: afterwards
    /// it owns neither capability, so no verified caller can split it —
    /// or pass a call through it — again.
    pub fn split(&mut self) -> (r: (SemaOp, SemaIntr))
        requires
            old(self).wf(),
            old(self).has_op(),
            old(self).has_intr(),
        ensures
            final(self).wf(),
            !final(self).has_op(),
            !final(self).has_intr(),
            final(self).spec_line() == old(self).spec_line(),
            final(self).spec_core() == old(self).spec_core(),
            r.0.wf(),
            r.0.spec_line() == old(self).spec_line(),
            r.0.spec_core() == old(self).spec_core(),
            r.1.wf(),
            r.1.spec_line() == old(self).spec_line(),
            r.1.spec_core() == old(self).spec_core(),
    {
        let intr = self.intr.take().unwrap();
        let op = self.op.take().unwrap();
        (op, intr)
    }

    /// Pass-through to [`SemaOp::take`] while the lock capability is
    /// still held.
    pub fn take(&mut self, rf: &mut RegisterFile, proc_id: u8) -> (r: bool)
        requires
            old(self).wf(),
            old(self).has_op(),
            old(rf).wf(),
        ensures
            *final(self) == *old(self),
            final(rf).wf(),
            r == take_succeeds(
                old(rf).lock_word(old(self).spec_line() as int),
                old(self).spec_core(),
                proc_id,
            ),
            final(rf).lock_word(old(self).spec_line() as int) == word_after_take(
                old(rf).lock_word(old(self).spec_line() as int),
                old(self).spec_core(),
                proc_id,
            ),
            forall|i: int|
                0 <= i < LINE_COUNT as int && i != old(self).spec_line() as int ==> #[trigger]
                    final(rf).lock_word(i) == old(rf).lock_word(i),
            forall|c: CoreId| #[trigger] final(rf).ier(c) == old(rf).ier(c),
            forall|c: CoreId| #[trigger] final(rf).isr(c) == old(rf).isr(c),
    {
        match &mut self.op {
            Some(op) => op.take(rf, proc_id),
            None => vstd::pervasive::unreached(),
        }
    }

    /// Pass-through to [`SemaOp::fast_take`] while the lock capability is
    /// still held.
    pub fn fast_take(&mut self, rf: &mut RegisterFile) -> (r: bool)
        requires
            old(self).wf(),
            old(self).has_op(),
            old(rf).wf(),
        ensures
            *final(self) == *old(self),
            final(rf).wf(),
            r == fast_take_succeeds(
                old(rf).lock_word(old(self).spec_line() as int),
                old(self).spec_core(),
            ),
            r == take_succeeds(
                old(rf).lock_word(old(self).spec_line() as int),
                old(self).spec_core(),
                0,
            ),
            final(rf).lock_word(old(self).spec_line() as int) == word_after_take(
                old(rf).lock_word(old(self).spec_line() as int),
                old(self).spec_core(),
                0,
            ),
            forall|i: int|
                0 <= i < LINE_COUNT as int && i != old(self).spec_line() as int ==> #[trigger]
                    final(rf).lock_word(i) == old(rf).lock_word(i),
            forall|c: CoreId| #[trigger] final(rf).ier(c) == old(rf).ier(c),
            forall|c: CoreId| #[trigger] final(rf).isr(c) == old(rf).isr(c),
    {
        match &mut self.op {
            Some(op) => op.fast_take(rf),
            None => vstd::pervasive::unreached(),
        }
    }

    /// Pass-through to [`SemaOp::release`] while the lock capability is
    /// still held.
    pub fn release(&mut self, rf: &mut RegisterFile, proc_id: u8)
        requires
            old(self).wf(),
            old(self).has_op(),
            old(rf).wf(),
        ensures
            *final(self) == *old(self),
            final(rf).wf(),
            final(rf).lock_word(old(self).spec_line() as int) == word_after_release(
                old(rf).lock_word(old(self).spec_line() as int),
                old(self).spec_core(),
                proc_id,
            ),
            forall|i: int|
                0 <= i < LINE_COUNT as int && i != old(self).spec_line() as int ==> #[trigger]
                    final(rf).lock_word(i) == old(rf).lock_word(i),
            forall|c: CoreId| #[trigger] final(rf).ier(c) == old(rf).ier(c),
            forall|c: CoreId| #[trigger] final(rf).isr(c) == if release_matches(
                old(rf).lock_word(old(self).spec_line() as int),
                old(self).spec_core(),
                proc_id,
            ) {
                isr_after_unlock(old(rf).isr(c), old(rf).ier(c), old(self).spec_line())
            } else {
                old(rf).isr(c)
            },
    {
        match &mut self.op {
            Some(op) => op.release(rf, proc_id),
            None => vstd::pervasive::unreached(),
        }
    }

    /// Pass-through to [`SemaIntr::enable_irq`] while the interrupt
    /// capability is still held.
    pub fn enable_irq(&mut self, rf: &mut RegisterFile)
        requires
            old(self).wf(),
            old(self).has_intr(),
            old(rf).wf(),
        ensures
            *final(self) == *old(self),
            final(rf).wf(),
            final(rf).ier(old(self).spec_core()) == ier_after_enable(
                old(rf).ier(old(self).spec_core()),
                old(self).spec_line(),
            ),
            forall|c: CoreId|
                c != old(self).spec_core() ==> #[trigger] final(rf).ier(c) == old(rf).ier(c),
            forall|c: CoreId| #[trigger] final(rf).isr(c) == old(rf).isr(c),
            forall|i: int|
                0 <= i < LINE_COUNT as int ==> #[trigger] final(rf).lock_word(i)
                    == old(rf).lock_word(i),
    {
        match &mut self.intr {
            Some(intr) => intr.enable_irq(rf),
            None => vstd::pervasive::unreached(),
        }
    }

    /// Pass-through to [`SemaIntr::disable_irq`] while the interrupt
    /// capability is still held.
    pub fn disable_irq(&mut self, rf: &mut RegisterFile)
        requires
            old(self).wf(),
            old(self).has_intr(),
            old(rf).wf(),
        ensures
            *final(self) == *old(self),
            final(rf).wf(),
            final(rf).ier(old(self).spec_core()) == ier_after_disable(
                old(rf).ier(old(self).spec_core()),
                old(self).spec_line(),
            ),
            forall|c: CoreId|
                c != old(self).spec_core() ==> #[trigger] final(rf).ier(c) == old(rf).ier(c),
            forall|c: CoreId| #[trigger] final(rf).isr(c) == old(rf).isr(c),
            forall|i: int|
                0 <= i < LINE_COUNT as int ==> #[trigger] final(rf).lock_word(i)
                    == old(rf).lock_word(i),
    {
        match &mut self.intr {
            Some(intr) => intr.disable_irq(rf),
            None => vstd::pervasive::unreached(),
        }
    }

    /// Pass-through to [`SemaIntr::status_irq`] while the interrupt
    /// capability is still held.
    pub fn status_irq(&mut self, rf: &RegisterFile) -> (r: bool)
        requires
            old(self).wf(),
            old(self).has_intr(),
            rf.wf(),
        ensures
            *final(self) == *old(self),
            r == mask_bit(rf.isr(old(self).spec_core()), old(self).spec_line()),
    {
        match &mut self.intr {
            Some(intr) => intr.status_irq(rf),
            None => vstd::pervasive::unreached(),
        }
    }

    /// Pass-through to [`SemaIntr::clear_irq`] while the interrupt
    /// capability is still held.
    pub fn clear_irq(&mut self, rf: &mut RegisterFile)
        requires
            old(self).wf(),
            old(self).has_intr(),
            old(rf).wf(),
        ensures
            *final(self) == *old(self),
            final(rf).wf(),
            final(rf).isr(old(self).spec_core()) == isr_after_clear(
                old(rf).isr(old(self).spec_core()),
                old(self).spec_line(),
            ),
            forall|c: CoreId|
                c != old(self).spec_core() ==> #[trigger] final(rf).isr(c) == old(rf).isr(c),
            forall|c: CoreId| #[trigger] final(rf).ier(c) == old(rf).ier(c),
            forall|i: int|
                0 <= i < LINE_COUNT as int ==> #[trigger] final(rf).lock_word(i)
                    == old(rf).lock_word(i),
    {
        match &mut self.intr {
            Some(intr) => intr.clear_irq(rf),
            None => vstd::pervasive::unreached(),
        }
    }
}

} // verus!
