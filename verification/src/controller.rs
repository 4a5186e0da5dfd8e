//! The controller: owner of the handle-issuing protocol.
//!
//! A controller is built once per core, after the peripheral's
//! clock/reset step, and yields at most one live [`Sema`] handle per
//! line. Issuing the same line twice is a build-time logic error, so
//! [`Hsem::line`] demands — as a precondition a verified caller must meet
//! — that the line has not been issued before, and records the issue so
//! that no verified caller can meet it a second time.

use vstd::prelude::*;

use crate::regs::RegisterFile;
use crate::sema::Sema;
use crate::word::CoreId;
use crate::word::LINE_COUNT;
use crate::word::mask_bit;

verus! {

/// The clock/reset collaborator for the peripheral block: the capability
/// to enable the peripheral's bus clock and to pulse its reset line.
pub struct Prec {
    enabled: bool,
}

impl Prec {
    /// Whether the peripheral's bus clock has been switched on.
    pub closed spec fn clock_on(self) -> bool {
        self.enabled
    }

    /// The collaborator as handed over at system init, clock still off.
    pub fn new() -> (p: Prec)
        ensures
            !p.clock_on(),
    {
        Prec { enabled: false }
    }

    /// Switches the peripheral's bus clock on.
    pub fn enable(self) -> (p: Prec)
        ensures
            p.clock_on(),
    {
        Prec { enabled: true }
    }

    /// Pulses the peripheral's reset line: every semaphore line returns
    /// to free and all interrupt state is cleared, as at power-on.
    pub fn reset(self, rf: &mut RegisterFile) -> (p: Prec)
        requires
            self.clock_on(),
        ensures
            p.clock_on(),
            final(rf).wf(),
            final(rf).is_reset(),
    {
        *rf = RegisterFile::new();
        self
    }
}

/// The controller for this core: yields one one-shot handle per line.
pub struct Hsem {
    core: CoreId,
    issued: u32,
    prec: Prec,
}

impl Hsem {
    /// The core this controller was built on.
    pub closed spec fn spec_core(self) -> CoreId {
        self.core
    }

    /// The bitmask of lines whose handle has already been issued.
    pub closed spec fn issued_mask(self) -> u32 {
        self.issued
    }

    /// Whether the handle for line `n` has already been issued.
    pub open spec fn issued(self, n: u8) -> bool {
        mask_bit(self.issued_mask(), n)
    }

    /// A controller only exists with the peripheral clock running.
    pub closed spec fn wf(self) -> bool {
        self.prec.clock_on()
    }

    /// One-shot accessor for line `n`: hands out the line's handle,
    /// carrying both capabilities, and records the issue so that no
    /// verified caller can obtain a second live handle for the same line
    /// from this controller. Other lines' slots are untouched.
    pub fn line(&mut self, n: u8) -> (s: Sema)
        requires
            old(self).wf(),
            n < LINE_COUNT,
            !old(self).issued(n),
        ensures
            final(self).wf(),
            final(self).spec_core() == old(self).spec_core(),
            final(self).issued(n),
            forall|k: u8|
                k < LINE_COUNT && k != n ==> #[trigger] final(self).issued(k) == old(self).issued(
                    k,
                ),
            s.wf(),
            s.has_op(),
            s.has_intr(),
            s.spec_line() == n,
            s.spec_core() == old(self).spec_core(),
    {
        let ghost m = self.issued;
        self.issued = self.issued | (1u32 << n);
        proof {
            assert(mask_bit(m | (1u32 << n), n)) by (bit_vector)
                requires
                    n < 32,
            ;
            assert forall|k: u8|
                k < LINE_COUNT && k != n implies #[trigger] mask_bit(m | (1u32 << n), k)
                == mask_bit(m, k) by {
                assert(mask_bit(m | (1u32 << n), k) == mask_bit(m, k)) by (bit_vector)
                    requires
                        n < 32,
                        k < 32,
                        k != n,
                ;
            }
        }
        Sema::new(n, self.core)
    }
}

/// Constructors for the controller, one per reset policy: `hsem` enables
/// the peripheral clock and resets the peripheral's state, while
/// `hsem_without_reset` enables the clock only and leaves every line and
/// all interrupt state as found — the choice matters on the second core,
/// which must not wipe locks the first core already holds.
pub trait HsemExt: Sized {
    /// The core the built controller will issue handles on.
    spec fn spec_core(self) -> CoreId;

    /// Builds the controller after enabling the clock and resetting the
    /// peripheral: every line free, no interrupt enabled or pending, no
    /// handle issued yet.
    fn hsem(self, prec: Prec, rf: &mut RegisterFile) -> (h: Hsem)
        ensures
            h.wf(),
            h.spec_core() == self.spec_core(),
            forall|n: u8| n < LINE_COUNT ==> !#[trigger] h.issued(n),
            final(rf).wf(),
            final(rf).is_reset(),
    ;

    /// Builds the controller after enabling the clock only: the register
    /// file keeps whatever state it had, and no handle is issued yet.
    fn hsem_without_reset(self, prec: Prec) -> (h: Hsem)
        ensures
            h.wf(),
            h.spec_core() == self.spec_core(),
            forall|n: u8| n < LINE_COUNT ==> !#[trigger] h.issued(n),
    ;
}

impl HsemExt for CoreId {
    open spec fn spec_core(self) -> CoreId {
        self
    }

    fn hsem(self, prec: Prec, rf: &mut RegisterFile) -> (h: Hsem) {
        let prec = prec.enable();
        let prec = prec.reset(rf);
        proof {
            lemma_zero_mask_has_no_bits();
        }
        Hsem { core: self, issued: 0, prec }
    }

    fn hsem_without_reset(self, prec: Prec) -> (h: Hsem) {
        let prec = prec.enable();
        proof {
            lemma_zero_mask_has_no_bits();
        }
        Hsem { core: self, issued: 0, prec }
    }
}

/// No bit of the all-zero issue mask is set.
proof fn lemma_zero_mask_has_no_bits()
    ensures
        forall|n: u8| !#[trigger] mask_bit(0u32, n),
{
    assert forall|n: u8| !#[trigger] mask_bit(0u32, n) by {
        assert(0u32 & (1u32 << n) == 0) by (bit_vector);
    }
}

} // verus!
