//! The handle-issuing and split protocol, and the two reset policies of
//! the controller constructors.

use hsem::controller::HsemExt;
use hsem::controller::Prec;
use hsem::regs::RegisterFile;
use hsem::word::CoreId;

#[test]
fn distinct_lines_issue_independently() {
    let mut rf = RegisterFile::new();
    let mut h = CoreId::Cpu1.hsem(Prec::new(), &mut rf);
    let mut s3 = h.line(3);
    let mut s7 = h.line(7);
    assert!(s3.take(&mut rf, 1));
    assert!(s7.take(&mut rf, 1));
}

#[test]
fn split_yields_both_working_capabilities() {
    let mut rf = RegisterFile::new();
    let mut h = CoreId::Cpu1.hsem(Prec::new(), &mut rf);
    let mut s = h.line(6);
    let (mut op, mut intr) = s.split();
    // The lock capability locks and unlocks the line.
    assert!(op.take(&mut rf, 2));
    assert!(!op.take(&mut rf, 3));
    // The interrupt capability drives this line's interrupt state.
    intr.enable_irq(&mut rf);
    assert!(!intr.status_irq(&rf));
    op.release(&mut rf, 2);
    assert!(intr.status_irq(&rf));
    intr.clear_irq(&mut rf);
    assert!(!intr.status_irq(&rf));
}

#[test]
fn split_capabilities_move_to_independent_owners() {
    let mut rf = RegisterFile::new();
    let mut ha = CoreId::Cpu1.hsem(Prec::new(), &mut rf);
    let mut hb = CoreId::Cpu2.hsem_without_reset(Prec::new());
    let mut sa = ha.line(15);
    let (mut op_a, mut intr_a) = sa.split();

    // The moved lock capability still arbitrates against the other core.
    let mut sb = hb.line(15);
    assert!(op_a.take(&mut rf, 8));
    assert!(!sb.take(&mut rf, 8));

    // The moved interrupt capability sees the unlock the other core
    // provokes by failing (no event) and this core's release (event).
    intr_a.enable_irq(&mut rf);
    assert!(!intr_a.status_irq(&rf));
    op_a.release(&mut rf, 8);
    assert!(intr_a.status_irq(&rf));
}

#[test]
fn constructor_with_reset_frees_held_lines() {
    let mut rf = RegisterFile::new();
    let mut ha = CoreId::Cpu1.hsem(Prec::new(), &mut rf);
    let mut sa = ha.line(1);
    assert!(sa.take(&mut rf, 3));
    // A full clock-and-reset construction wipes the peripheral state.
    let mut hb = CoreId::Cpu2.hsem(Prec::new(), &mut rf);
    let mut sb = hb.line(1);
    assert!(sb.take(&mut rf, 4));
}

#[test]
fn constructor_without_reset_keeps_held_lines() {
    let mut rf = RegisterFile::new();
    let mut ha = CoreId::Cpu1.hsem(Prec::new(), &mut rf);
    let mut sa = ha.line(1);
    assert!(sa.take(&mut rf, 3));
    // Clock-only construction leaves the first core's lock in place.
    let mut hb = CoreId::Cpu2.hsem_without_reset(Prec::new());
    let mut sb = hb.line(1);
    assert!(!sb.take(&mut rf, 4));
}
