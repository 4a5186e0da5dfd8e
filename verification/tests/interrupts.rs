//! Per-core interrupt state: enable, disable, status and clear, and the
//! unlock events that latch pending bits.

use hsem::controller::HsemExt;
use hsem::controller::Prec;
use hsem::regs::RegisterFile;
use hsem::word::CoreId;

#[test]
fn irq_roundtrip_enable_unlock_clear() {
    let mut rf = RegisterFile::new();
    let mut h = CoreId::Cpu1.hsem(Prec::new(), &mut rf);
    let mut s = h.line(4);
    s.enable_irq(&mut rf);
    assert!(!s.status_irq(&rf));
    assert!(s.take(&mut rf, 0));
    // Taking a line is not an unlock event.
    assert!(!s.status_irq(&rf));
    s.release(&mut rf, 0);
    assert!(s.status_irq(&rf));
    // Clearing the pending bit needs no disable, and the line stays
    // enabled: the next unlock latches the bit anew.
    s.clear_irq(&mut rf);
    assert!(!s.status_irq(&rf));
    assert!(s.take(&mut rf, 1));
    s.release(&mut rf, 1);
    assert!(s.status_irq(&rf));
}

#[test]
fn irq_not_latched_while_disabled() {
    let mut rf = RegisterFile::new();
    let mut h = CoreId::Cpu1.hsem(Prec::new(), &mut rf);
    let mut s = h.line(11);
    assert!(s.take(&mut rf, 2));
    s.release(&mut rf, 2);
    // The line was never enabled, so the unlock latched nothing.
    assert!(!s.status_irq(&rf));
    s.enable_irq(&mut rf);
    s.disable_irq(&mut rf);
    assert!(s.take(&mut rf, 2));
    s.release(&mut rf, 2);
    // Disabled again before the event: still nothing pending.
    assert!(!s.status_irq(&rf));
}

#[test]
fn disable_keeps_already_pending_bit() {
    let mut rf = RegisterFile::new();
    let mut h = CoreId::Cpu1.hsem(Prec::new(), &mut rf);
    let mut s = h.line(13);
    s.enable_irq(&mut rf);
    assert!(s.take(&mut rf, 1));
    s.release(&mut rf, 1);
    assert!(s.status_irq(&rf));
    // Disabling stops new events but does not clear the latched one.
    s.disable_irq(&mut rf);
    assert!(s.status_irq(&rf));
    s.clear_irq(&mut rf);
    assert!(!s.status_irq(&rf));
}

#[test]
fn unlock_event_reaches_the_other_core() {
    let mut rf = RegisterFile::new();
    let mut ha = CoreId::Cpu1.hsem(Prec::new(), &mut rf);
    let mut hb = CoreId::Cpu2.hsem_without_reset(Prec::new());
    let mut sa = ha.line(5);
    let mut sb = hb.line(5);
    sb.enable_irq(&mut rf);
    assert!(sa.take(&mut rf, 6));
    assert!(!sb.status_irq(&rf));
    sa.release(&mut rf, 6);
    // The watching core sees the event; the releasing core, which never
    // enabled the line for itself, does not.
    assert!(sb.status_irq(&rf));
    assert!(!sa.status_irq(&rf));
}

#[test]
fn irq_state_is_per_line() {
    let mut rf = RegisterFile::new();
    let mut h = CoreId::Cpu1.hsem(Prec::new(), &mut rf);
    let mut s3 = h.line(3);
    let mut s9 = h.line(9);
    s3.enable_irq(&mut rf);
    s9.enable_irq(&mut rf);
    assert!(s3.take(&mut rf, 0));
    s3.release(&mut rf, 0);
    // Only the line with the unlock event is pending.
    assert!(s3.status_irq(&rf));
    assert!(!s9.status_irq(&rf));
    // Clearing line 3 does not touch line 9's enable or pending state.
    s3.clear_irq(&mut rf);
    assert!(!s3.status_irq(&rf));
    assert!(s9.take(&mut rf, 0));
    s9.release(&mut rf, 0);
    assert!(s9.status_irq(&rf));
}
