//! Lock word protocol: take, fast take and release, within one core and
//! across the two cores sharing one register file.

use hsem::controller::HsemExt;
use hsem::controller::Prec;
use hsem::regs::RegisterFile;
use hsem::word::CoreId;

#[test]
fn take_succeeds_on_free_line() {
    let mut rf = RegisterFile::new();
    let mut h = CoreId::Cpu1.hsem(Prec::new(), &mut rf);
    let mut s = h.line(0);
    assert!(s.take(&mut rf, 1));
}

#[test]
fn take_same_tag_again_still_reads_back_equal() {
    // The hardware discards the second write, but the read-back still
    // matches the word already stored, so the comparison reports success.
    let mut rf = RegisterFile::new();
    let mut h = CoreId::Cpu1.hsem(Prec::new(), &mut rf);
    let mut s = h.line(2);
    assert!(s.take(&mut rf, 6));
    assert!(s.take(&mut rf, 6));
}

#[test]
fn same_core_other_tag_is_shut_out() {
    let mut rf = RegisterFile::new();
    let mut h = CoreId::Cpu1.hsem(Prec::new(), &mut rf);
    let mut s = h.line(5);
    assert!(s.take(&mut rf, 1));
    // A take under a different tag fails while the line is held.
    assert!(!s.take(&mut rf, 2));
    // A release under the wrong tag is a no-op: the lock stays held.
    s.release(&mut rf, 2);
    assert!(!s.take(&mut rf, 2));
    // The matching release frees the line for any tag.
    s.release(&mut rf, 1);
    assert!(s.take(&mut rf, 2));
}

#[test]
fn take_release_cycle_leaves_line_free() {
    let mut rf = RegisterFile::new();
    let mut h = CoreId::Cpu1.hsem(Prec::new(), &mut rf);
    let mut s = h.line(31);
    assert!(s.take(&mut rf, 7));
    s.release(&mut rf, 7);
    assert!(s.take(&mut rf, 9));
    s.release(&mut rf, 9);
    assert!(s.take(&mut rf, 7));
}

#[test]
fn fast_take_agrees_with_take_zero() {
    let mut rf = RegisterFile::new();
    let mut ha = CoreId::Cpu1.hsem(Prec::new(), &mut rf);
    let mut hb = CoreId::Cpu2.hsem_without_reset(Prec::new());

    // Two lines prepared identically: on one we run fast_take, on the
    // other take(0); the outcomes agree state for state.
    let mut sa1 = ha.line(1);
    let mut sa2 = ha.line(2);
    assert!(sa1.fast_take(&mut rf));
    assert!(sa2.take(&mut rf, 0));

    // Held by this core under tag 0: both paths still report success.
    assert!(sa1.fast_take(&mut rf));
    assert!(sa2.take(&mut rf, 0));

    // Held by the other core: both paths fail.
    let mut sb1 = hb.line(1);
    let mut sb2 = hb.line(2);
    assert!(!sb1.fast_take(&mut rf));
    assert!(!sb2.take(&mut rf, 0));

    // Held under a nonzero tag: both paths fail.
    let mut sa3 = ha.line(3);
    let mut sa4 = ha.line(4);
    assert!(sa3.take(&mut rf, 5));
    assert!(sa4.take(&mut rf, 5));
    assert!(!sa3.fast_take(&mut rf));
    assert!(!sa4.take(&mut rf, 0));
}

#[test]
fn fast_take_locks_the_line() {
    let mut rf = RegisterFile::new();
    let mut ha = CoreId::Cpu1.hsem(Prec::new(), &mut rf);
    let mut hb = CoreId::Cpu2.hsem_without_reset(Prec::new());
    let mut sa = ha.line(12);
    let mut sb = hb.line(12);
    assert!(sa.fast_take(&mut rf));
    assert!(!sb.take(&mut rf, 0));
    assert!(!sb.fast_take(&mut rf));
    // The fast path locks under tag 0, so the matching release frees it.
    sa.release(&mut rf, 0);
    assert!(sb.fast_take(&mut rf));
}

#[test]
fn cross_core_contention_end_to_end() {
    let mut rf = RegisterFile::new();
    let mut ha = CoreId::Cpu1.hsem(Prec::new(), &mut rf);
    let mut hb = CoreId::Cpu2.hsem_without_reset(Prec::new());
    let mut sa = ha.line(10);
    let mut sb = hb.line(10);
    assert!(sa.take(&mut rf, 5));
    assert!(!sb.take(&mut rf, 9));
    sa.release(&mut rf, 5);
    assert!(sb.take(&mut rf, 9));
}

#[test]
fn release_by_non_owner_core_is_noop() {
    let mut rf = RegisterFile::new();
    let mut ha = CoreId::Cpu1.hsem(Prec::new(), &mut rf);
    let mut hb = CoreId::Cpu2.hsem_without_reset(Prec::new());
    let mut sa = ha.line(20);
    let mut sb = hb.line(20);
    assert!(sa.take(&mut rf, 4));
    // Same tag, wrong core: the hardware ignores the write.
    sb.release(&mut rf, 4);
    assert!(!sb.take(&mut rf, 4));
    // The owner's release works.
    sa.release(&mut rf, 4);
    assert!(sb.take(&mut rf, 4));
}

#[test]
fn lines_are_independent() {
    let mut rf = RegisterFile::new();
    let mut h = CoreId::Cpu1.hsem(Prec::new(), &mut rf);
    let mut s8 = h.line(8);
    let mut s9 = h.line(9);
    assert!(s8.take(&mut rf, 3));
    // Holding line 8 does not lock line 9.
    assert!(s9.take(&mut rf, 3));
    s8.release(&mut rf, 3);
    // Releasing line 8 does not release line 9.
    assert!(!s9.take(&mut rf, 4));
}
