//! Driver core for a two-core hardware semaphore peripheral.
//!
//! The peripheral offers 32 independent semaphore lines. Each line is a
//! 32-bit lock word that either core can try to claim with an atomic
//! register write; the hardware accepts the write only while the line is
//! free, which gives software a race-free test-and-set. On top of the
//! registers this crate layers an ownership protocol: a controller issues
//! at most one handle per line, and a handle can be split exactly once
//! into an independently movable lock capability and interrupt capability.
//!
//! The register file itself is modelled as an explicit value
//! ([`regs::RegisterFile`]) so that the hardware's acceptance rules — and
//! the driver logic above them — are stated and proved, not assumed.
//!
//! Error taxonomy: contention (the other core holds the line) is a
//! recoverable condition, surfaced as a `false` return from the take
//! operations, with retry policy left to the caller. Protocol violations
//! — issuing a line's handle twice, splitting a handle twice, using a
//! capability after it was split away — are build-time logic errors; here
//! they are ruled out at verification time by the functions'
//! preconditions, so no runtime abort path for them exists or is needed.

pub mod controller;
pub mod laws;
pub mod regs;
pub mod sema;
pub mod word;
