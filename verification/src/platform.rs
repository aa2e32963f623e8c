use vstd::prelude::*;

verus! {

/// Relies on x86_64::instructions::interrupts::disable: executes `cli`,
/// masking maskable interrupts on the current core. Hardware state only;
/// no value of this library changes.
#[verifier::external_body]
pub(crate) fn disable_interrupts() {
    x86_64::instructions::interrupts::disable()
}

/// Relies on x86_64::instructions::interrupts::enable: executes `sti`,
/// unmasking maskable interrupts on the current core.
#[verifier::external_body]
pub(crate) fn enable_interrupts() {
    x86_64::instructions::interrupts::enable()
}

/// Relies on x86_64::instructions::interrupts::enable_and_hlt: executes
/// `sti; hlt` as one pair, so the core halts before any re-enabled
/// interrupt can be delivered; the next interrupt resumes it. This is the
/// indivisible check-then-idle primitive the scheduler's race-free halt
/// rests on.
#[verifier::external_body]
pub(crate) fn enable_interrupts_and_halt() {
    x86_64::instructions::interrupts::enable_and_hlt()
}

} // verus!
