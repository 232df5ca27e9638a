//! Timing policy for bringing up application processors under emulation:
//! timeouts are stretched when running in CI or under QEMU TCG.

use vstd::prelude::*;

verus! {

/// Boot status value an application processor stores once it is ready.
pub const AP_BOOT_SUCCESS: u32 = 3;

/// Interrupt vector of the "AP ready" notification.
pub const AP_READY_VECTOR: u8 = 0xF2;

/// Polls of the IPI delivery status before giving up.
pub const MAX_IPI_POLLS: u32 = 100_000;

/// Whether this build runs in a CI environment (the fast CI build flag is
/// not set in this configuration).
pub fn is_ci_environment() -> (r: bool)
    ensures
        !r,
{
    false
}

/// Timeout multiplier: ten under CI or QEMU TCG, one otherwise.
pub fn get_timeout_multiplier(qemu_tcg: bool) -> (r: u64)
    ensures
        r == (if is_ci_build() || qemu_tcg { 10u64 } else { 1u64 }),
{
    if is_ci_environment() || qemu_tcg {
        10
    } else {
        1
    }
}

/// The CI flag of this build.
pub open spec fn is_ci_build() -> bool {
    false
}

/// Time allowed for an application processor to report ready: 30 s under
/// CI, 10 s otherwise.
pub fn ap_wait_timeout_ms(ci: bool) -> (r: u64)
    ensures
        r == (if ci { 30_000u64 } else { 10_000u64 }),
{
    if ci {
        30_000
    } else {
        10_000
    }
}

/// Outcome of polling the IPI delivery status: after `polls` busy polls it
/// is a timeout once the count exceeds the limit.
pub fn ipi_poll_outcome(polls: u32) -> (r: Result<(), &'static str>)
    ensures
        polls > MAX_IPI_POLLS ==> r == Err::<(), &'static str>("IPI delivery timeout"),
        polls <= MAX_IPI_POLLS ==> r == Ok::<(), &'static str>(()),
{
    if polls > MAX_IPI_POLLS {
        Err("IPI delivery timeout")
    } else {
        Ok(())
    }
}

/// Whether a boot status word reports a ready processor.
pub fn ap_is_ready(status: u32) -> (r: bool)
    ensures
        r == (status == AP_BOOT_SUCCESS),
{
    status == AP_BOOT_SUCCESS
}

/// Sends IPI `vector` to `dest_apic_id` through `send`, then polls the
/// delivery status through `pending` until the IPI left; a timeout once
/// more than `MAX_IPI_POLLS` polls found it pending.
pub fn send_ipi_checked<S: Fn(u32, u32), P: Fn() -> bool>(dest_apic_id: u32, vector: u32, send: &S, pending: &P) -> (r:
    Result<(), &'static str>)
    requires
        send.requires((dest_apic_id, vector)),
        forall|u: ()| pending.requires(u),
    ensures
        r is Ok || r == Err::<(), &'static str>("IPI delivery timeout"),
        (forall|b: bool| #[trigger] pending.ensures((), b) ==> !b) ==> r is Ok,
        (forall|b: bool| #[trigger] pending.ensures((), b) ==> b) ==> r == Err::<(), &'static str>(
            "IPI delivery timeout",
        ),
{
    send(dest_apic_id, vector);
    let mut polls: u32 = 0;
    loop
        invariant
            polls <= MAX_IPI_POLLS,
            forall|u: ()| pending.requires(u),
        ensures
            (forall|b: bool| #[trigger] pending.ensures((), b) ==> b) ==> false,
        decreases MAX_IPI_POLLS - polls,
    {
        let still_pending = pending();
        if !still_pending {
            break;
        }
        polls = polls + 1;
        if polls > MAX_IPI_POLLS {
            return Err("IPI delivery timeout");
        }
    }
    Ok(())
}

/// A boot status word on a cache line of its own.
#[derive(Clone, Copy, Debug, PartialEq, Eq, Structural)]
pub struct PaddedAtomicU32(pub u32);

impl PaddedAtomicU32 {
    pub fn new(val: u32) -> (r: Self)
        ensures
            r.0 == val,
    {
        PaddedAtomicU32(val)
    }
}

/// An application processor reports itself ready: its boot status becomes
/// `AP_BOOT_SUCCESS`, then the boot processor (APIC 0) is woken with the
/// ready vector.
pub fn ap_signal_ready<S: Fn(u32, u32), P: Fn() -> bool>(
    statuses: &mut Vec<PaddedAtomicU32>,
    cpu_id: u32,
    send: &S,
    pending: &P,
)
    requires
        cpu_id < old(statuses)@.len(),
        send.requires((0u32, AP_READY_VECTOR as u32)),
        forall|u: ()| pending.requires(u),
    ensures
        final(statuses)@ == old(statuses)@.update(cpu_id as int, PaddedAtomicU32(AP_BOOT_SUCCESS)),
{
    statuses.set(cpu_id as usize, PaddedAtomicU32::new(AP_BOOT_SUCCESS));
    let _ = send_ipi_checked(0, AP_READY_VECTOR as u32, send, pending);
}

} // verus!
