//! CPU and GPU affinity requests. Without kernel support for pinning, both
//! requests are accepted.

use vstd::prelude::*;

verus! {

/// Pins the current task to `core_id`; accepted for every core.
pub fn set_core_affinity(core_id: usize) -> (r: Result<(), &'static str>)
    ensures
        r == Ok::<(), &'static str>(()),
{
    Ok(())
}

/// Assigns GPU `gpu_id` to the current task; accepted for every GPU.
pub fn set_gpu_affinity(gpu_id: usize) -> (r: Result<(), &'static str>)
    ensures
        r == Ok::<(), &'static str>(()),
{
    Ok(())
}

} // verus!
