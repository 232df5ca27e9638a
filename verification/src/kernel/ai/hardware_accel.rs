//! Hardware acceleration devices (CPU SIMD, NPU, GPU) and the choice of the
//! device that runs an operation.

use vstd::prelude::*;
use crate::kernel::ai::memory_pool::AIBuffer;

verus! {

/// Hardware acceleration types.
#[derive(Clone, Copy, PartialEq, Eq, Structural, Debug)]
pub enum AccelType {
    CPU,
    NPU,
    GPU,
    DSP,
}

/// Hardware acceleration capabilities.
#[derive(Clone, Copy, Debug)]
pub struct AccelCapabilities {
    pub accel_type: AccelType,
    pub compute_units: u32,
    pub memory_bandwidth_mbps: u32,
    pub peak_flops: u64,
    pub mixed_precision: bool,
    pub sparse_ops: bool,
}

/// Hardware acceleration operation types.
#[derive(Clone, Copy, PartialEq, Eq, Structural, Debug)]
pub enum AccelOperation {
    MatMul,
    Convolution,
    Activation,
    Pooling,
    Normalization,
    Custom,
}

/// Device statistics.
#[derive(Clone, Copy, Debug)]
pub struct DeviceStats {
    pub accel_type: AccelType,
    pub utilization: u32,
    pub operations_completed: u64,
    pub available: bool,
    pub power_state: u32,
}

/// Utilisation a device reports while it runs an operation.
pub const BUSY_UTILIZATION: u32 = 85;
/// Utilisation a device reports once an operation is done.
pub const IDLE_UTILIZATION: u32 = 10;

/// Hardware accelerator device.
pub struct AccelDevice {
    capabilities: AccelCapabilities,
    utilization: u32,
    operations_completed: u64,
    available: bool,
    power_state: u32,
}

impl AccelDevice {
    /// A device as detected: ready, idle, with nothing completed.
    pub closed spec fn fresh(caps: AccelCapabilities) -> AccelDevice {
        AccelDevice { capabilities: caps, utilization: 0, operations_completed: 0, available: true, power_state: 1 }
    }

    pub closed spec fn caps(&self) -> AccelCapabilities {
        self.capabilities
    }

    pub closed spec fn util(&self) -> u32 {
        self.utilization
    }

    pub closed spec fn completed(&self) -> u64 {
        self.operations_completed
    }

    pub closed spec fn ready(&self) -> bool {
        self.available
    }

    pub closed spec fn power(&self) -> u32 {
        self.power_state
    }

    /// Utilisation is a percentage.
    pub open spec fn wf(&self) -> bool {
        self.util() <= 100
    }

    /// An idle, available, powered device.
    pub fn new(capabilities: AccelCapabilities) -> (r: Self)
        ensures
            r.wf(),
            r.caps() == capabilities,
            r.util() == 0,
            r.completed() == 0,
            r.ready(),
            r.power() == 1,
    {
        AccelDevice {
            capabilities,
            utilization: 0,
            operations_completed: 0,
            available: true,
            power_state: 1,
        }
    }

    /// Runs an operation; returns its duration in microseconds as the
    /// device's clock measures it (which does not advance during an
    /// operation). An unavailable device refuses.
    pub fn execute_operation(
        &mut self,
        _input: &AIBuffer,
        _output: &AIBuffer,
        _operation: AccelOperation,
    ) -> (r: Result<u64, &'static str>)
        requires
            old(self).wf(),
            old(self).completed() <= u64::MAX / 100,
        ensures
            final(self).wf(),
            r is Err <==> !old(self).ready(),
            r is Err ==> *final(self) == *old(self),
            r is Ok ==> r == Ok::<u64, &'static str>(0) && *final(self) == device_after_run(*old(self)),
            r is Ok ==> final(self).util() == IDLE_UTILIZATION && final(self).completed() == old(self).completed() + 1,
            final(self).caps() == old(self).caps(),
            final(self).ready() == old(self).ready(),
            final(self).power() == old(self).power(),
    {
        if !self.available {
            return Err("Device not available");
        }
        let start_time = self.get_current_time_us();
        self.utilization = BUSY_UTILIZATION;
        self.utilization = IDLE_UTILIZATION;
        let end_time = self.get_current_time_us();
        let duration = end_time - start_time;
        self.operations_completed = self.operations_completed + 1;
        Ok(duration)
    }

    /// Device capabilities.
    pub fn capabilities(&self) -> (r: AccelCapabilities)
        ensures
            r == self.caps(),
    {
        self.capabilities
    }

    /// Current utilisation.
    pub fn utilization(&self) -> (r: u32)
        ensures
            r == self.util(),
    {
        self.utilization
    }

    /// Whether the device takes work.
    pub fn is_available(&self) -> (r: bool)
        ensures
            r == self.ready(),
    {
        self.available
    }

    /// Device statistics.
    pub fn get_stats(&self) -> (r: DeviceStats)
        ensures
            r.accel_type == self.caps().accel_type,
            r.utilization == self.util(),
            r.operations_completed == self.completed(),
            r.available == self.ready(),
            r.power_state == self.power(),
    {
        DeviceStats {
            accel_type: self.capabilities.accel_type,
            utilization: self.utilization,
            operations_completed: self.operations_completed,
            available: self.available,
            power_state: self.power_state,
        }
    }

    /// Device clock: a hundred microseconds per completed operation.
    fn get_current_time_us(&self) -> (r: u64)
        requires
            self.completed() <= u64::MAX / 100,
        ensures
            r == self.completed() * 100,
    {
        self.operations_completed * 100
    }
}

/// Preference bonus of a device type for an operation.
pub open spec fn affinity_bonus(t: AccelType, op: AccelOperation) -> u32 {
    match (t, op) {
        (AccelType::NPU, AccelOperation::MatMul) => 50,
        (AccelType::NPU, AccelOperation::Convolution) => 40,
        (AccelType::GPU, AccelOperation::MatMul) => 30,
        (AccelType::GPU, AccelOperation::Convolution) => 35,
        (AccelType::CPU, _) => 10,
        _ => 0,
    }
}

/// Score of a device for an operation: idle share plus type bonus.
pub open spec fn device_score(d: AccelDevice, op: AccelOperation) -> int {
    100 - d.util() + affinity_bonus(d.caps().accel_type, op)
}

/// Score of a slot: zero when empty or unavailable.
pub open spec fn slot_score(slot: Option<AccelDevice>, op: AccelOperation) -> int {
    match slot {
        Some(d) => if d.ready() {
            device_score(d, op)
        } else {
            0
        },
        None => 0,
    }
}

/// Slot `b` has the highest positive score for `op`, and no earlier slot
/// scores as high.
pub open spec fn best_slot(slots: Seq<Option<AccelDevice>>, op: AccelOperation, b: int) -> bool {
    &&& 0 <= b < 4
    &&& slot_score(slots[b], op) > 0
    &&& forall|i: int| 0 <= i < 4 ==> slot_score(#[trigger] slots[i], op) <= slot_score(slots[b], op)
    &&& forall|i: int| 0 <= i < b ==> slot_score(#[trigger] slots[i], op) < slot_score(slots[b], op)
}

/// A device after it ran one operation.
pub closed spec fn device_after_run(d: AccelDevice) -> AccelDevice {
    AccelDevice {
        capabilities: d.capabilities,
        utilization: IDLE_UTILIZATION,
        operations_completed: (d.operations_completed + 1) as u64,
        available: d.available,
        power_state: d.power_state,
    }
}

/// CPU device as detected: 8 cores, 50 GB/s, 500 GFLOPS.
pub open spec fn cpu_caps() -> AccelCapabilities {
    AccelCapabilities {
        accel_type: AccelType::CPU,
        compute_units: 8,
        memory_bandwidth_mbps: 50000,
        peak_flops: 500_000_000_000,
        mixed_precision: true,
        sparse_ops: false,
    }
}

/// Neural Engine as detected: 16 cores, 68 GB/s, 15.8 TOPS.
pub open spec fn npu_caps() -> AccelCapabilities {
    AccelCapabilities {
        accel_type: AccelType::NPU,
        compute_units: 16,
        memory_bandwidth_mbps: 68000,
        peak_flops: 15_800_000_000_000,
        mixed_precision: true,
        sparse_ops: true,
    }
}

/// GPU as detected: 1024 cores, 500 GB/s, 20 TFLOPS.
pub open spec fn gpu_caps() -> AccelCapabilities {
    AccelCapabilities {
        accel_type: AccelType::GPU,
        compute_units: 1024,
        memory_bandwidth_mbps: 500_000,
        peak_flops: 20_000_000_000_000,
        mixed_precision: true,
        sparse_ops: true,
    }
}

/// Hardware acceleration manager with up to four devices.
pub struct HardwareAccelManager {
    devices: Vec<Option<AccelDevice>>,
    device_count: usize,
    total_operations: u64,
}

impl HardwareAccelManager {
    pub closed spec fn slots(&self) -> Seq<Option<AccelDevice>> {
        self.devices@
    }

    pub closed spec fn count(&self) -> usize {
        self.device_count
    }

    pub closed spec fn operations(&self) -> u64 {
        self.total_operations
    }

    /// Four slots; the first `count` hold devices, the rest are empty.
    pub open spec fn wf(&self) -> bool {
        &&& self.slots().len() == 4
        &&& self.count() <= 4
        &&& forall|i: int|
            0 <= i < 4 ==> ((#[trigger] self.slots()[i]) is Some <==> i < self.count())
        &&& forall|i: int| #![trigger self.slots()[i]] 0 <= i < 4 ==> (self.slots()[i] matches Some(d) ==> d.wf())
    }

    /// No devices yet.
    pub fn new() -> (r: Self)
        ensures
            r.wf(),
            r.count() == 0,
            r.operations() == 0,
    {
        let mut devices: Vec<Option<AccelDevice>> = Vec::new();
        devices.push(None);
        devices.push(None);
        devices.push(None);
        devices.push(None);
        let r = HardwareAccelManager { devices, device_count: 0, total_operations: 0 };
        assert(forall|i: int| 0 <= i < 4 ==> (#[trigger] r.slots()[i]) is None);
        r
    }

    /// Puts a fresh device in the next free slot, if any.
    fn add_device(&mut self, caps: AccelCapabilities)
        requires
            old(self).wf(),
        ensures
            final(self).wf(),
            final(self).operations() == old(self).operations(),
            old(self).count() < 4 ==> final(self).count() == old(self).count() + 1
                && final(self).slots() == old(self).slots().update(old(self).count() as int, Some(AccelDevice::fresh(caps))),
            old(self).count() >= 4 ==> *final(self) == *old(self),
    {
        if self.device_count >= self.devices.len() {
            return;
        }
        let idx = self.device_count;
        self.devices.set(idx, Some(AccelDevice::new(caps)));
        self.device_count = idx + 1;
    }

    /// The CPU's SIMD units: always present.
    fn detect_cpu_capabilities(&mut self) -> (r: Result<(), &'static str>)
        requires
            old(self).wf(),
        ensures
            r is Ok,
            final(self).wf(),
            final(self).operations() == old(self).operations(),
            old(self).count() < 4 ==> final(self).count() == old(self).count() + 1 && final(self).slots() == old(
                self,
            ).slots().update(old(self).count() as int, Some(AccelDevice::fresh(cpu_caps()))),
            old(self).count() >= 4 ==> *final(self) == *old(self),
    {
        self.add_device(
            AccelCapabilities {
                accel_type: AccelType::CPU,
                compute_units: 8,
                memory_bandwidth_mbps: 50000,
                peak_flops: 500_000_000_000,
                mixed_precision: true,
                sparse_ops: false,
            },
        );
        Ok(())
    }

    /// The Neural Engine: present when `has_npu` (the kernel runs on
    /// aarch64).
    fn detect_npu_capabilities(&mut self, has_npu: bool) -> (r: Result<(), &'static str>)
        requires
            old(self).wf(),
        ensures
            r is Ok,
            final(self).wf(),
            final(self).operations() == old(self).operations(),
            has_npu && old(self).count() < 4 ==> final(self).count() == old(self).count() + 1 && final(self).slots() == old(
                self,
            ).slots().update(old(self).count() as int, Some(AccelDevice::fresh(npu_caps()))),
            !(has_npu && old(self).count() < 4) ==> *final(self) == *old(self),
    {
        if has_npu {
            self.add_device(
                AccelCapabilities {
                    accel_type: AccelType::NPU,
                    compute_units: 16,
                    memory_bandwidth_mbps: 68000,
                    peak_flops: 15_800_000_000_000,
                    mixed_precision: true,
                    sparse_ops: true,
                },
            );
        }
        Ok(())
    }

    /// The GPU: always present.
    fn detect_gpu_capabilities(&mut self) -> (r: Result<(), &'static str>)
        requires
            old(self).wf(),
        ensures
            r is Ok,
            final(self).wf(),
            final(self).operations() == old(self).operations(),
            old(self).count() < 4 ==> final(self).count() == old(self).count() + 1 && final(self).slots() == old(
                self,
            ).slots().update(old(self).count() as int, Some(AccelDevice::fresh(gpu_caps()))),
            old(self).count() >= 4 ==> *final(self) == *old(self),
    {
        self.add_device(
            AccelCapabilities {
                accel_type: AccelType::GPU,
                compute_units: 1024,
                memory_bandwidth_mbps: 500_000,
                peak_flops: 20_000_000_000_000,
                mixed_precision: true,
                sparse_ops: true,
            },
        );
        Ok(())
    }

    /// Detects the devices: a CPU always, a Neural Engine when `has_npu`
    /// (the kernel runs on aarch64), and a GPU.
    pub fn init(&mut self, has_npu: bool) -> (r: Result<(), &'static str>)
        ensures
            r is Ok,
            final(self).wf(),
            final(self).operations() == old(self).operations(),
            final(self).count() == (if has_npu {
                3usize
            } else {
                2usize
            }),
            final(self).slots()[0] matches Some(d) && d.caps() == cpu_caps(),
            has_npu ==> (final(self).slots()[1] matches Some(d) && d.caps() == npu_caps()),
            final(self).slots()[final(self).count() - 1] matches Some(d) && d.caps() == gpu_caps(),
            forall|i: int| #![trigger final(self).slots()[i]] 0 <= i < final(self).count() ==> (final(self).slots()[i] matches Some(d)
                && d.ready() && d.util() == 0 && d.completed() == 0),
    {
        let mut devices: Vec<Option<AccelDevice>> = Vec::new();
        devices.push(None);
        devices.push(None);
        devices.push(None);
        devices.push(None);
        self.devices = devices;
        self.device_count = 0;
        proof {
            assert(forall|i: int| 0 <= i < 4 ==> (#[trigger] self.slots()[i]) is None);
        }
        let _ = self.detect_cpu_capabilities();
        let _ = self.detect_npu_capabilities(has_npu);
        let _ = self.detect_gpu_capabilities();
        Ok(())
    }

    /// Score of slot `i` for `operation`.
    fn score_of(&self, i: usize, operation: AccelOperation) -> (r: u32)
        requires
            self.wf(),
            i < 4,
        ensures
            r == slot_score(self.slots()[i as int], operation),
    {
        match &self.devices[i] {
            Some(device) => {
                if !device.is_available() {
                    0
                } else {
                    let util = device.utilization();
                    let bonus: u32 = match (device.capabilities.accel_type, operation) {
                        (AccelType::NPU, AccelOperation::MatMul) => 50,
                        (AccelType::NPU, AccelOperation::Convolution) => 40,
                        (AccelType::GPU, AccelOperation::MatMul) => 30,
                        (AccelType::GPU, AccelOperation::Convolution) => 35,
                        (AccelType::CPU, _) => 10,
                        _ => 0,
                    };
                    100 - util + bonus
                }
            },
            None => 0,
        }
    }

    /// Slot with the highest positive score for `operation`, the first one
    /// on ties; an error when every slot scores zero.
    fn select_best_device(&self, operation: AccelOperation) -> (r: Result<usize, &'static str>)
        requires
            self.wf(),
        ensures
            r is Err <==> forall|i: int| 0 <= i < 4 ==> slot_score(#[trigger] self.slots()[i], operation) == 0,
            r matches Ok(b) ==> b < 4 && best_slot(self.slots(), operation, b as int),
    {
        let mut best_idx: usize = 0;
        let mut best_score: u32 = 0;
        let mut idx: usize = 0;
        while idx < 4
            invariant
                self.wf(),
                idx <= 4,
                best_idx < 4,
                best_score == 0 ==> best_idx == 0,
                best_score > 0 ==> best_score == slot_score(self.slots()[best_idx as int], operation)
                    && best_idx < idx,
                forall|i: int| 0 <= i < idx ==> slot_score(#[trigger] self.slots()[i], operation) <= best_score,
                forall|i: int| 0 <= i < best_idx ==> slot_score(#[trigger] self.slots()[i], operation)
                    < best_score,
            decreases 4 - idx,
        {
            let score = self.score_of(idx, operation);
            if score > best_score {
                best_score = score;
                best_idx = idx;
            }
            idx = idx + 1;
        }
        if best_score == 0 {
            return Err("No suitable device found");
        }
        Ok(best_idx)
    }

    /// Runs an operation on the best device for it and counts it.
    pub fn execute_operation(
        &mut self,
        input: &AIBuffer,
        output: &AIBuffer,
        operation: AccelOperation,
    ) -> (r: Result<u64, &'static str>)
        requires
            old(self).wf(),
            forall|i: int| #![trigger old(self).slots()[i]]
                0 <= i < 4 ==> (old(self).slots()[i] matches Some(d) ==> d.completed() <= u64::MAX
                    / 100),
        ensures
            final(self).wf(),
            final(self).count() == old(self).count(),
            r is Err <==> forall|i: int| 0 <= i < 4 ==> slot_score(#[trigger] old(self).slots()[i], operation) == 0,
            r is Err ==> final(self).slots() == old(self).slots() && final(self).operations() == old(self).operations(),
            r is Ok ==> r == Ok::<u64, &'static str>(0) && final(self).operations() == old(self).operations().wrapping_add(1)
                && exists|b: int| #[trigger] best_slot(old(self).slots(), operation, b)
                && final(self).slots() == old(self).slots().update(b, Some(device_after_run(old(self).slots()[b]->Some_0))),
    {
        let idx = match self.select_best_device(operation) {
            Ok(i) => i,
            Err(e) => {
                return Err(e);
            },
        };
        let ghost pre = self.devices@;
        let mut slot = self.devices.remove(idx);
        let result = match &mut slot {
            Some(device) => device.execute_operation(input, output, operation),
            None => Err("No suitable device available"),
        };
        self.devices.insert(idx, slot);
        proof {
            assert(pre[idx as int] is Some);
            if result is Ok {
                assert(self.devices@ =~= pre.update(idx as int, Some(device_after_run(pre[idx as int]->Some_0))));
            } else {
                assert(self.devices@ =~= pre);
            }
        }
        match result {
            Ok(duration) => {
                self.total_operations = self.total_operations.wrapping_add(1);
                Ok(duration)
            },
            Err(e) => Err(e),
        }
    }

    /// Statistics of every slot.
    pub fn get_stats(&self) -> (r: [Option<DeviceStats>; 4])
        requires
            self.wf(),
        ensures
            forall|i: int|
                0 <= i < 4 ==> ((#[trigger] r@[i]) is Some <==> self.slots()[i] is Some) && (r@[i] matches Some(
                    s,
                ) ==> s.operations_completed == self.slots()[i]->Some_0.completed() && s.utilization
                    == self.slots()[i]->Some_0.util() && s.available == self.slots()[i]->Some_0.ready()),
    {
        let s0 = self.slot_stats(0);
        let s1 = self.slot_stats(1);
        let s2 = self.slot_stats(2);
        let s3 = self.slot_stats(3);
        [s0, s1, s2, s3]
    }

    fn slot_stats(&self, i: usize) -> (r: Option<DeviceStats>)
        requires
            self.wf(),
            i < 4,
        ensures
            r is Some <==> self.slots()[i as int] is Some,
            r matches Some(s) ==> s.operations_completed == self.slots()[i as int]->Some_0.completed()
                && s.utilization == self.slots()[i as int]->Some_0.util() && s.available
                == self.slots()[i as int]->Some_0.ready(),
    {
        match &self.devices[i] {
            Some(device) => Some(device.get_stats()),
            None => None,
        }
    }

    /// Operations run over all devices.
    pub fn total_operations(&self) -> (r: u64)
        ensures
            r == self.operations(),
    {
        self.total_operations
    }
}

/// Sets up the global manager unless it exists.
pub fn init(manager: &mut Option<HardwareAccelManager>, has_npu: bool) -> (r: Result<(), &'static str>)
    ensures
        r is Ok,
        *old(manager) is None ==> (*final(manager) matches Some(m) && m.wf() && m.count() == (if has_npu {
            3usize
        } else {
            2usize
        })),
        *old(manager) is Some ==> *final(manager) == *old(manager),
{
    if manager.is_some() {
        return Ok(());
    }
    let mut m = HardwareAccelManager::new();
    let _ = m.init(has_npu);
    *manager = Some(m);
    Ok(())
}

/// Runs an operation on the global manager; fails when it is not set up.
pub fn execute_operation(
    manager: &mut Option<HardwareAccelManager>,
    input: &AIBuffer,
    output: &AIBuffer,
    operation: AccelOperation,
) -> (r: Result<u64, &'static str>)
    requires
        *old(manager) matches Some(m) ==> m.wf() && forall|i: int| #![trigger m.slots()[i]]
            0 <= i < 4 ==> (m.slots()[i] matches Some(d) ==> d.completed() <= u64::MAX / 100),
    ensures
        *old(manager) is None ==> r is Err && *final(manager) is None,
        *old(manager) matches Some(m) ==> (*final(manager) matches Some(m2) && m2.wf() && (r is Err
            <==> forall|i: int| 0 <= i < 4 ==> slot_score(#[trigger] m.slots()[i], operation) == 0)),
{
    match manager {
        Some(m) => m.execute_operation(input, output, operation),
        None => Err("Hardware acceleration manager not initialized"),
    }
}

/// Statistics of the global manager.
pub fn get_hw_accel_stats(manager: &Option<HardwareAccelManager>) -> (r: Result<
    [Option<DeviceStats>; 4],
    &'static str,
>)
    requires
        manager matches Some(m) ==> m.wf(),
    ensures
        manager is None <==> r is Err,
        manager matches Some(m) ==> (r matches Ok(s) && forall|i: int|
            0 <= i < 4 ==> ((#[trigger] s@[i]) is Some <==> m.slots()[i] is Some)),
{
    match manager {
        Some(m) => Ok(m.get_stats()),
        None => Err("Hardware acceleration manager not initialized"),
    }
}

} // verus!
