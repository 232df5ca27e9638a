//! ARM64 symmetric multi-processing: the per-CPU table, discovery of the
//! secondary CPUs and their bring-up through PSCI.
//!
//! PSCI calls are secure monitor calls that the platform performs through
//! the functions it passes in; a successful `CPU_ON` returns once the
//! started CPU has reported itself ready, and the table then records it as
//! online.

use vstd::prelude::*;

pub mod psci;

verus! {

/// Maximum number of CPUs supported.
pub const MAX_CPUS: usize = 256;

/// Bytes of the stack given to a secondary CPU.
pub const SECONDARY_STACK_SIZE: u64 = 16384;

/// Per-CPU data for SMP coordination.
#[derive(Clone, Copy, Debug, PartialEq, Eq, Structural)]
pub struct CpuData {
    /// Logical CPU number.
    pub cpu_id: u32,
    /// Hardware identifier (`MPIDR_EL1` affinity value).
    pub mpidr: u64,
    pub online: bool,
    pub ready: bool,
    /// Top of the CPU's stack.
    pub stack_ptr: u64,
    pub entry_point: u64,
    pub context_ptr: u64,
}

impl CpuData {
    /// An undiscovered, offline CPU.
    pub fn new() -> (r: Self)
        ensures
            r == CpuData::blank(),
    {
        CpuData { cpu_id: 0, mpidr: 0, online: false, ready: false, stack_ptr: 0, entry_point: 0, context_ptr: 0 }
    }

    pub open spec fn blank() -> CpuData {
        CpuData { cpu_id: 0, mpidr: 0, online: false, ready: false, stack_ptr: 0, entry_point: 0, context_ptr: 0 }
    }
}

/// The SMP state: one entry per possible CPU and the online count.
pub struct Smp {
    pub cpus: Vec<CpuData>,
    pub online_cpus: u32,
    pub boot_cpu_id: u32,
}

/// The error `CPU_ON` answers for a PSCI result other than success.
pub open spec fn cpu_on_error(result: i64) -> &'static str {
    if result == -4 {
        "CPU already on"
    } else if result == -5 {
        "CPU on pending"
    } else {
        "PSCI CPU_ON failed"
    }
}

impl Smp {
    /// The table has an entry for every possible CPU.
    pub open spec fn wf(&self) -> bool {
        self.cpus@.len() == MAX_CPUS
    }

    /// Only the boot CPU online; nothing discovered.
    pub fn new() -> (r: Self)
        ensures
            r.wf(),
            r.online_cpus == 1,
            r.boot_cpu_id == 0,
            forall|i: int| 0 <= i < MAX_CPUS ==> #[trigger] r.cpus@[i] == CpuData::blank(),
    {
        let mut cpus: Vec<CpuData> = Vec::new();
        let mut i: usize = 0;
        while i < MAX_CPUS
            invariant
                i <= MAX_CPUS,
                cpus@.len() == i,
                forall|k: int| 0 <= k < i ==> #[trigger] cpus@[k] == CpuData::blank(),
            decreases MAX_CPUS - i,
        {
            cpus.push(CpuData::new());
            i = i + 1;
        }
        Smp { cpus, online_cpus: 1, boot_cpu_id: 0 }
    }

    /// Records the boot CPU (hardware identifier `mpidr`) as online and
    /// ready; with PSCI available (`psci_version`, the answer to
    /// `PSCI_VERSION`, is not negative) the secondary CPUs are discovered.
    pub fn init_boot_cpu(&mut self, mpidr: u64, psci_version: i64) -> (r: Result<(), &'static str>)
        requires
            old(self).wf(),
        ensures
            final(self).wf(),
            final(self).online_cpus == old(self).online_cpus,
            final(self).cpus@[0] == (CpuData { cpu_id: 0, mpidr, online: true, ready: true, ..old(self).cpus@[0] }),
            psci_version < 0 ==> r == Err::<(), &'static str>("PSCI not available - SMP disabled")
                && forall|i: int| 1 <= i < MAX_CPUS ==> #[trigger] final(self).cpus@[i] == old(self).cpus@[i],
            psci_version >= 0 ==> r == Ok::<(), &'static str>(()) && final(self).cpus@ == discovered(
                old(self).cpus@.update(0, CpuData { cpu_id: 0, mpidr, online: true, ready: true, ..old(self).cpus@[0] }),
            ),
    {
        let mut boot = self.cpus[0];
        boot.cpu_id = 0;
        boot.mpidr = mpidr;
        boot.online = true;
        boot.ready = true;
        self.cpus.set(0, boot);
        proof {
            assert(self.cpus@ =~= old(self).cpus@.update(
                0,
                CpuData { cpu_id: 0, mpidr, online: true, ready: true, ..old(self).cpus@[0] },
            ));
        }
        if !is_psci_available(psci_version) {
            return Err("PSCI not available - SMP disabled");
        }
        match self.discover_cpus() {
            Ok(()) => Ok(()),
            Err(e) => Err(e),
        }
    }

    /// QEMU's virt machine: CPUs 1 to 3 exist, with their number as
    /// hardware identifier.
    pub fn discover_cpus(&mut self) -> (r: Result<(), &'static str>)
        requires
            old(self).wf(),
        ensures
            final(self).wf(),
            r is Ok,
            final(self).online_cpus == old(self).online_cpus,
            final(self).cpus@ == discovered(old(self).cpus@),
    {
        let max_cpus: usize = 4;
        let mut cpu_id: usize = 1;
        while cpu_id < max_cpus
            invariant
                1 <= cpu_id <= max_cpus,
                max_cpus == 4,
                self.wf(),
                self.online_cpus == old(self).online_cpus,
                self.cpus@ == discovered_upto(old(self).cpus@, cpu_id as int),
            decreases max_cpus - cpu_id,
        {
            let mut c = self.cpus[cpu_id];
            c.cpu_id = cpu_id as u32;
            c.mpidr = cpu_id as u64;
            self.cpus.set(cpu_id, c);
            proof {
                assert(self.cpus@ =~= discovered_upto(old(self).cpus@, cpu_id + 1));
            }
            cpu_id = cpu_id + 1;
        }
        Ok(())
    }

    /// Starts CPU `cpu_id` at `entry_point` with `context_ptr`, its stack
    /// ending `SECONDARY_STACK_SIZE` bytes above `stack_base`; `cpu_on_call`
    /// performs PSCI `CPU_ON` (hardware identifier, entry point, context)
    /// and, on success, returns once the CPU is ready.
    pub fn cpu_on<F: Fn(u64, u64, u64) -> i64>(
        &mut self,
        cpu_id: u32,
        entry_point: u64,
        context_ptr: u64,
        stack_base: u64,
        cpu_on_call: &F,
    ) -> (r: Result<(), &'static str>)
        requires
            old(self).wf(),
            stack_base + SECONDARY_STACK_SIZE <= u64::MAX,
            forall|m: u64, e: u64, c: u64| cpu_on_call.requires((m, e, c)),
        ensures
            final(self).wf(),
            cpu_id >= MAX_CPUS ==> r == Err::<(), &'static str>("Invalid CPU ID") && final(self).cpus@ == old(self).cpus@
                && final(self).online_cpus == old(self).online_cpus,
            cpu_id < MAX_CPUS && cpu_id == 0 ==> r == Err::<(), &'static str>("Cannot bring up boot CPU")
                && final(self).cpus@ == old(self).cpus@ && final(self).online_cpus == old(self).online_cpus,
            0 < cpu_id < MAX_CPUS && old(self).cpus@[cpu_id as int].online ==> r == Err::<(), &'static str>(
                "CPU already online",
            ) && final(self).cpus@ == old(self).cpus@ && final(self).online_cpus == old(self).online_cpus,
            0 < cpu_id < MAX_CPUS && !old(self).cpus@[cpu_id as int].online ==> exists|res: i64|
                {
                    let started = CpuData {
                        entry_point,
                        context_ptr,
                        stack_ptr: (stack_base + SECONDARY_STACK_SIZE) as u64,
                        ..old(self).cpus@[cpu_id as int]
                    };
                    &&& #[trigger] cpu_on_call.ensures((old(self).cpus@[cpu_id as int].mpidr, entry_point, context_ptr), res)
                    &&& res == 0 ==> r == Ok::<(), &'static str>(()) && final(self).cpus@ == old(self).cpus@.update(
                        cpu_id as int,
                        CpuData { online: true, ready: true, ..started },
                    ) && final(self).online_cpus == old(self).online_cpus.wrapping_add(1)
                    &&& res != 0 ==> r == Err::<(), &'static str>(cpu_on_error(res)) && final(self).cpus@
                        == old(self).cpus@.update(cpu_id as int, started) && final(self).online_cpus == old(self).online_cpus
                },
    {
        if cpu_id >= MAX_CPUS as u32 {
            return Err("Invalid CPU ID");
        }
        if cpu_id == 0 {
            return Err("Cannot bring up boot CPU");
        }
        let idx = cpu_id as usize;
        let mut cpu_data = self.cpus[idx];
        if cpu_data.online {
            return Err("CPU already online");
        }
        cpu_data.entry_point = entry_point;
        cpu_data.context_ptr = context_ptr;
        cpu_data.stack_ptr = stack_base + SECONDARY_STACK_SIZE;
        self.cpus.set(idx, cpu_data);
        let result = cpu_on_call(cpu_data.mpidr, entry_point, context_ptr);
        if result == 0 {
            cpu_data.online = true;
            cpu_data.ready = true;
            self.cpus.set(idx, cpu_data);
            self.online_cpus = self.online_cpus.wrapping_add(1);
            Ok(())
        } else if result == -4 {
            Err("CPU already on")
        } else if result == -5 {
            Err("CPU on pending")
        } else {
            Err("PSCI CPU_ON failed")
        }
    }

    /// Starts the discovered secondary CPUs in order (a CPU is discovered
    /// when it has a hardware identifier), each at `entry_point` with its
    /// number as context and the stack that `stack_for` gives it, stopping
    /// at the first CPU that does not start; answers how many started.
    pub fn bring_up_secondary_cpus<F: Fn(u64, u64, u64) -> i64, S: Fn(u32) -> u64>(
        &mut self,
        entry_point: u64,
        stack_for: &S,
        cpu_on_call: &F,
    ) -> (r: Result<u32, &'static str>)
        requires
            old(self).wf(),
            forall|m: u64, e: u64, c: u64| cpu_on_call.requires((m, e, c)),
            forall|id: u32| stack_for.requires((id,)),
            forall|id: u32, base: u64| stack_for.ensures((id,), base) ==> base + SECONDARY_STACK_SIZE <= u64::MAX,
        ensures
            final(self).wf(),
            r matches Ok(n) && n < MAX_CPUS && final(self).online_cpus == ((old(self).online_cpus + n) % 0x1_0000_0000) as u32,
            forall|i: int| 0 <= i < MAX_CPUS && #[trigger] old(self).cpus@[i].online ==> final(self).cpus@[i].online,
            forall|i: int| 0 <= i < MAX_CPUS ==> #[trigger] final(self).cpus@[i].mpidr == old(self).cpus@[i].mpidr,
            r matches Ok(n) && exists|stop: int|
                {
                    &&& 1 <= stop <= MAX_CPUS
                    &&& n == discovered_between(old(self).cpus@, 1, stop)
                    &&& brought_up_prefix(old(self).cpus@, final(self).cpus@, stop, entry_point, *cpu_on_call)
                    &&& final(self).cpus@[0] == old(self).cpus@[0]
                    &&& forall|i: int| stop < i < MAX_CPUS ==> #[trigger] final(self).cpus@[i] == old(self).cpus@[i]
                    &&& stop < MAX_CPUS ==> refused_at(old(self).cpus@, final(self).cpus@, stop, entry_point, *cpu_on_call)
                },
    {
        let mut brought_up: u32 = 0;
        let mut cpu_id: u32 = 1;
        let ghost mut stop: int = MAX_CPUS as int;
        while cpu_id < MAX_CPUS as u32
            invariant_except_break
                stop == MAX_CPUS,
                forall|i: int| cpu_id <= i < MAX_CPUS ==> #[trigger] self.cpus@[i] == old(self).cpus@[i],
            invariant
                1 <= cpu_id <= MAX_CPUS,
                self.wf(),
                brought_up < cpu_id,
                brought_up == discovered_between(old(self).cpus@, 1, cpu_id as int),
                self.online_cpus == ((old(self).online_cpus + brought_up) % 0x1_0000_0000) as u32,
                forall|m: u64, e: u64, c: u64| cpu_on_call.requires((m, e, c)),
                forall|id: u32| stack_for.requires((id,)),
                forall|id: u32, base: u64| stack_for.ensures((id,), base) ==> base + SECONDARY_STACK_SIZE <= u64::MAX,
                forall|i: int| 0 <= i < MAX_CPUS && #[trigger] old(self).cpus@[i].online ==> self.cpus@[i].online,
                forall|i: int| 0 <= i < MAX_CPUS ==> #[trigger] self.cpus@[i].mpidr == old(self).cpus@[i].mpidr,
                self.cpus@[0] == old(self).cpus@[0],
                brought_up_prefix(old(self).cpus@, self.cpus@, cpu_id as int, entry_point, *cpu_on_call),
            ensures
                1 <= stop <= MAX_CPUS,
                brought_up == discovered_between(old(self).cpus@, 1, stop),
                brought_up_prefix(old(self).cpus@, self.cpus@, stop, entry_point, *cpu_on_call),
                forall|i: int| stop < i < MAX_CPUS ==> #[trigger] self.cpus@[i] == old(self).cpus@[i],
                stop < MAX_CPUS ==> refused_at(old(self).cpus@, self.cpus@, stop, entry_point, *cpu_on_call),
            decreases MAX_CPUS - cpu_id,
        {
            if self.cpus[cpu_id as usize].mpidr == 0 {
                proof {
                    assert(brought_up_prefix(old(self).cpus@, self.cpus@, cpu_id + 1, entry_point, *cpu_on_call)) by {
                        assert forall|i: int| 1 <= i < cpu_id + 1 implies #[trigger] prefix_slot(
                            old(self).cpus@,
                            self.cpus@,
                            i,
                            entry_point,
                            *cpu_on_call,
                        ) by {
                            if i < cpu_id {
                                assert(prefix_slot(old(self).cpus@, self.cpus@, i, entry_point, *cpu_on_call));
                            }
                        }
                    }
                }
                cpu_id = cpu_id + 1;
                continue;
            }
            let stack_base = stack_for(cpu_id);
            let ghost before = *self;
            let ghost b0 = brought_up;
            match self.cpu_on(cpu_id, entry_point, cpu_id as u64, stack_base, cpu_on_call) {
                Ok(()) => {
                    proof {
                        assert(forall|i: int| 0 <= i < MAX_CPUS && i != cpu_id ==> self.cpus@[i] == before.cpus@[i]);
                        let m: int = 0x1_0000_0000;
                        let o = old(self).online_cpus as int;
                        vstd::arithmetic::div_mod::lemma_add_mod_noop(o + b0, 1, m);
                        vstd::arithmetic::div_mod::lemma_mod_bound(o + b0, m);
                        vstd::arithmetic::div_mod::lemma_small_mod(1, m as nat);
                        if (o + b0) % m + 1 < m {
                            vstd::arithmetic::div_mod::lemma_small_mod(((o + b0) % m + 1) as nat, m as nat);
                        } else {
                            vstd::arithmetic::div_mod::lemma_mod_self_0(m);
                        }
                        assert(before.cpus@[cpu_id as int] == old(self).cpus@[cpu_id as int]);
                        assert(prefix_slot(old(self).cpus@, self.cpus@, cpu_id as int, entry_point, *cpu_on_call));
                        assert forall|i: int| 1 <= i < cpu_id + 1 implies #[trigger] prefix_slot(
                            old(self).cpus@,
                            self.cpus@,
                            i,
                            entry_point,
                            *cpu_on_call,
                        ) by {
                            if i < cpu_id {
                                assert(prefix_slot(old(self).cpus@, before.cpus@, i, entry_point, *cpu_on_call));
                                assert(self.cpus@[i] == before.cpus@[i]);
                            }
                        }
                    }
                    brought_up = brought_up + 1;
                },
                Err(_) => {
                    proof {
                        assert(before.cpus@[cpu_id as int] == old(self).cpus@[cpu_id as int]);
                        assert(forall|i: int| 0 <= i < MAX_CPUS && i != cpu_id ==> self.cpus@[i] == before.cpus@[i]);
                        assert(refused_at(old(self).cpus@, self.cpus@, cpu_id as int, entry_point, *cpu_on_call));
                        assert forall|i: int| 1 <= i < cpu_id implies #[trigger] prefix_slot(
                            old(self).cpus@,
                            self.cpus@,
                            i,
                            entry_point,
                            *cpu_on_call,
                        ) by {
                            assert(prefix_slot(old(self).cpus@, before.cpus@, i, entry_point, *cpu_on_call));
                            assert(self.cpus@[i] == before.cpus@[i]);
                        }
                        stop = cpu_id as int;
                    }
                    break;
                },
            }
            cpu_id = cpu_id + 1;
        }
        proof {
            lemma_discovered_bound(old(self).cpus@, 1, stop);
        }
        Ok(brought_up)
    }

    /// Number of online CPUs.
    pub fn online_cpu_count(&self) -> (r: u32)
        ensures
            r == self.online_cpus,
    {
        self.online_cpus
    }

    /// Whether CPU `cpu_id` is online; unknown CPUs are not.
    pub fn is_cpu_online(&self, cpu_id: u32) -> (r: bool)
        requires
            self.wf(),
        ensures
            r == (cpu_id < MAX_CPUS && self.cpus@[cpu_id as int].online),
    {
        if cpu_id >= MAX_CPUS as u32 {
            return false;
        }
        self.cpus[cpu_id as usize].online
    }

    /// The first CPU whose hardware identifier is `mpidr`; the boot CPU
    /// when none is.
    pub fn current_cpu_id(&self, mpidr: u64) -> (r: u32)
        requires
            self.wf(),
        ensures
            r < MAX_CPUS,
            (exists|i: int| 0 <= i < MAX_CPUS && #[trigger] self.cpus@[i].mpidr == mpidr) ==> self.cpus@[r as int].mpidr
                == mpidr && forall|i: int| 0 <= i < r ==> #[trigger] self.cpus@[i].mpidr != mpidr,
            !(exists|i: int| 0 <= i < MAX_CPUS && #[trigger] self.cpus@[i].mpidr == mpidr) ==> r == 0,
    {
        let mut cpu_id: usize = 0;
        while cpu_id < MAX_CPUS
            invariant
                cpu_id <= MAX_CPUS,
                self.wf(),
                forall|i: int| 0 <= i < cpu_id ==> #[trigger] self.cpus@[i].mpidr != mpidr,
            decreases MAX_CPUS - cpu_id,
        {
            if self.cpus[cpu_id].mpidr == mpidr {
                return cpu_id as u32;
            }
            cpu_id = cpu_id + 1;
        }
        0
    }
}

/// PSCI is present when `PSCI_VERSION` answers a non-negative version.
pub fn is_psci_available(version: i64) -> (r: bool)
    ensures
        r == (version >= 0),
{
    version >= 0
}

/// The table after discovery up to (not including) CPU `upto`: CPUs 1 and
/// up get their number as logical and hardware identifier.
/// Number of CPUs in `lo..hi` that have a hardware identifier.
pub open spec fn discovered_between(cpus: Seq<CpuData>, lo: int, hi: int) -> nat
    decreases hi - lo,
{
    if hi <= lo {
        0
    } else {
        discovered_between(cpus, lo, hi - 1) + (if cpus[hi - 1].mpidr != 0 {
            1nat
        } else {
            0nat
        })
    }
}

/// At most one CPU per slot is counted.
pub proof fn lemma_discovered_bound(cpus: Seq<CpuData>, lo: int, hi: int)
    requires
        lo <= hi,
    ensures
        discovered_between(cpus, lo, hi) <= hi - lo,
    decreases hi - lo,
{
    if hi > lo {
        lemma_discovered_bound(cpus, lo, hi - 1);
    }
}

/// CPU `i` as left by the bring-up: a discovered CPU was started at
/// `entry` with its number as context, the PSCI call having answered
/// success; any other CPU is untouched.
pub open spec fn prefix_slot<F: Fn(u64, u64, u64) -> i64>(
    old_cpus: Seq<CpuData>,
    cpus: Seq<CpuData>,
    i: int,
    entry: u64,
    call: F,
) -> bool {
    if old_cpus[i].mpidr != 0 {
        &&& !old_cpus[i].online
        &&& cpus[i].online && cpus[i].ready
        &&& cpus[i].entry_point == entry && cpus[i].context_ptr == i as u64
        &&& cpus[i].cpu_id == old_cpus[i].cpu_id && cpus[i].mpidr == old_cpus[i].mpidr
        &&& call.ensures((old_cpus[i].mpidr, entry, i as u64), 0i64)
    } else {
        cpus[i] == old_cpus[i]
    }
}

/// Every CPU in `1..upto` is as the bring-up leaves it.
pub open spec fn brought_up_prefix<F: Fn(u64, u64, u64) -> i64>(
    old_cpus: Seq<CpuData>,
    cpus: Seq<CpuData>,
    upto: int,
    entry: u64,
    call: F,
) -> bool {
    forall|i: int| 1 <= i < upto ==> #[trigger] prefix_slot(old_cpus, cpus, i, entry, call)
}

/// The bring-up stopped at discovered CPU `stop`: it was online already,
/// or the PSCI call refused it; it is not newly online.
pub open spec fn refused_at<F: Fn(u64, u64, u64) -> i64>(
    old_cpus: Seq<CpuData>,
    cpus: Seq<CpuData>,
    stop: int,
    entry: u64,
    call: F,
) -> bool {
    &&& old_cpus[stop].mpidr != 0
    &&& cpus[stop].online == old_cpus[stop].online
    &&& cpus[stop].mpidr == old_cpus[stop].mpidr
    &&& cpus[stop].cpu_id == old_cpus[stop].cpu_id
    &&& (old_cpus[stop].online || exists|res: i64|
        res != 0 && #[trigger] call.ensures((old_cpus[stop].mpidr, entry, stop as u64), res))
}

pub open spec fn discovered_upto(cpus: Seq<CpuData>, upto: int) -> Seq<CpuData> {
    Seq::new(
        cpus.len(),
        |i: int|
            if 1 <= i < upto {
                CpuData { cpu_id: i as u32, mpidr: i as u64, ..cpus[i] }
            } else {
                cpus[i]
            },
    )
}

/// The table after discovering CPUs 1 to 3.
pub open spec fn discovered(cpus: Seq<CpuData>) -> Seq<CpuData> {
    discovered_upto(cpus, 4)
}

} // verus!
