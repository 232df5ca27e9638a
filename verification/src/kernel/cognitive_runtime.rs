//! Cognitive runtime pieces: priority queues of cognitive tasks, the
//! assignment of tasks to the analytical or creative hemisphere, template
//! application with caching, batched LLM inference bookkeeping and the
//! platform's acceleration resources.

use vstd::prelude::*;

verus! {

/// Kind of a cognitive task.
#[derive(Clone, Copy, PartialEq, Eq, Structural, Debug)]
pub enum TaskType {
    Analytical,
    Creative,
    Sequential,
    Parallel,
    Hybrid,
}

/// Hemisphere that runs a task.
#[derive(Clone, Copy, PartialEq, Eq, Structural, Debug)]
pub enum Hemisphere {
    Left,
    Right,
    Both,
}

/// How tasks are assigned to hemispheres.
#[derive(Clone, Copy, PartialEq, Eq, Structural, Debug)]
pub enum AssignmentStrategy {
    Static,
    Adaptive,
    Predictive,
}

/// Hardware platform.
#[derive(Clone, Copy, PartialEq, Eq, Structural, Debug)]
pub enum Platform {
    AppleSilicon,
    X86_64,
}

/// Task priority, most urgent first.
#[derive(Clone, Copy, PartialEq, Eq, Structural, Debug)]
pub enum Priority {
    Realtime,
    High,
    Normal,
    Low,
}

/// Position of a priority in the priority order.
pub open spec fn priority_rank(p: Priority) -> int {
    match p {
        Priority::Realtime => 0,
        Priority::High => 1,
        Priority::Normal => 2,
        Priority::Low => 3,
    }
}

/// Errors of the cognitive runtime.
#[derive(Clone, Copy, PartialEq, Eq, Structural, Debug)]
pub enum CognitiveError {
    InitializationFailed,
    PipelineError,
    TemplateNotFound,
    ModalityNotSupported,
    InvalidPriority,
    BatchNotFound,
    OutOfMemory,
    HardwareError,
}

/// A cognitive task.
#[derive(Debug)]
pub struct CognitiveTask {
    pub id: u64,
    pub task_type: TaskType,
    pub priority: Priority,
    pub query: Vec<u8>,
    pub prompt: Option<Vec<u8>>,
    pub data: Option<Vec<u8>>,
    pub deadline: Option<u64>,
}

impl CognitiveTask {
    /// Analytical and sequential tasks go through the structured pipeline.
    pub fn requires_structure(&self) -> (r: bool)
        ensures
            r == (self.task_type == TaskType::Analytical || self.task_type == TaskType::Sequential),
    {
        match self.task_type {
            TaskType::Analytical | TaskType::Sequential => true,
            _ => false,
        }
    }

    /// In-memory data the task works on (empty when it has none).
    pub fn data_source(&self) -> (r: Vec<u8>)
        ensures
            self.data matches Some(d) ==> r@ == d@,
            self.data is None ==> r@.len() == 0,
    {
        match &self.data {
            Some(d) => d.clone(),
            None => Vec::new(),
        }
    }
}

/// Result of a task.
#[derive(Debug)]
pub struct TaskResult {
    pub data: Vec<u8>,
    pub hemisphere_used: Hemisphere,
}

impl TaskResult {
    /// No data, left hemisphere.
    pub fn empty() -> (r: Self)
        ensures
            r.data@.len() == 0,
            r.hemisphere_used == Hemisphere::Left,
    {
        TaskResult { data: Vec::new(), hemisphere_used: Hemisphere::Left }
    }
}

/// FIFO of tasks.
pub struct TaskQueue {
    tasks: Vec<CognitiveTask>,
}

impl TaskQueue {
    pub closed spec fn ids(&self) -> Seq<u64> {
        self.tasks@.map_values(|t: CognitiveTask| t.id)
    }

    pub closed spec fn len(&self) -> nat {
        self.tasks@.len()
    }

    pub closed spec fn front(&self) -> CognitiveTask {
        self.tasks@[0]
    }

    pub fn new() -> (r: Self)
        ensures
            r.len() == 0,
            r.ids() == Seq::<u64>::empty(),
    {
        let r = TaskQueue { tasks: Vec::new() };
        assert(r.ids() =~= Seq::<u64>::empty());
        r
    }

    pub fn enqueue(&mut self, task: CognitiveTask)
        ensures
            final(self).len() == old(self).len() + 1,
            final(self).ids() == old(self).ids().push(task.id),
    {
        self.tasks.push(task);
        assert(self.ids() =~= old(self).ids().push(task.id));
    }

    pub fn dequeue(&mut self) -> (r: Option<CognitiveTask>)
        ensures
            old(self).len() == 0 <==> r is None,
            r is None ==> final(self).ids() == old(self).ids(),
            r matches Some(t) ==> t == old(self).front() && t.id == old(self).ids()[0] && final(self).ids()
                == old(self).ids().drop_first(),
            final(self).len() == if old(self).len() == 0 {
                0
            } else {
                old(self).len() - 1
            },
    {
        if self.tasks.len() == 0 {
            None
        } else {
            let t = self.tasks.remove(0);
            assert(self.ids() =~= old(self).ids().drop_first());
            Some(t)
        }
    }
}

/// Scheduling policy.
#[derive(Clone, Copy, PartialEq, Eq, Structural, Debug)]
pub enum SchedulingPolicy {
    FIFO,
    Priority,
    Adaptive,
}

/// Queues of cognitive tasks, one per priority.
pub struct CognitiveScheduler {
    queues: Vec<TaskQueue>,
    policy: SchedulingPolicy,
    preemption_enabled: bool,
}

impl CognitiveScheduler {
    /// Task identifiers queued at priority rank `k`, oldest first.
    pub closed spec fn queued(&self, k: int) -> Seq<u64> {
        self.queues@[k].ids()
    }

    pub closed spec fn wf(&self) -> bool {
        self.queues@.len() == 4
    }

    /// Empty queues for every priority, adaptive policy, preemption on.
    pub fn new() -> (r: Self)
        ensures
            r.wf(),
            forall|k: int| 0 <= k < 4 ==> #[trigger] r.queued(k) == Seq::<u64>::empty(),
    {
        let mut queues: Vec<TaskQueue> = Vec::new();
        queues.push(TaskQueue::new());
        queues.push(TaskQueue::new());
        queues.push(TaskQueue::new());
        queues.push(TaskQueue::new());
        CognitiveScheduler { queues, policy: SchedulingPolicy::Adaptive, preemption_enabled: true }
    }

    /// Queues `task` behind the tasks of its priority. Every priority has a
    /// queue, so this does not fail.
    pub fn schedule(&mut self, task: CognitiveTask) -> (r: Result<(), CognitiveError>)
        requires
            old(self).wf(),
        ensures
            r is Ok,
            final(self).wf(),
            final(self).queued(priority_rank(task.priority)) == old(self).queued(
                priority_rank(task.priority),
            ).push(task.id),
            forall|k: int|
                0 <= k < 4 && k != priority_rank(task.priority) ==> #[trigger] final(self).queued(k)
                    == old(self).queued(k),
    {
        let idx: usize = match task.priority {
            Priority::Realtime => 0,
            Priority::High => 1,
            Priority::Normal => 2,
            Priority::Low => 3,
        };
        let ghost pre = self.queues@;
        let mut q = self.queues.remove(idx);
        q.enqueue(task);
        self.queues.insert(idx, q);
        proof {
            assert forall|k: int| 0 <= k < 4 && k != idx implies #[trigger] self.queues@[k] == pre[k] by {}
        }
        Ok(())
    }

    /// Next task: the queues are checked in priority order, real-time
    /// first, and the first non-empty queue gives its oldest task.
    pub fn get_next_task(&mut self) -> (r: Option<CognitiveTask>)
        requires
            old(self).wf(),
        ensures
            final(self).wf(),
            r is None <==> forall|k: int| 0 <= k < 4 ==> #[trigger] old(self).queued(k).len() == 0,
            r is None ==> forall|k: int| 0 <= k < 4 ==> #[trigger] final(self).queued(k) == old(self).queued(k),
            r matches Some(t) ==> exists|k: int|
                0 <= k < 4 && #[trigger] old(self).queued(k).len() > 0 && (forall|j: int|
                    0 <= j < k ==> #[trigger] old(self).queued(j).len() == 0) && t.id == old(self).queued(k)[0]
                    && final(self).queued(k) == old(self).queued(k).drop_first() && (forall|j: int|
                    0 <= j < 4 && j != k ==> #[trigger] final(self).queued(j) == old(self).queued(j)),
    {
        let mut i: usize = 0;
        while i < 4
            invariant
                i <= 4,
                *self == *old(self),
                self.wf(),
                forall|j: int| 0 <= j < i ==> #[trigger] self.queued(j).len() == 0,
            decreases 4 - i,
        {
            let idx = i;
            proof {
                assert(self.queues@[idx as int].ids().len() == self.queues@[idx as int].len());
            }
            if self.queues[idx].tasks.len() > 0 {
                let ghost pre = self.queues@;
                let mut q = self.queues.remove(idx);
                let t = q.dequeue();
                self.queues.insert(idx, q);
                proof {
                    assert forall|j: int| 0 <= j < 4 && j != idx implies #[trigger] self.queues@[j] == pre[j] by {}
                    assert(old(self).queued(idx as int).len() > 0);
                }
                return t;
            }
            i = i + 1;
        }
        None
    }
}

/// Cores assigned to each hemisphere.
#[derive(Debug)]
pub struct HardwareMapping {
    pub left_cores: Vec<usize>,
    pub right_cores: Vec<usize>,
    pub shared_memory: bool,
}

impl HardwareMapping {
    /// One core each, no shared memory.
    pub fn default_mapping() -> (r: Self)
        ensures
            r.left_cores@ == seq![0usize],
            r.right_cores@ == seq![1usize],
            !r.shared_memory,
    {
        HardwareMapping { left_cores: vec![0], right_cores: vec![1], shared_memory: false }
    }
}

/// Hardware capabilities of the platform.
#[derive(Clone, Copy, Debug)]
pub struct HardwareCapabilities {
    pub neural_engine: bool,
    pub gpu_count: usize,
    pub cpu_cores: usize,
    pub has_amx: bool,
    pub has_sve: bool,
    pub has_avx512: bool,
}

impl HardwareCapabilities {
    /// Capabilities assumed for a platform: Neural Engine and AMX on
    /// Apple Silicon, AVX-512 on x86_64, eight cores, no GPU.
    pub fn detect(platform: Platform) -> (r: Self)
        ensures
            r.neural_engine == (platform == Platform::AppleSilicon),
            r.has_amx == (platform == Platform::AppleSilicon),
            r.has_avx512 == (platform == Platform::X86_64),
            r.gpu_count == 0,
            r.cpu_cores == 8,
            !r.has_sve,
    {
        let apple = match platform {
            Platform::AppleSilicon => true,
            Platform::X86_64 => false,
        };
        HardwareCapabilities {
            neural_engine: apple,
            gpu_count: 0,
            cpu_cores: 8,
            has_amx: apple,
            has_sve: false,
            has_avx512: !apple,
        }
    }
}

/// Memory of the machine.
#[derive(Clone, Copy, Debug)]
pub struct MemoryInfo {
    pub total: u64,
    pub available: u64,
}

impl MemoryInfo {
    /// 8 GiB in total, 6 GiB available.
    pub fn detect() -> (r: Self)
        ensures
            r.total == 8 * 1024 * 1024 * 1024,
            r.available == 6 * 1024 * 1024 * 1024,
    {
        MemoryInfo { total: 8 * 1024 * 1024 * 1024, available: 6 * 1024 * 1024 * 1024 }
    }
}

/// Acceleration resources of the platform.
pub struct HardwareAccelerationManager {
    pub platform: Platform,
    pub capabilities: HardwareCapabilities,
    neural_engine: bool,
    gpu_accel: bool,
    memory_info: MemoryInfo,
}

impl HardwareAccelerationManager {
    pub closed spec fn spec_platform(&self) -> Platform {
        self.platform
    }

    pub closed spec fn spec_capabilities(&self) -> HardwareCapabilities {
        self.capabilities
    }

    pub closed spec fn has_neural_engine(&self) -> bool {
        self.neural_engine
    }

    pub closed spec fn has_gpu(&self) -> bool {
        self.gpu_accel
    }

    pub closed spec fn memory(&self) -> MemoryInfo {
        self.memory_info
    }

    /// Resources of `platform`, no accelerator attached yet.
    pub fn detect(platform: Platform) -> (r: Self)
        ensures
            r.spec_platform() == platform,
            r.spec_capabilities() == HardwareCapabilities::detect_spec(platform),
            !r.has_neural_engine(),
            !r.has_gpu(),
            r.memory().available == 6 * 1024 * 1024 * 1024,
    {
        HardwareAccelerationManager {
            platform,
            capabilities: HardwareCapabilities::detect(platform),
            neural_engine: false,
            gpu_accel: false,
            memory_info: MemoryInfo::detect(),
        }
    }

    /// Attaches the platform's accelerator: the Neural Engine on Apple
    /// Silicon, a GPU on x86_64.
    pub fn initialize(&mut self) -> (r: Result<(), CognitiveError>)
        ensures
            r is Ok,
            final(self).spec_platform() == old(self).spec_platform(),
            final(self).memory() == old(self).memory(),
            old(self).spec_platform() == Platform::AppleSilicon ==> final(self).has_neural_engine()
                && final(self).has_gpu() == old(self).has_gpu(),
            old(self).spec_platform() == Platform::X86_64 ==> final(self).has_gpu() && final(self).has_neural_engine()
                == old(self).has_neural_engine(),
    {
        match self.platform {
            Platform::AppleSilicon => {
                self.neural_engine = true;
            },
            Platform::X86_64 => {
                self.gpu_accel = true;
            },
        }
        Ok(())
    }

    /// Available memory in bytes.
    pub fn available_memory(&self) -> (r: u64)
        ensures
            r == self.memory().available,
    {
        self.memory_info.available
    }
}

impl HardwareCapabilities {
    pub open spec fn detect_spec(platform: Platform) -> HardwareCapabilities {
        HardwareCapabilities {
            neural_engine: platform == Platform::AppleSilicon,
            gpu_count: 0,
            cpu_cores: 8,
            has_amx: platform == Platform::AppleSilicon,
            has_sve: false,
            has_avx512: platform == Platform::X86_64,
        }
    }
}

/// A copy of a core list.
fn copy_cores(cores: &[usize]) -> (r: Vec<usize>)
    ensures
        r@ == cores@,
{
    let mut v: Vec<usize> = Vec::new();
    let mut i: usize = 0;
    while i < cores.len()
        invariant
            i <= cores@.len(),
            v@ == cores@.subrange(0, i as int),
        decreases cores@.len() - i,
    {
        v.push(cores[i]);
        i = i + 1;
    }
    assert(cores@.subrange(0, cores@.len() as int) =~= cores@);
    v
}

/// Analytical hemisphere.
pub struct LeftHemisphere {
    cores: Vec<usize>,
    load: u64,
}

impl LeftHemisphere {
    pub closed spec fn spec_cores(&self) -> Seq<usize> {
        self.cores@
    }

    pub closed spec fn spec_load(&self) -> u64 {
        self.load
    }

    pub fn new() -> (r: Self)
        ensures
            r.spec_cores().len() == 0,
            r.spec_load() == 0,
    {
        LeftHemisphere { cores: Vec::new(), load: 0 }
    }

    /// Takes over `cores`.
    pub fn initialize(&mut self, cores: &[usize]) -> (r: Result<(), CognitiveError>)
        ensures
            r is Ok,
            final(self).spec_cores() == cores@,
            final(self).spec_load() == old(self).spec_load(),
    {
        self.cores = copy_cores(cores);
        Ok(())
    }

    pub fn get_load(&self) -> (r: u64)
        ensures
            r == self.spec_load(),
    {
        self.load
    }
}

/// Creative hemisphere.
pub struct RightHemisphere {
    cores: Vec<usize>,
    load: u64,
}

impl RightHemisphere {
    pub closed spec fn spec_cores(&self) -> Seq<usize> {
        self.cores@
    }

    pub closed spec fn spec_load(&self) -> u64 {
        self.load
    }

    pub fn new() -> (r: Self)
        ensures
            r.spec_cores().len() == 0,
            r.spec_load() == 0,
    {
        RightHemisphere { cores: Vec::new(), load: 0 }
    }

    /// Takes over `cores`.
    pub fn initialize(&mut self, cores: &[usize]) -> (r: Result<(), CognitiveError>)
        ensures
            r is Ok,
            final(self).spec_cores() == cores@,
            final(self).spec_load() == old(self).spec_load(),
    {
        self.cores = copy_cores(cores);
        Ok(())
    }

    pub fn get_load(&self) -> (r: u64)
        ensures
            r == self.spec_load(),
    {
        self.load
    }
}

/// Hemisphere a task goes to under `strategy` with the given loads.
pub open spec fn assigned_hemisphere(
    strategy: AssignmentStrategy,
    task_type: TaskType,
    left_load: u64,
    right_load: u64,
) -> Hemisphere {
    match strategy {
        AssignmentStrategy::Static => match task_type {
            TaskType::Analytical | TaskType::Sequential => Hemisphere::Left,
            TaskType::Creative | TaskType::Parallel => Hemisphere::Right,
            TaskType::Hybrid => Hemisphere::Both,
        },
        AssignmentStrategy::Adaptive => if task_type == TaskType::Hybrid {
            Hemisphere::Both
        } else if left_load < right_load {
            Hemisphere::Left
        } else {
            Hemisphere::Right
        },
        AssignmentStrategy::Predictive => Hemisphere::Left,
    }
}

/// Dual-hemisphere coordinator.
pub struct DualHemisphereCoordinator {
    pub left: LeftHemisphere,
    pub right: RightHemisphere,
    assignment_strategy: AssignmentStrategy,
    hardware_mapping: HardwareMapping,
}

impl DualHemisphereCoordinator {
    pub closed spec fn left_h(&self) -> LeftHemisphere {
        self.left
    }

    pub closed spec fn right_h(&self) -> RightHemisphere {
        self.right
    }

    pub closed spec fn strategy(&self) -> AssignmentStrategy {
        self.assignment_strategy
    }

    /// Adaptive assignment, default mapping.
    pub fn new() -> (r: Self)
        ensures
            r.strategy() == AssignmentStrategy::Adaptive,
            r.left_h().spec_load() == 0,
            r.right_h().spec_load() == 0,
    {
        DualHemisphereCoordinator {
            left: LeftHemisphere::new(),
            right: RightHemisphere::new(),
            assignment_strategy: AssignmentStrategy::Adaptive,
            hardware_mapping: HardwareMapping::default_mapping(),
        }
    }

    /// Maps the hemispheres to the platform's cores: eight efficiency cores
    /// and eight Neural Engine cores on Apple Silicon, one GPU each on
    /// x86_64.
    pub fn setup(&mut self, hw_accel: &HardwareAccelerationManager) -> (r: Result<(), CognitiveError>)
        ensures
            r is Ok,
            final(self).strategy() == old(self).strategy(),
            hw_accel.spec_platform() == Platform::AppleSilicon ==> final(self).left_h().spec_cores() == seq![
                0usize,
                1usize,
                2usize,
                3usize,
                4usize,
                5usize,
                6usize,
                7usize,
            ] && final(self).right_h().spec_cores() == seq![
                8usize,
                9usize,
                10usize,
                11usize,
                12usize,
                13usize,
                14usize,
                15usize,
            ],
            hw_accel.spec_platform() == Platform::X86_64 ==> final(self).left_h().spec_cores() == seq![0usize]
                && final(self).right_h().spec_cores() == seq![1usize],
            final(self).left_h().spec_load() == old(self).left_h().spec_load(),
            final(self).right_h().spec_load() == old(self).right_h().spec_load(),
    {
        match hw_accel.platform {
            Platform::AppleSilicon => {
                self.hardware_mapping = HardwareMapping {
                    left_cores: vec![0, 1, 2, 3, 4, 5, 6, 7],
                    right_cores: vec![8, 9, 10, 11, 12, 13, 14, 15],
                    shared_memory: true,
                };
            },
            Platform::X86_64 => {
                self.hardware_mapping = HardwareMapping {
                    left_cores: vec![0],
                    right_cores: vec![1],
                    shared_memory: false,
                };
            },
        }
        let _ = self.left.initialize(self.hardware_mapping.left_cores.as_slice());
        let _ = self.right.initialize(self.hardware_mapping.right_cores.as_slice());
        Ok(())
    }

    /// Hemisphere for `task`.
    pub fn assign_task(&self, task: &CognitiveTask) -> (r: Result<Hemisphere, CognitiveError>)
        ensures
            r == Ok::<Hemisphere, CognitiveError>(
                assigned_hemisphere(
                    self.strategy(),
                    task.task_type,
                    self.left_h().spec_load(),
                    self.right_h().spec_load(),
                ),
            ),
    {
        match self.assignment_strategy {
            AssignmentStrategy::Static => match task.task_type {
                TaskType::Analytical | TaskType::Sequential => Ok(Hemisphere::Left),
                TaskType::Creative | TaskType::Parallel => Ok(Hemisphere::Right),
                TaskType::Hybrid => Ok(Hemisphere::Both),
            },
            AssignmentStrategy::Adaptive => {
                let left_load = self.left.get_load();
                let right_load = self.right.get_load();
                if task.task_type == TaskType::Hybrid {
                    Ok(Hemisphere::Both)
                } else if left_load < right_load {
                    Ok(Hemisphere::Left)
                } else {
                    Ok(Hemisphere::Right)
                }
            },
            AssignmentStrategy::Predictive => self.predict_hemisphere(task),
        }
    }

    /// Predicted hemisphere: the left one, until a predictor is trained.
    fn predict_hemisphere(&self, _task: &CognitiveTask) -> (r: Result<Hemisphere, CognitiveError>)
        ensures
            r == Ok::<Hemisphere, CognitiveError>(Hemisphere::Left),
    {
        Ok(Hemisphere::Left)
    }
}

/// A compiled template.
#[derive(Clone, Debug)]
pub struct CompiledTemplate {
    pub bytecode: Vec<u8>,
}

/// Template engine: registered templates and a cache of compiled ones.
pub struct TemplateEngine {
    templates: Vec<(u64, CompiledTemplate)>,
    cache: Vec<(u64, CompiledTemplate)>,
    cache_capacity: usize,
    kernel_cache: bool,
}

/// Identifiers of a template table.
pub open spec fn template_ids(s: Seq<(u64, CompiledTemplate)>) -> Set<u64> {
    Set::new(|id: u64| exists|i: int| 0 <= i < s.len() && (#[trigger] s[i]).0 == id)
}

impl TemplateEngine {
    pub closed spec fn registered(&self) -> Set<u64> {
        template_ids(self.templates@)
    }

    pub closed spec fn cached(&self) -> Set<u64> {
        template_ids(self.cache@)
    }

    pub closed spec fn has_kernel_cache(&self) -> bool {
        self.kernel_cache
    }

    pub closed spec fn cache_limit(&self) -> usize {
        self.cache_capacity
    }

    /// No templates; a cache of 1024 entries.
    pub fn new() -> (r: Self)
        ensures
            r.registered() == Set::<u64>::empty(),
            r.cached() == Set::<u64>::empty(),
            !r.has_kernel_cache(),
            r.cache_limit() == 1024,
    {
        let r = TemplateEngine { templates: Vec::new(), cache: Vec::new(), cache_capacity: 1024, kernel_cache: false };
        assert(r.registered() =~= Set::<u64>::empty());
        assert(r.cached() =~= Set::<u64>::empty());
        r
    }

    /// Sets up the kernel-level cache; the standard template set is empty.
    pub fn initialize(&mut self) -> (r: Result<(), CognitiveError>)
        ensures
            r is Ok,
            final(self).has_kernel_cache(),
            final(self).registered() == old(self).registered(),
            final(self).cached() == old(self).cached(),
    {
        self.kernel_cache = true;
        Ok(())
    }

    fn lookup(table: &Vec<(u64, CompiledTemplate)>, id: u64) -> (r: bool)
        ensures
            r == template_ids(table@).contains(id),
    {
        let mut i: usize = 0;
        while i < table.len()
            invariant
                i <= table@.len(),
                forall|k: int| 0 <= k < i ==> (#[trigger] table@[k]).0 != id,
            decreases table@.len() - i,
        {
            if table[i].0 == id {
                proof {
                    assert(table@[i as int].0 == id);
                }
                return true;
            }
            i = i + 1;
        }
        false
    }

    /// Applies template `template_id` to `data`. The kernel cache holds no
    /// results; a cached or registered template runs (producing no output
    /// yet); an unknown template is an error.
    pub fn apply(&mut self, template_id: u64, _data: &[u8]) -> (r: Result<Vec<u8>, CognitiveError>)
        ensures
            r is Err <==> !(old(self).cached().contains(template_id) || old(self).registered().contains(template_id)),
            r is Err ==> r == Err::<Vec<u8>, CognitiveError>(CognitiveError::TemplateNotFound),
            r matches Ok(out) ==> out@.len() == 0,
            final(self).registered() == old(self).registered(),
            final(self).cached() == old(self).cached(),
    {
        if Self::lookup(&self.cache, template_id) {
            return Ok(Vec::new());
        }
        if Self::lookup(&self.templates, template_id) {
            return Ok(Vec::new());
        }
        Err(CognitiveError::TemplateNotFound)
    }
}

/// A batch of prompts.
#[derive(Clone, Debug)]
pub struct Batch {
    pub id: u64,
    pub prompts: Vec<Vec<u8>>,
    pub sequence_length: usize,
}

/// LLM runtime with paged attention and continuous batching.
pub struct VLLMRuntime {
    page_size: usize,
    max_pages: usize,
    kv_max_size: u64,
    batches: Vec<Batch>,
    next_batch_id: u64,
}

impl VLLMRuntime {
    pub closed spec fn batch_ids(&self) -> Seq<u64> {
        self.batches@.map_values(|b: Batch| b.id)
    }

    pub closed spec fn next_id(&self) -> u64 {
        self.next_batch_id
    }

    pub closed spec fn kv_limit(&self) -> u64 {
        self.kv_max_size
    }

    pub closed spec fn attention_page_bytes(&self) -> usize {
        self.page_size
    }

    pub closed spec fn attention_pages(&self) -> usize {
        self.max_pages
    }

    /// 16 KiB attention pages, 256 Ki pages, no batches.
    pub fn new() -> (r: Self)
        ensures
            r.batch_ids() == Seq::<u64>::empty(),
            r.next_id() == 0,
            r.kv_limit() == 0,
            r.attention_page_bytes() == 16 * 1024,
            r.attention_pages() == 256 * 1024,
    {
        let r = VLLMRuntime {
            page_size: 16 * 1024,
            max_pages: 256 * 1024,
            kv_max_size: 0,
            batches: Vec::new(),
            next_batch_id: 0,
        };
        assert(r.batch_ids() =~= Seq::<u64>::empty());
        r
    }

    /// Reserves 4 GiB for the key-value cache.
    pub fn initialize(&mut self) -> (r: Result<(), CognitiveError>)
        ensures
            r is Ok,
            final(self).kv_limit() == 4 * 1024 * 1024 * 1024,
            final(self).batch_ids() == old(self).batch_ids(),
            final(self).next_id() == old(self).next_id(),
    {
        self.kv_max_size = 4 * 1024 * 1024 * 1024;
        Ok(())
    }

    /// Runs `prompt` as a new batch of its own under the next batch
    /// identifier; the attention kernel produces no output yet.
    pub fn infer(&mut self, prompt: Vec<u8>, _hemisphere: Hemisphere) -> (r: Result<Vec<u8>, CognitiveError>)
        ensures
            r matches Ok(out) && out@.len() == 0,
            final(self).batch_ids() == old(self).batch_ids().push(old(self).next_id()),
            final(self).next_id() == old(self).next_id().wrapping_add(1),
            final(self).kv_limit() == old(self).kv_limit(),
    {
        let id = self.next_batch_id;
        self.next_batch_id = self.next_batch_id.wrapping_add(1);
        let mut prompts: Vec<Vec<u8>> = Vec::new();
        prompts.push(prompt);
        self.batches.push(Batch { id, prompts, sequence_length: 0 });
        assert(self.batch_ids() =~= old(self).batch_ids().push(id));
        Ok(Vec::new())
    }
}

} // verus!
