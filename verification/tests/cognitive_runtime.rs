use sis_kernel::kernel::cognitive_runtime::{
    CognitiveError, CognitiveScheduler, CognitiveTask, DualHemisphereCoordinator, HardwareAccelerationManager,
    HardwareCapabilities, Hemisphere, Platform, Priority, TaskQueue, TaskResult, TaskType, TemplateEngine,
    VLLMRuntime,
};

fn task(id: u64, task_type: TaskType, priority: Priority) -> CognitiveTask {
    CognitiveTask { id, task_type, priority, query: vec![1, 2], prompt: None, data: None, deadline: None }
}

#[test]
fn task_properties() {
    assert!(task(1, TaskType::Analytical, Priority::Normal).requires_structure());
    assert!(task(1, TaskType::Sequential, Priority::Normal).requires_structure());
    assert!(!task(1, TaskType::Creative, Priority::Normal).requires_structure());
    let mut t = task(2, TaskType::Parallel, Priority::Low);
    assert!(t.data_source().is_empty());
    t.data = Some(vec![5, 6]);
    assert_eq!(t.data_source(), vec![5, 6]);
    let r = TaskResult::empty();
    assert!(r.data.is_empty());
    assert_eq!(r.hemisphere_used, Hemisphere::Left);
}

#[test]
fn fifo_queue() {
    let mut q = TaskQueue::new();
    assert!(q.dequeue().is_none());
    q.enqueue(task(1, TaskType::Hybrid, Priority::Normal));
    q.enqueue(task(2, TaskType::Hybrid, Priority::Normal));
    assert_eq!(q.dequeue().unwrap().id, 1);
    assert_eq!(q.dequeue().unwrap().id, 2);
    assert!(q.dequeue().is_none());
}

#[test]
fn scheduler_serves_realtime_first() {
    let mut s = CognitiveScheduler::new();
    assert!(s.get_next_task().is_none());
    assert_eq!(s.schedule(task(1, TaskType::Analytical, Priority::Realtime)), Ok(()));
    assert_eq!(s.schedule(task(2, TaskType::Analytical, Priority::Normal)), Ok(()));
    assert_eq!(s.schedule(task(3, TaskType::Analytical, Priority::Normal)), Ok(()));
    assert_eq!(s.schedule(task(4, TaskType::Analytical, Priority::Low)), Ok(()));
    assert_eq!(s.get_next_task().unwrap().id, 1);
    assert_eq!(s.get_next_task().unwrap().id, 2);
    assert_eq!(s.get_next_task().unwrap().id, 3);
    assert_eq!(s.get_next_task().unwrap().id, 4);
    assert!(s.get_next_task().is_none());
}

#[test]
fn hardware_detection() {
    let apple = HardwareCapabilities::detect(Platform::AppleSilicon);
    assert!(apple.neural_engine && apple.has_amx && !apple.has_avx512);
    assert_eq!(apple.cpu_cores, 8);
    let x86 = HardwareCapabilities::detect(Platform::X86_64);
    assert!(!x86.neural_engine && x86.has_avx512);
    let mut hw = HardwareAccelerationManager::detect(Platform::X86_64);
    assert_eq!(hw.available_memory(), 6 * 1024 * 1024 * 1024);
    assert_eq!(hw.initialize(), Ok(()));
}

#[test]
fn hemisphere_assignment() {
    let hw = HardwareAccelerationManager::detect(Platform::AppleSilicon);
    let mut c = DualHemisphereCoordinator::new();
    assert_eq!(c.setup(&hw), Ok(()));
    assert_eq!(c.left.get_load(), 0);
    // Adaptive assignment: hybrid work uses both, other work the less
    // loaded hemisphere (the right one on a tie).
    assert_eq!(c.assign_task(&task(1, TaskType::Hybrid, Priority::High)), Ok(Hemisphere::Both));
    assert_eq!(c.assign_task(&task(1, TaskType::Analytical, Priority::High)), Ok(Hemisphere::Right));
}

#[test]
fn templates_and_llm_runtime() {
    let mut t = TemplateEngine::new();
    assert_eq!(t.apply(1, b"x"), Err(CognitiveError::TemplateNotFound));
    assert_eq!(t.initialize(), Ok(()));
    let mut llm = VLLMRuntime::new();
    assert_eq!(llm.initialize(), Ok(()));
    assert_eq!(llm.infer(b"hello".to_vec(), Hemisphere::Left), Ok(Vec::new()));
}
