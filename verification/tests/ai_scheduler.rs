use sis_kernel::kernel::ai::scheduler::{AiDeadline, AiQoS, AiTask, AiTaskQueue, ComputeResource, ResourceScheduler};
use sis_kernel::kernel::ai::WorkloadType;

fn task(id: u64, qos: AiQoS, deadline: u64, input_size: usize) -> AiTask {
    AiTask {
        task_id: id,
        qos,
        deadline: AiDeadline { submit_cycles: 0, deadline_cycles: deadline, deadline_ns: 0 },
        workload_type: WorkloadType::Interactive,
        model_id: 1,
        input_size,
        input_addr: 0,
        output_size: 0,
        output_addr: 0,
        resource_hint: ComputeResource::NeuralEngine,
        completion_callback: None,
        priority_weight: 1,
    }
}

#[test]
fn ring_is_fifo_and_bounded() {
    let mut q: AiTaskQueue<4> = AiTaskQueue::new();
    assert!(q.dequeue().is_none());
    for i in 0..3 {
        assert!(q.enqueue(task(i, AiQoS::InteractiveAI, 0, 0)).is_ok());
    }
    assert_eq!(q.depth(), 3);
    // One slot always stays empty: the fourth task comes back.
    let back = q.enqueue(task(9, AiQoS::InteractiveAI, 0, 0)).unwrap_err();
    assert_eq!(back.task_id, 9);
    assert_eq!(q.dequeue().unwrap().task_id, 0);
    assert_eq!(q.dequeue().unwrap().task_id, 1);
    assert!(q.enqueue(task(3, AiQoS::InteractiveAI, 0, 0)).is_ok());
    assert_eq!(q.dequeue().unwrap().task_id, 2);
    assert_eq!(q.dequeue().unwrap().task_id, 3);
    assert!(q.dequeue().is_none());
}

#[test]
fn real_time_first() {
    let mut s = ResourceScheduler::new(ComputeResource::NeuralEngine);
    assert_eq!(s.drr_quantum, [0, 4096, 2048, 1024]);
    assert!(s.schedule_task(task(1, AiQoS::InteractiveAI, 0, 0)).is_ok());
    assert!(s.schedule_task(task(2, AiQoS::RealTimeInference, 1000, 0)).is_ok());
    assert_eq!(s.rt_heap.len(), 1);
    let t = s.get_next_task(10).unwrap();
    assert_eq!(t.task_id, 2);
    assert!(s.rt_heap.is_empty());
}

#[test]
fn expired_deadlines_are_missed() {
    let mut s = ResourceScheduler::new(ComputeResource::CpuNeon);
    assert!(s.schedule_task(task(1, AiQoS::RealTimeInference, 100, 0)).is_ok());
    assert!(s.get_next_task(500).is_none());
    assert_eq!(s.tasks_missed_deadline, 1);
    assert!(s.rt_heap.is_empty());
}

#[test]
fn deficit_round_robin() {
    let mut s = ResourceScheduler::new(ComputeResource::CpuNeon);
    assert!(s.schedule_task(task(1, AiQoS::BackgroundTraining, 0, 4096)).is_ok());
    assert!(s.schedule_task(task(2, AiQoS::InteractiveAI, 0, 0)).is_ok());
    // No class has credit yet: the pass only replenishes the deficits.
    assert!(s.get_next_task(0).is_none());
    assert_eq!(s.drr_deficit, [0, 2048, 1024, 512]);
    // Interactive work comes first, costing one unit.
    assert_eq!(s.get_next_task(0).unwrap().task_id, 2);
    assert_eq!(s.drr_deficit, [0, 2047, 1024, 512]);
    // Then background work, costing 4096 / 1024 + 1 = 5 units.
    assert_eq!(s.get_next_task(0).unwrap().task_id, 1);
    assert_eq!(s.drr_deficit, [0, 2047, 1019, 512]);
}

#[test]
fn cost_terms_of_a_resource() {
    use_cost_terms();
}

fn use_cost_terms() {
    let f = sis_kernel::kernel::ai::scheduler::resource_cost_terms;
    assert_eq!(f(0, 100_000, 8500), (0, 100_000, 1));
    assert_eq!(f(4, 100_000, 8500), (100_000, 200_000, 1));
    assert_eq!(f(2, 10, 999), (5, 15, 1000));
    assert_eq!(f(0, 1, 5), (0, 1, 1000));
    assert_eq!(f(0, 1, 2000), (0, 1, 5));
}
