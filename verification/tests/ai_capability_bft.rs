use sis_kernel::kernel::ai_bft::{init_ai_bft, AggregationMethod, VoteType};
use sis_kernel::kernel::ai_capability_bft::{
    collect_quorum, current_leader, npu_queue_domain, npu_temporal_spec, priority_class_for, supermajority_threshold,
    BftError, DeadlineGuarantee, HardwareIsolationDomain, HardwareIsolationLevel, MMIOWindow, NetworkAddress,
    PriorityClass, ReplicaNode,
};

fn replica(id: u64) -> ReplicaNode {
    ReplicaNode { id, public_key: [id as u8; 32], network_address: NetworkAddress::InfiniBand(id), voting_power: 100 }
}

#[test]
fn supermajority_of_replicas() {
    assert_eq!(supermajority_threshold(1), 1);
    assert_eq!(supermajority_threshold(3), 1);
    assert_eq!(supermajority_threshold(4), 3);
    assert_eq!(supermajority_threshold(7), 5);
    assert_eq!(supermajority_threshold(10), 7);
    // With 3f + 1 replicas two quorums always share an honest replica.
    for f in 0..20usize {
        let n = 3 * f + 1;
        let q = supermajority_threshold(n);
        assert!(2 * q - n >= f + 1);
        assert!(n - f >= q);
    }
}

#[test]
fn round_robin_leader() {
    let rs = [replica(10), replica(20), replica(30)];
    assert_eq!(current_leader(0, &rs), 10);
    assert_eq!(current_leader(4, &rs), 20);
    assert_eq!(current_leader(5, &rs), 30);
}

#[test]
fn quorum_from_first_voters() {
    let rs = [replica(1), replica(2), replica(3), replica(4)];
    let sig = |b: u8| Some([b; 64]);
    // Replica 2 did not answer; the first three voters form the quorum.
    let votes = collect_quorum(&rs, &[sig(1), None, sig(3), sig(4)], 3).unwrap();
    assert_eq!(votes.iter().map(|v| v.0).collect::<Vec<_>>(), vec![1, 3, 4]);
    assert_eq!(votes[1].1, [3; 64]);
    // Voting stops once the threshold is met.
    let early = collect_quorum(&rs, &[sig(1), sig(2), sig(3), sig(4)], 3).unwrap();
    assert_eq!(early.iter().map(|v| v.0).collect::<Vec<_>>(), vec![1, 2, 3]);
    assert_eq!(collect_quorum(&rs, &[sig(1), None, None, sig(4)], 3), Err(BftError::InsufficientVotes));
    assert_eq!(collect_quorum(&rs, &[None, None, None, None], 0), Ok(vec![]));
    assert_eq!(BftError::InsufficientVotes.message(), "Insufficient votes for consensus");
}

#[test]
fn npu_isolation_domains() {
    let d = npu_queue_domain(3);
    assert_eq!(d.domain_id, 3);
    assert_eq!(d.scratchpad_base, 0x1000_0000 + 3 * 0x10_0000);
    assert_eq!(d.scratchpad_size, 1024 * 1024);
    assert_eq!(d.noc_isolation_mask, 1 << 3);
    assert_eq!(d.mmio_window, MMIOWindow { base: 0x2000_0000 + 3 * 0x1_0000, size: 64 * 1024, access_mask: 7 });
    assert_eq!(d.isolation_level(), HardwareIsolationLevel::NPUDomainLevel);
    let basic = HardwareIsolationDomain {
        domain_id: 0,
        scratchpad_base: 0,
        scratchpad_size: 0,
        noc_isolation_mask: 0,
        mmio_window: MMIOWindow { base: 0, size: 0, access_mask: 0 },
    };
    assert_eq!(basic.isolation_level(), HardwareIsolationLevel::ProcessLevel);
    let other = npu_queue_domain(4);
    assert_eq!(d.noc_isolation_mask & other.noc_isolation_mask, 0);
    assert!(d.scratchpad_base + d.scratchpad_size as u64 <= other.scratchpad_base);
}

#[test]
fn latency_classes() {
    assert_eq!(priority_class_for(40), PriorityClass::Critical);
    assert_eq!(priority_class_for(41), PriorityClass::RealTime);
    assert_eq!(priority_class_for(500), PriorityClass::RealTime);
    assert_eq!(priority_class_for(501), PriorityClass::Batch);
    let hard = npu_temporal_spec(40);
    assert_eq!(hard.time_slice_us, 1000);
    assert_eq!(hard.preemption_latency_ns, 500);
    assert_eq!(hard.deadline_guarantee, DeadlineGuarantee::HardRealTime);
    let soft = npu_temporal_spec(41);
    assert_eq!(soft.preemption_latency_ns, 2000);
    assert_eq!(soft.deadline_guarantee, DeadlineGuarantee::SoftRealTime);
}

#[test]
fn bft_setup() {
    assert_eq!(init_ai_bft(), Ok(()));
    assert_ne!(AggregationMethod::Krum, AggregationMethod::Median);
    assert_ne!(VoteType::Prepare, VoteType::Commit);
}
