use sis_kernel::kernel::capabilities::{
    CapabilityManager, CapabilityRights, CapabilityType, DerivationContext,
};

fn rights(bits: u32) -> CapabilityRights {
    CapabilityRights::new(bits)
}

const RDR: u32 = CapabilityRights::READ | CapabilityRights::DERIVE | CapabilityRights::REVOKE;

#[test]
fn intersect_attenuates_rights() {
    let a = rights(CapabilityRights::READ | CapabilityRights::WRITE);
    let b = rights(CapabilityRights::READ | CapabilityRights::EXECUTE);
    let c = a.intersect(b);
    assert!(c.has(CapabilityRights::READ));
    assert!(!c.has(CapabilityRights::WRITE));
    assert!(!c.has(CapabilityRights::EXECUTE));
}

#[test]
fn grant_then_revoke_right() {
    let mut r = rights(CapabilityRights::READ);
    r.grant(CapabilityRights::WRITE);
    assert!(r.has(CapabilityRights::WRITE));
    r.revoke(CapabilityRights::WRITE);
    assert!(!r.has(CapabilityRights::WRITE));
    assert!(r.has(CapabilityRights::READ));
}

#[test]
fn create_check_and_derive() {
    let mut m = CapabilityManager::new();
    let id = m.create_capability(CapabilityType::Memory, rights(RDR), 0x1000, 0x4000, 7, 10).unwrap();
    assert_eq!(id, 1);
    assert!(m.check_capability(7, id, rights(CapabilityRights::READ)));
    assert!(!m.check_capability(7, id, rights(CapabilityRights::WRITE)));
    assert!(!m.check_capability(8, id, rights(CapabilityRights::READ)));
    let child = m
        .derive_capability(id, rights(CapabilityRights::READ), DerivationContext::Split { offset: 0x1000, new_size: 0x1000 }, 9, 11)
        .unwrap();
    assert_eq!(child, 2);
    let c = m.get_capability(child).unwrap();
    assert_eq!(c.parent, Some(id));
    assert_eq!(c.address, 0x2000);
    assert_eq!(c.size, 0x1000);
    assert_eq!(c.rights.0, CapabilityRights::READ);
    assert_eq!(m.get_stats().created, 2);
}

#[test]
fn derive_errors() {
    let mut m = CapabilityManager::new();
    let id = m.create_capability(CapabilityType::Memory, rights(CapabilityRights::READ), 0, 0x1000, 1, 0).unwrap();
    assert_eq!(
        m.derive_capability(99, rights(0), DerivationContext::Restrict { removed_rights: 0 }, 1, 0),
        Err("Parent capability not found")
    );
    assert_eq!(
        m.derive_capability(id, rights(0), DerivationContext::Restrict { removed_rights: 0 }, 1, 0),
        Err("Parent capability lacks DERIVE right")
    );
    let d = m.create_capability(CapabilityType::Memory, rights(RDR), 0, 0x1000, 1, 0).unwrap();
    assert_eq!(
        m.derive_capability(d, rights(0), DerivationContext::Split { offset: 0x800, new_size: 0x1000 }, 1, 0),
        Err("Split exceeds parent capability bounds")
    );
}

#[test]
fn revoke_takes_the_derivation_tree() {
    let mut m = CapabilityManager::new();
    let root = m.create_capability(CapabilityType::Memory, rights(RDR), 0, 0x10000, 1, 0).unwrap();
    let a = m.derive_capability(root, rights(RDR), DerivationContext::Restrict { removed_rights: 0 }, 1, 1).unwrap();
    let b = m.derive_capability(a, rights(RDR), DerivationContext::Restrict { removed_rights: 0 }, 1, 2).unwrap();
    let other = m.create_capability(CapabilityType::Memory, rights(RDR), 0, 0x10000, 1, 3).unwrap();
    assert_eq!(m.revoke_capability(root, 1), Ok(3));
    for id in [root, a, b] {
        assert!(m.get_capability(id).is_none());
        assert!(!m.check_capability(1, id, rights(CapabilityRights::READ)));
    }
    assert!(m.get_capability(other).is_some());
    assert_eq!(m.get_stats().revoked, 3);
}

#[test]
fn revoke_takes_derivatives_held_by_others() {
    let mut m = CapabilityManager::new();
    let root = m.create_capability(CapabilityType::Memory, rights(RDR), 0, 0x10000, 1, 0).unwrap();
    // The child goes to entity 2; revoking the root still takes it and what derives from it.
    let child = m.derive_capability(root, rights(RDR), DerivationContext::Restrict { removed_rights: 0 }, 2, 1).unwrap();
    let grandchild = m.derive_capability(child, rights(RDR), DerivationContext::Restrict { removed_rights: 0 }, 1, 2).unwrap();
    let before = m.get_stats();
    assert_eq!(m.revoke_capability(root, 1), Ok(3));
    assert!(m.get_capability(root).is_none());
    assert!(m.get_capability(child).is_none());
    assert!(m.get_capability(grandchild).is_none());
    assert_eq!(m.get_stats().access_denied, before.access_denied);
}

#[test]
fn revoke_by_stranger_takes_nothing() {
    let mut m = CapabilityManager::new();
    let root = m.create_capability(CapabilityType::Memory, rights(RDR), 0, 0x10000, 1, 0).unwrap();
    let before = m.get_stats();
    assert_eq!(m.revoke_capability(root, 5), Ok(0));
    assert!(m.get_capability(root).is_some());
    // Entity 5 has no space: the refused check counts as a denied access.
    assert_eq!(m.get_stats().access_denied, before.access_denied + 1);
    assert_eq!(m.get_stats().revoked, 0);
}

#[test]
fn init_installs_the_root_capability() {
    let mut m = CapabilityManager::new();
    sis_kernel::kernel::capabilities::init(&mut m, 5).unwrap();
    let root = m.get_capability(1).unwrap();
    assert_eq!(root.owner, 0);
    assert!(root.rights.has(CapabilityRights::REVOKE));
    assert!(m.check_capability(0, 1, rights(CapabilityRights::READ | CapabilityRights::WRITE)));
}
