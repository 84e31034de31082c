use neural_os::capability::{
    CapError, Capability, CapabilityTable, ObjectType, RIGHT_ALL, RIGHT_GRANT, RIGHT_IPC, RIGHT_MAP,
    RIGHT_RECV, RIGHT_SEND,
};

#[test]
fn denies_missing_send_right() {
    let mut table = CapabilityTable::new();
    table
        .insert(Capability::endpoint(1, 1, RIGHT_RECV, 1))
        .unwrap();
    let err = table.lookup_endpoint(1, RIGHT_SEND, 1, 0).unwrap_err();
    assert_eq!(err, CapError::Denied);
}

#[test]
fn rejects_stale_generation() {
    let mut table = CapabilityTable::new();
    table
        .insert(Capability::endpoint(1, 7, RIGHT_SEND, 1))
        .unwrap();
    let err = table.lookup_endpoint(1, RIGHT_SEND, 8, 0).unwrap_err();
    assert_eq!(err, CapError::StaleGeneration);
}

#[test]
fn grant_requires_grant_right() {
    let mut table = CapabilityTable::new();
    let idx = table
        .insert(Capability::endpoint(1, 1, RIGHT_SEND, 1))
        .unwrap();
    assert_eq!(table.grant(idx, RIGHT_SEND), Err(CapError::Denied));
}

#[test]
fn grant_restricts_rights_and_keeps_grant() {
    let mut table = CapabilityTable::new();
    let idx = table
        .insert(Capability::endpoint(3, 9, RIGHT_SEND | RIGHT_GRANT | RIGHT_MAP, 1))
        .unwrap();
    let g = table.grant(idx, RIGHT_SEND | RIGHT_RECV).unwrap();
    assert_eq!(g.rights, RIGHT_SEND | RIGHT_GRANT);
    assert_eq!(g.object_id, 3);
    assert_eq!(g.generation, 9);
    assert_eq!(table.grant(0, RIGHT_SEND), Err(CapError::EmptySlot));
    assert_eq!(table.grant(99, RIGHT_SEND), Err(CapError::BadIndex));
}

#[test]
fn restricted_only_drops_rights() {
    let c = Capability::endpoint(1, 1, RIGHT_ALL, 1);
    assert_eq!(c.restricted(RIGHT_IPC).rights, RIGHT_IPC);
    assert_eq!(c.restricted(0).rights, 0);
    let d = Capability::endpoint(1, 1, RIGHT_SEND, 1);
    assert_eq!(d.restricted(RIGHT_ALL).rights, RIGHT_SEND);
}

#[test]
fn insert_then_get_and_remove() {
    let mut table = CapabilityTable::new();
    let cap = Capability::endpoint(2, 5, RIGHT_RECV, 4);
    let idx = table.insert(cap).unwrap();
    assert_eq!(idx, 1);
    assert_eq!(table.get(idx), Ok(&cap));
    assert_eq!(table.slot(idx), Some(&cap));
    assert_eq!(table.remove(idx), Ok(cap));
    assert_eq!(table.get(idx), Err(CapError::EmptySlot));
    assert_eq!(table.slot(idx), None);
    assert_eq!(table.remove(idx), Err(CapError::EmptySlot));
}

#[test]
fn insert_skips_slot_zero_and_fills_up() {
    let mut table = CapabilityTable::new();
    for i in 1..16 {
        assert_eq!(table.insert(Capability::endpoint(1, 0, RIGHT_SEND, 1)), Ok(i));
    }
    assert_eq!(
        table.insert(Capability::endpoint(1, 0, RIGHT_SEND, 1)),
        Err(CapError::TableFull)
    );
    assert_eq!(table.get(0), Err(CapError::EmptySlot));
}

#[test]
fn insert_at_refuses_reserved_and_out_of_range() {
    let mut table = CapabilityTable::new();
    let cap = Capability::endpoint(1, 0, RIGHT_SEND, 1);
    assert_eq!(table.insert_at(0, cap), Err(CapError::BadIndex));
    assert_eq!(table.insert_at(16, cap), Err(CapError::BadIndex));
    assert_eq!(table.insert_at(15, cap), Ok(()));
    assert_eq!(table.get(15), Ok(&cap));
}

#[test]
fn lookup_endpoint_checks_in_order() {
    let mut table = CapabilityTable::new();
    table
        .insert_at(1, Capability::endpoint(6, 2, RIGHT_SEND, 1).with_expiry(10))
        .unwrap();
    let mut other = Capability::endpoint(6, 2, RIGHT_SEND, 1);
    other.object_type = ObjectType::Thread;
    table.insert_at(2, other).unwrap();
    assert_eq!(table.lookup_endpoint(1, RIGHT_SEND, 2, 9), Ok(6));
    assert_eq!(table.lookup_endpoint(1, RIGHT_SEND, 2, 10), Err(CapError::Expired));
    assert_eq!(table.lookup_endpoint(2, RIGHT_SEND, 2, 0), Err(CapError::WrongType));
    assert_eq!(table.lookup_endpoint(3, RIGHT_SEND, 2, 0), Err(CapError::EmptySlot));
    assert_eq!(table.lookup_endpoint(16, RIGHT_SEND, 2, 0), Err(CapError::BadIndex));
}

#[test]
fn get_mut_writes_through() {
    let mut table = CapabilityTable::new();
    table.insert(Capability::endpoint(1, 0, RIGHT_SEND, 1)).unwrap();
    table.get_mut(1).unwrap().rights = RIGHT_RECV;
    assert_eq!(table.get(1).unwrap().rights, RIGHT_RECV);
    assert_eq!(table.get_mut(2).err(), Some(CapError::EmptySlot));
}

#[test]
fn object_type_codes() {
    assert_eq!(ObjectType::Empty.as_u8(), 0);
    assert_eq!(ObjectType::Endpoint.as_u8(), 1);
    assert_eq!(ObjectType::Process.as_u8(), 2);
    assert_eq!(ObjectType::Thread.as_u8(), 3);
    assert!(Capability::empty().is_empty());
    assert!(!Capability::endpoint(1, 1, 0, 1).is_expired(u64::MAX));
}
