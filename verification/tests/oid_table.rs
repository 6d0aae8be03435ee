use async_snmp::handler::OidTable;
use async_snmp::oid::Oid;

#[test]
fn test_oid_table_insert_and_get() {
    let mut table: OidTable<i32> = OidTable::new();

    table.insert(Oid::from_slice(&[1, 3, 6, 1, 2]), 100);
    table.insert(Oid::from_slice(&[1, 3, 6, 1, 1]), 50);
    table.insert(Oid::from_slice(&[1, 3, 6, 1, 3]), 150);

    // Should maintain sorted order
    assert_eq!(table.get(&Oid::from_slice(&[1, 3, 6, 1, 1])), Some(&50));
    assert_eq!(table.get(&Oid::from_slice(&[1, 3, 6, 1, 2])), Some(&100));
    assert_eq!(table.get(&Oid::from_slice(&[1, 3, 6, 1, 3])), Some(&150));
    assert_eq!(table.get(&Oid::from_slice(&[1, 3, 6, 1, 4])), None);
}

#[test]
fn test_oid_table_update_existing() {
    let mut table: OidTable<i32> = OidTable::new();

    table.insert(Oid::from_slice(&[1, 3, 6, 1, 1]), 50);
    table.insert(Oid::from_slice(&[1, 3, 6, 1, 1]), 100);

    assert_eq!(table.get(&Oid::from_slice(&[1, 3, 6, 1, 1])), Some(&100));
    assert_eq!(table.len(), 1);
}

#[test]
fn test_oid_table_get_next() {
    let mut table: OidTable<i32> = OidTable::new();

    table.insert(Oid::from_slice(&[1, 3, 6, 1, 1]), 50);
    table.insert(Oid::from_slice(&[1, 3, 6, 1, 2]), 100);
    table.insert(Oid::from_slice(&[1, 3, 6, 1, 3]), 150);

    // Before first
    let next = table.get_next(&Oid::from_slice(&[1, 3, 6, 1, 0]));
    assert!(next.is_some());
    assert_eq!(next.unwrap().0, &Oid::from_slice(&[1, 3, 6, 1, 1]));

    // Exact match returns next
    let next = table.get_next(&Oid::from_slice(&[1, 3, 6, 1, 1]));
    assert!(next.is_some());
    assert_eq!(next.unwrap().0, &Oid::from_slice(&[1, 3, 6, 1, 2]));

    // Between entries
    let next = table.get_next(&Oid::from_slice(&[1, 3, 6, 1, 1, 5]));
    assert!(next.is_some());
    assert_eq!(next.unwrap().0, &Oid::from_slice(&[1, 3, 6, 1, 2]));

    // After last
    let next = table.get_next(&Oid::from_slice(&[1, 3, 6, 1, 3]));
    assert!(next.is_none());

    let next = table.get_next(&Oid::from_slice(&[1, 3, 6, 1, 4]));
    assert!(next.is_none());
}

#[test]
fn test_oid_table_remove() {
    let mut table: OidTable<i32> = OidTable::new();

    table.insert(Oid::from_slice(&[1, 3, 6, 1, 1]), 50);
    table.insert(Oid::from_slice(&[1, 3, 6, 1, 2]), 100);

    assert_eq!(table.remove(&Oid::from_slice(&[1, 3, 6, 1, 1])), Some(50));
    assert_eq!(table.remove(&Oid::from_slice(&[1, 3, 6, 1, 1])), None);
    assert_eq!(table.len(), 1);
}

#[test]
fn test_oid_table_iter() {
    let mut table: OidTable<i32> = OidTable::new();

    table.insert(Oid::from_slice(&[1, 3, 6, 1, 3]), 150);
    table.insert(Oid::from_slice(&[1, 3, 6, 1, 1]), 50);
    table.insert(Oid::from_slice(&[1, 3, 6, 1, 2]), 100);

    let entries: Vec<_> = table.iter();
    assert_eq!(entries.len(), 3);
    assert_eq!(entries[0].0, &Oid::from_slice(&[1, 3, 6, 1, 1]));
    assert_eq!(entries[1].0, &Oid::from_slice(&[1, 3, 6, 1, 2]));
    assert_eq!(entries[2].0, &Oid::from_slice(&[1, 3, 6, 1, 3]));
}

#[test]
fn test_oid_table_empty() {
    let table: OidTable<i32> = OidTable::new();
    assert!(table.is_empty());
    assert_eq!(table.len(), 0);
    assert!(table.get_next(&Oid::from_slice(&[1, 3, 6, 1])).is_none());
}

