use brainbow::clock::Timestamp;
use brainbow::entity::signifier_signified::Relation;
use brainbow::repositories::sign::SignRepository;

#[test]
fn sign_table_checks_nothing() {
    let mut table = SignRepository::new();
    let at = Timestamp::from_unix(0, 0).unwrap();
    let first = table.create_at(5, 5, None, None, at).unwrap();
    let second = table.create_at(5, 5, None, None, at).unwrap();
    assert_eq!(first.id, 1);
    assert_eq!(second.id, 2);
    assert_eq!(table.count(), 2);
    assert!(table.pair_exists(5, 5));
    assert!(!table.pair_exists(5, 6));
}

#[test]
fn sign_table_lists_by_end() {
    let mut table = SignRepository::new();
    let a = table.create(1, 2, None, None).unwrap();
    let b = table.create(1, 3, None, None).unwrap();
    let c = table.create(2, 3, None, None).unwrap();
    assert_eq!(table.find_by_signifier_id(1), vec![a.clone(), b.clone()]);
    assert_eq!(table.find_by_signified_id(3), vec![b.clone(), c.clone()]);
    assert_eq!(table.find_by(Relation::Signified, 1), vec![]);
    assert_eq!(table.find_all(), vec![a, b, c]);
}

#[test]
fn sign_table_deletes_by_end() {
    let mut table = SignRepository::new();
    table.create(1, 2, None, None).unwrap();
    table.create(1, 3, None, None).unwrap();
    let kept = table.create(2, 3, None, None).unwrap();
    table.create(3, 1, None, None).unwrap();
    assert_eq!(table.delete_by_signifier(1).rows_affected, 2);
    assert_eq!(table.delete_by_signified(1).rows_affected, 1);
    assert_eq!(table.delete_by_signified(1).rows_affected, 0);
    assert_eq!(table.find_all(), vec![kept.clone()]);
    assert_eq!(table.delete(kept.id).rows_affected, 1);
    assert_eq!(table.delete(kept.id).rows_affected, 0);
    assert_eq!(table.count(), 0);
    assert_eq!(table.create(1, 2, None, None).unwrap().id, 5);
}
