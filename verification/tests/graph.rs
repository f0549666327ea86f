use brainbow::clock::Timestamp;
use brainbow::database::Database;
use brainbow::entity::signifier_signified::Relation;
use brainbow::error::{ErrorKind, ServiceError, StoreError};
use brainbow::repositories::onto::OntoRepository;
use brainbow::repositories::sign::SignRepository;
use brainbow::services::onto::{check_name_free, check_onto_exists, OntoService};
use brainbow::services::sign::{check_end_exists, check_new_sign, check_sign_exists, SignService};
use brainbow::weight::Weight;

fn weight(value: f64) -> Option<Weight> {
    Some(Weight::from_bits(value.to_bits()))
}

fn two_nodes() -> (Database, i32, i32) {
    let mut db = Database::new();
    let ontos = OntoService::new();
    let a = ontos.create_onto(&mut db, "Tree".to_string()).unwrap().id;
    let b = ontos.create_onto(&mut db, "Forest".to_string()).unwrap().id;
    (db, a, b)
}

#[test]
fn created_node_is_found_by_name() {
    let mut db = Database::new();
    let ontos = OntoService::new();
    let first = ontos.create_onto(&mut db, "Tree".to_string()).unwrap();
    let second = ontos.create_onto(&mut db, "Forest".to_string()).unwrap();
    assert_eq!(first.name, "Tree");
    assert_eq!(second.name, "Forest");
    assert_ne!(first.id, second.id);
    assert_eq!(db.ontos.find_by_name("Forest"), Some(second));
    assert_eq!(db.ontos.find_by_name("Tree"), Some(first));
    assert_eq!(db.ontos.find_by_name("tree"), None);
}

#[test]
fn created_node_has_trimmed_name() {
    let mut db = Database::new();
    let ontos = OntoService::new();
    let made = ontos.create_onto(&mut db, "  Tree\t".to_string()).unwrap();
    assert_eq!(made.name, "Tree");
    assert_eq!(db.ontos.find_by_name("Tree"), Some(made));
    assert_eq!(db.ontos.find_by_name("  Tree\t"), None);
}

#[test]
fn node_ids_are_never_reused() {
    let mut db = Database::new();
    let ontos = OntoService::new();
    let first = ontos.create_onto(&mut db, "Tree".to_string()).unwrap();
    ontos.delete_onto(&mut db, first.id).unwrap();
    let second = ontos.create_onto(&mut db, "Tree".to_string()).unwrap();
    assert_eq!(first.id, 1);
    assert_eq!(second.id, 2);
}

#[test]
fn blank_names_are_invalid() {
    let mut db = Database::new();
    let ontos = OntoService::new();
    let empty = ontos.create_onto(&mut db, "".to_string()).unwrap_err();
    let spaces = ontos.create_onto(&mut db, "   ".to_string()).unwrap_err();
    assert_eq!(empty, ServiceError::EmptyName);
    assert_eq!(spaces, ServiceError::EmptyName);
    assert_eq!(empty.kind(), ErrorKind::InvalidArgument);
    assert!(ontos.get_all_ontos(&db).is_empty());
}

#[test]
fn same_name_is_a_conflict() {
    let mut db = Database::new();
    let ontos = OntoService::new();
    let first = ontos.create_onto(&mut db, "Tree".to_string()).unwrap();
    let again = ontos.create_onto(&mut db, "Tree".to_string()).unwrap_err();
    let padded = ontos.create_onto(&mut db, " Tree ".to_string()).unwrap_err();
    assert_eq!(again, ServiceError::NameTaken { holder: first.id });
    assert_eq!(padded, ServiceError::NameTaken { holder: first.id });
    assert_eq!(again.kind(), ErrorKind::Conflict);
    assert_eq!(ontos.get_all_ontos(&db).len(), 1);
}

#[test]
fn self_relation_is_invalid() {
    let (mut db, a, _) = two_nodes();
    let signs = SignService::new();
    let err = signs.create_sign(&mut db, a, a, None, None).unwrap_err();
    assert_eq!(err, ServiceError::SelfRelation { id: a });
    assert_eq!(err.kind(), ErrorKind::InvalidArgument);
    assert_eq!(signs.count_signs(&db), 0);
}

#[test]
fn self_relation_is_judged_before_existence() {
    let mut db = Database::new();
    let signs = SignService::new();
    let err = signs.create_sign(&mut db, 7, 7, None, None).unwrap_err();
    assert_eq!(err, ServiceError::SelfRelation { id: 7 });
}

#[test]
fn duplicate_relation_is_a_conflict_and_direction_matters() {
    let (mut db, a, b) = two_nodes();
    let signs = SignService::new();
    let first = signs.create_sign(&mut db, a, b, None, None).unwrap();
    let again = signs.create_sign(&mut db, a, b, weight(0.5), Some("x".to_string())).unwrap_err();
    assert_eq!(again, ServiceError::SignExists { signifier_id: a, signified_id: b });
    assert_eq!(again.kind(), ErrorKind::Conflict);
    let back = signs.create_sign(&mut db, b, a, None, None).unwrap();
    assert_eq!(back.signifier_id, b);
    assert_eq!(back.signified_id, a);
    assert_ne!(back.id, first.id);
    assert_eq!(signs.count_signs(&db), 2);
}

#[test]
fn weight_must_lie_in_the_unit_interval() {
    let (mut db, a, b) = two_nodes();
    let ontos = OntoService::new();
    let c = ontos.create_onto(&mut db, "Grove".to_string()).unwrap().id;
    let signs = SignService::new();
    let err = signs.create_sign(&mut db, a, b, weight(1.5), None).unwrap_err();
    assert_eq!(err, ServiceError::WeightOutOfRange);
    assert_eq!(err.kind(), ErrorKind::InvalidArgument);
    assert_eq!(signs.count_signs(&db), 0);
    let low = signs.create_sign(&mut db, a, b, weight(0.0), None).unwrap();
    let high = signs.create_sign(&mut db, a, c, weight(1.0), None).unwrap();
    assert_eq!(low.weight, weight(0.0));
    assert_eq!(high.weight, weight(1.0));
    let below = signs.create_sign(&mut db, b, c, weight(-0.25), None).unwrap_err();
    assert_eq!(below, ServiceError::WeightOutOfRange);
}

#[test]
fn missing_node_is_not_found() {
    let (mut db, _, b) = two_nodes();
    let signs = SignService::new();
    let from = signs.create_sign(&mut db, 999, b, None, None).unwrap_err();
    assert_eq!(from, ServiceError::SignifierNotFound { id: 999 });
    assert_eq!(from.kind(), ErrorKind::NotFound);
    let to = signs.create_sign(&mut db, b, 999, None, None).unwrap_err();
    assert_eq!(to, ServiceError::SignifiedNotFound { id: 999 });
    assert_eq!(to.kind(), ErrorKind::NotFound);
    let neither = signs.create_sign(&mut db, 998, 999, None, None).unwrap_err();
    assert_eq!(neither, ServiceError::SignifierNotFound { id: 998 });
}

#[test]
fn conflict_is_judged_before_weight() {
    let (mut db, a, b) = two_nodes();
    let signs = SignService::new();
    signs.create_sign(&mut db, a, b, None, None).unwrap();
    let err = signs.create_sign(&mut db, a, b, weight(7.0), None).unwrap_err();
    assert_eq!(err, ServiceError::SignExists { signifier_id: a, signified_id: b });
}

#[test]
fn check_new_sign_reports_the_first_failure() {
    let w = weight(2.0);
    assert_eq!(
        check_new_sign(1, 1, false, false, true, &w),
        Err(ServiceError::SelfRelation { id: 1 })
    );
    assert_eq!(
        check_new_sign(1, 2, false, false, true, &w),
        Err(ServiceError::SignifierNotFound { id: 1 })
    );
    assert_eq!(
        check_new_sign(1, 2, true, false, true, &w),
        Err(ServiceError::SignifiedNotFound { id: 2 })
    );
    assert_eq!(
        check_new_sign(1, 2, true, true, true, &w),
        Err(ServiceError::SignExists { signifier_id: 1, signified_id: 2 })
    );
    assert_eq!(check_new_sign(1, 2, true, true, false, &w), Err(ServiceError::WeightOutOfRange));
    assert_eq!(check_new_sign(1, 2, true, true, false, &None), Ok(()));
}

#[test]
fn deleting_a_node_removes_its_relations() {
    let (mut db, a, b) = two_nodes();
    let ontos = OntoService::new();
    let signs = SignService::new();
    let c = ontos.create_onto(&mut db, "Grove".to_string()).unwrap().id;
    signs.create_sign(&mut db, a, b, None, None).unwrap();
    signs.create_sign(&mut db, c, a, None, None).unwrap();
    signs.create_sign(&mut db, a, c, None, None).unwrap();
    let kept = signs.create_sign(&mut db, b, c, None, None).unwrap();
    assert_eq!(signs.count_signs(&db), 4);
    assert_eq!(ontos.delete_onto(&mut db, a), Ok(()));
    assert_eq!(ontos.get_onto_by_id(&db, a), None);
    assert_eq!(ontos.get_all_ontos(&db).len(), 2);
    let left = signs.get_all_signs(&db);
    assert_eq!(left, vec![kept]);
    assert!(left.iter().all(|s| s.signifier_id != a && s.signified_id != a));
    assert_eq!(
        signs.get_signs_by_signifier(&db, a),
        Err(ServiceError::SignifierNotFound { id: a })
    );
    assert_eq!(
        signs.get_signs_by_signified(&db, a),
        Err(ServiceError::SignifiedNotFound { id: a })
    );
    assert_eq!(ontos.delete_onto(&mut db, a), Err(ServiceError::OntoNotFound { id: a }));
}

#[test]
fn deleting_a_relation_twice_is_not_found() {
    let (mut db, a, b) = two_nodes();
    let signs = SignService::new();
    let first = signs.create_sign(&mut db, a, b, None, None).unwrap();
    let second = signs.create_sign(&mut db, b, a, None, None).unwrap();
    assert_eq!(signs.delete_sign(&mut db, first.id), Ok(()));
    let again = signs.delete_sign(&mut db, first.id).unwrap_err();
    assert_eq!(again, ServiceError::SignNotFound { id: first.id });
    assert_eq!(again.kind(), ErrorKind::NotFound);
    assert!(signs.validate_sign_id(&db, second.id));
    assert!(!signs.validate_sign_id(&db, first.id));
    assert_eq!(signs.delete_sign(&mut db, second.id), Ok(()));
    assert_eq!(signs.delete_sign(&mut db, 12345), Err(ServiceError::SignNotFound { id: 12345 }));
    assert_eq!(signs.count_signs(&db), 0);
}

#[test]
fn tree_and_forest_end_to_end() {
    let mut db = Database::new();
    let ontos = OntoService::new();
    let signs = SignService::new();
    let tree = ontos.create_onto(&mut db, "Tree".to_string()).unwrap();
    let forest = ontos.create_onto(&mut db, "Forest".to_string()).unwrap();
    assert_eq!(tree.id, 1);
    assert_eq!(forest.id, 2);
    let edge = signs
        .create_sign(&mut db, 1, 2, weight(0.8), Some("part-of".to_string()))
        .unwrap();
    assert_eq!(edge.id, 1);
    assert_eq!(edge.weight, weight(0.8));
    assert_eq!(edge.relation_type, Some("part-of".to_string()));
    let from_tree = signs.get_signs_by_signifier(&db, 1).unwrap();
    assert_eq!(from_tree.len(), 1);
    assert_eq!(from_tree[0].signified_id, 2);
    assert_eq!(signs.get_signs_by_signified(&db, 2).unwrap(), from_tree);
    assert_eq!(signs.get_signs_by_signified(&db, 1).unwrap(), vec![]);
    assert_eq!(ontos.delete_onto(&mut db, 1), Ok(()));
    assert!(signs.get_all_signs(&db).is_empty());
    assert_eq!(ontos.get_onto_by_id(&db, 1), None);
    assert_eq!(ontos.get_onto_by_id(&db, 2), Some(forest));
}

#[test]
fn relation_is_stamped_with_the_given_moment() {
    let (mut db, a, b) = two_nodes();
    let signs = SignService::new();
    let at = Timestamp::from_unix(1_700_000_000, 0).unwrap();
    let made = signs.create_sign_at(&mut db, a, b, None, None, at).unwrap();
    assert_eq!(made.created_at, at);
    assert_eq!(signs.get_sign_by_id(&db, made.id), Some(made));
}

#[test]
fn relation_is_stamped_with_the_present() {
    let (mut db, a, b) = two_nodes();
    let signs = SignService::new();
    let before = Timestamp::now();
    let made = signs.create_sign(&mut db, a, b, None, None).unwrap();
    assert!(made.created_at.seconds() >= before.seconds());
}

#[test]
fn rename_checks_name_and_holder() {
    let (mut db, a, b) = two_nodes();
    let ontos = OntoService::new();
    let blank = ontos.update_onto(&mut db, a, Some(" ".to_string())).unwrap_err();
    assert_eq!(blank, ServiceError::EmptyName);
    let taken = ontos.update_onto(&mut db, a, Some("Forest".to_string())).unwrap_err();
    assert_eq!(taken, ServiceError::NameTaken { holder: b });
    let same = ontos.update_onto(&mut db, a, Some(" Tree ".to_string())).unwrap();
    assert_eq!(same.name, "Tree");
    let renamed = ontos.update_onto(&mut db, a, Some("Oak".to_string())).unwrap();
    assert_eq!(renamed.id, a);
    assert_eq!(renamed.name, "Oak");
    assert_eq!(db.ontos.find_by_name("Tree"), None);
    assert_eq!(ontos.get_onto_by_id(&db, a), Some(renamed));
    let free_again = ontos.create_onto(&mut db, "Tree".to_string()).unwrap();
    assert_eq!(free_again.id, 3);
}

#[test]
fn rename_without_a_name_changes_nothing() {
    let (mut db, a, _) = two_nodes();
    let ontos = OntoService::new();
    let same = ontos.update_onto(&mut db, a, None).unwrap();
    assert_eq!(same.name, "Tree");
    assert_eq!(
        ontos.update_onto(&mut db, 77, None),
        Err(ServiceError::OntoNotFound { id: 77 })
    );
}

#[test]
fn rename_of_a_missing_node_is_not_found() {
    let (mut db, _, b) = two_nodes();
    let ontos = OntoService::new();
    assert_eq!(
        ontos.update_onto(&mut db, 77, Some("Oak".to_string())),
        Err(ServiceError::OntoNotFound { id: 77 })
    );
    assert_eq!(
        ontos.update_onto(&mut db, 77, Some("Forest".to_string())),
        Err(ServiceError::NameTaken { holder: b })
    );
    assert_eq!(
        ontos.update_onto(&mut db, 77, Some("".to_string())),
        Err(ServiceError::EmptyName)
    );
}

#[test]
fn counts_by_end() {
    let (mut db, a, b) = two_nodes();
    let ontos = OntoService::new();
    let signs = SignService::new();
    let c = ontos.create_onto(&mut db, "Grove".to_string()).unwrap().id;
    signs.create_sign(&mut db, a, b, None, None).unwrap();
    signs.create_sign(&mut db, a, c, None, None).unwrap();
    signs.create_sign(&mut db, b, c, None, None).unwrap();
    assert_eq!(signs.count_signs_by_signifier(&db, a), Ok(2));
    assert_eq!(signs.count_signs_by_signified(&db, c), Ok(2));
    assert_eq!(signs.count_signs_by_signified(&db, a), Ok(0));
    assert_eq!(
        signs.count_signs_by_signifier(&db, 50),
        Err(ServiceError::SignifierNotFound { id: 50 })
    );
    assert_eq!(
        signs.get_signs_by(&db, Relation::Signified, 50),
        Err(ServiceError::SignifiedNotFound { id: 50 })
    );
}

#[test]
fn storage_failure_has_its_own_kind() {
    let err = ServiceError::Storage(StoreError::OutOfIds);
    assert_eq!(err.kind(), ErrorKind::StorageError);
    assert_eq!(ErrorKind::InvalidArgument.status_code(), 400);
    assert_eq!(ErrorKind::NotFound.status_code(), 404);
    assert_eq!(ErrorKind::Conflict.status_code(), 409);
    assert_eq!(ErrorKind::StorageError.status_code(), 500);
}

#[test]
fn exhausted_tables_refuse_new_rows() {
    let mut db = Database::new();
    let ontos = OntoService::new();
    let signs = SignService::new();
    db.ontos = OntoRepository::starting_after(i32::MAX - 2).unwrap();
    let a = ontos.create_onto(&mut db, "Tree".to_string()).unwrap();
    let b = ontos.create_onto(&mut db, "Forest".to_string()).unwrap();
    assert_eq!(a.id, i32::MAX - 1);
    assert_eq!(b.id, i32::MAX);
    let full = ontos.create_onto(&mut db, "Grove".to_string()).unwrap_err();
    assert_eq!(full, ServiceError::Storage(StoreError::OutOfIds));
    assert_eq!(full.kind(), ErrorKind::StorageError);
    assert_eq!(ontos.get_all_ontos(&db).len(), 2);
    db.signs = SignRepository::starting_after(i32::MAX).unwrap();
    let full = signs.create_sign(&mut db, a.id, b.id, None, None).unwrap_err();
    assert_eq!(full, ServiceError::Storage(StoreError::OutOfIds));
    assert_eq!(signs.count_signs(&db), 0);
    assert!(OntoRepository::starting_after(-1).is_none());
    assert!(SignRepository::starting_after(0).is_some());
}

#[test]
fn existence_checks_name_what_is_missing() {
    assert_eq!(check_onto_exists(4, true), Ok(()));
    assert_eq!(check_onto_exists(4, false), Err(ServiceError::OntoNotFound { id: 4 }));
    assert_eq!(check_sign_exists(4, true), Ok(()));
    assert_eq!(check_sign_exists(4, false), Err(ServiceError::SignNotFound { id: 4 }));
    assert_eq!(check_end_exists(Relation::Signifier, 4, true), Ok(()));
    assert_eq!(
        check_end_exists(Relation::Signifier, 4, false),
        Err(ServiceError::SignifierNotFound { id: 4 })
    );
    assert_eq!(
        check_end_exists(Relation::Signified, 4, false),
        Err(ServiceError::SignifiedNotFound { id: 4 })
    );
}

#[test]
fn name_is_free_unless_another_holds_it() {
    assert_eq!(check_name_free(None, None), Ok(()));
    assert_eq!(check_name_free(None, Some(1)), Ok(()));
    assert_eq!(check_name_free(Some(1), Some(1)), Ok(()));
    assert_eq!(check_name_free(Some(2), Some(1)), Err(ServiceError::NameTaken { holder: 2 }));
    assert_eq!(check_name_free(Some(2), None), Err(ServiceError::NameTaken { holder: 2 }));
}
