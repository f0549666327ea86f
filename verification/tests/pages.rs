use brainbow::database::Database;
use brainbow::error::ServiceError;
use brainbow::services::html::HtmlService;
use brainbow::services::onto::OntoService;
use brainbow::services::sign::SignService;

fn small_graph() -> Database {
    let mut db = Database::new();
    let ontos = OntoService::new();
    let signs = SignService::new();
    ontos.create_onto(&mut db, "Tree".to_string()).unwrap();
    ontos.create_onto(&mut db, "Forest".to_string()).unwrap();
    ontos.create_onto(&mut db, "Leaf".to_string()).unwrap();
    signs.create_sign(&mut db, 1, 2, None, None).unwrap();
    signs.create_sign(&mut db, 3, 1, None, None).unwrap();
    db
}

#[test]
fn onto_detail_gathers_both_ends() {
    let db = small_graph();
    let pages = HtmlService::new();
    let (node, signifiers, signifieds) = pages.get_onto_detail_for_html(&db, 1).unwrap();
    assert_eq!(node.name, "Tree");
    assert_eq!(signifiers.len(), 1);
    assert_eq!(signifiers[0].signified_id, 2);
    assert_eq!(signifieds.len(), 1);
    assert_eq!(signifieds[0].signifier_id, 3);
    assert_eq!(
        pages.get_onto_detail_for_html(&db, 9),
        Err(ServiceError::OntoNotFound { id: 9 })
    );
}

#[test]
fn sign_pages_name_the_missing_side() {
    let db = small_graph();
    let pages = HtmlService::new();
    let (node, signs) = pages.get_signs_by_signifier_for_html(&db, 3).unwrap();
    assert_eq!(node.id, 3);
    assert_eq!(signs.len(), 1);
    let (_, signs) = pages.get_signs_by_signified_for_html(&db, 3).unwrap();
    assert!(signs.is_empty());
    assert_eq!(
        pages.get_signs_by_signifier_for_html(&db, 9),
        Err(ServiceError::SignifierNotFound { id: 9 })
    );
    assert_eq!(
        pages.get_signs_by_signified_for_html(&db, 9),
        Err(ServiceError::SignifiedNotFound { id: 9 })
    );
    assert_eq!(pages.get_sign_detail_for_html(&db, 2).unwrap().signifier_id, 3);
    assert_eq!(
        pages.get_sign_detail_for_html(&db, 9),
        Err(ServiceError::SignNotFound { id: 9 })
    );
}

#[test]
fn page_counts_and_checks() {
    let mut db = small_graph();
    let pages = HtmlService::new();
    assert_eq!(pages.get_onto_stats(&db), 3);
    assert_eq!(pages.get_sign_stats(&db), 2);
    assert_eq!(pages.get_user_stats(&db), 0);
    assert_eq!(pages.get_ontos_for_html(&db).len(), 3);
    assert_eq!(pages.get_signs_for_html(&db).len(), 2);
    assert!(pages.validate_onto_id(&db, 2));
    assert!(!pages.validate_onto_id(&db, 4));
    assert!(pages.validate_sign_id(&db, 1));
    assert!(!pages.validate_sign_id(&db, 3));
    let john = db.users.create("John Doe".to_string()).unwrap();
    assert_eq!(pages.get_user_stats(&db), 1);
    assert_eq!(pages.get_users_for_html(&db), vec![john.clone()]);
    assert_eq!(pages.get_user_detail_for_html(&db, 1), Ok(john));
    assert_eq!(
        pages.get_user_detail_for_html(&db, 2),
        Err(ServiceError::UserNotFound { id: 2 })
    );
}

#[test]
fn user_table_finds_and_deletes() {
    let mut db = Database::new();
    let john = db.users.create("John Doe".to_string()).unwrap();
    let jane = db.users.create("Jane Doe".to_string()).unwrap();
    assert_eq!(db.users.count(), 2);
    assert!(db.users.id_exists(john.id));
    assert_eq!(db.users.find_by_name("Jane Doe"), Some(jane));
    assert_eq!(db.users.find_by_name("Nobody"), None);
    assert_eq!(db.users.delete(john.id).rows_affected, 1);
    assert!(!db.users.id_exists(john.id));
    assert_eq!(db.users.delete(john.id).rows_affected, 0);
    assert_eq!(db.users.count(), 1);
}
