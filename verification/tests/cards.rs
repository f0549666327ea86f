use brainbow::clock::Timestamp;
use brainbow::database::Database;
use brainbow::error::{ErrorKind, ServiceError, StoreError};
use brainbow::handlers::card::CardResponse;
use brainbow::repositories::card::CardRepository;
use brainbow::repositories::user::UserRepository;
use brainbow::services::card::{check_card, check_new_card, CardService};

#[test]
fn card_is_created_as_given() {
    let mut db = Database::new();
    let cards = CardService::new();
    let at = Timestamp::from_unix(1431648000, 0).unwrap();
    let made = cards
        .create_card_at(&mut db, " Title ".to_string(), "Body".to_string(), at)
        .unwrap();
    assert_eq!(made.id, 1);
    assert_eq!(made.title, " Title ");
    assert_eq!(made.content, "Body");
    assert_eq!(made.created_at, at);
    assert_eq!(made.updated_at, at);
    assert_eq!(cards.get_card_by_id(&db, 1), Some(made));
    assert_eq!(cards.get_all_cards(&db).len(), 1);
}

#[test]
fn card_texts_must_not_be_blank() {
    let mut db = Database::new();
    let cards = CardService::new();
    let no_title = cards.create_card(&mut db, "  ".to_string(), "Body".to_string()).unwrap_err();
    assert_eq!(no_title, ServiceError::EmptyTitle);
    assert_eq!(no_title.kind(), ErrorKind::InvalidArgument);
    let no_content = cards.create_card(&mut db, "Title".to_string(), "\n".to_string()).unwrap_err();
    assert_eq!(no_content, ServiceError::EmptyContent);
    let both = cards.create_card(&mut db, "".to_string(), "".to_string()).unwrap_err();
    assert_eq!(both, ServiceError::EmptyTitle);
    assert!(cards.get_all_cards(&db).is_empty());
}

#[test]
fn check_card_judges_what_is_given() {
    assert_eq!(check_card(&None, &None), Ok(()));
    assert_eq!(check_card(&Some(" ".to_string()), &None), Err(ServiceError::EmptyTitle));
    assert_eq!(check_card(&None, &Some(" ".to_string())), Err(ServiceError::EmptyContent));
    assert_eq!(check_card(&Some("a".to_string()), &Some("b".to_string())), Ok(()));
}

#[test]
fn card_update_replaces_what_is_given() {
    let mut db = Database::new();
    let cards = CardService::new();
    let made = cards.create_card(&mut db, "Title".to_string(), "Body".to_string()).unwrap();
    let updated = cards
        .update_card(&mut db, made.id, None, Some("New body".to_string()))
        .unwrap()
        .unwrap();
    assert_eq!(updated.title, "Title");
    assert_eq!(updated.content, "New body");
    assert_eq!(updated.created_at, made.created_at);
    let updated = cards
        .update_card(&mut db, made.id, Some("New title".to_string()), None)
        .unwrap()
        .unwrap();
    assert_eq!(updated.title, "New title");
    assert_eq!(updated.content, "New body");
    assert_eq!(cards.get_card_by_id(&db, made.id), Some(updated));
}

#[test]
fn card_update_of_a_missing_card_is_nothing() {
    let mut db = Database::new();
    let cards = CardService::new();
    assert_eq!(cards.update_card(&mut db, 3, Some("x".to_string()), None), Ok(None));
    assert_eq!(
        cards.update_card(&mut db, 3, Some("".to_string()), None),
        Err(ServiceError::EmptyTitle)
    );
    assert_eq!(
        db.cards.update(3, None, None),
        Err(StoreError::RecordNotFound { id: 3 })
    );
}

#[test]
fn card_delete_says_whether_there_was_one() {
    let mut db = Database::new();
    let cards = CardService::new();
    let made = cards.create_card(&mut db, "Title".to_string(), "Body".to_string()).unwrap();
    assert!(cards.delete_card(&mut db, made.id));
    assert!(!cards.delete_card(&mut db, made.id));
    assert_eq!(cards.get_card_by_id(&db, made.id), None);
}

#[test]
fn card_response_shows_the_row() {
    let mut db = Database::new();
    let cards = CardService::new();
    let at = Timestamp::from_unix(1431648000, 0).unwrap();
    let made = cards.create_card_at(&mut db, "Title".to_string(), "Body".to_string(), at).unwrap();
    let shown = CardResponse::from_model(&made);
    assert_eq!(
        shown,
        CardResponse {
            id: 1,
            title: "Title".to_string(),
            content: "Body".to_string(),
            created_at: "2015-05-15 00:00:00 UTC".to_string(),
            updated_at: "2015-05-15 00:00:00 UTC".to_string(),
        }
    );
    assert_eq!(CardResponse::from_models(&cards.get_all_cards(&db)), vec![shown]);
}

#[test]
fn exhausted_card_table_refuses_new_cards() {
    let mut db = Database::new();
    let cards = CardService::new();
    db.cards = CardRepository::starting_after(i32::MAX).unwrap();
    let full = cards.create_card(&mut db, "Title".to_string(), "Body".to_string()).unwrap_err();
    assert_eq!(full, ServiceError::Storage(StoreError::OutOfIds));
    let blank = cards.create_card(&mut db, "".to_string(), "Body".to_string()).unwrap_err();
    assert_eq!(blank, ServiceError::EmptyTitle);
    db.users = UserRepository::starting_after(i32::MAX).unwrap();
    assert_eq!(db.users.create("John Doe".to_string()), Err(StoreError::OutOfIds));
    assert!(CardRepository::starting_after(i32::MIN).is_none());
}

#[test]
fn check_new_card_judges_title_first() {
    assert_eq!(check_new_card("Title", "Body"), Ok(()));
    assert_eq!(check_new_card(" ", ""), Err(ServiceError::EmptyTitle));
    assert_eq!(check_new_card("Title", "\t"), Err(ServiceError::EmptyContent));
}
