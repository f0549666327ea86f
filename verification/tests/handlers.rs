use brainbow::clock::Timestamp;
use brainbow::database::Database;
use brainbow::handlers::onto::{OntoResponse, OntosResponse};
use brainbow::handlers::sign::{SignResponse, SignsResponse};
use brainbow::handlers::user::user_name;
use brainbow::services::onto::OntoService;
use brainbow::services::sign::SignService;
use brainbow::weight::Weight;

#[test]
fn onto_response_shows_the_row() {
    let mut db = Database::new();
    let ontos = OntoService::new();
    let tree = ontos.create_onto(&mut db, "Tree".to_string()).unwrap();
    ontos.create_onto(&mut db, "Forest".to_string()).unwrap();
    assert_eq!(OntoResponse::from_model(&tree), OntoResponse { id: 1, name: "Tree".to_string() });
    let all = OntosResponse::from_models(&ontos.get_all_ontos(&db));
    assert_eq!(
        all.ontos,
        vec![
            OntoResponse { id: 1, name: "Tree".to_string() },
            OntoResponse { id: 2, name: "Forest".to_string() },
        ]
    );
}

#[test]
fn sign_response_shows_the_row() {
    let mut db = Database::new();
    let ontos = OntoService::new();
    let signs = SignService::new();
    ontos.create_onto(&mut db, "Tree".to_string()).unwrap();
    ontos.create_onto(&mut db, "Forest".to_string()).unwrap();
    let at = Timestamp::from_unix(1431648000, 250_000_000).unwrap();
    let w = Some(Weight::from_bits(0.8f64.to_bits()));
    let made = signs.create_sign_at(&mut db, 1, 2, w, Some("part-of".to_string()), at).unwrap();
    let shown = SignResponse::from_model(&made);
    assert_eq!(
        shown,
        SignResponse {
            id: 1,
            signifier_id: 1,
            signified_id: 2,
            weight: w,
            relation_type: Some("part-of".to_string()),
            created_at: "2015-05-15 00:00:00.250".to_string(),
        }
    );
    let all = SignsResponse::from_models(&signs.get_all_signs(&db));
    assert_eq!(all.signs, vec![shown]);
}

#[test]
fn user_name_falls_back_to_anonymous() {
    assert_eq!(user_name(Some("John Doe".to_string())), "John Doe");
    assert_eq!(user_name(Some("".to_string())), "");
    assert_eq!(user_name(None), "Anonymous");
}
