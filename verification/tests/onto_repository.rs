use brainbow::error::StoreError;
use brainbow::repositories::onto::OntoRepository;

#[test]
fn onto_table_assigns_rising_ids() {
    let mut table = OntoRepository::new();
    let tree = table.create("Tree".to_string()).unwrap();
    let forest = table.create("Forest".to_string()).unwrap();
    assert_eq!(tree.id, 1);
    assert_eq!(forest.id, 2);
    assert_eq!(tree.name, "Tree");
    let all = table.find_all();
    assert_eq!(all.len(), 2);
    assert_eq!(all[0], tree);
    assert_eq!(all[1], forest);
}

#[test]
fn onto_table_delete_reports_rows() {
    let mut table = OntoRepository::new();
    let tree = table.create("Tree".to_string()).unwrap();
    assert_eq!(table.delete(tree.id).rows_affected, 1);
    assert_eq!(table.delete(tree.id).rows_affected, 0);
    assert_eq!(table.find_by_id(tree.id), None);
    let again = table.create("Tree".to_string()).unwrap();
    assert_eq!(again.id, 2);
}

#[test]
fn onto_table_update_of_a_missing_row_is_not_found() {
    let mut table = OntoRepository::new();
    let tree = table.create("Tree".to_string()).unwrap();
    assert_eq!(
        table.update(9, Some("Oak".to_string())),
        Err(StoreError::RecordNotFound { id: 9 })
    );
    assert_eq!(table.update(tree.id, None), Ok(tree));
    let oak = table.update(1, Some("Oak".to_string())).unwrap();
    assert_eq!(oak.name, "Oak");
    assert_eq!(table.find_all(), vec![oak]);
}

#[test]
fn onto_table_checks_nothing() {
    let mut table = OntoRepository::new();
    let first = table.create("".to_string()).unwrap();
    let second = table.create("".to_string()).unwrap();
    assert_eq!(first.id, 1);
    assert_eq!(second.id, 2);
    assert_eq!(table.find_by_name(""), Some(first));
}
