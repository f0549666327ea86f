use brainbow::services::onto::clean_name;
use brainbow::error::ServiceError;
use brainbow::text::trim;

#[test]
fn trim_removes_surrounding_whitespace() {
    assert_eq!(trim("  Tree \n"), "Tree");
    assert_eq!(trim("\tForest"), "Forest");
    assert_eq!(trim("Grove  "), "Grove");
}

#[test]
fn trim_keeps_inner_whitespace() {
    assert_eq!(trim(" old  oak "), "old  oak");
}

#[test]
fn trim_of_blank_is_empty() {
    assert_eq!(trim(""), "");
    assert_eq!(trim("   "), "");
    assert_eq!(trim(" \t\r\n"), "");
}

#[test]
fn trim_knows_unicode_whitespace() {
    assert_eq!(trim("\u{3000}\u{6a39}\u{a0}"), "\u{6a39}");
    assert_eq!(trim("\u{2003}x\u{2028}"), "x");
}

#[test]
fn trim_agrees_with_std() {
    for s in ["", " ", "a", " a", "a ", " a b ", "\u{85}z\u{1680}", "\u{200b}y "] {
        assert_eq!(trim(s), s.trim());
    }
}

#[test]
fn clean_name_refuses_blank() {
    assert_eq!(clean_name(""), Err(ServiceError::EmptyName));
    assert_eq!(clean_name("   "), Err(ServiceError::EmptyName));
    assert_eq!(clean_name(" Tree "), Ok("Tree".to_string()));
}
