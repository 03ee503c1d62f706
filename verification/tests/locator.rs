use tabled::settings::location::{ByColumnName, ByContent, Locator};

#[test]
fn content_names_cells_by_their_text() {
    let location = Locator::content("needle");

    assert_eq!(*location.text(), "needle");
    assert_eq!(location, ByContent::new("needle"));
}

#[test]
fn content_keeps_an_owned_text() {
    let location = Locator::content(String::from("needle"));

    assert_eq!(location.text().as_str(), "needle");
    assert_ne!(location, ByContent::new(String::from("hay")));
}

#[test]
fn column_names_a_column_by_its_header() {
    let location = Locator::column("name");

    assert_eq!(*location.text(), "name");
    assert_eq!(location, ByColumnName::new("name"));
}

#[test]
fn column_keeps_an_owned_text() {
    let location = Locator::column(String::from("name"));

    assert_eq!(location.text().as_str(), "name");
    assert_ne!(location, ByColumnName::new(String::from("age")));
}

#[test]
fn empty_text_is_a_text_like_any_other() {
    assert_eq!(*Locator::content("").text(), "");
    assert_eq!(*Locator::column("").text(), "");
}
