use nucleo_picker::component::editable::{normalize_query_string, Edit, EditableString};
use nucleo_picker::editable::{EditableString as SimpleEditable, MovementType};
use nucleo_picker::term::editable::normalize_query_string as normalize_term_query;

#[test]
fn editable_test_normalize_query() {
    let mut s = "a\nb".to_owned();
    normalize_query_string(&mut s);
    assert_eq!(s, "a b");

    let mut s = "ｏ\nｏ".to_owned();
    normalize_query_string(&mut s);
    assert_eq!(s, "ｏ ｏ");

    let mut s = "a\n\u{07}ｏ".to_owned();
    normalize_query_string(&mut s);
    assert_eq!(s, "a ｏ");

    let mut s = "a\nb".to_owned();
    normalize_term_query(&mut s);
    assert_eq!(s, "a b");

    let mut s = "ｏ\nｏ".to_owned();
    normalize_term_query(&mut s);
    assert_eq!(s, "ｏ ｏ");

    let mut s = "a\n\u{07}ｏ".to_owned();
    normalize_term_query(&mut s);
    assert_eq!(s, "a ｏ");
}

#[test]
fn edit() {
    let mut editable = EditableString::new(usize::MAX);
    for e in [
        Edit::Insert('a'),
        Edit::Insert('b'),
        Edit::Insert('c'),
        Edit::Insert('d'),
        Edit::Left,
        Edit::Insert('1'),
        Edit::Insert('2'),
        Edit::Insert('3'),
        Edit::ToStart,
        Edit::Delete,
        Edit::Insert('4'),
        Edit::ToEnd,
        Edit::Delete,
    ] {
        editable.edit(e);
    }

    assert_eq!(&editable.view().to_string(), "4abc123");
}

#[test]
fn window() {
    let mut editable = EditableString::new(2);

    for e in [
        Edit::Insert('1'),
        Edit::Insert('2'),
        Edit::Insert('3'),
        Edit::Insert('4'),
        Edit::Left,
    ] {
        editable.edit(e);
    }
    assert_eq!(editable.view().index(), 1);

    editable.edit(Edit::Left);
    editable.edit(Edit::Left);
    assert_eq!(editable.view().index(), 0);

    editable.edit(Edit::Insert('a'));
    editable.edit(Edit::ToEnd);
    assert_eq!(editable.view().index(), 2);
}

#[test]
fn test_edit() {
    let mut editable = SimpleEditable::default();
    editable.insert('a');
    editable.insert('b');
    editable.insert('c');
    editable.insert('d');
    editable.shift(MovementType::Left);
    editable.insert('1');
    editable.insert('2');
    editable.insert('3');
    editable.shift(MovementType::Start);
    editable.delete();
    editable.insert('4');
    editable.shift(MovementType::End);
    editable.delete();

    assert_eq!(&editable.to_string(), "4abc123");
}

#[test]
fn carriage_returns_become_spaces() {
    let mut s = String::from("a\r\nb\u{7}");
    normalize_query_string(&mut s);
    assert_eq!(s, "a  b");
    let mut s = String::from("a\r\nb\u{7}");
    normalize_term_query(&mut s);
    assert_eq!(s, "a  b");
}

#[test]
fn paste_in_the_middle_moves_the_cursor_by_characters() {
    let mut e = EditableString::new(usize::MAX);
    e.edit(Edit::Insert('a'));
    e.edit(Edit::Left);
    assert!(e.edit(Edit::Paste("éé".to_owned())));
    assert_eq!(e.full_contents(), "ééa");
    assert_eq!(e.view().index(), 2);
}
