use clockify::tui::input::Input;

#[test]
fn editing_works() {
    let mut i = Input::new("ab");
    i.insert('c'); // abc
    assert_eq!(i.value(), "abc");
    i.left();
    i.left();
    i.insert('x'); // axbc
    assert_eq!(i.value(), "axbc");
    i.backspace(); // abc
    assert_eq!(i.value(), "abc");
    i.end();
    i.backspace();
    assert_eq!(i.value(), "ab");
    i.home();
    i.delete();
    assert_eq!(i.value(), "b");
}

#[test]
fn unicode_safe() {
    let mut i = Input::new("héllo");
    i.end();
    i.backspace();
    assert_eq!(i.value(), "héll");
    i.home();
    i.right();
    i.delete();
    assert_eq!(i.value(), "hll");
}

#[test]
fn typing_then_backspace_restores_the_text() {
    let mut i = Input::new("héllo");
    i.home();
    i.right();
    i.right();
    i.insert('ß');
    assert_eq!(i.value(), "héßllo");
    i.backspace();
    assert_eq!(i.value(), "héllo");
    assert_eq!(
        i.split_at_cursor(),
        ("hé".to_string(), "l".to_string(), "lo".to_string())
    );
}

#[test]
fn split_at_end_shows_a_space_under_the_cursor() {
    let i = Input::new("ab");
    assert_eq!(
        i.split_at_cursor(),
        ("ab".to_string(), " ".to_string(), String::new())
    );
}

#[test]
fn cursor_stops_at_both_ends() {
    let mut i = Input::new("");
    i.left();
    i.backspace();
    i.delete();
    i.right();
    assert_eq!(i.value(), "");
    i.insert('a');
    i.right();
    i.right();
    i.insert('b');
    assert_eq!(i.value(), "ab");
}
