use compiler_front::text::{chars_of, string_of};

#[test]
fn chars_of_gives_the_characters_in_order() {
    assert_eq!(chars_of(""), Vec::<char>::new());
    assert_eq!(chars_of("a\u{e9}\n\u{1F600}"), vec!['a', '\u{e9}', '\n', '\u{1F600}']);
}

#[test]
fn string_of_gives_the_stretch_between_two_offsets() {
    let chars = vec!['a', '\u{e9}', 'c', 'd'];
    assert_eq!(string_of(&chars, 0, 4), "a\u{e9}cd");
    assert_eq!(string_of(&chars, 1, 3), "\u{e9}c");
    assert_eq!(string_of(&chars, 2, 2), "");
    assert_eq!(string_of(&chars, 4, 4), "");
}
