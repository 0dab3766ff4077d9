use twitchchat::text::{chars_of, find_in, is_space_char, slice_string, split_ranges, trim_range};

fn pieces(text: &str, sep: char) -> Vec<String> {
    let chars = chars_of(text);
    split_ranges(&chars, 0, chars.len(), sep)
        .iter()
        .map(|r| chars[r.0..r.1].iter().collect::<String>())
        .collect()
}

fn trimmed(text: &str) -> String {
    let chars = chars_of(text);
    let (lo, hi) = trim_range(&chars, 0, chars.len());
    chars[lo..hi].iter().collect()
}

#[test]
fn characters_of_a_string() {
    assert_eq!(chars_of(""), Vec::<char>::new());
    assert_eq!(chars_of("a\u{e9}\u{1f600}b"), vec!['a', '\u{e9}', '\u{1f600}', 'b']);
}

#[test]
fn slices_count_characters_not_bytes() {
    assert_eq!(slice_string("a\u{e9}\u{1f600}b", 1, 3), "\u{e9}\u{1f600}");
    assert_eq!(slice_string("abc", 0, 3), "abc");
    assert_eq!(slice_string("abc", 2, 2), "");
    assert_eq!(slice_string("", 0, 0), "");
}

#[test]
fn find_gives_the_first_position_or_the_end() {
    let chars = chars_of("a:b:c");
    assert_eq!(find_in(&chars, 0, 5, ':'), 1);
    assert_eq!(find_in(&chars, 2, 5, ':'), 3);
    assert_eq!(find_in(&chars, 4, 5, ':'), 5);
    assert_eq!(find_in(&chars, 0, 1, ':'), 1);
    assert_eq!(find_in(&chars, 3, 3, ':'), 3);
    assert_eq!(find_in(&chars, 0, 5, 'x'), 5);
}

#[test]
fn split_ranges_are_positions_in_the_whole() {
    let chars = chars_of("ab;c;;d");
    assert_eq!(split_ranges(&chars, 0, 7, ';'), vec![(0, 2), (3, 4), (5, 5), (6, 7)]);
    assert_eq!(split_ranges(&chars, 3, 6, ';'), vec![(3, 4), (5, 5), (6, 6)]);
    assert_eq!(split_ranges(&chars, 2, 2, ';'), vec![(2, 2)]);
}

#[test]
fn split_agrees_with_the_standard_library() {
    let samples = ["", ";", "a", "a;b", ";a;", "a;;b", ";;", "k=v;flag;x=y;", "\u{e9};\u{1f600}"];
    for text in samples {
        let expected: Vec<String> = text.split(';').map(|p| p.to_string()).collect();
        assert_eq!(pieces(text, ';'), expected);
    }
}

#[test]
fn white_space_is_what_the_standard_library_calls_so() {
    let mut code: u32 = 0;
    let mut count: u32 = 0;
    while code <= 0x10ffff {
        if let Some(c) = char::from_u32(code) {
            assert_eq!(is_space_char(c), c.is_whitespace());
            if is_space_char(c) {
                count += 1;
            }
        }
        code += 1;
    }
    assert_eq!(count, 25);
}

#[test]
fn trim_agrees_with_the_standard_library() {
    let samples = [
        "",
        " ",
        "a",
        "  a  ",
        "\t a b \r\n",
        "\u{a0}x\u{3000}",
        " \u{2003} ",
        "a \u{85}",
        "\u{200b}a\u{200b}",
        " PRIVMSG #room ",
    ];
    for text in samples {
        assert_eq!(trimmed(text), text.trim());
    }
}

#[test]
fn trim_range_is_a_position_in_the_whole() {
    let chars = chars_of("x  ab  y");
    assert_eq!(trim_range(&chars, 1, 7), (3, 5));
    assert_eq!(trim_range(&chars, 1, 3), (3, 3));
    assert_eq!(trim_range(&chars, 0, 8), (0, 8));
}
