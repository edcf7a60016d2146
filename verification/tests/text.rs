use use_sorter::lexical::{common_prefix_len, compare_bytes};
use use_sorter::text::{
    chars_of, digit, find, find_double, find_last, skip_back_whitespace, skip_leading,
    skip_whitespace, skip_word, split_words, trim, whitespace,
};
use std::cmp::Ordering;

#[test]
fn whitespace_is_what_unicode_calls_white_space() {
    for code in 0..=0x10ffff_u32 {
        if let Some(c) = char::from_u32(code) {
            assert_eq!(whitespace(c), c.is_whitespace());
        }
    }
}

#[test]
fn digit_is_zero_to_nine() {
    for code in 0..=0x10ffff_u32 {
        if let Some(c) = char::from_u32(code) {
            assert_eq!(digit(c), c.is_ascii_digit());
        }
    }
}

#[test]
fn trim_does_what_std_does() {
    let texts = [
        "",
        " ",
        "a",
        " a",
        "a ",
        "  a b  ",
        "\t\n x \r\n",
        "\u{a0}\u{3000}caf\u{e9}\u{2003}",
        "\u{85}\u{1680}\u{2028}\u{2029}\u{202f}\u{205f}",
        "-\u{200b}-",
    ];
    for text in texts {
        assert_eq!(trim(text), text.trim());
    }
}

#[test]
fn chars_of_lists_the_characters() {
    assert_eq!(chars_of(""), Vec::<char>::new());
    assert_eq!(chars_of("a\u{e9}\u{4eac}"), vec!['a', '\u{e9}', '\u{4eac}']);
}

#[test]
fn split_words_does_what_std_does() {
    let texts = [
        "",
        "   ",
        "a",
        "sys-devel/gcc X11 -gtk",
        "  a  b\tc\n",
        "\u{a0}caf\u{e9}\u{3000}\u{4eac} x",
    ];
    for text in texts {
        let want: Vec<String> = text.split_whitespace().map(|w| w.to_string()).collect();
        assert_eq!(split_words(text), want);
    }
}

#[test]
fn scans_stay_inside_their_window() {
    let v = chars_of("  a/b::c:d-e  ");
    assert_eq!(skip_whitespace(&v, 0, v.len()), 2);
    assert_eq!(skip_whitespace(&v, 2, v.len()), 2);
    assert_eq!(skip_whitespace(&v, 12, v.len()), 14);
    assert_eq!(skip_back_whitespace(&v, 0, v.len()), 12);
    assert_eq!(skip_back_whitespace(&v, 0, 2), 0);
    assert_eq!(skip_word(&v, 2, v.len()), 12);
    assert_eq!(skip_word(&v, 0, v.len()), 0);
    assert_eq!(find(&v, 0, v.len(), '/'), 3);
    assert_eq!(find(&v, 4, v.len(), '/'), 14);
    assert_eq!(find(&v, 0, 3, '/'), 3);
    assert_eq!(find(&v, 0, v.len(), ':'), 5);
    assert_eq!(find_double(&v, 0, v.len(), ':'), 5);
    assert_eq!(find_double(&v, 6, v.len(), ':'), 14);
    assert_eq!(find_double(&v, 0, 6, ':'), 6);
    assert_eq!(find_last(&v, 0, v.len(), ':'), Some(8));
    assert_eq!(find_last(&v, 0, 5, ':'), None);
    assert_eq!(find_last(&v, 0, v.len(), '-'), Some(10));
    let dashes = chars_of("--a-");
    assert_eq!(skip_leading(&dashes, 0, 4, '-'), 2);
    assert_eq!(skip_leading(&dashes, 2, 4, '-'), 2);
    assert_eq!(skip_leading(&dashes, 3, 4, '-'), 4);
}

#[test]
fn bytes_order_as_in_a_dictionary() {
    assert_eq!(compare_bytes(b"", b""), Ordering::Equal);
    assert_eq!(compare_bytes(b"", b"a"), Ordering::Less);
    assert_eq!(compare_bytes(b"a", b""), Ordering::Greater);
    assert_eq!(compare_bytes(b"abc", b"abc"), Ordering::Equal);
    assert_eq!(compare_bytes(b"ab", b"abc"), Ordering::Less);
    assert_eq!(compare_bytes(b"abd", b"abc"), Ordering::Greater);
    assert_eq!(compare_bytes(b"A", b"b"), Ordering::Less);
    assert_eq!(compare_bytes(&[0x7f], &[0x80]), Ordering::Less);
    assert_eq!(common_prefix_len(b"abc", b"abd"), 2);
    assert_eq!(common_prefix_len(b"abc", b"abc"), 3);
    assert_eq!(common_prefix_len(b"", b"abc"), 0);
    let words = ["", "a", "a11", "ab", "abc", "ad", "A", "b", "\u{e9}", "z"];
    for x in words {
        for y in words {
            assert_eq!(compare_bytes(x.as_bytes(), y.as_bytes()), x.cmp(y));
        }
    }
}
