use use_sorter::comparator::VersionComparison;

#[test]
fn test_parse_comparator() {
    let test_data: [(&str, Option<VersionComparison>); 16] = [
        ("", None),
        ("1", None),
        ("!-sys-devel/gcc:15", None),
        ("!sys-devel/gcc:15", Some(VersionComparison::Not)),
        ("!!sys-devel/gcc:15", Some(VersionComparison::VeryNot)),
        ("<1sys-devel/gcc:15", None),
        ("<sys-devel/gcc:15", Some(VersionComparison::LessThan)),
        ("<=sys-devel/gcc:15", Some(VersionComparison::LessThanOrEqual)),
        ("=2sys-devel/gcc:15", None),
        ("=sys-devel/gcc:15", Some(VersionComparison::ExactlyEqual)),
        ("~3sys-devel/gcc:15", None),
        ("~sys-devel/gcc:15", Some(VersionComparison::Equal)),
        (">4sys-devel/gcc:15", None),
        (">sys-devel/gcc:15", Some(VersionComparison::GreaterThan)),
        (">=sys-devel/gcc:15", Some(VersionComparison::GreaterThanOrEqual)),
        ("sys-devel/gcc:15", Some(VersionComparison::Any)),
    ];
    for (q, r) in test_data {
        assert_eq!(VersionComparison::parse_comparator(q), r);
    }
}

#[test]
fn short_text_asks_for_nothing() {
    assert_eq!(VersionComparison::parse_comparator(""), None);
    assert_eq!(VersionComparison::parse_comparator("a"), None);
    assert_eq!(VersionComparison::parse_comparator("!"), None);
    assert_eq!(VersionComparison::parse_comparator("="), None);
    // One character of two bytes is still one character.
    assert_eq!(VersionComparison::parse_comparator("\u{e9}"), None);
}

#[test]
fn two_characters_are_enough() {
    assert_eq!(VersionComparison::parse_comparator("ab"), Some(VersionComparison::Any));
    assert_eq!(VersionComparison::parse_comparator("a1"), Some(VersionComparison::Any));
    assert_eq!(VersionComparison::parse_comparator("!!"), Some(VersionComparison::VeryNot));
    assert_eq!(
        VersionComparison::parse_comparator("<="),
        Some(VersionComparison::LessThanOrEqual)
    );
    assert_eq!(
        VersionComparison::parse_comparator(">="),
        Some(VersionComparison::GreaterThanOrEqual)
    );
    assert_eq!(VersionComparison::parse_comparator("=a"), Some(VersionComparison::ExactlyEqual));
}

#[test]
fn an_operator_wants_a_letter_behind_it() {
    assert_eq!(VersionComparison::parse_comparator("!="), None);
    assert_eq!(VersionComparison::parse_comparator("=="), None);
    assert_eq!(VersionComparison::parse_comparator("=!"), None);
    assert_eq!(VersionComparison::parse_comparator("~="), None);
    assert_eq!(VersionComparison::parse_comparator("~~"), None);
    assert_eq!(VersionComparison::parse_comparator("<<"), None);
    assert_eq!(VersionComparison::parse_comparator(">>"), None);
    assert_eq!(VersionComparison::parse_comparator("< a"), None);
    assert_eq!(VersionComparison::parse_comparator("=/"), None);
}

#[test]
fn text_without_operator_wants_a_letter_first() {
    assert_eq!(VersionComparison::parse_comparator("1a"), None);
    assert_eq!(VersionComparison::parse_comparator("/gcc"), None);
    assert_eq!(VersionComparison::parse_comparator("-gcc"), None);
    assert_eq!(VersionComparison::parse_comparator(" gcc"), None);
    assert_eq!(VersionComparison::parse_comparator("_a"), None);
}

#[test]
fn letters_beyond_ascii_count() {
    assert_eq!(
        VersionComparison::parse_comparator("\u{e9}t\u{e9}/gcc"),
        Some(VersionComparison::Any)
    );
    assert_eq!(VersionComparison::parse_comparator("!\u{4eac}"), Some(VersionComparison::Not));
    assert_eq!(VersionComparison::parse_comparator("=\u{1f49d}"), None);
    assert_eq!(VersionComparison::parse_comparator("\u{1f49d}a"), None);
}

#[test]
fn select_follows_the_table() {
    let any = Some(VersionComparison::Any);
    assert_eq!(VersionComparison::select('!', '!', false, false), Some(VersionComparison::VeryNot));
    assert_eq!(VersionComparison::select('!', 's', false, true), Some(VersionComparison::Not));
    assert_eq!(VersionComparison::select('!', '-', false, false), None);
    assert_eq!(
        VersionComparison::select('<', '=', false, false),
        Some(VersionComparison::LessThanOrEqual)
    );
    assert_eq!(VersionComparison::select('<', 's', false, true), Some(VersionComparison::LessThan));
    assert_eq!(VersionComparison::select('<', '1', false, false), None);
    assert_eq!(
        VersionComparison::select('=', 's', false, true),
        Some(VersionComparison::ExactlyEqual)
    );
    assert_eq!(VersionComparison::select('=', '2', false, false), None);
    assert_eq!(VersionComparison::select('=', '=', false, false), None);
    assert_eq!(VersionComparison::select('~', 's', false, true), Some(VersionComparison::Equal));
    assert_eq!(VersionComparison::select('~', '3', false, false), None);
    assert_eq!(
        VersionComparison::select('>', '=', false, false),
        Some(VersionComparison::GreaterThanOrEqual)
    );
    assert_eq!(
        VersionComparison::select('>', 's', false, true),
        Some(VersionComparison::GreaterThan)
    );
    assert_eq!(VersionComparison::select('>', '4', false, false), None);
    assert_eq!(VersionComparison::select('s', 'y', true, true), any);
    assert_eq!(VersionComparison::select('s', '1', true, false), any);
    assert_eq!(VersionComparison::select('1', 's', false, true), None);
    // Whether the first character is a letter does not count behind an operator.
    assert_eq!(VersionComparison::select('=', 's', true, true), Some(VersionComparison::ExactlyEqual));
    assert_eq!(VersionComparison::select('=', '1', true, false), None);
}

#[test]
fn prefix_len_counts_the_operator() {
    assert_eq!(VersionComparison::VeryNot.prefix_len(), 2);
    assert_eq!(VersionComparison::Not.prefix_len(), 1);
    assert_eq!(VersionComparison::LessThan.prefix_len(), 1);
    assert_eq!(VersionComparison::LessThanOrEqual.prefix_len(), 2);
    assert_eq!(VersionComparison::ExactlyEqual.prefix_len(), 1);
    assert_eq!(VersionComparison::Equal.prefix_len(), 1);
    assert_eq!(VersionComparison::GreaterThanOrEqual.prefix_len(), 2);
    assert_eq!(VersionComparison::GreaterThan.prefix_len(), 1);
    assert_eq!(VersionComparison::Any.prefix_len(), 0);
}
