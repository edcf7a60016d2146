use use_sorter::comparator::VersionComparison;
use use_sorter::{Atom, ErrorKind};

fn parts(atom: &Atom) -> (Option<VersionComparison>, &str, &str, &str, &str, &str) {
    (atom.comparator(), atom.category(), atom.name(), atom.version(), atom.slot(), atom.repo())
}

#[test]
pub fn test_atom_try_from() {
    let subject: Atom = Atom::try_from("sys-devel/gcc").expect("");
    assert_eq!(None, subject.comparator());
    assert_eq!("sys-devel", subject.category());
    assert_eq!("gcc", subject.name());
}

#[test]
fn a_bare_atom_has_nothing_else() {
    let subject = Atom::try_from("sys-devel/gcc").expect("");
    assert_eq!(parts(&subject), (None, "sys-devel", "gcc", "", "", ""));
}

#[test]
fn a_name_may_hold_dashes() {
    let subject = Atom::try_from("x11-themes/sound-theme-freedesktop").expect("");
    assert_eq!(parts(&subject), (None, "x11-themes", "sound-theme-freedesktop", "", "", ""));
}

#[test]
fn a_slot_follows_a_colon() {
    let subject = Atom::try_from("dev-lang/python:3.13").expect("");
    assert_eq!(parts(&subject), (None, "dev-lang", "python", "", "3.13", ""));
}

#[test]
fn a_version_follows_the_last_dash() {
    let subject = Atom::try_from("=dev-lang/python-3.13.5:3.13").expect("");
    assert_eq!(
        parts(&subject),
        (Some(VersionComparison::ExactlyEqual), "dev-lang", "python", "3.13.5", "3.13", "")
    );
}

#[test]
fn a_repository_follows_two_colons() {
    let subject = Atom::try_from(">dev-lang/python-3.13.0:3.13::gentoo").expect("");
    assert_eq!(
        parts(&subject),
        (Some(VersionComparison::GreaterThan), "dev-lang", "python", "3.13.0", "3.13", "gentoo")
    );
    let subject = Atom::try_from(">=dev-lang/python-3.12.11:3.12::gentoo").expect("");
    assert_eq!(
        parts(&subject),
        (
            Some(VersionComparison::GreaterThanOrEqual),
            "dev-lang",
            "python",
            "3.12.11",
            "3.12",
            "gentoo"
        )
    );
}

#[test]
fn a_repository_needs_no_slot() {
    let subject = Atom::try_from("sys-devel/gcc::gentoo").expect("");
    assert_eq!(parts(&subject), (None, "sys-devel", "gcc", "", "", "gentoo"));
    let subject = Atom::try_from("sys-devel/gcc-15::gentoo").expect("");
    assert_eq!(parts(&subject), (None, "sys-devel", "gcc", "15", "", "gentoo"));
}

#[test]
fn every_operator_is_taken_off() {
    let cases = [
        ("!!sys-devel/gcc:15", VersionComparison::VeryNot),
        ("!sys-devel/gcc:15", VersionComparison::Not),
        ("<sys-devel/gcc:15", VersionComparison::LessThan),
        ("<=sys-devel/gcc:15", VersionComparison::LessThanOrEqual),
        ("=sys-devel/gcc:15", VersionComparison::ExactlyEqual),
        ("~sys-devel/gcc:15", VersionComparison::Equal),
        (">=sys-devel/gcc:15", VersionComparison::GreaterThanOrEqual),
        (">sys-devel/gcc:15", VersionComparison::GreaterThan),
    ];
    for (text, comparison) in cases {
        let subject = Atom::try_from(text).expect("an atom with an operator");
        assert_eq!(parts(&subject), (Some(comparison), "sys-devel", "gcc", "", "15", ""));
    }
    let subject = Atom::try_from("sys-devel/gcc:15").expect("an atom without operator");
    assert_eq!(parts(&subject), (None, "sys-devel", "gcc", "", "15", ""));
}

#[test]
fn white_space_around_an_atom_does_not_count() {
    let subject = Atom::try_from("  \t>=dev-lang/python-3.12.11:3.12::gentoo\n").expect("");
    assert_eq!(
        parts(&subject),
        (
            Some(VersionComparison::GreaterThanOrEqual),
            "dev-lang",
            "python",
            "3.12.11",
            "3.12",
            "gentoo"
        )
    );
}

#[test]
fn only_digits_and_dots_make_a_version() {
    let subject = Atom::try_from("=media-fonts/font-adobe-100dpi").expect("");
    assert_eq!(subject.name(), "font-adobe-100dpi");
    assert_eq!(subject.version(), "");
    let subject = Atom::try_from("=dev-lang/python-3.12.11-r1").expect("");
    assert_eq!(subject.name(), "python-3.12.11-r1");
    assert_eq!(subject.version(), "");
    let subject = Atom::try_from("=dev-lang/python-.5").expect("");
    assert_eq!(subject.name(), "python-.5");
    assert_eq!(subject.version(), "");
    let subject = Atom::try_from("=dev-lang/python-").expect("");
    assert_eq!(subject.name(), "python-");
    assert_eq!(subject.version(), "");
    let subject = Atom::try_from("=dev-lang/python-3.").expect("");
    assert_eq!(subject.name(), "python");
    assert_eq!(subject.version(), "3.");
    let subject = Atom::try_from("=dev-libs/libfoo-2-9999").expect("");
    assert_eq!(subject.name(), "libfoo-2");
    assert_eq!(subject.version(), "9999");
    let subject = Atom::try_from("dev-libs/libfoo3").expect("");
    assert_eq!(subject.name(), "libfoo3");
    assert_eq!(subject.version(), "");
}

#[test]
fn the_first_colons_decide() {
    let subject = Atom::try_from("a/b:c:d::e::f").expect("");
    assert_eq!(parts(&subject), (None, "a", "b", "", "c:d", "e::f"));
    let subject = Atom::try_from("a/b:::c").expect("");
    assert_eq!(parts(&subject), (None, "a", "b", "", "", ":c"));
    let subject = Atom::try_from("a/b:").expect("");
    assert_eq!(parts(&subject), (None, "a", "b", "", "", ""));
    let subject = Atom::try_from("a/b::").expect("");
    assert_eq!(parts(&subject), (None, "a", "b", "", "", ""));
    let subject = Atom::try_from("a/b-1:2-3").expect("");
    assert_eq!(parts(&subject), (None, "a", "b", "1", "2-3", ""));
}

#[test]
fn text_beyond_ascii_is_cut_by_characters() {
    let subject = Atom::try_from("=\u{e9}t\u{e9}/caf\u{e9}-1.0:\u{4eac}::\u{e9}").expect("");
    assert_eq!(
        parts(&subject),
        (
            Some(VersionComparison::ExactlyEqual),
            "\u{e9}t\u{e9}",
            "caf\u{e9}",
            "1.0",
            "\u{4eac}",
            "\u{e9}"
        )
    );
}

#[test]
fn an_atom_needs_one_slash() {
    assert_eq!(Atom::try_from("sys-develgcc").err(), Some(ErrorKind::MissingCategoryOrName));
    assert_eq!(Atom::try_from("a/b/c").err(), Some(ErrorKind::MissingCategoryOrName));
    assert_eq!(Atom::try_from("a//b").err(), Some(ErrorKind::MissingCategoryOrName));
    assert_eq!(Atom::try_from("dev-libs/icu:0/72").err(), Some(ErrorKind::MissingCategoryOrName));
    assert_eq!(Atom::try_from("=sys-devel").err(), Some(ErrorKind::MissingCategoryOrName));
    assert_eq!(Atom::try_from("<=").err(), Some(ErrorKind::MissingCategoryOrName));
}

#[test]
fn an_atom_needs_a_category() {
    assert_eq!(Atom::try_from("<=/gcc").err(), Some(ErrorKind::EmptyCategory));
    assert_eq!(Atom::try_from(">=/gcc").err(), Some(ErrorKind::EmptyCategory));
    assert_eq!(Atom::try_from("!!/gcc").err(), Some(ErrorKind::EmptyCategory));
    assert_eq!(Atom::try_from("!!/").err(), Some(ErrorKind::EmptyCategory));
}

#[test]
fn an_atom_needs_a_name() {
    assert_eq!(Atom::try_from("sys-devel/").err(), Some(ErrorKind::EmptyName));
    assert_eq!(Atom::try_from("sys-devel/:15").err(), Some(ErrorKind::EmptyName));
    assert_eq!(Atom::try_from("sys-devel/::gentoo").err(), Some(ErrorKind::EmptyName));
    assert_eq!(Atom::try_from("=sys-devel/-1.0").err(), Some(ErrorKind::EmptyName));
}

#[test]
fn an_atom_starts_with_an_operator_or_a_letter() {
    assert_eq!(Atom::try_from("").err(), Some(ErrorKind::InvalidComparator));
    assert_eq!(Atom::try_from("   ").err(), Some(ErrorKind::InvalidComparator));
    assert_eq!(Atom::try_from("a").err(), Some(ErrorKind::InvalidComparator));
    assert_eq!(Atom::try_from("/gcc").err(), Some(ErrorKind::InvalidComparator));
    assert_eq!(Atom::try_from("1a/b").err(), Some(ErrorKind::InvalidComparator));
    assert_eq!(Atom::try_from("=1a/b").err(), Some(ErrorKind::InvalidComparator));
    assert_eq!(Atom::try_from("!-sys-devel/gcc:15").err(), Some(ErrorKind::InvalidComparator));
    assert_eq!(Atom::try_from("<1sys-devel/gcc:15").err(), Some(ErrorKind::InvalidComparator));
    assert_eq!(Atom::try_from("=2sys-devel/gcc:15").err(), Some(ErrorKind::InvalidComparator));
    assert_eq!(Atom::try_from("~3sys-devel/gcc:15").err(), Some(ErrorKind::InvalidComparator));
    assert_eq!(Atom::try_from(">4sys-devel/gcc:15").err(), Some(ErrorKind::InvalidComparator));
}

#[test]
fn split_reads_the_text_as_it_stands() {
    let subject = Atom::split("sys-devel/gcc", Some(VersionComparison::Any)).expect("");
    assert_eq!(parts(&subject), (None, "sys-devel", "gcc", "", "", ""));
    let subject = Atom::split("=sys-devel/gcc-15", Some(VersionComparison::ExactlyEqual)).expect("");
    assert_eq!(
        parts(&subject),
        (Some(VersionComparison::ExactlyEqual), "sys-devel", "gcc", "15", "", "")
    );
    let subject = Atom::split(" a/b ", Some(VersionComparison::Any)).expect("");
    assert_eq!(parts(&subject), (None, " a", "b ", "", "", ""));
    assert_eq!(Atom::split("sys-devel/gcc", None).err(), Some(ErrorKind::InvalidComparator));
    assert_eq!(
        Atom::split("/gcc", Some(VersionComparison::Any)).err(),
        Some(ErrorKind::EmptyCategory)
    );
    assert_eq!(
        Atom::split("", Some(VersionComparison::VeryNot)).err(),
        Some(ErrorKind::MissingCategoryOrName)
    );
    assert_eq!(
        Atom::split("a", Some(VersionComparison::VeryNot)).err(),
        Some(ErrorKind::MissingCategoryOrName)
    );
}
