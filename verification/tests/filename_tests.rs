use bingo_simulator::filename::{plain, sanitize};

#[test]
fn plain_names_stay() {
    assert_eq!(sanitize("Sheet1"), "Sheet1");
    assert_eq!(sanitize("weekly-scores_2024"), "weekly-scores_2024");
    assert_eq!(sanitize(""), "");
}

#[test]
fn other_characters_become_underscores() {
    assert_eq!(sanitize("Q1 / Q2: totals"), "Q1___Q2__totals");
    assert_eq!(sanitize("a.b"), "a_b");
    assert_eq!(sanitize("../etc"), "___etc");
}

#[test]
fn letters_outside_ascii_become_underscores() {
    assert_eq!(sanitize("caf\u{e9}"), "caf_");
    assert_eq!(sanitize("\u{65e5}\u{672c}"), "__");
}

#[test]
fn length_in_characters_stays() {
    let name = "r\u{e9}sum\u{e9} (final).csv";
    assert_eq!(sanitize(name).chars().count(), name.chars().count());
}

#[test]
fn sanitizing_twice_changes_nothing_more() {
    let once = sanitize("a b/c\u{e9}");
    assert_eq!(sanitize(&once), once);
}

#[test]
fn plain_agrees_with_ascii_alphanumeric() {
    for code in 0u32..0x3000 {
        if let Some(c) = char::from_u32(code) {
            assert_eq!(plain(c), c.is_ascii_alphanumeric() || c == '-' || c == '_', "{:?}", c);
        }
    }
}
