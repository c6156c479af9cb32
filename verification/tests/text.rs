use briefing::text::{blank, chars_of, compare, contains, same_text, Position};

fn position_of_std(a: &str, b: &str) -> Position {
    if a < b {
        Position::Before
    } else if a == b {
        Position::Same
    } else {
        Position::After
    }
}

#[test]
fn compare_orders_as_str_does() {
    let words = [
        "", "a", "A", "ab", "abc", "abd", "b", "linux", "linux-lts", "linuy", "vim", "zoom",
        "\u{e9}", "e\u{301}", "\u{10348}", "\u{ffff}", "\u{7f}", "\u{80}", "z\u{e9}", "10", "9",
    ];
    for a in words.iter() {
        for b in words.iter() {
            assert_eq!(compare(a, b), position_of_std(a, b), "{:?} {:?}", a, b);
        }
    }
}

#[test]
fn compare_puts_a_prefix_first() {
    assert_eq!(compare("linux", "linux-lts"), Position::Before);
    assert_eq!(compare("linux-lts", "linux"), Position::After);
    assert_eq!(compare("", "a"), Position::Before);
    assert_eq!(compare("", ""), Position::Same);
}

#[test]
fn same_text_is_exact_and_case_sensitive() {
    assert!(same_text("vim", "vim"));
    assert!(!same_text("vim", "Vim"));
    assert!(!same_text("vim", "vi"));
    assert!(!same_text("vim", "vim "));
    assert!(same_text("", ""));
    assert!(!same_text("\u{e9}", "e\u{301}"));
}

#[test]
fn contains_finds_a_run_of_characters() {
    assert!(contains("linux host 5.2.9-arch1-1-arch", "arch"));
    assert!(contains("arch", "arch"));
    assert!(contains("xarch", "arch"));
    assert!(contains("archx", "arch"));
    assert!(contains("anything", ""));
    assert!(contains("", ""));
    assert!(!contains("", "arch"));
    assert!(!contains("arc", "arch"));
    assert!(!contains("a r c h", "arch"));
    assert!(!contains("linux host 5.2.9 debian", "arch"));
    assert!(contains("\u{e9}t\u{e9} arch", "arch"));
    assert!(contains("aarch64", "arch"));
    assert!(!contains("Arch", "arch"));
}

#[test]
fn contains_agrees_with_str_contains() {
    let texts = ["", "a", "ab", "aab", "abab", "ababc", "\u{e9}ab", "aaa", "baa"];
    for text in texts.iter() {
        for needle in texts.iter() {
            assert_eq!(contains(text, needle), text.contains(needle), "{:?} {:?}", text, needle);
        }
    }
}

#[test]
fn chars_of_lists_the_characters() {
    assert_eq!(chars_of("a\u{e9}\u{10348}"), vec!['a', '\u{e9}', '\u{10348}']);
    assert_eq!(chars_of(""), Vec::<char>::new());
}

#[test]
fn blank_is_that_many_spaces() {
    assert_eq!(blank(0), "");
    assert_eq!(blank(1), " ");
    assert_eq!(blank(5), "     ");
}
