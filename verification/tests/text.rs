use umeboshi::text::{before, chars_of, separator, spells, split, text_of, trimmed, whitespace};

#[test]
fn whitespace_is_the_unicode_property() {
    let mut code: u32 = 0;
    while code <= 0x10ffff {
        if let Some(c) = char::from_u32(code) {
            assert_eq!(whitespace(c), c.is_whitespace(), "U+{:04X}", code);
        }
        code += 1;
    }
}

#[test]
fn separators_are_whitespace_and_parentheses() {
    assert!(separator(' '));
    assert!(separator('\t'));
    assert!(separator('\n'));
    assert!(separator('('));
    assert!(separator(')'));
    assert!(separator('\u{3000}'));
    assert!(!separator('['));
    assert!(!separator('a'));
    assert!(!separator('$'));
    assert!(!separator(';'));
}

#[test]
fn split_gives_the_lexemes_in_order() {
    assert_eq!(split("(+ 1 2)"), vec!["+", "1", "2"]);
    assert_eq!(
        split("(/ (+ 45 (- 7 2)) (* 2 5))"),
        vec!["/", "+", "45", "-", "7", "2", "*", "2", "5"]
    );
    assert_eq!(split("  a\t(b)\r\n"), vec!["a", "b"]);
    assert_eq!(split("a(b)c"), vec!["a", "b", "c"]);
    assert_eq!(split("x\u{3000}y\u{a0}z"), vec!["x", "y", "z"]);
    assert_eq!(split("lone"), vec!["lone"]);
}

#[test]
fn split_of_nothing_is_nothing() {
    assert!(split("").is_empty());
    assert!(split("   ").is_empty());
    assert!(split("(()) ( )\n").is_empty());
}

#[test]
fn split_tolerates_unbalanced_parentheses() {
    assert_eq!(split(")))+ 1 2((("), vec!["+", "1", "2"]);
    assert_eq!(split("(+ 1 2"), vec!["+", "1", "2"]);
}

#[test]
fn split_agrees_with_the_standard_split() {
    for line in ["(define x 12)\n", " (if (eq 1 2)  a   b) ", "é (ü) \u{2003} z", "(((", ""] {
        let plain = line.replace('(', " ").replace(')', " ");
        let expected: Vec<&str> = plain.split_whitespace().collect();
        assert_eq!(split(line), expected, "{:?}", line);
    }
}

#[test]
fn trimmed_drops_trailing_whitespace_only() {
    assert_eq!(trimmed("abc  \n"), "abc");
    assert_eq!(trimmed("  a b "), "  a b");
    assert_eq!(trimmed("abc"), "abc");
    assert_eq!(trimmed(" \t\n"), "");
    assert_eq!(trimmed(""), "");
    assert_eq!(trimmed("x\u{a0}\u{3000}"), "x");
    for s in ["5 ", "true ", " [Num(1.0)] ", "a \u{2028}"] {
        assert_eq!(trimmed(s), s.trim_end(), "{:?}", s);
    }
}

#[test]
fn before_is_the_order_of_texts() {
    assert!(before("a", "b"));
    assert!(!before("b", "a"));
    assert!(!before("a", "a"));
    assert!(before("a", "ab"));
    assert!(!before("ab", "a"));
    assert!(before("", "a"));
    assert!(!before("", ""));
    assert!(before("Z", "a"));
    assert!(before("10", "9"));
    let words = ["", "a", "ab", "abc", "b", "z", "é", "zé", "\u{10000}", "\u{ffff}", "A", "10", "9"];
    for x in words {
        for y in words {
            assert_eq!(before(x, y), x < y, "{:?} < {:?}", x, y);
        }
    }
}

#[test]
fn characters_and_texts_convert_both_ways() {
    assert_eq!(chars_of("a$é"), vec!['a', '$', 'é']);
    assert!(chars_of("").is_empty());
    let chars = vec!['d', 'e', 'f', 'i', 'n', 'e'];
    assert_eq!(text_of(&chars, 6), "define");
    assert_eq!(text_of(&chars, 3), "def");
    assert_eq!(text_of(&chars, 0), "");
}

#[test]
fn spells_compares_whole_words() {
    let chars = vec!['a', 'd', 'd'];
    assert!(spells(&chars, "add"));
    assert!(!spells(&chars, "ad"));
    assert!(!spells(&chars, "adds"));
    assert!(!spells(&chars, "abd"));
    assert!(!spells(&chars, ""));
    assert!(spells(&Vec::new(), ""));
}

#[test]
fn texts_are_totally_ordered() {
    let words = ["", "a", "ab", "abc", "b", "ba", "\u{e9}", "9", "10"];
    for x in words {
        for y in words {
            let outcomes = [before(x, y), x == y, before(y, x)];
            assert_eq!(outcomes.iter().filter(|o| **o).count(), 1, "{:?} {:?}", x, y);
            for z in words {
                if before(x, y) && before(y, z) {
                    assert!(before(x, z), "{:?} {:?} {:?}", x, y, z);
                }
            }
        }
    }
}

#[test]
fn lexemes_hold_every_character_that_is_no_separator() {
    for line in ["(+ 1 2)", "  (define x (list 1 2 3))\n", "a(b)c", "((", "", "x\u{3000}y"] {
        let joined: String = split(line).concat();
        let expected: String = line.chars().filter(|c| !separator(*c)).collect();
        assert_eq!(joined, expected, "{:?}", line);
        for word in split(line) {
            assert!(!word.is_empty());
            assert!(word.chars().all(|c| !separator(c)));
        }
    }
}

#[test]
fn trimming_takes_whitespace_only() {
    for s in ["abc  ", "a b \t\n", "", "   ", "x", " x"] {
        let t = trimmed(s);
        assert!(s.starts_with(&t));
        assert!(t.chars().last().map_or(true, |c| !whitespace(c)));
        assert!(s[t.len()..].chars().all(whitespace));
    }
}
