use twitch_bot::text::{
    char_is_whitespace, chars_of, compare, find_char, join_by_index, join_lines_max,
    join_nonempty, list_contains, list_without, split_char, split_text, split_whitespace,
    starts_with, text_eq, text_eq_ignore_ascii_case, trim, Rank,
};

const SAMPLES: [&str; 12] = [
    "",
    " ",
    "a",
    "  a b  ",
    "\t tab\u{a0}and\u{3000}wide \n",
    "héllo wörld",
    "a  b   c",
    "\u{2003}x\u{2003}",
    "one\ntwo\r\nthree",
    "Ünï cödé",
    "abcabc",
    "aXbXXc",
];

#[test]
fn whitespace_is_that_of_the_standard_library() {
    for n in 0..=0x10FFFFu32 {
        if let Some(c) = char::from_u32(n) {
            assert_eq!(char_is_whitespace(c), c.is_whitespace(), "U+{n:04X}");
        }
    }
}

#[test]
fn chars_of_gives_the_characters() {
    for s in SAMPLES {
        assert_eq!(chars_of(s), s.chars().collect::<Vec<char>>());
    }
}

#[test]
fn trim_is_that_of_the_standard_library() {
    for s in SAMPLES {
        assert_eq!(trim(s), s.trim());
    }
    assert_eq!(trim("  x y  "), "x y");
    assert_eq!(trim(" \t\n "), "");
}

#[test]
fn split_whitespace_is_that_of_the_standard_library() {
    for s in SAMPLES {
        assert_eq!(split_whitespace(s), s.split_whitespace().collect::<Vec<&str>>());
    }
    assert_eq!(split_whitespace("  a  bc d "), vec!["a", "bc", "d"]);
}

#[test]
fn split_char_is_that_of_the_standard_library() {
    for s in SAMPLES {
        for c in ['\n', ' ', 'a', 'X'] {
            assert_eq!(split_char(s, c), s.split(c).collect::<Vec<&str>>());
        }
    }
    assert_eq!(split_char("a\n\nb\n", '\n'), vec!["a", "", "b", ""]);
    assert_eq!(split_char("", '\n'), vec![""]);
}

#[test]
fn split_text_is_that_of_the_standard_library() {
    for s in SAMPLES {
        for sep in [" ", "", "a", "XX", "abc", "  ", "bc", "é", "\r\n"] {
            assert_eq!(split_text(s, sep), s.split(sep).collect::<Vec<&str>>(), "{s:?} by {sep:?}");
        }
    }
    assert_eq!(split_text("aXXXb", "XX"), vec!["a", "Xb"]);
    assert_eq!(split_text("ab", ""), vec!["", "a", "b", ""]);
    assert_eq!(split_text("", "x"), vec![""]);
}

#[test]
fn find_char_counts_characters() {
    assert_eq!(find_char("héllo wörld", ' '), Some(5));
    assert_eq!(find_char("héllo", ' '), None);
    assert_eq!(find_char(" x", ' '), Some(0));
    assert_eq!(find_char("", ' '), None);
}

#[test]
fn compare_is_the_order_of_strings() {
    for a in SAMPLES {
        for b in SAMPLES {
            let expected = match a.cmp(b) {
                std::cmp::Ordering::Less => Rank::Before,
                std::cmp::Ordering::Equal => Rank::Same,
                std::cmp::Ordering::Greater => Rank::After,
            };
            assert_eq!(compare(a, b), expected, "{a:?} to {b:?}");
            assert_eq!(text_eq(a, b), a == b);
            assert_eq!(starts_with(a, b), a.starts_with(b));
        }
    }
    assert_eq!(compare("a", "ab"), Rank::Before);
    assert_eq!(compare("b", "ab"), Rank::After);
    assert_eq!(compare("z", "é"), Rank::Before);
}

#[test]
fn ascii_case_is_ignored_as_the_standard_library_does() {
    let names = ["Museun", "museun", "MUSEUN", "müseun", "MÜSEUN", "museum", "", "k", "K", "\u{212a}", "@", "`", "[", "{"];
    for a in names {
        for b in names {
            assert_eq!(text_eq_ignore_ascii_case(a, b), a.eq_ignore_ascii_case(b), "{a:?} to {b:?}");
        }
    }
}

#[test]
fn lists_of_texts() {
    let list = vec![String::from("a"), String::from("b"), String::from("a"), String::from("c")];
    assert!(list_contains(&list, "b"));
    assert!(!list_contains(&list, "d"));
    assert_eq!(list_without(&list, "a"), vec![String::from("b"), String::from("c")]);
    assert_eq!(list_without(&list, "d"), list);
}

#[test]
fn joins() {
    let items = vec![String::from("a"), String::from("b"), String::from("c")];
    assert_eq!(join_by_index(&items, ", "), "a, b, c");
    assert_eq!(join_nonempty(&items, ", "), "a, b, c");
    let gaps = vec![String::new(), String::from("a"), String::new(), String::from("b")];
    assert_eq!(join_by_index(&gaps, ", "), ", a, , b");
    assert_eq!(join_nonempty(&gaps, ", "), "a, , b");
    assert_eq!(join_by_index(&Vec::new(), ", "), "");
    assert_eq!(join_lines_max(&items, 2), "a b\n c");
    assert_eq!(join_lines_max(&items, 10), "a b c");
    let many: Vec<String> = (0..21).map(|n| format!("c{n}")).collect();
    assert_eq!(
        join_lines_max(&many, 10),
        "c0 c1 c2 c3 c4 c5 c6 c7 c8 c9\n c10 c11 c12 c13 c14 c15 c16 c17 c18 c19\n c20"
    );
}
