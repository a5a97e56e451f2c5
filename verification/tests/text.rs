use flowcraft_studio::diagram::{all_kinds, detect_kind, DiagramKind};
use flowcraft_studio::search::{contains, find, lines, split, stands_at};
use flowcraft_studio::text::{
    chars_of, decimal, first_token, is_space_char, lowercase, push_all, span_end, span_start,
    slice_of, starts_with, string_of, trim,
};

fn chars(s: &str) -> Vec<char> {
    s.chars().collect()
}

fn text(v: &Vec<char>) -> String {
    v.iter().collect()
}

const SAMPLES: [&str; 16] = [
    "",
    " ",
    "a",
    "  a  ",
    "\t\n a b \r\n",
    "A --> B",
    "\u{A0}x\u{3000}",
    "\u{2003}\u{2028}word\u{85} next",
    "one two  three",
    "\u{200B}zero width\u{200B}",
    "line one\nline two\n",
    "a\r\nb\rc\n\nd\r",
    "\n",
    "\r\n\r\n",
    "x\n\r\ny\r\r\n",
    "\u{1680}\u{180E}\u{202F}\u{205F}",
];

#[test]
fn white_space_is_what_unicode_says() {
    for n in 0..=0x10FFFF_u32 {
        if let Some(c) = char::from_u32(n) {
            assert_eq!(is_space_char(c), c.is_whitespace(), "U+{:04X}", n);
        }
    }
}

#[test]
fn trim_cuts_both_ends() {
    for s in SAMPLES {
        assert_eq!(text(&trim(&chars(s))), s.trim(), "{:?}", s);
    }
    assert_eq!(text(&trim(&chars("  flowchart TD \t"))), "flowchart TD");
    assert_eq!(text(&trim(&chars(" \n "))), "");
}

#[test]
fn first_token_is_the_first_word() {
    for s in SAMPLES {
        assert_eq!(
            text(&first_token(&chars(s))),
            s.split_whitespace().next().unwrap_or(""),
            "{:?}",
            s
        );
    }
    assert_eq!(text(&first_token(&chars("  A b "))), "A");
    assert_eq!(text(&first_token(&chars("   "))), "");
    assert_eq!(text(&first_token(&chars("[A b]"))), "[A");
}

#[test]
fn spans_end_where_the_sort_changes() {
    let v = chars("  ab c");
    assert_eq!(span_end(&v, 0, true), 2);
    assert_eq!(span_end(&v, 0, false), 0);
    assert_eq!(span_end(&v, 2, false), 4);
    assert_eq!(span_end(&v, 5, false), 6);
    assert_eq!(span_end(&v, 6, true), 6);
    assert_eq!(span_start(&v, 0, 6, false), 5);
    assert_eq!(span_start(&v, 0, 5, true), 4);
    assert_eq!(span_start(&v, 0, 2, true), 0);
    assert_eq!(span_start(&v, 1, 2, true), 1);
    assert_eq!(span_start(&v, 3, 3, true), 3);
}

#[test]
fn strings_and_characters_convert_both_ways() {
    for s in SAMPLES {
        assert_eq!(chars_of(s), chars(s));
        assert_eq!(string_of(&chars(s)), s);
    }
    assert_eq!(chars_of("añ越"), vec!['a', 'ñ', '越']);
}

#[test]
fn slice_of_copies_a_range() {
    let v = chars("abcdef");
    assert_eq!(slice_of(&v, 0, 6), v);
    assert_eq!(slice_of(&v, 2, 4), chars("cd"));
    assert_eq!(slice_of(&v, 3, 3), chars(""));
    assert_eq!(slice_of(&v, 6, 6), chars(""));
}

#[test]
fn push_all_appends() {
    let mut s = String::from("ab");
    push_all(&mut s, &chars("cd"));
    assert_eq!(s, "abcd");
    push_all(&mut s, &chars(""));
    assert_eq!(s, "abcd");
}

#[test]
fn decimal_numerals() {
    for n in [0_usize, 1, 9, 10, 11, 99, 100, 101, 12345, 1_000_000, usize::MAX] {
        assert_eq!(text(&decimal(n)), n.to_string());
    }
    assert_eq!(decimal(0), vec!['0']);
    assert_eq!(decimal(407), vec!['4', '0', '7']);
}

#[test]
fn lowercase_is_that_of_the_standard_library() {
    assert_eq!(text(&lowercase(&chars("FlowChart TD"))), "flowchart td");
    assert_eq!(text(&lowercase(&chars("ÀÉÎ"))), "àéî");
    assert_eq!(text(&lowercase(&chars("ὈΔΥΣΣΕΎΣ"))), "ὀδυσσεύς");
    assert_eq!(text(&lowercase(&chars("\u{130}"))), "i\u{307}");
    assert_eq!(text(&lowercase(&chars(""))), "");
}

#[test]
fn starts_with_compares_the_prefix() {
    assert!(starts_with(&chars("flowchart TD"), &chars("flowchart")));
    assert!(starts_with(&chars("flowchart"), &chars("flowchart")));
    assert!(starts_with(&chars("flowchart"), &chars("")));
    assert!(starts_with(&chars(""), &chars("")));
    assert!(!starts_with(&chars("flow"), &chars("flowchart")));
    assert!(!starts_with(&chars("a flowchart"), &chars("flowchart")));
    assert!(!starts_with(&chars("flowchArt"), &chars("flowchart")));
}

#[test]
fn stands_at_compares_in_place() {
    let v = chars("A --> B");
    assert!(stands_at(&v, &chars("-->"), 2));
    assert!(!stands_at(&v, &chars("-->"), 1));
    assert!(!stands_at(&v, &chars("-->"), 5));
    assert!(!stands_at(&v, &chars("-->"), 100));
    assert!(stands_at(&v, &chars(""), 7));
    assert!(!stands_at(&v, &chars(""), 8));
    assert!(stands_at(&v, &chars("A --> B"), 0));
    assert!(!stands_at(&v, &chars("A --> B "), 0));
}

#[test]
fn find_gives_the_first_place() {
    let v = chars("a---b-->c---d");
    assert_eq!(find(&v, &chars("---"), 0), Some(1));
    assert_eq!(find(&v, &chars("---"), 1), Some(1));
    assert_eq!(find(&v, &chars("---"), 2), Some(9));
    assert_eq!(find(&v, &chars("---"), 10), None);
    assert_eq!(find(&v, &chars("-->"), 0), Some(5));
    assert_eq!(find(&v, &chars("x"), 0), None);
    assert_eq!(find(&v, &chars("d"), 0), Some(12));
    assert_eq!(find(&v, &chars("d"), 13), None);
    assert_eq!(find(&v, &chars("d"), 99), None);
    assert_eq!(find(&v, &chars(""), 4), Some(4));
    assert_eq!(find(&v, &chars(""), 13), Some(13));
    assert_eq!(find(&v, &chars(""), 14), None);
    assert_eq!(find(&chars(""), &chars("a"), 0), None);
    for s in SAMPLES {
        for pat in ["a", " ", "\n", "-->", "ne"] {
            assert_eq!(
                find(&chars(s), &chars(pat), 0),
                s.find(pat).map(|at| s[..at].chars().count()),
                "{:?} {:?}",
                s,
                pat
            );
            assert_eq!(contains(&chars(s), &chars(pat)), s.contains(pat));
        }
    }
}

#[test]
fn split_cuts_at_each_separator() {
    let cases = [
        ("A-->B", "-->"),
        ("A-->B-->C", "-->"),
        ("-->", "-->"),
        ("-->-->", "-->"),
        ("A----B", "---"),
        ("A------B", "---"),
        ("A--->B", "-->"),
        ("no edge", "-->"),
        ("", "-->"),
        ("aXbXc", "X"),
        ("X", "X"),
        ("aaa", "aa"),
    ];
    for (s, sep) in cases {
        let expected: Vec<Vec<char>> = s.split(sep).map(|p| p.chars().collect()).collect();
        assert_eq!(split(&chars(s), &chars(sep)), expected, "{:?} {:?}", s, sep);
    }
    assert_eq!(split(&chars("A-->B"), &chars("-->")), vec![chars("A"), chars("B")]);
    assert_eq!(split(&chars("A----B"), &chars("---")), vec![chars("A"), chars("-B")]);
    assert_eq!(split(&chars("abc"), &chars("")), vec![chars("abc")]);
    assert_eq!(split(&chars(""), &chars("")), vec![chars("")]);
}

#[test]
fn lines_are_those_of_the_standard_library() {
    for s in SAMPLES {
        let expected: Vec<Vec<char>> = s.lines().map(|l| l.chars().collect()).collect();
        assert_eq!(lines(&chars(s)), expected, "{:?}", s);
    }
    assert_eq!(lines(&chars("")), Vec::<Vec<char>>::new());
    assert_eq!(lines(&chars("a\nb")), vec![chars("a"), chars("b")]);
    assert_eq!(lines(&chars("a\nb\n")), vec![chars("a"), chars("b")]);
    assert_eq!(lines(&chars("a\r\nb")), vec![chars("a"), chars("b")]);
    assert_eq!(lines(&chars("a\n\nb")), vec![chars("a"), chars(""), chars("b")]);
    assert_eq!(lines(&chars("\n")), vec![chars("")]);
    assert_eq!(lines(&chars("a\r")), vec![chars("a\r")]);
    assert_eq!(lines(&chars("a\r\r\n")), vec![chars("a\r")]);
}

#[test]
fn registry_has_every_kind_once() {
    let kinds = all_kinds();
    assert_eq!(kinds.len(), 14);
    for (i, a) in kinds.iter().enumerate() {
        for b in kinds.iter().skip(i + 1) {
            assert_ne!(a, b);
            assert_ne!(a.keyword(), b.keyword());
        }
    }
    assert_eq!(kinds[0], DiagramKind::Graph);
    assert_eq!(kinds[13], DiagramKind::Sankey);
}

#[test]
fn keywords_are_lower_case() {
    let expected = [
        "graph",
        "flowchart",
        "sequencediagram",
        "classdiagram",
        "statediagram",
        "erdiagram",
        "journey",
        "gantt",
        "pie",
        "gitgraph",
        "mindmap",
        "timeline",
        "zenuml",
        "sankey",
    ];
    let kinds = all_kinds();
    for (kind, word) in kinds.iter().zip(expected) {
        assert_eq!(kind.keyword(), word);
    }
}

#[test]
fn detect_kind_reads_the_keyword() {
    for kind in all_kinds() {
        let word = kind.keyword();
        assert_eq!(detect_kind(&chars(word)), Some(kind));
        assert_eq!(detect_kind(&chars(&format!("{}: more", word))), Some(kind));
        assert_eq!(detect_kind(&chars(&format!("{} TD", word))), Some(kind));
        assert_eq!(detect_kind(&chars(&format!(" {}", word))), None);
        assert_eq!(detect_kind(&chars(&word[..word.len() - 1])), None);
    }
    assert_eq!(detect_kind(&chars("statediagram-v2")), Some(DiagramKind::State));
    assert_eq!(detect_kind(&chars("graphs")), Some(DiagramKind::Graph));
    assert_eq!(detect_kind(&chars("Flowchart")), None);
    assert_eq!(detect_kind(&chars("")), None);
}
