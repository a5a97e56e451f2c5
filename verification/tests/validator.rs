use flowcraft_studio::commands::validate_mermaid_syntax;
use flowcraft_studio::validator::{
    assess, bracket_message, check_line, count_brackets, edge_token, node_message, spaced_id,
    validate, EMPTY_DIAGRAM, UNCLEAR_KIND,
};

fn chars(s: &str) -> Vec<char> {
    s.chars().collect()
}

fn warnings(source: &str) -> Vec<String> {
    let report = validate(source);
    assert!(report.is_valid);
    assert!(report.errors.is_empty());
    report.warnings
}

#[test]
fn empty_source_gets_the_empty_warning() {
    let report = validate("");
    assert!(report.is_valid);
    assert!(report.errors.is_empty());
    assert_eq!(report.warnings, vec!["Empty diagram".to_string()]);
    assert_eq!(EMPTY_DIAGRAM, "Empty diagram");
}

#[test]
fn flowchart_with_an_edge_gets_no_warning() {
    assert_eq!(warnings("flowchart TD\nA-->B"), Vec::<String>::new());
}

#[test]
fn unmatched_bracket_is_reported_with_its_line() {
    assert_eq!(
        warnings("graph TD\nA[Start --> B"),
        vec!["Line 2: Potentially unmatched brackets".to_string()]
    );
}

#[test]
fn spaced_arrow_gets_no_node_warning() {
    assert_eq!(warnings("flowchart TD\nA -->B"), Vec::<String>::new());
}

#[test]
fn first_word_of_a_side_is_its_identifier() {
    // The identifier of the side "A b" is its first word, "A", which holds no blank.
    assert_eq!(warnings("flowchart TD\nA b-->C"), Vec::<String>::new());
    assert_eq!(warnings("flowchart TD\nA b---C"), Vec::<String>::new());
    assert_eq!(warnings("flowchart TD\n  A b --> C d --- E f"), Vec::<String>::new());
}

#[test]
fn unknown_kind_is_a_warning_and_no_error() {
    let report = validate("hello world");
    assert!(report.is_valid);
    assert!(report.errors.is_empty());
    assert_eq!(
        report.warnings,
        vec!["Diagram type not clearly specified in first line".to_string()]
    );
    assert_eq!(UNCLEAR_KIND, "Diagram type not clearly specified in first line");
}

#[test]
fn keyword_is_matched_whatever_its_case() {
    assert_eq!(warnings("FLOWCHART TD"), Vec::<String>::new());
    assert_eq!(warnings("  SequenceDiagram  "), Vec::<String>::new());
    assert_eq!(warnings("classDiagram"), Vec::<String>::new());
    assert_eq!(warnings("stateDiagram-v2"), Vec::<String>::new());
    assert_eq!(warnings("erDiagram"), Vec::<String>::new());
    assert_eq!(warnings("gitGraph:"), Vec::<String>::new());
    assert_eq!(warnings("Pie title Pets"), Vec::<String>::new());
}

#[test]
fn kelvin_sign_is_lowered_to_k() {
    assert_eq!(warnings("san\u{212A}ey"), Vec::<String>::new());
}

#[test]
fn keyword_must_start_the_first_line() {
    assert_eq!(warnings("my flowchart"), vec![UNCLEAR_KIND.to_string()]);
    assert_eq!(warnings("\nflowchart TD"), vec![UNCLEAR_KIND.to_string()]);
    assert_eq!(warnings("flow"), vec![UNCLEAR_KIND.to_string()]);
}

#[test]
fn white_space_alone_is_a_line_without_a_kind() {
    assert_eq!(warnings("   "), vec![UNCLEAR_KIND.to_string()]);
    assert_eq!(warnings("\n"), vec![UNCLEAR_KIND.to_string()]);
}

#[test]
fn warnings_come_in_the_order_of_discovery() {
    assert_eq!(
        warnings("nothing\nA[\nB\nC)(]\n}{"),
        vec![
            UNCLEAR_KIND.to_string(),
            "Line 2: Potentially unmatched brackets".to_string(),
            "Line 4: Potentially unmatched brackets".to_string(),
        ]
    );
}

#[test]
fn brackets_are_counted_line_by_line() {
    assert_eq!(
        warnings("graph TD\nA[Start\nEnd]"),
        vec![
            "Line 2: Potentially unmatched brackets".to_string(),
            "Line 3: Potentially unmatched brackets".to_string(),
        ]
    );
    assert_eq!(warnings("graph TD\nA[x] --> B{y} --> C(z)"), Vec::<String>::new());
    assert_eq!(warnings("graph TD\n)("), Vec::<String>::new());
    assert_eq!(warnings("graph (TD"), vec!["Line 1: Potentially unmatched brackets".to_string()]);
}

#[test]
fn line_numbers_have_all_their_digits() {
    let mut source = String::from("graph TD");
    for _ in 0..11 {
        source.push_str("\nA-->B");
    }
    source.push_str("\n[");
    assert_eq!(
        warnings(&source),
        vec!["Line 13: Potentially unmatched brackets".to_string()]
    );
}

#[test]
fn carriage_returns_end_lines_too() {
    assert_eq!(
        warnings("graph TD\r\nA[\r\nB"),
        vec!["Line 2: Potentially unmatched brackets".to_string()]
    );
}

#[test]
fn bracket_counts() {
    assert_eq!(count_brackets(&chars("")), (0, 0));
    assert_eq!(count_brackets(&chars("[({")), (3, 0));
    assert_eq!(count_brackets(&chars("a]b)c}d]")), (0, 4));
    assert_eq!(count_brackets(&chars("A[Start] --> B{Decision?}")), (2, 2));
    assert_eq!(count_brackets(&chars("<>")), (0, 0));
}

#[test]
fn messages_are_spelled_out() {
    assert_eq!(bracket_message(1), "Line 1: Potentially unmatched brackets");
    assert_eq!(bracket_message(120), "Line 120: Potentially unmatched brackets");
    assert_eq!(node_message(7, &chars("A b")), "Line 7: Node ID 'A b' contains spaces");
    assert_eq!(node_message(10, &chars("")), "Line 10: Node ID '' contains spaces");
}

#[test]
fn spaced_identifiers() {
    assert!(spaced_id(&chars("A b")));
    assert!(spaced_id(&chars(" ")));
    assert!(spaced_id(&chars("x[ ]")));
    assert!(!spaced_id(&chars("Ab")));
    assert!(!spaced_id(&chars("")));
    assert!(!spaced_id(&chars("[A b]")));
    assert!(!spaced_id(&chars("(A b)")));
    assert!(!spaced_id(&chars("A\tb")));
    assert!(spaced_id(&chars("{A b}")));
}

#[test]
fn arrow_is_preferred_to_link() {
    assert_eq!(edge_token(&chars("A --> B")), Some(chars("-->")));
    assert_eq!(edge_token(&chars("A --- B")), Some(chars("---")));
    assert_eq!(edge_token(&chars("A --- B --> C")), Some(chars("-->")));
    assert_eq!(edge_token(&chars("A ---> B")), Some(chars("-->")));
    assert_eq!(edge_token(&chars("A -- B -> C")), None);
    assert_eq!(edge_token(&chars("")), None);
}

#[test]
fn check_line_appends_to_the_warnings() {
    let mut found = vec!["before".to_string()];
    check_line(&chars("A[ --> B"), 3, &mut found);
    assert_eq!(
        found,
        vec!["before".to_string(), "Line 3: Potentially unmatched brackets".to_string()]
    );
    check_line(&chars("A --> B"), 4, &mut found);
    assert_eq!(found.len(), 2);
}

#[test]
fn assess_takes_the_heading_as_it_is() {
    let lines = vec![chars("Flowchart TD"), chars("A(")];
    let known = assess(&chars("flowchart td"), &lines);
    assert!(known.is_valid);
    assert!(known.errors.is_empty());
    assert_eq!(known.warnings, vec!["Line 2: Potentially unmatched brackets".to_string()]);
    let unknown = assess(&chars("Flowchart TD"), &lines);
    assert_eq!(
        unknown.warnings,
        vec![UNCLEAR_KIND.to_string(), "Line 2: Potentially unmatched brackets".to_string()]
    );
    let none = assess(&chars("pie"), &Vec::new());
    assert_eq!(none.warnings, Vec::<String>::new());
}

#[test]
fn command_wraps_the_check() {
    let report = validate_mermaid_syntax("graph TD\nA[Start --> B".to_string()).unwrap();
    assert_eq!(report, validate("graph TD\nA[Start --> B"));
    assert_eq!(validate_mermaid_syntax(String::new()).unwrap().warnings, vec![
        "Empty diagram".to_string()
    ]);
}

#[test]
fn every_report_is_valid_and_without_errors() {
    for source in ["", "x", "graph TD", "[[[", "A b-->C", "\r\n\r\n", "---", "-->", "a\n b --> c d\n{"] {
        let report = validate(source);
        assert!(report.is_valid);
        assert!(report.errors.is_empty());
        assert_eq!(report.is_valid, report.errors.is_empty());
    }
}
