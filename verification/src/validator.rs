//! The syntax check of a diagram's source text. It is advisory: it reads the
//! text line by line and gathers warnings, and it rejects nothing.

use vstd::prelude::*;
use crate::diagram::{detect_kind, kind_of};
use crate::search::{
    contains, lemma_no_lines, lines, lines_of, occurs, pieces, split, texts,
};
use crate::text::{
    chars_of, decimal, decimal_of, first_token, first_word, lemma_first_word_has_no_space,
    lowercase, lowercase_of, push_all, trim, trimmed,
};

verus! {

/// The warning for a source without lines.
pub const EMPTY_DIAGRAM: &'static str = "Empty diagram";

/// The warning for a first line that announces no kind of diagram.
pub const UNCLEAR_KIND: &'static str = "Diagram type not clearly specified in first line";

/// What a check found.
#[derive(Debug, PartialEq, Eq)]
pub struct ValidationResult {
    pub is_valid: bool,
    pub errors: Vec<String>,
    pub warnings: Vec<String>,
}

/// What a check found, as texts.
pub struct Report {
    pub is_valid: bool,
    pub errors: Seq<Seq<char>>,
    pub warnings: Seq<Seq<char>>,
}

/// What each string of a list holds.
pub open spec fn strings(list: Seq<String>) -> Seq<Seq<char>> {
    list.map_values(|s: String| s@)
}

impl View for ValidationResult {
    type V = Report;

    open spec fn view(&self) -> Report {
        Report {
            is_valid: self.is_valid,
            errors: strings(self.errors@),
            warnings: strings(self.warnings@),
        }
    }
}

/// `c` opens a bracket.
pub open spec fn is_opener(c: char) -> bool {
    c == '[' || c == '(' || c == '{'
}

/// `c` closes a bracket.
pub open spec fn is_closer(c: char) -> bool {
    c == ']' || c == ')' || c == '}'
}

/// How many characters of `line` open a bracket.
pub open spec fn openers(line: Seq<char>) -> nat
    decreases line.len(),
{
    if line.len() == 0 {
        0
    } else {
        openers(line.drop_last()) + if is_opener(line.last()) {
            1nat
        } else {
            0nat
        }
    }
}

/// How many characters of `line` close a bracket.
pub open spec fn closers(line: Seq<char>) -> nat
    decreases line.len(),
{
    if line.len() == 0 {
        0
    } else {
        closers(line.drop_last()) + if is_closer(line.last()) {
            1nat
        } else {
            0nat
        }
    }
}

/// The arrow between two nodes.
pub open spec fn arrow() -> Seq<char> {
    "-->"@
}

/// The plain link between two nodes.
pub open spec fn link() -> Seq<char> {
    "---"@
}

/// The edge token at which `line` is cut into sides: the arrow where the line
/// holds one, else the plain link where it holds one.
pub open spec fn edge_of(line: Seq<char>) -> Option<Seq<char>> {
    if occurs(line, arrow()) {
        Some(arrow())
    } else if occurs(line, link()) {
        Some(link())
    } else {
        None
    }
}

/// A node identifier that holds a blank and does not start an inline label.
pub open spec fn is_spaced_id(id: Seq<char>) -> bool {
    id.contains(' ') && !(id.len() > 0 && (id[0] == '[' || id[0] == '('))
}

/// The warning for brackets that do not match on line `number`.
pub open spec fn bracket_warning(number: nat) -> Seq<char> {
    "Line "@ + decimal_of(number) + ": Potentially unmatched brackets"@
}

/// The warning for the node identifier `id` on line `number`.
pub open spec fn node_warning(number: nat, id: Seq<char>) -> Seq<char> {
    "Line "@ + decimal_of(number) + ": Node ID '"@ + id + "' contains spaces"@
}

/// The warnings for the brackets of `line`: one where it opens and closes
/// brackets in different numbers.
pub open spec fn bracket_warnings(line: Seq<char>, number: nat) -> Seq<Seq<char>> {
    if openers(line) != closers(line) {
        seq![bracket_warning(number)]
    } else {
        seq![]
    }
}

/// The warnings for the first `n` sides of an edge line: one for each side
/// whose first word is a spaced identifier, in the order of the sides.
pub open spec fn side_warnings(sides: Seq<Seq<char>>, number: nat, n: nat) -> Seq<Seq<char>>
    decreases n,
{
    if n == 0 || n > sides.len() {
        seq![]
    } else {
        let id = first_word(sides[n - 1]);
        side_warnings(sides, number, (n - 1) as nat) + if is_spaced_id(id) {
            seq![node_warning(number, id)]
        } else {
            seq![]
        }
    }
}

/// The warnings for the node identifiers of `line`.
pub open spec fn node_warnings(line: Seq<char>, number: nat) -> Seq<Seq<char>> {
    match edge_of(line) {
        Some(edge) => side_warnings(pieces(line, edge), number, pieces(line, edge).len()),
        None => seq![],
    }
}

/// The warnings for `line`, which is line `number` of its source.
pub open spec fn line_warnings(line: Seq<char>, number: nat) -> Seq<Seq<char>> {
    bracket_warnings(line, number) + node_warnings(line, number)
}

/// The warnings for the first `n` lines, in the order of the lines, which are
/// numbered from 1.
pub open spec fn warnings_upto(lines: Seq<Seq<char>>, n: nat) -> Seq<Seq<char>>
    decreases n,
{
    if n == 0 || n > lines.len() {
        seq![]
    } else {
        warnings_upto(lines, (n - 1) as nat) + line_warnings(lines[n - 1], n)
    }
}

/// The warnings for a heading: one where it announces no kind of diagram.
pub open spec fn kind_warnings(heading: Seq<char>) -> Seq<Seq<char>> {
    if kind_of(heading) is Some {
        seq![]
    } else {
        seq![UNCLEAR_KIND@]
    }
}

/// The report on the lines of a source under a heading: valid, without
/// errors, with the heading's warning first and then those of the lines.
pub open spec fn assessment(heading: Seq<char>, lines: Seq<Seq<char>>) -> Report {
    Report {
        is_valid: true,
        errors: seq![],
        warnings: kind_warnings(heading) + warnings_upto(lines, lines.len()),
    }
}

/// The heading of a first line: the line trimmed and in lower case.
pub open spec fn heading_of(first: Seq<char>) -> Seq<char> {
    lowercase_of(trimmed(first))
}

/// The report on a source text.
pub open spec fn report_of(source: Seq<char>) -> Report {
    let lines = lines_of(source);
    if lines.len() == 0 {
        Report { is_valid: true, errors: seq![], warnings: seq![EMPTY_DIAGRAM@] }
    } else {
        assessment(heading_of(lines[0]), lines)
    }
}

/// No side of an edge line gets a warning: the identifier of a side is its
/// first word, and a first word holds no blank.
pub proof fn lemma_no_side_warnings(sides: Seq<Seq<char>>, number: nat, n: nat)
    ensures
        side_warnings(sides, number, n) == Seq::<Seq<char>>::empty(),
    decreases n,
{
    if n == 0 || n > sides.len() {
    } else {
        lemma_no_side_warnings(sides, number, (n - 1) as nat);
        lemma_first_word_has_no_space(sides[n - 1]);
        assert(side_warnings(sides, number, n) =~= Seq::<Seq<char>>::empty());
    }
}

/// No line gets a warning for a node identifier, so what a line gets is what
/// its brackets get.
pub proof fn lemma_no_node_warnings(line: Seq<char>, number: nat)
    ensures
        node_warnings(line, number) == Seq::<Seq<char>>::empty(),
        line_warnings(line, number) == bracket_warnings(line, number),
{
    match edge_of(line) {
        Some(edge) => {
            lemma_no_side_warnings(pieces(line, edge), number, pieces(line, edge).len());
        },
        None => {},
    }
    assert(line_warnings(line, number) =~= bracket_warnings(line, number));
}

/// Every report is valid and without errors, and holds a warning: valid
/// exactly when there is no error.
pub proof fn lemma_report_is_valid(source: Seq<char>)
    ensures
        report_of(source).is_valid,
        report_of(source).errors.len() == 0,
        report_of(source).is_valid <==> report_of(source).errors.len() == 0,
{
}

/// The empty source, and no other, gets the one warning that it is empty;
/// every other source is assessed line by line under the heading of its
/// first line.
pub proof fn lemma_empty_source(source: Seq<char>)
    ensures
        source.len() == 0 ==> report_of(source) == (Report {
            is_valid: true,
            errors: seq![],
            warnings: seq![EMPTY_DIAGRAM@],
        }),
        source.len() > 0 ==> report_of(source) == assessment(
            heading_of(lines_of(source)[0]),
            lines_of(source),
        ),
{
    lemma_no_lines(source);
}

/// How many characters of `line` open a bracket and how many close one.
pub fn count_brackets(line: &Vec<char>) -> (r: (usize, usize))
    ensures
        r.0 == openers(line@),
        r.1 == closers(line@),
{
    let mut open: usize = 0;
    let mut close: usize = 0;
    let mut i: usize = 0;
    while i < line.len()
        invariant
            i <= line.len(),
            open == openers(line@.take(i as int)),
            close == closers(line@.take(i as int)),
            open <= i,
            close <= i,
        decreases line.len() - i,
    {
        let c = line[i];
        proof {
            assert(line@.take(i + 1).drop_last() =~= line@.take(i as int));
            assert(line@.take(i + 1).last() == c);
        }
        if c == '[' || c == '(' || c == '{' {
            open += 1;
        }
        if c == ']' || c == ')' || c == '}' {
            close += 1;
        }
        i += 1;
    }
    proof {
        assert(line@.take(line.len() as int) =~= line@);
    }
    (open, close)
}

/// The warning for brackets that do not match on line `number`.
pub fn bracket_message(number: usize) -> (s: String)
    ensures
        s@ == bracket_warning(number as nat),
{
    let mut s = "Line ".to_string();
    push_all(&mut s, &decimal(number));
    push_all(&mut s, &chars_of(": Potentially unmatched brackets"));
    s
}

/// The warning for the node identifier `id` on line `number`.
pub fn node_message(number: usize, id: &Vec<char>) -> (s: String)
    ensures
        s@ == node_warning(number as nat, id@),
{
    let mut s = "Line ".to_string();
    push_all(&mut s, &decimal(number));
    push_all(&mut s, &chars_of(": Node ID '"));
    push_all(&mut s, id);
    push_all(&mut s, &chars_of("' contains spaces"));
    s
}

/// Tells whether `id` holds a blank and does not start an inline label.
pub fn spaced_id(id: &Vec<char>) -> (b: bool)
    ensures
        b == is_spaced_id(id@),
{
    if id.len() > 0 && (id[0] == '[' || id[0] == '(') {
        return false;
    }
    let mut i: usize = 0;
    while i < id.len()
        invariant
            i <= id.len(),
            !(id@.len() > 0 && (id@[0] == '[' || id@[0] == '(')),
            forall|j: int| 0 <= j < i ==> id@[j] != ' ',
        decreases id.len() - i,
    {
        if id[i] == ' ' {
            assert(id@[i as int] == ' ');
            return true;
        }
        i += 1;
    }
    false
}

/// The edge token at which `line` is cut into sides, if it holds one.
pub fn edge_token(line: &Vec<char>) -> (r: Option<Vec<char>>)
    ensures
        r is Some <==> edge_of(line@) is Some,
        r is Some ==> r->0@ == edge_of(line@)->0,
{
    let arrow = chars_of("-->");
    let link = chars_of("---");
    if contains(line, &arrow) {
        Some(arrow)
    } else if contains(line, &link) {
        Some(link)
    } else {
        None
    }
}

/// Appends the warnings for `line`, which is line `number` of its source.
pub fn check_line(line: &Vec<char>, number: usize, warnings: &mut Vec<String>)
    ensures
        strings(final(warnings)@) == strings(old(warnings)@) + line_warnings(
            line@,
            number as nat,
        ),
{
    let (open, close) = count_brackets(line);
    if open != close {
        let m = bracket_message(number);
        proof {
            assert(strings(warnings@.push(m)) =~= strings(warnings@).push(m@));
        }
        warnings.push(m);
    }
    let ghost base = strings(warnings@);
    assert(base =~= strings(old(warnings)@) + bracket_warnings(line@, number as nat));
    match edge_token(line) {
        Some(edge) => {
            let sides = split(line, &edge);
            let mut i: usize = 0;
            while i < sides.len()
                invariant
                    i <= sides.len(),
                    texts(sides@) == pieces(line@, edge@),
                    strings(warnings@) == base + side_warnings(
                        texts(sides@),
                        number as nat,
                        i as nat,
                    ),
                decreases sides.len() - i,
            {
                let id = first_token(&sides[i]);
                assert(texts(sides@)[i as int] == sides@[i as int]@);
                if spaced_id(&id) {
                    let m = node_message(number, &id);
                    proof {
                        assert(strings(warnings@.push(m)) =~= strings(warnings@).push(m@));
                    }
                    warnings.push(m);
                }
                i += 1;
                assert(strings(warnings@) =~= base + side_warnings(
                    texts(sides@),
                    number as nat,
                    i as nat,
                ));
            }
            assert(strings(warnings@) =~= strings(old(warnings)@) + line_warnings(
                line@,
                number as nat,
            ));
        },
        None => {
            assert(strings(warnings@) =~= strings(old(warnings)@) + line_warnings(
                line@,
                number as nat,
            ));
        },
    }
}

/// The report on the lines of a source under a heading, which is the first
/// line trimmed and in lower case.
pub fn assess(heading: &Vec<char>, lines: &Vec<Vec<char>>) -> (r: ValidationResult)
    ensures
        r@ == assessment(heading@, texts(lines@)),
{
    let errors: Vec<String> = Vec::new();
    let mut warnings: Vec<String> = Vec::new();
    if detect_kind(heading).is_none() {
        warnings.push(UNCLEAR_KIND.to_string());
    }
    assert(strings(warnings@) =~= kind_warnings(heading@));
    let mut i: usize = 0;
    while i < lines.len()
        invariant
            i <= lines.len(),
            strings(warnings@) == kind_warnings(heading@) + warnings_upto(
                texts(lines@),
                i as nat,
            ),
        decreases lines.len() - i,
    {
        assert(texts(lines@)[i as int] == lines@[i as int]@);
        check_line(&lines[i], i + 1, &mut warnings);
        i += 1;
        assert(strings(warnings@) =~= kind_warnings(heading@) + warnings_upto(
            texts(lines@),
            i as nat,
        ));
    }
    assert(strings(errors@) =~= Seq::<Seq<char>>::empty());
    ValidationResult { is_valid: errors.is_empty(), errors, warnings }
}

/// Checks the source text of a diagram. The report is always valid and
/// without errors; what the check finds, it reports as warnings, in the order
/// in which it finds them.
pub fn validate(content: &str) -> (r: ValidationResult)
    ensures
        r@ == report_of(content@),
        r.is_valid,
        r.errors@.len() == 0,
{
    let source = chars_of(content);
    let rows = lines(&source);
    if rows.len() == 0 {
        let errors: Vec<String> = Vec::new();
        let mut warnings: Vec<String> = Vec::new();
        warnings.push(EMPTY_DIAGRAM.to_string());
        assert(strings(errors@) =~= Seq::<Seq<char>>::empty());
        assert(strings(warnings@) =~= seq![EMPTY_DIAGRAM@]);
        return ValidationResult { is_valid: true, errors, warnings };
    }
    assert(texts(rows@)[0] == rows@[0]@);
    let heading = lowercase(&trim(&rows[0]));
    assess(&heading, &rows)
}

} // verus!
