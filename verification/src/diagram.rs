//! The kinds of diagram and the keywords that announce them.

use vstd::prelude::*;
use crate::text::{chars_of, starts_with};

verus! {

/// A kind of diagram.
#[derive(Clone, Copy, Debug, PartialEq, Eq, Structural)]
pub enum DiagramKind {
    Graph,
    Flowchart,
    Sequence,
    Class,
    State,
    EntityRelationship,
    Journey,
    Gantt,
    Pie,
    GitGraph,
    MindMap,
    Timeline,
    ZenUml,
    Sankey,
}

impl DiagramKind {
    /// The keyword of the kind, in lower case.
    pub open spec fn keyword_of(self) -> Seq<char> {
        match self {
            DiagramKind::Graph => "graph"@,
            DiagramKind::Flowchart => "flowchart"@,
            DiagramKind::Sequence => "sequencediagram"@,
            DiagramKind::Class => "classdiagram"@,
            DiagramKind::State => "statediagram"@,
            DiagramKind::EntityRelationship => "erdiagram"@,
            DiagramKind::Journey => "journey"@,
            DiagramKind::Gantt => "gantt"@,
            DiagramKind::Pie => "pie"@,
            DiagramKind::GitGraph => "gitgraph"@,
            DiagramKind::MindMap => "mindmap"@,
            DiagramKind::Timeline => "timeline"@,
            DiagramKind::ZenUml => "zenuml"@,
            DiagramKind::Sankey => "sankey"@,
        }
    }

    /// The heading announces this kind: it starts with the kind's keyword.
    /// A heading that is the keyword, or the keyword and a colon and more,
    /// does so too.
    pub open spec fn announced_by(self, heading: Seq<char>) -> bool {
        self.keyword_of().is_prefix_of(heading)
    }

    /// The keyword of the kind, in lower case.
    pub fn keyword(self) -> (k: &'static str)
        ensures
            k@ == self.keyword_of(),
    {
        match self {
            DiagramKind::Graph => "graph",
            DiagramKind::Flowchart => "flowchart",
            DiagramKind::Sequence => "sequencediagram",
            DiagramKind::Class => "classdiagram",
            DiagramKind::State => "statediagram",
            DiagramKind::EntityRelationship => "erdiagram",
            DiagramKind::Journey => "journey",
            DiagramKind::Gantt => "gantt",
            DiagramKind::Pie => "pie",
            DiagramKind::GitGraph => "gitgraph",
            DiagramKind::MindMap => "mindmap",
            DiagramKind::Timeline => "timeline",
            DiagramKind::ZenUml => "zenuml",
            DiagramKind::Sankey => "sankey",
        }
    }
}

/// Every kind, in the order in which a heading is held against them.
pub open spec fn registry() -> Seq<DiagramKind> {
    seq![
        DiagramKind::Graph,
        DiagramKind::Flowchart,
        DiagramKind::Sequence,
        DiagramKind::Class,
        DiagramKind::State,
        DiagramKind::EntityRelationship,
        DiagramKind::Journey,
        DiagramKind::Gantt,
        DiagramKind::Pie,
        DiagramKind::GitGraph,
        DiagramKind::MindMap,
        DiagramKind::Timeline,
        DiagramKind::ZenUml,
        DiagramKind::Sankey,
    ]
}

/// The first of the first `n` kinds of `kinds` that `heading` announces.
pub open spec fn kind_among(heading: Seq<char>, kinds: Seq<DiagramKind>, n: nat) -> Option<
    DiagramKind,
>
    decreases n,
{
    if n == 0 || n > kinds.len() {
        None
    } else if kind_among(heading, kinds, (n - 1) as nat) is Some {
        kind_among(heading, kinds, (n - 1) as nat)
    } else if kinds[n - 1].announced_by(heading) {
        Some(kinds[n - 1])
    } else {
        None
    }
}

/// The kind that `heading` announces: the first in the registry whose keyword
/// it starts with. The heading is taken as it is, so a caller that wants
/// letter case ignored hands it over in lower case.
pub open spec fn kind_of(heading: Seq<char>) -> Option<DiagramKind> {
    kind_among(heading, registry(), registry().len())
}

/// `kind_among` finds a kind exactly when one of the first `n` is announced,
/// and the kind it finds is announced.
pub proof fn lemma_kind_among(heading: Seq<char>, kinds: Seq<DiagramKind>, n: nat)
    requires
        n <= kinds.len(),
    ensures
        kind_among(heading, kinds, n) is Some <==> exists|i: int|
            0 <= i < n && (#[trigger] kinds[i]).announced_by(heading),
        kind_among(heading, kinds, n) is Some ==> kind_among(heading, kinds, n)->0.announced_by(
            heading,
        ),
    decreases n,
{
    if n > 0 {
        lemma_kind_among(heading, kinds, (n - 1) as nat);
        if kind_among(heading, kinds, (n - 1) as nat) is Some {
            let i = choose|i: int| 0 <= i < n - 1 && (#[trigger] kinds[i]).announced_by(heading);
            assert(0 <= i < n && kinds[i].announced_by(heading));
        } else if kinds[n - 1].announced_by(heading) {
        } else {
            assert forall|i: int| 0 <= i < n implies !(#[trigger] kinds[i]).announced_by(
                heading,
            ) by {
                if i < n - 1 {
                }
            }
        }
    }
}

/// The registry holds every kind.
pub proof fn lemma_registry_is_complete(kind: DiagramKind)
    ensures
        registry().contains(kind),
{
    let r = registry();
    match kind {
        DiagramKind::Graph => assert(r[0] == kind),
        DiagramKind::Flowchart => assert(r[1] == kind),
        DiagramKind::Sequence => assert(r[2] == kind),
        DiagramKind::Class => assert(r[3] == kind),
        DiagramKind::State => assert(r[4] == kind),
        DiagramKind::EntityRelationship => assert(r[5] == kind),
        DiagramKind::Journey => assert(r[6] == kind),
        DiagramKind::Gantt => assert(r[7] == kind),
        DiagramKind::Pie => assert(r[8] == kind),
        DiagramKind::GitGraph => assert(r[9] == kind),
        DiagramKind::MindMap => assert(r[10] == kind),
        DiagramKind::Timeline => assert(r[11] == kind),
        DiagramKind::ZenUml => assert(r[12] == kind),
        DiagramKind::Sankey => assert(r[13] == kind),
    }
}

/// A heading has a kind exactly when it starts with the keyword of some kind,
/// and it starts with the keyword of the kind it has.
pub proof fn lemma_kind_of(heading: Seq<char>)
    ensures
        kind_of(heading) is Some <==> exists|kind: DiagramKind| kind.announced_by(heading),
        kind_of(heading) is Some ==> kind_of(heading)->0.announced_by(heading),
{
    let r = registry();
    lemma_kind_among(heading, r, r.len());
    if exists|kind: DiagramKind| kind.announced_by(heading) {
        let kind = choose|kind: DiagramKind| kind.announced_by(heading);
        lemma_registry_is_complete(kind);
        let i = choose|i: int| 0 <= i < r.len() && r[i] == kind;
        assert(r[i].announced_by(heading));
    }
    if kind_of(heading) is Some {
        let i = choose|i: int| 0 <= i < r.len() && (#[trigger] r[i]).announced_by(heading);
        assert(r[i].announced_by(heading));
    }
}

/// A heading that is a keyword, or a keyword followed by a colon and
/// anything, announces that keyword's kind.
pub proof fn lemma_announcing_forms(kind: DiagramKind, rest: Seq<char>)
    ensures
        kind.announced_by(kind.keyword_of()),
        kind.announced_by(kind.keyword_of() + seq![':'] + rest),
{
    let k = kind.keyword_of();
    assert(k.subrange(0, k.len() as int) =~= k);
    assert((k + seq![':'] + rest).subrange(0, k.len() as int) =~= k);
}

/// Every kind, in the order of the registry.
pub fn all_kinds() -> (r: Vec<DiagramKind>)
    ensures
        r@ == registry(),
{
    let mut r: Vec<DiagramKind> = Vec::new();
    r.push(DiagramKind::Graph);
    r.push(DiagramKind::Flowchart);
    r.push(DiagramKind::Sequence);
    r.push(DiagramKind::Class);
    r.push(DiagramKind::State);
    r.push(DiagramKind::EntityRelationship);
    r.push(DiagramKind::Journey);
    r.push(DiagramKind::Gantt);
    r.push(DiagramKind::Pie);
    r.push(DiagramKind::GitGraph);
    r.push(DiagramKind::MindMap);
    r.push(DiagramKind::Timeline);
    r.push(DiagramKind::ZenUml);
    r.push(DiagramKind::Sankey);
    assert(r@ =~= registry());
    r
}

/// The kind that `heading` announces, if any.
pub fn detect_kind(heading: &Vec<char>) -> (r: Option<DiagramKind>)
    ensures
        r == kind_of(heading@),
{
    let kinds = all_kinds();
    let mut i: usize = 0;
    while i < kinds.len()
        invariant
            i <= kinds.len(),
            kinds@ == registry(),
            kind_among(heading@, kinds@, i as nat) is None,
        decreases kinds.len() - i,
    {
        let kind = kinds[i];
        let word = chars_of(kind.keyword());
        if starts_with(heading, &word) {
            proof {
                lemma_found_stays(heading@, kinds@, (i + 1) as nat, kinds@.len());
            }
            return Some(kind);
        }
        i += 1;
    }
    None
}

/// What is found among the first `n` kinds is found among the first `m` too.
proof fn lemma_found_stays(heading: Seq<char>, kinds: Seq<DiagramKind>, n: nat, m: nat)
    requires
        n <= m <= kinds.len(),
        kind_among(heading, kinds, n) is Some,
    ensures
        kind_among(heading, kinds, m) == kind_among(heading, kinds, n),
    decreases m,
{
    if n < m {
        lemma_found_stays(heading, kinds, n, (m - 1) as nat);
    }
}

} // verus!
