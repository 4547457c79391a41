//! Command palette: the commands it offers and which of them a query matches.
use vstd::prelude::*;

use crate::state::Screen;
use crate::text::{contains, spec_contains, spec_lowercase, spec_trim, std_to_lowercase, trim};

verus! {

/// A single palette command. Every command navigates to a page.
#[derive(Debug, Clone, Copy)]
pub struct Command {
    pub label: &'static str,
    pub target: Screen,
}

/// The palette's commands, in catalog order.
pub open spec fn spec_commands() -> Seq<Command> {
    seq![
        Command { label: "Go to Search", target: Screen::Search },
        Command { label: "Go to Settings", target: Screen::Settings },
    ]
}

/// All palette commands, in catalog order.
pub fn commands() -> (r: Vec<Command>)
    ensures
        r@ == spec_commands(),
{
    let r = vec![
        Command { label: "Go to Search", target: Screen::Search },
        Command { label: "Go to Settings", target: Screen::Settings },
    ];
    assert(r@ =~= spec_commands());
    r
}

/// The command's label matches the normalized query `q`: `q` is empty or
/// occurs in the lowercased label.
pub open spec fn spec_command_matches(q: Seq<char>, c: Command) -> bool {
    q.len() == 0 || spec_contains(spec_lowercase(c.label@), q)
}

/// The commands of `cmds` that match `q`, in order.
pub open spec fn spec_matching(cmds: Seq<Command>, q: Seq<char>) -> Seq<Command>
    decreases cmds.len(),
{
    if cmds.len() == 0 {
        Seq::empty()
    } else {
        let rest = spec_matching(cmds.drop_last(), q);
        if spec_command_matches(q, cmds.last()) {
            rest.push(cmds.last())
        } else {
            rest
        }
    }
}

/// Commands matching the (case-insensitive substring) query, in catalog
/// order.
pub fn matches(query: &str) -> (r: Vec<Command>)
    ensures
        r@ == spec_matching(spec_commands(), spec_lowercase(spec_trim(query@))),
{
    let q = std_to_lowercase(trim(query));
    let all = commands();
    let mut r: Vec<Command> = Vec::new();
    let mut i: usize = 0;
    while i < all.len()
        invariant
            all@ == spec_commands(),
            q@ == spec_lowercase(spec_trim(query@)),
            i <= all.len(),
            r@ == spec_matching(all@.take(i as int), q@),
        decreases all.len() - i,
    {
        assert(all@.take(i + 1).drop_last() =~= all@.take(i as int));
        let c = all[i];
        if q.as_str().is_empty() || contains(std_to_lowercase(c.label).as_str(), q.as_str()) {
            r.push(c);
        }
        i = i + 1;
    }
    assert(all@.take(all.len() as int) =~= all@);
    r
}

/// An empty query matches every command, in catalog order.
pub proof fn law_empty_query_matches_all(cmds: Seq<Command>)
    ensures
        spec_matching(cmds, Seq::empty()) == cmds,
    decreases cmds.len(),
{
    if cmds.len() > 0 {
        law_empty_query_matches_all(cmds.drop_last());
        assert(cmds.drop_last().push(cmds.last()) =~= cmds);
    }
}

/// Where `b` occurs in `a` and `c` in `b`, `c` occurs in `a`.
proof fn lemma_contains_transitive(a: Seq<char>, b: Seq<char>, c: Seq<char>)
    requires
        spec_contains(a, b),
        spec_contains(b, c),
    ensures
        spec_contains(a, c),
{
    let i = choose|i: int| 0 <= i <= a.len() - b.len() && #[trigger] a.subrange(i, i + b.len()) == b;
    let j = choose|j: int| 0 <= j <= b.len() - c.len() && #[trigger] b.subrange(j, j + c.len()) == c;
    assert(a.subrange(i + j, i + j + c.len()) =~= c);
}

/// A longer query narrows the palette: where the normalized query `q1` occurs
/// in the normalized query `q2`, the commands matching `q2` are exactly those
/// among the commands matching `q1` that match `q2`, in the same order; so
/// they are a subsequence of the commands matching `q1`.
pub proof fn law_longer_query_narrows(cmds: Seq<Command>, q1: Seq<char>, q2: Seq<char>)
    requires
        spec_contains(q2, q1),
    ensures
        spec_matching(spec_matching(cmds, q1), q2) == spec_matching(cmds, q2),
    decreases cmds.len(),
{
    if cmds.len() > 0 {
        law_longer_query_narrows(cmds.drop_last(), q1, q2);
        let c = cmds.last();
        let r1 = spec_matching(cmds.drop_last(), q1);
        if spec_command_matches(q2, c) {
            if q2.len() > 0 {
                lemma_contains_transitive(spec_lowercase(c.label@), q2, q1);
            }
        }
        if spec_command_matches(q1, c) {
            assert(r1.push(c).drop_last() =~= r1);
            assert(r1.push(c).last() == c);
        }
    }
}

} // verus!
