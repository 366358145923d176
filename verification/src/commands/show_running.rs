//! The projects whose containers there are.
use vstd::prelude::*;

use crate::order;
use crate::text;
use crate::text::push_text;

verus! {

/// What the labels of a container say of its project.
#[derive(Debug, Clone, PartialEq, Eq)]
pub struct ProjectLabels {
    pub project: Option<String>,
    /// By the label of the tool.
    pub plugin_dir: Option<String>,
    /// By the label of Docker Compose.
    pub compose_dir: Option<String>,
}

/// An optional text; empty where there is none.
pub open spec fn or_empty(s: Option<String>) -> Seq<char> {
    match s {
        Some(t) => t@,
        None => Seq::empty(),
    }
}

/// The row of a container: its project and the directory, where the label of the tool counts
/// first.
pub open spec fn row(l: ProjectLabels) -> Seq<char> {
    or_empty(l.project) + " "@ + (match l.plugin_dir {
        Some(d) => d@,
        None => or_empty(l.compose_dir),
    })
}

/// The rows of some containers.
pub open spec fn rows(v: Seq<ProjectLabels>) -> Seq<Seq<char>> {
    v.map_values(|l: ProjectLabels| row(l))
}

fn text_or_empty(s: &Option<String>) -> (r: String)
    ensures
        r@ == or_empty(*s),
{
    match s {
        Some(t) => text::owned(t.as_str()),
        None => {
            let none = text::owned("");
            proof {
                reveal_strlit("");
                assert(none@ =~= Seq::empty());
            }
            none
        },
    }
}

/// The projects of some containers, in order, each once.
pub fn execute(containers: &Vec<ProjectLabels>) -> (r: Vec<String>)
    ensures
        text::texts(r@) == order::deduped(order::in_order(rows(containers@))),
        order::ascending(text::texts(r@)),
{
    let ghost all = rows(containers@);
    let mut found = text::no_texts();
    let mut i: usize = 0;
    assert(all.take(0) =~= Seq::empty());
    while i < containers.len()
        invariant
            i <= containers@.len(),
            all == rows(containers@),
            text::texts(found@) == all.take(i as int),
        decreases containers@.len() - i,
    {
        let mut line = text_or_empty(&containers[i].project);
        line.append(" ");
        let dir = match &containers[i].plugin_dir {
            Some(d) => text::owned(d.as_str()),
            None => text_or_empty(&containers[i].compose_dir),
        };
        line.append(dir.as_str());
        push_text(&mut found, line.as_str());
        assert(all.take(i + 1) =~= all.take(i as int).push(all[i as int]));
        i += 1;
    }
    assert(all.take(i as int) =~= all);
    proof {
        order::in_order_sorts(all);
        order::dedup_of_sorted(order::in_order(all));
    }
    let sorted = order::sort(&found);
    order::dedup(&sorted)
}

} // verus!
