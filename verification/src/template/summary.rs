//! The changes of a project grouped for display.
use vstd::prelude::*;

use crate::lines;
use crate::number;
use crate::template::{Change, ChangeView};
use crate::text;

verus! {

/// Actionable changes grouped for display.
#[derive(Debug, Clone, PartialEq, Eq)]
pub struct Summary {
    /// Applicable without asking: the template changed, the project did not.
    pub safe: Vec<String>,
    /// Changed on both sides.
    pub conflicts: Vec<String>,
    /// Differs from the template with no recorded base to judge it against.
    pub unknown: Vec<String>,
    /// Dropped from the template; never removed automatically.
    pub removed: Vec<String>,
    /// Keys the template's `.env-dist` has that the project's `.env` lacks.
    pub env_keys: Vec<String>,
    /// Entries the template's `.gitignore-dist` has that `.gitignore` lacks.
    pub gitignore_entries: Vec<String>,
}

/// A summary, with its strings as sequences of characters.
pub ghost struct SummaryView {
    pub safe: Seq<Seq<char>>,
    pub conflicts: Seq<Seq<char>>,
    pub unknown: Seq<Seq<char>>,
    pub removed: Seq<Seq<char>>,
    pub env_keys: Seq<Seq<char>>,
    pub gitignore_entries: Seq<Seq<char>>,
}

impl View for Summary {
    type V = SummaryView;

    open spec fn view(&self) -> SummaryView {
        SummaryView {
            safe: text::texts(self.safe@),
            conflicts: text::texts(self.conflicts@),
            unknown: text::texts(self.unknown@),
            removed: text::texts(self.removed@),
            env_keys: text::texts(self.env_keys@),
            gitignore_entries: text::texts(self.gitignore_entries@),
        }
    }
}

/// A summary with one more change.
pub open spec fn with_change(s: SummaryView, c: ChangeView) -> SummaryView {
    match c {
        ChangeView::SafeUpdate(p) => SummaryView { safe: s.safe.push(p), ..s },
        ChangeView::SafeAdd(p) => SummaryView { safe: s.safe.push(p), ..s },
        ChangeView::Conflict(p) => SummaryView { conflicts: s.conflicts.push(p), ..s },
        ChangeView::Unknown(p) => SummaryView { unknown: s.unknown.push(p), ..s },
        ChangeView::RemovedUpstream(p) => SummaryView { removed: s.removed.push(p), ..s },
        ChangeView::EnvKeys(k) => SummaryView { env_keys: k, ..s },
        ChangeView::GitignoreEntries(k) => SummaryView { gitignore_entries: k, ..s },
        ChangeView::AlreadyApplied(_) => s,
    }
}

/// The summary of some changes.
pub open spec fn summarized(changes: Seq<ChangeView>) -> SummaryView
    decreases changes.len(),
{
    if changes.len() == 0 {
        SummaryView {
            safe: Seq::empty(),
            conflicts: Seq::empty(),
            unknown: Seq::empty(),
            removed: Seq::empty(),
            env_keys: Seq::empty(),
            gitignore_entries: Seq::empty(),
        }
    } else {
        with_change(summarized(changes.drop_last()), changes.last())
    }
}

impl SummaryView {
    /// Whether there is nothing to show.
    pub open spec fn is_empty(self) -> bool {
        &&& self.safe.len() == 0
        &&& self.conflicts.len() == 0
        &&& self.unknown.len() == 0
        &&& self.removed.len() == 0
        &&& self.env_keys.len() == 0
        &&& self.gitignore_entries.len() == 0
    }

    /// The lines that describe the summary. Files without a recorded base are left out of the
    /// passive notice.
    pub open spec fn printed(self, notice: bool) -> Seq<Seq<char>> {
        shown(counted(self.safe, " file(s) can be updated safely"@), self.safe) + shown(
            counted(self.conflicts, " file(s) you modified also changed upstream"@),
            self.conflicts,
        ) + (if notice {
            Seq::empty()
        } else {
            shown(
                counted(self.unknown, " file(s) differ with no recorded base (review manually)"@),
                self.unknown,
            )
        }) + shown(counted(self.removed, " file(s) no longer in the template"@), self.removed)
            + shown(".env is missing template keys"@, self.env_keys) + shown(
            ".gitignore is missing template entries"@,
            self.gitignore_entries,
        )
    }
}

/// A label that begins with the length of a list.
pub open spec fn counted(list: Seq<Seq<char>>, label: Seq<char>) -> Seq<char> {
    number::decimal(list.len()) + label
}

/// The line for a list: none where it is empty.
pub open spec fn shown(label: Seq<char>, list: Seq<Seq<char>>) -> Seq<Seq<char>> {
    if list.len() == 0 {
        Seq::empty()
    } else {
        seq!["    "@ + label + ": "@ + lines::joined(list, ", "@)]
    }
}

fn push_shown(label: &str, list: &Vec<String>, out: &mut Vec<String>)
    ensures
        text::texts(final(out)@) == text::texts(old(out)@) + shown(label@, text::texts(list@)),
{
    let ghost before = text::texts(out@);
    if list.len() > 0 {
        let mut line = text::owned("    ");
        line.append(label);
        line.append(": ");
        line.append(lines::join(list, ", ").as_str());
        out.push(line);
        assert(text::texts(out@) =~= before.push(line@));
    }
    assert(text::texts(out@) =~= before + shown(label@, text::texts(list@)));
}

fn count_label(list: &Vec<String>, label: &str) -> (r: String)
    ensures
        r@ == counted(text::texts(list@), label@),
{
    let mut r = number::to_decimal(list.len() as u64);
    r.append(label);
    r
}

impl Default for Summary {
    fn default() -> (r: Summary)
        ensures
            r@.is_empty(),
    {
        Summary {
            safe: Vec::new(),
            conflicts: Vec::new(),
            unknown: Vec::new(),
            removed: Vec::new(),
            env_keys: Vec::new(),
            gitignore_entries: Vec::new(),
        }
    }
}

impl Summary {
    /// Groups changes by what they ask of the user.
    pub fn from_changes(changes: &Vec<Change>) -> (r: Summary)
        ensures
            r@ == summarized(crate::template::changes_view(changes@)),
    {
        let ghost all = crate::template::changes_view(changes@);
        let mut safe: Vec<String> = Vec::new();
        let mut conflicts: Vec<String> = Vec::new();
        let mut unknown: Vec<String> = Vec::new();
        let mut removed: Vec<String> = Vec::new();
        let mut env_keys: Vec<String> = Vec::new();
        let mut gitignore_entries: Vec<String> = Vec::new();
        let mut i: usize = 0;
        proof {
            let v = summarized(all.take(0));
            assert(text::texts(safe@) =~= v.safe);
            assert(text::texts(conflicts@) =~= v.conflicts);
            assert(text::texts(unknown@) =~= v.unknown);
            assert(text::texts(removed@) =~= v.removed);
            assert(text::texts(env_keys@) =~= v.env_keys);
            assert(text::texts(gitignore_entries@) =~= v.gitignore_entries);
        }
        while i < changes.len()
            invariant
                i <= changes@.len(),
                all == crate::template::changes_view(changes@),
                text::texts(safe@) == summarized(all.take(i as int)).safe,
                text::texts(conflicts@) == summarized(all.take(i as int)).conflicts,
                text::texts(unknown@) == summarized(all.take(i as int)).unknown,
                text::texts(removed@) == summarized(all.take(i as int)).removed,
                text::texts(env_keys@) == summarized(all.take(i as int)).env_keys,
                text::texts(gitignore_entries@) == summarized(
                    all.take(i as int),
                ).gitignore_entries,
            decreases changes@.len() - i,
        {
            proof {
                assert(all.take(i + 1).drop_last() =~= all.take(i as int));
                assert(all.take(i + 1).last() == changes@[i as int]@);
            }
            let ghost s0 = text::texts(safe@);
            let ghost c0 = text::texts(conflicts@);
            let ghost u0 = text::texts(unknown@);
            let ghost r0 = text::texts(removed@);
            match &changes[i] {
                Change::SafeUpdate(p) => {
                    safe.push(p.clone());
                    assert(text::texts(safe@) =~= s0.push(p@));
                },
                Change::SafeAdd(p) => {
                    safe.push(p.clone());
                    assert(text::texts(safe@) =~= s0.push(p@));
                },
                Change::Conflict(p) => {
                    conflicts.push(p.clone());
                    assert(text::texts(conflicts@) =~= c0.push(p@));
                },
                Change::Unknown(p) => {
                    unknown.push(p.clone());
                    assert(text::texts(unknown@) =~= u0.push(p@));
                },
                Change::RemovedUpstream(p) => {
                    removed.push(p.clone());
                    assert(text::texts(removed@) =~= r0.push(p@));
                },
                Change::EnvKeys(keys) => {
                    env_keys = text::copy_texts(keys);
                },
                Change::GitignoreEntries(entries) => {
                    gitignore_entries = text::copy_texts(entries);
                },
                Change::AlreadyApplied(_) => {},
            }
            i += 1;
        }
        assert(all.take(i as int) =~= all);
        Summary { safe, conflicts, unknown, removed, env_keys, gitignore_entries }
    }

    /// Whether there is nothing to show.
    pub fn is_empty(&self) -> (r: bool)
        ensures
            r == self@.is_empty(),
    {
        self.safe.len() == 0 && self.conflicts.len() == 0 && self.unknown.len() == 0
            && self.removed.len() == 0 && self.env_keys.len() == 0
            && self.gitignore_entries.len() == 0
    }

    /// The lines of the grouped summary. `unknown` is not part of the passive notice: nothing
    /// but an update could clear it, so it would be a warning that never goes away.
    pub fn print(&self, notice: bool) -> (r: Vec<String>)
        ensures
            text::texts(r@) == self@.printed(notice),
    {
        let mut out: Vec<String> = Vec::new();
        assert(text::texts(out@) =~= Seq::empty());
        push_shown(
            count_label(&self.safe, " file(s) can be updated safely").as_str(),
            &self.safe,
            &mut out,
        );
        push_shown(
            count_label(&self.conflicts, " file(s) you modified also changed upstream").as_str(),
            &self.conflicts,
            &mut out,
        );
        if !notice {
            push_shown(
                count_label(
                    &self.unknown,
                    " file(s) differ with no recorded base (review manually)",
                ).as_str(),
                &self.unknown,
                &mut out,
            );
        }
        push_shown(
            count_label(&self.removed, " file(s) no longer in the template").as_str(),
            &self.removed,
            &mut out,
        );
        push_shown(".env is missing template keys", &self.env_keys, &mut out);
        push_shown(
            ".gitignore is missing template entries",
            &self.gitignore_entries,
            &mut out,
        );
        assert(text::texts(out@) =~= self@.printed(notice));
        out
    }
}

} // verus!
