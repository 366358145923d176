//! Removing old backups.
use vstd::prelude::*;

use crate::number;
use crate::order;
use crate::order::Ordered;
use crate::text;
use crate::ui;
use crate::ui::{Level, Message};

verus! {

/// A directory with a backup, and the second in which it was made.
#[derive(Debug, Clone, PartialEq, Eq)]
pub struct Backup {
    pub name: String,
    pub timestamp: u64,
}

impl Ordered for Backup {
    /// The newest comes first.
    open spec fn precedes(&self, other: &Self) -> bool {
        self.timestamp > other.timestamp
    }

    fn comes_before(&self, other: &Self) -> (r: bool) {
        self.timestamp > other.timestamp
    }
}

/// The views of some backups.
pub open spec fn backups(v: Seq<Backup>) -> Seq<(Seq<char>, u64)> {
    v.map_values(|b: Backup| (b.name@, b.timestamp))
}

/// When the backup in a directory of this name was made.
pub open spec fn made_at(name: Seq<char>) -> Option<nat> {
    if "backup_"@.is_prefix_of(name) {
        number::unsigned_up_to(name.skip("backup_"@.len() as int), 18446744073709551615)
    } else {
        None
    }
}

/// The backups among some directories.
pub open spec fn found(names: Seq<Seq<char>>) -> Seq<(Seq<char>, u64)>
    decreases names.len(),
{
    if names.len() == 0 {
        Seq::empty()
    } else {
        let rest = found(names.drop_last());
        match made_at(names.last()) {
            Some(t) => rest.push((names.last(), t as u64)),
            None => rest,
        }
    }
}

fn put(out: &mut Vec<Backup>, name: &str, timestamp: u64)
    ensures
        backups(final(out)@) == backups(old(out)@).push((name@, timestamp)),
{
    let ghost before = backups(out@);
    out.push(Backup { name: text::owned(name), timestamp });
    assert(backups(out@) =~= before.push((name@, timestamp)));
}

/// The backups among the directories of a project: those that are called by a moment.
pub fn find_backups(dirs: &Vec<String>) -> (r: Vec<Backup>)
    ensures
        backups(r@) == found(text::texts(dirs@)),
{
    let ghost all = text::texts(dirs@);
    let mut r: Vec<Backup> = Vec::new();
    let mut i: usize = 0;
    assert(all.take(0) =~= Seq::empty());
    assert(backups(r@) =~= Seq::empty());
    while i < dirs.len()
        invariant
            i <= dirs@.len(),
            all == text::texts(dirs@),
            backups(r@) == found(all.take(i as int)),
        decreases dirs@.len() - i,
    {
        assert(all.take(i + 1).drop_last() =~= all.take(i as int));
        assert(all.take(i + 1).last() == dirs@[i as int]@);
        if let Some(s) = text::strip_prefix(dirs[i].as_str(), "backup_") {
            if let Some(t) = number::parse_up_to(s.as_str(), 18446744073709551615) {
                put(&mut r, dirs[i].as_str(), t);
            }
        }
        i += 1;
    }
    assert(all.take(i as int) =~= all);
    r
}

/// Some backups with one more put in behind all that are not older.
pub open spec fn put_by_age(v: Seq<(Seq<char>, u64)>, x: (Seq<char>, u64)) -> Seq<(Seq<char>, u64)>
    decreases v.len(),
{
    if v.len() > 0 && x.1 > v.last().1 {
        put_by_age(v.drop_last(), x).push(v.last())
    } else {
        v.push(x)
    }
}

/// Some backups, the newest first.
pub open spec fn newest_first(v: Seq<(Seq<char>, u64)>) -> Seq<(Seq<char>, u64)>
    decreases v.len(),
{
    if v.len() == 0 {
        v
    } else {
        put_by_age(newest_first(v.drop_last()), v.last())
    }
}

proof fn lemma_put_by_age(v: Seq<Backup>, x: Backup)
    ensures
        backups(order::put_in(v, x)) == put_by_age(backups(v), (x.name@, x.timestamp)),
    decreases v.len(),
{
    let b = backups(v);
    if v.len() > 0 && x.precedes(&v.last()) {
        assert(b.drop_last() =~= backups(v.drop_last()));
        lemma_put_by_age(v.drop_last(), x);
    }
    assert(backups(order::put_in(v, x)) =~= put_by_age(b, (x.name@, x.timestamp)));
}

proof fn lemma_newest_first(v: Seq<Backup>)
    ensures
        backups(order::arranged(v)) == newest_first(backups(v)),
    decreases v.len(),
{
    let b = backups(v);
    if v.len() > 0 {
        assert(b.drop_last() =~= backups(v.drop_last()));
        lemma_newest_first(v.drop_last());
        lemma_put_by_age(order::arranged(v.drop_last()), v.last());
    } else {
        assert(backups(order::arranged(v)) =~= newest_first(b));
    }
}

/// The backups of before a moment.
pub open spec fn before(v: Seq<(Seq<char>, u64)>, cutoff: int) -> Seq<(Seq<char>, u64)>
    decreases v.len(),
{
    if v.len() == 0 {
        Seq::empty()
    } else {
        let rest = before(v.drop_last(), cutoff);
        if v.last().1 < cutoff {
            rest.push(v.last())
        } else {
            rest
        }
    }
}

/// The moment that lies some days back; the beginning of time where that is later.
pub open spec fn days_ago(now: u64, days: u64) -> int {
    if now > days * 86400 {
        now - days * 86400
    } else {
        0
    }
}

/// The backups that are removed: those older than some days, or those behind the first few.
pub open spec fn selected(
    v: Seq<(Seq<char>, u64)>,
    keep: Option<usize>,
    older_than_days: Option<u64>,
    now: u64,
) -> Seq<(Seq<char>, u64)> {
    match older_than_days {
        Some(d) => before(v, days_ago(now, d)),
        None => {
            let k: int = match keep {
                Some(k) => k as int,
                None => 5,
            };
            if k < v.len() {
                v.skip(k)
            } else {
                Seq::empty()
            }
        },
    }
}

/// The backups of a list, the newest first, that are removed: those older than some days where
/// days are given, or else those behind the newest few.
pub fn select_candidates(
    all: &Vec<Backup>,
    keep: Option<usize>,
    older_than_days: Option<u64>,
    now: u64,
) -> (r: Vec<Backup>)
    requires
        older_than_days matches Some(d) ==> d * 86400 <= u64::MAX,
    ensures
        backups(r@) == selected(backups(all@), keep, older_than_days, now),
{
    let ghost seqs = backups(all@);
    let mut r: Vec<Backup> = Vec::new();
    assert(backups(r@) =~= Seq::empty());
    match older_than_days {
        Some(d) => {
            let span: u64 = d * 86400;
            let cutoff: u64 = if now > span {
                now - span
            } else {
                0
            };
            let mut i: usize = 0;
            assert(seqs.take(0) =~= Seq::empty());
            while i < all.len()
                invariant
                    i <= all@.len(),
                    seqs == backups(all@),
                    backups(r@) == before(seqs.take(i as int), cutoff as int),
                decreases all@.len() - i,
            {
                assert(seqs.take(i + 1).drop_last() =~= seqs.take(i as int));
                assert(seqs.take(i + 1).last() == seqs[i as int]);
                if all[i].timestamp < cutoff {
                    put(&mut r, all[i].name.as_str(), all[i].timestamp);
                }
                i += 1;
            }
            assert(seqs.take(i as int) =~= seqs);
        },
        None => {
            let k: usize = match keep {
                Some(k) => k,
                None => 5,
            };
            let mut i: usize = k;
            while i < all.len()
                invariant
                    k <= i,
                    i <= all@.len() || i == k,
                    seqs == backups(all@),
                    i <= all@.len() ==> backups(r@) == seqs.subrange(k as int, i as int),
                    i > all@.len() ==> r@.len() == 0,
                decreases all@.len() - i,
            {
                put(&mut r, all[i].name.as_str(), all[i].timestamp);
                assert(seqs.subrange(k as int, i + 1) =~= seqs.subrange(k as int, i as int).push(
                    seqs[i as int],
                ));
                i += 1;
            }
            if k <= all.len() {
                assert(seqs.subrange(k as int, i as int) =~= seqs.skip(k as int));
                assert(k == all@.len() ==> seqs.skip(k as int) =~= Seq::empty());
            } else {
                assert(backups(r@) =~= Seq::empty());
            }
        },
    }
    r
}

/// What the command does with the backups of a project.
#[derive(Debug, Clone, PartialEq, Eq)]
pub enum Cleanup {
    /// There is nothing to do; this is told.
    Nothing(String),
    /// These would be removed.
    WouldRemove(Vec<Backup>),
    /// These are removed once the user agrees, or at once where no question is put.
    Remove { candidates: Vec<Backup>, ask: bool },
}

/// The backups that the command removes, of some with the newest first.
pub open spec fn candidates(
    v: Seq<(Seq<char>, u64)>,
    keep: Option<usize>,
    older_than_days: Option<u64>,
    all: bool,
    now: u64,
) -> Seq<(Seq<char>, u64)> {
    if all {
        v
    } else {
        selected(v, keep, older_than_days, now)
    }
}

/// Decides about the backups of a project, by the names of its directories.
pub fn execute(
    dirs: &Vec<String>,
    keep: Option<usize>,
    older_than_days: Option<u64>,
    all: bool,
    yes: bool,
    dry_run: bool,
    now: u64,
) -> (r: Cleanup)
    requires
        older_than_days matches Some(d) ==> d * 86400 <= u64::MAX,
    ensures
        ({
            let v = found(text::texts(dirs@));
            let c = candidates(newest_first(v), keep, older_than_days, all, now);
            if v.len() == 0 {
                r matches Cleanup::Nothing(m) && m@ == "No backup folders found."@
            } else if c.len() == 0 {
                r matches Cleanup::Nothing(m) && m@ == "Nothing to clean up."@
            } else if dry_run {
                r matches Cleanup::WouldRemove(b) && backups(b@) == c
            } else {
                r matches Cleanup::Remove { candidates: b, ask } && backups(b@) == c && ask == !yes
            }
        }),
{
    let list = find_backups(dirs);
    assert(backups(list@).len() == list@.len());
    if list.len() == 0 {
        return Cleanup::Nothing(text::owned("No backup folders found."));
    }
    proof {
        lemma_newest_first(list@);
    }
    let sorted = order::arrange(list);
    let chosen = if all {
        sorted
    } else {
        select_candidates(&sorted, keep, older_than_days, now)
    };
    assert(backups(chosen@).len() == chosen@.len());
    if chosen.len() == 0 {
        return Cleanup::Nothing(text::owned("Nothing to clean up."));
    }
    if dry_run {
        return Cleanup::WouldRemove(chosen);
    }
    Cleanup::Remove { candidates: chosen, ask: !yes }
}

/// How old something is, in whole days.
pub open spec fn age_days(now: u64, timestamp: u64) -> nat {
    if now > timestamp {
        ((now - timestamp) / 86400) as nat
    } else {
        0
    }
}

/// The lines that show some backups.
pub open spec fn shown(v: Seq<(Seq<char>, u64)>, now: u64) -> Seq<(Level, Seq<char>)> {
    v.map_values(
        |b: (Seq<char>, u64)|
            (
                Level::Info,
                b.0 + " ("@ + number::decimal(age_days(now, b.1)) + " days old)"@,
            ),
    )
}

/// Shows backups with their age.
pub fn show(v: &Vec<Backup>, now: u64) -> (r: Vec<Message>)
    ensures
        ui::said(r@) == shown(backups(v@), now),
{
    let ghost all = shown(backups(v@), now);
    let mut r: Vec<Message> = Vec::new();
    let mut i: usize = 0;
    assert(ui::said(r@) =~= all.take(0));
    while i < v.len()
        invariant
            i <= v@.len(),
            all == shown(backups(v@), now),
            ui::said(r@) == all.take(i as int),
        decreases v@.len() - i,
    {
        let t = v[i].timestamp;
        let age: u64 = if now > t {
            (now - t) / 86400
        } else {
            0
        };
        let mut m = text::owned(v[i].name.as_str());
        m.append(" (");
        m.append(number::to_decimal(age).as_str());
        m.append(" days old)");
        ui::say(&mut r, Level::Info, m);
        assert(all.take(i + 1) =~= all.take(i as int).push(all[i as int]));
        i += 1;
    }
    assert(all.take(i as int) =~= all);
    r
}

/// The question before backups are removed. Its preset answer is no.
pub fn question(count: usize) -> (r: String)
    ensures
        r@ == "Remove "@ + number::decimal(count as nat) + " backup folder(s)?"@,
{
    let mut m = text::owned("Remove ");
    m.append(number::to_decimal(count as u64).as_str());
    m.append(" backup folder(s)?");
    m
}

/// What is told of backups that would be removed.
pub fn would_remove(count: usize) -> (r: String)
    ensures
        r@ == number::decimal(count as nat) + " backup folder(s) would be removed."@,
{
    let mut m = number::to_decimal(count as u64);
    m.append(" backup folder(s) would be removed.");
    m
}

/// What is told of backups that were removed.
pub fn summary(removed: usize, count: usize) -> (r: String)
    ensures
        r@ == "Removed "@ + number::decimal(removed as nat) + " of "@ + number::decimal(
            count as nat,
        ) + " backup folder(s)."@,
{
    let mut m = text::owned("Removed ");
    m.append(number::to_decimal(removed as u64).as_str());
    m.append(" of ");
    m.append(number::to_decimal(count as u64).as_str());
    m.append(" backup folder(s).");
    m
}

// ---------------------------------------------------------------- laws

proof fn lemma_age_put(v: Seq<(Seq<char>, u64)>, x: (Seq<char>, u64))
    requires
        forall|i: int, j: int| 0 <= i < j < v.len() ==> (#[trigger] v[i]).1 >= (#[trigger] v[j]).1,
    ensures
        ({
            let r = put_by_age(v, x);
            &&& r.len() == v.len() + 1
            &&& forall|i: int, j: int|
                0 <= i < j < r.len() ==> (#[trigger] r[i]).1 >= (#[trigger] r[j]).1
            &&& forall|i: int|
                0 <= i < r.len() ==> (#[trigger] r[i]) == x || exists|k: int|
                    0 <= k < v.len() && v[k] == r[i]
        }),
    decreases v.len(),
{
    if v.len() > 0 && x.1 > v.last().1 {
        let w = v.drop_last();
        lemma_age_put(w, x);
        let q = put_by_age(w, x);
        let r = put_by_age(v, x);
        assert forall|i: int| 0 <= i < r.len() implies (#[trigger] r[i]) == x || exists|k: int|
            0 <= k < v.len() && v[k] == r[i] by {
            if i < q.len() {
                if q[i] != x {
                    let k = choose|k: int| 0 <= k < w.len() && w[k] == q[i];
                    assert(v[k] == r[i]);
                }
            } else {
                assert(v[v.len() - 1] == r[i]);
            }
        }
        assert forall|i: int, j: int| 0 <= i < j < r.len() implies (#[trigger] r[i]).1 >= (
        #[trigger] r[j]).1 by {
            if j < q.len() {
                assert(q[i].1 >= q[j].1);
            } else if q[i] != x {
                let k = choose|k: int| 0 <= k < w.len() && w[k] == q[i];
                assert(v[k].1 >= v[v.len() - 1].1);
            }
        }
    } else {
        let r = put_by_age(v, x);
        assert forall|i: int| 0 <= i < r.len() implies (#[trigger] r[i]) == x || exists|k: int|
            0 <= k < v.len() && v[k] == r[i] by {
            if i < v.len() {
                assert(v[i] == r[i]);
            }
        }
        assert forall|i: int, j: int| 0 <= i < j < r.len() implies (#[trigger] r[i]).1 >= (
        #[trigger] r[j]).1 by {
            if j < v.len() {
                assert(v[i].1 >= v[j].1);
            } else if i < v.len() - 1 {
                assert(v[i].1 >= v[v.len() - 1].1);
            }
        }
    }
}

/// Putting backups in order loses none and puts the newest first.
pub proof fn lemma_age_order(v: Seq<(Seq<char>, u64)>)
    ensures
        newest_first(v).len() == v.len(),
        forall|i: int, j: int|
            0 <= i < j < v.len() ==> (#[trigger] newest_first(v)[i]).1 >= (#[trigger] newest_first(
                v,
            )[j]).1,
    decreases v.len(),
{
    if v.len() > 0 {
        lemma_age_order(v.drop_last());
        lemma_age_put(newest_first(v.drop_last()), v.last());
    }
}

/// How many backups are kept by their number.
pub open spec fn kept(keep: Option<usize>) -> int {
    match keep {
        Some(k) => k as int,
        None => 5,
    }
}

/// The backups that are kept by their number are the newest: none of those that are removed is
/// newer than one that is kept, and as many are kept as were asked for.
pub proof fn the_newest_backups_are_kept(
    v: Seq<(Seq<char>, u64)>,
    keep: Option<usize>,
    now: u64,
    i: int,
    j: int,
)
    requires
        0 <= i < kept(keep) <= j < v.len(),
    ensures
        ({
            let all = newest_first(v);
            let gone = candidates(all, keep, None, false, now);
            &&& all.len() == v.len()
            &&& gone.len() == v.len() - kept(keep)
            &&& gone[j - kept(keep)] == all[j]
            &&& all[j].1 <= all[i].1
        }),
{
    lemma_age_order(v);
}

/// Only backups that are older than asked for are removed by their age.
pub proof fn only_old_backups_are_removed(
    v: Seq<(Seq<char>, u64)>,
    keep: Option<usize>,
    days: u64,
    now: u64,
    i: int,
)
    requires
        0 <= i < selected(v, keep, Some(days), now).len(),
    ensures
        selected(v, keep, Some(days), now)[i].1 + days * 86400 < now,
    decreases v.len(),
{
    let c = days_ago(now, days);
    let rest = before(v.drop_last(), c);
    if i < rest.len() {
        only_old_backups_are_removed(v.drop_last(), keep, days, now, i);
    }
}

/// A backup that an update makes is found again, with the moment at which it was made.
pub proof fn a_backup_is_found_again(now: u64)
    ensures
        made_at("backup_"@ + number::decimal(now as nat)) == Some(now as nat),
{
    let name = "backup_"@ + number::decimal(now as nat);
    number::value_of_decimal(now as nat);
    assert(name.take("backup_"@.len() as int) =~= "backup_"@);
    assert(name.skip("backup_"@.len() as int) =~= number::decimal(now as nat));
}

} // verus!
