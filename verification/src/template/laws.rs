//! What holds of the comparison as a whole.
use vstd::prelude::*;

use crate::order;
use crate::table;
use crate::table::Table;
use crate::template;
use crate::template::seeds;
use crate::template::seeds::Seeds;
use crate::template::state;
use crate::template::state::TemplateState;
use crate::template::summary;
use crate::template::{ChangeView, FileView, ProjectFile};
use crate::utils;

verus! {

/// A template file that has not moved since the last sync is silent, whatever was edited
/// locally, as long as the project's copy can be read.
pub proof fn unmoved_file_is_silent(
    base: Map<Seq<char>, Option<String>>,
    theirs: Map<Seq<char>, String>,
    mine: Map<Seq<char>, ProjectFile>,
    p: Seq<char>,
)
    requires
        theirs.dom().contains(p),
        template::recorded(base, p) == Some(theirs[p]@),
        !(template::local(mine, p) is Unreadable),
    ensures
        template::verdict(base, theirs, mine, p) is None,
{
}

/// Per-project files, files of the running project and the consumed seed are never reported.
pub proof fn skipped_files_are_never_reported(
    r: Seq<ChangeView>,
    base: Map<Seq<char>, Option<String>>,
    theirs: Map<Seq<char>, String>,
    mine: Map<Seq<char>, ProjectFile>,
    i: int,
)
    requires
        template::classified(r, base, theirs, mine),
        0 <= i < r.len(),
    ensures
        r[i].path() matches Some(p) && !template::runtime(p) && !template::preserved(p)
            && !template::consumed(p),
{
    let c = r[i];
    assert(c.path() is Some);
}

/// What is called safe never discards local work: a safe update is of a file that still
/// matches the recorded base, a safe addition of one that is not there.
pub proof fn safe_changes_discard_nothing(
    base: Map<Seq<char>, Option<String>>,
    theirs: Map<Seq<char>, String>,
    mine: Map<Seq<char>, ProjectFile>,
    p: Seq<char>,
)
    ensures
        template::verdict(base, theirs, mine, p) == Some(ChangeView::SafeUpdate(p)) ==> (
        template::recorded(base, p) matches Some(b) && template::local(mine, p) == FileView::Hash(
            b,
        )),
        template::verdict(base, theirs, mine, p) == Some(ChangeView::SafeAdd(p)) ==> template::local(
            mine,
            p,
        ) is Missing,
        template::local(mine, p) is Unreadable ==> (template::verdict(base, theirs, mine, p)
            == None::<ChangeView> || template::verdict(base, theirs, mine, p) == Some(
            ChangeView::Unknown(p),
        ) || template::verdict(base, theirs, mine, p) == Some(ChangeView::RemovedUpstream(p))),
{
}

/// A file that both sides dropped is silent, and one that only the template dropped is
/// reported for as long as the project has it.
pub proof fn removal_clears_once_the_project_drops_the_file(
    base: Map<Seq<char>, Option<String>>,
    theirs: Map<Seq<char>, String>,
    mine: Map<Seq<char>, ProjectFile>,
    p: Seq<char>,
)
    requires
        !theirs.dom().contains(p),
        !template::skipped(p),
    ensures
        template::local(mine, p) is Missing <==> template::verdict(base, theirs, mine, p) is None,
        !(template::local(mine, p) is Missing) ==> template::verdict(base, theirs, mine, p) == Some(
            ChangeView::RemovedUpstream(p),
        ),
{
}

/// Without a recorded state a matching file is silent, a missing one is added, and one that
/// differs is unknown: nothing is ever called a conflict or a safe update.
pub proof fn derived_base_guesses_nothing(
    theirs: Map<Seq<char>, String>,
    mine: Map<Seq<char>, ProjectFile>,
    p: Seq<char>,
)
    requires
        theirs.dom().contains(p),
        !template::skipped(p),
    ensures
        template::verdict(state::derived_base(theirs, mine), theirs, mine, p) == (
        match template::local(mine, p) {
            FileView::Missing => Some(ChangeView::SafeAdd(p)),
            FileView::Unreadable => Some(ChangeView::Unknown(p)),
            FileView::Hash(h) => if h == theirs[p]@ {
                None
            } else {
                Some(ChangeView::Unknown(p))
            },
        }),
{
    let base = state::derived_base(theirs, mine);
    assert(base.dom().contains(p));
}

/// Two manifests with the same paths and hashes have the same fingerprint, in whatever order
/// they were put together.
pub proof fn fingerprint_ignores_the_order(a: Table<String>, b: Table<String>)
    requires
        a.well_formed(),
        b.well_formed(),
        state::hashes(a@) == state::hashes(b@),
    ensures
        state::fingerprint_of(a) == state::fingerprint_of(b),
{
    lemma_same_keys(a, b);
}

proof fn lemma_same_keys(a: Table<String>, b: Table<String>)
    requires
        a.well_formed(),
        b.well_formed(),
        state::hashes(a@) == state::hashes(b@),
    ensures
        a.keys() == b.keys(),
{
    assert forall|k: Seq<char>| #[trigger] a.keys().contains(k) <==> b.keys().contains(k) by {
        assert(a@.dom().contains(k) <==> state::hashes(a@).dom().contains(k));
        assert(b@.dom().contains(k) <==> state::hashes(b@).dom().contains(k));
    }
    table::ascending_is_unique(a.keys(), b.keys());
}

/// Whether paths and hashes can be told apart in the lines `path:hash`: no line breaks, and no
/// colon in a hash.
pub open spec fn is_plain(m: Map<Seq<char>, Seq<char>>) -> bool {
    forall|k: Seq<char>| #[trigger]
        m.dom().contains(k) ==> !k.contains('\n') && !m[k].contains(':') && !m[k].contains('\n')
}

proof fn lemma_tail_is_longer(a: Seq<char>, x: Seq<char>, b: Seq<char>, y: Seq<char>, c: char)
    requires
        a + x == b + y,
        a.len() > 0 ==> a.last() == c,
        !y.contains(c),
    ensures
        y.len() <= x.len(),
{
    if y.len() > x.len() {
        let i = a.len() - 1;
        assert((a + x).len() == a.len() + x.len());
        assert((b + y).len() == b.len() + y.len());
        assert(b.len() <= i < b.len() + y.len());
        assert((a + x)[i] == c);
        assert((b + y)[i] == y[i - b.len()]);
        assert(y.contains(c));
    }
}

/// Texts behind the last occurrence of a character are found again.
proof fn lemma_same_tail(a: Seq<char>, x: Seq<char>, b: Seq<char>, y: Seq<char>, c: char)
    requires
        a + x == b + y,
        a.len() > 0 ==> a.last() == c,
        b.len() > 0 ==> b.last() == c,
        !x.contains(c),
        !y.contains(c),
    ensures
        a == b,
        x == y,
{
    lemma_tail_is_longer(a, x, b, y, c);
    lemma_tail_is_longer(b, y, a, x, c);
    assert(a =~= (a + x).take(a.len() as int));
    assert(b =~= (b + y).take(b.len() as int));
    assert(x =~= (a + x).skip(a.len() as int));
    assert(y =~= (b + y).skip(b.len() as int));
}

spec fn entry(k: Seq<char>, h: Seq<char>) -> Seq<char> {
    k + ":"@ + h
}

proof fn lemma_listing(keys: Seq<Seq<char>>, m: Map<Seq<char>, Seq<char>>)
    requires
        is_plain(m),
        forall|i: int| 0 <= i < keys.len() ==> m.dom().contains(#[trigger] keys[i]),
    ensures
        keys.len() == 0 <==> state::listing(keys, m).len() == 0,
        keys.len() > 0 ==> state::listing(keys, m).last() == '\n',
        keys.len() > 0 ==> ({
            let line = entry(keys.last(), m[keys.last()]);
            &&& state::listing(keys, m) == state::listing(keys.drop_last(), m) + line + "\n"@
            &&& !line.contains('\n')
        }),
{
    reveal_strlit("\n");
    reveal_strlit(":");
    if keys.len() > 0 {
        let k = keys.last();
        let line = entry(k, m[k]);
        let l = state::listing(keys.drop_last(), m);
        assert(l + (k + ":"@ + m[k] + "\n"@) =~= l + line + "\n"@);
        assert(state::listing(keys, m).last() == '\n');
        assert(m.dom().contains(keys[keys.len() - 1]));
        if line.contains('\n') {
            let i = choose|i: int| 0 <= i < line.len() && line[i] == '\n';
            if i < k.len() {
                assert(k[i] == '\n');
            } else if i > k.len() {
                assert(m[k][i - k.len() - 1] == '\n');
            }
        }
    }
}

proof fn lemma_listings_differ(
    ka: Seq<Seq<char>>,
    a: Map<Seq<char>, Seq<char>>,
    kb: Seq<Seq<char>>,
    b: Map<Seq<char>, Seq<char>>,
)
    requires
        is_plain(a),
        is_plain(b),
        forall|i: int| 0 <= i < ka.len() ==> a.dom().contains(#[trigger] ka[i]),
        forall|i: int| 0 <= i < kb.len() ==> b.dom().contains(#[trigger] kb[i]),
        state::listing(ka, a) == state::listing(kb, b),
    ensures
        ka == kb,
        forall|i: int| 0 <= i < ka.len() ==> a[#[trigger] ka[i]] == b[ka[i]],
    decreases ka.len(),
{
    lemma_listing(ka, a);
    lemma_listing(kb, b);
    if ka.len() == 0 {
        assert(ka =~= kb);
    } else {
        let xa = ka.drop_last();
        let xb = kb.drop_last();
        let p = ka.last();
        let q = kb.last();
        let la = state::listing(xa, a);
        let lb = state::listing(xb, b);
        reveal_strlit("\n");
        reveal_strlit(":");
        assert(la + entry(p, a[p]) =~= state::listing(ka, a).drop_last());
        assert(lb + entry(q, b[q]) =~= state::listing(kb, b).drop_last());
        assert forall|i: int| 0 <= i < xa.len() implies a.dom().contains(#[trigger] xa[i]) by {
            assert(xa[i] == ka[i]);
        }
        assert forall|i: int| 0 <= i < xb.len() implies b.dom().contains(#[trigger] xb[i]) by {
            assert(xb[i] == kb[i]);
        }
        lemma_listing(xa, a);
        lemma_listing(xb, b);
        lemma_same_tail(la, entry(p, a[p]), lb, entry(q, b[q]), '\n');
        assert(a.dom().contains(ka[ka.len() - 1]));
        assert(b.dom().contains(kb[kb.len() - 1]));
        lemma_same_tail(p + ":"@, a[p], q + ":"@, b[q], ':');
        assert(p =~= (p + ":"@).drop_last());
        assert(q =~= (q + ":"@).drop_last());
        lemma_listings_differ(xa, a, xb, b);
        assert(ka =~= xa.push(p));
        assert(kb =~= xb.push(q));
        assert forall|i: int| 0 <= i < ka.len() implies a[#[trigger] ka[i]] == b[ka[i]] by {
            if i < xa.len() {
                assert(xa[i] == ka[i]);
            }
        }
    }
}

/// Manifests that differ in a path or a hash have different lines `path:hash`, and manifests
/// that do not have the same.
pub proof fn lines_tell_manifests_apart(a: Table<String>, b: Table<String>)
    requires
        a.well_formed(),
        b.well_formed(),
        is_plain(state::hashes(a@)),
        is_plain(state::hashes(b@)),
    ensures
        state::listing(a.keys(), state::hashes(a@)) == state::listing(
            b.keys(),
            state::hashes(b@),
        ) <==> state::hashes(a@) == state::hashes(b@),
{
    let x = state::hashes(a@);
    let y = state::hashes(b@);
    if x == y {
        lemma_same_keys(a, b);
    } else if state::listing(a.keys(), x) == state::listing(b.keys(), y) {
        assert forall|i: int| 0 <= i < a.keys().len() implies x.dom().contains(
            #[trigger] a.keys()[i],
        ) by {
            assert(a.keys().contains(a.keys()[i]));
            assert(a@.dom().contains(a.keys()[i]));
        }
        assert forall|i: int| 0 <= i < b.keys().len() implies y.dom().contains(
            #[trigger] b.keys()[i],
        ) by {
            assert(b.keys().contains(b.keys()[i]));
            assert(b@.dom().contains(b.keys()[i]));
        }
        lemma_listings_differ(a.keys(), x, b.keys(), y);
        assert forall|k: Seq<char>| #[trigger] x.dom().contains(k) <==> y.dom().contains(k) by {
            assert(a@.dom().contains(k) <==> x.dom().contains(k));
            assert(b@.dom().contains(k) <==> y.dom().contains(k));
        }
        assert forall|k: Seq<char>| #[trigger] x.dom().contains(k) implies x[k] == y[k] by {
            assert(a@.dom().contains(k));
            assert(a.keys().contains(k));
            let i = choose|i: int| 0 <= i < a.keys().len() && a.keys()[i] == k;
            assert(x[a.keys()[i]] == y[a.keys()[i]]);
        }
        assert(x =~= y);
    }
}

/// The fingerprint does not depend on the order in which a manifest was put together, and
/// changes with every path and every hash, as long as the digest tells the lines apart.
pub proof fn fingerprint_follows_the_content(a: Table<String>, b: Table<String>)
    requires
        a.well_formed(),
        b.well_formed(),
        is_plain(state::hashes(a@)),
        is_plain(state::hashes(b@)),
        ({
            let x = vstd::utf8::encode_utf8(state::listing(a.keys(), state::hashes(a@)));
            let y = vstd::utf8::encode_utf8(state::listing(b.keys(), state::hashes(b@)));
            utils::sha256_digest(x) == utils::sha256_digest(y) ==> x == y
        }),
    ensures
        state::fingerprint_of(a) == state::fingerprint_of(b) <==> state::hashes(a@)
            == state::hashes(b@),
{
    let l = state::listing(a.keys(), state::hashes(a@));
    let m = state::listing(b.keys(), state::hashes(b@));
    lines_tell_manifests_apart(a, b);
    vstd::utf8::encode_utf8_decode_utf8(l);
    vstd::utf8::encode_utf8_decode_utf8(m);
    if state::fingerprint_of(a) == state::fingerprint_of(b) {
        utils::hex_tells_bytes_apart(
            utils::sha256_digest(vstd::utf8::encode_utf8(l)),
            utils::sha256_digest(vstd::utf8::encode_utf8(m)),
        );
    }
}

/// Right after a manifest was recorded nothing is pending for the files, whatever the project
/// holds; what the seeds report stays.
pub proof fn stamping_clears_all_but_the_seeds(
    r: Seq<ChangeView>,
    theirs: Table<String>,
    stamped: TemplateState,
    mine: Map<Seq<char>, ProjectFile>,
    s: Seeds,
)
    requires
        stamped.template_fingerprint@ == state::fingerprint_of(theirs),
        state::pending(r, theirs, Some(&stamped), mine, s),
    ensures
        r == seeds::derived(s),
{
    let files = choose|files: Seq<ChangeView>|
        r == #[trigger] (files + seeds::derived(s)) && files.len() == 0;
    assert(files + seeds::derived(s) =~= seeds::derived(s));
}

/// Two lists that classify the same three maps are the same list.
pub proof fn classification_is_unique(
    a: Seq<ChangeView>,
    b: Seq<ChangeView>,
    base: Map<Seq<char>, Option<String>>,
    theirs: Map<Seq<char>, String>,
    mine: Map<Seq<char>, ProjectFile>,
)
    requires
        template::classified(a, base, theirs, mine),
        template::classified(b, base, theirs, mine),
    ensures
        a == b,
{
    let pa = a.map_values(|c: ChangeView| c.path()->0);
    let pb = b.map_values(|c: ChangeView| c.path()->0);
    assert(order::ascending(pa)) by {
        assert forall|i: int, j: int| 0 <= i < j < pa.len() implies order::before(
            #[trigger] pa[i],
            #[trigger] pa[j],
        ) by {
            assert(order::before(a[i].path()->0, a[j].path()->0));
        }
    }
    assert(order::ascending(pb)) by {
        assert forall|i: int, j: int| 0 <= i < j < pb.len() implies order::before(
            #[trigger] pb[i],
            #[trigger] pb[j],
        ) by {
            assert(order::before(b[i].path()->0, b[j].path()->0));
        }
    }
    assert forall|p: Seq<char>| #[trigger] pa.contains(p) <==> pb.contains(p) by {
        if pa.contains(p) {
            let i = choose|i: int| 0 <= i < pa.len() && pa[i] == p;
            let c = a[i];
            assert(c.path() == Some(p));
            assert(template::in_scope(base, theirs, p));
            assert(b.contains(c));
            let j = choose|j: int| 0 <= j < b.len() && b[j] == c;
            assert(pb[j] == p);
        }
        if pb.contains(p) {
            let i = choose|i: int| 0 <= i < pb.len() && pb[i] == p;
            let c = b[i];
            assert(c.path() == Some(p));
            assert(template::in_scope(base, theirs, p));
            assert(a.contains(c));
            let j = choose|j: int| 0 <= j < a.len() && a[j] == c;
            assert(pa[j] == p);
        }
    }
    table::ascending_is_unique(pa, pb);
    assert forall|i: int| 0 <= i < a.len() implies a[i] == b[i] by {
        let p = pa[i];
        assert(pb[i] == p);
        assert(a[i].path() == Some(p));
        assert(b[i].path() == Some(p));
    }
    assert(a =~= b);
}

/// A summary is empty exactly where no change is worth showing.
pub proof fn summary_is_empty_without_actionable_changes(changes: Seq<ChangeView>)
    requires
        forall|i: int|
            0 <= i < changes.len() ==> (#[trigger] changes[i] matches ChangeView::EnvKeys(k)
                ==> k.len() > 0),
        forall|i: int|
            0 <= i < changes.len() ==> (#[trigger] changes[i] matches ChangeView::GitignoreEntries(
                k,
            ) ==> k.len() > 0),
    ensures
        summary::summarized(changes).is_empty() <==> forall|i: int|
            0 <= i < changes.len() ==> #[trigger] changes[i] is AlreadyApplied,
    decreases changes.len(),
{
    if changes.len() > 0 {
        let init = changes.drop_last();
        assert forall|i: int| 0 <= i < init.len() implies (
        #[trigger] init[i] matches ChangeView::EnvKeys(k) ==> k.len() > 0) by {
            assert(init[i] == changes[i]);
        }
        assert forall|i: int| 0 <= i < init.len() implies (
        #[trigger] init[i] matches ChangeView::GitignoreEntries(k) ==> k.len() > 0) by {
            assert(init[i] == changes[i]);
        }
        summary_is_empty_without_actionable_changes(init);
        assert(changes.last() == changes[changes.len() - 1]);
        if summary::summarized(changes).is_empty() {
            assert(changes.last() is AlreadyApplied);
            assert forall|i: int| 0 <= i < changes.len() implies #[trigger] changes[i] is AlreadyApplied by {
                if i < init.len() {
                    assert(init[i] == changes[i]);
                }
            }
        }
        if forall|i: int| 0 <= i < changes.len() ==> #[trigger] changes[i] is AlreadyApplied {
            assert forall|i: int| 0 <= i < init.len() implies #[trigger] init[i] is AlreadyApplied by {
                assert(init[i] == changes[i]);
            }
        }
    }
}

} // verus!
