//! What holds of judging the keys of hosts as a whole.
use vstd::prelude::*;

use crate::edit;
use crate::git::known_hosts;
use crate::git::known_hosts::{HostDecision, HostKeyStatus, LineMatch};
use crate::lines;
use crate::paths;
use crate::text;

verus! {

/// Only a key that is known is accepted without a question; one that changed is refused, and the
/// user is asked about a host that nobody knows.
pub proof fn only_a_known_key_is_accepted(status: Option<HostKeyStatus>, r: HostDecision)
    requires
        call_ensures(known_hosts::verify_host_key, (status,), r),
    ensures
        r is Accept <==> status == Some(HostKeyStatus::Match),
        r is Refuse <==> status == Some(HostKeyStatus::Changed),
        r is Ask <==> status == Some(HostKeyStatus::Unknown),
        r is Passthrough <==> status is None,
{
}

/// A line of any file that holds the key settles that the host is known; without one, a line with
/// another key of the same type means that it changed; and a host is unknown only where no line
/// of any file is about it.
pub proof fn a_matching_line_settles_it(
    contents: &Vec<String>,
    host: &str,
    key_type: &str,
    key: &[u8],
    f: int,
    i: int,
    line: &str,
    verdict: Option<LineMatch>,
    r: HostKeyStatus,
)
    requires
        call_ensures(known_hosts::check, (contents, host, key_type, key), r),
        0 <= f < contents@.len(),
        0 <= i < lines::lines(contents@[f]@).len(),
        line@ == lines::lines(contents@[f]@)[i],
        call_ensures(known_hosts::classify_line, (line, host, key_type, key), verdict),
    ensures
        verdict == Some(LineMatch::Match) ==> r is Match,
        verdict == Some(LineMatch::Changed) ==> r is Match || r is Changed,
        r is Unknown ==> verdict is None,
        r is Changed ==> verdict != Some(LineMatch::Match),
{
    let t = text::texts(contents@);
    assert(t[f] == contents@[f]@);
    assert(known_hosts::line_verdict(lines::lines(t[f])[i], host@, key_type@, key@) == verdict);
}

/// Where no line of any file is about the host and the key's type, the host is unknown.
pub proof fn a_host_without_lines_is_unknown(
    contents: &Vec<String>,
    host: &str,
    key_type: &str,
    key: &[u8],
    r: HostKeyStatus,
)
    requires
        call_ensures(known_hosts::check, (contents, host, key_type, key), r),
        forall|f: int|
            0 <= f < contents@.len() ==> lines::lines((#[trigger] contents@[f])@).len() == 0,
    ensures
        r is Unknown,
{
    let t = text::texts(contents@);
    assert forall|f: int| 0 <= f < t.len() implies lines::lines(#[trigger] t[f]).len() == 0 by {
        assert(t[f] == contents@[f]@);
    }
}

/// An entry speaks of the hosts that its patterns match and of its own type of key: it holds the
/// key, or another one. Comments and blank lines say nothing, and neither does an entry for other
/// hosts, for another type of key, or one that cannot be read.
pub proof fn an_entry_speaks_of_its_host_and_type(
    line: &str,
    host: &str,
    key_type: &str,
    key: &[u8],
    patterns: &str,
    kind: Seq<char>,
    encoded: Seq<char>,
    mine: bool,
    r: Option<LineMatch>,
)
    requires
        call_ensures(known_hosts::classify_line, (line, host, key_type, key), r),
        call_ensures(known_hosts::host_matches, (patterns, host), mine),
        text::trimmed(line@).len() > 0,
        lines::words(text::trimmed(line@)) == seq![patterns@, kind, encoded],
        !"@"@.is_prefix_of(patterns@),
    ensures
        "#"@.is_prefix_of(text::trimmed(line@)) ==> r is None,
        !mine || kind != key_type@ ==> r is None,
        !"#"@.is_prefix_of(text::trimmed(line@)) && mine && kind == key_type@
            && known_hosts::base64_decoded(encoded) == Some(key@) ==> r == Some(LineMatch::Match),
        !"#"@.is_prefix_of(text::trimmed(line@)) && mine && kind == key_type@
            && known_hosts::base64_decoded(encoded) is Some && known_hosts::base64_decoded(encoded)
            != Some(key@) ==> r == Some(LineMatch::Changed),
        known_hosts::base64_decoded(encoded) is None ==> r is None,
{
    let w = seq![patterns@, kind, encoded];
    assert(w[0] == patterns@ && w[1] == kind && w[2] == encoded && w.len() == 3);
}

/// A line that is blank says nothing.
pub proof fn a_blank_line_says_nothing(
    line: &str,
    host: &str,
    key_type: &str,
    key: &[u8],
    r: Option<LineMatch>,
)
    requires
        call_ensures(known_hosts::classify_line, (line, host, key_type, key), r),
        text::trimmed(line@).len() == 0,
    ensures
        r is None,
{
}

/// A host is matched by an entry where one of its patterns matches, wherever it stands among them.
pub proof fn any_pattern_of_an_entry_counts(
    first: &str,
    second: &str,
    both: &str,
    host: &str,
    a: bool,
    b: bool,
    r: bool,
)
    requires
        both@ == first@ + seq![','] + second@,
        call_ensures(known_hosts::host_matches, (first, host), a),
        call_ensures(known_hosts::host_matches, (second, host), b),
        call_ensures(known_hosts::host_matches, (both, host), r),
    ensures
        r <==> a || b,
{
    lines::split_of_both(first@, ',', second@);
    let p = lines::split(first@, ',');
    let q = lines::split(second@, ',');
    let all = lines::split(both@, ',');
    assert(all =~= p + q);
    if a {
        let i = choose|i: int|
            0 <= i < p.len() && known_hosts::pattern_matches(#[trigger] p[i], host@);
        assert(all[i] == p[i]);
    }
    if b {
        let i = choose|i: int|
            0 <= i < q.len() && known_hosts::pattern_matches(#[trigger] q[i], host@);
        assert(all[p.len() + i] == q[i]);
    }
    if r {
        let i = choose|i: int|
            0 <= i < all.len() && known_hosts::pattern_matches(#[trigger] all[i], host@);
        if i < p.len() {
            assert(all[i] == p[i]);
        } else {
            assert(all[i] == q[i - p.len()]);
        }
    }
}

/// A host with a port stands in brackets; what is compared is the host alone.
pub proof fn the_port_does_not_belong_to_the_host(
    pat: &str,
    host: Seq<char>,
    port: Seq<char>,
    r: String,
)
    requires
        call_ensures(known_hosts::normalize_pattern, (pat,), r),
    ensures
        pat@ == seq!['['] + (host + "]:"@ + port) && !host.contains(']') ==> r@ == host,
        pat@.len() == 0 || pat@[0] != '[' ==> r@ == pat@,
{
    if pat@ == seq!['['] + (host + "]:"@ + port) && !host.contains(']') {
        reveal_strlit("]:");
        let s = host + "]:"@ + port;
        assert(pat@.skip(1) =~= s);
        edit::find_from_first(s, "]:"@, 0);
        let n = host.len() as int;
        assert(s.subrange(n, n + 2) =~= "]:"@);
        assert(text::occurs_at(s, "]:"@, n));
        let i = edit::find_from(s, "]:"@, 0)->0;
        if i < n {
            assert(s.subrange(i, i + 2)[0] == s[i]);
            assert(s[i] == host[i]);
            assert("]:"@[0] == ']');
        }
        assert(i == n);
        assert(s.take(n) =~= host);
    }
}

/// A pattern without wildcards matches its own text alone, one star matches everything, and a
/// question mark stands for one byte.
pub proof fn wildcards_stand_for_what_they_say(
    pattern: &Vec<u8>,
    t: &Vec<u8>,
    r: bool,
)
    requires
        call_ensures(known_hosts::glob_bytes, (pattern, t), r),
    ensures
        (forall|i: int| 0 <= i < pattern@.len() ==> #[trigger] pattern@[i] != 42 && pattern@[i]
            != 63) ==> (r <==> pattern@ == t@),
        pattern@ == seq![42u8] ==> r,
        pattern@ == seq![63u8] ==> (r <==> t@.len() == 1),
        pattern@.len() == 0 ==> (r <==> t@.len() == 0),
{
    if forall|i: int| 0 <= i < pattern@.len() ==> #[trigger] pattern@[i] != 42 && pattern@[i]
        != 63 {
        known_hosts::plain_patterns_match_themselves_only(pattern@, t@);
    }
    known_hosts::star_matches_everything(t@);
    reveal_with_fuel(known_hosts::glob, 3);
    if pattern@ == seq![63u8] {
        assert(pattern@.skip(1) =~= Seq::<u8>::empty());
    }
}

/// A star in front matches whatever stands before a part that matches.
pub proof fn a_star_stands_for_any_beginning(
    pattern: &Vec<u8>,
    rest: &Vec<u8>,
    t: &Vec<u8>,
    tail: &Vec<u8>,
    front: Seq<u8>,
    a: bool,
    r: bool,
)
    requires
        pattern@ == seq![42u8] + rest@,
        t@ == front + tail@,
        call_ensures(known_hosts::glob_bytes, (rest, tail), a),
        call_ensures(known_hosts::glob_bytes, (pattern, t), r),
    ensures
        a ==> r,
{
    if a {
        lemma_star(rest@, front, tail@);
    }
}

proof fn lemma_star(rest: Seq<u8>, front: Seq<u8>, tail: Seq<u8>)
    requires
        known_hosts::glob(rest, tail),
    ensures
        known_hosts::glob(seq![42u8] + rest, front + tail),
    decreases front.len(),
{
    let p = seq![42u8] + rest;
    let t = front + tail;
    assert(p[0] == 42);
    assert(p.skip(1) =~= rest);
    if front.len() == 0 {
        assert(t =~= tail);
    } else {
        lemma_star(rest, front.skip(1), tail);
        assert(t.skip(1) =~= front.skip(1) + tail);
    }
}

/// The case of a host does not count, and a plain host is matched by its own name.
pub proof fn a_host_is_matched_in_any_case(host: &str, lower: &str, r: bool, s: bool)
    requires
        lower@ == text::lowered(host@),
        call_ensures(known_hosts::glob_match, (host, host), r),
        call_ensures(known_hosts::glob_match, (lower, host), s),
    ensures
        r,
        s,
{
    known_hosts::glob_matches_itself(known_hosts::lower_bytes(host@));
    known_hosts::case_does_not_count(host@, host@);
}

/// A key that was accepted is known from then on: the line that is appended for it makes the same
/// check succeed, whatever else the files hold.
pub proof fn an_accepted_key_is_known(
    host: &str,
    key_type: &str,
    key: &[u8],
    line: String,
    contents: &Vec<String>,
    f: int,
    before: Seq<char>,
    r: HostKeyStatus,
)
    requires
        known_hosts::encodable(key@.len()),
        call_ensures(known_hosts::add_line, (host, key_type, key), line),
        known_hosts::is_entry(host@, key_type@, key@),
        0 <= f < contents@.len(),
        contents@[f]@ == before + line@,
        before.len() == 0 || before.last() == '\n',
        call_ensures(known_hosts::check, (contents, host, key_type, key), r),
    ensures
        r is Match,
        line@.len() > 0 && line@.last() == '\n',
        (host@ + " "@ + key_type@ + " "@).is_prefix_of(line@),
{
    let t = text::texts(contents@);
    assert(t[f] == contents@[f]@);
    assert(known_hosts::appended(t[f], line@));
    reveal_strlit("\n");
    let p = host@ + " "@ + key_type@ + " "@;
    assert(line@.subrange(0, p.len() as int) =~= p);
    assert(line@.last() == '\n');
}

/// A key is remembered in the first of the files that are read.
pub proof fn keys_are_remembered_where_they_are_read(
    home: Option<&str>,
    own: Option<String>,
    all: Vec<String>,
)
    requires
        call_ensures(known_hosts::user_known_hosts, (home,), own),
        call_ensures(known_hosts::candidate_files, (home,), all),
    ensures
        own is Some <==> home is Some,
        own matches Some(p) ==> all@.len() > 0 && all@[0]@ == p@,
        all@.len() > 0 && all@.last()@ == "/etc/ssh/ssh_known_hosts"@,
        home is None ==> all@.len() == 1,
        home is Some ==> all@.len() == 3,
{
    let t = text::texts(all@);
    assert(t.len() == all@.len());
    assert(t[0] == all@[0]@);
    assert(t[t.len() - 1] == all@[all@.len() - 1]@);
}

/// The user's own file lies below the home directory.
pub proof fn the_own_file_lies_at_home(home: &str, r: Option<String>)
    requires
        call_ensures(known_hosts::user_known_hosts, (Some(home),), r),
        home@.len() > 0,
        home@.last() != '/',
    ensures
        paths::opt(r) == Some(home@ + "/"@ + ".ssh"@ + "/"@ + "known_hosts"@),
{
    reveal_strlit("/");
    reveal_strlit(".ssh");
    reveal_strlit("known_hosts");
    assert("/"@ =~= seq!['/']);
    assert(".ssh"@[0] == '.' && "known_hosts"@[0] == 'k');
    let a = home@ + seq!['/'] + ".ssh"@;
    assert(a.last() == 'h');
}

/// A hash is shown with the name of its kind in front.
pub proof fn a_fingerprint_names_its_kind(hash: &[u8], r: String)
    requires
        known_hosts::encodable(hash@.len()),
        call_ensures(known_hosts::fingerprint_sha256, (hash,), r),
    ensures
        "SHA256:"@.is_prefix_of(r@),
        r@.skip("SHA256:"@.len() as int) == known_hosts::base64_unpadded(hash@),
{
    let n = "SHA256:"@.len() as int;
    assert(r@.subrange(0, n) =~= "SHA256:"@);
    assert(r@.skip(n) =~= known_hosts::base64_unpadded(hash@));
}

} // verus!
