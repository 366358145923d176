//! The `known_hosts` files of OpenSSH: judging the key that a host presents, and remembering a
//! key that the user accepts.
//!
//! Plain (`host keytype base64key`) and hashed (`|1|salt|hash`) host patterns are supported.
use base64::Engine;
use hmac::Mac;
use vstd::prelude::*;

use crate::lines;
use crate::paths;
use crate::text;
use crate::text::{begins_with, same, starts_with};

verus! {

// ---------------------------------------------------------------- encodings

/// Bytes in base64 with padding, as the `base64` crate writes them.
pub uninterp spec fn base64_encoded(bytes: Seq<u8>) -> Seq<char>;

/// Bytes in base64 without padding, as the `base64` crate writes them.
pub uninterp spec fn base64_unpadded(bytes: Seq<u8>) -> Seq<char>;

/// The bytes that a text in base64 stands for, as the `base64` crate reads it.
pub uninterp spec fn base64_decoded(s: Seq<char>) -> Option<Seq<u8>>;

/// The HMAC-SHA1 of a message, as the `hmac` and `sha1` crates compute it.
pub uninterp spec fn hmac_sha1_tag(key: Seq<u8>, message: Seq<u8>) -> Seq<u8>;

/// Whether the base64 form of so many bytes fits into memory.
pub open spec fn encodable(len: nat) -> bool {
    (len + 2) / 3 * 4 <= isize::MAX
}

/// `STANDARD.encode` of the `base64` crate. Named [`base64_encoded`]. It writes letters, digits,
/// `+`, `/` and `=` only, and something for at least one byte, and decoding gives the bytes back.
#[verifier::external_body]
fn encode(bytes: &[u8]) -> (r: String)
    requires
        encodable(bytes@.len()),
    ensures
        r@ == base64_encoded(bytes@),
        base64_decoded(r@) == Some(bytes@),
        forall|i: int| 0 <= i < r@.len() ==> !text::is_white(#[trigger] r@[i]),
        bytes@.len() > 0 ==> r@.len() > 0,
{
    base64::engine::general_purpose::STANDARD.encode(bytes)
}

/// `STANDARD_NO_PAD.encode` of the `base64` crate. Named [`base64_unpadded`].
#[verifier::external_body]
fn encode_unpadded(bytes: &[u8]) -> (r: String)
    requires
        encodable(bytes@.len()),
    ensures
        r@ == base64_unpadded(bytes@),
{
    base64::engine::general_purpose::STANDARD_NO_PAD.encode(bytes)
}

/// `STANDARD.decode` of the `base64` crate. `None` stands for any error. Named
/// [`base64_decoded`].
#[verifier::external_body]
fn decode(s: &str) -> (r: Option<Vec<u8>>)
    ensures
        (match r {
            Some(v) => Some(v@),
            None => None,
        }) == base64_decoded(s@),
{
    base64::engine::general_purpose::STANDARD.decode(s).ok()
}

/// `Hmac::<Sha1>::new_from_slice`, `update` and `finalize` of the `hmac` and `sha1` crates. A key
/// of any length is accepted. Named [`hmac_sha1_tag`].
#[verifier::external_body]
fn hmac_sha1(key: &[u8], message: &[u8]) -> (r: Option<Vec<u8>>)
    ensures
        (match r {
            Some(v) => Some(v@),
            None => None,
        }) == Some(hmac_sha1_tag(key@, message@)),
{
    let mut mac = hmac::Hmac::<sha1::Sha1>::new_from_slice(key).ok()?;
    mac.update(message);
    Some(mac.finalize().into_bytes().to_vec())
}

/// A SHA-256 host key hash as OpenSSH prints it.
pub fn fingerprint_sha256(hash: &[u8]) -> (r: String)
    requires
        encodable(hash@.len()),
    ensures
        r@ == "SHA256:"@ + base64_unpadded(hash@),
{
    let mut r = text::owned("SHA256:");
    r.append(encode_unpadded(hash).as_str());
    r
}

// ---------------------------------------------------------------- patterns

/// Whether a pattern matches a text: `*` stands for any bytes, `?` for one byte, and any other
/// byte for itself.
pub open spec fn glob(p: Seq<u8>, t: Seq<u8>) -> bool
    decreases p.len() + t.len(),
{
    if p.len() == 0 {
        t.len() == 0
    } else if p[0] == 42 {
        glob(p.skip(1), t) || (t.len() > 0 && glob(p, t.skip(1)))
    } else if p[0] == 63 {
        t.len() > 0 && glob(p.skip(1), t.skip(1))
    } else {
        t.len() > 0 && t[0] == p[0] && glob(p.skip(1), t.skip(1))
    }
}

fn glob_from(p: &Vec<u8>, i: usize, t: &Vec<u8>, j: usize) -> (r: bool)
    requires
        i <= p@.len(),
        j <= t@.len(),
    ensures
        r == glob(p@.skip(i as int), t@.skip(j as int)),
    decreases p@.len() - i + t@.len() - j,
{
    let ghost a = p@.skip(i as int);
    let ghost b = t@.skip(j as int);
    let more = j < t.len();
    if i == p.len() {
        return !more;
    }
    assert(a.skip(1) =~= p@.skip(i + 1));
    if more {
        assert(b.skip(1) =~= t@.skip(j + 1));
    }
    if p[i] == 42 {
        glob_from(p, i + 1, t, j) || (more && glob_from(p, i, t, j + 1))
    } else if p[i] == 63 {
        more && glob_from(p, i + 1, t, j + 1)
    } else {
        more && t[j] == p[i] && glob_from(p, i + 1, t, j + 1)
    }
}

/// Whether a pattern of bytes matches a text.
pub fn glob_bytes(pattern: &Vec<u8>, t: &Vec<u8>) -> (r: bool)
    ensures
        r == glob(pattern@, t@),
{
    assert(pattern@.skip(0) =~= pattern@);
    assert(t@.skip(0) =~= t@);
    glob_from(pattern, 0, t, 0)
}

/// The bytes of a text in ASCII lower case.
pub open spec fn lower_bytes(s: Seq<char>) -> Seq<u8> {
    vstd::utf8::encode_utf8(text::lowered(s))
}

/// Whether a host pattern matches a host, where the case of ASCII letters does not count.
pub open spec fn matches_glob(pattern: Seq<char>, host: Seq<char>) -> bool {
    glob(lower_bytes(pattern), lower_bytes(host))
}

fn lower_bytes_of(s: &str) -> (r: Vec<u8>)
    ensures
        r@ == lower_bytes(s@),
{
    let low = text::to_lower(s);
    let n: usize = low.len();
    let t = text::string_of(&low, 0, n);
    assert(t@ =~= text::lowered(s@));
    let bytes = t.as_str().as_bytes();
    let mut r: Vec<u8> = Vec::new();
    let mut i: usize = 0;
    while i < bytes.len()
        invariant
            i <= bytes@.len(),
            r@ == bytes@.take(i as int),
        decreases bytes@.len() - i,
    {
        r.push(bytes[i]);
        assert(bytes@.take(i + 1) =~= bytes@.take(i as int).push(bytes@[i as int]));
        i += 1;
    }
    assert(bytes@.take(i as int) =~= bytes@);
    r
}

/// Whether a host pattern matches a host.
pub fn glob_match(pattern: &str, host: &str) -> (r: bool)
    ensures
        r == matches_glob(pattern@, host@),
{
    glob_bytes(&lower_bytes_of(pattern), &lower_bytes_of(host))
}

/// The host of a pattern `[host]:port`; any other pattern is the host itself.
pub open spec fn bare_host(pat: Seq<char>) -> Seq<char> {
    if pat.len() > 0 && pat[0] == '[' {
        match crate::edit::find_from(pat.skip(1), "]:"@, 0) {
            Some(i) => pat.skip(1).take(i),
            None => pat,
        }
    } else {
        pat
    }
}

/// Strips `[host]:port` down to the host.
pub fn normalize_pattern(pat: &str) -> (r: String)
    ensures
        r@ == bare_host(pat@),
{
    if begins_with(pat, '[') {
        let v = text::chars_of(pat);
        let n: usize = v.len();
        let inner = text::string_of(&v, 1, n);
        assert(inner@ =~= pat@.skip(1));
        proof {
            crate::edit::find_from_first(inner@, "]:"@, 0);
        }
        if let Some(i) = text::find(inner.as_str(), "]:") {
            let w = text::chars_of(inner.as_str());
            assert(w@.subrange(0, i as int) =~= pat@.skip(1).take(i as int));
            return text::string_of(&w, 0, i);
        }
    }
    text::owned(pat)
}

/// Whether a hashed pattern, given without its `|1|`, stands for a host: the hash after the bar
/// is that of the host, keyed with the salt before it.
pub open spec fn hash_matches(rest: Seq<char>, host: Seq<char>) -> bool {
    match text::cut(rest, '|') {
        Some(parts) => match (base64_decoded(parts.0), base64_decoded(parts.1)) {
            (Some(salt), Some(expected)) => hmac_sha1_tag(
                salt,
                vstd::utf8::encode_utf8(host),
            ) == expected,
            _ => false,
        },
        None => false,
    }
}

fn same_bytes(a: &[u8], b: &[u8]) -> (r: bool)
    ensures
        r == (a@ == b@),
{
    if a.len() != b.len() {
        return false;
    }
    let mut i: usize = 0;
    while i < a.len()
        invariant
            i <= a@.len() == b@.len(),
            forall|k: int| 0 <= k < i ==> a@[k] == b@[k],
        decreases a@.len() - i,
    {
        if a[i] != b[i] {
            return false;
        }
        i += 1;
    }
    assert(a@ =~= b@);
    true
}

/// Whether a hashed pattern, given without its `|1|`, stands for a host.
pub fn hashed_matches(rest: &str, host: &str) -> (r: bool)
    ensures
        r == hash_matches(rest@, host@),
{
    match text::split_once(rest, '|') {
        Some((salt, hash)) => match (decode(salt.as_str()), decode(hash.as_str())) {
            (Some(salt), Some(expected)) => match hmac_sha1(salt.as_slice(), host.as_bytes()) {
                Some(tag) => same_bytes(tag.as_slice(), expected.as_slice()),
                None => false,
            },
            _ => false,
        },
        None => false,
    }
}

/// Whether one pattern of an entry stands for a host.
pub open spec fn pattern_matches(pat: Seq<char>, host: Seq<char>) -> bool {
    let p = text::trimmed(pat);
    p.len() > 0 && if "|1|"@.is_prefix_of(p) {
        hash_matches(p.skip("|1|"@.len() as int), host)
    } else {
        matches_glob(bare_host(p), host)
    }
}

/// Whether one of the patterns of an entry, with commas between them, stands for a host.
pub open spec fn patterns_match(patterns: Seq<char>, host: Seq<char>) -> bool {
    exists|i: int|
        0 <= i < lines::split(patterns, ',').len() && pattern_matches(
            #[trigger] lines::split(patterns, ',')[i],
            host,
        )
}

/// Whether one of the patterns of an entry stands for a host.
pub fn host_matches(patterns: &str, host: &str) -> (r: bool)
    ensures
        r == patterns_match(patterns@, host@),
{
    let list = lines::split_at_char(patterns, ',');
    let ghost all = text::texts(list@);
    let mut i: usize = 0;
    while i < list.len()
        invariant
            i <= list@.len(),
            all == text::texts(list@),
            all == lines::split(patterns@, ','),
            forall|k: int| 0 <= k < i ==> !pattern_matches(#[trigger] all[k], host@),
        decreases list@.len() - i,
    {
        assert(all[i as int] == list@[i as int]@);
        let p = text::trim(list[i].as_str());
        let pat = p.as_str();
        if !pat.is_empty() {
            let hit = match text::strip_prefix(pat, "|1|") {
                Some(rest) => hashed_matches(rest.as_str(), host),
                None => glob_match(normalize_pattern(pat).as_str(), host),
            };
            if hit {
                assert(pattern_matches(lines::split(patterns@, ',')[i as int], host@));
                return true;
            }
        }
        i += 1;
    }
    false
}

// ---------------------------------------------------------------- entries

/// What an entry says of the key that a host presents.
#[derive(Debug, Clone, Copy, PartialEq, Eq, Structural)]
pub enum LineMatch {
    Match,
    Changed,
}

/// What the fields of an entry say of a key; `None` where the entry is not about it.
pub open spec fn entry_verdict(
    fields: Seq<Seq<char>>,
    host: Seq<char>,
    key_type: Seq<char>,
    key: Seq<u8>,
) -> Option<LineMatch> {
    let f = if fields.len() > 0 && "@"@.is_prefix_of(fields[0]) {
        fields.drop_first()
    } else {
        fields
    };
    if f.len() < 3 || !patterns_match(f[0], host) || f[1] != key_type {
        None
    } else {
        match base64_decoded(f[2]) {
            Some(bytes) => if bytes == key {
                Some(LineMatch::Match)
            } else {
                Some(LineMatch::Changed)
            },
            None => None,
        }
    }
}

/// What a line says of a key. Blank lines and comments say nothing; a marker in front of the
/// patterns is skipped.
pub open spec fn line_verdict(
    line: Seq<char>,
    host: Seq<char>,
    key_type: Seq<char>,
    key: Seq<u8>,
) -> Option<LineMatch> {
    let l = text::trimmed(line);
    if l.len() == 0 || "#"@.is_prefix_of(l) {
        None
    } else {
        entry_verdict(lines::words(l), host, key_type, key)
    }
}

/// What a line says of the key that a host presents.
pub fn classify_line(line: &str, host: &str, key_type: &str, raw_key: &[u8]) -> (r: Option<
    LineMatch,
>)
    ensures
        r == line_verdict(line@, host@, key_type@, raw_key@),
{
    let l = text::trim(line);
    if l.as_str().is_empty() || starts_with(l.as_str(), "#") {
        return None;
    }
    let fields = lines::words_of(l.as_str());
    let ghost all = text::texts(fields@);
    let n: usize = fields.len();
    assert(all.len() == n);
    let mut first: usize = 0;
    if n > 0 {
        assert(all[0] == fields@[0]@);
        if starts_with(fields[0].as_str(), "@") {
            first = 1;
        }
    }
    let ghost f = if all.len() > 0 && "@"@.is_prefix_of(all[0]) {
        all.drop_first()
    } else {
        all
    };
    if n < 3 || n - first < 3 {
        return None;
    }
    proof {
        assert(f[0] == fields@[first as int]@);
        assert(f[1] == fields@[first + 1]@);
        assert(f[2] == fields@[first + 2]@);
    }
    if !host_matches(fields[first].as_str(), host) {
        return None;
    }
    if !same(fields[first + 1].as_str(), key_type) {
        return None;
    }
    match decode(fields[first + 2].as_str()) {
        Some(bytes) => if same_bytes(bytes.as_slice(), raw_key) {
            Some(LineMatch::Match)
        } else {
            Some(LineMatch::Changed)
        },
        None => None,
    }
}

/// Result of checking a presented host key against the user's files.
#[derive(Debug, Clone, Copy, PartialEq, Eq, Structural)]
pub enum HostKeyStatus {
    /// The host is known and the presented key matches a stored one.
    Match,
    /// The host is known for this key type but the presented key differs.
    Changed,
    /// The host is not in any of the files.
    Unknown,
}

/// Whether some line of the files says this of a key.
pub open spec fn some_line_says(
    contents: Seq<Seq<char>>,
    host: Seq<char>,
    key_type: Seq<char>,
    key: Seq<u8>,
    what: LineMatch,
) -> bool {
    exists|f: int, i: int|
        0 <= f < contents.len() && 0 <= i < lines::lines(contents[f]).len() && line_verdict(
            #[trigger] lines::lines(contents[f])[i],
            host,
            key_type,
            key,
        ) == Some(what)
}

/// What the files say of a key: a line that matches settles it, wherever it stands; without one,
/// a line with another key of the same type counts.
pub open spec fn status_of(
    contents: Seq<Seq<char>>,
    host: Seq<char>,
    key_type: Seq<char>,
    key: Seq<u8>,
) -> HostKeyStatus {
    if some_line_says(contents, host, key_type, key, LineMatch::Match) {
        HostKeyStatus::Match
    } else if some_line_says(contents, host, key_type, key, LineMatch::Changed) {
        HostKeyStatus::Changed
    } else {
        HostKeyStatus::Unknown
    }
}

/// Checks a presented host key against the contents of the files that could be read.
pub fn check(contents: &Vec<String>, host: &str, key_type: &str, raw_key: &[u8]) -> (r:
    HostKeyStatus)
    ensures
        r == status_of(text::texts(contents@), host@, key_type@, raw_key@),
{
    let ghost all = text::texts(contents@);
    let ghost (h, t, k) = (host@, key_type@, raw_key@);
    let mut changed = false;
    let mut f: usize = 0;
    while f < contents.len()
        invariant
            f <= contents@.len(),
            all == text::texts(contents@),
            h == host@ && t == key_type@ && k == raw_key@,
            changed ==> some_line_says(all, h, t, k, LineMatch::Changed),
            forall|g: int, i: int|
                0 <= g < f && 0 <= i < lines::lines(all[g]).len() ==> line_verdict(
                    #[trigger] lines::lines(all[g])[i],
                    h,
                    t,
                    k,
                ) != Some(LineMatch::Match),
            !changed ==> forall|g: int, i: int|
                0 <= g < f && 0 <= i < lines::lines(all[g]).len() ==> line_verdict(
                    #[trigger] lines::lines(all[g])[i],
                    h,
                    t,
                    k,
                ) != Some(LineMatch::Changed),
        decreases contents@.len() - f,
    {
        assert(all[f as int] == contents@[f as int]@);
        let ls = lines::lines_of(contents[f].as_str());
        let ghost here = lines::lines(all[f as int]);
        assert(text::texts(ls@) == here);
        let ghost earlier = changed;
        let mut i: usize = 0;
        while i < ls.len()
            invariant
                i <= ls@.len(),
                f < all.len(),
                text::texts(ls@) == here,
                here == lines::lines(all[f as int]),
                all == text::texts(contents@),
                h == host@ && t == key_type@ && k == raw_key@,
                earlier ==> changed,
                changed ==> some_line_says(all, h, t, k, LineMatch::Changed),
                forall|j: int|
                    0 <= j < i ==> line_verdict(#[trigger] here[j], h, t, k) != Some(
                        LineMatch::Match,
                    ),
                !changed ==> forall|j: int|
                    0 <= j < i ==> line_verdict(#[trigger] here[j], h, t, k) != Some(
                        LineMatch::Changed,
                    ),
            decreases ls@.len() - i,
        {
            assert(here[i as int] == ls@[i as int]@);
            match classify_line(ls[i].as_str(), host, key_type, raw_key) {
                Some(LineMatch::Match) => {
                    assert(line_verdict(lines::lines(all[f as int])[i as int], h, t, k) == Some(
                        LineMatch::Match,
                    ));
                    return HostKeyStatus::Match;
                },
                Some(LineMatch::Changed) => {
                    assert(line_verdict(lines::lines(all[f as int])[i as int], h, t, k) == Some(
                        LineMatch::Changed,
                    ));
                    changed = true;
                },
                None => {},
            }
            i += 1;
        }
        assert(here.len() == ls@.len());
        f += 1;
    }
    assert(all.len() == contents@.len());
    if changed {
        HostKeyStatus::Changed
    } else {
        HostKeyStatus::Unknown
    }
}

/// The entry that remembers a key.
pub open spec fn entry_line(host: Seq<char>, key_type: Seq<char>, key: Seq<u8>) -> Seq<char> {
    host + " "@ + key_type + " "@ + base64_encoded(key) + "\n"@
}

/// The line that is appended to the user's file for a key that was accepted.
pub fn add_line(host: &str, key_type: &str, raw_key: &[u8]) -> (r: String)
    requires
        encodable(raw_key@.len()),
    ensures
        r@ == entry_line(host@, key_type@, raw_key@),
        // Once the line was appended to a file, the host is known with this key.
        forall|contents: Seq<Seq<char>>, f: int|
            0 <= f < contents.len() && appended(#[trigger] contents[f], r@) && is_entry(
                host@,
                key_type@,
                raw_key@,
            ) ==> status_of(contents, host@, key_type@, raw_key@) == HostKeyStatus::Match,
{
    let mut r = text::owned(host);
    r.append(" ");
    r.append(key_type);
    r.append(" ");
    let key = encode(raw_key);
    r.append(key.as_str());
    r.append("\n");
    proof {
        assert forall|contents: Seq<Seq<char>>, f: int|
            0 <= f < contents.len() && appended(#[trigger] contents[f], r@) && is_entry(
                host@,
                key_type@,
                raw_key@,
            ) implies status_of(contents, host@, key_type@, raw_key@) == HostKeyStatus::Match by {
            lemma_entry_is_found(contents[f], host@, key_type@, raw_key@);
            let i = choose|i: int|
                0 <= i < lines::lines(contents[f]).len() && line_verdict(
                    #[trigger] lines::lines(contents[f])[i],
                    host@,
                    key_type@,
                    raw_key@,
                ) == Some(LineMatch::Match);
            assert(some_line_says(contents, host@, key_type@, raw_key@, LineMatch::Match));
        }
    }
    r
}

/// Whether a file is one to which a line was appended: it was empty before, or its last line was
/// complete.
pub open spec fn appended(content: Seq<char>, line: Seq<char>) -> bool {
    exists|before: Seq<char>|
        content == #[trigger] (before + line) && (before.len() == 0 || before.last() == '\n')
}

/// Whether an entry can be written for a host and a key: the host and the type are single words,
/// the host is not read as a comment or a marker and matches itself, and there is a key.
pub open spec fn is_entry(host: Seq<char>, key_type: Seq<char>, key: Seq<u8>) -> bool {
    &&& host.len() > 0 && lines::no_white(host)
    &&& host[0] != '#' && host[0] != '@'
    &&& patterns_match(host, host)
    &&& key_type.len() > 0 && lines::no_white(key_type)
    &&& key.len() > 0
}

proof fn lemma_no_line_end(s: Seq<char>)
    requires
        lines::no_white(s),
    ensures
        !s.contains('\n'),
        s.len() > 0 ==> s.last() != '\r',
{
    if s.contains('\n') {
        let i = choose|i: int| 0 <= i < s.len() && s[i] == '\n';
        assert(!text::is_white(s[i]));
    }
    if s.len() > 0 {
        assert(!text::is_white(s[s.len() - 1]));
    }
}

proof fn lemma_words_of_entry(host: Seq<char>, key_type: Seq<char>, k: Seq<char>)
    requires
        host.len() > 0 && lines::no_white(host),
        key_type.len() > 0 && lines::no_white(key_type),
        k.len() > 0 && lines::no_white(k),
    ensures
        ({
            let l = host + " "@ + key_type + " "@ + k;
            &&& lines::words(l) == seq![host, key_type, k]
            &&& text::trimmed(l) == l
            &&& !l.contains('\n')
            &&& l.last() != '\r'
            &&& l.len() > 0
            &&& l[0] == host[0]
        }),
{
    reveal_strlit(" ");
    assert(" "@ =~= seq![' ']);
    let l = host + " "@ + key_type + " "@ + k;
    let tail = key_type + seq![' '] + k;
    assert(l =~= host + seq![' '] + tail);
    lines::split_white_of_one(host);
    lines::split_white_of_one(key_type);
    lines::split_white_of_one(k);
    lines::split_white_of_both(key_type, ' ', k);
    lines::split_white_of_both(host, ' ', tail);
    let pieces = lines::split_white(l);
    assert(pieces =~= seq![host, key_type, k]);
    reveal_with_fuel(lines::filled, 4);
    assert(pieces.drop_last() =~= seq![host, key_type]);
    assert(pieces.drop_last().drop_last() =~= seq![host]);
    assert(pieces.drop_last().drop_last().drop_last() =~= Seq::empty());
    assert(lines::filled(pieces) =~= seq![host, key_type, k]);
    assert(!text::is_white(host[0]));
    assert(!text::is_white(k[k.len() - 1]));
    assert(l[0] == host[0]);
    assert(l.last() == k.last());
    lemma_no_line_end(host);
    lemma_no_line_end(key_type);
    lemma_no_line_end(k);
    if l.contains('\n') {
        let i = choose|i: int| 0 <= i < l.len() && l[i] == '\n';
        if i < host.len() {
            assert(host[i] == '\n');
        } else if i == host.len() {
            assert(l[i] == ' ');
        } else if i < host.len() + 1 + key_type.len() {
            assert(key_type[i - host.len() - 1] == '\n');
        } else if i == host.len() + 1 + key_type.len() {
            assert(l[i] == ' ');
        } else {
            assert(k[i - host.len() - key_type.len() - 2] == '\n');
        }
    }
}

proof fn lemma_entry_is_found(
    content: Seq<char>,
    host: Seq<char>,
    key_type: Seq<char>,
    key: Seq<u8>,
)
    requires
        appended(content, entry_line(host, key_type, key)),
        is_entry(host, key_type, key),
        base64_decoded(base64_encoded(key)) == Some(key),
        lines::no_white(base64_encoded(key)),
        base64_encoded(key).len() > 0,
    ensures
        exists|i: int|
            0 <= i < lines::lines(content).len() && line_verdict(
                #[trigger] lines::lines(content)[i],
                host,
                key_type,
                key,
            ) == Some(LineMatch::Match),
{
    let k = base64_encoded(key);
    let l = host + " "@ + key_type + " "@ + k;
    let nl = seq!['\n'];
    lemma_words_of_entry(host, key_type, k);
    reveal_strlit("\n");
    assert("\n"@ =~= nl);
    let before = choose|before: Seq<char>|
        content == #[trigger] (before + entry_line(host, key_type, key)) && (before.len() == 0
            || before.last() == '\n');
    lines::split_of_one(l, '\n');
    lines::split_of_one(Seq::<char>::empty(), '\n');
    lines::split_of_both(l, '\n', Seq::<char>::empty());
    assert(l + nl + Seq::<char>::empty() =~= l + nl);
    assert(lines::split(l + nl, '\n') =~= seq![l, Seq::<char>::empty()]);
    let pieces = lines::split(content, '\n');
    if before.len() == 0 {
        assert(content =~= l + nl);
    } else {
        let c = before.drop_last();
        lines::split_pieces(c, '\n');
        lines::split_of_both(c, '\n', l + nl);
        assert(content =~= c + nl + (l + nl));
    }
    let ls = lines::lines(content);
    let i = ls.len() - 1;
    assert(pieces.last().len() == 0);
    assert(pieces.drop_last().last() == l);
    assert(ls[i] == lines::strip_cr(l));
    assert(ls[i] == l);
    reveal_strlit("#");
    reveal_strlit("@");
    let fields = seq![host, key_type, k];
    assert(!"#"@.is_prefix_of(l)) by {
        if "#"@.is_prefix_of(l) {
            assert(l.subrange(0, 1)[0] == '#');
        }
    }
    assert(!"@"@.is_prefix_of(fields[0])) by {
        if "@"@.is_prefix_of(fields[0]) {
            assert(host.subrange(0, 1)[0] == '@');
        }
    }
    assert(line_verdict(lines::lines(content)[i], host, key_type, key) == Some(LineMatch::Match));
}

// ---------------------------------------------------------------- laws

/// Every text matches itself as a pattern.
pub proof fn glob_matches_itself(s: Seq<u8>)
    ensures
        glob(s, s),
    decreases s.len(),
{
    if s.len() > 0 {
        glob_matches_itself(s.skip(1));
        reveal_with_fuel(glob, 3);
    }
}

/// A pattern without wildcards matches nothing but itself.
pub proof fn plain_patterns_match_themselves_only(p: Seq<u8>, t: Seq<u8>)
    requires
        forall|i: int| 0 <= i < p.len() ==> #[trigger] p[i] != 42 && p[i] != 63,
    ensures
        glob(p, t) <==> p == t,
    decreases p.len(),
{
    if p.len() > 0 && t.len() > 0 {
        let q = p.skip(1);
        assert forall|i: int| 0 <= i < q.len() implies #[trigger] q[i] != 42 && q[i] != 63 by {
            assert(q[i] == p[i + 1]);
        }
        plain_patterns_match_themselves_only(q, t.skip(1));
        assert(p[0] != 42 && p[0] != 63);
        if glob(p, t) {
            assert(p =~= seq![p[0]] + q);
            assert(t =~= seq![t[0]] + t.skip(1));
        }
    } else if p.len() == 0 {
        assert(t.len() == 0 ==> p =~= t);
    }
}

/// A star alone matches everything.
pub proof fn star_matches_everything(t: Seq<u8>)
    ensures
        glob(seq![42u8], t),
    decreases t.len(),
{
    let p = seq![42u8];
    assert(p.skip(1) =~= Seq::empty());
    if t.len() > 0 {
        star_matches_everything(t.skip(1));
    } else {
        assert(glob(p.skip(1), t));
    }
}

/// The case of ASCII letters counts neither in a pattern nor in a host.
pub proof fn case_does_not_count(pattern: Seq<char>, host: Seq<char>)
    ensures
        matches_glob(text::lowered(pattern), host) == matches_glob(pattern, host),
        matches_glob(pattern, text::lowered(host)) == matches_glob(pattern, host),
{
    assert(text::lowered(text::lowered(pattern)) =~= text::lowered(pattern));
    assert(text::lowered(text::lowered(host)) =~= text::lowered(host));
}

/// A host that is a plain name matches itself: no comma, no bracket or bar at its start, no white
/// space.
pub proof fn a_plain_host_matches_itself(host: Seq<char>)
    requires
        host.len() > 0,
        lines::no_white(host),
        !host.contains(','),
        host[0] != '[' && host[0] != '|',
    ensures
        patterns_match(host, host),
{
    lines::split_of_one(host, ',');
    assert(!text::is_white(host[0]));
    assert(!text::is_white(host[host.len() - 1]));
    assert(text::trimmed(host) == host);
    reveal_strlit("|1|");
    assert(!"|1|"@.is_prefix_of(host)) by {
        if "|1|"@.is_prefix_of(host) {
            assert(host.subrange(0, 3)[0] == '|');
        }
    }
    glob_matches_itself(lower_bytes(host));
    assert(lines::split(host, ',')[0] == host);
    assert(pattern_matches(lines::split(host, ',')[0], host));
}

// ---------------------------------------------------------------- files

/// Path to the user's own file, where new entries are written.
pub fn user_known_hosts(home: Option<&str>) -> (r: Option<String>)
    ensures
        paths::opt(r) == (match home {
            Some(h) => Some(paths::below(paths::below(h@, ".ssh"@), "known_hosts"@)),
            None => None,
        }),
{
    match home {
        Some(h) => {
            let ssh = paths::join(h, ".ssh");
            Some(paths::join(ssh.as_str(), "known_hosts"))
        },
        None => None,
    }
}

/// The files that are read, in order.
pub fn candidate_files(home: Option<&str>) -> (r: Vec<String>)
    ensures
        text::texts(r@) == (match home {
            Some(h) => seq![
                paths::below(paths::below(h@, ".ssh"@), "known_hosts"@),
                paths::below(paths::below(h@, ".ssh"@), "known_hosts2"@),
            ],
            None => Seq::empty(),
        }) + seq!["/etc/ssh/ssh_known_hosts"@],
{
    let mut r = text::no_texts();
    if let Some(h) = home {
        let ssh = paths::join(h, ".ssh");
        text::push_text(&mut r, paths::join(ssh.as_str(), "known_hosts").as_str());
        text::push_text(&mut r, paths::join(ssh.as_str(), "known_hosts2").as_str());
    }
    text::push_text(&mut r, "/etc/ssh/ssh_known_hosts");
    assert(text::texts(r@) =~= (match home {
        Some(h) => seq![
            paths::below(paths::below(h@, ".ssh"@), "known_hosts"@),
            paths::below(paths::below(h@, ".ssh"@), "known_hosts2"@),
        ],
        None => Seq::empty(),
    }) + seq!["/etc/ssh/ssh_known_hosts"@]);
    r
}

/// What is done with a host, once its key was checked.
#[derive(Debug, Clone, Copy, PartialEq, Eq, Structural)]
pub enum HostDecision {
    /// No host key was presented: the transport judges by itself.
    Passthrough,
    Accept,
    /// The key differs from the known one: refused without asking.
    Refuse,
    /// The user decides, and an accepted key is remembered.
    Ask,
}

/// Decides what is done with a host. `status` is `None` where no host key was presented.
pub fn verify_host_key(status: Option<HostKeyStatus>) -> (r: HostDecision)
    ensures
        r == (match status {
            None => HostDecision::Passthrough,
            Some(HostKeyStatus::Match) => HostDecision::Accept,
            Some(HostKeyStatus::Changed) => HostDecision::Refuse,
            Some(HostKeyStatus::Unknown) => HostDecision::Ask,
        }),
{
    match status {
        None => HostDecision::Passthrough,
        Some(HostKeyStatus::Match) => HostDecision::Accept,
        Some(HostKeyStatus::Changed) => HostDecision::Refuse,
        Some(HostKeyStatus::Unknown) => HostDecision::Ask,
    }
}

} // verus!
