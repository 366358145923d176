//! JSON, as far as the tool reads and writes it. A value inside a document is handled as the
//! text it has in compact form.
use vstd::prelude::*;

use crate::lines;
use crate::text;
use crate::text::same;

verus! {

// ---------------------------------------------------------------- reading

/// The members of an object with the text of each value, where a text is a JSON object: what
/// `serde_json` reads, in the order in which it hands them out.
pub uninterp spec fn json_members(s: Seq<char>) -> Option<Seq<(Seq<char>, Seq<char>)>>;

/// The texts of the items of an array, where a text is a JSON array, as `serde_json` reads it.
pub uninterp spec fn json_items(s: Seq<char>) -> Option<Seq<Seq<char>>>;

/// The string that a text stands for, where it is a JSON string, as `serde_json` reads it.
pub uninterp spec fn json_text(s: Seq<char>) -> Option<Seq<char>>;

/// Whether a text is a JSON document, as `serde_json` judges it.
pub uninterp spec fn json_valid(s: Seq<char>) -> bool;

/// The views of pairs of strings.
pub open spec fn pairs(v: Seq<(String, String)>) -> Seq<(Seq<char>, Seq<char>)> {
    v.map_values(|p: (String, String)| (p.0@, p.1@))
}

/// `serde_json::from_str` for a map of values: the members of an object, each value written
/// out with `to_string`. `None` stands for any error. The result is taken as it is, under the
/// name [`json_members`].
#[verifier::external_body]
fn read_members(s: &str) -> (r: Option<Vec<(String, String)>>)
    ensures
        (match r {
            Some(v) => Some(pairs(v@)),
            None => None,
        }) == json_members(s@),
{
    let map = serde_json::from_str::<serde_json::Map<String, serde_json::Value>>(s).ok()?;
    Some(map.into_iter().map(|m| (m.0, m.1.to_string())).collect())
}

/// `serde_json::from_str` for a list of values: the items of an array, each written out with
/// `to_string`. `None` stands for any error. The result is taken as it is, under the name
/// [`json_items`].
#[verifier::external_body]
fn read_items(s: &str) -> (r: Option<Vec<String>>)
    ensures
        (match r {
            Some(v) => Some(text::texts(v@)),
            None => None,
        }) == json_items(s@),
{
    let list = serde_json::from_str::<Vec<serde_json::Value>>(s).ok()?;
    Some(list.into_iter().map(|v| v.to_string()).collect())
}

/// `serde_json::from_str` for a string. `None` stands for any error. The result is taken as it
/// is, under the name [`json_text`].
#[verifier::external_body]
fn read_text(s: &str) -> (r: Option<String>)
    ensures
        crate::paths::opt(r) == json_text(s@),
{
    serde_json::from_str::<String>(s).ok()
}

/// `serde_json::from_str` for any value: whether it succeeds. Named [`json_valid`].
#[verifier::external_body]
fn reads(s: &str) -> (r: bool)
    ensures
        r == json_valid(s@),
{
    serde_json::from_str::<serde_json::Value>(s).is_ok()
}

/// The value of a member among others: that of the first one with this key.
pub open spec fn member(ms: Seq<(Seq<char>, Seq<char>)>, key: Seq<char>) -> Option<Seq<char>>
    decreases ms.len(),
{
    if ms.len() == 0 {
        None
    } else if ms[0].0 == key {
        Some(ms[0].1)
    } else {
        member(ms.drop_first(), key)
    }
}

/// The text of a member of an object.
pub open spec fn field(doc: Seq<char>, key: Seq<char>) -> Option<Seq<char>> {
    match json_members(doc) {
        Some(ms) => member(ms, key),
        None => None,
    }
}

/// The string that is a member of an object.
pub open spec fn text_field(doc: Seq<char>, key: Seq<char>) -> Option<Seq<char>> {
    match field(doc, key) {
        Some(t) => json_text(t),
        None => None,
    }
}

/// The value of a member among others.
pub fn find_member(ms: &Vec<(String, String)>, key: &str) -> (r: Option<String>)
    ensures
        crate::paths::opt(r) == member(pairs(ms@), key@),
{
    let ghost all = pairs(ms@);
    let mut i: usize = 0;
    assert(all.skip(0) =~= all);
    while i < ms.len()
        invariant
            i <= ms@.len(),
            all == pairs(ms@),
            member(all, key@) == member(all.skip(i as int), key@),
        decreases ms@.len() - i,
    {
        let ghost rest = all.skip(i as int);
        assert(rest[0] == (ms@[i as int].0@, ms@[i as int].1@));
        if same(ms[i].0.as_str(), key) {
            return Some(ms[i].1.clone());
        }
        assert(rest.drop_first() =~= all.skip(i + 1));
        i += 1;
    }
    None
}

/// Whether a text is a JSON document.
pub fn is_json(doc: &str) -> (r: bool)
    ensures
        r == json_valid(doc@),
{
    reads(doc)
}

/// The members of an object.
pub fn members(doc: &str) -> (r: Option<Vec<(String, String)>>)
    ensures
        (match r {
            Some(v) => Some(pairs(v@)),
            None => None,
        }) == json_members(doc@),
{
    read_members(doc)
}

/// The items of an array.
pub fn items(doc: &str) -> (r: Option<Vec<String>>)
    ensures
        (match r {
            Some(v) => Some(text::texts(v@)),
            None => None,
        }) == json_items(doc@),
{
    read_items(doc)
}

/// The text of a member of an object.
pub fn get(doc: &str, key: &str) -> (r: Option<String>)
    ensures
        crate::paths::opt(r) == field(doc@, key@),
{
    match read_members(doc) {
        Some(ms) => find_member(&ms, key),
        None => None,
    }
}

/// The string that a text stands for.
pub fn as_text(doc: &str) -> (r: Option<String>)
    ensures
        crate::paths::opt(r) == json_text(doc@),
{
    read_text(doc)
}

/// The string that is a member of an object.
pub fn get_text(doc: &str, key: &str) -> (r: Option<String>)
    ensures
        crate::paths::opt(r) == text_field(doc@, key@),
{
    match get(doc, key) {
        Some(t) => read_text(t.as_str()),
        None => None,
    }
}

// ---------------------------------------------------------------- writing

/// A string written as JSON, as `serde_json` writes it.
pub uninterp spec fn json_quoted(s: Seq<char>) -> Seq<char>;

/// A document written out with indentation, as `serde_json` writes it.
pub uninterp spec fn json_pretty(s: Seq<char>) -> Option<Seq<char>>;

/// `to_string` of a `serde_json::Value` that is a string, which quotes and escapes it. Named
/// [`json_quoted`]. Reading the result back gives the string.
#[verifier::external_body]
fn write_text(s: &str) -> (r: String)
    ensures
        r@ == json_quoted(s@),
        json_text(r@) == Some(s@),
{
    serde_json::Value::String(s.to_string()).to_string()
}

/// `serde_json::from_str` for any value, written out again with `serde_json::to_string_pretty`.
/// `None` stands for any error. Named [`json_pretty`].
#[verifier::external_body]
fn write_pretty(s: &str) -> (r: Option<String>)
    ensures
        crate::paths::opt(r) == json_pretty(s@),
{
    let value = serde_json::from_str::<serde_json::Value>(s).ok()?;
    serde_json::to_string_pretty(&value).ok()
}

/// Writes a string as JSON.
pub fn quote(s: &str) -> (r: String)
    ensures
        r@ == json_quoted(s@),
        json_text(r@) == Some(s@),
{
    write_text(s)
}

/// Writes a document out with indentation.
pub fn pretty(s: &str) -> (r: Option<String>)
    ensures
        crate::paths::opt(r) == json_pretty(s@),
{
    write_pretty(s)
}

/// One member of an object, as it is written.
pub open spec fn written_member(m: (Seq<char>, Seq<char>)) -> Seq<char> {
    json_quoted(m.0) + ":"@ + m.1
}

/// An object with these members, whose values are given as JSON texts.
pub open spec fn written_object(ms: Seq<(Seq<char>, Seq<char>)>) -> Seq<char> {
    "{"@ + lines::joined(
        ms.map_values(|m: (Seq<char>, Seq<char>)| written_member(m)),
        ","@,
    ) + "}"@
}

/// Writes an object with these members, whose values are given as JSON texts.
pub fn object(ms: &Vec<(String, String)>) -> (r: String)
    ensures
        r@ == written_object(pairs(ms@)),
{
    let ghost all = pairs(ms@).map_values(|m: (Seq<char>, Seq<char>)| written_member(m));
    let mut parts: Vec<String> = Vec::new();
    let mut i: usize = 0;
    while i < ms.len()
        invariant
            i <= ms@.len(),
            all == pairs(ms@).map_values(|m: (Seq<char>, Seq<char>)| written_member(m)),
            text::texts(parts@) == all.take(i as int),
        decreases ms@.len() - i,
    {
        let mut part = quote(ms[i].0.as_str());
        part.append(":");
        part.append(ms[i].1.as_str());
        let ghost before = text::texts(parts@);
        parts.push(part);
        assert(text::texts(parts@) =~= before.push(part@));
        assert(all.take(i + 1) =~= before.push(all[i as int]));
        i += 1;
    }
    assert(all.take(i as int) =~= all);
    let mut r = text::owned("{");
    r.append(lines::join(&parts, ",").as_str());
    r.append("}");
    r
}

/// The members with the value of one of them set: in its place, or at the end.
pub open spec fn with_member(
    ms: Seq<(Seq<char>, Seq<char>)>,
    key: Seq<char>,
    value: Seq<char>,
) -> Seq<(Seq<char>, Seq<char>)>
    decreases ms.len(),
{
    if ms.len() == 0 {
        seq![(key, value)]
    } else if ms[0].0 == key {
        seq![(key, value)] + ms.drop_first()
    } else {
        seq![ms[0]] + with_member(ms.drop_first(), key, value)
    }
}

/// Sets the value of a member.
pub fn set_member(ms: &Vec<(String, String)>, key: &str, value: &str) -> (r: Vec<(String, String)>)
    ensures
        pairs(r@) == with_member(pairs(ms@), key@, value@),
{
    let ghost all = pairs(ms@);
    let ghost want = with_member(all, key@, value@);
    let mut r: Vec<(String, String)> = Vec::new();
    let mut i: usize = 0;
    let mut found = false;
    assert(all.skip(0) =~= all);
    assert(pairs(r@) + with_member(all, key@, value@) =~= want);
    while i < ms.len()
        invariant
            i <= ms@.len(),
            all == pairs(ms@),
            want == with_member(all, key@, value@),
            !found ==> pairs(r@) + with_member(all.skip(i as int), key@, value@) == want,
            found ==> pairs(r@) + all.skip(i as int) == want,
        decreases ms@.len() - i,
    {
        let ghost rest = all.skip(i as int);
        let ghost before = pairs(r@);
        let ghost head = (ms@[i as int].0@, ms@[i as int].1@);
        assert(rest[0] == head);
        assert(rest.drop_first() =~= all.skip(i + 1));
        assert(rest =~= seq![head] + all.skip(i + 1));
        if !found && same(ms[i].0.as_str(), key) {
            let m = (text::owned(key), text::owned(value));
            r.push(m);
            found = true;
            assert(pairs(r@) =~= before.push((key@, value@)));
            assert(pairs(r@) + all.skip(i + 1) =~= want);
        } else {
            let m = (ms[i].0.clone(), ms[i].1.clone());
            r.push(m);
            assert(pairs(r@) =~= before.push(head));
            if found {
                assert(pairs(r@) + all.skip(i + 1) =~= want);
            } else {
                assert(pairs(r@) + with_member(all.skip(i + 1), key@, value@) =~= want);
            }
        }
        i += 1;
    }
    assert(all.skip(i as int) =~= Seq::empty());
    if !found {
        let ghost before = pairs(r@);
        let m = (text::owned(key), text::owned(value));
        r.push(m);
        assert(pairs(r@) =~= before.push((key@, value@)));
    }
    assert(pairs(r@) =~= want);
    r
}

} // verus!
