//! Small rules shared by the commands.
pub mod acl;
pub mod dependencies;
pub mod forwarding;
pub mod laws;
pub mod phpstorm;
pub mod platform;
pub mod sudo;
pub mod throttle_cache;

use sha2::Digest;
use vstd::prelude::*;

use crate::number;
use crate::paths;
use crate::paths::join;
use crate::text;
use crate::text::{contains_char, is_listed, same};

verus! {

// ---------------------------------------------------------------- hashes

/// The SHA-256 digest of some bytes, as the `sha2` crate computes it.
pub uninterp spec fn sha256_digest(bytes: Seq<u8>) -> Seq<u8>;

/// `Sha256::digest` of the `sha2` crate. Its result is taken as it is, under the name
/// [`sha256_digest`]; a digest has 32 bytes.
#[verifier::external_body]
fn sha256(bytes: &[u8]) -> (r: Vec<u8>)
    ensures
        r@ == sha256_digest(bytes@),
        r@.len() == 32,
{
    sha2::Sha256::digest(bytes).to_vec()
}

/// The hexadecimal digit for a number below sixteen.
pub open spec fn hex_digit(n: int) -> char {
    if n < 10 {
        ('0' as u32 + n) as char
    } else {
        ('a' as u32 + n - 10) as char
    }
}

/// Bytes in hexadecimal: two lower case digits each.
pub open spec fn hex(bytes: Seq<u8>) -> Seq<char>
    decreases bytes.len(),
{
    if bytes.len() == 0 {
        Seq::empty()
    } else {
        hex(bytes.drop_last()).push(hex_digit(bytes.last() as int / 16)).push(
            hex_digit(bytes.last() as int % 16),
        )
    }
}

/// Different bytes are written differently in hexadecimal.
pub proof fn hex_tells_bytes_apart(a: Seq<u8>, b: Seq<u8>)
    requires
        hex(a) == hex(b),
    ensures
        a == b,
    decreases a.len(),
{
    if a.len() == 0 || b.len() == 0 {
        assert(a.len() > 0 ==> hex(a).len() > 0);
        assert(b.len() > 0 ==> hex(b).len() > 0);
        assert(a =~= b);
    } else {
        let x = hex(a.drop_last()).push(hex_digit(a.last() as int / 16));
        let y = hex(b.drop_last()).push(hex_digit(b.last() as int / 16));
        assert(hex(a).last() == hex_digit(a.last() as int % 16));
        assert(hex(b).last() == hex_digit(b.last() as int % 16));
        assert(hex(a).drop_last() =~= x && hex(b).drop_last() =~= y);
        assert(x.last() == y.last());
        assert(x.drop_last() =~= hex(a.drop_last()) && y.drop_last() =~= hex(b.drop_last()));
        hex_tells_bytes_apart(a.drop_last(), b.drop_last());
        assert(a =~= a.drop_last().push(a.last()));
        assert(b =~= b.drop_last().push(b.last()));
    }
}

fn hex_char(n: u8) -> (r: char)
    requires
        n < 16,
    ensures
        r == hex_digit(n as int),
{
    if n < 10 {
        (n + 48) as char
    } else {
        (n + 87) as char
    }
}

/// Hex-encoded SHA-256 of `bytes`. Also that of a file with this content, so the hashes of
/// files and of bytes in memory can be compared.
pub fn hash_bytes(bytes: &[u8]) -> (r: String)
    ensures
        r@ == hex(sha256_digest(bytes@)),
        r@.len() == 64,
{
    let d = sha256(bytes);
    to_hex(&d)
}

/// Writes bytes in hexadecimal.
pub fn to_hex(d: &Vec<u8>) -> (r: String)
    ensures
        r@ == hex(d@),
        r@.len() == 2 * d@.len(),
{
    let mut r = String::new();
    let mut i: usize = 0;
    assert(d@.take(0) =~= Seq::empty());
    while i < d.len()
        invariant
            i <= d@.len(),
            r@ == hex(d@.take(i as int)),
            r@.len() == 2 * i,
        decreases d@.len() - i,
    {
        let b = d[i];
        r.push(hex_char(b / 16));
        r.push(hex_char(b % 16));
        assert(d@.take(i + 1).drop_last() =~= d@.take(i as int));
        i += 1;
    }
    assert(d@.take(i as int) =~= d@);
    r
}

// ---------------------------------------------------------------- names

/// Whether a name is a plain file name: not empty, without a separator, and none of the
/// two names that stand for directories.
pub open spec fn is_plain_name(name: Seq<char>) -> bool {
    &&& name.len() > 0
    &&& !name.contains('/')
    &&& !name.contains('\\')
    &&& name != "."@
    &&& name != ".."@
}

/// Accepts the names that a custom command may have.
pub fn sanitize_command_name(name: &str) -> (r: Result<(), String>)
    ensures
        r is Ok <==> is_plain_name(name@),
        r matches Err(e) ==> e@ == "Invalid command name '"@ + name@
            + "': must be a plain filename with no path separators"@,
{
    if name.is_empty() || contains_char(name, '/') || contains_char(name, '\\') || same(name, ".")
        || same(name, "..") {
        let mut e = text::owned("Invalid command name '");
        e.append(name);
        e.append("': must be a plain filename with no path separators");
        return Err(e);
    }
    Ok(())
}

/// Whether a project directory carries one of the two files that mark it as managed.
pub open spec fn managed(project_dir: Seq<char>, existing: Seq<Seq<char>>) -> bool {
    ||| existing.contains(paths::below(project_dir, ".managed-by-docker-control-plugin"@))
    ||| existing.contains(paths::below(project_dir, ".managed-by-docker-control"@))
}

/// Whether a project is managed by this tool, where `existing` lists the paths that exist.
pub fn is_managed(project_dir: &str, existing: &Vec<String>) -> (r: bool)
    ensures
        r == managed(project_dir@, text::texts(existing@)),
{
    is_listed(existing, join(project_dir, ".managed-by-docker-control-plugin").as_str())
        || is_listed(existing, join(project_dir, ".managed-by-docker-control").as_str())
}

// ---------------------------------------------------------------- copying

/// Whether a file is copied over another: where there is none yet, or where their hashes differ.
pub fn needs_copy(source: &str, target: Option<&str>) -> (r: bool)
    ensures
        r == (match target {
            Some(t) => source@ != t@,
            None => true,
        }),
{
    match target {
        Some(t) => !same(source, t),
        None => true,
    }
}

// ---------------------------------------------------------------- the agent

/// The number of the process that a file names, where its text is one.
pub open spec fn pid_in(content: Seq<char>) -> Option<nat> {
    number::unsigned_up_to(text::trimmed(content), 4294967295)
}

/// The number of the process that forwards the key agent, by the text of its file where that can
/// be read.
pub fn stop_ssh_agent(content: Option<&str>) -> (r: Result<u32, String>)
    ensures
        (match content {
            None => r matches Err(e) && e@
                == "SSH agent daemon is not running (PID file not found)"@,
            Some(c) => match pid_in(c@) {
                Some(n) => r matches Ok(p) && p as nat == n,
                None => r matches Err(e) && e@ == "Invalid PID in file"@,
            },
        }),
{
    match content {
        None => Err(text::owned("SSH agent daemon is not running (PID file not found)")),
        Some(c) => match number::parse_up_to(text::trim(c).as_str(), 4294967295) {
            Some(n) => Ok(n as u32),
            None => Err(text::owned("Invalid PID in file")),
        },
    }
}

/// What is told of a process that was not there any more.
pub fn stale_pid(pid: u32) -> (r: String)
    ensures
        r@ == "Process "@ + number::decimal(pid as nat)
            + " not found (stale PID file), cleaning up."@,
{
    let mut m = text::owned("Process ");
    m.append(number::to_decimal(pid as u64).as_str());
    m.append(" not found (stale PID file), cleaning up.");
    m
}

} // verus!
