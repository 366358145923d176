//! Access to the project's files for the user and for the containers.
use vstd::prelude::*;

use crate::docker;
use crate::lines;
use crate::lines::lines_of;
use crate::number;
use crate::text;
use crate::text::{contains, push_text, same};

verus! {

/// The rights that the user gets on macOS, with those that pass them on to new files.
pub const MACOS_ACL_PERMS: &'static str = "read,write,execute,file_inherit,directory_inherit";

// ---------------------------------------------------------------- what is set already

/// Whether one of the lines of a text, trimmed, is an entry.
pub open spec fn has_entry(output: Seq<char>, entry: Seq<char>) -> bool {
    exists|i: int|
        0 <= i < lines::lines(output).len() && text::trimmed(#[trigger] lines::lines(output)[i])
            == entry
}

fn entry_listed(output: &str, entry: &str) -> (r: bool)
    ensures
        r == has_entry(output@, entry@),
{
    let all = lines_of(output);
    let ghost seqs = lines::lines(output@);
    let mut i: usize = 0;
    while i < all.len()
        invariant
            i <= all@.len(),
            seqs == text::texts(all@),
            seqs == lines::lines(output@),
            forall|k: int| 0 <= k < i ==> text::trimmed(#[trigger] seqs[k]) != entry@,
        decreases all@.len() - i,
    {
        assert(seqs[i as int] == all@[i as int]@);
        if same(text::trim(all[i].as_str()).as_str(), entry) {
            return true;
        }
        i += 1;
    }
    false
}

/// The entry of a user by number, as `getfacl -n` shows it.
pub open spec fn user_entry(uid: nat) -> Seq<char> {
    "user:"@ + number::decimal(uid) + ":rwx"@
}

/// Whether `getfacl` shows the user's entry and the one that new files get, given what it printed
/// where it succeeded.
pub fn linux_host_acl_already_set(output: Option<&str>, uid: u32) -> (r: bool)
    ensures
        r == (output matches Some(o) && (has_entry(o@, user_entry(uid as nat)) && has_entry(
            o@,
            "default:"@ + user_entry(uid as nat),
        ))),
{
    match output {
        Some(o) => {
            let mut entry = text::owned("user:");
            entry.append(number::to_decimal(uid as u64).as_str());
            entry.append(":rwx");
            let mut default = text::owned("default:");
            default.append(entry.as_str());
            entry_listed(o, entry.as_str()) && entry_listed(o, default.as_str())
        },
        None => false,
    }
}

/// Whether a line of `ls -lde` grants a user access that new files inherit.
pub open spec fn grants(line: Seq<char>, username: Seq<char>) -> bool {
    let l = text::trimmed(line);
    text::has_text(l, "user:"@ + username + " allow"@) && text::has_text(l, "file_inherit"@)
        && text::has_text(l, "directory_inherit"@)
}

/// Whether one of the lines of a text grants a user access that new files inherit.
pub open spec fn is_granted(output: Seq<char>, username: Seq<char>) -> bool {
    exists|i: int|
        0 <= i < lines::lines(output).len() && grants(
            #[trigger] lines::lines(output)[i],
            username,
        )
}

/// Whether `ls -lde` shows the user's entry with both marks of inheritance, given what it printed
/// where it succeeded.
pub fn macos_host_acl_already_set(output: Option<&str>, username: &str) -> (r: bool)
    ensures
        r == (output matches Some(o) && is_granted(o@, username@)),
{
    let o = match output {
        Some(o) => o,
        None => {
            return false;
        },
    };
    let mut user = text::owned("user:");
    user.append(username);
    user.append(" allow");
    let all = lines_of(o);
    let ghost seqs = lines::lines(o@);
    let mut i: usize = 0;
    while i < all.len()
        invariant
            i <= all@.len(),
            seqs == text::texts(all@),
            output matches Some(p) && seqs == lines::lines(p@),
            user@ == "user:"@ + username@ + " allow"@,
            forall|k: int| 0 <= k < i ==> !grants(#[trigger] seqs[k], username@),
        decreases all@.len() - i,
    {
        assert(seqs[i as int] == all@[i as int]@);
        let l = text::trim(all[i].as_str());
        if contains(l.as_str(), user.as_str()) && contains(l.as_str(), "file_inherit")
            && contains(l.as_str(), "directory_inherit") {
            assert(grants(seqs[i as int], username@));
            return true;
        }
        i += 1;
    }
    false
}

/// The name of the user: by the environment, or else by `id -un` where it succeeded, or else the
/// number.
pub fn current_username(user: Option<&str>, id: Option<&str>, uid: u32) -> (r: String)
    ensures
        r@ == (if user matches Some(u) && u@.len() > 0 {
            user->0@
        } else if id matches Some(n) && text::trimmed(n@).len() > 0 {
            text::trimmed(id->0@)
        } else {
            number::decimal(uid as nat)
        }),
{
    if let Some(u) = user {
        if !u.is_empty() {
            return text::owned(u);
        }
    }
    if let Some(n) = id {
        let name = text::trim(n);
        if !name.as_str().is_empty() {
            return name;
        }
    }
    number::to_decimal(uid as u64)
}

// ---------------------------------------------------------------- setting it

/// The entry that grants a user access on macOS, new files included.
pub fn macos_host_ace(username: &str) -> (r: String)
    ensures
        r@ == "user:"@ + username@ + " allow "@ + MACOS_ACL_PERMS@,
{
    let mut r = text::owned("user:");
    r.append(username);
    r.append(" allow ");
    r.append(MACOS_ACL_PERMS);
    r
}

/// The call that sets an entry everywhere below a directory, or the one that new files get.
pub open spec fn setfacl(entry: Seq<char>, default_acl: bool, dir: Seq<char>) -> Seq<Seq<char>> {
    seq!["setfacl"@, "-R"@] + (if default_acl {
        seq!["-d"@]
    } else {
        Seq::empty()
    }) + seq!["-m"@, entry, dir]
}

fn setfacl_args(entry: &str, default_acl: bool, dir: &str) -> (r: Vec<String>)
    ensures
        text::texts(r@) == setfacl(entry@, default_acl, dir@),
{
    let mut r = text::no_texts();
    push_text(&mut r, "setfacl");
    push_text(&mut r, "-R");
    if default_acl {
        push_text(&mut r, "-d");
    }
    push_text(&mut r, "-m");
    push_text(&mut r, entry);
    push_text(&mut r, dir);
    assert(text::texts(r@) =~= setfacl(entry@, default_acl, dir@));
    r
}

/// The views of a list of calls.
pub open spec fn calls(v: Seq<Vec<String>>) -> Seq<Seq<Seq<char>>> {
    v.map_values(|c: Vec<String>| text::texts(c@))
}

/// The entry of a user by number.
pub open spec fn access(uid: nat) -> Seq<char> {
    "u:"@ + number::decimal(uid) + ":rwX"@
}

fn access_of(uid: u32) -> (r: String)
    ensures
        r@ == access(uid as nat),
{
    let mut r = text::owned("u:");
    r.append(number::to_decimal(uid as u64).as_str());
    r.append(":rwX");
    r
}

/// How the user gets access to the project's files: the calls of `sudo` in the project's
/// directory. On macOS the one entry covers new files too. Nothing is done where it is set.
pub fn apply_host_acl(macos: bool, already_set: bool, uid: u32, username: &str) -> (r: Vec<
    Vec<String>,
>)
    ensures
        calls(r@) == (if already_set {
            Seq::empty()
        } else if macos {
            seq![
                seq![
                    "chmod"@,
                    "-R"@,
                    "+a"@,
                    "user:"@ + username@ + " allow "@ + MACOS_ACL_PERMS@,
                    "htdocs"@,
                ],
            ]
        } else {
            seq![
                setfacl(access(uid as nat), false, "htdocs"@),
                setfacl(access(uid as nat), true, "htdocs"@),
            ]
        }),
{
    let mut r: Vec<Vec<String>> = Vec::new();
    if already_set {
        assert(calls(r@) =~= Seq::empty());
        return r;
    }
    if macos {
        let mut c = text::no_texts();
        push_text(&mut c, "chmod");
        push_text(&mut c, "-R");
        push_text(&mut c, "+a");
        push_text(&mut c, macos_host_ace(username).as_str());
        push_text(&mut c, "htdocs");
        let ghost wanted = seq![
            "chmod"@,
            "-R"@,
            "+a"@,
            "user:"@ + username@ + " allow "@ + MACOS_ACL_PERMS@,
            "htdocs"@,
        ];
        assert(text::texts(c@) =~= wanted);
        r.push(c);
        assert(calls(r@) =~= seq![wanted]);
    } else {
        let entry = access_of(uid);
        let a = setfacl_args(entry.as_str(), false, "htdocs");
        let b = setfacl_args(entry.as_str(), true, "htdocs");
        r.push(a);
        r.push(b);
        assert(calls(r@) =~= seq![
            setfacl(access(uid as nat), false, "htdocs"@),
            setfacl(access(uid as nat), true, "htdocs"@),
        ]);
    }
    r
}

/// How the containers' user gets access to the project's files: the calls of `docker`.
pub fn apply_container_acl(project_dir: &str) -> (r: Vec<Vec<String>>)
    ensures
        calls(r@) == seq![
            docker::compose(
                project_dir@,
                seq!["exec"@, "-T"@, "-u"@, "root"@, "php"@] + setfacl(
                    "u:33:rwX"@,
                    false,
                    "/var/www"@,
                ),
            ),
            docker::compose(
                project_dir@,
                seq!["exec"@, "-T"@, "-u"@, "root"@, "php"@] + setfacl(
                    "u:33:rwX"@,
                    true,
                    "/var/www"@,
                ),
            ),
        ],
{
    let a = setfacl_args("u:33:rwX", false, "/var/www");
    let b = setfacl_args("u:33:rwX", true, "/var/www");
    let mut r: Vec<Vec<String>> = Vec::new();
    r.push(docker::exec_as_root(project_dir, "php", &a));
    r.push(docker::exec_as_root(project_dir, "php", &b));
    assert(calls(r@) =~= seq![
        docker::compose(
            project_dir@,
            seq!["exec"@, "-T"@, "-u"@, "root"@, "php"@] + setfacl(
                "u:33:rwX"@,
                false,
                "/var/www"@,
            ),
        ),
        docker::compose(
            project_dir@,
            seq!["exec"@, "-T"@, "-u"@, "root"@, "php"@] + setfacl("u:33:rwX"@, true, "/var/www"@),
        ),
    ]);
    r
}

} // verus!
