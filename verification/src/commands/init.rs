//! Making a new project.
use vstd::prelude::*;

use crate::commands::deploy;
use crate::lines;
use crate::number;
use crate::text;
use crate::text::{chars_of, push_text};

verus! {

/// What is done with the directory of a new project.
#[derive(Debug, Clone, Copy, PartialEq, Eq, Structural)]
pub enum InitStart {
    /// It is a project already.
    AlreadyManaged,
    /// It holds something else; the user is asked.
    Ask,
    Go,
}

/// What is done with the directory of a new project.
pub fn execute(holds_something: bool, managed: bool) -> (r: InitStart)
    ensures
        r == (if !holds_something {
            InitStart::Go
        } else if managed {
            InitStart::AlreadyManaged
        } else {
            InitStart::Ask
        }),
{
    if !holds_something {
        InitStart::Go
    } else if managed {
        InitStart::AlreadyManaged
    } else {
        InitStart::Ask
    }
}

/// One step of making a project.
#[derive(Debug, Clone, Copy, PartialEq, Eq, Structural)]
pub enum InitStep {
    CopyTemplate,
    /// The list of ignored files that the template brings becomes that of the project.
    RenameGitignore,
    MakeHtdocs,
    /// What the template brought is recorded.
    RecordTemplate,
    HostAcl,
    /// The user is asked for the name and the PHP version, and the environment is written.
    WriteEnvironment,
    OfferCheckout,
}

/// The steps of making a project. The template is recorded once its files are in place.
pub fn steps(has_gitignore_dist: bool) -> (r: Vec<InitStep>)
    ensures
        r@ == seq![InitStep::CopyTemplate] + (if has_gitignore_dist {
            seq![InitStep::RenameGitignore]
        } else {
            Seq::empty()
        }) + seq![
            InitStep::MakeHtdocs,
            InitStep::RecordTemplate,
            InitStep::HostAcl,
            InitStep::WriteEnvironment,
            InitStep::OfferCheckout,
        ],
{
    let mut r: Vec<InitStep> = Vec::new();
    r.push(InitStep::CopyTemplate);
    if has_gitignore_dist {
        r.push(InitStep::RenameGitignore);
    }
    r.push(InitStep::MakeHtdocs);
    r.push(InitStep::RecordTemplate);
    r.push(InitStep::HostAcl);
    r.push(InitStep::WriteEnvironment);
    r.push(InitStep::OfferCheckout);
    assert(r@ =~= seq![InitStep::CopyTemplate] + (if has_gitignore_dist {
        seq![InitStep::RenameGitignore]
    } else {
        Seq::empty()
    }) + seq![
        InitStep::MakeHtdocs,
        InitStep::RecordTemplate,
        InitStep::HostAcl,
        InitStep::WriteEnvironment,
        InitStep::OfferCheckout,
    ]);
    r
}

/// Whether a character cannot stand in the name of a project.
pub open spec fn is_separator(c: char) -> bool {
    c == '/' || c == '\\' || c == '.' || c == ':' || c == ',' || c == '-' || c == ' '
}

/// A name in lower case, with an underscore in the place of every separator.
pub open spec fn sanitized(name: Seq<char>) -> Seq<char> {
    text::lowercase(name).map_values(
        |c: char|
            if is_separator(c) {
                '_'
            } else {
                c
            },
    )
}

/// A text with an underscore in the place of every separator.
pub fn without_separators(s: &str) -> (r: String)
    ensures
        r@ == s@.map_values(
            |c: char|
                if is_separator(c) {
                    '_'
                } else {
                    c
                },
        ),
{
    let v = chars_of(s);
    let ghost all = s@.map_values(
        |c: char|
            if is_separator(c) {
                '_'
            } else {
                c
            },
    );
    let mut r = text::owned("");
    proof {
        reveal_strlit("");
    }
    let mut i: usize = 0;
    assert(r@ =~= all.take(0));
    while i < v.len()
        invariant
            i <= v@.len(),
            v@ == s@,
            all == s@.map_values(
                |c: char|
                    if is_separator(c) {
                        '_'
                    } else {
                        c
                    },
            ),
            r@ == all.take(i as int),
        decreases v@.len() - i,
    {
        let c = v[i];
        if c == '/' || c == '\\' || c == '.' || c == ':' || c == ',' || c == '-' || c == ' ' {
            r.push('_');
        } else {
            r.push(c);
        }
        assert(all.take(i + 1) =~= all.take(i as int).push(all[i as int]));
        i += 1;
    }
    assert(all.take(i as int) =~= all);
    r
}

/// The name of a project as it stands in host names: in lower case, with an underscore in the
/// place of every separator.
pub fn sanitize_name(name: &str) -> (r: String)
    ensures
        r@ == sanitized(name@),
{
    let l = text::to_lowercase(name);
    without_separators(l.as_str())
}

/// A name that was made fit for host names holds no separator.
pub proof fn a_sanitized_name_has_no_separators(name: Seq<char>, i: int)
    requires
        0 <= i < sanitized(name).len(),
    ensures
        !is_separator(sanitized(name)[i]),
{
}

/// The PHP versions to choose from.
pub fn php_versions() -> (r: Vec<String>)
    ensures
        text::texts(r@) == seq![
            "7.4"@,
            "7.4-oci"@,
            "8.2"@,
            "8.2-oci"@,
            "8.5"@,
            "8.5-oci"@,
        ],
{
    let mut r = text::no_texts();
    push_text(&mut r, "7.4");
    push_text(&mut r, "7.4-oci");
    push_text(&mut r, "8.2");
    push_text(&mut r, "8.2-oci");
    push_text(&mut r, "8.5");
    push_text(&mut r, "8.5-oci");
    assert(text::texts(r@) =~= seq!["7.4"@, "7.4-oci"@, "8.2"@, "8.2-oci"@, "8.5"@, "8.5-oci"@]);
    r
}

/// One line of an environment.
pub open spec fn setting(key: Seq<char>, value: Seq<char>) -> Seq<char> {
    key + "="@ + value
}

/// The domain of a project on the developer's machine.
pub open spec fn local_domain(name: Seq<char>) -> Seq<char> {
    name + ".lvh.me"@
}

/// The lines of the environment of a new project.
pub open spec fn settings(name: Seq<char>, port: u16, php: Seq<char>) -> Seq<Seq<char>> {
    seq![
        setting("BASE_DOMAIN"@, local_domain(name)),
        setting("ENVIRONMENT"@, "development"@),
        setting("DB_HOST_PORT"@, number::decimal(port as nat)),
        setting("PHP_VERSION"@, php),
        setting("PROJECTNAME"@, name),
        setting("XDEBUG_IP"@, "host.docker.internal"@),
        setting("IDE_KEY"@, local_domain(name)),
    ]
}

/// The environment of a new project: its lines, each ended.
pub open spec fn environment(name: Seq<char>, port: u16, php: Seq<char>) -> Seq<char> {
    lines::ended(settings(name, port, php))
}

fn put_setting(out: &mut String, key: &str, value: &str, Ghost(before): Ghost<Seq<Seq<char>>>)
    requires
        old(out)@ == lines::ended(before),
    ensures
        final(out)@ == lines::ended(before.push(setting(key@, value@))),
{
    out.append(key);
    out.append("=");
    out.append(value);
    out.append("\n");
    proof {
        let all = before.push(setting(key@, value@));
        assert(all.drop_last() =~= before);
        assert(out@ =~= lines::ended(before) + setting(key@, value@) + "\n"@);
    }
}

/// The environment of a new project.
pub fn env_content(name: &str, port: u16, php_version: &str) -> (r: String)
    ensures
        r@ == environment(name@, port, php_version@),
{
    let mut domain = text::owned(name);
    domain.append(".lvh.me");
    let ghost all = settings(name@, port, php_version@);
    let mut r = String::new();
    assert(r@ =~= Seq::empty());
    put_setting(&mut r, "BASE_DOMAIN", domain.as_str(), Ghost(Seq::empty()));
    assert(Seq::empty().push(all[0]) =~= all.take(1));
    put_setting(&mut r, "ENVIRONMENT", "development", Ghost(all.take(1)));
    assert(all.take(1).push(all[1]) =~= all.take(2));
    put_setting(&mut r, "DB_HOST_PORT", number::to_decimal(port as u64).as_str(), Ghost(all.take(2)));
    assert(all.take(2).push(all[2]) =~= all.take(3));
    put_setting(&mut r, "PHP_VERSION", php_version, Ghost(all.take(3)));
    assert(all.take(3).push(all[3]) =~= all.take(4));
    put_setting(&mut r, "PROJECTNAME", name, Ghost(all.take(4)));
    assert(all.take(4).push(all[4]) =~= all.take(5));
    put_setting(&mut r, "XDEBUG_IP", "host.docker.internal", Ghost(all.take(5)));
    assert(all.take(5).push(all[5]) =~= all.take(6));
    put_setting(&mut r, "IDE_KEY", domain.as_str(), Ghost(all.take(6)));
    assert(all.take(6).push(all[6]) =~= all);
    r
}

/// The first port from one on, up to another, that is among the free ones.
pub open spec fn first_free(from: int, end: u16, free: Seq<u16>) -> Option<u16>
    decreases end + 1 - from,
{
    if from > end {
        None
    } else if free.contains(from as u16) {
        Some(from as u16)
    } else {
        first_free(from + 1, end, free)
    }
}

fn is_free(free: &Vec<u16>, port: u16) -> (r: bool)
    ensures
        r == free@.contains(port),
{
    let mut i: usize = 0;
    while i < free.len()
        invariant
            i <= free@.len(),
            forall|k: int| 0 <= k < i ==> free@[k] != port,
        decreases free@.len() - i,
    {
        if free[i] == port {
            assert(free@[i as int] == port);
            return true;
        }
        i += 1;
    }
    false
}

/// The first free port of a range, where `free` lists those that could be taken.
pub fn find_free_port(start: u16, end: u16, free: &Vec<u16>) -> (r: Result<u16, String>)
    ensures
        match first_free(start as int, end, free@) {
            Some(p) => r == Ok::<u16, String>(p),
            None => r matches Err(e) && e@ == "No free ports found in range "@ + number::decimal(
                start as nat,
            ) + "-"@ + number::decimal(end as nat),
        },
{
    let mut port: u16 = start;
    let mut over = start > end;
    while !over
        invariant
            !over ==> start <= port <= end && first_free(start as int, end, free@) == first_free(
                port as int,
                end,
                free@,
            ),
            over ==> first_free(start as int, end, free@) is None,
        decreases
                if over {
                    0int
                } else {
                    end - port + 1
                },
    {
        if is_free(free, port) {
            return Ok(port);
        }
        if port == end {
            assert(first_free(port + 1, end, free@) is None);
            over = true;
        } else {
            port += 1;
        }
    }
    let mut e = text::owned("No free ports found in range ");
    e.append(number::to_decimal(start as u64).as_str());
    e.append("-");
    e.append(number::to_decimal(end as u64).as_str());
    Err(e)
}

// ---------------------------------------------------------------- laws

/// Whether a key can stand in an environment as it is.
pub open spec fn plain_key(key: Seq<char>) -> bool {
    key.len() > 0 && forall|i: int|
        0 <= i < key.len() ==> 'A' <= #[trigger] key[i] <= 'Z' || key[i] == '_'
}

proof fn lemma_setting(key: Seq<char>, value: Seq<char>)
    requires
        plain_key(key),
    ensures
        text::cut(setting(key, value), '=') == Some((key, value)),
        text::trimmed(key) == key,
        !value.contains('\n') ==> !setting(key, value).contains('\n'),
        value.len() > 0 && value.last() != '\r' ==> lines::strip_cr(setting(key, value)) == setting(
            key,
            value,
        ),
        value.len() == 0 ==> lines::strip_cr(setting(key, value)) == setting(key, value),
{
    reveal_strlit("=");
    let s = setting(key, value);
    let n = key.len() as int;
    assert(s[n] == '=');
    assert(s.contains('='));
    s.index_of_first_ensures('=');
    let i = s.index_of_first('=')->0;
    assert(i == n) by {
        if i < n {
            assert(s[i] == key[i]);
        }
    }
    assert(s.take(n) =~= key);
    assert(s.skip(n + 1) =~= value);
    assert(!text::is_white(key[0]));
    assert(!text::is_white(key[n - 1]));
    if !value.contains('\n') {
        assert forall|k: int| 0 <= k < s.len() implies s[k] != '\n' by {
            if k < n {
                assert(s[k] == key[k]);
            } else if k > n {
                assert(s[k] == value[k - n - 1]);
                assert(value.contains(value[k - n - 1]));
            }
        }
    }
}

/// The lines of ended lines are those lines.
proof fn lemma_ended(all: Seq<Seq<char>>)
    requires
        forall|i: int|
            0 <= i < all.len() ==> !(#[trigger] all[i]).contains('\n') && lines::strip_cr(all[i])
                == all[i],
    ensures
        lines::lines(lines::ended(all)) == all,
        lines::split(lines::ended(all), '\n') == all.push(Seq::empty()),
    decreases all.len(),
{
    reveal_strlit("\n");
    assert("\n"@ =~= seq!['\n']);
    let e = lines::ended(all);
    if all.len() == 0 {
        assert(lines::split(e, '\n') =~= all.push(Seq::empty()));
    } else {
        let init = all.drop_last();
        assert forall|i: int| 0 <= i < init.len() implies !(#[trigger] init[i]).contains('\n')
            && lines::strip_cr(init[i]) == init[i] by {
            assert(init[i] == all[i]);
        }
        lemma_ended(init);
        lemma_split_append(lines::ended(init), all.last());
        assert(all[all.len() - 1] == all.last());
        let body = lines::ended(init) + all.last();
        lines::split_of_both(body, '\n', Seq::empty());
        lines::split_of_one(Seq::empty(), '\n');
        assert(e =~= body + seq!['\n'] + Seq::empty());
        let before = init.push(Seq::empty());
        assert(before.drop_last() =~= init);
        assert(before.last() + all.last() =~= all.last());
        assert(init.push(all.last()) =~= all);
        assert(lines::split(e, '\n') =~= all.push(Seq::empty()));
    }
    let pieces = lines::split(e, '\n');
    assert(pieces.drop_last() =~= all);
    assert(all.map_values(|l: Seq<char>| lines::strip_cr(l)) =~= all);
}

/// Text without a line feed goes to the last piece.
proof fn lemma_split_append(a: Seq<char>, b: Seq<char>)
    requires
        !b.contains('\n'),
    ensures
        lines::split(a + b, '\n') == lines::split(a, '\n').drop_last().push(
            lines::split(a, '\n').last() + b,
        ),
    decreases b.len(),
{
    let s = lines::split(a, '\n');
    lines::split_pieces(a, '\n');
    if b.len() == 0 {
        assert(a + b =~= a);
        assert(s.last() + b =~= s.last());
        assert(s.drop_last().push(s.last()) =~= s);
    } else {
        let c = b.drop_last();
        assert(b[b.len() - 1] != '\n');
        assert forall|i: int| 0 <= i < c.len() implies c[i] != '\n' by {
            assert(c[i] == b[i]);
        }
        lemma_split_append(a, c);
        assert((a + b).drop_last() =~= a + c);
        assert((s.last() + c).push(b.last()) =~= s.last() + b);
        let before = s.drop_last().push(s.last() + c);
        assert(before.drop_last() =~= s.drop_last());
    }
}

/// Whether a value is read back as it was written: it is one line, and neither white space nor a
/// quote stands at its ends.
pub open spec fn plain_value(v: Seq<char>) -> bool {
    !v.contains('\n') && (v.len() > 0 ==> !text::is_white(v[0]) && !text::is_white(v.last()) && v[0]
        != '"' && v.last() != '"' && v[0] != '\'' && v.last() != '\'')
}

proof fn lemma_plain_value(v: Seq<char>)
    requires
        plain_value(v),
    ensures
        deploy::unquoted(v) == v,
        v.len() > 0 ==> v.last() != '\r',
{
    assert(text::trimmed(v) == v);
    assert(text::without_ends(v, '"') == v);
    assert(text::without_ends(v, '\'') == v);
}

proof fn lemma_read_past(all: Seq<Seq<char>>, i: int, key: Seq<char>, value: Seq<char>, wanted: Seq<char>)
    requires
        0 <= i < all.len(),
        plain_key(key),
        all[i] == setting(key, value),
    ensures
        deploy::env_value(all.skip(i), wanted) == (if key == wanted {
            Some(deploy::unquoted(value))
        } else {
            deploy::env_value(all.skip(i + 1), wanted)
        }),
{
    lemma_setting(key, value);
    assert(all.skip(i)[0] == all[i]);
    assert(all.skip(i).drop_first() =~= all.skip(i + 1));
}

proof fn lemma_keys()
    ensures
        plain_key("BASE_DOMAIN"@),
        plain_key("ENVIRONMENT"@),
        plain_key("DB_HOST_PORT"@),
        plain_key("PHP_VERSION"@),
        plain_key("PROJECTNAME"@),
        plain_key("XDEBUG_IP"@),
        plain_key("IDE_KEY"@),
        "BASE_DOMAIN"@ != "PHP_VERSION"@ && "BASE_DOMAIN"@ != "PROJECTNAME"@,
        "ENVIRONMENT"@ != "PHP_VERSION"@ && "ENVIRONMENT"@ != "PROJECTNAME"@,
        "DB_HOST_PORT"@ != "PHP_VERSION"@ && "DB_HOST_PORT"@ != "PROJECTNAME"@,
        "PHP_VERSION"@ != "PROJECTNAME"@,
{
    reveal_strlit("BASE_DOMAIN");
    reveal_strlit("ENVIRONMENT");
    reveal_strlit("DB_HOST_PORT");
    reveal_strlit("PHP_VERSION");
    reveal_strlit("PROJECTNAME");
    reveal_strlit("XDEBUG_IP");
    reveal_strlit("IDE_KEY");
    assert("BASE_DOMAIN"@[0] == 'B' && "ENVIRONMENT"@[0] == 'E' && "DB_HOST_PORT"@[0] == 'D');
    assert("PHP_VERSION"@[1] == 'H' && "PROJECTNAME"@[1] == 'R');
    assert("PHP_VERSION"@[0] == 'P' && "PROJECTNAME"@[0] == 'P');
}

/// The lines of the environment of a new project are its settings.
pub proof fn lemma_settings_are_lines(name: Seq<char>, port: u16, php: Seq<char>)
    requires
        plain_value(name),
        plain_value(php),
    ensures
        lines::lines(environment(name, port, php)) == settings(name, port, php),
{
    let all = settings(name, port, php);
    let d = local_domain(name);
    let n = number::decimal(port as nat);
    lemma_keys();
    lemma_plain_value(name);
    lemma_plain_value(php);
    number::value_of_decimal(port as nat);
    reveal_strlit(".lvh.me");
    reveal_strlit("development");
    reveal_strlit("host.docker.internal");
    assert(d.last() == 'e');
    assert forall|i: int| 0 <= i < d.len() implies d[i] != '\n' by {
        if i < name.len() {
            assert(d[i] == name[i]);
            assert(name.contains(name[i]));
        }
    }
    assert forall|i: int| 0 <= i < n.len() implies n[i] != '\n' && n[i] != '\r' by {
        assert(text::is_digit(n[i]));
    }
    lemma_setting("BASE_DOMAIN"@, d);
    lemma_setting("ENVIRONMENT"@, "development"@);
    lemma_setting("DB_HOST_PORT"@, n);
    lemma_setting("PHP_VERSION"@, php);
    lemma_setting("PROJECTNAME"@, name);
    lemma_setting("XDEBUG_IP"@, "host.docker.internal"@);
    lemma_setting("IDE_KEY"@, d);
    lemma_ended(all);
}

/// What a new project's environment says of its name and its PHP version is what a deployment reads
/// there.
pub proof fn a_deployment_reads_what_was_set(name: Seq<char>, port: u16, php: Seq<char>)
    requires
        plain_value(name),
        plain_value(php),
    ensures
        deploy::env_of(Some(environment(name, port, php)), "PROJECTNAME"@) == Some(name),
        deploy::env_of(Some(environment(name, port, php)), "PHP_VERSION"@) == Some(php),
{
    let all = settings(name, port, php);
    lemma_settings_are_lines(name, port, php);
    lemma_keys();
    lemma_plain_value(name);
    lemma_plain_value(php);
    assert(all.skip(0) =~= all);
    let d = local_domain(name);
    lemma_read_past(all, 0, "BASE_DOMAIN"@, d, "PROJECTNAME"@);
    lemma_read_past(all, 0, "BASE_DOMAIN"@, d, "PHP_VERSION"@);
    lemma_read_past(all, 1, "ENVIRONMENT"@, "development"@, "PROJECTNAME"@);
    lemma_read_past(all, 1, "ENVIRONMENT"@, "development"@, "PHP_VERSION"@);
    let n = number::decimal(port as nat);
    lemma_read_past(all, 2, "DB_HOST_PORT"@, n, "PROJECTNAME"@);
    lemma_read_past(all, 2, "DB_HOST_PORT"@, n, "PHP_VERSION"@);
    lemma_read_past(all, 3, "PHP_VERSION"@, php, "PROJECTNAME"@);
    lemma_read_past(all, 3, "PHP_VERSION"@, php, "PHP_VERSION"@);
    lemma_read_past(all, 4, "PROJECTNAME"@, name, "PROJECTNAME"@);
}

} // verus!
