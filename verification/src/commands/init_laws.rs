//! What holds of making a project as a whole.
use vstd::prelude::*;

use crate::commands::deploy;
use crate::commands::init;
use crate::commands::init::{InitStart, InitStep};
use crate::lines;
use crate::number;
use crate::paths;
use crate::text;

verus! {

/// A project is never made over another one, and no file is written over without a question.
pub proof fn a_project_is_not_made_twice(holds_something: bool, managed: bool, r: InitStart)
    requires
        call_ensures(init::execute, (holds_something, managed), r),
    ensures
        r is Go <==> !holds_something,
        holds_something && managed ==> r is AlreadyManaged,
        holds_something && !managed ==> r is Ask,
{
}

/// Whether one step stands before another.
pub open spec fn before(s: Seq<InitStep>, a: InitStep, b: InitStep) -> bool {
    exists|i: int, j: int| 0 <= i < j < s.len() && #[trigger] s[i] == a && #[trigger] s[j] == b
}

/// The files of the template are copied first. They are recorded once all of them bear their
/// final names, and the environment is written over nothing: only after the copy. The application
/// is checked out last, into its directory.
pub proof fn a_project_is_recorded_once_it_is_there(dist: bool, r: Vec<InitStep>)
    requires
        call_ensures(init::steps, (dist,), r),
    ensures
        r@.len() > 0,
        r@[0] is CopyTemplate,
        r@.last() is OfferCheckout,
        dist <==> r@.contains(InitStep::RenameGitignore),
        dist ==> before(r@, InitStep::RenameGitignore, InitStep::RecordTemplate),
        before(r@, InitStep::CopyTemplate, InitStep::RecordTemplate),
        before(r@, InitStep::MakeHtdocs, InitStep::HostAcl),
        before(r@, InitStep::MakeHtdocs, InitStep::OfferCheckout),
        before(r@, InitStep::RecordTemplate, InitStep::WriteEnvironment),
        before(r@, InitStep::HostAcl, InitStep::OfferCheckout),
        forall|i: int, j: int| 0 <= i < j < r@.len() ==> #[trigger] r@[i] != #[trigger] r@[j],
{
    let n: int = if dist {
        1
    } else {
        0
    };
    assert(r@[0] is CopyTemplate);
    if dist {
        assert(r@[1] is RenameGitignore);
    }
    assert(r@[n + 1] is MakeHtdocs);
    assert(r@[n + 2] is RecordTemplate);
    assert(r@[n + 3] is HostAcl);
    assert(r@[n + 4] is WriteEnvironment);
    assert(r@[n + 5] is OfferCheckout);
}

/// A name keeps its length and all of its characters but the separators, each of which becomes an
/// underscore; a name without separators is only put in lower case.
pub proof fn a_name_keeps_its_characters(s: &str, r: String, i: int)
    requires
        call_ensures(init::without_separators, (s,), r),
        0 <= i < s@.len(),
    ensures
        r@.len() == s@.len(),
        "/\\.:,- "@.contains(s@[i]) ==> r@[i] == '_',
        !"/\\.:,- "@.contains(s@[i]) ==> r@[i] == s@[i],
{
    reveal_strlit("/\\.:,- ");
    let all = "/\\.:,- "@;
    assert(all[0] == '/' && all[1] == '\\' && all[2] == '.' && all[3] == ':' && all[4] == ','
        && all[5] == '-' && all[6] == ' ');
    assert(all.len() == 7);
}

/// The name of a project in host names is its name in lower case, without separators.
pub proof fn a_host_name_is_the_lower_case_name(name: &str, lower: &str, s: String, r: String)
    requires
        lower@ == text::lowercase(name@),
        call_ensures(init::without_separators, (lower,), s),
        call_ensures(init::sanitize_name, (name,), r),
    ensures
        r@ == s@,
{
    assert(r@ =~= s@);
}

proof fn lemma_first_free(from: int, end: u16, free: Seq<u16>)
    requires
        0 <= from,
    ensures
        init::first_free(from, end, free) matches Some(p) ==> from <= p <= end && free.contains(p)
            && forall|q: u16| from <= q < p ==> !#[trigger] free.contains(q),
        init::first_free(from, end, free) is None ==> forall|q: u16|
            from <= q <= end ==> !#[trigger] free.contains(q),
    decreases end + 1 - from,
{
    if from <= end && !free.contains(from as u16) {
        lemma_first_free(from + 1, end, free);
        assert forall|q: u16| from <= q && free.contains(q) implies q != from by {}
    }
}

/// The port of a project is free, in the range, and the lowest such one; there is none only where
/// no port of the range is free.
pub proof fn the_lowest_free_port_is_taken(
    start: u16,
    end: u16,
    free: &Vec<u16>,
    r: Result<u16, String>,
)
    requires
        call_ensures(init::find_free_port, (start, end, free), r),
    ensures
        r matches Ok(p) ==> start <= p <= end && free@.contains(p),
        r matches Ok(p) ==> forall|q: u16| start <= q < p ==> !#[trigger] free@.contains(q),
        r is Err ==> forall|q: u16| start <= q <= end ==> !#[trigger] free@.contains(q),
{
    lemma_first_free(start as int, end, free@);
}

/// The environment of a project tells its name, its domain, its port and its PHP version, each in
/// a line of its own, and holds nothing else but what every project has.
pub proof fn a_project_is_set_up_by_its_environment(name: &str, port: u16, php: &str, r: String)
    requires
        call_ensures(init::env_content, (name, port, php), r),
        init::plain_value(name@),
        init::plain_value(php@),
    ensures
        ({
            let all = lines::lines(r@);
            &&& all.len() == 7
            &&& all.contains("PROJECTNAME"@ + "="@ + name@)
            &&& all.contains("BASE_DOMAIN"@ + "="@ + name@ + ".lvh.me"@)
            &&& all.contains("IDE_KEY"@ + "="@ + name@ + ".lvh.me"@)
            &&& all.contains("DB_HOST_PORT"@ + "="@ + number::decimal(port as nat))
            &&& all.contains("PHP_VERSION"@ + "="@ + php@)
            &&& all.contains("ENVIRONMENT"@ + "="@ + "development"@)
            &&& all.contains("XDEBUG_IP"@ + "="@ + "host.docker.internal"@)
        }),
{
    init::lemma_settings_are_lines(name@, port, php@);
    let all = lines::lines(r@);
    assert(all[0] =~= "BASE_DOMAIN"@ + "="@ + name@ + ".lvh.me"@);
    assert(all[1] == "ENVIRONMENT"@ + "="@ + "development"@);
    assert(all[2] == "DB_HOST_PORT"@ + "="@ + number::decimal(port as nat));
    assert(all[3] == "PHP_VERSION"@ + "="@ + php@);
    assert(all[4] == "PROJECTNAME"@ + "="@ + name@);
    assert(all[5] == "XDEBUG_IP"@ + "="@ + "host.docker.internal"@);
    assert(all[6] =~= "IDE_KEY"@ + "="@ + name@ + ".lvh.me"@);
}

/// A deployment reads the name and the PHP version of a project as they were set when the project
/// was made.
pub proof fn what_was_set_is_deployed(
    name: &str,
    port: u16,
    php: &str,
    content: String,
    text: &str,
    read_name: Option<String>,
    read_php: Option<String>,
)
    requires
        call_ensures(init::env_content, (name, port, php), content),
        text@ == content@,
        call_ensures(deploy::get_env_var, (Some(text), "PROJECTNAME"), read_name),
        call_ensures(deploy::get_env_var, (Some(text), "PHP_VERSION"), read_php),
        init::plain_value(name@),
        init::plain_value(php@),
    ensures
        paths::opt(read_name) == Some(name@),
        paths::opt(read_php) == Some(php@),
{
    init::a_deployment_reads_what_was_set(name@, port, php@);
}

/// There is a PHP version of each kind to choose from: for every plain one also the one with the
/// database driver.
pub proof fn every_version_is_offered_both_ways(r: Vec<String>, v: Seq<char>)
    requires
        call_ensures(init::php_versions, (), r),
    ensures
        v == "7.4"@ || v == "8.2"@ || v == "8.5"@ ==> text::texts(r@).contains(v) && text::texts(
            r@,
        ).contains(v + "-oci"@),
{
    let all = text::texts(r@);
    reveal_strlit("7.4");
    reveal_strlit("8.2");
    reveal_strlit("8.5");
    reveal_strlit("-oci");
    reveal_strlit("7.4-oci");
    reveal_strlit("8.2-oci");
    reveal_strlit("8.5-oci");
    assert(all[0] == "7.4"@ && all[2] == "8.2"@ && all[4] == "8.5"@);
    assert(all[1] =~= "7.4"@ + "-oci"@);
    assert(all[3] =~= "8.2"@ + "-oci"@);
    assert(all[5] =~= "8.5"@ + "-oci"@);
}

} // verus!
