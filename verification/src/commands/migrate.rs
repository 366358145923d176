//! Bringing an old project to the current form.
use vstd::prelude::*;

use crate::edit;
use crate::lines;
use crate::lines::lines_of;
use crate::paths;
use crate::text;
use crate::text::{ends_with, push_text, same, starts_with};

verus! {

// ---------------------------------------------------------------- Capistrano

/// The build file of Capistrano that every project has which uses it.
pub const CAPISTRANO_DOCKERFILE: &'static str =
    "FROM ruby:3.3.8-slim\n\nWORKDIR /app\n\nRUN apt update && \\\n    apt install -y \\\n      openssh-client \\\n      git \\\n      bash \\\n      keychain \\\n      procps \\\n      curl \\\n      build-essential \\\n      ca-certificates \\\n    && update-ca-certificates\n\nRUN gem install --no-document \\\n      capistrano:3.19 \\\n      ed25519:1.4 \\\n      bcrypt_pbkdf:1.1\n\nRUN mkdir -p /root/.ssh && chmod 744 /root/.ssh\n\nSHELL [\"/bin/bash\", \"-c\"]\n\nRUN echo $'\\n\\\nexport PATH=\"/usr/local/bundle/bin:$PATH\" \\n\\\nif [ -e \"/ssh/id_rsa.pub\" ]; then \\n\\\n    cp /ssh/id_rsa.pub ~/.ssh/id_rsa.pub \\n\\\n    chmod 644 /root/.ssh/id_rsa.pub \\n\\\nfi \\n\\\nif [ -e \"/ssh/id_rsa\" ]; then \\n\\\n    cp /ssh/id_rsa ~/.ssh/id_rsa \\n\\\n    chmod 600 ~/.ssh/id_rsa \\n\\\n    eval $(keychain --eval id_rsa) \\n\\\nfi' >> /root/.profile\n";

/// Whether the build file of Capistrano is written: only over one that is there, and only where
/// that differs. `content` is its text where it can be read.
pub fn write_capistrano_dockerfile(exists: bool, content: Option<&str>) -> (r: bool)
    ensures
        r == (exists && !(content matches Some(c) && c@ == CAPISTRANO_DOCKERFILE@)),
{
    exists && match content {
        Some(c) => !same(c, CAPISTRANO_DOCKERFILE),
        None => true,
    }
}

/// Whether a line ends the service before it: text at the margin, or the name of another service.
pub open spec fn ends_service(line: Seq<char>) -> bool {
    line.len() > 0 && (!"  "@.is_prefix_of(line) || (!"    "@.is_prefix_of(line)
        && ":"@.is_suffix_of(line)))
}

/// A line of the service with the new places in it.
pub open spec fn moved(line: Seq<char>) -> Seq<char> {
    edit::replaced(
        edit::replaced(line, "./container/capistrano/"@, "./volumes/capistrano/"@),
        "docker-compose/build/capistrano"@,
        "build/capistrano"@,
    )
}

/// The lines of the Capistrano service among those of an old file.
pub open spec fn capistrano_lines(all: Seq<Seq<char>>, inside: bool) -> Seq<Seq<char>>
    decreases all.len(),
{
    if all.len() == 0 {
        Seq::empty()
    } else if text::trimmed(all[0]) == "capistrano:"@ {
        seq![all[0]] + capistrano_lines(all.drop_first(), true)
    } else if !inside || ends_service(all[0]) {
        capistrano_lines(all.drop_first(), false)
    } else {
        seq![moved(all[0])] + capistrano_lines(all.drop_first(), true)
    }
}

fn ends_service_line(line: &str) -> (r: bool)
    ensures
        r == ends_service(line@),
{
    !line.is_empty() && (!starts_with(line, "  ") || (!starts_with(line, "    ") && ends_with(
        line,
        ":",
    )))
}

fn move_line(line: &str) -> (r: String)
    ensures
        r@ == moved(line@),
{
    proof {
        reveal_strlit("./container/capistrano/");
        reveal_strlit("docker-compose/build/capistrano");
    }
    let a = edit::replace(line, "./container/capistrano/", "./volumes/capistrano/");
    edit::replace(a.as_str(), "docker-compose/build/capistrano", "build/capistrano")
}

fn capistrano_block(content: &str) -> (r: Vec<String>)
    ensures
        text::texts(r@) == capistrano_lines(lines::lines(content@), false),
{
    let all = lines_of(content);
    let ghost seqs = lines::lines(content@);
    let mut r = text::no_texts();
    let mut inside = false;
    let mut i: usize = 0;
    assert(seqs.skip(0) =~= seqs);
    assert(text::texts(r@) + capistrano_lines(seqs.skip(0), false) =~= capistrano_lines(
        seqs,
        false,
    ));
    while i < all.len()
        invariant
            i <= all@.len(),
            seqs == text::texts(all@),
            text::texts(r@) + capistrano_lines(seqs.skip(i as int), inside) == capistrano_lines(
                seqs,
                false,
            ),
        decreases all@.len() - i,
    {
        let ghost rest = seqs.skip(i as int);
        let ghost before = text::texts(r@);
        assert(rest[0] == all@[i as int]@);
        assert(rest.drop_first() =~= seqs.skip(i + 1));
        let line = all[i].as_str();
        if same(text::trim(line).as_str(), "capistrano:") {
            push_text(&mut r, line);
            assert(text::texts(r@) + capistrano_lines(seqs.skip(i + 1), true) =~= before
                + capistrano_lines(rest, inside));
            inside = true;
        } else if !inside || ends_service_line(line) {
            inside = false;
        } else {
            push_text(&mut r, move_line(line).as_str());
            assert(text::texts(r@) + capistrano_lines(seqs.skip(i + 1), true) =~= before
                + capistrano_lines(rest, inside));
        }
        i += 1;
    }
    assert(text::texts(r@) =~= capistrano_lines(seqs, false));
    r
}

/// The override file of a project whose old file, of which this is the text, has a Capistrano
/// service. `None` where it has none.
pub fn migrate_capistrano(content: &str) -> (r: Option<String>)
    ensures
        paths::opt(r) == ({
            let block = capistrano_lines(lines::lines(content@), false);
            if block.len() == 0 {
                None
            } else {
                Some("services:\n"@ + lines::ended(block))
            }
        }),
{
    let block = capistrano_block(content);
    let ghost seqs = text::texts(block@);
    assert(seqs.len() == block@.len());
    if block.len() == 0 {
        return None;
    }
    let mut r = text::owned("services:\n");
    let mut i: usize = 0;
    assert(seqs.take(0) =~= Seq::empty());
    assert(r@ =~= "services:\n"@ + lines::ended(seqs.take(0)));
    while i < block.len()
        invariant
            i <= block@.len(),
            seqs == text::texts(block@),
            r@ == "services:\n"@ + lines::ended(seqs.take(i as int)),
        decreases block@.len() - i,
    {
        assert(seqs.take(i + 1).drop_last() =~= seqs.take(i as int));
        assert(seqs.take(i + 1).last() == block@[i as int]@);
        r.append(block[i].as_str());
        r.append("\n");
        assert(r@ =~= "services:\n"@ + lines::ended(seqs.take(i + 1)));
        i += 1;
    }
    assert(seqs.take(i as int) =~= seqs);
    Some(r)
}

/// The script that runs Capistrano as before.
pub const CAP_SCRIPT: &'static str =
    "#!/bin/bash\nif [[ \"$1\" == \"_desc_\" ]]; then\n    echo \"Old capistrano deployment command\"\n    exit 0\nfi\n\nDC=\"docker compose --project-directory ${PROJECT_DIR:-.}\"\n\nif [ \"$#\" -le 1 ]; then\n  # one or zero params -> run build verbosely\n  $DC build capistrano\nelse\n  # more than one param -> run build quietly\n  $DC build -q capistrano\nfi\n\n$DC run --rm capistrano bash -l -i -c \"cap $*\"\n";

// ---------------------------------------------------------------- the environment

/// What a line of a `.env` file sets: a key and its value, trimmed. Blank lines and comments set
/// nothing.
pub open spec fn setting(line: Seq<char>) -> Option<(Seq<char>, Seq<char>)> {
    let t = text::trimmed(line);
    if t.len() == 0 || t[0] == '#' {
        None
    } else {
        match text::cut(t, '=') {
            Some((k, v)) => Some((text::trimmed(k), text::trimmed(v))),
            None => None,
        }
    }
}

/// What some lines set for a key: the last of them counts.
pub open spec fn last_setting(all: Seq<Seq<char>>, key: Seq<char>) -> Option<Seq<char>>
    decreases all.len(),
{
    if all.len() == 0 {
        None
    } else {
        match setting(all.last()) {
            Some((k, v)) => if k == key {
                Some(v)
            } else {
                last_setting(all.drop_last(), key)
            },
            None => last_setting(all.drop_last(), key),
        }
    }
}

/// What an old `.env` file gives for a key: what it sets, and for the port of the database also
/// what it calls by an old name.
pub open spec fn old_value(all: Seq<Seq<char>>, key: Seq<char>) -> Option<Seq<char>> {
    match last_setting(all, key) {
        Some(v) => Some(v),
        None => if key == "DB_HOST_PORT"@ {
            match last_setting(all, "MARIADB_PORT"@) {
                Some(p) => Some(p),
                None => last_setting(all, "MYSQL_PORT"@),
            }
        } else {
            None
        },
    }
}

/// A line of the new `.env` file: that of the template, with the old value where there is one.
pub open spec fn restored_line(line: Seq<char>, old_lines: Seq<Seq<char>>) -> Seq<char> {
    let t = text::trimmed(line);
    if t.len() > 0 && t[0] == '#' {
        line
    } else {
        match text::cut(t, '=') {
            Some((k, _)) => match old_value(old_lines, text::trimmed(k)) {
                Some(v) => text::trimmed(k) + "="@ + v,
                None => line,
            },
            None => line,
        }
    }
}

/// The lines of the new `.env` file.
pub open spec fn restored_lines(dist: Seq<Seq<char>>, old_lines: Seq<Seq<char>>) -> Seq<Seq<char>> {
    dist.map_values(|l: Seq<char>| restored_line(l, old_lines))
}

fn setting_of(line: &str) -> (r: Option<(String, String)>)
    ensures
        (match r {
            Some(p) => Some((p.0@, p.1@)),
            None => None,
        }) == setting(line@),
{
    let t = text::trim(line);
    if t.as_str().is_empty() || text::begins_with(t.as_str(), '#') {
        return None;
    }
    match text::split_once(t.as_str(), '=') {
        Some((k, v)) => Some((text::trim(k.as_str()), text::trim(v.as_str()))),
        None => None,
    }
}

fn last_setting_of(all: &Vec<String>, key: &str) -> (r: Option<String>)
    ensures
        paths::opt(r) == last_setting(text::texts(all@), key@),
{
    let ghost seqs = text::texts(all@);
    let mut i: usize = all.len();
    assert(seqs.take(i as int) =~= seqs);
    while i > 0
        invariant
            i <= all@.len(),
            seqs == text::texts(all@),
            last_setting(seqs, key@) == last_setting(seqs.take(i as int), key@),
        decreases i,
    {
        assert(seqs.take(i as int).last() == all@[i - 1]@);
        assert(seqs.take(i as int).drop_last() =~= seqs.take(i - 1));
        if let Some((k, v)) = setting_of(all[i - 1].as_str()) {
            if same(k.as_str(), key) {
                return Some(v);
            }
        }
        i -= 1;
    }
    None
}

fn old_value_of(all: &Vec<String>, key: &str) -> (r: Option<String>)
    ensures
        paths::opt(r) == old_value(text::texts(all@), key@),
{
    match last_setting_of(all, key) {
        Some(v) => Some(v),
        None => if same(key, "DB_HOST_PORT") {
            match last_setting_of(all, "MARIADB_PORT") {
                Some(p) => Some(p),
                None => last_setting_of(all, "MYSQL_PORT"),
            }
        } else {
            None
        },
    }
}

fn restore_line(line: &str, old_lines: &Vec<String>) -> (r: String)
    ensures
        r@ == restored_line(line@, text::texts(old_lines@)),
{
    let t = text::trim(line);
    if text::begins_with(t.as_str(), '#') {
        return text::owned(line);
    }
    match text::split_once(t.as_str(), '=') {
        Some((k, _)) => {
            let key = text::trim(k.as_str());
            match old_value_of(old_lines, key.as_str()) {
                Some(v) => {
                    let mut r = key;
                    r.append("=");
                    r.append(v.as_str());
                    r
                },
                None => text::owned(line),
            }
        },
        None => text::owned(line),
    }
}

/// The new `.env` file, by the text of the one that the template brings and of the old one.
pub fn restore_env(dist: &str, backup: &str) -> (r: String)
    ensures
        r@ == lines::ended(restored_lines(lines::lines(dist@), lines::lines(backup@))),
{
    let all = lines_of(dist);
    let old_lines = lines_of(backup);
    let ghost seqs = restored_lines(lines::lines(dist@), lines::lines(backup@));
    let mut r = text::owned("");
    proof {
        reveal_strlit("");
    }
    let mut i: usize = 0;
    assert(seqs.take(0) =~= Seq::empty());
    assert(r@ =~= lines::ended(seqs.take(0)));
    while i < all.len()
        invariant
            i <= all@.len(),
            text::texts(all@) == lines::lines(dist@),
            text::texts(old_lines@) == lines::lines(backup@),
            seqs == restored_lines(text::texts(all@), text::texts(old_lines@)),
            r@ == lines::ended(seqs.take(i as int)),
        decreases all@.len() - i,
    {
        let line = restore_line(all[i].as_str(), &old_lines);
        assert(seqs[i as int] == line@);
        assert(seqs.take(i + 1).drop_last() =~= seqs.take(i as int));
        assert(seqs.take(i + 1).last() == line@);
        r.append(line.as_str());
        r.append("\n");
        i += 1;
    }
    assert(seqs.take(i as int) =~= seqs);
    r
}

// ---------------------------------------------------------------- the steps

/// A program and its arguments.
#[derive(Debug, Clone, PartialEq, Eq)]
pub struct Call {
    pub program: String,
    pub args: Vec<String>,
}

/// One step of a migration.
#[derive(Debug, Clone, PartialEq, Eq)]
pub enum MigrateStep {
    Say(String),
    /// The directory of the backup is made, and hidden from the IDE.
    MakeBackup(String),
    /// A call that has to succeed; otherwise the migration ends with this.
    Run { call: Call, failure: String },
    /// A call whose failure is told.
    Attempt { call: Call, warning: String },
    /// Everything but the backup is removed from the directory.
    Empty,
    /// The Capistrano service is taken over from the backup; a failure is told.
    Capistrano,
    /// The script that runs Capistrano is written.
    CapScript,
    /// The environment is taken over from the backup; a failure is told.
    RestoreEnv,
    /// What the template brought is recorded.
    RecordTemplate,
    Succeed(String),
}

/// A step, with its strings as sequences of characters.
pub ghost enum StepView {
    Say(Seq<char>),
    MakeBackup(Seq<char>),
    Run { program: Seq<char>, args: Seq<Seq<char>>, failure: Seq<char> },
    Attempt { program: Seq<char>, args: Seq<Seq<char>>, warning: Seq<char> },
    Empty,
    Capistrano,
    CapScript,
    RestoreEnv,
    RecordTemplate,
    Succeed(Seq<char>),
}

impl View for MigrateStep {
    type V = StepView;

    open spec fn view(&self) -> StepView {
        match *self {
            MigrateStep::Say(t) => StepView::Say(t@),
            MigrateStep::MakeBackup(n) => StepView::MakeBackup(n@),
            MigrateStep::Run { call, failure } => StepView::Run {
                program: call.program@,
                args: text::texts(call.args@),
                failure: failure@,
            },
            MigrateStep::Attempt { call, warning } => StepView::Attempt {
                program: call.program@,
                args: text::texts(call.args@),
                warning: warning@,
            },
            MigrateStep::Empty => StepView::Empty,
            MigrateStep::Capistrano => StepView::Capistrano,
            MigrateStep::CapScript => StepView::CapScript,
            MigrateStep::RestoreEnv => StepView::RestoreEnv,
            MigrateStep::RecordTemplate => StepView::RecordTemplate,
            MigrateStep::Succeed(t) => StepView::Succeed(t@),
        }
    }
}

/// The views of the steps.
pub open spec fn steps(v: Seq<MigrateStep>) -> Seq<StepView> {
    v.map_values(|s: MigrateStep| s@)
}

fn put(out: &mut Vec<MigrateStep>, s: MigrateStep)
    ensures
        steps(final(out)@) == steps(old(out)@).push(s@),
{
    let ghost before = steps(out@);
    out.push(s);
    assert(steps(out@) =~= before.push(s@));
}

/// The call of `rsync` with elevated rights that copies one place to another.
pub open spec fn rsync(from: Seq<char>, to: Seq<char>) -> Seq<Seq<char>> {
    seq!["rsync"@, "-a"@, from, to]
}

fn sudo_rsync(from: &str, to: &str) -> (r: Call)
    ensures
        r.program@ == "sudo"@,
        text::texts(r.args@) == rsync(from@, to@),
{
    let mut args = text::no_texts();
    push_text(&mut args, "rsync");
    push_text(&mut args, "-a");
    push_text(&mut args, from);
    push_text(&mut args, to);
    assert(text::texts(args@) =~= rsync(from@, to@));
    Call { program: text::owned("sudo"), args }
}

fn concat(a: &str, b: &str) -> (r: String)
    ensures
        r@ == a@ + b@,
{
    let mut r = text::owned(a);
    r.append(b);
    r
}

/// An item of the backup that is restored, as it was found there.
#[derive(Debug, Clone, PartialEq, Eq)]
pub struct BackupItem {
    pub name: String,
    pub is_dir: bool,
}

/// The items that are restored from a backup where they are in it, the settings of the coding
/// assistant among them. What the template brings is not.
pub fn restored_items(assistant_dir: &str) -> (r: Vec<String>)
    ensures
        text::texts(r@) == seq!["htdocs"@, ".idea"@, assistant_dir@],
{
    let mut r = text::no_texts();
    push_text(&mut r, "htdocs");
    push_text(&mut r, ".idea");
    push_text(&mut r, assistant_dir);
    assert(text::texts(r@) =~= seq!["htdocs"@, ".idea"@, assistant_dir@]);
    r
}

/// How an item is restored.
pub open spec fn restoring(backup: Seq<char>, item: BackupItem) -> Seq<StepView> {
    let path = backup + "/"@ + item.name@;
    seq![
        StepView::Say("Restoring "@ + item.name@ + "..."@),
        StepView::Attempt {
            program: "sudo"@,
            args: if item.is_dir {
                rsync(path + "/"@, item.name@ + "/"@)
            } else {
                rsync(path, item.name@)
            },
            warning: "Failed to restore "@ + item.name@ + "."@,
        },
    ]
}

/// How some items are restored.
pub open spec fn restoring_all(backup: Seq<char>, items: Seq<BackupItem>) -> Seq<StepView>
    decreases items.len(),
{
    if items.len() == 0 {
        Seq::empty()
    } else {
        restoring_all(backup, items.drop_last()) + restoring(backup, items.last())
    }
}

fn put_restoring(out: &mut Vec<MigrateStep>, backup: &str, item: &BackupItem)
    ensures
        steps(final(out)@) == steps(old(out)@) + restoring(backup@, *item),
{
    let ghost before = steps(out@);
    let name = item.name.as_str();
    let mut m = concat("Restoring ", name);
    m.append("...");
    put(out, MigrateStep::Say(m));
    let mut path = concat(backup, "/");
    path.append(name);
    let call = if item.is_dir {
        sudo_rsync(concat(path.as_str(), "/").as_str(), concat(name, "/").as_str())
    } else {
        sudo_rsync(path.as_str(), name)
    };
    let mut w = concat("Failed to restore ", name);
    w.append(".");
    put(out, MigrateStep::Attempt { call, warning: w });
    assert(steps(out@) =~= before + restoring(backup@, *item));
}

/// The beginning of a migration: the project is stopped and copied to the backup, and the rest of
/// the directory is emptied.
pub open spec fn securing(backup: Seq<char>) -> Seq<StepView> {
    seq![
        StepView::Say("Stopping project using control.cmd stop..."@),
        StepView::Run {
            program: "bash"@,
            args: seq!["./control.cmd"@, "stop"@],
            failure: "control.cmd stop failed. Migration aborted."@,
        },
        StepView::Say("Creating backup in "@ + backup + "..."@),
        StepView::MakeBackup(backup),
        StepView::Run {
            program: "sudo"@,
            args: seq!["rsync"@, "-a"@, "--exclude"@, backup, "./"@, backup + "/"@],
            failure: "Backup failed with rsync."@,
        },
        StepView::Say("Emptying project directory (preserving backup)..."@),
        StepView::Empty,
    ]
}

/// The rest of a migration: the template is applied, and what the project owns is taken over.
pub open spec fn rebuilding(
    backup: Seq<char>,
    template_dir: Seq<char>,
    items: Seq<BackupItem>,
) -> Seq<StepView> {
    seq![
        StepView::Say("Applying new template..."@),
        StepView::Run {
            program: "rsync"@,
            args: seq!["-a"@, template_dir + "/"@, "./"@],
            failure: "Failed to apply template."@,
        },
    ] + restoring_all(backup, items) + seq![
        StepView::Say("Migrating Capistrano configuration..."@),
        StepView::Capistrano,
        StepView::Say("Migrating database volumes..."@),
        StepView::Attempt {
            program: "sudo"@,
            args: rsync(backup + "/container/mariadb/"@, "volumes/db/"@),
            warning: "Failed to migrate database volumes from container/mariadb."@,
        },
        StepView::Say("Adding cap.sh control script..."@),
        StepView::CapScript,
        StepView::Say("Restoring environment variables..."@),
        StepView::RestoreEnv,
        StepView::RecordTemplate,
        StepView::Succeed("Migration completed successfully!"@),
        StepView::Say("Please review your .env and compose.override.yml files."@),
    ]
}

/// The beginning of a migration. It needs the control file of an old project.
pub fn execute(has_control: bool, backup_name: &str) -> (r: Result<Vec<MigrateStep>, String>)
    ensures
        !has_control ==> (r matches Err(e) && e@
            == "control.cmd not found in project directory. Migration aborted."@),
        has_control ==> (r matches Ok(v) && steps(v@) == securing(backup_name@)),
{
    if !has_control {
        return Err(
            text::owned("control.cmd not found in project directory. Migration aborted."),
        );
    }
    let mut r: Vec<MigrateStep> = Vec::new();
    put(&mut r, MigrateStep::Say(text::owned("Stopping project using control.cmd stop...")));
    let mut stop = text::no_texts();
    push_text(&mut stop, "./control.cmd");
    push_text(&mut stop, "stop");
    assert(text::texts(stop@) =~= seq!["./control.cmd"@, "stop"@]);
    put(
        &mut r,
        MigrateStep::Run {
            call: Call { program: text::owned("bash"), args: stop },
            failure: text::owned("control.cmd stop failed. Migration aborted."),
        },
    );
    let mut m = concat("Creating backup in ", backup_name);
    m.append("...");
    put(&mut r, MigrateStep::Say(m));
    put(&mut r, MigrateStep::MakeBackup(text::owned(backup_name)));
    let mut copy = text::no_texts();
    push_text(&mut copy, "rsync");
    push_text(&mut copy, "-a");
    push_text(&mut copy, "--exclude");
    push_text(&mut copy, backup_name);
    push_text(&mut copy, "./");
    push_text(&mut copy, concat(backup_name, "/").as_str());
    assert(text::texts(copy@) =~= seq![
        "rsync"@,
        "-a"@,
        "--exclude"@,
        backup_name@,
        "./"@,
        backup_name@ + "/"@,
    ]);
    put(
        &mut r,
        MigrateStep::Run {
            call: Call { program: text::owned("sudo"), args: copy },
            failure: text::owned("Backup failed with rsync."),
        },
    );
    put(
        &mut r,
        MigrateStep::Say(text::owned("Emptying project directory (preserving backup)...")),
    );
    put(&mut r, MigrateStep::Empty);
    assert(steps(r@) =~= securing(backup_name@));
    Ok(r)
}

/// The entries of the directory that go: all but the backup.
pub open spec fn without(entries: Seq<Seq<char>>, backup: Seq<char>) -> Seq<Seq<char>>
    decreases entries.len(),
{
    if entries.len() == 0 {
        Seq::empty()
    } else {
        let rest = without(entries.drop_last(), backup);
        if entries.last() == backup {
            rest
        } else {
            rest.push(entries.last())
        }
    }
}

/// The entries of the directory that are removed once the backup is made.
pub fn entries_to_remove(entries: &Vec<String>, backup_name: &str) -> (r: Vec<String>)
    ensures
        text::texts(r@) == without(text::texts(entries@), backup_name@),
        !text::texts(r@).contains(backup_name@),
{
    let ghost all = text::texts(entries@);
    let mut r = text::no_texts();
    let mut i: usize = 0;
    assert(all.take(0) =~= Seq::empty());
    while i < entries.len()
        invariant
            i <= entries@.len(),
            all == text::texts(entries@),
            text::texts(r@) == without(all.take(i as int), backup_name@),
            forall|k: int| 0 <= k < text::texts(r@).len() ==> text::texts(r@)[k] != backup_name@,
        decreases entries@.len() - i,
    {
        assert(all.take(i + 1).drop_last() =~= all.take(i as int));
        assert(all.take(i + 1).last() == entries@[i as int]@);
        if !same(entries[i].as_str(), backup_name) {
            push_text(&mut r, entries[i].as_str());
        }
        i += 1;
    }
    assert(all.take(i as int) =~= all);
    r
}

/// The rest of a migration. `items` are those of the backup that are restored.
pub fn rebuild(backup_name: &str, template_dir: &str, items: &Vec<BackupItem>) -> (r: Vec<
    MigrateStep,
>)
    ensures
        steps(r@) == rebuilding(backup_name@, template_dir@, items@),
{
    let mut r: Vec<MigrateStep> = Vec::new();
    put(&mut r, MigrateStep::Say(text::owned("Applying new template...")));
    let mut apply = text::no_texts();
    push_text(&mut apply, "-a");
    push_text(&mut apply, concat(template_dir, "/").as_str());
    push_text(&mut apply, "./");
    assert(text::texts(apply@) =~= seq!["-a"@, template_dir@ + "/"@, "./"@]);
    put(
        &mut r,
        MigrateStep::Run {
            call: Call { program: text::owned("rsync"), args: apply },
            failure: text::owned("Failed to apply template."),
        },
    );
    let ghost first = steps(r@);
    let mut i: usize = 0;
    assert(items@.take(0) =~= Seq::empty());
    assert(first + restoring_all(backup_name@, items@.take(0)) =~= first);
    while i < items.len()
        invariant
            i <= items@.len(),
            steps(r@) == first + restoring_all(backup_name@, items@.take(i as int)),
        decreases items@.len() - i,
    {
        assert(items@.take(i + 1).drop_last() =~= items@.take(i as int));
        assert(items@.take(i + 1).last() == items@[i as int]);
        put_restoring(&mut r, backup_name, &items[i]);
        assert(steps(r@) =~= first + restoring_all(backup_name@, items@.take(i + 1)));
        i += 1;
    }
    assert(items@.take(i as int) =~= items@);
    put(&mut r, MigrateStep::Say(text::owned("Migrating Capistrano configuration...")));
    put(&mut r, MigrateStep::Capistrano);
    put(&mut r, MigrateStep::Say(text::owned("Migrating database volumes...")));
    put(
        &mut r,
        MigrateStep::Attempt {
            call: sudo_rsync(
                concat(backup_name, "/container/mariadb/").as_str(),
                "volumes/db/",
            ),
            warning: text::owned("Failed to migrate database volumes from container/mariadb."),
        },
    );
    put(&mut r, MigrateStep::Say(text::owned("Adding cap.sh control script...")));
    put(&mut r, MigrateStep::CapScript);
    put(&mut r, MigrateStep::Say(text::owned("Restoring environment variables...")));
    put(&mut r, MigrateStep::RestoreEnv);
    put(&mut r, MigrateStep::RecordTemplate);
    put(&mut r, MigrateStep::Succeed(text::owned("Migration completed successfully!")));
    put(
        &mut r,
        MigrateStep::Say(text::owned("Please review your .env and compose.override.yml files.")),
    );
    assert(steps(r@) =~= rebuilding(backup_name@, template_dir@, items@));
    r
}

/// The calls of `sudo` that take the build context and the configuration of Capistrano over.
pub fn capistrano_copies(backup_name: &str) -> (r: (Call, Call))
    ensures
        r.0.program@ == "sudo"@,
        text::texts(r.0.args@) == rsync(
            backup_name@ + "/docker-compose/build/capistrano/"@,
            "build/capistrano/"@,
        ),
        r.1.program@ == "sudo"@,
        text::texts(r.1.args@) == rsync(
            backup_name@ + "/container/capistrano/"@,
            "volumes/capistrano/"@,
        ),
{
    (
        sudo_rsync(
            concat(backup_name, "/docker-compose/build/capistrano/").as_str(),
            "build/capistrano/",
        ),
        sudo_rsync(concat(backup_name, "/container/capistrano/").as_str(), "volumes/capistrano/"),
    )
}

// ---------------------------------------------------------------- laws

/// The new `.env` file has a line for each line of the template's, and no other.
pub proof fn the_environment_keeps_its_lines(dist: Seq<Seq<char>>, old_lines: Seq<Seq<char>>, i: int)
    requires
        0 <= i < dist.len(),
    ensures
        restored_lines(dist, old_lines).len() == dist.len(),
        restored_lines(dist, old_lines)[i] == dist[i] || exists|k: Seq<char>, v: Seq<char>|
            old_value(old_lines, k) == Some(v) && restored_lines(dist, old_lines)[i] == #[trigger] (
            k + "="@ + v),
{
    let line = dist[i];
    let t = text::trimmed(line);
    if restored_line(line, old_lines) != line {
        if let Some((key, _)) = text::cut(t, '=') {
            let k = text::trimmed(key);
            let v = old_value(old_lines, k)->0;
            assert(restored_lines(dist, old_lines)[i] == k + "="@ + v);
        }
    }
}

/// Nothing is removed before the backup was made: the directory is emptied in the last step of the
/// first half, and a stop or a backup that fails ends the migration before it.
pub proof fn the_backup_comes_before_the_removal(backup: Seq<char>, i: int)
    requires
        0 <= i < securing(backup).len(),
        securing(backup)[i] is Empty,
    ensures
        i == securing(backup).len() - 1,
        exists|k: int|
            0 <= k < i && (#[trigger] securing(backup)[k]) == (StepView::Run {
                program: "sudo"@,
                args: seq!["rsync"@, "-a"@, "--exclude"@, backup, "./"@, backup + "/"@],
                failure: "Backup failed with rsync."@,
            }),
{
    assert(securing(backup)[4] is Run);
}

} // verus!
