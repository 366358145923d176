//! Making a script for a custom command.
use vstd::prelude::*;

use crate::commands::custom;
use crate::paths;
use crate::text;
use crate::text::{chars_of, is_listed, push_text, same};
use crate::utils;

verus! {

/// The place of a script with the application.
pub const HTDOCS_LOCATION: &'static str = "Inside htdocs (htdocs/.docker-control/control-scripts)";

/// The place of a script beside the application.
pub const ROOT_LOCATION: &'static str = "Outside htdocs (control-scripts)";

/// Whether a character means something to the shell between double quotes.
pub open spec fn is_special(c: char) -> bool {
    c == '\\' || c == '"' || c == '$' || c == '`'
}

/// A text as it is written between double quotes.
pub open spec fn escaped(s: Seq<char>) -> Seq<char>
    decreases s.len(),
{
    if s.len() == 0 {
        Seq::empty()
    } else {
        escaped(s.drop_last()) + (if is_special(s.last()) {
            seq!['\\', s.last()]
        } else {
            seq![s.last()]
        })
    }
}

/// Escapes what means something to the shell between double quotes, so that a text stands for
/// itself there.
pub fn escape_double_quoted(s: &str) -> (r: String)
    ensures
        r@ == escaped(s@),
{
    let v = chars_of(s);
    let mut r = text::owned("");
    proof {
        reveal_strlit("");
    }
    let mut i: usize = 0;
    assert(v@.take(0) =~= Seq::empty());
    assert(r@ =~= escaped(v@.take(0)));
    while i < v.len()
        invariant
            i <= v@.len(),
            r@ == escaped(v@.take(i as int)),
        decreases v@.len() - i,
    {
        assert(v@.take(i + 1).drop_last() =~= v@.take(i as int));
        assert(v@.take(i + 1).last() == v@[i as int]);
        let ghost before = r@;
        let c = v[i];
        if c == '\\' || c == '"' || c == '$' || c == '`' {
            r.push('\\');
            r.push(c);
            assert(r@ =~= before + seq!['\\', c]);
        } else {
            r.push(c);
            assert(r@ =~= before + seq![c]);
        }
        i += 1;
    }
    assert(v@.take(i as int) =~= s@);
    r
}

/// What the shell reads of a text between double quotes in which every special character is
/// escaped. `None` where one is not.
pub open spec fn read_back(q: Seq<char>) -> Option<Seq<char>>
    decreases q.len(),
{
    if q.len() == 0 {
        Some(Seq::empty())
    } else if q[0] == '\\' {
        if q.len() > 1 && is_special(q[1]) {
            match read_back(q.skip(2)) {
                Some(s) => Some(seq![q[1]] + s),
                None => None,
            }
        } else {
            None
        }
    } else if is_special(q[0]) {
        None
    } else {
        match read_back(q.skip(1)) {
            Some(s) => Some(seq![q[0]] + s),
            None => None,
        }
    }
}

proof fn lemma_read_back(s: Seq<char>, rest: Seq<char>)
    ensures
        read_back(escaped(s) + rest) == (match read_back(rest) {
            Some(t) => Some(s + t),
            None => None,
        }),
    decreases s.len(),
{
    if s.len() == 0 {
        assert(escaped(s) + rest =~= rest);
        if let Some(t) = read_back(rest) {
            assert(s + t =~= t);
        }
    } else {
        let a = s.drop_last();
        let c = s.last();
        if is_special(c) {
            let q = seq!['\\', c] + rest;
            lemma_read_back(a, q);
            assert(escaped(s) + rest =~= escaped(a) + q);
            assert(q.skip(2) =~= rest);
            if let Some(t) = read_back(rest) {
                assert(a + (seq![c] + t) =~= s + t);
            }
        } else {
            let q = seq![c] + rest;
            lemma_read_back(a, q);
            assert(escaped(s) + rest =~= escaped(a) + q);
            assert(q.skip(1) =~= rest);
            if let Some(t) = read_back(rest) {
                assert(a + (seq![c] + t) =~= s + t);
            }
        }
    }
}

/// A description that was escaped is read back by the shell as it was typed: nothing in it is run.
pub proof fn an_escaped_text_is_read_back(s: Seq<char>)
    ensures
        read_back(escaped(s)) == Some(s),
{
    lemma_read_back(s, Seq::empty());
    assert(escaped(s) + Seq::<char>::empty() =~= escaped(s));
    assert(s + Seq::<char>::empty() =~= s);
}

/// The text of a script that waits to be written: it knows its description, and whether it
/// overrides a command.
pub open spec fn script(
    name: Seq<char>,
    description: Seq<char>,
    overrides: bool,
) -> Seq<char> {
    "#!/bin/bash\nset -e\n\nif [[ \"$1\" == \"_desc_\" ]]; then\n    # output command description\n    echo \""@
        + escaped(description) + "\"\n\n    exit 0\nfi\n"@ + (if overrides {
        "\nif [[ \"$1\" == \"_override_\" ]]; then\n    echo \"true\"\n    exit 0\nfi\n"@
    } else {
        Seq::empty()
    }) + "\necho \""@ + escaped(name) + " - WAITING FOR IMPLEMENTATION\"\n\nexit 0\n"@
}

/// The text of a script that waits to be written.
pub fn script_content(name: &str, description: &str, overrides: bool) -> (r: String)
    ensures
        r@ == script(name@, description@, overrides),
{
    let mut r = text::owned(
        "#!/bin/bash\nset -e\n\nif [[ \"$1\" == \"_desc_\" ]]; then\n    # output command description\n    echo \"",
    );
    r.append(escape_double_quoted(description).as_str());
    r.append("\"\n\n    exit 0\nfi\n");
    if overrides {
        r.append("\nif [[ \"$1\" == \"_override_\" ]]; then\n    echo \"true\"\n    exit 0\nfi\n");
    } else {
        assert(r@ + Seq::<char>::empty() =~= r@);
    }
    r.append("\necho \"");
    r.append(escape_double_quoted(name).as_str());
    r.append(" - WAITING FOR IMPLEMENTATION\"\n\nexit 0\n");
    r
}

/// The places to choose from.
pub fn locations() -> (r: Vec<String>)
    ensures
        text::texts(r@) == seq![HTDOCS_LOCATION@, ROOT_LOCATION@],
{
    let mut r = text::no_texts();
    push_text(&mut r, HTDOCS_LOCATION);
    push_text(&mut r, ROOT_LOCATION);
    assert(text::texts(r@) =~= seq![HTDOCS_LOCATION@, ROOT_LOCATION@]);
    r
}

/// The question whether a script overrides a command. Its preset answer is no.
pub fn override_question() -> (r: String)
    ensures
        r@
            == "Should this command override a built-in command of the same name, if one exists?"@,
{
    text::owned("Should this command override a built-in command of the same name, if one exists?")
}

/// The directory of a place.
pub open spec fn directory(project_dir: Seq<char>, location: Seq<char>) -> Seq<char> {
    if location == HTDOCS_LOCATION@ {
        paths::below(project_dir, "htdocs/.docker-control/control-scripts"@)
    } else {
        paths::below(project_dir, "control-scripts"@)
    }
}

/// A script that is about to be written.
#[derive(Debug, Clone, PartialEq, Eq)]
pub struct NewScript {
    pub dir: String,
    pub path: String,
    pub content: String,
}

/// The script for a command of this name: where it goes and what it says. The name has to be a
/// plain one, and there must be no script of that name there yet.
pub fn execute(
    project_dir: &str,
    name: &str,
    description: &str,
    location: &str,
    overrides: bool,
    existing: &Vec<String>,
) -> (r: Result<NewScript, String>)
    ensures
        ({
            let dir = directory(project_dir@, location@);
            let path = paths::below(dir, name@ + ".sh"@);
            if !utils::is_plain_name(name@) {
                r matches Err(e) && e@ == "Invalid command name '"@ + name@
                    + "': must be a plain filename with no path separators"@
            } else if text::texts(existing@).contains(path) {
                r matches Err(e) && e@ == "Command '"@ + name@ + "' already exists in "@
                    + text::shown(dir)
            } else {
                r matches Ok(s) && s.dir@ == dir && s.path@ == path && s.content@ == script(
                    name@,
                    description@,
                    overrides,
                )
            }
        }),
{
    if let Err(e) = utils::sanitize_command_name(name) {
        return Err(e);
    }
    let dir = if same(location, HTDOCS_LOCATION) {
        paths::join(project_dir, "htdocs/.docker-control/control-scripts")
    } else {
        paths::join(project_dir, "control-scripts")
    };
    let mut file = text::owned(name);
    file.append(".sh");
    let path = paths::join(dir.as_str(), file.as_str());
    if is_listed(existing, path.as_str()) {
        let mut e = text::owned("Command '");
        e.append(name);
        e.append("' already exists in ");
        e.append(text::quoted(dir.as_str()).as_str());
        return Err(e);
    }
    let content = script_content(name, description, overrides);
    Ok(NewScript { dir, path, content })
}

/// A script that is made to override a command is asked whether it does.
pub proof fn an_overriding_script_is_asked(name: Seq<char>, description: Seq<char>)
    ensures
        custom::knows_override(Some(script(name, description, true))),
{
    let s = script(name, description, true);
    let block = "\nif [[ \"$1\" == \"_override_\" ]]; then\n    echo \"true\"\n    exit 0\nfi\n"@;
    let question = "\"_override_\""@;
    reveal_strlit(
        "\nif [[ \"$1\" == \"_override_\" ]]; then\n    echo \"true\"\n    exit 0\nfi\n",
    );
    reveal_strlit("\"_override_\"");
    assert(block.subrange(15, 27) =~= question);
    let head = "#!/bin/bash\nset -e\n\nif [[ \"$1\" == \"_desc_\" ]]; then\n    # output command description\n    echo \""@
        + escaped(description) + "\"\n\n    exit 0\nfi\n"@;
    let at = head.len() as int + 15;
    assert(s.subrange(at, at + 12) =~= block.subrange(15, 27));
    assert(text::occurs_at(s, question, at));
}

/// A script is found under the name it was made for, and listed under it, where that name does not
/// look like a script's file itself.
pub proof fn a_new_script_is_found(project_dir: Seq<char>, name: Seq<char>, location: Seq<char>)
    requires
        utils::is_plain_name(name),
        !".sh"@.is_suffix_of(name),
    ensures
        custom::script_paths(project_dir, name).contains(
            paths::below(directory(project_dir, location), name + ".sh"@),
        ),
        custom::command_of(name + ".sh"@) == Some(name),
{
    reveal_strlit(".sh");
    reveal_strlit("sh");
    reveal_strlit("control-scripts");
    reveal_strlit("control-scripts/");
    reveal_strlit("htdocs/.docker-control/control-scripts");
    reveal_strlit("htdocs/.docker-control/control-scripts/");
    let file = name + ".sh"@;
    let path = paths::below(directory(project_dir, location), file);
    let all = custom::script_paths(project_dir, name);
    assert(name[0] != '/') by {
        assert(name.contains(name[0]));
    }
    assert("control-scripts/"@ =~= "control-scripts"@ + seq!['/']);
    assert("htdocs/.docker-control/control-scripts/"@
        =~= "htdocs/.docker-control/control-scripts"@ + seq!['/']);
    if location == HTDOCS_LOCATION@ {
        assert(path =~= paths::below(
            project_dir,
            "htdocs/.docker-control/control-scripts/"@ + name + ".sh"@,
        ));
        assert(all[2] == path);
    } else {
        assert(path =~= paths::below(project_dir, "control-scripts/"@ + name + ".sh"@));
        assert(all[3] == path);
    }
    assert(file[name.len() as int] == '.');
    file.index_of_last_ensures('.');
    let i = file.index_of_last('.')->0;
    assert(i == name.len());
    assert(file.take(i) =~= name);
    assert(file.skip(i + 1) =~= "sh"@);
}

} // verus!
