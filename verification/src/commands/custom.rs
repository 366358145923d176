//! Commands that a project brings as scripts.
use vstd::prelude::*;

use crate::docker;
use crate::order;
use crate::order::Ordered;
use crate::paths;
use crate::text;
use crate::text::{is_listed, push_text, same};

verus! {

// ---------------------------------------------------------------- finding a script

/// The places where a script is looked for: with the application before the project, and under
/// its bare name before the name with `.sh`.
pub open spec fn script_paths(project_dir: Seq<char>, name: Seq<char>) -> Seq<Seq<char>> {
    let bare = seq![
        paths::below(project_dir, "htdocs/.docker-control/control-scripts/"@ + name),
        paths::below(project_dir, "control-scripts/"@ + name),
    ];
    if ".sh"@.is_suffix_of(name) {
        bare
    } else {
        bare + seq![
            paths::below(
                project_dir,
                "htdocs/.docker-control/control-scripts/"@ + name + ".sh"@,
            ),
            paths::below(project_dir, "control-scripts/"@ + name + ".sh"@),
        ]
    }
}

/// The places where a script is looked for.
pub fn script_candidates(project_dir: &str, name: &str) -> (r: Vec<String>)
    ensures
        text::texts(r@) == script_paths(project_dir@, name@),
{
    let mut r = text::no_texts();
    let mut a = text::owned("htdocs/.docker-control/control-scripts/");
    a.append(name);
    let mut b = text::owned("control-scripts/");
    b.append(name);
    push_text(&mut r, paths::join(project_dir, a.as_str()).as_str());
    push_text(&mut r, paths::join(project_dir, b.as_str()).as_str());
    if !text::ends_with(name, ".sh") {
        a.append(".sh");
        b.append(".sh");
        push_text(&mut r, paths::join(project_dir, a.as_str()).as_str());
        push_text(&mut r, paths::join(project_dir, b.as_str()).as_str());
    }
    assert(text::texts(r@) =~= script_paths(project_dir@, name@));
    r
}

/// Locates the script of a custom command. `existing` lists the paths that exist.
pub fn find_script_path(project_dir: &str, name: &str, existing: &Vec<String>) -> (r: Option<
    String,
>)
    ensures
        paths::opt(r) == paths::first_existing(
            script_paths(project_dir@, name@),
            text::texts(existing@),
        ),
{
    let all = script_candidates(project_dir, name);
    paths::find_existing(&all, existing)
}

// ---------------------------------------------------------------- running a script

/// The arguments of `bash` that run a script.
pub fn run_script(script_path: &str, args: &Vec<String>) -> (r: Vec<String>)
    ensures
        text::texts(r@) == seq![script_path@] + text::texts(args@),
{
    let mut r = text::no_texts();
    push_text(&mut r, script_path);
    text::push_all(&mut r, args);
    assert(text::texts(r@) =~= seq![script_path@] + text::texts(args@));
    r
}

/// What became of a script, given whether it succeeded and how its status reads.
pub fn script_result(script_path: &str, success: bool, status: &str) -> (r: Result<(), String>)
    ensures
        success ==> r is Ok,
        !success ==> (r matches Err(e) && e@ == "Custom script '"@ + script_path@ + "' exited with "@
            + status@),
{
    if success {
        Ok(())
    } else {
        let mut e = text::owned("Custom script '");
        e.append(script_path);
        e.append("' exited with ");
        e.append(status);
        Err(e)
    }
}

/// Whether a script may be asked if it overrides a command: only one that mentions the question
/// in quotes is, since any other would run its body instead of answering.
pub open spec fn knows_override(contents: Option<Seq<char>>) -> bool {
    contents matches Some(c) && (text::has_text(c, "\"_override_\""@) || text::has_text(
        c,
        "'_override_'"@,
    ))
}

/// Whether a script may be asked if it overrides a command, given its text where it can be read.
pub fn may_override(contents: Option<&str>) -> (r: bool)
    ensures
        r == knows_override(docker::opt_str(contents)),
{
    match contents {
        Some(c) => text::contains(c, "\"_override_\"") || text::contains(c, "'_override_'"),
        None => false,
    }
}

/// Whether a script overrides a command: it knows the question and answers it with `true`.
/// `answer` is what it printed where it succeeded.
pub fn get_override(contents: Option<&str>, answer: Option<&str>) -> (r: bool)
    ensures
        r == (knows_override(docker::opt_str(contents)) && (answer matches Some(a)
            && text::trimmed(a@) == "true"@)),
{
    if !may_override(contents) {
        return false;
    }
    match answer {
        Some(a) => same(text::trim(a).as_str(), "true"),
        None => false,
    }
}

/// The description of a command: what its script printed, where it succeeded.
pub fn get_description(answer: Option<&str>) -> (r: String)
    ensures
        r@ == (match answer {
            Some(a) => text::trimmed(a@),
            None => "No description available"@,
        }),
{
    match answer {
        Some(a) => text::trim(a),
        None => text::owned("No description available"),
    }
}

/// Whether a command is asked for its help.
pub fn wants_help(args: &Vec<String>) -> (r: bool)
    ensures
        r == (args@.len() > 0 && (args@[0]@ == "--help"@ || args@[0]@ == "-h"@)),
{
    args.len() > 0 && (same(args[0].as_str(), "--help") || same(args[0].as_str(), "-h"))
}

// ---------------------------------------------------------------- clashes

#[derive(Debug, Clone, Copy, PartialEq, Eq, Structural)]
pub enum ClashChoice {
    Builtin,
    Custom,
}

/// Asks which of two commands of one name is meant.
pub trait ClashPromptProvider {
    fn resolve(&self, command_name: &str) -> Result<ClashChoice, String>;
}

/// The question as a terminal puts it.
pub struct InteractiveClashPromptProvider;

impl InteractiveClashPromptProvider {
    /// The question.
    pub fn question(&self, command_name: &str) -> (r: String)
        ensures
            r@ == "'"@ + command_name@
                + "' matches both a built-in command and a custom script. Which should run?"@,
    {
        let mut r = text::owned("'");
        r.append(command_name);
        r.append("' matches both a built-in command and a custom script. Which should run?");
        r
    }

    /// The answers to choose from.
    pub fn choices(&self) -> (r: Vec<String>)
        ensures
            text::texts(r@) == seq!["Built-in command"@, "Custom script"@],
    {
        let mut r = text::no_texts();
        push_text(&mut r, "Built-in command");
        push_text(&mut r, "Custom script");
        assert(text::texts(r@) =~= seq!["Built-in command"@, "Custom script"@]);
        r
    }

    /// What an answer means; a prompt that was left counts for the built-in command.
    pub fn reply(&self, choice: Option<&str>) -> (r: ClashChoice)
        ensures
            r == (if docker::opt_str(choice) == Some("Custom script"@) {
                ClashChoice::Custom
            } else {
                ClashChoice::Builtin
            }),
    {
        match choice {
            Some(c) => if same(c, "Custom script") {
                ClashChoice::Custom
            } else {
                ClashChoice::Builtin
            },
            None => ClashChoice::Builtin,
        }
    }
}

/// The script that runs by a choice.
pub open spec fn chosen(path: Seq<char>, choice: ClashChoice) -> Option<Seq<char>> {
    match choice {
        ClashChoice::Custom => Some(path),
        ClashChoice::Builtin => None,
    }
}

/// What the user's answer makes of a clash.
pub open spec fn clash_answered<P: ClashPromptProvider>(
    prompt: &P,
    command_name: &str,
    path: Seq<char>,
    r: Result<Option<String>, String>,
) -> bool {
    exists|c: Result<ClashChoice, String>|
        #[trigger] call_ensures(P::resolve, (prompt, command_name), c) && (match c {
            Ok(choice) => r matches Ok(o) && paths::opt(o) == chosen(path, choice),
            Err(e) => r matches Err(f) && f == e,
        })
}

/// The script that runs by a choice.
pub fn settle_clash(path: String, choice: ClashChoice) -> (r: Option<String>)
    ensures
        paths::opt(r) == chosen(path@, choice),
{
    match choice {
        ClashChoice::Custom => Some(path),
        ClashChoice::Builtin => None,
    }
}

/// Resolves a clash between a built-in command and a script of the same name: `None` where the
/// built-in command runs. A script that overrides the command wins without a question.
/// `existing` lists the paths that exist, `overriding` the scripts that override.
pub fn resolve_clash<P: ClashPromptProvider>(
    project_dir: &str,
    command_name: &str,
    existing: &Vec<String>,
    overriding: &Vec<String>,
    prompt_provider: &P,
) -> (r: Result<Option<String>, String>)
    ensures
        match paths::first_existing(
            script_paths(project_dir@, command_name@),
            text::texts(existing@),
        ) {
            None => r == Ok::<Option<String>, String>(None),
            Some(p) => if text::texts(overriding@).contains(p) {
                r matches Ok(o) && paths::opt(o) == Some(p)
            } else {
                clash_answered(prompt_provider, command_name, p, r)
            },
        },
{
    let path = match find_script_path(project_dir, command_name, existing) {
        Some(p) => p,
        None => {
            return Ok(None);
        },
    };
    if is_listed(overriding, path.as_str()) {
        return Ok(Some(path));
    }
    match prompt_provider.resolve(command_name) {
        Ok(choice) => {
            let ghost answer = Ok::<ClashChoice, String>(choice);
            let r = Ok(settle_clash(path, choice));
            assert(call_ensures(P::resolve, (prompt_provider, command_name), answer));
            r
        },
        Err(e) => {
            let ghost answer = Err::<ClashChoice, String>(e);
            assert(call_ensures(P::resolve, (prompt_provider, command_name), answer));
            Err(e)
        },
    }
}

// ---------------------------------------------------------------- arguments

/// What comes before the first `--`.
pub open spec fn before_separator(args: Seq<Seq<char>>) -> Seq<Seq<char>>
    decreases args.len(),
{
    if args.len() == 0 || args[0] == "--"@ {
        Seq::empty()
    } else {
        seq![args[0]] + before_separator(args.drop_first())
    }
}

/// The arguments of the tool itself: what comes after a `--` belongs to the command that is run.
pub fn args_before_separator(args: &Vec<String>) -> (r: Vec<String>)
    ensures
        text::texts(r@) == before_separator(text::texts(args@)),
{
    let ghost all = text::texts(args@);
    let mut r = text::no_texts();
    let mut i: usize = 0;
    assert(all.skip(0) =~= all);
    assert(text::texts(r@) + before_separator(all.skip(0)) =~= before_separator(all));
    while i < args.len()
        invariant
            i <= args@.len(),
            all == text::texts(args@),
            text::texts(r@) + before_separator(all.skip(i as int)) == before_separator(all),
        decreases args@.len() - i,
    {
        assert(all.skip(i as int)[0] == args@[i as int]@);
        assert(all.skip(i as int).drop_first() =~= all.skip(i + 1));
        if same(args[i].as_str(), "--") {
            assert(text::texts(r@) =~= before_separator(all));
            return r;
        }
        let ghost before = text::texts(r@);
        push_text(&mut r, args[i].as_str());
        assert(text::texts(r@) + before_separator(all.skip(i + 1)) =~= before + before_separator(
            all.skip(i as int),
        ));
        i += 1;
    }
    assert(text::texts(r@) =~= before_separator(all));
    r
}

/// Whether an argument sets the project directory, with the value behind a `=`.
pub open spec fn sets_dir(token: Seq<char>) -> bool {
    "--dir="@.is_prefix_of(token) || "-d="@.is_prefix_of(token)
}

/// Where the first argument stands, from `i` on, that is neither a global flag nor the project
/// directory; possibly behind the end.
pub open spec fn leading(args: Seq<Seq<char>>, flags: Seq<Seq<char>>, i: int) -> int
    decreases args.len() + 2 - i,
{
    if i >= args.len() {
        i
    } else if args[i] == "--dir"@ || args[i] == "-d"@ {
        leading(args, flags, i + 2)
    } else if sets_dir(args[i]) || flags.contains(args[i]) {
        leading(args, flags, i + 1)
    } else {
        i
    }
}

/// The arguments that are no global flags.
pub open spec fn without_flags(args: Seq<Seq<char>>, flags: Seq<Seq<char>>) -> Seq<Seq<char>>
    decreases args.len(),
{
    if args.len() == 0 {
        Seq::empty()
    } else {
        let rest = without_flags(args.drop_last(), flags);
        if flags.contains(args.last()) {
            rest
        } else {
            rest.push(args.last())
        }
    }
}

/// The name of the subcommand and what was typed behind it.
pub open spec fn subcommand(args: Seq<Seq<char>>, flags: Seq<Seq<char>>) -> Option<
    (Seq<char>, Seq<Seq<char>>),
> {
    let i = leading(args, flags, 1);
    if i < args.len() {
        Some((args[i], without_flags(args.skip(i + 1), flags)))
    } else {
        None
    }
}

proof fn lemma_leading_grows(args: Seq<Seq<char>>, flags: Seq<Seq<char>>, i: int)
    ensures
        leading(args, flags, i) >= i,
    decreases args.len() + 2 - i,
{
    if i >= args.len() {
    } else if args[i] == "--dir"@ || args[i] == "-d"@ {
        lemma_leading_grows(args, flags, i + 2);
    } else if sets_dir(args[i]) || flags.contains(args[i]) {
        lemma_leading_grows(args, flags, i + 1);
    }
}

fn drop_flags(args: &Vec<String>, from: usize, flags: &Vec<String>) -> (r: Vec<String>)
    requires
        from <= args@.len(),
    ensures
        text::texts(r@) == without_flags(
            text::texts(args@).skip(from as int),
            text::texts(flags@),
        ),
{
    let ghost all = text::texts(args@).skip(from as int);
    let ghost global = text::texts(flags@);
    let n: usize = args.len();
    let mut r = text::no_texts();
    let mut i: usize = from;
    assert(all.take(0) =~= Seq::empty());
    while i < n
        invariant
            from <= i <= n == args@.len(),
            all == text::texts(args@).skip(from as int),
            global == text::texts(flags@),
            text::texts(r@) == without_flags(all.take(i - from), global),
        decreases n - i,
    {
        assert(all.take(i - from + 1).drop_last() =~= all.take(i - from));
        assert(all.take(i - from + 1).last() == args@[i as int]@);
        if !is_listed(flags, args[i].as_str()) {
            push_text(&mut r, args[i].as_str());
        }
        i += 1;
    }
    assert(all.take(i - from) =~= all);
    r
}

/// Locates the subcommand among raw arguments, whose first is the name of the program, and what
/// was typed behind it. The project directory and global flags before it are skipped; global
/// flags are taken out wherever they stand behind it.
pub fn split_leading_subcommand(args: &Vec<String>, global_flags: &Vec<String>) -> (r: Option<
    (String, Vec<String>),
>)
    ensures
        (match r {
            Some(p) => Some((p.0@, text::texts(p.1@))),
            None => None,
        }) == subcommand(text::texts(args@), text::texts(global_flags@)),
{
    let ghost all = text::texts(args@);
    let ghost flags = text::texts(global_flags@);
    let n: usize = args.len();
    if n < 2 {
        proof {
            lemma_leading_grows(all, flags, 1);
        }
        return None;
    }
    let mut i: usize = 1;
    while i < n
        invariant_except_break
            leading(all, flags, i as int) == leading(all, flags, 1),
        invariant
            i <= n == args@.len(),
            all == text::texts(args@),
            flags == text::texts(global_flags@),
        ensures
            i < n ==> i == leading(all, flags, 1),
            i == n ==> leading(all, flags, 1) >= n,
        decreases n - i,
    {
        let token = args[i].as_str();
        assert(all[i as int] == token@);
        if same(token, "--dir") || same(token, "-d") {
            if n - i <= 2 {
                proof {
                    lemma_leading_grows(all, flags, i + 2);
                }
                i = n;
                break;
            }
            i += 2;
        } else if text::starts_with(token, "--dir=") || text::starts_with(token, "-d=") {
            i += 1;
        } else if is_listed(global_flags, token) {
            i += 1;
        } else {
            break;
        }
    }
    if i == n {
        return None;
    }
    let name = text::owned(args[i].as_str());
    let trailing = drop_flags(args, i + 1, global_flags);
    Some((name, trailing))
}

proof fn lemma_none_left(args: Seq<Seq<char>>, flags: Seq<Seq<char>>, i: int)
    requires
        0 <= i < without_flags(args, flags).len(),
    ensures
        !flags.contains(without_flags(args, flags)[i]),
        args.contains(without_flags(args, flags)[i]),
    decreases args.len(),
{
    let t = args.drop_last();
    let rest = without_flags(t, flags);
    if i < rest.len() {
        lemma_none_left(t, flags, i);
        let k = choose|k: int| 0 <= k < t.len() && t[k] == rest[i];
        assert(args[k] == rest[i]);
    } else {
        assert(args[args.len() - 1] == args.last());
    }
}

/// A global flag is never handed to a script, wherever it was typed, nor is it taken for the
/// subcommand; what is handed on was typed.
pub proof fn global_flags_are_not_handed_on(args: Seq<Seq<char>>, flags: Seq<Seq<char>>)
    ensures
        subcommand(args, flags) matches Some((name, rest)) ==> {
            &&& !flags.contains(name)
            &&& forall|i: int|
                0 <= i < rest.len() ==> !flags.contains(#[trigger] rest[i]) && args.contains(
                    rest[i],
                )
        },
{
    lemma_leading_grows(args, flags, 1);
    lemma_leading_stops(args, flags, 1);
    if let Some((name, rest)) = subcommand(args, flags) {
        let k = leading(args, flags, 1);
        assert forall|i: int| 0 <= i < rest.len() implies !flags.contains(#[trigger] rest[i])
            && args.contains(rest[i]) by {
            lemma_none_left(args.skip(k + 1), flags, i);
            let tail = args.skip(k + 1);
            let j = choose|j: int| 0 <= j < tail.len() && tail[j] == rest[i];
            assert(args[k + 1 + j] == rest[i]);
        }
    }
}

proof fn lemma_leading_stops(args: Seq<Seq<char>>, flags: Seq<Seq<char>>, i: int)
    requires
        i >= 0,
    ensures
        leading(args, flags, i) < args.len() ==> !flags.contains(args[leading(args, flags, i)]),
    decreases args.len() + 2 - i,
{
    if i >= args.len() {
    } else if args[i] == "--dir"@ || args[i] == "-d"@ {
        lemma_leading_stops(args, flags, i + 2);
    } else if sets_dir(args[i]) || flags.contains(args[i]) {
        lemma_leading_stops(args, flags, i + 1);
    }
}

// ---------------------------------------------------------------- listing

/// A command of the project.
#[derive(Debug, Clone, PartialEq, Eq)]
pub struct CustomCommand {
    pub name: String,
    pub description: String,
}

impl Ordered for CustomCommand {
    open spec fn precedes(&self, other: &Self) -> bool {
        order::before(self.name@, other.name@)
    }

    fn comes_before(&self, other: &Self) -> (r: bool) {
        order::less(self.name.as_str(), other.name.as_str())
    }
}

/// The name of a command by the file of its script: what stands before `.sh`.
pub open spec fn command_of(file: Seq<char>) -> Option<Seq<char>> {
    match text::cut_last(file, '.') {
        Some((stem, ext)) => if stem.len() > 0 && ext == "sh"@ {
            Some(stem)
        } else {
            None
        },
        None => None,
    }
}

/// The name of a command by the file name of its script; `None` for a file that is no script.
pub fn command_name(file: &str) -> (r: Option<String>)
    ensures
        paths::opt(r) == command_of(file@),
{
    match text::rsplit_once(file, '.') {
        Some((stem, ext)) => if !stem.as_str().is_empty() && same(ext.as_str(), "sh") {
            Some(stem)
        } else {
            None
        },
        None => None,
    }
}

/// The directories that hold scripts.
pub fn script_dirs(project_dir: &str) -> (r: Vec<String>)
    ensures
        text::texts(r@) == seq![
            paths::below(project_dir@, "htdocs/.docker-control/control-scripts"@),
            paths::below(project_dir@, "control-scripts"@),
        ],
{
    let mut r = text::no_texts();
    push_text(
        &mut r,
        paths::join(project_dir, "htdocs/.docker-control/control-scripts").as_str(),
    );
    push_text(&mut r, paths::join(project_dir, "control-scripts").as_str());
    assert(text::texts(r@) =~= seq![
        paths::below(project_dir@, "htdocs/.docker-control/control-scripts"@),
        paths::below(project_dir@, "control-scripts"@),
    ]);
    r
}

/// The commands of the project, in the order of their names.
pub fn get_custom_commands(found: Vec<CustomCommand>) -> (r: Vec<CustomCommand>)
    ensures
        r@ == order::arranged(found@),
        r@.to_multiset() == found@.to_multiset(),
        forall|i: int, j: int|
            0 <= i < j < r@.len() ==> !order::before(
                (#[trigger] r@[j]).name@,
                (#[trigger] r@[i]).name@,
            ),
{
    let r = order::arrange(found);
    proof {
        lemma_names_order();
        order::arranging_keeps_the_values(found@);
        order::arranging_puts_in_place(found@, |c: CustomCommand| true);
        assert forall|i: int, j: int| 0 <= i < j < r@.len() implies !order::before(
            (#[trigger] r@[j]).name@,
            (#[trigger] r@[i]).name@,
        ) by {
            assert(!r@[j].precedes(&r@[i]));
        }
    }
    r
}

proof fn lemma_names_order()
    ensures
        order::is_order::<CustomCommand>(|c: CustomCommand| true),
{
    assert forall|a: CustomCommand, b: CustomCommand| #[trigger] a.precedes(&b) implies !b.precedes(
        &a,
    ) by {
        if b.precedes(&a) {
            order::before_transitive(a.name@, b.name@, a.name@);
            order::before_irreflexive(a.name@);
        }
    }
    assert forall|a: CustomCommand, b: CustomCommand, c: CustomCommand|
        !(#[trigger] a.precedes(&b)) && !(#[trigger] b.precedes(&c)) implies !a.precedes(&c) by {
        order::before_total(a.name@, b.name@);
        order::before_total(b.name@, c.name@);
        if a.precedes(&c) {
            if a.name@ != b.name@ {
                order::before_transitive(b.name@, a.name@, c.name@);
            }
        }
    }
}

} // verus!
