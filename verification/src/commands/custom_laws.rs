//! What holds of scripts and of command lines as a whole.
use vstd::prelude::*;

use crate::commands::custom;
use crate::commands::custom::{ClashChoice, ClashPromptProvider, InteractiveClashPromptProvider};
use crate::paths;
use crate::text;

verus! {

// ---------------------------------------------------------------- scripts

/// A script of the application comes before one of the project, and one with the bare name before
/// one with the ending of a script; only a script that exists is found.
pub proof fn the_application_comes_before_the_project(
    dir: &str,
    name: &str,
    existing: &Vec<String>,
    places: Vec<String>,
    r: Option<String>,
)
    requires
        call_ensures(custom::script_candidates, (dir, name), places),
        call_ensures(custom::find_script_path, (dir, name, existing), r),
        dir@.len() > 0,
        dir@.last() != '/',
    ensures
        ({
            let own = dir@ + "/"@ + "htdocs/.docker-control/control-scripts/"@ + name@;
            let other = dir@ + "/"@ + "control-scripts/"@ + name@;
            let there = text::texts(existing@);
            &&& places@.len() == (if ".sh"@.is_suffix_of(name@) {
                2int
            } else {
                4
            })
            &&& there.contains(own) ==> paths::opt(r) == Some(own)
            &&& !there.contains(own) && there.contains(other) ==> paths::opt(r) == Some(other)
            &&& !there.contains(own) && !there.contains(other) && ".sh"@.is_suffix_of(name@) ==> r
                is None
            &&& !there.contains(own) && !there.contains(other) && !".sh"@.is_suffix_of(name@) ==> {
                &&& there.contains(own + ".sh"@) ==> paths::opt(r) == Some(own + ".sh"@)
                &&& !there.contains(own + ".sh"@) && there.contains(other + ".sh"@) ==> paths::opt(
                    r,
                ) == Some(other + ".sh"@)
                &&& !there.contains(own + ".sh"@) && !there.contains(other + ".sh"@) ==> r is None
            }
        }),
{
    reveal_strlit("/");
    reveal_strlit("htdocs/.docker-control/control-scripts/");
    reveal_strlit("control-scripts/");
    assert("/"@ =~= seq!['/']);
    let own = dir@ + "/"@ + "htdocs/.docker-control/control-scripts/"@ + name@;
    let other = dir@ + "/"@ + "control-scripts/"@ + name@;
    let a = "htdocs/.docker-control/control-scripts/"@ + name@;
    let b = "control-scripts/"@ + name@;
    assert(a[0] == 'h' && b[0] == 'c');
    assert((a + ".sh"@)[0] == 'h' && (b + ".sh"@)[0] == 'c');
    let s = custom::script_paths(dir@, name@);
    assert(text::texts(places@).len() == places@.len());
    assert(s[0] =~= own);
    assert(s[1] =~= other);
    reveal_with_fuel(paths::first_existing, 5);
    if ".sh"@.is_suffix_of(name@) {
        assert(s =~= seq![own, other]);
        assert(s.drop_first() =~= seq![other]);
        assert(s.drop_first().drop_first() =~= Seq::<Seq<char>>::empty());
    } else {
        assert(s[2] =~= own + ".sh"@);
        assert(s[3] =~= other + ".sh"@);
        assert(s =~= seq![own, other, own + ".sh"@, other + ".sh"@]);
        let t = s.drop_first();
        assert(t =~= seq![other, own + ".sh"@, other + ".sh"@]);
        assert(t.drop_first() =~= seq![own + ".sh"@, other + ".sh"@]);
        assert(t.drop_first().drop_first() =~= seq![other + ".sh"@]);
        assert(t.drop_first().drop_first().drop_first() =~= Seq::<Seq<char>>::empty());
    }
}

/// A script is run with the arguments that were given, in their order.
pub proof fn a_script_gets_its_arguments(path: &str, args: &Vec<String>, r: Vec<String>)
    requires
        call_ensures(custom::run_script, (path, args), r),
    ensures
        r@.len() == args@.len() + 1,
        r@[0]@ == path@,
        forall|i: int| 0 <= i < args@.len() ==> (#[trigger] args@[i])@ == r@[i + 1]@,
{
    let t = text::texts(r@);
    assert(t.len() == r@.len());
    assert(t[0] == r@[0]@);
    assert forall|i: int| 0 <= i < args@.len() implies (#[trigger] args@[i])@ == r@[i + 1]@ by {
        assert(text::texts(args@)[i] == args@[i]@);
        assert(t[i + 1] == r@[i + 1]@);
    }
}

/// A script that failed is an error, and only such a one.
pub proof fn a_failed_script_is_an_error(
    path: &str,
    success: bool,
    status: &str,
    r: Result<(), String>,
)
    requires
        call_ensures(custom::script_result, (path, success, status), r),
    ensures
        r is Ok <==> success,
{
}

/// A script that does not know the question, or that cannot be read, is never asked and never
/// overrides a command; neither does one that failed or that answers anything but yes.
pub proof fn only_a_script_that_says_so_overrides(
    contents: Option<&str>,
    answer: Option<&str>,
    asked: bool,
    r: bool,
)
    requires
        call_ensures(custom::may_override, (contents,), asked),
        call_ensures(custom::get_override, (contents, answer), r),
    ensures
        r ==> asked,
        contents is None ==> !asked,
        answer is None ==> !r,
        asked && answer is Some ==> (r <==> text::trimmed(answer->0@) == "true"@),
        contents matches Some(c) ==> (asked <==> text::has_text(c@, "\"_override_\""@)
            || text::has_text(c@, "'_override_'"@)),
{
}

/// What a script says of itself is told without the white space around it.
pub proof fn a_script_describes_itself(answer: Option<&str>, r: String)
    requires
        call_ensures(custom::get_description, (answer,), r),
    ensures
        answer matches Some(a) ==> r@ == text::trimmed(a@),
        answer is None ==> r@ == "No description available"@,
{
}

/// A script is asked for its help by its first argument alone.
pub proof fn help_is_asked_first(args: &Vec<String>, r: bool)
    requires
        call_ensures(custom::wants_help, (args,), r),
    ensures
        args@.len() == 0 ==> !r,
        args@.len() > 0 ==> (r <==> args@[0]@ == "--help"@ || args@[0]@ == "-h"@),
{
}

/// The command of a script is what stands before its ending, whatever else it holds; a file
/// without the ending is no command.
pub proof fn a_command_is_called_like_its_script(name: Seq<char>, file: &str, r: Option<String>)
    requires
        call_ensures(custom::command_name, (file,), r),
    ensures
        file@ == name + ".sh"@ && name.len() > 0 ==> paths::opt(r) == Some(name),
        r matches Some(n) ==> file@ == n@ + ".sh"@ && n@.len() > 0,
{
    reveal_strlit(".sh");
    reveal_strlit("sh");
    assert(".sh"@ =~= seq!['.'] + "sh"@);
    if file@ == name + ".sh"@ {
        assert("sh"@[0] == 's' && "sh"@[1] == 'h' && "sh"@.len() == 2);
        assert(!"sh"@.contains('.'));
        text::cut_last_of_both(name, '.', "sh"@);
        assert(file@ =~= name + seq!['.'] + "sh"@);
    }
    if let Some(n) = r {
        file@.index_of_last_ensures('.');
        let i = file@.index_of_last('.')->0;
        assert(file@ =~= file@.take(i) + seq!['.'] + file@.skip(i + 1));
        assert(file@ =~= n@ + ".sh"@);
    }
}

// ---------------------------------------------------------------- clashes

/// The built-in command runs unless the user chose the script.
pub proof fn the_builtin_runs_by_default(
    prompt: &InteractiveClashPromptProvider,
    choice: Option<&str>,
    path: String,
    c: ClashChoice,
    r: Option<String>,
)
    requires
        call_ensures(InteractiveClashPromptProvider::reply, (prompt, choice), c),
        call_ensures(custom::settle_clash, (path, c), r),
    ensures
        choice is None ==> r is None,
        choice matches Some(s) ==> (r is Some <==> s@ == "Custom script"@),
        r matches Some(p) ==> p@ == path@,
{
}

/// The answers to choose from are told apart: the first runs the command that the tool brings,
/// the second the script.
pub proof fn both_answers_are_offered(
    prompt: &InteractiveClashPromptProvider,
    all: Vec<String>,
    first: &str,
    second: &str,
    a: ClashChoice,
    b: ClashChoice,
)
    requires
        call_ensures(InteractiveClashPromptProvider::choices, (prompt,), all),
        all@.len() == 2 ==> first@ == all@[0]@ && second@ == all@[1]@,
        call_ensures(InteractiveClashPromptProvider::reply, (prompt, Some(first)), a),
        call_ensures(InteractiveClashPromptProvider::reply, (prompt, Some(second)), b),
    ensures
        all@.len() == 2,
        a is Builtin,
        b is Custom,
{
    let t = text::texts(all@);
    assert(t.len() == all@.len());
    assert(t[0] == all@[0]@ && t[1] == all@[1]@);
    reveal_strlit("Built-in command");
    reveal_strlit("Custom script");
    assert("Built-in command"@.len() != "Custom script"@.len());
}

/// Without a script the built-in command runs; a script that overrides it runs without a question.
/// No other script than the one that was found ever runs.
pub proof fn a_clash_runs_the_script_or_the_command<P: ClashPromptProvider>(
    dir: &str,
    name: &str,
    existing: &Vec<String>,
    overriding: &Vec<String>,
    prompt: &P,
    found: Option<String>,
    r: Result<Option<String>, String>,
)
    requires
        call_ensures(custom::find_script_path, (dir, name, existing), found),
        call_ensures(custom::resolve_clash::<P>, (dir, name, existing, overriding, prompt), r),
    ensures
        found is None ==> r == Ok::<Option<String>, String>(None),
        found is Some && text::texts(overriding@).contains(found->0@) ==> r is Ok && paths::opt(
            r->Ok_0,
        ) == Some(found->0@),
        r matches Ok(Some(p)) ==> found is Some && p@ == found->0@,
{
}

// ---------------------------------------------------------------- arguments

/// Whether something was typed before the separator.
pub open spec fn typed(args: Seq<Seq<char>>, x: Seq<char>) -> bool {
    exists|i: int|
        0 <= i < args.len() && #[trigger] args[i] == x && forall|j: int|
            0 <= j <= i ==> #[trigger] args[j] != "--"@
}

/// What the tool reads of its arguments are those that were typed before the separator.
pub proof fn lemma_typed(args: Seq<Seq<char>>, x: Seq<char>)
    ensures
        custom::before_separator(args).contains(x) <==> typed(args, x),
    decreases args.len(),
{
    if args.len() > 0 && args[0] != "--"@ {
        let w = args.drop_first();
        let b = custom::before_separator(w);
        let all = custom::before_separator(args);
        lemma_typed(w, x);
        assert(all =~= seq![args[0]] + b);
        if all.contains(x) {
            let k = choose|k: int| 0 <= k < all.len() && all[k] == x;
            if k == 0 {
                assert(args[0] == x);
            } else {
                assert(b[k - 1] == x);
                let i = choose|i: int|
                    0 <= i < w.len() && #[trigger] w[i] == x && forall|j: int|
                        0 <= j <= i ==> #[trigger] w[j] != "--"@;
                assert(args[i + 1] == x);
                assert forall|j: int| 0 <= j <= i + 1 implies #[trigger] args[j] != "--"@ by {
                    if j > 0 {
                        assert(w[j - 1] == args[j]);
                    }
                }
            }
        }
        if typed(args, x) {
            let i = choose|i: int|
                0 <= i < args.len() && #[trigger] args[i] == x && forall|j: int|
                    0 <= j <= i ==> #[trigger] args[j] != "--"@;
            if i == 0 {
                assert(all[0] == x);
            } else {
                assert(w[i - 1] == x);
                assert forall|j: int| 0 <= j <= i - 1 implies #[trigger] w[j] != "--"@ by {
                    assert(args[j + 1] == w[j]);
                }
                assert(b.contains(x));
                let k = choose|k: int| 0 <= k < b.len() && b[k] == x;
                assert(all[k + 1] == x);
            }
        }
    }
}

/// The tool's own arguments are those before the first separator, unchanged and in their order.
pub proof fn the_separator_ends_the_tools_own(args: &Vec<String>, r: Vec<String>, k: int)
    requires
        call_ensures(custom::args_before_separator, (args,), r),
        0 <= k <= args@.len(),
        forall|i: int| 0 <= i < k ==> (#[trigger] args@[i])@ != "--"@,
        k < args@.len() ==> args@[k]@ == "--"@,
    ensures
        text::texts(r@) == text::texts(args@).take(k),
{
    let t = text::texts(args@);
    assert forall|i: int| 0 <= i < k implies #[trigger] t[i] != "--"@ by {
        assert(t[i] == args@[i]@);
    }
    if k < t.len() {
        assert(t[k] == args@[k]@);
    }
    lemma_taken(t, k);
}

proof fn lemma_taken(args: Seq<Seq<char>>, k: int)
    requires
        0 <= k <= args.len(),
        forall|i: int| 0 <= i < k ==> #[trigger] args[i] != "--"@,
        k < args.len() ==> args[k] == "--"@,
    ensures
        custom::before_separator(args) == args.take(k),
    decreases k,
{
    if k == 0 {
        assert(args.take(0) =~= Seq::<Seq<char>>::empty());
    } else {
        let w = args.drop_first();
        assert(args[0] != "--"@);
        assert forall|i: int| 0 <= i < k - 1 implies #[trigger] w[i] != "--"@ by {
            assert(w[i] == args[i + 1]);
        }
        if k < args.len() {
            assert(w[k - 1] == args[k]);
        }
        lemma_taken(w, k - 1);
        assert(args.take(k) =~= seq![args[0]] + w.take(k - 1));
    }
}

proof fn lemma_unflagged(args: Seq<Seq<char>>, flags: Seq<Seq<char>>)
    requires
        forall|i: int| 0 <= i < args.len() ==> !flags.contains(#[trigger] args[i]),
    ensures
        custom::without_flags(args, flags) == args,
    decreases args.len(),
{
    if args.len() > 0 {
        let w = args.drop_last();
        assert(!flags.contains(args[args.len() - 1]));
        assert forall|i: int| 0 <= i < w.len() implies !flags.contains(#[trigger] w[i]) by {
            assert(w[i] == args[i]);
        }
        lemma_unflagged(w, flags);
        assert(w.push(args.last()) =~= args);
    } else {
        assert(custom::without_flags(args, flags) =~= args);
    }
}

/// Whether an argument stands for itself before a subcommand: it is no global flag and does not
/// give the project directory.
pub open spec fn stands_alone(token: Seq<char>, flags: Seq<Seq<char>>) -> bool {
    !flags.contains(token) && token != "--dir"@ && token != "-d"@ && !"--dir="@.is_prefix_of(token)
        && !"-d="@.is_prefix_of(token)
}

/// The subcommand is the first argument that is neither a global flag nor the project directory,
/// and what was typed behind it is handed on as it is where no global flag is among it.
pub proof fn a_subcommand_is_found(
    args: &Vec<String>,
    flags: &Vec<String>,
    r: Option<(String, Vec<String>)>,
    k: int,
)
    requires
        call_ensures(custom::split_leading_subcommand, (args, flags), r),
        1 <= k <= args@.len(),
        forall|i: int| 1 <= i < k ==> text::texts(flags@).contains((#[trigger] args@[i])@)
            && args@[i]@ != "--dir"@ && args@[i]@ != "-d"@,
        k < args@.len() ==> stands_alone(args@[k]@, text::texts(flags@)),
        forall|i: int| k < i < args@.len() ==> !text::texts(flags@).contains(
            (#[trigger] args@[i])@,
        ),
    ensures
        k == args@.len() ==> r is None,
        k < args@.len() ==> (r matches Some(p) && p.0@ == args@[k]@ && text::texts(p.1@)
            == text::texts(args@).skip(k + 1)),
{
    let t = text::texts(args@);
    let f = text::texts(flags@);
    assert forall|i: int| 1 <= i < k implies f.contains(#[trigger] t[i]) && t[i] != "--dir"@ && t[i]
        != "-d"@ by {
        assert(t[i] == args@[i]@);
    }
    if k < t.len() {
        assert(t[k] == args@[k]@);
    }
    lemma_leading_at(t, f, 1, k);
    if k < t.len() {
        let rest = t.skip(k + 1);
        assert forall|i: int| 0 <= i < rest.len() implies !f.contains(#[trigger] rest[i]) by {
            assert(rest[i] == args@[i + k + 1]@);
        }
        lemma_unflagged(rest, f);
    }
}

proof fn lemma_leading_at(args: Seq<Seq<char>>, flags: Seq<Seq<char>>, i: int, k: int)
    requires
        0 <= i <= k <= args.len(),
        forall|j: int|
            i <= j < k ==> flags.contains(#[trigger] args[j]) && args[j] != "--dir"@ && args[j]
                != "-d"@,
        k < args.len() ==> stands_alone(args[k], flags),
    ensures
        custom::leading(args, flags, i) == k,
    decreases k - i,
{
    if i < k {
        assert(flags.contains(args[i]));
        lemma_leading_at(args, flags, i + 1, k);
    }
}

/// The project directory before a subcommand is not taken for one, nor is its flag.
pub proof fn the_project_directory_is_no_subcommand(
    args: &Vec<String>,
    flags: &Vec<String>,
    r: Option<(String, Vec<String>)>,
)
    requires
        call_ensures(custom::split_leading_subcommand, (args, flags), r),
        args@.len() == 4,
        args@[1]@ == "--dir"@ || args@[1]@ == "-d"@,
        stands_alone(args@[3]@, text::texts(flags@)),
    ensures
        r matches Some(p) && p.0@ == args@[3]@ && p.1@.len() == 0,
{
    let t = text::texts(args@);
    let f = text::texts(flags@);
    assert(t[1] == args@[1]@ && t[3] == args@[3]@);
    reveal_with_fuel(custom::leading, 3);
    assert(custom::leading(t, f, 1) == 3);
    assert(t.skip(4) =~= Seq::<Seq<char>>::empty());
    lemma_unflagged(t.skip(4), f);
    if let Some(p) = r {
        assert(text::texts(p.1@).len() == p.1@.len());
    }
}

} // verus!
