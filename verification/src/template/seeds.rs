//! The two seed files of the template, whose entries are compared with the files that they
//! produced in the project: `.env-dist` with `.env` and `.gitignore-dist` with `.gitignore`.
use vstd::prelude::*;

use crate::lines;
use crate::lines::trimmed_lines_of;
use crate::template::{Change, ChangeView};
use crate::text;
use crate::text::{is_listed, split_once, starts_with, trim};

verus! {

/// The lines that are no comments, in order.
pub open spec fn without_comments(ls: Seq<Seq<char>>) -> Seq<Seq<char>>
    decreases ls.len(),
{
    if ls.len() == 0 {
        ls
    } else if "#"@.is_prefix_of(ls.last()) {
        without_comments(ls.drop_last())
    } else {
        without_comments(ls.drop_last()).push(ls.last())
    }
}

/// The lines of a file that are neither blank nor comments, without the white space around
/// them.
pub open spec fn patterns(content: Seq<char>) -> Seq<Seq<char>> {
    without_comments(lines::trimmed_lines(content))
}

/// What stands before the equals sign, for the lines that have one.
pub open spec fn assigned(ls: Seq<Seq<char>>) -> Seq<Seq<char>>
    decreases ls.len(),
{
    if ls.len() == 0 {
        ls
    } else {
        let before = assigned(ls.drop_last());
        match text::cut(ls.last(), '=') {
            Some(kv) => before.push(text::trimmed(kv.0)),
            None => before,
        }
    }
}

/// The keys that a dotenv file defines, in file order.
pub open spec fn keys(content: Seq<char>) -> Seq<Seq<char>> {
    assigned(patterns(content))
}

/// The strings of one list that another does not hold, in order.
pub open spec fn missing(wanted: Seq<Seq<char>>, there: Seq<Seq<char>>) -> Seq<Seq<char>>
    decreases wanted.len(),
{
    if wanted.len() == 0 {
        wanted
    } else if there.contains(wanted.last()) {
        missing(wanted.drop_last(), there)
    } else {
        missing(wanted.drop_last(), there).push(wanted.last())
    }
}

/// What is missing is what is wanted and not there.
pub proof fn missing_is_the_difference(wanted: Seq<Seq<char>>, there: Seq<Seq<char>>)
    ensures
        forall|s: Seq<char>| #[trigger]
            missing(wanted, there).contains(s) <==> wanted.contains(s) && !there.contains(s),
    decreases wanted.len(),
{
    if wanted.len() > 0 {
        let init = wanted.drop_last();
        missing_is_the_difference(init, there);
        assert(wanted =~= init.push(wanted.last()));
        let m = missing(init, there);
        assert forall|s: Seq<char>| #[trigger]
            missing(wanted, there).contains(s) <==> wanted.contains(s) && !there.contains(s) by {
            vstd::seq_lib::lemma_seq_contains_after_push(init, wanted.last(), s);
            vstd::seq_lib::lemma_seq_contains_after_push(m, wanted.last(), s);
            assert(m.contains(s) <==> init.contains(s) && !there.contains(s));
        }
    }
}

/// Ignore patterns in a `.gitignore`, without blanks and comments.
pub fn gitignore_entries(content: &str) -> (r: Vec<String>)
    ensures
        text::texts(r@) == patterns(content@),
{
    let all = trimmed_lines_of(content);
    let ghost ls = text::texts(all@);
    let mut r: Vec<String> = Vec::new();
    let mut i: usize = 0;
    while i < all.len()
        invariant
            i <= all@.len(),
            ls == text::texts(all@),
            text::texts(r@) == without_comments(ls.take(i as int)),
        decreases all@.len() - i,
    {
        proof {
            assert(ls.take(i + 1).drop_last() =~= ls.take(i as int));
            assert(ls.take(i + 1).last() == all@[i as int]@);
        }
        let ghost before = text::texts(r@);
        if !starts_with(all[i].as_str(), "#") {
            r.push(all[i].clone());
            assert(text::texts(r@) =~= before.push(all@[i as int]@));
        }
        i += 1;
    }
    assert(ls.take(i as int) =~= ls);
    r
}

/// Keys defined in a dotenv file, in file order, without blanks and comments.
pub fn env_keys(content: &str) -> (r: Vec<String>)
    ensures
        text::texts(r@) == keys(content@),
{
    let all = gitignore_entries(content);
    let ghost ls = text::texts(all@);
    let mut r: Vec<String> = Vec::new();
    let mut i: usize = 0;
    while i < all.len()
        invariant
            i <= all@.len(),
            ls == text::texts(all@),
            text::texts(r@) == assigned(ls.take(i as int)),
        decreases all@.len() - i,
    {
        proof {
            assert(ls.take(i + 1).drop_last() =~= ls.take(i as int));
            assert(ls.take(i + 1).last() == all@[i as int]@);
        }
        let ghost before = text::texts(r@);
        if let Some((key, _)) = split_once(all[i].as_str(), '=') {
            let key = trim(key.as_str());
            r.push(key);
            assert(text::texts(r@) =~= before.push(key@));
        }
        i += 1;
    }
    assert(ls.take(i as int) =~= ls);
    r
}

/// The entries of one list that another does not hold.
pub fn difference(wanted: &Vec<String>, there: &Vec<String>) -> (r: Vec<String>)
    ensures
        text::texts(r@) == missing(text::texts(wanted@), text::texts(there@)),
{
    let ghost ls = text::texts(wanted@);
    let mut r: Vec<String> = Vec::new();
    let mut i: usize = 0;
    while i < wanted.len()
        invariant
            i <= wanted@.len(),
            ls == text::texts(wanted@),
            text::texts(r@) == missing(ls.take(i as int), text::texts(there@)),
        decreases wanted@.len() - i,
    {
        proof {
            assert(ls.take(i + 1).drop_last() =~= ls.take(i as int));
            assert(ls.take(i + 1).last() == wanted@[i as int]@);
        }
        let ghost before = text::texts(r@);
        if !is_listed(there, wanted[i].as_str()) {
            r.push(wanted[i].clone());
            assert(text::texts(r@) =~= before.push(wanted@[i as int]@));
        }
        i += 1;
    }
    assert(ls.take(i as int) =~= ls);
    r
}

/// Entries that `template` defines and `project` does not, as `extract` reads them.
pub fn missing_entries<F: Fn(&str) -> Vec<String>>(
    template: &str,
    project: &str,
    extract: F,
) -> (r: Vec<String>)
    requires
        call_requires(extract, (template,)),
        call_requires(extract, (project,)),
    ensures
        exists|t: Vec<String>, p: Vec<String>|
            #[trigger] call_ensures(extract, (template,), t) && #[trigger] call_ensures(
                extract,
                (project,),
                p,
            ) && text::texts(r@) == missing(text::texts(t@), text::texts(p@)),
{
    let existing = extract(project);
    let wanted = extract(template);
    difference(&wanted, &existing)
}

/// The content of the two seeds and of the files they produced; empty where a file cannot be
/// read.
pub struct Seeds {
    pub env_dist: String,
    pub env: String,
    pub gitignore_dist: String,
    pub gitignore: String,
}

/// What the seeds have that the project's files lack.
pub open spec fn derived(s: Seeds) -> Seq<ChangeView> {
    let env = missing(keys(s.env_dist@), keys(s.env@));
    let ignores = missing(patterns(s.gitignore_dist@), patterns(s.gitignore@));
    (if env.len() > 0 {
        seq![ChangeView::EnvKeys(env)]
    } else {
        Seq::empty()
    }) + (if ignores.len() > 0 {
        seq![ChangeView::GitignoreEntries(ignores)]
    } else {
        Seq::empty()
    })
}

/// Reports the entries that the seeds have and the project's files lack. Only additions
/// count, and nothing needs to be recorded for the comparison.
pub fn derived_changes(s: &Seeds) -> (r: Vec<Change>)
    ensures
        crate::template::changes_view(r@) == derived(*s),
{
    let mut r: Vec<Change> = Vec::new();
    let env = missing_entries(s.env_dist.as_str(), s.env.as_str(), env_keys);
    assert(text::texts(env@) == missing(keys(s.env_dist@), keys(s.env@)));
    if env.len() > 0 {
        r.push(Change::EnvKeys(env));
    }
    let ghost first = crate::template::changes_view(r@);
    let ignores = missing_entries(
        s.gitignore_dist.as_str(),
        s.gitignore.as_str(),
        gitignore_entries,
    );
    assert(text::texts(ignores@) == missing(patterns(s.gitignore_dist@), patterns(s.gitignore@)));
    if ignores.len() > 0 {
        r.push(Change::GitignoreEntries(ignores));
    }
    assert(crate::template::changes_view(r@) =~= derived(*s));
    r
}

} // verus!
