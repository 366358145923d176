//! What holds of the files that modules are noted in.
use vstd::prelude::*;

use crate::commands::module::gitignore;
use crate::commands::module::gitignore::{EditView, GitignoreEdit};
use crate::edit;
use crate::lines;
use crate::paths;
use crate::text;
use crate::utils::phpstorm;

verus! {

// ---------------------------------------------------------------- the ignore list

/// The checkouts are ignored by a rule of their own, below the marker of the tool, at the end of
/// the file; what stood there before is kept, and so is whether it ended with a line feed.
pub proof fn the_rule_is_added_at_the_end(content: &str, r: Option<String>)
    requires
        call_ensures(gitignore::ensure_modules_gitignored, (content,), r),
    ensures
        r matches Some(s) ==> {
            let own = "# docker-control: development module checkouts"@ + seq!['\n']
                + "/modules/"@;
            &&& content@.is_prefix_of(s@)
            &&& content@.len() == 0 || content@.last() == '\n' ==> s@ == content@ + own + seq!['\n']
            &&& content@.len() > 0 && content@.last() != '\n' ==> s@ == content@ + seq!['\n'] + own
        },
{
    if let Some(s) = r {
        let own = "# docker-control: development module checkouts"@ + seq!['\n'] + "/modules/"@;
        assert(s@.subrange(0, content@.len() as int) =~= content@);
        if content@.len() == 0 || content@.last() == '\n' {
            assert(s@ =~= content@ + own + seq!['\n']);
        } else {
            assert(s@ =~= content@ + seq!['\n'] + own);
        }
    }
}

/// A file that ignores the checkouts in any of the ways in which this is written is left as it is,
/// and so is one to which the rule was added.
pub proof fn the_rule_is_not_added_twice(
    content: &str,
    i: int,
    r: Option<String>,
    again: &str,
    s: Option<String>,
)
    requires
        call_ensures(gitignore::ensure_modules_gitignored, (content,), r),
        r matches Some(t) ==> again@ == t@,
        call_ensures(gitignore::ensure_modules_gitignored, (again,), s),
    ensures
        0 <= i < lines::lines(content@).len() && ({
            let l = text::trimmed(lines::lines(content@)[i]);
            l == "/modules/"@ || l == "/modules"@ || l == "modules/"@ || l == "modules"@
        }) ==> r is None,
        r is Some ==> s is None,
{
    if 0 <= i < lines::lines(content@).len() && ({
        let l = text::trimmed(lines::lines(content@)[i]);
        l == "/modules/"@ || l == "/modules"@ || l == "modules/"@ || l == "modules"@
    }) {
        assert(gitignore::ignores_modules(lines::lines(content@)[i]));
    }
    gitignore::the_entry_is_added_once(content@);
}

/// A file without such a line gets the rule.
pub proof fn the_rule_is_added_where_it_is_missing(content: &str, r: Option<String>)
    requires
        call_ensures(gitignore::ensure_modules_gitignored, (content,), r),
        forall|i: int|
            0 <= i < lines::lines(content@).len() ==> {
                let l = text::trimmed(#[trigger] lines::lines(content@)[i]);
                l != "/modules/"@ && l != "/modules"@ && l != "modules/"@ && l != "modules"@
            },
    ensures
        r is Some,
{
    assert forall|i: int| 0 <= i < lines::lines(content@).len() implies !gitignore::ignores_modules(
        #[trigger] lines::lines(content@)[i],
    ) by {}
}

/// Adding the rule and taking it out again gives the file back as it was; one that was made for
/// the rule is removed with it.
pub proof fn taking_the_rule_out_gives_the_file_back(
    content: &str,
    r: Option<String>,
    after: &str,
    e: GitignoreEdit,
)
    requires
        call_ensures(gitignore::ensure_modules_gitignored, (content,), r),
        r matches Some(t) && after@ == t@,
        call_ensures(gitignore::remove_modules_gitignore, (after,), e),
        gitignore::no_carriage_returns(content@),
    ensures
        text::trimmed(content@).len() > 0 ==> e@ == EditView::Write(content@),
        content@.len() == 0 ==> e@ == EditView::Delete,
{
    if text::trimmed(content@).len() > 0 {
        gitignore::adding_and_removing_the_entry_changes_nothing(Some(content@));
    }
    if content@.len() == 0 {
        assert(content@ =~= Seq::<char>::empty());
        gitignore::adding_and_removing_the_entry_changes_nothing(None);
    }
}

/// A rule that the project wrote itself is never taken out.
pub proof fn a_rule_of_the_project_stays(content: &str, e: GitignoreEdit)
    requires
        call_ensures(gitignore::remove_modules_gitignore, (content,), e),
        forall|i: int|
            0 <= i < lines::lines(content@).len() ==> text::trimmed(
                #[trigger] lines::lines(content@)[i],
            ) != "# docker-control: development module checkouts"@,
    ensures
        e@ is Keep,
{
    gitignore::an_unmarked_entry_is_never_removed(content@);
}

// ---------------------------------------------------------------- the files of the IDE

/// A folder is excluded inside the content of the module, right before its end, and all other text
/// is kept. One that is excluded stays so.
pub proof fn a_folder_is_excluded_inside_the_content(
    content: &str,
    folder: &str,
    before: Seq<char>,
    behind: Seq<char>,
    r: Option<String>,
)
    requires
        call_ensures(phpstorm::exclude_from_phpstorm, (content, folder), r),
        content@ == before + "</content>"@ + behind,
        !text::has_text(before + "</content"@, "</content>"@),
    ensures
        ({
            let entry = "      <excludeFolder url=\"file://$MODULE_DIR$/"@ + folder@ + "\" />"@;
            &&& r is None <==> text::has_text(content@, entry)
            &&& r matches Some(s) ==> s@ == before + (entry + "\n    </content>"@) + behind
        }),
{
    reveal_strlit("</content>");
    reveal_strlit("</content");
    assert("</content>"@.drop_last() =~= "</content"@);
    lemma_first_place(content@, before, "</content>"@, behind);
}

/// A text that stands behind a part that does not hold it is found there first.
proof fn lemma_first_place(s: Seq<char>, before: Seq<char>, p: Seq<char>, behind: Seq<char>)
    requires
        s == before + p + behind,
        p.len() > 0,
        !text::has_text(before + p.drop_last(), p),
    ensures
        edit::find_from(s, p, 0) == Some(before.len() as int),
        s.take(before.len() as int) == before,
        s.skip(before.len() as int + p.len() as int) == behind,
        text::has_text(s, p),
{
    edit::find_from_first(s, p, 0);
    let n = before.len() as int;
    assert(s.subrange(n, n + p.len()) =~= p);
    assert(text::occurs_at(s, p, n));
    let i = edit::find_from(s, p, 0)->0;
    if i < n {
        let w = before + p.drop_last();
        assert(w.subrange(i, i + p.len()) =~= s.subrange(i, i + p.len()));
        assert(text::occurs_at(w, p, i));
    }
    assert(s.take(n) =~= before);
    assert(s.skip(n + p.len()) =~= behind);
}

/// A folder that is not excluded needs nothing taken out; otherwise its line goes, and no text
/// that does not hold it changes.
pub proof fn an_exclusion_is_taken_out(
    content: &str,
    folder: &str,
    before: Seq<char>,
    behind: Seq<char>,
    r: Option<String>,
)
    requires
        call_ensures(phpstorm::remove_phpstorm_exclude, (content, folder), r),
    ensures
        ({
            let line = "      <excludeFolder url=\"file://$MODULE_DIR$/"@ + folder@ + "\" />"@
                + "\n"@;
            &&& r is Some <==> text::has_text(content@, line)
            &&& content@ == before + line + behind && !text::has_text(behind, line)
                && !text::has_text(before + line.drop_last(), line) ==> (r matches Some(s) && s@
                == before + behind)
        }),
{
    let line = "      <excludeFolder url=\"file://$MODULE_DIR$/"@ + folder@ + "\" />"@ + "\n"@;
    reveal_strlit("\n");
    reveal_strlit("");
    if content@ == before + line + behind && !text::has_text(behind, line) && !text::has_text(
        before + line.drop_last(),
        line,
    ) {
        assert(line.len() > 0);
        lemma_first_place(content@, before, line, behind);
        edit::replaced_without(behind, line, ""@);
        assert(before + ""@ + behind =~= before + behind);
    }
}

/// A directory is registered by its path inside the project, as a root of git.
pub proof fn a_directory_is_registered_by_its_path(rel: &str, r: String)
    requires
        call_ensures(phpstorm::vcs_mapping_entry, (rel,), r),
    ensures
        text::trimmed(r@) == "<mapping directory=\"$PROJECT_DIR$/"@ + rel@ + "\" vcs=\"Git\" />"@,
{
}

/// Registering writes a file only where the IDE has its directory and the directory is not
/// registered yet; then it is, in the file that is written. A second time writes nothing.
pub proof fn a_directory_is_registered_once(
    idea: bool,
    content: &str,
    path: &str,
    rel: &str,
    r: Result<Option<String>, String>,
    again: &str,
    s: Result<Option<String>, String>,
)
    requires
        call_ensures(
            phpstorm::register_phpstorm_git_root,
            (idea, Some(content), path, rel),
            r,
        ),
        r matches Ok(Some(t)) ==> again@ == t@,
        call_ensures(phpstorm::register_phpstorm_git_root, (idea, Some(again), path, rel), s),
        text::has_text(content@, "<component name=\"VcsDirectoryMappings\">"@) || text::has_text(
            content@,
            "</project>"@,
        ),
    ensures
        !idea ==> r == Ok::<Option<String>, String>(None),
        ({
            let entry = "<mapping directory=\"$PROJECT_DIR$/"@ + rel@ + "\" vcs=\"Git\" />"@;
            &&& text::has_text(content@, entry) ==> r == Ok::<Option<String>, String>(None)
            &&& r matches Ok(Some(t)) ==> text::has_text(t@, entry)
            &&& idea && !text::has_text(content@, entry) && r is Ok ==> r->Ok_0 is Some
        }),
        r matches Ok(Some(t)) ==> s == Ok::<Option<String>, String>(None),
{
    if r is Ok && r->Ok_0 is Some {
        phpstorm::registering_is_done_once(content@, rel@);
    }
}

/// A new directory comes at the end of the component that lists them, inside it, and everything
/// else stays in its place.
pub proof fn a_new_directory_is_listed_last(
    content: &str,
    path: &str,
    rel: &str,
    r: Result<Option<String>, String>,
    open: int,
    close: int,
)
    requires
        call_ensures(
            phpstorm::register_phpstorm_git_root,
            (true, Some(content), path, rel),
            r,
        ),
        edit::find_from(content@, "<component name=\"VcsDirectoryMappings\">"@, 0) == Some(open),
        edit::find_from(content@, "</component>"@, open) == Some(close),
        !text::has_text(
            content@,
            "<mapping directory=\"$PROJECT_DIR$/"@ + rel@ + "\" vcs=\"Git\" />"@,
        ),
    ensures
        r is Ok && r->Ok_0 is Some && r->Ok_0->0@ == content@.take(close) + "    "@ + (
        "<mapping directory=\"$PROJECT_DIR$/"@ + rel@ + "\" vcs=\"Git\" />"@) + "\n  "@
            + content@.skip(close),
        open < close,
{
    phpstorm::a_directory_is_registered_in_one_place(content@, rel@, open, close);
    reveal_strlit("<component name=\"VcsDirectoryMappings\">");
    let s = r->Ok_0->0@;
    assert(s =~= content@.take(close) + "    "@ + ("<mapping directory=\"$PROJECT_DIR$/"@ + rel@
        + "\" vcs=\"Git\" />"@) + "\n  "@ + content@.skip(close));
}

/// Taking a registration out gives back the file as it was before, and nothing is done without a
/// file.
pub proof fn taking_a_registration_out_gives_the_file_back(
    content: &str,
    path: &str,
    rel: &str,
    r: Result<Option<String>, String>,
    after: &str,
    s: Option<String>,
    none: Option<String>,
    open: int,
    close: int,
)
    requires
        call_ensures(
            phpstorm::register_phpstorm_git_root,
            (true, Some(content), path, rel),
            r,
        ),
        r matches Ok(Some(t)) && after@ == t@,
        call_ensures(phpstorm::unregister_phpstorm_git_root, (Some(after), rel), s),
        call_ensures(phpstorm::unregister_phpstorm_git_root, (None::<&str>, rel), none),
        edit::find_from(content@, "<component name=\"VcsDirectoryMappings\">"@, 0) == Some(open),
        edit::find_from(content@, "</component>"@, open) == Some(close),
        3 <= close <= content@.len(),
        content@.subrange(close - 3, close) == "\n  "@,
        !rel@.contains('<'),
        !rel@.contains('\n'),
    ensures
        paths::opt(s) == Some(content@),
        none is None,
{
    phpstorm::unregistering_undoes_registering(content@, rel@, open, close);
}

} // verus!
