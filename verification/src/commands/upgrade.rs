//! Upgrading the tool itself.
use vstd::prelude::*;

use crate::json;
use crate::text;
use crate::text::push_text;
use crate::utils::dependencies::is_brew_eligible;
use crate::utils::platform::Platform;

verus! {

/// The formula of the tool.
pub const TAP_FORMULA: &'static str = "INTERLIGENT-kommunzieren-GmbH/tap/docker-control";

/// The seconds between two checks for a newer version: a week.
pub const UPDATE_CHECK_INTERVAL: i64 = 604800;

/// The arguments of `brew` that upgrade the tool.
pub fn execute() -> (r: Vec<String>)
    ensures
        text::texts(r@) == seq!["upgrade"@, TAP_FORMULA@],
{
    let mut r = text::no_texts();
    push_text(&mut r, "upgrade");
    push_text(&mut r, TAP_FORMULA);
    assert(text::texts(r@) =~= seq!["upgrade"@, TAP_FORMULA@]);
    r
}

/// What became of an upgrade, by how its status reads.
pub fn upgrade_result(success: bool, status: &str) -> (r: Result<String, String>)
    ensures
        success ==> (r matches Ok(m) && m@ == "docker-control upgraded successfully."@),
        !success ==> (r matches Err(e) && e@ == "brew upgrade failed with status "@ + status@),
{
    if success {
        Ok(text::owned("docker-control upgraded successfully."))
    } else {
        let mut e = text::owned("brew upgrade failed with status ");
        e.append(status);
        Err(e)
    }
}

/// The arguments of `brew` that ask for a newer version.
pub fn outdated_args() -> (r: Vec<String>)
    ensures
        text::texts(r@) == seq!["outdated"@, "--json=v2"@, TAP_FORMULA@],
{
    let mut r = text::no_texts();
    push_text(&mut r, "outdated");
    push_text(&mut r, "--json=v2");
    push_text(&mut r, TAP_FORMULA);
    assert(text::texts(r@) =~= seq!["outdated"@, "--json=v2"@, TAP_FORMULA@]);
    r
}

/// Whether Homebrew is asked for a newer version: where nobody forbids it, a week has passed, and
/// Homebrew is what one expects on the platform.
pub fn asks_for_updates(skipped: bool, due: bool, platform: &Platform) -> (r: bool)
    ensures
        r == (!skipped && due && (platform is Macos || platform is NativeLinux)),
{
    !skipped && due && is_brew_eligible(platform)
}

/// What the answer of Homebrew means: whether it lists a newer version. `None` where it is no such
/// answer, and then the check does not count as made.
pub open spec fn outdated_in(answer: Seq<char>) -> Option<bool> {
    match json::field(answer, "formulae"@) {
        Some(f) => match json::json_items(f) {
            Some(items) => Some(items.len() > 0),
            None => None,
        },
        None => None,
    }
}

/// What the answer of Homebrew means.
pub fn check_outdated(answer: &str) -> (r: Option<bool>)
    ensures
        r == outdated_in(answer@),
{
    match json::get(answer, "formulae") {
        Some(f) => match json::items(f.as_str()) {
            Some(items) => lists_updates(&items),
            None => None,
        },
        None => None,
    }
}

/// Whether a list of formulas that have a newer version holds one.
pub fn lists_updates(items: &Vec<String>) -> (r: Option<bool>)
    ensures
        r == Some(items@.len() > 0),
{
    Some(items.len() > 0)
}

/// Asks whether the tool is to be upgraded.
pub trait UpgradePromptProvider {
    fn confirm_upgrade(&self) -> bool;
}

/// The question as a terminal puts it.
pub struct InteractiveUpgradePromptProvider;

impl InteractiveUpgradePromptProvider {
    /// The question. Its preset answer is yes.
    pub fn question(&self) -> (r: String)
        ensures
            r@ == "Upgrade docker-control now?"@,
    {
        text::owned("Upgrade docker-control now?")
    }

    /// What counts as the answer; a prompt that was left counts for no.
    pub fn answer(&self, reply: Option<bool>) -> (r: bool)
        ensures
            r == (reply == Some(true)),
    {
        match reply {
            Some(b) => b,
            None => false,
        }
    }
}

/// Whether the tool is upgraded before a command runs: where a user can be asked, there is a newer
/// version, and the user agrees.
pub fn maybe_offer_self_upgrade_with<P: UpgradePromptProvider>(
    terminal: bool,
    outdated: Option<bool>,
    prompt: &P,
) -> (r: bool)
    ensures
        !terminal || outdated != Some(true) ==> !r,
        terminal && outdated == Some(true) ==> call_ensures(P::confirm_upgrade, (prompt,), r),
{
    if !terminal {
        return false;
    }
    match outdated {
        Some(true) => prompt.confirm_upgrade(),
        _ => false,
    }
}

} // verus!
