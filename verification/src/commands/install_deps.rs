//! Installing the programs that the tool calls.
use vstd::prelude::*;

use crate::utils::dependencies;
use crate::utils::dependencies::Dependency;

verus! {

/// The programs that Homebrew is asked to install, those that nothing depends on included.
pub fn execute(macos: bool, brew_found: bool) -> (r: Result<Vec<Dependency>, String>)
    ensures
        brew_found ==> (r matches Ok(v) && dependencies::deps(v@) == dependencies::picked(
            dependencies::all_dependencies(),
            dependencies::brought(macos),
        )),
        !brew_found ==> (r matches Err(e) && e@
            == "Homebrew is not installed. Install it from https://brew.sh and try again."@),
{
    dependencies::install_brew_dependencies(macos, brew_found)
}

} // verus!
