//! The files that the tool brings along: the template, the ingress and the manual.
use vstd::prelude::*;

use crate::paths;
use crate::text;
use crate::text::{is_listed, same};

verus! {

/// The file name of the manual.
pub const MANUAL_FILENAME: &'static str = "USER-MANUAL.pdf";

/// Where the files lie: an installation shares them, or they are written to the directory of the
/// user's configuration.
#[derive(Debug, Clone, PartialEq, Eq)]
pub struct AssetManager {
    pub config_dir: String,
    pub share_dir: Option<String>,
}

/// The directory that an installation shares, by the path of its program: beside the directory
/// of programs.
pub open spec fn share_of(exe: Seq<char>) -> Option<Seq<char>> {
    match paths::parent_of(exe) {
        Some(bin) => match paths::parent_of(bin) {
            Some(prefix) => Some(paths::below(paths::below(prefix, "share"@), "docker-control"@)),
            None => None,
        },
        None => None,
    }
}

/// The directory that an installation shares, by the path of its program.
pub fn share_candidate(exe: &str) -> (r: Option<String>)
    ensures
        paths::opt(r) == share_of(exe@),
{
    match paths::parent(exe) {
        Some(bin) => match paths::parent(bin.as_str()) {
            Some(prefix) => {
                let share = paths::join(prefix.as_str(), "share");
                Some(paths::join(share.as_str(), "docker-control"))
            },
            None => None,
        },
        None => None,
    }
}

impl AssetManager {
    /// Where a part lies: with the installation where it is there, or else in the configuration.
    pub open spec fn place(self, name: Seq<char>, existing: Seq<Seq<char>>) -> Seq<char> {
        if self.share_dir matches Some(s) && existing.contains(paths::below(s@, name)) {
            paths::below(self.share_dir->0@, name)
        } else {
            paths::below(self.config_dir@, name)
        }
    }

    /// The files of a user whose configuration lies in a directory. The directory that the
    /// installation shares counts where it exists.
    pub fn new(config_dir: &str, share: Option<&str>, existing: &Vec<String>) -> (r: AssetManager)
        ensures
            r.config_dir@ == config_dir@,
            paths::opt(r.share_dir) == (match share {
                Some(s) => if text::texts(existing@).contains(s@) {
                    Some(s@)
                } else {
                    None
                },
                None => None,
            }),
    {
        let share_dir = match share {
            Some(s) => if is_listed(existing, s) {
                Some(text::owned(s))
            } else {
                None
            },
            None => None,
        };
        AssetManager { config_dir: text::owned(config_dir), share_dir }
    }

    fn find(&self, name: &str, existing: &Vec<String>) -> (r: String)
        ensures
            r@ == self.place(name@, text::texts(existing@)),
    {
        if let Some(s) = &self.share_dir {
            let path = paths::join(s.as_str(), name);
            if is_listed(existing, path.as_str()) {
                return path;
            }
        }
        paths::join(self.config_dir.as_str(), name)
    }

    /// The directory of the template.
    pub fn get_template_dir(&self, existing: &Vec<String>) -> (r: String)
        ensures
            r@ == self.place("template"@, text::texts(existing@)),
    {
        self.find("template", existing)
    }

    /// The directory of the ingress.
    pub fn get_ingress_dir(&self, existing: &Vec<String>) -> (r: String)
        ensures
            r@ == self.place("ingress"@, text::texts(existing@)),
    {
        self.find("ingress", existing)
    }

    /// The manual.
    pub fn get_manual_path(&self, existing: &Vec<String>) -> (r: String)
        ensures
            r@ == self.place(MANUAL_FILENAME@, text::texts(existing@)),
    {
        self.find(MANUAL_FILENAME, existing)
    }

    /// Where the manual lies, and whether it has to be written there first. One that the
    /// installation shares is used as it is; another is written where it differs from the one that
    /// the tool brings along.
    pub fn ensure_manual(&self, existing: &Vec<String>, up_to_date: bool) -> (r: (String, bool))
        ensures
            r.0@ == self.place(MANUAL_FILENAME@, text::texts(existing@)),
            r.1 == !((self.share_dir matches Some(s) && paths::components(s@).is_prefix_of(
                paths::components(r.0@),
            )) || up_to_date),
    {
        let path = self.get_manual_path(existing);
        let shared = match &self.share_dir {
            Some(s) => paths::lies_below(path.as_str(), s.as_str()),
            None => false,
        };
        (path, !(shared || up_to_date))
    }

    /// Whether the files have to be written to the configuration: not with an installation that
    /// shares them, and only once for each version of the tool. `version` is the text of the file
    /// that tells which version wrote them, where there is one.
    pub fn ensure_assets(&self, version: Option<&str>, current: &str) -> (r: bool)
        ensures
            r == (self.share_dir is None && match version {
                Some(v) => text::trimmed(v@) != current@,
                None => true,
            }),
    {
        if self.share_dir.is_some() {
            return false;
        }
        match version {
            Some(v) => !same(text::trim(v).as_str(), current),
            None => true,
        }
    }
}

} // verus!
