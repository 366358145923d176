//! The platform that the tool runs on.
use vstd::prelude::*;

use crate::docker;
use crate::paths;
use crate::text;
use crate::text::{contains, same};

verus! {

#[derive(Debug, Clone, PartialEq, Eq)]
pub enum Platform {
    Macos,
    Wsl,
    DockerDesktop,
    /// With the address of the bridge of Docker, where it has one.
    NativeLinux(Option<String>),
    Windows,
    Unknown,
}

/// A platform, with its strings as sequences of characters.
pub ghost enum PlatformView {
    Macos,
    Wsl,
    DockerDesktop,
    NativeLinux(Option<Seq<char>>),
    Windows,
    Unknown,
}

impl View for Platform {
    type V = PlatformView;

    open spec fn view(&self) -> PlatformView {
        match *self {
            Platform::Macos => PlatformView::Macos,
            Platform::Wsl => PlatformView::Wsl,
            Platform::DockerDesktop => PlatformView::DockerDesktop,
            Platform::NativeLinux(ip) => PlatformView::NativeLinux(paths::opt(ip)),
            Platform::Windows => PlatformView::Windows,
            Platform::Unknown => PlatformView::Unknown,
        }
    }
}

/// A platform and the address that containers reach it by.
#[derive(Debug, Clone, PartialEq, Eq)]
pub struct PlatformInfo {
    pub platform: Platform,
    pub bind_ip: String,
}

/// Whether the kernel says that it runs under Windows.
pub open spec fn is_wsl(proc_version: Option<Seq<char>>) -> bool {
    proc_version matches Some(v) && (text::has_text(text::lowercase(v), "microsoft"@)
        || text::has_text(text::lowercase(v), "wsl"@))
}

/// Whether `docker info` speaks of Docker Desktop, under one of its names.
pub open spec fn is_desktop(docker_info: Option<Seq<char>>, system: Seq<char>) -> bool {
    docker_info matches Some(i) && (text::has_text(text::lowercase(i), "docker desktop"@)
        || text::has_text(text::lowercase(i), system) || text::has_text(
        text::lowercase(i),
        "com.docker.desktop"@,
    ))
}

/// The platform by what the system says of itself.
pub open spec fn platform_of(
    os: Seq<char>,
    proc_version: Option<Seq<char>>,
    docker_info: Option<Seq<char>>,
    docker0: Option<Seq<char>>,
) -> PlatformView {
    if os == "macos"@ {
        PlatformView::Macos
    } else if os == "linux"@ {
        if is_wsl(proc_version) {
            PlatformView::Wsl
        } else if is_desktop(docker_info, "desktop-linux"@) {
            PlatformView::DockerDesktop
        } else {
            PlatformView::NativeLinux(docker0)
        }
    } else if os == "windows"@ {
        if is_desktop(docker_info, "windows-linux"@) {
            PlatformView::DockerDesktop
        } else {
            PlatformView::Windows
        }
    } else {
        PlatformView::Unknown
    }
}

/// The address that containers reach a platform by.
pub open spec fn address_of(p: PlatformView) -> Seq<char> {
    match p {
        PlatformView::NativeLinux(Some(ip)) => ip,
        PlatformView::Unknown => "localhost"@,
        _ => "127.0.0.1"@,
    }
}

fn wsl(proc_version: Option<&str>) -> (r: bool)
    ensures
        r == is_wsl(docker::opt_str(proc_version)),
{
    match proc_version {
        Some(v) => {
            let l = text::to_lowercase(v);
            contains(l.as_str(), "microsoft") || contains(l.as_str(), "wsl")
        },
        None => false,
    }
}

fn desktop(docker_info: Option<&str>, system: &str) -> (r: bool)
    ensures
        r == is_desktop(docker::opt_str(docker_info), system@),
{
    match docker_info {
        Some(i) => {
            let l = text::to_lowercase(i);
            contains(l.as_str(), "docker desktop") || contains(l.as_str(), system) || contains(
                l.as_str(),
                "com.docker.desktop",
            )
        },
        None => false,
    }
}

/// Whether Docker has to be asked about itself to tell the platform.
pub fn needs_docker_info(os: &str, proc_version: Option<&str>) -> (r: bool)
    ensures
        r == ((os@ == "linux"@ && !is_wsl(docker::opt_str(proc_version))) || os@ == "windows"@),
{
    (same(os, "linux") && !wsl(proc_version)) || same(os, "windows")
}

/// Tells the platform by the name of the system, by `/proc/version` and by `docker info` where
/// they could be read, and by the address of the bridge of Docker.
pub fn detect_platform(
    os: &str,
    proc_version: Option<&str>,
    docker_info: Option<&str>,
    docker0: Option<&str>,
) -> (r: PlatformInfo)
    ensures
        r.platform@ == platform_of(
            os@,
            docker::opt_str(proc_version),
            docker::opt_str(docker_info),
            docker::opt_str(docker0),
        ),
        r.bind_ip@ == address_of(r.platform@),
{
    proof {
        reveal_strlit("macos");
        reveal_strlit("linux");
        reveal_strlit("windows");
    }
    if same(os, "macos") {
        PlatformInfo { platform: Platform::Macos, bind_ip: text::owned("127.0.0.1") }
    } else if same(os, "linux") {
        if wsl(proc_version) {
            PlatformInfo { platform: Platform::Wsl, bind_ip: text::owned("127.0.0.1") }
        } else if desktop(docker_info, "desktop-linux") {
            PlatformInfo { platform: Platform::DockerDesktop, bind_ip: text::owned("127.0.0.1") }
        } else {
            match docker0 {
                Some(ip) => PlatformInfo {
                    platform: Platform::NativeLinux(Some(text::owned(ip))),
                    bind_ip: text::owned(ip),
                },
                None => PlatformInfo {
                    platform: Platform::NativeLinux(None),
                    bind_ip: text::owned("127.0.0.1"),
                },
            }
        }
    } else if same(os, "windows") {
        if desktop(docker_info, "windows-linux") {
            PlatformInfo { platform: Platform::DockerDesktop, bind_ip: text::owned("127.0.0.1") }
        } else {
            PlatformInfo { platform: Platform::Windows, bind_ip: text::owned("127.0.0.1") }
        }
    } else {
        PlatformInfo { platform: Platform::Unknown, bind_ip: text::owned("localhost") }
    }
}

/// A network interface: its name, and its address where that is an IPv4 address.
#[derive(Debug, Clone, PartialEq, Eq)]
pub struct Interface {
    pub name: String,
    pub ipv4: Option<String>,
}

/// Whether an interface is the bridge of Docker, with an address of its own.
pub open spec fn is_bridge(i: Interface) -> bool {
    i.name@ == "docker0"@ && (i.ipv4 matches Some(ip) && ip@ != "127.0.0.1"@)
}

/// The address of the first bridge of Docker.
pub open spec fn bridge_address(all: Seq<Interface>) -> Option<Seq<char>>
    decreases all.len(),
{
    if all.len() == 0 {
        None
    } else if is_bridge(all[0]) {
        paths::opt(all[0].ipv4)
    } else {
        bridge_address(all.drop_first())
    }
}

/// The address of the bridge of Docker.
pub fn get_docker0_ip(interfaces: &Vec<Interface>) -> (r: Option<String>)
    ensures
        paths::opt(r) == bridge_address(interfaces@),
{
    let mut i: usize = 0;
    assert(interfaces@.skip(0) =~= interfaces@);
    while i < interfaces.len()
        invariant
            i <= interfaces@.len(),
            bridge_address(interfaces@) == bridge_address(interfaces@.skip(i as int)),
        decreases interfaces@.len() - i,
    {
        assert(interfaces@.skip(i as int)[0] == interfaces@[i as int]);
        assert(interfaces@.skip(i as int).drop_first() =~= interfaces@.skip(i + 1));
        if same(interfaces[i].name.as_str(), "docker0") {
            if let Some(ip) = &interfaces[i].ipv4 {
                if !same(ip.as_str(), "127.0.0.1") {
                    return Some(text::owned(ip.as_str()));
                }
            }
        }
        i += 1;
    }
    None
}

/// Where Homebrew is installed, by what `brew --prefix` printed where it succeeded.
pub fn get_brew_prefix(output: Option<&str>) -> (r: Option<String>)
    ensures
        paths::opt(r) == (match output {
            Some(o) => if text::trimmed(o@).len() > 0 {
                Some(text::trimmed(o@))
            } else {
                None
            },
            None => None,
        }),
{
    match output {
        Some(o) => {
            let p = text::trim(o);
            if p.as_str().is_empty() {
                None
            } else {
                Some(p)
            }
        },
        None => None,
    }
}

} // verus!
