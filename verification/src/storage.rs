//! Where saved cookie files live: a folder named after the app under the
//! system's place for per-user settings, chosen from the environment.
use vstd::prelude::*;
use crate::ytdlp::{push_arg, push_owned_arg};

verus! {

/// The kind of system the app runs on, as far as the folder depends on it.
#[derive(Clone, Copy, Debug, PartialEq, Eq)]
pub enum Platform {
    Windows,
    MacOs,
    /// Linux and the other Unix-like systems.
    Other,
}

/// The text of an environment variable that is set, as a sequence.
pub open spec fn env_text(v: Option<String>) -> Option<Seq<char>> {
    match v {
        Some(s) => Some(s@),
        None => None,
    }
}

/// The folder for cookie files, as the path components to join in order,
/// given `APPDATA`, `XDG_CONFIG_HOME` and `HOME` where they are set:
/// `%APPDATA%\OpticalCortex` on Windows; `~/Library/Application
/// Support/OpticalCortex` on macOS; `$XDG_CONFIG_HOME/OpticalCortex`, else
/// `~/.config/OpticalCortex`, on other systems and on macOS without `HOME`;
/// the working folder `.` when none of these applies.
pub open spec fn cookies_dir_components(
    platform: Platform,
    appdata: Option<Seq<char>>,
    xdg: Option<Seq<char>>,
    home: Option<Seq<char>>,
) -> Seq<Seq<char>> {
    match platform {
        Platform::Windows => match appdata {
            Some(a) => seq![a, "OpticalCortex"@],
            None => seq!["."@],
        },
        Platform::MacOs => match home {
            Some(h) => seq![h, "Library"@, "Application Support"@, "OpticalCortex"@],
            None => match xdg {
                Some(x) => seq![x, "OpticalCortex"@],
                None => seq!["."@],
            },
        },
        Platform::Other => match xdg {
            Some(x) => seq![x, "OpticalCortex"@],
            None => match home {
                Some(h) => seq![h, ".config"@, "OpticalCortex"@],
                None => seq!["."@],
            },
        },
    }
}

/// The folder for cookie files, as the path components to join in order.
pub fn cookies_dir_parts(
    platform: Platform,
    appdata: Option<String>,
    xdg: Option<String>,
    home: Option<String>,
) -> (r: Vec<String>)
    ensures
        r.deep_view() == cookies_dir_components(
            platform,
            env_text(appdata),
            env_text(xdg),
            env_text(home),
        ),
{
    let mut parts: Vec<String> = Vec::new();
    match platform {
        Platform::Windows => match appdata {
            Some(a) => {
                push_owned_arg(&mut parts, a);
                push_arg(&mut parts, "OpticalCortex");
            },
            None => push_arg(&mut parts, "."),
        },
        Platform::MacOs => match home {
            Some(h) => {
                push_owned_arg(&mut parts, h);
                push_arg(&mut parts, "Library");
                push_arg(&mut parts, "Application Support");
                push_arg(&mut parts, "OpticalCortex");
            },
            None => match xdg {
                Some(x) => {
                    push_owned_arg(&mut parts, x);
                    push_arg(&mut parts, "OpticalCortex");
                },
                None => push_arg(&mut parts, "."),
            },
        },
        Platform::Other => match xdg {
            Some(x) => {
                push_owned_arg(&mut parts, x);
                push_arg(&mut parts, "OpticalCortex");
            },
            None => match home {
                Some(h) => {
                    push_owned_arg(&mut parts, h);
                    push_arg(&mut parts, ".config");
                    push_arg(&mut parts, "OpticalCortex");
                },
                None => push_arg(&mut parts, "."),
            },
        },
    }
    proof {
        assert(parts.deep_view() =~= cookies_dir_components(
            platform,
            env_text(appdata),
            env_text(xdg),
            env_text(home),
        ));
    }
    parts
}

} // verus!
