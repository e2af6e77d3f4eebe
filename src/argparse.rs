//! Run configuration and the protocol filter.

use vstd::prelude::*;
use vstd::string::*;
use crate::text::{has_prefix, starts_with, str_equals};

verus! {

/// The remote-display protocol family that a target is captured with.
#[derive(Copy, Clone, PartialEq, Eq, Structural, Debug)]
pub enum Mode {
    Auto,
    Web,
    Rdp,
    Vnc,
}

/// `a` and `b` select each other: one of them is `Auto`, or they are equal.
pub open spec fn mode_matches(a: Mode, b: Mode) -> bool {
    a == Mode::Auto || b == Mode::Auto || a == b
}

impl Mode {
    /// Whether the filter `filter` admits this mode: `Auto` on either
    /// side admits everything, otherwise only the same mode.
    pub fn selected(&self, filter: Self) -> (r: bool)
        ensures
            r == mode_matches(*self, filter),
    {
        *self == Mode::Auto || *self == filter || filter == Mode::Auto
    }

    /// The mode named `s` on the command line: `auto`, `web`, `rdp` or `vnc`.
    pub fn from_name(s: &str) -> (r: Option<Mode>)
        ensures
            r == mode_of_name(s@),
    {
        proof {
            reveal_strlit("web");
            reveal_strlit("rdp");
            reveal_strlit("vnc");
            reveal_strlit("auto");
        }
        if str_equals(s, "web") {
            Some(Mode::Web)
        } else if str_equals(s, "rdp") {
            Some(Mode::Rdp)
        } else if str_equals(s, "vnc") {
            Some(Mode::Vnc)
        } else if str_equals(s, "auto") {
            Some(Mode::Auto)
        } else {
            None
        }
    }
}

/// The mode that a command-line word names, if any.
pub open spec fn mode_of_name(s: Seq<char>) -> Option<Mode> {
    if s == "web"@ {
        Some(Mode::Web)
    } else if s == "rdp"@ {
        Some(Mode::Rdp)
    } else if s == "vnc"@ {
        Some(Mode::Vnc)
    } else if s == "auto"@ {
        Some(Mode::Auto)
    } else {
        None
    }
}

impl Default for Mode {
    fn default() -> (r: Self)
        ensures
            r == Mode::Auto,
    {
        Mode::Auto
    }
}

impl std::str::FromStr for Mode {
    type Err = &'static str;

    fn from_str(s: &str) -> (r: Result<Self, Self::Err>)
        ensures
            mode_of_name(s@) is Some ==> r == Ok::<Mode, &'static str>(mode_of_name(s@)->0),
            mode_of_name(s@) is None ==> r is Err,
    {
        match Mode::from_name(s) {
            Some(m) => Ok(m),
            None => Err("Mode must be \"auto\", \"web\", \"rdp\" or \"vnc\""),
        }
    }
}

/// The filter is reflexive and `Auto` absorbs on both sides; two distinct
/// specific modes never select each other.
pub proof fn lemma_mode_filter(x: Mode, y: Mode)
    ensures
        mode_matches(Mode::Auto, x),
        mode_matches(x, Mode::Auto),
        mode_matches(x, x),
        x != Mode::Auto && y != Mode::Auto && x != y ==> !mode_matches(x, y),
        mode_matches(x, y) == mode_matches(y, x),
{
}

/// The resolved run configuration.
#[derive(Debug, Default)]
pub struct Opts {
    pub files: Vec<String>,
    pub targets: Vec<String>,
    pub mode: Mode,
    pub rdp_timeout: usize,
    pub threads: usize,
    pub log_file: Option<String>,
    pub nmaps: Vec<String>,
    pub output_dir: String,
    pub web_proxy: Option<String>,
    pub rdp_proxy: Option<String>,
    pub silent: bool,
    pub verbose: u64,
    pub test_import: bool,
}

/// The scheme that the blanket proxy option must carry.
pub open spec fn socks5_scheme() -> Seq<char> {
    "socks5://"@
}

/// Accepts a proxy URI only if it starts with `socks5://`.
pub fn is_socks5(val: &str) -> (r: Result<(), String>)
    ensures
        r is Ok <==> has_prefix(val@, socks5_scheme()),
        r is Err ==> r->Err_0@ == "Global or RDP proxy must be a socks5:// URI"@,
{
    if !starts_with(val, "socks5://") {
        Err(String::from_str("Global or RDP proxy must be a socks5:// URI"))
    } else {
        Ok(())
    }
}

/// The proxies for web and RDP connections: the blanket proxy applies to
/// both, and a protocol-specific one overrides it.
pub fn resolve_proxies(
    blanket: Option<String>,
    web: Option<String>,
    rdp: Option<String>,
) -> (r: (Option<String>, Option<String>))
    ensures
        r.0 == (if web is Some { web } else { blanket }),
        r.1 == (if rdp is Some { rdp } else { blanket }),
{
    let web_proxy = match web {
        Some(p) => Some(p),
        None => blanket.clone(),
    };
    let rdp_proxy = match rdp {
        Some(p) => Some(p),
        None => blanket,
    };
    (web_proxy, rdp_proxy)
}

} // verus!
