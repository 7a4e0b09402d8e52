//! Debugger-binary resolution.
//!
//! The debugger executable is discovered by a tiered lookup: first a
//! path-lookup probe, then a fixed per-adapter cache directory, else an
//! actionable failure. The caller performs the probes; the decisions stand
//! here. The outcome is memoized in a write-once [`BinaryCacheEntry`] scoped
//! to the resolver's lifetime; only successes are cached, so a failed
//! attempt re-probes on the next call, and an explicit
//! [`BinaryCacheEntry::invalidate`] forces a refresh.

use vstd::prelude::*;
use crate::errors::PipelineError;
use crate::pathtext::{join_path, join_chars};
use crate::solution::opt_string_view;
use crate::text::{is_ws, trim_by, trim_ws, str_to_chars, chars_to_string};

verus! {

broadcast use vstd::string::group_string_axioms;

/// The memoized outcome of one successful resolution, write-once for the
/// adapter instance's lifetime.
#[derive(Debug, Clone, PartialEq, Eq)]
pub struct BinaryCacheEntry {
    path: Option<String>,
}

impl View for BinaryCacheEntry {
    type V = Option<Seq<char>>;

    closed spec fn view(&self) -> Option<Seq<char>> {
        opt_string_view(self.path)
    }
}

impl BinaryCacheEntry {
    /// An empty cache: nothing resolved yet.
    pub fn new() -> (r: BinaryCacheEntry)
        ensures
            r@ is None,
    {
        BinaryCacheEntry { path: None }
    }

    /// The cached path, if a resolution succeeded before.
    pub fn get(&self) -> (r: Option<String>)
        ensures
            opt_string_view(r) == self@,
    {
        match &self.path {
            Some(p) => Some(p.clone()),
            None => None,
        }
    }

    /// Memoize a successful resolution; a value already cached stays, so the
    /// cell is written at most once between invalidations.
    pub fn store(&mut self, p: String)
        ensures
            final(self)@ == match old(self)@ {
                Some(q) => Some(q),
                None => Some(p@),
            },
    {
        match &self.path {
            Some(_) => {},
            None => {
                self.path = Some(p);
            },
        }
    }

    /// Drop the memoized outcome, forcing the next call to re-probe.
    pub fn invalidate(&mut self)
        ensures
            final(self)@ is None,
    {
        self.path = None;
    }
}

/// The platform-appropriate executable name of the debugger.
pub open spec fn binary_name_model(windows: bool) -> Seq<char> {
    if windows {
        "vsdbg.exe"@
    } else {
        "vsdbg"@
    }
}

/// The platform-appropriate executable name, as
/// `binary_name_model` says.
pub fn binary_name(windows: bool) -> (r: String)
    ensures
        r@ == binary_name_model(windows),
{
    if windows {
        "vsdbg.exe".to_owned()
    } else {
        "vsdbg".to_owned()
    }
}

/// What a path-lookup probe yields: the trimmed output, accepted only when
/// the probe succeeded and the trimmed output is non-empty.
pub open spec fn which_candidate_model(success: bool, out: Seq<char>) -> Option<Seq<char>> {
    let t = trim_by(out, |c: char| is_ws(c));
    if success && t.len() > 0 {
        Some(t)
    } else {
        None
    }
}

/// Interpret the output of the path-lookup probe, as
/// `which_candidate_model` says; the caller still checks that the reported
/// path exists before accepting it.
pub fn which_candidate(success: bool, out: &str) -> (r: Option<String>)
    ensures
        match r {
            Some(p) => which_candidate_model(success, out@) == Some(p@),
            None => which_candidate_model(success, out@) is None,
        },
{
    let cs = str_to_chars(out);
    let t = trim_ws(&cs);
    if success && t.len() > 0 {
        Some(chars_to_string(&t))
    } else {
        None
    }
}

/// Where the per-adapter cache directory keeps the debugger executable.
pub open spec fn cached_binary_model(cache_dir: Seq<char>, windows: bool) -> Seq<char> {
    join_path(join_path(cache_dir, "vsdbg"@), binary_name_model(windows))
}

/// The cached-binary path under the adapters directory, as
/// `cached_binary_model` says.
pub fn cached_binary_path(cache_dir: &str, windows: bool) -> (r: String)
    ensures
        r@ == cached_binary_model(cache_dir@, windows),
{
    let base = str_to_chars(cache_dir);
    let adapter = str_to_chars("vsdbg");
    let with_adapter = join_chars(&base, &adapter);
    let name = binary_name(windows);
    let nv = str_to_chars(name.as_str());
    let full = join_chars(&with_adapter, &nv);
    chars_to_string(&full)
}

/// The resolution decision: a path-lookup hit that exists wins, else the
/// cached binary when it exists, else an actionable failure. `which_hit`
/// must already be existence-checked by the caller.
pub fn resolve_binary(
    which_hit: Option<String>,
    cached_path: String,
    cached_exists: bool,
) -> (r: Result<String, PipelineError>)
    ensures
        match which_hit {
            Some(p) => r matches Ok(q) && q@ == p@,
            None => if cached_exists {
                r matches Ok(q) && q@ == cached_path@
            } else {
                r matches Err(e) && e == PipelineError::Lookup
            },
        },
{
    match which_hit {
        Some(p) => Ok(p),
        None => {
            if cached_exists {
                Ok(cached_path)
            } else {
                Err(PipelineError::Lookup)
            }
        },
    }
}

/// The adapter's name, as sessions and cache directories know it.
pub fn adapter_name() -> (r: String)
    ensures
        r@ == "vsdbg"@,
{
    "vsdbg".to_owned()
}

} // verus!
