//! Launch payload assembly.
//!
//! The user configuration runs through the pipeline as a [`ConfigMap`]: an
//! insertion-ordered association list with unique keys, the library's model
//! of a structured configuration object. The caller converts its serialized
//! configuration into this shape and back. [`get_binary`] merges the
//! resolved debugger executable, the configuration and caller-supplied
//! arguments and environment into the final transport payload.

use vstd::prelude::*;
use crate::errors::PipelineError;
use crate::solution::{strings_view, opt_string_view};
use crate::text::str_eq;

verus! {

broadcast use vstd::string::group_string_axioms;

/// Mathematical model of one configuration value.
#[verifier::ext_equal]
pub ghost enum ValueModel {
    Str(Seq<char>),
    Bool(bool),
    Int(int),
    Raw(Seq<char>),
}

/// One configuration value: a string, a boolean, an integer, or any other
/// value carried through opaquely as its serialized text.
#[derive(Debug, Clone, PartialEq, Eq)]
pub enum ConfigValue {
    Str(String),
    Bool(bool),
    Int(i64),
    Raw(String),
}

impl View for ConfigValue {
    type V = ValueModel;

    open spec fn view(&self) -> ValueModel {
        match self {
            ConfigValue::Str(s) => ValueModel::Str(s@),
            ConfigValue::Bool(b) => ValueModel::Bool(*b),
            ConfigValue::Int(n) => ValueModel::Int(*n as int),
            ConfigValue::Raw(s) => ValueModel::Raw(s@),
        }
    }
}

/// The model of a configuration object: its entries in insertion order.
pub type ConfigModel = Seq<(Seq<char>, ValueModel)>;

/// The value at key `k`, reading the first matching entry.
pub open spec fn map_get(m: ConfigModel, k: Seq<char>) -> Option<ValueModel>
    decreases m.len(),
{
    if m.len() == 0 {
        None
    } else if m[0].0 == k {
        Some(m[0].1)
    } else {
        map_get(m.drop_first(), k)
    }
}

/// `m` with key `k` bound to `v`: the first entry with key `k` is replaced
/// in place, or a new entry is appended.
pub open spec fn map_set(m: ConfigModel, k: Seq<char>, v: ValueModel) -> ConfigModel
    decreases m.len(),
{
    if m.len() == 0 {
        seq![(k, v)]
    } else if m[0].0 == k {
        seq![(k, v)] + m.drop_first()
    } else {
        seq![m[0]] + map_set(m.drop_first(), k, v)
    }
}

/// A structured configuration object: entries in insertion order, keys
/// unique.
#[derive(Debug, Clone, PartialEq, Eq)]
pub struct ConfigMap {
    /// The entries, in insertion order.
    pub entries: Vec<(String, ConfigValue)>,
}

/// The model of a vector of configuration entries.
pub open spec fn entries_view(s: Seq<(String, ConfigValue)>) -> ConfigModel {
    s.map_values(|e: (String, ConfigValue)| (e.0@, e.1@))
}

impl View for ConfigMap {
    type V = ConfigModel;

    open spec fn view(&self) -> ConfigModel {
        entries_view(self.entries@)
    }
}

impl ConfigMap {
    /// The empty configuration.
    pub fn new() -> (r: ConfigMap)
        ensures
            r@ == Seq::<(Seq<char>, ValueModel)>::empty(),
    {
        let r = ConfigMap { entries: Vec::new() };
        proof {
            assert(r@ =~= Seq::<(Seq<char>, ValueModel)>::empty());
        }
        r
    }

    /// The value at `key`, if any.
    pub fn get<'a>(&'a self, key: &str) -> (r: Option<&'a ConfigValue>)
        ensures
            match r {
                Some(v) => map_get(self@, key@) == Some(v@),
                None => map_get(self@, key@) is None,
            },
    {
        let mut i: usize = 0;
        proof {
            assert(self@.skip(0) =~= self@);
        }
        while i < self.entries.len()
            invariant
                i <= self.entries@.len(),
                map_get(self@, key@) == map_get(self@.skip(i as int), key@),
            decreases self.entries@.len() - i,
        {
            let e: &(String, ConfigValue) = &self.entries[i];
            proof {
                assert(self@.skip(i as int)[0] == self@[i as int]);
            }
            if str_eq(e.0.as_str(), key) {
                return Some(&e.1);
            }
            proof {
                assert(self@.skip(i as int).drop_first() =~= self@.skip(i as int + 1));
            }
            i = i + 1;
        }
        proof {
            assert(self@.skip(i as int) =~= Seq::<(Seq<char>, ValueModel)>::empty());
        }
        None
    }

    /// Bind `key` to `value`, replacing the first matching entry in place or
    /// appending a new one.
    pub fn set(&mut self, key: &str, value: ConfigValue)
        ensures
            final(self)@ == map_set(old(self)@, key@, value@),
    {
        let ghost vm = value@;
        let mut i: usize = 0;
        while i < self.entries.len()
            invariant
                i <= self.entries@.len(),
                self@ == old(self)@,
                value@ == vm,
                forall|k: int| 0 <= k < i ==> self@[k].0 != key@,
            decreases self.entries@.len() - i,
        {
            let hit = str_eq(self.entries[i].0.as_str(), key);
            if hit {
                proof {
                    assert(self@[i as int].0 == key@);
                    lemma_map_set_replace(self@, key@, vm, i as int);
                }
                let ghost before_entries = self.entries@;
                let key_owned = key.to_owned();
                proof {
                    assert(key_owned@ == key@);
                }
                let elem = (key_owned, value);
                let ghost elem_snap = elem;
                proof {
                    assert(elem_snap.0@ == key@);
                    assert(elem_snap.1@ == vm);
                }
                self.entries.remove(i);
                let ghost mid_entries = self.entries@;
                self.entries.insert(i, elem);
                proof {
                    assert(mid_entries == before_entries.remove(i as int));
                    assert(self.entries@ == mid_entries.insert(i as int, elem_snap));
                    assert(self.entries@ =~= before_entries.update(i as int, elem_snap));
                    assert(elem_snap.0@ == key@ && elem_snap.1@ == vm);
                    assert(self@ =~= old(self)@.update(i as int, (key@, vm)));
                    assert(self@ =~= map_set(old(self)@, key@, vm));
                }
                return ;
            }
            i = i + 1;
        }
        proof {
            assert forall|k: int| 0 <= k < self@.len() implies self@[k].0 != key@ by {
                assert(self@[k] == (self.entries@[k].0@, self.entries@[k].1@));
            }
            lemma_map_set_append(self@, key@, vm);
        }
        self.entries.push((key.to_owned(), value));
        proof {
            assert(self@ =~= old(self)@.push((key@, vm)));
        }
    }

    /// A copy whose model equals this one's.
    pub fn duplicate(&self) -> (r: ConfigMap)
        ensures
            r@ == self@,
    {
        let mut entries: Vec<(String, ConfigValue)> = Vec::new();
        let mut i: usize = 0;
        proof {
            assert(entries_view(entries@) =~= self@.subrange(0, 0));
        }
        while i < self.entries.len()
            invariant
                i <= self.entries@.len(),
                entries_view(entries@) == self@.subrange(0, i as int),
            decreases self.entries@.len() - i,
        {
            let e: &(String, ConfigValue) = &self.entries[i];
            let v: ConfigValue = match &e.1 {
                ConfigValue::Str(s) => ConfigValue::Str(s.clone()),
                ConfigValue::Bool(b) => ConfigValue::Bool(*b),
                ConfigValue::Int(n) => ConfigValue::Int(*n),
                ConfigValue::Raw(s) => ConfigValue::Raw(s.clone()),
            };
            let ghost before = entries_view(entries@);
            entries.push((e.0.clone(), v));
            proof {
                assert(entries_view(entries@) =~= before.push(self@[i as int]));
                assert(before.push(self@[i as int]) =~= self@.subrange(0, i as int + 1));
            }
            i = i + 1;
        }
        proof {
            assert(self@.subrange(0, self@.len() as int) =~= self@);
        }
        ConfigMap { entries }
    }
}

proof fn lemma_map_set_replace(m: ConfigModel, k: Seq<char>, v: ValueModel, i: int)
    requires
        0 <= i < m.len(),
        m[i].0 == k,
        forall|j: int| 0 <= j < i ==> m[j].0 != k,
    ensures
        map_set(m, k, v) =~= m.update(i, (k, v)),
    decreases i,
{
    if i == 0 {
        assert(map_set(m, k, v) == seq![(k, v)] + m.drop_first());
        assert(seq![(k, v)] + m.drop_first() =~= m.update(0, (k, v)));
    } else {
        lemma_map_set_replace(m.drop_first(), k, v, i - 1);
        assert(map_set(m, k, v) == seq![m[0]] + map_set(m.drop_first(), k, v));
        assert(seq![m[0]] + m.drop_first().update(i - 1, (k, v)) =~= m.update(i, (k, v)));
    }
}

proof fn lemma_map_set_append(m: ConfigModel, k: Seq<char>, v: ValueModel)
    requires
        forall|j: int| 0 <= j < m.len() ==> m[j].0 != k,
    ensures
        map_set(m, k, v) =~= m.push((k, v)),
    decreases m.len(),
{
    if m.len() == 0 {
        assert(map_set(m, k, v) =~= m.push((k, v)));
    } else {
        lemma_map_set_append(m.drop_first(), k, v);
        assert(seq![m[0]] + m.drop_first().push((k, v)) =~= m.push((k, v)));
    }
}

/// Whether a launch or an attach is requested.
#[derive(Debug, Clone, Copy, PartialEq, Eq, Structural)]
pub enum RequestKind {
    Launch,
    Attach,
}

/// The request kind a configuration asks for: attach exactly when the
/// `request` entry is the string `attach`, else launch.
pub open spec fn request_kind_model(m: ConfigModel) -> RequestKind {
    if map_get(m, "request"@) == Some(ValueModel::Str("attach"@)) {
        RequestKind::Attach
    } else {
        RequestKind::Launch
    }
}

/// The configuration with the console mode defaulted to the integrated
/// terminal when unset.
pub open spec fn with_console_default(m: ConfigModel) -> ConfigModel {
    if map_get(m, "console"@) is None {
        map_set(m, "console"@, ValueModel::Str("integratedTerminal"@))
    } else {
        m
    }
}

/// A launch request lacking a `program` entry is the one rejected
/// configuration.
pub open spec fn missing_program(m: ConfigModel) -> bool {
    request_kind_model(m) == RequestKind::Launch && map_get(m, "program"@) is None
}

/// The working directory a configuration names, when its `cwd` entry is a
/// string.
pub open spec fn cwd_model(m: ConfigModel) -> Option<Seq<char>> {
    match map_get(m, "cwd"@) {
        Some(v) => match v {
            ValueModel::Str(s) => Some(s),
            _ => None,
        },
        None => None,
    }
}

/// Assemble the request arguments of a configuration: its request kind, and
/// the configuration itself with the console mode defaulted. Fails exactly
/// when a launch is requested and no `program` entry is present; attach
/// requests are exempt.
pub fn assemble_request_args(config: &ConfigMap) -> (r: Result<
    (ConfigMap, RequestKind),
    PipelineError,
>)
    ensures
        missing_program(config@) ==> (r matches Err(e) && (e matches PipelineError::Config {
            detail,
        } && detail@ == "'program' is required for launch requests"@)),
        !missing_program(config@) ==> (r matches Ok(pair) && pair.0@ == with_console_default(
            config@,
        ) && pair.1 == request_kind_model(config@)),
{
    let kind = match config.get("request") {
        Some(v) => match v {
            ConfigValue::Str(s) => {
                if str_eq(s.as_str(), "attach") {
                    RequestKind::Attach
                } else {
                    RequestKind::Launch
                }
            },
            _ => RequestKind::Launch,
        },
        None => RequestKind::Launch,
    };
    let mut configuration = config.duplicate();
    let has_console = match config.get("console") {
        Some(_) => true,
        None => false,
    };
    if !has_console {
        configuration.set("console", ConfigValue::Str("integratedTerminal".to_owned()));
    }
    let has_program = match config.get("program") {
        Some(_) => true,
        None => false,
    };
    if matches!(kind, RequestKind::Launch) && !has_program {
        return Err(
            PipelineError::Config { detail: "'program' is required for launch requests".to_owned() },
        );
    }
    Ok((configuration, kind))
}

/// Mathematical model of a network endpoint.
#[verifier::ext_equal]
pub ghost struct TcpModel {
    pub host: Seq<char>,
    pub port: u16,
}

/// A network endpoint of a debug adapter. The assembled payload is
/// stdio-based and never carries one.
#[derive(Debug, Clone, PartialEq, Eq)]
pub struct TcpConnection {
    /// Host to connect to.
    pub host: String,
    /// Port to connect to.
    pub port: u16,
}

impl View for TcpConnection {
    type V = TcpModel;

    open spec fn view(&self) -> TcpModel {
        TcpModel { host: self.host@, port: self.port }
    }
}

/// The request half of the final payload: the assembled configuration and
/// the request kind.
#[derive(Debug, Clone, PartialEq, Eq)]
pub struct StartDebuggingRequestArguments {
    /// The configuration object handed to the adapter.
    pub configuration: ConfigMap,
    /// Launch or attach.
    pub request: RequestKind,
}

/// The final transport payload: the executable command, its arguments and
/// environment, the working directory, no network connection, and the
/// request arguments.
#[derive(Debug, Clone, PartialEq, Eq)]
pub struct DebugAdapterBinary {
    /// The debugger executable to start.
    pub command: Option<String>,
    /// Extra arguments for the executable.
    pub arguments: Vec<String>,
    /// Environment entries for the executable.
    pub envs: Vec<(String, String)>,
    /// Working directory, from the configuration's `cwd` entry.
    pub cwd: Option<String>,
    /// Network endpoint; always absent for this stdio-based adapter.
    pub connection: Option<TcpConnection>,
    /// The assembled request arguments.
    pub request_args: StartDebuggingRequestArguments,
}

/// The model of a vector of environment entries.
pub open spec fn env_view(e: Seq<(String, String)>) -> Seq<(Seq<char>, Seq<char>)> {
    e.map_values(|p: (String, String)| (p.0@, p.1@))
}

/// A caller-supplied explicit path bypasses resolution entirely.
pub fn effective_binary(user_installed: Option<String>, resolved: String) -> (r: String)
    ensures
        r@ == match user_installed {
            Some(u) => u@,
            None => resolved@,
        },
{
    match user_installed {
        Some(u) => u,
        None => resolved,
    }
}

/// Build the final payload from the resolved executable, the configuration,
/// and caller-supplied extra arguments and environment (each defaulting to
/// empty). Fails exactly when the configuration requests a launch without a
/// `program` entry.
pub fn get_binary(
    binary_path: String,
    config: &ConfigMap,
    user_args: Option<Vec<String>>,
    user_env: Option<Vec<(String, String)>>,
) -> (r: Result<DebugAdapterBinary, PipelineError>)
    ensures
        missing_program(config@) ==> (r matches Err(e) && (e matches PipelineError::Config {
            detail,
        } && detail@ == "'program' is required for launch requests"@)),
        !missing_program(config@) ==> (r matches Ok(b) && (b.command matches Some(c) && c@
            == binary_path@) && strings_view(b.arguments@) == (match user_args {
            Some(a) => strings_view(a@),
            None => Seq::<Seq<char>>::empty(),
        }) && env_view(b.envs@) == (match user_env {
            Some(e) => env_view(e@),
            None => Seq::<(Seq<char>, Seq<char>)>::empty(),
        }) && opt_string_view(b.cwd) == cwd_model(config@) && b.connection is None
            && b.request_args.configuration@ == with_console_default(config@)
            && b.request_args.request == request_kind_model(config@)),
{
    let (configuration, request) = match assemble_request_args(config) {
        Ok(pair) => pair,
        Err(e) => {
            return Err(e);
        },
    };
    let cwd: Option<String> = match config.get("cwd") {
        Some(v) => match v {
            ConfigValue::Str(s) => Some(s.clone()),
            _ => None,
        },
        None => None,
    };
    let arguments: Vec<String> = match user_args {
        Some(a) => a,
        None => Vec::new(),
    };
    let envs: Vec<(String, String)> = match user_env {
        Some(e) => e,
        None => Vec::new(),
    };
    proof {
        if user_args is None {
            assert(strings_view(arguments@) =~= Seq::<Seq<char>>::empty());
        }
        if user_env is None {
            assert(env_view(envs@) =~= Seq::<(Seq<char>, Seq<char>)>::empty());
        }
    }
    Ok(
        DebugAdapterBinary {
            command: Some(binary_path),
            arguments,
            envs,
            cwd,
            connection: None,
            request_args: StartDebuggingRequestArguments { configuration, request },
        },
    )
}

} // verus!
