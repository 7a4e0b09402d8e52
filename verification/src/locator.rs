//! Build-task recognition and artifact recovery.
//!
//! Phase one, [`DotNetLocator::create_scenario`], recognizes a build-tool
//! invocation template and rewrites it into a build-plus-debug scenario.
//! Phase two is the pure half of running that scenario: rebuilding the
//! concrete invocation, interpreting the exit status, and recovering the
//! produced artifact path from captured output text, with a conventional
//! output-directory fallback. The caller spawns the process and probes the
//! filesystem; every decision is made here, on plain values.

use vstd::prelude::*;
use crate::errors::PipelineError;
use crate::launch::{ConfigMap, ConfigValue, ValueModel, ConfigModel, TcpConnection, TcpModel,
    env_view, map_set};
use crate::pathtext::{join_path, join_chars, resolve_against, resolve_chars};
use crate::solution::{strings_view, opt_string_view};
use crate::text::{
    contains_at, find_char_from, find_sub_from, is_ws, trim_by, find_char, find_sub_str,
    str_to_chars, chars_to_string, subvec, trim_ws, starts_with_str, ends_with_str, str_eq,
    lemma_find_char_first,
};

verus! {

broadcast use vstd::string::group_string_axioms;

/// Mathematical model of a build task template.
#[verifier::ext_equal]
pub ghost struct TaskTemplateModel {
    pub label: Seq<char>,
    pub command: Seq<char>,
    pub args: Seq<Seq<char>>,
    pub env: Seq<(Seq<char>, Seq<char>)>,
    pub cwd: Option<Seq<char>>,
}

/// A generic build task template: a program, its arguments, and the
/// environment and working directory to run it with.
#[derive(Debug, Clone, PartialEq, Eq)]
pub struct TaskTemplate {
    /// Human-readable label of the task.
    pub label: String,
    /// The program to run.
    pub command: String,
    /// The argument list.
    pub args: Vec<String>,
    /// Environment entries merged into the spawned process.
    pub env: Vec<(String, String)>,
    /// Working directory, when the task names one.
    pub cwd: Option<String>,
}

impl View for TaskTemplate {
    type V = TaskTemplateModel;

    open spec fn view(&self) -> TaskTemplateModel {
        TaskTemplateModel {
            label: self.label@,
            command: self.command@,
            args: strings_view(self.args@),
            env: env_view(self.env@),
            cwd: opt_string_view(self.cwd),
        }
    }
}

/// Mathematical model of a scenario's build step.
#[verifier::ext_equal]
pub ghost struct BuildStepModel {
    pub task_template: TaskTemplateModel,
    pub locator_name: Option<Seq<char>>,
}

/// The build step of a scenario: the task template to run, tagged with the
/// locator that must interpret its outcome.
#[derive(Debug, Clone, PartialEq, Eq)]
pub struct BuildTaskDefinition {
    /// The (possibly rewritten) template to run before debugging.
    pub task_template: TaskTemplate,
    /// The locator that turns the build outcome into a debug request.
    pub locator_name: Option<String>,
}

impl View for BuildTaskDefinition {
    type V = BuildStepModel;

    open spec fn view(&self) -> BuildStepModel {
        BuildStepModel {
            task_template: self.task_template@,
            locator_name: opt_string_view(self.locator_name),
        }
    }
}

/// Mathematical model of a debug scenario.
#[verifier::ext_equal]
pub ghost struct ScenarioModel {
    pub adapter: Seq<char>,
    pub label: Seq<char>,
    pub build: Option<BuildStepModel>,
    pub config: ConfigModel,
    pub tcp_connection: Option<TcpModel>,
}

/// A declarative debug scenario: an adapter name, a label, an optional build
/// step, a configuration payload, and no transport connection by default.
#[derive(Debug, Clone, PartialEq, Eq)]
pub struct DebugScenario {
    /// Name of the debug adapter to start.
    pub adapter: String,
    /// Human-readable label of the scenario.
    pub label: String,
    /// The build step to run first, if any.
    pub build: Option<BuildTaskDefinition>,
    /// The configuration payload handed to the adapter.
    pub config: ConfigMap,
    /// Transport connection descriptor; absent for this stdio-based flow.
    pub tcp_connection: Option<TcpConnection>,
}

impl View for DebugScenario {
    type V = ScenarioModel;

    open spec fn view(&self) -> ScenarioModel {
        ScenarioModel {
            adapter: self.adapter@,
            label: self.label@,
            build: match self.build {
                Some(b) => Some(b@),
                None => None,
            },
            config: self.config@,
            tcp_connection: match self.tcp_connection {
                Some(t) => Some(t@),
                None => None,
            },
        }
    }
}

/// A concrete launch request: the program to debug, with working directory,
/// arguments and environment.
#[derive(Debug, Clone, PartialEq, Eq)]
pub struct LaunchRequest {
    /// Path of the artifact to launch under the debugger.
    pub program: String,
    /// Working directory for the debuggee.
    pub cwd: Option<String>,
    /// Arguments for the debuggee.
    pub args: Vec<String>,
    /// Environment entries for the debuggee.
    pub env: Vec<(String, String)>,
}

/// What the debugger is asked to do: start a new process, or attach to a
/// running one by its identifier.
#[derive(Debug, Clone, PartialEq, Eq)]
pub enum DebugRequest {
    Launch(LaunchRequest),
    Attach { process_id: u32 },
}

/// The action rewrite of phase one: `run` (or its alias) becomes `build`,
/// `build` is accepted unchanged, `test` is accepted only when the arguments
/// already carry the no-build flag, and anything else is rejected.
pub open spec fn rewritten_args(args: Seq<Seq<char>>) -> Option<Seq<Seq<char>>> {
    if args.len() == 0 {
        None
    } else if args[0] == "run"@ || args[0] == "r"@ {
        Some(args.update(0, "build"@))
    } else if args[0] == "test"@ {
        if args.contains("--no-build"@) {
            Some(args)
        } else {
            None
        }
    } else if args[0] == "build"@ {
        Some(args)
    } else {
        None
    }
}

/// The minimal launch-request configuration stub a scenario carries.
pub open spec fn scenario_config_stub() -> ConfigModel {
    seq![
        ("type"@, ValueModel::Str("coreclr"@)),
        ("request"@, ValueModel::Str("launch"@)),
    ]
}

/// The scenario phase one emits for a template, if the template's program is
/// the build tool and its action is accepted: the rewritten template tagged
/// with this locator's identity, and the configuration stub.
pub open spec fn scenario_model(
    t: TaskTemplateModel,
    label: Seq<char>,
    adapter: Seq<char>,
) -> Option<ScenarioModel> {
    if t.command != "dotnet"@ {
        None
    } else {
        match rewritten_args(t.args) {
            None => None,
            Some(args2) => Some(
                ScenarioModel {
                    adapter: adapter,
                    label: label,
                    build: Some(
                        BuildStepModel {
                            task_template: TaskTemplateModel {
                                label: t.label,
                                command: t.command,
                                args: args2,
                                env: t.env,
                                cwd: t.cwd,
                            },
                            locator_name: Some("dotnet-locator"@),
                        },
                    ),
                    config: scenario_config_stub(),
                    tcp_connection: None,
                },
            ),
        }
    }
}

/// A copy of a string vector whose model equals the original's.
fn clone_strings(v: &Vec<String>) -> (r: Vec<String>)
    ensures
        strings_view(r@) == strings_view(v@),
{
    let mut r: Vec<String> = Vec::new();
    let mut i: usize = 0;
    proof {
        assert(strings_view(r@) =~= strings_view(v@).subrange(0, 0));
    }
    while i < v.len()
        invariant
            i <= v@.len(),
            strings_view(r@) == strings_view(v@).subrange(0, i as int),
        decreases v@.len() - i,
    {
        let ghost before = strings_view(r@);
        r.push(v[i].clone());
        proof {
            assert(strings_view(r@) =~= before.push(v@[i as int]@));
            assert(before.push(v@[i as int]@) =~= strings_view(v@).subrange(0, i as int + 1));
        }
        i = i + 1;
    }
    proof {
        assert(strings_view(v@).subrange(0, v@.len() as int) =~= strings_view(v@));
    }
    r
}

/// A copy of an environment vector whose model equals the original's.
fn clone_env(v: &Vec<(String, String)>) -> (r: Vec<(String, String)>)
    ensures
        env_view(r@) == env_view(v@),
{
    let mut r: Vec<(String, String)> = Vec::new();
    let mut i: usize = 0;
    proof {
        assert(env_view(r@) =~= env_view(v@).subrange(0, 0));
    }
    while i < v.len()
        invariant
            i <= v@.len(),
            env_view(r@) == env_view(v@).subrange(0, i as int),
        decreases v@.len() - i,
    {
        let e: &(String, String) = &v[i];
        let ghost before = env_view(r@);
        r.push((e.0.clone(), e.1.clone()));
        proof {
            assert(env_view(r@) =~= before.push((v@[i as int].0@, v@[i as int].1@)));
            assert(before.push((v@[i as int].0@, v@[i as int].1@)) =~= env_view(v@).subrange(
                0,
                i as int + 1,
            ));
        }
        i = i + 1;
    }
    proof {
        assert(env_view(v@).subrange(0, v@.len() as int) =~= env_view(v@));
    }
    r
}

/// A copy of an optional string whose model equals the original's.
fn clone_opt_string(v: &Option<String>) -> (r: Option<String>)
    ensures
        opt_string_view(r) == opt_string_view(*v),
{
    match v {
        Some(s) => Some(s.clone()),
        None => None,
    }
}

/// Whether the argument list carries the literal `s`.
fn args_contains(v: &Vec<String>, s: &str) -> (r: bool)
    ensures
        r == strings_view(v@).contains(s@),
{
    let mut i: usize = 0;
    while i < v.len()
        invariant
            i <= v@.len(),
            forall|k: int| 0 <= k < i ==> v@[k]@ != s@,
        decreases v@.len() - i,
    {
        if str_eq(v[i].as_str(), s) {
            proof {
                assert(strings_view(v@)[i as int] == s@);
            }
            return true;
        }
        i = i + 1;
    }
    proof {
        assert forall|k: int| 0 <= k < strings_view(v@).len() implies strings_view(v@)[k]
            != s@ by {
            assert(strings_view(v@)[k] == v@[k]@);
        }
    }
    false
}

/// The locator that turns accepted build-tool invocations into debug
/// scenarios and interprets their build outcomes.
pub struct DotNetLocator;

impl DotNetLocator {
    /// This locator's identity, as scenarios carry it.
    pub fn name(&self) -> (r: String)
        ensures
            r@ == "dotnet-locator"@,
    {
        "dotnet-locator".to_owned()
    }

    /// Phase one: recognize a build-tool invocation and rewrite it into a
    /// debug scenario, as `scenario_model` says. Only the action token is
    /// ever rewritten; every other argument position is left untouched.
    pub fn create_scenario(
        &self,
        build_config: &TaskTemplate,
        resolved_label: &str,
        adapter: &str,
    ) -> (r: Option<DebugScenario>)
        ensures
            match r {
                Some(s) => scenario_model(build_config@, resolved_label@, adapter@) == Some(s@),
                None => scenario_model(build_config@, resolved_label@, adapter@) is None,
            },
    {
        if !str_eq(build_config.command.as_str(), "dotnet") {
            return None;
        }
        if build_config.args.len() == 0 {
            proof {
                assert(strings_view(build_config.args@).len() == 0);
            }
            return None;
        }
        proof {
            assert(strings_view(build_config.args@)[0] == build_config.args@[0]@);
        }
        let first: &String = &build_config.args[0];
        let is_run = str_eq(first.as_str(), "run") || str_eq(first.as_str(), "r");
        let new_args: Vec<String>;
        if is_run {
            let mut a: Vec<String> = Vec::new();
            a.push("build".to_owned());
            proof {
                assert(strings_view(a@) =~= strings_view(build_config.args@).update(
                    0,
                    "build"@,
                ).subrange(0, 1));
            }
            let mut i: usize = 1;
            while i < build_config.args.len()
                invariant
                    1 <= i <= build_config.args@.len(),
                    strings_view(a@) == strings_view(build_config.args@).update(
                        0,
                        "build"@,
                    ).subrange(0, i as int),
                decreases build_config.args@.len() - i,
            {
                let ghost before = strings_view(a@);
                a.push(build_config.args[i].clone());
                proof {
                    assert(strings_view(a@) =~= before.push(build_config.args@[i as int]@));
                    assert(strings_view(a@) =~= strings_view(build_config.args@).update(
                        0,
                        "build"@,
                    ).subrange(0, i as int + 1));
                }
                i = i + 1;
            }
            proof {
                let full = strings_view(build_config.args@).update(0, "build"@);
                assert(full.subrange(0, full.len() as int) =~= full);
            }
            new_args = a;
        } else if str_eq(first.as_str(), "test") {
            if !args_contains(&build_config.args, "--no-build") {
                return None;
            }
            new_args = clone_strings(&build_config.args);
        } else if str_eq(first.as_str(), "build") {
            new_args = clone_strings(&build_config.args);
        } else {
            return None;
        }
        let template = TaskTemplate {
            label: build_config.label.clone(),
            command: build_config.command.clone(),
            args: new_args,
            env: clone_env(&build_config.env),
            cwd: clone_opt_string(&build_config.cwd),
        };
        let mut config = ConfigMap::new();
        config.set("type", ConfigValue::Str("coreclr".to_owned()));
        config.set("request", ConfigValue::Str("launch".to_owned()));
        proof {
            reveal_strlit("type");
            reveal_strlit("request");
            let empty_m = Seq::<(Seq<char>, ValueModel)>::empty();
            let m1 = map_set(empty_m, "type"@, ValueModel::Str("coreclr"@));
            assert(m1 =~= seq![("type"@, ValueModel::Str("coreclr"@))]);
            assert(m1.drop_first() =~= empty_m);
            assert("type"@.len() == 4);
            assert("request"@.len() == 7);
            assert("type"@ != "request"@);
            assert(map_set(empty_m, "request"@, ValueModel::Str("launch"@)) =~= seq![
                ("request"@, ValueModel::Str("launch"@)),
            ]);
            assert(map_set(m1, "request"@, ValueModel::Str("launch"@)) =~= seq![
                ("type"@, ValueModel::Str("coreclr"@)),
            ] + seq![("request"@, ValueModel::Str("launch"@))]);
            assert(config@ =~= scenario_config_stub());
        }
        let scenario = DebugScenario {
            adapter: adapter.to_owned(),
            label: resolved_label.to_owned(),
            build: Some(
                BuildTaskDefinition {
                    task_template: template,
                    locator_name: Some("dotnet-locator".to_owned()),
                },
            ),
            config,
            tcp_connection: None,
        };
        proof {
            assert(scenario_model(build_config@, resolved_label@, adapter@) matches Some(m) && m
                =~= scenario@);
        }
        Some(scenario)
    }
}

/// The arguments before the first literal separator; anything after it is
/// excluded from the rebuilt invocation.
pub open spec fn args_until_separator(args: Seq<Seq<char>>) -> Seq<Seq<char>>
    decreases args.len(),
{
    if args.len() == 0 {
        Seq::empty()
    } else if args[0] == "--"@ {
        Seq::empty()
    } else {
        seq![args[0]] + args_until_separator(args.drop_first())
    }
}

/// The rebuilt build invocation: the template's arguments truncated at the
/// first separator, then the three fixed flags that disable implicit
/// restore, force absolute paths in output, and reduce verbosity.
pub open spec fn build_invocation_model(args: Seq<Seq<char>>) -> Seq<Seq<char>> {
    args_until_separator(args) + seq![
        "--no-restore"@,
        "/p:GenerateFullPaths=true"@,
        "-v:q"@,
    ]
}

/// Rebuild the concrete build-tool invocation from a task's arguments, as
/// `build_invocation_model` says.
pub fn build_invocation(args: &Vec<String>) -> (r: Vec<String>)
    ensures
        strings_view(r@) == build_invocation_model(strings_view(args@)),
{
    let mut r: Vec<String> = Vec::new();
    let mut i: usize = 0;
    proof {
        assert(strings_view(r@) =~= Seq::<Seq<char>>::empty());
        assert(strings_view(args@).skip(0) =~= strings_view(args@));
    }
    let mut truncated = false;
    while i < args.len() && !truncated
        invariant
            i <= args@.len(),
            args_until_separator(strings_view(args@)) == if truncated {
                strings_view(r@)
            } else {
                strings_view(r@) + args_until_separator(strings_view(args@).skip(i as int))
            },
        decreases args@.len() - i + if truncated {
            0int
        } else {
            1int
        },
    {
        proof {
            assert(strings_view(args@).skip(i as int)[0] == args@[i as int]@);
            assert(strings_view(args@).skip(i as int).drop_first() =~= strings_view(
                args@,
            ).skip(i as int + 1));
        }
        if str_eq(args[i].as_str(), "--") {
            truncated = true;
            proof {
                assert(args_until_separator(strings_view(args@).skip(i as int))
                    =~= Seq::<Seq<char>>::empty());
                assert(strings_view(r@) + Seq::<Seq<char>>::empty() =~= strings_view(r@));
            }
        } else {
            let ghost before = strings_view(r@);
            r.push(args[i].clone());
            proof {
                assert(strings_view(r@) =~= before.push(args@[i as int]@));
                assert(before.push(args@[i as int]@) + args_until_separator(
                    strings_view(args@).skip(i as int + 1),
                ) =~= before + (seq![args@[i as int]@] + args_until_separator(
                    strings_view(args@).skip(i as int + 1),
                )));
            }
            i = i + 1;
        }
    }
    proof {
        if !truncated {
            assert(strings_view(args@).skip(i as int) =~= Seq::<Seq<char>>::empty());
            assert(strings_view(r@) + args_until_separator(Seq::<Seq<char>>::empty())
                =~= strings_view(r@));
        }
    }
    let ghost kept = strings_view(r@);
    r.push("--no-restore".to_owned());
    r.push("/p:GenerateFullPaths=true".to_owned());
    r.push("-v:q".to_owned());
    proof {
        assert(strings_view(r@) =~= kept + seq![
            "--no-restore"@,
            "/p:GenerateFullPaths=true"@,
            "-v:q"@,
        ]);
    }
    r
}

/// A working directory is required before a build can run.
pub fn check_working_dir(cwd: Option<String>) -> (r: Result<String, PipelineError>)
    ensures
        match cwd {
            Some(c) => r matches Ok(o) && o@ == c@,
            None => r matches Err(e) && (e matches PipelineError::Config { detail } && detail@
                == "Working directory required for dotnet build"@),
        },
{
    match cwd {
        Some(c) => Ok(c),
        None => Err(
            PipelineError::Config {
                detail: "Working directory required for dotnet build".to_owned(),
            },
        ),
    }
}

/// A build that exits with success passes; a non-zero exit status fails with
/// the captured stderr attached verbatim.
pub fn check_build_exit(success: bool, exit_code: Option<i32>, stderr: &str) -> (r: Result<
    (),
    PipelineError,
>)
    ensures
        success ==> r is Ok,
        !success ==> (r matches Err(e) && (e matches PipelineError::Build {
            exit_code: c,
            stderr: s,
        } && c == exit_code && s@ == stderr@)),
{
    if success {
        Ok(())
    } else {
        Err(PipelineError::Build { exit_code, stderr: stderr.to_owned() })
    }
}

/// The artifact candidate one output line contributes: the trimmed text
/// after the arrow marker, accepted only with a binary or library extension,
/// resolved against the working directory when relative.
pub open spec fn arrow_candidate_of_line(line: Seq<char>, cwd: Seq<char>) -> Option<Seq<char>> {
    match find_sub_from(line, "->"@, 0) {
        None => None,
        Some(i) => {
            let part = trim_by(line.subrange(i + 2, line.len() as int), |c: char| is_ws(c));
            if ".dll"@.is_suffix_of(part) || ".exe"@.is_suffix_of(part) {
                Some(resolve_against(cwd, part))
            } else {
                None
            }
        },
    }
}

/// The arrow-marker scan of captured output from position `pos` on, one line
/// at a time.
pub open spec fn arrow_scan(s: Seq<char>, pos: int, cwd: Seq<char>, acc: Seq<Seq<char>>) -> Seq<
    Seq<char>,
>
    decreases s.len() - pos,
    via arrow_scan_dec
{
    match find_char_from(s, '\n', pos) {
        None => arrow_step(acc, s.subrange(pos, s.len() as int), cwd),
        Some(j) => arrow_scan(s, j + 1, cwd, arrow_step(acc, s.subrange(pos, j), cwd)),
    }
}

/// One line's contribution to the arrow-marker scan.
pub open spec fn arrow_step(acc: Seq<Seq<char>>, line: Seq<char>, cwd: Seq<char>) -> Seq<
    Seq<char>,
> {
    match arrow_candidate_of_line(line, cwd) {
        Some(c) => acc.push(c),
        None => acc,
    }
}

#[via_fn]
proof fn arrow_scan_dec(s: Seq<char>, pos: int, cwd: Seq<char>, acc: Seq<Seq<char>>) {
    if pos < 0 {
        assert(find_char_from(s, '\n', pos) is None);
    } else {
        lemma_find_char_first(s, '\n', pos);
    }
}

/// The ordered artifact candidates the arrow-marker heuristic reads out of
/// captured build output.
pub open spec fn arrow_candidates_model(out: Seq<char>, cwd: Seq<char>) -> Seq<Seq<char>> {
    arrow_scan(out, 0, cwd, Seq::empty())
}

/// The candidate one output line contributes, as
/// `arrow_candidate_of_line` says.
fn arrow_candidate_exec(line: &Vec<char>, cwd: &Vec<char>) -> (r: Option<String>)
    ensures
        match r {
            Some(c) => arrow_candidate_of_line(line@, cwd@) == Some(c@),
            None => arrow_candidate_of_line(line@, cwd@) is None,
        },
{
    let n = line.len();
    match find_sub_str(line, "->", 0) {
        None => None,
        Some(i) => {
            proof {
                reveal_strlit("->");
            }
            let after = subvec(line, i + 2, n);
            let part = trim_ws(&after);
            let is_artifact = if ends_with_str(&part, ".dll") {
                true
            } else {
                ends_with_str(&part, ".exe")
            };
            if is_artifact {
                let resolved = resolve_chars(cwd, &part);
                Some(chars_to_string(&resolved))
            } else {
                None
            }
        },
    }
}

/// Scan captured build output for arrow-marker artifact candidates, in line
/// order, as `arrow_candidates_model` says.
pub fn arrow_candidates(stdout: &str, cwd: &str) -> (r: Vec<String>)
    ensures
        strings_view(r@) == arrow_candidates_model(stdout@, cwd@),
{
    let cs = str_to_chars(stdout);
    let cw = str_to_chars(cwd);
    let mut r: Vec<String> = Vec::new();
    let n = cs.len();
    let mut pos: usize = 0;
    proof {
        assert(strings_view(r@) =~= Seq::<Seq<char>>::empty());
    }
    loop
        invariant_except_break
            pos <= cs@.len(),
            arrow_scan(cs@, 0, cw@, Seq::empty()) == arrow_scan(
                cs@,
                pos as int,
                cw@,
                strings_view(r@),
            ),
        invariant
            n == cs@.len(),
            cs@ == stdout@,
            cw@ == cwd@,
        ensures
            arrow_scan(cs@, 0, cw@, Seq::empty()) == strings_view(r@),
        decreases cs@.len() - pos,
    {
        let ghost acc_before = strings_view(r@);
        let nl = find_char(&cs, '\n', pos);
        let line_end = match nl {
            Some(j) => j,
            None => n,
        };
        let raw = subvec(&cs, pos, line_end);
        match arrow_candidate_exec(&raw, &cw) {
            Some(c) => {
                let ghost cm = c@;
                r.push(c);
                proof {
                    assert(strings_view(r@) =~= acc_before.push(cm));
                }
            },
            None => {},
        }
        match nl {
            Some(j) => {
                proof {
                    assert(arrow_scan(cs@, pos as int, cw@, acc_before) == arrow_scan(
                        cs@,
                        j + 1,
                        cw@,
                        arrow_step(acc_before, cs@.subrange(pos as int, j as int), cw@),
                    ));
                }
                pos = j + 1;
            },
            None => {
                proof {
                    assert(arrow_scan(cs@, pos as int, cw@, acc_before) == arrow_step(
                        acc_before,
                        cs@.subrange(pos as int, cs@.len() as int),
                        cw@,
                    ));
                }
                break ;
            },
        }
    }
    r
}

/// The first candidate that exists on disk, existence given per candidate.
pub open spec fn first_existing_model(cands: Seq<Seq<char>>, exist: Seq<bool>) -> Option<
    Seq<char>,
>
    decreases cands.len(),
{
    if cands.len() == 0 || exist.len() == 0 {
        None
    } else if exist[0] {
        Some(cands[0])
    } else {
        first_existing_model(cands.drop_first(), exist.drop_first())
    }
}

/// Select the first candidate whose existence flag is set; the caller
/// supplies one flag per candidate, in order.
pub fn first_existing(cands: &Vec<String>, exist: &Vec<bool>) -> (r: Option<String>)
    requires
        cands@.len() == exist@.len(),
    ensures
        match r {
            Some(p) => first_existing_model(strings_view(cands@), exist@) == Some(p@),
            None => first_existing_model(strings_view(cands@), exist@) is None,
        },
{
    let mut i: usize = 0;
    proof {
        assert(strings_view(cands@).skip(0) =~= strings_view(cands@));
        assert(exist@.skip(0) =~= exist@);
    }
    while i < cands.len()
        invariant
            i <= cands@.len(),
            cands@.len() == exist@.len(),
            first_existing_model(strings_view(cands@), exist@) == first_existing_model(
                strings_view(cands@).skip(i as int),
                exist@.skip(i as int),
            ),
        decreases cands@.len() - i,
    {
        proof {
            assert(strings_view(cands@).skip(i as int)[0] == cands@[i as int]@);
            assert(exist@.skip(i as int)[0] == exist@[i as int]);
            assert(strings_view(cands@).skip(i as int).drop_first() =~= strings_view(
                cands@,
            ).skip(i as int + 1));
            assert(exist@.skip(i as int).drop_first() =~= exist@.skip(i as int + 1));
        }
        if exist[i] {
            return Some(cands[i].clone());
        }
        i = i + 1;
    }
    proof {
        assert(strings_view(cands@).skip(i as int) =~= Seq::<Seq<char>>::empty());
    }
    None
}

/// The fixed list of conventional build-output directories probed by the
/// fallback heuristic, in order.
pub open spec fn fallback_dirs_model(cwd: Seq<char>) -> Seq<Seq<char>> {
    seq![
        join_path(cwd, "bin/Debug"@),
        join_path(cwd, "bin/Release"@),
        join_path(cwd, "bin/Debug/net6.0"@),
        join_path(cwd, "bin/Debug/net5.0"@),
        join_path(cwd, "bin/Debug/net8.0"@),
        join_path(cwd, "bin/Release/net6.0"@),
        join_path(cwd, "bin/Release/net5.0"@),
        join_path(cwd, "bin/Release/net8.0"@),
    ]
}

fn push_joined(out: &mut Vec<String>, cwd: &Vec<char>, rel: &str)
    ensures
        strings_view(final(out)@) == strings_view(old(out)@).push(join_path(cwd@, rel@)),
{
    let rv = str_to_chars(rel);
    let j = join_chars(cwd, &rv);
    let ghost before = strings_view(out@);
    out.push(chars_to_string(&j));
    proof {
        assert(strings_view(out@) =~= before.push(join_path(cwd@, rel@)));
    }
}

/// The conventional output directories to probe, as
/// `fallback_dirs_model` says.
pub fn fallback_dirs(cwd: &str) -> (r: Vec<String>)
    ensures
        strings_view(r@) == fallback_dirs_model(cwd@),
{
    let cw = str_to_chars(cwd);
    let mut r: Vec<String> = Vec::new();
    push_joined(&mut r, &cw, "bin/Debug");
    push_joined(&mut r, &cw, "bin/Release");
    push_joined(&mut r, &cw, "bin/Debug/net6.0");
    push_joined(&mut r, &cw, "bin/Debug/net5.0");
    push_joined(&mut r, &cw, "bin/Debug/net8.0");
    push_joined(&mut r, &cw, "bin/Release/net6.0");
    push_joined(&mut r, &cw, "bin/Release/net5.0");
    push_joined(&mut r, &cw, "bin/Release/net8.0");
    proof {
        assert(strings_view(r@) =~= fallback_dirs_model(cwd@));
    }
    r
}

/// Mathematical model of one directory entry.
#[verifier::ext_equal]
pub ghost struct FileEntryModel {
    pub name: Seq<char>,
    pub modified_at: u64,
}

/// One file of a directory listing: its name and its modification time, as
/// seconds of the caller's clock.
#[derive(Debug, Clone, PartialEq, Eq)]
pub struct DirEntryInfo {
    /// File name within the directory.
    pub name: String,
    /// Modification time, monotone in recency.
    pub modified_at: u64,
}

impl View for DirEntryInfo {
    type V = FileEntryModel;

    open spec fn view(&self) -> FileEntryModel {
        FileEntryModel { name: self.name@, modified_at: self.modified_at }
    }
}

/// The model of a directory listing.
pub open spec fn entries_model(es: Seq<DirEntryInfo>) -> Seq<FileEntryModel> {
    es.map_values(|e: DirEntryInfo| e@)
}

/// The model of a sequence of directory listings.
pub open spec fn listings_model(ls: Seq<Vec<DirEntryInfo>>) -> Seq<Seq<FileEntryModel>> {
    ls.map_values(|v: Vec<DirEntryInfo>| entries_model(v@))
}

/// A library artifact, by its extension.
pub open spec fn is_dll_name(n: Seq<char>) -> bool {
    ".dll"@.is_suffix_of(n)
}

/// The best library entry among `es` from position `i` on, given the best
/// so far: a library file with the greatest modification time, the earliest
/// among ties.
pub open spec fn best_dll_from(
    es: Seq<FileEntryModel>,
    i: int,
    cur: Option<FileEntryModel>,
) -> Option<FileEntryModel>
    decreases es.len() - i,
{
    if i < 0 || i >= es.len() {
        cur
    } else {
        let better = match cur {
            None => true,
            Some(c) => es[i].modified_at > c.modified_at,
        };
        let cur2 = if is_dll_name(es[i].name) && better {
            Some(es[i])
        } else {
            cur
        };
        best_dll_from(es, i + 1, cur2)
    }
}

/// The most recently modified library file of a listing, if it has one.
pub open spec fn best_dll(es: Seq<FileEntryModel>) -> Option<FileEntryModel> {
    best_dll_from(es, 0, None)
}

/// The fallback pick: the first directory whose listing holds a library
/// file, and within it the most recently modified such file, joined to the
/// directory.
pub open spec fn fallback_pick_model(
    dirs: Seq<Seq<char>>,
    listings: Seq<Seq<FileEntryModel>>,
) -> Option<Seq<char>>
    decreases dirs.len(),
{
    if dirs.len() == 0 || listings.len() == 0 {
        None
    } else {
        match best_dll(listings[0]) {
            Some(e) => Some(join_path(dirs[0], e.name)),
            None => fallback_pick_model(dirs.drop_first(), listings.drop_first()),
        }
    }
}

/// The most recently modified library file of one listing.
fn best_dll_exec(entries: &Vec<DirEntryInfo>) -> (r: Option<DirEntryInfo>)
    ensures
        match r {
            Some(e) => best_dll(entries_model(entries@)) == Some(e@),
            None => best_dll(entries_model(entries@)) is None,
        },
{
    let mut cur: Option<DirEntryInfo> = None;
    let mut i: usize = 0;
    while i < entries.len()
        invariant
            i <= entries@.len(),
            best_dll(entries_model(entries@)) == best_dll_from(
                entries_model(entries@),
                i as int,
                match cur {
                    Some(e) => Some(e@),
                    None => None,
                },
            ),
        decreases entries@.len() - i,
    {
        proof {
            assert(entries_model(entries@)[i as int] == entries@[i as int]@);
        }
        let e: &DirEntryInfo = &entries[i];
        let nm = str_to_chars(e.name.as_str());
        if ends_with_str(&nm, ".dll") {
            let better = match &cur {
                None => true,
                Some(c) => e.modified_at > c.modified_at,
            };
            if better {
                cur = Some(DirEntryInfo { name: e.name.clone(), modified_at: e.modified_at });
                proof {
                    assert(cur matches Some(x) && x@ == entries@[i as int]@);
                }
            }
        }
        i = i + 1;
    }
    cur
}

/// Probe the conventional directories in order, as
/// `fallback_pick_model` says; the caller supplies one listing per
/// directory.
pub fn pick_fallback_artifact(dirs: &Vec<String>, listings: &Vec<Vec<DirEntryInfo>>) -> (r:
    Option<String>)
    requires
        dirs@.len() == listings@.len(),
    ensures
        match r {
            Some(p) => fallback_pick_model(strings_view(dirs@), listings_model(listings@))
                == Some(p@),
            None => fallback_pick_model(strings_view(dirs@), listings_model(listings@)) is None,
        },
{
    let mut i: usize = 0;
    proof {
        assert(strings_view(dirs@).skip(0) =~= strings_view(dirs@));
        assert(listings_model(listings@).skip(0) =~= listings_model(listings@));
    }
    while i < dirs.len()
        invariant
            i <= dirs@.len(),
            dirs@.len() == listings@.len(),
            fallback_pick_model(strings_view(dirs@), listings_model(listings@))
                == fallback_pick_model(
                strings_view(dirs@).skip(i as int),
                listings_model(listings@).skip(i as int),
            ),
        decreases dirs@.len() - i,
    {
        proof {
            assert(strings_view(dirs@).skip(i as int)[0] == dirs@[i as int]@);
            assert(listings_model(listings@).skip(i as int)[0] == entries_model(
                listings@[i as int]@,
            ));
            assert(strings_view(dirs@).skip(i as int).drop_first() =~= strings_view(dirs@).skip(
                i as int + 1,
            ));
            assert(listings_model(listings@).skip(i as int).drop_first() =~= listings_model(
                listings@,
            ).skip(i as int + 1));
        }
        match best_dll_exec(&listings[i]) {
            Some(e) => {
                let dv = str_to_chars(dirs[i].as_str());
                let nv = str_to_chars(e.name.as_str());
                let j = join_chars(&dv, &nv);
                return Some(chars_to_string(&j));
            },
            None => {},
        }
        i = i + 1;
    }
    proof {
        assert(strings_view(dirs@).skip(i as int) =~= Seq::<Seq<char>>::empty());
    }
    None
}

/// The final artifact decision: the primary (arrow-marker) pick when it
/// yielded an existing file, else the fallback pick, else a failure carrying
/// the full captured output.
pub fn resolve_artifact(
    primary: Option<String>,
    fallback: Option<String>,
    stdout: &str,
) -> (r: Result<String, PipelineError>)
    ensures
        match primary {
            Some(p) => r matches Ok(q) && q@ == p@,
            None => match fallback {
                Some(f) => r matches Ok(q) && q@ == f@,
                None => r matches Err(e) && (e matches PipelineError::ArtifactNotFound {
                    stdout: s,
                } && s@ == stdout@),
            },
        },
{
    match primary {
        Some(p) => Ok(p),
        None => match fallback {
            Some(f) => Ok(f),
            None => Err(PipelineError::ArtifactNotFound { stdout: stdout.to_owned() }),
        },
    }
}

/// The launch request a recovered artifact becomes: the artifact as the
/// program, the build's working directory, and no extra arguments or
/// environment.
pub fn launch_request_for(program: String, cwd: String) -> (r: DebugRequest)
    ensures
        r matches DebugRequest::Launch(l) && l.program@ == program@ && (l.cwd matches Some(c)
            && c@ == cwd@) && l.args@.len() == 0 && l.env@.len() == 0,
{
    DebugRequest::Launch(
        LaunchRequest { program, cwd: Some(cwd), args: Vec::new(), env: Vec::new() },
    )
}

/// The name and path a project declaration line carries, in that dialect's
/// loose two-field form: the text after the first `=`, split on commas into
/// name then path, each cleaned of whitespace and quotes. The result pairs
/// the path with the name.
pub open spec fn project_info_model(line: Seq<char>) -> Option<(Seq<char>, Seq<char>)> {
    match find_char_from(line, '=', 0) {
        None => None,
        Some(e) => {
            let rest = line.subrange(e + 1, line.len() as int);
            match find_char_from(rest, ',', 0) {
                None => None,
                Some(c1) => {
                    let end1 = match find_char_from(rest, ',', c1 + 1) {
                        Some(k) => k,
                        None => rest.len() as int,
                    };
                    Some(
                        (
                            crate::solution::clean_token(rest.subrange(c1 + 1, end1)),
                            crate::solution::clean_token(rest.subrange(0, c1)),
                        ),
                    )
                },
            }
        },
    }
}

/// Extract the path and name of a project declaration line, as
/// `project_info_model` says.
pub fn extract_project_info(line: &str) -> (r: Option<(String, String)>)
    ensures
        match r {
            Some(pr) => project_info_model(line@) == Some((pr.0@, pr.1@)),
            None => project_info_model(line@) is None,
        },
{
    let cs = str_to_chars(line);
    extract_project_info_chars(&cs)
}

fn extract_project_info_chars(line: &Vec<char>) -> (r: Option<(String, String)>)
    ensures
        match r {
            Some(pr) => project_info_model(line@) == Some((pr.0@, pr.1@)),
            None => project_info_model(line@) is None,
        },
{
    let n = line.len();
    let e = match find_char(line, '=', 0) {
        Some(e) => e,
        None => {
            return None;
        },
    };
    let rest = subvec(line, e + 1, n);
    let c1 = match find_char(&rest, ',', 0) {
        Some(c) => c,
        None => {
            return None;
        },
    };
    let end1 = match find_char(&rest, ',', c1 + 1) {
        Some(k) => k,
        None => rest.len(),
    };
    let seg_name = subvec(&rest, 0, c1);
    let seg_path = subvec(&rest, c1 + 1, end1);
    let name_c = crate::text::trim_quotes(&trim_ws(&seg_name));
    let path_c = crate::text::trim_quotes(&trim_ws(&seg_path));
    Some((chars_to_string(&path_c), chars_to_string(&name_c)))
}

/// What one line contributes to the startup-project search: the project
/// directory, when the line declares a project whose name lacks the test
/// marker.
pub open spec fn startup_line_model(raw: Seq<char>, dir: Seq<char>) -> Option<Seq<char>> {
    let line = trim_by(raw, |c: char| is_ws(c));
    if crate::solution::is_project_decl(line) {
        match project_info_model(line) {
            Some(info) => if !(exists|i: int| contains_at(info.1, "Test"@, i)) {
                Some(join_path(dir, info.0))
            } else {
                None
            },
            None => None,
        }
    } else {
        None
    }
}

/// The startup-project search from position `pos` on: the first line that
/// yields a directory wins.
pub open spec fn startup_scan(s: Seq<char>, pos: int, dir: Seq<char>) -> Option<Seq<char>>
    decreases s.len() - pos,
    via startup_scan_dec
{
    match find_char_from(s, '\n', pos) {
        None => startup_line_model(s.subrange(pos, s.len() as int), dir),
        Some(j) => match startup_line_model(s.subrange(pos, j), dir) {
            Some(p) => Some(p),
            None => startup_scan(s, j + 1, dir),
        },
    }
}

#[via_fn]
proof fn startup_scan_dec(s: Seq<char>, pos: int, dir: Seq<char>) {
    if pos < 0 {
        assert(find_char_from(s, '\n', pos) is None);
    } else {
        lemma_find_char_first(s, '\n', pos);
    }
}

fn startup_line_exec(raw: &Vec<char>, dir: &Vec<char>) -> (r: Option<String>)
    ensures
        match r {
            Some(p) => startup_line_model(raw@, dir@) == Some(p@),
            None => startup_line_model(raw@, dir@) is None,
        },
{
    let line = trim_ws(raw);
    proof {
        assert(line@ == trim_by(raw@, |c: char| is_ws(c)));
    }
    if !starts_with_str(&line, "Project(\"") {
        return None;
    }
    match extract_project_info_chars(&line) {
        None => None,
        Some(pr) => {
            proof {
                assert(project_info_model(line@) == Some((pr.0@, pr.1@)));
            }
            let nm = str_to_chars(pr.1.as_str());
            if crate::text::contains_str(&nm, "Test") {
                proof {
                    let w = choose|i: int| contains_at(pr.1@, "Test"@, i);
                    assert(contains_at(pr.1@, "Test"@, w));
                    let lm = trim_by(raw@, |c: char| is_ws(c));
                    assert(project_info_model(lm) matches Some(info) && info.1 == pr.1@);
                    assert(startup_line_model(raw@, dir@) is None) by {
                        assert(exists|i: int| contains_at(pr.1@, "Test"@, i));
                    }
                }
                None
            } else {
                let pv = str_to_chars(pr.0.as_str());
                let j = join_chars(dir, &pv);
                let p = chars_to_string(&j);
                proof {
                    assert(p@ == join_path(dir@, pr.0@));
                    assert(startup_line_model(raw@, dir@) == Some(p@));
                }
                Some(p)
            }
        },
    }
}

/// Find the directory of the likely startup project of a solution: the
/// first declared project whose name lacks the test marker, its path
/// resolved against the solution directory. The caller supplies the
/// solution text.
pub fn find_startup_project_from_solution(content: &str, solution_dir: &str) -> (r: Option<
    String,
>)
    ensures
        match r {
            Some(p) => startup_scan(content@, 0, solution_dir@) == Some(p@),
            None => startup_scan(content@, 0, solution_dir@) is None,
        },
{
    let cs = str_to_chars(content);
    let dv = str_to_chars(solution_dir);
    let n = cs.len();
    let mut pos: usize = 0;
    loop
        invariant_except_break
            pos <= cs@.len(),
            startup_scan(content@, 0, dv@) == startup_scan(content@, pos as int, dv@),
        invariant
            n == cs@.len(),
            cs@ == content@,
            dv@ == solution_dir@,
        ensures
            startup_scan(content@, 0, dv@) is None,
        decreases cs@.len() - pos,
    {
        let nl = find_char(&cs, '\n', pos);
        let line_end = match nl {
            Some(j) => j,
            None => n,
        };
        let raw = subvec(&cs, pos, line_end);
        match startup_line_exec(&raw, &dv) {
            Some(p) => {
                proof {
                    assert(startup_scan(content@, pos as int, dv@) == Some(p@));
                }
                return Some(p);
            },
            None => {},
        }
        match nl {
            Some(j) => {
                proof {
                    assert(startup_scan(content@, pos as int, dv@) == startup_scan(
                        content@,
                        j + 1,
                        dv@,
                    ));
                }
                pos = j + 1;
            },
            None => {
                proof {
                    assert(startup_scan(content@, pos as int, dv@) is None);
                }
                break ;
            },
        }
    }
    None
}

/// The first entry of a directory listing that names a solution file.
pub open spec fn first_sln_model(names: Seq<Seq<char>>) -> Option<Seq<char>>
    decreases names.len(),
{
    if names.len() == 0 {
        None
    } else if ".sln"@.is_suffix_of(names[0]) {
        Some(names[0])
    } else {
        first_sln_model(names.drop_first())
    }
}

/// The first name of a directory listing that ends in the solution
/// extension, as `first_sln_model` says; the caller walks parent
/// directories and supplies each listing in turn.
pub fn first_solution_entry(names: &Vec<String>) -> (r: Option<String>)
    ensures
        match r {
            Some(p) => first_sln_model(strings_view(names@)) == Some(p@),
            None => first_sln_model(strings_view(names@)) is None,
        },
{
    let mut i: usize = 0;
    proof {
        assert(strings_view(names@).skip(0) =~= strings_view(names@));
    }
    while i < names.len()
        invariant
            i <= names@.len(),
            first_sln_model(strings_view(names@)) == first_sln_model(
                strings_view(names@).skip(i as int),
            ),
        decreases names@.len() - i,
    {
        proof {
            assert(strings_view(names@).skip(i as int)[0] == names@[i as int]@);
            assert(strings_view(names@).skip(i as int).drop_first() =~= strings_view(
                names@,
            ).skip(i as int + 1));
        }
        let nm = str_to_chars(names[i].as_str());
        if ends_with_str(&nm, ".sln") {
            return Some(names[i].clone());
        }
        i = i + 1;
    }
    proof {
        assert(strings_view(names@).skip(i as int) =~= Seq::<Seq<char>>::empty());
    }
    None
}

/// Law: accepting the run action rewrites only the action token: the result
/// has the same length, `build` in the action position, and every other
/// argument position untouched.
pub proof fn lemma_run_rewrites_only_action(args: Seq<Seq<char>>)
    requires
        args.len() > 0,
        args[0] == "run"@ || args[0] == "r"@,
    ensures
        rewritten_args(args) matches Some(a2) && a2.len() == args.len() && a2[0] == "build"@
            && (forall|k: int| 1 <= k < args.len() ==> a2[k] == args[k]),
{
}

/// The model of one associated task template: label, program and single
/// action argument, with empty environment and no working directory.
pub open spec fn simple_task_model(label: Seq<char>, action: Seq<char>) -> TaskTemplateModel {
    TaskTemplateModel {
        label: label,
        command: "dotnet"@,
        args: seq![action],
        env: Seq::empty(),
        cwd: None,
    }
}

fn simple_task(label: &str, action: &str) -> (r: TaskTemplate)
    ensures
        r@ == simple_task_model(label@, action@),
{
    let mut args: Vec<String> = Vec::new();
    args.push(action.to_owned());
    let r = TaskTemplate {
        label: label.to_owned(),
        command: "dotnet".to_owned(),
        args,
        env: Vec::new(),
        cwd: None,
    };
    proof {
        assert(r@ =~= simple_task_model(label@, action@));
    }
    r
}

/// The default task templates associated with this ecosystem's sources: one
/// per common build-tool operation.
pub fn associated_task_templates() -> (r: Vec<TaskTemplate>)
    ensures
        r@.len() == 4,
        r@[0]@ == simple_task_model("dotnet: build"@, "build"@),
        r@[1]@ == simple_task_model("dotnet: clean"@, "clean"@),
        r@[2]@ == simple_task_model("dotnet: test"@, "test"@),
        r@[3]@ == simple_task_model("dotnet: run"@, "run"@),
{
    let mut r: Vec<TaskTemplate> = Vec::new();
    r.push(simple_task("dotnet: build", "build"));
    r.push(simple_task("dotnet: clean", "clean"));
    r.push(simple_task("dotnet: test", "test"));
    r.push(simple_task("dotnet: run", "run"));
    r
}

} // verus!
