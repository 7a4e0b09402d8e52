//! Solution descriptor parsing.
//!
//! A solution is serialized either in a legacy line-oriented dialect or in a
//! markup dialect; [`SolutionFile::parse`] sniffs the dialect and produces a
//! fresh structured model on every call. The parse is tolerant of anything
//! but a structurally unterminated tag in the markup dialect.

use vstd::prelude::*;
use crate::errors::PipelineError;
use crate::packages::{NuGetPackage, PackageModel, packages_view};
use crate::pathtext::{join_path, join_chars, stem_of, stem_chars};
use crate::text::{
    contains_at, find_char_from, find_sub_from, is_ws, trim_by, drop_leading, find_char,
    find_sub_str, str_to_chars, chars_to_string, string_of_range, subvec, trim_ws, trim_quotes,
    starts_with_str, contains_str, str_eq, lemma_find_char_first,
    lemma_drop_leading_range,
};

verus! {

broadcast use vstd::string::group_string_axioms;

/// Mathematical model of one project of a solution.
#[verifier::ext_equal]
pub ghost struct ProjectModel {
    pub name: Seq<char>,
    pub path: Seq<char>,
    pub guid: Seq<char>,
    pub type_guid: Seq<char>,
    pub packages: Seq<PackageModel>,
}

/// Mathematical model of a parsed solution.
#[verifier::ext_equal]
pub ghost struct SolutionModel {
    pub path: Seq<char>,
    pub projects: Seq<ProjectModel>,
    pub configurations: Seq<Seq<char>>,
    pub startup_project: Option<Seq<char>>,
}

/// One buildable unit within a solution.
#[derive(Debug, Clone, PartialEq, Eq)]
pub struct SolutionProject {
    /// Project name.
    pub name: String,
    /// Path to the project descriptor, relative to the solution directory.
    pub path: String,
    /// Unique identifier of the project, as given between braces.
    pub guid: String,
    /// Identifier classifying the project kind.
    pub type_guid: String,
    /// Package references of this project, filled by a separate parse.
    pub packages: Vec<NuGetPackage>,
}

impl View for SolutionProject {
    type V = ProjectModel;

    open spec fn view(&self) -> ProjectModel {
        ProjectModel {
            name: self.name@,
            path: self.path@,
            guid: self.guid@,
            type_guid: self.type_guid@,
            packages: packages_view(self.packages@),
        }
    }
}

/// The model of a vector of projects.
pub open spec fn projects_view(ps: Seq<SolutionProject>) -> Seq<ProjectModel> {
    ps.map_values(|p: SolutionProject| p@)
}

/// The model of a vector of strings.
pub open spec fn strings_view(ss: Seq<String>) -> Seq<Seq<char>> {
    ss.map_values(|s: String| s@)
}

/// The model of an optional string.
pub open spec fn opt_string_view(s: Option<String>) -> Option<Seq<char>> {
    match s {
        Some(v) => Some(v@),
        None => None,
    }
}

/// A parsed solution: its path, its projects in declaration order, its
/// configuration names, and the identifier of its startup project.
#[derive(Debug, Clone, PartialEq, Eq)]
pub struct SolutionFile {
    /// Path of the solution file.
    pub path: String,
    /// All projects, in declaration order.
    pub projects: Vec<SolutionProject>,
    /// Configuration names, first-seen order.
    pub configurations: Vec<String>,
    /// Identifier of the startup project, when one is known.
    pub startup_project: Option<String>,
}

impl View for SolutionFile {
    type V = SolutionModel;

    open spec fn view(&self) -> SolutionModel {
        SolutionModel {
            path: self.path@,
            projects: projects_view(self.projects@),
            configurations: strings_view(self.configurations@),
            startup_project: opt_string_view(self.startup_project),
        }
    }
}

/// The text between the first brace-delimited pair in `s`, if both braces
/// are present.
pub open spec fn extract_guid_model(s: Seq<char>) -> Option<Seq<char>> {
    match find_char_from(s, '{', 0) {
        None => None,
        Some(i) => match find_char_from(s, '}', i) {
            None => None,
            Some(j) => Some(s.subrange(i + 1, j)),
        },
    }
}

/// A token cleaned the way the legacy dialect cleans list entries: leading
/// and trailing whitespace dropped, then leading and trailing quotes.
pub open spec fn clean_token(s: Seq<char>) -> Seq<char> {
    trim_by(trim_by(s, |c: char| is_ws(c)), |c: char| c == '"')
}

/// `s` without one surrounding brace pair, when it has one.
pub open spec fn strip_braces(s: Seq<char>) -> Seq<char> {
    if s.len() >= 2 && s[0] == '{' && s[s.len() - 1] == '}' {
        s.subrange(1, s.len() - 1)
    } else {
        s
    }
}

/// The project declared by one legacy-dialect line, if the line is well
/// formed: the type identifier stands in the first brace pair, and the text
/// after the first `=` splits on commas into name, path and identifier, each
/// cleaned of whitespace and quotes; the identifier is taken as given between
/// its braces.
pub open spec fn project_line_model(line: Seq<char>) -> Option<ProjectModel> {
    match extract_guid_model(line) {
        None => None,
        Some(tg) => match find_char_from(line, '=', 0) {
            None => None,
            Some(e) => {
                let rest = line.subrange(e + 1, line.len() as int);
                match find_char_from(rest, ',', 0) {
                    None => None,
                    Some(c1) => match find_char_from(rest, ',', c1 + 1) {
                        None => None,
                        Some(c2) => {
                            let end2 = match find_char_from(rest, ',', c2 + 1) {
                                Some(k) => k,
                                None => rest.len() as int,
                            };
                            Some(
                                ProjectModel {
                                    name: clean_token(rest.subrange(0, c1)),
                                    path: clean_token(rest.subrange(c1 + 1, c2)),
                                    guid: strip_braces(clean_token(rest.subrange(c2 + 1, end2))),
                                    type_guid: tg,
                                    packages: Seq::empty(),
                                },
                            )
                        },
                    },
                }
            },
        },
    }
}

/// The text between the first brace-delimited pair, as
/// `extract_guid_model` says.
pub fn extract_guid(line: &str) -> (r: Option<String>)
    ensures
        match r {
            Some(g) => extract_guid_model(line@) == Some(g@),
            None => extract_guid_model(line@) is None,
        },
{
    let cs = str_to_chars(line);
    extract_guid_chars(&cs)
}

fn extract_guid_chars(line: &Vec<char>) -> (r: Option<String>)
    ensures
        match r {
            Some(g) => extract_guid_model(line@) == Some(g@),
            None => extract_guid_model(line@) is None,
        },
{
    match find_char(line, '{', 0) {
        None => None,
        Some(i) => {
            match find_char(line, '}', i) {
                None => None,
                Some(j) => {
                    proof {
                        lemma_find_char_first(line@, '{', 0);
                        lemma_find_char_first(line@, '}', i as int);
                    }
                    Some(string_of_range(line, i + 1, j))
                },
            }
        },
    }
}

/// Clean a token of surrounding whitespace, then of surrounding quotes.
fn clean_chars(s: &Vec<char>) -> (r: Vec<char>)
    ensures
        r@ == clean_token(s@),
{
    let t = trim_ws(s);
    trim_quotes(&t)
}

/// `s` without one surrounding brace pair, when it has one.
fn strip_braces_chars(s: &Vec<char>) -> (r: Vec<char>)
    ensures
        r@ == strip_braces(s@),
{
    if s.len() >= 2 && s[0] == '{' && s[s.len() - 1] == '}' {
        subvec(s, 1, s.len() - 1)
    } else {
        proof {
            assert(s@.subrange(0, s@.len() as int) =~= s@);
        }
        subvec(s, 0, s.len())
    }
}

fn parse_project_line_chars(line: &Vec<char>) -> (r: Option<SolutionProject>)
    ensures
        match r {
            Some(p) => project_line_model(line@) == Some(p@),
            None => project_line_model(line@) is None,
        },
{
    let tg = match extract_guid_chars(line) {
        Some(g) => g,
        None => {
            return None;
        },
    };
    let n = line.len();
    let e = match find_char(line, '=', 0) {
        Some(e) => e,
        None => {
            return None;
        },
    };
    let rest = subvec(line, e + 1, n);
    let c1 = match find_char(&rest, ',', 0) {
        Some(c) => c,
        None => {
            return None;
        },
    };
    let c2 = match find_char(&rest, ',', c1 + 1) {
        Some(c) => c,
        None => {
            return None;
        },
    };
    let end2 = match find_char(&rest, ',', c2 + 1) {
        Some(k) => k,
        None => rest.len(),
    };
    let seg0 = subvec(&rest, 0, c1);
    let seg1 = subvec(&rest, c1 + 1, c2);
    let seg2 = subvec(&rest, c2 + 1, end2);
    let name_chars = clean_chars(&seg0);
    let path_chars = clean_chars(&seg1);
    let guid_tok = clean_chars(&seg2);
    let guid_chars = strip_braces_chars(&guid_tok);
    let p = SolutionProject {
        name: chars_to_string(&name_chars),
        path: chars_to_string(&path_chars),
        guid: chars_to_string(&guid_chars),
        type_guid: tg,
        packages: Vec::new(),
    };
    proof {
        assert(packages_view(p.packages@) =~= Seq::<PackageModel>::empty());
        assert(project_line_model(line@) matches Some(m) && m =~= p@);
    }
    Some(p)
}

/// The project declared by one legacy-dialect line, as
/// `project_line_model` says.
pub fn parse_project_line(line: &str) -> (r: Option<SolutionProject>)
    ensures
        match r {
            Some(p) => project_line_model(line@) == Some(p@),
            None => project_line_model(line@) is None,
        },
{
    let cs = str_to_chars(line);
    parse_project_line_chars(&cs)
}

/// 64-bit FNV-1a over the code points of `s`, from position `i`, with
/// running value `h`.
pub open spec fn path_hash_from(s: Seq<char>, i: int, h: u64) -> u64
    decreases s.len() - i,
{
    if i < 0 || i >= s.len() {
        h
    } else {
        path_hash_from(
            s,
            i + 1,
            vstd::wrapping::u64_specs::wrapping_mul(
                h ^ ((s[i] as u32) as u64),
                0x100000001b3u64,
            ),
        )
    }
}

/// The hash that synthesizes an identifier for a markup-dialect project: the
/// 64-bit FNV-1a of its path string. Deterministic, so the identifier is
/// stable across repeated parses of the same input.
pub open spec fn path_hash(s: Seq<char>) -> u64 {
    path_hash_from(s, 0, 0xcbf29ce484222325u64)
}

/// Lowercase hex digit of `n`, for `0 <= n < 16`.
pub open spec fn hex_digit(n: int) -> char {
    if n == 0 {
        '0'
    } else if n == 1 {
        '1'
    } else if n == 2 {
        '2'
    } else if n == 3 {
        '3'
    } else if n == 4 {
        '4'
    } else if n == 5 {
        '5'
    } else if n == 6 {
        '6'
    } else if n == 7 {
        '7'
    } else if n == 8 {
        '8'
    } else if n == 9 {
        '9'
    } else if n == 10 {
        'a'
    } else if n == 11 {
        'b'
    } else if n == 12 {
        'c'
    } else if n == 13 {
        'd'
    } else if n == 14 {
        'e'
    } else {
        'f'
    }
}

/// `v` in lowercase hex, zero-padded to exactly `width` digits.
pub open spec fn hex_str(v: int, width: nat) -> Seq<char>
    decreases width,
{
    if width == 0 {
        Seq::empty()
    } else {
        hex_str(v / 16, (width - 1) as nat).push(hex_digit(v % 16))
    }
}

/// The synthesized identifier for hash `h`: five lowercase hex groups of
/// widths 8, 4, 4, 4 and 12, separated by dashes.
pub open spec fn synth_guid(h: u64) -> Seq<char> {
    hex_str((h >> 32u64) as int, 8) + seq!['-'] + hex_str(((h >> 16u64) & 0xffff) as int, 4)
        + seq!['-'] + hex_str((h & 0xffff) as int, 4) + seq!['-'] + hex_str(
        ((h >> 48u64) & 0xffff) as int,
        4,
    ) + seq!['-'] + hex_str((h & 0xffffffffffff) as int, 12)
}

fn path_hash_exec(s: &Vec<char>) -> (h: u64)
    ensures
        h == path_hash(s@),
{
    let mut h: u64 = 0xcbf29ce484222325;
    let mut i: usize = 0;
    while i < s.len()
        invariant
            i <= s@.len(),
            path_hash(s@) == path_hash_from(s@, i as int, h),
        decreases s@.len() - i,
    {
        h = (h ^ ((s[i] as u32) as u64)).wrapping_mul(0x100000001b3);
        i = i + 1;
    }
    h
}

fn hex_digit_exec(n: u64) -> (c: char)
    requires
        n < 16,
    ensures
        c == hex_digit(n as int),
{
    if n == 0 {
        '0'
    } else if n == 1 {
        '1'
    } else if n == 2 {
        '2'
    } else if n == 3 {
        '3'
    } else if n == 4 {
        '4'
    } else if n == 5 {
        '5'
    } else if n == 6 {
        '6'
    } else if n == 7 {
        '7'
    } else if n == 8 {
        '8'
    } else if n == 9 {
        '9'
    } else if n == 10 {
        'a'
    } else if n == 11 {
        'b'
    } else if n == 12 {
        'c'
    } else if n == 13 {
        'd'
    } else if n == 14 {
        'e'
    } else {
        'f'
    }
}

fn hex_of(v: u64, width: usize) -> (r: Vec<char>)
    ensures
        r@ == hex_str(v as int, width as nat),
    decreases width,
{
    if width == 0 {
        Vec::new()
    } else {
        let mut r = hex_of(v / 16, width - 1);
        r.push(hex_digit_exec(v % 16));
        r
    }
}

fn synth_guid_exec(path: &Vec<char>) -> (r: Vec<char>)
    ensures
        r@ == synth_guid(path_hash(path@)),
{
    let h = path_hash_exec(path);
    let mut r = hex_of(h >> 32, 8);
    r.push('-');
    let mut g2 = hex_of((h >> 16) & 0xffff, 4);
    r.append(&mut g2);
    r.push('-');
    let mut g3 = hex_of(h & 0xffff, 4);
    r.append(&mut g3);
    r.push('-');
    let mut g4 = hex_of((h >> 48) & 0xffff, 4);
    r.append(&mut g4);
    r.push('-');
    let mut g5 = hex_of(h & 0xffffffffffff, 12);
    r.append(&mut g5);
    proof {
        assert(r@ =~= synth_guid(h));
    }
    r
}

/// Accumulator of the legacy-dialect line scan.
#[verifier::ext_equal]
pub ghost struct SlnAcc {
    pub projects: Seq<ProjectModel>,
    pub configurations: Seq<Seq<char>>,
    pub startup: Option<Seq<char>>,
}

/// A line that declares a project, by its fixed leading literal.
pub open spec fn is_project_decl(line: Seq<char>) -> bool {
    "Project(\""@.is_prefix_of(line)
}

/// The configuration name collected from a line that starts with a known
/// configuration prefix: the text before the separator.
pub open spec fn config_name_of(line: Seq<char>) -> Option<Seq<char>> {
    if "Debug|"@.is_prefix_of(line) {
        Some("Debug"@)
    } else if "Release|"@.is_prefix_of(line) {
        Some("Release"@)
    } else {
        None
    }
}

/// A line that marks the startup project.
pub open spec fn has_startup_marker(line: Seq<char>) -> bool {
    exists|i: int| contains_at(line, "StartupProject"@, i)
}

/// What one raw line contributes to the scan: the line is trimmed, a
/// well-formed project declaration appends a project, a configuration line
/// collects its name once, and a startup marker with a brace-delimited token
/// sets the startup identifier (the last such line wins).
pub open spec fn sln_step(st: SlnAcc, raw: Seq<char>) -> SlnAcc {
    let line = trim_by(raw, |c: char| is_ws(c));
    let st1 = if is_project_decl(line) {
        match project_line_model(line) {
            Some(p) => SlnAcc {
                projects: st.projects.push(p),
                configurations: st.configurations,
                startup: st.startup,
            },
            None => st,
        }
    } else {
        st
    };
    let st2 = match config_name_of(line) {
        Some(nm) => if st1.configurations.contains(nm) {
            st1
        } else {
            SlnAcc {
                projects: st1.projects,
                configurations: st1.configurations.push(nm),
                startup: st1.startup,
            }
        },
        None => st1,
    };
    if has_startup_marker(line) {
        match extract_guid_model(line) {
            Some(g) => SlnAcc {
                projects: st2.projects,
                configurations: st2.configurations,
                startup: Some(g),
            },
            None => st2,
        }
    } else {
        st2
    }
}

/// The legacy-dialect scan from position `pos` on: one `sln_step` per line,
/// lines separated by line feeds.
pub open spec fn sln_scan(s: Seq<char>, pos: int, st: SlnAcc) -> SlnAcc
    decreases s.len() - pos,
    via sln_scan_dec
{
    match find_char_from(s, '\n', pos) {
        None => sln_step(st, s.subrange(pos, s.len() as int)),
        Some(j) => sln_scan(s, j + 1, sln_step(st, s.subrange(pos, j))),
    }
}

#[via_fn]
proof fn sln_scan_dec(s: Seq<char>, pos: int, st: SlnAcc) {
    if pos < 0 {
        assert(find_char_from(s, '\n', pos) is None);
    } else {
        lemma_find_char_first(s, '\n', pos);
    }
}

/// The empty accumulator.
pub open spec fn sln_init() -> SlnAcc {
    SlnAcc { projects: Seq::empty(), configurations: Seq::empty(), startup: None }
}

/// The default configuration names, used when a solution declares none.
pub open spec fn default_configurations() -> Seq<Seq<char>> {
    seq!["Debug"@, "Release"@]
}

/// The solution a legacy-dialect text denotes: the scanned projects,
/// configurations and startup identifier, with the default configurations
/// when none were declared, and the first declared project as startup when no
/// marker named one.
pub open spec fn sln_model(content: Seq<char>, base: Seq<char>) -> SolutionModel {
    let st = sln_scan(content, 0, sln_init());
    SolutionModel {
        path: join_path(base, "solution.sln"@),
        projects: st.projects,
        configurations: if st.configurations.len() == 0 {
            default_configurations()
        } else {
            st.configurations
        },
        startup_project: if st.startup is None && st.projects.len() > 0 {
            Some(st.projects[0].guid)
        } else {
            st.startup
        },
    }
}

/// The accumulator that a concrete parser state models.
pub open spec fn acc_model(
    projects: Seq<SolutionProject>,
    configurations: Seq<String>,
    startup: Option<String>,
) -> SlnAcc {
    SlnAcc {
        projects: projects_view(projects),
        configurations: strings_view(configurations),
        startup: opt_string_view(startup),
    }
}

/// Append `name` to the configuration list unless it is already there.
fn push_config_if_new(configurations: &mut Vec<String>, name: &str)
    ensures
        strings_view(final(configurations)@) == if strings_view(
            old(configurations)@,
        ).contains(name@) {
            strings_view(old(configurations)@)
        } else {
            strings_view(old(configurations)@).push(name@)
        },
{
    let mut i: usize = 0;
    while i < configurations.len()
        invariant
            i <= configurations@.len(),
            configurations@ == old(configurations)@,
            forall|k: int| 0 <= k < i ==> configurations@[k]@ != name@,
        decreases configurations@.len() - i,
    {
        if str_eq(configurations[i].as_str(), name) {
            proof {
                assert(strings_view(configurations@)[i as int] == name@);
            }
            return ;
        }
        i = i + 1;
    }
    proof {
        let cv = old(configurations)@;
        assert forall|k: int| 0 <= k < strings_view(cv).len() implies strings_view(cv)[k]
            != name@ by {
            assert(strings_view(cv)[k] == cv[k]@);
        }
    }
    configurations.push(name.to_owned());
    proof {
        assert(strings_view(configurations@) =~= strings_view(old(configurations)@).push(name@));
    }
}

/// Feed one raw line to the concrete scanner state.
fn sln_process_line(
    raw: &Vec<char>,
    projects: &mut Vec<SolutionProject>,
    configurations: &mut Vec<String>,
    startup: &mut Option<String>,
)
    ensures
        acc_model(final(projects)@, final(configurations)@, *final(startup)) == sln_step(
            acc_model(old(projects)@, old(configurations)@, *old(startup)),
            raw@,
        ),
{
    let line = trim_ws(raw);
    if starts_with_str(&line, "Project(\"") {
        match parse_project_line_chars(&line) {
            Some(p) => {
                let ghost pm = p@;
                projects.push(p);
                proof {
                    assert(projects_view(projects@) =~= projects_view(old(projects)@).push(pm));
                }
            },
            None => {},
        }
    }
    if starts_with_str(&line, "Debug|") {
        push_config_if_new(configurations, "Debug");
    } else if starts_with_str(&line, "Release|") {
        push_config_if_new(configurations, "Release");
    }
    if contains_str(&line, "StartupProject") {
        match extract_guid_chars(&line) {
            Some(g) => {
                *startup = Some(g);
            },
            None => {},
        }
    }
    proof {
        assert(acc_model(projects@, configurations@, *startup) =~= sln_step(
            acc_model(old(projects)@, old(configurations)@, *old(startup)),
            raw@,
        ));
    }
}

/// Parse legacy-dialect solution text.
fn parse_sln(cs: &Vec<char>, base_dir: &str) -> (r: SolutionFile)
    ensures
        r@ == sln_model(cs@, base_dir@),
{
    let mut projects: Vec<SolutionProject> = Vec::new();
    let mut configurations: Vec<String> = Vec::new();
    let mut startup: Option<String> = None;
    proof {
        assert(acc_model(projects@, configurations@, startup) =~= sln_init());
    }
    let n = cs.len();
    let mut pos: usize = 0;
    loop
        invariant_except_break
            pos <= cs@.len(),
            sln_scan(cs@, 0, sln_init()) == sln_scan(
                cs@,
                pos as int,
                acc_model(projects@, configurations@, startup),
            ),
        invariant
            n == cs@.len(),
        ensures
            sln_scan(cs@, 0, sln_init()) == acc_model(projects@, configurations@, startup),
        decreases cs@.len() - pos,
    {
        let ghost acc_before = acc_model(projects@, configurations@, startup);
        let nl = find_char(cs, '\n', pos);
        let line_end = match nl {
            Some(j) => j,
            None => n,
        };
        let raw = subvec(cs, pos, line_end);
        sln_process_line(&raw, &mut projects, &mut configurations, &mut startup);
        match nl {
            Some(j) => {
                proof {
                    assert(sln_scan(cs@, pos as int, acc_before) == sln_scan(
                        cs@,
                        j + 1,
                        sln_step(acc_before, cs@.subrange(pos as int, j as int)),
                    ));
                }
                pos = j + 1;
            },
            None => {
                proof {
                    assert(sln_scan(cs@, pos as int, acc_before) == sln_step(
                        acc_before,
                        cs@.subrange(pos as int, cs@.len() as int),
                    ));
                }
                break ;
            },
        }
    }
    let ghost st = sln_scan(cs@, 0, sln_init());
    proof {
        assert(st == acc_model(projects@, configurations@, startup));
    }
    let bd = str_to_chars(base_dir);
    let fname = str_to_chars("solution.sln");
    let joined = join_chars(&bd, &fname);
    let path = chars_to_string(&joined);
    let configurations2 = if configurations.len() == 0 {
        let mut d: Vec<String> = Vec::new();
        d.push("Debug".to_owned());
        d.push("Release".to_owned());
        proof {
            assert(strings_view(d@) =~= default_configurations());
        }
        d
    } else {
        configurations
    };
    let startup2: Option<String> = if startup.is_none() && projects.len() > 0 {
        proof {
            assert(projects_view(projects@)[0] == projects@[0]@);
        }
        Some(projects[0].guid.clone())
    } else {
        startup
    };
    let f = SolutionFile { path, projects, configurations: configurations2, startup_project: startup2 };
    proof {
        assert(f@ =~= sln_model(cs@, base_dir@));
    }
    f
}

/// The fixed type classification assigned to markup-dialect projects.
pub open spec fn csharp_type_guid() -> Seq<char> {
    "FAE04EC0-301F-11D3-BA7A-00C04FC2CCAE"@
}

/// The name a markup-dialect project takes: the filename stem of its path,
/// or a placeholder when the stem is empty.
pub open spec fn slnx_name_of(path: Seq<char>) -> Seq<char> {
    if stem_of(path).len() == 0 {
        "Unknown"@
    } else {
        stem_of(path)
    }
}

/// The project one markup tag denotes, when the tag carries a `Path`
/// attribute: named by the path's stem, classified by the fixed type
/// identifier, with a synthesized identifier hashed from the path string.
pub open spec fn slnx_project_of_tag(tag: Seq<char>) -> Option<ProjectModel> {
    match crate::packages::attr_value(tag, "Path=\""@) {
        None => None,
        Some(path) => Some(
            ProjectModel {
                name: slnx_name_of(path),
                path: path,
                guid: synth_guid(path_hash(path)),
                type_guid: csharp_type_guid(),
                packages: Seq::empty(),
            },
        ),
    }
}

/// The markup-dialect scan from position `pos` on: repeated opening-tag
/// occurrences, each read to its closing `>`; `None` when an opening tag has
/// no closing marker before input end.
pub open spec fn slnx_scan(s: Seq<char>, pos: int, acc: Seq<ProjectModel>) -> Option<
    Seq<ProjectModel>,
>
    decreases s.len() - pos,
    via slnx_scan_dec
{
    match find_sub_from(s, "<Project"@, pos) {
        None => Some(acc),
        Some(i) => match find_char_from(s, '>', i) {
            None => None,
            Some(e) => {
                let tag = s.subrange(i, e + 1);
                let acc2 = match slnx_project_of_tag(tag) {
                    Some(p) => acc.push(p),
                    None => acc,
                };
                slnx_scan(s, e + 1, acc2)
            },
        },
    }
}

#[via_fn]
proof fn slnx_scan_dec(s: Seq<char>, pos: int, acc: Seq<ProjectModel>) {
    if pos < 0 {
        assert(find_sub_from(s, "<Project"@, pos) is None);
    } else {
        crate::text::lemma_find_sub_first(s, "<Project"@, pos);
        match find_sub_from(s, "<Project"@, pos) {
            Some(i) => {
                lemma_find_char_first(s, '>', i);
            },
            None => {},
        }
    }
}

/// The solution a markup-dialect text denotes, when every opening tag is
/// terminated: the scanned projects, the default configurations, and the
/// first project's synthesized identifier as startup.
pub open spec fn slnx_model(content: Seq<char>, base: Seq<char>) -> Option<SolutionModel> {
    match slnx_scan(content, 0, Seq::empty()) {
        None => None,
        Some(projects) => Some(
            SolutionModel {
                path: join_path(base, "solution.slnx"@),
                projects: projects,
                configurations: default_configurations(),
                startup_project: if projects.len() > 0 {
                    Some(projects[0].guid)
                } else {
                    None
                },
            },
        ),
    }
}

fn slnx_project_from_tag(tag: &Vec<char>) -> (r: Option<SolutionProject>)
    ensures
        match r {
            Some(p) => slnx_project_of_tag(tag@) == Some(p@),
            None => slnx_project_of_tag(tag@) is None,
        },
{
    let marker = str_to_chars("Path=\"");
    match crate::packages::attr_value_exec(tag, &marker) {
        None => None,
        Some(path) => {
            let pc = str_to_chars(path.as_str());
            let stem = stem_chars(&pc);
            let name = if stem.len() == 0 {
                "Unknown".to_owned()
            } else {
                chars_to_string(&stem)
            };
            let guid_chars = synth_guid_exec(&pc);
            let p = SolutionProject {
                name,
                path,
                guid: chars_to_string(&guid_chars),
                type_guid: "FAE04EC0-301F-11D3-BA7A-00C04FC2CCAE".to_owned(),
                packages: Vec::new(),
            };
            proof {
                assert(packages_view(p.packages@) =~= Seq::<PackageModel>::empty());
                assert(slnx_project_of_tag(tag@) matches Some(m) && m =~= p@);
            }
            Some(p)
        },
    }
}

/// Parse markup-dialect solution text.
fn parse_slnx(cs: &Vec<char>, base_dir: &str) -> (r: Result<SolutionFile, PipelineError>)
    ensures
        match r {
            Ok(f) => slnx_model(cs@, base_dir@) == Some(f@),
            Err(e) => slnx_model(cs@, base_dir@) is None && (e matches PipelineError::Parse {
                detail,
            } && detail@ == "unclosed Project tag"@),
        },
{
    let mut projects: Vec<SolutionProject> = Vec::new();
    let n = cs.len();
    let mut pos: usize = 0;
    proof {
        assert(projects_view(projects@) =~= Seq::<ProjectModel>::empty());
    }
    loop
        invariant_except_break
            pos <= cs@.len(),
            slnx_scan(cs@, 0, Seq::empty()) == slnx_scan(cs@, pos as int, projects_view(projects@)),
        invariant
            n == cs@.len(),
        ensures
            slnx_scan(cs@, 0, Seq::empty()) == Some(projects_view(projects@)),
        decreases cs@.len() - pos,
    {
        let ghost acc_before = projects_view(projects@);
        match find_sub_str(cs, "<Project", pos) {
            None => {
                proof {
                    assert(slnx_scan(cs@, pos as int, acc_before) == Some(acc_before));
                }
                break ;
            },
            Some(i) => {
                match find_char(cs, '>', i) {
                    None => {
                        proof {
                            assert(slnx_scan(cs@, pos as int, acc_before) is None);
                        }
                        return Err(
                            PipelineError::Parse { detail: "unclosed Project tag".to_owned() },
                        );
                    },
                    Some(e) => {
                        let tag = subvec(cs, i, e + 1);
                        match slnx_project_from_tag(&tag) {
                            Some(p) => {
                                let ghost pm = p@;
                                let ghost before = projects_view(projects@);
                                projects.push(p);
                                proof {
                                    assert(projects_view(projects@) =~= before.push(pm));
                                }
                            },
                            None => {},
                        }
                        proof {
                            assert(slnx_scan(cs@, pos as int, acc_before) == slnx_scan(
                                cs@,
                                e + 1,
                                projects_view(projects@),
                            ));
                        }
                        pos = e + 1;
                    },
                }
            },
        }
    }
    let bd = str_to_chars(base_dir);
    let fname = str_to_chars("solution.slnx");
    let joined = join_chars(&bd, &fname);
    let path = chars_to_string(&joined);
    let mut configurations: Vec<String> = Vec::new();
    configurations.push("Debug".to_owned());
    configurations.push("Release".to_owned());
    proof {
        assert(strings_view(configurations@) =~= default_configurations());
    }
    let startup: Option<String> = if projects.len() > 0 {
        proof {
            assert(projects_view(projects@)[0] == projects@[0]@);
        }
        Some(projects[0].guid.clone())
    } else {
        None
    };
    let f = SolutionFile { path, projects, configurations, startup_project: startup };
    proof {
        assert(slnx_model(cs@, base_dir@) matches Some(m) && m =~= f@);
    }
    Ok(f)
}

/// A text whose first non-whitespace characters announce the markup dialect.
pub open spec fn is_markup_dialect(s: Seq<char>) -> bool {
    let t = drop_leading(s, |c: char| is_ws(c));
    "<?xml"@.is_prefix_of(t) || "<Solution"@.is_prefix_of(t)
}

/// The solution a descriptor text denotes: the markup dialect when sniffed,
/// else the legacy line dialect; `None` only for an unterminated markup tag.
pub open spec fn parse_model(content: Seq<char>, base: Seq<char>) -> Option<SolutionModel> {
    if is_markup_dialect(content) {
        slnx_model(content, base)
    } else {
        Some(sln_model(content, base))
    }
}

fn is_markup_exec(s: &Vec<char>) -> (r: bool)
    ensures
        r == is_markup_dialect(s@),
{
    let mut lo: usize = 0;
    while lo < s.len() && crate::text::is_ws_exec(s[lo])
        invariant
            lo <= s@.len(),
            forall|k: int| 0 <= k < lo ==> is_ws(s@[k]),
        decreases s@.len() - lo,
    {
        lo = lo + 1;
    }
    proof {
        lemma_drop_leading_range(s@, |c: char| is_ws(c), lo as int);
    }
    let t = subvec(s, lo, s.len());
    if starts_with_str(&t, "<?xml") {
        true
    } else {
        starts_with_str(&t, "<Solution")
    }
}

impl SolutionFile {
    /// Parse solution descriptor text, sniffing the dialect from its first
    /// non-whitespace characters. Fails only on a structurally unterminated
    /// tag of the markup dialect.
    pub fn parse(content: &str, base_dir: &str) -> (r: Result<SolutionFile, PipelineError>)
        ensures
            match r {
                Ok(f) => parse_model(content@, base_dir@) == Some(f@),
                Err(e) => parse_model(content@, base_dir@) is None && (
                e matches PipelineError::Parse {
                    detail,
                } && detail@ == "unclosed Project tag"@),
            },
    {
        let cs = str_to_chars(content);
        if is_markup_exec(&cs) {
            parse_slnx(&cs, base_dir)
        } else {
            Ok(parse_sln(&cs, base_dir))
        }
    }
}

/// The first project of `ps` whose name is `name`, if any.
pub open spec fn first_by_name(ps: Seq<ProjectModel>, name: Seq<char>) -> Option<ProjectModel>
    decreases ps.len(),
{
    if ps.len() == 0 {
        None
    } else if ps[0].name == name {
        Some(ps[0])
    } else {
        first_by_name(ps.drop_first(), name)
    }
}

/// The first project of `ps` whose identifier is `guid`, if any.
pub open spec fn first_by_guid(ps: Seq<ProjectModel>, guid: Seq<char>) -> Option<ProjectModel>
    decreases ps.len(),
{
    if ps.len() == 0 {
        None
    } else if ps[0].guid == guid {
        Some(ps[0])
    } else {
        first_by_guid(ps.drop_first(), guid)
    }
}

/// The startup project a model dereferences to.
pub open spec fn startup_project_model(m: SolutionModel) -> Option<ProjectModel> {
    match m.startup_project {
        None => None,
        Some(g) => first_by_guid(m.projects, g),
    }
}

/// A project whose name contains the test marker, by the case-sensitive
/// heuristic.
pub open spec fn name_has_test(p: ProjectModel) -> bool {
    exists|i: int| contains_at(p.name, "Test"@, i)
}

/// The projects of `ps` that the heuristic counts as executable, in order.
pub open spec fn executable_projects(ps: Seq<ProjectModel>) -> Seq<ProjectModel>
    decreases ps.len(),
{
    if ps.len() == 0 {
        Seq::empty()
    } else {
        let rest = executable_projects(ps.drop_first());
        if name_has_test(ps[0]) {
            rest
        } else {
            seq![ps[0]] + rest
        }
    }
}

impl SolutionFile {
    /// The first project with the given name, if any.
    pub fn get_project<'a>(&'a self, name: &str) -> (r: Option<&'a SolutionProject>)
        ensures
            match r {
                Some(p) => first_by_name(self@.projects, name@) == Some(p@),
                None => first_by_name(self@.projects, name@) is None,
            },
    {
        let mut i: usize = 0;
        proof {
            assert(self@.projects.skip(0) =~= self@.projects);
        }
        while i < self.projects.len()
            invariant
                i <= self.projects@.len(),
                first_by_name(self@.projects, name@) == first_by_name(
                    self@.projects.skip(i as int),
                    name@,
                ),
            decreases self.projects@.len() - i,
        {
            let p: &SolutionProject = &self.projects[i];
            proof {
                assert(self@.projects.skip(i as int)[0] == self@.projects[i as int]);
            }
            if str_eq(p.name.as_str(), name) {
                return Some(p);
            }
            proof {
                assert(self@.projects.skip(i as int).drop_first() =~= self@.projects.skip(
                    i as int + 1,
                ));
            }
            i = i + 1;
        }
        proof {
            assert(self@.projects.skip(i as int) =~= Seq::<ProjectModel>::empty());
        }
        None
    }

    /// The first project with the given identifier, if any.
    pub fn get_project_by_guid<'a>(&'a self, guid: &str) -> (r: Option<&'a SolutionProject>)
        ensures
            match r {
                Some(p) => first_by_guid(self@.projects, guid@) == Some(p@),
                None => first_by_guid(self@.projects, guid@) is None,
            },
    {
        let mut i: usize = 0;
        proof {
            assert(self@.projects.skip(0) =~= self@.projects);
        }
        while i < self.projects.len()
            invariant
                i <= self.projects@.len(),
                first_by_guid(self@.projects, guid@) == first_by_guid(
                    self@.projects.skip(i as int),
                    guid@,
                ),
            decreases self.projects@.len() - i,
        {
            let p: &SolutionProject = &self.projects[i];
            proof {
                assert(self@.projects.skip(i as int)[0] == self@.projects[i as int]);
            }
            if str_eq(p.guid.as_str(), guid) {
                return Some(p);
            }
            proof {
                assert(self@.projects.skip(i as int).drop_first() =~= self@.projects.skip(
                    i as int + 1,
                ));
            }
            i = i + 1;
        }
        proof {
            assert(self@.projects.skip(i as int) =~= Seq::<ProjectModel>::empty());
        }
        None
    }

    /// The project the startup identifier dereferences to, if any.
    pub fn get_startup_project<'a>(&'a self) -> (r: Option<&'a SolutionProject>)
        ensures
            match r {
                Some(p) => startup_project_model(self@) == Some(p@),
                None => startup_project_model(self@) is None,
            },
    {
        match &self.startup_project {
            None => None,
            Some(g) => self.get_project_by_guid(g.as_str()),
        }
    }

    /// The projects the heuristic counts as executable: every project whose
    /// name does not contain the test marker, in declaration order. The
    /// heuristic is advisory, not authoritative.
    pub fn get_executable_projects(&self) -> (r: Vec<SolutionProject>)
        ensures
            projects_view(r@) == executable_projects(self@.projects),
    {
        let mut r: Vec<SolutionProject> = Vec::new();
        let mut i: usize = 0;
        proof {
            assert(projects_view(r@) =~= Seq::<ProjectModel>::empty());
            assert(self@.projects.skip(0) =~= self@.projects);
            assert(projects_view(r@) + executable_projects(self@.projects)
                =~= executable_projects(self@.projects));
        }
        while i < self.projects.len()
            invariant
                i <= self.projects@.len(),
                executable_projects(self@.projects) == projects_view(r@) + executable_projects(
                    self@.projects.skip(i as int),
                ),
            decreases self.projects@.len() - i,
        {
            let p: &SolutionProject = &self.projects[i];
            proof {
                assert(self@.projects.skip(i as int)[0] == self@.projects[i as int]);
                assert(self@.projects.skip(i as int).drop_first() =~= self@.projects.skip(
                    i as int + 1,
                ));
            }
            let nm = str_to_chars(p.name.as_str());
            if !contains_str(&nm, "Test") {
                let ghost before = projects_view(r@);
                proof {
                    assert(executable_projects(self@.projects.skip(i as int)) == seq![
                        self@.projects[i as int],
                    ] + executable_projects(self@.projects.skip(i as int + 1)));
                }
                r.push(clone_project(p));
                proof {
                    assert(projects_view(r@) =~= before.push(self@.projects[i as int]));
                    assert(before.push(self@.projects[i as int]) =~= before + seq![
                        self@.projects[i as int],
                    ]);
                    assert(projects_view(r@) + executable_projects(
                        self@.projects.skip(i as int + 1),
                    ) =~= before + executable_projects(self@.projects.skip(i as int)));
                }
            } else {
                proof {
                    assert(self@.projects[i as int] == self.projects@[i as int]@);
                    assert(nm@ == self@.projects[i as int].name);
                    assert(name_has_test(self@.projects[i as int]));
                    assert(executable_projects(self@.projects.skip(i as int))
                        == executable_projects(self@.projects.skip(i as int + 1)));
                }
            }
            i = i + 1;
        }
        proof {
            assert(self@.projects.skip(i as int) =~= Seq::<ProjectModel>::empty());
            assert(projects_view(r@) + Seq::<ProjectModel>::empty() =~= projects_view(r@));
        }
        r
    }
}

/// A field-by-field copy of a package list, with the copy's model equal to
/// the original's.
fn clone_packages(ps: &Vec<NuGetPackage>) -> (r: Vec<NuGetPackage>)
    ensures
        packages_view(r@) == packages_view(ps@),
{
    let mut r: Vec<NuGetPackage> = Vec::new();
    let mut i: usize = 0;
    proof {
        assert(packages_view(ps@).subrange(0, 0) =~= packages_view(r@));
    }
    while i < ps.len()
        invariant
            i <= ps@.len(),
            packages_view(r@) == packages_view(ps@).subrange(0, i as int),
        decreases ps@.len() - i,
    {
        let q: &NuGetPackage = &ps[i];
        let version: Option<String> = match &q.version {
            Some(v) => Some(v.clone()),
            None => None,
        };
        let c = NuGetPackage { id: q.id.clone(), version };
        let ghost before = packages_view(r@);
        proof {
            assert(c@ == ps@[i as int]@);
        }
        r.push(c);
        proof {
            assert(packages_view(r@) =~= before.push(ps@[i as int]@));
            assert(before.push(ps@[i as int]@) =~= packages_view(ps@).subrange(0, i as int + 1));
        }
        i = i + 1;
    }
    proof {
        assert(packages_view(ps@).subrange(0, ps@.len() as int) =~= packages_view(ps@));
    }
    r
}

/// A field-by-field copy of a project, with the copy's model equal to the
/// original's.
fn clone_project(p: &SolutionProject) -> (r: SolutionProject)
    ensures
        r@ == p@,
{
    SolutionProject {
        name: p.name.clone(),
        path: p.path.clone(),
        guid: p.guid.clone(),
        type_guid: p.type_guid.clone(),
        packages: clone_packages(&p.packages),
    }
}

/// The projects one raw line declares: one for a well-formed declaration
/// line, none otherwise.
pub open spec fn line_projects(raw: Seq<char>) -> Seq<ProjectModel> {
    let line = trim_by(raw, |c: char| is_ws(c));
    if is_project_decl(line) {
        match project_line_model(line) {
            Some(p) => seq![p],
            None => Seq::empty(),
        }
    } else {
        Seq::empty()
    }
}

/// The projects the legacy dialect declares from position `pos` on, in
/// declaration order.
pub open spec fn sln_projects(s: Seq<char>, pos: int) -> Seq<ProjectModel>
    decreases s.len() - pos,
    via sln_projects_dec
{
    match find_char_from(s, '\n', pos) {
        None => line_projects(s.subrange(pos, s.len() as int)),
        Some(j) => line_projects(s.subrange(pos, j)) + sln_projects(s, j + 1),
    }
}

#[via_fn]
proof fn sln_projects_dec(s: Seq<char>, pos: int) {
    if pos < 0 {
        assert(find_char_from(s, '\n', pos) is None);
    } else {
        lemma_find_char_first(s, '\n', pos);
    }
}

proof fn lemma_sln_step_projects(st: SlnAcc, raw: Seq<char>)
    ensures
        sln_step(st, raw).projects == st.projects + line_projects(raw),
{
    let line = trim_by(raw, |c: char| is_ws(c));
    if is_project_decl(line) {
        match project_line_model(line) {
            Some(p) => {
                assert(st.projects.push(p) =~= st.projects + seq![p]);
            },
            None => {
                assert(st.projects + Seq::<ProjectModel>::empty() =~= st.projects);
            },
        }
    } else {
        assert(st.projects + Seq::<ProjectModel>::empty() =~= st.projects);
    }
}

proof fn lemma_sln_scan_projects(s: Seq<char>, pos: int, st: SlnAcc)
    ensures
        sln_scan(s, pos, st).projects == st.projects + sln_projects(s, pos),
    decreases s.len() - pos,
{
    match find_char_from(s, '\n', pos) {
        None => {
            lemma_sln_step_projects(st, s.subrange(pos, s.len() as int));
        },
        Some(j) => {
            if pos < 0 {
                assert(find_char_from(s, '\n', pos) is None);
                assert(false);
            }
            lemma_find_char_first(s, '\n', pos);
            let st1 = sln_step(st, s.subrange(pos, j));
            lemma_sln_step_projects(st, s.subrange(pos, j));
            lemma_sln_scan_projects(s, j + 1, st1);
            assert((st.projects + line_projects(s.subrange(pos, j))) + sln_projects(s, j + 1)
                =~= st.projects + (line_projects(s.subrange(pos, j)) + sln_projects(s, j + 1)));
        },
    }
}

/// Law: a legacy-dialect parse yields exactly the projects of its
/// declaration lines, one per well-formed declaration line, in declaration
/// order, each with the identifier given between its braces.
pub proof fn lemma_projects_in_declaration_order(content: Seq<char>, base: Seq<char>)
    ensures
        sln_model(content, base).projects == sln_projects(content, 0),
{
    lemma_sln_scan_projects(content, 0, sln_init());
    assert(sln_init().projects + sln_projects(content, 0) =~= sln_projects(content, 0));
}

/// Law: parsing is deterministic: two results of parsing the same input are
/// structurally equal.
pub proof fn lemma_parse_deterministic(
    content: Seq<char>,
    base: Seq<char>,
    m1: SolutionModel,
    m2: SolutionModel,
)
    requires
        parse_model(content, base) == Some(m1),
        parse_model(content, base) == Some(m2),
    ensures
        m1 == m2,
{
}

/// Law: markup-dialect synthesized identifiers are stable: the same path
/// string yields the same identifier, across repeated parses of the same or
/// of different inputs.
pub proof fn lemma_synth_guid_stable(p1: Seq<char>, p2: Seq<char>)
    requires
        p1 == p2,
    ensures
        synth_guid(path_hash(p1)) == synth_guid(path_hash(p2)),
{
}

/// No line from position `pos` on is an explicit configuration line.
pub open spec fn no_config_line(s: Seq<char>, pos: int) -> bool
    decreases s.len() - pos,
    via no_config_line_dec
{
    match find_char_from(s, '\n', pos) {
        None => config_name_of(trim_by(s.subrange(pos, s.len() as int), |c: char| is_ws(c)))
            is None,
        Some(j) => config_name_of(trim_by(s.subrange(pos, j), |c: char| is_ws(c))) is None
            && no_config_line(s, j + 1),
    }
}

#[via_fn]
proof fn no_config_line_dec(s: Seq<char>, pos: int) {
    if pos < 0 {
        assert(find_char_from(s, '\n', pos) is None);
    } else {
        lemma_find_char_first(s, '\n', pos);
    }
}

proof fn lemma_scan_configs_unchanged(s: Seq<char>, pos: int, st: SlnAcc)
    requires
        no_config_line(s, pos),
    ensures
        sln_scan(s, pos, st).configurations == st.configurations,
    decreases s.len() - pos,
{
    match find_char_from(s, '\n', pos) {
        None => {},
        Some(j) => {
            if pos < 0 {
                assert(find_char_from(s, '\n', pos) is None);
                assert(false);
            }
            lemma_find_char_first(s, '\n', pos);
            lemma_scan_configs_unchanged(s, j + 1, sln_step(st, s.subrange(pos, j)));
        },
    }
}

/// Law: with zero explicit configuration lines, the configurations default.
pub proof fn lemma_default_configurations(content: Seq<char>, base: Seq<char>)
    requires
        no_config_line(content, 0),
    ensures
        sln_model(content, base).configurations == default_configurations(),
{
    lemma_scan_configs_unchanged(content, 0, sln_init());
}

/// No line from position `pos` on sets the startup identifier: no line both
/// carries the marker and yields a brace-delimited token.
pub open spec fn no_startup_token(s: Seq<char>, pos: int) -> bool
    decreases s.len() - pos,
    via no_startup_token_dec
{
    match find_char_from(s, '\n', pos) {
        None => line_sets_no_startup(s.subrange(pos, s.len() as int)),
        Some(j) => line_sets_no_startup(s.subrange(pos, j)) && no_startup_token(s, j + 1),
    }
}

/// The raw line neither carries the marker nor yields a token.
pub open spec fn line_sets_no_startup(raw: Seq<char>) -> bool {
    let line = trim_by(raw, |c: char| is_ws(c));
    !(has_startup_marker(line) && extract_guid_model(line) is Some)
}

#[via_fn]
proof fn no_startup_token_dec(s: Seq<char>, pos: int) {
    if pos < 0 {
        assert(find_char_from(s, '\n', pos) is None);
    } else {
        lemma_find_char_first(s, '\n', pos);
    }
}

proof fn lemma_scan_startup_unchanged(s: Seq<char>, pos: int, st: SlnAcc)
    requires
        no_startup_token(s, pos),
    ensures
        sln_scan(s, pos, st).startup == st.startup,
    decreases s.len() - pos,
{
    match find_char_from(s, '\n', pos) {
        None => {},
        Some(j) => {
            if pos < 0 {
                assert(find_char_from(s, '\n', pos) is None);
                assert(false);
            }
            lemma_find_char_first(s, '\n', pos);
            lemma_scan_startup_unchanged(s, j + 1, sln_step(st, s.subrange(pos, j)));
        },
    }
}

/// Law: with no explicit startup-project marker and at least one declared
/// project, the startup project is the first declared project's identifier.
pub proof fn lemma_default_startup(content: Seq<char>, base: Seq<char>)
    requires
        no_startup_token(content, 0),
        sln_projects(content, 0).len() > 0,
    ensures
        sln_model(content, base).startup_project == Some(sln_projects(content, 0)[0].guid),
{
    lemma_scan_startup_unchanged(content, 0, sln_init());
    lemma_sln_scan_projects(content, 0, sln_init());
    assert(sln_init().projects + sln_projects(content, 0) =~= sln_projects(content, 0));
}

/// Law: the executable-project selection excludes every project whose name
/// contains the test marker, and keeps every other project, for all inputs.
pub proof fn lemma_executable_projects_exclude_tests(ps: Seq<ProjectModel>)
    ensures
        forall|k: int| 0 <= k < executable_projects(ps).len() ==> !name_has_test(
            #[trigger] executable_projects(ps)[k],
        ),
        forall|i: int| 0 <= i < ps.len() && !name_has_test(#[trigger] ps[i])
            ==> executable_projects(ps).contains(ps[i]),
    decreases ps.len(),
{
    if ps.len() == 0 {
    } else {
        let rest = executable_projects(ps.drop_first());
        lemma_executable_projects_exclude_tests(ps.drop_first());
        if name_has_test(ps[0]) {
            assert(executable_projects(ps) == rest);
            assert forall|i: int| 0 <= i < ps.len() && !name_has_test(ps[i]) implies
                executable_projects(ps).contains(ps[i]) by {
                assert(ps.drop_first()[i - 1] == ps[i]);
                assert(rest.contains(ps[i]));
            }
        } else {
            assert(executable_projects(ps) == seq![ps[0]] + rest);
            assert forall|k: int| 0 <= k < executable_projects(ps).len() implies !name_has_test(
                executable_projects(ps)[k],
            ) by {
                if k == 0 {
                    assert(executable_projects(ps)[0] == ps[0]);
                } else {
                    assert(executable_projects(ps)[k] == rest[k - 1]);
                }
            }
            assert forall|i: int| 0 <= i < ps.len() && !name_has_test(ps[i]) implies
                executable_projects(ps).contains(ps[i]) by {
                if i == 0 {
                    assert(executable_projects(ps)[0] == ps[0]);
                } else {
                    assert(ps.drop_first()[i - 1] == ps[i]);
                    assert(rest.contains(ps[i]));
                    let w = choose|w: int| 0 <= w < rest.len() && rest[w] == ps[i];
                    assert(executable_projects(ps)[w + 1] == ps[i]);
                }
            }
        }
    }
}

/// A well-formed solution: project identifiers are unique within the
/// solution, and the startup identifier, when set, references a project of
/// the same solution. Descriptor text is not trusted to satisfy this; the
/// parse is tolerant, and a solution parsed without an explicit startup
/// marker satisfies the referencing half by construction.
pub open spec fn solution_wf(m: SolutionModel) -> bool {
    &&& forall|i: int, j: int|
        0 <= i < j < m.projects.len() ==> m.projects[i].guid != m.projects[j].guid
    &&& match m.startup_project {
        Some(g) => exists|i: int| 0 <= i < m.projects.len() && m.projects[i].guid == g,
        None => true,
    }
}

proof fn lemma_first_by_guid_finds(ps: Seq<ProjectModel>, g: Seq<char>)
    requires
        exists|i: int| 0 <= i < ps.len() && ps[i].guid == g,
    ensures
        first_by_guid(ps, g) is Some,
    decreases ps.len(),
{
    if ps[0].guid == g {
    } else {
        let i = choose|i: int| 0 <= i < ps.len() && ps[i].guid == g;
        assert(ps.drop_first()[i - 1] == ps[i]);
        lemma_first_by_guid_finds(ps.drop_first(), g);
    }
}

/// Law: in a well-formed solution, a set startup identifier dereferences to
/// a project.
pub proof fn lemma_wf_startup_resolves(m: SolutionModel)
    requires
        solution_wf(m),
        m.startup_project is Some,
    ensures
        startup_project_model(m) is Some,
{
    match m.startup_project {
        Some(g) => {
            lemma_first_by_guid_finds(m.projects, g);
        },
        None => {},
    }
}

} // verus!
