//! Manifest-root discovery.
//!
//! Project and solution manifest providers walk up the directory tree from a
//! query path, probing each ancestor for descriptor files: one named after
//! the directory, and a few conventional names. The provider computes the
//! candidate files to probe; the caller reports which exist; the first hit's
//! directory is the manifest root.

use vstd::prelude::*;
use crate::pathtext::{join_path, join_chars, file_name_of, file_name_chars, parent_of,
    parent_chars};
use crate::text::str_to_chars;

verus! {

broadcast use vstd::string::group_string_axioms;

/// Mathematical model of one probe: the ancestor directory and the
/// candidate file within it.
#[verifier::ext_equal]
pub ghost struct ProbeModel {
    pub root: Seq<char>,
    pub file: Seq<char>,
}

/// One probe: the ancestor directory and the candidate file to test for
/// existence.
#[derive(Debug, Clone, PartialEq, Eq)]
pub struct ProbeCandidate {
    /// The ancestor directory that becomes the manifest root on a hit.
    pub root: String,
    /// The candidate file to probe.
    pub file: String,
}

impl View for ProbeCandidate {
    type V = ProbeModel;

    open spec fn view(&self) -> ProbeModel {
        ProbeModel { root: self.root@, file: self.file@ }
    }
}

/// The model of a vector of probes.
pub open spec fn probes_view(ps: Seq<ProbeCandidate>) -> Seq<ProbeModel> {
    ps.map_values(|p: ProbeCandidate| p@)
}

/// The probe for file `f` within directory `a`.
pub open spec fn probe_of(a: Seq<char>, f: Seq<char>) -> ProbeModel {
    ProbeModel { root: a, file: join_path(a, f) }
}

/// The probes of one directory for project descriptors: one named after the
/// directory when it has a name, then the conventional names.
pub open spec fn csproj_dir_probes(a: Seq<char>) -> Seq<ProbeModel> {
    let named: Seq<ProbeModel> = if file_name_of(a).len() > 0 {
        seq![probe_of(a, file_name_of(a) + ".csproj"@)]
    } else {
        Seq::empty()
    };
    named + seq![
        probe_of(a, "project.csproj"@),
        probe_of(a, "app.csproj"@),
        probe_of(a, "web.csproj"@),
    ]
}

/// The probes of one directory for solution descriptors.
pub open spec fn sln_dir_probes(a: Seq<char>) -> Seq<ProbeModel> {
    let named: Seq<ProbeModel> = if file_name_of(a).len() > 0 {
        seq![probe_of(a, file_name_of(a) + ".sln"@)]
    } else {
        Seq::empty()
    };
    named + seq![probe_of(a, "solution.sln"@)]
}

/// All project-descriptor probes: the query path's ancestors, nearest
/// first, up to `depth` of them.
pub open spec fn csproj_probes(p: Seq<char>, depth: nat) -> Seq<ProbeModel>
    decreases depth,
{
    if depth == 0 {
        Seq::empty()
    } else {
        csproj_dir_probes(p) + match parent_of(p) {
            None => Seq::empty(),
            Some(q) => csproj_probes(q, (depth - 1) as nat),
        }
    }
}

/// All solution-descriptor probes: the query path's ancestors, nearest
/// first, up to `depth` of them.
pub open spec fn sln_probes(p: Seq<char>, depth: nat) -> Seq<ProbeModel>
    decreases depth,
{
    if depth == 0 {
        Seq::empty()
    } else {
        sln_dir_probes(p) + match parent_of(p) {
            None => Seq::empty(),
            Some(q) => sln_probes(q, (depth - 1) as nat),
        }
    }
}

/// The root of the first probe whose existence flag is set.
pub open spec fn search_model(cands: Seq<ProbeModel>, found: Seq<bool>) -> Option<Seq<char>>
    decreases cands.len(),
{
    if cands.len() == 0 || found.len() == 0 {
        None
    } else if found[0] {
        Some(cands[0].root)
    } else {
        search_model(cands.drop_first(), found.drop_first())
    }
}

fn push_probe(out: &mut Vec<ProbeCandidate>, a: &Vec<char>, fname: &Vec<char>)
    ensures
        probes_view(final(out)@) == probes_view(old(out)@).push(probe_of(a@, fname@)),
{
    let j = join_chars(a, fname);
    let ghost before = probes_view(out@);
    out.push(
        ProbeCandidate {
            root: crate::text::chars_to_string(a),
            file: crate::text::chars_to_string(&j),
        },
    );
    proof {
        assert(probes_view(out@) =~= before.push(probe_of(a@, fname@)));
    }
}

/// Concatenation of two character vectors.
fn concat_chars(a: &Vec<char>, b: &str) -> (r: Vec<char>)
    ensures
        r@ == a@ + b@,
{
    let mut r = crate::text::subvec(a, 0, a.len());
    let mut bv = str_to_chars(b);
    proof {
        assert(a@.subrange(0, a@.len() as int) =~= a@);
    }
    r.append(&mut bv);
    r
}

fn csproj_dir_probes_exec(out: &mut Vec<ProbeCandidate>, a: &Vec<char>)
    ensures
        probes_view(final(out)@) == probes_view(old(out)@) + csproj_dir_probes(a@),
{
    let fname = file_name_chars(a);
    if fname.len() > 0 {
        let named = concat_chars(&fname, ".csproj");
        push_probe(out, a, &named);
    }
    let c1 = str_to_chars("project.csproj");
    push_probe(out, a, &c1);
    let c2 = str_to_chars("app.csproj");
    push_probe(out, a, &c2);
    let c3 = str_to_chars("web.csproj");
    push_probe(out, a, &c3);
    proof {
        assert(probes_view(out@) =~= probes_view(old(out)@) + csproj_dir_probes(a@));
    }
}

fn sln_dir_probes_exec(out: &mut Vec<ProbeCandidate>, a: &Vec<char>)
    ensures
        probes_view(final(out)@) == probes_view(old(out)@) + sln_dir_probes(a@),
{
    let fname = file_name_chars(a);
    if fname.len() > 0 {
        let named = concat_chars(&fname, ".sln");
        push_probe(out, a, &named);
    }
    let c1 = str_to_chars("solution.sln");
    push_probe(out, a, &c1);
    proof {
        assert(probes_view(out@) =~= probes_view(old(out)@) + sln_dir_probes(a@));
    }
}

/// The root of the first probe the caller found to exist, probes and flags
/// paired in order.
pub fn search_probes(candidates: &Vec<ProbeCandidate>, found: &Vec<bool>) -> (r: Option<String>)
    requires
        candidates@.len() == found@.len(),
    ensures
        match r {
            Some(p) => search_model(probes_view(candidates@), found@) == Some(p@),
            None => search_model(probes_view(candidates@), found@) is None,
        },
{
    let mut i: usize = 0;
    proof {
        assert(probes_view(candidates@).skip(0) =~= probes_view(candidates@));
        assert(found@.skip(0) =~= found@);
    }
    while i < candidates.len()
        invariant
            i <= candidates@.len(),
            candidates@.len() == found@.len(),
            search_model(probes_view(candidates@), found@) == search_model(
                probes_view(candidates@).skip(i as int),
                found@.skip(i as int),
            ),
        decreases candidates@.len() - i,
    {
        proof {
            assert(probes_view(candidates@).skip(i as int)[0] == candidates@[i as int]@);
            assert(found@.skip(i as int)[0] == found@[i as int]);
            assert(probes_view(candidates@).skip(i as int).drop_first() =~= probes_view(
                candidates@,
            ).skip(i as int + 1));
            assert(found@.skip(i as int).drop_first() =~= found@.skip(i as int + 1));
        }
        if found[i] {
            return Some(candidates[i].root.clone());
        }
        i = i + 1;
    }
    proof {
        assert(probes_view(candidates@).skip(i as int) =~= Seq::<ProbeModel>::empty());
    }
    None
}

/// Manifest provider for project descriptors: detects project files and
/// reports their directory as the project root.
pub struct CsprojManifestProvider;

impl CsprojManifestProvider {
    /// The manifest name this provider answers for.
    pub fn name(&self) -> (r: String)
        ensures
            r@ == ".csproj"@,
    {
        ".csproj".to_owned()
    }

    /// The candidate files to probe for a query path, walking up to `depth`
    /// ancestors, as `csproj_probes` says.
    pub fn candidate_files(&self, path: &str, depth: usize) -> (r: Vec<ProbeCandidate>)
        ensures
            probes_view(r@) == csproj_probes(path@, depth as nat),
    {
        let mut out: Vec<ProbeCandidate> = Vec::new();
        let mut cur = str_to_chars(path);
        let mut d = depth;
        proof {
            assert(probes_view(out@) =~= Seq::<ProbeModel>::empty());
        }
        loop
            invariant_except_break
                d <= depth,
                csproj_probes(path@, depth as nat) == probes_view(out@) + csproj_probes(
                    cur@,
                    d as nat,
                ),
            ensures
                probes_view(out@) == csproj_probes(path@, depth as nat),
            decreases d,
        {
            if d == 0 {
                proof {
                    assert(probes_view(out@) + csproj_probes(cur@, 0nat) =~= probes_view(out@));
                }
                break ;
            }
            let ghost before = probes_view(out@);
            csproj_dir_probes_exec(&mut out, &cur);
            match parent_chars(&cur) {
                None => {
                    proof {
                        assert(csproj_probes(cur@, d as nat) == csproj_dir_probes(cur@));
                        assert(before + csproj_dir_probes(cur@) =~= probes_view(out@));
                    }
                    break ;
                },
                Some(q) => {
                    proof {
                        assert(csproj_probes(cur@, d as nat) == csproj_dir_probes(cur@)
                            + csproj_probes(q@, (d - 1) as nat));
                        assert(before + (csproj_dir_probes(cur@) + csproj_probes(
                            q@,
                            (d - 1) as nat,
                        )) =~= (before + csproj_dir_probes(cur@)) + csproj_probes(
                            q@,
                            (d - 1) as nat,
                        ));
                    }
                    cur = q;
                    d = d - 1;
                },
            }
        }
        out
    }

    /// The manifest root: the directory of the first candidate the caller
    /// found to exist.
    pub fn search(&self, candidates: &Vec<ProbeCandidate>, found: &Vec<bool>) -> (r: Option<
        String,
    >)
        requires
            candidates@.len() == found@.len(),
        ensures
            match r {
                Some(p) => search_model(probes_view(candidates@), found@) == Some(p@),
                None => search_model(probes_view(candidates@), found@) is None,
            },
    {
        search_probes(candidates, found)
    }
}

/// Manifest provider for solution descriptors: detects solution files and
/// reports their directory as the solution root.
pub struct SolutionManifestProvider;

impl SolutionManifestProvider {
    /// The manifest name this provider answers for.
    pub fn name(&self) -> (r: String)
        ensures
            r@ == ".sln"@,
    {
        ".sln".to_owned()
    }

    /// The candidate files to probe for a query path, walking up to `depth`
    /// ancestors, as `sln_probes` says.
    pub fn candidate_files(&self, path: &str, depth: usize) -> (r: Vec<ProbeCandidate>)
        ensures
            probes_view(r@) == sln_probes(path@, depth as nat),
    {
        let mut out: Vec<ProbeCandidate> = Vec::new();
        let mut cur = str_to_chars(path);
        let mut d = depth;
        proof {
            assert(probes_view(out@) =~= Seq::<ProbeModel>::empty());
        }
        loop
            invariant_except_break
                d <= depth,
                sln_probes(path@, depth as nat) == probes_view(out@) + sln_probes(
                    cur@,
                    d as nat,
                ),
            ensures
                probes_view(out@) == sln_probes(path@, depth as nat),
            decreases d,
        {
            if d == 0 {
                proof {
                    assert(probes_view(out@) + sln_probes(cur@, 0nat) =~= probes_view(out@));
                }
                break ;
            }
            let ghost before = probes_view(out@);
            sln_dir_probes_exec(&mut out, &cur);
            match parent_chars(&cur) {
                None => {
                    proof {
                        assert(sln_probes(cur@, d as nat) == sln_dir_probes(cur@));
                        assert(before + sln_dir_probes(cur@) =~= probes_view(out@));
                    }
                    break ;
                },
                Some(q) => {
                    proof {
                        assert(sln_probes(cur@, d as nat) == sln_dir_probes(cur@) + sln_probes(
                            q@,
                            (d - 1) as nat,
                        ));
                        assert(before + (sln_dir_probes(cur@) + sln_probes(q@, (d - 1) as nat))
                            =~= (before + sln_dir_probes(cur@)) + sln_probes(
                            q@,
                            (d - 1) as nat,
                        ));
                    }
                    cur = q;
                    d = d - 1;
                },
            }
        }
        out
    }

    /// The manifest root: the directory of the first candidate the caller
    /// found to exist.
    pub fn search(&self, candidates: &Vec<ProbeCandidate>, found: &Vec<bool>) -> (r: Option<
        String,
    >)
        requires
            candidates@.len() == found@.len(),
        ensures
            match r {
                Some(p) => search_model(probes_view(candidates@), found@) == Some(p@),
                None => search_model(probes_view(candidates@), found@) is None,
            },
    {
        search_probes(candidates, found)
    }
}

} // verus!
