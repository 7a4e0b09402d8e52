//! Dependency declarations of a project descriptor.
//!
//! A project descriptor lists its package references as repeated
//! `<PackageReference .../>` entries; [`parse_csproj_packages`] scans them
//! out, tolerant of everything but an unterminated opening tag.

use vstd::prelude::*;
use crate::errors::PipelineError;
use crate::text::{
    find_char_from, find_sub_from, find_char, find_sub_str, str_to_chars, string_of_range,
    subvec,
};

verus! {

broadcast use vstd::string::group_string_axioms;

/// Mathematical model of one package reference.
#[verifier::ext_equal]
pub ghost struct PackageModel {
    pub id: Seq<char>,
    pub version: Option<Seq<char>>,
}

/// One package reference of a project: an identifier and an optional version.
#[derive(Debug, Clone, PartialEq, Eq)]
pub struct NuGetPackage {
    /// Package identifier.
    pub id: String,
    /// Package version, when the declaration carries one.
    pub version: Option<String>,
}

impl View for NuGetPackage {
    type V = PackageModel;

    open spec fn view(&self) -> PackageModel {
        PackageModel {
            id: self.id@,
            version: match self.version {
                Some(v) => Some(v@),
                None => None,
            },
        }
    }
}

/// The value of the attribute `key="..."` inside the tag text, if any: the
/// text between the quote that follows the first occurrence of `key="` and
/// the next quote.
pub open spec fn attr_value(tag: Seq<char>, marker: Seq<char>) -> Option<Seq<char>> {
    match find_sub_from(tag, marker, 0) {
        None => None,
        Some(a) => {
            let vs = a + marker.len();
            match find_char_from(tag, '"', vs) {
                None => None,
                Some(ve) => Some(tag.subrange(vs, ve)),
            }
        },
    }
}

/// The package described by one reference tag: the `Include` attribute is the
/// identifier (no identifier, no package), the `Version` attribute the
/// optional version.
pub open spec fn package_of_tag(tag: Seq<char>) -> Option<PackageModel> {
    match attr_value(tag, "Include=\""@) {
        None => None,
        Some(id) => Some(PackageModel { id, version: attr_value(tag, "Version=\""@) }),
    }
}

/// One step of the reference scan: the position of the next opening tag, and
/// of its terminator (the nearer of a self-closing marker and an explicit
/// closing tag), if any.
pub open spec fn tag_terminator(s: Seq<char>, i: int) -> Option<int> {
    let self_close = find_sub_from(s, "/>"@, i);
    let explicit = find_sub_from(s, "</PackageReference>"@, i);
    match self_close {
        None => explicit,
        Some(a) => match explicit {
            None => Some(a),
            Some(b) => if a <= b {
                Some(a)
            } else {
                Some(b)
            },
        },
    }
}

/// The packages declared at or after position `pos`, appended to `acc`;
/// `None` when an opening tag has no terminator before input end.
pub open spec fn package_scan(s: Seq<char>, pos: int, acc: Seq<PackageModel>) -> Option<
    Seq<PackageModel>,
>
    decreases s.len() - pos,
    via package_scan_dec
{
    match find_sub_from(s, "<PackageReference"@, pos) {
        None => Some(acc),
        Some(i) => match tag_terminator(s, i) {
            None => None,
            Some(t) => {
                let tag = s.subrange(i, t + 2);
                let acc2 = match package_of_tag(tag) {
                    Some(p) => acc.push(p),
                    None => acc,
                };
                package_scan(s, t + 2, acc2)
            },
        },
    }
}

#[via_fn]
proof fn package_scan_dec(s: Seq<char>, pos: int, acc: Seq<PackageModel>) {
    reveal_strlit("<PackageReference");
    reveal_strlit("/>");
    reveal_strlit("</PackageReference>");
    if pos < 0 {
        assert(find_sub_from(s, "<PackageReference"@, pos) is None);
    } else {
        crate::text::lemma_find_sub_first(s, "<PackageReference"@, pos);
        match find_sub_from(s, "<PackageReference"@, pos) {
            Some(i) => {
                crate::text::lemma_find_sub_first(s, "/>"@, i);
                crate::text::lemma_find_sub_first(s, "</PackageReference>"@, i);
            },
            None => {},
        }
    }
}

/// The packages of a whole project descriptor.
pub open spec fn packages_model(content: Seq<char>) -> Option<Seq<PackageModel>> {
    package_scan(content, 0, Seq::empty())
}

/// The model of a vector of packages.
pub open spec fn packages_view(ps: Seq<NuGetPackage>) -> Seq<PackageModel> {
    ps.map_values(|p: NuGetPackage| p@)
}

/// The value of the attribute whose `key="` marker is `marker`, inside the
/// tag text `tag`.
pub(crate) fn attr_value_exec(tag: &Vec<char>, marker: &Vec<char>) -> (r: Option<String>)
    ensures
        match r {
            Some(v) => attr_value(tag@, marker@) == Some(v@),
            None => attr_value(tag@, marker@) is None,
        },
{
    match crate::text::find_sub(tag, marker, 0) {
        None => None,
        Some(a) => {
            let n = tag.len();
            proof {
                assert(a + marker@.len() <= n);
            }
            let vs = a + marker.len();
            match find_char(tag, '"', vs) {
                None => None,
                Some(ve) => Some(string_of_range(tag, vs, ve)),
            }
        },
    }
}

/// The package of one reference tag, if it has an `Include` attribute.
fn package_from_tag(tag: &Vec<char>) -> (r: Option<NuGetPackage>)
    ensures
        match r {
            Some(p) => package_of_tag(tag@) == Some(p@),
            None => package_of_tag(tag@) is None,
        },
{
    let id_marker = str_to_chars("Include=\"");
    match attr_value_exec(tag, &id_marker) {
        None => None,
        Some(id) => {
            let version_marker = str_to_chars("Version=\"");
            let version = attr_value_exec(tag, &version_marker);
            Some(NuGetPackage { id, version })
        },
    }
}

/// Scan a project descriptor for its package references.
///
/// Tolerant of everything but an opening reference tag with no terminator
/// before input end, which is the one parse failure; a reference without an
/// `Include` attribute is skipped.
pub fn parse_csproj_packages(content: &str) -> (r: Result<Vec<NuGetPackage>, PipelineError>)
    ensures
        match r {
            Ok(ps) => packages_model(content@) == Some(packages_view(ps@)),
            Err(e) => packages_model(content@) is None && (e matches PipelineError::Parse {
                detail,
            } && detail@ == "unclosed PackageReference tag"@),
        },
{
    let cs = str_to_chars(content);
    let n = cs.len();
    let mut acc: Vec<NuGetPackage> = Vec::new();
    let mut pos: usize = 0;
    proof {
        assert(packages_view(acc@) =~= Seq::<PackageModel>::empty());
    }
    loop
        invariant
            pos <= cs@.len(),
            n == cs@.len(),
            cs@ == content@,
            package_scan(content@, 0, Seq::empty()) == package_scan(
                content@,
                pos as int,
                packages_view(acc@),
            ),
        decreases cs@.len() - pos,
    {
        let found = find_sub_str(&cs, "<PackageReference", pos);
        match found {
            None => {
                return Ok(acc);
            },
            Some(i) => {
                let self_close = find_sub_str(&cs, "/>", i);
                let explicit = find_sub_str(&cs, "</PackageReference>", i);
                let t_opt: Option<usize> = match self_close {
                    None => explicit,
                    Some(a) => match explicit {
                        None => Some(a),
                        Some(b) => if a <= b {
                            Some(a)
                        } else {
                            Some(b)
                        },
                    },
                };
                match t_opt {
                    None => {
                        return Err(
                            PipelineError::Parse {
                                detail: "unclosed PackageReference tag".to_owned(),
                            },
                        );
                    },
                    Some(t) => {
                        proof {
                            reveal_strlit("/>");
                            reveal_strlit("</PackageReference>");
                            assert("/>"@.len() == 2);
                            assert("</PackageReference>"@.len() == 19);
                            assert(t + 2 <= cs@.len());
                        }
                        let tag = subvec(&cs, i, t + 2);
                        match package_from_tag(&tag) {
                            Some(pkg) => {
                                let ghost before = packages_view(acc@);
                                acc.push(pkg);
                                proof {
                                    assert(packages_view(acc@) =~= before.push(acc@.last()@));
                                }
                            },
                            None => {},
                        }
                        pos = t + 2;
                    },
                }
            },
        }
    }
}

} // verus!
