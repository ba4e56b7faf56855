//! A package record, as a repository index describes it.
use crate::matchspec::{text_of, MatchSpec};
use vstd::prelude::*;

verus! {

/// A package record: what a MatchSpec is matched against. Only the name,
/// version, build, build number and subdir take part in matching.
#[derive(Debug, Default, Clone)]
pub struct PackageCandidate {
    pub name: String,
    pub version: Option<String>,
    pub build: Option<String>,
    pub build_number: Option<u32>,
    pub depends: Vec<String>,
    pub license: Option<String>,
    pub md5: Option<String>,
    pub sha256: Option<String>,
    pub size: Option<u64>,
    pub subdir: Option<String>,
    pub timestamp: Option<u64>,
}

/// The mathematical value of a `PackageCandidate`.
pub struct CandidateModel {
    pub name: Seq<char>,
    pub version: Option<Seq<char>>,
    pub build: Option<Seq<char>>,
    pub build_number: Option<u32>,
    pub depends: Seq<Seq<char>>,
    pub license: Option<Seq<char>>,
    pub md5: Option<Seq<char>>,
    pub sha256: Option<Seq<char>>,
    pub size: Option<u64>,
    pub subdir: Option<Seq<char>>,
    pub timestamp: Option<u64>,
}

impl View for PackageCandidate {
    type V = CandidateModel;

    open spec fn view(&self) -> CandidateModel {
        CandidateModel {
            name: self.name@,
            version: text_of(self.version),
            build: text_of(self.build),
            build_number: self.build_number,
            depends: self.depends@.map_values(|d: String| d@),
            license: text_of(self.license),
            md5: text_of(self.md5),
            sha256: text_of(self.sha256),
            size: self.size,
            subdir: text_of(self.subdir),
            timestamp: self.timestamp,
        }
    }
}

impl PackageCandidate {
    /// A record from its fields; no dependency list is an empty one.
    pub fn new(
        name: String,
        version: Option<String>,
        build: Option<String>,
        build_number: Option<u32>,
        depends: Option<Vec<String>>,
        license: Option<String>,
        md5: Option<String>,
        sha256: Option<String>,
        size: Option<u64>,
        subdir: Option<String>,
        timestamp: Option<u64>,
    ) -> (r: PackageCandidate)
        ensures
            r@.name == name@,
            r@.version == text_of(version),
            r@.build == text_of(build),
            r@.build_number == build_number,
            r@.depends == match depends {
                Some(d) => d@.map_values(|x: String| x@),
                None => Seq::empty(),
            },
            r@.license == text_of(license),
            r@.md5 == text_of(md5),
            r@.sha256 == text_of(sha256),
            r@.size == size,
            r@.subdir == text_of(subdir),
            r@.timestamp == timestamp,
    {
        let depends = match depends {
            Some(d) => d,
            None => Vec::new(),
        };
        let r = PackageCandidate {
            name,
            version,
            build,
            build_number,
            depends,
            license,
            md5,
            sha256,
            size,
            subdir,
            timestamp,
        };
        assert(r.depends@.len() == 0 ==> r@.depends =~= Seq::empty());
        r
    }

    /// Whether this record meets the spec `ms`.
    pub fn is_match(&self, ms: &MatchSpec) -> (r: bool)
        ensures
            r == ms@.admits(self@),
    {
        ms.is_match(self)
    }
}

} // verus!
