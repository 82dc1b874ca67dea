//! The package manifest: name, version, per-target sources and the install
//! script.

use vstd::prelude::*;

use crate::id::Id;
use crate::text::same_text;

verus! {

/// A downloadable artefact and the hex SHA-256 digest it must have.
#[derive(Debug, Clone)]
pub struct Source {
    pub url: String,
    pub checksum: String,
}

/// The sources of one architecture.
#[derive(Debug, Clone)]
pub struct ArchSources {
    pub arch: String,
    pub sources: Vec<Source>,
}

/// The sources of one operating system, by architecture.
#[derive(Debug, Clone)]
pub struct Targets {
    pub entries: Vec<ArchSources>,
}

/// The sources of one operating system.
#[derive(Debug, Clone)]
pub struct OsTargets {
    pub os: String,
    pub targets: Targets,
}

/// All sources of a package, by operating system then architecture.
#[derive(Debug, Clone)]
pub struct Sources {
    pub entries: Vec<OsTargets>,
}

/// A package manifest.
#[derive(Debug, Clone)]
pub struct Package {
    pub name: String,
    pub version: String,
    pub description: String,
    pub sources: Sources,
    pub install: String,
}

/// `i` is the first entry of `s` for the architecture `name`.
pub open spec fn first_arch(s: Seq<ArchSources>, name: Seq<char>, i: int) -> bool {
    &&& 0 <= i < s.len()
    &&& s[i].arch@ == name
    &&& forall|j: int| 0 <= j < i ==> s[j].arch@ != name
}

/// `i` is the first entry of `s` for the operating system `name`.
pub open spec fn first_os(s: Seq<OsTargets>, name: Seq<char>, i: int) -> bool {
    &&& 0 <= i < s.len()
    &&& s[i].os@ == name
    &&& forall|j: int| 0 <= j < i ==> s[j].os@ != name
}

/// Some architecture of `t` has at least one source.
pub open spec fn has_sources(t: Targets) -> bool {
    exists|i: int| 0 <= i < t.entries@.len() && t.entries@[i].sources@.len() > 0
}

/// The sources listed for `os` and `arch` are not empty.
pub open spec fn serves(p: Package, os: Seq<char>, arch: Seq<char>) -> bool {
    exists|i: int, j: int|
        first_os(p.sources.entries@, os, i) && first_arch(
            p.sources.entries@[i].targets.entries@,
            arch,
            j,
        ) && p.sources.entries@[i].targets.entries@[j].sources@.len() > 0
}

impl Targets {
    /// The sources of the architecture `name`, unless there are none.
    pub fn get(&self, name: &str) -> (r: Option<&Vec<Source>>)
        ensures
            match r {
                Some(v) => exists|i: int|
                    first_arch(self.entries@, name@, i) && *v == self.entries@[i].sources
                        && v@.len() > 0,
                None => forall|i: int|
                    first_arch(self.entries@, name@, i) ==> self.entries@[i].sources@.len() == 0,
            },
    {
        let mut i: usize = 0;
        while i < self.entries.len()
            invariant
                i <= self.entries@.len(),
                forall|j: int| 0 <= j < i ==> self.entries@[j].arch@ != name@,
            decreases self.entries@.len() - i,
        {
            if same_text(self.entries[i].arch.as_str(), name) {
                assert(first_arch(self.entries@, name@, i as int));
                if self.entries[i].sources.len() == 0 {
                    return None;
                }
                return Some(&self.entries[i].sources);
            }
            i = i + 1;
        }
        None
    }

    /// The architectures that have at least one source, in order.
    pub fn valid_keys(&self) -> (r: Vec<String>)
        ensures
            r@.map_values(|s: String| s@) == self.entries@.filter(
                |e: ArchSources| e.sources@.len() > 0,
            ).map_values(|e: ArchSources| e.arch@),
    {
        let mut keys: Vec<String> = Vec::new();
        let mut i: usize = 0;
        while i < self.entries.len()
            invariant
                i <= self.entries@.len(),
                keys@.map_values(|s: String| s@) == self.entries@.take(i as int).filter(
                    |e: ArchSources| e.sources@.len() > 0,
                ).map_values(|e: ArchSources| e.arch@),
            decreases self.entries@.len() - i,
        {
            let ghost pre = self.entries@.take(i as int);
            assert(self.entries@.take(i + 1) =~= pre.push(self.entries@[i as int]));
            broadcast use {Seq::lemma_filter_push, Seq::lemma_push_map_commute};
            if self.entries[i].sources.len() > 0 {
                keys.push(self.entries[i].arch.clone());
            }
            assert(keys@.map_values(|s: String| s@) =~= self.entries@.take(i + 1).filter(
                |e: ArchSources| e.sources@.len() > 0,
            ).map_values(|e: ArchSources| e.arch@));
            i = i + 1;
        }
        assert(self.entries@.take(self.entries@.len() as int) =~= self.entries@);
        keys
    }

    /// No architecture has a source.
    pub fn is_empty(&self) -> (r: bool)
        ensures
            r == !has_sources(*self),
    {
        let mut i: usize = 0;
        while i < self.entries.len()
            invariant
                i <= self.entries@.len(),
                forall|j: int| 0 <= j < i ==> self.entries@[j].sources@.len() == 0,
            decreases self.entries@.len() - i,
        {
            if self.entries[i].sources.len() > 0 {
                return false;
            }
            i = i + 1;
        }
        true
    }
}

impl Sources {
    /// The targets of the operating system `name`, unless none has a source.
    pub fn get(&self, name: &str) -> (r: Option<&Targets>)
        ensures
            match r {
                Some(t) => exists|i: int|
                    first_os(self.entries@, name@, i) && *t == self.entries@[i].targets
                        && has_sources(*t),
                None => forall|i: int|
                    first_os(self.entries@, name@, i) ==> !has_sources(self.entries@[i].targets),
            },
    {
        let mut i: usize = 0;
        while i < self.entries.len()
            invariant
                i <= self.entries@.len(),
                forall|j: int| 0 <= j < i ==> self.entries@[j].os@ != name@,
            decreases self.entries@.len() - i,
        {
            if same_text(self.entries[i].os.as_str(), name) {
                assert(first_os(self.entries@, name@, i as int));
                if self.entries[i].targets.is_empty() {
                    return None;
                }
                return Some(&self.entries[i].targets);
            }
            i = i + 1;
        }
        None
    }

    /// Every operating system named, in order.
    pub fn keys(&self) -> (r: Vec<String>)
        ensures
            r@.map_values(|s: String| s@) == self.entries@.map_values(|e: OsTargets| e.os@),
    {
        let mut keys: Vec<String> = Vec::new();
        let mut i: usize = 0;
        while i < self.entries.len()
            invariant
                i <= self.entries@.len(),
                keys@.map_values(|s: String| s@) == self.entries@.take(i as int).map_values(
                    |e: OsTargets| e.os@,
                ),
            decreases self.entries@.len() - i,
        {
            broadcast use {Seq::lemma_filter_push, Seq::lemma_push_map_commute};
            assert(self.entries@.take(i + 1) =~= self.entries@.take(i as int).push(
                self.entries@[i as int],
            ));
            keys.push(self.entries[i].os.clone());
            assert(keys@.map_values(|s: String| s@) =~= self.entries@.take(i + 1).map_values(
                |e: OsTargets| e.os@,
            ));
            i = i + 1;
        }
        assert(self.entries@.take(self.entries@.len() as int) =~= self.entries@);
        keys
    }
}

impl Package {
    /// The identity `name@version` of this package.
    pub fn id(&self) -> (r: Id)
        ensures
            r.name == self.name,
            r.version == self.version,
    {
        Id { name: self.name.clone(), version: self.version.clone() }
    }

    /// The sources to fetch for the target `os`.`arch`; there must be some.
    pub fn sources_for(&self, os: &str, arch: &str) -> (r: Result<&Vec<Source>, NoSources>)
        ensures
            r is Ok <==> serves(*self, os@, arch@),
            r matches Ok(v) ==> exists|i: int, j: int|
                first_os(self.sources.entries@, os@, i) && first_arch(
                    self.sources.entries@[i].targets.entries@,
                    arch@,
                    j,
                ) && *v == self.sources.entries@[i].targets.entries@[j].sources,
            r matches Err(e) ==> e.os@ == os@ && e.arch@ == arch@,
    {
        let err = NoSources { os: os.to_owned(), arch: arch.to_owned() };
        match self.sources.get(os) {
            None => {
                assert forall|i: int, j: int|
                    first_os(self.sources.entries@, os@, i) && first_arch(
                        self.sources.entries@[i].targets.entries@,
                        arch@,
                        j,
                    ) implies self.sources.entries@[i].targets.entries@[j].sources@.len()
                    == 0 by {
                    if self.sources.entries@[i].targets.entries@[j].sources@.len() > 0 {
                        assert(has_sources(self.sources.entries@[i].targets));
                    }
                }
                Err(err)
            },
            Some(t) => {
                match t.get(arch) {
                    None => Err(err),
                    Some(v) => Ok(v),
                }
            },
        }
    }
}

/// No sources are listed for the target `os`.`arch`.
pub struct NoSources {
    pub os: String,
    pub arch: String,
}

} // verus!
