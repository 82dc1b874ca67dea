//! Evaluating the install script: where a `PACKAGE` source is looked for,
//! and the content records that `PACKAGE` and `PUBLISH` build up.

use vstd::prelude::*;

use crate::digest::{hex_of, sha256_of, sha256sum};
use crate::install::download::{file_name, file_name_of};
use crate::install::error::InstallError;
use crate::store::content::{Content, ContentType};
use crate::store::gc::str_views;
use crate::text::{chars_of, same_text};

verus! {

/// The path component `seg` ended: `.` and empty ones are dropped, `..`
/// drops the component before it, if any.
pub open spec fn push_segment(acc: Seq<Seq<char>>, seg: Seq<char>) -> Seq<Seq<char>> {
    if seg.len() == 0 || seg == seq!['.'] {
        acc
    } else if seg == seq!['.', '.'] {
        if acc.len() == 0 {
            acc
        } else {
            acc.drop_last()
        }
    } else {
        acc.push(seg)
    }
}

pub open spec fn norm(s: Seq<char>, cur: Seq<char>, acc: Seq<Seq<char>>) -> Seq<Seq<char>>
    decreases s.len(),
{
    if s.len() == 0 {
        push_segment(acc, cur)
    } else if s[0] == '/' {
        norm(s.drop_first(), seq![], push_segment(acc, cur))
    } else {
        norm(s.drop_first(), cur.push(s[0]), acc)
    }
}

/// The components of a relative path once `.`, `..` and empty components
/// are resolved, never climbing above its start.
pub open spec fn normalize(s: Seq<char>) -> Seq<Seq<char>> {
    norm(s, seq![], seq![])
}

/// A component that names an entry: not empty, not `.` and not `..`.
pub open spec fn is_plain(c: Seq<char>) -> bool {
    c.len() > 0 && c != seq!['.'] && c != seq!['.', '.']
}

/// The directory that holds the path `comps`; the top stays the top.
pub open spec fn parent(comps: Seq<Seq<char>>) -> Seq<Seq<char>> {
    if comps.len() == 0 {
        comps
    } else {
        comps.drop_last()
    }
}

/// `k` is the position of the first `*` of `s`.
pub open spec fn first_star(s: Seq<char>, k: int) -> bool {
    0 <= k < s.len() && s[k] == '*' && forall|j: int| 0 <= j < k ==> s[j] != '*'
}

/// Where the source of a `PACKAGE` instruction is, under the staging
/// directory.
pub enum SourceRef {
    /// The file at this path.
    File { path: Vec<String> },
    /// The first entry of the directory `dir` that the glob `pattern`
    /// matches; the pattern is the instruction's source below the staging
    /// directory.
    Glob { dir: Vec<String>, pattern: String },
}

fn push_component(acc: &mut Vec<String>, path: &str, start: usize, end: usize)
    requires
        start <= end <= path@.len(),
    ensures
        str_views(final(acc)@) == push_segment(
            str_views(old(acc)@),
            path@.subrange(start as int, end as int),
        ),
{
    let ghost seg = path@.subrange(start as int, end as int);
    let piece = path.substring_char(start, end).to_owned();
    let p = chars_of(piece.as_str());
    assert(p@ == seg);
    if p.len() == 0 || (p.len() == 1 && p[0] == '.') {
        assert(seg.len() == 0 || seg =~= seq!['.']);
    } else if p.len() == 2 && p[0] == '.' && p[1] == '.' {
        assert(seg =~= seq!['.', '.']);
        if acc.len() > 0 {
            acc.pop();
            assert(str_views(acc@) =~= str_views(old(acc)@).drop_last());
        }
    } else {
        assert(seg != seq!['.'] && seg != seq!['.', '.']) by {
            if seg == seq!['.'] {
                assert(seg.len() == 1 && seg[0] == p@[0]);
            }
            if seg == seq!['.', '.'] {
                assert(seg.len() == 2 && seg[0] == p@[0] && seg[1] == p@[1]);
            }
        }
        acc.push(piece);
        assert(str_views(acc@) =~= str_views(old(acc)@).push(seg));
    }
}

/// The components of the relative path `path`, resolved.
pub fn components(path: &str) -> (r: Vec<String>)
    ensures
        str_views(r@) == normalize(path@),
{
    let chars = chars_of(path);
    let ghost s = chars@;
    let mut acc: Vec<String> = Vec::new();
    let mut start: usize = 0;
    let mut i: usize = 0;
    assert(s.skip(0) =~= s);
    assert(s.subrange(0, 0) =~= seq![]);
    assert(str_views(acc@) =~= seq![]);
    while i < chars.len()
        invariant
            chars@ == s,
            s == path@,
            start <= i <= s.len(),
            normalize(s) == norm(s.skip(i as int), s.subrange(start as int, i as int), str_views(acc@)),
        decreases s.len() - i,
    {
        assert(s.skip(i as int).drop_first() =~= s.skip(i + 1));
        if chars[i] == '/' {
            push_component(&mut acc, path, start, i);
            start = i + 1;
            assert(s.subrange(start as int, start as int) =~= seq![]);
        } else {
            assert(s.subrange(start as int, i as int).push(s[i as int]) =~= s.subrange(
                start as int,
                i + 1,
            ));
        }
        i = i + 1;
    }
    assert(s.skip(i as int) =~= seq![]);
    push_component(&mut acc, path, start, i);
    acc
}

proof fn lemma_push_segment_plain(acc: Seq<Seq<char>>, seg: Seq<char>)
    requires
        forall|k: int| 0 <= k < acc.len() ==> is_plain(acc[k]),
    ensures
        forall|k: int| 0 <= k < push_segment(acc, seg).len() ==> is_plain(push_segment(acc, seg)[k]),
{
}

proof fn lemma_norm_plain(s: Seq<char>, cur: Seq<char>, acc: Seq<Seq<char>>)
    requires
        forall|k: int| 0 <= k < acc.len() ==> is_plain(acc[k]),
    ensures
        forall|k: int| 0 <= k < norm(s, cur, acc).len() ==> is_plain(norm(s, cur, acc)[k]),
    decreases s.len(),
{
    lemma_push_segment_plain(acc, cur);
    if s.len() > 0 {
        if s[0] == '/' {
            assert(norm(s, cur, acc) == norm(s.drop_first(), seq![], push_segment(acc, cur)));
            lemma_norm_plain(s.drop_first(), seq![], push_segment(acc, cur));
        } else {
            assert(norm(s, cur, acc) == norm(s.drop_first(), cur.push(s[0]), acc));
            lemma_norm_plain(s.drop_first(), cur.push(s[0]), acc);
        }
    } else {
        assert(norm(s, cur, acc) == push_segment(acc, cur));
    }
}

/// A resolved path never leaves the directory it is resolved in: each of
/// its components names an entry, none is `..`.
pub proof fn lemma_resolved_stays_inside(s: Seq<char>)
    ensures
        forall|k: int| 0 <= k < normalize(s).len() ==> is_plain(normalize(s)[k]),
        forall|k: int| 0 <= k < parent(normalize(s)).len() ==> is_plain(parent(normalize(s))[k]),
{
    lemma_norm_plain(s, seq![], seq![]);
}

/// Where the source `source` of a `PACKAGE` instruction is looked for: with
/// a `*`, in the directory that holds the path before the first `*`;
/// otherwise at the path itself.
pub fn resolve_source(source: &str) -> (r: SourceRef)
    ensures
        match r {
            SourceRef::File { path } => (forall|j: int| 0 <= j < source@.len() ==> source@[j] != '*')
                && str_views(path@) == normalize(source@),
            SourceRef::Glob { dir, pattern } => exists|k: int|
                first_star(source@, k) && str_views(dir@) == parent(normalize(source@.take(k)))
                    && pattern@ == source@,
        },
{
    let chars = chars_of(source);
    let mut i: usize = 0;
    while i < chars.len()
        invariant
            chars@ == source@,
            i <= chars@.len(),
            forall|j: int| 0 <= j < i ==> chars@[j] != '*',
        decreases chars@.len() - i,
    {
        if chars[i] == '*' {
            assert(first_star(source@, i as int));
            let prefix = source.substring_char(0, i);
            assert(prefix@ =~= source@.take(i as int));
            let mut dir = components(prefix);
            if dir.len() > 0 {
                dir.pop();
                assert(str_views(dir@) =~= parent(normalize(source@.take(i as int))));
            }
            return SourceRef::Glob { dir, pattern: source.to_owned() };
        }
        i = i + 1;
    }
    SourceRef::File { path: components(source) }
}

/// Whether a glob pattern parses and compiles.
pub uninterp spec fn glob_valid(pattern: Seq<char>) -> bool;

/// Whether a valid glob pattern matches a path.
pub uninterp spec fn glob_matches(pattern: Seq<char>, path: Seq<char>) -> bool;

#[verifier::external_type_specification]
#[verifier::external_body]
pub struct ExGlobSet(globset::GlobSet);

#[verifier::external_type_specification]
#[verifier::external_body]
pub struct ExGlobError(globset::Error);

/// The longest glob pattern that is compiled, in characters.
pub const MAX_PATTERN_LEN: usize = 65536;

/// A compiled glob and the pattern it was compiled from.
struct Matcher {
    pattern: String,
    inner: globset::GlobSet,
}

/// Relies on globset's `Glob::new`, which parses the pattern, and
/// `GlobSet::new`, which compiles it and reports a pattern that the regex
/// engine refuses as an error; both succeed exactly on the valid patterns.
/// Patterns are bounded so that the literal matchers that `GlobSet::new`
/// builds stay far below their size limits.
#[verifier::external_body]
fn compile_glob(pattern: &str) -> (r: Result<Matcher, globset::Error>)
    requires
        pattern@.len() <= MAX_PATTERN_LEN,
    ensures
        r is Ok <==> glob_valid(pattern@),
        r matches Ok(m) ==> m.pattern@ == pattern@,
{
    let glob = globset::Glob::new(pattern)?;
    let set = globset::GlobSet::new([glob])?;
    Ok(Matcher { pattern: pattern.to_string(), inner: set })
}

/// Relies on globset's `GlobSet::is_match` of the set holding the one
/// compiled pattern.
#[verifier::external_body]
fn glob_is_match(m: &Matcher, path: &str) -> (r: bool)
    ensures
        r == glob_matches(m.pattern@, path@),
{
    m.inner.is_match(path)
}

/// The position of the first of `entries` that the glob `pattern` matches.
pub fn find_file(entries: &Vec<String>, pattern: &str) -> (r: Result<usize, InstallError>)
    ensures
        (pattern@.len() > MAX_PATTERN_LEN || !glob_valid(pattern@)) <==> r matches Err(
            InstallError::InvalidPattern { .. },
        ),
        r matches Ok(i) ==> i < entries@.len() && glob_matches(pattern@, entries@[i as int]@) && (
        forall|j: int| 0 <= j < i ==> !glob_matches(pattern@, entries@[j]@)),
        r matches Err(InstallError::NoMatch { pattern: p }) ==> p@ == pattern@ && forall|j: int|
            0 <= j < entries@.len() ==> !glob_matches(pattern@, entries@[j]@),
        r matches Err(InstallError::InvalidPattern { pattern: p }) ==> p@ == pattern@,
        r matches Err(e) ==> e is NoMatch || e is InvalidPattern,
{
    if pattern.unicode_len() > MAX_PATTERN_LEN {
        return Err(InstallError::InvalidPattern { pattern: pattern.to_owned() });
    }
    let m = match compile_glob(pattern) {
        Ok(m) => m,
        Err(_) => {
            return Err(InstallError::InvalidPattern { pattern: pattern.to_owned() });
        },
    };
    let mut i: usize = 0;
    while i < entries.len()
        invariant
            m.pattern@ == pattern@,
            glob_valid(pattern@),
            pattern@.len() <= MAX_PATTERN_LEN,
            i <= entries@.len(),
            forall|j: int| 0 <= j < i ==> !glob_matches(pattern@, entries@[j]@),
        decreases entries@.len() - i,
    {
        if glob_is_match(&m, entries[i].as_str()) {
            return Ok(i);
        }
        i = i + 1;
    }
    Err(InstallError::NoMatch { pattern: pattern.to_owned() })
}

/// A blob to write: the file to copy into `content/{checksum}`.
pub struct BlobCopy {
    pub from: String,
    pub checksum: String,
}

/// A link to make: `bin/{name}` pointing at `content/{checksum}`.
pub struct LinkPlan {
    pub name: String,
    pub checksum: String,
}

/// The content records of an evaluated script, by the path of their
/// source file, in the order first packaged.
pub struct ContentMap {
    entries: Vec<(String, Content)>,
}

/// `i` is the first entry with the file name `t`.
pub open spec fn first_named(s: Seq<(String, Content)>, t: Seq<char>, i: int) -> bool {
    &&& 0 <= i < s.len()
    &&& s[i].1.filename@ == t
    &&& forall|j: int| 0 <= j < i ==> s[j].1.filename@ != t
}

/// `new` is `old` with the record `c` for `path`: in place of the record
/// for the same path, or else appended.
pub open spec fn inserted(
    old: Seq<(String, Content)>,
    new: Seq<(String, Content)>,
    path: String,
    c: Content,
) -> bool {
    &&& (exists|i: int| 0 <= i < old.len() && old[i].0@ == path@) ==> exists|i: int|
        0 <= i < old.len() && old[i].0@ == path@ && new == old.update(i, (path, c))
    &&& !(exists|i: int| 0 <= i < old.len() && old[i].0@ == path@) ==> new == old.push((path, c))
}

/// `c` records, unpublished, the executable named `filename` with the
/// bytes `bytes`.
pub open spec fn is_packaged(c: Content, filename: Seq<char>, bytes: Seq<u8>) -> bool {
    &&& !c.published
    &&& c.content_type == ContentType::Executable
    &&& c.checksum@ == hex_of(sha256_of(bytes))
    &&& c.filename@ == filename
}

/// The name a packaged file gets: the target given, or else the source's
/// own file name.
pub open spec fn package_name(target: Option<String>, path: Seq<char>) -> Seq<char> {
    match target {
        Some(t) => t@,
        None => file_name_of(path)->0,
    }
}

impl ContentMap {
    /// The records, with their source paths, in order.
    pub closed spec fn entries(&self) -> Seq<(String, Content)> {
        self.entries@
    }

    /// No two records have the same source path.
    pub open spec fn wf(&self) -> bool {
        forall|i: int, j: int|
            0 <= i < j < self.entries().len() ==> self.entries()[i].0@ != self.entries()[j].0@
    }

    pub fn new() -> (r: ContentMap)
        ensures
            r.wf(),
            r.entries() == Seq::<(String, Content)>::empty(),
    {
        ContentMap { entries: Vec::new() }
    }

    /// Records `content` for the source `path`, in place of an earlier
    /// record for the same path.
    pub fn insert(&mut self, path: String, content: Content)
        requires
            old(self).wf(),
        ensures
            final(self).wf(),
            inserted(old(self).entries(), final(self).entries(), path, content),
    {
        let mut i: usize = 0;
        while i < self.entries.len()
            invariant
                old(self).wf(),
                self.entries == old(self).entries,
                i <= self.entries@.len(),
                forall|j: int| 0 <= j < i ==> self.entries@[j].0@ != path@,
            decreases self.entries@.len() - i,
        {
            if same_text(self.entries[i].0.as_str(), path.as_str()) {
                let ghost p = path;
                self.entries.set(i, (path, content));
                assert(forall|j: int|
                    0 <= j < self.entries@.len() ==> self.entries@[j].0@ == old(self).entries@[j].0@);
                assert(self.entries@ == old(self).entries@.update(i as int, (p, content)));
                assert forall|a: int, b: int| 0 <= a < b < self.entries().len() implies self.entries()[a].0@
                    != self.entries()[b].0@ by {
                    assert(old(self).entries()[a].0@ != old(self).entries()[b].0@);
                }
                return;
            }
            i = i + 1;
        }
        let ghost p = path;
        self.entries.push((path, content));
        assert forall|a: int, b: int| 0 <= a < b < self.entries().len() implies self.entries()[a].0@
            != self.entries()[b].0@ by {
            if b < old(self).entries().len() {
                assert(old(self).entries()[a].0@ != old(self).entries()[b].0@);
            } else {
                assert(self.entries()[b].0 == p);
                assert(old(self).entries@[a].0@ != p@);
            }
        }
    }

    /// `PACKAGE`: records the file at `path`, read as `bytes`, under the
    /// name `target`, or else under the file's own name.
    pub fn package(&mut self, path: String, target: Option<String>, bytes: &[u8]) -> (r: Result<
        (),
        InstallError,
    >)
        requires
            old(self).wf(),
        ensures
            final(self).wf(),
            r is Err <==> (target is None && file_name_of(path@) is None),
            r matches Err(e) ==> e matches InstallError::MissingSource { path: p } && p@ == path@,
            r is Err ==> final(self).entries() == old(self).entries(),
            r is Ok ==> exists|c: Content|
                #[trigger] is_packaged(c, package_name(target, path@), bytes@) && inserted(old(self).entries(), final(self).entries(), path, c),
    {
        let filename = match target {
            Some(t) => t,
            None => match file_name(path.as_str()) {
                Some(n) => n,
                None => {
                    return Err(InstallError::MissingSource { path });
                },
            },
        };
        let checksum = sha256sum(bytes);
        let content = Content::new(ContentType::Executable, filename, checksum);
        assert(is_packaged(content, package_name(target, path@), bytes@));
        self.insert(path, content);
        Ok(())
    }

    /// `PUBLISH`: marks the first record named `target` as published. The
    /// target must be a single path component, and packaged.
    pub fn publish(&mut self, target: &str) -> (r: Result<(), InstallError>)
        requires
            old(self).wf(),
        ensures
            final(self).wf(),
            r is Err ==> final(self).entries() == old(self).entries(),
            target@.contains('/') ==> (r matches Err(InstallError::InvalidPublishTarget { target: t })
                && t@ == target@),
            !target@.contains('/') && (forall|i: int|
                0 <= i < old(self).entries().len() ==> old(self).entries()[i].1.filename@
                    != target@) ==> (r matches Err(InstallError::PublishOfUnpackaged { target: t })
                && t@ == target@),
            r is Ok <==> !target@.contains('/') && exists|i: int|
                0 <= i < old(self).entries().len() && old(self).entries()[i].1.filename@
                    == target@,
            r is Ok ==> exists|i: int|
                first_named(old(self).entries(), target@, i) && final(self).entries()
                    == old(self).entries().update(
                    i,
                    (
                        old(self).entries()[i].0,
                        Content { published: true, ..old(self).entries()[i].1 },
                    ),
                ),
    {
        let chars = chars_of(target);
        let mut k: usize = 0;
        while k < chars.len()
            invariant
                old(self).wf(),
                self.entries == old(self).entries,
                chars@ == target@,
                k <= chars@.len(),
                forall|j: int| 0 <= j < k ==> chars@[j] != '/',
            decreases chars@.len() - k,
        {
            if chars[k] == '/' {
                assert(target@[k as int] == '/');
                return Err(InstallError::InvalidPublishTarget { target: target.to_owned() });
            }
            k = k + 1;
        }
        assert(!target@.contains('/'));
        let mut i: usize = 0;
        while i < self.entries.len()
            invariant
                old(self).wf(),
                !target@.contains('/'),
                self.entries == old(self).entries,
                i <= self.entries@.len(),
                forall|j: int| 0 <= j < i ==> self.entries@[j].1.filename@ != target@,
            decreases self.entries@.len() - i,
        {
            if same_text(self.entries[i].1.filename.as_str(), target) {
                assert(first_named(self.entries@, target@, i as int));
                let (p, c) = self.entries.remove(i);
                let published = Content { published: true, ..c };
                self.entries.insert(i, (p, published));
                assert(self.entries@ =~= old(self).entries@.update(i as int, (p, published)));
                return Ok(());
            }
            i = i + 1;
        }
        Err(InstallError::PublishOfUnpackaged { target: target.to_owned() })
    }

    /// The Package stage: each recorded file is copied to the blob named by
    /// its checksum.
    pub fn blob_copies(&self) -> (r: Vec<BlobCopy>)
        ensures
            r@.len() == self.entries().len(),
            forall|i: int|
                0 <= i < r@.len() ==> r@[i].from@ == self.entries()[i].0@ && r@[i].checksum@
                    == self.entries()[i].1.checksum@,
    {
        let mut out: Vec<BlobCopy> = Vec::new();
        let mut i: usize = 0;
        while i < self.entries.len()
            invariant
                i <= self.entries@.len(),
                out@.len() == i,
                forall|j: int|
                    0 <= j < i ==> out@[j].from@ == self.entries@[j].0@ && out@[j].checksum@
                        == self.entries@[j].1.checksum@,
            decreases self.entries@.len() - i,
        {
            out.push(
                BlobCopy {
                    from: self.entries[i].0.clone(),
                    checksum: self.entries[i].1.checksum.clone(),
                },
            );
            i = i + 1;
        }
        out
    }

    /// The Publish stage: a link for each published record, in order; the
    /// records that are not published get none.
    pub fn links(&self) -> (r: Vec<LinkPlan>)
        ensures
            r@.map_values(|l: LinkPlan| (l.name@, l.checksum@)) == self.entries().filter(
                |e: (String, Content)| e.1.published,
            ).map_values(|e: (String, Content)| (e.1.filename@, e.1.checksum@)),
    {
        broadcast use {Seq::lemma_filter_push, Seq::lemma_push_map_commute};

        let mut out: Vec<LinkPlan> = Vec::new();
        let mut i: usize = 0;
        while i < self.entries.len()
            invariant
                i <= self.entries@.len(),
                out@.map_values(|l: LinkPlan| (l.name@, l.checksum@)) == self.entries@.take(
                    i as int,
                ).filter(|e: (String, Content)| e.1.published).map_values(
                    |e: (String, Content)| (e.1.filename@, e.1.checksum@),
                ),
            decreases self.entries@.len() - i,
        {
            assert(self.entries@.take(i + 1) =~= self.entries@.take(i as int).push(
                self.entries@[i as int],
            ));
            let ghost pre = out@;
            let ghost e = self.entries@[i as int];
            let ghost fe = |e: (String, Content)| (e.1.filename@, e.1.checksum@);
            let ghost fl = |l: LinkPlan| (l.name@, l.checksum@);
            let ghost pub_e = |e: (String, Content)| e.1.published;
            proof {
                self.entries@.take(i as int).lemma_filter_push(e, pub_e);
            }
            if self.entries[i].1.published {
                let link = LinkPlan {
                    name: self.entries[i].1.filename.clone(),
                    checksum: self.entries[i].1.checksum.clone(),
                };
                out.push(link);
                assert(out@.map_values(fl) =~= pre.map_values(fl).push(fe(e)));
                assert(self.entries@.take(i + 1).filter(pub_e) =~= self.entries@.take(
                    i as int,
                ).filter(pub_e).push(e));
                assert(self.entries@.take(i + 1).filter(pub_e).map_values(fe)
                    =~= self.entries@.take(i as int).filter(pub_e).map_values(fe).push(fe(e)));
            } else {
                assert(self.entries@.take(i + 1).filter(pub_e) =~= self.entries@.take(
                    i as int,
                ).filter(pub_e));
            }
            i = i + 1;
        }
        assert(self.entries@.take(self.entries@.len() as int) =~= self.entries@);
        out
    }

    /// The records, in order, for the transaction.
    pub fn into_contents(self) -> (r: Vec<Content>)
        ensures
            r@ == self.entries().map_values(|e: (String, Content)| e.1),
    {
        let mut out: Vec<Content> = Vec::new();
        let mut entries = self.entries;
        let ghost all = entries@;
        while entries.len() > 0
            invariant
                entries@.len() <= all.len(),
                entries@ == all.skip(all.len() - entries@.len()),
                out@ == all.take(all.len() - entries@.len()).map_values(
                    |e: (String, Content)| e.1,
                ),
            decreases entries@.len(),
        {
            let ghost k = all.len() - entries@.len();
            let e = entries.remove(0);
            assert(all.take(k + 1) =~= all.take(k).push(e));
            assert(entries@ =~= all.skip(k + 1));
            out.push(e.1);
            assert(out@ =~= all.take(k + 1).map_values(|e: (String, Content)| e.1));
        }
        assert(all.take(all.len() as int) =~= all);
        out
    }
}

/// Packaging is a function of the file's bytes: the same bytes give the
/// same blob name, whatever the install that packages them.
pub proof fn lemma_same_bytes_same_blob(
    c1: Content,
    n1: Seq<char>,
    b1: Seq<u8>,
    c2: Content,
    n2: Seq<char>,
    b2: Seq<u8>,
)
    requires
        is_packaged(c1, n1, b1),
        is_packaged(c2, n2, b2),
        b1 == b2,
    ensures
        c1.checksum@ == c2.checksum@,
{
}

} // verus!
