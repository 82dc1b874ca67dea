//! Removing a package: which links and blobs go, so that every blob left is
//! referenced by an installed package and every link resolves to a blob.

use vstd::prelude::*;

use crate::id::{id_text, Id};
use crate::store::content::Content;
use crate::store::query::{
    find_package, installed_in, lemma_listed_iff_newest_is_install, lists, meta_id, PackageMeta,
};
use crate::store::transaction::{Transaction, TransactionKind};
use crate::text::same_text;

verus! {

broadcast use {Seq::lemma_filter_push, Seq::lemma_push_map_commute};

/// The package asked for is not installed; its identity as text.
#[derive(Debug)]
pub struct NotInstalled {
    pub id: String,
}

/// A symbolic link under `bin/`: its name and the path it points to.
pub struct Link {
    pub name: String,
    pub target: String,
}

/// Some content record of the packages `live` has the checksum `c`.
pub open spec fn is_live(live: Seq<PackageMeta>, c: Seq<char>) -> bool {
    exists|i: int, j: int|
        0 <= i < live.len() && 0 <= j < live[i].content@.len() && live[i].content@[j].checksum@
            == c
}

/// The link points at `dir/b` for some blob `b` of `blobs`.
pub open spec fn resolves(l: Link, dir: Seq<char>, blobs: Seq<Seq<char>>) -> bool {
    exists|k: int| 0 <= k < blobs.len() && l.target@ == dir + "/"@ + blobs[k]
}

pub open spec fn str_views(s: Seq<String>) -> Seq<Seq<char>> {
    s.map_values(|x: String| x@)
}

/// Takes the package `id` out of the installed list: the package and the
/// packages left. Fails when `id` is not installed.
pub fn plan_remove(installed: Vec<PackageMeta>, id: &Id) -> (r: Result<
    (PackageMeta, Vec<PackageMeta>),
    NotInstalled,
>)
    ensures
        r is Ok <==> exists|i: int| 0 <= i < installed@.len() && meta_id(installed@[i]) == id@,
        r matches Ok((m, rest)) ==> exists|i: int|
            0 <= i < installed@.len() && meta_id(installed@[i]) == id@ && (forall|j: int|
                0 <= j < i ==> meta_id(installed@[j]) != id@) && m == installed@[i] && rest@
                == installed@.remove(i),
        r matches Err(e) ==> e.id@ == id_text(id.name@, id.version@),
{
    let mut i: usize = 0;
    while i < installed.len()
        invariant
            i <= installed@.len(),
            forall|j: int| 0 <= j < i ==> meta_id(installed@[j]) != id@,
        decreases installed@.len() - i,
    {
        if same_text(installed[i].name.as_str(), id.name.as_str()) && same_text(
            installed[i].version.as_str(),
            id.version.as_str(),
        ) {
            let mut rest = installed;
            let m = rest.remove(i);
            return Ok((m, rest));
        }
        i = i + 1;
    }
    Err(NotInstalled { id: id.to_text() })
}

/// The names under `bin/` that the package published.
pub fn published_names(m: &PackageMeta) -> (r: Vec<String>)
    ensures
        str_views(r@) == m.content@.filter(|c: Content| c.published).map_values(
            |c: Content| c.filename@,
        ),
{
    let mut names: Vec<String> = Vec::new();
    let mut i: usize = 0;
    while i < m.content.len()
        invariant
            i <= m.content@.len(),
            str_views(names@) == m.content@.take(i as int).filter(|c: Content| c.published).map_values(
                |c: Content| c.filename@,
            ),
        decreases m.content@.len() - i,
    {
        assert(m.content@.take(i + 1) =~= m.content@.take(i as int).push(m.content@[i as int]));
        if m.content[i].published {
            names.push(m.content[i].filename.clone());
        }
        i = i + 1;
    }
    assert(m.content@.take(m.content@.len() as int) =~= m.content@);
    names
}

fn is_referenced(live: &Vec<PackageMeta>, name: &str) -> (r: bool)
    ensures
        r == is_live(live@, name@),
{
    let mut i: usize = 0;
    while i < live.len()
        invariant
            i <= live@.len(),
            forall|a: int, b: int|
                0 <= a < i && 0 <= b < live@[a].content@.len() ==> live@[a].content@[b].checksum@
                    != name@,
        decreases live@.len() - i,
    {
        let mut j: usize = 0;
        while j < live[i].content.len()
            invariant
                i < live@.len(),
                j <= live@[i as int].content@.len(),
                forall|b: int| 0 <= b < j ==> live@[i as int].content@[b].checksum@ != name@,
            decreases live@[i as int].content@.len() - j,
        {
            if same_text(live[i].content[j].checksum.as_str(), name) {
                return true;
            }
            j = j + 1;
        }
        i = i + 1;
    }
    false
}

/// The entries of `content/` that no package of `live` references.
pub fn dangling_blobs(live: &Vec<PackageMeta>, entries: &Vec<String>) -> (r: Vec<String>)
    ensures
        str_views(r@) == str_views(entries@).filter(|e: Seq<char>| !is_live(live@, e)),
{
    let mut out: Vec<String> = Vec::new();
    let mut i: usize = 0;
    while i < entries.len()
        invariant
            i <= entries@.len(),
            str_views(out@) == str_views(entries@.take(i as int)).filter(
                |e: Seq<char>| !is_live(live@, e),
            ),
        decreases entries@.len() - i,
    {
        assert(entries@.take(i + 1) =~= entries@.take(i as int).push(entries@[i as int]));
        if !is_referenced(live, entries[i].as_str()) {
            out.push(entries[i].clone());
        }
        i = i + 1;
    }
    assert(entries@.take(entries@.len() as int) =~= entries@);
    out
}

fn link_resolves(l: &Link, dir: &str, blobs: &Vec<String>) -> (r: bool)
    ensures
        r == resolves(*l, dir@, str_views(blobs@)),
{
    let mut k: usize = 0;
    while k < blobs.len()
        invariant
            k <= blobs@.len(),
            forall|a: int| 0 <= a < k ==> l.target@ != dir@ + "/"@ + blobs@[a]@,
        decreases blobs@.len() - k,
    {
        let path = dir.to_owned().concat("/").concat(blobs[k].as_str());
        if same_text(l.target.as_str(), path.as_str()) {
            assert(str_views(blobs@)[k as int] == blobs@[k as int]@);
            return true;
        }
        k = k + 1;
    }
    false
}

/// The links that do not point at a blob of `blobs` in `content_dir`.
pub fn stale_links(links: &Vec<Link>, content_dir: &str, blobs: &Vec<String>) -> (r: Vec<String>)
    ensures
        str_views(r@) == links@.filter(
            |l: Link| !resolves(l, content_dir@, str_views(blobs@)),
        ).map_values(|l: Link| l.name@),
{
    let mut out: Vec<String> = Vec::new();
    let mut i: usize = 0;
    while i < links.len()
        invariant
            i <= links@.len(),
            str_views(out@) == links@.take(i as int).filter(
                |l: Link| !resolves(l, content_dir@, str_views(blobs@)),
            ).map_values(|l: Link| l.name@),
        decreases links@.len() - i,
    {
        assert(links@.take(i + 1) =~= links@.take(i as int).push(links@[i as int]));
        if !link_resolves(&links[i], content_dir, blobs) {
            out.push(links[i].name.clone());
        }
        i = i + 1;
    }
    assert(links@.take(links@.len() as int) =~= links@);
    out
}

/// Deleting the dangling blobs leaves exactly the blobs that the live
/// packages reference, provided each of those was present.
pub proof fn lemma_gc_leaves_live_blobs(live: Seq<PackageMeta>, entries: Seq<Seq<char>>)
    requires
        forall|c: Seq<char>| is_live(live, c) ==> entries.contains(c),
    ensures
        forall|c: Seq<char>|
            entries.contains(c) && !entries.filter(|e: Seq<char>| !is_live(live, e)).contains(c)
                <==> is_live(live, c),
{
    assert forall|c: Seq<char>|
        entries.contains(c) && !entries.filter(|e: Seq<char>| !is_live(live, e)).contains(c)
            <==> is_live(live, c) by {
        let p = |e: Seq<char>| !is_live(live, e);
        if entries.filter(p).contains(c) {
            let k = choose|k: int| 0 <= k < entries.filter(p).len() && entries.filter(p)[k] == c;
            entries.filter_lemma(p);
            assert(p(entries.filter(p)[k]));
        }
        if entries.contains(c) && !is_live(live, c) {
            entries.lemma_filter_contains_rev(p, c);
        }
    }
}

/// Once the stale links are removed, every link left points at a blob.
pub proof fn lemma_links_left_resolve(
    links: Seq<Link>,
    content_dir: Seq<char>,
    blobs: Seq<Seq<char>>,
)
    ensures
        forall|i: int|
            0 <= i < links.len() && !links.filter(
                |l: Link| !resolves(l, content_dir, blobs),
            ).map_values(|l: Link| l.name@).contains(links[i].name@) ==> resolves(
                links[i],
                content_dir,
                blobs,
            ),
{
    assert forall|i: int|
        0 <= i < links.len() && !links.filter(
            |l: Link| !resolves(l, content_dir, blobs),
        ).map_values(|l: Link| l.name@).contains(links[i].name@) implies resolves(
        links[i],
        content_dir,
        blobs,
    ) by {
        let p = |l: Link| !resolves(l, content_dir, blobs);
        if !resolves(links[i], content_dir, blobs) {
            assert(links.contains(links[i]));
            links.lemma_filter_contains_rev(p, links[i]);
            let f = links.filter(p);
            let k = choose|k: int| 0 <= k < f.len() && f[k] == links[i];
            assert(f.map_values(|l: Link| l.name@)[k] == links[i].name@);
        }
    }
}

/// Once the removal of a package is recorded, the package is no longer
/// listed, so removing it again fails.
pub proof fn lemma_removed_is_not_listed(
    chain: Seq<Transaction>,
    tx: Transaction,
    id: (Seq<char>, Seq<char>),
)
    requires
        tx.kind matches TransactionKind::RemovePackage { package_id } && package_id@ == id,
    ensures
        !lists(installed_in(seq![tx] + chain), id),
{
    let v = seq![tx] + chain;
    assert(v[0] == tx);
    assert(find_package(v, id) is None);
    lemma_listed_iff_newest_is_install(v, id);
}

/// What `content/` and `bin/` hold: the names of the blobs, and for each
/// link its name and the blob it points at.
pub struct Layout {
    pub blobs: Set<Seq<char>>,
    pub links: Map<Seq<char>, Seq<char>>,
}

/// The links that publishing the records `c` makes, from each published
/// record's name to its blob; of two records with one name, the later wins.
pub open spec fn links_of(c: Seq<Content>) -> Map<Seq<char>, Seq<char>>
    decreases c.len(),
{
    if c.len() == 0 {
        Map::empty()
    } else {
        let m = links_of(c.drop_last());
        if c.last().published {
            m.insert(c.last().filename@, c.last().checksum@)
        } else {
            m
        }
    }
}

/// The blobs of the records `c`.
pub open spec fn blobs_of(c: Seq<Content>) -> Set<Seq<char>> {
    Set::new(|b: Seq<char>| exists|i: int| 0 <= i < c.len() && c[i].checksum@ == b)
}

/// The names that the records `c` publish.
pub open spec fn published_of(c: Seq<Content>) -> Set<Seq<char>> {
    Set::new(
        |n: Seq<char>| exists|i: int| 0 <= i < c.len() && c[i].published && c[i].filename@ == n,
    )
}

/// The layout once a package with the records `c` is packaged and
/// published.
pub open spec fn after_install(l: Layout, c: Seq<Content>) -> Layout {
    Layout { blobs: l.blobs + blobs_of(c), links: l.links.union_prefer_right(links_of(c)) }
}

/// The layout once the package with the records `c` is removed, `rest`
/// being the packages left: its links go, then the blobs that no package
/// of `rest` references, then the links to blobs no longer there.
pub open spec fn after_remove(l: Layout, c: Seq<Content>, rest: Seq<PackageMeta>) -> Layout {
    let blobs = l.blobs.filter(|b: Seq<char>| is_live(rest, b));
    let links = l.links.remove_keys(published_of(c));
    Layout {
        blobs,
        links: links.restrict(
            Set::new(|n: Seq<char>| links.dom().contains(n) && blobs.contains(links[n])),
        ),
    }
}

proof fn lemma_links_of_dom(c: Seq<Content>)
    ensures
        links_of(c).dom() == published_of(c),
    decreases c.len(),
{
    if c.len() > 0 {
        let u = c.drop_last();
        lemma_links_of_dom(u);
        assert forall|n: Seq<char>| published_of(c).contains(n) implies links_of(c).dom().contains(
            n,
        ) by {
            let i = choose|i: int| 0 <= i < c.len() && c[i].published && c[i].filename@ == n;
            if i < c.len() - 1 {
                assert(u[i] == c[i]);
                assert(published_of(u).contains(n));
            }
        }
        assert forall|n: Seq<char>| links_of(c).dom().contains(n) implies published_of(c).contains(
            n,
        ) by {
            if published_of(u).contains(n) {
                let i = choose|i: int| 0 <= i < u.len() && u[i].published && u[i].filename@ == n;
                assert(c[i] == u[i]);
            } else {
                assert(c[c.len() - 1].filename@ == n);
            }
        }
        assert(links_of(c).dom() =~= published_of(c));
    }
}

/// Installing a package, removing it and installing it again leaves
/// `content/` and `bin/` as one install does, from any layout where the
/// blobs are exactly those the other packages reference and every link
/// points at a blob.
pub proof fn lemma_reinstall_same_layout(l: Layout, c: Seq<Content>, rest: Seq<PackageMeta>)
    requires
        l.blobs == Set::new(|b: Seq<char>| is_live(rest, b)),
        forall|n: Seq<char>| l.links.dom().contains(n) ==> l.blobs.contains(l.links[n]),
    ensures
        after_install(after_remove(after_install(l, c), c, rest), c) == after_install(l, c),
{
    lemma_links_of_dom(c);
    let once = after_install(l, c);
    let removed = after_remove(once, c, rest);
    let twice = after_install(removed, c);
    assert(removed.blobs =~= l.blobs);
    let pl = links_of(c);
    let kept = once.links.remove_keys(published_of(c));
    assert forall|n: Seq<char>| kept.dom().contains(n) implies removed.blobs.contains(kept[n]) by {
        assert(l.links.dom().contains(n));
        assert(kept[n] == l.links[n]);
    }
    assert(removed.links =~= kept);
    assert(twice.blobs =~= once.blobs);
    assert(twice.links =~= once.links);
}

} // verus!
