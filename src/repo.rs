//! Repositories of manifests: where they are fetched from and how they are
//! recorded.

use vstd::prelude::*;

use crate::id::Id;
use crate::package::Package;
use crate::store::query::RepositoryMeta;
use crate::text::{chars_of, ends_with, has_suffix, same_text};

verus! {

/// The Git remote of the repository `name` (`owner/repo`).
pub fn git_remote_for(name: &str) -> (r: String)
    ensures
        r@ == "https://github.com/"@ + name@ + ".git"@,
{
    String::from_str("https://github.com/").concat(name).concat(".git")
}

/// The short form of a commit id that a repository's version records: its
/// first seven characters, or all of it when shorter.
pub fn short_version(commit: &str) -> (r: String)
    ensures
        r@ == if commit@.len() <= 7 {
            commit@
        } else {
            commit@.take(7)
        },
{
    let n = commit.unicode_len();
    if n <= 7 {
        commit.to_owned()
    } else {
        let r = commit.substring_char(0, 7).to_owned();
        assert(commit@.subrange(0, 7) =~= commit@.take(7));
        r
    }
}

/// `s` with each `/` replaced by `_`.
pub open spec fn flat_name(s: Seq<char>) -> Seq<char> {
    s.map_values(|c: char| if c == '/' { '_' } else { c })
}

/// Relies on `String::push`: appends one character.
#[verifier::external_body]
fn push_char(s: &mut String, c: char)
    ensures
        final(s)@ == old(s)@.push(c),
{
    s.push(c)
}

/// The file under `repos/` that caches the repository `name`.
pub fn pack_file_name(name: &str) -> (r: String)
    ensures
        r@ == flat_name(name@),
{
    let chars = chars_of(name);
    let mut out = String::new();
    let mut i: usize = 0;
    while i < chars.len()
        invariant
            chars@ == name@,
            i <= chars@.len(),
            out@ == flat_name(name@.take(i as int)),
        decreases chars@.len() - i,
    {
        let c = chars[i];
        push_char(&mut out, if c == '/' { '_' } else { c });
        assert(flat_name(name@.take(i + 1)) =~= flat_name(name@.take(i as int)).push(
            if c == '/' { '_' } else { c },
        ));
        i = i + 1;
    }
    assert(name@.take(chars@.len() as int) =~= name@);
    out
}

/// Whether a file of a repository holds a manifest.
pub fn is_manifest_path(path: &str) -> (r: bool)
    ensures
        r == has_suffix(path@, ".dhall"@),
{
    ends_with(path, ".dhall")
}

/// The first package named `id` over all repositories, in order.
pub fn search_package(repos: Vec<RepositoryMeta>, id: &Id) -> (r: Option<Package>)
    ensures
        match r {
            Some(p) => exists|i: int, j: int|
                0 <= i < repos@.len() && 0 <= j < repos@[i].packages@.len() && p
                    == repos@[i].packages@[j] && p.name@ == id.name@ && p.version@ == id.version@
                    && (forall|a: int, b: int|
                    0 <= a < repos@.len() && 0 <= b < repos@[a].packages@.len() && (a < i || (a
                        == i && b < j)) ==> !(repos@[a].packages@[b].name@ == id.name@
                        && repos@[a].packages@[b].version@ == id.version@)),
            None => forall|i: int, j: int|
                0 <= i < repos@.len() && 0 <= j < repos@[i].packages@.len() ==> !(
                repos@[i].packages@[j].name@ == id.name@ && repos@[i].packages@[j].version@
                    == id.version@),
        },
{
    let ghost all = repos@;
    let mut rest = repos;
    let mut i: usize = 0;
    while i < rest.len()
        invariant
            rest@ == all,
            all == repos@,
            i <= all.len(),
            forall|a: int, b: int|
                0 <= a < i && 0 <= b < all[a].packages@.len() ==> !(all[a].packages@[b].name@
                    == id.name@ && all[a].packages@[b].version@ == id.version@),
        decreases all.len() - i,
    {
        let mut j: usize = 0;
        while j < rest[i].packages.len()
            invariant
                rest@ == all,
                all == repos@,
                i < all.len(),
                j <= all[i as int].packages@.len(),
                forall|b: int|
                    0 <= b < j ==> !(all[i as int].packages@[b].name@ == id.name@
                        && all[i as int].packages@[b].version@ == id.version@),
                forall|a: int, b: int|
                    0 <= a < i && 0 <= b < all[a].packages@.len() ==> !(all[a].packages@[b].name@
                        == id.name@ && all[a].packages@[b].version@ == id.version@),
            decreases all[i as int].packages@.len() - j,
        {
            if same_text(rest[i].packages[j].name.as_str(), id.name.as_str()) && same_text(
                rest[i].packages[j].version.as_str(),
                id.version.as_str(),
            ) {
                let mut repo = rest.remove(i);
                let p = repo.packages.remove(j);
                assert(p == all[i as int].packages@[j as int]);
                assert forall|a: int, b: int|
                    0 <= a < all.len() && 0 <= b < all[a].packages@.len() && (a < i || (a == i
                        && b < j)) implies !(all[a].packages@[b].name@ == id.name@
                    && all[a].packages@[b].version@ == id.version@) by {}
                return Some(p);
            }
            j = j + 1;
        }
        i = i + 1;
    }
    None
}

} // verus!
