//! Views of the chain: installed packages and added repositories.
//!
//! The chain is walked newest first. Each view is a visitor that is handed
//! the transactions in walk order and says whether the walk should go on;
//! its result is stated over the sequence of transactions it was handed.

use vstd::prelude::*;

use crate::id::Id;
use crate::package::Package;
use crate::store::content::Content;
use crate::store::transaction::{Transaction, TransactionKind};
use crate::text::same_text;

verus! {

/// An installed package, as its newest install transaction recorded it.
#[derive(Debug)]
pub struct PackageMeta {
    pub content: Vec<Content>,
    pub name: String,
    pub version: String,
    pub created_at: u64,
}

/// An added repository, as its newest add transaction recorded it.
#[derive(Debug)]
pub struct RepositoryMeta {
    pub name: String,
    pub git_remote: String,
    pub packages: Vec<Package>,
    pub created_at: u64,
}

/// The UTC time `secs` seconds after the Unix epoch in RFC 3339 form, when
/// that time is representable.
pub uninterp spec fn utc_rfc3339(secs: int) -> Option<Seq<char>>;

/// Relies on chrono's `DateTime::<Utc>::from_timestamp` (none outside its
/// range) and `DateTime::to_rfc3339`.
#[verifier::external_body]
fn rfc3339(secs: i64) -> (r: Option<String>)
    ensures
        match r {
            Some(t) => utc_rfc3339(secs as int) == Some(t@),
            None => utc_rfc3339(secs as int) is None,
        },
{
    match chrono::DateTime::from_timestamp(secs, 0) {
        Some(t) => Some(t.to_rfc3339()),
        None => None,
    }
}

/// `created_at` as an RFC 3339 time, when it is representable.
pub open spec fn time_text(created_at: u64) -> Option<Seq<char>> {
    if created_at <= i64::MAX {
        utc_rfc3339(created_at as int)
    } else {
        None
    }
}

fn time_of(created_at: u64) -> (r: Option<String>)
    ensures
        match r {
            Some(t) => time_text(created_at) == Some(t@),
            None => time_text(created_at) is None,
        },
{
    if created_at <= i64::MAX as u64 {
        rfc3339(created_at as i64)
    } else {
        None
    }
}

impl PackageMeta {
    /// When the package was installed, in RFC 3339 form.
    pub fn installed_at(&self) -> (r: Option<String>)
        ensures
            match r {
                Some(t) => time_text(self.created_at) == Some(t@),
                None => time_text(self.created_at) is None,
            },
    {
        time_of(self.created_at)
    }
}

impl RepositoryMeta {
    /// When the repository was added, in RFC 3339 form.
    pub fn added_at(&self) -> (r: Option<String>)
        ensures
            match r {
                Some(t) => time_text(self.created_at) == Some(t@),
                None => time_text(self.created_at) is None,
            },
    {
        time_of(self.created_at)
    }
}

/// The package that `tx` installs or removes, if any.
pub open spec fn package_of(tx: Transaction) -> Option<(Seq<char>, Seq<char>)> {
    match tx.kind {
        TransactionKind::InstallPackage { package_id, .. } => Some(package_id@),
        TransactionKind::RemovePackage { package_id } => Some(package_id@),
        _ => None,
    }
}

/// The repository that `tx` adds or removes, if any.
pub open spec fn repository_of(tx: Transaction) -> Option<Seq<char>> {
    match tx.kind {
        TransactionKind::AddRepository { name, .. } => Some(name@),
        TransactionKind::RemoveRepository { name } => Some(name@),
        _ => None,
    }
}

/// The packages that some transaction of `v` installs or removes.
pub open spec fn touched_packages(v: Seq<Transaction>) -> Set<(Seq<char>, Seq<char>)> {
    Set::new(|id: (Seq<char>, Seq<char>)| exists|i: int| 0 <= i < v.len() && package_of(v[i]) == Some(id))
}

/// The repositories that some transaction of `v` adds or removes.
pub open spec fn touched_repositories(v: Seq<Transaction>) -> Set<Seq<char>> {
    Set::new(|n: Seq<char>| exists|i: int| 0 <= i < v.len() && repository_of(v[i]) == Some(n))
}

/// The installed packages that a walk handing over `v` finds: each package
/// whose first transaction in `v` installs it, in walk order.
pub open spec fn installed_in(v: Seq<Transaction>) -> Seq<PackageMeta>
    decreases v.len(),
{
    if v.len() == 0 {
        seq![]
    } else {
        let p = installed_in(v.drop_last());
        let tx = v.last();
        match tx.kind {
            TransactionKind::InstallPackage { package_id, content } => {
                if touched_packages(v.drop_last()).contains(package_id@) {
                    p
                } else {
                    p.push(
                        PackageMeta {
                            content,
                            name: package_id.name,
                            version: package_id.version,
                            created_at: tx.created_at,
                        },
                    )
                }
            },
            _ => p,
        }
    }
}

/// The added repositories that a walk handing over `v` finds.
pub open spec fn repositories_in(v: Seq<Transaction>) -> Seq<RepositoryMeta>
    decreases v.len(),
{
    if v.len() == 0 {
        seq![]
    } else {
        let p = repositories_in(v.drop_last());
        let tx = v.last();
        match tx.kind {
            TransactionKind::AddRepository { name, git_remote, packages, .. } => {
                if touched_repositories(v.drop_last()).contains(name@) {
                    p
                } else {
                    p.push(RepositoryMeta { name, git_remote, packages, created_at: tx.created_at })
                }
            },
            _ => p,
        }
    }
}

/// The newest install of `id` in the chain `v` (newest first), unless a
/// removal of it comes first.
pub open spec fn find_package(v: Seq<Transaction>, id: (Seq<char>, Seq<char>)) -> Option<Transaction>
    decreases v.len(),
{
    if v.len() == 0 {
        None
    } else if package_of(v[0]) == Some(id) {
        if v[0].kind is InstallPackage {
            Some(v[0])
        } else {
            None
        }
    } else {
        find_package(v.drop_first(), id)
    }
}

/// The newest addition of the repository `name` in the chain `v`, unless a
/// removal of it comes first.
pub open spec fn find_repository(v: Seq<Transaction>, name: Seq<char>) -> Option<RepositoryMeta>
    decreases v.len(),
{
    if v.len() == 0 {
        None
    } else if repository_of(v[0]) == Some(name) {
        match v[0].kind {
            TransactionKind::AddRepository { name, git_remote, packages, .. } => Some(
                RepositoryMeta { name, git_remote, packages, created_at: v[0].created_at },
            ),
            _ => None,
        }
    } else {
        find_repository(v.drop_first(), name)
    }
}

proof fn lemma_find_package_extend(v: Seq<Transaction>, tx: Transaction, id: (Seq<char>, Seq<char>))
    ensures
        !touched_packages(v).contains(id) ==> find_package(v.push(tx), id) == find_package(
            seq![tx],
            id,
        ),
        touched_packages(v).contains(id) ==> find_package(v.push(tx), id) == find_package(v, id),
    decreases v.len(),
{
    if v.len() > 0 {
        assert(v.push(tx).drop_first() =~= v.drop_first().push(tx));
        if package_of(v[0]) != Some(id) {
            if touched_packages(v.drop_first()).contains(id) {
                let i = choose|i: int|
                    0 <= i < v.drop_first().len() && package_of(v.drop_first()[i]) == Some(id);
                assert(package_of(v[i + 1]) == Some(id));
            }
            if touched_packages(v).contains(id) {
                let i = choose|i: int| 0 <= i < v.len() && package_of(v[i]) == Some(id);
                assert(package_of(v.drop_first()[i - 1]) == Some(id));
                assert(touched_packages(v.drop_first()).contains(id));
            }
            lemma_find_package_extend(v.drop_first(), tx, id);
        } else {
            assert(touched_packages(v).contains(id));
        }
    } else {
        assert(v.push(tx) =~= seq![tx]);
    }
}

proof fn lemma_find_repository_extend(v: Seq<Transaction>, tx: Transaction, name: Seq<char>)
    ensures
        !touched_repositories(v).contains(name) ==> find_repository(v.push(tx), name)
            == find_repository(seq![tx], name),
        touched_repositories(v).contains(name) ==> find_repository(v.push(tx), name)
            == find_repository(v, name),
    decreases v.len(),
{
    if v.len() > 0 {
        assert(v.push(tx).drop_first() =~= v.drop_first().push(tx));
        if repository_of(v[0]) != Some(name) {
            if touched_repositories(v).contains(name) {
                let i = choose|i: int| 0 <= i < v.len() && repository_of(v[i]) == Some(name);
                assert(repository_of(v.drop_first()[i - 1]) == Some(name));
                assert(touched_repositories(v.drop_first()).contains(name));
            } else {
                assert forall|i: int| 0 <= i < v.drop_first().len() implies repository_of(v.drop_first()[i]) != Some(name) by {
                    assert(repository_of(v[i + 1]) != Some(name));
                }
            }
            lemma_find_repository_extend(v.drop_first(), tx, name);
        } else {
            assert(touched_repositories(v).contains(name));
        }
    } else {
        assert(v.push(tx) =~= seq![tx]);
    }
}

proof fn lemma_touched_packages_push(v: Seq<Transaction>, tx: Transaction)
    ensures
        touched_packages(v.push(tx)) == match package_of(tx) {
            Some(id) => touched_packages(v).insert(id),
            None => touched_packages(v),
        },
{
    let w = v.push(tx);
    assert forall|id| touched_packages(w).contains(id) implies (match package_of(tx) {
        Some(t) => touched_packages(v).insert(t),
        None => touched_packages(v),
    }).contains(id) by {
        let i = choose|i: int| 0 <= i < w.len() && package_of(w[i]) == Some(id);
        if i < v.len() {
            assert(package_of(v[i]) == Some(id));
        }
    }
    assert forall|id| (match package_of(tx) {
        Some(t) => touched_packages(v).insert(t),
        None => touched_packages(v),
    }).contains(id) implies touched_packages(w).contains(id) by {
        if touched_packages(v).contains(id) {
            let i = choose|i: int| 0 <= i < v.len() && package_of(v[i]) == Some(id);
            assert(package_of(w[i]) == Some(id));
        } else {
            assert(package_of(w[v.len() as int]) == Some(id));
        }
    }
    assert(touched_packages(w) =~= match package_of(tx) {
        Some(t) => touched_packages(v).insert(t),
        None => touched_packages(v),
    });
}

proof fn lemma_touched_repositories_push(v: Seq<Transaction>, tx: Transaction)
    ensures
        touched_repositories(v.push(tx)) == match repository_of(tx) {
            Some(n) => touched_repositories(v).insert(n),
            None => touched_repositories(v),
        },
{
    let w = v.push(tx);
    assert forall|n| touched_repositories(w).contains(n) implies (match repository_of(tx) {
        Some(t) => touched_repositories(v).insert(t),
        None => touched_repositories(v),
    }).contains(n) by {
        let i = choose|i: int| 0 <= i < w.len() && repository_of(w[i]) == Some(n);
        if i < v.len() {
            assert(repository_of(v[i]) == Some(n));
        }
    }
    assert forall|n| (match repository_of(tx) {
        Some(t) => touched_repositories(v).insert(t),
        None => touched_repositories(v),
    }).contains(n) implies touched_repositories(w).contains(n) by {
        if touched_repositories(v).contains(n) {
            let i = choose|i: int| 0 <= i < v.len() && repository_of(v[i]) == Some(n);
            assert(repository_of(w[i]) == Some(n));
        } else {
            assert(repository_of(w[v.len() as int]) == Some(n));
        }
    }
    assert(touched_repositories(w) =~= match repository_of(tx) {
        Some(t) => touched_repositories(v).insert(t),
        None => touched_repositories(v),
    });
}

proof fn lemma_ids_push(m: Seq<Id>, x: Id, id: (Seq<char>, Seq<char>))
    ensures
        (exists|i: int| 0 <= i < m.push(x).len() && m.push(x)[i]@ == id) <==> ((exists|i: int|
            0 <= i < m.len() && m[i]@ == id) || x@ == id),
{
    if x@ == id {
        assert(m.push(x)[m.len() as int]@ == id);
    }
    if exists|i: int| 0 <= i < m.len() && m[i]@ == id {
        let i = choose|i: int| 0 <= i < m.len() && m[i]@ == id;
        assert(m.push(x)[i]@ == id);
    }
}

proof fn lemma_names_push(m: Seq<String>, x: String, n: Seq<char>)
    ensures
        (exists|i: int| 0 <= i < m.push(x).len() && m.push(x)[i]@ == n) <==> ((exists|i: int|
            0 <= i < m.len() && m[i]@ == n) || x@ == n),
{
    if x@ == n {
        assert(m.push(x)[m.len() as int]@ == n);
    }
    if exists|i: int| 0 <= i < m.len() && m[i]@ == n {
        let i = choose|i: int| 0 <= i < m.len() && m[i]@ == n;
        assert(m.push(x)[i]@ == n);
    }
}

fn contains_id(ids: &Vec<Id>, id: &Id) -> (r: bool)
    ensures
        r == exists|i: int| 0 <= i < ids@.len() && ids@[i]@ == id@,
{
    let mut i: usize = 0;
    while i < ids.len()
        invariant
            i <= ids@.len(),
            forall|j: int| 0 <= j < i ==> ids@[j]@ != id@,
        decreases ids@.len() - i,
    {
        if ids[i] == *id {
            return true;
        }
        i = i + 1;
    }
    false
}

fn contains_name(names: &Vec<String>, name: &str) -> (r: bool)
    ensures
        r == exists|i: int| 0 <= i < names@.len() && names@[i]@ == name@,
{
    let mut i: usize = 0;
    while i < names.len()
        invariant
            i <= names@.len(),
            forall|j: int| 0 <= j < i ==> names@[j]@ != name@,
        decreases names@.len() - i,
    {
        if same_text(names[i].as_str(), name) {
            return true;
        }
        i = i + 1;
    }
    false
}

/// Collects the installed packages over a walk of the chain.
pub struct InstalledScan {
    marked: Vec<Id>,
    packages: Vec<PackageMeta>,
    visited: Ghost<Seq<Transaction>>,
}

impl InstalledScan {
    /// The transactions handed over so far, in walk order.
    pub closed spec fn visited(&self) -> Seq<Transaction> {
        self.visited@
    }

    pub closed spec fn wf(&self) -> bool {
        &&& self.packages@ == installed_in(self.visited@)
        &&& forall|id|
            touched_packages(self.visited@).contains(id) <==> exists|i: int|
                0 <= i < self.marked@.len() && self.marked@[i]@ == id
    }

    pub fn new() -> (r: InstalledScan)
        ensures
            r.wf(),
            r.visited() == Seq::<Transaction>::empty(),
    {
        InstalledScan { marked: Vec::new(), packages: Vec::new(), visited: Ghost(Seq::empty()) }
    }

    /// Takes the next transaction of the walk; the walk always goes on.
    pub fn visit(&mut self, tx: Transaction) -> (r: bool)
        requires
            old(self).wf(),
        ensures
            final(self).wf(),
            final(self).visited() == old(self).visited().push(tx),
            r,
    {
        let ghost v = self.visited@;
        let ghost t = tx;
        let ghost m0 = self.marked@;
        let ghost mut added: Option<Id> = None;
        proof {
            lemma_touched_packages_push(v, tx);
            assert(v.push(t).drop_last() =~= v);
        }
        let created_at = tx.created_at;
        match tx.kind {
            TransactionKind::InstallPackage { package_id, content } => {
                if !contains_id(&self.marked, &package_id) {
                    let kept = package_id.duplicate();
                    proof {
                        added = Some(kept);
                    }
                    self.marked.push(kept);
                    self.packages.push(
                        PackageMeta {
                            content,
                            name: package_id.name,
                            version: package_id.version,
                            created_at,
                        },
                    );
                }
            },
            TransactionKind::RemovePackage { package_id } => {
                if !contains_id(&self.marked, &package_id) {
                    proof {
                        added = Some(package_id);
                    }
                    self.marked.push(package_id);
                }
            },
            _ => {},
        }
        self.visited = Ghost(v.push(t));
        assert(match added {
            Some(x) => self.marked@ == m0.push(x) && package_of(t) == Some(x@),
            None => self.marked@ == m0,
        });
        assert(added is None ==> match package_of(t) {
            Some(pid) => touched_packages(v).contains(pid),
            None => true,
        });
        proof {
            let w = v.push(t);
            assert forall|id|
                touched_packages(w).contains(id) <==> exists|i: int|
                    0 <= i < self.marked@.len() && self.marked@[i]@ == id by {
                assert(touched_packages(w).contains(id) == (touched_packages(v).contains(id)
                    || package_of(t) == Some(id)));
                assert(touched_packages(v).contains(id) <==> exists|i: int|
                    0 <= i < m0.len() && m0[i]@ == id);
                match added {
                    Some(x) => {
                        lemma_ids_push(m0, x, id);
                    },
                    None => {},
                }
            }
        }
        true
    }

    /// The installed packages found, in walk order.
    pub fn finish(self) -> (r: Vec<PackageMeta>)
        requires
            self.wf(),
        ensures
            r@ == installed_in(self.visited()),
    {
        self.packages
    }
}

/// Collects the added repositories over a walk of the chain.
pub struct RepositoryScan {
    marked: Vec<String>,
    repositories: Vec<RepositoryMeta>,
    visited: Ghost<Seq<Transaction>>,
}

impl RepositoryScan {
    pub closed spec fn visited(&self) -> Seq<Transaction> {
        self.visited@
    }

    pub closed spec fn wf(&self) -> bool {
        &&& self.repositories@ == repositories_in(self.visited@)
        &&& forall|n|
            touched_repositories(self.visited@).contains(n) <==> exists|i: int|
                0 <= i < self.marked@.len() && self.marked@[i]@ == n
    }

    pub fn new() -> (r: RepositoryScan)
        ensures
            r.wf(),
            r.visited() == Seq::<Transaction>::empty(),
    {
        RepositoryScan { marked: Vec::new(), repositories: Vec::new(), visited: Ghost(Seq::empty()) }
    }

    /// Takes the next transaction of the walk; the walk always goes on.
    pub fn visit(&mut self, tx: Transaction) -> (r: bool)
        requires
            old(self).wf(),
        ensures
            final(self).wf(),
            final(self).visited() == old(self).visited().push(tx),
            r,
    {
        let ghost v = self.visited@;
        let ghost t = tx;
        let ghost m0 = self.marked@;
        let ghost mut added: Option<String> = None;
        proof {
            lemma_touched_repositories_push(v, tx);
            assert(v.push(t).drop_last() =~= v);
        }
        let created_at = tx.created_at;
        match tx.kind {
            TransactionKind::AddRepository { name, git_remote, packages, .. } => {
                if !contains_name(&self.marked, name.as_str()) {
                    let kept = name.clone();
                    proof {
                        added = Some(kept);
                    }
                    self.marked.push(kept);
                    self.repositories.push(
                        RepositoryMeta { name, git_remote, packages, created_at },
                    );
                }
            },
            TransactionKind::RemoveRepository { name } => {
                if !contains_name(&self.marked, name.as_str()) {
                    proof {
                        added = Some(name);
                    }
                    self.marked.push(name);
                }
            },
            _ => {},
        }
        self.visited = Ghost(v.push(t));
        assert(match added {
            Some(x) => self.marked@ == m0.push(x) && repository_of(t) == Some(x@),
            None => self.marked@ == m0,
        });
        assert(added is None ==> match repository_of(t) {
            Some(n) => touched_repositories(v).contains(n),
            None => true,
        });
        proof {
            let w = v.push(t);
            assert forall|n|
                touched_repositories(w).contains(n) <==> exists|i: int|
                    0 <= i < self.marked@.len() && self.marked@[i]@ == n by {
                assert(touched_repositories(w).contains(n) == (touched_repositories(v).contains(n)
                    || repository_of(t) == Some(n)));
                assert(touched_repositories(v).contains(n) <==> exists|i: int|
                    0 <= i < m0.len() && m0[i]@ == n);
                match added {
                    Some(x) => {
                        lemma_names_push(m0, x, n);
                    },
                    None => {},
                }
            }
        }
        true
    }

    /// The added repositories found, in walk order.
    pub fn finish(self) -> (r: Vec<RepositoryMeta>)
        requires
            self.wf(),
        ensures
            r@ == repositories_in(self.visited()),
    {
        self.repositories
    }
}

/// Looks for the newest install of one package over a walk of the chain.
pub struct PackageLookup {
    id: Id,
    found: Option<Transaction>,
    done: bool,
    visited: Ghost<Seq<Transaction>>,
}

impl PackageLookup {
    pub closed spec fn visited(&self) -> Seq<Transaction> {
        self.visited@
    }

    /// The package looked for.
    pub closed spec fn target(&self) -> (Seq<char>, Seq<char>) {
        self.id@
    }

    /// Whether the transactions handed over settle the answer.
    pub closed spec fn settled(&self) -> bool {
        self.done
    }

    pub closed spec fn wf(&self) -> bool {
        &&& self.done <==> touched_packages(self.visited@).contains(self.id@)
        &&& self.found == find_package(self.visited@, self.id@)
        &&& !self.done ==> self.found is None
    }

    pub fn new(id: Id) -> (r: PackageLookup)
        ensures
            r.wf(),
            r.visited() == Seq::<Transaction>::empty(),
            r.target() == id@,
            !r.settled(),
    {
        PackageLookup { id, found: None, done: false, visited: Ghost(Seq::empty()) }
    }

    /// Takes the next transaction of the walk; says whether the walk should
    /// go on, which it should until the answer is settled.
    pub fn visit(&mut self, tx: Transaction) -> (r: bool)
        requires
            old(self).wf(),
        ensures
            final(self).wf(),
            final(self).target() == old(self).target(),
            old(self).settled() ==> *final(self) == *old(self),
            !old(self).settled() ==> final(self).visited() == old(self).visited().push(tx),
            r == !final(self).settled(),
    {
        if self.done {
            return false;
        }
        let ghost v = self.visited@;
        proof {
            lemma_touched_packages_push(v, tx);
            lemma_find_package_extend(v, tx, self.id@);
        }
        let hit = match &tx.kind {
            TransactionKind::InstallPackage { package_id, .. } => *package_id == self.id,
            TransactionKind::RemovePackage { package_id } => *package_id == self.id,
            _ => false,
        };
        self.visited = Ghost(v.push(tx));
        assert(seq![tx].drop_first() =~= Seq::<Transaction>::empty());
        assert(seq![tx][0] == tx);
        assert(find_package(Seq::<Transaction>::empty(), self.id@) is None);
        assert(find_package(seq![tx].drop_first(), self.id@) is None);
        assert(hit <==> package_of(tx) == Some(self.id@));
        if hit {
            self.done = true;
            if let TransactionKind::InstallPackage { .. } = tx.kind {
                self.found = Some(tx);
            }
        }
        assert(self.done <==> touched_packages(v.push(tx)).contains(self.id@));
        assert(find_package(v.push(tx), self.id@) == find_package(seq![tx], self.id@));
        assert(self.found == find_package(v.push(tx), self.id@));
        !self.done
    }

    /// The newest install of the package, unless a removal came first.
    pub fn finish(self) -> (r: Option<Transaction>)
        requires
            self.wf(),
        ensures
            r == find_package(self.visited(), self.target()),
    {
        self.found
    }
}

/// Looks for the newest addition of one repository over a walk of the chain.
pub struct RepositoryLookup {
    name: String,
    found: Option<RepositoryMeta>,
    done: bool,
    visited: Ghost<Seq<Transaction>>,
}

impl RepositoryLookup {
    pub closed spec fn visited(&self) -> Seq<Transaction> {
        self.visited@
    }

    pub closed spec fn target(&self) -> Seq<char> {
        self.name@
    }

    pub closed spec fn settled(&self) -> bool {
        self.done
    }

    pub closed spec fn wf(&self) -> bool {
        &&& self.done <==> touched_repositories(self.visited@).contains(self.name@)
        &&& self.found == find_repository(self.visited@, self.name@)
        &&& !self.done ==> self.found is None
    }

    pub fn new(name: String) -> (r: RepositoryLookup)
        ensures
            r.wf(),
            r.visited() == Seq::<Transaction>::empty(),
            r.target() == name@,
            !r.settled(),
    {
        RepositoryLookup { name, found: None, done: false, visited: Ghost(Seq::empty()) }
    }

    /// Takes the next transaction of the walk; says whether the walk should
    /// go on, which it should until the answer is settled.
    pub fn visit(&mut self, tx: Transaction) -> (r: bool)
        requires
            old(self).wf(),
        ensures
            final(self).wf(),
            final(self).target() == old(self).target(),
            old(self).settled() ==> *final(self) == *old(self),
            !old(self).settled() ==> final(self).visited() == old(self).visited().push(tx),
            r == !final(self).settled(),
    {
        if self.done {
            return false;
        }
        let ghost v = self.visited@;
        let ghost t = tx;
        proof {
            lemma_touched_repositories_push(v, tx);
            lemma_find_repository_extend(v, tx, self.name@);
        }
        let created_at = tx.created_at;
        assert(seq![t].drop_first() =~= Seq::<Transaction>::empty());
        assert(seq![t][0] == t);
        assert(find_repository(Seq::<Transaction>::empty(), self.name@) is None);
        assert(find_repository(seq![t].drop_first(), self.name@) is None);
        match tx.kind {
            TransactionKind::AddRepository { name, git_remote, packages, .. } => {
                if same_text(name.as_str(), self.name.as_str()) {
                    self.done = true;
                    self.found = Some(RepositoryMeta { name, git_remote, packages, created_at });
                }
            },
            TransactionKind::RemoveRepository { name } => {
                if same_text(name.as_str(), self.name.as_str()) {
                    self.done = true;
                }
            },
            _ => {},
        }
        self.visited = Ghost(v.push(t));
        !self.done
    }

    /// The newest addition of the repository, unless a removal came first.
    pub fn finish(self) -> (r: Option<RepositoryMeta>)
        requires
            self.wf(),
        ensures
            r == find_repository(self.visited(), self.target()),
    {
        self.found
    }
}

/// The identity of an installed package.
pub open spec fn meta_id(m: PackageMeta) -> (Seq<char>, Seq<char>) {
    (m.name@, m.version@)
}

/// The package `id` is among the installed packages `list`.
pub open spec fn lists(list: Seq<PackageMeta>, id: (Seq<char>, Seq<char>)) -> bool {
    exists|k: int| 0 <= k < list.len() && meta_id(list[k]) == id
}

proof fn lemma_installed_touched(v: Seq<Transaction>)
    ensures
        forall|k: int|
            0 <= k < installed_in(v).len() ==> touched_packages(v).contains(
                meta_id(installed_in(v)[k]),
            ),
    decreases v.len(),
{
    if v.len() > 0 {
        let u = v.drop_last();
        let tx = v.last();
        assert(v =~= u.push(tx));
        lemma_installed_touched(u);
        lemma_touched_packages_push(u, tx);
        let lu = installed_in(u);
        let lv = installed_in(v);
        assert forall|k: int| 0 <= k < lv.len() implies touched_packages(v).contains(
            meta_id(lv[k]),
        ) by {
            if k < lu.len() {
                assert(lv[k] == lu[k]);
                assert(touched_packages(u).contains(meta_id(lu[k])));
            }
        }
    }
}

proof fn lemma_find_single(tx: Transaction, id: (Seq<char>, Seq<char>))
    ensures
        find_package(seq![tx], id) == if package_of(tx) == Some(id) && tx.kind is InstallPackage {
            Some(tx)
        } else {
            None
        },
{
    assert(seq![tx][0] == tx);
    assert(seq![tx].drop_first() =~= Seq::<Transaction>::empty());
    assert(find_package(Seq::<Transaction>::empty(), id) is None);
}

/// A package is listed as installed exactly when the newest transaction
/// that installs or removes it installs it; the listing then carries that
/// transaction's time and content.
pub proof fn lemma_listed_iff_newest_is_install(v: Seq<Transaction>, id: (Seq<char>, Seq<char>))
    ensures
        lists(installed_in(v), id) <==> find_package(v, id) is Some,
        forall|k: int|
            0 <= k < installed_in(v).len() && meta_id(installed_in(v)[k]) == id ==> (find_package(
                v,
                id,
            ) matches Some(tx) && installed_in(v)[k].created_at == tx.created_at && (
            tx.kind matches TransactionKind::InstallPackage { content, .. } && installed_in(
                v,
            )[k].content == content)),
    decreases v.len(),
{
    if v.len() > 0 {
        let u = v.drop_last();
        let tx = v.last();
        assert(v =~= u.push(tx));
        lemma_listed_iff_newest_is_install(u, id);
        lemma_find_package_extend(u, tx, id);
        lemma_installed_touched(u);
        lemma_find_single(tx, id);
        let lu = installed_in(u);
        let lv = installed_in(v);
        assert(forall|k: int| 0 <= k < lu.len() ==> lv[k] == lu[k]);
        if touched_packages(u).contains(id) {
            if lv.len() > lu.len() {
                assert(meta_id(lv[lu.len() as int]) != id);
            }
            if lists(lv, id) {
                let k = choose|k: int| 0 <= k < lv.len() && meta_id(lv[k]) == id;
                assert(meta_id(lu[k]) == id);
            }
        } else {
            assert(!lists(lu, id));
            if lists(lv, id) {
                let k = choose|k: int| 0 <= k < lv.len() && meta_id(lv[k]) == id;
                assert(k == lu.len());
            }
            if find_package(v, id) is Some {
                assert(meta_id(lv[lu.len() as int]) == id);
            }
        }
    }
}

/// How many transactions of `v` install `id`.
pub open spec fn installs(v: Seq<Transaction>, id: (Seq<char>, Seq<char>)) -> nat
    decreases v.len(),
{
    if v.len() == 0 {
        0
    } else {
        (if package_of(v[0]) == Some(id) && v[0].kind is InstallPackage {
            1nat
        } else {
            0nat
        }) + installs(v.drop_first(), id)
    }
}

/// How many transactions of `v` remove `id`.
pub open spec fn removes(v: Seq<Transaction>, id: (Seq<char>, Seq<char>)) -> nat
    decreases v.len(),
{
    if v.len() == 0 {
        0
    } else {
        (if package_of(v[0]) == Some(id) && v[0].kind is RemovePackage {
            1nat
        } else {
            0nat
        }) + removes(v.drop_first(), id)
    }
}

/// A chain (newest first) made by commands that each succeeded without
/// `force`: every install is of a package not installed before it, every
/// removal of a package installed before it.
pub open spec fn valid_history(v: Seq<Transaction>) -> bool {
    forall|i: int| 0 <= i < v.len() ==> #[trigger] valid_at(v, i)
}

/// The transaction at `i` of `v` was a command that succeeded without
/// `force` on the chain before it.
pub open spec fn valid_at(v: Seq<Transaction>, i: int) -> bool {
    match v[i].kind {
        TransactionKind::InstallPackage { package_id, .. } => find_package(
            v.skip(i + 1),
            package_id@,
        ) is None,
        TransactionKind::RemovePackage { package_id } => find_package(
            v.skip(i + 1),
            package_id@,
        ) is Some,
        _ => true,
    }
}

proof fn lemma_counts(v: Seq<Transaction>, id: (Seq<char>, Seq<char>))
    requires
        valid_history(v),
    ensures
        installs(v, id) == removes(v, id) || installs(v, id) == removes(v, id) + 1,
        installs(v, id) > removes(v, id) <==> find_package(v, id) is Some,
    decreases v.len(),
{
    if v.len() > 0 {
        let r = v.drop_first();
        assert forall|i: int| 0 <= i < r.len() implies #[trigger] valid_at(r, i) by {
            assert(valid_at(v, i + 1));
            assert(r[i] == v[i + 1]);
            assert(r.skip(i + 1) =~= v.skip(i + 2));
        }
        lemma_counts(r, id);
        assert(v.skip(1) =~= r);
        assert(valid_at(v, 0));
    }
}

/// After any sequence of installs and removals that each succeeded without
/// `force`, the installed packages are those installed more often than
/// removed, each with the time and content of its newest install.
pub proof fn lemma_installed_after_history(v: Seq<Transaction>, id: (Seq<char>, Seq<char>))
    requires
        valid_history(v),
    ensures
        lists(installed_in(v), id) <==> installs(v, id) > removes(v, id),
        forall|k: int|
            0 <= k < installed_in(v).len() && meta_id(installed_in(v)[k]) == id ==> (find_package(
                v,
                id,
            ) matches Some(tx) && installed_in(v)[k].created_at == tx.created_at),
{
    lemma_counts(v, id);
    lemma_listed_iff_newest_is_install(v, id);
}

/// `s` without the entries for the package `id`.
pub open spec fn without_id(s: Seq<PackageMeta>, id: (Seq<char>, Seq<char>)) -> Seq<PackageMeta>
    decreases s.len(),
{
    if s.len() == 0 {
        s
    } else if meta_id(s.last()) == id {
        without_id(s.drop_last(), id)
    } else {
        without_id(s.drop_last(), id).push(s.last())
    }
}

proof fn lemma_installed_unique(v: Seq<Transaction>)
    ensures
        forall|a: int, b: int|
            0 <= a < b < installed_in(v).len() ==> meta_id(installed_in(v)[a]) != meta_id(
                installed_in(v)[b],
            ),
    decreases v.len(),
{
    if v.len() > 0 {
        let u = v.drop_last();
        assert(v =~= u.push(v.last()));
        lemma_installed_unique(u);
        lemma_installed_touched(u);
        let lu = installed_in(u);
        let lv = installed_in(v);
        assert forall|a: int, b: int| 0 <= a < b < lv.len() implies meta_id(lv[a]) != meta_id(
            lv[b],
        ) by {
            assert(lv[a] == lu[a]);
            if b < lu.len() {
                assert(lv[b] == lu[b]);
            } else {
                assert(touched_packages(u).contains(meta_id(lu[a])));
            }
        }
    }
}

proof fn lemma_without_absent(s: Seq<PackageMeta>, id: (Seq<char>, Seq<char>))
    requires
        forall|k: int| 0 <= k < s.len() ==> meta_id(s[k]) != id,
    ensures
        without_id(s, id) == s,
    decreases s.len(),
{
    if s.len() > 0 {
        lemma_without_absent(s.drop_last(), id);
        assert(s.drop_last().push(s.last()) =~= s);
    }
}

proof fn lemma_without_is_remove(s: Seq<PackageMeta>, id: (Seq<char>, Seq<char>), i: int)
    requires
        0 <= i < s.len(),
        meta_id(s[i]) == id,
        forall|a: int, b: int| 0 <= a < b < s.len() ==> meta_id(s[a]) != meta_id(s[b]),
    ensures
        without_id(s, id) == s.remove(i),
    decreases s.len(),
{
    let r = s.drop_last();
    if i == s.len() - 1 {
        lemma_without_absent(r, id);
        assert(r =~= s.remove(i));
    } else {
        assert(meta_id(s.last()) != id);
        lemma_without_is_remove(r, id, i);
        assert(r.remove(i).push(s.last()) =~= s.remove(i));
    }
}

proof fn lemma_installed_after_remove_tx(v: Seq<Transaction>, t: Transaction, id: (Seq<char>, Seq<char>))
    requires
        t.kind matches TransactionKind::RemovePackage { package_id } && package_id@ == id,
    ensures
        installed_in(seq![t] + v) == without_id(installed_in(v), id),
    decreases v.len(),
{
    let w = seq![t] + v;
    if v.len() == 0 {
        assert(w =~= seq![t]);
        assert(w.drop_last() =~= Seq::<Transaction>::empty());
        assert(w.last() == t);
        assert(installed_in(w) == installed_in(Seq::<Transaction>::empty()));
    } else {
        let u = v.drop_last();
        let x = v.last();
        assert(v =~= u.push(x));
        assert(w =~= (seq![t] + u).push(x));
        assert(w.drop_last() =~= seq![t] + u);
        assert(w.last() == x);
        lemma_installed_after_remove_tx(u, t, id);
        assert forall|pid| touched_packages(seq![t] + u).contains(pid) <==> (pid == id
            || touched_packages(u).contains(pid)) by {
            let tu = seq![t] + u;
            assert(tu[0] == t);
            if touched_packages(tu).contains(pid) && pid != id {
                let k = choose|k: int| 0 <= k < tu.len() && package_of(tu[k]) == Some(pid);
                assert(package_of(u[k - 1]) == Some(pid));
            }
            if touched_packages(u).contains(pid) {
                let k = choose|k: int| 0 <= k < u.len() && package_of(u[k]) == Some(pid);
                assert(tu[k + 1] == u[k]);
            }
        }
        let lu = installed_in(u);
        match x.kind {
            TransactionKind::InstallPackage { package_id, content } => {
                if !touched_packages(u).contains(package_id@) {
                    let m = PackageMeta {
                        content,
                        name: package_id.name,
                        version: package_id.version,
                        created_at: x.created_at,
                    };
                    assert(installed_in(v) == lu.push(m));
                    assert(lu.push(m).drop_last() =~= lu);
                    assert(lu.push(m).last() == m);
                    if package_id@ == id {
                        assert(installed_in(w) == installed_in(seq![t] + u));
                    } else {
                        assert(installed_in(w) == installed_in(seq![t] + u).push(m));
                    }
                } else {
                    assert(installed_in(w) == installed_in(seq![t] + u));
                }
            },
            _ => {
                assert(installed_in(w) == installed_in(seq![t] + u));
            },
        }
    }
}

/// Once the removal of `id` is recorded, the installed packages are those
/// listed before with the entry of `id` taken out: exactly what
/// `plan_remove` leaves.
pub proof fn lemma_listing_after_removal(
    v: Seq<Transaction>,
    t: Transaction,
    id: (Seq<char>, Seq<char>),
    i: int,
)
    requires
        t.kind matches TransactionKind::RemovePackage { package_id } && package_id@ == id,
        0 <= i < installed_in(v).len(),
        meta_id(installed_in(v)[i]) == id,
    ensures
        installed_in(seq![t] + v) == installed_in(v).remove(i),
{
    lemma_installed_after_remove_tx(v, t, id);
    lemma_installed_unique(v);
    lemma_without_is_remove(installed_in(v), id, i);
}

} // verus!
