use pkg::digest::sha256sum;
use pkg::id::Id;
use pkg::store::gc::{dangling_blobs, plan_remove, published_names, stale_links, Link};
use pkg::store::{
    Content, ContentType, InstalledScan, PackageLookup, PackageMeta, RepositoryLookup,
    RepositoryScan, Storage, Store, StoreError, Transaction, TransactionKind, Walk,
};

fn id(name: &str, version: &str) -> Id {
    Id { name: name.to_string(), version: version.to_string() }
}

fn blob(name: &str, checksum: &str, published: bool) -> Content {
    let mut c = Content::new(ContentType::Executable, name.to_string(), checksum.to_string());
    c.published = published;
    c
}

fn install(name: &str, at: u64, content: Vec<Content>) -> Transaction {
    Transaction::new(TransactionKind::InstallPackage { package_id: id(name, "1.0.0"), content }, at)
}

fn remove(name: &str, at: u64) -> Transaction {
    Transaction::new(TransactionKind::RemovePackage { package_id: id(name, "1.0.0") }, at)
}

fn list(chain: Vec<Transaction>) -> Vec<PackageMeta> {
    let mut scan = InstalledScan::new();
    for tx in chain {
        assert!(scan.visit(tx));
    }
    scan.finish()
}

fn names(metas: &[PackageMeta]) -> Vec<String> {
    metas.iter().map(|m| format!("{}@{}", m.name, m.version)).collect()
}

#[test]
fn first_install_is_listed() {
    let metas = list(vec![install("foo", 10, vec![blob("foo", "aa", true)])]);
    assert_eq!(names(&metas), vec!["foo@1.0.0"]);
    assert_eq!(metas[0].created_at, 10);
    assert_eq!(metas[0].content.len(), 1);
}

#[test]
fn listing_follows_the_newest_transaction() {
    // Newest first: bar installed, foo removed, foo installed, baz installed.
    let chain = vec![
        install("bar", 4, vec![]),
        remove("foo", 3),
        install("foo", 2, vec![]),
        install("baz", 1, vec![]),
    ];
    assert_eq!(names(&list(chain)), vec!["bar@1.0.0", "baz@1.0.0"]);
}

#[test]
fn reinstall_is_listed_at_its_newest_time() {
    let chain = vec![install("foo", 9, vec![]), remove("foo", 5), install("foo", 1, vec![])];
    let metas = list(chain);
    assert_eq!(names(&metas), vec!["foo@1.0.0"]);
    assert_eq!(metas[0].created_at, 9);
}

#[test]
fn removing_twice_fails_not_installed() {
    let chain = vec![remove("foo", 2), install("foo", 1, vec![blob("foo", "aa", true)])];
    let installed = list(chain);
    let r = plan_remove(installed, &id("foo", "1.0.0"));
    match r {
        Err(e) => assert_eq!(e.id, "foo@1.0.0"),
        Ok(_) => panic!("a removed package was removed again"),
    }
}

#[test]
fn remove_takes_the_package_out() {
    let installed = list(vec![
        install("foo", 2, vec![blob("foo", "aa", true)]),
        install("bar", 1, vec![blob("bar", "aa", true), blob("lib", "bb", false)]),
    ]);
    let (removed, rest) = plan_remove(installed, &id("foo", "1.0.0")).unwrap();
    assert_eq!(removed.name, "foo");
    assert_eq!(names(&rest), vec!["bar@1.0.0"]);
    assert_eq!(published_names(&removed), vec!["foo".to_string()]);
    // The blob that bar shares stays; nothing else is referenced.
    let entries = vec!["aa".to_string(), "bb".to_string(), "cc".to_string()];
    assert_eq!(dangling_blobs(&rest, &entries), vec!["cc".to_string()]);
}

#[test]
fn last_remove_leaves_content_empty() {
    let installed = list(vec![install("foo", 1, vec![blob("foo", "aa", true)])]);
    let (_, rest) = plan_remove(installed, &id("foo", "1.0.0")).unwrap();
    assert!(rest.is_empty());
    assert_eq!(dangling_blobs(&rest, &vec!["aa".to_string()]), vec!["aa".to_string()]);
}

#[test]
fn stale_links_are_found() {
    let links = vec![
        Link { name: "foo".to_string(), target: "/r/content/aa".to_string() },
        Link { name: "bar".to_string(), target: "/r/content/gone".to_string() },
        Link { name: "baz".to_string(), target: "/elsewhere/aa".to_string() },
    ];
    let blobs = vec!["aa".to_string()];
    assert_eq!(stale_links(&links, "/r/content", &blobs), vec!["bar".to_string(), "baz".to_string()]);
}

#[test]
fn find_installed_package_stops_at_the_newest_touch() {
    let mut lookup = PackageLookup::new(id("foo", "1.0.0"));
    assert!(lookup.visit(install("bar", 3, vec![])));
    assert!(!lookup.visit(install("foo", 2, vec![])));
    let found = lookup.finish().unwrap();
    assert_eq!(found.created_at, 2);

    let mut lookup = PackageLookup::new(id("foo", "1.0.0"));
    assert!(!lookup.visit(remove("foo", 3)));
    assert!(lookup.finish().is_none());
}

fn add_repo(name: &str, at: u64) -> Transaction {
    Transaction::new(
        TransactionKind::AddRepository {
            name: name.to_string(),
            version: "0123456".to_string(),
            git_remote: format!("https://github.com/{}.git", name),
            packages: vec![],
        },
        at,
    )
}

#[test]
fn repositories_are_listed_and_found() {
    let chain = vec![
        add_repo("a/x", 3),
        Transaction::new(TransactionKind::RemoveRepository { name: "b/y".to_string() }, 2),
        add_repo("b/y", 1),
    ];
    let mut scan = RepositoryScan::new();
    for tx in chain.clone() {
        scan.visit(tx);
    }
    let repos = scan.finish();
    assert_eq!(repos.len(), 1);
    assert_eq!(repos[0].name, "a/x");
    assert_eq!(repos[0].git_remote, "https://github.com/a/x.git");

    let mut lookup = RepositoryLookup::new("b/y".to_string());
    for tx in chain {
        if !lookup.visit(tx) {
            break;
        }
    }
    assert!(lookup.finish().is_none());
}

#[test]
fn storage_appends_file_then_root() {
    let storage = Storage::new("/r/store".to_string());
    let bytes = b"transaction".to_vec();
    let append = storage.add(bytes.clone());
    assert_eq!(append.digest, sha256sum(&bytes));
    assert_eq!(append.writes.len(), 2);
    assert_eq!(append.writes[0].path, format!("/r/store/{}", append.digest));
    assert_eq!(append.writes[0].contents, bytes);
    assert_eq!(append.writes[1].path, "/r/store/root");
    assert_eq!(append.writes[1].contents, append.digest.as_bytes().to_vec());
    assert!(storage.check(&append.digest, &bytes).is_ok());
}

#[test]
fn flipped_byte_is_corruption() {
    let storage = Storage::new("/r/store".to_string());
    let mut bytes = b"transaction".to_vec();
    let digest = sha256sum(&bytes);
    bytes[0] ^= 1;
    match storage.check(&digest, &bytes) {
        Err(StoreError::Corruption { expected, got }) => {
            assert_eq!(expected, digest);
            assert_eq!(got, sha256sum(&bytes));
        }
        Ok(()) => panic!("corruption went unnoticed"),
    }
}

#[test]
fn walk_follows_before_links() {
    let mut walk = Walk::start(Some("b".to_string()));
    assert_eq!(walk.pending().map(|s| s.as_str()), Some("b"));
    let tx = install("foo", 1, vec![]).with_before("a".to_string());
    walk.advance(&tx);
    assert_eq!(walk.pending().map(|s| s.as_str()), Some("a"));
    walk.advance(&install("foo", 0, vec![]));
    assert!(walk.pending().is_none());
    assert!(Walk::start(None).pending().is_none());
}

#[test]
fn store_links_new_transactions_to_the_root() {
    let store = Store::new(Storage::new("/r/store".to_string()));
    let tx = store.link(remove("foo", 5), Some("abc".to_string()));
    assert_eq!(tx.before.as_deref(), Some("abc"));
    assert_eq!(tx.created_at, 5);
    let first = store.link(remove("foo", 5), None);
    assert!(first.before.is_none());
    assert_eq!(store.storage_ref().root_file(), "/r/store/root");
}

#[test]
fn install_time_is_shown_in_rfc3339() {
    let metas = list(vec![install("foo", 86_400, vec![])]);
    assert_eq!(metas[0].installed_at().as_deref(), Some("1970-01-02T00:00:00+00:00"));
    let late = list(vec![install("bar", u64::MAX, vec![])]);
    assert!(late[0].installed_at().is_none());
}
