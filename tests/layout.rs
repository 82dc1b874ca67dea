use std::collections::{BTreeMap, BTreeSet};

use pkg::id::Id;
use pkg::install::ContentMap;
use pkg::store::gc::{dangling_blobs, plan_remove, published_names, stale_links, Link};
use pkg::store::{Content, InstalledScan, Transaction, TransactionKind};

#[derive(Clone, Debug, PartialEq)]
struct Layout {
    blobs: BTreeSet<String>,
    links: BTreeMap<String, String>,
}

const CONTENT: &str = "/r/content";

fn evaluated(files: &[(&str, &str, &[u8], bool)]) -> ContentMap {
    let mut map = ContentMap::new();
    for (path, name, bytes, _) in files {
        map.package(path.to_string(), Some(name.to_string()), bytes).unwrap();
    }
    for (_, name, _, published) in files {
        if *published {
            map.publish(name).unwrap();
        }
    }
    map
}

fn install(layout: &mut Layout, map: ContentMap, id: &Id, at: u64) -> Transaction {
    for copy in map.blob_copies() {
        layout.blobs.insert(copy.checksum);
    }
    for link in map.links() {
        layout.links.insert(link.name, format!("{}/{}", CONTENT, link.checksum));
    }
    let content: Vec<Content> = map.into_contents();
    Transaction::new(TransactionKind::InstallPackage { package_id: id.duplicate(), content }, at)
}

fn remove(layout: &mut Layout, chain: Vec<Transaction>, id: &Id, at: u64) -> Transaction {
    let mut scan = InstalledScan::new();
    for tx in chain {
        scan.visit(tx);
    }
    let (removed, rest) = plan_remove(scan.finish(), id).unwrap();
    for name in published_names(&removed) {
        layout.links.remove(&name);
    }
    let entries: Vec<String> = layout.blobs.iter().cloned().collect();
    for blob in dangling_blobs(&rest, &entries) {
        layout.blobs.remove(&blob);
    }
    let links: Vec<Link> = layout
        .links
        .iter()
        .map(|(name, target)| Link { name: name.clone(), target: target.clone() })
        .collect();
    let blobs: Vec<String> = layout.blobs.iter().cloned().collect();
    for name in stale_links(&links, CONTENT, &blobs) {
        layout.links.remove(&name);
    }
    Transaction::new(TransactionKind::RemovePackage { package_id: id.duplicate() }, at)
}

fn foo_files() -> ContentMap {
    evaluated(&[("/t/foo", "foo", b"shared", true), ("/t/helper", "helper", b"helper", false)])
}

#[test]
fn install_remove_install_is_one_install() {
    let bar = Id { name: "bar".to_string(), version: "1.0.0".to_string() };
    let foo = Id { name: "foo".to_string(), version: "1.0.0".to_string() };
    let mut layout = Layout { blobs: BTreeSet::new(), links: BTreeMap::new() };

    let tx_bar = install(&mut layout, evaluated(&[("/t/bar", "bar", b"shared", true)]), &bar, 1);
    assert_eq!(layout.blobs.len(), 1);

    let mut once = layout.clone();
    install(&mut once, foo_files(), &foo, 2);

    let tx_foo = install(&mut layout, foo_files(), &foo, 2);
    remove(&mut layout, vec![tx_foo, tx_bar], &foo, 3);
    // The blob that bar shares stays; foo's own blob and link are gone.
    assert_eq!(layout.blobs.len(), 1);
    assert_eq!(layout.links.keys().cloned().collect::<Vec<_>>(), vec!["bar".to_string()]);

    install(&mut layout, foo_files(), &foo, 4);
    assert_eq!(layout, once);
}
