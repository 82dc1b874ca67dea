use pkg::digest::sha256sum;
use pkg::id::{parse_id, Id};
use pkg::package::{ArchSources, OsTargets, Package, Source, Sources, Targets};
use pkg::repo::{git_remote_for, is_manifest_path, pack_file_name, short_version};

#[test]
fn sha256_of_known_inputs() {
    assert_eq!(
        sha256sum(b""),
        "e3b0c44298fc1c149afbf4c8996fb92427ae41e4649b934ca495991b7852b855"
    );
    assert_eq!(
        sha256sum(b"abc"),
        "ba7816bf8f01cfea414140de5dae2223b00361a396177a9cb410ff61f20015ad"
    );
}

#[test]
fn ids_split_at_the_sole_at() {
    let (name, version) = parse_id("foo@1.0.0").unwrap();
    assert_eq!(name, "foo");
    assert_eq!(version, "1.0.0");
    assert!(parse_id("foo").is_err());
    assert!(parse_id("a@b@c").is_err());
    let (name, version) = parse_id("@").unwrap();
    assert_eq!((name.as_str(), version.as_str()), ("", ""));
}

#[test]
fn id_round_trips_through_text() {
    let id = Id::from_str("bar@2.1").unwrap();
    assert_eq!(id.to_text(), "bar@2.1");
    assert!(id == Id { name: "bar".to_string(), version: "2.1".to_string() });
}

fn source(url: &str) -> Source {
    Source { url: url.to_string(), checksum: "c".to_string() }
}

fn manifest() -> Package {
    Package {
        name: "foo".to_string(),
        version: "1.0.0".to_string(),
        description: String::new(),
        sources: Sources {
            entries: vec![
                OsTargets {
                    os: "linux".to_string(),
                    targets: Targets {
                        entries: vec![
                            ArchSources { arch: "x86_64".to_string(), sources: vec![source("https://a/x.tar.gz")] },
                            ArchSources { arch: "aarch64".to_string(), sources: vec![] },
                        ],
                    },
                },
                OsTargets { os: "macos".to_string(), targets: Targets { entries: vec![] } },
            ],
        },
        install: String::new(),
    }
}

#[test]
fn sources_are_found_by_os_and_arch() {
    let p = manifest();
    let s = p.sources_for("linux", "x86_64").ok().unwrap();
    assert_eq!(s.len(), 1);
    assert_eq!(s[0].url, "https://a/x.tar.gz");
}

#[test]
fn empty_or_absent_target_has_no_sources() {
    let p = manifest();
    let e = p.sources_for("linux", "aarch64").err().unwrap();
    assert_eq!((e.os.as_str(), e.arch.as_str()), ("linux", "aarch64"));
    assert!(p.sources_for("macos", "x86_64").is_err());
    assert!(p.sources_for("windows", "x86_64").is_err());
}

#[test]
fn target_keys() {
    let p = manifest();
    assert_eq!(p.sources.keys(), vec!["linux".to_string(), "macos".to_string()]);
    let linux = p.sources.get("linux").unwrap();
    assert_eq!(linux.valid_keys(), vec!["x86_64".to_string()]);
    assert!(!linux.is_empty());
    assert!(p.sources.get("macos").is_none());
}

#[test]
fn repository_names() {
    assert_eq!(git_remote_for("owner/pkgs"), "https://github.com/owner/pkgs.git");
    assert_eq!(pack_file_name("owner/pkgs"), "owner_pkgs");
    assert_eq!(short_version("0123456789abcdef"), "0123456");
    assert_eq!(short_version("abc"), "abc");
    assert!(is_manifest_path("pkgs/foo.dhall"));
    assert!(!is_manifest_path("README.md"));
}
