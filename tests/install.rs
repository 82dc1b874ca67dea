use pkg::id::Id;
use pkg::package::{Package, Sources};
use pkg::repo::search_package;
use pkg::store::RepositoryMeta;
use pkg::digest::sha256sum;
use pkg::install::eval::{components, find_file, resolve_source};
use pkg::install::stage::{install_result, may_install};
use pkg::install::{ContentMap, Event, InstallError, Pipeline, SourceRef, Stage, Step};
use pkg::store::{Content, ContentType};

fn steps(ceiling: Stage) -> Vec<Step> {
    let mut p = Pipeline::new(ceiling);
    let mut out = vec![];
    loop {
        let s = p.current();
        out.push(s);
        if s == Step::Done {
            return out;
        }
        p.advance();
    }
}

#[test]
fn pipeline_runs_stages_in_order_up_to_the_ceiling() {
    assert_eq!(
        steps(Stage::EvalPkgscript),
        vec![
            Step::Enter(Stage::FetchSources),
            Step::Run(Stage::FetchSources),
            Step::Exit(Stage::FetchSources),
            Step::Enter(Stage::EvalPkgscript),
            Step::Run(Stage::EvalPkgscript),
            Step::Exit(Stage::EvalPkgscript),
            Step::Done,
        ]
    );
    assert_eq!(steps(Stage::Publish).len(), 13);
    assert_eq!(steps(Stage::FetchSources).len(), 4);
}

#[test]
fn steps_report_stage_events() {
    assert!(matches!(Step::Enter(Stage::Package).event(), Some(Event::EnterStage(Stage::Package))));
    assert!(matches!(Step::Exit(Stage::Publish).event(), Some(Event::ExitStage(Stage::Publish))));
    assert!(Step::Run(Stage::Package).event().is_none());
    assert_eq!(Stage::ceiling(false).count_through(), 3);
    assert_eq!(Stage::ceiling(true).count_through(), 4);
}

#[test]
fn reinstall_needs_force() {
    assert!(may_install(false, false));
    assert!(!may_install(true, false));
    assert!(may_install(true, true));
}

#[test]
fn paths_resolve_without_climbing_out() {
    assert_eq!(components("sources/./foo//bin/foo"), vec!["sources", "foo", "bin", "foo"]);
    assert_eq!(components("../../etc/passwd"), vec!["etc", "passwd"]);
    assert_eq!(components("a/../b"), vec!["b"]);
}

#[test]
fn glob_prefix_that_escapes_stays_inside() {
    match resolve_source("../../etc/pass*") {
        SourceRef::Glob { dir, pattern } => {
            assert_eq!(dir, vec!["etc".to_string()]);
            assert_eq!(pattern, "../../etc/pass*");
        }
        SourceRef::File { .. } => panic!("a glob was read as a file"),
    }
    match resolve_source("*") {
        SourceRef::Glob { dir, .. } => assert!(dir.is_empty()),
        SourceRef::File { .. } => panic!("a glob was read as a file"),
    }
}

#[test]
fn plain_source_is_a_file() {
    match resolve_source("sources/foo-1.0.0/bin/foo") {
        SourceRef::File { path } => assert_eq!(path, vec!["sources", "foo-1.0.0", "bin", "foo"]),
        SourceRef::Glob { .. } => panic!("a file was read as a glob"),
    }
}

#[test]
fn first_matching_entry_is_picked() {
    let entries = vec![
        "/tmp/t/sources/README".to_string(),
        "/tmp/t/sources/foo-1.0.0".to_string(),
        "/tmp/t/sources/foo-2.0.0".to_string(),
    ];
    assert_eq!(find_file(&entries, "/tmp/t/sources/foo-*").unwrap(), 1);
    assert!(matches!(find_file(&entries, "/tmp/t/sources/bar-*"), Err(InstallError::NoMatch { .. })));
    assert!(matches!(find_file(&entries, "/tmp/t/sources/[a"), Err(InstallError::InvalidPattern { .. })));
}

#[test]
fn package_then_publish() {
    let mut map = ContentMap::new();
    map.package("/tmp/t/sources/foo-1.0.0/bin/foo".to_string(), Some("foo".to_string()), b"bytes").unwrap();
    map.package("/tmp/t/sources/lib.so".to_string(), None, b"lib").unwrap();
    map.publish("foo").unwrap();
    let links = map.links();
    assert_eq!(links.len(), 1);
    assert_eq!(links[0].name, "foo");
    assert_eq!(links[0].checksum, sha256sum(b"bytes"));
    let copies = map.blob_copies();
    assert_eq!(copies.len(), 2);
    assert_eq!(copies[1].from, "/tmp/t/sources/lib.so");
    assert_eq!(copies[1].checksum, sha256sum(b"lib"));
    let contents = map.into_contents();
    assert!(contents[0].published);
    assert!(!contents[1].published);
    assert_eq!(contents[1].filename, "lib.so");
    assert_eq!(contents[1].content_type, ContentType::Executable);
}

#[test]
fn same_bytes_give_the_same_blob() {
    let mut a = ContentMap::new();
    let mut b = ContentMap::new();
    a.package("/x/foo".to_string(), None, b"same").unwrap();
    b.package("/y/bar".to_string(), None, b"same").unwrap();
    assert_eq!(a.blob_copies()[0].checksum, b.blob_copies()[0].checksum);
}

#[test]
fn packaging_a_path_again_replaces_its_record() {
    let mut map = ContentMap::new();
    map.package("/x/foo".to_string(), None, b"one").unwrap();
    map.package("/x/foo".to_string(), Some("bar".to_string()), b"two").unwrap();
    let contents = map.into_contents();
    assert_eq!(contents.len(), 1);
    assert_eq!(contents[0].filename, "bar");
}

#[test]
fn publish_with_separator_is_refused_without_change() {
    let mut map = ContentMap::new();
    map.package("/x/foo".to_string(), None, b"one").unwrap();
    let r = map.publish("bin/foo");
    assert!(matches!(r, Err(InstallError::InvalidPublishTarget { ref target }) if target == "bin/foo"));
    assert!(map.links().is_empty());
}

#[test]
fn publish_of_unpackaged_is_refused() {
    let mut map = ContentMap::new();
    let r = map.publish("foo");
    assert!(matches!(r, Err(InstallError::PublishOfUnpackaged { ref target }) if target == "foo"));
}

#[test]
fn unnamed_source_is_missing() {
    let mut map = ContentMap::new();
    let r = map.package("/x/..".to_string(), None, b"one");
    assert!(matches!(r, Err(InstallError::MissingSource { .. })));
}

#[test]
fn fetch_only_records_no_content() {
    let content = vec![Content::new(ContentType::Executable, "foo".to_string(), "aa".to_string())];
    assert!(install_result(Stage::FetchSources, content).content.is_empty());
    let content = vec![Content::new(ContentType::Executable, "foo".to_string(), "aa".to_string())];
    assert_eq!(install_result(Stage::Package, content).content.len(), 1);
}

#[test]
fn oversized_pattern_is_invalid() {
    let entries = vec!["/tmp/t/a".to_string()];
    let pattern = format!("/tmp/t/{}*", "a".repeat(70_000));
    assert!(matches!(find_file(&entries, &pattern), Err(InstallError::InvalidPattern { .. })));
}

#[test]
fn many_alternations_do_not_panic() {
    let entries = vec!["/tmp/t/ab".to_string()];
    let pattern = format!("/tmp/t/{}", "{a,b}".repeat(2_000));
    let r = find_file(&entries, &pattern);
    assert!(matches!(r, Err(InstallError::NoMatch { .. }) | Err(InstallError::InvalidPattern { .. })));
}

#[test]
fn search_gives_the_first_match() {
    let package = |description: &str| Package {
        name: "foo".to_string(),
        version: "1".to_string(),
        description: description.to_string(),
        sources: Sources { entries: vec![] },
        install: String::new(),
    };
    let repo = |packages: Vec<Package>| RepositoryMeta {
        name: "r".to_string(),
        git_remote: String::new(),
        packages,
        created_at: 0,
    };
    let repos = vec![repo(vec![]), repo(vec![package("first"), package("second")]), repo(vec![package("third")])];
    let id = Id { name: "foo".to_string(), version: "1".to_string() };
    assert_eq!(search_package(repos, &id).unwrap().description, "first");
}
