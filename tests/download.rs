use pkg::install::download::{check_checksum, downloading_message, file_name, plan_download};
use pkg::install::{parse_compression_format, CompressionFormat, InstallError};
use pkg::package::Source;

#[test]
fn test_parse_compression_format() {
    assert_eq!(
        parse_compression_format("foo.tar.gz"),
        Some(CompressionFormat::TarGz)
    );
    assert_eq!(
        parse_compression_format("foo.tar.xz"),
        Some(CompressionFormat::TarXz)
    );

    assert_eq!(parse_compression_format("foo"), None);
}

#[test]
fn compression_format_needs_the_whole_suffix() {
    assert_eq!(parse_compression_format("foo.gz"), None);
    assert_eq!(parse_compression_format(".tar.gz"), Some(CompressionFormat::TarGz));
    assert_eq!(parse_compression_format("foo.tar.gz.sig"), None);
}

#[test]
fn file_name_takes_the_last_component() {
    assert_eq!(file_name("/a/b/foo-1.0.0.tar.gz"), Some("foo-1.0.0.tar.gz".to_string()));
    assert_eq!(file_name("/a/b/"), Some("b".to_string()));
    assert_eq!(file_name("foo.txt/."), Some("foo.txt".to_string()));
    assert_eq!(file_name("/a/.."), None);
    assert_eq!(file_name("/"), None);
    assert_eq!(file_name(""), None);
}

#[test]
fn https_archive_is_planned_for_unpacking() {
    let plan = plan_download("https://example/foo-1.0.0.tar.gz").unwrap();
    assert_eq!(plan.url, "https://example/foo-1.0.0.tar.gz");
    assert_eq!(plan.filename, "foo-1.0.0.tar.gz");
    assert_eq!(plan.format, Some(CompressionFormat::TarGz));
}

#[test]
fn https_plain_file_is_stored_verbatim() {
    let plan = plan_download("https://example.org/dl/tool?x=1").unwrap();
    assert_eq!(plan.filename, "tool");
    assert_eq!(plan.format, None);
}

#[test]
fn http_is_unsafe() {
    let r = plan_download("http://example.org/foo.tar.gz");
    assert!(matches!(r, Err(InstallError::UnsafeScheme { ref url }) if url == "http://example.org/foo.tar.gz"));
}

#[test]
fn other_schemes_are_unsupported() {
    let r = plan_download("ftp://example.org/foo.tar.gz");
    assert!(matches!(r, Err(InstallError::UnsupportedScheme { ref scheme }) if scheme == "ftp"));
}

#[test]
fn unparsable_url_is_invalid() {
    assert!(matches!(plan_download("not a url"), Err(InstallError::InvalidUrl { .. })));
}

#[test]
fn url_without_file_name_is_refused() {
    assert!(matches!(
        plan_download("https://example.org/"),
        Err(InstallError::MissingFilename { .. })
    ));
}

#[test]
fn checksum_mismatch_names_url_and_digests() {
    let source = Source { url: "https://example/foo".to_string(), checksum: "zzz".to_string() };
    match check_checksum(&source, "aaa") {
        Err(InstallError::ChecksumMismatch { url, expected, actual }) => {
            assert_eq!(url, "https://example/foo");
            assert_eq!(expected, "zzz");
            assert_eq!(actual, "aaa");
        }
        other => panic!("unexpected {:?}", other),
    }
    assert!(check_checksum(&source, "zzz").is_ok());
}

#[test]
fn downloading_line() {
    let source = Source { url: "https://example/foo".to_string(), checksum: String::new() };
    assert_eq!(downloading_message(&source), "downloading https://example/foo");
}

#[test]
fn scheme_is_judged_before_the_file_name() {
    assert!(matches!(
        plan_download("http://example.com/"),
        Err(InstallError::UnsafeScheme { .. })
    ));
    assert!(matches!(
        plan_download("ftp://host/"),
        Err(InstallError::UnsupportedScheme { ref scheme }) if scheme == "ftp"
    ));
}
