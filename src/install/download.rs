//! Deciding how a source is fetched: its URL's scheme, the file it names,
//! and whether it is an archive to unpack.

use vstd::prelude::*;

use crate::install::error::InstallError;
use crate::package::Source;
use crate::text::{chars_of, ends_with, has_suffix, same_text};

verus! {

/// The archive formats that are unpacked after download.
#[derive(Debug, Clone, Copy, PartialEq, Eq, Structural)]
pub enum CompressionFormat {
    TarGz,
    TarXz,
}

/// The archive format that a file name announces, if any.
pub open spec fn format_of(filename: Seq<char>) -> Option<CompressionFormat> {
    if has_suffix(filename, ".tar.gz"@) {
        Some(CompressionFormat::TarGz)
    } else if has_suffix(filename, ".tar.xz"@) {
        Some(CompressionFormat::TarXz)
    } else {
        None
    }
}

/// The archive format that the file name `filename` announces.
pub fn parse_compression_format(filename: &str) -> (r: Option<CompressionFormat>)
    ensures
        r == format_of(filename@),
{
    if ends_with(filename, ".tar.gz") {
        return Some(CompressionFormat::TarGz);
    }
    if ends_with(filename, ".tar.xz") {
        return Some(CompressionFormat::TarXz);
    }
    None
}

/// The segment `cur` ended; the last name so far becomes it unless it is
/// empty or `.`.
pub open spec fn keep_segment(cur: Seq<char>, last: Option<Seq<char>>) -> Option<Seq<char>> {
    if cur.len() == 0 || cur == seq!['.'] {
        last
    } else {
        Some(cur)
    }
}

/// The last segment of a `/`-separated path that is neither empty nor `.`,
/// reading `s` after the segment `cur` and the last such segment `last`.
pub open spec fn last_segment(s: Seq<char>, cur: Seq<char>, last: Option<Seq<char>>) -> Option<
    Seq<char>,
>
    decreases s.len(),
{
    if s.len() == 0 {
        keep_segment(cur, last)
    } else if s[0] == '/' {
        last_segment(s.drop_first(), seq![], keep_segment(cur, last))
    } else {
        last_segment(s.drop_first(), cur.push(s[0]), last)
    }
}

/// The final component of a path, as `Path::file_name` gives it: none when
/// the path ends in `..` or has no named component.
pub open spec fn file_name_of(path: Seq<char>) -> Option<Seq<char>> {
    match last_segment(path, seq![], None) {
        Some(n) => if n == seq!['.', '.'] {
            None
        } else {
            Some(n)
        },
        None => None,
    }
}

/// The final component of the `/`-separated path `path`.
pub fn file_name(path: &str) -> (r: Option<String>)
    ensures
        match r {
            Some(n) => file_name_of(path@) == Some(n@),
            None => file_name_of(path@) is None,
        },
{
    let chars = chars_of(path);
    let ghost s = chars@;
    let mut start: usize = 0;
    let mut last: Option<(usize, usize)> = None;
    let mut i: usize = 0;
    assert(s.skip(0) =~= s);
    assert(s.subrange(0, 0) =~= seq![]);
    while i < chars.len()
        invariant
            chars@ == s,
            s == path@,
            start <= i <= s.len(),
            forall|j: int| start <= j < i ==> s[j] != '/',
            match last {
                Some((a, b)) => a <= b <= s.len(),
                None => true,
            },
            last_segment(s, seq![], None) == last_segment(
                s.skip(i as int),
                s.subrange(start as int, i as int),
                match last {
                    Some((a, b)) => Some(s.subrange(a as int, b as int)),
                    None => None,
                },
            ),
        decreases s.len() - i,
    {
        let ghost cur = s.subrange(start as int, i as int);
        assert(s.skip(i as int).drop_first() =~= s.skip(i + 1));
        let ghost l0 = match last {
            Some((a, b)) => Some(s.subrange(a as int, b as int)),
            None => None,
        };
        if chars[i] == '/' {
            let len = i - start;
            let dot = len == 1 && chars[start] == '.';
            if len > 0 && !dot {
                assert(cur != seq!['.']) by {
                    if cur == seq!['.'] {
                        assert(cur.len() == 1);
                        assert(cur[0] == s[start as int]);
                    }
                }
                last = Some((start, i));
            } else if len == 1 {
                assert(cur =~= seq!['.']);
            } else {
                assert(cur.len() == 0);
            }
            assert(last_segment(s.skip(i as int), cur, l0) == last_segment(
                s.skip(i + 1),
                seq![],
                keep_segment(cur, l0),
            ));
            start = i + 1;
            assert(s.subrange(start as int, start as int) =~= seq![]);
        } else {
            assert(cur.push(s[i as int]) =~= s.subrange(start as int, i + 1));
        }
        i = i + 1;
    }
    let ghost cur = s.subrange(start as int, i as int);
    assert(s.skip(i as int) =~= seq![]);
    let ghost l0 = match last {
        Some((a, b)) => Some(s.subrange(a as int, b as int)),
        None => None,
    };
    assert(last_segment(s, seq![], None) == keep_segment(cur, l0));
    let len = i - start;
    if len > 0 && !(len == 1 && chars[start] == '.') {
        assert(cur != seq!['.']) by {
            if cur == seq!['.'] {
                assert(cur.len() == 1);
                assert(cur[0] == s[start as int]);
            }
        }
        last = Some((start, i));
    } else if len == 1 {
        assert(cur =~= seq!['.']);
    } else {
        assert(cur.len() == 0);
    }
    match last {
        None => None,
        Some((a, b)) => {
            let ghost n = s.subrange(a as int, b as int);
            if b - a == 2 && chars[a] == '.' && chars[a + 1] == '.' {
                assert(n =~= seq!['.', '.']);
                None
            } else {
                assert(n != seq!['.', '.']) by {
                    if n == seq!['.', '.'] {
                        assert(n.len() == 2);
                        assert(n[0] == s[a as int] && n[1] == s[a + 1]);
                    }
                }
                Some(path.substring_char(a, b).to_owned())
            }
        },
    }
}

/// How a URL parses: its scheme and its path, or nothing when it does not
/// parse.
pub uninterp spec fn url_parts(s: Seq<char>) -> Option<(Seq<char>, Seq<char>)>;

#[verifier::external_type_specification]
#[verifier::external_body]
pub struct ExUrlParseError(url::ParseError);

/// Relies on `url::Url::parse`: whether `s` parses as a URL, and then its
/// scheme (`Url::scheme`) and path (`Url::path`).
#[verifier::external_body]
fn parse_url(s: &str) -> (r: Result<(String, String), url::ParseError>)
    ensures
        match r {
            Ok((scheme, path)) => url_parts(s@) == Some((scheme@, path@)),
            Err(_) => url_parts(s@) is None,
        },
{
    let u = url::Url::parse(s)?;
    Ok((u.scheme().to_string(), u.path().to_string()))
}

/// How a source is to be fetched.
pub struct DownloadPlan {
    /// The URL to download over `https`.
    pub url: String,
    /// The file name that the URL's path ends in.
    pub filename: String,
    /// The archive format to unpack, or none to store the file as it is.
    pub format: Option<CompressionFormat>,
}

/// What fetching `url` is to do, or why it cannot be fetched.
pub open spec fn download_spec(url: Seq<char>) -> Result<
    (Seq<char>, Option<CompressionFormat>),
    InstallError,
> {
    match url_parts(url) {
        None => Err(InstallError::InvalidUrl { url: arbitrary() }),
        Some((scheme, path)) => if scheme == "https"@ {
            match file_name_of(path) {
                None => Err(InstallError::MissingFilename { url: arbitrary() }),
                Some(name) => Ok((name, format_of(name))),
            }
        } else if scheme == "http"@ {
            Err(InstallError::UnsafeScheme { url: arbitrary() })
        } else {
            Err(InstallError::UnsupportedScheme { scheme: arbitrary() })
        },
    }
}

/// The same outcome, with the text that errors carry left aside.
pub open spec fn same_outcome(
    r: Result<DownloadPlan, InstallError>,
    s: Result<(Seq<char>, Option<CompressionFormat>), InstallError>,
) -> bool {
    match (r, s) {
        (Ok(p), Ok((name, format))) => p.filename@ == name && p.format == format,
        (Err(InstallError::InvalidUrl { .. }), Err(InstallError::InvalidUrl { .. })) => true,
        (Err(InstallError::MissingFilename { .. }), Err(InstallError::MissingFilename { .. })) => true,
        (Err(InstallError::UnsafeScheme { .. }), Err(InstallError::UnsafeScheme { .. })) => true,
        (Err(InstallError::UnsupportedScheme { .. }), Err(InstallError::UnsupportedScheme { .. })) => true,
        _ => false,
    }
}

/// Decides how the source at `url` is fetched: only `https` URLs are, and
/// only when they name a file; archives by their extension are unpacked.
pub fn plan_download(url: &str) -> (r: Result<DownloadPlan, InstallError>)
    ensures
        same_outcome(r, download_spec(url@)),
        r matches Ok(p) ==> p.url@ == url@,
        r matches Err(InstallError::InvalidUrl { url: u }) ==> u@ == url@,
        r matches Err(InstallError::MissingFilename { url: u }) ==> u@ == url@,
        r matches Err(InstallError::UnsafeScheme { url: u }) ==> u@ == url@,
        r matches Err(InstallError::UnsupportedScheme { scheme }) ==> url_parts(url@) matches Some(
            (sc, _),
        ) && scheme@ == sc,
{
    let (scheme, path) = match parse_url(url) {
        Ok(parts) => parts,
        Err(_) => {
            return Err(InstallError::InvalidUrl { url: url.to_owned() });
        },
    };
    if same_text(scheme.as_str(), "https") {
        let filename = match file_name(path.as_str()) {
            Some(n) => n,
            None => {
                return Err(InstallError::MissingFilename { url: url.to_owned() });
            },
        };
        let format = parse_compression_format(filename.as_str());
        Ok(DownloadPlan { url: url.to_owned(), filename, format })
    } else if same_text(scheme.as_str(), "http") {
        Err(InstallError::UnsafeScheme { url: url.to_owned() })
    } else {
        Err(InstallError::UnsupportedScheme { scheme })
    }
}

/// The line reported before a source is downloaded.
pub fn downloading_message(source: &Source) -> (r: String)
    ensures
        r@ == "downloading "@ + source.url@,
{
    String::from_str("downloading ").concat(source.url.as_str())
}

/// Compares the digest `actual` of the downloaded bytes of `source` with the
/// one the manifest lists.
pub fn check_checksum(source: &Source, actual: &str) -> (r: Result<(), InstallError>)
    ensures
        r is Ok <==> source.checksum@ == actual@,
        r matches Err(InstallError::ChecksumMismatch { url, expected, actual: got }) ==> url@
            == source.url@ && expected@ == source.checksum@ && got@ == actual@,
        r matches Err(e) ==> e is ChecksumMismatch,
{
    if same_text(source.checksum.as_str(), actual) {
        Ok(())
    } else {
        Err(
            InstallError::ChecksumMismatch {
                url: source.url.clone(),
                expected: source.checksum.clone(),
                actual: actual.to_owned(),
            },
        )
    }
}

} // verus!
