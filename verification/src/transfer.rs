//! Large file transfers through S3: the upload directives, where each part
//! starts, and the progress lines shown on the command line.
use vstd::prelude::*;
use crate::text::{decimal, decimal_text};

verus! {

/// The URL type that `reqwest` uses.
#[verifier::external_type_specification]
#[verifier::external_body]
pub struct ExUrl(reqwest::Url);

/// Whether `reqwest::Url::parse` accepts the text.
pub uninterp spec fn url_parses(s: Seq<char>) -> bool;

/// The URL that `reqwest::Url::parse` reads from a text, where it reads one.
pub uninterp spec fn url_of(s: Seq<char>) -> reqwest::Url;

/// Parses a URL with `reqwest::Url::parse`; it succeeds exactly on the
/// texts that `url_parses` names, with the URL named by `url_of`. Both
/// depend on the text alone.
#[verifier::external_body]
fn parse_url(s: &str) -> (r: Option<reqwest::Url>)
    ensures
        r is Some <==> url_parses(s@),
        r matches Some(u) ==> u == url_of(s@),
{
    reqwest::Url::parse(s).ok()
}

/// How to upload a large file in parts.
#[derive(Debug)]
pub struct S3Upload {
    pub parts_upload_urls: Vec<reqwest::Url>,
    pub complete_upload_url: reqwest::Url,
    pub part_size: u64,
    pub num_parts: u64,
}

/// Why upload directives cannot be used.
#[derive(Debug, Clone, Copy, PartialEq, Eq, Structural)]
pub enum DirectiveError {
    NoCompletionUrl,
    NoPartUrls,
    NoPartSize,
    BadUrl,
    /// The directives are not for S3.
    NotS3,
}

impl DirectiveError {
    pub fn message(&self) -> (r: &'static str)
        ensures
            *self == DirectiveError::NoCompletionUrl ==> r@ == "no upload completion url set"@,
            *self == DirectiveError::NoPartUrls ==> r@ == "no part upload urls set"@,
            *self == DirectiveError::NoPartSize ==> r@ == "couldn't parse size"@,
            *self == DirectiveError::BadUrl ==> r@ == "couldn't parse url"@,
            *self == DirectiveError::NotS3 ==> r@ == "didn't get S3 transfer directive"@,
    {
        match self {
            DirectiveError::NoCompletionUrl => "no upload completion url set",
            DirectiveError::NoPartUrls => "no part upload urls set",
            DirectiveError::NoPartSize => "couldn't parse size",
            DirectiveError::BadUrl => "couldn't parse url",
            DirectiveError::NotS3 => "didn't get S3 transfer directive",
        }
    }
}

/// The number of parts of `size` bytes in parts of `part` bytes, rounded
/// up.
pub open spec fn parts_needed(size: nat, part: nat) -> nat {
    if size % part == 0 {
        size / part
    } else {
        size / part + 1
    }
}

/// The outcome of reading upload directives (the URLs aside).
pub open spec fn directive_outcome(
    complete_url: Option<String>,
    part_urls: Option<Vec<String>>,
    max_part_size: Option<i64>,
) -> Option<DirectiveError> {
    if complete_url is None {
        Some(DirectiveError::NoCompletionUrl)
    } else if part_urls is None {
        Some(DirectiveError::NoPartUrls)
    } else if max_part_size is None {
        Some(DirectiveError::NoPartSize)
    } else if !(forall|i: int|
        0 <= i < part_urls->0@.len() ==> url_parses(#[trigger] part_urls->0@[i]@)) || !url_parses(
        complete_url->0@,
    ) {
        Some(DirectiveError::BadUrl)
    } else {
        None
    }
}

impl S3Upload {
    /// The URLs are those read from the given completion URL and, in order,
    /// from the given part URLs.
    pub open spec fn read_from(&self, complete: Seq<char>, parts: Seq<String>) -> bool {
        &&& self.complete_upload_url == url_of(complete)
        &&& self.parts_upload_urls@.len() == parts.len()
        &&& forall|k: int|
            0 <= k < parts.len() ==> self.parts_upload_urls@[k] == url_of(#[trigger] parts[k]@)
    }

    /// Reads upload directives for a file of `size` bytes: the completion
    /// URL, the URLs of the parts and the part size must all be given and
    /// the URLs must parse; the number of parts is the size divided by the
    /// part size, rounded up.
    pub fn convert(
        complete_url: Option<String>,
        part_urls: Option<Vec<String>>,
        max_part_size: Option<i64>,
        size: u64,
    ) -> (r: Result<S3Upload, DirectiveError>)
        requires
            max_part_size matches Some(m) ==> m as u64 != 0,
        ensures
            match directive_outcome(complete_url, part_urls, max_part_size) {
                Some(e) => r matches Err(f) && f == e,
                None => r matches Ok(u) && u.part_size == max_part_size->0 as u64 && u.num_parts
                    == parts_needed(size as nat, max_part_size->0 as u64 as nat) && u.read_from(
                    complete_url->0@,
                    part_urls->0@,
                ),
            },
    {
        let complete = match complete_url {
            Some(c) => c,
            None => {
                return Err(DirectiveError::NoCompletionUrl);
            },
        };
        let urls = match part_urls {
            Some(u) => u,
            None => {
                return Err(DirectiveError::NoPartUrls);
            },
        };
        let part_size = match max_part_size {
            Some(m) => m as u64,
            None => {
                return Err(DirectiveError::NoPartSize);
            },
        };
        let mut parsed: Vec<reqwest::Url> = Vec::new();
        let mut i: usize = 0;
        while i < urls.len()
            invariant
                i <= urls@.len(),
                parsed@.len() == i,
                forall|k: int| 0 <= k < i ==> url_parses(#[trigger] urls@[k]@),
                forall|k: int| 0 <= k < i ==> parsed@[k] == url_of(#[trigger] urls@[k]@),
                part_urls == Some(urls),
                complete_url == Some(complete),
                max_part_size is Some,
            decreases urls.len() - i,
        {
            match parse_url(urls[i].as_str()) {
                Some(u) => parsed.push(u),
                None => {
                    proof {
                        assert(!url_parses(urls@[i as int]@));
                        assert(!(forall|k: int| 0 <= k < urls@.len() ==> url_parses(#[trigger] urls@[k]@)));
                        assert(part_urls->0@[i as int] == urls@[i as int]);
                        assert(!url_parses(part_urls->0@[i as int]@));
                    }
                    return Err(DirectiveError::BadUrl);
                },
            }
            i = i + 1;
        }
        let complete_upload_url = match parse_url(complete.as_str()) {
            Some(u) => u,
            None => {
                return Err(DirectiveError::BadUrl);
            },
        };
        let num_parts = if size % part_size == 0 {
            size / part_size
        } else {
            assert(size / part_size < u64::MAX) by (nonlinear_arith)
                requires
                    part_size > 0,
                    size % part_size != 0,
            {
                if part_size == 1 {
                    assert(size % part_size == 0);
                }
            }
            size / part_size + 1
        };
        Ok(S3Upload { parts_upload_urls: parsed, complete_upload_url, part_size, num_parts })
    }
}

/// An upload's transfer job with how to upload the file, from the
/// directives that came back for it: `None` where they are not S3
/// directives, else the completion URL, the part URLs and the part size.
pub fn s3_upload(
    job_id: i64,
    directives: Option<(Option<String>, Option<Vec<String>>, Option<i64>)>,
    size: u64,
) -> (r: Result<(i64, S3Upload), DirectiveError>)
    requires
        directives matches Some(d) ==> (d.2 matches Some(m) ==> m as u64 != 0),
    ensures
        match directives {
            None => r == Err::<(i64, S3Upload), DirectiveError>(DirectiveError::NotS3),
            Some(d) => match directive_outcome(d.0, d.1, d.2) {
                Some(e) => r matches Err(f) && f == e,
                None => r matches Ok((j, u)) && j == job_id && u.part_size == d.2->0 as u64
                    && u.num_parts == parts_needed(size as nat, d.2->0 as u64 as nat) && u.read_from(
                    d.0->0@,
                    d.1->0@,
                ),
            },
        },
{
    match directives {
        None => Err(DirectiveError::NotS3),
        Some((complete, parts, max)) => match S3Upload::convert(complete, parts, max, size) {
            Ok(u) => Ok((job_id, u)),
            Err(e) => Err(e),
        },
    }
}

/// A download's transfer job with where to fetch the file from, from the
/// directives that came back for it: `None` where they are not S3
/// directives, else their download URL, which S3 directives for a download
/// carry, read by `parse_url`.
pub fn s3_download(job_id: i64, s3_download_url: Option<Option<String>>) -> (r: Result<
    (i64, reqwest::Url),
    DirectiveError,
>)
    requires
        s3_download_url matches Some(u) ==> u is Some,
    ensures
        match s3_download_url {
            None => r == Err::<(i64, reqwest::Url), DirectiveError>(DirectiveError::NotS3),
            Some(u) => if url_parses(u->0@) {
                r matches Ok((j, url)) && j == job_id && url == url_of(u->0@)
            } else {
                r == Err::<(i64, reqwest::Url), DirectiveError>(DirectiveError::BadUrl)
            },
        },
{
    match s3_download_url {
        None => Err(DirectiveError::NotS3),
        Some(u) => {
            let text = match u {
                Some(t) => t,
                None => {
                    proof {
                        assert(false);
                    }
                    String::new()
                },
            };
            match parse_url(text.as_str()) {
                Some(url) => Ok((job_id, url)),
                None => Err(DirectiveError::BadUrl),
            }
        },
    }
}

/// Where part `index` of an upload starts in the file.
pub fn part_offset(index: u64, part_size: u64) -> (r: u64)
    requires
        index * part_size <= u64::MAX,
    ensures
        r == index * part_size,
{
    index * part_size
}

/// The line shown before uploading a part: its number from 1, the number
/// of parts and the part size in whole mebibytes.
pub fn upload_part_line(index: u64, num_parts: u64, part_size: u64) -> (r: String)
    requires
        index < u64::MAX,
    ensures
        r@ == "Uploading part "@ + decimal((index + 1) as nat) + "/"@ + decimal(num_parts as nat) + " ("@
            + decimal((part_size / 1024 / 1024) as nat) + "Mb)"@,
{
    let mut r = String::from_str("Uploading part ");
    let a = decimal_text(index + 1);
    r.append(a.as_str());
    r.append("/");
    let b = decimal_text(num_parts);
    r.append(b.as_str());
    r.append(" (");
    let c = decimal_text(part_size / 1024 / 1024);
    r.append(c.as_str());
    r.append("Mb)");
    r
}

/// The progress line of a download: bytes done and the total, in whole
/// mebibytes.
pub fn download_progress_line(done: u64, total: u64) -> (r: String)
    ensures
        r@ == "\rDownloaded "@ + decimal((done / 1024 / 1024) as nat) + "/"@ + decimal(
            (total / 1024 / 1024) as nat,
        ) + "Mb"@,
{
    let mut r = String::from_str("\rDownloaded ");
    let a = decimal_text(done / 1024 / 1024);
    r.append(a.as_str());
    r.append("/");
    let b = decimal_text(total / 1024 / 1024);
    r.append(b.as_str());
    r.append("Mb");
    r
}

/// Where a download is written: into the given folder under the remote
/// file's name, or to the given path itself when it is not a folder.
pub fn download_target(local: &str, local_is_dir: bool, remote_name: Option<String>) -> (r: Option<String>)
    ensures
        !local_is_dir ==> (r matches Some(p) && p@ == local@),
        local_is_dir ==> match remote_name {
            Some(n) => r matches Some(p) && p@ == crate::text::path_join(local@, n@),
            None => r is None,
        },
{
    if local_is_dir {
        match remote_name {
            Some(n) => Some(crate::text::join_path(local, n.as_str())),
            None => None,
        }
    } else {
        Some(String::from_str(local))
    }
}

} // verus!
