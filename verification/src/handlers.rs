//! The decisions behind the CSCS commands: what a file transfer does, where
//! a job's files go, how a job is named and which environment it gets.
use vstd::prelude::*;
use crate::cscs::{JobDetail, JobStatus, PathEntry, PathType, text_or_empty};
use crate::docker::{DockerImageUrl, ImageRefError, parse_image_ref, str_equal};
use crate::pairs::{distinct_keys, merge_pairs, pair_texts, pairs_map};
use crate::text::{
    decimal,
    decimal_text,
    signed_decimal,
    signed_decimal_text,
    join_path,
    join_texts,
    joined,
    path_join,
    texts,
};

verus! {

/// Files smaller than this many bytes go through the API directly; larger
/// ones through an S3 transfer job.
pub const CSCS_MAX_DIRECT_SIZE: usize = 5242880;

/// Why a remote file operation cannot go ahead.
#[derive(Debug, Clone, PartialEq, Eq, Structural)]
pub enum RemoteFileError {
    PathMissing,
    IsDirectory,
    UnknownSize,
    RemoteFileExists,
    NoLocalFileName,
}

impl RemoteFileError {
    /// The message shown for the error.
    pub fn message(&self) -> (r: &'static str)
        ensures
            *self == RemoteFileError::PathMissing ==> r@ == "remote path doesn't exist"@,
            *self == RemoteFileError::IsDirectory ==> r@ == "remote path must be a file, not directory"@,
            *self == RemoteFileError::UnknownSize ==> r@ == "couldn't determin download file size"@,
            *self == RemoteFileError::RemoteFileExists ==> r@ == "remote file already exists"@,
            *self == RemoteFileError::NoLocalFileName ==> r@ == "couldn't get filename for local file"@,
    {
        match self {
            RemoteFileError::PathMissing => "remote path doesn't exist",
            RemoteFileError::IsDirectory => "remote path must be a file, not directory",
            RemoteFileError::UnknownSize => "couldn't determin download file size",
            RemoteFileError::RemoteFileExists => "remote file already exists",
            RemoteFileError::NoLocalFileName => "couldn't get filename for local file",
        }
    }
}

/// How a remote file is downloaded.
#[derive(Debug, Clone, PartialEq, Eq, Structural)]
pub enum DownloadPlan {
    Direct,
    Transfer(usize),
}

/// How to download the remote path whose listing is `entries`: the path
/// must exist, be a file and have a known size; small files come directly,
/// others through a transfer job.
pub fn download_plan(entries: &Vec<PathEntry>) -> (r: Result<DownloadPlan, RemoteFileError>)
    ensures
        entries@.len() == 0 ==> r == Err::<DownloadPlan, RemoteFileError>(
            RemoteFileError::PathMissing,
        ),
        entries@.len() > 0 ==> {
            let e = entries@[0];
            if e.path_type == PathType::Directory {
                r == Err::<DownloadPlan, RemoteFileError>(RemoteFileError::IsDirectory)
            } else {
                match e.size {
                    None => r == Err::<DownloadPlan, RemoteFileError>(
                        RemoteFileError::UnknownSize,
                    ),
                    Some(n) => if n < CSCS_MAX_DIRECT_SIZE {
                        r == Ok::<DownloadPlan, RemoteFileError>(DownloadPlan::Direct)
                    } else {
                        r == Ok::<DownloadPlan, RemoteFileError>(DownloadPlan::Transfer(n))
                    },
                }
            }
        },
{
    if entries.len() == 0 {
        return Err(RemoteFileError::PathMissing);
    }
    let e = &entries[0];
    if e.path_type == PathType::Directory {
        return Err(RemoteFileError::IsDirectory);
    }
    match e.size {
        None => Err(RemoteFileError::UnknownSize),
        Some(n) => if n < CSCS_MAX_DIRECT_SIZE {
            Ok(DownloadPlan::Direct)
        } else {
            Ok(DownloadPlan::Transfer(n))
        },
    }
}

/// What `rm` is issued for when the remote path `remote`, whose listing is
/// `entries`, is removed: the path itself, a file or a folder alike (a
/// folder with all it holds). A path whose listing is empty is taken as
/// missing.
pub fn delete_target(entries: &Vec<PathEntry>, remote: &str) -> (r: Result<String, RemoteFileError>)
    ensures
        entries@.len() == 0 ==> r == Err::<String, RemoteFileError>(RemoteFileError::PathMissing),
        entries@.len() > 0 ==> (r matches Ok(p) && p@ == remote@),
{
    if entries.len() == 0 {
        return Err(RemoteFileError::PathMissing);
    }
    Ok(String::from_str(remote))
}

/// How a local file is uploaded, and to which remote path.
#[derive(Debug, Clone)]
pub enum UploadPlan {
    Direct(String),
    Transfer(String, usize),
}

/// The remote path that an upload of a local file named `local_name` to
/// `remote` writes: `remote` itself when nothing is there yet; inside it when
/// it is a directory; refused when it is an existing file.
pub open spec fn upload_target(existing: Seq<PathEntry>, remote: Seq<char>, local_name: Option<
    Seq<char>,
>) -> Result<Seq<char>, RemoteFileError> {
    if existing.len() == 0 {
        Ok(remote)
    } else if existing.len() == 1 && existing[0].path_type == PathType::File {
        Err(RemoteFileError::RemoteFileExists)
    } else {
        match local_name {
            Some(n) => Ok(path_join(remote, n)),
            None => Err(RemoteFileError::NoLocalFileName),
        }
    }
}

/// An upload is refused as overwriting exactly when the remote path lists
/// as one single file; when it lists two or more entries (a folder with
/// them inside), a file with a name goes inside it, whatever the entries
/// are; when it lists nothing, the file goes to the remote path itself.
pub proof fn law_upload_target(existing: Seq<PathEntry>, remote: Seq<char>, local_name: Option<Seq<char>>)
    ensures
        (upload_target(existing, remote, local_name) == Err::<Seq<char>, RemoteFileError>(
            RemoteFileError::RemoteFileExists,
        )) <==> (existing.len() == 1 && existing[0].path_type == PathType::File),
        existing.len() >= 2 ==> match local_name {
            Some(n) => upload_target(existing, remote, local_name) == Ok::<Seq<char>, RemoteFileError>(
                path_join(remote, n),
            ),
            None => upload_target(existing, remote, local_name) == Err::<Seq<char>, RemoteFileError>(
                RemoteFileError::NoLocalFileName,
            ),
        },
        existing.len() == 0 ==> upload_target(existing, remote, local_name) == Ok::<Seq<char>, RemoteFileError>(
            remote,
        ),
{
}

/// How to upload a local file named `local_name` of `size` bytes to
/// `remote`, whose listing is `existing`; small files go directly, others
/// through a transfer job.
pub fn upload_plan(existing: &Vec<PathEntry>, remote: &str, local_name: Option<&str>, size: usize) -> (r:
    Result<UploadPlan, RemoteFileError>)
    ensures
        match upload_target(
            existing@,
            remote@,
            match local_name {
                Some(n) => Some(n@),
                None => None,
            },
        ) {
            Err(e) => r == Err::<UploadPlan, RemoteFileError>(e),
            Ok(t) => if size < CSCS_MAX_DIRECT_SIZE {
                r matches Ok(UploadPlan::Direct(p)) && p@ == t
            } else {
                r matches Ok(UploadPlan::Transfer(p, n)) && p@ == t && n == size
            },
        },
{
    let target = if existing.len() == 0 {
        String::from_str(remote)
    } else if existing.len() == 1 && existing[0].path_type == PathType::File {
        return Err(RemoteFileError::RemoteFileExists);
    } else {
        match local_name {
            Some(n) => join_path(remote, n),
            None => {
                return Err(RemoteFileError::NoLocalFileName);
            },
        }
    };
    if size < CSCS_MAX_DIRECT_SIZE {
        Ok(UploadPlan::Direct(target))
    } else {
        Ok(UploadPlan::Transfer(target, size))
    }
}

/// Why a job's log cannot be shown.
#[derive(Debug, Clone, PartialEq, Eq, Structural)]
pub enum JobLogError {
    JobNotFound,
    NoLog,
}

/// The remote path of a job's standard output, or of its standard error
/// when `stderr` is set; the job must exist and the path be set.
pub fn job_log_path(job: &Option<JobDetail>, stderr: bool) -> (r: Result<String, JobLogError>)
    ensures
        match job {
            None => r == Err::<String, JobLogError>(JobLogError::JobNotFound),
            Some(d) => {
                let p = if stderr {
                    d.stderr@
                } else {
                    d.stdout@
                };
                if p.len() == 0 {
                    r == Err::<String, JobLogError>(JobLogError::NoLog)
                } else {
                    r matches Ok(s) && s@ == p
                }
            },
        },
{
    match job {
        None => Err(JobLogError::JobNotFound),
        Some(d) => {
            let p = if stderr {
                d.stderr.clone()
            } else {
                d.stdout.clone()
            };
            if p.as_str().unicode_len() == 0 {
                Err(JobLogError::NoLog)
            } else {
                Ok(p)
            }
        },
    }
}

/// The message for a job log that cannot be shown, naming the job.
pub fn job_log_message(e: JobLogError, job_id: i64, stderr: bool) -> (r: String)
    ensures
        e == JobLogError::JobNotFound ==> r@ == "couldn't find job "@ + signed_decimal(job_id as int),
        e == JobLogError::NoLog ==> r@ == "No "@ + (if stderr {
            "stderr"@
        } else {
            "stdout"@
        }) + " log exists for job "@ + signed_decimal(job_id as int),
{
    let id = signed_decimal_text(job_id);
    match e {
        JobLogError::JobNotFound => {
            let mut r = String::from_str("couldn't find job ");
            r.append(id.as_str());
            r
        },
        JobLogError::NoLog => {
            let mut r = String::from_str("No ");
            if stderr {
                r.append("stderr");
            } else {
                r.append("stdout");
            }
            r.append(" log exists for job ");
            r.append(id.as_str());
            r
        },
    }
}

/// Why a connection to a job cannot be made.
#[derive(Debug, Clone, PartialEq, Eq, Structural)]
pub enum ConnectError {
    JobMissing,
    JobNotRunning,
    BadEndpointLength,
}

/// A connection to a job needs the job to exist and to be running.
pub fn check_job_connectable(job: &Option<JobDetail>) -> (r: Result<(), ConnectError>)
    ensures
        job is None ==> r == Err::<(), ConnectError>(ConnectError::JobMissing),
        job matches Some(d) ==> (d.status == JobStatus::Running <==> r is Ok) && (d.status
            != JobStatus::Running ==> r == Err::<(), ConnectError>(ConnectError::JobNotRunning)),
{
    match job {
        None => Err(ConnectError::JobMissing),
        Some(d) => if d.status != JobStatus::Running {
            Err(ConnectError::JobNotRunning)
        } else {
            Ok(())
        },
    }
}

/// Why a job cannot be cancelled.
#[derive(Debug, Clone, PartialEq, Eq, Structural)]
pub enum CancelError {
    JobMissing,
    JobNotRunning,
}

impl CancelError {
    /// The message shown for the error, naming the job.
    pub fn message(&self, job_id: i64) -> (r: String)
        ensures
            *self == CancelError::JobMissing ==> r@ == "couldn't find job "@ + signed_decimal(
                job_id as int,
            ),
            *self == CancelError::JobNotRunning ==> r@ == "job "@ + signed_decimal(job_id as int)
                + " isn't running"@,
    {
        let id = signed_decimal_text(job_id);
        match self {
            CancelError::JobMissing => {
                let mut r = String::from_str("couldn't find job ");
                r.append(id.as_str());
                r
            },
            CancelError::JobNotRunning => {
                let mut r = String::from_str("job ");
                r.append(id.as_str());
                r.append(" isn't running");
                r
            },
        }
    }
}

/// Cancelling a job fails where the job is missing or not running; only a
/// running job is cancelled.
pub fn cancel_check(job: &Option<JobDetail>) -> (r: Result<(), CancelError>)
    ensures
        job is None ==> r == Err::<(), CancelError>(CancelError::JobMissing),
        job matches Some(d) ==> (d.status == JobStatus::Running <==> r is Ok) && (d.status
            != JobStatus::Running ==> r == Err::<(), CancelError>(CancelError::JobNotRunning)),
{
    match job {
        None => Err(CancelError::JobMissing),
        Some(d) => if d.status != JobStatus::Running {
            Err(CancelError::JobNotRunning)
        } else {
            Ok(())
        },
    }
}

/// Where the 64 bytes of an endpoint id start in a stored endpoint file of
/// `len` bytes: the id is the whole file or its last 64 bytes.
pub fn endpoint_id_start(len: usize) -> (r: Result<usize, ConnectError>)
    ensures
        len == 64 ==> r == Ok::<usize, ConnectError>(0),
        len > 64 ==> r == Ok::<usize, ConnectError>((len - 64) as usize),
        len < 64 ==> r == Err::<usize, ConnectError>(ConnectError::BadEndpointLength),
{
    if len == 64 {
        Ok(0)
    } else if len > 64 {
        Ok(len - 64)
    } else {
        Err(ConnectError::BadEndpointLength)
    }
}

/// The name of a new job: the given one, else the project's, else
/// `<user>-coman`.
pub fn choose_job_name(name: Option<String>, project_name: Option<String>, user_name: &str) -> (r:
    String)
    ensures
        r@ == match (name, project_name) {
            (Some(n), _) => n@,
            (None, Some(p)) => p@,
            (None, None) => user_name@ + "-coman"@,
        },
{
    match name {
        Some(n) => n,
        None => match project_name {
            Some(p) => p,
            None => {
                let mut r = String::from_str(user_name);
                r.append("-coman");
                r
            },
        },
    }
}

/// The working directory inside the container: the given one, else the
/// configured one, else `/scratch`.
pub fn container_workdir(option: Option<String>, config: Option<String>) -> (r: String)
    ensures
        r@ == match (option, config) {
            (Some(o), _) => o@,
            (None, Some(c)) => c@,
            (None, None) => "/scratch"@,
        },
{
    match option {
        Some(o) => o,
        None => match config {
            Some(c) => c,
            None => String::from_str("/scratch"),
        },
    }
}

/// The remote folder of a job: `<scratch>/<user>/<job name>`.
pub fn job_base_path(scratch: &str, user_name: &str, job_name: &str) -> (r: String)
    ensures
        r@ == path_join(path_join(scratch@, user_name@), job_name@),
{
    let p = join_path(scratch, user_name);
    join_path(p.as_str(), job_name)
}

/// The environment of a job: the configured variables, overridden by the
/// ones given for this job.
pub fn job_environment(config_env: &Vec<(String, String)>, job_env: &Vec<(String, String)>) -> (r:
    Vec<(String, String)>)
    ensures
        distinct_keys(pair_texts(r@)),
        pairs_map(pair_texts(r@)) == pairs_map(pair_texts(config_env@) + pair_texts(job_env@)),
{
    merge_pairs(config_env, job_env)
}

pub open spec fn scratch_key() -> Seq<char> {
    "${SCRATCH}"@
}

/// The mounts of a job's container: the given ones, plus `${SCRATCH}` on
/// `/scratch` unless a mount of `${SCRATCH}` is given.
pub fn container_mounts(mounts: &Vec<(String, String)>) -> (r: Vec<(String, String)>)
    ensures
        distinct_keys(pair_texts(r@)),
        pairs_map(pair_texts(mounts@)).dom().contains(scratch_key()) ==> pairs_map(pair_texts(r@))
            == pairs_map(pair_texts(mounts@)),
        !pairs_map(pair_texts(mounts@)).dom().contains(scratch_key()) ==> pairs_map(
            pair_texts(r@),
        ) == pairs_map(pair_texts(mounts@)).insert(scratch_key(), "/scratch"@),
{
    let empty: Vec<(String, String)> = Vec::new();
    let mut m = merge_pairs(&empty, mounts);
    proof {
        assert(pair_texts(empty@) + pair_texts(mounts@) =~= pair_texts(mounts@));
    }
    let mut i: usize = 0;
    let mut found = false;
    while i < m.len()
        invariant
            i <= m@.len(),
            found == exists|j: int| 0 <= j < i && m@[j].0@ == scratch_key(),
        decreases m.len() - i,
    {
        if str_equal(m[i].0.as_str(), "${SCRATCH}") {
            found = true;
        }
        i = i + 1;
    }
    proof {
        crate::pairs::lemma_pairs_map_dom(pair_texts(m@), scratch_key());
        if found {
            let j = choose|j: int| 0 <= j < i && m@[j].0@ == scratch_key();
            assert(pair_texts(m@)[j].0 == scratch_key());
        }
        if exists|j: int| 0 <= j < pair_texts(m@).len() && pair_texts(m@)[j].0 == scratch_key() {
            let j = choose|j: int|
                0 <= j < pair_texts(m@).len() && pair_texts(m@)[j].0 == scratch_key();
            assert(m@[j].0@ == scratch_key());
        }
    }
    if !found {
        let ghost before = pair_texts(m@);
        m.push((String::from_str("${SCRATCH}"), String::from_str("/scratch")));
        proof {
            assert(pair_texts(m@) =~= before.push((scratch_key(), "/scratch"@)));
            crate::pairs::lemma_pairs_map_push(before, scratch_key(), "/scratch"@);
            assert forall|a: int, b: int|
                0 <= a < b < pair_texts(m@).len() implies pair_texts(m@)[a].0 != pair_texts(
                m@,
            )[b].0 by {
                if b == before.len() {
                    assert(before[a].0 != scratch_key());
                }
            }
        }
    }
    m
}

/// The command line of a job: the given words, else the configured ones,
/// joined by spaces.
pub fn job_command(option: &Option<Vec<String>>, config: &Vec<String>) -> (r: String)
    ensures
        option matches Some(o) ==> r@ == joined(texts(o@), " "@),
        option is None ==> r@ == joined(texts(config@), " "@),
{
    match option {
        Some(o) => join_texts(o, " "),
        None => join_texts(config, " "),
    }
}

/// The decimal texts of the numbers.
pub open spec fn port_texts(p: Seq<u16>) -> Seq<Seq<char>> {
    p.map_values(|x: u16| decimal(x as nat))
}

/// The ports to forward from a job's container, as one comma separated
/// text: the given ones, else the configured ones, else none.
pub fn port_forward_setting(option_ports: &Vec<u16>, config_ports: &Vec<String>) -> (r: Option<
    String,
>)
    ensures
        option_ports@.len() > 0 ==> (r matches Some(s) && s@ == joined(
            port_texts(option_ports@),
            ","@,
        )),
        option_ports@.len() == 0 && config_ports@.len() > 0 ==> (r matches Some(s) && s@ == joined(
            texts(config_ports@),
            ","@,
        )),
        option_ports@.len() == 0 && config_ports@.len() == 0 ==> r is None,
{
    if option_ports.len() > 0 {
        let mut words: Vec<String> = Vec::new();
        let mut i: usize = 0;
        while i < option_ports.len()
            invariant
                i <= option_ports@.len(),
                texts(words@) == port_texts(option_ports@).subrange(0, i as int),
            decreases option_ports.len() - i,
        {
            let ghost before = words@;
            words.push(decimal_text(option_ports[i] as u64));
            proof {
                assert(texts(words@) =~= texts(before).push(decimal(option_ports@[i as int] as nat)));
                assert(port_texts(option_ports@).subrange(0, i + 1) =~= port_texts(
                    option_ports@,
                ).subrange(0, i as int).push(decimal(option_ports@[i as int] as nat)));
            }
            i = i + 1;
        }
        proof {
            assert(port_texts(option_ports@).subrange(0, option_ports@.len() as int) =~= port_texts(
                option_ports@,
            ));
        }
        Some(join_texts(&words, ","))
    } else if config_ports.len() > 0 {
        Some(join_texts(config_ports, ","))
    } else {
        None
    }
}

/// Where the coman squash file for an architecture can be downloaded.
pub fn squash_download_url(architecture: &str) -> (r: Option<&'static str>)
    ensures
        architecture@ == "arm64"@ ==> (r matches Some(u)
            && u@ == "https://github.com/SwissDataScienceCenter/coman/releases/latest/download/coman_Linux-aarch64.sqsh"@),
        architecture@ == "amd64"@ ==> (r matches Some(u)
            && u@ == "https://github.com/SwissDataScienceCenter/coman/releases/latest/download/coman_Linux-x86_64.sqsh"@),
        architecture@ != "arm64"@ && architecture@ != "amd64"@ ==> r is None,
{
    proof {
        reveal_strlit("arm64");
        reveal_strlit("amd64");
        assert("arm64"@[1] != "amd64"@[1]);
    }
    if str_equal(architecture, "arm64") {
        Some(
            "https://github.com/SwissDataScienceCenter/coman/releases/latest/download/coman_Linux-aarch64.sqsh",
        )
    } else if str_equal(architecture, "amd64") {
        Some(
            "https://github.com/SwissDataScienceCenter/coman/releases/latest/download/coman_Linux-x86_64.sqsh",
        )
    } else {
        None
    }
}

/// What to do with the coman squash file on the remote side.
#[derive(Debug, Clone, Copy, PartialEq, Eq, Structural)]
pub enum SquashUpload {
    Reuse,
    ReplaceThenUpload,
    Upload,
}

/// Whether the squash file already on the remote side (its listing, where
/// the listing succeeded) can be reused: only when its size equals the local
/// file's; a remote file of another size is removed before uploading.
pub fn squash_upload_decision(existing: &Option<Vec<PathEntry>>, local_size: usize) -> (r:
    SquashUpload)
    ensures
        match existing {
            Some(v) => if v@.len() > 0 {
                let s = match v@[0].size {
                    Some(n) => n,
                    None => 0,
                };
                if s == local_size {
                    r == SquashUpload::Reuse
                } else {
                    r == SquashUpload::ReplaceThenUpload
                }
            } else {
                r == SquashUpload::Upload
            },
            None => r == SquashUpload::Upload,
        },
{
    match existing {
        Some(v) => {
            if v.len() > 0 {
                let s = match v[0].size {
                    Some(n) => n,
                    None => 0,
                };
                if s == local_size {
                    SquashUpload::Reuse
                } else {
                    SquashUpload::ReplaceThenUpload
                }
            } else {
                SquashUpload::Upload
            }
        },
        None => SquashUpload::Upload,
    }
}

/// The `<Part>` elements for the uploaded parts' etags, numbered from 1.
pub open spec fn parts_xml(etags: Seq<Seq<char>>) -> Seq<char>
    decreases etags.len(),
{
    if etags.len() == 0 {
        Seq::empty()
    } else {
        parts_xml(etags.drop_last()) + "<Part><PartNumber>"@ + decimal(etags.len()) + "</PartNumber><ETag>"@
            + etags.last() + "</ETag></Part>"@
    }
}

/// The opening tag of the completion request, with or without the S3
/// namespace.
pub open spec fn completion_open(xmlns: bool) -> Seq<char> {
    if xmlns {
        "<CompleteMultipartUpload xmlns=\"http://s3.amazonaws.com/doc/2006-03-01\">"@
    } else {
        "<CompleteMultipartUpload>"@
    }
}

/// The body of the request that completes a multipart S3 upload.
pub fn multipart_completion_body(etags: &Vec<String>, xmlns: bool) -> (r: String)
    ensures
        r@ == completion_open(xmlns) + parts_xml(texts(etags@)) + "</CompleteMultipartUpload>"@,
{
    let mut r = if xmlns {
        String::from_str("<CompleteMultipartUpload xmlns=\"http://s3.amazonaws.com/doc/2006-03-01\">")
    } else {
        String::from_str("<CompleteMultipartUpload>")
    };
    let ghost open = r@;
    let mut i: usize = 0;
    while i < etags.len()
        invariant
            i <= etags@.len(),
            open == completion_open(xmlns),
            r@ == open + parts_xml(texts(etags@).subrange(0, i as int)),
        decreases etags.len() - i,
    {
        let ghost pre = texts(etags@).subrange(0, i as int);
        let ghost next = texts(etags@).subrange(0, i + 1);
        r.append("<Part><PartNumber>");
        let num = decimal_text((i as u64) + 1);
        r.append(num.as_str());
        r.append("</PartNumber><ETag>");
        r.append(etags[i].as_str());
        r.append("</ETag></Part>");
        proof {
            assert(next.drop_last() =~= pre);
            assert(next.len() == i + 1);
            assert(next.last() == etags@[i as int]@);
            assert(r@ =~= open + parts_xml(next));
        }
        i = i + 1;
    }
    r.append("</CompleteMultipartUpload>");
    proof {
        assert(texts(etags@).subrange(0, etags@.len() as int) =~= texts(etags@));
    }
    r
}

/// What a poll of a transfer job leads to.
#[derive(Debug, Clone, Copy, PartialEq, Eq, Structural)]
pub enum TransferStep {
    Wait,
    Done,
    Failed,
    TimedOut,
}

/// How the upload of the coman squash file goes on after a poll of its
/// transfer job: finished, failed (cancelled, failed or timed out), or still
/// waiting (pending, running, or the job not found).
pub fn squash_transfer_step(status: Option<JobStatus>) -> (r: TransferStep)
    ensures
        status == Some(JobStatus::Finished) ==> r == TransferStep::Done,
        (status == Some(JobStatus::Cancelled) || status == Some(JobStatus::Failed) || status == Some(
            JobStatus::Timeout,
        )) ==> r == TransferStep::Failed,
        (status is None || status == Some(JobStatus::Pending) || status == Some(JobStatus::Running))
            ==> r == TransferStep::Wait,
{
    match status {
        Some(JobStatus::Finished) => TransferStep::Done,
        Some(JobStatus::Cancelled) | Some(JobStatus::Failed) | Some(JobStatus::Timeout) => {
            TransferStep::Failed
        },
        _ => TransferStep::Wait,
    }
}

/// How a file download goes on after a poll of its transfer job: pending
/// or running (or not found) waits, finished is done, cancelled or failed
/// fails, a timeout is reported as such.
pub fn download_transfer_step(status: Option<JobStatus>) -> (r: TransferStep)
    ensures
        status == Some(JobStatus::Finished) ==> r == TransferStep::Done,
        (status == Some(JobStatus::Cancelled) || status == Some(JobStatus::Failed)) ==> r
            == TransferStep::Failed,
        status == Some(JobStatus::Timeout) ==> r == TransferStep::TimedOut,
        (status is None || status == Some(JobStatus::Pending) || status == Some(JobStatus::Running))
            ==> r == TransferStep::Wait,
{
    match status {
        Some(JobStatus::Finished) => TransferStep::Done,
        Some(JobStatus::Cancelled) | Some(JobStatus::Failed) => TransferStep::Failed,
        Some(JobStatus::Timeout) => TransferStep::TimedOut,
        _ => TransferStep::Wait,
    }
}

/// The entry shown for a file system root in the file browser: the user's
/// own folder in it where that exists, else the root itself.
pub fn root_entry(fs_path: &str, user_name: &str, user_dir_exists: bool) -> (r: PathEntry)
    ensures
        r.path_type == PathType::Directory,
        r.permissions is None,
        r.size is None,
        user_dir_exists ==> r.name@ == fs_path@ + "/"@ + user_name@,
        !user_dir_exists ==> r.name@ == fs_path@,
{
    let name = if user_dir_exists {
        let mut n = String::from_str(fs_path);
        n.append("/");
        n.append(user_name);
        n
    } else {
        String::from_str(fs_path)
    };
    PathEntry { name, path_type: PathType::Directory, permissions: None, size: None }
}

/// The image a job runs: the given one, else the configured one (which must
/// then be a valid reference), else none.
pub fn job_image(option: Option<DockerImageUrl>, config_image: Option<String>) -> (r: Result<
    Option<DockerImageUrl>,
    ImageRefError,
>)
    ensures
        match (option, config_image) {
            (Some(o), _) => r matches Ok(Some(u)) && u@ == o@,
            (None, None) => r matches Ok(None),
            (None, Some(c)) => match parse_image_ref(c@) {
                Some(p) => r matches Ok(Some(u)) && u@ == p,
                None => r is Err,
            },
        },
{
    match option {
        Some(o) => Ok(Some(o)),
        None => match config_image {
            Some(c) => match DockerImageUrl::try_from(c) {
                Ok(u) => Ok(Some(u)),
                Err(e) => Err(e),
            },
            None => Ok(None),
        },
    }
}

} // verus!
