//! The CSCS data model: users, systems, file systems, jobs and remote paths,
//! and how the answers of the FirecREST API become values of it.
use vstd::prelude::*;
use crate::docker::str_equal;
use crate::text::{parse_unsigned, parse_unsigned_text};

verus! {

/// A CSCS user.
#[derive(Debug, Clone)]
pub struct UserInfo {
    pub id: String,
    pub name: String,
    pub group: String,
}

/// The kinds of storage a CSCS system offers.
#[derive(Debug, Clone, Copy, PartialEq, Eq, Structural)]
pub enum FileSystemType {
    Users,
    Store,
    Archive,
    Apps,
    Scratch,
    Project,
}

/// The file system type that the API calls `name`.
pub open spec fn fs_type_named(name: Seq<char>) -> Option<FileSystemType> {
    if name == "users"@ {
        Some(FileSystemType::Users)
    } else if name == "store"@ {
        Some(FileSystemType::Store)
    } else if name == "archive"@ {
        Some(FileSystemType::Archive)
    } else if name == "apps"@ {
        Some(FileSystemType::Apps)
    } else if name == "scratch"@ {
        Some(FileSystemType::Scratch)
    } else if name == "project"@ {
        Some(FileSystemType::Project)
    } else {
        None
    }
}

impl FileSystemType {
    /// The type that the API calls `name`; `None` for a name it does not use.
    pub fn parse(name: &str) -> (r: Option<FileSystemType>)
        ensures
            r == fs_type_named(name@),
    {
        if str_equal(name, "users") {
            Some(FileSystemType::Users)
        } else if str_equal(name, "store") {
            Some(FileSystemType::Store)
        } else if str_equal(name, "archive") {
            Some(FileSystemType::Archive)
        } else if str_equal(name, "apps") {
            Some(FileSystemType::Apps)
        } else if str_equal(name, "scratch") {
            Some(FileSystemType::Scratch)
        } else if str_equal(name, "project") {
            Some(FileSystemType::Project)
        } else {
            None
        }
    }

    /// The type's display name.
    pub fn name(&self) -> (r: &'static str)
        ensures
            *self == FileSystemType::Users ==> r@ == "Users"@,
            *self == FileSystemType::Store ==> r@ == "Store"@,
            *self == FileSystemType::Archive ==> r@ == "Archive"@,
            *self == FileSystemType::Apps ==> r@ == "Apps"@,
            *self == FileSystemType::Scratch ==> r@ == "Scratch"@,
            *self == FileSystemType::Project ==> r@ == "Project"@,
    {
        match self {
            FileSystemType::Users => "Users",
            FileSystemType::Store => "Store",
            FileSystemType::Archive => "Archive",
            FileSystemType::Apps => "Apps",
            FileSystemType::Scratch => "Scratch",
            FileSystemType::Project => "Project",
        }
    }
}

/// A file system of a CSCS system.
#[derive(Debug, Clone)]
pub struct FileSystem {
    pub data_type: FileSystemType,
    pub default_work_dir: bool,
    pub path: String,
}

impl FileSystem {
    /// A file system from the API's description; the work directory flag
    /// defaults to `false`.
    pub fn from_parts(data_type: FileSystemType, default_work_dir: Option<bool>, path: String) -> (r:
        FileSystem)
        ensures
            r.data_type == data_type,
            r.default_work_dir == (default_work_dir == Some(true)),
            r.path == path,
    {
        FileSystem {
            data_type,
            default_work_dir: match default_work_dir {
                Some(b) => b,
                None => false,
            },
            path,
        }
    }
}

/// Whether a remote path is a directory or a file.
#[derive(Debug, Clone, Copy, PartialEq, Eq, Structural)]
pub enum PathType {
    Directory,
    File,
}

impl PathType {
    /// The type's display name.
    pub fn name(&self) -> (r: &'static str)
        ensures
            *self == PathType::Directory ==> r@ == "Directory"@,
            *self == PathType::File ==> r@ == "File"@,
    {
        match self {
            PathType::Directory => "Directory",
            PathType::File => "File",
        }
    }
}

/// An entry of a remote directory listing.
#[derive(Debug, Clone)]
pub struct PathEntry {
    pub name: String,
    pub path_type: PathType,
    pub permissions: Option<String>,
    pub size: Option<usize>,
}

/// The path type that a listing's type column `kind` stands for: `d` for
/// directories, `-` for files.
pub open spec fn path_type_named(kind: Seq<char>) -> Option<PathType> {
    if kind == "d"@ {
        Some(PathType::Directory)
    } else if kind == "-"@ {
        Some(PathType::File)
    } else {
        None
    }
}

/// Why an entry of a directory listing cannot be read.
#[derive(Debug, Clone, PartialEq, Eq, Structural)]
pub enum ListingError {
    BadSize,
    UnknownType,
}

impl PathEntry {
    /// A listing entry from the API's columns: the size must be a decimal
    /// number that fits a `usize`, the type `d` or `-`.
    pub fn from_listing(name: String, kind: &str, permissions: String, size: &str) -> (r: Result<
        PathEntry,
        ListingError,
    >)
        ensures
            parse_unsigned(size@, usize::MAX as nat) is None ==> r == Err::<PathEntry, ListingError>(
                ListingError::BadSize,
            ),
            parse_unsigned(size@, usize::MAX as nat) is Some && path_type_named(kind@) is None ==> r
                == Err::<PathEntry, ListingError>(ListingError::UnknownType),
            match (parse_unsigned(size@, usize::MAX as nat), path_type_named(kind@)) {
                (Some(n), Some(t)) => r matches Ok(e) && e.name == name && e.path_type == t
                    && e.permissions == Some(permissions) && e.size == Some(n as usize),
                _ => r is Err,
            },
    {
        proof {
            assert((usize::MAX as u64) as nat == usize::MAX as nat);
        }
        let n = match parse_unsigned_text(size, usize::MAX as u64) {
            Some(n) => n as usize,
            None => {
                return Err(ListingError::BadSize);
            },
        };
        let path_type = if str_equal(kind, "d") {
            PathType::Directory
        } else if str_equal(kind, "-") {
            PathType::File
        } else {
            return Err(ListingError::UnknownType);
        };
        Ok(PathEntry { name, path_type, permissions: Some(permissions), size: Some(n) })
    }
}

/// The size of a remote file.
#[derive(Debug, Clone)]
pub struct FileStat {
    pub size: i64,
}

/// The state of a job on a CSCS system.
#[derive(Debug, Clone, Copy, PartialEq, Eq, Structural)]
pub enum JobStatus {
    Pending,
    Running,
    Finished,
    Cancelled,
    Failed,
    Timeout,
}

/// The status that the scheduler's state `state` stands for.
pub open spec fn job_status_named(state: Seq<char>) -> Option<JobStatus> {
    if state == "RUNNING"@ {
        Some(JobStatus::Running)
    } else if state == "FAILED"@ {
        Some(JobStatus::Failed)
    } else if state == "COMPLETED"@ {
        Some(JobStatus::Finished)
    } else if state == "CANCELLED"@ {
        Some(JobStatus::Cancelled)
    } else if state == "PENDING"@ {
        Some(JobStatus::Pending)
    } else if state == "TIMEOUT"@ {
        Some(JobStatus::Timeout)
    } else {
        None
    }
}

impl JobStatus {
    /// The status for the scheduler's state `state`, which must be one of
    /// the states the scheduler uses.
    pub fn from_state(state: &str) -> (r: JobStatus)
        requires
            job_status_named(state@) is Some,
        ensures
            Some(r) == job_status_named(state@),
    {
        if str_equal(state, "RUNNING") {
            JobStatus::Running
        } else if str_equal(state, "FAILED") {
            JobStatus::Failed
        } else if str_equal(state, "COMPLETED") {
            JobStatus::Finished
        } else if str_equal(state, "CANCELLED") {
            JobStatus::Cancelled
        } else if str_equal(state, "PENDING") {
            JobStatus::Pending
        } else {
            JobStatus::Timeout
        }
    }

    /// The status's display name.
    pub fn name(&self) -> (r: &'static str)
        ensures
            *self == JobStatus::Pending ==> r@ == "Pending"@,
            *self == JobStatus::Running ==> r@ == "Running"@,
            *self == JobStatus::Finished ==> r@ == "Finished"@,
            *self == JobStatus::Cancelled ==> r@ == "Cancelled"@,
            *self == JobStatus::Failed ==> r@ == "Failed"@,
            *self == JobStatus::Timeout ==> r@ == "Timeout"@,
    {
        match self {
            JobStatus::Pending => "Pending",
            JobStatus::Running => "Running",
            JobStatus::Finished => "Finished",
            JobStatus::Cancelled => "Cancelled",
            JobStatus::Failed => "Failed",
            JobStatus::Timeout => "Timeout",
        }
    }
}

/// The statuses in the order the UI lists them.
pub open spec fn all_statuses() -> Seq<JobStatus> {
    seq![
        JobStatus::Pending,
        JobStatus::Running,
        JobStatus::Finished,
        JobStatus::Cancelled,
        JobStatus::Failed,
        JobStatus::Timeout,
    ]
}

/// The job states in the scheduler's order.
pub fn status_list() -> (r: Vec<JobStatus>)
    ensures
        r@ == all_statuses(),
{
    let r = vec![
        JobStatus::Pending,
        JobStatus::Running,
        JobStatus::Finished,
        JobStatus::Cancelled,
        JobStatus::Failed,
        JobStatus::Timeout,
    ];
    assert(r@ =~= all_statuses());
    r
}

/// A job as the job list shows it; dates are Unix timestamps in seconds.
#[derive(Debug, Clone)]
pub struct Job {
    pub id: usize,
    pub name: String,
    pub status: JobStatus,
    pub user: String,
    pub start_date: Option<i64>,
    pub end_date: Option<i64>,
}

/// The text of `o`, or the empty text.
pub open spec fn text_or_empty(o: Option<String>) -> Seq<char> {
    match o {
        Some(s) => s@,
        None => Seq::empty(),
    }
}

/// `o`'s string, or a new empty one.
pub fn string_or_empty(o: Option<String>) -> (r: String)
    ensures
        r@ == text_or_empty(o),
{
    match o {
        Some(s) => s,
        None => String::new(),
    }
}

impl Job {
    /// A job from the scheduler's description, whose state must be one the
    /// scheduler uses.
    pub fn from_model(
        job_id: i64,
        name: String,
        state: &str,
        user: Option<String>,
        start: Option<i64>,
        end: Option<i64>,
    ) -> (j: Job)
        requires
            job_status_named(state@) is Some,
        ensures
            j.id == job_id as usize && j.name == name && Some(j.status) == job_status_named(state@)
                && j.user@ == text_or_empty(user) && j.start_date == start && j.end_date == end,
    {
        Job {
            id: job_id as usize,
            name,
            status: JobStatus::from_state(state),
            user: string_or_empty(user),
            start_date: start,
            end_date: end,
        }
    }
}

/// Everything the scheduler knows about one job; dates are Unix timestamps
/// in seconds.
#[derive(Debug, Clone)]
pub struct JobDetail {
    pub id: usize,
    pub name: String,
    pub start_date: Option<i64>,
    pub end_date: Option<i64>,
    pub status: JobStatus,
    pub status_reason: String,
    pub exit_code: i64,
    pub user: String,
    pub stdout: String,
    pub stderr: String,
    pub stdin: String,
}

/// The scheduler's description of a job.
#[derive(Debug, Clone)]
pub struct JobModelParts {
    pub job_id: i64,
    pub name: String,
    pub state: String,
    pub state_reason: Option<String>,
    pub exit_code: Option<i64>,
    pub user: Option<String>,
    pub start: Option<i64>,
    pub end: Option<i64>,
}

/// The scheduler's metadata of a job: where its standard streams go.
#[derive(Debug, Clone)]
pub struct JobMetadataParts {
    pub standard_input: Option<String>,
    pub standard_output: Option<String>,
    pub standard_error: Option<String>,
}

impl JobDetail {
    /// The details of a job from its description and metadata, whose state
    /// must be one the scheduler uses. Missing texts become empty, a missing
    /// exit code 0.
    pub fn from_parts(job: JobModelParts, meta: JobMetadataParts) -> (d: JobDetail)
        requires
            job_status_named(job.state@) is Some,
        ensures
            d.id == job.job_id as usize && d.name == job.name && Some(d.status) == job_status_named(
                job.state@,
            ) && d.start_date == job.start && d.end_date == job.end && d.status_reason@
                == text_or_empty(job.state_reason) && d.exit_code == (match job.exit_code {
                Some(c) => c,
                None => 0,
            }) && d.user@ == text_or_empty(job.user) && d.stdout@ == text_or_empty(
                meta.standard_output,
            ) && d.stderr@ == text_or_empty(meta.standard_error) && d.stdin@ == text_or_empty(
                meta.standard_input,
            ),
    {
        let status = JobStatus::from_state(job.state.as_str());
        JobDetail {
            id: job.job_id as usize,
            name: job.name,
            start_date: job.start,
            end_date: job.end,
            status,
            status_reason: string_or_empty(job.state_reason),
            exit_code: match job.exit_code {
                Some(c) => c,
                None => 0,
            },
            user: string_or_empty(job.user),
            stdout: string_or_empty(meta.standard_output),
            stderr: string_or_empty(meta.standard_error),
            stdin: string_or_empty(meta.standard_input),
        }
    }
}

/// The services whose health a CSCS system reports.
#[derive(Debug, Clone, Copy, PartialEq, Eq, Structural)]
pub enum ServiceType {
    Scheduler,
    Filesystem,
    Ssh,
    S3,
    Exception,
}

/// The service that the API calls `name`.
pub open spec fn service_type_named(name: Seq<char>) -> Option<ServiceType> {
    if name == "scheduler"@ {
        Some(ServiceType::Scheduler)
    } else if name == "filesystem"@ {
        Some(ServiceType::Filesystem)
    } else if name == "ssh"@ {
        Some(ServiceType::Ssh)
    } else if name == "s3"@ {
        Some(ServiceType::S3)
    } else if name == "exception"@ {
        Some(ServiceType::Exception)
    } else {
        None
    }
}

impl ServiceType {
    /// The service that the API calls `name`; `None` for a name it does not
    /// use.
    pub fn parse(name: &str) -> (r: Option<ServiceType>)
        ensures
            r == service_type_named(name@),
    {
        if str_equal(name, "scheduler") {
            Some(ServiceType::Scheduler)
        } else if str_equal(name, "filesystem") {
            Some(ServiceType::Filesystem)
        } else if str_equal(name, "ssh") {
            Some(ServiceType::Ssh)
        } else if str_equal(name, "s3") {
            Some(ServiceType::S3)
        } else if str_equal(name, "exception") {
            Some(ServiceType::Exception)
        } else {
            None
        }
    }

    /// The service's display name.
    pub fn name(&self) -> (r: &'static str)
        ensures
            *self == ServiceType::Scheduler ==> r@ == "Scheduler"@,
            *self == ServiceType::Filesystem ==> r@ == "Filesystem"@,
            *self == ServiceType::Ssh ==> r@ == "Ssh"@,
            *self == ServiceType::S3 ==> r@ == "S3"@,
            *self == ServiceType::Exception ==> r@ == "Exception"@,
    {
        match self {
            ServiceType::Scheduler => "Scheduler",
            ServiceType::Filesystem => "Filesystem",
            ServiceType::Ssh => "Ssh",
            ServiceType::S3 => "S3",
            ServiceType::Exception => "Exception",
        }
    }
}

/// The health of one service of a system.
#[derive(Debug, Clone)]
pub struct ServicesHealth {
    pub healthy: bool,
    pub service_type: ServiceType,
    pub message: String,
}

impl ServicesHealth {
    /// A service's health from the API's report; missing values mean
    /// unhealthy and an empty message.
    pub fn from_parts(healthy: Option<bool>, service_type: ServiceType, message: Option<String>) -> (r:
        ServicesHealth)
        ensures
            r.healthy == (healthy == Some(true)),
            r.service_type == service_type,
            r.message@ == text_or_empty(message),
    {
        ServicesHealth {
            healthy: match healthy {
                Some(b) => b,
                None => false,
            },
            service_type,
            message: string_or_empty(message),
        }
    }
}

/// A CSCS system (cluster).
#[derive(Debug, Clone)]
pub struct System {
    pub name: String,
    pub file_systems: Vec<FileSystem>,
    pub services_health: Option<Vec<ServicesHealth>>,
}

/// The position of the first system named `name`, if any.
pub fn find_system(systems: &Vec<System>, name: &str) -> (r: Option<usize>)
    ensures
        match r {
            Some(i) => i < systems@.len() && systems@[i as int].name@ == name@ && forall|j: int|
                0 <= j < i ==> systems@[j].name@ != name@,
            None => forall|j: int| 0 <= j < systems@.len() ==> systems@[j].name@ != name@,
        },
{
    let mut i: usize = 0;
    while i < systems.len()
        invariant
            i <= systems@.len(),
            forall|j: int| 0 <= j < i ==> systems@[j].name@ != name@,
        decreases systems.len() - i,
    {
        if str_equal(systems[i].name.as_str(), name) {
            return Some(i);
        }
        i = i + 1;
    }
    None
}

/// The path of the first scratch file system of `system`, if it has one.
pub fn scratch_path(system: &System) -> (r: Option<String>)
    ensures
        match r {
            Some(p) => exists|i: int|
                0 <= i < system.file_systems@.len() && system.file_systems@[i].data_type
                    == FileSystemType::Scratch && system.file_systems@[i].path@ == p@ && forall|
                    j: int,
                | 0 <= j < i ==> system.file_systems@[j].data_type != FileSystemType::Scratch,
            None => forall|j: int|
                0 <= j < system.file_systems@.len() ==> system.file_systems@[j].data_type
                    != FileSystemType::Scratch,
        },
{
    let mut i: usize = 0;
    while i < system.file_systems.len()
        invariant
            i <= system.file_systems@.len(),
            forall|j: int|
                0 <= j < i ==> system.file_systems@[j].data_type != FileSystemType::Scratch,
        decreases system.file_systems.len() - i,
    {
        if system.file_systems[i].data_type == FileSystemType::Scratch {
            return Some(system.file_systems[i].path.clone());
        }
        i = i + 1;
    }
    None
}

/// The entries of a listing that the CSCS API may leave out: none where it
/// does.
pub fn listed_or_empty<T>(listing: Option<Vec<T>>) -> (r: Vec<T>)
    ensures
        match listing {
            Some(v) => r@ == v@,
            None => r@ == Seq::<T>::empty(),
        },
{
    match listing {
        Some(v) => v,
        None => Vec::new(),
    }
}

/// The first entry of a listing that the CSCS API may leave out or send
/// empty (as a job and its metadata are fetched): none where there is none.
pub fn first_listed<T>(listing: Option<Vec<T>>) -> (r: Option<T>)
    ensures
        match listing {
            Some(v) => if v.len() > 0 {
                r == Some(v@[0])
            } else {
                r is None
            },
            None => r is None,
        },
{
    match listing {
        Some(v) => {
            let mut v = v;
            if v.len() > 0 {
                Some(v.remove(0))
            } else {
                None
            }
        },
        None => None,
    }
}

} // verus!
