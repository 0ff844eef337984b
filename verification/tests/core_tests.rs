use coman::cscs::{first_listed, listed_or_empty};
use coman::cscs::{
    find_system, scratch_path, FileSystem, FileSystemType, Job, JobDetail, JobMetadataParts,
    JobModelParts, JobStatus, ListingError, PathEntry, PathType, ServiceType, ServicesHealth, System,
};
use coman::docker::{
    distinct_platforms, image_supports_system, DockerImageUrl, ImageRefError, OciPlatform,
};
use coman::handlers::{
    cancel_check, check_job_connectable, choose_job_name, container_mounts, container_workdir, delete_target,
    download_plan, download_transfer_step, endpoint_id_start, job_base_path, job_command,
    job_environment, job_image, job_log_message, job_log_path, multipart_completion_body, port_forward_setting,
    root_entry, squash_download_url, squash_transfer_step, squash_upload_decision, upload_plan,
    CancelError, ConnectError, DownloadPlan, JobLogError, RemoteFileError, SquashUpload, TransferStep, UploadPlan,
    CSCS_MAX_DIRECT_SIZE,
};
use coman::pairs::merge_pairs;
use coman::text::{
    contains, decimal_text, ends_with, find_char, join_path, join_texts, parse_i64_text,
    parse_unsigned_text, signed_decimal_text, split_once, starts_with,
};

fn parsed(s: &str) -> (Option<String>, String, Option<String>, Option<String>) {
    let u = DockerImageUrl::from_str(s).expect("couldn't parse image");
    (u.registry, u.image, u.tag, u.digest)
}

fn some(s: &str) -> Option<String> {
    Some(s.to_string())
}

#[test]
fn test_docker_parsing_plain_name() {
    assert_eq!(parsed("ubuntu"), (None, "ubuntu".to_string(), None, None));
}

#[test]
fn test_docker_parsing_tag() {
    assert_eq!(
        parsed("nvidia/cuda:13.1.1-cudnn-devel-ubuntu24.04"),
        (None, "nvidia/cuda".to_string(), some("13.1.1-cudnn-devel-ubuntu24.04"), None)
    );
}

#[test]
fn test_docker_parsing_digest() {
    assert_eq!(
        parsed("nvidia/cuda@sha256:deadbeef"),
        (None, "nvidia/cuda".to_string(), None, some("deadbeef"))
    );
}

#[test]
fn test_docker_parsing_registry_tag_digest() {
    assert_eq!(
        parsed("docker.io/library/hello-world:latest@sha256:deadbeef"),
        (some("docker.io"), "library/hello-world".to_string(), some("latest"), some("deadbeef"))
    );
}

#[test]
fn test_docker_parsing_long_path() {
    assert_eq!(
        parsed("ghcr.io/swissdatasciencecenter/renku-frontend-buildpacks/run-image:0.2.1"),
        (
            some("ghcr.io"),
            "swissdatasciencecenter/renku-frontend-buildpacks/run-image".to_string(),
            some("0.2.1"),
            None
        )
    );
}

#[test]
fn test_docker_parsing_dotted_tag() {
    assert_eq!(
        parsed("test.ghcr.io/a/b/c/d/e:a-1.f-2"),
        (some("test.ghcr.io"), "a/b/c/d/e".to_string(), some("a-1.f-2"), None)
    );
}

#[test]
fn test_docker_parsing_rejects_missing_image() {
    assert!(matches!(DockerImageUrl::from_str(""), Err(ImageRefError::NoImagePath)));
    assert!(matches!(DockerImageUrl::from_str(":tag"), Err(ImageRefError::NoImagePath)));
    assert!(DockerImageUrl::try_from("ubuntu".to_string()).is_ok());
}

#[test]
fn test_edf_plain() {
    let image = DockerImageUrl { registry: None, image: "ubuntu".to_string(), tag: None, digest: None };
    assert_eq!(image.to_edf(), "ubuntu");
}

#[test]
fn test_edf_full() {
    let image = DockerImageUrl {
        registry: some("ghcr.io"),
        image: "test/ubuntu".to_string(),
        tag: some("latest"),
        digest: some("deadbeef"),
    };
    assert_eq!(image.to_edf(), "ghcr.io#test/ubuntu:latest@sha256:deadbeef");
    assert_eq!(image.to_text(), "ghcr.io/test/ubuntu:latest@sha256:deadbeef");
}

#[test]
fn test_docker_text_round_trip() {
    for s in [
        "ubuntu",
        "nvidia/cuda:13.1.1-cudnn-devel-ubuntu24.04",
        "docker.io/library/hello-world:latest@sha256:deadbeef",
        "test.ghcr.io/a/b/c/d/e:a-1.f-2",
    ] {
        let u = DockerImageUrl::from_str(s).unwrap();
        assert_eq!(u.to_text(), s);
    }
}

#[test]
fn test_platforms() {
    assert_eq!(OciPlatform::from_name("arm64"), OciPlatform::arm64);
    assert_eq!(OciPlatform::from_name("amd64"), OciPlatform::amd64);
    assert_eq!(OciPlatform::from_name("riscv"), OciPlatform::Other);
    assert_eq!(OciPlatform::amd64.name(), "amd64");
    let platforms = vec![OciPlatform::arm64, OciPlatform::amd64, OciPlatform::arm64];
    let distinct = distinct_platforms(&platforms);
    assert_eq!(distinct.len(), 2);
    assert!(image_supports_system(&platforms, &vec!["amd64".to_string()]));
    assert!(!image_supports_system(&vec![OciPlatform::arm64], &vec!["amd64".to_string()]));
    assert!(!image_supports_system(&platforms, &vec![]));
}

#[test]
fn test_decimal_texts() {
    assert_eq!(decimal_text(0), "0");
    assert_eq!(decimal_text(1234567), "1234567");
    assert_eq!(signed_decimal_text(-42), "-42");
    assert_eq!(signed_decimal_text(i64::MIN), "-9223372036854775808");
}

#[test]
fn test_number_parsing() {
    assert_eq!(parse_unsigned_text("65535", 65535), Some(65535));
    assert_eq!(parse_unsigned_text("65536", 65535), None);
    assert_eq!(parse_unsigned_text("+7", 65535), Some(7));
    assert_eq!(parse_unsigned_text("", 65535), None);
    assert_eq!(parse_unsigned_text("1a", 65535), None);
    assert_eq!(parse_i64_text("-12"), Some(-12));
    assert_eq!(parse_i64_text("9223372036854775807"), Some(i64::MAX));
    assert_eq!(parse_i64_text("9223372036854775808"), None);
    assert_eq!(parse_i64_text("-9223372036854775808"), Some(i64::MIN));
    assert_eq!(parse_i64_text("-"), None);
}

#[test]
fn test_text_search() {
    assert!(starts_with("daint_12.endpoint", "daint"));
    assert!(!starts_with("da", "daint"));
    assert!(ends_with("daint_12.endpoint", ".endpoint"));
    assert!(contains("Host x\nInclude /a/b", "Include /a/b"));
    assert!(!contains("Host x", "Include"));
    assert_eq!(find_char("a=b=c", '='), Some(1));
    assert_eq!(find_char("abc", '='), None);
    assert_eq!(split_once("a=b=c", '='), Some(("a".to_string(), "b=c".to_string())));
}

#[test]
fn test_path_join() {
    assert_eq!(join_path("/scratch", "user"), "/scratch/user");
    assert_eq!(join_path("/scratch/", "user"), "/scratch/user");
    assert_eq!(join_path("", "user"), "user");
    assert_eq!(join_path("/scratch", "/abs"), "/abs");
    assert_eq!(join_texts(&vec!["a".to_string(), "b".to_string()], ","), "a,b");
    assert_eq!(join_texts(&vec![], ","), "");
}

fn job(id: usize, name: &str, status: JobStatus, start: Option<i64>) -> Job {
    Job { id, name: name.to_string(), status, user: "u".to_string(), start_date: start, end_date: None }
}

#[test]
fn test_list_jobs() {
    let states = ["RUNNING", "FAILED", "COMPLETED", "PENDING", "CANCELLED"];
    let mut jobs = vec![];
    for (i, s) in states.iter().enumerate() {
        let j = Job::from_model((i + 1) as i64, format!("Job{}", i + 1), s, None, None, None);
        jobs.push(j);
    }
    assert_eq!(jobs.len(), 5);
    assert_eq!(jobs[0].status, JobStatus::Running);
    assert_eq!(jobs[1].status, JobStatus::Failed);
    assert_eq!(jobs[2].status, JobStatus::Finished);
    assert_eq!(jobs[3].status, JobStatus::Pending);
    assert_eq!(jobs[4].status, JobStatus::Cancelled);
    assert_eq!(jobs[4].user, "");
}

#[test]
fn test_job_status_names() {
    assert_eq!(JobStatus::from_state("TIMEOUT"), JobStatus::Timeout);
    assert_eq!(JobStatus::from_state("COMPLETED"), JobStatus::Finished);
    assert_eq!(JobStatus::Finished.name(), "Finished");
}

#[test]
fn test_get_job() {
    let model = JobModelParts {
        job_id: 1,
        name: "Job1".to_string(),
        state: "RUNNING".to_string(),
        state_reason: None,
        exit_code: None,
        user: None,
        start: None,
        end: None,
    };
    let meta = JobMetadataParts { standard_input: None, standard_output: some("/out"), standard_error: None };
    let detail = JobDetail::from_parts(model, meta);
    assert_eq!(detail.id, 1);
    assert_eq!(detail.name, "Job1");
    assert_eq!(detail.status, JobStatus::Running);
    assert_eq!(detail.stdout, "/out");
    assert_eq!(detail.stderr, "");
}

fn system(name: &str) -> System {
    System { name: name.to_string(), file_systems: vec![], services_health: None }
}

#[test]
fn test_list_systems() {
    let systems = vec![system("daint"), system("eiger")];
    assert_eq!(systems.len(), 2);
    let found = find_system(&systems, "daint");
    assert_eq!(found, Some(0));
    assert_eq!(systems[found.unwrap()].name, "daint");
    assert_eq!(find_system(&systems, "eiger"), Some(1));
    assert_eq!(find_system(&systems, "alps"), None);
}

#[test]
fn test_scratch_path() {
    let mut s = system("daint");
    s.file_systems.push(FileSystem::from_parts(FileSystemType::Users, None, "/users".to_string()));
    assert_eq!(scratch_path(&s), None);
    s.file_systems.push(FileSystem::from_parts(FileSystemType::Scratch, Some(true), "/capstor/scratch".to_string()));
    s.file_systems.push(FileSystem::from_parts(FileSystemType::Scratch, None, "/other".to_string()));
    assert_eq!(scratch_path(&s), some("/capstor/scratch"));
    assert!(s.file_systems[1].default_work_dir);
    assert!(!s.file_systems[0].default_work_dir);
}

#[test]
fn test_file_system_types() {
    assert_eq!(FileSystemType::parse("scratch"), Some(FileSystemType::Scratch));
    assert_eq!(FileSystemType::parse("Scratch"), None);
    assert_eq!(FileSystemType::Project.name(), "Project");
    assert_eq!(ServiceType::parse("ssh"), Some(ServiceType::Ssh));
    let h = ServicesHealth::from_parts(None, ServiceType::S3, None);
    assert!(!h.healthy);
    assert_eq!(h.message, "");
}

#[test]
fn test_listing_entries() {
    let e = PathEntry::from_listing("a.txt".to_string(), "-", "rw-r--r--".to_string(), "12").unwrap();
    assert_eq!(e.path_type, PathType::File);
    assert_eq!(e.size, Some(12));
    assert_eq!(e.permissions, some("rw-r--r--"));
    let d = PathEntry::from_listing("dir".to_string(), "d", "rwx".to_string(), "4096").unwrap();
    assert_eq!(d.path_type, PathType::Directory);
    assert!(matches!(
        PathEntry::from_listing("x".to_string(), "-", "r".to_string(), "big"),
        Err(ListingError::BadSize)
    ));
    assert!(matches!(
        PathEntry::from_listing("x".to_string(), "l", "r".to_string(), "1"),
        Err(ListingError::UnknownType)
    ));
}

fn entry(name: &str, t: PathType, size: Option<usize>) -> PathEntry {
    PathEntry { name: name.to_string(), path_type: t, permissions: None, size }
}

#[test]
fn test_download_plan() {
    assert_eq!(download_plan(&vec![]), Err(RemoteFileError::PathMissing));
    assert_eq!(download_plan(&vec![entry("d", PathType::Directory, None)]), Err(RemoteFileError::IsDirectory));
    assert_eq!(download_plan(&vec![entry("f", PathType::File, None)]), Err(RemoteFileError::UnknownSize));
    assert_eq!(download_plan(&vec![entry("f", PathType::File, Some(10))]), Ok(DownloadPlan::Direct));
    assert_eq!(
        download_plan(&vec![entry("f", PathType::File, Some(CSCS_MAX_DIRECT_SIZE))]),
        Ok(DownloadPlan::Transfer(5242880))
    );
}

#[test]
fn test_delete_check() {
    assert_eq!(delete_target(&vec![], "/scratch/x"), Err(RemoteFileError::PathMissing));
    assert_eq!(delete_target(&vec![entry("d", PathType::Directory, None)], "/scratch/d"), Ok("/scratch/d".to_string()));
    assert_eq!(delete_target(&vec![entry("f", PathType::File, Some(1))], "/scratch/f"), Ok("/scratch/f".to_string()));
    assert_eq!(RemoteFileError::PathMissing.message(), "remote path doesn't exist");
    assert_eq!(RemoteFileError::IsDirectory.message(), "remote path must be a file, not directory");
    assert_eq!(RemoteFileError::RemoteFileExists.message(), "remote file already exists");
}

#[test]
fn test_upload_plan() {
    match upload_plan(&vec![], "/scratch/a.txt", Some("a.txt"), 10) {
        Ok(UploadPlan::Direct(p)) => assert_eq!(p, "/scratch/a.txt"),
        _ => panic!("expected a direct upload"),
    }
    match upload_plan(&vec![entry("x", PathType::Directory, None), entry("y", PathType::File, None)], "/scratch", Some("a.txt"), 6000000) {
        Ok(UploadPlan::Transfer(p, n)) => {
            assert_eq!(p, "/scratch/a.txt");
            assert_eq!(n, 6000000);
        }
        _ => panic!("expected a transfer"),
    }
    assert!(matches!(
        upload_plan(&vec![entry("a.txt", PathType::File, Some(3))], "/scratch/a.txt", Some("a.txt"), 10),
        Err(RemoteFileError::RemoteFileExists)
    ));
    assert!(matches!(
        upload_plan(&vec![entry("x", PathType::Directory, None), entry("y", PathType::File, None)], "/scratch", None, 10),
        Err(RemoteFileError::NoLocalFileName)
    ));
}

fn detail(status: JobStatus, stdout: &str, stderr: &str) -> JobDetail {
    JobDetail {
        id: 7,
        name: "j".to_string(),
        start_date: None,
        end_date: None,
        status,
        status_reason: String::new(),
        exit_code: 0,
        user: "u".to_string(),
        stdout: stdout.to_string(),
        stderr: stderr.to_string(),
        stdin: String::new(),
    }
}

#[test]
fn test_job_log_path() {
    assert_eq!(job_log_path(&None, false), Err(JobLogError::JobNotFound));
    let d = Some(detail(JobStatus::Running, "/out", ""));
    assert_eq!(job_log_path(&d, false), Ok("/out".to_string()));
    assert_eq!(job_log_path(&d, true), Err(JobLogError::NoLog));
    assert_eq!(job_log_message(JobLogError::JobNotFound, 42, false), "couldn't find job 42");
    assert_eq!(job_log_message(JobLogError::NoLog, 42, true), "No stderr log exists for job 42");
    assert_eq!(job_log_message(JobLogError::NoLog, 7, false), "No stdout log exists for job 7");
}

#[test]
fn test_connectable() {
    assert_eq!(check_job_connectable(&None), Err(ConnectError::JobMissing));
    assert_eq!(check_job_connectable(&Some(detail(JobStatus::Pending, "", ""))), Err(ConnectError::JobNotRunning));
    assert_eq!(check_job_connectable(&Some(detail(JobStatus::Running, "", ""))), Ok(()));
    assert_eq!(endpoint_id_start(64), Ok(0));
    assert_eq!(endpoint_id_start(70), Ok(6));
    assert_eq!(endpoint_id_start(10), Err(ConnectError::BadEndpointLength));
}

#[test]
fn test_job_settings() {
    assert_eq!(choose_job_name(some("mine"), some("proj"), "alice"), "mine");
    assert_eq!(choose_job_name(None, some("proj"), "alice"), "proj");
    assert_eq!(choose_job_name(None, None, "alice"), "alice-coman");
    assert_eq!(container_workdir(None, None), "/scratch");
    assert_eq!(container_workdir(None, some("/w")), "/w");
    assert_eq!(container_workdir(some("/o"), some("/w")), "/o");
    assert_eq!(job_base_path("/scratch", "alice", "job"), "/scratch/alice/job");
    assert_eq!(job_command(&None, &vec!["sleep".to_string(), "1".to_string()]), "sleep 1");
    assert_eq!(job_command(&Some(vec!["echo".to_string()]), &vec!["sleep".to_string()]), "echo");
}

fn pair(a: &str, b: &str) -> (String, String) {
    (a.to_string(), b.to_string())
}

#[test]
fn test_environment_merge() {
    let config = vec![pair("A", "1"), pair("B", "2")];
    let job = vec![pair("B", "3"), pair("C", "4")];
    let mut env = job_environment(&config, &job);
    env.sort();
    assert_eq!(env, vec![pair("A", "1"), pair("B", "3"), pair("C", "4")]);
    let mut merged = merge_pairs(&vec![pair("K", "1"), pair("K", "2")], &vec![]);
    merged.sort();
    assert_eq!(merged, vec![pair("K", "2")]);
}

#[test]
fn test_container_mounts() {
    let mut m = container_mounts(&vec![pair("/data", "/data")]);
    m.sort();
    assert_eq!(m, vec![pair("${SCRATCH}", "/scratch"), pair("/data", "/data")]);
    let m = container_mounts(&vec![pair("${SCRATCH}", "/mnt")]);
    assert_eq!(m, vec![pair("${SCRATCH}", "/mnt")]);
}

#[test]
fn test_port_forward_setting() {
    assert_eq!(port_forward_setting(&vec![8080, 22], &vec!["1".to_string()]), some("8080,22"));
    assert_eq!(port_forward_setting(&vec![], &vec!["1".to_string(), "2".to_string()]), some("1,2"));
    assert_eq!(port_forward_setting(&vec![], &vec![]), None);
}

#[test]
fn test_squash_decisions() {
    assert!(squash_download_url("arm64").unwrap().ends_with("coman_Linux-aarch64.sqsh"));
    assert!(squash_download_url("amd64").unwrap().ends_with("coman_Linux-x86_64.sqsh"));
    assert_eq!(squash_download_url("riscv"), None);
    assert_eq!(squash_upload_decision(&None, 10), SquashUpload::Upload);
    assert_eq!(squash_upload_decision(&Some(vec![]), 10), SquashUpload::Upload);
    assert_eq!(squash_upload_decision(&Some(vec![entry("c", PathType::File, Some(10))]), 10), SquashUpload::Reuse);
    assert_eq!(
        squash_upload_decision(&Some(vec![entry("c", PathType::File, Some(9))]), 10),
        SquashUpload::ReplaceThenUpload
    );
}

#[test]
fn test_transfer_steps() {
    assert_eq!(squash_transfer_step(Some(JobStatus::Finished)), TransferStep::Done);
    assert_eq!(squash_transfer_step(Some(JobStatus::Timeout)), TransferStep::Failed);
    assert_eq!(squash_transfer_step(None), TransferStep::Wait);
    assert_eq!(download_transfer_step(Some(JobStatus::Timeout)), TransferStep::TimedOut);
    assert_eq!(download_transfer_step(Some(JobStatus::Cancelled)), TransferStep::Failed);
    assert_eq!(download_transfer_step(Some(JobStatus::Running)), TransferStep::Wait);
}

#[test]
fn test_multipart_completion_body() {
    let etags = vec!["e1".to_string(), "e2".to_string()];
    assert_eq!(
        multipart_completion_body(&etags, false),
        "<CompleteMultipartUpload><Part><PartNumber>1</PartNumber><ETag>e1</ETag></Part><Part><PartNumber>2</PartNumber><ETag>e2</ETag></Part></CompleteMultipartUpload>"
    );
    assert!(multipart_completion_body(&etags, true).starts_with("<CompleteMultipartUpload xmlns="));
}

#[test]
fn test_root_entry() {
    let e = root_entry("/scratch", "alice", true);
    assert_eq!(e.name, "/scratch/alice");
    assert_eq!(e.path_type, PathType::Directory);
    let e = root_entry("/scratch", "alice", false);
    assert_eq!(e.name, "/scratch");
}

#[test]
fn test_job_image() {
    assert!(matches!(job_image(None, None), Ok(None)));
    match job_image(None, some("ubuntu:22.04")) {
        Ok(Some(u)) => assert_eq!(u.to_text(), "ubuntu:22.04"),
        _ => panic!("expected an image"),
    }
    assert!(job_image(None, some("")).is_err());
    let given = DockerImageUrl::from_str("alpine").unwrap();
    match job_image(Some(given), some("")) {
        Ok(Some(u)) => assert_eq!(u.image, "alpine"),
        _ => panic!("expected the given image"),
    }
}

#[test]
fn test_cancel_check() {
    assert_eq!(cancel_check(&None), Err(CancelError::JobMissing));
    assert_eq!(cancel_check(&Some(detail(JobStatus::Pending, "", ""))), Err(CancelError::JobNotRunning));
    assert_eq!(cancel_check(&Some(detail(JobStatus::Finished, "", ""))), Err(CancelError::JobNotRunning));
    assert_eq!(cancel_check(&Some(detail(JobStatus::Running, "", ""))), Ok(()));
    assert_eq!(CancelError::JobNotRunning.message(12), "job 12 isn't running");
    assert_eq!(CancelError::JobMissing.message(12), "couldn't find job 12");
}

#[test]
fn test_cscs_listings() {
    assert_eq!(listed_or_empty::<i64>(None), Vec::<i64>::new());
    assert_eq!(listed_or_empty(Some(vec![3, 4])), vec![3, 4]);
    assert_eq!(first_listed::<i64>(None), None);
    assert_eq!(first_listed::<i64>(Some(vec![])), None);
    assert_eq!(first_listed(Some(vec![7, 8, 9])), Some(7));
}
