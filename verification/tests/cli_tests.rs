use coman::cli::{
    is_bare_string, parse_key_val, parse_key_val_colon, parse_toml_value, version, ConfigValue,
    EdfSpec, FileSource, JobIdOrName, ScriptSpec,
};
use coman::completion::{dedup_texts, id_completions, name_completions};
use coman::config::{
    config_file_name, get_config_dir, get_data_dir, layered_get,
    project_config_candidates, set_target, system_architectures, ComanConfig, ComputePlatform,
    ConfigError, CscsConfig, LayerChoice, SystemDescription,
};
use coman::cscs::{Job, JobStatus};
use coman::forward::{encode_secret, forwarded_ports, port_alpn, secret_key_bytes, split_text, SSH_PORT};
use coman::job::{
    job_description, render_edf, render_script, start_job_options, template_source, JobOptions,
    JobStartOptions, SubmitError, TemplateSource,
};
use coman::keyring::{stored_credentials, CredentialsError, Secret};
use coman::ssh::{
    connection_name, endpoint_file_name, endpoint_job_part, is_outdated_endpoint,
    live_endpoint_stems, remove_outdated_blocks, ssh_block_pattern, ssh_host_block,
    ssh_include_addition,
};
use coman::transfer::{
    download_progress_line, download_target, part_offset, s3_download, s3_upload, upload_part_line,
    DirectiveError, S3Upload,
};
use coman::usage::{parse_gpu_usage, top_label, trim_text, GpuChart, MemoryChart};

#[test]
fn test_job_id_or_name() {
    assert_eq!(JobIdOrName::from_str("123"), JobIdOrName::Id(123));
    assert_eq!(JobIdOrName::from_str("-5"), JobIdOrName::Id(-5));
    assert_eq!(JobIdOrName::from_str("train"), JobIdOrName::Name("train".to_string()));
    assert_eq!(JobIdOrName::from_str("12a"), JobIdOrName::Name("12a".to_string()));
}

#[test]
fn test_key_value_parsing() {
    assert_eq!(parse_key_val("A=b=c"), Ok(("A".to_string(), "b=c".to_string())));
    assert_eq!(parse_key_val("A="), Ok(("A".to_string(), "".to_string())));
    assert_eq!(
        parse_key_val("novalue"),
        Err("invalid KEY=value: no `=` found in `novalue`".to_string())
    );
    assert_eq!(parse_key_val_colon("/data:/mnt"), Ok(("/data".to_string(), "/mnt".to_string())));
    assert_eq!(
        parse_key_val_colon("x"),
        Err("invalid KEY:value: no `:` found in `x`".to_string())
    );
}

#[test]
fn test_bare_strings() {
    assert!(is_bare_string("daint"));
    assert!(is_bare_string(""));
    assert!(is_bare_string("  \n "));
    assert!(!is_bare_string("\"quoted"));
    assert!(!is_bare_string(" [1, 2"));
    assert!(!is_bare_string("x}"));
    assert!(is_bare_string(" a b "));
}

#[test]
fn test_parse_toml_value() {
    assert!(matches!(parse_toml_value("10"), Ok(ConfigValue::Parsed(_))));
    assert!(matches!(parse_toml_value("\"text\""), Ok(ConfigValue::Parsed(_))));
    assert!(matches!(parse_toml_value("daint"), Ok(ConfigValue::Bare(ref s)) if s == "daint"));
    assert!(parse_toml_value("[1, ").is_err());
    let v = parse_toml_value("daint").unwrap().into_toml();
    assert_eq!(v.as_str(), Some("daint"));
}

#[test]
fn test_file_sources() {
    assert_eq!(ScriptSpec::default().source(), FileSource::Generate);
    let s = ScriptSpec { generate_script: false, local_script: Some("a.sh".to_string()), remote_script: Some("b.sh".to_string()) };
    assert_eq!(s.source(), FileSource::Local("a.sh".to_string()));
    let e = EdfSpec { generate_edf: false, local_edf: None, remote_edf: Some("env.toml".to_string()) };
    assert_eq!(e.source(), FileSource::Remote("env.toml".to_string()));
    assert_eq!(template_source(FileSource::Generate, "T".to_string()), TemplateSource::Configured("T".to_string()));
    assert_eq!(template_source(FileSource::Remote("p".to_string()), "T".to_string()), TemplateSource::RemoteFile("p".to_string()));
}

#[test]
fn test_version_text() {
    assert_eq!(
        version("1.0-x (d)", "/p/coman.toml", "/c", "/d"),
        "1.0-x (d)\n\nProject config directory: /p/coman.toml\nConfig directory: /c\nData directory: /d"
    );
}

fn job(id: usize, name: &str, status: JobStatus) -> Job {
    Job { id, name: name.to_string(), status, user: String::new(), start_date: None, end_date: None }
}

#[test]
fn test_completions() {
    let jobs = vec![
        job(120, "train", JobStatus::Running),
        job(12, "eval", JobStatus::Pending),
        job(3, "train", JobStatus::Failed),
        job(1201, "test", JobStatus::Running),
    ];
    assert_eq!(
        id_completions(&jobs, 12),
        vec![
            ("12".to_string(), "eval".to_string()),
            ("120".to_string(), "train".to_string()),
            ("1201".to_string(), "test".to_string())
        ]
    );
    assert_eq!(name_completions(&jobs, "t"), vec!["test".to_string(), "train".to_string()]);
    assert_eq!(name_completions(&jobs, "x"), Vec::<String>::new());
    assert_eq!(
        dedup_texts(vec!["a".to_string(), "a".to_string(), "b".to_string(), "a".to_string()]),
        vec!["a".to_string(), "b".to_string(), "a".to_string()]
    );
}

#[test]
fn test_platforms_and_config() {
    assert_eq!(ComputePlatform::default(), ComputePlatform::HPC);
    assert_eq!(ComputePlatform::ML.name(), "ml");
    assert_eq!(ComputePlatform::parse("cw"), Some(ComputePlatform::CW));
    assert_eq!(ComputePlatform::parse("HPC"), None);
    let mut cscs = CscsConfig::default();
    cscs.systems.push(("daint".to_string(), SystemDescription { architecture: vec!["arm64".to_string()] }));
    assert_eq!(system_architectures(&cscs, "daint"), Some(&vec!["arm64".to_string()]));
    assert_eq!(system_architectures(&cscs, "eiger"), None);
    let c = ComanConfig::default();
    assert!(c.name.is_none());
    assert_eq!(config_file_name(), "coman.toml");
}

#[test]
fn test_config_folders() {
    assert_eq!(get_data_dir(Some("/env".to_string()), Some("/home/x/.local/share/coman".to_string())), "/env");
    assert_eq!(get_data_dir(None, Some("/p".to_string())), "/p");
    assert_eq!(get_data_dir(None, None), "./.data");
    assert_eq!(get_config_dir(None, None), "./.config");
    assert_eq!(
        project_config_candidates(&vec!["/a/b".to_string(), "/a".to_string(), "/".to_string()]),
        vec!["/a/b/coman.toml".to_string(), "/a/coman.toml".to_string(), "/coman.toml".to_string()]
    );
}

#[test]
fn test_layered_lookup() {
    let none: Result<Option<String>, String> = Ok(None);
    let val = |s: &str| -> Result<Option<String>, String> { Ok(Some(s.to_string())) };
    assert_eq!(layered_get(Some(val("project")), val("global"), val("default")), Ok("project".to_string()));
    assert_eq!(layered_get(Some(none.clone()), val("global"), val("default")), Ok("global".to_string()));
    assert_eq!(layered_get(None, none.clone(), val("default")), Ok("default".to_string()));
    assert_eq!(layered_get(None, none.clone(), none.clone()), Ok("".to_string()));
    assert_eq!(layered_get(Some(Err("bad".to_string())), val("global"), none.clone()), Err("bad".to_string()));
    assert_eq!(layered_get(Some(val("p")), Err("ignored".to_string()), none), Ok("p".to_string()));
}

#[test]
fn test_config_writes() {
    assert_eq!(set_target(true, false), Ok(LayerChoice::Global));
    assert_eq!(set_target(false, true), Ok(LayerChoice::Project));
    assert_eq!(set_target(false, false), Err(ConfigError::NoProjectConfig));
    assert_eq!(
        ConfigError::NoProjectConfig.message(),
        "No project config found, please create one with `coman init`"
    );
}

#[test]
fn test_ssh_names_and_blocks() {
    assert_eq!(endpoint_file_name("daint", 42), "daint_42.endpoint");
    assert_eq!(connection_name("daint", "train", 42), "daint-train-42");
    assert_eq!(
        ssh_host_block("daint-train-42", "abc", "alice", "daint", 42),
        "\n#Start daint-train-42\nHost daint-train-42\n    Hostname abc\n    User alice\n    ProxyCommand coman proxy daint 42\n#End daint-train-42"
    );
    assert_eq!(ssh_include_addition("Host x\nInclude /d/ssh_config\n", "/d/ssh_config"), None);
    assert_eq!(
        ssh_include_addition("Host x\n", "/d/ssh_config"),
        Some("\n\n#coman include\nMatch all\nInclude /d/ssh_config".to_string())
    );
}

#[test]
fn test_ssh_garbage_collection() {
    let jobs = vec![job(1, "a", JobStatus::Running), job(2, "b", JobStatus::Finished), job(3, "c", JobStatus::Pending)];
    let live = live_endpoint_stems(&jobs, "daint");
    assert_eq!(live, vec!["daint_1".to_string(), "daint_3".to_string()]);
    assert!(!is_outdated_endpoint("daint_1.endpoint", "daint", &live));
    assert!(is_outdated_endpoint("daint_2.endpoint", "daint", &live));
    assert!(!is_outdated_endpoint("eiger_2.endpoint", "daint", &live));
    assert!(!is_outdated_endpoint("daint_2.txt", "daint", &live));
    assert_eq!(endpoint_job_part("daint_2.endpoint"), "2");
    assert_eq!(endpoint_job_part("plain"), "plain");
    assert_eq!(ssh_block_pattern("daint", "2"), "(?ms)#Start daint_[^\\s]_2.*?#End daint_[^\\s]_2\n");
    let content = "keep\n#Start daint_x_2\nHost h\n#End daint_x_2\nrest\n".to_string();
    assert_eq!(
        remove_outdated_blocks(content.clone(), "daint", &vec!["2".to_string()]).unwrap(),
        "keep\nrest\n"
    );
    assert_eq!(remove_outdated_blocks(content.clone(), "daint", &vec![]).unwrap(), content);
    assert!(remove_outdated_blocks(content, "daint", &vec!["(".to_string()]).is_err());
}

#[test]
fn test_forwarded_ports() {
    assert_eq!(SSH_PORT, 15263);
    assert_eq!(forwarded_ports(None), Some(vec![(15263, "/iroh/ssh".to_string())]));
    assert_eq!(
        forwarded_ports(Some("8080,ssh")),
        Some(vec![
            (15263, "/iroh/ssh".to_string()),
            (8080, "/coman/8080".to_string()),
            (15263, "/iroh/ssh".to_string())
        ])
    );
    assert_eq!(forwarded_ports(Some("8080,x")), None);
    assert_eq!(forwarded_ports(Some("")), None);
    assert_eq!(port_alpn(22), "/coman/22");
    assert_eq!(split_text("a,,b", ','), vec!["a".to_string(), "".to_string(), "b".to_string()]);
    assert_eq!(split_text("", ','), vec!["".to_string()]);
}

#[test]
fn test_secret_round_trip() {
    let key: Vec<u8> = (0u8..32).collect();
    let text = encode_secret(&key);
    assert_eq!(secret_key_bytes(&text), Some(key.clone()));
    let mut longer = key.clone();
    longer.extend_from_slice(&[7, 7]);
    assert_eq!(secret_key_bytes(&encode_secret(&longer)), Some(key));
    assert_eq!(secret_key_bytes(&encode_secret(&vec![1, 2, 3])), None);
    assert_eq!(secret_key_bytes("not base64!"), None);
    assert_eq!(encode_secret(&vec![0, 1, 2]), "AAEC");
}

#[test]
fn test_job_description() {
    let options = JobOptions {
        script: None,
        script_path: Some("/s/script.sh".to_string()),
        working_dir: None,
        envvars: vec![],
        stdout: None,
        stderr: None,
    };
    let d = job_description("test", None, options).unwrap();
    assert_eq!(d.working_directory, "/");
    assert_eq!(d.name, "test");
    let empty = JobOptions { script: None, script_path: None, working_dir: None, envvars: vec![], stdout: None, stderr: None };
    assert!(matches!(job_description("test", None, empty), Err(SubmitError::NoScript)));
    assert_eq!(SubmitError::NoScript.message(), "either script or script_path must be set");
}

#[test]
fn test_start_job() {
    let o = start_job_options("/test", vec![], &JobStartOptions::default());
    assert_eq!(o.script_path, Some("/test".to_string()));
    assert_eq!(o.working_dir, Some("/".to_string()));
    let o = start_job_options("/scratch/alice/job/script.sh", vec![], &JobStartOptions::default());
    assert_eq!(o.working_dir, Some("/scratch/alice/job".to_string()));
    let d = job_description("test", None, o).unwrap();
    assert_eq!(d.working_directory, "/scratch/alice/job");
}

#[test]
fn test_template_rendering() {
    let edf = render_edf(
        "image = \"{{ edf_image }}\"\nworkdir = \"{{ container_workdir }}\"\n{% for k, v in env %}{{ k }}={{ v }};{% endfor %}{% if iroh_secret %}S{% endif %}",
        Some("ghcr.io#test/ubuntu:latest".to_string()),
        None,
        "/scratch",
        vec![("B".to_string(), "2".to_string()), ("A".to_string(), "1".to_string())],
        vec![],
        None,
        None,
        None,
    )
    .unwrap();
    assert_eq!(edf, "image = \"ghcr.io#test/ubuntu:latest\"\nworkdir = \"/scratch\"\nA=1;B=2;");
    let script = render_script("#!/bin/bash\n#SBATCH --job-name={{ name }}\n{{ command }}", "job", "sleep 1", "/e.toml", "/w", None).unwrap();
    assert_eq!(script, "#!/bin/bash\n#SBATCH --job-name=job\nsleep 1");
    assert!(render_script("{{ missing", "job", "c", "/e", "/w", None).is_err());
}

#[test]
fn test_credentials() {
    let s = Secret::new("x".to_string());
    assert_eq!(s.shown(), "<redacted>");
    assert_eq!(s.debug_shown(), "Secret(<redacted>)");
    assert!(stored_credentials(Some(Secret::new("id".to_string())), Some(Secret::new("s".to_string()))).is_ok());
    assert!(matches!(stored_credentials(None, Some(s)), Err(CredentialsError::NotLoggedIn)));
}

#[test]
fn test_transfer_upload() {
    let u = S3Upload::convert(
        Some("http://complete".to_string()),
        Some(vec!["http://test/".to_string()]),
        Some(10000),
        100,
    )
    .unwrap();
    assert_eq!(u.num_parts, 1);
    assert_eq!(u.part_size, 10000);
    assert_eq!(u.parts_upload_urls.len(), 1);
    assert_eq!(u.parts_upload_urls, vec![reqwest::Url::parse("http://test/").unwrap()]);
    assert_eq!(u.complete_upload_url, reqwest::Url::parse("http://complete").unwrap());
    let u = S3Upload::convert(Some("http://c".to_string()), Some(vec![]), Some(100), 10001).unwrap();
    assert_eq!(u.num_parts, 101);
    assert!(matches!(S3Upload::convert(None, Some(vec![]), Some(1), 1), Err(DirectiveError::NoCompletionUrl)));
    assert!(matches!(S3Upload::convert(Some("http://c".to_string()), None, Some(1), 1), Err(DirectiveError::NoPartUrls)));
    assert!(matches!(S3Upload::convert(Some("http://c".to_string()), Some(vec![]), None, 1), Err(DirectiveError::NoPartSize)));
    assert!(matches!(
        S3Upload::convert(Some("not a url".to_string()), Some(vec![]), Some(1), 1),
        Err(DirectiveError::BadUrl)
    ));
    assert_eq!(part_offset(3, 100), 300);
    assert_eq!(upload_part_line(0, 2, 5 * 1024 * 1024), "Uploading part 1/2 (5Mb)");
    assert_eq!(download_progress_line(3 * 1048576, 10 * 1048576), "\rDownloaded 3/10Mb");
    assert_eq!(download_target("/tmp", true, Some("a.txt".to_string())), Some("/tmp/a.txt".to_string()));
    assert_eq!(download_target("/tmp/b.txt", false, None), Some("/tmp/b.txt".to_string()));
    assert_eq!(download_target("/tmp", true, None), None);
}

#[test]
fn test_gpu_usage() {
    assert_eq!(
        parse_gpu_usage("81920, 1024\n40960,0\n"),
        Some(vec![(81920 * 1048576, 1024 * 1048576), (40960 * 1048576, 0)])
    );
    assert_eq!(parse_gpu_usage(""), Some(vec![]));
    assert_eq!(parse_gpu_usage("1, 2\r\n"), Some(vec![(1048576, 2097152)]));
    assert_eq!(parse_gpu_usage("1 2"), None);
    assert_eq!(parse_gpu_usage("1, x"), None);
    assert_eq!(trim_text("  a b \t"), "a b");
}

#[test]
fn test_usage_charts() {
    let mut g = GpuChart::new();
    g.record(&vec![5, 9], 100);
    g.record(&vec![7, 3, 11], 101);
    assert_eq!(g.max_y, 11);
    assert_eq!(g.series.len(), 3);
    assert_eq!(g.series[0], vec![(100, 5), (101, 7)]);
    assert_eq!(g.series[2], vec![(101, 11)]);
    let mut m = MemoryChart::new();
    m.record(10, 20, 1);
    m.record(5, 4, 2);
    assert_eq!(m.max_y, 20);
    assert_eq!(m.rss, vec![(1, 10), (2, 5)]);
    assert_eq!(top_label(1024), "1.0 KiB");
}

#[test]
fn test_transfer_download() {
    let result = s3_download(1, Some(Some("http://download".to_string()))).unwrap();
    assert_eq!(result.0, 1);
    assert_eq!(result.1, reqwest::Url::parse("http://download").unwrap());
    assert!(matches!(s3_download(1, None), Err(DirectiveError::NotS3)));
    assert!(matches!(s3_download(1, Some(Some("no url".to_string()))), Err(DirectiveError::BadUrl)));
    assert_eq!(DirectiveError::NotS3.message(), "didn't get S3 transfer directive");
}

#[test]
fn test_s3_upload_directives() {
    let (job, upload) = s3_upload(
        7,
        Some((Some("http://complete".to_string()), Some(vec!["http://test/".to_string()]), Some(10000))),
        100,
    )
    .unwrap();
    assert_eq!(job, 7);
    assert_eq!(upload.num_parts, 1);
    assert_eq!(upload.complete_upload_url, reqwest::Url::parse("http://complete").unwrap());
    assert_eq!(upload.parts_upload_urls, vec![reqwest::Url::parse("http://test/").unwrap()]);
    assert!(matches!(s3_upload(7, None, 100), Err(DirectiveError::NotS3)));
    assert!(matches!(s3_upload(7, Some((None, Some(vec![]), Some(1))), 1), Err(DirectiveError::NoCompletionUrl)));
}

#[test]
fn test_template_contexts() {
    let c = coman::job::edf_context(
        Some("img".to_string()),
        None,
        "/w",
        vec![("A".to_string(), "1".to_string())],
        vec![("/src".to_string(), "/dst".to_string())],
        None,
        None,
        None,
    );
    assert_eq!(c.get("edf_image").and_then(|v| v.as_str()), Some("img"));
    assert!(!c.contains_key("port_forward"));
    assert_eq!(c.get("container_workdir").and_then(|v| v.as_str()), Some("/w"));
    assert_eq!(c.get("env").and_then(|v| v.get("A")).and_then(|v| v.as_str()), Some("1"));
    assert_eq!(c.get("mount").and_then(|v| v.get("/src")).and_then(|v| v.as_str()), Some("/dst"));
    assert!(c.get("ssh_public_key").map(|v| v.is_null()).unwrap_or(false));
    let s = coman::job::script_context("job", "sleep 1", "/e.toml", "/w", None);
    assert_eq!(s.get("name").and_then(|v| v.as_str()), Some("job"));
    assert!(!s.contains_key("coman_squash"));
}
