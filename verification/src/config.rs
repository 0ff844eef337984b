//! The configuration: its values, where its files live, and how the
//! project, global and default layers are combined.
use vstd::prelude::*;
use crate::text::path_join;

verus! {

/// The CSCS platform that jobs run on.
#[derive(Debug, Clone, Copy, PartialEq, Eq, Structural)]
pub enum ComputePlatform {
    HPC,
    ML,
    CW,
}

impl Default for ComputePlatform {
    fn default() -> (r: ComputePlatform)
        ensures
            r == ComputePlatform::HPC,
    {
        ComputePlatform::HPC
    }
}

pub open spec fn platform_name(p: ComputePlatform) -> Seq<char> {
    match p {
        ComputePlatform::HPC => "hpc"@,
        ComputePlatform::ML => "ml"@,
        ComputePlatform::CW => "cw"@,
    }
}

impl ComputePlatform {
    /// The platform's name in lower case, as configs and URLs write it.
    pub fn name(&self) -> (r: &'static str)
        ensures
            r@ == platform_name(*self),
    {
        match self {
            ComputePlatform::HPC => "hpc",
            ComputePlatform::ML => "ml",
            ComputePlatform::CW => "cw",
        }
    }

    /// The platform with this name; `None` for any other text.
    pub fn parse(s: &str) -> (r: Option<ComputePlatform>)
        ensures
            match r {
                Some(p) => platform_name(p) == s@,
                None => forall|p: ComputePlatform| platform_name(p) != s@,
            },
    {
        proof {
            reveal_strlit("hpc");
            reveal_strlit("ml");
            reveal_strlit("cw");
        }
        if crate::docker::str_equal(s, "hpc") {
            Some(ComputePlatform::HPC)
        } else if crate::docker::str_equal(s, "ml") {
            Some(ComputePlatform::ML)
        } else if crate::docker::str_equal(s, "cw") {
            Some(ComputePlatform::CW)
        } else {
            proof {
                assert forall|p: ComputePlatform| platform_name(p) != s@ by {
                    match p {
                        ComputePlatform::HPC => {},
                        ComputePlatform::ML => {},
                        ComputePlatform::CW => {},
                    }
                }
            }
            None
        }
    }
}

/// What a system's config says of it: the CPU architectures it runs.
#[derive(Debug, Clone)]
pub struct SystemDescription {
    pub architecture: Vec<String>,
}

/// The CSCS part of the configuration.
#[derive(Debug, Clone)]
pub struct CscsConfig {
    pub current_system: String,
    pub current_platform: ComputePlatform,
    pub account: Option<String>,
    pub sbatch_script_template: String,
    pub workdir: Option<String>,
    pub env: Vec<(String, String)>,
    pub port_forward: Vec<String>,
    pub image: Option<String>,
    pub edf_file_template: String,
    pub ssh_key: Option<String>,
    pub command: Vec<String>,
    pub systems: Vec<(String, SystemDescription)>,
}

impl Default for CscsConfig {
    fn default() -> (r: CscsConfig)
        ensures
            r.current_system@.len() == 0,
            r.current_platform == ComputePlatform::HPC,
            r.account is None,
            r.sbatch_script_template@.len() == 0,
            r.workdir is None,
            r.env@.len() == 0,
            r.port_forward@.len() == 0,
            r.image is None,
            r.edf_file_template@.len() == 0,
            r.ssh_key is None,
            r.command@.len() == 0,
            r.systems@.len() == 0,
    {
        CscsConfig {
            current_system: String::new(),
            current_platform: ComputePlatform::HPC,
            account: None,
            sbatch_script_template: String::new(),
            workdir: None,
            env: Vec::new(),
            port_forward: Vec::new(),
            image: None,
            edf_file_template: String::new(),
            ssh_key: None,
            command: Vec::new(),
            systems: Vec::new(),
        }
    }
}

/// The whole configuration.
#[derive(Debug, Clone)]
pub struct ComanConfig {
    pub name: Option<String>,
    pub coman_squash_path: Option<String>,
    pub cscs: CscsConfig,
}

impl Default for ComanConfig {
    fn default() -> (r: ComanConfig)
        ensures
            r.name is None,
            r.coman_squash_path is None,
            r.cscs.current_system@.len() == 0,
            r.cscs.current_platform == ComputePlatform::HPC,
            r.cscs.env@.len() == 0,
            r.cscs.systems@.len() == 0,
    {
        ComanConfig { name: None, coman_squash_path: None, cscs: CscsConfig::default() }
    }
}

/// The architectures configured for a system: those of its first entry;
/// `None` where the system has no entry.
pub fn system_architectures<'a>(config: &'a CscsConfig, system: &str) -> (r: Option<&'a Vec<String>>)
    ensures
        match r {
            Some(a) => exists|i: int|
                0 <= i < config.systems@.len() && config.systems@[i].0@ == system@ && *a
                    == config.systems@[i].1.architecture && forall|j: int|
                    0 <= j < i ==> config.systems@[j].0@ != system@,
            None => forall|j: int| 0 <= j < config.systems@.len() ==> config.systems@[j].0@ != system@,
        },
{
    let mut i: usize = 0;
    while i < config.systems.len()
        invariant
            i <= config.systems@.len(),
            forall|j: int| 0 <= j < i ==> config.systems@[j].0@ != system@,
        decreases config.systems.len() - i,
    {
        if crate::docker::str_equal(config.systems[i].0.as_str(), system) {
            return Some(&config.systems[i].1.architecture);
        }
        i = i + 1;
    }
    None
}

/// The name of the config file, in the config folder and in projects.
pub fn config_file_name() -> (r: &'static str)
    ensures
        r@ == "coman.toml"@,
{
    "coman.toml"
}

/// The environment variable that overrides the data folder.
pub fn data_folder_variable() -> (r: &'static str)
    ensures
        r@ == "COMAN_DATA"@,
{
    "COMAN_DATA"
}

/// The environment variable that overrides the config folder.
pub fn config_folder_variable() -> (r: &'static str)
    ensures
        r@ == "COMAN_CONFIG"@,
{
    "COMAN_CONFIG"
}

/// A folder: the one the environment names, else the platform's folder for
/// the application, else `fallback` below the current folder.
pub open spec fn chosen_dir(env_override: Option<String>, platform_dir: Option<String>, fallback: Seq<char>) -> Seq<char> {
    match (env_override, platform_dir) {
        (Some(e), _) => e@,
        (None, Some(p)) => p@,
        (None, None) => path_join("."@, fallback),
    }
}

/// The data folder.
pub fn get_data_dir(env_override: Option<String>, platform_dir: Option<String>) -> (r: String)
    ensures
        r@ == chosen_dir(env_override, platform_dir, ".data"@),
{
    match env_override {
        Some(e) => e,
        None => match platform_dir {
            Some(p) => p,
            None => crate::text::join_path(".", ".data"),
        },
    }
}

/// The config folder.
pub fn get_config_dir(env_override: Option<String>, platform_dir: Option<String>) -> (r: String)
    ensures
        r@ == chosen_dir(env_override, platform_dir, ".config"@),
{
    match env_override {
        Some(e) => e,
        None => match platform_dir {
            Some(p) => p,
            None => crate::text::join_path(".", ".config"),
        },
    }
}

/// The places where a project config file is looked for, nearest first:
/// the config file name in each of the given folders (the current folder
/// and then its ancestors).
pub fn project_config_candidates(folders: &Vec<String>) -> (r: Vec<String>)
    ensures
        r@.len() == folders@.len(),
        forall|i: int| 0 <= i < r@.len() ==> #[trigger] r@[i]@ == path_join(folders@[i]@, "coman.toml"@),
{
    let mut r: Vec<String> = Vec::new();
    let mut i: usize = 0;
    while i < folders.len()
        invariant
            i <= folders@.len(),
            r@.len() == i,
            forall|k: int| 0 <= k < i ==> #[trigger] r@[k]@ == path_join(folders@[k]@, "coman.toml"@),
        decreases folders.len() - i,
    {
        r.push(crate::text::join_path(folders[i].as_str(), config_file_name()));
        i = i + 1;
    }
    r
}

/// A config value, looked up in the project layer (where there is one),
/// then in the global layer, then in the defaults; the first layer that
/// has it gives it, and the first error ends the lookup. Missing
/// everywhere, the value is empty.
pub open spec fn layered<E>(
    project: Option<Result<Option<String>, E>>,
    global: Result<Option<String>, E>,
    default: Result<Option<String>, E>,
) -> Result<Seq<char>, E> {
    match project {
        Some(Err(e)) => Err(e),
        Some(Ok(Some(v))) => Ok(v@),
        _ => match global {
            Err(e) => Err(e),
            Ok(Some(v)) => Ok(v@),
            Ok(None) => match default {
                Err(e) => Err(e),
                Ok(Some(v)) => Ok(v@),
                Ok(None) => Ok(Seq::empty()),
            },
        },
    }
}

/// Combines the lookups of a config value in the layers (see `layered`).
pub fn layered_get<E>(
    project: Option<Result<Option<String>, E>>,
    global: Result<Option<String>, E>,
    default: Result<Option<String>, E>,
) -> (r: Result<String, E>)
    ensures
        match (r, layered(project, global, default)) {
            (Ok(s), Ok(t)) => s@ == t,
            (Err(e), Err(f)) => e == f,
            _ => false,
        },
{
    match project {
        Some(Err(e)) => {
            return Err(e);
        },
        Some(Ok(Some(v))) => {
            return Ok(v);
        },
        _ => {},
    }
    match global {
        Err(e) => Err(e),
        Ok(Some(v)) => Ok(v),
        Ok(None) => match default {
            Err(e) => Err(e),
            Ok(Some(v)) => Ok(v),
            Ok(None) => Ok(String::new()),
        },
    }
}

/// The layer a value is written to.
#[derive(Debug, Clone, Copy, PartialEq, Eq, Structural)]
pub enum LayerChoice {
    Global,
    Project,
}

/// Why a config value cannot be written.
#[derive(Debug, Clone, PartialEq, Eq)]
pub enum ConfigError {
    /// A project value is to be written but there is no project config.
    NoProjectConfig,
}

impl ConfigError {
    /// The message shown for the error.
    pub fn message(&self) -> (r: String)
        ensures
            *self == ConfigError::NoProjectConfig ==> r@
                == "No project config found, please create one with `coman init`"@,
    {
        match self {
            ConfigError::NoProjectConfig => String::from_str(
                "No project config found, please create one with `coman init`",
            ),
        }
    }
}

/// Where a value is written: the global layer when asked for, else the
/// project layer, which must exist.
pub fn set_target(global: bool, has_project: bool) -> (r: Result<LayerChoice, ConfigError>)
    ensures
        global ==> r == Ok::<LayerChoice, ConfigError>(LayerChoice::Global),
        !global && has_project ==> r == Ok::<LayerChoice, ConfigError>(LayerChoice::Project),
        !global && !has_project ==> r == Err::<LayerChoice, ConfigError>(ConfigError::NoProjectConfig),
{
    if global {
        Ok(LayerChoice::Global)
    } else if has_project {
        Ok(LayerChoice::Project)
    } else {
        Err(ConfigError::NoProjectConfig)
    }
}

} // verus!
