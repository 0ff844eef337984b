//! Submitting a job: the options a job is started with, the description
//! sent to the scheduler, and the values the script and EDF templates are
//! rendered with.
use vstd::prelude::*;
use std::collections::BTreeMap;
use crate::cli::FileSource;
use crate::docker::DockerImageUrl;
use crate::pairs::pair_texts;

verus! {

/// How a job is started.
#[derive(Debug, Clone)]
pub struct JobStartOptions {
    pub script_file: Option<String>,
    pub image: Option<DockerImageUrl>,
    pub command: Option<Vec<String>>,
    pub stdout: Option<String>,
    pub stderr: Option<String>,
    pub container_workdir: Option<String>,
    pub env: Vec<(String, String)>,
    pub mount: Vec<(String, String)>,
    pub port_forward: Vec<u16>,
    pub edf_spec: FileSource,
    pub script_spec: FileSource,
    pub no_ssh: bool,
    pub ssh_key: Option<String>,
    pub no_coman: bool,
}

impl Default for JobStartOptions {
    fn default() -> (r: JobStartOptions)
        ensures
            r.script_file is None,
            r.image is None,
            r.command is None,
            r.stdout is None,
            r.stderr is None,
            r.container_workdir is None,
            r.env@.len() == 0,
            r.mount@.len() == 0,
            r.port_forward@.len() == 0,
            r.edf_spec == FileSource::Generate,
            r.script_spec == FileSource::Generate,
            !r.no_ssh,
            r.ssh_key is None,
            !r.no_coman,
    {
        JobStartOptions {
            script_file: None,
            image: None,
            command: None,
            stdout: None,
            stderr: None,
            container_workdir: None,
            env: Vec::new(),
            mount: Vec::new(),
            port_forward: Vec::new(),
            edf_spec: FileSource::Generate,
            script_spec: FileSource::Generate,
            no_ssh: false,
            ssh_key: None,
            no_coman: false,
        }
    }
}

/// What a job is submitted with: its script (inline or as a path on the
/// system), working folder, environment and standard streams.
#[derive(Debug, Clone)]
pub struct JobOptions {
    pub script: Option<String>,
    pub script_path: Option<String>,
    pub working_dir: Option<String>,
    pub envvars: Vec<(String, String)>,
    pub stdout: Option<String>,
    pub stderr: Option<String>,
}

/// The job as the scheduler is asked to run it.
#[derive(Debug, Clone)]
pub struct JobDescription {
    pub name: String,
    pub script: Option<String>,
    pub script_path: Option<String>,
    pub working_directory: String,
    pub env: Vec<(String, String)>,
    pub standard_output: Option<String>,
    pub standard_error: Option<String>,
    pub account: Option<String>,
}

/// Why a job cannot be submitted.
#[derive(Debug, Clone, Copy, PartialEq, Eq, Structural)]
pub enum SubmitError {
    /// Neither a script nor a script path is given.
    NoScript,
}

impl SubmitError {
    pub fn message(&self) -> (r: &'static str)
        ensures
            r@ == "either script or script_path must be set"@,
    {
        "either script or script_path must be set"
    }
}

pub open spec fn text_or(o: Option<String>, d: Seq<char>) -> Seq<char> {
    match o {
        Some(s) => s@,
        None => d,
    }
}

/// The description of a job to submit: the options as given, the working
/// folder `/` where none is given; an error where no script is given.
pub fn job_description(name: &str, account: Option<String>, options: JobOptions) -> (r: Result<
    JobDescription,
    SubmitError,
>)
    ensures
        options.script is None && options.script_path is None ==> r == Err::<JobDescription, SubmitError>(
            SubmitError::NoScript,
        ),
        options.script is Some || options.script_path is Some ==> (r matches Ok(d) && d.name@
            == name@ && d.script == options.script && d.script_path == options.script_path
            && d.working_directory@ == text_or(options.working_dir, "/"@) && d.env
            == options.envvars && d.standard_output == options.stdout && d.standard_error
            == options.stderr && d.account == account),
{
    if options.script.is_none() && options.script_path.is_none() {
        return Err(SubmitError::NoScript);
    }
    let working_directory = match options.working_dir {
        Some(w) => w,
        None => String::from_str("/"),
    };
    Ok(
        JobDescription {
            name: String::from_str(name),
            script: options.script,
            script_path: options.script_path,
            working_directory,
            env: options.envvars,
            standard_output: options.stdout,
            standard_error: options.stderr,
            account,
        },
    )
}

/// The folder that holds a path, as `Path::parent` gives it on the target's
/// path syntax: `None` for a root, a prefix or the empty path.
pub uninterp spec fn path_parent(p: Seq<char>) -> Option<Seq<char>>;

/// `std::path::Path::parent`, with its result named by `path_parent`.
#[verifier::external_body]
fn parent_of(p: &str) -> (r: Option<String>)
    ensures
        match path_parent(p@) {
            Some(q) => r matches Some(s) && s@ == q,
            None => r is None,
        },
{
    match std::path::Path::new(p).parent() {
        Some(q) => Some(q.to_string_lossy().into_owned()),
        None => None,
    }
}

/// What a job started from a script on the system is submitted with: the
/// script's folder is the working folder, and the streams are the ones
/// asked for.
pub fn start_job_options(script_path: &str, envvars: Vec<(String, String)>, options: &JobStartOptions) -> (r:
    JobOptions)
    ensures
        r.script is None,
        r.script_path matches Some(s) && s@ == script_path@,
        match path_parent(script_path@) {
            Some(q) => r.working_dir matches Some(w) && w@ == q,
            None => r.working_dir is None,
        },
        r.envvars == envvars,
        r.stdout == options.stdout,
        r.stderr == options.stderr,
{
    JobOptions {
        script: None,
        script_path: Some(String::from_str(script_path)),
        working_dir: parent_of(script_path),
        envvars,
        stdout: options.stdout.clone(),
        stderr: options.stderr.clone(),
    }
}

/// A value a template is rendered with, as the contracts see it.
pub enum TemplateValue {
    Text(Seq<char>),
    /// An empty value (a missing path).
    Null,
    /// A table of keys and values.
    Table(Map<Seq<char>, Seq<char>>),
}

/// The context type of `tera`.
#[verifier::external_type_specification]
#[verifier::external_body]
pub struct ExTeraContext(tera::Context);

/// The error of `tera`.
#[verifier::external_type_specification]
#[verifier::external_body]
pub struct ExTeraError(tera::Error);

/// The values a `tera` context holds, by name.
pub uninterp spec fn context_values(c: tera::Context) -> Map<Seq<char>, TemplateValue>;

/// No template values.
pub open spec fn no_values() -> Map<Seq<char>, TemplateValue> {
    Map::empty()
}

/// An empty context, by `tera::Context::new`.
#[verifier::external_body]
fn new_context() -> (r: tera::Context)
    ensures
        context_values(r) == no_values(),
{
    tera::Context::new()
}

/// Sets a text with `Context::insert`, which replaces an earlier value of
/// the name.
#[verifier::external_body]
fn insert_text(c: &mut tera::Context, key: &str, value: &str)
    ensures
        context_values(*final(c)) == context_values(*old(c)).insert(key@, TemplateValue::Text(value@)),
{
    c.insert(key, value)
}

/// Sets an empty value (`None`, which serializes to null) with
/// `Context::insert`.
#[verifier::external_body]
fn insert_null(c: &mut tera::Context, key: &str)
    ensures
        context_values(*final(c)) == context_values(*old(c)).insert(key@, TemplateValue::Null),
{
    c.insert(key, &Option::<String>::None)
}

/// The table is one that the pairs can make: its keys are the keys of the
/// pairs, and each key has one of the values given for it.
pub open spec fn table_of(m: Map<Seq<char>, Seq<char>>, p: Seq<(Seq<char>, Seq<char>)>) -> bool {
    &&& forall|k: Seq<char>| m.dom().contains(k) <==> exists|i: int| 0 <= i < p.len() && p[i].0 == k
    &&& forall|k: Seq<char>|
        #[trigger] m.dom().contains(k) ==> exists|i: int| 0 <= i < p.len() && p[i].0 == k && p[i].1 == m[k]
}

/// Sets a table with `Context::insert`, the pairs collected into a
/// `BTreeMap`. The table holds the keys of the pairs; of several pairs
/// with one key, which value is kept is left unsaid (std's documentation
/// does not say).
#[verifier::external_body]
fn insert_table(c: &mut tera::Context, key: &str, pairs: &Vec<(String, String)>)
    ensures
        context_values(*final(c)) == context_values(*old(c)).insert(key@, context_values(*final(c))[key@]),
        context_values(*final(c))[key@] is Table,
        table_of(context_values(*final(c))[key@]->Table_0, pair_texts(pairs@)),
{
    c.insert(key, &pairs.iter().cloned().collect::<BTreeMap<String, String>>())
}

/// Whether `tera`'s parser reads the text as a template; it depends on the
/// text alone.
pub uninterp spec fn template_parses(t: Seq<char>) -> bool;

/// A name that `tera` reads as a variable of the context: lower-case
/// letters, digits and `_`, starting with a letter other than `t` and `f`
/// (so that it cannot start a boolean literal).
pub open spec fn plain_name(k: Seq<char>) -> bool {
    &&& k.len() > 0
    &&& 'a' <= k[0] <= 'z'
    &&& k[0] != 't'
    &&& k[0] != 'f'
    &&& forall|i: int| 0 <= i < k.len() ==> ('a' <= #[trigger] k[i] <= 'z' || '0' <= k[i] <= '9' || k[i] == '_')
}

/// The template that prints the variable `k`: `k` between double braces.
pub open spec fn placeholder(k: Seq<char>) -> Seq<char> {
    seq!['\x7b', '\x7b'] + k + seq!['\x7d', '\x7d']
}

pub open spec fn ends_with(s: Seq<char>, x: Seq<char>) -> bool {
    x.len() <= s.len() && s.subrange(s.len() - x.len(), s.len() as int) == x
}

/// A template name for which the default `Tera` escapes HTML in what it
/// prints (`.html`, `.htm` and `.xml`).
pub open spec fn escapes_html(name: Seq<char>) -> bool {
    ||| ends_with(name, seq!['.', 'h', 't', 'm', 'l'])
    ||| ends_with(name, seq!['.', 'h', 't', 'm'])
    ||| ends_with(name, seq!['.', 'x', 'm', 'l'])
}

/// Renders a template with `tera`: `Tera::add_raw_template` under `name`,
/// which fails on a template that does not parse, then `Tera::render` with
/// the context. A template that is only the placeholder of a plain name `k` that
/// the context holds as a text, prints that text (unescaped under a name
/// that does not end in `.html`, `.htm` or `.xml`). Nothing more is stated
/// of the result: the default `Tera` offers templates the process
/// environment (`get_env`) and, with tera's `builtins` feature, the clock
/// (`now`) and random numbers (`get_random`).
#[verifier::external_body]
fn tera_render(name: &str, template: &str, c: &tera::Context) -> (r: Result<String, tera::Error>)
    ensures
        !template_parses(template@) ==> r is Err,
        forall|k: Seq<char>|
            plain_name(k) && template@ == #[trigger] placeholder(k) && !escapes_html(name@) && context_values(*c).dom().contains(k)
                && context_values(*c)[k] is Text ==> r is Ok && r->Ok_0@ == context_values(*c)[k]->Text_0,
{
    let mut tera = tera::Tera::default();
    tera.add_raw_template(name, template)?;
    tera.render(name, c)
}

fn insert_optional(c: &mut tera::Context, key: &str, value: &Option<String>)
    ensures
        context_values(*final(c)) == match value {
            Some(v) => context_values(*old(c)).insert(key@, TemplateValue::Text(v@)),
            None => context_values(*old(c)),
        },
{
    match value {
        Some(v) => insert_text(c, key, v.as_str()),
        None => {},
    }
}

fn insert_nullable(c: &mut tera::Context, key: &str, value: &Option<String>)
    ensures
        context_values(*final(c)) == context_values(*old(c)).insert(
            key@,
            match value {
                Some(v) => TemplateValue::Text(v@),
                None => TemplateValue::Null,
            },
        ),
{
    match value {
        Some(v) => insert_text(c, key, v.as_str()),
        None => insert_null(c, key),
    }
}

pub open spec fn with_optional(m: Map<Seq<char>, TemplateValue>, key: Seq<char>, o: Option<String>) -> Map<
    Seq<char>,
    TemplateValue,
> {
    match o {
        Some(v) => m.insert(key, TemplateValue::Text(v@)),
        None => m,
    }
}

pub open spec fn nullable(o: Option<String>) -> TemplateValue {
    match o {
        Some(v) => TemplateValue::Text(v@),
        None => TemplateValue::Null,
    }
}

/// The values of the EDF template: the image and forwarded ports where
/// there are any, the working folder, the environment and mounts (as
/// tables), the SSH
/// key and coman squash paths (empty where missing), and the endpoint
/// secret where there is one.
pub open spec fn edf_values(
    image: Option<String>,
    ports: Option<String>,
    workdir: Seq<char>,
    env: TemplateValue,
    mounts: TemplateValue,
    ssh_key: Option<String>,
    squash: Option<String>,
    secret: Option<String>,
) -> Map<Seq<char>, TemplateValue> {
    with_optional(
        with_optional(with_optional(no_values(), "edf_image"@, image), "port_forward"@, ports).insert(
            "container_workdir"@,
            TemplateValue::Text(workdir),
        ).insert("env"@, env).insert("mount"@, mounts).insert("ssh_public_key"@, nullable(ssh_key)).insert("coman_squash"@, nullable(squash)),
        "iroh_secret"@,
        secret,
    )
}

/// The context the container's EDF file is rendered with: the values of
/// `edf_values`, the environment and the mounts as tables of their pairs.
pub fn edf_context(
    image: Option<String>,
    ports: Option<String>,
    workdir: &str,
    env: Vec<(String, String)>,
    mounts: Vec<(String, String)>,
    ssh_key: Option<String>,
    squash: Option<String>,
    secret: Option<String>,
) -> (c: tera::Context)
    ensures
        context_values(c) == edf_values(
            image,
            ports,
            workdir@,
            context_values(c)["env"@],
            context_values(c)["mount"@],
            ssh_key,
            squash,
            secret,
        ),
        context_values(c)["env"@] matches TemplateValue::Table(m) && table_of(m, pair_texts(env@)),
        context_values(c)["mount"@] matches TemplateValue::Table(m) && table_of(m, pair_texts(mounts@)),
{
    let mut c = new_context();
    insert_optional(&mut c, "edf_image", &image);
    insert_optional(&mut c, "port_forward", &ports);
    insert_text(&mut c, "container_workdir", workdir);
    insert_table(&mut c, "env", &env);
    let ghost e = context_values(c)["env"@];
    insert_table(&mut c, "mount", &mounts);
    let ghost mt = context_values(c)["mount"@];
    proof {
        reveal_strlit("env");
        reveal_strlit("mount");
        reveal_strlit("ssh_public_key");
        reveal_strlit("coman_squash");
        reveal_strlit("iroh_secret");
        assert("env"@.len() == 3);
        assert("mount"@.len() == 5);
        assert("ssh_public_key"@.len() == 14);
        assert("coman_squash"@.len() == 12);
        assert("iroh_secret"@.len() == 11);
        assert("env"@ != "mount"@);
        assert(context_values(c)["env"@] == e);
    }
    insert_nullable(&mut c, "ssh_public_key", &ssh_key);
    proof {
        assert("env"@ != "ssh_public_key"@);
        assert("mount"@ != "ssh_public_key"@);
    }
    insert_nullable(&mut c, "coman_squash", &squash);
    proof {
        assert("env"@ != "coman_squash"@);
        assert("mount"@ != "coman_squash"@);
    }
    insert_optional(&mut c, "iroh_secret", &secret);
    proof {
        assert("env"@ != "iroh_secret"@);
        assert("mount"@ != "iroh_secret"@);
        assert(context_values(c)["env"@] == e);
        assert(context_values(c)["mount"@] == mt);
        assert(context_values(c) =~= edf_values(image, ports, workdir@, e, mt, ssh_key, squash, secret));
    }
    c
}

/// The values of the EDF template other than the environment and mount
/// tables (which stand as empty values here).
pub open spec fn edf_texts(
    image: Option<String>,
    ports: Option<String>,
    workdir: Seq<char>,
    ssh_key: Option<String>,
    squash: Option<String>,
    secret: Option<String>,
) -> Map<Seq<char>, TemplateValue> {
    edf_values(image, ports, workdir, TemplateValue::Null, TemplateValue::Null, ssh_key, squash, secret)
}

/// The texts of the EDF values do not depend on the tables.
proof fn lemma_edf_texts(
    image: Option<String>,
    ports: Option<String>,
    workdir: Seq<char>,
    env: TemplateValue,
    mounts: TemplateValue,
    ssh_key: Option<String>,
    squash: Option<String>,
    secret: Option<String>,
)
    ensures
        forall|k: Seq<char>|
            #[trigger] edf_texts(image, ports, workdir, ssh_key, squash, secret).dom().contains(k) && edf_texts(
                image,
                ports,
                workdir,
                ssh_key,
                squash,
                secret,
            )[k] is Text ==> edf_values(image, ports, workdir, env, mounts, ssh_key, squash, secret).dom().contains(
                k,
            ) && edf_values(image, ports, workdir, env, mounts, ssh_key, squash, secret)[k] == edf_texts(
                image,
                ports,
                workdir,
                ssh_key,
                squash,
                secret,
            )[k],
{
    reveal_strlit("env");
    reveal_strlit("mount");
    reveal_strlit("ssh_public_key");
    reveal_strlit("coman_squash");
    reveal_strlit("iroh_secret");
    assert("env"@.len() == 3);
    assert("mount"@.len() == 5);
    assert("ssh_public_key"@.len() == 14);
    assert("coman_squash"@.len() == 12);
    assert("iroh_secret"@.len() == 11);
}

proof fn lemma_not_escaped_toml()
    ensures
        !escapes_html("environment.toml"@),
{
    reveal_strlit("environment.toml");
    let n = "environment.toml"@;
    assert(n.len() == 16);
    assert(n.subrange(11, 16)[1] == 't');
    assert(n.subrange(12, 16)[0] == 't');
    assert(n.subrange(12, 16)[1] == 'o');
}

proof fn lemma_not_escaped_sh()
    ensures
        !escapes_html("script.sh"@),
{
    reveal_strlit("script.sh");
    let n = "script.sh"@;
    assert(n.len() == 9);
    assert(n.subrange(4, 9)[0] == 'p');
    assert(n.subrange(5, 9)[0] == 't');
}

/// Renders the container's EDF file from its template with the context of
/// `edf_context`: an error where the template does not parse; what `tera`
/// renders otherwise is not stated (see `tera_render`).
pub fn render_edf(
    template: &str,
    image: Option<String>,
    ports: Option<String>,
    workdir: &str,
    env: Vec<(String, String)>,
    mounts: Vec<(String, String)>,
    ssh_key: Option<String>,
    squash: Option<String>,
    secret: Option<String>,
) -> (r: Result<String, tera::Error>)
    ensures
        !template_parses(template@) ==> r is Err,
        forall|k: Seq<char>|
            #![trigger placeholder(k)]
            plain_name(k) && template@ == placeholder(k) && edf_texts(
                image,
                ports,
                workdir@,
                ssh_key,
                squash,
                secret,
            ).dom().contains(k) && edf_texts(image, ports, workdir@, ssh_key, squash, secret)[k] is Text ==> (r matches Ok(
                t,
            ) && t@ == edf_texts(image, ports, workdir@, ssh_key, squash, secret)[k]->Text_0),
{
    let ghost env_v = env;
    let ghost mounts_v = mounts;
    let c = edf_context(image, ports, workdir, env, mounts, ssh_key, squash, secret);
    proof {
        lemma_edf_texts(image, ports, workdir@, context_values(c)["env"@], context_values(c)["mount"@], ssh_key, squash, secret);
        lemma_not_escaped_toml();
    }
    tera_render("environment.toml", template, &c)
}

/// The values of the job script template: the job's name, its command, the
/// EDF file, the working folder, and the coman squash path where there is
/// one.
pub open spec fn script_values(
    name: Seq<char>,
    command: Seq<char>,
    environment_file: Seq<char>,
    workdir: Seq<char>,
    squash: Option<String>,
) -> Map<Seq<char>, TemplateValue> {
    with_optional(
        no_values().insert("name"@, TemplateValue::Text(name)).insert(
            "command"@,
            TemplateValue::Text(command),
        ).insert("environment_file"@, TemplateValue::Text(environment_file)).insert(
            "container_workdir"@,
            TemplateValue::Text(workdir),
        ),
        "coman_squash"@,
        squash,
    )
}

/// The context the job script is rendered with: the values of
/// `script_values`.
pub fn script_context(
    name: &str,
    command: &str,
    environment_file: &str,
    workdir: &str,
    squash: Option<String>,
) -> (c: tera::Context)
    ensures
        context_values(c) == script_values(name@, command@, environment_file@, workdir@, squash),
{
    let mut c = new_context();
    insert_text(&mut c, "name", name);
    insert_text(&mut c, "command", command);
    insert_text(&mut c, "environment_file", environment_file);
    insert_text(&mut c, "container_workdir", workdir);
    insert_optional(&mut c, "coman_squash", &squash);
    c
}

/// Renders the job script from its template with the context of
/// `script_context`: an error where the template does not parse; what
/// `tera` renders otherwise is not stated (see `tera_render`).
pub fn render_script(
    template: &str,
    name: &str,
    command: &str,
    environment_file: &str,
    workdir: &str,
    squash: Option<String>,
) -> (r: Result<String, tera::Error>)
    ensures
        !template_parses(template@) ==> r is Err,
        forall|k: Seq<char>|
            #![trigger placeholder(k)]
            plain_name(k) && template@ == placeholder(k) && script_values(
                name@,
                command@,
                environment_file@,
                workdir@,
                squash,
            ).dom().contains(k) && script_values(name@, command@, environment_file@, workdir@, squash)[k] is Text
                ==> (r matches Ok(t) && t@ == script_values(name@, command@, environment_file@, workdir@, squash)[k]->Text_0),
{
    let c = script_context(name, command, environment_file, workdir, squash);
    proof {
        lemma_not_escaped_sh();
    }
    tera_render("script.sh", template, &c)
}

/// Where the text of a template comes from.
#[derive(Debug, Clone, PartialEq, Eq)]
pub enum TemplateSource {
    /// The configured template.
    Configured(String),
    /// A local file to read.
    LocalFile(String),
    /// A file already on the system, used as it is without rendering.
    RemoteFile(String),
}

/// The template of a generated file is the configured one; a local file is
/// read and rendered; a remote file is used as it is.
pub fn template_source(spec: FileSource, configured: String) -> (r: TemplateSource)
    ensures
        match spec {
            FileSource::Generate => r == TemplateSource::Configured(configured),
            FileSource::Local(p) => r == TemplateSource::LocalFile(p),
            FileSource::Remote(p) => r == TemplateSource::RemoteFile(p),
        },
{
    match spec {
        FileSource::Generate => TemplateSource::Configured(configured),
        FileSource::Local(p) => TemplateSource::LocalFile(p),
        FileSource::Remote(p) => TemplateSource::RemoteFile(p),
    }
}

} // verus!
