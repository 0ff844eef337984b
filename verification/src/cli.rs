//! What the command line reads from its arguments: job ids or names, key
//! value pairs, bare config values, script and EDF choices, and the version
//! text.
use vstd::prelude::*;
use crate::text::{parse_i64_spec, parse_i64_text, split_once};

verus! {

/// A job given on the command line, by id or by name.
#[derive(Debug, Clone, PartialEq, Eq)]
pub enum JobIdOrName {
    Id(i64),
    Name(String),
}

impl JobIdOrName {
    /// An id where the text reads as an `i64`, else a name.
    pub fn from_str(s: &str) -> (r: JobIdOrName)
        ensures
            match parse_i64_spec(s@) {
                Some(v) => r == JobIdOrName::Id(v as i64),
                None => r matches JobIdOrName::Name(n) && n@ == s@,
            },
    {
        match parse_i64_text(s) {
            Some(v) => JobIdOrName::Id(v),
            None => JobIdOrName::Name(String::from_str(s)),
        }
    }
}

/// The position of the first `c` in `s`, if any.
pub open spec fn first_at(s: Seq<char>, c: char, i: int) -> bool {
    0 <= i < s.len() && s[i] == c && forall|j: int| 0 <= j < i ==> s[j] != c
}

/// Splits `s` at its first `sep` into a key and a value. `what` names the
/// expected shape in the error, which is
/// ``invalid <what>: no `<sep>` found in `<s>` ``.
fn parse_pair(s: &str, sep: char, what: &str, sep_text: &str) -> (r: Result<(String, String), String>)
    requires
        sep_text@ == seq![sep],
    ensures
        match r {
            Ok((k, v)) => exists|i: int|
                first_at(s@, sep, i) && k@ == s@.subrange(0, i) && v@ == s@.subrange(
                    i + 1,
                    s@.len() as int,
                ),
            Err(e) => (forall|j: int| 0 <= j < s@.len() ==> s@[j] != sep) && e@ == "invalid "@
                + what@ + ": no `"@ + seq![sep] + "` found in `"@ + s@ + "`"@,
        },
{
    match split_once(s, sep) {
        Some((k, v)) => Ok((k, v)),
        None => {
            let mut e = String::from_str("invalid ");
            e.append(what);
            e.append(": no `");
            e.append(sep_text);
            e.append("` found in `");
            e.append(s);
            e.append("`");
            Err(e)
        },
    }
}

/// Reads `KEY=VALUE`, split at the first `=`.
pub fn parse_key_val(s: &str) -> (r: Result<(String, String), String>)
    ensures
        match r {
            Ok((k, v)) => exists|i: int|
                first_at(s@, '=', i) && k@ == s@.subrange(0, i) && v@ == s@.subrange(
                    i + 1,
                    s@.len() as int,
                ),
            Err(e) => (forall|j: int| 0 <= j < s@.len() ==> s@[j] != '=') && e@
                == "invalid KEY=value: no `=` found in `"@ + s@ + "`"@,
        },
{
    proof {
        reveal_strlit("=");
        assert("="@ =~= seq!['=']);
        reveal_strlit("KEY=value");
        reveal_strlit("invalid ");
        reveal_strlit(": no `");
        assert("invalid "@ + "KEY=value"@ + ": no `"@ + seq!['='] =~= "invalid KEY=value: no `="@)
            by {
            reveal_strlit("invalid KEY=value: no `=");
        }
    }
    let r = parse_pair(s, '=', "KEY=value", "=");
    proof {
        if let Err(e) = &r {
            assert(e@ =~= "invalid KEY=value: no `="@ + "` found in `"@ + s@ + "`"@);
            reveal_strlit("invalid KEY=value: no `=");
            reveal_strlit("` found in `");
            reveal_strlit("invalid KEY=value: no `=` found in `");
            assert("invalid KEY=value: no `="@ + "` found in `"@
                =~= "invalid KEY=value: no `=` found in `"@);
        }
    }
    r
}

/// Reads `KEY:VALUE`, split at the first `:`.
pub fn parse_key_val_colon(s: &str) -> (r: Result<(String, String), String>)
    ensures
        match r {
            Ok((k, v)) => exists|i: int|
                first_at(s@, ':', i) && k@ == s@.subrange(0, i) && v@ == s@.subrange(
                    i + 1,
                    s@.len() as int,
                ),
            Err(e) => (forall|j: int| 0 <= j < s@.len() ==> s@[j] != ':') && e@
                == "invalid KEY:value: no `:` found in `"@ + s@ + "`"@,
        },
{
    proof {
        reveal_strlit(":");
        assert(":"@ =~= seq![':']);
        reveal_strlit("KEY:value");
        reveal_strlit("invalid ");
        reveal_strlit(": no `");
        assert("invalid "@ + "KEY:value"@ + ": no `"@ + seq![':'] =~= "invalid KEY:value: no `:"@)
            by {
            reveal_strlit("invalid KEY:value: no `:");
        }
    }
    let r = parse_pair(s, ':', "KEY:value", ":");
    proof {
        if let Err(e) = &r {
            assert(e@ =~= "invalid KEY:value: no `:"@ + "` found in `"@ + s@ + "`"@);
            reveal_strlit("invalid KEY:value: no `:");
            reveal_strlit("` found in `");
            reveal_strlit("invalid KEY:value: no `:` found in `");
            assert("invalid KEY:value: no `:"@ + "` found in `"@
                =~= "invalid KEY:value: no `:` found in `"@);
        }
    }
    r
}

/// The whitespace that `trim_ascii` removes.
pub open spec fn is_ascii_space(c: char) -> bool {
    c == ' ' || c == '\t' || c == '\n' || c == '\x0C' || c == '\r'
}

/// `s` without its leading ASCII whitespace.
pub open spec fn trim_start(s: Seq<char>) -> Seq<char>
    decreases s.len(),
{
    if s.len() > 0 && is_ascii_space(s[0]) {
        trim_start(s.drop_first())
    } else {
        s
    }
}

/// `s` without its trailing ASCII whitespace.
pub open spec fn trim_end(s: Seq<char>) -> Seq<char>
    decreases s.len(),
{
    if s.len() > 0 && is_ascii_space(s.last()) {
        trim_end(s.drop_last())
    } else {
        s
    }
}

/// Whether a config value that does not read as a TOML value is taken as a
/// plain string: it is empty or blank once trimmed, or it neither starts
/// with a quote, `[` or `{` nor ends with a quote, `]` or `}`.
pub open spec fn bare_string(s: Seq<char>) -> bool {
    let t = trim_end(trim_start(s));
    t.len() == 0 || (!(t[0] == '"' || t[0] == '\'' || t[0] == '[' || t[0] == '{') && !(t.last()
        == '"' || t.last() == '\'' || t.last() == ']' || t.last() == '}'))
}

proof fn lemma_trim_start(s: Seq<char>, i: int)
    requires
        0 <= i <= s.len(),
        forall|k: int| 0 <= k < i ==> is_ascii_space(s[k]),
        i == s.len() || !is_ascii_space(s[i]),
    ensures
        trim_start(s) == s.subrange(i, s.len() as int),
    decreases i,
{
    if i == 0 {
        assert(s.subrange(0, s.len() as int) =~= s);
    } else {
        lemma_trim_start(s.drop_first(), i - 1);
        assert(s.drop_first().subrange(i - 1, s.len() - 1) =~= s.subrange(i, s.len() as int));
    }
}

proof fn lemma_trim_end(s: Seq<char>, j: int)
    requires
        0 <= j <= s.len(),
        forall|k: int| j <= k < s.len() ==> is_ascii_space(s[k]),
        j == 0 || !is_ascii_space(s[j - 1]),
    ensures
        trim_end(s) == s.subrange(0, j),
    decreases s.len() - j,
{
    if j == s.len() {
        assert(s.subrange(0, j) =~= s);
    } else {
        lemma_trim_end(s.drop_last(), j);
        assert(s.drop_last().subrange(0, j) =~= s.subrange(0, j));
    }
}

fn is_space_char(c: char) -> (r: bool)
    ensures
        r == is_ascii_space(c),
{
    c == ' ' || c == '\t' || c == '\n' || c == '\x0C' || c == '\r'
}

/// Whether a config value that does not read as a TOML value is taken as a
/// plain string (see `bare_string`).
pub fn is_bare_string(value: &str) -> (r: bool)
    ensures
        r == bare_string(value@),
{
    let n = value.unicode_len();
    let mut i: usize = 0;
    while i < n && is_space_char(value.get_char(i))
        invariant
            n == value@.len(),
            i <= n,
            forall|k: int| 0 <= k < i ==> is_ascii_space(value@[k]),
        decreases n - i,
    {
        i = i + 1;
    }
    let ghost s = value@;
    proof {
        lemma_trim_start(s, i as int);
    }
    let mut j: usize = n;
    while j > i && is_space_char(value.get_char(j - 1))
        invariant
            n == value@.len(),
            i <= j <= n,
            forall|k: int| j <= k < n ==> is_ascii_space(value@[k]),
        decreases j,
    {
        j = j - 1;
    }
    let ghost t = s.subrange(i as int, n as int);
    proof {
        if j > i {
            lemma_trim_end(t, j - i);
            assert(t.subrange(0, j - i) =~= s.subrange(i as int, j as int));
        } else {
            assert forall|k: int| 0 <= k < t.len() implies is_ascii_space(t[k]) by {
                assert(t[k] == s[i + k]);
            }
            lemma_trim_end(t, 0);
        }
    }
    if i == j {
        return true;
    }
    let first = value.get_char(i);
    let last = value.get_char(j - 1);
    !(first == '"' || first == '\'' || first == '[' || first == '{') && !(last == '"' || last
        == '\'' || last == ']' || last == '}')
}

/// The command line's choice of the job script: generate it from the
/// template, upload a local file, or use a file already on the system.
#[derive(Debug, Clone)]
pub struct ScriptSpec {
    pub generate_script: bool,
    pub local_script: Option<String>,
    pub remote_script: Option<String>,
}

impl Default for ScriptSpec {
    fn default() -> (r: ScriptSpec)
        ensures
            r.generate_script,
            r.local_script is None,
            r.remote_script is None,
    {
        ScriptSpec { generate_script: true, local_script: None, remote_script: None }
    }
}

/// The command line's choice of the container's EDF file, as for scripts.
#[derive(Debug, Clone)]
pub struct EdfSpec {
    pub generate_edf: bool,
    pub local_edf: Option<String>,
    pub remote_edf: Option<String>,
}

impl Default for EdfSpec {
    fn default() -> (r: EdfSpec)
        ensures
            r.generate_edf,
            r.local_edf is None,
            r.remote_edf is None,
    {
        EdfSpec { generate_edf: true, local_edf: None, remote_edf: None }
    }
}

/// Where a file comes from: generated, a local file, or a remote file.
#[derive(Debug, Clone, PartialEq, Eq)]
pub enum FileSource {
    Generate,
    Local(String),
    Remote(String),
}

/// A local file wins over a remote one; without either the file is
/// generated.
pub open spec fn source_of(local: Option<String>, remote: Option<String>) -> FileSource {
    match (local, remote) {
        (Some(l), _) => FileSource::Local(l),
        (None, Some(r)) => FileSource::Remote(r),
        (None, None) => FileSource::Generate,
    }
}

impl ScriptSpec {
    /// Where the script comes from.
    pub fn source(self) -> (r: FileSource)
        ensures
            r == source_of(self.local_script, self.remote_script),
    {
        match self.local_script {
            Some(l) => FileSource::Local(l),
            None => match self.remote_script {
                Some(r) => FileSource::Remote(r),
                None => FileSource::Generate,
            },
        }
    }
}

impl EdfSpec {
    /// Where the EDF file comes from.
    pub fn source(self) -> (r: FileSource)
        ensures
            r == source_of(self.local_edf, self.remote_edf),
    {
        match self.local_edf {
            Some(l) => FileSource::Local(l),
            None => match self.remote_edf {
                Some(r) => FileSource::Remote(r),
                None => FileSource::Generate,
            },
        }
    }
}

/// The text of `coman version`: the build's version message, then the
/// project config file and the config and data folders.
pub fn version(version_message: &str, project_config: &str, config_dir: &str, data_dir: &str) -> (r:
    String)
    ensures
        r@ == version_message@ + "\n\nProject config directory: "@ + project_config@
            + "\nConfig directory: "@ + config_dir@ + "\nData directory: "@ + data_dir@,
{
    let mut r = String::from_str(version_message);
    r.append("\n\nProject config directory: ");
    r.append(project_config);
    r.append("\nConfig directory: ");
    r.append(config_dir);
    r.append("\nData directory: ");
    r.append(data_dir);
    r
}

/// The TOML value type of `toml_edit`.
#[verifier::external_type_specification]
#[verifier::external_body]
pub struct ExTomlValue(toml_edit::Value);

/// The parse error of `toml_edit`.
#[verifier::external_type_specification]
#[verifier::external_body]
pub struct ExTomlError(toml_edit::TomlError);

/// Whether `toml_edit` reads the text as one TOML value.
pub uninterp spec fn toml_value_parses(s: Seq<char>) -> bool;

/// What the item made of the TOML value read from a text is (see
/// `value_head`).
pub uninterp spec fn text_value_head(s: Seq<char>) -> crate::config_doc::Raw;

/// The items that the item made of the TOML value read from a text holds,
/// under paths relative to it (see `value_below`).
pub uninterp spec fn text_value_below(s: Seq<char>) -> Seq<(crate::config_doc::KeyPath, crate::config_doc::Raw)>;

/// Parses one TOML value with `toml_edit`'s `FromStr` for `Value`: it
/// succeeds exactly on the texts that `toml_value_parses` names, and the
/// value's items are named by `text_value_head` and `text_value_below`;
/// all depend on the text alone. A value read from text holds no
/// `Item::None`, and its items lie under non-empty paths.
#[verifier::external_body]
fn toml_value_from_text(s: &str) -> (r: Result<toml_edit::Value, toml_edit::TomlError>)
    ensures
        r is Ok <==> toml_value_parses(s@),
        r matches Ok(v) ==> crate::config_doc::value_head(v) == text_value_head(s@)
            && crate::config_doc::value_below(v) == text_value_below(s@) && crate::config_doc::value_wf(v),
{
    s.parse::<toml_edit::Value>()
}

/// The TOML string value that `toml_edit`'s `From<String>` for `Value`
/// makes of a text (the text, with no written form or decoration yet).
pub uninterp spec fn toml_string_value(s: Seq<char>) -> toml_edit::Value;

/// A TOML string value holding the text, by `toml_edit`'s `From<String>`
/// for `Value`; the value is named by `toml_string_value`, a function of
/// the text alone. A string holds no items.
#[verifier::external_body]
fn toml_string(s: String) -> (r: toml_edit::Value)
    ensures
        r == toml_string_value(s@),
        crate::config_doc::value_wf(r),
{
    toml_edit::Value::from(s)
}

/// A value given for a config key: a TOML value, or a bare text that is
/// taken as a string.
#[derive(Debug)]
pub enum ConfigValue {
    Parsed(toml_edit::Value),
    Bare(String),
}

impl ConfigValue {
    /// The TOML value to store: a bare text becomes a TOML string.
    pub fn into_toml(self) -> (r: toml_edit::Value)
        ensures
            match self {
                ConfigValue::Parsed(v) => r == v,
                ConfigValue::Bare(t) => r == toml_string_value(t@) && crate::config_doc::value_wf(r),
            },
    {
        match self {
            ConfigValue::Parsed(v) => v,
            ConfigValue::Bare(s) => toml_string(s),
        }
    }
}

/// Reads a config value: a TOML value where the text is one, else the text
/// itself where it looks like a bare string, else the parse error.
pub fn parse_toml_value(value: &str) -> (r: Result<ConfigValue, toml_edit::TomlError>)
    ensures
        toml_value_parses(value@) ==> (r matches Ok(ConfigValue::Parsed(v))
            && crate::config_doc::value_head(v) == text_value_head(value@)
            && crate::config_doc::value_below(v) == text_value_below(value@) && crate::config_doc::value_wf(v)),
        !toml_value_parses(value@) && bare_string(value@) ==> (r matches Ok(ConfigValue::Bare(t))
            && t@ == value@),
        !toml_value_parses(value@) && !bare_string(value@) ==> r is Err,
{
    match toml_value_from_text(value) {
        Ok(v) => Ok(ConfigValue::Parsed(v)),
        Err(e) => {
            if is_bare_string(value) {
                Ok(ConfigValue::Bare(String::from_str(value)))
            } else {
                Err(e)
            }
        },
    }
}

} // verus!
