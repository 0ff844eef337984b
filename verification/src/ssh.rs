//! SSH access to running jobs: the names and files that describe a job's
//! connection, the blocks written to the SSH configuration, and which of
//! them are cleaned up once their job is over.
use vstd::prelude::*;
use crate::cscs::{Job, JobStatus};
use crate::docker::str_equal;
use crate::text::{
    decimal, decimal_text, ends_with, find_char, has_prefix, has_suffix, signed_decimal,
    signed_decimal_text, starts_with, texts,
};

verus! {

/// The name of the file that holds a job's endpoint:
/// `<system>_<job id>.endpoint`.
pub fn endpoint_file_name(system: &str, job_id: i64) -> (r: String)
    ensures
        r@ == system@ + "_"@ + signed_decimal(job_id as int) + ".endpoint"@,
{
    let mut r = String::from_str(system);
    r.append("_");
    let id = signed_decimal_text(job_id);
    r.append(id.as_str());
    r.append(".endpoint");
    r
}

/// The SSH host name of a job: `<system>-<job name>-<job id>`.
pub fn connection_name(system: &str, job_name: &str, job_id: i64) -> (r: String)
    ensures
        r@ == system@ + "-"@ + job_name@ + "-"@ + signed_decimal(job_id as int),
{
    let mut r = String::from_str(system);
    r.append("-");
    r.append(job_name);
    r.append("-");
    let id = signed_decimal_text(job_id);
    r.append(id.as_str());
    r
}

/// The block of the SSH configuration for one job: the host reaches the
/// job's endpoint through `coman proxy`.
pub fn ssh_host_block(connection: &str, endpoint: &str, user: &str, system: &str, job_id: i64) -> (r:
    String)
    ensures
        r@ == "\n#Start "@ + connection@ + "\nHost "@ + connection@ + "\n    Hostname "@ + endpoint@
            + "\n    User "@ + user@ + "\n    ProxyCommand coman proxy "@ + system@ + " "@
            + signed_decimal(job_id as int) + "\n#End "@ + connection@,
{
    let mut r = String::from_str("\n#Start ");
    r.append(connection);
    r.append("\nHost ");
    r.append(connection);
    r.append("\n    Hostname ");
    r.append(endpoint);
    r.append("\n    User ");
    r.append(user);
    r.append("\n    ProxyCommand coman proxy ");
    r.append(system);
    r.append(" ");
    let id = signed_decimal_text(job_id);
    r.append(id.as_str());
    r.append("\n#End ");
    r.append(connection);
    r
}

/// What to append to the user's SSH configuration so that it includes
/// coman's: nothing where it already includes it, else the include stanza.
pub fn ssh_include_addition(content: &str, coman_config_path: &str) -> (r: Option<String>)
    ensures
        crate::text::contains_text(content@, "Include "@ + coman_config_path@) ==> r is None,
        !crate::text::contains_text(content@, "Include "@ + coman_config_path@) ==> (r matches Some(
            s,
        ) && s@ == "\n\n#coman include\nMatch all\nInclude "@ + coman_config_path@),
{
    let mut line = String::from_str("Include ");
    line.append(coman_config_path);
    if crate::text::contains(content, line.as_str()) {
        None
    } else {
        let mut r = String::from_str("\n\n#coman include\nMatch all\nInclude ");
        r.append(coman_config_path);
        Some(r)
    }
}

/// The endpoint file stems (`<system>_<job id>`) of the jobs that may still
/// be connected to: those pending or running.
pub open spec fn live_stems(jobs: Seq<Job>, system: Seq<char>) -> Seq<Seq<char>>
    decreases jobs.len(),
{
    if jobs.len() == 0 {
        Seq::empty()
    } else {
        let rest = live_stems(jobs.drop_last(), system);
        let j = jobs.last();
        if j.status == JobStatus::Pending || j.status == JobStatus::Running {
            rest.push(system + "_"@ + decimal(j.id as nat))
        } else {
            rest
        }
    }
}

pub fn live_endpoint_stems(jobs: &Vec<Job>, system: &str) -> (r: Vec<String>)
    ensures
        texts(r@) == live_stems(jobs@, system@),
{
    let mut r: Vec<String> = Vec::new();
    let mut i: usize = 0;
    while i < jobs.len()
        invariant
            i <= jobs@.len(),
            texts(r@) == live_stems(jobs@.take(i as int), system@),
        decreases jobs.len() - i,
    {
        proof {
            assert(jobs@.take(i + 1).drop_last() =~= jobs@.take(i as int));
        }
        if jobs[i].status == JobStatus::Pending || jobs[i].status == JobStatus::Running {
            let mut s = String::from_str(system);
            s.append("_");
            let id = decimal_text(jobs[i].id as u64);
            s.append(id.as_str());
            let ghost before = r@;
            r.push(s);
            proof {
                assert(texts(r@) =~= texts(before).push(
                    system@ + "_"@ + decimal(jobs@[i as int].id as nat),
                ));
            }
        }
        i = i + 1;
    }
    proof {
        assert(jobs@.take(jobs@.len() as int) =~= jobs@);
    }
    r
}

/// The part of a file name before its first `.`, or all of it.
pub open spec fn stem(name: Seq<char>) -> Seq<char> {
    if exists|i: int| 0 <= i < name.len() && name[i] == '.' {
        let i = choose|i: int|
            0 <= i < name.len() && name[i] == '.' && forall|j: int| 0 <= j < i ==> name[j] != '.';
        name.subrange(0, i)
    } else {
        name
    }
}

fn stem_of(name: &str) -> (r: String)
    ensures
        r@ == stem(name@),
{
    match find_char(name, '.') {
        Some(i) => {
            proof {
                let k = choose|k: int|
                    0 <= k < name@.len() && name@[k] == '.' && forall|j: int|
                        0 <= j < k ==> name@[j] != '.';
                if k < i {
                } else if i < k {
                    assert(name@[i as int] != '.');
                }
            }
            String::from_str(name.substring_char(0, i))
        },
        None => String::from_str(name),
    }
}

/// Whether an endpoint file belongs to this system's jobs but to none that
/// may still be connected to.
pub open spec fn outdated_endpoint(name: Seq<char>, system: Seq<char>, live: Seq<Seq<char>>) -> bool {
    has_suffix(name, ".endpoint"@) && has_prefix(name, system) && !live.contains(stem(name))
}

pub fn is_outdated_endpoint(name: &str, system: &str, live: &Vec<String>) -> (r: bool)
    ensures
        r == outdated_endpoint(name@, system@, texts(live@)),
{
    if !ends_with(name, ".endpoint") || !starts_with(name, system) {
        return false;
    }
    let s = stem_of(name);
    let mut i: usize = 0;
    while i < live.len()
        invariant
            i <= live@.len(),
            s@ == stem(name@),
            forall|k: int| 0 <= k < i ==> live@[k]@ != s@,
        decreases live.len() - i,
    {
        if str_equal(live[i].as_str(), s.as_str()) {
            proof {
                assert(texts(live@)[i as int] == s@);
            }
            return false;
        }
        i = i + 1;
    }
    proof {
        if texts(live@).contains(s@) {
            let k = choose|k: int| 0 <= k < texts(live@).len() && texts(live@)[k] == s@;
            assert(live@[k]@ == s@);
        }
    }
    true
}

/// The last `_`-separated part of a text.
pub open spec fn after_last_underscore(s: Seq<char>) -> Seq<char> {
    if exists|i: int| 0 <= i < s.len() && s[i] == '_' {
        let i = choose|i: int|
            0 <= i < s.len() && s[i] == '_' && forall|j: int| i < j < s.len() ==> s[j] != '_';
        s.subrange(i + 1, s.len() as int)
    } else {
        s
    }
}

/// The job part of an endpoint file's name: after the last `_` of its
/// stem.
pub fn endpoint_job_part(name: &str) -> (r: String)
    ensures
        r@ == after_last_underscore(stem(name@)),
{
    let s = stem_of(name);
    let n = s.unicode_len();
    let mut i: usize = n;
    while i > 0 && s.get_char(i - 1) != '_'
        invariant
            n == s@.len(),
            i <= n,
            forall|j: int| i <= j < n ==> s@[j] != '_',
        decreases i,
    {
        i = i - 1;
    }
    proof {
        if i > 0 {
            let k = choose|k: int|
                0 <= k < s@.len() && s@[k] == '_' && forall|j: int| k < j < s@.len() ==> s@[j] != '_';
            if k < i - 1 {
                assert(s@[i - 1] == '_');
            } else if k > i - 1 {
                assert(s@[k] != '_');
            }
        } else {
            assert(!(exists|k: int| 0 <= k < s@.len() && s@[k] == '_'));
            assert(s@.subrange(0, n as int) =~= s@);
        }
    }
    String::from_str(s.as_str().substring_char(i, n))
}

/// The pattern that matches the SSH configuration block of an outdated job.
pub fn ssh_block_pattern(system: &str, job_part: &str) -> (r: String)
    ensures
        r@ == "(?ms)#Start "@ + system@ + "_[^\\s]_"@ + job_part@ + ".*?#End "@ + system@
            + "_[^\\s]_"@ + job_part@ + "\n"@,
{
    let mut r = String::from_str("(?ms)#Start ");
    r.append(system);
    r.append("_[^\\s]_");
    r.append(job_part);
    r.append(".*?#End ");
    r.append(system);
    r.append("_[^\\s]_");
    r.append(job_part);
    r.append("\n");
    r
}

/// The compile error of `regex`.
#[verifier::external_type_specification]
#[verifier::external_body]
pub struct ExRegexError(regex::Error);

/// What `regex` gives for replacing the first match of `pattern` in `text`
/// by `replacement`: `None` where the pattern does not compile.
pub uninterp spec fn regex_replaced(pattern: Seq<char>, text: Seq<char>, replacement: Seq<char>) -> Option<
    Seq<char>,
>;

/// Compiles `pattern` with `regex::Regex::new` and replaces its first match
/// in `text` with `Regex::replace`. The contract names the result: it
/// depends on the three texts alone.
#[verifier::external_body]
fn regex_replace_first(pattern: &str, text: &str, replacement: &str) -> (r: Result<String, regex::Error>)
    ensures
        match regex_replaced(pattern@, text@, replacement@) {
            Some(t) => r matches Ok(s) && s@ == t,
            None => r is Err,
        },
{
    match regex::Regex::new(pattern) {
        Ok(re) => Ok(re.replace(text, replacement).to_string()),
        Err(e) => Err(e),
    }
}

/// The SSH configuration without the blocks of the given jobs, removed one
/// after the other; `None` where a pattern does not compile.
pub open spec fn without_blocks(content: Seq<char>, system: Seq<char>, parts: Seq<Seq<char>>) -> Option<
    Seq<char>,
>
    decreases parts.len(),
{
    if parts.len() == 0 {
        Some(content)
    } else {
        match without_blocks(content, system, parts.drop_last()) {
            Some(c) => regex_replaced(
                "(?ms)#Start "@ + system + "_[^\\s]_"@ + parts.last() + ".*?#End "@ + system
                    + "_[^\\s]_"@ + parts.last() + "\n"@,
                c,
                ""@,
            ),
            None => None,
        }
    }
}

/// Removes the SSH configuration blocks of the jobs whose endpoint files are
/// outdated, given by their job parts.
pub fn remove_outdated_blocks(content: String, system: &str, job_parts: &Vec<String>) -> (r: Result<
    String,
    regex::Error,
>)
    ensures
        match without_blocks(content@, system@, texts(job_parts@)) {
            Some(t) => r matches Ok(s) && s@ == t,
            None => r is Err,
        },
{
    let mut c = content;
    let mut i: usize = 0;
    while i < job_parts.len()
        invariant
            i <= job_parts@.len(),
            without_blocks(content@, system@, texts(job_parts@).take(i as int)) == Some(c@),
        decreases job_parts.len() - i,
    {
        proof {
            assert(texts(job_parts@).take(i + 1).drop_last() =~= texts(job_parts@).take(i as int));
            assert(texts(job_parts@).take(i + 1).last() == job_parts@[i as int]@);
        }
        let pattern = ssh_block_pattern(system, job_parts[i].as_str());
        match regex_replace_first(pattern.as_str(), c.as_str(), "") {
            Ok(next) => {
                c = next;
            },
            Err(e) => {
                proof {
                    let t = texts(job_parts@);
                    assert forall|k: int| i < k <= t.len() implies #[trigger] without_blocks(
                        content@,
                        system@,
                        t.take(k),
                    ) is None by {
                        lemma_without_blocks_stays_none(content@, system@, t, i + 1, k);
                    }
                    assert(t.take(t.len() as int) =~= t);
                }
                return Err(e);
            },
        }
        i = i + 1;
    }
    proof {
        assert(texts(job_parts@).take(job_parts@.len() as int) =~= texts(job_parts@));
    }
    Ok(c)
}

proof fn lemma_without_blocks_stays_none(content: Seq<char>, system: Seq<char>, t: Seq<Seq<char>>, i: int, k: int)
    requires
        0 < i <= k <= t.len(),
        without_blocks(content, system, t.take(i)) is None,
    ensures
        without_blocks(content, system, t.take(k)) is None,
    decreases k - i,
{
    if i < k {
        assert(t.take(i + 1).drop_last() =~= t.take(i));
        lemma_without_blocks_stays_none(content, system, t, i + 1, k);
    }
}

/// The SSH public key to use: the one given for the job, else the
/// configured one; `None` means the default keys are searched.
pub fn chosen_ssh_key(option: Option<String>, config: Option<String>) -> (r: Option<String>)
    ensures
        r == (match option {
            Some(o) => Some(o),
            None => config,
        }),
{
    match option {
        Some(o) => Some(o),
        None => config,
    }
}

/// The default public keys, in the order they are tried, in the user's
/// `.ssh` folder.
pub fn ssh_key_candidates(ssh_dir: &str) -> (r: Vec<String>)
    ensures
        texts(r@) == seq![
            crate::text::path_join(ssh_dir@, "id_dsa.pub"@),
            crate::text::path_join(ssh_dir@, "id_ecdsa.pub"@),
            crate::text::path_join(ssh_dir@, "id_rsa.pub"@),
            crate::text::path_join(ssh_dir@, "id_ed25519.pub"@),
        ],
{
    let mut r: Vec<String> = Vec::new();
    r.push(crate::text::join_path(ssh_dir, "id_dsa.pub"));
    r.push(crate::text::join_path(ssh_dir, "id_ecdsa.pub"));
    r.push(crate::text::join_path(ssh_dir, "id_rsa.pub"));
    r.push(crate::text::join_path(ssh_dir, "id_ed25519.pub"));
    proof {
        assert(texts(r@) =~= seq![
            crate::text::path_join(ssh_dir@, "id_dsa.pub"@),
            crate::text::path_join(ssh_dir@, "id_ecdsa.pub"@),
            crate::text::path_join(ssh_dir@, "id_rsa.pub"@),
            crate::text::path_join(ssh_dir@, "id_ed25519.pub"@),
        ]);
    }
    r
}

proof fn lemma_decimal_has_no_dot(n: nat)
    ensures
        forall|k: int| 0 <= k < decimal(n).len() ==> #[trigger] decimal(n)[k] != '.',
    decreases n,
{
    if n >= 10 {
        lemma_decimal_has_no_dot(n / 10);
        assert forall|k: int| 0 <= k < decimal(n).len() implies #[trigger] decimal(n)[k] != '.' by {
            if k < decimal(n / 10).len() {
                assert(decimal(n)[k] == decimal(n / 10)[k]);
            }
        }
    }
}

proof fn lemma_live_stems_contains(jobs: Seq<Job>, system: Seq<char>, i: int)
    requires
        0 <= i < jobs.len(),
        jobs[i].status == JobStatus::Pending || jobs[i].status == JobStatus::Running,
    ensures
        live_stems(jobs, system).contains(system + "_"@ + decimal(jobs[i].id as nat)),
    decreases jobs.len(),
{
    let rest = live_stems(jobs.drop_last(), system);
    if i == jobs.len() - 1 {
        assert(live_stems(jobs, system) == rest.push(system + "_"@ + decimal(jobs[i].id as nat)));
        assert(live_stems(jobs, system)[rest.len() as int] == system + "_"@ + decimal(jobs[i].id as nat));
    } else {
        assert(jobs.drop_last()[i] == jobs[i]);
        lemma_live_stems_contains(jobs.drop_last(), system, i);
        let k = choose|k: int| 0 <= k < rest.len() && rest[k] == system + "_"@ + decimal(jobs[i].id as nat);
        assert(live_stems(jobs, system)[k] == rest[k]);
    }
}

/// Garbage collection keeps the endpoint file of every job that is pending
/// or running (for system names without a `.`).
pub proof fn law_live_endpoint_kept(jobs: Seq<Job>, system: Seq<char>, i: int)
    requires
        0 <= i < jobs.len(),
        jobs[i].status == JobStatus::Pending || jobs[i].status == JobStatus::Running,
        forall|k: int| 0 <= k < system.len() ==> system[k] != '.',
    ensures
        !outdated_endpoint(
            system + "_"@ + decimal(jobs[i].id as nat) + ".endpoint"@,
            system,
            live_stems(jobs, system),
        ),
{
    reveal_strlit("_");
    reveal_strlit(".endpoint");
    let d = decimal(jobs[i].id as nat);
    let part = system + "_"@ + d;
    let name = part + ".endpoint"@;
    lemma_decimal_has_no_dot(jobs[i].id as nat);
    assert forall|k: int| 0 <= k < part.len() implies #[trigger] part[k] != '.' by {
        if k < system.len() {
            assert(part[k] == system[k]);
        } else if k == system.len() {
            assert(part[k] == '_');
        } else {
            assert(part[k] == d[k - system.len() - 1]);
        }
    }
    assert(name[part.len() as int] == '.');
    let j = choose|j: int|
        0 <= j < name.len() && name[j] == '.' && forall|m: int| 0 <= m < j ==> name[m] != '.';
    assert(j == part.len()) by {
        if j < part.len() {
            assert(name[j] == part[j]);
        } else if j > part.len() {
            assert(name[part.len() as int] != '.');
        }
    }
    assert(stem(name) =~= part);
    lemma_live_stems_contains(jobs, system, i);
}

} // verus!
