//! Port forwarding into a job's container: which ports the container side
//! serves and under which protocol names, and how the endpoint's secret key
//! travels to it.
use vstd::prelude::*;
use base64::Engine;
use crate::text::{decimal, decimal_text, parse_unsigned, parse_unsigned_text};

verus! {

/// The port that the container's SSH server listens on.
pub const SSH_PORT: u16 = 15263;

/// `s` split at every `c`, as `str::split` does: an empty text gives one
/// empty part.
pub open spec fn split_on(s: Seq<char>, c: char) -> Seq<Seq<char>>
    decreases s.len(),
{
    if s.len() == 0 {
        seq![Seq::empty()]
    } else {
        let rest = split_on(s.drop_last(), c);
        if s.last() == c {
            rest.push(Seq::empty())
        } else {
            rest.update(rest.len() - 1, rest.last().push(s.last()))
        }
    }
}

proof fn lemma_split_on_nonempty(s: Seq<char>, c: char)
    ensures
        split_on(s, c).len() >= 1,
    decreases s.len(),
{
    if s.len() > 0 {
        lemma_split_on_nonempty(s.drop_last(), c);
    }
}

/// Splits `s` at every `c`.
pub fn split_text(s: &str, c: char) -> (r: Vec<String>)
    ensures
        crate::text::texts(r@) == split_on(s@, c),
{
    let n = s.unicode_len();
    let mut parts: Vec<String> = Vec::new();
    let mut current = String::new();
    let mut i: usize = 0;
    while i < n
        invariant
            n == s@.len(),
            i <= n,
            crate::text::texts(parts@).push(current@) == split_on(s@.take(i as int), c),
        decreases n - i,
    {
        proof {
            assert(s@.take(i + 1).drop_last() =~= s@.take(i as int));
            assert(s@.take(i + 1).last() == s@[i as int]);
            lemma_split_on_nonempty(s@.take(i as int), c);
        }
        let ch = s.get_char(i);
        if ch == c {
            let ghost before = parts@;
            let done = current;
            parts.push(done);
            current = String::new();
            proof {
                assert(crate::text::texts(parts@).push(current@) =~= crate::text::texts(before).push(
                    done@,
                ).push(Seq::empty()));
            }
        } else {
            let ghost old_current = current@;
            let one = s.substring_char(i, i + 1);
            proof {
                assert(one@ =~= seq![ch]);
            }
            current.append(one);
            proof {
                assert(current@ =~= old_current.push(ch));
                assert(crate::text::texts(parts@).push(current@) =~= split_on(s@.take(i as int), c).update(
                    split_on(s@.take(i as int), c).len() - 1,
                    old_current.push(ch),
                ));
            }
        }
        i = i + 1;
    }
    parts.push(current);
    proof {
        assert(s@.take(n as int) =~= s@);
    }
    parts
}

/// The protocol name under which a container port is served.
pub fn port_alpn(port: u16) -> (r: String)
    ensures
        r@ == "/coman/"@ + decimal(port as nat),
{
    let mut r = String::from_str("/coman/");
    let p = decimal_text(port as u64);
    r.append(p.as_str());
    r
}

/// A forwarded port as the container serves it: SSH on its own port and
/// protocol name, any other port under `/coman/<port>`; `None` where the
/// port does not read as a port number.
pub open spec fn served_port(part: Seq<char>) -> Option<(u16, Seq<char>)> {
    if part == "ssh"@ {
        Some((SSH_PORT, "/iroh/ssh"@))
    } else {
        match parse_unsigned(part, 65535) {
            Some(p) => Some((p as u16, "/coman/"@ + decimal(p))),
            None => None,
        }
    }
}

pub open spec fn served_ports(parts: Seq<Seq<char>>) -> Option<Seq<(u16, Seq<char>)>>
    decreases parts.len(),
{
    if parts.len() == 0 {
        Some(Seq::empty())
    } else {
        match (served_ports(parts.drop_last()), served_port(parts.last())) {
            (Some(rest), Some(p)) => Some(rest.push(p)),
            _ => None,
        }
    }
}

/// The ports named for forwarding: SSH always, then those of the
/// comma-separated list where one is given.
pub open spec fn forwarded_parts(env: Option<Seq<char>>) -> Seq<Seq<char>> {
    match env {
        Some(e) => seq!["ssh"@] + split_on(e, ','),
        None => seq!["ssh"@],
    }
}

pub open spec fn port_views(v: Seq<(u16, String)>) -> Seq<(u16, Seq<char>)> {
    v.map_values(|p: (u16, String)| (p.0, p.1@))
}

/// The ports the container serves and their protocol names; `None` where a
/// listed port does not read as a port number.
pub fn forwarded_ports(env: Option<&str>) -> (r: Option<Vec<(u16, String)>>)
    ensures
        match served_ports(forwarded_parts(
            match env {
                Some(e) => Some(e@),
                None => None,
            },
        )) {
            Some(v) => r matches Some(p) && port_views(p@) == v,
            None => r is None,
        },
{
    let ghost envv = match env {
        Some(e) => Some(e@),
        None => None,
    };
    let mut parts: Vec<String> = Vec::new();
    parts.push(String::from_str("ssh"));
    match env {
        Some(e) => {
            let more = split_text(e, ',');
            let ghost first = parts@;
            let mut k: usize = 0;
            while k < more.len()
                invariant
                    k <= more@.len(),
                    crate::text::texts(parts@) == crate::text::texts(first) + crate::text::texts(
                        more@,
                    ).take(k as int),
                decreases more.len() - k,
            {
                let ghost before = parts@;
                parts.push(more[k].clone());
                proof {
                    assert(crate::text::texts(more@).take(k + 1) =~= crate::text::texts(more@).take(
                        k as int,
                    ).push(more@[k as int]@));
                    assert(crate::text::texts(parts@) =~= crate::text::texts(before).push(
                        more@[k as int]@,
                    ));
                }
                k = k + 1;
            }
            proof {
                assert(crate::text::texts(more@).take(more@.len() as int) =~= crate::text::texts(
                    more@,
                ));
                assert(crate::text::texts(first) =~= seq!["ssh"@]);
            }
        },
        None => {
            proof {
                assert(crate::text::texts(parts@) =~= seq!["ssh"@]);
            }
        },
    }
    let ghost pv = crate::text::texts(parts@);
    assert(pv == forwarded_parts(envv));
    let mut r: Vec<(u16, String)> = Vec::new();
    let mut i: usize = 0;
    proof {
        reveal_strlit("ssh");
    }
    while i < parts.len()
        invariant
            i <= parts@.len(),
            pv == crate::text::texts(parts@),
            pv == forwarded_parts(envv),
            envv == match env {
                Some(e) => Some(e@),
                None => None,
            },
            served_ports(pv.take(i as int)) == Some(port_views(r@)),
        decreases parts.len() - i,
    {
        proof {
            assert(pv.take(i + 1).drop_last() =~= pv.take(i as int));
            assert(pv.take(i + 1).last() == parts@[i as int]@);
        }
        let part = parts[i].as_str();
        let ghost before = r@;
        if crate::docker::str_equal(part, "ssh") {
            r.push((SSH_PORT, String::from_str("/iroh/ssh")));
        } else {
            match parse_unsigned_text(part, 65535) {
                Some(p) => {
                    r.push((p as u16, port_alpn(p as u16)));
                },
                None => {
                    proof {
                        assert(served_port(parts@[i as int]@) is None);
                        assert(served_ports(pv.take(i + 1)) is None);
                        lemma_served_ports_stays_none(pv, i + 1, pv.len() as int);
                        assert(pv.take(pv.len() as int) =~= pv);
                    }
                    return None;
                },
            }
        }
        proof {
            assert(port_views(r@) =~= port_views(before).push(served_port(parts@[i as int]@)->0));
        }
        i = i + 1;
    }
    proof {
        assert(pv.take(pv.len() as int) =~= pv);
    }
    Some(r)
}

proof fn lemma_served_ports_stays_none(t: Seq<Seq<char>>, i: int, k: int)
    requires
        0 < i <= k <= t.len(),
        served_ports(t.take(i)) is None,
    ensures
        served_ports(t.take(k)) is None,
    decreases k - i,
{
    if i < k {
        assert(t.take(i + 1).drop_last() =~= t.take(i));
        lemma_served_ports_stays_none(t, i + 1, k);
    }
}

/// The standard base64 text of bytes, as `base64`'s `STANDARD` engine
/// writes it (with padding).
pub uninterp spec fn base64_encoded(b: Seq<u8>) -> Seq<char>;

/// The bytes that `base64`'s `STANDARD` engine reads from a text; `None`
/// where the text is not valid standard base64.
pub uninterp spec fn base64_decoded(s: Seq<char>) -> Option<Seq<u8>>;

/// The decode error of `base64`.
#[verifier::external_type_specification]
#[verifier::external_body]
pub struct ExDecodeError(base64::DecodeError);

/// Encodes bytes with `BASE64_STANDARD.encode`; the text is named by
/// `base64_encoded`.
#[verifier::external_body]
fn b64_encode(bytes: &Vec<u8>) -> (r: String)
    ensures
        r@ == base64_encoded(bytes@),
{
    base64::prelude::BASE64_STANDARD.encode(bytes)
}

/// Decodes a text with `BASE64_STANDARD.decode`: the bytes named by
/// `base64_decoded`, or the error; a text that the engine wrote from some
/// bytes decodes to those bytes.
#[verifier::external_body]
fn b64_decode(s: &str) -> (r: Result<Vec<u8>, base64::DecodeError>)
    ensures
        match base64_decoded(s@) {
            Some(b) => r matches Ok(v) && v@ == b,
            None => r is Err,
        },
        forall|b: Seq<u8>| #[trigger] base64_encoded(b) == s@ ==> r is Ok && r.unwrap()@ == b,
{
    base64::prelude::BASE64_STANDARD.decode(s)
}

/// The text under which a job receives its endpoint's secret key.
pub fn encode_secret(key: &Vec<u8>) -> (r: String)
    ensures
        r@ == base64_encoded(key@),
{
    b64_encode(key)
}

/// The secret key that the container side reads from the text it was
/// given: the first 32 decoded bytes; `None` where the text is not base64
/// or holds fewer bytes.
pub fn secret_key_bytes(text: &str) -> (r: Option<Vec<u8>>)
    ensures
        match base64_decoded(text@) {
            Some(b) => if b.len() >= 32 {
                r matches Some(k) && k@ == b.take(32)
            } else {
                r is None
            },
            None => r is None,
        },
        forall|b: Seq<u8>|
            #[trigger] base64_encoded(b) == text@ && b.len() >= 32 ==> (r matches Some(k) && k@
                == b.take(32)),
{
    match b64_decode(text) {
        Ok(v) => {
            if v.len() >= 32 {
                let mut k: Vec<u8> = Vec::new();
                let mut i: usize = 0;
                while i < 32
                    invariant
                        i <= 32,
                        v@.len() >= 32,
                        k@ == v@.take(i as int),
                    decreases 32 - i,
                {
                    k.push(v[i]);
                    proof {
                        assert(v@.take(i + 1) =~= v@.take(i as int).push(v@[i as int]));
                    }
                    i = i + 1;
                }
                Some(k)
            } else {
                None
            }
        },
        Err(_) => None,
    }
}

} // verus!
