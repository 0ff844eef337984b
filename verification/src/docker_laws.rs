//! Laws of docker image references: printing a parsed reference and parsing
//! the text again gives the same reference.
use vstd::prelude::*;
use crate::docker::{
    alnum_end, component_cont, dash_end, digest_marker, digit_end, has_digest, host_end, image_end,
    image_start, is_alnum, labels_cont, lemma_alnum_end, lemma_component_cont, lemma_dash_end,
    lemma_digit_end, lemma_labels_cont, lemma_path_cont, lemma_sep_end, lemma_tag_cont,
    parse_image_ref, path_cont, ref_text, sep_end, tag_cont, tag_end, tag_part_end, ImageRef,
};

verus! {

/// Where the reference that `s` starts with ends: after the digest where
/// there is one, else after the tag part.
pub open spec fn ref_end(s: Seq<char>) -> int {
    let t = tag_part_end(s);
    if has_digest(s, t) {
        alnum_end(s, t + 8)
    } else {
        t
    }
}

pub open spec fn min_int(a: int, b: int) -> int {
    if a <= b {
        a
    } else {
        b
    }
}

proof fn lemma_alnum_prefix(s: Seq<char>, n: int, i: int)
    requires
        0 <= i <= n <= s.len(),
    ensures
        alnum_end(s.subrange(0, n), i) == min_int(alnum_end(s, i), n),
    decreases n - i,
{
    let p = s.subrange(0, n);
    lemma_alnum_end(s, i);
    if i < n {
        assert(p[i] == s[i]);
        if is_alnum(s[i]) {
            lemma_alnum_prefix(s, n, i + 1);
        }
    }
}

proof fn lemma_digit_prefix(s: Seq<char>, n: int, i: int)
    requires
        0 <= i <= n <= s.len(),
    ensures
        digit_end(s.subrange(0, n), i) == min_int(digit_end(s, i), n),
    decreases n - i,
{
    let p = s.subrange(0, n);
    lemma_digit_end(s, i);
    if i < n {
        assert(p[i] == s[i]);
        if crate::docker::is_digit(s[i]) {
            lemma_digit_prefix(s, n, i + 1);
        }
    }
}

proof fn lemma_dash_prefix(s: Seq<char>, n: int, i: int)
    requires
        0 <= i <= n <= s.len(),
    ensures
        dash_end(s.subrange(0, n), i) == min_int(dash_end(s, i), n),
    decreases n - i,
{
    let p = s.subrange(0, n);
    lemma_dash_end(s, i);
    if i < n {
        assert(p[i] == s[i]);
        if s[i] == '-' {
            lemma_dash_prefix(s, n, i + 1);
        }
    }
}

proof fn lemma_sep_prefix(s: Seq<char>, n: int, i: int)
    requires
        0 <= i <= n <= s.len(),
    ensures
        0 <= sep_end(s, i) < n ==> sep_end(s.subrange(0, n), i) == sep_end(s, i),
        (sep_end(s, i) < 0 || sep_end(s, i) >= n) ==> (sep_end(s.subrange(0, n), i) < 0 || sep_end(
            s.subrange(0, n),
            i,
        ) >= n),
{
    let p = s.subrange(0, n);
    lemma_sep_end(s, i);
    if i < n {
        assert(p[i] == s[i]);
        if i + 1 < n {
            assert(p[i + 1] == s[i + 1]);
        }
        if s[i] == '-' {
            lemma_dash_prefix(s, n, i);
        }
    }
}

proof fn lemma_component_prefix(s: Seq<char>, n: int, i: int)
    requires
        0 <= i <= n <= s.len(),
        component_cont(s, i) <= n,
    ensures
        component_cont(s.subrange(0, n), i) == component_cont(s, i),
    decreases s.len() - i,
{
    let p = s.subrange(0, n);
    let j = sep_end(s, i);
    lemma_sep_end(s, i);
    lemma_sep_prefix(s, n, i);
    if j >= 0 && j < s.len() && is_alnum(s[j]) {
        let k = alnum_end(s, j);
        lemma_alnum_end(s, j);
        lemma_component_cont(s, k);
        assert(j < n);
        assert(p[j] == s[j]);
        lemma_alnum_prefix(s, n, j);
        lemma_component_prefix(s, n, k);
    } else {
        let jp = sep_end(p, i);
        if 0 <= j < n {
            assert(p[j] == s[j]);
        }
        assert(!(jp >= 0 && jp < p.len() && is_alnum(p[jp])));
    }
}

proof fn lemma_labels_prefix(s: Seq<char>, n: int, i: int)
    requires
        0 <= i <= n <= s.len(),
        labels_cont(s, i) <= n,
    ensures
        labels_cont(s.subrange(0, n), i) == labels_cont(s, i),
    decreases s.len() - i,
{
    let p = s.subrange(0, n);
    if 0 <= i && i + 1 < s.len() && s[i] == '.' && is_alnum(s[i + 1]) {
        let k = alnum_end(s, i + 1);
        lemma_alnum_end(s, i + 1);
        lemma_labels_cont(s, k);
        assert(p[i] == s[i]);
        assert(p[i + 1] == s[i + 1]);
        lemma_alnum_prefix(s, n, i + 1);
        lemma_labels_prefix(s, n, k);
    } else {
        if i + 1 < n {
            assert(p[i] == s[i]);
            assert(p[i + 1] == s[i + 1]);
        }
    }
}

proof fn lemma_tag_cont_prefix(s: Seq<char>, n: int, i: int)
    requires
        0 <= i <= n <= s.len(),
        tag_cont(s, i) <= n,
    ensures
        tag_cont(s.subrange(0, n), i) == tag_cont(s, i),
    decreases s.len() - i,
{
    let p = s.subrange(0, n);
    if 0 <= i && i + 1 < s.len() && (s[i] == '.' || s[i] == '-') && is_alnum(s[i + 1]) {
        let k = alnum_end(s, i + 1);
        lemma_alnum_end(s, i + 1);
        lemma_tag_cont(s, k);
        assert(p[i] == s[i]);
        assert(p[i + 1] == s[i + 1]);
        lemma_alnum_prefix(s, n, i + 1);
        lemma_tag_cont_prefix(s, n, k);
    } else {
        if i + 1 < n {
            assert(p[i] == s[i]);
            assert(p[i + 1] == s[i + 1]);
        }
    }
}

proof fn lemma_path_prefix(s: Seq<char>, n: int, i: int)
    requires
        0 <= i <= n <= s.len(),
        path_cont(s, i) <= n,
    ensures
        path_cont(s.subrange(0, n), i) == path_cont(s, i),
    decreases s.len() - i,
{
    let p = s.subrange(0, n);
    if 0 <= i && i + 1 < s.len() && s[i] == '/' && is_alnum(s[i + 1]) {
        let k = alnum_end(s, i + 1);
        lemma_alnum_end(s, i + 1);
        lemma_component_cont(s, k);
        let c = component_cont(s, k);
        lemma_path_cont(s, c);
        assert(p[i] == s[i]);
        assert(p[i + 1] == s[i + 1]);
        lemma_alnum_prefix(s, n, i + 1);
        lemma_component_prefix(s, n, k);
        lemma_path_prefix(s, n, c);
    } else {
        if i + 1 < n {
            assert(p[i] == s[i]);
            assert(p[i + 1] == s[i + 1]);
        }
    }
}

proof fn lemma_tag_end_prefix(s: Seq<char>, n: int, i: int)
    requires
        0 <= i <= n <= s.len(),
        tag_end(s, i) <= n,
    ensures
        tag_end(s.subrange(0, n), i) == tag_end(s, i),
{
    let p = s.subrange(0, n);
    if i < n {
        assert(p[i] == s[i]);
        if is_alnum(s[i]) {
            let k = alnum_end(s, i);
            lemma_alnum_end(s, i);
            lemma_tag_cont(s, k);
            lemma_alnum_prefix(s, n, i);
            lemma_tag_cont_prefix(s, n, k);
        }
    } else if i < s.len() && is_alnum(s[i]) {
        lemma_alnum_end(s, i);
        lemma_tag_cont(s, alnum_end(s, i));
    }
}

/// Labels of a host are components of an image path.
proof fn lemma_labels_within_component(s: Seq<char>, x: int)
    requires
        0 <= x <= s.len(),
    ensures
        labels_cont(s, x) <= component_cont(s, x),
    decreases s.len() - x,
{
    lemma_component_cont(s, x);
    if 0 <= x && x + 1 < s.len() && s[x] == '.' && is_alnum(s[x + 1]) {
        lemma_alnum_end(s, x + 1);
        assert(sep_end(s, x) == x + 1);
        lemma_labels_within_component(s, alnum_end(s, x + 1));
    }
}

proof fn lemma_host_prefix(s: Seq<char>, n: int)
    requires
        0 <= n <= s.len(),
        host_end(s) >= 0 ==> host_end(s) < n,
        host_end(s) < 0 ==> component_cont(s, alnum_end(s, 0)) <= n,
    ensures
        host_end(s.subrange(0, n)) == host_end(s),
{
    let p = s.subrange(0, n);
    let a = alnum_end(s, 0);
    lemma_alnum_end(s, 0);
    lemma_alnum_prefix(s, n, 0);
    if host_end(s) >= 0 {
        let h = host_end(s);
        lemma_alnum_end(s, a + 1);
        let l = labels_cont(s, alnum_end(s, a + 1));
        lemma_labels_cont(s, alnum_end(s, a + 1));
        let c = if 0 <= l < s.len() && s[l] == ':' {
            l + 1
        } else {
            l
        };
        lemma_digit_end(s, c);
        assert(digit_end(s, c) == h);
        assert(alnum_end(p, 0) == a);
        assert(p[a] == s[a]);
        assert(p[a + 1] == s[a + 1]);
        lemma_alnum_prefix(s, n, a + 1);
        lemma_labels_prefix(s, n, alnum_end(s, a + 1));
        assert(p[l] == s[l]);
        lemma_digit_prefix(s, n, c);
        assert(p[h] == s[h]);
    } else {
        lemma_component_cont(s, a);
        if a <= n && 0 < a && a + 1 < n && s[a] == '.' && is_alnum(s[a + 1]) {
            assert(p[a] == s[a]);
            assert(p[a + 1] == s[a + 1]);
            let x = alnum_end(s, a + 1);
            lemma_alnum_end(s, a + 1);
            assert(sep_end(s, a) == a + 1);
            assert(component_cont(s, a) == component_cont(s, x));
            lemma_labels_within_component(s, x);
            lemma_labels_cont(s, x);
            let l = labels_cont(s, x);
            lemma_alnum_prefix(s, n, a + 1);
            lemma_labels_prefix(s, n, x);
            if l < n {
                assert(p[l] == s[l]);
                let c = if 0 <= l < s.len() && s[l] == ':' {
                    l + 1
                } else {
                    l
                };
                lemma_digit_end(s, c);
                lemma_digit_prefix(s, n, c);
                let d = digit_end(s, c);
                if d < n {
                    assert(p[d] == s[d]);
                }
            } else {
                lemma_digit_prefix(s, n, l);
            }
        } else {
            if a + 1 < n {
                assert(p[a] == s[a]);
                assert(p[a + 1] == s[a + 1]);
            }
        }
    }
}

/// The positions that a parse of `s` reads, in order.
proof fn lemma_parse_positions(s: Seq<char>)
    requires
        parse_image_ref(s) is Some,
    ensures
        ({
            let st = image_start(s);
            let e = image_end(s);
            let t = tag_part_end(s);
            &&& host_end(s) >= 0 ==> host_end(s) + 1 == st && s[host_end(s)] == '/'
            &&& host_end(s) < 0 ==> st == 0
            &&& 0 <= st < alnum_end(s, st) <= component_cont(s, alnum_end(s, st)) <= e <= t
                <= ref_end(s) <= s.len()
            &&& (0 <= e < s.len() && s[e] == ':') ==> e + 1 <= t
            &&& !(0 <= e < s.len() && s[e] == ':') ==> t == e
            &&& has_digest(s, t) ==> t + 8 < alnum_end(s, t + 8) == ref_end(s)
        }),
{
    let st = image_start(s);
    if host_end(s) >= 0 {
        let a = alnum_end(s, 0);
        lemma_alnum_end(s, 0);
        lemma_alnum_end(s, a + 1);
        lemma_labels_cont(s, alnum_end(s, a + 1));
    }
    lemma_alnum_end(s, st);
    let k = alnum_end(s, st);
    lemma_component_cont(s, k);
    lemma_path_cont(s, component_cont(s, k));
    let e = image_end(s);
    if 0 <= e < s.len() && s[e] == ':' {
        if e + 1 < s.len() && is_alnum(s[e + 1]) {
            lemma_alnum_end(s, e + 1);
            lemma_tag_cont(s, alnum_end(s, e + 1));
        }
    }
    let t = tag_part_end(s);
    if has_digest(s, t) {
        lemma_alnum_end(s, t + 8);
    }
}

/// Parsing the part of `s` that holds the reference gives the same
/// reference as parsing all of `s`.
proof fn lemma_parse_prefix(s: Seq<char>)
    requires
        parse_image_ref(s) is Some,
    ensures
        parse_image_ref(s.subrange(0, ref_end(s))) == parse_image_ref(s),
{
    let n = ref_end(s);
    let p = s.subrange(0, n);
    lemma_parse_positions(s);
    let st = image_start(s);
    let e = image_end(s);
    let t = tag_part_end(s);
    lemma_host_prefix(s, n);
    assert(image_start(p) == st);
    assert(p[st] == s[st]);
    let k = alnum_end(s, st);
    lemma_alnum_prefix(s, n, st);
    lemma_component_cont(s, k);
    lemma_path_cont(s, component_cont(s, k));
    lemma_component_prefix(s, n, k);
    lemma_path_prefix(s, n, component_cont(s, k));
    assert(image_end(p) == e);
    if e < n {
        assert(p[e] == s[e]);
    }
    if 0 <= e < s.len() && s[e] == ':' {
        lemma_tag_end_prefix(s, n, e + 1);
    }
    assert(tag_part_end(p) == t);
    if has_digest(s, t) {
        assert(p.subrange(t, t + 8) =~= s.subrange(t, t + 8));
        assert(p[t + 8] == s[t + 8]);
        lemma_alnum_prefix(s, n, t + 8);
        lemma_alnum_end(s, t + 8);
        assert(has_digest(p, t));
        assert(p.subrange(t + 8, alnum_end(p, t + 8)) =~= s.subrange(t + 8, alnum_end(s, t + 8)));
    } else {
        if t + 8 < n {
            assert(p.subrange(t, t + 8) =~= s.subrange(t, t + 8));
            assert(p[t + 8] == s[t + 8]);
        }
        assert(!has_digest(p, t));
    }
    if host_end(s) >= 0 {
        assert(p.subrange(0, host_end(s)) =~= s.subrange(0, host_end(s)));
    }
    assert(p.subrange(st, e) =~= s.subrange(st, e));
    if 0 <= e < s.len() && s[e] == ':' {
        assert(p.subrange(e + 1, t) =~= s.subrange(e + 1, t));
    }
}

/// The text of a parsed reference is the part of the input it was read
/// from.
proof fn lemma_text_is_prefix(s: Seq<char>)
    requires
        parse_image_ref(s) is Some,
    ensures
        ref_text(parse_image_ref(s)->0) == s.subrange(0, ref_end(s)),
{
    reveal_strlit("/");
    reveal_strlit(":");
    reveal_strlit("@sha256:");
    lemma_parse_positions(s);
    let r = parse_image_ref(s)->0;
    let st = image_start(s);
    let e = image_end(s);
    let t = tag_part_end(s);
    let n = ref_end(s);
    let reg = crate::docker::opt_prefix(r.registry, "/"@);
    let tag = crate::docker::opt_part(":"@, r.tag);
    let dig = crate::docker::opt_part("@sha256:"@, r.digest);
    assert(reg =~= s.subrange(0, st));
    assert(tag =~= s.subrange(e, t));
    if has_digest(s, t) {
        assert("@sha256:"@ =~= digest_marker());
        assert(dig =~= s.subrange(t, n));
    } else {
        assert(dig =~= s.subrange(t, n));
    }
    assert(reg + r.image + tag + dig =~= s.subrange(0, n));
}

/// Printing a parsed reference and parsing the text again gives the same
/// reference: `to_text` and `from_str` agree.
pub proof fn law_image_text_round_trip(s: Seq<char>)
    requires
        parse_image_ref(s) is Some,
    ensures
        parse_image_ref(ref_text(parse_image_ref(s)->0)) == parse_image_ref(s),
{
    lemma_text_is_prefix(s);
    lemma_parse_prefix(s);
}

/// Letters and digits only.
pub open spec fn all_alnum(s: Seq<char>) -> bool {
    forall|k: int| 0 <= k < s.len() ==> is_alnum(#[trigger] s[k])
}

/// A separator inside a component of an image path: `.`, one or two `_`,
/// or a run of `-`.
pub open spec fn component_separator(sep: Seq<char>) -> bool {
    ||| sep == seq!['.']
    ||| sep == seq!['_']
    ||| sep == seq!['_', '_']
    ||| sep.len() > 0 && forall|k: int| 0 <= k < sep.len() ==> #[trigger] sep[k] == '-'
}

/// `:tag` where there is a tag.
pub open spec fn tag_suffix(tag: Option<Seq<char>>) -> Seq<char> {
    match tag {
        Some(t) => seq![':'] + t,
        None => Seq::empty(),
    }
}

proof fn lemma_alnum_run(s: Seq<char>, i: int, j: int)
    requires
        0 <= i <= j <= s.len(),
        forall|k: int| i <= k < j ==> is_alnum(#[trigger] s[k]),
        j == s.len() || !is_alnum(s[j]),
    ensures
        alnum_end(s, i) == j,
    decreases j - i,
{
    if i < j {
        lemma_alnum_run(s, i + 1, j);
    }
}

proof fn lemma_dash_run(s: Seq<char>, i: int, j: int)
    requires
        0 <= i <= j <= s.len(),
        forall|k: int| i <= k < j ==> #[trigger] s[k] == '-',
        j == s.len() || s[j] != '-',
    ensures
        dash_end(s, i) == j,
    decreases j - i,
{
    if i < j {
        lemma_dash_run(s, i + 1, j);
    }
}

/// A component made of two runs of letters and digits joined by a
/// separator (`.`, one or two `_`, or a run of `-`) is read whole as the
/// image path, with no registry, and a `:tag` after it as the tag.
pub proof fn law_component_with_separator(a: Seq<char>, sep: Seq<char>, b: Seq<char>, tag: Option<Seq<char>>)
    requires
        a.len() > 0,
        b.len() > 0,
        all_alnum(a),
        all_alnum(b),
        component_separator(sep),
        tag matches Some(t) ==> t.len() > 0 && all_alnum(t),
    ensures
        parse_image_ref(a + sep + b + tag_suffix(tag)) == Some(
            ImageRef { registry: None, image: a + sep + b, tag: tag, digest: None },
        ),
{
    let p = a + sep + b;
    let x = tag_suffix(tag);
    let s = p + x;
    let na = a.len() as int;
    let ns = na + sep.len();
    let np = p.len() as int;
    assert forall|k: int| 0 <= k < na implies #[trigger] s[k] == a[k] by {
        assert(p[k] == (a + sep)[k]);
    }
    assert forall|k: int| na <= k < ns implies #[trigger] s[k] == sep[k - na] by {
        assert(p[k] == (a + sep)[k]);
    }
    assert forall|k: int| ns <= k < np implies #[trigger] s[k] == b[k - ns] by {
        assert(p[k] == b[k - ns]);
    }
    assert forall|k: int| np <= k < s.len() implies #[trigger] s[k] == x[k - np] by {}
    assert(sep[0] == '.' || sep[0] == '_' || sep[0] == '-');
    assert forall|k: int| 0 <= k < s.len() implies #[trigger] s[k] != '/' by {
        if k < na {
            assert(is_alnum(a[k]));
        } else if k < ns {
            assert(sep[k - na] == '.' || sep[k - na] == '_' || sep[k - na] == '-');
        } else if k < np {
            assert(is_alnum(b[k - ns]));
        } else if let Some(t) = tag {
            if k > np {
                assert(x[k - np] == t[k - np - 1]);
                assert(is_alnum(t[k - np - 1]));
            }
        }
    }
    assert(!is_alnum(s[na]));
    lemma_alnum_run(s, 0, na);
    assert(host_end(s) == -1);
    assert(image_start(s) == 0);
    assert(is_alnum(s[ns]));
    if sep.len() > 0 && sep[0] == '-' {
        lemma_dash_run(s, na, ns);
    }
    assert(sep_end(s, na) == ns);
    assert(np == s.len() || s[np] == ':');
    lemma_alnum_run(s, ns, np);
    assert(component_cont(s, np) == np);
    assert(component_cont(s, na) == np);
    assert(path_cont(s, np) == np);
    assert(image_end(s) == np);
    assert(s.subrange(0, np) =~= p);
    if let Some(t) = tag {
        assert(s[np] == ':');
        assert(is_alnum(s[np + 1]));
        assert forall|k: int| np + 1 <= k < s.len() implies is_alnum(#[trigger] s[k]) by {
            assert(x[k - np] == t[k - np - 1]);
        }
        lemma_alnum_run(s, np + 1, s.len() as int);
        assert(tag_part_end(s) == s.len());
        assert(s.subrange(np + 1, s.len() as int) =~= t);
    } else {
        assert(s =~= p);
        assert(tag_part_end(s) == s.len());
    }
    assert(!has_digest(s, s.len() as int));
}

} // verus!
