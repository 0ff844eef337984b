//! Docker image references: parsing `[host[:port]/]path[:tag][@sha256:digest]`,
//! printing them back, and the EDF form that CSCS expects.
use vstd::prelude::*;

verus! {

/// ASCII letters and digits, the characters of every name part.
pub open spec fn is_alnum(c: char) -> bool {
    ('a' <= c && c <= 'z') || ('A' <= c && c <= 'Z') || ('0' <= c && c <= '9')
}

pub open spec fn is_digit(c: char) -> bool {
    '0' <= c && c <= '9'
}

/// End of the longest run of letters and digits that starts at `i`.
pub open spec fn alnum_end(s: Seq<char>, i: int) -> int
    decreases s.len() - i,
{
    if 0 <= i < s.len() && is_alnum(s[i]) {
        alnum_end(s, i + 1)
    } else {
        i
    }
}

/// End of the longest run of digits that starts at `i`.
pub open spec fn digit_end(s: Seq<char>, i: int) -> int
    decreases s.len() - i,
{
    if 0 <= i < s.len() && is_digit(s[i]) {
        digit_end(s, i + 1)
    } else {
        i
    }
}

/// End of the longest run of dashes that starts at `i`.
pub open spec fn dash_end(s: Seq<char>, i: int) -> int
    decreases s.len() - i,
{
    if 0 <= i < s.len() && s[i] == '-' {
        dash_end(s, i + 1)
    } else {
        i
    }
}

pub proof fn lemma_alnum_end(s: Seq<char>, i: int)
    requires
        0 <= i <= s.len(),
    ensures
        i <= alnum_end(s, i) <= s.len(),
        forall|k: int| i <= k < alnum_end(s, i) ==> is_alnum(#[trigger] s[k]),
        alnum_end(s, i) < s.len() ==> !is_alnum(s[alnum_end(s, i)]),
    decreases s.len() - i,
{
    if i < s.len() && is_alnum(s[i]) {
        lemma_alnum_end(s, i + 1);
    }
}

pub proof fn lemma_digit_end(s: Seq<char>, i: int)
    requires
        0 <= i <= s.len(),
    ensures
        i <= digit_end(s, i) <= s.len(),
        forall|k: int| i <= k < digit_end(s, i) ==> is_digit(#[trigger] s[k]),
    decreases s.len() - i,
{
    if i < s.len() && is_digit(s[i]) {
        lemma_digit_end(s, i + 1);
    }
}

pub proof fn lemma_dash_end(s: Seq<char>, i: int)
    requires
        0 <= i <= s.len(),
    ensures
        i <= dash_end(s, i) <= s.len(),
        forall|k: int| i <= k < dash_end(s, i) ==> #[trigger] s[k] == '-',
    decreases s.len() - i,
{
    if i < s.len() && s[i] == '-' {
        lemma_dash_end(s, i + 1);
    }
}

/// After a host label that ends at `i`: further `.label` parts.
pub open spec fn labels_cont(s: Seq<char>, i: int) -> int
    decreases s.len() - i,
{
    if 0 <= i && i + 1 < s.len() && s[i] == '.' && is_alnum(s[i + 1]) {
        proof {
            lemma_alnum_end(s, i + 1);
        }
        labels_cont(s, alnum_end(s, i + 1))
    } else {
        i
    }
}

/// Where the host part `label.label[...][:port]` of `s` ends, just before the
/// `/` that closes it; -1 where `s` does not start with a host.
pub open spec fn host_end(s: Seq<char>) -> int {
    let a = alnum_end(s, 0);
    if 0 < a && a + 1 < s.len() && s[a] == '.' && is_alnum(s[a + 1]) {
        let l = labels_cont(s, alnum_end(s, a + 1));
        let c = if 0 <= l < s.len() && s[l] == ':' {
            l + 1
        } else {
            l
        };
        let d = digit_end(s, c);
        if 0 <= d < s.len() && s[d] == '/' {
            d
        } else {
            -1
        }
    } else {
        -1
    }
}

/// End of the separator (`.`, one or two `_`, or a run of `-`) that starts at
/// `i` in an image path component; -1 where none starts there.
pub open spec fn sep_end(s: Seq<char>, i: int) -> int {
    if 0 <= i < s.len() {
        if s[i] == '.' {
            i + 1
        } else if s[i] == '_' {
            if i + 1 < s.len() && s[i + 1] == '_' {
                i + 2
            } else {
                i + 1
            }
        } else if s[i] == '-' {
            dash_end(s, i)
        } else {
            -1
        }
    } else {
        -1
    }
}

pub proof fn lemma_sep_end(s: Seq<char>, i: int)
    requires
        0 <= i <= s.len(),
    ensures
        sep_end(s, i) == -1 || i < sep_end(s, i) <= s.len(),
{
    if 0 <= i < s.len() && s[i] == '-' {
        lemma_dash_end(s, i + 1);
    }
}

/// After an alphanumeric run of a path component that ends at `i`: further
/// separator + run parts.
pub open spec fn component_cont(s: Seq<char>, i: int) -> int
    decreases s.len() - i,
{
    if 0 <= i <= s.len() && sep_end(s, i) >= 0 && sep_end(s, i) < s.len() && is_alnum(
        s[sep_end(s, i)],
    ) {
        proof {
            lemma_sep_end(s, i);
            lemma_alnum_end(s, sep_end(s, i));
        }
        component_cont(s, alnum_end(s, sep_end(s, i)))
    } else {
        i
    }
}

/// After a path component that ends at `i`: further `/component` parts.
pub open spec fn path_cont(s: Seq<char>, i: int) -> int
    decreases s.len() - i,
{
    if 0 <= i && i + 1 < s.len() && s[i] == '/' && is_alnum(s[i + 1]) {
        proof {
            lemma_alnum_end(s, i + 1);
            lemma_component_cont(s, alnum_end(s, i + 1));
        }
        path_cont(s, component_cont(s, alnum_end(s, i + 1)))
    } else {
        i
    }
}

/// After an alphanumeric run of a tag that ends at `i`: further `.run` or
/// `-run` parts.
pub open spec fn tag_cont(s: Seq<char>, i: int) -> int
    decreases s.len() - i,
{
    if 0 <= i && i + 1 < s.len() && (s[i] == '.' || s[i] == '-') && is_alnum(s[i + 1]) {
        proof {
            lemma_alnum_end(s, i + 1);
        }
        tag_cont(s, alnum_end(s, i + 1))
    } else {
        i
    }
}

/// End of a (possibly empty) tag that starts at `i`.
pub open spec fn tag_end(s: Seq<char>, i: int) -> int {
    if 0 <= i < s.len() && is_alnum(s[i]) {
        tag_cont(s, alnum_end(s, i))
    } else {
        i
    }
}

pub open spec fn digest_marker() -> Seq<char> {
    seq!['@', 's', 'h', 'a', '2', '5', '6', ':']
}

/// Whether a digest `@sha256:<letters and digits>` starts at `i`.
pub open spec fn has_digest(s: Seq<char>, i: int) -> bool {
    0 <= i && i + 8 < s.len() && s.subrange(i, i + 8) == digest_marker() && is_alnum(s[i + 8])
}

pub proof fn lemma_labels_cont(s: Seq<char>, i: int)
    requires
        0 <= i <= s.len(),
    ensures
        i <= labels_cont(s, i) <= s.len(),
    decreases s.len() - i,
{
    if 0 <= i && i + 1 < s.len() && s[i] == '.' && is_alnum(s[i + 1]) {
        lemma_alnum_end(s, i + 1);
        lemma_labels_cont(s, alnum_end(s, i + 1));
    }
}

pub proof fn lemma_component_cont(s: Seq<char>, i: int)
    requires
        0 <= i <= s.len(),
    ensures
        i <= component_cont(s, i) <= s.len(),
    decreases s.len() - i,
{
    if sep_end(s, i) >= 0 && sep_end(s, i) < s.len() && is_alnum(s[sep_end(s, i)]) {
        lemma_sep_end(s, i);
        lemma_alnum_end(s, sep_end(s, i));
        lemma_component_cont(s, alnum_end(s, sep_end(s, i)));
    }
}

pub proof fn lemma_path_cont(s: Seq<char>, i: int)
    requires
        0 <= i <= s.len(),
    ensures
        i <= path_cont(s, i) <= s.len(),
    decreases s.len() - i,
{
    if 0 <= i && i + 1 < s.len() && s[i] == '/' && is_alnum(s[i + 1]) {
        lemma_alnum_end(s, i + 1);
        lemma_component_cont(s, alnum_end(s, i + 1));
        lemma_path_cont(s, component_cont(s, alnum_end(s, i + 1)));
    }
}

pub proof fn lemma_tag_cont(s: Seq<char>, i: int)
    requires
        0 <= i <= s.len(),
    ensures
        i <= tag_cont(s, i) <= s.len(),
    decreases s.len() - i,
{
    if 0 <= i && i + 1 < s.len() && (s[i] == '.' || s[i] == '-') && is_alnum(s[i + 1]) {
        lemma_alnum_end(s, i + 1);
        lemma_tag_cont(s, alnum_end(s, i + 1));
    }
}

/// The parts of an image reference, as character sequences.
pub struct ImageRef {
    pub registry: Option<Seq<char>>,
    pub image: Seq<char>,
    pub tag: Option<Seq<char>>,
    pub digest: Option<Seq<char>>,
}

/// Where the image path of `s` starts.
pub open spec fn image_start(s: Seq<char>) -> int {
    if host_end(s) >= 0 {
        host_end(s) + 1
    } else {
        0
    }
}

/// Where the image path of `s` ends.
pub open spec fn image_end(s: Seq<char>) -> int {
    path_cont(s, component_cont(s, alnum_end(s, image_start(s))))
}

/// Where the optional `:tag` of `s` ends.
pub open spec fn tag_part_end(s: Seq<char>) -> int {
    let e = image_end(s);
    if 0 <= e < s.len() && s[e] == ':' {
        tag_end(s, e + 1)
    } else {
        e
    }
}

/// The reference that `s` starts with: an optional host followed by `/`,
/// an image path, an optional `:tag` and an optional `@sha256:digest`. Each
/// part is read as far as it goes; whatever follows the reference is
/// ignored. `None` where no image path follows the optional host.
pub open spec fn parse_image_ref(s: Seq<char>) -> Option<ImageRef> {
    let st = image_start(s);
    if !(0 <= st < s.len() && is_alnum(s[st])) {
        None
    } else {
        let e = image_end(s);
        let t = tag_part_end(s);
        Some(
            ImageRef {
                registry: if host_end(s) >= 0 {
                    Some(s.subrange(0, host_end(s)))
                } else {
                    None
                },
                image: s.subrange(st, e),
                tag: if 0 <= e < s.len() && s[e] == ':' {
                    Some(s.subrange(e + 1, t))
                } else {
                    None
                },
                digest: if has_digest(s, t) {
                    Some(s.subrange(t + 8, alnum_end(s, t + 8)))
                } else {
                    None
                },
            },
        )
    }
}


/// The optional string `o`, by value.
pub open spec fn opt_view(o: Option<String>) -> Option<Seq<char>> {
    match o {
        Some(x) => Some(x@),
        None => None,
    }
}

/// A docker image reference.
#[derive(Debug, Clone)]
pub struct DockerImageUrl {
    pub registry: Option<String>,
    pub image: String,
    pub tag: Option<String>,
    pub digest: Option<String>,
}

impl View for DockerImageUrl {
    type V = ImageRef;

    open spec fn view(&self) -> ImageRef {
        ImageRef {
            registry: opt_view(self.registry),
            image: self.image@,
            tag: opt_view(self.tag),
            digest: opt_view(self.digest),
        }
    }
}

/// The text does not start with an image reference.
#[derive(Debug, Clone, PartialEq, Eq, Structural)]
pub enum ImageRefError {
    NoImagePath,
}

fn is_alnum_char(c: char) -> (r: bool)
    ensures
        r == is_alnum(c),
{
    ('a' <= c && c <= 'z') || ('A' <= c && c <= 'Z') || ('0' <= c && c <= '9')
}

fn is_digit_char(c: char) -> (r: bool)
    ensures
        r == is_digit(c),
{
    '0' <= c && c <= '9'
}

/// The characters of `s`, in order.
pub fn chars_of(s: &str) -> (v: Vec<char>)
    ensures
        v@ == s@,
{
    let n = s.unicode_len();
    let mut v: Vec<char> = Vec::new();
    let mut i: usize = 0;
    while i < n
        invariant
            n == s@.len(),
            i <= n,
            v@ == s@.subrange(0, i as int),
        decreases n - i,
    {
        let c = s.get_char(i);
        v.push(c);
        proof {
            assert(s@.subrange(0, i + 1) =~= s@.subrange(0, i as int).push(c));
        }
        i = i + 1;
    }
    proof {
        assert(s@.subrange(0, n as int) =~= s@);
    }
    v
}

fn scan_alnum(v: &Vec<char>, i: usize) -> (r: usize)
    requires
        i <= v.len(),
    ensures
        r as int == alnum_end(v@, i as int),
        i <= r <= v.len(),
{
    let mut j = i;
    while j < v.len() && is_alnum_char(v[j])
        invariant
            i <= j <= v.len(),
            alnum_end(v@, i as int) == alnum_end(v@, j as int),
        decreases v.len() - j,
    {
        j = j + 1;
    }
    j
}

fn scan_digits(v: &Vec<char>, i: usize) -> (r: usize)
    requires
        i <= v.len(),
    ensures
        r as int == digit_end(v@, i as int),
        i <= r <= v.len(),
{
    let mut j = i;
    while j < v.len() && is_digit_char(v[j])
        invariant
            i <= j <= v.len(),
            digit_end(v@, i as int) == digit_end(v@, j as int),
        decreases v.len() - j,
    {
        j = j + 1;
    }
    j
}

fn scan_dashes(v: &Vec<char>, i: usize) -> (r: usize)
    requires
        i <= v.len(),
    ensures
        r as int == dash_end(v@, i as int),
        i <= r <= v.len(),
{
    let mut j = i;
    while j < v.len() && v[j] == '-'
        invariant
            i <= j <= v.len(),
            dash_end(v@, i as int) == dash_end(v@, j as int),
        decreases v.len() - j,
    {
        j = j + 1;
    }
    j
}

fn scan_labels(v: &Vec<char>, i: usize) -> (r: usize)
    requires
        i <= v.len(),
    ensures
        r as int == labels_cont(v@, i as int),
        i <= r <= v.len(),
{
    let mut j = i;
    while j < v.len() && j + 1 < v.len() && v[j] == '.' && is_alnum_char(v[j + 1])
        invariant
            i <= j <= v.len(),
            labels_cont(v@, i as int) == labels_cont(v@, j as int),
        decreases v.len() - j,
    {
        j = scan_alnum(v, j + 1);
    }
    j
}

/// Where the host ends, when `v` starts with one.
fn scan_host(v: &Vec<char>) -> (r: Option<usize>)
    ensures
        match r {
            Some(d) => d as int == host_end(v@) && d < v.len(),
            None => host_end(v@) == -1,
        },
{
    let a = scan_alnum(v, 0);
    if 0 < a && a < v.len() && a + 1 < v.len() && v[a] == '.' && is_alnum_char(v[a + 1]) {
        let b = scan_alnum(v, a + 1);
        let l = scan_labels(v, b);
        let c = if l < v.len() && v[l] == ':' {
            l + 1
        } else {
            l
        };
        let d = scan_digits(v, c);
        if d < v.len() && v[d] == '/' {
            Some(d)
        } else {
            None
        }
    } else {
        None
    }
}

fn scan_separator(v: &Vec<char>, i: usize) -> (r: Option<usize>)
    requires
        i <= v.len(),
    ensures
        match r {
            Some(e) => e as int == sep_end(v@, i as int) && i < e <= v.len(),
            None => sep_end(v@, i as int) == -1,
        },
{
    proof {
        lemma_sep_end(v@, i as int);
    }
    if i < v.len() {
        if v[i] == '.' {
            Some(i + 1)
        } else if v[i] == '_' {
            if i + 1 < v.len() && v[i + 1] == '_' {
                Some(i + 2)
            } else {
                Some(i + 1)
            }
        } else if v[i] == '-' {
            Some(scan_dashes(v, i))
        } else {
            None
        }
    } else {
        None
    }
}

fn scan_component(v: &Vec<char>, i: usize) -> (r: usize)
    requires
        i <= v.len(),
    ensures
        r as int == component_cont(v@, i as int),
        i <= r <= v.len(),
{
    let mut j = i;
    loop
        invariant
            i <= j <= v.len(),
            component_cont(v@, i as int) == component_cont(v@, j as int),
        decreases v.len() - j,
    {
        match scan_separator(v, j) {
            Some(e) => {
                if e < v.len() && is_alnum_char(v[e]) {
                    j = scan_alnum(v, e);
                } else {
                    return j;
                }
            },
            None => {
                return j;
            },
        }
    }
}

fn scan_path(v: &Vec<char>, i: usize) -> (r: usize)
    requires
        i <= v.len(),
    ensures
        r as int == path_cont(v@, i as int),
        i <= r <= v.len(),
{
    let mut j = i;
    while j < v.len() && j + 1 < v.len() && v[j] == '/' && is_alnum_char(v[j + 1])
        invariant
            i <= j <= v.len(),
            path_cont(v@, i as int) == path_cont(v@, j as int),
        decreases v.len() - j,
    {
        let a = scan_alnum(v, j + 1);
        j = scan_component(v, a);
    }
    j
}

fn scan_tag(v: &Vec<char>, i: usize) -> (r: usize)
    requires
        i <= v.len(),
    ensures
        r as int == tag_end(v@, i as int),
        i <= r <= v.len(),
{
    if !(i < v.len() && is_alnum_char(v[i])) {
        return i;
    }
    let mut j = scan_alnum(v, i);
    while j < v.len() && j + 1 < v.len() && (v[j] == '.' || v[j] == '-') && is_alnum_char(v[j + 1])
        invariant
            i <= j <= v.len(),
            tag_end(v@, i as int) == tag_cont(v@, j as int),
        decreases v.len() - j,
    {
        j = scan_alnum(v, j + 1);
    }
    j
}

fn starts_digest(v: &Vec<char>, i: usize) -> (r: bool)
    requires
        i <= v.len(),
    ensures
        r == has_digest(v@, i as int),
{
    if i < v.len() && v.len() - i > 8 {
        let ok = v[i] == '@' && v[i + 1] == 's' && v[i + 2] == 'h' && v[i + 3] == 'a' && v[i + 4]
            == '2' && v[i + 5] == '5' && v[i + 6] == '6' && v[i + 7] == ':' && is_alnum_char(
            v[i + 8],
        );
        proof {
            if ok {
                assert(v@.subrange(i as int, i + 8) =~= digest_marker());
            } else if v@.subrange(i as int, i + 8) == digest_marker() {
                assert(v@.subrange(i as int, i + 8)[0] == '@');
                assert(v@.subrange(i as int, i + 8)[1] == 's');
                assert(v@.subrange(i as int, i + 8)[2] == 'h');
                assert(v@.subrange(i as int, i + 8)[3] == 'a');
                assert(v@.subrange(i as int, i + 8)[4] == '2');
                assert(v@.subrange(i as int, i + 8)[5] == '5');
                assert(v@.subrange(i as int, i + 8)[6] == '6');
                assert(v@.subrange(i as int, i + 8)[7] == ':');
            }
        }
        ok
    } else {
        false
    }
}

/// The part of `s` from `from` to `to`, as a string.
fn piece(s: &str, from: usize, to: usize) -> (r: String)
    requires
        from <= to <= s@.len(),
    ensures
        r@ == s@.subrange(from as int, to as int),
{
    String::from_str(s.substring_char(from, to))
}

impl DockerImageUrl {
    /// Reads the image reference that `s` starts with (see
    /// `parse_image_ref`); fails where no image path follows the optional
    /// host.
    pub fn from_str(s: &str) -> (r: Result<DockerImageUrl, ImageRefError>)
        ensures
            match parse_image_ref(s@) {
                Some(p) => r matches Ok(u) && u@ == p,
                None => r == Err::<DockerImageUrl, ImageRefError>(ImageRefError::NoImagePath),
            },
    {
        let v = chars_of(s);
        let host = scan_host(&v);
        let st = match host {
            Some(d) => d + 1,
            None => 0,
        };
        if !(st < v.len() && is_alnum_char(v[st])) {
            return Err(ImageRefError::NoImagePath);
        }
        let a = scan_alnum(&v, st);
        let c = scan_component(&v, a);
        let e = scan_path(&v, c);
        let (tag, t) = if e < v.len() && v[e] == ':' {
            let te = scan_tag(&v, e + 1);
            (Some(piece(s, e + 1, te)), te)
        } else {
            (None, e)
        };
        let digest = if starts_digest(&v, t) {
            let de = scan_alnum(&v, t + 8);
            Some(piece(s, t + 8, de))
        } else {
            None
        };
        let registry = match host {
            Some(d) => Some(piece(s, 0, d)),
            None => None,
        };
        let image = piece(s, st, e);
        DockerImageUrl { registry, image, tag, digest }.ok_if_ref()
    }

    fn ok_if_ref(self) -> (r: Result<DockerImageUrl, ImageRefError>)
        ensures
            r == Ok::<DockerImageUrl, ImageRefError>(self),
    {
        Ok(self)
    }
}


/// `sep` followed by `x` where `o` holds `x`; nothing otherwise.
pub open spec fn opt_part(sep: Seq<char>, o: Option<Seq<char>>) -> Seq<char> {
    match o {
        Some(x) => sep + x,
        None => Seq::empty(),
    }
}

/// `x` followed by `sep` where `o` holds `x`; nothing otherwise.
pub open spec fn opt_prefix(o: Option<Seq<char>>, sep: Seq<char>) -> Seq<char> {
    match o {
        Some(x) => x + sep,
        None => Seq::empty(),
    }
}

/// The usual text of a reference: `registry/image:tag@sha256:digest`, each
/// optional part only where it is set.
pub open spec fn ref_text(u: ImageRef) -> Seq<char> {
    opt_prefix(u.registry, "/"@) + u.image + opt_part(":"@, u.tag) + opt_part("@sha256:"@, u.digest)
}

/// The EDF form that CSCS uses: `registry#image:tag@sha256:digest`.
pub open spec fn edf_text(u: ImageRef) -> Seq<char> {
    opt_prefix(u.registry, "#"@) + u.image + opt_part(":"@, u.tag) + opt_part("@sha256:"@, u.digest)
}

fn push_opt_part(out: &mut String, sep: &str, o: &Option<String>)
    ensures
        final(out)@ == old(out)@ + opt_part(sep@, opt_view(*o)),
{
    match o {
        Some(x) => {
            out.append(sep);
            out.append(x.as_str());
        },
        None => {
            proof {
                assert(old(out)@ + Seq::<char>::empty() =~= old(out)@);
            }
        },
    }
}

impl DockerImageUrl {
    fn render_with(&self, host_sep: &str) -> (r: String)
        ensures
            r@ == opt_prefix(self@.registry, host_sep@) + self@.image + opt_part(":"@, self@.tag)
                + opt_part("@sha256:"@, self@.digest),
    {
        let mut out = String::new();
        match &self.registry {
            Some(r) => {
                out.append(r.as_str());
                out.append(host_sep);
            },
            None => {},
        }
        out.append(self.image.as_str());
        push_opt_part(&mut out, ":", &self.tag);
        push_opt_part(&mut out, "@sha256:", &self.digest);
        proof {
            assert(out@ =~= opt_prefix(self@.registry, host_sep@) + self@.image + opt_part(
                ":"@,
                self@.tag,
            ) + opt_part("@sha256:"@, self@.digest));
        }
        out
    }

    /// The reference in the EDF form used by CSCS.
    pub fn to_edf(&self) -> (r: String)
        ensures
            r@ == edf_text(self@),
    {
        self.render_with("#")
    }

    /// The reference in its usual text form.
    pub fn to_text(&self) -> (r: String)
        ensures
            r@ == ref_text(self@),
    {
        self.render_with("/")
    }

    /// Reads a reference from an owned string; see `from_str`.
    pub fn try_from(value: String) -> (r: Result<DockerImageUrl, ImageRefError>)
        ensures
            match parse_image_ref(value@) {
                Some(p) => r matches Ok(u) && u@ == p,
                None => r == Err::<DockerImageUrl, ImageRefError>(ImageRefError::NoImagePath),
            },
    {
        DockerImageUrl::from_str(value.as_str())
    }
}

/// A CPU architecture of an image.
#[derive(Debug, Clone, Copy, PartialEq, Eq, Structural)]
#[allow(non_camel_case_types)]
pub enum OciPlatform {
    arm64,
    amd64,
    Other,
}

/// The platform that an architecture name stands for.
pub open spec fn platform_of(name: Seq<char>) -> OciPlatform {
    if name == "arm64"@ {
        OciPlatform::arm64
    } else if name == "amd64"@ {
        OciPlatform::amd64
    } else {
        OciPlatform::Other
    }
}

impl OciPlatform {
    /// The platform named `value`: `arm64`, `amd64`, or `Other` for any other
    /// name.
    pub fn from_name(value: &str) -> (r: OciPlatform)
        ensures
            r == platform_of(value@),
    {
        if str_equal(value, "arm64") {
            OciPlatform::arm64
        } else if str_equal(value, "amd64") {
            OciPlatform::amd64
        } else {
            OciPlatform::Other
        }
    }

    /// The platform's name.
    pub fn name(&self) -> (r: &'static str)
        ensures
            *self == OciPlatform::arm64 ==> r@ == "arm64"@,
            *self == OciPlatform::amd64 ==> r@ == "amd64"@,
            *self == OciPlatform::Other ==> r@ == "Other"@,
    {
        match self {
            OciPlatform::arm64 => "arm64",
            OciPlatform::amd64 => "amd64",
            OciPlatform::Other => "Other",
        }
    }
}

/// What an image registry says about an image.
#[derive(Debug, Clone)]
pub struct DockerImageMeta {
    pub platforms: Vec<OciPlatform>,
    pub entrypoint: Option<Vec<String>>,
    pub working_dir: Option<String>,
}

/// Whether an image built for `platforms` runs on a system with the given
/// architectures: some architecture of the system names one of them.
pub fn image_supports_system(platforms: &Vec<OciPlatform>, architectures: &Vec<String>) -> (r: bool)
    ensures
        r == exists|i: int|
            0 <= i < architectures@.len() && platforms@.contains(
                platform_of(#[trigger] architectures@[i]@),
            ),
{
    let mut compatible = false;
    let mut i: usize = 0;
    while i < architectures.len()
        invariant
            i <= architectures@.len(),
            compatible == exists|k: int|
                0 <= k < i && platforms@.contains(platform_of(#[trigger] architectures@[k]@)),
        decreases architectures.len() - i,
    {
        let p = OciPlatform::from_name(architectures[i].as_str());
        let mut j: usize = 0;
        let mut found = false;
        while j < platforms.len()
            invariant
                j <= platforms@.len(),
                found == exists|m: int| 0 <= m < j && platforms@[m] == p,
            decreases platforms.len() - j,
        {
            if platforms[j] == p {
                found = true;
            }
            j = j + 1;
        }
        if found {
            compatible = true;
        }
        proof {
            assert(found == platforms@.contains(p));
            assert(architectures@[i as int]@ == architectures[i as int]@);
        }
        i = i + 1;
    }
    compatible
}

/// The distinct platforms of `list`, in order of first appearance.
pub fn distinct_platforms(list: &Vec<OciPlatform>) -> (r: Vec<OciPlatform>)
    ensures
        forall|p: OciPlatform| r@.contains(p) <==> list@.contains(p),
        forall|a: int, b: int| 0 <= a < b < r@.len() ==> r@[a] != r@[b],
{
    let mut out: Vec<OciPlatform> = Vec::new();
    let mut i: usize = 0;
    while i < list.len()
        invariant
            i <= list@.len(),
            forall|p: OciPlatform| out@.contains(p) <==> list@.subrange(0, i as int).contains(p),
            forall|a: int, b: int| 0 <= a < b < out@.len() ==> out@[a] != out@[b],
        decreases list.len() - i,
    {
        let p = list[i];
        let mut j: usize = 0;
        let mut seen = false;
        while j < out.len()
            invariant
                j <= out@.len(),
                seen == exists|m: int| 0 <= m < j && out@[m] == p,
            decreases out.len() - j,
        {
            if out[j] == p {
                seen = true;
            }
            j = j + 1;
        }
        let ghost before = out@;
        if !seen {
            out.push(p);
        }
        proof {
            assert(list@.subrange(0, i + 1) =~= list@.subrange(0, i as int).push(p));
            assert forall|q: OciPlatform| out@.contains(q) <==> list@.subrange(0, i + 1).contains(
                q,
            ) by {
                if out@.contains(q) {
                    let k = choose|k: int| 0 <= k < out@.len() && out@[k] == q;
                    if k < before.len() {
                        assert(before[k] == q);
                        assert(before.contains(q));
                        assert(list@.subrange(0, i as int).contains(q));
                        let m = choose|m: int|
                            0 <= m < i && #[trigger] list@.subrange(0, i as int)[m] == q;
                        assert(list@.subrange(0, i + 1)[m] == q);
                    } else {
                        assert(list@.subrange(0, i + 1)[i as int] == q);
                    }
                }
                if list@.subrange(0, i + 1).contains(q) {
                    let k = choose|k: int| 0 <= k < i + 1 && #[trigger] list@.subrange(0, i + 1)[k] == q;
                    if k < i {
                        assert(list@.subrange(0, i as int)[k] == q);
                        assert(before.contains(q));
                        let m = choose|m: int| 0 <= m < before.len() && before[m] == q;
                        assert(out@[m] == q);
                    } else if seen {
                        let m = choose|m: int| 0 <= m < before.len() && before[m] == p;
                        assert(out@[m] == q);
                    } else {
                        assert(out@[before.len() as int] == q);
                    }
                }
            }
        }
        i = i + 1;
    }
    proof {
        assert(list@.subrange(0, list@.len() as int) =~= list@);
    }
    out
}

/// Whether two strings hold the same characters.
pub fn str_equal(a: &str, b: &str) -> (r: bool)
    ensures
        r == (a@ == b@),
{
    let n = a.unicode_len();
    if n != b.unicode_len() {
        return false;
    }
    let mut i: usize = 0;
    while i < n
        invariant
            n == a@.len() == b@.len(),
            i <= n,
            forall|k: int| 0 <= k < i ==> a@[k] == b@[k],
        decreases n - i,
    {
        if a.get_char(i) != b.get_char(i) {
            return false;
        }
        i = i + 1;
    }
    proof {
        assert(a@ =~= b@);
    }
    true
}

} // verus!
