//! Resource usage of a job: the GPU memory that `nvidia-smi` reports, and
//! the samples that the usage charts keep (times in seconds, sizes in
//! bytes).
use vstd::prelude::*;
use crate::forward::{split_on, split_text};
use crate::text::{parse_unsigned, parse_unsigned_text, split_once};

verus! {

/// The characters that `str::trim` removes: Unicode white space.
pub open spec fn is_white(c: char) -> bool {
    c == '\t' || c == '\n' || c == '\x0B' || c == '\x0C' || c == '\r' || c == ' ' || c == '\u{85}'
        || c == '\u{A0}' || c == '\u{1680}' || ('\u{2000}' <= c && c <= '\u{200A}') || c == '\u{2028}'
        || c == '\u{2029}' || c == '\u{202F}' || c == '\u{205F}' || c == '\u{3000}'
}

fn is_white_char(c: char) -> (r: bool)
    ensures
        r == is_white(c),
{
    c == '\t' || c == '\n' || c == '\x0B' || c == '\x0C' || c == '\r' || c == ' ' || c == '\u{85}'
        || c == '\u{A0}' || c == '\u{1680}' || ('\u{2000}' <= c && c <= '\u{200A}') || c == '\u{2028}'
        || c == '\u{2029}' || c == '\u{202F}' || c == '\u{205F}' || c == '\u{3000}'
}

pub open spec fn trim_white_start(s: Seq<char>) -> Seq<char>
    decreases s.len(),
{
    if s.len() > 0 && is_white(s[0]) {
        trim_white_start(s.drop_first())
    } else {
        s
    }
}

pub open spec fn trim_white_end(s: Seq<char>) -> Seq<char>
    decreases s.len(),
{
    if s.len() > 0 && is_white(s.last()) {
        trim_white_end(s.drop_last())
    } else {
        s
    }
}

/// `s` as `str::trim` leaves it.
pub open spec fn trimmed(s: Seq<char>) -> Seq<char> {
    trim_white_end(trim_white_start(s))
}

proof fn lemma_trim_white_start(s: Seq<char>, i: int)
    requires
        0 <= i <= s.len(),
        forall|k: int| 0 <= k < i ==> is_white(s[k]),
        i == s.len() || !is_white(s[i]),
    ensures
        trim_white_start(s) == s.subrange(i, s.len() as int),
    decreases i,
{
    if i == 0 {
        assert(s.subrange(0, s.len() as int) =~= s);
    } else {
        lemma_trim_white_start(s.drop_first(), i - 1);
        assert(s.drop_first().subrange(i - 1, s.len() - 1) =~= s.subrange(i, s.len() as int));
    }
}

proof fn lemma_trim_white_end(s: Seq<char>, j: int)
    requires
        0 <= j <= s.len(),
        forall|k: int| j <= k < s.len() ==> is_white(s[k]),
        j == 0 || !is_white(s[j - 1]),
    ensures
        trim_white_end(s) == s.subrange(0, j),
    decreases s.len() - j,
{
    if j == s.len() {
        assert(s.subrange(0, j) =~= s);
    } else {
        lemma_trim_white_end(s.drop_last(), j);
        assert(s.drop_last().subrange(0, j) =~= s.subrange(0, j));
    }
}

/// Trims white space off both ends, as `str::trim` does.
pub fn trim_text(s: &str) -> (r: String)
    ensures
        r@ == trimmed(s@),
{
    let n = s.unicode_len();
    let mut i: usize = 0;
    while i < n && is_white_char(s.get_char(i))
        invariant
            n == s@.len(),
            i <= n,
            forall|k: int| 0 <= k < i ==> is_white(s@[k]),
        decreases n - i,
    {
        i = i + 1;
    }
    let mut j: usize = n;
    while j > i && is_white_char(s.get_char(j - 1))
        invariant
            n == s@.len(),
            i <= j <= n,
            forall|k: int| j <= k < n ==> is_white(s@[k]),
        decreases j,
    {
        j = j - 1;
    }
    proof {
        lemma_trim_white_start(s@, i as int);
        let t = s@.subrange(i as int, n as int);
        if j > i {
            lemma_trim_white_end(t, j - i);
            assert(t.subrange(0, j - i) =~= s@.subrange(i as int, j as int));
        } else {
            assert forall|k: int| 0 <= k < t.len() implies is_white(t[k]) by {
                assert(t[k] == s@[i + k]);
            }
            lemma_trim_white_end(t, 0);
            assert(t.subrange(0, 0) =~= s@.subrange(i as int, j as int));
        }
    }
    String::from_str(s.substring_char(i, j))
}

/// The lines of a text as `str::lines` gives them: split at `\n`, a `\r`
/// before the `\n` dropped, and no empty last line after a final `\n`.
pub open spec fn text_lines(s: Seq<char>) -> Seq<Seq<char>> {
    let parts = split_on(s, '\n');
    let parts = if parts.len() > 0 && parts.last().len() == 0 {
        parts.drop_last()
    } else {
        parts
    };
    parts.map_values(|l: Seq<char>| strip_cr(l))
}

pub open spec fn strip_cr(l: Seq<char>) -> Seq<char> {
    if l.len() > 0 && l.last() == '\r' {
        l.drop_last()
    } else {
        l
    }
}

/// The bytes in a number of mebibytes.
pub open spec fn mib(x: nat) -> int {
    (x * 1048576) as int
}

/// `bytesize::ByteSize::mib(x).as_u64()`: the bytes in `x` mebibytes.
#[verifier::external_body]
fn mib_bytes(x: u64) -> (r: u64)
    requires
        mib(x as nat) <= u64::MAX,
    ensures
        r == mib(x as nat),
{
    bytesize::ByteSize::mib(x).as_u64()
}

/// A mebibyte count as a number of bytes, where the text reads as a
/// count once trimmed and the bytes fit.
pub open spec fn field_bytes(s: Seq<char>) -> Option<u64> {
    match parse_unsigned(trimmed(s), u64::MAX as nat) {
        Some(x) => if mib(x) <= u64::MAX {
            Some(mib(x) as u64)
        } else {
            None
        },
        None => None,
    }
}

/// One line of `nvidia-smi --query-gpu=memory.total,memory.used
/// --format=csv,noheader,nounits`: the total and used memory in bytes.
pub open spec fn gpu_line(l: Seq<char>) -> Option<(u64, u64)> {
    match crate::text::first_index_of(l, ',') {
        Some(i) => match (field_bytes(l.subrange(0, i)), field_bytes(l.subrange(i + 1, l.len() as int))) {
            (Some(t), Some(u)) => Some((t, u)),
            _ => None,
        },
        None => None,
    }
}

pub open spec fn gpu_lines(ls: Seq<Seq<char>>) -> Option<Seq<(u64, u64)>>
    decreases ls.len(),
{
    if ls.len() == 0 {
        Some(Seq::empty())
    } else {
        match (gpu_lines(ls.drop_last()), gpu_line(ls.last())) {
            (Some(rest), Some(g)) => Some(rest.push(g)),
            _ => None,
        }
    }
}

fn field_bytes_of(s: &str) -> (r: Option<u64>)
    ensures
        r == field_bytes(s@),
{
    let t = trim_text(s);
    match parse_unsigned_text(t.as_str(), u64::MAX) {
        Some(x) => if x <= 17592186044415 {
            proof {
                assert(mib(x as nat) <= u64::MAX) by (nonlinear_arith)
                    requires
                        x <= 17592186044415,
                ;
            }
            Some(mib_bytes(x))
        } else {
            proof {
                assert(mib(x as nat) > u64::MAX) by (nonlinear_arith)
                    requires
                        x > 17592186044415,
                ;
            }
            None
        },
        None => None,
    }
}

fn gpu_line_of(l: &str) -> (r: Option<(u64, u64)>)
    ensures
        r == gpu_line(l@),
{
    match split_once(l, ',') {
        Some((a, b)) => {
            proof {
                let i = choose|i: int|
                    0 <= i < l@.len() && l@[i] == ',' && (forall|j: int| 0 <= j < i ==> l@[j] != ',')
                        && a@ == l@.subrange(0, i) && b@ == l@.subrange(i + 1, l@.len() as int);
                let k = crate::text::first_index_of(l@, ',')->0;
                assert(k == i) by {
                    if k < i {
                        assert(l@[k] != ',');
                    } else if i < k {
                        assert(l@[i] != ',');
                    }
                }
            }
            match (field_bytes_of(a.as_str()), field_bytes_of(b.as_str())) {
                (Some(t), Some(u)) => Some((t, u)),
                _ => None,
            }
        },
        None => None,
    }
}

/// The total and used memory of each GPU, in bytes, from the output of
/// `nvidia-smi`; `None` where a line does not read as two mebibyte counts
/// separated by a comma.
pub fn parse_gpu_usage(output: &str) -> (r: Option<Vec<(u64, u64)>>)
    ensures
        match gpu_lines(text_lines(output@)) {
            Some(v) => r matches Some(w) && w@ == v,
            None => r is None,
        },
{
    let parts = split_text(output, '\n');
    let ghost pv = crate::text::texts(parts@);
    let mut n = parts.len();
    if n > 0 && parts[n - 1].as_str().unicode_len() == 0 {
        n = n - 1;
    }
    let ghost kept = if pv.len() > 0 && pv.last().len() == 0 {
        pv.drop_last()
    } else {
        pv
    };
    assert(kept.len() == n);
    let ghost lines = text_lines(output@);
    assert(lines.len() == n);
    let mut r: Vec<(u64, u64)> = Vec::new();
    let mut i: usize = 0;
    while i < n
        invariant
            i <= n,
            n <= parts@.len(),
            pv == crate::text::texts(parts@),
            lines.len() == n,
            forall|k: int| 0 <= k < n ==> #[trigger] lines[k] == strip_cr(parts@[k]@),
            gpu_lines(lines.take(i as int)) == Some(r@),
            lines == text_lines(output@),
        decreases n - i,
    {
        proof {
            assert(lines.take(i + 1).drop_last() =~= lines.take(i as int));
            assert(lines.take(i + 1).last() == lines[i as int]);
        }
        let p = parts[i].as_str();
        let len = p.unicode_len();
        let line = if len > 0 && p.get_char(len - 1) == '\r' {
            p.substring_char(0, len - 1)
        } else {
            p
        };
        proof {
            assert(line@ =~= strip_cr(p@));
        }
        match gpu_line_of(line) {
            Some(g) => {
                r.push(g);
            },
            None => {
                proof {
                    lemma_gpu_lines_stays_none(lines, i + 1, n as int);
                    assert(lines.take(n as int) =~= lines);
                }
                return None;
            },
        }
        i = i + 1;
    }
    proof {
        assert(lines.take(n as int) =~= lines);
    }
    Some(r)
}

proof fn lemma_gpu_lines_stays_none(t: Seq<Seq<char>>, i: int, k: int)
    requires
        0 < i <= k <= t.len(),
        gpu_lines(t.take(i)) is None,
    ensures
        gpu_lines(t.take(k)) is None,
    decreases k - i,
{
    if i < k {
        assert(t.take(i + 1).drop_last() =~= t.take(i));
        lemma_gpu_lines_stays_none(t, i + 1, k);
    }
}

/// The samples of the GPU memory chart: one series of (time, bytes) per
/// GPU, and the largest value seen, which bounds the chart (at least 1).
#[derive(Debug, Clone)]
pub struct GpuChart {
    pub series: Vec<Vec<(i64, u64)>>,
    pub max_y: u64,
}

pub open spec fn max_of(m: u64, v: Seq<u64>) -> u64
    decreases v.len(),
{
    if v.len() == 0 {
        m
    } else {
        let r = max_of(m, v.drop_last());
        if v.last() > r {
            v.last()
        } else {
            r
        }
    }
}

impl GpuChart {
    /// An empty chart.
    pub fn new() -> (r: GpuChart)
        ensures
            r.series@.len() == 0,
            r.max_y == 1,
    {
        GpuChart { series: Vec::new(), max_y: 1 }
    }

    /// Records one reading of each GPU at time `now`: the reading of GPU
    /// `i` is appended to its series (a new one for a GPU not seen before),
    /// and the bound grows to the largest reading.
    pub fn record(&mut self, readings: &Vec<u64>, now: i64)
        ensures
            final(self).max_y == max_of(old(self).max_y, readings@),
            final(self).series@.len() == if readings@.len() > old(self).series@.len() {
                readings@.len()
            } else {
                old(self).series@.len()
            },
            forall|i: int|
                0 <= i < readings@.len() && i < old(self).series@.len() ==> #[trigger] final(self).series@[i]@
                    == old(self).series@[i]@.push((now, readings@[i])),
            forall|i: int|
                0 <= i < readings@.len() && i >= old(self).series@.len() ==> #[trigger] final(self).series@[i]@
                    == seq![(now, readings@[i])],
            forall|i: int|
                readings@.len() <= i < old(self).series@.len() ==> #[trigger] final(self).series@[i]
                    == old(self).series@[i],
    {
        let mut i: usize = 0;
        while i < readings.len()
            invariant
                i <= readings@.len(),
                self.max_y == max_of(old(self).max_y, readings@.take(i as int)),
                self.series@.len() == if i > old(self).series@.len() {
                    i as int
                } else {
                    old(self).series@.len() as int
                },
                forall|k: int|
                    0 <= k < i && k < old(self).series@.len() ==> #[trigger] self.series@[k]@ == old(
                        self,
                    ).series@[k]@.push((now, readings@[k])),
                forall|k: int|
                    0 <= k < i && k >= old(self).series@.len() ==> #[trigger] self.series@[k]@ == seq![
                        (now, readings@[k]),
                    ],
                forall|k: int| i <= k < old(self).series@.len() ==> #[trigger] self.series@[k] == old(
                    self,
                ).series@[k],
            decreases readings.len() - i,
        {
            proof {
                assert(readings@.take(i + 1).drop_last() =~= readings@.take(i as int));
                assert(readings@.take(i + 1).last() == readings@[i as int]);
            }
            let usage = readings[i];
            if usage > self.max_y {
                self.max_y = usage;
            }
            if i < self.series.len() {
                let mut s: Vec<(i64, u64)> = Vec::new();
                self.series.set_and_swap(i, &mut s);
                s.push((now, usage));
                self.series.set_and_swap(i, &mut s);
            } else {
                let mut s: Vec<(i64, u64)> = Vec::new();
                s.push((now, usage));
                self.series.push(s);
            }
            i = i + 1;
        }
        proof {
            assert(readings@.take(readings@.len() as int) =~= readings@);
        }
    }
}

/// Whatever is recorded, the chart's bound is at least every reading.
pub proof fn law_bound_covers_readings(m: u64, v: Seq<u64>)
    ensures
        max_of(m, v) >= m,
        forall|i: int| 0 <= i < v.len() ==> max_of(m, v) >= #[trigger] v[i],
    decreases v.len(),
{
    if v.len() > 0 {
        law_bound_covers_readings(m, v.drop_last());
        assert forall|i: int| 0 <= i < v.len() implies max_of(m, v) >= #[trigger] v[i] by {
            if i < v.len() - 1 {
                assert(v[i] == v.drop_last()[i]);
            }
        }
    }
}

/// The samples of the memory chart: resident and virtual size series, and
/// the largest value seen (at least 1).
#[derive(Debug, Clone)]
pub struct MemoryChart {
    pub rss: Vec<(i64, u64)>,
    pub vsz: Vec<(i64, u64)>,
    pub max_y: u64,
}

impl MemoryChart {
    pub fn new() -> (r: MemoryChart)
        ensures
            r.rss@.len() == 0,
            r.vsz@.len() == 0,
            r.max_y == 1,
    {
        MemoryChart { rss: Vec::new(), vsz: Vec::new(), max_y: 1 }
    }

    /// Records one reading of both sizes at time `now`.
    pub fn record(&mut self, rss: u64, vsz: u64, now: i64)
        ensures
            final(self).rss@ == old(self).rss@.push((now, rss)),
            final(self).vsz@ == old(self).vsz@.push((now, vsz)),
            final(self).max_y == max_of(old(self).max_y, seq![rss, vsz]),
    {
        let ghost m = self.max_y;
        proof {
            assert(seq![rss, vsz].drop_last() =~= seq![rss]);
            assert(seq![rss].drop_last() =~= Seq::<u64>::empty());
            assert(max_of(m, Seq::<u64>::empty()) == m);
            assert(max_of(m, seq![rss]) == if rss > m { rss } else { m });
        }
        if rss > self.max_y {
            self.max_y = rss;
        }
        self.rss.push((now, rss));
        if vsz > self.max_y {
            self.max_y = vsz;
        }
        self.vsz.push((now, vsz));
    }
}

/// The handler of the RPC protocol that a job's container serves.
#[derive(Debug, Clone, Copy)]
pub struct RpcHandler {}

impl RpcHandler {
    pub fn new() -> (r: RpcHandler) {
        RpcHandler {  }
    }
}

/// How `bytesize` shows a number of bytes in binary (IEC) units.
pub uninterp spec fn iec_text(bytes: u64) -> Seq<char>;

/// `ByteSize::b(bytes).display().iec().to_string()`, named by `iec_text`.
#[verifier::external_body]
fn iec_size(bytes: u64) -> (r: String)
    ensures
        r@ == iec_text(bytes),
{
    bytesize::ByteSize::b(bytes).display().iec().to_string()
}

/// The label at the top of a chart's value axis.
pub fn top_label(max_y: u64) -> (r: String)
    ensures
        r@ == iec_text(max_y),
{
    iec_size(max_y)
}

} // verus!
