//! A config layer's TOML document as the `config get` and `config set`
//! commands read it: every item under its key path. The root is a table
//! that is not listed. Documents read from text hold no empty items.
//!
//! The items are kept in a list; where a path occurs twice, the later item
//! counts. The order carries no other meaning (the document keeps its own
//! layout when it is written back).
use vstd::prelude::*;
use crate::docker::str_equal;
use crate::text::texts;

verus! {

/// What stands at a key path.
#[derive(Debug)]
pub enum DocItemKind {
    /// A value that holds no keys: what `config get` prints for it (a
    /// string's own text, else the value as TOML) and the item as TOML.
    Value { shown: String, text: String },
    /// An array of tables; its elements are not reached by key paths.
    ArrayOfTables { shown: String, text: String },
    /// A table, written inline (then it is a value) or as a section. What is
    /// printed for it depends on what it holds, so it carries no text.
    Table { inline: bool },
}

/// A kind, by value.
pub enum KindView {
    Value(Seq<char>, Seq<char>),
    ArrayOfTables(Seq<char>, Seq<char>),
    Table(bool),
}

impl View for DocItemKind {
    type V = KindView;

    open spec fn view(&self) -> KindView {
        match self {
            DocItemKind::Value { shown, text } => KindView::Value(shown@, text@),
            DocItemKind::ArrayOfTables { shown, text } => KindView::ArrayOfTables(shown@, text@),
            DocItemKind::Table { inline } => KindView::Table(*inline),
        }
    }
}

impl DocItemKind {
    /// A copy of the kind.
    pub fn copy(&self) -> (r: DocItemKind)
        ensures
            r@ == self@,
    {
        match self {
            DocItemKind::Value { shown, text } => DocItemKind::Value {
                shown: shown.clone(),
                text: text.clone(),
            },
            DocItemKind::ArrayOfTables { shown, text } => DocItemKind::ArrayOfTables {
                shown: shown.clone(),
                text: text.clone(),
            },
            DocItemKind::Table { inline } => DocItemKind::Table { inline: *inline },
        }
    }
}

/// An item of a document under its key path.
#[derive(Debug)]
pub struct DocItem {
    pub path: Vec<String>,
    pub kind: DocItemKind,
}

/// A key path, by value.
pub type KeyPath = Seq<Seq<char>>;

/// An item, by value.
pub type ItemView = (KeyPath, KindView);

impl View for DocItem {
    type V = ItemView;

    open spec fn view(&self) -> ItemView {
        (texts(self.path@), self.kind@)
    }
}

/// A config document: its items under their key paths.
#[derive(Debug)]
pub struct TomlDoc {
    pub items: Vec<DocItem>,
}

impl View for TomlDoc {
    type V = Seq<ItemView>;

    open spec fn view(&self) -> Seq<ItemView> {
        self.items@.map_values(|i: DocItem| i@)
    }
}

/// The item listed last under the path.
pub open spec fn find(s: Seq<ItemView>, p: KeyPath) -> Option<KindView>
    decreases s.len(),
{
    if s.len() == 0 {
        None
    } else if s.last().0 == p {
        Some(s.last().1)
    } else {
        find(s.drop_last(), p)
    }
}

/// The item at a key path; the empty path is the root table.
pub open spec fn item_at(s: Seq<ItemView>, p: KeyPath) -> Option<KindView> {
    if p.len() == 0 {
        Some(KindView::Table(false))
    } else {
        find(s, p)
    }
}

/// The item holds keys: a table, inline or not.
pub open spec fn holds_keys(k: KindView) -> bool {
    k is Table
}

/// There is an item and it holds keys.
pub open spec fn keyed(o: Option<KindView>) -> bool {
    o matches Some(k) && holds_keys(k)
}

/// The item is a value (an inline table is one).
pub open spec fn is_value(k: KindView) -> bool {
    k is Value || k == KindView::Table(true)
}

/// How looking a key path up ends.
pub enum Lookup {
    /// The item at the path.
    Found(KindView),
    /// A key on the way is missing.
    Missing,
    /// The item at the first `n` keys holds no keys, so the walk stops there.
    Blocked(nat),
}

/// Looking up the keys of `p` from the `j`-th on, the item at the first `j`
/// keys being reached: each item on the way must hold keys.
pub open spec fn lookup_from(s: Seq<ItemView>, p: KeyPath, j: nat) -> Lookup
    decreases p.len() - j,
{
    if j >= p.len() {
        match item_at(s, p) {
            Some(k) => Lookup::Found(k),
            None => Lookup::Missing,
        }
    } else if !(item_at(s, p.take(j as int)) matches Some(k) && holds_keys(k)) {
        Lookup::Blocked(j)
    } else if find(s, p.take((j + 1) as int)) is None {
        Lookup::Missing
    } else {
        lookup_from(s, p, j + 1)
    }
}

/// Looking a key path up from the root.
pub open spec fn lookup(s: Seq<ItemView>, p: KeyPath) -> Lookup {
    lookup_from(s, p, 0)
}

/// The path's first `len` keys equal `q`.
fn path_prefix_eq(q: &Vec<String>, p: &Vec<String>, len: usize) -> (r: bool)
    requires
        len <= p.len(),
    ensures
        r == (texts(q@) == texts(p@).take(len as int)),
{
    if q.len() != len {
        proof {
            assert(texts(q@).len() != texts(p@).take(len as int).len());
        }
        return false;
    }
    let mut i: usize = 0;
    while i < len
        invariant
            len <= p.len(),
            q.len() == len,
            i <= len,
            forall|k: int| 0 <= k < i ==> q@[k]@ == p@[k]@,
        decreases len - i,
    {
        if !str_equal(q[i].as_str(), p[i].as_str()) {
            proof {
                assert(texts(q@)[i as int] != texts(p@).take(len as int)[i as int]);
            }
            return false;
        }
        i = i + 1;
    }
    proof {
        assert(texts(q@) =~= texts(p@).take(len as int));
    }
    true
}

proof fn lemma_find_step(s: Seq<ItemView>, i: int, p: KeyPath)
    requires
        0 <= i < s.len(),
        s[i].0 != p,
    ensures
        find(s.take(i + 1), p) == find(s.take(i), p),
{
    assert(s.take(i + 1).drop_last() =~= s.take(i));
}

impl TomlDoc {
    /// The index of the item listed last under the first `len` keys of `p`.
    fn find_index(&self, p: &Vec<String>, len: usize) -> (r: Option<usize>)
        requires
            1 <= len <= p.len(),
        ensures
            match r {
                Some(i) => i < self.items.len() && find(self@, texts(p@).take(len as int)) == Some(
                    self@[i as int].1,
                ),
                None => find(self@, texts(p@).take(len as int)) is None,
            },
    {
        let ghost q = texts(p@).take(len as int);
        let mut i: usize = self.items.len();
        proof {
            assert(self@.take(i as int) =~= self@);
        }
        while i > 0
            invariant
                1 <= len <= p.len(),
                i <= self.items.len(),
                q == texts(p@).take(len as int),
                find(self@.take(i as int), q) == find(self@, q),
            decreases i,
        {
            let j = i - 1;
            if path_prefix_eq(&self.items[j].path, p, len) {
                proof {
                    assert(self@.take(i as int).last() == self@[j as int]);
                }
                return Some(j);
            }
            proof {
                lemma_find_step(self@, j as int, q);
            }
            i = j;
        }
        None
    }

    /// Looks a key path up: each item on the way must hold keys.
    pub fn lookup_path(&self, p: &Vec<String>) -> (r: Found)
        ensures
            match (r, lookup(self@, texts(p@))) {
                (Found::Item(k), Lookup::Found(v)) => k@ == v,
                (Found::Missing, Lookup::Missing) => true,
                (Found::Blocked(j, k), Lookup::Blocked(m)) => j == m && item_at(
                    self@,
                    texts(p@).take(j as int),
                ) == Some(k@) && !holds_keys(k@),
                _ => false,
            },
    {
        let ghost pv = texts(p@);
        let n = p.len();
        let mut cur = DocItemKind::Table { inline: false };
        let mut j: usize = 0;
        proof {
            assert(pv.take(0).len() == 0);
        }
        while j < n
            invariant
                n == p.len(),
                pv == texts(p@),
                j <= n,
                item_at(self@, pv.take(j as int)) == Some(cur@),
                lookup(self@, pv) == lookup_from(self@, pv, j as nat),
            decreases n - j,
        {
            match cur {
                DocItemKind::Table { .. } => {},
                _ => {
                    return Found::Blocked(j, cur);
                },
            }
            match self.find_index(p, j + 1) {
                None => {
                    return Found::Missing;
                },
                Some(i) => {
                    cur = self.items[i].kind.copy();
                },
            }
            j = j + 1;
        }
        proof {
            assert(pv.take(n as int) =~= pv);
        }
        Found::Item(cur)
    }
}

/// The items, by value.
pub open spec fn items_view(v: Seq<DocItem>) -> Seq<ItemView> {
    v.map_values(|i: DocItem| i@)
}

/// How walking down to the table that is to hold a key path's last key
/// ends, from the item at the first `j + 1` keys on.
pub enum SetWalk {
    /// Every table on the way is there.
    Reached,
    /// The item at the first `n` keys is missing (and so is all below it).
    Missing(nat),
    /// The item at the first `n` keys holds no keys.
    Blocked(nat),
}

pub open spec fn walk_from(s: Seq<ItemView>, p: KeyPath, j: nat) -> SetWalk
    decreases p.len() - j,
{
    if j + 1 >= p.len() {
        SetWalk::Reached
    } else {
        match find(s, p.take((j + 1) as int)) {
            None => SetWalk::Missing((j + 1) as nat),
            Some(k) => if holds_keys(k) {
                walk_from(s, p, j + 1)
            } else {
                SetWalk::Blocked((j + 1) as nat)
            },
        }
    }
}

/// `q` is `p` or lies below it.
pub open spec fn under(p: KeyPath, q: KeyPath) -> bool {
    p.len() <= q.len() && q.take(p.len() as int) == p
}

/// The items that do not lie at or below `p`.
pub open spec fn outside(s: Seq<ItemView>, p: KeyPath) -> Seq<ItemView>
    decreases s.len(),
{
    if s.len() == 0 {
        s
    } else {
        let r = outside(s.drop_last(), p);
        if under(p, s.last().0) {
            r
        } else {
            r.push(s.last())
        }
    }
}

/// The tables made on the way to `p`, from its first `m` keys down to all
/// keys but the last.
pub open spec fn new_tables(p: KeyPath, m: nat) -> Seq<ItemView> {
    Seq::new((p.len() - m) as nat, |k: int| (p.take(m + k), KindView::Table(false)))
}

/// Items given under paths relative to `p`, placed below it.
pub open spec fn placed(p: KeyPath, c: Seq<ItemView>) -> Seq<ItemView> {
    c.map_values(|e: ItemView| (p + e.0, e.1))
}

/// Why setting a key path fails.
pub enum SetFail {
    /// The path has no keys.
    EmptyKeyPath,
    /// The item at the first `n` keys holds no keys.
    Blocked(nat),
    /// The key holds a table or an array of tables, which is not a value.
    WouldOverwrite,
}

/// The document after setting the value with the given head and items
/// below it (under relative paths) at `p`, or why that fails: missing
/// tables on the way are made, and what lay at or below `p` is replaced.
pub open spec fn set_outcome(s: Seq<ItemView>, p: KeyPath, head: KindView, below: Seq<ItemView>) -> Result<
    Seq<ItemView>,
    SetFail,
> {
    if p.len() == 0 {
        Err(SetFail::EmptyKeyPath)
    } else {
        match walk_from(s, p, 0) {
            SetWalk::Blocked(m) => Err(SetFail::Blocked(m)),
            SetWalk::Reached => if find(s, p) matches Some(k) && !is_value(k) {
                Err(SetFail::WouldOverwrite)
            } else {
                Ok(outside(s, p) + seq![(p, head)] + placed(p, below))
            },
            SetWalk::Missing(m) => Ok(outside(s, p) + new_tables(p, m) + seq![(p, head)] + placed(p, below)),
        }
    }
}

/// A value to set: a plain value, or an inline table with the items it
/// holds under paths relative to it.
#[derive(Debug)]
pub enum DocValue {
    Plain { shown: String, text: String },
    Inline { items: Vec<DocItem> },
}

impl DocValue {
    /// The item the value makes at its key.
    pub open spec fn head(&self) -> KindView {
        match self {
            DocValue::Plain { shown, text } => KindView::Value(shown@, text@),
            DocValue::Inline { .. } => KindView::Table(true),
        }
    }

    /// The items the value holds, under relative paths.
    pub open spec fn below(&self) -> Seq<ItemView> {
        match self {
            DocValue::Plain { .. } => Seq::empty(),
            DocValue::Inline { items } => items_view(items@),
        }
    }
}

/// Why a key path cannot be set.
#[derive(Debug, Clone, Copy, PartialEq, Eq, Structural)]
pub enum SetError {
    EmptyKeyPath,
    /// The item at this many first keys holds no keys.
    Blocked(usize),
    WouldOverwrite,
}

impl SetError {
    pub open spec fn is(self, f: SetFail) -> bool {
        match (self, f) {
            (SetError::EmptyKeyPath, SetFail::EmptyKeyPath) => true,
            (SetError::Blocked(a), SetFail::Blocked(b)) => a == b,
            (SetError::WouldOverwrite, SetFail::WouldOverwrite) => true,
            _ => false,
        }
    }
}

proof fn lemma_find_none(s: Seq<ItemView>, q: KeyPath)
    requires
        forall|i: int| 0 <= i < s.len() ==> s[i].0 != q,
    ensures
        find(s, q) is None,
    decreases s.len(),
{
    if s.len() > 0 {
        lemma_find_none(s.drop_last(), q);
    }
}

proof fn lemma_find_at(s: Seq<ItemView>, q: KeyPath, i: int)
    requires
        0 <= i < s.len(),
        s[i].0 == q,
        forall|j: int| i < j < s.len() ==> s[j].0 != q,
    ensures
        find(s, q) == Some(s[i].1),
    decreases s.len(),
{
    if i < s.len() - 1 {
        lemma_find_at(s.drop_last(), q, i);
    }
}

proof fn lemma_find_append(a: Seq<ItemView>, b: Seq<ItemView>, q: KeyPath)
    requires
        forall|j: int| 0 <= j < b.len() ==> b[j].0 != q,
    ensures
        find(a + b, q) == find(a, q),
    decreases b.len(),
{
    if b.len() == 0 {
        assert(a + b =~= a);
    } else {
        assert((a + b).drop_last() =~= a + b.drop_last());
        lemma_find_append(a, b.drop_last(), q);
    }
}

proof fn lemma_find_outside(s: Seq<ItemView>, p: KeyPath, q: KeyPath)
    requires
        !under(p, q),
    ensures
        find(outside(s, p), q) == find(s, q),
    decreases s.len(),
{
    if s.len() > 0 {
        lemma_find_outside(s.drop_last(), p, q);
        let r = outside(s.drop_last(), p);
        if !under(p, s.last().0) {
            assert(r.push(s.last()).drop_last() =~= r);
        }
    }
}

proof fn lemma_walk(s: Seq<ItemView>, p: KeyPath, j: nat)
    ensures
        match walk_from(s, p, j) {
            SetWalk::Reached => forall|k: int|
                j + 1 <= k < p.len() ==> keyed(#[trigger] find(s, p.take(k))),
            SetWalk::Missing(m) => j + 1 <= m < p.len() && find(s, p.take(m as int)) is None && forall|
                k: int,
            | j + 1 <= k < m ==> keyed(#[trigger] find(s, p.take(k))),
            SetWalk::Blocked(m) => j + 1 <= m < p.len(),
        },
    decreases p.len() - j,
{
    if j + 1 < p.len() {
        if let Some(k) = find(s, p.take((j + 1) as int)) {
            if holds_keys(k) {
                lemma_walk(s, p, j + 1);
            }
        }
    }
}

proof fn lemma_lookup_reaches(s: Seq<ItemView>, p: KeyPath, j: nat, v: KindView)
    requires
        j <= p.len(),
        item_at(s, p) == Some(v),
        forall|k: int|
            j <= k < p.len() ==> keyed(#[trigger] item_at(s, p.take(k))),
        forall|k: int| j <= k < p.len() ==> (#[trigger] find(s, p.take(k + 1))) is Some,
    ensures
        lookup_from(s, p, j) == Lookup::Found(v),
    decreases p.len() - j,
{
    if j < p.len() {
        assert(keyed(item_at(s, p.take(j as int))));
        assert(find(s, p.take((j + 1) as int)) is Some);
        lemma_lookup_reaches(s, p, j + 1, v);
    }
}

/// After a key path has been set, looking it up finds the value that was
/// set (where the value's own items lie below it).
pub proof fn law_lookup_after_set(s: Seq<ItemView>, p: KeyPath, head: KindView, below: Seq<ItemView>)
    requires
        set_outcome(s, p, head, below) is Ok,
        forall|i: int| 0 <= i < below.len() ==> (#[trigger] below[i]).0.len() > 0,
    ensures
        lookup(set_outcome(s, p, head, below)->Ok_0, p) == Lookup::Found(head),
{
    let n = p.len();
    let w = walk_from(s, p, 0);
    lemma_walk(s, p, 0);
    let m: nat = match w {
        SetWalk::Missing(m) => m,
        _ => n,
    };
    let a = outside(s, p);
    let nt = new_tables(p, m);
    let c = placed(p, below);
    let t = a + nt + seq![(p, head)] + c;
    assert(nt.len() == n - m);
    if m == n {
        assert(a + nt =~= a);
    }
    assert(set_outcome(s, p, head, below)->Ok_0 =~= t);
    assert forall|i: int| 0 <= i < c.len() implies (#[trigger] c[i]).0.len() > n by {
        assert(below[i].0.len() > 0);
    }
    // The item at each prefix of the path in the new document.
    assert forall|k: int| 1 <= k <= n implies #[trigger] find(t, p.take(k)) == (if k == n {
        Some(head)
    } else if k < m {
        find(s, p.take(k))
    } else {
        Some(KindView::Table(false))
    }) by {
        let q = p.take(k);
        assert(q.len() == k);
        if k == n {
            assert(q =~= p);
            let i = (a.len() + nt.len()) as int;
            assert(t[i] == (p, head));
            assert forall|j: int| i < j < t.len() implies t[j].0 != q by {
                assert(t[j] == c[j - i - 1]);
            }
            lemma_find_at(t, q, i);
        } else if k < m {
            let rest = nt + seq![(p, head)] + c;
            assert(t =~= a + rest);
            assert forall|j: int| 0 <= j < rest.len() implies rest[j].0 != q by {
                if j < nt.len() {
                    assert(rest[j].0.len() == m + j);
                } else if j == nt.len() {
                    assert(rest[j].0 == p);
                } else {
                    assert(rest[j] == c[j - nt.len() - 1]);
                }
            }
            lemma_find_append(a, rest, q);
            lemma_find_outside(s, p, q);
        } else {
            let i = a.len() + (k - m);
            assert(t[i] == nt[k - m]);
            assert(nt[k - m].0 =~= q);
            assert forall|j: int| i < j < t.len() implies t[j].0 != q by {
                if j < a.len() + nt.len() {
                    assert(t[j] == nt[j - a.len()]);
                    assert(t[j].0.len() == m + j - a.len());
                } else if j == a.len() + nt.len() {
                    assert(t[j].0 == p);
                } else {
                    assert(t[j] == c[j - a.len() - nt.len() - 1]);
                }
            }
            lemma_find_at(t, q, i);
        }
    }
    assert forall|k: int| 0 <= k < n implies keyed(#[trigger] item_at(t, p.take(k))) by {
        if k > 0 {
            assert(find(t, p.take(k)) == (if k < m {
                find(s, p.take(k))
            } else {
                Some(KindView::Table(false))
            }));
        }
    }
    assert forall|k: int| 0 <= k < n implies (#[trigger] find(t, p.take(k + 1))) is Some by {
        assert(find(t, p.take(k + 1)) == (if k + 1 == n {
            Some(head)
        } else if k + 1 < m {
            find(s, p.take(k + 1))
        } else {
            Some(KindView::Table(false))
        }));
    }
    assert(find(t, p.take(n as int)) == Some(head));
    assert(p.take(n as int) =~= p);
    lemma_lookup_reaches(t, p, 0, head);
}

/// `p` is `q` or one of its first parts.
fn has_prefix(q: &Vec<String>, p: &Vec<String>) -> (r: bool)
    ensures
        r == under(texts(p@), texts(q@)),
{
    if q.len() < p.len() {
        return false;
    }
    let n = p.len();
    let mut i: usize = 0;
    while i < n
        invariant
            n == p.len(),
            n <= q.len(),
            i <= n,
            forall|k: int| 0 <= k < i ==> q@[k]@ == p@[k]@,
        decreases n - i,
    {
        if !str_equal(q[i].as_str(), p[i].as_str()) {
            proof {
                assert(texts(q@).take(n as int)[i as int] != texts(p@)[i as int]);
            }
            return false;
        }
        i = i + 1;
    }
    proof {
        assert(texts(q@).take(n as int) =~= texts(p@));
    }
    true
}

/// The first `len` keys of a path.
fn copy_path(p: &Vec<String>, len: usize) -> (r: Vec<String>)
    requires
        len <= p.len(),
    ensures
        texts(r@) == texts(p@).take(len as int),
{
    let mut r: Vec<String> = Vec::new();
    let mut i: usize = 0;
    while i < len
        invariant
            len <= p.len(),
            i <= len,
            r.len() == i,
            texts(r@) == texts(p@).take(i as int),
        decreases len - i,
    {
        let ghost before = r@;
        r.push(p[i].clone());
        proof {
            assert(r@ == before.push(p@[i as int]));
            assert forall|k: int| 0 <= k < i + 1 implies texts(r@)[k] == texts(p@).take(i + 1)[k] by {
                if k < i {
                    assert(texts(before)[k] == texts(p@).take(i as int)[k]);
                }
            }
            assert(texts(r@) =~= texts(p@).take(i + 1));
        }
        i = i + 1;
    }
    r
}

/// The keys of `p` followed by those of `q`.
fn join_paths(p: &Vec<String>, q: &Vec<String>) -> (r: Vec<String>)
    ensures
        texts(r@) == texts(p@) + texts(q@),
{
    let mut r = copy_path(p, p.len());
    proof {
        assert(texts(p@).take(p.len() as int) =~= texts(p@));
    }
    let mut i: usize = 0;
    while i < q.len()
        invariant
            i <= q.len(),
            r.len() == p.len() + i,
            texts(r@) == texts(p@) + texts(q@).take(i as int),
        decreases q.len() - i,
    {
        let ghost before = r@;
        r.push(q[i].clone());
        proof {
            assert(r@ == before.push(q@[i as int]));
            assert forall|k: int| 0 <= k < r@.len() implies texts(r@)[k] == (texts(p@) + texts(
                q@,
            ).take(i + 1))[k] by {
                if k < before.len() {
                    assert(texts(before)[k] == (texts(p@) + texts(q@).take(i as int))[k]);
                }
            }
            assert(texts(r@) =~= texts(p@) + texts(q@).take(i + 1));
        }
        i = i + 1;
    }
    proof {
        assert(texts(q@).take(q.len() as int) =~= texts(q@));
    }
    r
}

impl DocItem {
    /// A copy of the item.
    pub fn copy(&self) -> (r: DocItem)
        ensures
            r@ == self@,
    {
        let path = copy_path(&self.path, self.path.len());
        proof {
            assert(texts(self.path@).take(self.path.len() as int) =~= texts(self.path@));
        }
        DocItem { path, kind: self.kind.copy() }
    }
}

proof fn lemma_items_push(v: Seq<DocItem>, x: DocItem)
    ensures
        items_view(v.push(x)) == items_view(v).push(x@),
{
    assert(items_view(v.push(x)) =~= items_view(v).push(x@));
}

proof fn lemma_outside_step(s: Seq<ItemView>, p: KeyPath, i: int)
    requires
        0 <= i < s.len(),
    ensures
        outside(s.take(i + 1), p) == (if under(p, s[i].0) {
            outside(s.take(i), p)
        } else {
            outside(s.take(i), p).push(s[i])
        }),
{
    assert(s.take(i + 1).drop_last() =~= s.take(i));
}

/// How the walk for `set` ends, with counts of keys.
enum Walk {
    Reached,
    Missing(usize),
    Blocked(usize),
}

impl TomlDoc {
    fn walk(&self, p: &Vec<String>) -> (r: Walk)
        ensures
            match (r, walk_from(self@, texts(p@), 0)) {
                (Walk::Reached, SetWalk::Reached) => true,
                (Walk::Missing(a), SetWalk::Missing(b)) => a == b,
                (Walk::Blocked(a), SetWalk::Blocked(b)) => a == b,
                _ => false,
            },
    {
        let ghost pv = texts(p@);
        let n = p.len();
        if n == 0 {
            return Walk::Reached;
        }
        let mut j: usize = 0;
        while j < n - 1
            invariant
                n == p.len(),
                n >= 1,
                pv == texts(p@),
                walk_from(self@, pv, 0) == walk_from(self@, pv, j as nat),
            decreases n - j,
        {
            match self.find_index(p, j + 1) {
                None => {
                    return Walk::Missing(j + 1);
                },
                Some(i) => {
                    match self.items[i].kind {
                        DocItemKind::Table { .. } => {},
                        _ => {
                            return Walk::Blocked(j + 1);
                        },
                    }
                },
            }
            j = j + 1;
        }
        Walk::Reached
    }

    /// Sets the value at a key path: the tables missing on the way are made
    /// (as sections), and what lay at or below the key is replaced. Fails,
    /// leaving the document as it was, where the path is empty, where an
    /// item on the way holds no keys, or where the key holds something
    /// other than a value.
    pub fn set(&mut self, p: &Vec<String>, value: &DocValue) -> (r: Result<(), SetError>)
        ensures
            match set_outcome(old(self)@, texts(p@), value.head(), value.below()) {
                Ok(t) => r is Ok && final(self)@ == t,
                Err(f) => r matches Err(e) && e.is(f) && final(self)@ == old(self)@,
            },
    {
        let ghost s = self@;
        let ghost pv = texts(p@);
        let n = p.len();
        if n == 0 {
            return Err(SetError::EmptyKeyPath);
        }
        let m = match self.walk(p) {
            Walk::Blocked(b) => {
                return Err(SetError::Blocked(b));
            },
            Walk::Missing(b) => b,
            Walk::Reached => {
                match self.find_index(p, n) {
                    Some(i) => {
                        let overwrites = match self.items[i].kind {
                            DocItemKind::Value { .. } => false,
                            DocItemKind::Table { inline } => !inline,
                            DocItemKind::ArrayOfTables { .. } => true,
                        };
                        if overwrites {
                            proof {
                                assert(pv.take(n as int) =~= pv);
                            }
                            return Err(SetError::WouldOverwrite);
                        }
                    },
                    None => {},
                }
                proof {
                    assert(pv.take(n as int) =~= pv);
                }
                n
            },
        };
        proof {
            lemma_walk(s, pv, 0);
        }
        let mut out: Vec<DocItem> = Vec::new();
        let mut i: usize = 0;
        proof {
            assert(s.take(0) =~= Seq::<ItemView>::empty());
            assert(items_view(out@) =~= Seq::<ItemView>::empty());
        }
        while i < self.items.len()
            invariant
                s == self@,
                pv == texts(p@),
                i <= self.items.len(),
                items_view(out@) == outside(s.take(i as int), pv),
            decreases self.items.len() - i,
        {
            proof {
                lemma_outside_step(s, pv, i as int);
            }
            if !has_prefix(&self.items[i].path, p) {
                let c = self.items[i].copy();
                proof {
                    lemma_items_push(out@, c);
                }
                out.push(c);
            }
            i = i + 1;
        }
        proof {
            assert(s.take(s.len() as int) =~= s);
        }
        let ghost base = items_view(out@);
        let mut k: usize = m;
        proof {
            assert(base + new_tables(pv, m as nat).take(0) =~= base);
        }
        while k < n
            invariant
                n == p.len(),
                pv == texts(p@),
                1 <= m <= k <= n,
                items_view(out@) == base + new_tables(pv, m as nat).take(k - m),
            decreases n - k,
        {
            let item = DocItem { path: copy_path(p, k), kind: DocItemKind::Table { inline: false } };
            proof {
                lemma_items_push(out@, item);
                assert(base + new_tables(pv, m as nat).take(k - m + 1) =~= (base + new_tables(
                    pv,
                    m as nat,
                ).take(k - m)).push(item@));
            }
            out.push(item);
            k = k + 1;
        }
        proof {
            assert(new_tables(pv, m as nat).take(n - m) =~= new_tables(pv, m as nat));
        }
        let head = match value {
            DocValue::Plain { shown, text } => DocItemKind::Value {
                shown: shown.clone(),
                text: text.clone(),
            },
            DocValue::Inline { .. } => DocItemKind::Table { inline: true },
        };
        let item = DocItem { path: copy_path(p, n), kind: head };
        proof {
            assert(pv.take(n as int) =~= pv);
            lemma_items_push(out@, item);
        }
        out.push(item);
        let ghost upper = items_view(out@);
        match value {
            DocValue::Plain { .. } => {
                proof {
                    assert(placed(pv, value.below()) =~= Seq::<ItemView>::empty());
                    assert(upper + placed(pv, value.below()) =~= upper);
                }
            },
            DocValue::Inline { items } => {
                let mut j: usize = 0;
                proof {
                    assert(upper + placed(pv, items_view(items@)).take(0) =~= upper);
                }
                while j < items.len()
                    invariant
                        pv == texts(p@),
                        j <= items.len(),
                        items_view(out@) == upper + placed(pv, items_view(items@)).take(j as int),
                    decreases items.len() - j,
                {
                    let c = DocItem { path: join_paths(p, &items[j].path), kind: items[j].kind.copy() };
                    proof {
                        lemma_items_push(out@, c);
                        assert(upper + placed(pv, items_view(items@)).take((j + 1) as int) =~= (upper + placed(
                            pv,
                            items_view(items@),
                        ).take(j as int)).push(c@));
                    }
                    out.push(c);
                    j = j + 1;
                }
                proof {
                    assert(placed(pv, items_view(items@)).take(items.len() as int) =~= placed(
                        pv,
                        items_view(items@),
                    ));
                }
            },
        }
        proof {
            if m == n {
                assert(base + new_tables(pv, m as nat) =~= base);
            }
        }
        self.items = out;
        Ok(())
    }
}

/// The number of keys down to the first table that `set` makes (all keys
/// where it makes none).
pub open spec fn first_made(s: Seq<ItemView>, p: KeyPath) -> nat {
    match walk_from(s, p, 0) {
        SetWalk::Missing(m) => m,
        _ => p.len(),
    }
}

/// A document is well formed where every item's enclosing keys lead to
/// tables.
pub open spec fn doc_wf(s: Seq<ItemView>) -> bool {
    forall|i: int, k: int|
        0 <= i < s.len() && 1 <= k < s[i].0.len() ==> keyed(#[trigger] find(s, s[i].0.take(k)))
}

/// What `set` leaves under a path that does not lie strictly below the
/// path it set.
proof fn lemma_set_find(s: Seq<ItemView>, p: KeyPath, head: KindView, below: Seq<ItemView>, r: KeyPath)
    requires
        set_outcome(s, p, head, below) is Ok,
        forall|i: int| 0 <= i < below.len() ==> (#[trigger] below[i]).0.len() > 0,
        !(under(p, r) && r.len() > p.len()),
    ensures
        find(set_outcome(s, p, head, below)->Ok_0, r) == (if r == p {
            Some(head)
        } else if under(r, p) && first_made(s, p) <= r.len() {
            Some(KindView::Table(false))
        } else {
            find(s, r)
        }),
{
    let n = p.len();
    lemma_walk(s, p, 0);
    let m = first_made(s, p);
    let a = outside(s, p);
    let nt = new_tables(p, m);
    let c = placed(p, below);
    let t = a + nt + seq![(p, head)] + c;
    if m == n {
        assert(a + nt =~= a);
    }
    assert(set_outcome(s, p, head, below)->Ok_0 =~= t);
    assert forall|i: int| 0 <= i < c.len() implies (#[trigger] c[i]).0.len() > n by {
        assert(below[i].0.len() > 0);
    }
    if r == p {
        let i = (a.len() + nt.len()) as int;
        assert(t[i] == (p, head));
        assert forall|j: int| i < j < t.len() implies t[j].0 != r by {
            assert(t[j] == c[j - i - 1]);
        }
        lemma_find_at(t, r, i);
    } else if under(r, p) && m <= r.len() {
        let k = r.len() as int;
        assert(p.take(k) =~= r);
        if k == n {
            assert(p.take(k) =~= p);
        }
        let i = a.len() + (k - m);
        assert(t[i] == nt[k - m]);
        assert(nt[k - m].0 =~= r);
        assert forall|j: int| i < j < t.len() implies t[j].0 != r by {
            if j < a.len() + nt.len() {
                assert(t[j] == nt[j - a.len()]);
                assert(t[j].0.len() == m + j - a.len());
            } else if j == a.len() + nt.len() {
                assert(t[j].0 == p);
            } else {
                assert(t[j] == c[j - a.len() - nt.len() - 1]);
            }
        }
        lemma_find_at(t, r, i);
    } else {
        let rest = nt + seq![(p, head)] + c;
        assert(t =~= a + rest);
        assert forall|j: int| 0 <= j < rest.len() implies rest[j].0 != r by {
            if j < nt.len() {
                let e = rest[j].0;
                assert(e == p.take(m + j));
                if e == r {
                    assert(r.len() == m + j);
                    assert(p.take(r.len() as int) =~= r);
                }
            } else if j == nt.len() {
                assert(rest[j].0 == p);
            } else {
                let e = rest[j];
                assert(e == c[j - nt.len() - 1]);
                if e.0 == r {
                    assert(r.take(n as int) =~= p);
                }
            }
        }
        lemma_find_append(a, rest, r);
        if under(p, r) {
            assert(r.len() == n);
            assert(r =~= r.take(n as int));
        }
        lemma_find_outside(s, p, r);
    }
}

proof fn lemma_find_some_index(s: Seq<ItemView>, q: KeyPath)
    requires
        find(s, q) is Some,
    ensures
        exists|i: int| 0 <= i < s.len() && s[i].0 == q,
    decreases s.len(),
{
    if s.last().0 != q {
        lemma_find_some_index(s.drop_last(), q);
        let i = choose|i: int| 0 <= i < s.drop_last().len() && s.drop_last()[i].0 == q;
        assert(s[i].0 == q);
    } else {
        assert(s[s.len() - 1].0 == q);
    }
}

/// In a well-formed document nothing lies below a missing key.
proof fn lemma_wf_missing(s: Seq<ItemView>, r: KeyPath, q: KeyPath)
    requires
        doc_wf(s),
        1 <= r.len() < q.len(),
        q.take(r.len() as int) == r,
        find(s, r) is None,
    ensures
        find(s, q) is None,
{
    if find(s, q) is Some {
        lemma_find_some_index(s, q);
        let i = choose|i: int| 0 <= i < s.len() && s[i].0 == q;
        assert(keyed(find(s, s[i].0.take(r.len() as int))));
    }
}

/// Lookups in two documents agree where the items along the path agree up
/// to `l` keys and the lookups agree from there.
proof fn lemma_lookup_agree(x: Seq<ItemView>, y: Seq<ItemView>, q: KeyPath, j: nat, l: nat)
    requires
        j <= l <= q.len(),
        forall|k: int| j <= k <= l ==> #[trigger] item_at(x, q.take(k)) == item_at(y, q.take(k)),
        lookup_from(x, q, l) == lookup_from(y, q, l),
    ensures
        lookup_from(x, q, j) == lookup_from(y, q, j),
    decreases l - j,
{
    if j < l {
        assert(item_at(x, q.take(j as int)) == item_at(y, q.take(j as int)));
        assert(item_at(x, q.take((j + 1) as int)) == item_at(y, q.take((j + 1) as int)));
        lemma_lookup_agree(x, y, q, j + 1, l);
    }
}

/// Looking up through tables up to `l` keys and finding nothing at `l + 1`.
proof fn lemma_lookup_missing_run(t: Seq<ItemView>, q: KeyPath, j: nat, l: nat)
    requires
        1 <= j <= l < q.len(),
        forall|k: int| j <= k <= l ==> keyed(#[trigger] find(t, q.take(k))),
        find(t, q.take((l + 1) as int)) is None,
    ensures
        lookup_from(t, q, j) == Lookup::Missing,
    decreases l - j,
{
    assert(keyed(find(t, q.take(j as int))));
    if j < l {
        assert(keyed(find(t, q.take((j + 1) as int))));
        lemma_lookup_missing_run(t, q, j + 1, l);
    }
}

/// Setting a key path in a well-formed document changes no lookup of a
/// path that neither lies at or below it nor leads to it.
pub proof fn law_set_keeps_other_keys(
    s: Seq<ItemView>,
    p: KeyPath,
    head: KindView,
    below: Seq<ItemView>,
    q: KeyPath,
)
    requires
        doc_wf(s),
        set_outcome(s, p, head, below) is Ok,
        forall|i: int| 0 <= i < below.len() ==> (#[trigger] below[i]).0.len() > 0,
        !under(p, q),
        !under(q, p),
    ensures
        lookup(set_outcome(s, p, head, below)->Ok_0, q) == lookup(s, q),
{
    let t = set_outcome(s, p, head, below)->Ok_0;
    let n = p.len();
    let m = first_made(s, p);
    lemma_walk(s, p, 0);
    // Every prefix of `q` is found as before, but for prefixes of `p` that
    // `set` made.
    assert forall|k: int| 1 <= k <= q.len() implies #[trigger] find(t, q.take(k)) == (if under(
        q.take(k),
        p,
    ) && m <= k {
        Some(KindView::Table(false))
    } else {
        find(s, q.take(k))
    }) by {
        let r = q.take(k);
        if under(p, r) && r.len() > n {
            assert(q.take(n as int) =~= r.take(n as int));
        }
        if r == p {
            assert(q.take(n as int) =~= p);
        }
        lemma_set_find(s, p, head, below, r);
    }
    if q.len() > 0 {
        assert(q.take(q.len() as int) =~= q);
    }
    // The longest prefix of `q` that leads to `p`.
    assert(q.take(0) =~= p.take(0));
    if q.len() == 0 {
        assert(p.take(0) =~= q);
    }
    lemma_boundary(q, p, 0);
    let l: nat = choose|l: nat|
        l < q.len() && under(#[trigger] q.take(l as int), p) && !under(q.take((l + 1) as int), p);
    assert forall|k: int| 0 <= k <= l implies under(#[trigger] q.take(k), p) by {
        lemma_under_take(q, p, k, l as int);
    }
    assert forall|k: int| l < k <= q.len() implies !under(#[trigger] q.take(k), p) by {
        if under(q.take(k), p) {
            lemma_under_take(q, p, (l + 1) as int, k);
        }
    }
    if l == n {
        assert(q.take(n as int) =~= p);
    }
    assert(l < n);
    if l < m {
        assert forall|k: int| 0 <= k <= q.len() implies #[trigger] item_at(t, q.take(k)) == item_at(
            s,
            q.take(k),
        ) by {
            if k >= 1 {
                assert(find(t, q.take(k)) == find(s, q.take(k)));
            }
        }
        lemma_lookup_agree(t, s, q, 0, q.len());
    } else {
        assert(1 <= m);
        assert(find(s, p.take(m as int)) is None);
        assert(q.take(m as int) =~= p.take(m as int));
        assert forall|k: int| m <= k <= l implies keyed(#[trigger] find(t, q.take(k))) by {
            assert(under(q.take(k), p));
        }
        assert(!under(q.take((l + 1) as int), p));
        assert(find(t, q.take((l + 1) as int)) == find(s, q.take((l + 1) as int)));
        assert(q.take((l + 1) as int).take(m as int) =~= q.take(m as int));
        lemma_wf_missing(s, q.take(m as int), q.take((l + 1) as int));
        lemma_lookup_missing_run(t, q, m, l);
        let j = (m - 1) as nat;
        assert forall|k: int| 0 <= k <= j implies #[trigger] item_at(t, q.take(k)) == item_at(
            s,
            q.take(k),
        ) by {
            if k >= 1 {
                assert(find(t, q.take(k)) == find(s, q.take(k)));
            }
        }
        assert(find(t, q.take(m as int)) is Some);
        assert(lookup_from(t, q, j) == lookup_from(s, q, j));
        lemma_lookup_agree(t, s, q, 0, j);
    }
}

proof fn lemma_find_prepend(a: Seq<ItemView>, b: Seq<ItemView>, q: KeyPath)
    requires
        forall|j: int| 0 <= j < a.len() ==> a[j].0 != q,
    ensures
        find(a + b, q) == find(b, q),
    decreases b.len(),
{
    if b.len() == 0 {
        assert(a + b =~= a);
        lemma_find_none(a, q);
    } else {
        assert((a + b).drop_last() =~= a + b.drop_last());
        lemma_find_prepend(a, b.drop_last(), q);
    }
}

proof fn lemma_find_placed(p: KeyPath, b: Seq<ItemView>, x: KeyPath)
    ensures
        find(placed(p, b), p + x) == find(b, x),
    decreases b.len(),
{
    if b.len() > 0 {
        assert(placed(p, b).drop_last() =~= placed(p, b.drop_last()));
        lemma_find_placed(p, b.drop_last(), x);
        let y = b.last().0;
        if p + y == p + x {
            assert((p + y).skip(p.len() as int) =~= y);
            assert((p + x).skip(p.len() as int) =~= x);
        }
    }
}

proof fn lemma_outside_items(s: Seq<ItemView>, p: KeyPath)
    ensures
        forall|j: int|
            0 <= j < outside(s, p).len() ==> exists|i: int|
                0 <= i < s.len() && s[i] == #[trigger] outside(s, p)[j],
        forall|j: int| 0 <= j < outside(s, p).len() ==> !under(p, #[trigger] outside(s, p)[j].0),
    decreases s.len(),
{
    if s.len() > 0 {
        let r = outside(s.drop_last(), p);
        lemma_outside_items(s.drop_last(), p);
        assert forall|j: int| 0 <= j < r.len() implies exists|i: int|
            0 <= i < s.len() && s[i] == #[trigger] r[j] by {
            let i = choose|i: int| 0 <= i < s.drop_last().len() && s.drop_last()[i] == r[j];
            assert(s[i] == r[j]);
        }
        if !under(p, s.last().0) {
            let o = r.push(s.last());
            assert forall|j: int| 0 <= j < o.len() implies exists|i: int|
                0 <= i < s.len() && s[i] == #[trigger] o[j] by {
                if j == r.len() {
                    assert(s[s.len() - 1] == o[j]);
                } else {
                    assert(o[j] == r[j]);
                }
            }
        }
    }
}

/// Setting a value keeps a document well formed, where the items of the
/// value lie below it and are well formed among themselves.
pub proof fn law_set_keeps_wf(s: Seq<ItemView>, p: KeyPath, head: KindView, below: Seq<ItemView>)
    requires
        doc_wf(s),
        doc_wf(below),
        set_outcome(s, p, head, below) is Ok,
        forall|i: int| 0 <= i < below.len() ==> (#[trigger] below[i]).0.len() > 0,
        below.len() > 0 ==> head is Table,
    ensures
        doc_wf(set_outcome(s, p, head, below)->Ok_0),
{
    let n = p.len();
    lemma_walk(s, p, 0);
    let m = first_made(s, p);
    let a = outside(s, p);
    let nt = new_tables(p, m);
    let c = placed(p, below);
    let t = a + nt + seq![(p, head)] + c;
    if m == n {
        assert(a + nt =~= a);
    }
    assert(set_outcome(s, p, head, below)->Ok_0 =~= t);
    lemma_outside_items(s, p);
    let front = a + nt + seq![(p, head)];
    assert(t =~= front + c);
    assert forall|i: int, k: int| 0 <= i < t.len() && 1 <= k < t[i].0.len() implies keyed(
        #[trigger] find(t, t[i].0.take(k)),
    ) by {
        let e = t[i].0;
        let r = e.take(k);
        if i >= front.len() {
            let cj = below[i - front.len()];
            assert(t[i] == c[i - front.len()]);
            assert(e == p + cj.0);
            if k > n {
                // Within the value's own items.
                let x = cj.0.take(k - n);
                assert(r =~= p + x);
                assert forall|j: int| 0 <= j < front.len() implies front[j].0 != r by {
                    if j < a.len() {
                        assert(front[j] == a[j]);
                        if front[j].0 == r {
                            assert(r.take(n as int) =~= p);
                        }
                    } else if j < a.len() + nt.len() {
                        assert(front[j] == nt[j - a.len()]);
                    } else {
                        assert(front[j].0 == p);
                    }
                }
                lemma_find_prepend(front, c, r);
                lemma_find_placed(p, below, x);
                assert(keyed(find(below, below[i - front.len()].0.take(k - n))));
            } else {
                assert(r =~= p.take(k));
                if k == n {
                    assert(r =~= p);
                }
                lemma_set_find(s, p, head, below, r);
            }
        } else {
            // Outside `p`, a table made on the way, or the value's own key.
            if i < a.len() {
                assert(t[i] == a[i]);
                let i2 = choose|i2: int| 0 <= i2 < s.len() && s[i2] == a[i];
                assert(keyed(find(s, s[i2].0.take(k))));
                if under(p, r) && r.len() > n {
                    assert(e.take(n as int) =~= r.take(n as int));
                }
                if r == p {
                    assert(e.take(n as int) =~= p);
                }
            } else if i < a.len() + nt.len() {
                assert(t[i] == nt[i - a.len()]);
                assert(r =~= p.take(k));
            } else {
                assert(t[i].0 == p);
                assert(r =~= p.take(k));
            }
            lemma_set_find(s, p, head, below, r);
        }
    }
}

proof fn lemma_under_take(q: KeyPath, p: KeyPath, k1: int, k2: int)
    requires
        0 <= k1 <= k2 <= q.len(),
        under(q.take(k2), p),
    ensures
        under(q.take(k1), p),
{
    assert(p.take(k1) =~= p.take(k2).take(k1));
    assert(q.take(k1) =~= q.take(k2).take(k1));
}

proof fn lemma_boundary(q: KeyPath, p: KeyPath, j: nat)
    requires
        j < q.len(),
        under(q.take(j as int), p),
        !under(q, p),
    ensures
        exists|l: nat| l < q.len() && under(#[trigger] q.take(l as int), p) && !under(q.take((l + 1) as int), p),
    decreases q.len() - j,
{
    if under(q.take((j + 1) as int), p) {
        if j + 1 == q.len() {
            assert(q.take((j + 1) as int) =~= q);
        } else {
            lemma_boundary(q, p, j + 1);
        }
    } else {
        assert(under(q.take(j as int), p) && !under(q.take((j + 1) as int), p));
    }
}

/// What looking a key path up gives.
#[derive(Debug)]
pub enum Found {
    /// The item at the path.
    Item(DocItemKind),
    /// A key on the way is missing.
    Missing,
    /// The item at the first keys, this many, holds no keys.
    Blocked(usize, DocItemKind),
}

/// The keys that `toml_edit::Key::parse` reads from a dotted key path;
/// `None` where it does not parse.
pub uninterp spec fn key_path_keys(s: Seq<char>) -> Option<Seq<Seq<char>>>;

/// A key of a dotted key path, as `toml_edit` reads it.
#[verifier::external_type_specification]
#[verifier::external_body]
pub struct ExKey(toml_edit::Key);

/// A key's text, as `Key::get` gives it.
pub uninterp spec fn key_text(k: toml_edit::Key) -> Seq<char>;

/// The texts of keys.
pub open spec fn key_texts(v: Seq<toml_edit::Key>) -> KeyPath {
    Seq::new(v.len(), |i: int| key_text(v[i]))
}

/// Reads a dotted key path with `toml_edit::Key::parse`: it succeeds
/// exactly where `key_path_keys` names the keys' texts.
#[verifier::external_body]
fn parse_keys(s: &str) -> (r: Result<Vec<toml_edit::Key>, toml_edit::TomlError>)
    ensures
        match key_path_keys(s@) {
            Some(p) => r matches Ok(v) && key_texts(v@) == p,
            None => r is Err,
        },
{
    toml_edit::Key::parse(s)
}

/// A key's text, by `Key::get`.
#[verifier::external_body]
fn key_get(k: &toml_edit::Key) -> (r: String)
    ensures
        r@ == key_text(*k),
{
    k.get().to_string()
}

/// The texts of the keys of a dotted key path.
fn parse_key_path(s: &str) -> (r: Result<Vec<String>, toml_edit::TomlError>)
    ensures
        match key_path_keys(s@) {
            Some(k) => r matches Ok(v) && texts(v@) == k,
            None => r is Err,
        },
{
    let keys = match parse_keys(s) {
        Ok(k) => k,
        Err(e) => {
            return Err(e);
        },
    };
    let mut out: Vec<String> = Vec::new();
    let mut i: usize = 0;
    while i < keys.len()
        invariant
            i <= keys.len(),
            texts(out@) == key_texts(keys@).take(i as int),
        decreases keys.len() - i,
    {
        let t = key_get(&keys[i]);
        proof {
            assert(texts(out@.push(t)) =~= texts(out@).push(t@));
            assert(key_texts(keys@).take(i + 1) =~= key_texts(keys@).take(i as int).push(t@));
        }
        out.push(t);
        i = i + 1;
    }
    proof {
        assert(key_texts(keys@).take(keys.len() as int) =~= key_texts(keys@));
    }
    Ok(out)
}

/// Why reading or writing a config key fails.
#[derive(Debug)]
pub enum LayerError {
    /// The key path does not parse.
    KeyPath(toml_edit::TomlError),
    /// An item on the way holds no keys; the item as TOML.
    NoSubentry(String),
    /// The value cannot be set there.
    Refused(SetError),
}

/// What `config get` prints for an item, where the item fixes it.
pub open spec fn shown_of(k: KindView) -> Option<Seq<char>> {
    match k {
        KindView::Value(s, _) => Some(s),
        KindView::ArrayOfTables(s, _) => Some(s),
        KindView::Table(_) => None,
    }
}

/// The item as TOML, where the item fixes it.
pub open spec fn text_of(k: KindView) -> Option<Seq<char>> {
    match k {
        KindView::Value(_, t) => Some(t),
        KindView::ArrayOfTables(_, t) => Some(t),
        KindView::Table(_) => None,
    }
}

/// What `config get` gives for an item that was found.
#[derive(Debug)]
pub enum Shown {
    /// The text printed for it.
    Text(String),
    /// A table: what is printed depends on what it holds, and is taken
    /// from the document.
    Table,
}

impl Shown {
    pub open spec fn shows(&self, k: KindView) -> bool {
        match self {
            Shown::Text(t) => shown_of(k) == Some(t@),
            Shown::Table => k is Table,
        }
    }
}

impl TomlDoc {
    /// The item at a dotted key path: `None` where a key is missing; an
    /// error where the path does not parse or an item on the way holds no
    /// keys.
    pub fn find_item(&self, key_path: &str) -> (r: Result<Option<DocItemKind>, LayerError>)
        ensures
            match key_path_keys(key_path@) {
                None => r matches Err(LayerError::KeyPath(_)),
                Some(p) => match lookup(self@, p) {
                    Lookup::Found(k) => r matches Ok(Some(x)) && x@ == k,
                    Lookup::Missing => r matches Ok(None),
                    Lookup::Blocked(j) => r matches Err(LayerError::NoSubentry(t)) && text_of(
                        item_at(self@, p.take(j as int))->Some_0,
                    ) == Some(t@),
                },
            },
    {
        let keys = match parse_key_path(key_path) {
            Ok(k) => k,
            Err(e) => {
                return Err(LayerError::KeyPath(e));
            },
        };
        match self.lookup_path(&keys) {
            Found::Item(k) => Ok(Some(k)),
            Found::Missing => Ok(None),
            Found::Blocked(_, k) => match k {
                DocItemKind::Value { text, .. } => Err(LayerError::NoSubentry(text)),
                DocItemKind::ArrayOfTables { text, .. } => Err(LayerError::NoSubentry(text)),
                DocItemKind::Table { .. } => {
                    proof {
                        assert(false);
                    }
                    Ok(None)
                },
            },
        }
    }

    /// What `config get` gives for a dotted key path in this layer.
    pub fn get(&self, key_path: &str) -> (r: Result<Option<Shown>, LayerError>)
        ensures
            match key_path_keys(key_path@) {
                None => r matches Err(LayerError::KeyPath(_)),
                Some(p) => match lookup(self@, p) {
                    Lookup::Found(k) => r matches Ok(Some(x)) && x.shows(k),
                    Lookup::Missing => r matches Ok(None),
                    Lookup::Blocked(j) => r matches Err(LayerError::NoSubentry(t)) && text_of(
                        item_at(self@, p.take(j as int))->Some_0,
                    ) == Some(t@),
                },
            },
    {
        match self.find_item(key_path) {
            Ok(Some(k)) => match k {
                DocItemKind::Value { shown, .. } => Ok(Some(Shown::Text(shown))),
                DocItemKind::ArrayOfTables { shown, .. } => Ok(Some(Shown::Text(shown))),
                DocItemKind::Table { .. } => Ok(Some(Shown::Table)),
            },
            Ok(None) => Ok(None),
            Err(e) => Err(e),
        }
    }

    /// `config set` in this layer: sets the value at a dotted key path.
    pub fn set_value(&mut self, key_path: &str, value: &DocValue) -> (r: Result<(), LayerError>)
        ensures
            match key_path_keys(key_path@) {
                None => r matches Err(LayerError::KeyPath(_)) && final(self)@ == old(self)@,
                Some(p) => match set_outcome(old(self)@, p, value.head(), value.below()) {
                    Ok(t) => r is Ok && final(self)@ == t,
                    Err(f) => r matches Err(LayerError::Refused(e)) && e.is(f) && final(self)@ == old(
                        self,
                    )@,
                },
            },
    {
        let keys = match parse_key_path(key_path) {
            Ok(k) => k,
            Err(e) => {
                return Err(LayerError::KeyPath(e));
            },
        };
        match self.set(&keys, value) {
            Ok(()) => Ok(()),
            Err(e) => Err(LayerError::Refused(e)),
        }
    }
}

/// The items of a list by path: the item listed last under each path.
pub open spec fn items_map(s: Seq<ItemView>) -> Map<KeyPath, KindView> {
    Map::new(|q: KeyPath| find(s, q) is Some, |q: KeyPath| find(s, q)->Some_0)
}

/// A `toml_edit` document.
#[verifier::external_type_specification]
#[verifier::external_body]
pub struct ExDocumentMut(toml_edit::DocumentMut);

/// An item of a `toml_edit` document.
#[verifier::external_type_specification]
#[verifier::external_body]
pub struct ExItem(toml_edit::Item);

/// An item of a `toml_edit` document, by value: its kind and the texts
/// that `config get` reads from it.
pub enum Raw {
    /// `Item::None`, which a table treats as absent.
    Nothing,
    /// A table; `true` where it is written inline (then it is a value).
    Table(bool),
    /// A value that holds no keys: its own text where it is a string
    /// (`Item::as_str`), the value as TOML with no decoration, and the item
    /// as TOML.
    Value(Option<Seq<char>>, Seq<char>, Seq<char>),
    /// An array of tables: as a value (an array of inline tables) written
    /// as TOML with no decoration, and the item as TOML.
    ArrayOfTables(Seq<char>, Seq<char>),
}

/// How `config get` reads an item: a string shows its own text, any other
/// value its TOML text with no decoration.
pub open spec fn kind_of(r: Raw) -> KindView {
    match r {
        Raw::Table(inline) => KindView::Table(inline),
        Raw::Value(Some(s), _, t) => KindView::Value(s, t),
        Raw::Value(None, v, t) => KindView::Value(v, t),
        Raw::ArrayOfTables(v, t) => KindView::ArrayOfTables(v, t),
        Raw::Nothing => KindView::Table(false),
    }
}

/// The items of a tree, by path, as `config get` reads them.
pub open spec fn tree_kinds(m: Map<KeyPath, Raw>) -> Map<KeyPath, KindView> {
    Map::new(|q: KeyPath| m.dom().contains(q), |q: KeyPath| kind_of(m[q]))
}

/// The items of a tree lie under non-empty paths, and the items that
/// enclose one are tables.
pub open spec fn tree_closed(m: Map<KeyPath, Raw>) -> bool {
    &&& forall|q: KeyPath| #[trigger] m.dom().contains(q) ==> q.len() > 0
    &&& forall|q: KeyPath, k: int|
        #![trigger m.dom().contains(q), q.take(k)]
        m.dom().contains(q) && 1 <= k < q.len() ==> m.dom().contains(q.take(k)) && m[q.take(k)] is Table
}

/// No item of the tree is `Item::None`.
pub open spec fn no_nothing(m: Map<KeyPath, Raw>) -> bool {
    forall|q: KeyPath| #[trigger] m.dom().contains(q) ==> m[q] != Raw::Nothing
}

pub open spec fn tree_wf(m: Map<KeyPath, Raw>) -> bool {
    tree_closed(m) && no_nothing(m)
}

/// The items below the first keys `q` of a tree, under paths relative to
/// them.
pub open spec fn subtree(m: Map<KeyPath, Raw>, q: KeyPath) -> Map<KeyPath, Raw> {
    Map::new(|r: KeyPath| r.len() > 0 && m.dom().contains(q + r), |r: KeyPath| m[q + r])
}

/// What stands at `r` once `h` is put at `q` with the items `b` below it
/// (under paths relative to `q`): what lay at or below `q` is replaced,
/// and a table is made at each key on the way where nothing was.
pub open spec fn put_entry(m: Map<KeyPath, Raw>, q: KeyPath, h: Raw, b: Map<KeyPath, Raw>, r: KeyPath) -> Option<
    Raw,
> {
    if r == q {
        Some(h)
    } else if under(q, r) {
        if b.dom().contains(r.skip(q.len() as int)) {
            Some(b[r.skip(q.len() as int)])
        } else {
            None
        }
    } else if under(r, q) && r.len() > 0 {
        if m.dom().contains(r) {
            Some(m[r])
        } else {
            Some(Raw::Table(false))
        }
    } else if m.dom().contains(r) {
        Some(m[r])
    } else {
        None
    }
}

/// The tree once `h` is put at `q` with the items `b` below it.
pub open spec fn put_at(m: Map<KeyPath, Raw>, q: KeyPath, h: Raw, b: Map<KeyPath, Raw>) -> Map<KeyPath, Raw> {
    Map::new(|r: KeyPath| put_entry(m, q, h, b, r) is Some, |r: KeyPath| put_entry(m, q, h, b, r)->Some_0)
}

/// The items listed last under a path.
pub open spec fn raw_find(b: Seq<(KeyPath, Raw)>, x: KeyPath) -> Option<Raw>
    decreases b.len(),
{
    if b.len() == 0 {
        None
    } else if b.last().0 == x {
        Some(b.last().1)
    } else {
        raw_find(b.drop_last(), x)
    }
}

/// A list of items by path, the item listed last under a path counting.
pub open spec fn raw_map(b: Seq<(KeyPath, Raw)>) -> Map<KeyPath, Raw> {
    Map::new(|x: KeyPath| raw_find(b, x) is Some, |x: KeyPath| raw_find(b, x)->Some_0)
}

/// A list of items as `config get` reads them.
pub open spec fn below_kinds(b: Seq<(KeyPath, Raw)>) -> Seq<ItemView> {
    b.map_values(|e: (KeyPath, Raw)| (e.0, kind_of(e.1)))
}

/// A tree with no items.
pub open spec fn no_items() -> Map<KeyPath, Raw> {
    Map::empty()
}

/// What an item is, by value.
pub uninterp spec fn item_raw(i: toml_edit::Item) -> Raw;

/// The items below an item, under non-empty paths of keys relative to it.
pub uninterp spec fn item_tree(i: toml_edit::Item) -> Map<KeyPath, Raw>;

/// The items of a document, under their key paths.
pub uninterp spec fn document_tree(d: toml_edit::DocumentMut) -> Map<KeyPath, Raw>;

/// Whether `toml_edit` reads the text as a document.
pub uninterp spec fn document_parses(s: Seq<char>) -> bool;

/// The items of the document that `toml_edit` reads from a text, where it
/// reads one.
pub uninterp spec fn text_tree(s: Seq<char>) -> Map<KeyPath, Raw>;

/// What the item that `toml_edit::value` makes of a value is.
pub uninterp spec fn value_head(v: toml_edit::Value) -> Raw;

/// The items that the item made of a value holds (those of an inline
/// table, none for a plain value), under paths relative to it.
pub uninterp spec fn value_below(v: toml_edit::Value) -> Seq<(KeyPath, Raw)>;

/// A value that makes no `Item::None` and holds items under non-empty
/// paths only.
pub open spec fn value_wf(v: toml_edit::Value) -> bool {
    &&& value_head(v) != Raw::Nothing
    &&& forall|i: int|
        0 <= i < value_below(v).len() ==> (#[trigger] value_below(v)[i]).0.len() > 0 && value_below(v)[i].1
            != Raw::Nothing
}

/// Reads a document with `toml_edit`'s `FromStr` for `DocumentMut`: it
/// succeeds exactly on the texts that `document_parses` names, with the
/// items named by `text_tree`. A document read from text is a finite tree
/// and holds no `Item::None`.
#[verifier::external_body]
fn parse_document(s: &str) -> (r: Result<toml_edit::DocumentMut, toml_edit::TomlError>)
    ensures
        r is Ok <==> document_parses(s@),
        r matches Ok(d) ==> document_tree(d) == text_tree(s@) && tree_wf(document_tree(d))
            && document_tree(d).dom().finite(),
{
    s.parse::<toml_edit::DocumentMut>()
}

/// An empty document, by `DocumentMut::new`.
#[verifier::external_body]
fn new_document() -> (r: toml_edit::DocumentMut)
    ensures
        document_tree(r) == no_items(),
{
    toml_edit::DocumentMut::new()
}

/// The root table of a document, by `DocumentMut::as_item`.
#[verifier::external_body]
fn doc_root(d: &toml_edit::DocumentMut) -> (r: &toml_edit::Item)
    ensures
        item_raw(*r) == Raw::Table(false),
        item_tree(*r) == document_tree(*d),
{
    d.as_item()
}

/// The root table of a document to change, by `DocumentMut::as_item_mut`:
/// the document holds what the root holds in the end, and being a finite
/// tree its items stay finitely many and closed under prefixes.
#[verifier::external_body]
fn doc_root_mut(d: &mut toml_edit::DocumentMut) -> (r: &mut toml_edit::Item)
    ensures
        item_raw(*r) == Raw::Table(false),
        item_tree(*r) == document_tree(*old(d)),
        document_tree(*final(d)) == item_tree(*final(r)),
        tree_closed(document_tree(*final(d))),
        document_tree(*final(d)).dom().finite(),
{
    d.as_item_mut()
}

/// The item under a key of a table, by `Item::get`: none where the item
/// is no table, the key is missing or holds `Item::None`.
#[verifier::external_body]
fn item_get(i: &toml_edit::Item, k: String) -> (r: Option<&toml_edit::Item>)
    ensures
        (r is Some) == (item_raw(*i) is Table && item_tree(*i).dom().contains(seq![k@])
            && item_tree(*i)[seq![k@]] != Raw::Nothing),
        r matches Some(c) ==> item_raw(*c) == item_tree(*i)[seq![k@]] && item_tree(*c) == subtree(
            item_tree(*i),
            seq![k@],
        ),
{
    i.get(k)
}

/// Whether an item holds keys, by `Item::is_table_like`.
#[verifier::external_body]
fn item_is_table_like(i: &toml_edit::Item) -> (r: bool)
    ensures
        r == (item_raw(*i) is Table),
{
    i.is_table_like()
}

/// Whether an item is a value (an inline table is one), by
/// `Item::is_value`.
#[verifier::external_body]
fn item_is_value(i: &toml_edit::Item) -> (r: bool)
    ensures
        r == (item_raw(*i) is Value || item_raw(*i) == Raw::Table(true)),
{
    i.is_value()
}

/// A string's own text, by `Item::as_str`.
#[verifier::external_body]
fn item_as_str(i: &toml_edit::Item) -> (r: Option<String>)
    ensures
        match item_raw(*i) {
            Raw::Value(o, _, _) => (r is Some <==> o is Some) && (r matches Some(t) ==> o == Some(t@)),
            _ => r is None,
        },
{
    i.as_str().map(String::from)
}

/// The item as a value written as TOML with no decoration, by
/// `Item::into_value` on a copy, `Value::decorated` and `Display`. What a
/// table gives is not stated here.
#[verifier::external_body]
fn item_value_text(i: &toml_edit::Item) -> (r: String)
    requires
        item_raw(*i) != Raw::Nothing,
    ensures
        item_raw(*i) matches Raw::Value(_, v, _) ==> r@ == v,
        item_raw(*i) matches Raw::ArrayOfTables(v, _) ==> r@ == v,
{
    i.clone().into_value().unwrap().decorated("", "").to_string()
}

/// The item as TOML, by `Display` for `Item`. What a table gives is not
/// stated here.
#[verifier::external_body]
fn item_text(i: &toml_edit::Item) -> (r: String)
    ensures
        item_raw(*i) matches Raw::Value(_, _, t) ==> r@ == t,
        item_raw(*i) matches Raw::ArrayOfTables(_, t) ==> r@ == t,
{
    i.to_string()
}

/// An empty implicit table (written only through what it holds):
/// `Table::new` and `Table::set_implicit`.
#[verifier::external_body]
fn implicit_table() -> (r: toml_edit::Item)
    ensures
        item_raw(r) == Raw::Table(false),
        item_tree(r) == no_items(),
{
    let mut table = toml_edit::Table::new();
    table.set_implicit(true);
    toml_edit::Item::Table(table)
}

/// The item under a key of a table, `default` being put there first where
/// the key is missing: `TableLike::entry_format` (which keeps the key's
/// written form) and `Entry::or_insert`. The table holds in the end what
/// the returned item holds in the end.
#[verifier::external_body]
fn child_or_insert<'a>(i: &'a mut toml_edit::Item, k: &toml_edit::Key, default: toml_edit::Item) -> (r:
    &'a mut toml_edit::Item)
    requires
        item_raw(*old(i)) is Table,
    ensures
        item_tree(*old(i)).dom().contains(seq![key_text(*k)]) ==> item_raw(*r) == item_tree(
            *old(i),
        )[seq![key_text(*k)]] && item_tree(*r) == subtree(item_tree(*old(i)), seq![key_text(*k)]),
        !item_tree(*old(i)).dom().contains(seq![key_text(*k)]) ==> item_raw(*r) == item_raw(default)
            && item_tree(*r) == item_tree(default),
        item_raw(*final(i)) == item_raw(*old(i)),
        item_tree(*final(i)) == put_at(
            item_tree(*old(i)),
            seq![key_text(*k)],
            item_raw(*final(r)),
            item_tree(*final(r)),
        ),
{
    i.as_table_like_mut().unwrap().entry_format(k).or_insert(default)
}

/// The item that `toml_edit::value` makes of a value.
#[verifier::external_body]
fn value_item(v: toml_edit::Value) -> (r: toml_edit::Item)
    ensures
        item_raw(r) == value_head(v),
        item_tree(r) == raw_map(value_below(v)),
{
    toml_edit::value(v)
}

/// Lookups depend only on the items by path.
proof fn lemma_lookup_same_map(x: Seq<ItemView>, y: Seq<ItemView>, q: KeyPath)
    requires
        items_map(x) == items_map(y),
    ensures
        lookup(x, q) == lookup(y, q),
{
    assert forall|k: int| 0 <= k <= q.len() implies #[trigger] item_at(x, q.take(k)) == item_at(
        y,
        q.take(k),
    ) by {
        lemma_map_find(x, y, q.take(k));
    }
    assert(q.take(q.len() as int) =~= q);
    lemma_map_find(x, y, q);
    lemma_lookup_agree(x, y, q, 0, q.len());
}

/// After `Layer::set` has set a key path, `Layer::get` of it finds the
/// value set (whose own items lie below it).
pub proof fn law_layer_get_after_set(
    before: Seq<ItemView>,
    after: Seq<ItemView>,
    p: KeyPath,
    head: KindView,
    below: Seq<ItemView>,
)
    requires
        set_outcome(before, p, head, below) is Ok,
        items_map(after) == items_map(set_outcome(before, p, head, below)->Ok_0),
        forall|i: int| 0 <= i < below.len() ==> (#[trigger] below[i]).0.len() > 0,
    ensures
        lookup(after, p) == Lookup::Found(head),
{
    law_lookup_after_set(before, p, head, below);
    lemma_lookup_same_map(after, set_outcome(before, p, head, below)->Ok_0, p);
}

/// `Layer::set` of a key path in a layer changes no `Layer::get` of a path
/// that neither lies at or below it nor leads to it.
pub proof fn law_layer_set_keeps_other_keys(
    before: Seq<ItemView>,
    after: Seq<ItemView>,
    p: KeyPath,
    head: KindView,
    below: Seq<ItemView>,
    q: KeyPath,
)
    requires
        doc_wf(before),
        set_outcome(before, p, head, below) is Ok,
        items_map(after) == items_map(set_outcome(before, p, head, below)->Ok_0),
        forall|i: int| 0 <= i < below.len() ==> (#[trigger] below[i]).0.len() > 0,
        !under(p, q),
        !under(q, p),
    ensures
        lookup(after, q) == lookup(before, q),
{
    law_set_keeps_other_keys(before, p, head, below, q);
    lemma_lookup_same_map(after, set_outcome(before, p, head, below)->Ok_0, q);
}

/// Two lists with the same items by path find the same item under a path.
proof fn lemma_map_find(x: Seq<ItemView>, y: Seq<ItemView>, q: KeyPath)
    requires
        items_map(x) == items_map(y),
    ensures
        find(x, q) == find(y, q),
{
    assert(items_map(x).dom().contains(q) == (find(x, q) is Some));
    assert(items_map(y).dom().contains(q) == (find(y, q) is Some));
    if find(x, q) is Some {
        assert(items_map(x)[q] == find(x, q)->Some_0);
        assert(items_map(y)[q] == find(y, q)->Some_0);
    }
}

proof fn lemma_items_map_push(x: Seq<ItemView>, e: ItemView)
    ensures
        items_map(x.push(e)) == items_map(x).insert(e.0, e.1),
{
    assert forall|q: KeyPath| #[trigger] find(x.push(e), q) == (if q == e.0 {
        Some(e.1)
    } else {
        find(x, q)
    }) by {
        assert(x.push(e).drop_last() =~= x);
    }
    assert(items_map(x.push(e)) =~= items_map(x).insert(e.0, e.1));
}

proof fn lemma_find_concat(a: Seq<ItemView>, b: Seq<ItemView>, q: KeyPath)
    ensures
        find(a + b, q) == (if find(b, q) is Some {
            find(b, q)
        } else {
            find(a, q)
        }),
    decreases b.len(),
{
    if b.len() == 0 {
        assert(a + b =~= a);
    } else {
        assert((a + b).drop_last() =~= a + b.drop_last());
        lemma_find_concat(a, b.drop_last(), q);
    }
}


/// The walk down to `q` leads through tables wherever there are items on
/// the way.
pub open spec fn walk_open(m: Map<KeyPath, Raw>, q: KeyPath) -> bool {
    forall|j: int| 1 <= j < q.len() && #[trigger] m.dom().contains(q.take(j)) ==> m[q.take(j)] is Table
}

/// What stands under the first key `k` of a tree, a new table where
/// nothing does.
pub open spec fn child_raw(m: Map<KeyPath, Raw>, k: Seq<char>) -> Raw {
    if m.dom().contains(seq![k]) {
        m[seq![k]]
    } else {
        Raw::Table(false)
    }
}

/// What lies below the first key `k` of a tree.
pub open spec fn child_tree(m: Map<KeyPath, Raw>, k: Seq<char>) -> Map<KeyPath, Raw> {
    if m.dom().contains(seq![k]) {
        subtree(m, seq![k])
    } else {
        Map::empty()
    }
}

/// A config layer's document.
#[derive(Debug)]
pub struct Layer {
    doc: toml_edit::DocumentMut,
}

impl Layer {
    #[verifier::type_invariant]
    spec fn wf(self) -> bool {
        tree_wf(document_tree(self.doc)) && document_tree(self.doc).dom().finite()
    }

    /// The layer's items, listed in some order.
    pub closed spec fn items(self) -> Seq<ItemView> {
        choose|s: Seq<ItemView>| items_map(s) == tree_kinds(document_tree(self.doc)) && doc_wf(s)
    }

    proof fn lemma_items(self)
        requires
            self.wf(),
        ensures
            items_map(self.items()) == tree_kinds(document_tree(self.doc)),
            doc_wf(self.items()),
    {
        let m = document_tree(self.doc);
        assert(tree_kinds(m).dom() =~= m.dom());
        let s = lemma_listing(tree_kinds(m));
        lemma_tree_doc_wf(s, m);
    }

    /// A layer with an empty document (its file does not exist yet).
    pub fn empty() -> (r: Layer)
        ensures
            items_map(r.items()) == Map::<KeyPath, KindView>::empty(),
    {
        let d = new_document();
        let r = Layer { doc: d };
        proof {
            r.lemma_items();
            assert(tree_kinds(document_tree(d)) =~= Map::<KeyPath, KindView>::empty());
        }
        r
    }

    /// A layer read from the text of its file.
    pub fn from_text(text: &str) -> (r: Result<Layer, toml_edit::TomlError>)
        ensures
            r is Ok <==> document_parses(text@),
            r matches Ok(l) ==> items_map(l.items()) == tree_kinds(text_tree(text@)),
    {
        match parse_document(text) {
            Ok(d) => {
                let r = Layer { doc: d };
                proof {
                    r.lemma_items();
                }
                Ok(r)
            },
            Err(e) => Err(e),
        }
    }

    /// The document, to write back.
    pub fn document(&self) -> (r: &toml_edit::DocumentMut)
        ensures
            items_map(self.items()) == tree_kinds(document_tree(*r)),
    {
        proof {
            use_type_invariant(self);
            self.lemma_items();
        }
        &self.doc
    }

    /// Follows the keys from the root: the item they lead to, `None` where a
    /// key is missing, or the item on the way that holds no keys, as TOML.
    fn walk_keys<'a>(&'a self, keys: &Vec<toml_edit::Key>) -> (r: Result<Option<&'a toml_edit::Item>, String>)
        ensures
            match lookup(self.items(), key_texts(keys@)) {
                Lookup::Found(k) => r matches Ok(Some(c)) && kind_of(item_raw(*c)) == k && item_raw(*c)
                    != Raw::Nothing,
                Lookup::Missing => r matches Ok(None),
                Lookup::Blocked(j) => r matches Err(t) && text_of(
                    item_at(self.items(), key_texts(keys@).take(j as int))->Some_0,
                ) == Some(t@),
            },
    {
        proof {
            use_type_invariant(self);
            self.lemma_items();
        }
        let ghost s = self.items();
        let ghost m = document_tree(self.doc);
        let ghost pv = key_texts(keys@);
        let n = keys.len();
        let mut cur: &toml_edit::Item = doc_root(&self.doc);
        let mut j: usize = 0;
        proof {
            lemma_subtree_root(m);
            assert(pv.take(0) =~= Seq::<Seq<char>>::empty());
        }
        while j < n
            invariant
                n == keys.len(),
                pv == key_texts(keys@),
                s == self.items(),
                m == document_tree(self.doc),
                items_map(s) == tree_kinds(m),
                tree_wf(m),
                j <= n,
                lookup(s, pv) == lookup_from(s, pv, j as nat),
                item_raw(*cur) != Raw::Nothing,
                item_at(s, pv.take(j as int)) == Some(kind_of(item_raw(*cur))),
                item_tree(*cur) == subtree(m, pv.take(j as int)),
            decreases n - j,
        {
            if !item_is_table_like(cur) {
                let t = item_text(cur);
                proof {
                    assert(lookup_from(s, pv, j as nat) == Lookup::Blocked(j as nat));
                }
                return Err(t);
            }
            let ghost q = pv.take(j as int);
            let ghost q1 = pv.take(j + 1);
            proof {
                lemma_subtree_step(m, q, pv[j as int]);
                assert(q.push(pv[j as int]) =~= q1);
                lemma_find_tree(s, m, q1);
            }
            match item_get(cur, key_get(&keys[j])) {
                None => {
                    proof {
                        assert(lookup_from(s, pv, j as nat) == Lookup::Missing);
                    }
                    return Ok(None);
                },
                Some(c) => {
                    proof {
                        assert(lookup_from(s, pv, j as nat) == lookup_from(s, pv, (j + 1) as nat));
                    }
                    cur = c;
                },
            }
            j = j + 1;
        }
        proof {
            assert(pv.take(n as int) =~= pv);
        }
        Ok(Some(cur))
    }

    /// `config get` in this layer: what is printed for the item at a dotted
    /// key path (a string's own text, else the value as TOML with no
    /// decoration; for a table, the table written inline, which is not
    /// stated here); `None` where a key is missing; an error where the path
    /// does not parse or an item on the way holds no keys.
    pub fn get(&self, key_path: &str) -> (r: Result<Option<String>, LayerError>)
        ensures
            match key_path_keys(key_path@) {
                None => r matches Err(LayerError::KeyPath(_)),
                Some(p) => match lookup(self.items(), p) {
                    Lookup::Found(k) => r matches Ok(Some(t)) && (shown_of(k) matches Some(x) ==> t@ == x),
                    Lookup::Missing => r matches Ok(None),
                    Lookup::Blocked(j) => r matches Err(LayerError::NoSubentry(t)) && text_of(
                        item_at(self.items(), p.take(j as int))->Some_0,
                    ) == Some(t@),
                },
            },
    {
        let keys = match parse_keys(key_path) {
            Ok(k) => k,
            Err(e) => {
                return Err(LayerError::KeyPath(e));
            },
        };
        match self.walk_keys(&keys) {
            Ok(Some(c)) => match item_as_str(c) {
                Some(t) => Ok(Some(t)),
                None => Ok(Some(item_value_text(c))),
            },
            Ok(None) => Ok(None),
            Err(t) => Err(LayerError::NoSubentry(t)),
        }
    }

    /// The item at a dotted key path written as TOML (as the built-in
    /// defaults are read); for a table, what is printed is not stated here.
    pub fn get_toml(&self, key_path: &str) -> (r: Result<Option<String>, LayerError>)
        ensures
            match key_path_keys(key_path@) {
                None => r matches Err(LayerError::KeyPath(_)),
                Some(p) => match lookup(self.items(), p) {
                    Lookup::Found(k) => r matches Ok(Some(t)) && (text_of(k) matches Some(x) ==> t@ == x),
                    Lookup::Missing => r matches Ok(None),
                    Lookup::Blocked(j) => r matches Err(LayerError::NoSubentry(t)) && text_of(
                        item_at(self.items(), p.take(j as int))->Some_0,
                    ) == Some(t@),
                },
            },
    {
        let keys = match parse_keys(key_path) {
            Ok(k) => k,
            Err(e) => {
                return Err(LayerError::KeyPath(e));
            },
        };
        match self.walk_keys(&keys) {
            Ok(Some(c)) => Ok(Some(item_text(c))),
            Ok(None) => Ok(None),
            Err(t) => Err(LayerError::NoSubentry(t)),
        }
    }

    /// Whether a value can be set at the keys: the walk down to the last
    /// key must lead through tables where there are items, and the last key
    /// must hold a value if anything.
    fn set_check(&self, keys: &Vec<toml_edit::Key>) -> (r: Result<(), SetError>)
        requires
            keys.len() >= 1,
        ensures
            match walk_from(self.items(), key_texts(keys@), 0) {
                SetWalk::Blocked(b) => r == Err::<(), SetError>(SetError::Blocked(b as usize)),
                SetWalk::Missing(_) => r is Ok,
                SetWalk::Reached => if find(self.items(), key_texts(keys@)) matches Some(k) && !is_value(k) {
                    r == Err::<(), SetError>(SetError::WouldOverwrite)
                } else {
                    r is Ok
                },
            },
    {
        proof {
            use_type_invariant(self);
            self.lemma_items();
        }
        let ghost s = self.items();
        let ghost m = document_tree(self.doc);
        let ghost pv = key_texts(keys@);
        let n = keys.len();
        let mut cur: &toml_edit::Item = doc_root(&self.doc);
        let mut j: usize = 0;
        proof {
            lemma_subtree_root(m);
            assert(pv.take(0) =~= Seq::<Seq<char>>::empty());
        }
        while j + 1 < n
            invariant
                n == keys.len(),
                n >= 1,
                pv == key_texts(keys@),
                s == self.items(),
                m == document_tree(self.doc),
                items_map(s) == tree_kinds(m),
                tree_wf(m),
                j < n,
                walk_from(s, pv, 0) == walk_from(s, pv, j as nat),
                item_raw(*cur) is Table,
                item_tree(*cur) == subtree(m, pv.take(j as int)),
            decreases n - j,
        {
            let ghost q = pv.take(j as int);
            let ghost q1 = pv.take(j + 1);
            proof {
                lemma_subtree_step(m, q, pv[j as int]);
                assert(q.push(pv[j as int]) =~= q1);
                lemma_find_tree(s, m, q1);
            }
            match item_get(cur, key_get(&keys[j])) {
                None => {
                    proof {
                        assert(walk_from(s, pv, j as nat) == SetWalk::Missing((j + 1) as nat));
                    }
                    return Ok(());
                },
                Some(c) => {
                    if !item_is_table_like(c) {
                        proof {
                            assert(walk_from(s, pv, j as nat) == SetWalk::Blocked((j + 1) as nat));
                        }
                        return Err(SetError::Blocked(j + 1));
                    }
                    proof {
                        assert(walk_from(s, pv, j as nat) == walk_from(s, pv, (j + 1) as nat));
                    }
                    cur = c;
                },
            }
            j = j + 1;
        }
        let ghost q = pv.take(j as int);
        proof {
            assert(walk_from(s, pv, j as nat) == SetWalk::Reached);
            lemma_subtree_step(m, q, pv[j as int]);
            assert(q.push(pv[j as int]) =~= pv);
            lemma_find_tree(s, m, pv);
        }
        match item_get(cur, key_get(&keys[j])) {
            Some(c) => {
                if !item_is_value(c) {
                    Err(SetError::WouldOverwrite)
                } else {
                    Ok(())
                }
            },
            None => Ok(()),
        }
    }

    /// `config set` in this layer: sets the value at a dotted key path,
    /// making the tables missing on the way, replacing what lay at the key;
    /// refused where the path is empty, an item on the way holds no keys or
    /// the key holds something other than a value. A refused set leaves the
    /// document as it was.
    pub fn set(&mut self, key_path: &str, value: toml_edit::Value) -> (r: Result<(), LayerError>)
        requires
            value_wf(value),
        ensures
            match key_path_keys(key_path@) {
                None => r matches Err(LayerError::KeyPath(_)) && final(self).items() == old(self).items(),
                Some(p) => match set_outcome(
                    old(self).items(),
                    p,
                    kind_of(value_head(value)),
                    below_kinds(value_below(value)),
                ) {
                    Ok(t) => r is Ok && items_map(final(self).items()) == items_map(t),
                    Err(f) => r matches Err(LayerError::Refused(e)) && e.is(f) && final(self).items() == old(
                        self,
                    ).items(),
                },
            },
    {
        proof {
            use_type_invariant(&*self);
            self.lemma_items();
        }
        let keys = match parse_keys(key_path) {
            Ok(k) => k,
            Err(e) => {
                return Err(LayerError::KeyPath(e));
            },
        };
        let ghost s = self.items();
        let ghost m = document_tree(self.doc);
        let ghost pv = key_texts(keys@);
        let ghost h = value_head(value);
        let ghost vb = value_below(value);
        if keys.len() == 0 {
            return Err(LayerError::Refused(SetError::EmptyKeyPath));
        }
        proof {
            lemma_walk(s, pv, 0);
        }
        match self.set_check(&keys) {
            Err(e) => {
                return Err(LayerError::Refused(e));
            },
            Ok(()) => {},
        }
        let ghost t = set_outcome(s, pv, kind_of(h), below_kinds(vb))->Ok_0;
        proof {
            lemma_set_tree(s, m, pv, h, vb);
            assert(key_texts(keys@).skip(0) =~= pv);
        }
        let mut d = new_document();
        std::mem::swap(&mut d, &mut self.doc);
        let root = doc_root_mut(&mut d);
        put_path(root, &keys, 0, value);
        proof {
            assert(document_tree(d) == put_at(m, pv, h, raw_map(vb)));
            lemma_put_no_nothing(m, pv, h, vb);
        }
        self.doc = d;
        proof {
            self.lemma_items();
        }
        Ok(())
    }
}

/// Puts the value at the keys from the `j`-th on below an item that holds
/// keys, making the tables missing on the way.
fn put_path(i: &mut toml_edit::Item, keys: &Vec<toml_edit::Key>, j: usize, v: toml_edit::Value)
    requires
        j < keys.len(),
        item_raw(*old(i)) is Table,
        tree_closed(item_tree(*old(i))),
        walk_open(item_tree(*old(i)), key_texts(keys@).skip(j as int)),
    ensures
        item_raw(*final(i)) == item_raw(*old(i)),
        item_tree(*final(i)) == put_at(
            item_tree(*old(i)),
            key_texts(keys@).skip(j as int),
            value_head(v),
            raw_map(value_below(v)),
        ),
    decreases keys.len() - j,
{
    let ghost m = item_tree(*i);
    let ghost q = key_texts(keys@).skip(j as int);
    let ghost k0 = key_text(keys@[j as int]);
    if j + 1 == keys.len() {
        proof {
            assert(q =~= seq![k0]);
        }
        let c = child_or_insert(i, &keys[j], implicit_table());
        *c = value_item(v);
    } else {
        let ghost q2 = key_texts(keys@).skip(j + 1);
        proof {
            assert(q =~= seq![k0] + q2);
            assert(q.take(1) =~= seq![k0]);
            lemma_subtree_closed(m, k0);
            assert forall|jj: int|
                1 <= jj < q2.len() && #[trigger] child_tree(m, k0).dom().contains(q2.take(jj)) implies child_tree(
                m,
                k0,
            )[q2.take(jj)] is Table by {
                assert(seq![k0] + q2.take(jj) =~= q.take(jj + 1));
                assert(m.dom().contains(q.take(jj + 1)));
            }
        }
        let c = child_or_insert(i, &keys[j], implicit_table());
        put_path(c, keys, j + 1, v);
        proof {
            lemma_put_step(m, k0, q2, value_head(v), raw_map(value_below(v)));
        }
    }
}

/// Every finite map of items by path is the map of some list.
proof fn lemma_listing(m: Map<KeyPath, KindView>) -> (s: Seq<ItemView>)
    requires
        m.dom().finite(),
    ensures
        items_map(s) == m,
    decreases m.dom().len(),
{
    if m.dom().len() == 0 {
        m.dom().lemma_len0_is_empty();
        let s = Seq::<ItemView>::empty();
        assert(items_map(s) =~= m);
        s
    } else {
        let k = m.dom().choose();
        let r = lemma_listing(m.remove(k));
        lemma_items_map_push(r, (k, m[k]));
        assert(m.remove(k).insert(k, m[k]) =~= m);
        r.push((k, m[k]))
    }
}

proof fn lemma_find_listed(s: Seq<ItemView>, i: int)
    requires
        0 <= i < s.len(),
    ensures
        find(s, s[i].0) is Some,
    decreases s.len(),
{
    if s.last().0 != s[i].0 {
        assert(s.drop_last()[i] == s[i]);
        lemma_find_listed(s.drop_last(), i);
    }
}

/// A list with the items of a tree finds them.
proof fn lemma_find_tree(s: Seq<ItemView>, m: Map<KeyPath, Raw>, q: KeyPath)
    requires
        items_map(s) == tree_kinds(m),
    ensures
        find(s, q) is Some <==> m.dom().contains(q),
        m.dom().contains(q) ==> find(s, q) == Some(kind_of(m[q])),
{
    assert(items_map(s).dom().contains(q) == (find(s, q) is Some));
    assert(tree_kinds(m).dom().contains(q) == m.dom().contains(q));
    if m.dom().contains(q) {
        assert(items_map(s)[q] == find(s, q)->Some_0);
        assert(tree_kinds(m)[q] == kind_of(m[q]));
    }
}

/// A list with the items of a tree is well formed.
proof fn lemma_tree_doc_wf(s: Seq<ItemView>, m: Map<KeyPath, Raw>)
    requires
        items_map(s) == tree_kinds(m),
        tree_closed(m),
    ensures
        doc_wf(s),
{
    assert forall|i: int, k: int| 0 <= i < s.len() && 1 <= k < s[i].0.len() implies keyed(
        #[trigger] find(s, s[i].0.take(k)),
    ) by {
        let q = s[i].0;
        lemma_find_listed(s, i);
        lemma_find_tree(s, m, q);
        assert(m.dom().contains(q.take(k)) && m[q.take(k)] is Table);
        lemma_find_tree(s, m, q.take(k));
    }
}

proof fn lemma_subtree_root(m: Map<KeyPath, Raw>)
    requires
        tree_closed(m),
    ensures
        subtree(m, Seq::<Seq<char>>::empty()) == m,
{
    assert forall|r: KeyPath| #[trigger] (Seq::<Seq<char>>::empty() + r) == r by {
        assert(Seq::<Seq<char>>::empty() + r =~= r);
    }
    assert(subtree(m, Seq::<Seq<char>>::empty()) =~= m);
}

proof fn lemma_subtree_step(m: Map<KeyPath, Raw>, q: KeyPath, k: Seq<char>)
    ensures
        subtree(m, q).dom().contains(seq![k]) == m.dom().contains(q.push(k)),
        subtree(m, q).dom().contains(seq![k]) ==> subtree(m, q)[seq![k]] == m[q.push(k)],
        subtree(subtree(m, q), seq![k]) == subtree(m, q.push(k)),
{
    assert(q + seq![k] =~= q.push(k));
    assert forall|r: KeyPath| #[trigger] (q + (seq![k] + r)) == q.push(k) + r by {
        assert(q + (seq![k] + r) =~= q.push(k) + r);
    }
    assert(subtree(subtree(m, q), seq![k]) =~= subtree(m, q.push(k)));
}

proof fn lemma_subtree_closed(m: Map<KeyPath, Raw>, k: Seq<char>)
    requires
        tree_closed(m),
    ensures
        tree_closed(child_tree(m, k)),
{
    if m.dom().contains(seq![k]) {
        let c = subtree(m, seq![k]);
        assert forall|r: KeyPath, kk: int| c.dom().contains(r) && 1 <= kk < r.len() implies c.dom().contains(
            #[trigger] r.take(kk),
        ) && c[r.take(kk)] is Table by {
            let w = seq![k] + r;
            assert(m.dom().contains(w));
            assert(w.take(kk + 1) =~= seq![k] + r.take(kk));
            assert(m.dom().contains(w.take(kk + 1)));
        }
        assert(tree_closed(c));
    } else {
        assert(child_tree(m, k) =~= Map::<KeyPath, Raw>::empty());
    }
}

/// Paths that start with the same key relate as what follows it does.
proof fn lemma_cons_paths(k: Seq<char>, a: KeyPath, b: KeyPath)
    ensures
        (seq![k] + a == seq![k] + b) == (a == b),
        under(seq![k] + a, seq![k] + b) == under(a, b),
        under(a, b) ==> (seq![k] + b).skip((seq![k] + a).len() as int) == b.skip(a.len() as int),
{
    let x = seq![k] + a;
    let y = seq![k] + b;
    assert(x.skip(1) =~= a);
    assert(y.skip(1) =~= b);
    if a.len() <= b.len() {
        assert(y.take(x.len() as int) =~= seq![k] + b.take(a.len() as int));
        assert((seq![k] + b.take(a.len() as int)).skip(1) =~= b.take(a.len() as int));
        if under(a, b) {
            assert(y.skip(x.len() as int) =~= b.skip(a.len() as int));
        }
    }
}

proof fn lemma_put_step_at(m: Map<KeyPath, Raw>, k0: Seq<char>, q2: KeyPath, h: Raw, b: Map<KeyPath, Raw>, r: KeyPath)
    requires
        tree_closed(m),
        q2.len() > 0,
    ensures
        put_entry(m, seq![k0], child_raw(m, k0), put_at(child_tree(m, k0), q2, h, b), r) == put_entry(
            m,
            seq![k0] + q2,
            h,
            b,
            r,
        ),
{
    let q = seq![k0] + q2;
    let k1 = seq![k0];
    let c = child_tree(m, k0);
    let inner = put_at(c, q2, h, b);
    assert(q.take(1) =~= k1);
    if r.len() > 0 && r[0] == k0 {
        assert(r.take(1) =~= k1);
        if r.len() == 1 {
            assert(r =~= k1);
            assert(q.take(r.len() as int) =~= r);
        } else {
            let x = r.skip(1);
            assert(r =~= k1 + x);
            assert(r.skip(k1.len() as int) == x);
            assert(r != k1);
            lemma_cons_paths(k0, q2, x);
            lemma_cons_paths(k0, x, q2);
            assert(inner.dom().contains(x) == (put_entry(c, q2, h, b, x) is Some));
            if m.dom().contains(k1) {
                assert(c.dom().contains(x) == m.dom().contains(r));
            } else {
                if m.dom().contains(r) {
                    assert(m.dom().contains(r.take(1)));
                }
                assert(!c.dom().contains(x));
            }
        }
    } else {
        if r.len() > 0 {
            assert(r.take(1)[0] == r[0]);
        }
        assert(!under(k1, r));
        if under(r, k1) && r.len() > 0 {
            assert(k1.take(r.len() as int) =~= r);
        }
        if under(q, r) {
            assert(r.take(q.len() as int)[0] == r[0]);
        }
        if under(r, q) && r.len() > 0 {
            assert(q.take(r.len() as int)[0] == q[0]);
        }
    }
}

/// Putting a value below a key is putting it below the item under the key,
/// that item being made where it is missing.
proof fn lemma_put_step(m: Map<KeyPath, Raw>, k0: Seq<char>, q2: KeyPath, h: Raw, b: Map<KeyPath, Raw>)
    requires
        tree_closed(m),
        q2.len() > 0,
    ensures
        put_at(m, seq![k0], child_raw(m, k0), put_at(child_tree(m, k0), q2, h, b)) == put_at(
            m,
            seq![k0] + q2,
            h,
            b,
        ),
{
    let inner = put_at(child_tree(m, k0), q2, h, b);
    assert forall|r: KeyPath| #[trigger]
        put_entry(m, seq![k0], child_raw(m, k0), inner, r) == put_entry(m, seq![k0] + q2, h, b, r) by {
        lemma_put_step_at(m, k0, q2, h, b, r);
    }
    assert(put_at(m, seq![k0], child_raw(m, k0), inner) =~= put_at(m, seq![k0] + q2, h, b));
}

proof fn lemma_below_find(vb: Seq<(KeyPath, Raw)>, x: KeyPath)
    ensures
        find(below_kinds(vb), x) == (match raw_find(vb, x) {
            Some(v) => Some(kind_of(v)),
            None => None,
        }),
    decreases vb.len(),
{
    if vb.len() > 0 {
        assert(below_kinds(vb).drop_last() =~= below_kinds(vb.drop_last()));
        lemma_below_find(vb.drop_last(), x);
    }
}

proof fn lemma_raw_find_value(vb: Seq<(KeyPath, Raw)>, x: KeyPath)
    requires
        forall|i: int| 0 <= i < vb.len() ==> (#[trigger] vb[i]).1 != Raw::Nothing,
    ensures
        raw_find(vb, x) matches Some(v) ==> v != Raw::Nothing,
    decreases vb.len(),
{
    if vb.len() > 0 {
        lemma_raw_find_value(vb.drop_last(), x);
    }
}

proof fn lemma_put_no_nothing(m: Map<KeyPath, Raw>, p: KeyPath, h: Raw, vb: Seq<(KeyPath, Raw)>)
    requires
        no_nothing(m),
        h != Raw::Nothing,
        forall|i: int| 0 <= i < vb.len() ==> (#[trigger] vb[i]).1 != Raw::Nothing,
    ensures
        no_nothing(put_at(m, p, h, raw_map(vb))),
{
    assert forall|r: KeyPath| #[trigger] put_at(m, p, h, raw_map(vb)).dom().contains(r) implies put_at(
        m,
        p,
        h,
        raw_map(vb),
    )[r] != Raw::Nothing by {
        lemma_raw_find_value(vb, r.skip(p.len() as int));
    }
}

/// A path strictly below the one set finds the value's own items.
proof fn lemma_find_set_below(s: Seq<ItemView>, p: KeyPath, head: KindView, below: Seq<ItemView>, x: KeyPath)
    requires
        set_outcome(s, p, head, below) is Ok,
        x.len() > 0,
    ensures
        find(set_outcome(s, p, head, below)->Ok_0, p + x) == find(below, x),
{
    let n = p.len();
    lemma_walk(s, p, 0);
    let fm = first_made(s, p);
    let a = outside(s, p);
    let nt = new_tables(p, fm);
    let pre = a + nt + seq![(p, head)];
    let c = placed(p, below);
    if fm == n {
        assert(a + nt =~= a);
    }
    assert(set_outcome(s, p, head, below)->Ok_0 =~= pre + c);
    let r = p + x;
    assert(r.take(n as int) =~= p);
    lemma_find_concat(pre, c, r);
    lemma_find_placed(p, below, x);
    lemma_outside_items(s, p);
    assert forall|j: int| 0 <= j < pre.len() implies pre[j].0 != r by {
        if j < a.len() {
            assert(pre[j] == a[j]);
            assert(!under(p, a[j].0));
        } else if j < a.len() + nt.len() {
            assert(pre[j] == nt[j - a.len()]);
        } else {
            assert(pre[j] == (p, head));
        }
    }
    lemma_find_none(pre, r);
}

/// What `set` leaves at a path, read from the tree the document holds
/// after the value was put.
proof fn lemma_set_tree_at(s: Seq<ItemView>, m: Map<KeyPath, Raw>, p: KeyPath, h: Raw, vb: Seq<(KeyPath, Raw)>, r: KeyPath)
    requires
        items_map(s) == tree_kinds(m),
        tree_wf(m),
        set_outcome(s, p, kind_of(h), below_kinds(vb)) is Ok,
        forall|i: int| 0 <= i < vb.len() ==> (#[trigger] vb[i]).0.len() > 0,
        forall|k: int| 1 <= k < p.len() ==> (#[trigger] m.dom().contains(p.take(k))) == (k < first_made(s, p)),
    ensures
        find(set_outcome(s, p, kind_of(h), below_kinds(vb))->Ok_0, r) == (if put_at(m, p, h, raw_map(vb)).dom().contains(r) {
            Some(kind_of(put_at(m, p, h, raw_map(vb))[r]))
        } else {
            None
        }),
{
    let n = p.len();
    let bk = below_kinds(vb);
    let b = raw_map(vb);
    let fm = first_made(s, p);
    lemma_walk(s, p, 0);
    if under(p, r) && r.len() > n {
        let x = r.skip(n as int);
        assert(r =~= p + x);
        lemma_find_set_below(s, p, kind_of(h), bk, x);
        lemma_below_find(vb, x);
    } else {
        assert forall|i: int| 0 <= i < bk.len() implies (#[trigger] bk[i]).0.len() > 0 by {
            assert(bk[i].0 == vb[i].0);
        }
        lemma_set_find(s, p, kind_of(h), bk, r);
        lemma_find_tree(s, m, r);
        if under(p, r) {
            assert(r.take(n as int) =~= r);
        }
        if r != p && under(r, p) && r.len() > 0 {
            if r.len() == n {
                assert(p.take(n as int) =~= p);
            }
            assert(r.len() < n);
        }
    }
}

/// `set_outcome` read from the tree the document holds after the value
/// was put.
proof fn lemma_set_tree(s: Seq<ItemView>, m: Map<KeyPath, Raw>, p: KeyPath, h: Raw, vb: Seq<(KeyPath, Raw)>)
    requires
        items_map(s) == tree_kinds(m),
        tree_wf(m),
        set_outcome(s, p, kind_of(h), below_kinds(vb)) is Ok,
        forall|i: int| 0 <= i < vb.len() ==> (#[trigger] vb[i]).0.len() > 0,
    ensures
        walk_open(m, p),
        items_map(set_outcome(s, p, kind_of(h), below_kinds(vb))->Ok_0) == tree_kinds(put_at(m, p, h, raw_map(vb))),
{
    let n = p.len();
    let fm = first_made(s, p);
    lemma_walk(s, p, 0);
    assert forall|k: int| 1 <= k < n implies (#[trigger] m.dom().contains(p.take(k))) == (k < fm) && (k < fm ==> m[p.take(
        k,
    )] is Table) by {
        lemma_find_tree(s, m, p.take(k));
        if k >= fm {
            lemma_find_tree(s, m, p.take(fm as int));
            if m.dom().contains(p.take(k)) && k > fm {
                assert(p.take(k).take(fm as int) =~= p.take(fm as int));
                assert(m.dom().contains(p.take(k).take(fm as int)));
            }
        }
    }
    let t = set_outcome(s, p, kind_of(h), below_kinds(vb))->Ok_0;
    let pm = put_at(m, p, h, raw_map(vb));
    assert forall|r: KeyPath| #[trigger] find(t, r) == (if pm.dom().contains(r) {
        Some(kind_of(pm[r]))
    } else {
        None
    }) by {
        lemma_set_tree_at(s, m, p, h, vb, r);
    }
    assert(items_map(t) =~= tree_kinds(pm));
}

} // verus!
