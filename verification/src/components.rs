//! The decisions inside the terminal UI's components: the order of the
//! workload list and what a selection in it asks for, the job status
//! filter, the file tree's node ids and mouse rows, and the button.
use vstd::prelude::*;
use crate::cscs::{Job, JobStatus, PathType, all_statuses};
use crate::focus::Action;
use crate::text::has_prefix;

verus! {

/// The order of start dates: no date comes before any date.
pub open spec fn start_le(a: Option<i64>, b: Option<i64>) -> bool {
    match (a, b) {
        (None, _) => true,
        (Some(_), None) => false,
        (Some(x), Some(y)) => x <= y,
    }
}

fn start_le_exec(a: Option<i64>, b: Option<i64>) -> (r: bool)
    ensures
        r == start_le(a, b),
{
    match (a, b) {
        (None, _) => true,
        (Some(_), None) => false,
        (Some(x), Some(y)) => x <= y,
    }
}

/// Where `x` goes in a list sorted newest first: before the first job that
/// started no later than it.
pub open spec fn insert_pos(t: Seq<Job>, x: Job) -> int
    decreases t.len(),
{
    if t.len() == 0 {
        0
    } else if start_le(t[0].start_date, x.start_date) {
        0
    } else {
        1 + insert_pos(t.drop_first(), x)
    }
}

/// The jobs sorted by start date, newest first, jobs without a start date
/// last, and jobs with equal start dates in their given order.
pub open spec fn newest_first(s: Seq<Job>) -> Seq<Job>
    decreases s.len(),
{
    if s.len() == 0 {
        Seq::empty()
    } else {
        let t = newest_first(s.drop_first());
        t.insert(insert_pos(t, s[0]), s[0])
    }
}

proof fn lemma_insert_pos_bounds(t: Seq<Job>, x: Job)
    ensures
        0 <= insert_pos(t, x) <= t.len(),
        forall|k: int| 0 <= k < insert_pos(t, x) ==> !start_le(#[trigger] t[k].start_date, x.start_date),
        insert_pos(t, x) < t.len() ==> start_le(t[insert_pos(t, x)].start_date, x.start_date),
    decreases t.len(),
{
    if t.len() > 0 && !start_le(t[0].start_date, x.start_date) {
        lemma_insert_pos_bounds(t.drop_first(), x);
        assert forall|k: int| 0 <= k < insert_pos(t, x) implies !start_le(
            #[trigger] t[k].start_date,
            x.start_date,
        ) by {
            if k > 0 {
                assert(t[k] == t.drop_first()[k - 1]);
            }
        }
    }
}

/// The list sorted newest first is ordered by start date, newest first.
pub proof fn law_newest_first_sorted(s: Seq<Job>)
    ensures
        forall|i: int, j: int|
            0 <= i < j < newest_first(s).len() ==> start_le(
                newest_first(s)[j].start_date,
                newest_first(s)[i].start_date,
            ),
        newest_first(s).len() == s.len(),
        newest_first(s).to_multiset() == s.to_multiset(),
    decreases s.len(),
{
    if s.len() > 0 {
        let t = newest_first(s.drop_first());
        law_newest_first_sorted(s.drop_first());
        lemma_insert_pos_bounds(t, s[0]);
        let p = insert_pos(t, s[0]);
        let u = t.insert(p, s[0]);
        assert forall|i: int, j: int| 0 <= i < j < u.len() implies start_le(
            u[j].start_date,
            u[i].start_date,
        ) by {
            if i < p && j == p {
                assert(!start_le(t[i].start_date, s[0].start_date));
            } else if i < p && j > p {
                assert(start_le(t[j - 1].start_date, t[i].start_date));
            } else if i == p && j > p {
                assert(start_le(t[j - 1].start_date, t[p].start_date));
            } else if i > p {
                assert(start_le(t[j - 1].start_date, t[i - 1].start_date));
            } else {
                assert(start_le(t[j].start_date, t[i].start_date));
            }
        }
        broadcast use vstd::seq_lib::group_to_multiset_ensures;
        broadcast use vstd::multiset::group_multiset_axioms;

        assert(s.remove(0) =~= s.drop_first());
        assert(u.to_multiset() == t.to_multiset().insert(s[0]));
        assert(s.drop_first().to_multiset() == s.to_multiset().remove(s[0]));
        assert(s.contains(s[0]));
        assert(s.to_multiset().count(s[0]) > 0);
        assert(s.to_multiset().remove(s[0]).insert(s[0]) =~= s.to_multiset());
        assert(newest_first(s) == u);
        assert(u.to_multiset() =~= s.to_multiset());
    } else {
        assert(s =~= Seq::<Job>::empty());
    }
}

/// Sorts the jobs by start date, newest first; jobs that have not started
/// come last, and jobs that started at the same time keep their order.
pub fn sort_newest_first(jobs: Vec<Job>) -> (r: Vec<Job>)
    ensures
        r@ == newest_first(jobs@),
{
    let mut rest = jobs;
    let ghost orig = rest@;
    let mut r: Vec<Job> = Vec::new();
    while rest.len() > 0
        invariant
            rest@ == orig.subrange(0, rest@.len() as int),
            rest@.len() <= orig.len(),
            r@ == newest_first(orig.subrange(rest@.len() as int, orig.len() as int)),
        decreases rest.len(),
    {
        let k = rest.len();
        let x = rest.pop().unwrap();
        let ghost suffix = orig.subrange(k - 1, orig.len() as int);
        proof {
            assert(suffix.drop_first() =~= orig.subrange(k as int, orig.len() as int));
            assert(suffix[0] == x);
            lemma_insert_pos_bounds(r@, x);
        }
        let mut p: usize = 0;
        while p < r.len() && !start_le_exec(r[p].start_date, x.start_date)
            invariant
                p <= r@.len(),
                p <= insert_pos(r@, x),
                0 <= insert_pos(r@, x) <= r@.len(),
                forall|k: int| 0 <= k < insert_pos(r@, x) ==> !start_le(#[trigger] r@[k].start_date, x.start_date),
                insert_pos(r@, x) < r@.len() ==> start_le(r@[insert_pos(r@, x)].start_date, x.start_date),
            decreases r.len() - p,
        {
            p = p + 1;
        }
        r.insert(p, x);
    }
    proof {
        assert(orig.subrange(0, orig.len() as int) =~= orig);
    }
    r
}

/// The id of the selected job, where the list has jobs and a row is
/// selected.
pub fn selected_job_id(jobs: &Vec<Job>, selected: Option<usize>) -> (r: Option<usize>)
    requires
        selected matches Some(i) ==> (jobs@.len() == 0 || i < jobs@.len()),
    ensures
        match selected {
            Some(i) => if jobs@.len() > 0 {
                r == Some(jobs@[i as int].id)
            } else {
                r is None
            },
            None => r is None,
        },
{
    match selected {
        Some(i) => {
            if jobs.len() > 0 {
                Some(jobs[i].id)
            } else {
                None
            }
        },
        None => None,
    }
}

/// The resource usage of a job can be watched only while it runs: its id,
/// else the message to show.
pub fn resource_usage_target(job: &Job) -> (r: Result<usize, String>)
    ensures
        job.status == JobStatus::Running ==> r == Ok::<usize, String>(job.id),
        job.status != JobStatus::Running ==> (r matches Err(m) && m@
            == "Can only get resource usage for jobs in 'Running' state"@),
{
    if job.status == JobStatus::Running {
        Ok(job.id)
    } else {
        Err(String::from_str("Can only get resource usage for jobs in 'Running' state"))
    }
}

/// In the job status filter, choice 0 stands for all statuses and choice
/// `k` (from 1 to `max_idx - 1`) for one status. The filter is consistent
/// when "all" is checked exactly when every status is.
pub open spec fn filter_consistent(values: Seq<usize>, max_idx: usize) -> bool {
    values.contains(0) <==> (forall|k: usize| 1 <= k < max_idx ==> values.contains(k))
}

/// The checked choices after the user toggled one: checking "all" checks
/// everything, unchecking it unchecks everything; otherwise "all" follows
/// whether every status is checked.
/// `s` without its zeros.
pub open spec fn drop_zeros(s: Seq<usize>) -> Seq<usize>
    decreases s.len(),
{
    if s.len() == 0 {
        s
    } else if s.last() == 0 {
        drop_zeros(s.drop_last())
    } else {
        drop_zeros(s.drop_last()).push(s.last())
    }
}

proof fn lemma_drop_zeros(s: Seq<usize>, x: usize)
    ensures
        drop_zeros(s).contains(x) <==> (x != 0 && s.contains(x)),
    decreases s.len(),
{
    if s.len() > 0 {
        let d = s.drop_last();
        let t = drop_zeros(d);
        lemma_drop_zeros(d, x);
        if x != 0 && s.contains(x) {
            let j = choose|j: int| 0 <= j < s.len() && s[j] == x;
            if j == s.len() - 1 {
                assert(drop_zeros(s) == t.push(x));
                assert(drop_zeros(s)[t.len() as int] == x);
            } else {
                assert(d[j] == x);
                assert(d.contains(x));
                assert(t.contains(x));
                let k = choose|k: int| 0 <= k < t.len() && t[k] == x;
                assert(drop_zeros(s)[k] == x);
            }
        }
        if drop_zeros(s).contains(x) {
            let k = choose|k: int| 0 <= k < drop_zeros(s).len() && drop_zeros(s)[k] == x;
            if s.last() != 0 && k == t.len() {
                assert(s[s.len() - 1] == x);
            } else {
                assert(t[k] == x);
                assert(t.contains(x));
                let j = choose|j: int| 0 <= j < d.len() && d[j] == x;
                assert(s[j] == x);
            }
        }
    }
}

pub open spec fn filter_toggled(old_values: Seq<usize>, new_state: Seq<usize>, max_idx: usize) -> Seq<
    usize,
> {
    if new_state.contains(0) && !old_values.contains(0) {
        Seq::new(max_idx as nat, |k: int| k as usize)
    } else if !new_state.contains(0) && old_values.contains(0) {
        Seq::empty()
    } else if forall|k: usize| 1 <= k < max_idx ==> new_state.contains(k) {
        new_state.push(0)
    } else {
        drop_zeros(new_state)
    }
}

fn vec_contains(v: &Vec<usize>, x: usize) -> (r: bool)
    ensures
        r == v@.contains(x),
{
    let mut i: usize = 0;
    while i < v.len()
        invariant
            i <= v@.len(),
            forall|k: int| 0 <= k < i ==> v@[k] != x,
        decreases v.len() - i,
    {
        if v[i] == x {
            return true;
        }
        i = i + 1;
    }
    false
}

/// The choices of the job status filter after a toggle (see
/// `filter_toggled`).
pub fn toggle_status_filter(values: &Vec<usize>, new_state: Vec<usize>, max_idx: usize) -> (r: Vec<
    usize,
>)
    ensures
        r@ == filter_toggled(values@, new_state@, max_idx),
{
    let new_all = vec_contains(&new_state, 0);
    let old_all = vec_contains(values, 0);
    if new_all && !old_all {
        let mut r: Vec<usize> = Vec::new();
        let mut k: usize = 0;
        while k < max_idx
            invariant
                k <= max_idx,
                r@ == Seq::new(k as nat, |j: int| j as usize),
            decreases max_idx - k,
        {
            r.push(k);
            proof {
                assert(r@ =~= Seq::new((k + 1) as nat, |j: int| j as usize));
            }
            k = k + 1;
        }
        r
    } else if !new_all && old_all {
        Vec::new()
    } else {
        let mut every = true;
        let mut k: usize = 1;
        while k < max_idx
            invariant
                1 <= k,
                k <= max_idx || k == 1,
                every <==> (forall|j: usize| 1 <= j < k ==> new_state@.contains(j)),
            decreases max_idx - k,
        {
            if !vec_contains(&new_state, k) {
                every = false;
            }
            k = k + 1;
        }
        proof {
            if every {
                assert forall|j: usize| 1 <= j < max_idx implies new_state@.contains(j) by {
                    assert(j < k);
                }
            } else {
                let j = choose|j: usize| 1 <= j < k && !new_state@.contains(j);
                assert(1 <= j < max_idx && !new_state@.contains(j));
            }
        }
        if every {
            let mut r = new_state;
            r.push(0);
            r
        } else {
            let mut r: Vec<usize> = Vec::new();
            let mut i: usize = 0;
            while i < new_state.len()
                invariant
                    i <= new_state@.len(),
                    r@ == drop_zeros(new_state@.take(i as int)),
                decreases new_state.len() - i,
            {
                proof {
                    assert(new_state@.take(i + 1).drop_last() =~= new_state@.take(i as int));
                    assert(new_state@.take(i + 1).last() == new_state@[i as int]);
                }
                let x = new_state[i];
                if x != 0 {
                    r.push(x);
                }
                i = i + 1;
            }
            proof {
                assert(new_state@.take(new_state@.len() as int) =~= new_state@);
            }
            r
        }
    }
}

/// Whatever the user toggles, the filter stays consistent: "all" is
/// checked exactly when every status is. Without any status (`max_idx`
/// below 2) every status is checked by default, and the law holds only
/// where the toggle leaves "all" checked.
pub proof fn law_filter_stays_consistent(old_values: Seq<usize>, new_state: Seq<usize>, max_idx: usize)
    requires
        max_idx >= 2 || filter_toggled(old_values, new_state, max_idx).contains(0),
    ensures
        filter_consistent(filter_toggled(old_values, new_state, max_idx), max_idx),
{
    let r = filter_toggled(old_values, new_state, max_idx);
    if max_idx < 2 {
    } else if new_state.contains(0) && !old_values.contains(0) {
        assert(r[0] == 0);
        assert forall|k: usize| 1 <= k < max_idx implies r.contains(k) by {
            assert(r[k as int] == k);
        }
    } else if !new_state.contains(0) && old_values.contains(0) {
        assert(!r.contains(1));
    } else if forall|k: usize| 1 <= k < max_idx ==> new_state.contains(k) {
        assert(r[r.len() - 1] == 0);
        assert forall|k: usize| 1 <= k < max_idx implies r.contains(k) by {
            assert(new_state.contains(k));
            let j = choose|j: int| 0 <= j < new_state.len() && new_state[j] == k;
            assert(r[j] == k);
        }
    } else {
        let k = choose|k: usize| 1 <= k < max_idx && !new_state.contains(k);
        lemma_drop_zeros(new_state, 0);
        lemma_drop_zeros(new_state, k);
    }
}

/// The statuses that the checked choices stand for, in the order of the
/// choices; "all" stands for none by itself.
pub open spec fn filter_statuses(values: Seq<usize>) -> Seq<JobStatus>
    decreases values.len(),
{
    if values.len() == 0 {
        Seq::empty()
    } else {
        let rest = filter_statuses(values.drop_last());
        let v = values.last();
        if v > 0 {
            rest.push(all_statuses()[v - 1])
        } else {
            rest
        }
    }
}

/// The statuses to show, from the checked choices.
pub fn selected_statuses(values: &Vec<usize>) -> (r: Vec<JobStatus>)
    requires
        forall|k: int| 0 <= k < values@.len() ==> values@[k] <= all_statuses().len(),
    ensures
        r@ == filter_statuses(values@),
{
    let statuses = crate::cscs::status_list();
    let mut r: Vec<JobStatus> = Vec::new();
    let mut i: usize = 0;
    while i < values.len()
        invariant
            i <= values@.len(),
            statuses@ == all_statuses(),
            forall|k: int| 0 <= k < values@.len() ==> values@[k] <= all_statuses().len(),
            r@ == filter_statuses(values@.take(i as int)),
        decreases values.len() - i,
    {
        proof {
            assert(values@.take(i + 1).drop_last() =~= values@.take(i as int));
            assert(values@.take(i + 1).last() == values@[i as int]);
        }
        let v = values[i];
        if v > 0 {
            r.push(statuses[v - 1]);
        }
        i = i + 1;
    }
    proof {
        assert(values@.take(values@.len() as int) =~= values@);
    }
    r
}

/// The id of a file tree node for a listed entry: an absolute name is the
/// id itself, otherwise the parent's id, `/` and the name.
pub open spec fn child_id(parent: Seq<char>, name: Seq<char>) -> Seq<char> {
    if has_prefix(name, "/"@) {
        name
    } else {
        parent + "/"@ + name
    }
}

pub fn child_node_id(parent: &str, name: &str) -> (r: String)
    ensures
        r@ == child_id(parent@, name@),
{
    if crate::text::starts_with(name, "/") {
        String::from_str(name)
    } else {
        let mut r = String::from_str(parent);
        r.append("/");
        r.append(name);
        r
    }
}

/// What opening a file tree node does.
#[derive(Debug, Clone, Copy, PartialEq, Eq, Structural)]
pub enum OpenAction {
    /// Ask for the folder's entries.
    LoadChildren,
    /// Open the folder.
    Open,
    /// Nothing: files and links do not open.
    Nothing,
}

/// A folder without entries yet is listed first; a folder with entries
/// opens; anything else stays as it is.
pub fn open_action(path_type: PathType, has_children: bool) -> (r: OpenAction)
    ensures
        path_type == PathType::Directory && !has_children ==> r == OpenAction::LoadChildren,
        path_type == PathType::Directory && has_children ==> r == OpenAction::Open,
        path_type != PathType::Directory ==> r == OpenAction::Nothing,
{
    match path_type {
        PathType::Directory => if has_children {
            OpenAction::Open
        } else {
            OpenAction::LoadChildren
        },
        _ => OpenAction::Nothing,
    }
}

pub open spec fn sat_sub(a: int, b: int) -> int {
    if a >= b {
        a - b
    } else {
        0
    }
}

/// The list position of the node under a mouse click on row `row` of a
/// tree drawn at `top` with `height` rows (borders included), showing
/// `node_count` nodes of which the one at `prev_position` (counted from 1)
/// is selected. The view scrolls so that the selected node stays in the
/// middle, as far as the list allows.
pub open spec fn clicked_position(
    row: int,
    top: int,
    height: int,
    node_count: int,
    prev_position: int,
) -> int {
    let h = height - 2;
    let idx = sat_sub(row - top, 1);
    let idx = if idx >= h {
        h - 1
    } else {
        idx
    };
    let offset_max = sat_sub(node_count, h);
    let o = sat_sub(prev_position, h / 2);
    let offset = if o < offset_max {
        o
    } else {
        offset_max
    };
    idx + offset
}

pub fn mouse_row_index(row: u16, top: u16, height: u16, node_count: usize, prev_position: usize) -> (r:
    usize)
    requires
        top <= row,
        height >= 3,
        clicked_position(row as int, top as int, height as int, node_count as int, prev_position as int)
            <= usize::MAX,
    ensures
        r == clicked_position(row as int, top as int, height as int, node_count as int, prev_position as int),
{
    let mut idx = ((row - top) as usize).saturating_sub(1);
    let h = (height as usize) - 2;
    if idx >= h {
        idx = h - 1;
    }
    let offset_max = node_count.saturating_sub(h);
    let top_lines = h / 2;
    let o = prev_position.saturating_sub(top_lines);
    let offset = if o < offset_max {
        o
    } else {
        offset_max
    };
    idx + offset
}

/// A screen area.
#[derive(Debug, Clone, Copy, PartialEq, Eq, Structural)]
pub struct Area {
    pub x: u16,
    pub y: u16,
    pub width: u16,
    pub height: u16,
}

impl Area {
    pub open spec fn holds(self, col: u16, row: u16) -> bool {
        self.x <= col < self.x + self.width && self.y <= row < self.y + self.height
    }

    /// Whether the cell at `col`, `row` lies in the area.
    pub fn contains(&self, col: u16, row: u16) -> (r: bool)
        ensures
            r == self.holds(col, row),
    {
        let right = self.x as u32 + self.width as u32;
        let bottom = self.y as u32 + self.height as u32;
        self.x <= col && (col as u32) < right && self.y <= row && (row as u32) < bottom
    }
}

/// A mouse event as the button sees it.
#[derive(Debug, Clone, Copy, PartialEq, Eq, Structural)]
pub enum MouseKind {
    LeftDown,
    LeftUp,
    Other,
}

/// A button: pressed by a left click inside it, clicked when the left
/// button is released after that.
#[derive(Debug, Clone)]
pub struct Button {
    pub label: String,
    pub is_pressed: bool,
    pub last_area: Area,
    pub on_click: Option<Action>,
}

impl Button {
    pub fn new(label: String) -> (r: Button)
        ensures
            r.label == label,
            !r.is_pressed,
            r.last_area == (Area { x: 0, y: 0, width: 0, height: 0 }),
            r.on_click is None,
    {
        Button { label, is_pressed: false, last_area: Area { x: 0, y: 0, width: 0, height: 0 }, on_click: None }
    }

    /// The same button, sending `action` when clicked.
    pub fn on_click(self, action: Action) -> (r: Button)
        ensures
            r.label == self.label,
            r.is_pressed == self.is_pressed,
            r.last_area == self.last_area,
            r.on_click == Some(action),
    {
        Button { on_click: Some(action), ..self }
    }

    /// Takes a mouse event: a release ends the press and sends the click
    /// action where the button was pressed; a left press inside the button
    /// presses it; anything else changes nothing.
    pub fn handle_mouse_event(&mut self, kind: MouseKind, col: u16, row: u16) -> (r: Option<Action>)
        ensures
            final(self).label == old(self).label,
            final(self).last_area == old(self).last_area,
            final(self).on_click == old(self).on_click,
            kind == MouseKind::LeftUp ==> {
                &&& !final(self).is_pressed
                &&& (r is Some <==> old(self).is_pressed && old(self).on_click is Some)
            },
            kind == MouseKind::LeftDown ==> {
                &&& r is None
                &&& final(self).is_pressed == (old(self).is_pressed || old(self).last_area.holds(
                    col,
                    row,
                ))
            },
            kind == MouseKind::Other ==> r is None && final(self).is_pressed == old(self).is_pressed,
    {
        if kind == MouseKind::LeftUp {
            let action = if self.is_pressed {
                match &self.on_click {
                    Some(a) => Some(a.clone()),
                    None => None,
                }
            } else {
                None
            };
            self.is_pressed = false;
            return action;
        }
        if !self.last_area.contains(col, row) {
            return None;
        }
        if kind == MouseKind::LeftDown {
            self.is_pressed = true;
        }
        None
    }
}

} // verus!
