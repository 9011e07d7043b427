//! The task table's view model: weak task handles delivered by the update
//! stream, the per-key comparators, the stable reorder, column and row
//! selection, and the per-frame layout pass.

use vstd::prelude::*;
use vstd::relations::{sorted_by, strongly_connected, transitive};
use crate::layout::{fields_width, tracked_width, Width};
use crate::sort::{
    insert_ordered, lemma_insert_ordered_is_insert, lemma_insert_pos_unique, lemma_lex_le_total,
    lemma_lex_le_trans, lemma_sort_len, lemma_sort_ordered_sorted, lex_le, sort_ordered,
    str_lex_le,
};

verus! {

/// Lifecycle state of a task, as reported by the instrumentation service.
#[derive(Clone, Copy, PartialEq, Eq, Structural, Debug)]
pub enum TaskState {
    Running,
    Idle,
    Completed,
}

/// Rank used when sorting by lifecycle state.
pub open spec fn state_rank_spec(s: TaskState) -> u64 {
    match s {
        TaskState::Running => 0,
        TaskState::Idle => 1,
        TaskState::Completed => 2,
    }
}

/// A snapshot of one task's record: identity, lifecycle, labels and the
/// raw timing counters the elapsed-time columns are derived from. Times
/// are milliseconds since the instrumentation epoch.
pub struct Task {
    pub id: u64,
    pub state: TaskState,
    pub name: String,
    pub target: String,
    /// When the task was spawned.
    pub created_at_ms: u64,
    /// When the task completed, if it has.
    pub completed_at_ms: Option<u64>,
    /// Total time the task has spent being polled.
    pub busy_ms: u64,
    pub polls: u64,
}

impl Task {
    /// Elapsed lifetime at `now_ms`: from creation to completion, or to
    /// `now_ms` while the task still runs; never negative even against a
    /// stale clock.
    pub open spec fn total_ms_spec(&self, now_ms: u64) -> u64 {
        let end = match self.completed_at_ms {
            Some(t) => t,
            None => now_ms,
        };
        if end >= self.created_at_ms {
            (end - self.created_at_ms) as u64
        } else {
            0
        }
    }

    /// Busy time at `now_ms`: the recorded poll time, never more than the
    /// elapsed lifetime.
    pub open spec fn busy_ms_spec(&self, now_ms: u64) -> u64 {
        if self.busy_ms <= self.total_ms_spec(now_ms) {
            self.busy_ms
        } else {
            self.total_ms_spec(now_ms)
        }
    }

    /// Idle time at `now_ms`: whatever of the lifetime was not busy.
    pub open spec fn idle_ms_spec(&self, now_ms: u64) -> u64 {
        (self.total_ms_spec(now_ms) - self.busy_ms_spec(now_ms)) as u64
    }

    pub fn total_ms(&self, now_ms: u64) -> (r: u64)
        ensures
            r == self.total_ms_spec(now_ms),
    {
        let end = match self.completed_at_ms {
            Some(t) => t,
            None => now_ms,
        };
        if end >= self.created_at_ms {
            end - self.created_at_ms
        } else {
            0
        }
    }

    pub fn busy_ms_at(&self, now_ms: u64) -> (r: u64)
        ensures
            r == self.busy_ms_spec(now_ms),
    {
        let total = self.total_ms(now_ms);
        if self.busy_ms <= total {
            self.busy_ms
        } else {
            total
        }
    }

    pub fn idle_ms(&self, now_ms: u64) -> (r: u64)
        ensures
            r == self.idle_ms_spec(now_ms),
    {
        self.total_ms(now_ms) - self.busy_ms_at(now_ms)
    }
}

/// A non-owning handle to a task record whose authoritative storage lives
/// with an external registry. The registry key (`id`) outlives the record;
/// once the registry evicts the record the handle resolves to nothing and
/// is pruned from the view on the next render pass.
pub struct TaskRef {
    pub id: u64,
    pub live: bool,
    pub task: Task,
}

impl TaskRef {
    /// A freshly observed handle, resolving to `task`.
    pub fn new(task: Task) -> (r: TaskRef)
        ensures
            r.live,
            r.task == task,
            r.id == task.id,
    {
        let id = task.id;
        TaskRef { id, live: true, task }
    }

    /// Resolve the handle: the record while the registry still holds it,
    /// nothing once it was evicted.
    pub fn upgrade(&self) -> (r: Option<&Task>)
        ensures
            self.live ==> r == Some(&self.task),
            !self.live ==> r is None,
    {
        if self.live {
            Some(&self.task)
        } else {
            None
        }
    }

    /// The registry dropped the record: from here on the handle resolves
    /// to nothing.
    pub fn invalidate(&mut self)
        ensures
            !final(self).live,
            final(self).id == old(self).id,
            final(self).task == old(self).task,
    {
        self.live = false;
    }
}

/// The sort key, one per sortable header column.
#[derive(Clone, Copy, PartialEq, Eq, Structural, Debug)]
pub enum SortBy {
    Tid,
    State,
    Name,
    Total,
    Busy,
    Idle,
    Polls,
}

/// The numeric value a task sorts by under every key except `Name`.
pub open spec fn sort_key_num_spec(key: SortBy, now_ms: u64, t: Task) -> u64 {
    match key {
        SortBy::Tid => t.id,
        SortBy::State => state_rank_spec(t.state),
        SortBy::Name => 0,
        SortBy::Total => t.total_ms_spec(now_ms),
        SortBy::Busy => t.busy_ms_spec(now_ms),
        SortBy::Idle => t.idle_ms_spec(now_ms),
        SortBy::Polls => t.polls,
    }
}

/// The comparator behind `reorder`: handles that no longer resolve sort
/// first, live handles compare by the selected key's value at `now_ms`,
/// names lexicographically and every other key numerically.
pub open spec fn task_le(key: SortBy, now_ms: u64, a: TaskRef, b: TaskRef) -> bool {
    if !a.live {
        true
    } else if !b.live {
        false
    } else if key == SortBy::Name {
        lex_le(a.task.name@, b.task.name@)
    } else {
        sort_key_num_spec(key, now_ms, a.task) <= sort_key_num_spec(key, now_ms, b.task)
    }
}

/// `task_le` for a fixed key and time, as a relation on handles.
pub open spec fn task_le_fn(key: SortBy, now_ms: u64) -> spec_fn(TaskRef, TaskRef) -> bool {
    |a: TaskRef, b: TaskRef| task_le(key, now_ms, a, b)
}

/// Every per-key comparator is total and transitive, so the stable sort's
/// guarantees apply to each.
pub proof fn lemma_task_le_total_trans(key: SortBy, now_ms: u64)
    ensures
        strongly_connected(task_le_fn(key, now_ms)),
        transitive(task_le_fn(key, now_ms)),
{
    let le = task_le_fn(key, now_ms);
    assert forall|x: TaskRef, y: TaskRef| #[trigger] le(x, y) || #[trigger] le(y, x) by {
        if x.live && y.live && key == SortBy::Name {
            lemma_lex_le_total(x.task.name@, y.task.name@);
        }
    }
    assert forall|x: TaskRef, y: TaskRef, z: TaskRef|
        #[trigger] le(x, y) && #[trigger] le(y, z) implies le(x, z) by {
        if x.live && y.live && z.live && key == SortBy::Name {
            lemma_lex_le_trans(x.task.name@, y.task.name@, z.task.name@);
        }
    }
}

/// Executable form of `task_le`.
fn task_le_exec(key: SortBy, now_ms: u64, a: &TaskRef, b: &TaskRef) -> (r: bool)
    ensures
        r == task_le(key, now_ms, *a, *b),
{
    if !a.live {
        true
    } else if !b.live {
        false
    } else {
        match key {
            SortBy::Name => str_lex_le(a.task.name.as_str(), b.task.name.as_str()),
            SortBy::Tid => a.task.id <= b.task.id,
            SortBy::State => state_rank(a.task.state) <= state_rank(b.task.state),
            SortBy::Total => a.task.total_ms(now_ms) <= b.task.total_ms(now_ms),
            SortBy::Busy => a.task.busy_ms_at(now_ms) <= b.task.busy_ms_at(now_ms),
            SortBy::Idle => a.task.idle_ms(now_ms) <= b.task.idle_ms(now_ms),
            SortBy::Polls => a.task.polls <= b.task.polls,
        }
    }
}

fn state_rank(s: TaskState) -> (r: u64)
    ensures
        r == state_rank_spec(s),
{
    match s {
        TaskState::Running => 0,
        TaskState::Idle => 1,
        TaskState::Completed => 2,
    }
}

/// Stable in-place insertion sort of the working set under the selected
/// key at `now_ms`: the result is exactly the specification sort, so ties
/// keep their insertion order and a repeated call changes nothing.
fn sort_tasks(v: &mut Vec<TaskRef>, key: SortBy, now_ms: u64)
    ensures
        final(v)@ == sort_ordered(old(v)@, task_le_fn(key, now_ms)),
{
    let ghost le = task_le_fn(key, now_ms);
    let ghost orig = v@;
    let n = v.len();
    let mut i: usize = 0;
    while i < n
        invariant
            i <= n,
            n == orig.len(),
            v@.len() == n,
            v@ =~= sort_ordered(orig.take(i as int), le) + orig.skip(i as int),
            le == task_le_fn(key, now_ms),
        decreases n - i,
    {
        let ghost prefix = sort_ordered(orig.take(i as int), le);
        proof {
            assert(prefix.len() == i) by {
                lemma_sort_len(orig.take(i as int), le);
            }
            assert(v@[i as int] == orig.skip(i as int)[0]);
            assert(orig.skip(i as int)[0] == orig[i as int]);
        }
        let x = v.remove(i);
        proof {
            assert(x == orig[i as int]);
            assert(v@ =~= prefix + orig.skip(i as int + 1));
        }
        let mut j: usize = i;
        loop
            invariant
                j <= i,
                i < n,
                n == orig.len(),
                v@ == prefix + orig.skip(i as int + 1),
                prefix.len() == i,
                x == orig[i as int],
                le == task_le_fn(key, now_ms),
                forall|k: int| j <= k < i ==> !le(#[trigger] prefix[k], x),
            ensures
                j <= i,
                forall|k: int| j <= k < i ==> !le(#[trigger] prefix[k], x),
                j > 0 ==> le(prefix[j - 1], x),
                v@ == prefix + orig.skip(i as int + 1),
            decreases j,
        {
            if j == 0 {
                break ;
            }
            proof {
                assert(v@[j - 1] == prefix[j - 1]);
            }
            if task_le_exec(key, now_ms, &v[j - 1], &x) {
                break ;
            }
            j = j - 1;
        }
        proof {
            lemma_insert_pos_unique(prefix, x, le, j as int);
            lemma_insert_ordered_is_insert(prefix, x, le);
        }
        v.insert(j, x);
        proof {
            assert(v@ =~= prefix.insert(j as int, x) + orig.skip(i as int + 1));
            assert(prefix.insert(j as int, x) == insert_ordered(prefix, x, le));
            let next = orig.take(i as int + 1);
            assert(next.drop_last() =~= orig.take(i as int));
            assert(next.last() == orig[i as int]);
            assert(sort_ordered(next, le) == insert_ordered(prefix, x, le));
        }
        i = i + 1;
    }
    proof {
        assert(orig.take(n as int) =~= orig);
        assert(v@ =~= sort_ordered(orig, le));
    }
}

/// Number of header columns:
/// TID, STATE, NAME, TOTAL, BUSY, IDLE, POLLS, TARGET, FIELDS.
pub const COLUMN_COUNT: usize = 9;

impl SortBy {
    /// The zero-based header column each sort key is bound to.
    pub open spec fn column_spec(self) -> usize {
        match self {
            SortBy::Tid => 0,
            SortBy::State => 1,
            SortBy::Name => 2,
            SortBy::Total => 3,
            SortBy::Busy => 4,
            SortBy::Idle => 5,
            SortBy::Polls => 6,
        }
    }

    /// The sort key bound to a header column; the trailing columns
    /// (TARGET, FIELDS) carry no key.
    pub open spec fn from_column_spec(col: usize) -> Option<SortBy> {
        if col == 0 {
            Some(SortBy::Tid)
        } else if col == 1 {
            Some(SortBy::State)
        } else if col == 2 {
            Some(SortBy::Name)
        } else if col == 3 {
            Some(SortBy::Total)
        } else if col == 4 {
            Some(SortBy::Busy)
        } else if col == 5 {
            Some(SortBy::Idle)
        } else if col == 6 {
            Some(SortBy::Polls)
        } else {
            None
        }
    }

    /// Resolve a column to its sort key; an out-of-range column resolves
    /// to nothing and the caller keeps its current key.
    pub fn from_column(col: usize) -> (r: Option<SortBy>)
        ensures
            r == Self::from_column_spec(col),
    {
        if col == 0 {
            Some(SortBy::Tid)
        } else if col == 1 {
            Some(SortBy::State)
        } else if col == 2 {
            Some(SortBy::Name)
        } else if col == 3 {
            Some(SortBy::Total)
        } else if col == 4 {
            Some(SortBy::Busy)
        } else if col == 5 {
            Some(SortBy::Idle)
        } else if col == 6 {
            Some(SortBy::Polls)
        } else {
            None
        }
    }
}

/// Key-to-column and column-to-key are mutually inverse where a key
/// exists: the binding is a bijection between the sort keys and the first
/// seven header columns.
pub proof fn lemma_sort_key_column_bijection()
    ensures
        forall|k: SortBy| SortBy::from_column_spec(#[trigger] k.column_spec()) == Some(k),
        forall|c: usize|
            #[trigger] SortBy::from_column_spec(c) is Some ==> SortBy::from_column_spec(
                c,
            )->Some_0.column_spec() == c,
{
}

/// One step of column selection, wrapping circularly over the header.
pub open spec fn rotate_column_spec(col: usize, to_right: bool) -> usize {
    if to_right {
        if col + 1 == COLUMN_COUNT {
            0
        } else {
            (col + 1) as usize
        }
    } else {
        if col == 0 {
            (COLUMN_COUNT - 1) as usize
        } else {
            (col - 1) as usize
        }
    }
}

/// `n` steps of column selection in one direction.
pub open spec fn rotate_column_n_spec(col: usize, to_right: bool, n: nat) -> usize
    decreases n,
{
    if n == 0 {
        col
    } else {
        rotate_column_spec(rotate_column_n_spec(col, to_right, (n - 1) as nat), to_right)
    }
}

/// Selecting the next (or previous) column header-length times comes back
/// to where it started, in either direction.
pub proof fn lemma_select_column_circular(col: usize, to_right: bool)
    requires
        col < COLUMN_COUNT,
    ensures
        rotate_column_n_spec(col, to_right, COLUMN_COUNT as nat) == col,
{
    reveal_with_fuel(rotate_column_n_spec, 10);
}

/// A key event, as this view consumes it: column selection, sort
/// inversion, scrolling; anything else is ignored.
#[derive(Clone, Copy, PartialEq, Eq, Structural, Debug)]
pub enum KeyCode {
    Left,
    Right,
    Up,
    Down,
    Invert,
    Other,
}

/// An input event; only key events drive this view.
#[derive(Clone, Copy, PartialEq, Eq, Structural, Debug)]
pub enum Event {
    Key(KeyCode),
    Other,
}

/// Where one downward scroll moves the selection: to the next rendered
/// row, wrapping to the first past the last; unset when there are no
/// rows.
pub open spec fn scroll_next_spec(sel: Option<usize>, len: nat) -> Option<usize> {
    if len == 0 {
        None
    } else {
        Some(
            match sel {
                None => 0usize,
                Some(i) => if i + 1 >= len {
                    0usize
                } else {
                    (i + 1) as usize
                },
            },
        )
    }
}

/// Where one upward scroll moves the selection: to the previous rendered
/// row, wrapping to the last before the first; unset when there are no
/// rows.
pub open spec fn scroll_prev_spec(sel: Option<usize>, len: nat) -> Option<usize> {
    if len == 0 {
        None
    } else {
        Some(
            match sel {
                None => 0usize,
                Some(i) => if i == 0 {
                    (len - 1) as usize
                } else {
                    (i - 1) as usize
                },
            },
        )
    }
}

/// The task table's persistent state: the working set in its stored
/// (ascending) order, the active sort key and direction, the selected
/// column and row, and the column width trackers, which outlive any one
/// frame.
pub struct List {
    sorted_tasks: Vec<TaskRef>,
    sort_by: SortBy,
    selected: Option<usize>,
    selected_column: usize,
    descending: bool,
    id_width: Width,
    name_width: Width,
    target_width: Width,
}

/// Handles that still resolve.
pub open spec fn live_pred() -> spec_fn(TaskRef) -> bool {
    |t: TaskRef| t.live
}

/// The full effect of one key on the view state: left/right rotate the
/// selected column and re-resolve the sort key, the invert key flips the
/// direction while keeping the same task selected, down/up scroll with
/// wrap-around, and any other key changes nothing. No key touches the
/// working set or the column width trackers.
pub open spec fn key_input_post(pre: List, post: List, code: KeyCode) -> bool {
    &&& post.tasks_spec() == pre.tasks_spec()
    &&& post.id_width_spec() == pre.id_width_spec()
    &&& post.name_width_spec() == pre.name_width_spec()
    &&& post.target_width_spec() == pre.target_width_spec()
    &&& ((code == KeyCode::Left || code == KeyCode::Right) ==> {
        &&& post.selected_column_spec() == rotate_column_spec(
            pre.selected_column_spec(),
            code == KeyCode::Right,
        )
        &&& post.sort_by_spec() == (match SortBy::from_column_spec(post.selected_column_spec()) {
            Some(k) => k,
            None => pre.sort_by_spec(),
        })
        &&& post.selected_spec() == pre.selected_spec()
        &&& post.descending_spec() == pre.descending_spec()
    })
    &&& (code == KeyCode::Invert ==> {
        &&& post.descending_spec() == !pre.descending_spec()
        &&& post.selected_task_spec() == pre.selected_task_spec()
        &&& post.sort_by_spec() == pre.sort_by_spec()
        &&& post.selected_column_spec() == pre.selected_column_spec()
    })
    &&& (code == KeyCode::Down ==> {
        &&& post.selected_spec() == scroll_next_spec(pre.selected_spec(), pre.tasks_spec().len())
        &&& post.sort_by_spec() == pre.sort_by_spec()
        &&& post.selected_column_spec() == pre.selected_column_spec()
        &&& post.descending_spec() == pre.descending_spec()
    })
    &&& (code == KeyCode::Up ==> {
        &&& post.selected_spec() == scroll_prev_spec(pre.selected_spec(), pre.tasks_spec().len())
        &&& post.sort_by_spec() == pre.sort_by_spec()
        &&& post.selected_column_spec() == pre.selected_column_spec()
        &&& post.descending_spec() == pre.descending_spec()
    })
    &&& (code == KeyCode::Other ==> post == pre)
}

impl List {
    pub closed spec fn tasks_spec(&self) -> Seq<TaskRef> {
        self.sorted_tasks@
    }

    pub closed spec fn sort_by_spec(&self) -> SortBy {
        self.sort_by
    }

    pub closed spec fn selected_spec(&self) -> Option<usize> {
        self.selected
    }

    pub closed spec fn selected_column_spec(&self) -> usize {
        self.selected_column
    }

    pub closed spec fn descending_spec(&self) -> bool {
        self.descending
    }

    pub closed spec fn id_width_spec(&self) -> u16 {
        self.id_width.chars_spec()
    }

    pub closed spec fn name_width_spec(&self) -> u16 {
        self.name_width.chars_spec()
    }

    pub closed spec fn target_width_spec(&self) -> u16 {
        self.target_width.chars_spec()
    }

    /// The selected column is a real column, the selected row a real row,
    /// the active key agrees with the selected column where that column
    /// carries one, and every width tracker still covers its header
    /// label.
    pub open spec fn wf(&self) -> bool {
        &&& self.selected_column_spec() < COLUMN_COUNT
        &&& match self.selected_spec() {
            Some(i) => i < self.tasks_spec().len(),
            None => true,
        }
        &&& match SortBy::from_column_spec(self.selected_column_spec()) {
            Some(k) => self.sort_by_spec() == k,
            None => true,
        }
        &&& self.id_width_spec() >= 3
        &&& self.name_width_spec() >= 4
        &&& self.target_width_spec() >= 6
    }

    /// An empty view: no tasks, no row selected, the TID column selected,
    /// ascending order, and each width tracker seeded with its header
    /// label's length.
    pub fn new() -> (l: List)
        ensures
            l.wf(),
            l.tasks_spec().len() == 0,
            l.sort_by_spec() == SortBy::Tid,
            l.selected_spec() is None,
            l.selected_column_spec() == 0,
            !l.descending_spec(),
            l.id_width_spec() == 3,
            l.name_width_spec() == 4,
            l.target_width_spec() == 6,
    {
        List {
            sorted_tasks: Vec::new(),
            sort_by: SortBy::Tid,
            selected: None,
            selected_column: 0,
            descending: false,
            id_width: Width::new(3),
            name_width: Width::new(4),
            target_width: Width::new(6),
        }
    }

    /// Append newly observed handles to the working set; their order of
    /// arrival is irrelevant, since every render pass reorders.
    pub fn ingest(&mut self, new_tasks: Vec<TaskRef>)
        requires
            old(self).wf(),
        ensures
            final(self).wf(),
            final(self).tasks_spec() == old(self).tasks_spec() + new_tasks@,
            final(self).sort_by_spec() == old(self).sort_by_spec(),
            final(self).selected_spec() == old(self).selected_spec(),
            final(self).selected_column_spec() == old(self).selected_column_spec(),
            final(self).descending_spec() == old(self).descending_spec(),
            final(self).id_width_spec() == old(self).id_width_spec(),
            final(self).name_width_spec() == old(self).name_width_spec(),
            final(self).target_width_spec() == old(self).target_width_spec(),
    {
        let mut incoming = new_tasks;
        self.sorted_tasks.append(&mut incoming);
    }

    /// Re-sort the working set under the active key, with ties keeping
    /// their insertion order. The direction flag is applied when rendering
    /// and when resolving the selection, never to the stored order, so a
    /// repeated call with the same time changes nothing.
    pub fn reorder(&mut self, now_ms: u64)
        requires
            old(self).wf(),
        ensures
            final(self).wf(),
            final(self).tasks_spec() == sort_ordered(
                old(self).tasks_spec(),
                task_le_fn(old(self).sort_by_spec(), now_ms),
            ),
            final(self).sort_by_spec() == old(self).sort_by_spec(),
            final(self).selected_spec() == old(self).selected_spec(),
            final(self).selected_column_spec() == old(self).selected_column_spec(),
            final(self).descending_spec() == old(self).descending_spec(),
            final(self).id_width_spec() == old(self).id_width_spec(),
            final(self).name_width_spec() == old(self).name_width_spec(),
            final(self).target_width_spec() == old(self).target_width_spec(),
    {
        proof {
            lemma_sort_len(self.sorted_tasks@, task_le_fn(self.sort_by, now_ms));
        }
        sort_tasks(&mut self.sorted_tasks, self.sort_by, now_ms);
    }

    /// Move the column selection one step, wrapping over the header, and
    /// re-resolve the sort key; a column with no key (TARGET, FIELDS)
    /// leaves the current key unchanged.
    pub fn select_column(&mut self, to_right: bool)
        requires
            old(self).wf(),
        ensures
            final(self).wf(),
            final(self).selected_column_spec() == rotate_column_spec(
                old(self).selected_column_spec(),
                to_right,
            ),
            final(self).sort_by_spec() == match SortBy::from_column_spec(
                final(self).selected_column_spec(),
            ) {
                Some(k) => k,
                None => old(self).sort_by_spec(),
            },
            final(self).tasks_spec() == old(self).tasks_spec(),
            final(self).selected_spec() == old(self).selected_spec(),
            final(self).descending_spec() == old(self).descending_spec(),
            final(self).id_width_spec() == old(self).id_width_spec(),
            final(self).name_width_spec() == old(self).name_width_spec(),
            final(self).target_width_spec() == old(self).target_width_spec(),
    {
        if to_right {
            if self.selected_column + 1 == COLUMN_COUNT {
                self.selected_column = 0;
            } else {
                self.selected_column = self.selected_column + 1;
            }
        } else {
            if self.selected_column == 0 {
                self.selected_column = COLUMN_COUNT - 1;
            } else {
                self.selected_column = self.selected_column - 1;
            }
        }
        match SortBy::from_column(self.selected_column) {
            Some(k) => {
                self.sort_by = k;
            },
            None => {},
        }
    }

    /// The handle the selection rests on: the stored index is relative to
    /// the rendered order, which is the stored order reversed when the
    /// direction is descending.
    pub open spec fn selected_task_spec(&self) -> Option<TaskRef> {
        match self.selected_spec() {
            None => None,
            Some(i) => {
                if i < self.tasks_spec().len() {
                    let k = if self.descending_spec() {
                        self.tasks_spec().len() - 1 - i
                    } else {
                        i as int
                    };
                    Some(self.tasks_spec()[k])
                } else {
                    None
                }
            },
        }
    }

    /// Resolve the selection to a handle, mapping the rendered index back
    /// through the current direction.
    pub fn selected_task(&self) -> (r: Option<&TaskRef>)
        requires
            self.wf(),
        ensures
            match r {
                Some(t) => self.selected_task_spec() == Some(*t),
                None => self.selected_task_spec() is None,
            },
    {
        match self.selected {
            None => None,
            Some(i) => {
                let k = if self.descending {
                    self.sorted_tasks.len() - 1 - i
                } else {
                    i
                };
                Some(&self.sorted_tasks[k])
            },
        }
    }

    /// Invert the sort direction. The stored order is untouched; the
    /// rendered order flips, and the selected row index is re-derived so
    /// that the selection stays on the same task: reversing the direction
    /// never changes which handle is selected.
    pub fn toggle_sort_direction(&mut self)
        requires
            old(self).wf(),
        ensures
            final(self).wf(),
            final(self).descending_spec() == !old(self).descending_spec(),
            final(self).tasks_spec() == old(self).tasks_spec(),
            final(self).sort_by_spec() == old(self).sort_by_spec(),
            final(self).selected_column_spec() == old(self).selected_column_spec(),
            final(self).selected_task_spec() == old(self).selected_task_spec(),
            final(self).id_width_spec() == old(self).id_width_spec(),
            final(self).name_width_spec() == old(self).name_width_spec(),
            final(self).target_width_spec() == old(self).target_width_spec(),
    {
        self.descending = !self.descending;
        match self.selected {
            None => {},
            Some(i) => {
                self.selected = Some(self.sorted_tasks.len() - 1 - i);
            },
        }
    }

    /// Scroll the selection one row down, wrapping from the last rendered
    /// row to the first; with no rows the selection stays unset.
    pub fn scroll_next(&mut self)
        requires
            old(self).wf(),
        ensures
            final(self).wf(),
            final(self).selected_spec() == scroll_next_spec(
                old(self).selected_spec(),
                old(self).tasks_spec().len(),
            ),
            final(self).tasks_spec() == old(self).tasks_spec(),
            final(self).sort_by_spec() == old(self).sort_by_spec(),
            final(self).selected_column_spec() == old(self).selected_column_spec(),
            final(self).descending_spec() == old(self).descending_spec(),
            final(self).id_width_spec() == old(self).id_width_spec(),
            final(self).name_width_spec() == old(self).name_width_spec(),
            final(self).target_width_spec() == old(self).target_width_spec(),
    {
        if self.sorted_tasks.len() == 0 {
            self.selected = None;
        } else {
            let next = match self.selected {
                None => 0,
                Some(i) => if i + 1 >= self.sorted_tasks.len() {
                    0
                } else {
                    i + 1
                },
            };
            self.selected = Some(next);
        }
    }

    /// Scroll the selection one row up, wrapping from the first rendered
    /// row to the last; with no rows the selection stays unset.
    pub fn scroll_prev(&mut self)
        requires
            old(self).wf(),
        ensures
            final(self).wf(),
            final(self).selected_spec() == scroll_prev_spec(
                old(self).selected_spec(),
                old(self).tasks_spec().len(),
            ),
            final(self).tasks_spec() == old(self).tasks_spec(),
            final(self).sort_by_spec() == old(self).sort_by_spec(),
            final(self).selected_column_spec() == old(self).selected_column_spec(),
            final(self).descending_spec() == old(self).descending_spec(),
            final(self).id_width_spec() == old(self).id_width_spec(),
            final(self).name_width_spec() == old(self).name_width_spec(),
            final(self).target_width_spec() == old(self).target_width_spec(),
    {
        if self.sorted_tasks.len() == 0 {
            self.selected = None;
        } else {
            let prev = match self.selected {
                None => 0,
                Some(i) => if i == 0 {
                    self.sorted_tasks.len() - 1
                } else {
                    i - 1
                },
            };
            self.selected = Some(prev);
        }
    }

    /// Dispatch one key: left/right move the selected column (and the
    /// sort key with it), up/down scroll, the invert key flips the sort
    /// direction; every other key is ignored.
    pub fn key_input(&mut self, code: KeyCode)
        requires
            old(self).wf(),
        ensures
            final(self).wf(),
            key_input_post(*old(self), *final(self), code),
    {
        match code {
            KeyCode::Left => self.select_column(false),
            KeyCode::Right => self.select_column(true),
            KeyCode::Invert => self.toggle_sort_direction(),
            KeyCode::Down => self.scroll_next(),
            KeyCode::Up => self.scroll_prev(),
            KeyCode::Other => {},
        }
    }

    /// Dispatch one input event; only key events do anything.
    pub fn update_input(&mut self, event: Event)
        requires
            old(self).wf(),
        ensures
            final(self).wf(),
            event matches Event::Key(code) ==> key_input_post(*old(self), *final(self), code),
            event == Event::Other ==> *final(self) == *old(self),
    {
        match event {
            Event::Key(code) => self.key_input(code),
            Event::Other => {},
        }
    }
}

/// Character width of the STATE column (its header's length; the state
/// badges are no wider).
pub const STATE_LEN: u16 = 5;

/// Character width of each elapsed-time column.
pub const DUR_LEN: u16 = 10;

/// Character width of the POLLS column.
pub const POLLS_LEN: u16 = 5;

/// Decimal digits of `n`, the width its TID cell renders at.
pub open spec fn dec_digits_spec(n: u64) -> u16 {
    if n < 10 {
        1
    } else if n < 100 {
        2
    } else if n < 1000 {
        3
    } else if n < 10000 {
        4
    } else if n < 100000 {
        5
    } else if n < 1000000 {
        6
    } else if n < 10000000 {
        7
    } else if n < 100000000 {
        8
    } else if n < 1000000000 {
        9
    } else if n < 10000000000 {
        10
    } else if n < 100000000000 {
        11
    } else if n < 1000000000000 {
        12
    } else if n < 10000000000000 {
        13
    } else if n < 100000000000000 {
        14
    } else if n < 1000000000000000 {
        15
    } else if n < 10000000000000000 {
        16
    } else if n < 100000000000000000 {
        17
    } else if n < 1000000000000000000 {
        18
    } else if n < 10000000000000000000 {
        19
    } else {
        20
    }
}

pub fn dec_digits(n: u64) -> (d: u16)
    ensures
        d == dec_digits_spec(n),
{
    if n < 10 {
        1
    } else if n < 100 {
        2
    } else if n < 1000 {
        3
    } else if n < 10000 {
        4
    } else if n < 100000 {
        5
    } else if n < 1000000 {
        6
    } else if n < 10000000 {
        7
    } else if n < 100000000 {
        8
    } else if n < 1000000000 {
        9
    } else if n < 10000000000 {
        10
    } else if n < 100000000000 {
        11
    } else if n < 1000000000000 {
        12
    } else if n < 10000000000000 {
        13
    } else if n < 100000000000000 {
        14
    } else if n < 1000000000000000 {
        15
    } else if n < 10000000000000000 {
        16
    } else if n < 100000000000000000 {
        17
    } else if n < 1000000000000000000 {
        18
    } else if n < 10000000000000000000 {
        19
    } else {
        20
    }
}

/// A string length as a column width, saturating at the widest
/// representable column.
pub open spec fn clamp_len_spec(l: nat) -> u16 {
    if l > 65535 {
        65535
    } else {
        l as u16
    }
}

fn clamp_len(l: usize) -> (r: u16)
    ensures
        r == clamp_len_spec(l as nat),
{
    if l > 65535 {
        65535
    } else {
        l as u16
    }
}

/// Width a handle's TID cell asks for.
pub open spec fn id_len_fn() -> spec_fn(TaskRef) -> u16 {
    |t: TaskRef| dec_digits_spec(t.task.id)
}

/// Width a handle's NAME cell asks for.
pub open spec fn name_len_fn() -> spec_fn(TaskRef) -> u16 {
    |t: TaskRef| clamp_len_spec(t.task.name@.len())
}

/// Width a handle's TARGET cell asks for.
pub open spec fn target_len_fn() -> spec_fn(TaskRef) -> u16 {
    |t: TaskRef| clamp_len_spec(t.task.target@.len())
}

/// The cell widths that one render pass feeds a column's tracker: one
/// value per handle that still resolves, in rendered order.
pub open spec fn live_lens(s: Seq<TaskRef>, f: spec_fn(TaskRef) -> u16) -> Seq<u16> {
    s.filter(live_pred()).map_values(f)
}

/// Appending a handle appends its cell width when it resolves and nothing
/// when it does not.
proof fn lemma_live_lens_push(s: Seq<TaskRef>, x: TaskRef, f: spec_fn(TaskRef) -> u16)
    ensures
        live_lens(s.push(x), f) == if x.live {
            live_lens(s, f).push(f(x))
        } else {
            live_lens(s, f)
        },
{
    lemma_filter_push(s, x, live_pred());
    if x.live {
        assert(s.filter(live_pred()).push(x).map_values(f) =~= s.filter(live_pred()).map_values(
            f,
        ).push(f(x)));
    }
}

/// Filtering one more element keeps it exactly when the predicate holds.
proof fn lemma_filter_push<T>(s: Seq<T>, x: T, p: spec_fn(T) -> bool)
    ensures
        s.push(x).filter(p) == if p(x) {
            s.filter(p).push(x)
        } else {
            s.filter(p)
        },
{
    reveal(Seq::filter);
    assert(s.push(x).drop_last() =~= s);
    assert(s.push(x).last() == x);
}

/// Where the row selection lands when the row count changes: kept while
/// still in range, moved to the last row when it fell off the end, unset
/// when no rows are left.
pub open spec fn clamped_selection_spec(sel: Option<usize>, len: nat) -> Option<usize> {
    match sel {
        None => None,
        Some(i) => if i < len {
            Some(i)
        } else if len > 0 {
            Some((len - 1) as usize)
        } else {
            None
        },
    }
}

/// The widths of one rendered frame's columns, in characters. The first
/// eight are fixed; `fields` absorbs every character the frame has left.
pub struct TableLayout {
    pub id: u16,
    pub state: u16,
    pub name: u16,
    pub dur: u16,
    pub polls: u16,
    pub target: u16,
    pub fields: u16,
}

impl List {
    /// Drop every handle that no longer resolves; called once per render
    /// pass, after the frame using them has been drawn, so a task that
    /// disappears mid-render is still shown one last time. The row
    /// selection is clamped to the remaining rows.
    pub fn prune(&mut self)
        requires
            old(self).wf(),
        ensures
            final(self).wf(),
            final(self).tasks_spec() == old(self).tasks_spec().filter(live_pred()),
            final(self).selected_spec() == clamped_selection_spec(
                old(self).selected_spec(),
                final(self).tasks_spec().len(),
            ),
            final(self).sort_by_spec() == old(self).sort_by_spec(),
            final(self).selected_column_spec() == old(self).selected_column_spec(),
            final(self).descending_spec() == old(self).descending_spec(),
            final(self).id_width_spec() == old(self).id_width_spec(),
            final(self).name_width_spec() == old(self).name_width_spec(),
            final(self).target_width_spec() == old(self).target_width_spec(),
    {
        let ghost orig = self.sorted_tasks@;
        let mut kept: Vec<TaskRef> = Vec::new();
        proof {
            reveal(Seq::filter);
            assert(orig.take(0).filter(live_pred()) =~= kept@);
        }
        while self.sorted_tasks.len() > 0
            invariant
                self.sorted_tasks@.len() <= orig.len(),
                self.sorted_tasks@ == orig.skip(orig.len() - self.sorted_tasks@.len()),
                kept@ == orig.take(orig.len() - self.sorted_tasks@.len()).filter(live_pred()),
                self.sort_by_spec() == old(self).sort_by_spec(),
                self.selected_spec() == old(self).selected_spec(),
                self.selected_column_spec() == old(self).selected_column_spec(),
                self.descending_spec() == old(self).descending_spec(),
                self.id_width_spec() == old(self).id_width_spec(),
                self.name_width_spec() == old(self).name_width_spec(),
                self.target_width_spec() == old(self).target_width_spec(),
                old(self).wf(),
            decreases self.sorted_tasks@.len(),
        {
            let ghost p = orig.len() - self.sorted_tasks@.len();
            proof {
                assert(self.sorted_tasks@[0] == orig.skip(p)[0]);
                assert(orig.skip(p)[0] == orig[p]);
            }
            let t = self.sorted_tasks.remove(0);
            proof {
                assert(t == orig[p]);
                assert(self.sorted_tasks@ =~= orig.skip(p + 1));
                assert(orig.take(p + 1) =~= orig.take(p).push(orig[p]));
                lemma_filter_push(orig.take(p), t, live_pred());
            }
            if t.live {
                kept.push(t);
            }
        }
        proof {
            assert(orig.take(orig.len() as int) =~= orig);
        }
        let new_len = kept.len();
        self.sorted_tasks = kept;
        match self.selected {
            None => {},
            Some(i) => {
                if i < new_len {
                } else if new_len > 0 {
                    self.selected = Some(new_len - 1);
                } else {
                    self.selected = None;
                }
            },
        }
    }

    /// One render pass: re-sort the working set for `now_ms`, grow each
    /// tracked column to cover every value this frame renders, hand every
    /// leftover character of the frame to the fields column, and finally
    /// prune the handles that no longer resolve.
    pub fn render_pass(&mut self, now_ms: u64, frame_width: u16) -> (lay: TableLayout)
        requires
            old(self).wf(),
        ensures
            final(self).wf(),
            ({
                let sorted = sort_ordered(
                    old(self).tasks_spec(),
                    task_le_fn(old(self).sort_by_spec(), now_ms),
                );
                &&& final(self).tasks_spec() == sorted.filter(live_pred())
                &&& final(self).id_width_spec() == tracked_width(
                    old(self).id_width_spec(),
                    live_lens(sorted, id_len_fn()),
                )
                &&& final(self).name_width_spec() == tracked_width(
                    old(self).name_width_spec(),
                    live_lens(sorted, name_len_fn()),
                )
                &&& final(self).target_width_spec() == tracked_width(
                    old(self).target_width_spec(),
                    live_lens(sorted, target_len_fn()),
                )
                &&& final(self).selected_spec() == clamped_selection_spec(
                    old(self).selected_spec(),
                    final(self).tasks_spec().len(),
                )
            }),
            lay.id == final(self).id_width_spec(),
            lay.state == STATE_LEN,
            lay.name == final(self).name_width_spec(),
            lay.dur == DUR_LEN,
            lay.polls == POLLS_LEN,
            lay.target == final(self).target_width_spec(),
            ({
                let fixed = lay.id + STATE_LEN + lay.name + 3 * DUR_LEN + POLLS_LEN + lay.target;
                &&& fixed <= frame_width ==> lay.fields == frame_width - fixed
                &&& fixed > frame_width ==> lay.fields == 0
            }),
            final(self).sort_by_spec() == old(self).sort_by_spec(),
            final(self).selected_column_spec() == old(self).selected_column_spec(),
            final(self).descending_spec() == old(self).descending_spec(),
    {
        self.reorder(now_ms);
        let ghost sorted = self.sorted_tasks@;
        let ghost id0 = self.id_width_spec();
        let ghost name0 = self.name_width_spec();
        let ghost target0 = self.target_width_spec();
        proof {
            reveal(Seq::filter);
            assert(live_lens(sorted.take(0), id_len_fn()) =~= Seq::<u16>::empty());
            assert(live_lens(sorted.take(0), name_len_fn()) =~= Seq::<u16>::empty());
            assert(live_lens(sorted.take(0), target_len_fn()) =~= Seq::<u16>::empty());
        }
        let n = self.sorted_tasks.len();
        let mut idx: usize = 0;
        while idx < n
            invariant
                idx <= n,
                n == sorted.len(),
                self.sorted_tasks@ == sorted,
                self.wf(),
                self.id_width_spec() == tracked_width(id0, live_lens(sorted.take(idx as int), id_len_fn())),
                self.name_width_spec() == tracked_width(
                    name0,
                    live_lens(sorted.take(idx as int), name_len_fn()),
                ),
                self.target_width_spec() == tracked_width(
                    target0,
                    live_lens(sorted.take(idx as int), target_len_fn()),
                ),
                id0 >= 3,
                name0 >= 4,
                target0 >= 6,
                self.sort_by_spec() == old(self).sort_by_spec(),
                self.selected_spec() == old(self).selected_spec(),
                self.selected_column_spec() == old(self).selected_column_spec(),
                self.descending_spec() == old(self).descending_spec(),
            decreases n - idx,
        {
            let live = self.sorted_tasks[idx].live;
            let ghost t = sorted[idx as int];
            if live {
                let d = dec_digits(self.sorted_tasks[idx].task.id);
                self.id_width.update_len(d);
                let nl = clamp_len(self.sorted_tasks[idx].task.name.as_str().unicode_len());
                self.name_width.update_len(nl);
                let tl = clamp_len(self.sorted_tasks[idx].task.target.as_str().unicode_len());
                self.target_width.update_len(tl);
            }
            proof {
                assert(sorted.take(idx + 1) =~= sorted.take(idx as int).push(t));
                lemma_live_lens_push(sorted.take(idx as int), t, id_len_fn());
                lemma_live_lens_push(sorted.take(idx as int), t, name_len_fn());
                lemma_live_lens_push(sorted.take(idx as int), t, target_len_fn());
                if t.live {
                    crate::layout::lemma_tracked_width_push(
                        id0,
                        live_lens(sorted.take(idx as int), id_len_fn()),
                        id_len_fn()(t),
                    );
                    crate::layout::lemma_tracked_width_push(
                        name0,
                        live_lens(sorted.take(idx as int), name_len_fn()),
                        name_len_fn()(t),
                    );
                    crate::layout::lemma_tracked_width_push(
                        target0,
                        live_lens(sorted.take(idx as int), target_len_fn()),
                        target_len_fn()(t),
                    );
                }
            }
            idx = idx + 1;
        }
        proof {
            assert(sorted.take(n as int) =~= sorted);
        }
        let idw = self.id_width.chars();
        let nw = self.name_width.chars();
        let tw = self.target_width.chars();
        let fixed: u32 = idw as u32 + STATE_LEN as u32 + nw as u32 + 3 * (DUR_LEN as u32)
            + POLLS_LEN as u32 + tw as u32;
        let fw = fields_width(frame_width, fixed);
        self.prune();
        TableLayout {
            id: idw,
            state: STATE_LEN,
            name: nw,
            dur: DUR_LEN,
            polls: POLLS_LEN,
            target: tw,
            fields: fw,
        }
    }
}

/// A reorder's result is a total order over the working set: sorted under
/// the active comparator, and a permutation of what was there — nothing
/// is added or dropped by sorting.
pub proof fn lemma_reorder_sorted(s: Seq<TaskRef>, key: SortBy, now_ms: u64)
    ensures
        sorted_by(sort_ordered(s, task_le_fn(key, now_ms)), task_le_fn(key, now_ms)),
        sort_ordered(s, task_le_fn(key, now_ms)).to_multiset() == s.to_multiset(),
{
    lemma_task_le_total_trans(key, now_ms);
    lemma_sort_ordered_sorted(s, task_le_fn(key, now_ms));
    crate::sort::lemma_sort_ordered_multiset(s, task_le_fn(key, now_ms));
}

/// The reorder is stable: two handles the active comparator ties stay in
/// the relative order they were ingested in (stated for a working set of
/// pairwise-distinct handles, where each has one position).
pub proof fn lemma_reorder_stable(s: Seq<TaskRef>, key: SortBy, now_ms: u64, i: int, j: int)
    requires
        0 <= i < j < s.len(),
        task_le(key, now_ms, s[i], s[j]),
        task_le(key, now_ms, s[j], s[i]),
        forall|p: int, q: int| 0 <= p < q < s.len() ==> s[p] != s[q],
    ensures
        exists|pi: int, pj: int|
            0 <= pi < pj < sort_ordered(s, task_le_fn(key, now_ms)).len() && sort_ordered(
                s,
                task_le_fn(key, now_ms),
            )[pi] == s[i] && sort_ordered(s, task_le_fn(key, now_ms))[pj] == s[j],
{
    crate::sort::lemma_sort_ordered_stable(s, task_le_fn(key, now_ms), i, j);
}

/// Reordering is idempotent: re-sorting an already reordered working set
/// under the same key and the same time reference reproduces the same
/// order, element for element.
pub proof fn lemma_reorder_idempotent(s: Seq<TaskRef>, key: SortBy, now_ms: u64)
    ensures
        sort_ordered(sort_ordered(s, task_le_fn(key, now_ms)), task_le_fn(key, now_ms))
            == sort_ordered(s, task_le_fn(key, now_ms)),
{
    lemma_task_le_total_trans(key, now_ms);
    crate::sort::lemma_sort_ordered_idempotent(s, task_le_fn(key, now_ms));
}

impl List {
    pub fn len(&self) -> (n: usize)
        ensures
            n == self.tasks_spec().len(),
    {
        self.sorted_tasks.len()
    }

    /// The handle at one stored (ascending-order) index.
    pub fn task_at(&self, i: usize) -> (r: &TaskRef)
        requires
            i < self.tasks_spec().len(),
        ensures
            *r == self.tasks_spec()[i as int],
    {
        &self.sorted_tasks[i]
    }

    pub fn selected_index(&self) -> (r: Option<usize>)
        ensures
            r == self.selected_spec(),
    {
        self.selected
    }

    pub fn sort_key(&self) -> (r: SortBy)
        ensures
            r == self.sort_by_spec(),
    {
        self.sort_by
    }

    pub fn selected_column(&self) -> (r: usize)
        ensures
            r == self.selected_column_spec(),
    {
        self.selected_column
    }

    pub fn is_descending(&self) -> (r: bool)
        ensures
            r == self.descending_spec(),
    {
        self.descending
    }
}

/// The header label of each column.
pub fn header_label(col: usize) -> (s: &'static str)
    requires
        col < COLUMN_COUNT,
    ensures
        col == 0 ==> s@ == "TID"@,
        col == 1 ==> s@ == "STATE"@,
        col == 2 ==> s@ == "NAME"@,
        col == 3 ==> s@ == "TOTAL"@,
        col == 4 ==> s@ == "BUSY"@,
        col == 5 ==> s@ == "IDLE"@,
        col == 6 ==> s@ == "POLLS"@,
        col == 7 ==> s@ == "TARGET"@,
        col == 8 ==> s@ == "FIELDS"@,
    {
    if col == 0 {
        "TID"
    } else if col == 1 {
        "STATE"
    } else if col == 2 {
        "NAME"
    } else if col == 3 {
        "TOTAL"
    } else if col == 4 {
        "BUSY"
    } else if col == 5 {
        "IDLE"
    } else if col == 6 {
        "POLLS"
    } else if col == 7 {
        "TARGET"
    } else {
        "FIELDS"
    }
}

} // verus!
