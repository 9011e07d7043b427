use console_core::layout::{fields_width, Width};
use console_core::tasks::{
    header_label, Event, KeyCode, List, SortBy, Task, TaskRef, TaskState, COLUMN_COUNT,
};

fn task(id: u64, total_ms: u64) -> Task {
    Task {
        id,
        state: TaskState::Idle,
        name: format!("task-{}", id),
        target: String::from("app"),
        created_at_ms: 0,
        completed_at_ms: Some(total_ms),
        busy_ms: 0,
        polls: id,
    }
}

fn named(id: u64, name: &str) -> TaskRef {
    let mut t = task(id, id);
    t.name = String::from(name);
    TaskRef::new(t)
}

fn ingest_totals(l: &mut List, totals: &[u64]) {
    let mut refs = Vec::new();
    let mut id = 1;
    for &t in totals {
        refs.push(TaskRef::new(task(id, t)));
        id += 1;
    }
    l.ingest(refs);
}

fn select_total_column(l: &mut List) {
    // TID -> STATE -> NAME -> TOTAL
    l.key_input(KeyCode::Right);
    l.key_input(KeyCode::Right);
    l.key_input(KeyCode::Right);
    assert_eq!(l.sort_key(), SortBy::Total);
}

fn stored_ids(l: &List) -> Vec<u64> {
    let mut ids = Vec::new();
    for i in 0..l.len() {
        ids.push(l.task_at(i).id);
    }
    ids
}

#[test]
fn five_tasks_sort_by_total_and_selection_survives_flip() {
    let mut l = List::new();
    ingest_totals(&mut l, &[1, 5, 3, 2, 4]);
    select_total_column(&mut l);
    l.reorder(100);
    // Ascending by total time: totals [1, 2, 3, 4, 5].
    assert_eq!(stored_ids(&l), vec![1, 4, 3, 5, 2]);
    // Select the second rendered row (ascending): the task with total 2.
    l.key_input(KeyCode::Down);
    l.key_input(KeyCode::Down);
    assert_eq!(l.selected_index(), Some(1));
    assert_eq!(l.selected_task().unwrap().id, 4);
    // Inverting the direction flips the rendered order but keeps the
    // same task selected.
    l.key_input(KeyCode::Invert);
    assert!(l.is_descending());
    assert_eq!(l.selected_index(), Some(3));
    assert_eq!(l.selected_task().unwrap().id, 4);
    // The stored order itself is untouched by the flip.
    assert_eq!(stored_ids(&l), vec![1, 4, 3, 5, 2]);
}

#[test]
fn reorder_twice_gives_the_same_order() {
    let mut l = List::new();
    ingest_totals(&mut l, &[9, 2, 7, 2, 1]);
    select_total_column(&mut l);
    l.reorder(50);
    let once = stored_ids(&l);
    l.reorder(50);
    assert_eq!(stored_ids(&l), once);
}

#[test]
fn ties_keep_insertion_order() {
    let mut l = List::new();
    let refs = vec![TaskRef::new(task(7, 3)), TaskRef::new(task(3, 3)), TaskRef::new(task(5, 1))];
    l.ingest(refs);
    select_total_column(&mut l);
    l.reorder(10);
    // Totals [3, 3, 1]: the total-1 task first, then the equal pair in
    // the order they arrived.
    assert_eq!(stored_ids(&l), vec![5, 7, 3]);
}

#[test]
fn sort_by_name_is_lexicographic_and_dead_handles_sort_first() {
    let mut l = List::new();
    let mut dead = named(9, "zzz");
    dead.invalidate();
    l.ingest(vec![named(1, "b"), named(2, "a"), named(3, "ab"), dead]);
    l.key_input(KeyCode::Right);
    l.key_input(KeyCode::Right);
    assert_eq!(l.sort_key(), SortBy::Name);
    l.reorder(0);
    assert_eq!(stored_ids(&l), vec![9, 2, 3, 1]);
}

#[test]
fn select_column_wraps_both_ways() {
    let mut l = List::new();
    assert_eq!(l.selected_column(), 0);
    for _ in 0..COLUMN_COUNT {
        l.key_input(KeyCode::Right);
    }
    assert_eq!(l.selected_column(), 0);
    for _ in 0..COLUMN_COUNT {
        l.key_input(KeyCode::Left);
    }
    assert_eq!(l.selected_column(), 0);
    l.key_input(KeyCode::Left);
    assert_eq!(l.selected_column(), COLUMN_COUNT - 1);
}

#[test]
fn keyless_columns_leave_the_sort_key_unchanged() {
    let mut l = List::new();
    for _ in 0..6 {
        l.key_input(KeyCode::Right);
    }
    assert_eq!(l.sort_key(), SortBy::Polls);
    // TARGET and FIELDS carry no sort key.
    l.key_input(KeyCode::Right);
    assert_eq!(l.selected_column(), 7);
    assert_eq!(l.sort_key(), SortBy::Polls);
    l.key_input(KeyCode::Right);
    assert_eq!(l.selected_column(), 8);
    assert_eq!(l.sort_key(), SortBy::Polls);
}

#[test]
fn scrolling_an_empty_table_leaves_selection_unset() {
    let mut l = List::new();
    l.key_input(KeyCode::Down);
    assert_eq!(l.selected_index(), None);
    l.key_input(KeyCode::Up);
    assert_eq!(l.selected_index(), None);
    assert!(l.selected_task().is_none());
}

#[test]
fn scrolling_wraps_at_both_ends() {
    let mut l = List::new();
    ingest_totals(&mut l, &[1, 2, 3]);
    l.key_input(KeyCode::Down);
    assert_eq!(l.selected_index(), Some(0));
    l.key_input(KeyCode::Down);
    l.key_input(KeyCode::Down);
    assert_eq!(l.selected_index(), Some(2));
    l.key_input(KeyCode::Down);
    assert_eq!(l.selected_index(), Some(0));
    l.key_input(KeyCode::Up);
    assert_eq!(l.selected_index(), Some(2));
}

#[test]
fn width_tracker_never_shrinks_and_covers_the_header() {
    let mut w = Width::new(3);
    assert_eq!(w.chars(), 3);
    w.update_len(10);
    assert_eq!(w.chars(), 10);
    w.update_len(2);
    assert_eq!(w.chars(), 10);
    w.update_len(10);
    assert_eq!(w.chars(), 10);
}

#[test]
fn fields_width_takes_the_leftover_and_clamps_at_zero() {
    assert_eq!(fields_width(80, 30), 50);
    assert_eq!(fields_width(30, 30), 0);
    assert_eq!(fields_width(10, 30), 0);
}

#[test]
fn render_pass_computes_the_exact_layout() {
    let mut l = List::new();
    let mut t = task(12345, 7);
    t.name = String::from("abcdef");
    t.target = String::from("x");
    l.ingest(vec![TaskRef::new(t)]);
    let lay = l.render_pass(100, 80);
    // id: 5 digits; name: 6 chars; target stays at its header width 6.
    assert_eq!(lay.id, 5);
    assert_eq!(lay.state, 5);
    assert_eq!(lay.name, 6);
    assert_eq!(lay.dur, 10);
    assert_eq!(lay.polls, 5);
    assert_eq!(lay.target, 6);
    let fixed: u16 = 5 + 5 + 6 + 3 * 10 + 5 + 6;
    assert_eq!(lay.fields, 80 - fixed);
    // A frame narrower than the fixed columns leaves zero for fields.
    let lay = l.render_pass(100, 20);
    assert_eq!(lay.fields, 0);
}

#[test]
fn column_widths_persist_across_frames() {
    let mut l = List::new();
    l.ingest(vec![named(1, "a-rather-long-name")]);
    let lay = l.render_pass(10, 200);
    assert_eq!(lay.name, 18);
    let mut l2 = l;
    l2.ingest(vec![named(2, "x")]);
    // The first task is still live and the tracker never shrinks anyway.
    let lay = l2.render_pass(20, 200);
    assert_eq!(lay.name, 18);
}

#[test]
fn dead_handles_do_not_widen_columns_and_are_pruned_after_the_pass() {
    let mut l = List::new();
    let mut dead = named(1234567, "extremely-long-dead-task-name");
    dead.invalidate();
    l.ingest(vec![named(1, "ab"), dead]);
    assert_eq!(l.len(), 2);
    let lay = l.render_pass(0, 200);
    assert_eq!(lay.id, 3);
    assert_eq!(lay.name, 4);
    // The dead handle was shown its last frame and is gone now.
    assert_eq!(l.len(), 1);
    assert_eq!(l.task_at(0).id, 1);
}

#[test]
fn pruning_clamps_the_selection() {
    let mut l = List::new();
    let mut dead1 = named(8, "d1");
    dead1.invalidate();
    let mut dead2 = named(9, "d2");
    dead2.invalidate();
    l.ingest(vec![named(1, "a"), dead1, dead2]);
    l.key_input(KeyCode::Down);
    l.key_input(KeyCode::Down);
    l.key_input(KeyCode::Down);
    assert_eq!(l.selected_index(), Some(2));
    l.render_pass(0, 100);
    assert_eq!(l.len(), 1);
    assert_eq!(l.selected_index(), Some(0));
}

#[test]
fn task_time_arithmetic() {
    let t = Task {
        id: 1,
        state: TaskState::Running,
        name: String::new(),
        target: String::new(),
        created_at_ms: 10,
        completed_at_ms: None,
        busy_ms: 25,
        polls: 4,
    };
    assert_eq!(t.total_ms(50), 40);
    assert_eq!(t.busy_ms_at(50), 25);
    assert_eq!(t.idle_ms(50), 15);
    // Busy time never exceeds the elapsed lifetime.
    assert_eq!(t.busy_ms_at(20), 10);
    assert_eq!(t.idle_ms(20), 0);
    // A completed task stops accumulating.
    let done = Task { completed_at_ms: Some(30), name: String::new(), target: String::new(), ..t };
    assert_eq!(done.total_ms(50), 20);
    // A stale clock never underflows.
    assert_eq!(t.total_ms(5), 0);
}

#[test]
fn handles_resolve_until_invalidated() {
    let mut r = TaskRef::new(task(42, 1));
    assert_eq!(r.upgrade().unwrap().id, 42);
    r.invalidate();
    assert!(r.upgrade().is_none());
    assert_eq!(r.id, 42);
}

#[test]
fn header_labels_match_the_table() {
    let labels: Vec<&str> = (0..COLUMN_COUNT).map(header_label).collect();
    assert_eq!(
        labels,
        vec!["TID", "STATE", "NAME", "TOTAL", "BUSY", "IDLE", "POLLS", "TARGET", "FIELDS"]
    );
}

#[test]
fn other_events_and_unmapped_keys_change_nothing() {
    let mut l = List::new();
    ingest_totals(&mut l, &[1]);
    l.update_input(Event::Other);
    l.update_input(Event::Key(KeyCode::Other));
    assert_eq!(l.selected_column(), 0);
    assert_eq!(l.selected_index(), None);
    assert_eq!(l.sort_key(), SortBy::Tid);
    assert!(!l.is_descending());
}

#[test]
fn every_sort_key_maps_to_its_column_and_back() {
    let keys = [
        SortBy::Tid,
        SortBy::State,
        SortBy::Name,
        SortBy::Total,
        SortBy::Busy,
        SortBy::Idle,
        SortBy::Polls,
    ];
    for (col, &key) in keys.iter().enumerate() {
        assert_eq!(SortBy::from_column(col), Some(key));
    }
    assert_eq!(SortBy::from_column(7), None);
    assert_eq!(SortBy::from_column(8), None);
    assert_eq!(SortBy::from_column(100), None);
}

#[test]
fn name_ordering_is_by_code_point() {
    // 'z' (U+007A) comes before 'e with acute' (U+00E9).
    let mut l = List::new();
    l.ingest(vec![named(1, "\u{e9}"), named(2, "z")]);
    l.key_input(KeyCode::Right);
    l.key_input(KeyCode::Right);
    l.reorder(0);
    assert_eq!(stored_ids(&l), vec![2, 1]);
}

#[test]
fn widths_count_characters_not_bytes() {
    let mut l = List::new();
    l.ingest(vec![named(1, "h\u{e9}llo")]);
    let lay = l.render_pass(0, 100);
    assert_eq!(lay.name, 5);
}
