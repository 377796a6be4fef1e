use wlm::batch::{
    applied_updates, settle, BatchAction, BatchApplier, BatchEvent, BatchHandle, BatchReport,
    Bounds,
};
use wlm::error::Error;
use wlm::layout::WindowBuilder;
use wlm::platform::win::{Rectangle, Win32Window};
use wlm::resolved::{MonitorHandle, ResolvedUpdate, StateFlags, WindowHandle};
use wlm::{Dimensions, Point};

fn update(handle: u64, x: i32, y: i32, width: i32, height: i32) -> ResolvedUpdate {
    ResolvedUpdate {
        handle: WindowHandle(handle),
        x,
        y,
        width,
        height,
        skip_move: false,
        skip_resize: false,
        state: StateFlags::none(),
    }
}

fn bounds(x: i32, y: i32, width: i32, height: i32) -> Bounds {
    Bounds { origin: Point::new(x, y), size: Dimensions::new(width, height) }
}

/// Drives a pass with the given answers and collects what was asked.
fn drive(updates: &Vec<ResolvedUpdate>, events: &[BatchEvent]) -> (BatchApplier, Vec<BatchAction>) {
    let mut applier = BatchApplier::new(updates.clone());
    let mut actions = Vec::new();
    for event in events {
        let (next, action) = applier.step(*event);
        applier = next;
        actions.push(action);
    }
    (applier, actions)
}

#[test]
fn a_pass_stages_every_update_and_commits_once() {
    let updates = vec![update(1, 0, 0, 10, 10), update(2, 5, 5, 20, 20), update(3, 9, 9, 30, 30)];
    let (applier, actions) = drive(
        &updates,
        &[
            BatchEvent::Start,
            BatchEvent::Opened(BatchHandle(100)),
            BatchEvent::Staged(BatchHandle(101)),
            BatchEvent::Staged(BatchHandle(102)),
            BatchEvent::Staged(BatchHandle(103)),
            BatchEvent::Committed,
        ],
    );
    assert_eq!(
        vec![
            BatchAction::Begin { capacity: 1 },
            BatchAction::Stage { batch: BatchHandle(100), update: updates[0] },
            BatchAction::Stage { batch: BatchHandle(101), update: updates[1] },
            BatchAction::Stage { batch: BatchHandle(102), update: updates[2] },
            BatchAction::Commit { batch: BatchHandle(103) },
            BatchAction::Finish,
        ],
        actions
    );
    let report = applier.report().unwrap();
    assert_eq!(BatchReport { outcome: Ok(()), failed: vec![] }, report);
    assert_eq!(updates, applied_updates(&updates, &report));
}

#[test]
fn a_refused_staging_is_noted_and_the_rest_goes_on() {
    let updates = vec![update(1, 0, 0, 10, 10), update(2, 5, 5, 20, 20), update(3, 9, 9, 30, 30)];
    let (applier, actions) = drive(
        &updates,
        &[
            BatchEvent::Start,
            BatchEvent::Opened(BatchHandle(100)),
            BatchEvent::Staged(BatchHandle(101)),
            BatchEvent::StageFailed,
            BatchEvent::Staged(BatchHandle(102)),
            BatchEvent::Committed,
        ],
    );
    // The batch keeps the name it last got.
    assert_eq!(BatchAction::Stage { batch: BatchHandle(101), update: updates[2] }, actions[3]);
    assert_eq!(BatchAction::Commit { batch: BatchHandle(102) }, actions[4]);
    let report = applier.report().unwrap();
    assert_eq!(Ok(()), report.outcome);
    assert_eq!(vec![1], report.failed);
    assert_eq!(vec![updates[0], updates[2]], applied_updates(&updates, &report));
}

#[test]
fn a_refused_commit_leaves_every_window_where_it_was() {
    let updates = vec![update(1, 0, 0, 10, 10), update(2, 5, 5, 20, 20)];
    let (applier, actions) = drive(
        &updates,
        &[
            BatchEvent::Start,
            BatchEvent::Opened(BatchHandle(100)),
            BatchEvent::Staged(BatchHandle(100)),
            BatchEvent::Staged(BatchHandle(100)),
            BatchEvent::CommitFailed(5),
        ],
    );
    assert_eq!(Some(&BatchAction::Finish), actions.last());
    let report = applier.report().unwrap();
    assert_eq!(Err(Error::CommitFailure(5)), report.outcome);
    let applied = applied_updates(&updates, &report);
    assert!(applied.is_empty());
    let before = vec![(1u64, bounds(300, 200, 800, 600)), (2u64, bounds(40, 40, 640, 480))];
    for (handle, was) in before {
        assert_eq!(was, settle(WindowHandle(handle), was, &applied));
    }
}

#[test]
fn a_batch_that_does_not_open_ends_the_pass() {
    let updates = vec![update(1, 0, 0, 10, 10)];
    let (applier, actions) = drive(&updates, &[BatchEvent::Start, BatchEvent::OpenFailed(8)]);
    assert_eq!(vec![BatchAction::Begin { capacity: 1 }, BatchAction::Finish], actions);
    let report = applier.report().unwrap();
    assert_eq!(Err(Error::CommitFailure(8)), report.outcome);
    assert!(applied_updates(&updates, &report).is_empty());
}

#[test]
fn a_pass_without_updates_commits_an_empty_batch() {
    let (applier, actions) = drive(
        &Vec::new(),
        &[BatchEvent::Start, BatchEvent::Opened(BatchHandle(7)), BatchEvent::Committed],
    );
    assert_eq!(
        vec![
            BatchAction::Begin { capacity: 1 },
            BatchAction::Commit { batch: BatchHandle(7) },
            BatchAction::Finish
        ],
        actions
    );
    assert_eq!(Ok(()), applier.report().unwrap().outcome);
}

#[test]
fn events_that_do_not_fit_are_ignored() {
    let updates = vec![update(1, 0, 0, 10, 10)];
    let (applier, actions) = drive(
        &updates,
        &[
            BatchEvent::Committed,
            BatchEvent::Staged(BatchHandle(1)),
            BatchEvent::Start,
            BatchEvent::Start,
            BatchEvent::Committed,
            BatchEvent::Opened(BatchHandle(3)),
            BatchEvent::Opened(BatchHandle(4)),
        ],
    );
    assert_eq!(
        vec![
            BatchAction::Ignore,
            BatchAction::Ignore,
            BatchAction::Begin { capacity: 1 },
            BatchAction::Ignore,
            BatchAction::Ignore,
            BatchAction::Stage { batch: BatchHandle(3), update: updates[0] },
            BatchAction::Ignore,
        ],
        actions
    );
    assert!(applier.report().is_none());
    let (applier, last) = applier.step(BatchEvent::Staged(BatchHandle(3)));
    assert_eq!(BatchAction::Commit { batch: BatchHandle(3) }, last);
    let (applier, _) = applier.step(BatchEvent::Committed);
    let (applier, after) = applier.step(BatchEvent::Start);
    assert_eq!(BatchAction::Ignore, after);
    assert_eq!(Ok(()), applier.report().unwrap().outcome);
}

#[test]
fn the_last_update_of_a_window_decides() {
    let mut keep_place = update(1, 0, 0, 111, 222);
    keep_place.skip_move = true;
    let mut keep_size = update(1, 7, 8, 0, 0);
    keep_size.skip_resize = true;
    let applied = vec![update(1, 1, 1, 10, 10), update(2, 50, 50, 5, 5), keep_place, keep_size];
    assert_eq!(bounds(7, 8, 111, 222), settle(WindowHandle(1), bounds(9, 9, 9, 9), &applied));
    assert_eq!(bounds(50, 50, 5, 5), settle(WindowHandle(2), bounds(9, 9, 9, 9), &applied));
    assert_eq!(bounds(9, 9, 9, 9), settle(WindowHandle(3), bounds(9, 9, 9, 9), &applied));
}

#[test]
fn an_entry_without_position_keeps_the_window_in_place_pass_after_pass() {
    let entry = WindowBuilder::default()
        .title(Some("Notes".to_string()))
        .w(Some("50%".to_string()))
        .build()
        .unwrap();
    let area = Rectangle::new(0, 0, 1920, 1080);
    let mut rect = Rectangle::new(300, 200, 800, 600);
    let mut seen = Vec::new();
    for _ in 0..2 {
        let mut window = Win32Window::new(
            WindowHandle(1),
            MonitorHandle(1),
            "Notes".to_string(),
            "notes.exe".to_string(),
            rect,
        );
        let update = window.layout(&entry, &area);
        assert!(update.skip_move);
        assert_eq!((300, 200), (update.x, update.y));
        let after = settle(WindowHandle(1), bounds(300, 200, rect.width(), rect.height()), &vec![update]);
        assert_eq!(Point::new(300, 200), after.origin);
        rect = Rectangle::new(after.origin.x, after.origin.y, after.size.width, after.size.height);
        seen.push(update);
    }
    assert_eq!((seen[0].x, seen[0].y), (seen[1].x, seen[1].y));
    assert_eq!(seen[0], seen[1]);
}
