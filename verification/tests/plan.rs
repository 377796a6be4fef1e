use wlm::error::Error;
use wlm::layout::{Layout, LayoutBuilder, ScreenBuilder, Window, WindowBuilder};
use wlm::batch::BatchReport;
use wlm::plan::{
    check_snapshot, entries, find_work_area, is_invalid, issues, plan_entries, plan_layout, Issue,
    Plan,
};
use wlm::platform::win::{Rect, Rectangle, Win32Monitor, Win32Window};
use wlm::resolved::{MonitorHandle, WindowHandle};

fn monitor(handle: u64, left: i32, top: i32, width: i32, height: i32) -> Win32Monitor {
    Win32Monitor {
        hmonitor: MonitorHandle(handle),
        name: format!("DISPLAY{}", handle),
        monitor: Rectangle::new(left, top, width, height),
        work: Rectangle::new(left, top, width, height),
    }
}

fn live(handle: u64, title: &str, process: &str, rect: Rectangle) -> Win32Window {
    Win32Window::new(
        WindowHandle(handle),
        MonitorHandle(1),
        title.to_string(),
        process.to_string(),
        rect,
    )
}

fn layout_of(windows: Vec<Window>) -> Layout {
    LayoutBuilder::default()
        .screens(vec![ScreenBuilder::default().windows(windows).build().unwrap()])
        .build()
        .unwrap()
}

fn positioned(process: &str, x: &str, y: &str) -> Window {
    WindowBuilder::default()
        .process(Some(process.to_string()))
        .x(Some(x.to_string()))
        .y(Some(y.to_string()))
        .build()
        .unwrap()
}

#[test]
fn a_titled_window_is_moved_to_the_origin() {
    let layout = layout_of(vec![WindowBuilder::default()
        .title(Some("Notes".to_string()))
        .x(Some("0".to_string()))
        .y(Some("0".to_string()))
        .build()
        .unwrap()]);
    let windows = vec![live(5, "Notes", "notes.exe", Rectangle::new(300, 200, 800, 600))];
    let monitors = vec![monitor(1, 0, 0, 1920, 1080)];
    let plan = plan_layout(&layout, &windows, &monitors).unwrap();
    assert!(plan.skipped.is_empty());
    assert_eq!(1, plan.updates.len());
    let update = plan.updates[0];
    assert_eq!(WindowHandle(5), update.handle);
    assert_eq!((0, 0), (update.x, update.y));
    assert!(!update.skip_move);
    assert!(update.skip_resize);
    assert_eq!((800, 600), (update.width, update.height));
}

#[test]
fn half_the_width_for_every_window_of_a_process() {
    let entry = WindowBuilder::default()
        .process(Some("app.exe".to_string()))
        .w(Some("50%".to_string()))
        .allow_cascade(true)
        .build()
        .unwrap();
    let windows = vec![
        live(1, "one", "app.exe", Rectangle::new(10, 10, 400, 300)),
        live(2, "two", "app.exe", Rectangle::new(20, 20, 500, 300)),
        live(3, "three", "app.exe", Rectangle::new(30, 30, 600, 300)),
    ];
    let monitors = vec![monitor(1, 0, 0, 1920, 1080)];
    let area = Rectangle::new(0, 0, 1920, 1080);
    // Against each of the three windows the width resolves to 960, and the
    // position stays, so nothing is cascaded.
    for window in &windows {
        let mut bound = window.clone();
        let update = bound.layout(&entry, &area);
        assert_eq!(960, update.width);
        assert!(update.skip_move);
        assert_eq!((window.rect.0.left, window.rect.0.top), (update.x, update.y));
    }
    // An entry binds the first window that satisfies it.
    let plan = plan_layout(&layout_of(vec![entry.clone()]), &windows, &monitors).unwrap();
    assert_eq!(1, plan.updates.len());
    assert_eq!(WindowHandle(1), plan.updates[0].handle);
    assert_eq!(960, plan.updates[0].width);
    // Three such entries give three updates, none of them moved.
    let thrice = layout_of(vec![entry.clone(), entry.clone(), entry]);
    let plan = plan_layout(&thrice, &windows, &monitors).unwrap();
    assert_eq!(3, plan.updates.len());
    for update in &plan.updates {
        assert_eq!(960, update.width);
        assert!(update.skip_move);
        assert_eq!((10, 10), (update.x, update.y));
    }
}

#[test]
fn each_further_entry_of_a_process_goes_thirty_pixels_on() {
    let windows = vec![
        live(1, "one", "app.exe", Rectangle::new(10, 10, 400, 300)),
        live(2, "mail", "mail.exe", Rectangle::new(20, 20, 500, 300)),
    ];
    let monitors = vec![monitor(1, 0, 0, 1920, 1080)];
    let layout = layout_of(vec![
        positioned("app.exe", "100", "200"),
        positioned("mail", "5", "6"),
        positioned("app.exe", "700", "700"),
        positioned("app.exe", "0", "0"),
        positioned("mail", "5", "6"),
        positioned("app.exe", "1", "1"),
    ]);
    let plan = plan_layout(&layout, &windows, &monitors).unwrap();
    let positions: Vec<(i32, i32)> = plan.updates.iter().map(|u| (u.x, u.y)).collect();
    assert_eq!(
        vec![(100, 200), (5, 6), (130, 230), (160, 260), (35, 36), (190, 290)],
        positions
    );
    let app: Vec<(i32, i32)> = plan
        .updates
        .iter()
        .filter(|u| u.handle == WindowHandle(1))
        .map(|u| (u.x, u.y))
        .collect();
    for k in 1..app.len() {
        assert_eq!((app[k - 1].0 + 30, app[k - 1].1 + 30), app[k]);
    }
}

#[test]
fn cascading_needs_leave_a_position_and_a_process() {
    let windows = vec![live(1, "one", "app.exe", Rectangle::new(10, 10, 400, 300))];
    let monitors = vec![monitor(1, 0, 0, 1920, 1080)];
    let mut forbidden = positioned("app.exe", "100", "200");
    forbidden.allow_cascade = false;
    let by_title = WindowBuilder::default()
        .title(Some("one".to_string()))
        .x(Some("100".to_string()))
        .build()
        .unwrap();
    let layout = layout_of(vec![
        positioned("app.exe", "100", "200"),
        forbidden,
        by_title.clone(),
        by_title,
        positioned("app.exe", "100", "200"),
    ]);
    let plan = plan_layout(&layout, &windows, &monitors).unwrap();
    let positions: Vec<(i32, i32)> = plan.updates.iter().map(|u| (u.x, u.y)).collect();
    assert_eq!(vec![(100, 200), (100, 200), (100, 10), (100, 10), (130, 230)], positions);
}

#[test]
fn an_invalid_pattern_skips_its_entry_and_no_other() {
    let windows = vec![
        live(1, "Notes", "notes.exe", Rectangle::new(10, 10, 400, 300)),
        live(2, "Mail", "mail.exe", Rectangle::new(20, 20, 500, 300)),
    ];
    let monitors = vec![monitor(1, 0, 0, 1920, 1080)];
    let broken = WindowBuilder::default()
        .title(Some("Notes(".to_string()))
        .x(Some("1".to_string()))
        .build()
        .unwrap();
    let mail = WindowBuilder::default()
        .title(Some("Mail".to_string()))
        .x(Some("25%".to_string()))
        .y(Some("0".to_string()))
        .build()
        .unwrap();
    assert!(is_invalid(&broken));
    assert!(!is_invalid(&mail));
    assert!(!is_invalid(&Window::new()));
    let with = plan_layout(&layout_of(vec![broken.clone(), mail.clone(), broken]), &windows, &monitors)
        .unwrap();
    let without = plan_layout(&layout_of(vec![mail]), &windows, &monitors).unwrap();
    assert_eq!(vec![0, 2], with.skipped);
    assert!(without.skipped.is_empty());
    assert_eq!(without.updates, with.updates);
    assert_eq!(1, with.updates.len());
    assert_eq!(WindowHandle(2), with.updates[0].handle);
    assert_eq!((480, 0), (with.updates[0].x, with.updates[0].y));
}

#[test]
fn a_plan_follows_the_screens_in_order() {
    let first = ScreenBuilder::default()
        .id(Some(0))
        .windows(vec![positioned("a", "1", "1"), positioned("b", "2", "2")])
        .build()
        .unwrap();
    let second = ScreenBuilder::default().id(Some(1)).windows(vec![positioned("c", "3", "3")]).build().unwrap();
    let layout = LayoutBuilder::default().screens(vec![first, second]).build().unwrap();
    let list = entries(&layout);
    let processes: Vec<String> = list.iter().map(|w| w.process.clone().unwrap()).collect();
    assert_eq!(vec!["a".to_string(), "b".to_string(), "c".to_string()], processes);
    assert!(entries(&Layout::new()).is_empty());
    let plan = plan_layout(&Layout::new(), &Vec::new(), &Vec::new()).unwrap();
    assert!(plan.updates.is_empty() && plan.skipped.is_empty());
}

#[test]
fn the_work_area_is_that_of_the_windows_monitor() {
    let monitors = vec![monitor(1, 0, 0, 1920, 1080), monitor(2, 1920, 0, 1000, 1000), monitor(2, 0, 0, 1, 1)];
    assert_eq!(Some(Rectangle::new(1920, 0, 1000, 1000)), find_work_area(&monitors, MonitorHandle(2)));
    assert_eq!(None, find_work_area(&monitors, MonitorHandle(3)));
    let mut window = live(1, "one", "app.exe", Rectangle::new(10, 10, 400, 300));
    window.monitor = MonitorHandle(2);
    let entry = WindowBuilder::default()
        .process(Some("app".to_string()))
        .w(Some("50%".to_string()))
        .build()
        .unwrap();
    let plan = plan_entries(&vec![entry], &vec![window], &monitors).unwrap();
    assert_eq!(500, plan.updates[0].width);
}

#[test]
fn a_snapshot_with_an_unknown_window_is_refused() {
    let monitors = vec![monitor(1, 0, 0, 1920, 1080)];
    let mut stray = live(1, "one", "app.exe", Rectangle::new(10, 10, 400, 300));
    stray.monitor = MonitorHandle(9);
    assert!(!check_snapshot(&vec![stray.clone()], &monitors));
    assert_eq!(
        Err(Error::PlatformEnumerationFailure),
        plan_layout(&Layout::new(), &vec![stray], &monitors)
    );
    let mut vast = live(1, "one", "app.exe", Rectangle::new(0, 0, 1, 1));
    vast.rect = Rectangle(Rect { left: i32::MIN, top: 0, right: i32::MAX, bottom: 0 });
    assert!(!check_snapshot(&vec![vast.clone()], &monitors));
    assert_eq!(
        Err(Error::PlatformEnumerationFailure),
        plan_entries(&Vec::new(), &vec![vast], &monitors)
    );
    assert!(check_snapshot(&vec![live(1, "a", "b", Rectangle::new(0, 0, 1, 1))], &monitors));
}

#[test]
fn a_cascade_past_the_largest_coordinate_is_refused() {
    let windows = vec![live(1, "one", "app.exe", Rectangle::new(10, 10, 400, 300))];
    let monitors = vec![monitor(1, 0, 0, 1920, 1080)];
    let far = positioned("app.exe", "2147483640", "0");
    assert_eq!(
        Err(Error::PositionOutOfRange),
        plan_layout(&layout_of(vec![far.clone(), far.clone()]), &windows, &monitors)
    );
    let near = positioned("app.exe", "2147483617", "0");
    let plan = plan_layout(&layout_of(vec![near.clone(), near]), &windows, &monitors).unwrap();
    assert_eq!((2147483647, 30), (plan.updates[1].x, plan.updates[1].y));
    // Once alone, nothing is added.
    assert!(plan_layout(&layout_of(vec![far]), &windows, &monitors).is_ok());
}

#[test]
fn a_process_pattern_is_held_against_the_name_of_the_program() {
    let windows = vec![
        live(1, "one", "C:\\apps\\notes.exe.d\\helper.exe", Rectangle::new(0, 0, 1, 1)),
        live(2, "two", "C:\\apps\\notes.exe", Rectangle::new(0, 0, 1, 1)),
    ];
    let monitors = vec![monitor(1, 0, 0, 1920, 1080)];
    let entry = WindowBuilder::default()
        .process(Some("^notes\\.exe$".to_string()))
        .w(Some("10".to_string()))
        .build()
        .unwrap();
    let plan = plan_entries(&vec![entry], &windows, &monitors).unwrap();
    assert_eq!(1, plan.updates.len());
    assert_eq!(WindowHandle(2), plan.updates[0].handle);
}

#[test]
fn what_went_wrong_without_ending_the_pass_is_gathered() {
    let plan = Plan { updates: Vec::new(), skipped: vec![0, 4] };
    let report = BatchReport { outcome: Ok(()), failed: vec![2] };
    assert_eq!(
        vec![
            Issue { position: 0, error: Error::InvalidPattern },
            Issue { position: 4, error: Error::InvalidPattern },
            Issue { position: 2, error: Error::StagingFailure },
        ],
        issues(&plan, &report)
    );
    let clean = BatchReport { outcome: Err(Error::CommitFailure(1)), failed: Vec::new() };
    assert!(issues(&Plan { updates: Vec::new(), skipped: Vec::new() }, &clean).is_empty());
}
