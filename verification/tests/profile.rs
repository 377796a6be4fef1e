use wlm::cascade::CascadeAllocator;
use wlm::error::Error;
use wlm::pattern::Probe;
use wlm::profile::{
    apply_profile, apply_profile_properties, assign_windows, assigns, default_as_true, find_entry,
    is_taken, Location, Profile, Window,
};
use wlm::resolved::WindowHandle;
use wlm::{Dimensions, Point};

fn entry(title: Option<&str>, process: Option<&str>) -> Window {
    Window {
        hwnd: Vec::new(),
        allow_cascade: default_as_true(),
        title: title.map(|t| t.to_string()),
        process: process.map(|p| p.to_string()),
        location: None,
        dimensions: None,
    }
}

fn live(handle: u64, title: &str, process: &str) -> Window {
    Window::live(
        WindowHandle(handle),
        title.to_string(),
        process.to_string(),
        Location { x: 1, y: 2 },
        Dimensions::new(3, 4),
    )
}

#[test]
fn the_allocator_fans_out_per_process() {
    let mut cascade = CascadeAllocator::new();
    assert_eq!(None, cascade.last("app"));
    assert_eq!(Point::new(100, 200), cascade.place("app", Point::new(100, 200)));
    assert_eq!(Point::new(5, 5), cascade.place("mail", Point::new(5, 5)));
    // What is asked for a known process is left aside.
    assert_eq!(Point::new(130, 230), cascade.place("app", Point::new(0, 0)));
    assert_eq!(Point::new(160, 260), cascade.place("app", Point::new(900, 900)));
    assert_eq!(Some(Point::new(160, 260)), cascade.last("app"));
    assert_eq!(Some(Point::new(5, 5)), cascade.last("mail"));
    assert_eq!(Some(Point::new(35, 35)), cascade.try_place("mail", Point::new(0, 0)));
}

#[test]
fn the_allocator_refuses_what_cannot_be_represented() {
    let mut cascade = CascadeAllocator::new();
    assert_eq!(Some(Point::new(i32::MAX - 29, 0)), cascade.try_place("app", Point::new(i32::MAX - 29, 0)));
    assert_eq!(None, cascade.try_place("app", Point::new(0, 0)));
    assert_eq!(Some(Point::new(i32::MAX - 29, 0)), cascade.last("app"));
    assert_eq!(Some(Point::new(0, i32::MAX - 30)), cascade.try_place("low", Point::new(0, i32::MAX - 30)));
    assert_eq!(Some(Point::new(30, i32::MAX)), cascade.try_place("low", Point::new(0, 0)));
    assert_eq!(None, cascade.try_place("low", Point::new(0, 0)));
}

#[test]
fn an_entry_with_a_title_goes_by_the_title_alone() {
    assert!(assigns(Probe::Found, Probe::Missed));
    assert!(assigns(Probe::Found, Probe::Invalid));
    assert!(assigns(Probe::Unasked, Probe::Found));
    assert!(!assigns(Probe::Missed, Probe::Found));
    assert!(!assigns(Probe::Invalid, Probe::Found));
    assert!(!assigns(Probe::Unasked, Probe::Unasked));
    assert!(!assigns(Probe::Unasked, Probe::Missed));
    let notes = live(1, "Notes", "C:\\bin\\other.exe");
    assert_eq!(Some("other.exe".to_string()), notes.process);
    assert!(is_taken(&entry(Some("Notes"), Some("notes.exe")), &notes));
    assert!(!is_taken(&entry(Some("Mail"), Some("other")), &notes));
    assert!(is_taken(&entry(None, Some("other")), &notes));
    assert!(!is_taken(&entry(None, None), &notes));
    assert!(!is_taken(&entry(Some("("), Some("other")), &notes));
}

#[test]
fn live_windows_go_to_the_first_entry_that_takes_them() {
    let mut profile = Profile::new();
    profile.windows.push(entry(Some("Notes"), None));
    profile.windows.push(entry(None, Some("app")));
    profile.windows.push(entry(Some(".*"), None));
    let actives = vec![
        live(1, "one", "app.exe"),
        live(2, "My Notes", "app.exe"),
        live(3, "two", "app.exe"),
        live(4, "stray", "other.exe"),
    ];
    assert_eq!(Some(1), find_entry(&profile.windows, &actives[0]));
    assert_eq!(Some(0), find_entry(&profile.windows, &actives[1]));
    assign_windows(&mut profile, &actives);
    assert_eq!(vec![WindowHandle(2)], profile.windows[0].hwnd);
    assert_eq!(vec![WindowHandle(1), WindowHandle(3)], profile.windows[1].hwnd);
    assert_eq!(vec![WindowHandle(4)], profile.windows[2].hwnd);
    assert_eq!(Some("Notes".to_string()), profile.windows[0].title);
    let mut empty = Profile::new();
    assign_windows(&mut empty, &actives);
    assert!(empty.windows.is_empty());
    assert_eq!(None, find_entry(&empty.windows, &actives[0]));
}

#[test]
fn an_entry_asks_for_what_it_holds() {
    let mut window = entry(None, Some("app"));
    let update = apply_profile_properties(WindowHandle(4), &window);
    assert_eq!(WindowHandle(4), update.handle);
    assert!(update.skip_move && update.skip_resize);
    assert_eq!((0, 0, 0, 0), (update.x, update.y, update.width, update.height));
    window.location = Some(Location { x: -3, y: 9 });
    window.dimensions = Some(Dimensions::new(640, 480));
    let update = apply_profile_properties(WindowHandle(4), &window);
    assert!(!update.skip_move && !update.skip_resize);
    assert_eq!((-3, 9, 640, 480), (update.x, update.y, update.width, update.height));
}

#[test]
fn windows_of_one_process_are_fanned_out() {
    let mut app = entry(None, Some("app"));
    app.hwnd = vec![WindowHandle(1), WindowHandle(2), WindowHandle(3)];
    app.location = Some(Location { x: 100, y: 50 });
    let mut fixed = entry(None, Some("app"));
    fixed.hwnd = vec![WindowHandle(4), WindowHandle(5)];
    fixed.location = Some(Location { x: 7, y: 7 });
    fixed.allow_cascade = false;
    let mut nameless = entry(Some("t"), None);
    nameless.hwnd = vec![WindowHandle(6), WindowHandle(7)];
    nameless.location = Some(Location { x: 8, y: 8 });
    let mut sized = entry(None, Some("app"));
    sized.hwnd = vec![WindowHandle(8)];
    sized.dimensions = Some(Dimensions::new(10, 20));
    let mut again = entry(None, Some("app"));
    again.hwnd = vec![WindowHandle(9)];
    again.location = Some(Location { x: 0, y: 0 });
    let profile = Profile { windows: vec![app, fixed, nameless, sized, again] };
    let updates = apply_profile(&profile).unwrap();
    let seen: Vec<(u64, i32, i32, bool)> =
        updates.iter().map(|u| (u.handle.0, u.x, u.y, u.skip_move)).collect();
    assert_eq!(
        vec![
            (1, 100, 50, false),
            (2, 130, 80, false),
            (3, 160, 110, false),
            (4, 7, 7, false),
            (5, 7, 7, false),
            (6, 8, 8, false),
            (7, 8, 8, false),
            (8, 0, 0, true),
            (9, 190, 140, false),
        ],
        seen
    );
    assert_eq!((10, 20), (updates[7].width, updates[7].height));
    assert!(apply_profile(&Profile::new()).unwrap().is_empty());
}

#[test]
fn a_profile_that_fans_out_of_range_is_refused() {
    let mut app = entry(None, Some("app"));
    app.hwnd = vec![WindowHandle(1), WindowHandle(2)];
    app.location = Some(Location { x: 0, y: i32::MAX - 10 });
    assert_eq!(Err(Error::PositionOutOfRange), apply_profile(&Profile { windows: vec![app.clone()] }));
    app.hwnd.pop();
    assert!(apply_profile(&Profile { windows: vec![app] }).is_ok());
}
