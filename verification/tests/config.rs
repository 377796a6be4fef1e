use wlm::config::{Config, ConfigBuilder, Window, WindowBuilder};
use wlm::error::Error;
use wlm::platform::windows::window::WindowState;

#[test]
fn windows_defaults_to_empty() {
    let config = Config::new();
    assert!(config.windows.len() == 0);
}

#[test]
fn matches_window_given_simple_title_only() {
    let config = ConfigBuilder::default()
        .windows(vec![WindowBuilder::default()
            .title(Some("Example Title".to_string()))
            .build()
            .unwrap()])
        .build()
        .unwrap();
    let mut window_state = WindowState::new();
    window_state.title = Some(String::from("Example Title"));
    let actual = config.search(&window_state);
    assert!(actual.is_some());
    assert_eq!("Example Title", &(actual.unwrap().title.unwrap()));
}

#[test]
fn matches_window_given_regex_title_only() {
    let config = ConfigBuilder::default()
        .windows(vec![WindowBuilder::default()
            .title(Some(".*Title".to_string()))
            .build()
            .unwrap()])
        .build()
        .unwrap();
    let mut window_state = WindowState::new();
    window_state.title = Some(String::from("Example Title"));
    let actual = config.search(&window_state);
    assert!(actual.is_some());
    assert_eq!(".*Title", &(actual.unwrap().title.unwrap()));
}

#[test]
fn matches_window_given_simple_process_only() {
    let config = ConfigBuilder::default()
        .windows(vec![WindowBuilder::default()
            .process(Some("example.exe".to_string()))
            .build()
            .unwrap()])
        .build()
        .unwrap();
    let mut window_state = WindowState::new();
    window_state.process = Some(String::from("example.exe"));
    let actual = config.search(&window_state);
    assert!(actual.is_some());
    assert_eq!("example.exe", actual.unwrap().process.unwrap());
}

#[test]
fn matches_window_given_regex_process_only() {
    let config = ConfigBuilder::default()
        .windows(vec![WindowBuilder::default()
            .process(Some(".*.exe".to_string()))
            .build()
            .unwrap()])
        .build()
        .unwrap();
    let mut window_state = WindowState::new();
    window_state.process = Some(String::from("example.exe"));
    let actual = config.search(&window_state);
    assert!(actual.is_some());
    assert_eq!(".*.exe", actual.unwrap().process.unwrap());
}

#[test]
fn matches_window_given_regex_process_and_regex_title() {
    let config = ConfigBuilder::default()
        .windows(vec![WindowBuilder::default()
            .title(Some(".*Title".to_string()))
            .process(Some(".*.exe".to_string()))
            .build()
            .unwrap()])
        .build()
        .unwrap();
    let mut window_state = WindowState::new();
    window_state.title = Some(String::from("Window Title"));
    window_state.process = Some(String::from("example.exe"));
    let actual = config.search(&window_state);
    assert!(actual.is_some());
    let actual = actual.unwrap();
    assert_eq!(".*Title", actual.title.unwrap());
    assert_eq!(".*.exe", actual.process.unwrap());
}

#[test]
fn preserves_order_given_same_title_with_latter_defining_process() {
    let mut config = Config::new();
    let mut window_1 = Window::new();
    let mut window_2 = Window::new();
    window_1.title = Some(String::from("Example Title"));
    window_2.title = Some(String::from("Example Title"));
    window_2.process = Some(String::from("example.exe"));
    config.windows.push(window_1);
    config.windows.push(window_2);
    let mut window_state = WindowState::new();
    window_state.title = Some(String::from("Example Title"));
    window_state.process = Some(String::from("example.exe"));
    let actual = config.search(&window_state);
    assert!(actual.is_some());
    let actual = actual.unwrap();
    assert!(actual.title.is_some());
    assert!(actual.process.is_none());
    assert_eq!("Example Title", actual.title.unwrap());
}

#[test]
fn gets_first() {
    let mut config = ConfigBuilder::default()
        .windows(vec![WindowBuilder::default().build().unwrap()])
        .build()
        .unwrap();
    let window = config.window_at(0);
    assert!(window.is_ok());
}

#[test]
fn error_if_out_of_bounds() {
    let mut config = ConfigBuilder::default().windows(vec![]).build().unwrap();
    let window = config.window_at(0);
    assert!(window.is_err());
}

#[test]
fn windows_0_doesnotexist() {
    assert!(Config::parse_property_string("windows.0.doesnotexist").is_err());
    assert_eq!(
        Error::InvalidProperty,
        Config::parse_property_string("windows.0.doesnotexist").unwrap_err()
    );
}

#[test]
fn windows_0_x() {
    assert_eq!(
        (0, "x".to_string()),
        Config::parse_property_string("windows.0.x").unwrap()
    );
}

#[test]
fn windows_0_y() {
    assert_eq!(
        (0, "y".to_string()),
        Config::parse_property_string("windows.0.y").unwrap()
    );
}

#[test]
fn windows_0_w() {
    assert_eq!(
        (0, "w".to_string()),
        Config::parse_property_string("windows.0.w").unwrap()
    );
}

#[test]
fn windows_0_h() {
    assert_eq!(
        (0, "h".to_string()),
        Config::parse_property_string("windows.0.h").unwrap()
    );
}

#[test]
fn windows_0_title() {
    assert_eq!(
        (0, "title".to_string()),
        Config::parse_property_string("windows.0.title").unwrap()
    );
}

#[test]
fn windows_0_process() {
    assert_eq!(
        (0, "process".to_string()),
        Config::parse_property_string("windows.0.process").unwrap()
    );
}

#[test]
fn property_strings_that_are_refused() {
    assert_eq!(Err(Error::InvalidIndex), Config::parse_property_string("windows.-1.x"));
    assert_eq!(Err(Error::InvalidIndex), Config::parse_property_string("windows..x"));
    assert_eq!(Err(Error::InvalidIndex), Config::parse_property_string("windows.+.x"));
    assert_eq!(Err(Error::InvalidIndex), Config::parse_property_string("windows.1a.x"));
    assert_eq!(
        Err(Error::InvalidIndex),
        Config::parse_property_string("windows.99999999999999999999999999.x")
    );
    assert_eq!(Err(Error::InvalidProperty), Config::parse_property_string("window.0.x"));
    assert_eq!(Err(Error::InvalidProperty), Config::parse_property_string("windows.0"));
    assert_eq!(Err(Error::InvalidProperty), Config::parse_property_string("windows.0.x.y"));
    assert_eq!(Err(Error::InvalidProperty), Config::parse_property_string(""));
    assert_eq!(Err(Error::InvalidProperty), Config::parse_property_string("windows.-1.nothing.more"));
}

#[test]
fn property_index_is_read_in_decimal() {
    assert_eq!(Ok((12, "h".to_string())), Config::parse_property_string("windows.12.h"));
    assert_eq!(Ok((7, "w".to_string())), Config::parse_property_string("windows.+7.w"));
    assert_eq!(Ok((3, "x".to_string())), Config::parse_property_string("windows.003.x"));
}

#[test]
fn window_at_gives_the_entry_to_change() {
    let mut config = ConfigBuilder::default()
        .windows(vec![
            WindowBuilder::default().x(Some(1)).build().unwrap(),
            WindowBuilder::default().x(Some(2)).build().unwrap(),
        ])
        .build()
        .unwrap();
    {
        let window = config.window_at(1).unwrap();
        assert_eq!(Some(2), window.x);
        window.x = Some(20);
    }
    assert_eq!(Some(1), config.windows[0].x);
    assert_eq!(Some(20), config.windows[1].x);
    assert_eq!(Error::InvalidIndex, config.window_at(2).unwrap_err());
}

#[test]
fn search_skips_an_entry_with_an_invalid_pattern() {
    let config = ConfigBuilder::default()
        .windows(vec![
            WindowBuilder::default().title(Some("(".to_string())).x(Some(1)).build().unwrap(),
            WindowBuilder::default().title(Some("Notes".to_string())).x(Some(2)).build().unwrap(),
        ])
        .build()
        .unwrap();
    let mut window_state = WindowState::new();
    window_state.title = Some(String::from("Notes"));
    assert_eq!(Some(2), config.search(&window_state).unwrap().x);
}

#[test]
fn search_finds_nothing_for_an_entry_without_patterns() {
    let config = ConfigBuilder::default()
        .windows(vec![WindowBuilder::default().x(Some(1)).build().unwrap()])
        .build()
        .unwrap();
    let mut window_state = WindowState::new();
    window_state.title = Some(String::from("Notes"));
    assert!(config.search(&window_state).is_none());
}

#[test]
fn search_holds_patterns_against_empty_text_where_the_window_has_none() {
    let config = ConfigBuilder::default()
        .windows(vec![WindowBuilder::default().title(Some(".*".to_string())).build().unwrap()])
        .build()
        .unwrap();
    let window_state = WindowState::new();
    assert!(config.search(&window_state).is_some());
}
