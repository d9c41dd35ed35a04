use config::Config;
use scavnet::settings::{
    get_data_dir, init_settings, is_debug, network_library_path, transmission_library_path,
};
use scavnet::system::System;

fn settings_with_debug(debug: bool) -> Config {
    Config::builder().set_default("debug", debug).unwrap().build().unwrap()
}

#[test]
fn log_at_adds_a_stamped_line() {
    let mut system = System::new();
    assert!(system._get_logs().is_empty());
    system.log_at("2024-01-01 00:00:00.000", "Ready!".to_string());
    system.log_at("t", String::new());
    assert_eq!(
        system._get_logs(),
        &vec!["2024-01-01 00:00:00.000: Ready!".to_string(), "t: ".to_string()]
    );
}

#[test]
fn log_stamps_with_date_and_time_to_the_millisecond() {
    let mut system = System::new();
    system.log("Connecting to Antenna...".to_string());
    let lines = system.get_last_x_logs(5);
    assert_eq!(lines.len(), 1);
    let line = &lines[0];
    assert!(line.ends_with(": Connecting to Antenna..."));
    let stamp = &line[..line.len() - ": Connecting to Antenna...".len()];
    assert_eq!(stamp.len(), "2024-01-01 00:00:00.000".len());
    assert_eq!(&stamp[4..5], "-");
    assert_eq!(&stamp[10..11], " ");
    assert_eq!(&stamp[19..20], ".");
}

#[test]
fn debug_log_follows_the_debug_switch() {
    let mut system = System::new();
    system.debug_log(&settings_with_debug(false), "hidden".to_string());
    system.debug_log(&Config::builder().build().unwrap(), "hidden too".to_string());
    assert!(system._get_logs().is_empty());
    system.debug_log(&settings_with_debug(true), "shown".to_string());
    assert_eq!(system._get_logs().len(), 1);
    assert!(system._get_logs()[0].ends_with(": shown"));
}

#[test]
fn last_x_logs_are_the_newest_in_order() {
    let mut system = System::new();
    for i in 0..5 {
        system.log_at("s", format!("e{}", i));
    }
    assert_eq!(system.get_last_x_logs(2), vec!["s: e3".to_string(), "s: e4".to_string()]);
    assert_eq!(system.get_last_x_logs(0), Vec::<String>::new());
    assert_eq!(system.get_last_x_logs(5).len(), 5);
    assert_eq!(system.get_last_x_logs(9).len(), 5);
    assert_eq!(system.get_last_x_logs(9)[0], "s: e0");
}

#[test]
fn settings_fall_back_to_their_defaults() {
    let settings = Config::builder().build().unwrap();
    assert_eq!(init_settings(&settings), (288, false));
    assert_eq!(get_data_dir(&settings), "data");
    assert_eq!(network_library_path(&settings), "data/networks.yaml");
    assert_eq!(transmission_library_path(&settings), "data/transmissions/sets.yaml");
    assert!(!is_debug(&settings));
}

#[test]
fn settings_are_read_where_they_are_given() {
    let settings = Config::builder()
        .set_default("debug", true)
        .unwrap()
        .set_default("performance.screen_redraw_rate", 60)
        .unwrap()
        .set_default("paths.data_dir", "/srv/radio")
        .unwrap()
        .set_default("paths.network_library", "nets.yaml")
        .unwrap()
        .set_default("paths.transmission_library", "lib/sets.yaml")
        .unwrap()
        .build()
        .unwrap();
    assert_eq!(init_settings(&settings), (60, true));
    assert_eq!(get_data_dir(&settings), "/srv/radio");
    assert_eq!(network_library_path(&settings), "/srv/radio/nets.yaml");
    assert_eq!(transmission_library_path(&settings), "/srv/radio/lib/sets.yaml");
    assert!(is_debug(&settings));
}

#[test]
fn negative_redraw_rate_is_read_as_unsigned() {
    let settings = Config::builder()
        .set_default("performance.screen_redraw_rate", -1)
        .unwrap()
        .build()
        .unwrap();
    assert_eq!(init_settings(&settings).0, u128::MAX);
}
