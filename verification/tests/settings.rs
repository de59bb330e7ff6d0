use corvid_app::{config_home, settings_path};
use std::path::PathBuf;

#[test]
fn an_absolute_xdg_config_home_wins() {
    assert_eq!(
        config_home(Some(String::from("/xdg/config")), Some(String::from("/home/me"))),
        Some(String::from("/xdg/config")),
    );
}

#[test]
fn a_relative_or_missing_xdg_config_home_falls_back_to_dot_config() {
    assert_eq!(
        config_home(Some(String::from("config")), Some(String::from("/home/me"))),
        Some(String::from("/home/me/.config")),
    );
    assert_eq!(
        config_home(None, Some(String::from("/home/me"))),
        Some(String::from("/home/me/.config")),
    );
}

#[test]
fn a_machine_with_no_absolute_home_keeps_no_settings() {
    assert_eq!(config_home(None, None), None);
    assert_eq!(config_home(None, Some(String::from("home/me"))), None);
    assert_eq!(settings_path(None, Some(String::from("home/me")), "counter"), None);
}

#[test]
fn the_settings_file_is_named_for_the_game_under_the_config_home() {
    let path = settings_path(None, Some(String::from("/home/me")), "counter").expect("a home");
    assert_eq!(
        PathBuf::from(path),
        PathBuf::from("/home/me").join(".config").join("counter").join("setting.json"),
    );
}

#[test]
fn settings_and_saves_live_under_different_homes() {
    let settings = settings_path(
        Some(String::from("/config")),
        Some(String::from("/home/me")),
        "counter",
    );
    assert_eq!(settings, Some(String::from("/config/counter/setting.json")));
    let saves = corvid_app::root(
        Some(String::from("/data")),
        Some(String::from("/home/me")),
        None,
        "counter",
    );
    assert_eq!(saves, String::from("/data/counter"));
}

#[test]
fn the_binding_file_is_beside_the_saves_in_the_game_s_own_directory() {
    assert_eq!(
        PathBuf::from(corvid_app::bindings_path("/data/counter")),
        PathBuf::from("/data/counter").join("bindings.json"),
    );
}

#[test]
fn appdata_comes_after_an_absolute_xdg_home_and_before_home() {
    let appdata = Some(String::from("C:\\Users\\me\\AppData\\Roaming"));
    assert_eq!(
        corvid_app::config_home_with(Some(String::from("/xdg")), appdata.clone(), Some(String::from("/home/me"))),
        Some(String::from("/xdg")),
    );
    assert_eq!(
        corvid_app::config_home_with(None, appdata.clone(), Some(String::from("/home/me"))),
        appdata,
    );
    assert_eq!(
        corvid_app::data_home_with(Some(String::from("relative")), appdata.clone(), None),
        appdata,
    );
    assert_eq!(
        corvid_app::data_home_with(None, None, Some(String::from("/home/me"))),
        Some(String::from("/home/me/.local/share")),
    );
    assert_eq!(
        corvid_app::settings_under(Some(String::from("/config")), "counter"),
        Some(String::from("/config/counter/setting.json")),
    );
    assert_eq!(corvid_app::settings_under(None, "counter"), None);
}
