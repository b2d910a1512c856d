use rukata::cli::{
    check_directory_entry, check_directory_setting, puzzle_folder_name, DirectoryProblem,
    EntryProblem,
};
use rukata::settings::{Settings, VersionedSettings};

#[test]
fn default_settings_have_no_directory() {
    let v = VersionedSettings::default();
    assert_eq!(v.get_settings().get_directory(), "");
    assert_eq!(*v.get_settings(), Settings::default());
}

#[test]
fn settings_change_in_place() {
    let mut v = VersionedSettings::default();
    v.get_mut_settings().set_directory("/home/me/rukata".to_string());
    assert_eq!(v.get_settings().get_directory(), "/home/me/rukata");
    assert_ne!(v, VersionedSettings::default());
    assert_eq!(*v.get_settings(), Settings::new("/home/me/rukata".to_string()));
}

#[test]
fn folder_name_pads_the_id() {
    assert_eq!(puzzle_folder_name(7, "Sum Two"), "p00007 - Sum Two");
    assert_eq!(puzzle_folder_name(65535, "x"), "p65535 - x");
}

#[test]
fn directory_setting_checks() {
    assert_eq!(check_directory_setting("", false), Some(DirectoryProblem::Empty));
    assert_eq!(check_directory_setting("rel", false), Some(DirectoryProblem::NotAbsolute));
    assert_eq!(check_directory_setting("/abs", true), None);
}

#[test]
fn directory_entry_checks() {
    assert_eq!(check_directory_entry(true, "working"), None);
    assert_eq!(check_directory_entry(true, "solution"), None);
    assert_eq!(check_directory_entry(true, "other"), Some(EntryProblem::UnknownDirectory));
    assert_eq!(check_directory_entry(false, ".DS_Store"), None);
    assert_eq!(check_directory_entry(false, "working"), Some(EntryProblem::NotADirectory));
}
