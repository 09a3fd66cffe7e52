use torrent_magnet::greet;
use torrent_magnet::paths::{file_name_str, is_torrent_file};

#[test]
fn torrent_extension_upper_case() {
    assert!(is_torrent_file("x.TORRENT"));
}

#[test]
fn torrent_extension_mixed_case() {
    assert!(is_torrent_file("/home/user/downloads/file.ToRrEnT"));
}

#[test]
fn torrent_extension_lower_case() {
    assert!(is_torrent_file("a/b/c.torrent"));
}

#[test]
fn txt_extension_rejected() {
    assert!(!is_torrent_file("x.txt"));
}

#[test]
fn no_extension_rejected() {
    assert!(!is_torrent_file("noext"));
}

#[test]
fn hidden_file_without_extension_rejected() {
    assert!(!is_torrent_file(".torrent"));
    assert!(!is_torrent_file("/tmp/.torrent"));
}

#[test]
fn torrent_in_directory_name_rejected() {
    assert!(!is_torrent_file("a.torrent/x"));
}

#[test]
fn empty_path_rejected() {
    assert!(!is_torrent_file(""));
}

#[test]
fn extension_with_suffix_rejected() {
    assert!(!is_torrent_file("x.torrents"));
    assert!(!is_torrent_file("x.torren"));
}

#[test]
fn dotted_name_uses_last_extension() {
    assert!(is_torrent_file("x.tar.torrent"));
    assert!(!is_torrent_file("x.torrent.tar"));
}

#[test]
fn file_name_is_final_segment() {
    assert_eq!(file_name_str("/a/b/c.torrent"), "c.torrent");
    assert_eq!(file_name_str("c.torrent"), "c.torrent");
    assert_eq!(file_name_str("a/"), "");
    assert_eq!(file_name_str(""), "");
}

#[test]
fn greeting_names_the_caller() {
    assert_eq!(greet("World"), "Hello, World! You've been greeted from Rust!");
}
