use rawst::config::Config;
use rawst::naming::{join_path, temp_file_name, u32_to_decimal};
use rawst::service::RawstImpl;

#[test]
fn temp_file_names_follow_the_convention() {
    assert_eq!(temp_file_name("file", 0), "file-0.tmp");
    assert_eq!(temp_file_name("file", 3), "file-3.tmp");
    assert_eq!(temp_file_name("archive", 12034), "archive-12034.tmp");
}

#[test]
fn decimal_rendering() {
    assert_eq!(u32_to_decimal(0), "0");
    assert_eq!(u32_to_decimal(7), "7");
    assert_eq!(u32_to_decimal(10), "10");
    assert_eq!(u32_to_decimal(12034), "12034");
    assert_eq!(u32_to_decimal(u32::MAX), "4294967295");
}

#[test]
fn paths_join_with_a_separator() {
    assert_eq!(join_path("/home/user/.cache/rawst", "history.json"),
        "/home/user/.cache/rawst/history.json");
}

#[test]
fn config_derives_its_file_paths() {
    let c = Config::from_base_dirs(
        String::from("/home/user/.config/rawst"),
        String::from("/home/user/.cache/rawst"),
        String::from("/home/user/Downloads/rawst"),
        4,
    );
    assert_eq!(c.config_file_path, "/home/user/.config/rawst/config.toml");
    assert_eq!(c.history_file_path, "/home/user/.cache/rawst/history.json");
    assert_eq!(c.log_dir, "/home/user/.cache/rawst/logs");
    assert_eq!(c.download_dir, "/home/user/Downloads/rawst");
    assert_eq!(c.threads, 4);
}

#[test]
fn log_files_live_in_the_log_directory() {
    let c = Config::from_base_dirs(
        String::from("/c"),
        String::from("/k"),
        String::from("/d"),
        1,
    );
    assert_eq!(
        c.log_file_path("2024-12-31_23h-59m-59s-77"),
        "/k/logs/2024-12-31_23h-59m-59s-77.log"
    );
}

#[test]
fn fresh_history_is_an_empty_list() {
    assert_eq!(rawst::config::initial_history_contents(), "[\n\n]");
}

#[test]
fn service_handler_is_stateless() {
    let s = RawstImpl::new();
    assert_eq!(s, RawstImpl {});
}
