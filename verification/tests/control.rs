use ldconsole::control::{launch_args, list2_args, quit_args};
use ldconsole::get_ld_console_path;

#[test]
fn console_path_joins_directory() {
    assert_eq!(
        get_ld_console_path("C:\\leidian\\LDPlayer4"),
        "C:\\leidian\\LDPlayer4/ldconsole.exe"
    );
}

#[test]
fn console_path_keeps_trailing_separator() {
    assert_eq!(get_ld_console_path("tools/"), "tools/ldconsole.exe");
}

#[test]
fn console_path_of_empty_directory() {
    assert_eq!(get_ld_console_path(""), "ldconsole.exe");
}

#[test]
fn launch_invocation_carries_index() {
    let args = launch_args(3);
    assert_eq!(args, vec!["launch", "--index", "3"]);
}

#[test]
fn quit_invocation_carries_index() {
    assert_eq!(quit_args(7), vec!["quit", "--index", "7"]);
}

#[test]
fn list2_invocation_has_one_argument() {
    assert_eq!(list2_args(), vec!["list2"]);
}

#[test]
fn index_renders_in_decimal() {
    assert_eq!(launch_args(0)[2], "0");
    assert_eq!(launch_args(305)[2], "305");
    assert_eq!(launch_args(-1)[2], "-1");
    assert_eq!(launch_args(i32::MIN)[2], "-2147483648");
    assert_eq!(launch_args(i32::MAX)[2], "2147483647");
}
