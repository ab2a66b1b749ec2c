use cyril_core::path::{
    looks_like_windows_path, looks_like_wsl_mount_path, to_agent, to_native, win_to_wsl,
    wsl_to_win, Direction,
};

#[test]
fn test_win_to_wsl_c_drive() {
    assert_eq!(win_to_wsl(r"C:\Users\foo\bar"), "/mnt/c/Users/foo/bar");
}

#[test]
fn test_win_to_wsl_d_drive() {
    assert_eq!(win_to_wsl(r"D:\project\src"), "/mnt/d/project/src");
}

#[test]
fn test_win_to_wsl_root() {
    assert_eq!(win_to_wsl(r"C:\"), "/mnt/c");
}

#[test]
fn test_win_to_wsl_forward_slashes() {
    assert_eq!(win_to_wsl("C:/Users/foo"), "/mnt/c/Users/foo");
}

#[test]
fn test_wsl_to_win_basic() {
    assert_eq!(wsl_to_win("/mnt/c/Users/foo/bar"), r"C:\Users\foo\bar");
}

#[test]
fn test_wsl_to_win_d_drive() {
    assert_eq!(wsl_to_win("/mnt/d/project"), r"D:\project");
}

#[test]
fn test_wsl_to_win_root() {
    assert_eq!(wsl_to_win("/mnt/c"), r"C:\");
}

#[test]
fn test_wsl_to_win_non_mount_path() {
    assert_eq!(wsl_to_win("/home/user/.config"), "/home/user/.config");
}

#[test]
fn test_roundtrip_win_wsl_win() {
    let original = r"C:\Users\dwall\repos\project\src\main.rs";
    let wsl = win_to_wsl(original);
    let back = wsl_to_win(&wsl);
    assert_eq!(back, original);
}

// The same behaviors, checked from the second module of the original layout.

#[test]
fn path_test_win_to_wsl_c_drive() {
    assert_eq!(win_to_wsl(r"C:\Users\foo\bar"), "/mnt/c/Users/foo/bar");
}

#[test]
fn path_test_win_to_wsl_d_drive() {
    assert_eq!(win_to_wsl(r"D:\project\src"), "/mnt/d/project/src");
}

#[test]
fn path_test_win_to_wsl_root() {
    assert_eq!(win_to_wsl(r"C:\"), "/mnt/c");
}

#[test]
fn path_test_win_to_wsl_forward_slashes() {
    assert_eq!(win_to_wsl("C:/Users/foo"), "/mnt/c/Users/foo");
}

#[test]
fn path_test_wsl_to_win_basic() {
    assert_eq!(wsl_to_win("/mnt/c/Users/foo/bar"), r"C:\Users\foo\bar");
}

#[test]
fn path_test_wsl_to_win_d_drive() {
    assert_eq!(wsl_to_win("/mnt/d/project"), r"D:\project");
}

#[test]
fn path_test_wsl_to_win_root() {
    assert_eq!(wsl_to_win("/mnt/c"), r"C:\");
}

#[test]
fn path_test_wsl_to_win_non_mount_path() {
    assert_eq!(wsl_to_win("/home/user/.config"), "/home/user/.config");
}

#[test]
fn path_test_roundtrip_win_wsl_win() {
    let original = r"C:\Users\dwall\repos\project\src\main.rs";
    let wsl = win_to_wsl(original);
    let back = wsl_to_win(&wsl);
    assert_eq!(back, original);
}

// Extended-length prefix handling.

#[test]
fn test_win_to_wsl_strips_extended_prefix() {
    assert_eq!(win_to_wsl(r"\\?\C:\Users\foo\bar"), "/mnt/c/Users/foo/bar");
}

#[test]
fn test_win_to_wsl_strips_extended_prefix_d_drive() {
    assert_eq!(win_to_wsl(r"\\?\D:\project\src"), "/mnt/d/project/src");
}

#[test]
fn test_win_to_wsl_extended_prefix_root() {
    assert_eq!(win_to_wsl(r"\\?\C:\"), "/mnt/c");
}

#[test]
fn test_roundtrip_extended_prefix() {
    let original = r"\\?\C:\Users\dwall\repos\project\src\main.rs";
    let wsl = win_to_wsl(original);
    assert_eq!(wsl, "/mnt/c/Users/dwall/repos/project/src/main.rs");
    let back = wsl_to_win(&wsl);
    // The round trip produces the canonical form without the prefix.
    assert_eq!(back, r"C:\Users\dwall\repos\project\src\main.rs");
}

#[test]
fn test_unc_path_not_mangled() {
    // UNC paths (\\server\share) pass through without prefix stripping.
    assert_eq!(win_to_wsl(r"\\server\share\file.txt"), "//server/share/file.txt");
}

#[test]
fn detector_accepts_drive_rooted_paths_only() {
    assert!(looks_like_windows_path(r"C:\x"));
    assert!(looks_like_windows_path(r"\\?\C:\x"));
    assert!(!looks_like_windows_path("hello world"));
    assert!(!looks_like_windows_path(r"\\?\UNC\server\share"));
    assert!(looks_like_wsl_mount_path("/mnt/c/x"));
    assert!(!looks_like_wsl_mount_path("/home/user"));
}

#[test]
fn to_native_and_to_agent_bridge_only_when_asked() {
    assert_eq!(to_native("/mnt/c/x", true), r"C:\x");
    assert_eq!(to_native("/mnt/c/x", false), "/mnt/c/x");
    assert_eq!(to_agent(r"C:\x", true), "/mnt/c/x");
    assert_eq!(to_agent(r"C:\x", false), r"C:\x");
    let _ = Direction::WinToWsl;
}
