use cyril_core::path::Direction;
use cyril_core::payload::{translate_paths_in_json, TreeValue};

fn text(s: &str) -> TreeValue {
    TreeValue::Text(s.to_string())
}

fn number(n: u64) -> TreeValue {
    TreeValue::Scalar(serde_json::Value::Number(serde_json::Number::from(n)))
}

fn expect_text(v: &TreeValue) -> &str {
    match v {
        TreeValue::Text(s) => s.as_str(),
        _ => panic!("expected a text leaf"),
    }
}

fn object_field<'a>(v: &'a TreeValue, key: &str) -> &'a TreeValue {
    match v {
        TreeValue::Object(fields) => {
            for (k, val) in fields {
                if k == key {
                    return val;
                }
            }
            panic!("missing field");
        },
        _ => panic!("expected an object"),
    }
}

#[test]
fn test_translate_json_wsl_to_win() {
    let val = TreeValue::Object(vec![
        ("path".to_string(), text("/mnt/c/Users/foo/file.txt")),
        ("content".to_string(), text("hello world")),
        (
            "nested".to_string(),
            TreeValue::Object(vec![("file".to_string(), text("/mnt/d/project/src/main.rs"))]),
        ),
    ]);
    let out = translate_paths_in_json(val, Direction::WslToWin);
    assert_eq!(expect_text(object_field(&out, "path")), r"C:\Users\foo\file.txt");
    assert_eq!(expect_text(object_field(&out, "content")), "hello world");
    assert_eq!(
        expect_text(object_field(object_field(&out, "nested"), "file")),
        r"D:\project\src\main.rs"
    );
}

#[test]
fn test_translate_json_win_to_wsl() {
    let val = TreeValue::Object(vec![
        ("path".to_string(), text(r"C:\Users\foo\file.txt")),
        ("count".to_string(), number(42)),
    ]);
    let out = translate_paths_in_json(val, Direction::WinToWsl);
    assert_eq!(expect_text(object_field(&out, "path")), "/mnt/c/Users/foo/file.txt");
    match object_field(&out, "count") {
        TreeValue::Scalar(v) => assert_eq!(v.as_u64(), Some(42)),
        _ => panic!("scalar leaf was rewritten"),
    }
}

#[test]
fn test_translate_json_extended_prefix() {
    let val = TreeValue::Object(vec![
        ("path".to_string(), text(r"\\?\C:\Users\foo\file.txt")),
        ("normal".to_string(), text(r"D:\project\src\main.rs")),
    ]);
    let out = translate_paths_in_json(val, Direction::WinToWsl);
    assert_eq!(expect_text(object_field(&out, "path")), "/mnt/c/Users/foo/file.txt");
    assert_eq!(expect_text(object_field(&out, "normal")), "/mnt/d/project/src/main.rs");
}

#[test]
fn test_translate_json_unc_path_not_translated() {
    // After prefix stripping the remainder does not match the drive-letter
    // pattern, so the leaf is left alone.
    let val = TreeValue::Object(vec![(
        "path".to_string(),
        text(r"\\?\UNC\server\share\file.txt"),
    )]);
    let out = translate_paths_in_json(val, Direction::WinToWsl);
    assert_eq!(expect_text(object_field(&out, "path")), r"\\?\UNC\server\share\file.txt");
}

#[test]
fn translate_descends_into_lists() {
    let val = TreeValue::List(vec![text("/mnt/c/a"), text("plain"), number(7)]);
    let out = translate_paths_in_json(val, Direction::WslToWin);
    match out {
        TreeValue::List(items) => {
            assert_eq!(items.len(), 3);
            assert_eq!(expect_text(&items[0]), r"C:\a");
            assert_eq!(expect_text(&items[1]), "plain");
            match &items[2] {
                TreeValue::Scalar(v) => assert_eq!(v.as_u64(), Some(7)),
                _ => panic!("scalar leaf was rewritten"),
            }
        },
        _ => panic!("expected a list"),
    }
}
