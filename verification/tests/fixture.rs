use spawn_harness::fixture::{bin_name, executable_file_mode, plan_fixture, subdir_names};
use spawn_harness::pathlist::split_path_list;

#[test]
fn test_fixed_names() {
    let names = subdir_names();
    assert_eq!(names, vec!["a".to_string(), "b".to_string(), "c".to_string()]);
    assert_eq!(bin_name(), "bin".to_string());
}

#[test]
fn test_plan_yields_three_subdirs_one_bin_each() {
    let layout = plan_fixture("/tmp/fx", '/', ':').expect("clean root must plan");
    assert_eq!(
        layout.subdirs,
        vec!["/tmp/fx/a".to_string(), "/tmp/fx/b".to_string(), "/tmp/fx/c".to_string()]
    );
    assert_eq!(
        layout.bins,
        vec![
            "/tmp/fx/a/bin".to_string(),
            "/tmp/fx/b/bin".to_string(),
            "/tmp/fx/c/bin".to_string()
        ]
    );
    assert_eq!(layout.paths, "/tmp/fx/a:/tmp/fx/b:/tmp/fx/c".to_string());
}

#[test]
fn test_plan_path_list_splits_back_to_subdirs() {
    let layout = plan_fixture("/work/case", '/', ':').expect("clean root must plan");
    assert_eq!(split_path_list(&layout.paths, ':'), layout.subdirs);
}

#[test]
fn test_plan_windows_style_separators() {
    let layout = plan_fixture("C\\t", '\\', ';').expect("clean root must plan");
    assert_eq!(layout.paths, "C\\t\\a;C\\t\\b;C\\t\\c".to_string());
}

#[test]
fn test_plan_rejects_root_holding_list_separator() {
    assert!(plan_fixture("/tmp/odd:dir", '/', ':').is_none());
    // A directory separator equal to the list separator poisons every path.
    assert!(plan_fixture("root", ':', ':').is_none());
}

#[test]
fn test_executable_mode_carries_owner_execute() {
    let mode = executable_file_mode();
    assert_eq!(mode, 0o766);
    assert_eq!(mode & 0o100, 0o100);
}
