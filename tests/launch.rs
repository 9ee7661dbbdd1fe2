use proc_supervisor::launch::{resolve_launch_path, LaunchError};

fn parts(v: &[&str]) -> Vec<String> {
    v.iter().map(|s| s.to_string()).collect()
}

#[test]
fn dev_marker_wins_over_bundle() {
    let exe = parts(&["/", "Applications", "App.app", "Contents", "MacOS", "app"]);
    let r = resolve_launch_path(true, &"launcher.sh".to_string(), &exe);
    assert_eq!(r, Ok(parts(&["launcher.sh"])));
}

#[test]
fn dev_marker_wins_without_bundle_root() {
    let r = resolve_launch_path(true, &"launcher.sh".to_string(), &parts(&["app"]));
    assert_eq!(r, Ok(parts(&["launcher.sh"])));
}

#[test]
fn bundle_root_is_three_parents_up() {
    let exe = parts(&["/", "Applications", "App.app", "Contents", "MacOS", "app"]);
    let r = resolve_launch_path(false, &"launcher.sh".to_string(), &exe);
    assert_eq!(r, Ok(parts(&["/", "Applications", "App.app", "launcher.sh"])));
}

#[test]
fn short_exe_path_has_no_bundle_root() {
    let exe = parts(&["/", "bin", "app"]);
    let r = resolve_launch_path(false, &"launcher.sh".to_string(), &exe);
    assert_eq!(r, Err(LaunchError::NoBundleRoot));
}
