use minibox::launch::{exit_code_of, launch_plan, parent_dir, LaunchStep};
use minibox::PullError;

#[test]
fn plan_prepares_device_placeholder_first_and_re_roots_in_order() {
    let plan = launch_plan("/usr/local/bin/app").unwrap();
    assert_eq!(plan.len(), 5);
    assert_eq!(plan[0], LaunchStep::EnsureDevNull);
    assert_eq!(
        plan[1],
        LaunchStep::CopyBinary { rel_path: "usr/local/bin/app".to_string() }
    );
    assert_eq!(plan[2], LaunchStep::Chroot);
    assert_eq!(plan[3], LaunchStep::ChdirRoot);
    assert_eq!(plan[4], LaunchStep::UnsharePid);
}

#[test]
fn relative_commands_are_refused() {
    assert_eq!(launch_plan("app"), Err(PullError::FilesystemSetup));
    assert_eq!(launch_plan(""), Err(PullError::FilesystemSetup));
}

#[test]
fn parent_dir_drops_the_last_segment() {
    assert_eq!(parent_dir("usr/local/bin/app"), "usr/local/bin");
    assert_eq!(parent_dir("app"), "");
}

#[test]
fn test_exit_code_propagation() {
    assert_eq!(exit_code_of(Some(42)), 42);
    assert_eq!(exit_code_of(Some(0)), 0);
    assert_eq!(exit_code_of(None), 1);
}
