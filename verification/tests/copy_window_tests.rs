use webgal_craft::copy_progress::{CopyEvent, ProgressTracker};
use webgal_craft::errors::AppError;
use webgal_craft::window_target::{classify_window_target, WindowTarget};

#[test]
fn progress_reports_only_whole_percent_steps() {
    let mut t = ProgressTracker::new(200);
    // 1 of 200 is below one percent: nothing to report yet
    assert!(t.record_copied().is_none());
    // 2 of 200 reaches one percent
    match t.record_copied() {
        Some(CopyEvent::Progress { progress, copied_files, total_files }) => {
            assert_eq!(progress, 1);
            assert_eq!(copied_files, 2);
            assert_eq!(total_files, 200);
        },
        _ => panic!("expected a progress event"),
    }
    // 3 of 200 is still one percent: no new report
    assert!(t.record_copied().is_none());
}

#[test]
fn progress_reaches_one_hundred_percent() {
    let mut t = ProgressTracker::new(4);
    match t.record_copied() {
        Some(CopyEvent::Progress { progress, .. }) => assert_eq!(progress, 25),
        _ => panic!("expected a progress event"),
    }
    let _ = t.record_copied();
    let _ = t.record_copied();
    match t.record_copied() {
        Some(CopyEvent::Progress { progress, copied_files, total_files }) => {
            assert_eq!(progress, 100);
            assert_eq!(copied_files, 4);
            assert_eq!(total_files, 4);
        },
        _ => panic!("expected the final progress event"),
    }
}

#[test]
fn web_targets_open_externally() {
    match classify_window_target(String::from("http://localhost:3000/")) {
        WindowTarget::External { url } => assert_eq!(url, "http://localhost:3000/"),
        _ => panic!("expected an external target"),
    }
    match classify_window_target(String::from("https://example.com")) {
        WindowTarget::External { url } => assert_eq!(url, "https://example.com"),
        _ => panic!("expected an external target"),
    }
}

#[test]
fn app_routes_gain_a_leading_slash() {
    match classify_window_target(String::from("settings")) {
        WindowTarget::App { route } => assert_eq!(route, "/settings"),
        _ => panic!("expected an in-app route"),
    }
    match classify_window_target(String::from("/editor")) {
        WindowTarget::App { route } => assert_eq!(route, "/editor"),
        _ => panic!("expected an in-app route"),
    }
    match classify_window_target(String::from("")) {
        WindowTarget::App { route } => assert_eq!(route, "/"),
        _ => panic!("expected an in-app route"),
    }
}

#[test]
fn error_messages_are_carried_verbatim() {
    let e = AppError::Server(String::from("no usable listen port"));
    assert_eq!(e.message().as_str(), "no usable listen port");
    let e = AppError::Config(String::from("bad line"));
    assert_eq!(e.message().as_str(), "bad line");
    let e = AppError::Io(String::from("gone"));
    assert_eq!(e.message().as_str(), "gone");
    let e = AppError::Image(String::from("undecodable"));
    assert_eq!(e.message().as_str(), "undecodable");
}
