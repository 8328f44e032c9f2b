use photon::perf::{
    init, log, on_frame_rendered, on_get_mouse_wheel, on_get_noria_message, on_new_frame_done, on_new_frame_ready,
    on_send_mouse_wheel, on_send_transaction, on_wake_up, pop_message, LogMessage,
};
use std::time::Duration;

#[test]
fn wheel_ids_count_up() {
    let mut perf = init();
    assert_eq!(on_get_mouse_wheel(&mut perf), 0);
    assert_eq!(on_get_mouse_wheel(&mut perf), 1);
    on_send_mouse_wheel(&mut perf, 1);
    on_get_noria_message(&mut perf, vec![1]);
    on_send_transaction(&mut perf, &vec![1]);
    on_wake_up(&mut perf, Duration::from_millis(3));
    on_new_frame_ready(&mut perf);
    on_frame_rendered(&mut perf);
    on_new_frame_done(&mut perf);
    assert_eq!(on_get_mouse_wheel(&mut perf), 2);
}

#[test]
fn messages_leave_in_order() {
    let mut perf = init();
    assert!(pop_message(&mut perf).is_none());
    log(&mut perf, LogMessage::Raw("first".to_string()));
    log(&mut perf, LogMessage::Raw("second".to_string()));
    match pop_message(&mut perf) {
        Some(LogMessage::Raw(s)) => assert_eq!(s, "first"),
        other => panic!("unexpected {:?}", other),
    }
    match pop_message(&mut perf) {
        Some(LogMessage::Raw(s)) => assert_eq!(s, "second"),
        other => panic!("unexpected {:?}", other),
    }
    assert!(pop_message(&mut perf).is_none());
}
