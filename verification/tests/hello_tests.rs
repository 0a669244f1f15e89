use sevenseg::hello::{AppData, CallbackHandle, Hello, ScheduledCall, DRIVER_NUM};
use sevenseg::ReturnCode;

#[test]
fn hello_driver_number_is_fixed() {
    assert_eq!(DRIVER_NUM, 0xa0000000);
}

#[test]
fn app_data_starts_at_zero() {
    let d = AppData::default();
    assert_eq!(d.counter, 0);
}

#[test]
fn probe_hello_has_no_effect() {
    let mut h = Hello::new();
    assert_eq!(h.command(0, 0, 0, 1), ReturnCode::Success);
    assert!(h.grant.is_empty());
    assert_eq!(h.callback, None);
    assert!(h.scheduled.is_empty());
}

#[test]
fn log_command_succeeds_without_state_change() {
    let mut h = Hello::new();
    assert_eq!(h.command(1, 0, 0, 1), ReturnCode::Success);
    assert!(h.grant.is_empty());
    assert!(h.scheduled.is_empty());
}

#[test]
fn unknown_hello_command_is_not_supported() {
    let mut h = Hello::new();
    assert_eq!(h.command(4, 0, 0, 1), ReturnCode::NotSupported);
    assert!(h.grant.is_empty());
}

#[test]
fn counters_are_independent_across_apps() {
    let mut h = Hello::new();
    let a: usize = 10;
    let b: usize = 20;
    assert_eq!(h.command(2, 0, 0, a), ReturnCode::SuccessWithValue { value: 1 });
    assert_eq!(h.command(2, 0, 0, b), ReturnCode::SuccessWithValue { value: 1 });
    assert_eq!(h.command(2, 0, 0, a), ReturnCode::SuccessWithValue { value: 2 });
    assert_eq!(h.command(2, 0, 0, a), ReturnCode::SuccessWithValue { value: 3 });
    assert_eq!(h.command(2, 0, 0, b), ReturnCode::SuccessWithValue { value: 2 });
}

#[test]
fn subscribe_then_notify_schedules_callback() {
    let mut h = Hello::new();
    let cb = CallbackHandle { id: 7 };
    assert_eq!(h.subscribe(0, Some(cb), 1), ReturnCode::Success);
    assert_eq!(h.command(3, 0, 0, 1), ReturnCode::SuccessWithValue { value: 1 });
    assert_eq!(h.scheduled, vec![ScheduledCall { cb, arg0: 1, arg1: 0, arg2: 0 }]);
}

#[test]
fn notify_without_subscription_only_counts() {
    let mut h = Hello::new();
    assert_eq!(h.command(3, 0, 0, 5), ReturnCode::SuccessWithValue { value: 1 });
    assert_eq!(h.command(3, 0, 0, 5), ReturnCode::SuccessWithValue { value: 2 });
    assert!(h.scheduled.is_empty());
}

#[test]
fn resubscription_replaces_the_callback() {
    let mut h = Hello::new();
    let first = CallbackHandle { id: 1 };
    let second = CallbackHandle { id: 2 };
    assert_eq!(h.subscribe(0, Some(first), 1), ReturnCode::Success);
    assert_eq!(h.subscribe(0, Some(second), 1), ReturnCode::Success);
    h.command(3, 0, 0, 1);
    assert_eq!(h.scheduled, vec![ScheduledCall { cb: second, arg0: 1, arg1: 0, arg2: 0 }]);
    assert_eq!(h.subscribe(0, None, 1), ReturnCode::Success);
    h.command(3, 0, 0, 1);
    assert_eq!(h.scheduled.len(), 1);
}

#[test]
fn unknown_subscribe_slot_is_not_supported() {
    let mut h = Hello::new();
    let cb = CallbackHandle { id: 3 };
    assert_eq!(h.subscribe(1, Some(cb), 1), ReturnCode::NotSupported);
    assert_eq!(h.callback, None);
}

#[test]
fn counting_commands_share_one_counter_per_app() {
    let mut h = Hello::new();
    assert_eq!(h.command(2, 0, 0, 9), ReturnCode::SuccessWithValue { value: 1 });
    assert_eq!(h.command(3, 0, 0, 9), ReturnCode::SuccessWithValue { value: 2 });
    assert_eq!(h.command(2, 0, 0, 9), ReturnCode::SuccessWithValue { value: 3 });
}
