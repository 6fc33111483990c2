use avalon_sdk::cross_node_login::{first_wait, initial_poll_interval, poll_step, LoginKind, PollStep};
use avalon_sdk::error::SdkError;

#[test]
fn pending_waits_and_slow_down_doubles_up_to_a_minute() {
    assert_eq!(poll_step(LoginKind::CrossNode, 5, "pending", None), PollStep::Wait(5));
    assert_eq!(poll_step(LoginKind::CrossNode, 5, "slow_down", None), PollStep::Wait(10));
    assert_eq!(poll_step(LoginKind::Device, 40, "slow_down", None), PollStep::Wait(60));
    assert_eq!(poll_step(LoginKind::Device, i64::MAX, "slow_down", None), PollStep::Wait(60));
}

#[test]
fn denial_and_expiry_end_each_kind_of_login() {
    assert_eq!(poll_step(LoginKind::CrossNode, 1, "denied", None), PollStep::Failed(SdkError::CrossNodeLoginDenied));
    assert_eq!(poll_step(LoginKind::Device, 1, "denied", None), PollStep::Failed(SdkError::DeviceLoginDenied));
    assert_eq!(poll_step(LoginKind::CrossNode, 1, "expired", None), PollStep::Failed(SdkError::CrossNodeLoginExpired));
    assert_eq!(poll_step(LoginKind::Device, 1, "anything", None), PollStep::Failed(SdkError::DeviceLoginExpired));
}

#[test]
fn approval_needs_a_token() {
    assert_eq!(
        poll_step(LoginKind::CrossNode, 1, "approved", Some("tok".to_string())),
        PollStep::Approved("tok".to_string())
    );
    assert_eq!(
        poll_step(LoginKind::Device, 1, "approved", None),
        PollStep::Failed(SdkError::Protocol("approved poll response was missing a token".to_string()))
    );
}

#[test]
fn intervals_start_positive() {
    assert_eq!(initial_poll_interval(0), 5);
    assert_eq!(initial_poll_interval(7), 7);
    assert_eq!(first_wait(0), 1);
    assert_eq!(first_wait(3), 3);
}
