use village_cli::auth::{
    check_access_token, current_token_check, poll_budget, poll_step, PollEvent, PollState,
    TokenCheck,
};

fn token_with_exp(exp: u64) -> String {
    let payload = base64::encode(format!("{{\"exp\":{}}}", exp));
    format!("header.{}.signature", payload)
}

#[test]
fn token_before_expiry_is_valid() {
    let t = token_with_exp(100);
    assert_eq!(check_access_token(&t, 0), TokenCheck::Valid);
    assert_eq!(check_access_token(&t, 99), TokenCheck::Valid);
}

#[test]
fn token_at_or_past_expiry_is_expired() {
    let t = token_with_exp(100);
    assert_eq!(check_access_token(&t, 100), TokenCheck::Expired);
    assert_eq!(check_access_token(&t, 101), TokenCheck::Expired);
}

#[test]
fn unreadable_tokens_are_malformed() {
    assert_eq!(check_access_token("nodotsatall", 0), TokenCheck::Malformed);
    assert_eq!(check_access_token("a.!!!not-base64!!!.b", 0), TokenCheck::Malformed);
    let no_exp = format!("h.{}.s", base64::encode("{}"));
    assert_eq!(check_access_token(&no_exp, 0), TokenCheck::Malformed);
    let not_json = format!("h.{}.s", base64::encode("plain"));
    assert_eq!(check_access_token(&not_json, 0), TokenCheck::Malformed);
}

#[test]
fn clock_based_check_agrees_on_extremes() {
    let far_future = token_with_exp(u64::MAX);
    assert_eq!(current_token_check(&far_future), TokenCheck::Valid);
    let long_past = token_with_exp(0);
    assert_eq!(current_token_check(&long_past), TokenCheck::Expired);
    assert_eq!(current_token_check("garbage"), TokenCheck::Malformed);
}

#[test]
fn poll_budget_covers_the_code_lifetime() {
    assert_eq!(poll_budget(300, 5), 60);
    assert_eq!(poll_budget(3, 0), 3);
    assert_eq!(poll_budget(0, 5), 1);
    assert_eq!(poll_budget(7, 2), 3);
}

#[test]
fn poll_steps_follow_the_state_machine() {
    assert_eq!(poll_step(10, PollEvent::Approved), PollState::Approved);
    assert_eq!(poll_step(1, PollEvent::Approved), PollState::Approved);
    assert_eq!(poll_step(10, PollEvent::Denied), PollState::Failed);
    assert_eq!(poll_step(10, PollEvent::NotYet), PollState::Pending { polls_left: 9 });
    assert_eq!(
        poll_step(10, PollEvent::TransportFailure),
        PollState::Pending { polls_left: 9 }
    );
    assert_eq!(poll_step(1, PollEvent::NotYet), PollState::Expired);
    assert_eq!(poll_step(0, PollEvent::TransportFailure), PollState::Expired);
}
