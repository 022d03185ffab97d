use svled::transport::{
    average_queue_depth, confirm_step, failure_limit, reply_received, retry_budget,
    serial_reply_mode, timeout_parts, udp_step, Confirmation, FailureStep, ReplyMode, UdpReply,
    Verdict,
};

#[test]
fn valid_ack_resets_the_counter() {
    assert_eq!(
        udp_step(3, 5, UdpReply::Ack),
        FailureStep { failures: 0, verdict: Verdict::Continue }
    );
    assert_eq!(
        udp_step(0, 5, UdpReply::Ack),
        FailureStep { failures: 0, verdict: Verdict::Continue }
    );
}

#[test]
fn timeouts_up_to_the_limit_terminate() {
    let limit = 5;
    let mut failures = 0;
    for n in 1..=limit {
        let step = udp_step(failures, limit, UdpReply::TimedOut);
        assert_eq!(step.failures, n);
        if n < limit {
            assert_eq!(step.verdict, Verdict::Resend);
        } else {
            assert_eq!(step.verdict, Verdict::Terminate);
        }
        failures = step.failures;
    }
}

#[test]
fn success_after_one_timeout_fewer_than_the_limit_leaves_zero() {
    let limit = 4;
    let mut failures = 0;
    for _ in 0..limit - 1 {
        let step = udp_step(failures, limit, UdpReply::TimedOut);
        assert_eq!(step.verdict, Verdict::Resend);
        failures = step.failures;
    }
    assert_eq!(failures, 3);
    assert_eq!(
        udp_step(failures, limit, UdpReply::Ack),
        FailureStep { failures: 0, verdict: Verdict::Continue }
    );
}

#[test]
fn malformed_reply_counts_as_one_failure() {
    assert_eq!(
        udp_step(0, 5, UdpReply::Malformed),
        FailureStep { failures: 1, verdict: Verdict::Continue }
    );
    assert_eq!(
        udp_step(3, 5, UdpReply::Malformed),
        FailureStep { failures: 1, verdict: Verdict::Continue }
    );
    assert_eq!(
        udp_step(0, 1, UdpReply::Malformed),
        FailureStep { failures: 1, verdict: Verdict::Continue }
    );
}

#[test]
fn other_errors_leave_the_counter() {
    assert_eq!(
        udp_step(2, 5, UdpReply::Failed),
        FailureStep { failures: 2, verdict: Verdict::Continue }
    );
}

#[test]
fn counter_does_not_overflow() {
    assert_eq!(
        udp_step(u32::MAX, u32::MAX, UdpReply::TimedOut),
        FailureStep { failures: u32::MAX, verdict: Verdict::Terminate }
    );
}

#[test]
fn limit_of_zero_ends_at_the_first_timeout() {
    assert_eq!(udp_step(0, 0, UdpReply::TimedOut).verdict, Verdict::Terminate);
}

#[test]
fn replies_are_classified() {
    assert_eq!(reply_received(b"BAD"), UdpReply::Malformed);
    assert_eq!(reply_received(&[42, 41, 44]), UdpReply::Ack);
    assert_eq!(reply_received(&[1, 2, 3]), UdpReply::Ack);
}

#[test]
fn defaults_apply_where_nothing_is_configured() {
    assert_eq!(failure_limit(None), 5);
    assert_eq!(failure_limit(Some(9)), 9);
    assert_eq!(retry_budget(None), 200);
    assert_eq!(retry_budget(Some(3)), 3);
}

#[test]
fn reply_mode_prefers_echo() {
    assert_eq!(serial_reply_mode(Some(true), Some(true)), ReplyMode::Echo);
    assert_eq!(serial_reply_mode(Some(true), None), ReplyMode::Echo);
    assert_eq!(serial_reply_mode(Some(false), Some(true)), ReplyMode::Skip);
    assert_eq!(serial_reply_mode(None, Some(true)), ReplyMode::Skip);
    assert_eq!(serial_reply_mode(None, Some(false)), ReplyMode::Confirm);
    assert_eq!(serial_reply_mode(None, None), ReplyMode::Confirm);
}

#[test]
fn confirmation_byte_is_the_queue_depth() {
    assert_eq!(confirm_step(0, 200, Some(7)), Confirmation::Confirmed { queue_depth: 7 });
    assert_eq!(confirm_step(199, 200, Some(0)), Confirmation::Confirmed { queue_depth: 0 });
}

#[test]
fn failed_reads_use_up_the_budget() {
    assert_eq!(confirm_step(0, 3, None), Confirmation::Retry { failed_reads: 1 });
    assert_eq!(confirm_step(1, 3, None), Confirmation::Retry { failed_reads: 2 });
    assert_eq!(confirm_step(2, 3, None), Confirmation::GivenUp { queue_depth: 0 });
    assert_eq!(confirm_step(0, 0, None), Confirmation::GivenUp { queue_depth: 0 });
    assert_eq!(confirm_step(u32::MAX, u32::MAX, None), Confirmation::GivenUp { queue_depth: 0 });
}

#[test]
fn average_queue_depth_rounds_down() {
    assert_eq!(average_queue_depth(&vec![]), None);
    assert_eq!(average_queue_depth(&vec![4]), Some(4));
    assert_eq!(average_queue_depth(&vec![1, 2, 4]), Some(2));
    assert_eq!(average_queue_depth(&vec![255, 255, 255]), Some(255));
    assert_eq!(average_queue_depth(&vec![0, 0, 1]), Some(0));
}

#[test]
fn timeout_is_split_into_seconds_and_nanoseconds() {
    assert_eq!(timeout_parts(0), (0, 0));
    assert_eq!(timeout_parts(200), (0, 200_000_000));
    assert_eq!(timeout_parts(1500), (1, 500_000_000));
    assert_eq!(timeout_parts(u32::MAX), (4_294_967, 295_000_000));
}
