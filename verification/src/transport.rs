//! What to do with the reply to a command: the count of consecutive
//! failures of the datagram transport, and the wait for the confirmation
//! byte of the serial transport.

use vstd::prelude::*;

verus! {

/// Failures in a row that are tolerated when the configuration names no limit.
pub const DEFAULT_FAILURE_LIMIT: u32 = 5;

/// Failed reads of the confirmation byte that are tolerated when the
/// configuration names no budget.
pub const DEFAULT_RETRY_BUDGET: u32 = 200;

/// What the attempt to receive the reply to a datagram brought.
#[derive(Clone, Copy, Debug, PartialEq, Eq, Structural)]
pub enum UdpReply {
    /// A reply arrived and is no report of a malformed packet.
    Ack,
    /// A reply arrived: the device could not read the packet.
    Malformed,
    /// Nothing arrived within the read timeout.
    TimedOut,
    /// Receiving failed for another reason.
    Failed,
}

/// What the caller does after a reply.
#[derive(Clone, Copy, Debug, PartialEq, Eq, Structural)]
pub enum Verdict {
    /// Go on with the next command.
    Continue,
    /// Send the same datagram once more, without waiting for a reply.
    Resend,
    /// Too many failures in a row: the process ends.
    Terminate,
}

/// The failure count after a reply, and what to do next.
#[derive(Clone, Copy, Debug, PartialEq, Eq, Structural)]
pub struct FailureStep {
    pub failures: u32,
    pub verdict: Verdict,
}

/// One more failure, without leaving the range of the counter.
pub open spec fn one_more(failures: u32) -> u32 {
    if failures < u32::MAX {
        (failures + 1) as u32
    } else {
        failures
    }
}

/// The rule for one reply.
///
/// A reply that arrived resets the count; a report of a malformed packet
/// then counts as one failure, and the caller goes on. A timeout adds one
/// failure: where that brings the count to the limit the process ends,
/// below the limit the datagram is sent again. Any other error leaves the
/// count as it is.
pub open spec fn failure_step(failures: u32, limit: u32, reply: UdpReply) -> FailureStep {
    match reply {
        UdpReply::Ack => FailureStep { failures: 0, verdict: Verdict::Continue },
        UdpReply::Malformed => FailureStep { failures: 1, verdict: Verdict::Continue },
        UdpReply::TimedOut => FailureStep {
            failures: one_more(failures),
            verdict: if one_more(failures) >= limit {
                Verdict::Terminate
            } else {
                Verdict::Resend
            },
        },
        UdpReply::Failed => FailureStep { failures, verdict: Verdict::Continue },
    }
}

/// The count and the verdict after a run of replies, starting from
/// `failures`. The run ends early at the first reply that ends the process.
pub open spec fn failure_run(failures: u32, limit: u32, replies: Seq<UdpReply>) -> FailureStep
    decreases replies.len(),
{
    if replies.len() == 0 {
        FailureStep { failures, verdict: Verdict::Continue }
    } else {
        let first = failure_step(failures, limit, replies[0]);
        if first.verdict == Verdict::Terminate || replies.len() == 1 {
            first
        } else {
            failure_run(first.failures, limit, replies.drop_first())
        }
    }
}

/// A run of `count` timeouts.
pub open spec fn timeouts(count: nat) -> Seq<UdpReply> {
    Seq::new(count, |i: int| UdpReply::TimedOut)
}

/// The limit in force: the configured one, or the default.
pub fn failure_limit(configured: Option<u32>) -> (limit: u32)
    ensures
        limit == match configured {
            Some(value) => value,
            None => DEFAULT_FAILURE_LIMIT,
        },
{
    match configured {
        Some(value) => value,
        None => DEFAULT_FAILURE_LIMIT,
    }
}

/// Tells the kind of a reply that arrived.
pub fn reply_received(reply: &[u8; 3]) -> (kind: UdpReply)
    ensures
        kind == if reply@ == crate::wire::malformed_reply() {
            UdpReply::Malformed
        } else {
            UdpReply::Ack
        },
{
    if crate::wire::is_malformed_reply(reply) {
        UdpReply::Malformed
    } else {
        UdpReply::Ack
    }
}

/// Applies the rule for one reply to the count of failures in a row.
pub fn udp_step(failures: u32, limit: u32, reply: UdpReply) -> (step: FailureStep)
    ensures
        step == failure_step(failures, limit, reply),
{
    match reply {
        UdpReply::Ack => FailureStep { failures: 0, verdict: Verdict::Continue },
        UdpReply::Malformed => FailureStep { failures: 1, verdict: Verdict::Continue },
        UdpReply::TimedOut => {
            let raised: u32 = if failures < u32::MAX {
                failures + 1
            } else {
                failures
            };
            if raised >= limit {
                FailureStep { failures: raised, verdict: Verdict::Terminate }
            } else {
                FailureStep { failures: raised, verdict: Verdict::Resend }
            }
        },
        UdpReply::Failed => FailureStep { failures, verdict: Verdict::Continue },
    }
}

/// Fewer timeouts in a row than the limit, counted from zero, leave the
/// process running with the count equal to their number.
pub proof fn lemma_timeouts_below_limit(limit: u32, count: nat)
    requires
        1 <= count < limit,
    ensures
        failure_run(0, limit, timeouts(count)) == (FailureStep {
            failures: count as u32,
            verdict: Verdict::Resend,
        }),
{
    lemma_timeouts_from(0, limit, count);
}

/// As many timeouts in a row as the limit, counted from zero, end the
/// process.
pub proof fn lemma_timeouts_reach_limit(limit: u32)
    requires
        limit >= 1,
    ensures
        failure_run(0, limit, timeouts(limit as nat)).verdict == Verdict::Terminate,
        failure_run(0, limit, timeouts(limit as nat)).failures == limit,
{
    lemma_timeouts_from(0, limit, limit as nat);
}

/// One timeout fewer than the limit and then a reply that arrived leave the
/// count at zero and the process running.
pub proof fn lemma_ack_after_timeouts(limit: u32)
    requires
        limit >= 1,
    ensures
        failure_run(0, limit, timeouts((limit - 1) as nat).push(UdpReply::Ack)) == (FailureStep {
            failures: 0,
            verdict: Verdict::Continue,
        }),
{
    lemma_run_then_ack(0, limit, (limit - 1) as nat);
}

/// A run of timeouts from any count below the limit: it ends the process
/// exactly when it brings the count to the limit.
proof fn lemma_timeouts_from(start: u32, limit: u32, count: nat)
    requires
        count >= 1,
        start + count <= limit,
    ensures
        failure_run(start, limit, timeouts(count)).failures == start + count,
        failure_run(start, limit, timeouts(count)).verdict == if start + count == limit {
            Verdict::Terminate
        } else {
            Verdict::Resend
        },
    decreases count,
{
    let run = timeouts(count);
    assert(run[0] == UdpReply::TimedOut);
    if count > 1 {
        assert(run.drop_first() =~= timeouts((count - 1) as nat));
        lemma_timeouts_from((start + 1) as u32, limit, (count - 1) as nat);
    }
}

/// A run of timeouts that stays below the limit, followed by a reply that
/// arrived.
proof fn lemma_run_then_ack(start: u32, limit: u32, count: nat)
    requires
        start + count < limit,
    ensures
        failure_run(start, limit, timeouts(count).push(UdpReply::Ack)) == (FailureStep {
            failures: 0,
            verdict: Verdict::Continue,
        }),
    decreases count,
{
    let run = timeouts(count).push(UdpReply::Ack);
    if count == 0 {
        assert(run[0] == UdpReply::Ack);
    } else {
        assert(run[0] == UdpReply::TimedOut);
        assert(run.drop_first() =~= timeouts((count - 1) as nat).push(UdpReply::Ack));
        lemma_run_then_ack((start + 1) as u32, limit, (count - 1) as nat);
    }
}

/// How the reply to a serial frame is read.
#[derive(Clone, Copy, Debug, PartialEq, Eq, Structural)]
pub enum ReplyMode {
    /// Read the longer diagnostic frame and log it; no confirmation byte is
    /// asked for.
    Echo,
    /// Read nothing.
    Skip,
    /// Read exactly one confirmation byte.
    Confirm,
}

/// The mode that the configuration asks for: echo wins over skipping, and
/// without either the confirmation byte is read.
pub open spec fn reply_mode_of(print_send_back: Option<bool>, skip_confirmation: Option<bool>)
    -> ReplyMode {
    if print_send_back == Some(true) {
        ReplyMode::Echo
    } else if skip_confirmation == Some(true) {
        ReplyMode::Skip
    } else {
        ReplyMode::Confirm
    }
}

/// Picks the way in which the reply to a serial frame is read.
pub fn serial_reply_mode(print_send_back: Option<bool>, skip_confirmation: Option<bool>) -> (mode:
    ReplyMode)
    ensures
        mode == reply_mode_of(print_send_back, skip_confirmation),
{
    match print_send_back {
        Some(true) => ReplyMode::Echo,
        _ => match skip_confirmation {
            Some(true) => ReplyMode::Skip,
            _ => ReplyMode::Confirm,
        },
    }
}

/// The number of failed reads after which the wait for the confirmation
/// byte is given up: the configured read timeout, taken as a count of
/// attempts and not as milliseconds, or the default.
pub fn retry_budget(serial_read_timeout: Option<u32>) -> (budget: u32)
    ensures
        budget == match serial_read_timeout {
            Some(value) => value,
            None => DEFAULT_RETRY_BUDGET,
        },
{
    match serial_read_timeout {
        Some(value) => value,
        None => DEFAULT_RETRY_BUDGET,
    }
}

/// Where the wait for the confirmation byte stands after one read.
#[derive(Clone, Copy, Debug, PartialEq, Eq, Structural)]
pub enum Confirmation {
    /// The byte arrived: it is the queue depth that the controller reports.
    Confirmed { queue_depth: u8 },
    /// The read failed and the budget is not used up: read again. The count
    /// of failed reads so far is carried along.
    Retry { failed_reads: u32 },
    /// The read failed and the budget is used up: go on without the byte. A
    /// queue depth of zero is recorded.
    GivenUp { queue_depth: u8 },
}

/// The rule for one read of the confirmation byte.
pub open spec fn confirmation_step(failed_reads: u32, budget: u32, read: Option<u8>)
    -> Confirmation {
    match read {
        Some(byte) => Confirmation::Confirmed { queue_depth: byte },
        None => if one_more(failed_reads) >= budget {
            Confirmation::GivenUp { queue_depth: 0 }
        } else {
            Confirmation::Retry { failed_reads: one_more(failed_reads) }
        },
    }
}

/// Decides, after one read of the confirmation byte, whether the wait is
/// over. `read` is the byte that arrived, or `None` where the read failed;
/// `failed_reads` counts the failed reads before this one.
pub fn confirm_step(failed_reads: u32, budget: u32, read: Option<u8>) -> (next: Confirmation)
    ensures
        next == confirmation_step(failed_reads, budget, read),
{
    match read {
        Some(byte) => Confirmation::Confirmed { queue_depth: byte },
        None => {
            let raised: u32 = if failed_reads < u32::MAX {
                failed_reads + 1
            } else {
                failed_reads
            };
            if raised >= budget {
                Confirmation::GivenUp { queue_depth: 0 }
            } else {
                Confirmation::Retry { failed_reads: raised }
            }
        },
    }
}

/// The sum of the queue depths in `depths`.
pub open spec fn depth_sum(depths: Seq<u8>) -> nat
    decreases depths.len(),
{
    if depths.len() == 0 {
        0
    } else {
        depth_sum(depths.drop_last()) + depths.last() as nat
    }
}

/// The average queue depth that a worker saw, rounded down; `None` where it
/// saw none.
pub fn average_queue_depth(depths: &Vec<u8>) -> (average: Option<u8>)
    ensures
        depths@.len() == 0 ==> average is None,
        depths@.len() > 0 ==> average == Some((depth_sum(depths@) / depths@.len()) as u8),
        depths@.len() > 0 ==> depth_sum(depths@) / depths@.len() <= 255,
{
    if depths.len() == 0 {
        return None;
    }
    let mut total: u128 = 0;
    let mut seen: usize = 0;
    while seen < depths.len()
        invariant
            seen <= depths@.len(),
            total == depth_sum(depths@.take(seen as int)),
            total <= 255 * seen,
        decreases depths@.len() - seen,
    {
        proof {
            assert(depths@.take(seen as int + 1).drop_last() =~= depths@.take(seen as int));
            assert(depths@.take(seen as int + 1).last() == depths@[seen as int]);
        }
        total = total + depths[seen] as u128;
        seen = seen + 1;
    }
    let count: u128 = depths.len() as u128;
    proof {
        assert(depths@.take(seen as int) =~= depths@);
        assert(total / count <= 255) by (nonlinear_arith)
            requires
                total <= 255 * count,
                count > 0,
        ;
    }
    Some((total / count) as u8)
}

/// A read timeout of `millis` milliseconds as whole seconds and the
/// nanoseconds that are left.
pub fn timeout_parts(millis: u32) -> (parts: (u64, u32))
    ensures
        parts.0 == millis / 1000,
        parts.1 == (millis % 1000) * 1_000_000,
        parts.1 < 1_000_000_000,
{
    ((millis / 1000) as u64, (millis % 1000) * 1_000_000)
}

} // verus!
