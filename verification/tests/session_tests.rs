use ring::cli_parse::{parse_and_configure, CliCommand};
use ring::iputils::{EchoICMP, IP};
use ring::ring_impl::{
    finalize_stats, loss_percent, make_echo_reply, make_error_reply, receiver_step, round_outcome,
    sender_round, stop_outcome, tally_outcomes, timeout_text, RecvEvent, ReplyClassification,
    RingStats, RoundOutcome, SenderState,
};

fn args(words: &[&str]) -> Vec<String> {
    words.iter().map(|w| w.to_string()).collect()
}

fn run_options(words: &[&str]) -> ring::cli_parse::RingOptions {
    match parse_and_configure(&args(words)).unwrap() {
        CliCommand::Run(o) => o,
        other => panic!("expected a session, got {:?}", other),
    }
}

/// Drive the coordinator's decisions for one session, the responder chosen
/// per round by the caller.
fn simulate<F: FnMut(u16, &Vec<u8>) -> RecvEvent>(
    count: u32,
    v4: bool,
    mut respond: F,
) -> (RingStats, Vec<Option<ReplyClassification>>) {
    let mut e = if v4 {
        EchoICMP::new_v4()
    } else {
        EchoICMP::new()
    };
    let mut buf = vec![0u8; 29];
    e.init_bytes(&mut buf);
    let mut state = SenderState {
        count,
        sent: 0,
        done: false,
    };
    let mut outcomes: Vec<RoundOutcome> = Vec::new();
    let mut seen: Vec<Option<ReplyClassification>> = Vec::new();
    loop {
        e.increase_seq(&mut buf);
        e.update_bytes(&mut buf);
        // the shell would transmit buf here
        let ev = respond(e.seq_num, &buf);
        let step = receiver_step(e.seq_num, &ev, false);
        outcomes.push(step.outcome);
        seen.push(step.classification);
        let stopped = step.stop;
        let cont = sender_round(&mut state, stopped);
        if !cont {
            break;
        }
    }
    let (acked, _lost, discarded) = tally_outcomes(&outcomes);
    (finalize_stats(state.sent, acked, discarded), seen)
}

#[test]
fn session_of_three_to_loopback_acks_all() {
    let opt = run_options(&["ring", "-4", "-c", "3", "127.0.0.1"]);
    assert_eq!(opt.count, 3);
    assert_eq!(opt.ipv, Some(IP::V4));
    assert_eq!(opt.addr, "127.0.0.1");
    let (stats, seen) = simulate(opt.count, true, |_seq, buf| {
        RecvEvent::Reply(make_echo_reply(buf))
    });
    assert_eq!(stats.packet_sent, 3);
    assert_eq!(stats.successful, 3);
    assert_eq!(stats.loss, 0);
    assert_eq!(seen.len(), 3);
    for (k, c) in seen.iter().enumerate() {
        assert_eq!(
            *c,
            Some(ReplyClassification::Echo {
                seq: (k + 1) as u16,
                ttl: 0,
                nbytes: 29
            })
        );
    }
}

#[test]
fn v6_session_of_two_acks_all() {
    let opt = run_options(&["ring", "-6", "-c", "2", "::1"]);
    assert_eq!(opt.count, 2);
    assert_eq!(opt.ipv, Some(IP::V6));
    let (stats, _) = simulate(opt.count, false, |_seq, buf| {
        RecvEvent::Reply(make_echo_reply(buf))
    });
    assert_eq!(stats.packet_sent, 2);
    assert_eq!(stats.successful, 2);
    assert_eq!(stats.loss, 0);
}

#[test]
fn unreachable_destination_times_out_as_total_loss() {
    let opt = run_options(&["ring", "-4", "-c", "1", "-d", "1", "192.0.2.1"]);
    assert_eq!(opt.count, 1);
    assert_eq!(opt.timeout, 1000);
    let (stats, seen) = simulate(opt.count, true, |_seq, _buf| RecvEvent::TimedOut);
    assert_eq!(stats.packet_sent, 1);
    assert_eq!(stats.successful, 0);
    assert_eq!(stats.loss, 1);
    assert_eq!(seen, vec![None]);
    // the inline line the shell prints for the timed-out sequence
    assert_eq!(timeout_text(), "Packet Timed Out");
}

#[test]
fn ttl_exceeded_router_counts_as_loss() {
    let opt = run_options(&["ring", "-4", "-t", "1", "-c", "1", "8.8.8.8"]);
    assert_eq!(opt.ttl, 1);
    let (stats, seen) = simulate(opt.count, true, |_seq, buf| {
        RecvEvent::Reply(make_error_reply(11, 0, buf))
    });
    assert_eq!(stats.packet_sent, 1);
    assert_eq!(stats.successful, 0);
    assert_eq!(stats.loss, 1);
    assert_eq!(
        seen[0],
        Some(ReplyClassification::Error {
            mtype: 11,
            code: 0,
            seq: 1
        })
    );
}

#[test]
fn stop_between_send_and_timeout_discards_the_pending_send() {
    let step = receiver_step(5, &RecvEvent::Stopped, false);
    assert!(step.stop);
    assert_eq!(step.outcome, RoundOutcome::Discarded);
    assert_eq!(step.classification, None);
    // an unbounded session ends by the stop alone, the pending send
    // discarded rather than counted as loss
    let (stats, _) = simulate(0, true, |_seq, _buf| RecvEvent::Stopped);
    assert_eq!(stats.packet_sent, 0);
    assert_eq!(stats.successful, 0);
    assert_eq!(stats.loss, 0);
}

#[test]
fn counts_partition_the_sends() {
    let outcomes = vec![
        RoundOutcome::Acked,
        RoundOutcome::Lost,
        RoundOutcome::Acked,
        RoundOutcome::Discarded,
        RoundOutcome::Lost,
    ];
    let (acked, lost, discarded) = tally_outcomes(&outcomes);
    assert_eq!((acked, lost, discarded), (2, 2, 1));
    assert_eq!(acked + lost + discarded, outcomes.len() as u32);
    let stats = finalize_stats(5, acked, discarded);
    assert_eq!(stats.packet_sent, 4);
    assert_eq!(stats.successful, 2);
    assert_eq!(stats.loss, 2);
    assert_eq!(stats.successful + stats.loss + discarded, 5);
}

#[test]
fn classification_outcomes() {
    let echo = ReplyClassification::Echo {
        seq: 1,
        ttl: 0,
        nbytes: 29,
    };
    assert_eq!(round_outcome(&echo), RoundOutcome::Acked);
    let err = ReplyClassification::Error {
        mtype: 3,
        code: 1,
        seq: 1,
    };
    assert_eq!(round_outcome(&err), RoundOutcome::Lost);
    assert_eq!(round_outcome(&ReplyClassification::Malformed), RoundOutcome::Lost);
    assert_eq!(round_outcome(&ReplyClassification::Noise), RoundOutcome::Discarded);
}

#[test]
fn stop_with_pending_datagram_discards_it() {
    assert_eq!(stop_outcome(true), Some(RoundOutcome::Discarded));
    assert_eq!(stop_outcome(false), None);
}

#[test]
fn sender_exit_test_reaches_the_count_exactly() {
    let mut s = SenderState {
        count: 4,
        sent: 0,
        done: false,
    };
    let mut rounds = 0;
    while sender_round(&mut s, false) {
        rounds += 1;
        assert!(rounds < 100);
    }
    assert!(s.done);
    assert_eq!(s.sent, 4);
}

#[test]
fn unbounded_sender_stops_only_on_the_flag() {
    let mut s = SenderState {
        count: 0,
        sent: 0,
        done: false,
    };
    for _ in 0..50 {
        assert!(sender_round(&mut s, false));
    }
    assert!(!sender_round(&mut s, true));
    assert!(s.done);
    assert_eq!(s.sent, 51);
}

#[test]
fn default_stats_are_zero() {
    let s = RingStats::default();
    assert_eq!((s.packet_sent, s.successful, s.loss), (0, 0, 0));
}

#[test]
fn loss_percentage_of_the_report() {
    assert_eq!(loss_percent(&finalize_stats(3, 3, 0)), 0);
    assert_eq!(loss_percent(&finalize_stats(1, 0, 0)), 100);
    assert_eq!(loss_percent(&finalize_stats(5, 4, 0)), 20);
    assert_eq!(loss_percent(&finalize_stats(0, 0, 0)), 0);
}
