use tagdriver::eink::{
    accepts_commands, coalesce, driver_step, retry_decision, run_retries, DriverEvent, DriverState,
    EInkCommand, EInkInterface, EInkResponse, RetryDecision, RetryOutcome, RETRY_CEILING_MS,
};

fn show(tag: u8) -> EInkCommand {
    EInkCommand::Show {
        buffer: vec![tag],
        x: 0,
        y: 0,
        width: 8,
        height: 8,
        with_red: false,
        black_border: false,
        full_refresh: false,
    }
}

#[test]
fn three_queued_frames_leave_the_last() {
    let (run, dropped) = coalesce(vec![show(1), show(2), show(3)]);
    assert_eq!(run, vec![show(3)]);
    assert_eq!(dropped, 2);
}

#[test]
fn indicator_commands_are_not_dropped() {
    let (run, dropped) = coalesce(vec![
        show(1),
        EInkCommand::Led { color: 4 },
        show(2),
        EInkCommand::Led { color: 5 },
    ]);
    assert_eq!(
        run,
        vec![EInkCommand::Led { color: 4 }, show(2), EInkCommand::Led { color: 5 }]
    );
    assert_eq!(dropped, 1);
}

#[test]
fn empty_queue_runs_nothing() {
    let (run, dropped) = coalesce(vec![]);
    assert!(run.is_empty());
    assert_eq!(dropped, 0);
}

#[test]
fn single_frame_is_kept() {
    let (run, dropped) = coalesce(vec![show(7)]);
    assert_eq!(run, vec![show(7)]);
    assert_eq!(dropped, 0);
}

#[test]
fn busy_then_ok_succeeds_after_n_plus_one_sends() {
    for n in 0..5usize {
        let mut replies = vec![EInkResponse::Busy; n];
        replies.push(EInkResponse::OK);
        let elapsed: Vec<u64> = (0..=n as u64).map(|k| k * 100).collect();
        let outcome = run_retries(&replies, &elapsed);
        assert_eq!(outcome, RetryOutcome { decision: RetryDecision::Done, attempts: n + 1 });
    }
}

#[test]
fn busy_forever_is_abandoned_at_the_ceiling() {
    let replies = vec![EInkResponse::Busy; 300];
    let elapsed: Vec<u64> = (0..300u64).map(|k| k * 100).collect();
    let outcome = run_retries(&replies, &elapsed);
    assert_eq!(outcome.decision, RetryDecision::GiveUp);
    assert_eq!(outcome.attempts, 201);
    assert!(elapsed[outcome.attempts - 1] >= RETRY_CEILING_MS);
}

#[test]
fn error_reply_is_abandoned_at_once() {
    let outcome = run_retries(&[EInkResponse::Error, EInkResponse::OK], &[0, 100]);
    assert_eq!(outcome, RetryOutcome { decision: RetryDecision::GiveUp, attempts: 1 });
}

#[test]
fn script_running_out_while_busy_is_still_retrying() {
    let outcome = run_retries(&[EInkResponse::Busy, EInkResponse::Busy], &[0, 100]);
    assert_eq!(outcome, RetryOutcome { decision: RetryDecision::Again, attempts: 2 });
}

#[test]
fn retry_rule() {
    assert_eq!(retry_decision(EInkResponse::OK, 50000), RetryDecision::Done);
    assert_eq!(retry_decision(EInkResponse::Busy, 19999), RetryDecision::Again);
    assert_eq!(retry_decision(EInkResponse::Busy, 20000), RetryDecision::GiveUp);
    assert_eq!(retry_decision(EInkResponse::Error, 0), RetryDecision::GiveUp);
    assert_eq!(retry_decision(EInkResponse::Disconnected, 0), RetryDecision::GiveUp);
}

#[test]
fn driver_life_cycle() {
    let (s, report) = driver_step(DriverState::Resetting, DriverEvent::ResetDone);
    assert_eq!((s, report), (DriverState::Idle, None));
    let (s, report) = driver_step(s, DriverEvent::ShowTaken);
    assert_eq!((s, report), (DriverState::Sending, Some(EInkResponse::Busy)));
    let (s, report) = driver_step(s, DriverEvent::TransferDone);
    assert_eq!((s, report), (DriverState::Idle, Some(EInkResponse::Ready)));
    let (s, report) = driver_step(s, DriverEvent::IoFailure);
    assert_eq!((s, report), (DriverState::Disconnected, Some(EInkResponse::Disconnected)));
    assert!(!accepts_commands(s));
    let (s, report) = driver_step(s, DriverEvent::ResetDone);
    assert_eq!((s, report), (DriverState::Disconnected, None));
    assert!(accepts_commands(DriverState::Idle));
}

#[test]
fn responses_have_log_names() {
    assert_eq!(EInkResponse::OK.describe(), "Ok");
    assert_eq!(EInkResponse::Disconnected.describe(), "Disconnected");
    assert_eq!(EInkResponse::Busy.describe(), "Busy");
}

#[test]
fn interface_rounds_buffer_height_and_builds_commands() {
    let mut panel = EInkInterface::new("port-if00".to_string(), 250, 122);
    assert_eq!(panel.buffer_height, 128);
    panel.black_border = true;
    assert_eq!(
        panel.full(vec![1, 2]),
        EInkCommand::Show {
            buffer: vec![1, 2],
            x: 0,
            y: 0,
            width: 250,
            height: 128,
            with_red: false,
            black_border: true,
            full_refresh: true,
        }
    );
    assert_eq!(
        panel.fast(vec![3]),
        EInkCommand::Show {
            buffer: vec![3],
            x: 0,
            y: 0,
            width: 250,
            height: 128,
            with_red: false,
            black_border: true,
            full_refresh: false,
        }
    );
    assert_eq!(
        panel.partial(vec![4], 8, 16, 32, 24),
        EInkCommand::Show {
            buffer: vec![4],
            x: 8,
            y: 16,
            width: 32,
            height: 24,
            with_red: false,
            black_border: true,
            full_refresh: false,
        }
    );
    assert_eq!(EInkInterface::new("p".to_string(), 300, 400).buffer_height, 400);
}
