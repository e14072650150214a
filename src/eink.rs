use vstd::prelude::*;

verus! {

/// What a panel driver reports back to the host.
#[derive(Clone, Copy, Debug, PartialEq, Eq, Structural)]
pub enum EInkResponse {
    OK,
    Ready,
    Busy,
    Error,
    Disconnected,
}

impl EInkResponse {
    /// The response's name as shown in logs.
    pub fn describe(&self) -> (r: String)
        ensures
            r@ == response_name(*self),
    {
        let s = match self {
            EInkResponse::OK => "Ok",
            EInkResponse::Ready => "Ready",
            EInkResponse::Busy => "Busy",
            EInkResponse::Error => "Error",
            EInkResponse::Disconnected => "Disconnected",
        };
        proof {
            reveal_strlit("Ok");
            reveal_strlit("Ready");
            reveal_strlit("Busy");
            reveal_strlit("Error");
            reveal_strlit("Disconnected");
        }
        s.to_string()
    }
}

/// The log name of each response.
pub open spec fn response_name(r: EInkResponse) -> Seq<char> {
    match r {
        EInkResponse::OK => seq!['O', 'k'],
        EInkResponse::Ready => seq!['R', 'e', 'a', 'd', 'y'],
        EInkResponse::Busy => seq!['B', 'u', 's', 'y'],
        EInkResponse::Error => seq!['E', 'r', 'r', 'o', 'r'],
        EInkResponse::Disconnected => seq!['D', 'i', 's', 'c', 'o', 'n', 'n', 'e', 'c', 't', 'e', 'd'],
    }
}


/// A request to a panel driver.
#[derive(Clone, Debug, PartialEq)]
pub enum EInkCommand {
    /// Transfer an image region and show it.
    Show {
        buffer: Vec<u8>,
        x: u32,
        y: u32,
        width: u32,
        height: u32,
        with_red: bool,
        black_border: bool,
        full_refresh: bool,
    },
    /// Set the indicator light.
    Led { color: u8 },
}

/// Whether a command is an image to show.
pub open spec fn is_show(c: EInkCommand) -> bool {
    c is Show
}

impl EInkCommand {
    /// Whether this command is an image to show.
    pub fn is_show(&self) -> (r: bool)
        ensures
            r == is_show(*self),
    {
        match self {
            EInkCommand::Show { .. } => true,
            EInkCommand::Led { .. } => false,
        }
    }
}

/// Pause before a command is sent again after a busy reply, in milliseconds.
pub const BUSY_DELAY_MS: u64 = 100;

/// Time after which a command that keeps meeting busy replies is given up, in milliseconds.
pub const RETRY_CEILING_MS: u64 = 20000;

/// What to do after a reply to a command.
#[derive(Clone, Copy, Debug, PartialEq, Eq, Structural)]
pub enum RetryDecision {
    /// The command succeeded.
    Done,
    /// The panel is busy: wait the backoff interval, then send the same command again.
    Again,
    /// The command is abandoned.
    GiveUp,
}

/// The busy-retry rule: success ends the command; a busy reply is retried
/// while less than the ceiling has elapsed since the first send; anything
/// else abandons it.
pub open spec fn decide(reply: EInkResponse, elapsed_ms: u64) -> RetryDecision {
    match reply {
        EInkResponse::OK => RetryDecision::Done,
        EInkResponse::Busy => if elapsed_ms < RETRY_CEILING_MS {
            RetryDecision::Again
        } else {
            RetryDecision::GiveUp
        },
        _ => RetryDecision::GiveUp,
    }
}

/// Applies the busy-retry rule to one reply, received `elapsed_ms` after the first send.
pub fn retry_decision(reply: EInkResponse, elapsed_ms: u64) -> (r: RetryDecision)
    ensures
        r == decide(reply, elapsed_ms),
{
    match reply {
        EInkResponse::OK => RetryDecision::Done,
        EInkResponse::Busy => if elapsed_ms < RETRY_CEILING_MS {
            RetryDecision::Again
        } else {
            RetryDecision::GiveUp
        },
        _ => RetryDecision::GiveUp,
    }
}

/// The end of a run of retries: its last decision and how many times the command was sent.
#[derive(Clone, Copy, Debug, PartialEq, Eq, Structural)]
pub struct RetryOutcome {
    pub decision: RetryDecision,
    pub attempts: usize,
}

/// The run of the retry rule over scripted replies from position `i` on;
/// `Again` means that the script ran out while the command was still retried.
pub open spec fn retry_from(replies: Seq<EInkResponse>, elapsed: Seq<u64>, i: nat) -> RetryOutcome
    decreases replies.len() - i,
{
    if i >= replies.len() {
        RetryOutcome { decision: RetryDecision::Again, attempts: replies.len() as usize }
    } else {
        let d = decide(replies[i as int], elapsed[i as int]);
        if d == RetryDecision::Again {
            retry_from(replies, elapsed, i + 1)
        } else {
            RetryOutcome { decision: d, attempts: (i + 1) as usize }
        }
    }
}

/// Sends a command against a scripted transport: `replies[k]` is the reply to
/// the `k`-th send and `elapsed[k]` the time since the first send at which it came.
pub fn run_retries(replies: &[EInkResponse], elapsed: &[u64]) -> (r: RetryOutcome)
    requires
        replies@.len() == elapsed@.len(),
    ensures
        r == retry_from(replies@, elapsed@, 0),
{
    let n: usize = replies.len();
    let mut i: usize = 0;
    while i < n
        invariant
            n == replies@.len(),
            n == elapsed@.len(),
            0 <= i <= n,
            retry_from(replies@, elapsed@, i as nat) == retry_from(replies@, elapsed@, 0),
        decreases n - i,
    {
        let d = retry_decision(replies[i], elapsed[i]);
        match d {
            RetryDecision::Again => {},
            _ => {
                return RetryOutcome { decision: d, attempts: i + 1 };
            },
        }
        i = i + 1;
    }
    RetryOutcome { decision: RetryDecision::Again, attempts: n }
}

proof fn lemma_busy_prefix(replies: Seq<EInkResponse>, elapsed: Seq<u64>, n: nat, i: nat)
    requires
        replies.len() == elapsed.len(),
        replies.len() <= usize::MAX,
        n < replies.len(),
        i <= n,
        forall|k: int| 0 <= k < n ==> replies[k] == EInkResponse::Busy,
        forall|k: int| 0 <= k < n ==> elapsed[k] < RETRY_CEILING_MS,
        replies[n as int] == EInkResponse::OK,
    ensures
        retry_from(replies, elapsed, i) == (RetryOutcome {
            decision: RetryDecision::Done,
            attempts: (n + 1) as usize,
        }),
    decreases n - i,
{
    if i < n {
        lemma_busy_prefix(replies, elapsed, n, i + 1);
    }
}

/// A command whose first `n` replies are busy, all within the ceiling, and
/// whose next reply is success, succeeds after exactly `n + 1` sends.
pub proof fn lemma_busy_then_ok(replies: Seq<EInkResponse>, elapsed: Seq<u64>, n: nat)
    requires
        replies.len() == elapsed.len(),
        replies.len() <= usize::MAX,
        n < replies.len(),
        forall|k: int| 0 <= k < n ==> replies[k] == EInkResponse::Busy,
        forall|k: int| 0 <= k < n ==> elapsed[k] < RETRY_CEILING_MS,
        replies[n as int] == EInkResponse::OK,
    ensures
        retry_from(replies, elapsed, 0) == (RetryOutcome {
            decision: RetryDecision::Done,
            attempts: (n + 1) as usize,
        }),
{
    lemma_busy_prefix(replies, elapsed, n, 0);
}

proof fn lemma_busy_from(replies: Seq<EInkResponse>, elapsed: Seq<u64>, m: nat, i: nat)
    requires
        replies.len() == elapsed.len(),
        replies.len() <= usize::MAX,
        m < replies.len(),
        i <= m,
        forall|k: int| 0 <= k < replies.len() ==> replies[k] == EInkResponse::Busy,
        elapsed[m as int] >= RETRY_CEILING_MS,
    ensures
        retry_from(replies, elapsed, i).decision == RetryDecision::GiveUp,
        i < retry_from(replies, elapsed, i).attempts <= m + 1,
        elapsed[retry_from(replies, elapsed, i).attempts - 1] >= RETRY_CEILING_MS,
    decreases m - i,
{
    if elapsed[i as int] < RETRY_CEILING_MS {
        lemma_busy_from(replies, elapsed, m, i + 1);
    }
}

/// A command that only ever meets busy replies is abandoned, at the first
/// reply that comes once the ceiling has elapsed, and no later.
pub proof fn lemma_busy_forever(replies: Seq<EInkResponse>, elapsed: Seq<u64>, m: nat)
    requires
        replies.len() == elapsed.len(),
        replies.len() <= usize::MAX,
        m < replies.len(),
        forall|k: int| 0 <= k < replies.len() ==> replies[k] == EInkResponse::Busy,
        elapsed[m as int] >= RETRY_CEILING_MS,
    ensures
        retry_from(replies, elapsed, 0).decision == RetryDecision::GiveUp,
        retry_from(replies, elapsed, 0).attempts <= m + 1,
        elapsed[retry_from(replies, elapsed, 0).attempts - 1] >= RETRY_CEILING_MS,
        forall|k: int|
            0 <= k < retry_from(replies, elapsed, 0).attempts - 1 ==> elapsed[k] < RETRY_CEILING_MS,
{
    lemma_busy_from(replies, elapsed, m, 0);
    lemma_first_give_up(replies, elapsed, 0);
}

proof fn lemma_first_give_up(replies: Seq<EInkResponse>, elapsed: Seq<u64>, i: nat)
    requires
        replies.len() == elapsed.len(),
        replies.len() <= usize::MAX,
        forall|k: int| 0 <= k < replies.len() ==> replies[k] == EInkResponse::Busy,
    ensures
        forall|k: int|
            i <= k < retry_from(replies, elapsed, i).attempts - 1 ==> elapsed[k] < RETRY_CEILING_MS,
    decreases replies.len() - i,
{
    if i < replies.len() && elapsed[i as int] < RETRY_CEILING_MS {
        lemma_first_give_up(replies, elapsed, i + 1);
    }
}

/// Position of the last image among the first `n` queued commands, or -1.
pub open spec fn last_show_upto(p: Seq<EInkCommand>, n: nat) -> int
    decreases n,
{
    if n == 0 {
        -1
    } else if is_show(p[n - 1]) {
        n - 1
    } else {
        last_show_upto(p, (n - 1) as nat)
    }
}

/// Position of the last queued image, or -1 if none is queued.
pub open spec fn last_show(p: Seq<EInkCommand>) -> int {
    last_show_upto(p, p.len())
}

/// A queued command is executed unless it is an image that a later image supersedes.
pub open spec fn kept(p: Seq<EInkCommand>, i: int) -> bool {
    !is_show(p[i]) || i == last_show(p)
}

/// The commands among the first `n` that are executed, in queue order.
pub open spec fn kept_upto(p: Seq<EInkCommand>, n: nat) -> Seq<EInkCommand>
    decreases n,
{
    if n == 0 {
        Seq::empty()
    } else if kept(p, n - 1) {
        kept_upto(p, (n - 1) as nat).push(p[n - 1])
    } else {
        kept_upto(p, (n - 1) as nat)
    }
}

/// How many of the first `n` commands are dropped.
pub open spec fn dropped_upto(p: Seq<EInkCommand>, n: nat) -> nat
    decreases n,
{
    if n == 0 {
        0
    } else if kept(p, n - 1) {
        dropped_upto(p, (n - 1) as nat)
    } else {
        dropped_upto(p, (n - 1) as nat) + 1
    }
}

proof fn lemma_last_show_bounds(p: Seq<EInkCommand>, n: nat)
    requires
        n <= p.len(),
    ensures
        -1 <= last_show_upto(p, n) < n,
        last_show_upto(p, n) >= 0 ==> is_show(p[last_show_upto(p, n)]),
        forall|j: int| last_show_upto(p, n) < j < n ==> !is_show(p[j]),
    decreases n,
{
    if n > 0 {
        lemma_last_show_bounds(p, (n - 1) as nat);
    }
}

proof fn lemma_dropped_bound(p: Seq<EInkCommand>, n: nat)
    ensures
        dropped_upto(p, n) <= n,
    decreases n,
{
    if n > 0 {
        lemma_dropped_bound(p, (n - 1) as nat);
    }
}

/// Number of images among the first `n` commands.
pub open spec fn show_count(p: Seq<EInkCommand>, n: nat) -> nat
    decreases n,
{
    if n == 0 {
        0
    } else {
        show_count(p, (n - 1) as nat) + if is_show(p[n - 1]) {
            1nat
        } else {
            0nat
        }
    }
}

proof fn lemma_show_count_prefix(s: Seq<EInkCommand>, x: EInkCommand, m: nat)
    requires
        m <= s.len(),
    ensures
        show_count(s.push(x), m) == show_count(s, m),
    decreases m,
{
    if m > 0 {
        lemma_show_count_prefix(s, x, (m - 1) as nat);
        assert(s.push(x)[m - 1] == s[m - 1]);
    }
}

proof fn lemma_last_show_exists(p: Seq<EInkCommand>, n: nat)
    requires
        n <= p.len(),
    ensures
        (last_show_upto(p, n) >= 0) == (show_count(p, n) > 0),
    decreases n,
{
    if n > 0 {
        lemma_last_show_exists(p, (n - 1) as nat);
    }
}

proof fn lemma_kept_counts(p: Seq<EInkCommand>, n: nat)
    requires
        n <= p.len(),
    ensures
        show_count(kept_upto(p, n), kept_upto(p, n).len()) == (if 0 <= last_show(p) < n {
            1nat
        } else {
            0nat
        }),
        dropped_upto(p, n) + (if 0 <= last_show(p) < n {
            1nat
        } else {
            0nat
        }) == show_count(p, n),
        forall|k: int|
            0 <= k < kept_upto(p, n).len() && is_show(#[trigger] kept_upto(p, n)[k])
                ==> kept_upto(p, n)[k] == p[last_show(p)],
    decreases n,
{
    lemma_last_show_bounds(p, p.len());
    if n > 0 {
        let m = (n - 1) as nat;
        lemma_kept_counts(p, m);
        let prev = kept_upto(p, m);
        if kept(p, m as int) {
            lemma_show_count_prefix(prev, p[m as int], prev.len());
            assert(kept_upto(p, n) == prev.push(p[m as int]));
            assert forall|k: int|
                0 <= k < kept_upto(p, n).len() && is_show(#[trigger] kept_upto(p, n)[k])
                    implies kept_upto(p, n)[k] == p[last_show(p)] by {
                if k < prev.len() {
                    assert(kept_upto(p, n)[k] == prev[k]);
                }
            }
        }
    }
}

/// Of any queue of commands, exactly the last image survives coalescing: the
/// commands executed hold one image if any was queued, and it is the last
/// one queued, while every other queued image is counted as dropped.
pub proof fn lemma_latest_frame_survives(p: Seq<EInkCommand>)
    ensures
        show_count(kept_upto(p, p.len()), kept_upto(p, p.len()).len()) == (if show_count(
            p,
            p.len(),
        ) > 0 {
            1nat
        } else {
            0nat
        }),
        forall|k: int|
            0 <= k < kept_upto(p, p.len()).len() && is_show(#[trigger] kept_upto(p, p.len())[k])
                ==> kept_upto(p, p.len())[k] == p[last_show(p)],
        show_count(p, p.len()) > 0 ==> dropped_upto(p, p.len()) + 1 == show_count(p, p.len()),
        show_count(p, p.len()) == 0 ==> dropped_upto(p, p.len()) == 0,
{
    lemma_kept_counts(p, p.len());
    lemma_last_show_exists(p, p.len());
    lemma_last_show_bounds(p, p.len());
}

/// Takes the commands queued while the previous one was processed and keeps
/// those to execute, in queue order: every image but the last is dropped as
/// superseded. Also returns how many were dropped.
pub fn coalesce(pending: Vec<EInkCommand>) -> (r: (Vec<EInkCommand>, usize))
    ensures
        r.0@ == kept_upto(pending@, pending@.len()),
        r.1 == dropped_upto(pending@, pending@.len()),
{
    let ghost orig = pending@;
    let n: usize = pending.len();
    let mut last: usize = n;
    let mut j: usize = 0;
    while j < n
        invariant
            n == orig.len(),
            pending@ == orig,
            0 <= j <= n,
            last == (if last_show_upto(orig, j as nat) < 0 {
                n as int
            } else {
                last_show_upto(orig, j as nat)
            }),
        decreases n - j,
    {
        if pending[j].is_show() {
            last = j;
        }
        j = j + 1;
    }
    proof {
        lemma_last_show_bounds(orig, n as nat);
    }
    let mut rest = pending;
    let mut out: Vec<EInkCommand> = Vec::new();
    let mut dropped: usize = 0;
    let mut i: usize = 0;
    while i < n
        invariant
            n == orig.len(),
            0 <= i <= n,
            rest@ == orig.subrange(i as int, n as int),
            last == (if last_show(orig) < 0 {
                n as int
            } else {
                last_show(orig)
            }),
            out@ == kept_upto(orig, i as nat),
            dropped == dropped_upto(orig, i as nat),
        decreases n - i,
    {
        proof {
            lemma_dropped_bound(orig, i as nat);
        }
        let c = rest.remove(0);
        assert(c == orig[i as int]);
        let keep = !c.is_show() || i == last;
        assert(keep == kept(orig, i as int));
        if keep {
            out.push(c);
        } else {
            dropped = dropped + 1;
        }
        proof {
            assert(orig.subrange(i as int, n as int).remove(0) =~= orig.subrange(i + 1, n as int));
        }
        i = i + 1;
    }
    (out, dropped)
}

/// The life cycle of a panel driver.
#[derive(Clone, Copy, Debug, PartialEq, Eq, Structural)]
pub enum DriverState {
    /// The panel controller is being hard-reset.
    Resetting,
    /// Waiting for a command.
    Idle,
    /// An image transfer is in progress.
    Sending,
    /// The connection failed; the driver accepts nothing more.
    Disconnected,
}

/// What happened to a panel driver.
#[derive(Clone, Copy, Debug, PartialEq, Eq, Structural)]
pub enum DriverEvent {
    /// The hardware reset finished.
    ResetDone,
    /// An image was taken from the queue for transfer.
    ShowTaken,
    /// The transfer ended, successfully or abandoned.
    TransferDone,
    /// The connection failed beyond recovery.
    IoFailure,
}

/// The state after an event.
pub open spec fn next_state(s: DriverState, e: DriverEvent) -> DriverState {
    if s == DriverState::Disconnected || e == DriverEvent::IoFailure {
        DriverState::Disconnected
    } else {
        match (s, e) {
            (DriverState::Resetting, DriverEvent::ResetDone) => DriverState::Idle,
            (DriverState::Idle, DriverEvent::ShowTaken) => DriverState::Sending,
            (DriverState::Sending, DriverEvent::TransferDone) => DriverState::Idle,
            _ => s,
        }
    }
}

/// What the driver reports to the host on an event, if anything.
pub open spec fn report_of(s: DriverState, e: DriverEvent) -> Option<EInkResponse> {
    if s == DriverState::Disconnected {
        None
    } else if e == DriverEvent::IoFailure {
        Some(EInkResponse::Disconnected)
    } else {
        match (s, e) {
            (DriverState::Idle, DriverEvent::ShowTaken) => Some(EInkResponse::Busy),
            (DriverState::Sending, DriverEvent::TransferDone) => Some(EInkResponse::Ready),
            _ => None,
        }
    }
}

/// Advances a panel driver by one event: the new state and what to report.
pub fn driver_step(s: DriverState, e: DriverEvent) -> (r: (DriverState, Option<EInkResponse>))
    ensures
        r.0 == next_state(s, e),
        r.1 == report_of(s, e),
{
    match s {
        DriverState::Disconnected => (DriverState::Disconnected, None),
        _ => match e {
            DriverEvent::IoFailure => (DriverState::Disconnected, Some(EInkResponse::Disconnected)),
            DriverEvent::ResetDone => match s {
                DriverState::Resetting => (DriverState::Idle, None),
                _ => (s, None),
            },
            DriverEvent::ShowTaken => match s {
                DriverState::Idle => (DriverState::Sending, Some(EInkResponse::Busy)),
                _ => (s, None),
            },
            DriverEvent::TransferDone => match s {
                DriverState::Sending => (DriverState::Idle, Some(EInkResponse::Ready)),
                _ => (s, None),
            },
        },
    }
}

/// Whether a driver in this state still takes commands.
pub fn accepts_commands(s: DriverState) -> (r: bool)
    ensures
        r == (s != DriverState::Disconnected),
{
    match s {
        DriverState::Disconnected => false,
        _ => true,
    }
}

/// Once disconnected, a driver stays disconnected and reports nothing, whatever happens.
pub proof fn lemma_disconnected_is_final(e: DriverEvent)
    ensures
        next_state(DriverState::Disconnected, e) == DriverState::Disconnected,
        report_of(DriverState::Disconnected, e) is None,
{
}

/// A byte-aligned buffer height: `h` rounded up to a multiple of 8.
pub open spec fn round_up8(h: nat) -> nat {
    if h % 8 == 0 {
        h
    } else {
        (h + 8 - h % 8) as nat
    }
}

/// The host's handle on one panel: its geometry and how it shows images.
#[derive(Clone, Debug)]
pub struct EInkInterface {
    pub width: u32,
    pub height: u32,
    pub buffer_height: u32,
    pub state: EInkResponse,
    pub port: String,
    pub black_border: bool,
}

impl EInkInterface {
    /// A handle on the panel at `port`, of `width` by `height` pixels.
    pub fn new(port: String, width: u32, height: u32) -> (r: EInkInterface)
        requires
            height <= u32::MAX - 7,
        ensures
            r.width == width,
            r.height == height,
            r.buffer_height == round_up8(height as nat),
            r.state == EInkResponse::OK,
            r.port == port,
            !r.black_border,
    {
        let buffer_height: u32 = if height % 8 != 0 { height + 8 - height % 8 } else { height };
        EInkInterface { width, height, buffer_height, state: EInkResponse::OK, port, black_border: false }
    }

    /// The whole-screen image command, with a full (ghost-clearing) refresh.
    pub fn full(&self, buffer: Vec<u8>) -> (r: EInkCommand)
        ensures
            r == (EInkCommand::Show {
                buffer: buffer,
                x: 0,
                y: 0,
                width: self.width,
                height: self.buffer_height,
                with_red: false,
                black_border: self.black_border,
                full_refresh: true,
            }),
    {
        EInkCommand::Show {
            buffer,
            x: 0,
            y: 0,
            width: self.width,
            height: self.buffer_height,
            with_red: false,
            black_border: self.black_border,
            full_refresh: true,
        }
    }

    /// The whole-screen image command, with a fast partial refresh.
    pub fn fast(&self, buffer: Vec<u8>) -> (r: EInkCommand)
        ensures
            r == (EInkCommand::Show {
                buffer: buffer,
                x: 0,
                y: 0,
                width: self.width,
                height: self.buffer_height,
                with_red: false,
                black_border: self.black_border,
                full_refresh: false,
            }),
    {
        EInkCommand::Show {
            buffer,
            x: 0,
            y: 0,
            width: self.width,
            height: self.buffer_height,
            with_red: false,
            black_border: self.black_border,
            full_refresh: false,
        }
    }

    /// The command showing `buffer` in the region at (`x`, `y`) of `width` by `height` pixels.
    pub fn partial(&self, buffer: Vec<u8>, x: u32, y: u32, width: u32, height: u32) -> (r:
        EInkCommand)
        ensures
            r == (EInkCommand::Show {
                buffer: buffer,
                x: x,
                y: y,
                width: width,
                height: height,
                with_red: false,
                black_border: self.black_border,
                full_refresh: false,
            }),
    {
        EInkCommand::Show {
            buffer,
            x,
            y,
            width,
            height,
            with_red: false,
            black_border: self.black_border,
            full_refresh: false,
        }
    }
}

} // verus!
