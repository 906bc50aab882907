//! The synchronisation engine: a state machine that walks the work list
//! mailbox by mailbox and message by message. It decides; the caller talks
//! to the servers, hands back what happened, and performs the next action.
use vstd::prelude::*;
use crate::text::decode_text;
use crate::text::fetch_range;
use crate::text::fetch_range_text;
use crate::text::search_criterion;
use crate::text::search_criterion_text;
use crate::text::utf8_text;
use crate::text::views;

verus! {

/// What one mailbox came to in a run.
#[derive(Clone, Debug)]
pub struct SyncMailboxResult {
    pub mailbox: String,
    /// Messages fetched from the source.
    pub total: usize,
    /// Messages copied to the destination.
    pub appended: usize,
    /// Messages the destination already held.
    pub skipped_existing: usize,
    /// Messages that could not be handled.
    pub failed: usize,
    /// How far the mailbox's processing got.
    pub status: MailboxStatus,
}

/// How far the processing of a mailbox got.
#[derive(Clone, Copy, Debug, PartialEq, Eq, Structural)]
pub enum MailboxStatus {
    /// Every fetched message was handled.
    Completed,
    /// The mailbox could not be selected or fetched.
    Aborted,
    /// The run was cancelled within the mailbox; the total counts the
    /// messages handled until then.
    Interrupted,
    /// The run was cancelled before the mailbox was fetched.
    NotAttempted,
}

/// The mathematical content of a [`SyncMailboxResult`].
pub struct ResultView {
    pub mailbox: Seq<char>,
    pub total: nat,
    pub appended: nat,
    pub skipped_existing: nat,
    pub failed: nat,
    pub status: MailboxStatus,
}

impl View for SyncMailboxResult {
    type V = ResultView;

    open spec fn view(&self) -> ResultView {
        ResultView {
            mailbox: self.mailbox@,
            total: self.total as nat,
            appended: self.appended as nat,
            skipped_existing: self.skipped_existing as nat,
            failed: self.failed as nat,
            status: self.status,
        }
    }
}

impl ResultView {
    /// Every fetched message is counted exactly once.
    pub open spec fn complete(self) -> bool {
        self.appended + self.skipped_existing + self.failed == self.total
    }
}

/// What the caller is to do next.
#[derive(Debug)]
pub enum Action {
    /// Select the mailbox on the source and report its message count.
    SelectSource { mailbox: String },
    /// Fetch envelope and body of the messages in `range` of the selected
    /// source mailbox.
    Fetch { mailbox: String, range: String },
    /// Select the mailbox on the destination and search it with `criterion`.
    Query { mailbox: String, criterion: String },
    /// Append the fetched message at `index`, body and flags, to the
    /// destination mailbox.
    Append { mailbox: String, index: usize },
    /// The run is over; the summary is complete.
    Finished,
}

/// What happened when the caller performed the last action.
#[derive(Debug)]
pub enum Event {
    Selected { exists: u32 },
    SelectFailed,
    /// The fetched messages in fetch order, each with the raw Message-ID of
    /// its envelope, absent where there is no envelope or no such header.
    Fetched { identifiers: Vec<Option<Vec<u8>>> },
    FetchFailed,
    /// The destination-local numbers of the matching messages.
    Searched { matches: Vec<u32> },
    SearchFailed,
    Appended,
    AppendFailed,
    /// The run is to stop: what was handled is kept, the rest is not
    /// attempted.
    Cancelled,
}

/// Where the engine stands within the current mailbox.
#[derive(Clone, Copy, Debug, PartialEq, Eq, Structural)]
pub enum Phase {
    Selecting,
    Fetching,
    Querying,
    Appending,
    Finished,
}

/// The answer of the destination to "does this message exist there".
#[derive(Clone, Copy, Debug, PartialEq, Eq, Structural)]
pub enum DedupOutcome {
    /// It does; the first reported match.
    Found(u32),
    NotFound,
    QueryError,
}

/// Reads a search answer: no match is `NotFound`, otherwise the first
/// match reported wins; a failed query is `QueryError`.
pub fn dedup_outcome(answer: Option<&Vec<u32>>) -> (r: DedupOutcome)
    ensures
        match answer {
            None => r == DedupOutcome::QueryError,
            Some(m) => if m@.len() == 0 {
                r == DedupOutcome::NotFound
            } else {
                r == DedupOutcome::Found(m@[0])
            },
        },
{
    match answer {
        None => DedupOutcome::QueryError,
        Some(m) => {
            if m.len() == 0 {
                DedupOutcome::NotFound
            } else {
                DedupOutcome::Found(m[0])
            }
        },
    }
}

/// The identifier text of a fetched message: absent where the envelope
/// gave none or it is not valid UTF-8.
pub open spec fn identifier_view(raw: Option<Vec<u8>>) -> Option<Seq<char>> {
    match raw {
        Some(b) => utf8_text(b@),
        None => None,
    }
}

/// The mathematical state of the engine.
pub struct EngineView {
    pub mailboxes: Seq<Seq<char>>,
    /// Results of the mailboxes already processed; the current mailbox is
    /// the next one of the work list.
    pub done: Seq<ResultView>,
    pub phase: Phase,
    /// Message count the source reported for the current mailbox.
    pub exists: nat,
    /// Identifiers of the fetched messages of the current mailbox.
    pub ids: Seq<Option<Seq<char>>>,
    /// The message being handled.
    pub pos: nat,
    pub appended: nat,
    pub skipped: nat,
    pub failed: nat,
}

/// The phase in which a mailbox's processing starts, or the end of the run.
pub open spec fn start_phase(done: nat, n: nat) -> Phase {
    if done < n {
        Phase::Selecting
    } else {
        Phase::Finished
    }
}

/// The state at the start of a run over `mailboxes`.
pub open spec fn initial(mailboxes: Seq<Seq<char>>) -> EngineView {
    EngineView {
        mailboxes,
        done: Seq::<ResultView>::empty(),
        phase: start_phase(0, mailboxes.len()),
        exists: 0,
        ids: Seq::<Option<Seq<char>>>::empty(),
        pos: 0,
        appended: 0,
        skipped: 0,
        failed: 0,
    }
}

/// Closes the current mailbox, recording its result, and moves on.
pub open spec fn finish(s: EngineView, aborted: bool) -> EngineView {
    let res = ResultView {
        mailbox: s.mailboxes[s.done.len() as int],
        total: if aborted { 0 } else { s.ids.len() },
        appended: if aborted { 0 } else { s.appended },
        skipped_existing: if aborted { 0 } else { s.skipped },
        failed: if aborted { 0 } else { s.failed },
        status: if aborted { MailboxStatus::Aborted } else { MailboxStatus::Completed },
    };
    EngineView {
        done: s.done.push(res),
        phase: start_phase(s.done.len() + 1, s.mailboxes.len()),
        exists: 0,
        ids: Seq::<Option<Seq<char>>>::empty(),
        pos: 0,
        appended: 0,
        skipped: 0,
        failed: 0,
        ..s
    }
}

/// From the message at `pos` on: each message without an identifier is
/// counted as failed and passed over; the first one with an identifier is
/// queried; past the last message the mailbox is closed.
pub open spec fn settle(s: EngineView) -> EngineView
    decreases s.ids.len() - s.pos,
{
    if s.pos >= s.ids.len() {
        finish(s, false)
    } else if s.ids[s.pos as int] is None {
        settle(EngineView { failed: s.failed + 1, pos: s.pos + 1, ..s })
    } else {
        EngineView { phase: Phase::Querying, ..s }
    }
}

/// The state holding the identifiers of the fetched messages, before the
/// first of them is handled.
pub open spec fn fetched(s: EngineView, identifiers: Vec<Option<Vec<u8>>>) -> EngineView {
    EngineView {
        ids: identifiers@.map_values(|o: Option<Vec<u8>>| identifier_view(o)),
        pos: 0,
        ..s
    }
}

/// The state after the current message has been counted in one of the
/// three counters.
pub open spec fn counted(s: EngineView, appended: nat, skipped: nat, failed: nat) -> EngineView {
    settle(
        EngineView {
            appended: s.appended + appended,
            skipped: s.skipped + skipped,
            failed: s.failed + failed,
            pos: s.pos + 1,
            ..s
        },
    )
}

/// The result of a mailbox that the run did not get to.
pub open spec fn not_attempted(mailbox: Seq<char>) -> ResultView {
    ResultView {
        mailbox,
        total: 0,
        appended: 0,
        skipped_existing: 0,
        failed: 0,
        status: MailboxStatus::NotAttempted,
    }
}

/// Ends the run: the current mailbox keeps the messages handled so far,
/// and each mailbox after it is recorded as not attempted.
pub open spec fn cancel(s: EngineView) -> EngineView {
    let k = s.done.len();
    let current = if s.phase == Phase::Querying || s.phase == Phase::Appending {
        ResultView {
            mailbox: s.mailboxes[k as int],
            total: s.pos,
            appended: s.appended,
            skipped_existing: s.skipped,
            failed: s.failed,
            status: MailboxStatus::Interrupted,
        }
    } else {
        not_attempted(s.mailboxes[k as int])
    };
    EngineView {
        done: s.done.push(current) + Seq::new(
            (s.mailboxes.len() - k - 1) as nat,
            |i: int| not_attempted(s.mailboxes[k + 1 + i]),
        ),
        phase: Phase::Finished,
        exists: 0,
        ids: Seq::<Option<Seq<char>>>::empty(),
        pos: 0,
        appended: 0,
        skipped: 0,
        failed: 0,
        ..s
    }
}

/// The next state on an event; an event that does not answer the pending
/// action leaves the state as it is.
pub open spec fn next_state(s: EngineView, e: Event) -> EngineView {
    if e is Cancelled {
        if s.phase == Phase::Finished {
            s
        } else {
            cancel(s)
        }
    } else {
        next_state_of_answer(s, e)
    }
}

/// The next state on an event that answers an action.
pub open spec fn next_state_of_answer(s: EngineView, e: Event) -> EngineView {
    match s.phase {
        Phase::Selecting => match e {
            Event::Selected { exists } => if exists == 0 {
                finish(s, false)
            } else {
                EngineView { phase: Phase::Fetching, exists: exists as nat, ..s }
            },
            Event::SelectFailed => finish(s, true),
            _ => s,
        },
        Phase::Fetching => match e {
            Event::Fetched { identifiers } => settle(fetched(s, identifiers)),
            Event::FetchFailed => finish(s, true),
            _ => s,
        },
        Phase::Querying => match e {
            Event::Searched { matches } => if matches@.len() == 0 {
                EngineView { phase: Phase::Appending, ..s }
            } else {
                counted(s, 0, 1, 0)
            },
            Event::SearchFailed => counted(s, 0, 0, 1),
            _ => s,
        },
        Phase::Appending => match e {
            Event::Appended => counted(s, 1, 0, 0),
            Event::AppendFailed => counted(s, 0, 0, 1),
            _ => s,
        },
        Phase::Finished => s,
    }
}

/// Whether `a` is the action that state `s` asks for.
pub open spec fn action_of(s: EngineView, a: Action) -> bool {
    let current = s.mailboxes[s.done.len() as int];
    match s.phase {
        Phase::Selecting => a matches Action::SelectSource { mailbox } && mailbox@ == current,
        Phase::Fetching => a matches Action::Fetch { mailbox, range } && mailbox@ == current
            && range@ == fetch_range_text(s.exists),
        Phase::Querying => a matches Action::Query { mailbox, criterion } && mailbox@ == current
            && criterion@ == search_criterion_text(s.ids[s.pos as int]->Some_0),
        Phase::Appending => a matches Action::Append { mailbox, index } && mailbox@ == current
            && index == s.pos,
        Phase::Finished => a is Finished,
    }
}

/// The invariant of every reachable state.
pub open spec fn well_formed(s: EngineView) -> bool {
    &&& s.done.len() <= s.mailboxes.len()
    &&& (s.phase == Phase::Finished <==> s.done.len() == s.mailboxes.len())
    &&& s.pos <= s.ids.len()
    &&& s.appended + s.skipped + s.failed == s.pos
    &&& (s.phase == Phase::Selecting || s.phase == Phase::Fetching || s.phase == Phase::Finished)
        ==> (s.ids.len() == 0 && s.pos == 0 && s.appended == 0 && s.skipped == 0 && s.failed == 0)
    &&& s.phase == Phase::Fetching ==> 1 <= s.exists <= u32::MAX
    &&& (s.phase == Phase::Querying || s.phase == Phase::Appending) ==> (s.pos < s.ids.len()
        && s.ids[s.pos as int] is Some)
    &&& forall|i: int| 0 <= i < s.done.len() ==> (#[trigger] s.done[i]).complete()
}

/// Drives the synchronisation of a work list of mailboxes.
pub struct SyncEngine {
    mailboxes: Vec<String>,
    summary: Vec<SyncMailboxResult>,
    phase: Phase,
    exists: u32,
    ids: Vec<Option<String>>,
    pos: usize,
    appended: usize,
    skipped: usize,
    failed: usize,
}

impl View for SyncEngine {
    type V = EngineView;

    closed spec fn view(&self) -> EngineView {
        EngineView {
            mailboxes: views(self.mailboxes@),
            done: self.summary@.map_values(|r: SyncMailboxResult| r@),
            phase: self.phase,
            exists: self.exists as nat,
            ids: self.ids@.map_values(|o: Option<String>| opt_text(o)),
            pos: self.pos as nat,
            appended: self.appended as nat,
            skipped: self.skipped as nat,
            failed: self.failed as nat,
        }
    }
}

impl SyncEngine {
    /// The engine is in a reachable state.
    pub closed spec fn wf(&self) -> bool {
        well_formed(self@)
    }

    /// An engine at the start of a run over `mailboxes`, in that order.
    pub fn new(mailboxes: Vec<String>) -> (r: SyncEngine)
        ensures
            r.wf(),
            r@ == initial(views(mailboxes@)),
    {
        let phase = if mailboxes.len() == 0 {
            Phase::Finished
        } else {
            Phase::Selecting
        };
        let r = SyncEngine {
            mailboxes,
            summary: Vec::new(),
            phase,
            exists: 0,
            ids: Vec::new(),
            pos: 0,
            appended: 0,
            skipped: 0,
            failed: 0,
        };
        assert(r@.ids =~= Seq::<Option<Seq<char>>>::empty());
        assert(r@.done =~= Seq::<ResultView>::empty());
        r
    }

    /// The results of the mailboxes processed so far, in work-list order.
    pub fn summary(&self) -> (r: &Vec<SyncMailboxResult>)
        ensures
            r@.map_values(|x: SyncMailboxResult| x@) == self@.done,
    {
        &self.summary
    }

    /// Whether every mailbox of the work list has been processed.
    pub fn is_finished(&self) -> (r: bool)
        ensures
            r == (self@.phase == Phase::Finished),
    {
        self.phase == Phase::Finished
    }

    /// The action the current state asks for.
    pub fn next_action(&self) -> (r: Action)
        requires
            self.wf(),
        ensures
            action_of(self@, r),
    {
        match self.phase {
            Phase::Selecting => Action::SelectSource { mailbox: self.current_mailbox() },
            Phase::Fetching => Action::Fetch {
                mailbox: self.current_mailbox(),
                range: fetch_range(self.exists),
            },
            Phase::Querying => {
                let id = self.ids[self.pos].as_ref().unwrap();
                Action::Query { mailbox: self.current_mailbox(), criterion: search_criterion(id.as_str()) }
            },
            Phase::Appending => Action::Append { mailbox: self.current_mailbox(), index: self.pos },
            Phase::Finished => Action::Finished,
        }
    }

    /// Closes the current mailbox and moves on to the next one.
    fn finish_mailbox(&mut self, aborted: bool)
        requires
            old(self)@.done.len() < old(self)@.mailboxes.len(),
            forall|i: int|
                0 <= i < old(self)@.done.len() ==> (#[trigger] old(self)@.done[i]).complete(),
            aborted || old(self)@.appended + old(self)@.skipped + old(self)@.failed
                == old(self)@.ids.len(),
        ensures
            final(self)@ == finish(old(self)@, aborted),
            well_formed(final(self)@),
    {
        let ghost s = self@;
        let mailbox = self.current_mailbox();
        let res = if aborted {
            SyncMailboxResult {
                mailbox,
                total: 0,
                appended: 0,
                skipped_existing: 0,
                failed: 0,
                status: MailboxStatus::Aborted,
            }
        } else {
            SyncMailboxResult {
                mailbox,
                total: self.ids.len(),
                appended: self.appended,
                skipped_existing: self.skipped,
                failed: self.failed,
                status: MailboxStatus::Completed,
            }
        };
        self.summary.push(res);
        self.phase = if self.summary.len() < self.mailboxes.len() {
            Phase::Selecting
        } else {
            Phase::Finished
        };
        self.exists = 0;
        self.ids = Vec::new();
        self.pos = 0;
        self.appended = 0;
        self.skipped = 0;
        self.failed = 0;
        assert(self@.done == s.done.push(res@));
        assert(self@.ids == Seq::<Option<Seq<char>>>::empty());
        assert(self@ == finish(s, aborted));
        assert forall|i: int| 0 <= i < self@.done.len() implies (#[trigger] self@.done[i]).complete() by {
            if i < s.done.len() {
                assert(self@.done[i] == s.done[i]);
            }
        }
    }

    /// The name of the mailbox being processed.
    fn current_mailbox(&self) -> (r: String)
        requires
            self@.done.len() < self@.mailboxes.len(),
        ensures
            r@ == self@.mailboxes[self@.done.len() as int],
    {
        let k = self.summary.len();
        self.mailboxes[k].clone()
    }

    /// Passes over messages without an identifier, counting each as
    /// failed, up to the next message to query or the end of the mailbox.
    fn settle_messages(&mut self)
        requires
            old(self)@.done.len() < old(self)@.mailboxes.len(),
            old(self)@.phase != Phase::Finished,
            forall|i: int|
                0 <= i < old(self)@.done.len() ==> (#[trigger] old(self)@.done[i]).complete(),
            old(self)@.pos <= old(self)@.ids.len(),
            old(self)@.appended + old(self)@.skipped + old(self)@.failed == old(self)@.pos,
        ensures
            final(self)@ == settle(old(self)@),
            well_formed(final(self)@),
    {
        loop
            invariant
                self@.done.len() < self@.mailboxes.len(),
                self@.phase == old(self)@.phase,
                forall|i: int| 0 <= i < self@.done.len() ==> (#[trigger] self@.done[i]).complete(),
                self@.pos <= self@.ids.len(),
                self@.appended + self@.skipped + self@.failed == self@.pos,
                settle(self@) == settle(old(self)@),
            ensures
                self@.pos >= self@.ids.len() || self@.ids[self@.pos as int] is Some,
            decreases self@.ids.len() - self@.pos,
        {
            if self.pos >= self.ids.len() {
                break;
            }
            if self.ids[self.pos].is_some() {
                break;
            }
            let ghost s = self@;
            self.failed = self.failed + 1;
            self.pos = self.pos + 1;
            assert(self@ == EngineView { failed: s.failed + 1, pos: s.pos + 1, ..s });
        }
        if self.pos >= self.ids.len() {
            self.finish_mailbox(false);
        } else {
            let ghost s = self@;
            self.phase = Phase::Querying;
            assert(self@ == EngineView { phase: Phase::Querying, ..s });
        }
    }

    /// Counts the current message and moves to the next one.
    fn count_message(&mut self, appended: usize, skipped: usize, failed: usize)
        requires
            well_formed(old(self)@),
            old(self)@.phase == Phase::Querying || old(self)@.phase == Phase::Appending,
            appended + skipped + failed == 1,
        ensures
            final(self)@ == counted(old(self)@, appended as nat, skipped as nat, failed as nat),
            well_formed(final(self)@),
    {
        let ghost s = self@;
        assert(self.pos < self.ids.len());
        self.appended = self.appended + appended;
        self.skipped = self.skipped + skipped;
        self.failed = self.failed + failed;
        self.pos = self.pos + 1;
        assert(self@ == EngineView {
            appended: s.appended + appended as nat,
            skipped: s.skipped + skipped as nat,
            failed: s.failed + failed as nat,
            pos: s.pos + 1,
            ..s
        });
        self.settle_messages();
    }

    /// Ends the run at once; see [`cancel`].
    fn cancel_run(&mut self)
        requires
            well_formed(old(self)@),
            old(self)@.phase != Phase::Finished,
        ensures
            final(self)@ == cancel(old(self)@),
            well_formed(final(self)@),
    {
        let ghost s = self@;
        let mailbox = self.current_mailbox();
        let res = if self.phase == Phase::Querying || self.phase == Phase::Appending {
            SyncMailboxResult {
                mailbox,
                total: self.pos,
                appended: self.appended,
                skipped_existing: self.skipped,
                failed: self.failed,
                status: MailboxStatus::Interrupted,
            }
        } else {
            SyncMailboxResult {
                mailbox,
                total: 0,
                appended: 0,
                skipped_existing: 0,
                failed: 0,
                status: MailboxStatus::NotAttempted,
            }
        };
        self.summary.push(res);
        let ghost base = s.done.push(res@);
        assert(self@.done =~= base);
        while self.summary.len() < self.mailboxes.len()
            invariant
                self@.mailboxes == s.mailboxes,
                base.len() <= self@.done.len() <= s.mailboxes.len(),
                self@.done =~= base + Seq::new(
                    (self@.done.len() - base.len()) as nat,
                    |i: int| not_attempted(s.mailboxes[base.len() + i]),
                ),
            decreases self.mailboxes@.len() - self.summary@.len(),
        {
            let ghost before = self@.done;
            let k = self.summary.len();
            let name = self.mailboxes[k].clone();
            let r = SyncMailboxResult {
                mailbox: name,
                total: 0,
                appended: 0,
                skipped_existing: 0,
                failed: 0,
                status: MailboxStatus::NotAttempted,
            };
            self.summary.push(r);
            assert(self@.done =~= before.push(r@));
            assert(r@ == not_attempted(s.mailboxes[k as int]));
        }
        self.phase = Phase::Finished;
        self.exists = 0;
        self.ids = Vec::new();
        self.pos = 0;
        self.appended = 0;
        self.skipped = 0;
        self.failed = 0;
        assert(self@.ids =~= Seq::<Option<Seq<char>>>::empty());
        assert(self@ == cancel(s));
        assert forall|i: int| 0 <= i < self@.done.len() implies (#[trigger] self@.done[i]).complete() by {
            if i < s.done.len() {
                assert(self@.done[i] == s.done[i]);
            }
        }
    }

    /// Takes in what the caller's last action came to, and returns the
    /// next action.
    pub fn handle(&mut self, e: Event) -> (r: Action)
        requires
            old(self).wf(),
        ensures
            final(self).wf(),
            final(self)@ == next_state(old(self)@, e),
            action_of(final(self)@, r),
    {
        let ghost s = self@;
        if let Event::Cancelled = e {
            if self.phase != Phase::Finished {
                self.cancel_run();
            }
            return self.next_action();
        }
        match self.phase {
            Phase::Selecting => match e {
                Event::Selected { exists } => {
                    if exists == 0 {
                        self.finish_mailbox(false);
                    } else {
                        self.phase = Phase::Fetching;
                        self.exists = exists;
                        assert(self@ == EngineView { phase: Phase::Fetching, exists: exists as nat, ..s });
                    }
                },
                Event::SelectFailed => self.finish_mailbox(true),
                _ => {},
            },
            Phase::Fetching => match e {
                Event::Fetched { identifiers } => {
                    let ids = decode_identifiers(&identifiers);
                    self.ids = ids;
                    self.pos = 0;
                    assert(self@ == fetched(s, identifiers));
                    self.settle_messages();
                },
                Event::FetchFailed => self.finish_mailbox(true),
                _ => {},
            },
            Phase::Querying => match e {
                Event::Searched { matches } => match dedup_outcome(Some(&matches)) {
                    DedupOutcome::NotFound => {
                        self.phase = Phase::Appending;
                        assert(self@ == EngineView { phase: Phase::Appending, ..s });
                    },
                    _ => self.count_message(0, 1, 0),
                },
                Event::SearchFailed => self.count_message(0, 0, 1),
                _ => {},
            },
            Phase::Appending => match e {
                Event::Appended => self.count_message(1, 0, 0),
                Event::AppendFailed => self.count_message(0, 0, 1),
                _ => {},
            },
            Phase::Finished => {},
        }
        self.next_action()
    }
}

/// Reads the raw identifiers of fetched messages as text.
fn decode_identifiers(raw: &Vec<Option<Vec<u8>>>) -> (r: Vec<Option<String>>)
    ensures
        r@.map_values(|o: Option<String>| opt_text(o)) == raw@.map_values(
            |o: Option<Vec<u8>>| identifier_view(o),
        ),
{
    let mut out: Vec<Option<String>> = Vec::new();
    let mut i: usize = 0;
    while i < raw.len()
        invariant
            i <= raw@.len(),
            out@.map_values(|o: Option<String>| opt_text(o)) == raw@.map_values(
                |o: Option<Vec<u8>>| identifier_view(o),
            ).subrange(0, i as int),
        decreases raw@.len() - i,
    {
        let ghost before = out@;
        let id = match &raw[i] {
            Some(b) => decode_text(b),
            None => None,
        };
        out.push(id);
        assert(out@.map_values(|o: Option<String>| opt_text(o)) == before.map_values(
            |o: Option<String>| opt_text(o),
        ).push(opt_text(id)));
        i = i + 1;
    }
    out
}

/// The view of an optional string.
pub open spec fn opt_text(o: Option<String>) -> Option<Seq<char>> {
    match o {
        Some(t) => Some(t@),
        None => None,
    }
}

} // verus!
