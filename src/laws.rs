//! Laws of a synchronisation run, proved over the engine's state machine.
use vstd::prelude::*;
use crate::engine::action_of;
use crate::engine::cancel;
use crate::engine::fetched;
use crate::engine::finish;
use crate::engine::next_state;
use crate::engine::settle;
use crate::engine::well_formed;
use crate::engine::Action;
use crate::engine::EngineView;
use crate::engine::Event;
use crate::engine::MailboxStatus;
use crate::engine::Phase;
use crate::engine::ResultView;
use crate::text::fetch_range_text;

verus! {


/// Every recorded mailbox result counts each fetched message exactly once:
/// appended, skipped and failed add up to the total.
pub proof fn lemma_results_complete(s: EngineView, e: Event, i: int)
    requires
        well_formed(s),
        0 <= i < next_state(s, e).done.len(),
    ensures
        well_formed(next_state(s, e)),
        next_state(s, e).done[i].complete(),
{
    lemma_next_state_well_formed(s, e);
}

proof fn lemma_settle_well_formed(s: EngineView)
    requires
        s.done.len() < s.mailboxes.len(),
        s.phase != Phase::Finished,
        forall|i: int| 0 <= i < s.done.len() ==> (#[trigger] s.done[i]).complete(),
        s.pos <= s.ids.len(),
        s.appended + s.skipped + s.failed == s.pos,
    ensures
        well_formed(settle(s)),
        settle(s).mailboxes == s.mailboxes,
    decreases s.ids.len() - s.pos,
{
    if s.pos >= s.ids.len() {
        lemma_finish_well_formed(s, false);
    } else if s.ids[s.pos as int] is None {
        lemma_settle_well_formed(EngineView { failed: s.failed + 1, pos: s.pos + 1, ..s });
    }
}

proof fn lemma_finish_well_formed(s: EngineView, aborted: bool)
    requires
        s.done.len() < s.mailboxes.len(),
        forall|i: int| 0 <= i < s.done.len() ==> (#[trigger] s.done[i]).complete(),
        aborted || s.appended + s.skipped + s.failed == s.ids.len(),
    ensures
        well_formed(finish(s, aborted)),
        finish(s, aborted).mailboxes == s.mailboxes,
{
    let t = finish(s, aborted);
    assert forall|i: int| 0 <= i < t.done.len() implies (#[trigger] t.done[i]).complete() by {
        if i < s.done.len() {
            assert(t.done[i] == s.done[i]);
        }
    }
}

proof fn lemma_cancel_well_formed(s: EngineView)
    requires
        well_formed(s),
        s.phase != Phase::Finished,
    ensures
        well_formed(cancel(s)),
        cancel(s).mailboxes == s.mailboxes,
{
    let t = cancel(s);
    let k = s.done.len();
    assert forall|i: int| 0 <= i < t.done.len() implies (#[trigger] t.done[i]).complete() by {
        if i < k {
            assert(t.done[i] == s.done[i]);
        }
    }
}

/// Every event takes a reachable state to a reachable state.
pub proof fn lemma_next_state_well_formed(s: EngineView, e: Event)
    requires
        well_formed(s),
    ensures
        well_formed(next_state(s, e)),
        next_state(s, e).mailboxes == s.mailboxes,
{
    let c = |a: nat, k: nat, f: nat|
        EngineView {
            appended: s.appended + a,
            skipped: s.skipped + k,
            failed: s.failed + f,
            pos: s.pos + 1,
            ..s
        };
    if e is Cancelled {
        if s.phase != Phase::Finished {
            lemma_cancel_well_formed(s);
        }
    } else {
        match s.phase {
            Phase::Selecting => match e {
                Event::Selected { exists } => if exists == 0 {
                    lemma_finish_well_formed(s, false);
                },
                Event::SelectFailed => lemma_finish_well_formed(s, true),
                _ => {},
            },
            Phase::Fetching => match e {
                Event::Fetched { identifiers } => lemma_settle_well_formed(fetched(s, identifiers)),
                Event::FetchFailed => lemma_finish_well_formed(s, true),
                _ => {},
            },
            Phase::Querying => match e {
                Event::Searched { matches } => if matches@.len() != 0 {
                    lemma_settle_well_formed(c(0, 1, 0));
                },
                Event::SearchFailed => lemma_settle_well_formed(c(0, 0, 1)),
                _ => {},
            },
            Phase::Appending => match e {
                Event::Appended => lemma_settle_well_formed(c(1, 0, 0)),
                Event::AppendFailed => lemma_settle_well_formed(c(0, 0, 1)),
                _ => {},
            },
            Phase::Finished => {},
        }
    }
}

/// A message without an identifier is never appended: the engine only
/// asks to append a message that has one.
pub proof fn lemma_append_has_identifier(s: EngineView, a: Action)
    requires
        well_formed(s),
        action_of(s, a),
        a is Append,
    ensures
        s.ids[a->Append_index as int] is Some,
{
}

/// Passing over a message without an identifier counts it as failed, and
/// does nothing else for it.
pub proof fn lemma_missing_identifier_fails(s: EngineView)
    requires
        s.pos < s.ids.len(),
        s.ids[s.pos as int] is None,
    ensures
        settle(s) == settle(EngineView { failed: s.failed + 1, pos: s.pos + 1, ..s }),
{
}

/// A mailbox that reports no message is not fetched: it is closed at once
/// with every counter at zero.
pub proof fn lemma_empty_mailbox(s: EngineView)
    requires
        well_formed(s),
        s.phase == Phase::Selecting,
    ensures
        next_state(s, Event::Selected { exists: 0 }).phase != Phase::Fetching,
        next_state(s, Event::Selected { exists: 0 }).done == s.done.push(
            ResultView {
                mailbox: s.mailboxes[s.done.len() as int],
                total: 0,
                appended: 0,
                skipped_existing: 0,
                failed: 0,
                status: MailboxStatus::Completed,
            },
        ),
{
}

/// A mailbox that reports one message is fetched by that single index.
pub proof fn lemma_single_message_range()
    ensures
        fetch_range_text(1) == seq!['1'],
{
    reveal_strlit("1");
    assert("1"@ =~= seq!['1']);
}

/// One pass over the fetched identifiers `ids` against a destination that
/// holds the identifiers `dest`, answers every search truthfully and
/// accepts every append: the number appended, and what the destination
/// holds afterwards.
pub open spec fn truthful_pass(ids: Seq<Option<Seq<char>>>, dest: Set<Seq<char>>) -> (nat, Set<Seq<char>>)
    decreases ids.len(),
{
    if ids.len() == 0 {
        (0, dest)
    } else {
        let (n, d) = truthful_pass(ids.drop_last(), dest);
        match ids.last() {
            Some(id) => if d.contains(id) {
                (n, d)
            } else {
                (n + 1, d.insert(id))
            },
            None => (n, d),
        }
    }
}

proof fn lemma_pass_covers(ids: Seq<Option<Seq<char>>>, dest: Set<Seq<char>>)
    ensures
        dest.subset_of(truthful_pass(ids, dest).1),
        forall|k: int|
            0 <= k < ids.len() && (#[trigger] ids[k]) is Some ==> truthful_pass(ids, dest).1.contains(
                ids[k]->Some_0,
            ),
    decreases ids.len(),
{
    if ids.len() > 0 {
        let pre = ids.drop_last();
        lemma_pass_covers(pre, dest);
        assert forall|k: int|
            0 <= k < ids.len() && (#[trigger] ids[k]) is Some implies truthful_pass(ids, dest).1.contains(
                ids[k]->Some_0,
            ) by {
            if k < ids.len() - 1 {
                assert(pre[k] == ids[k]);
            }
        }
    }
}

proof fn lemma_pass_nothing_new(ids: Seq<Option<Seq<char>>>, dest: Set<Seq<char>>)
    requires
        forall|k: int| 0 <= k < ids.len() && (#[trigger] ids[k]) is Some ==> dest.contains(ids[k]->Some_0),
    ensures
        truthful_pass(ids, dest) == (0nat, dest),
    decreases ids.len(),
{
    if ids.len() > 0 {
        let pre = ids.drop_last();
        assert forall|k: int| 0 <= k < pre.len() && (#[trigger] pre[k]) is Some implies dest.contains(
            pre[k]->Some_0,
        ) by {
            assert(pre[k] == ids[k]);
        }
        lemma_pass_nothing_new(pre, dest);
        if ids.last() is Some {
            assert(ids[ids.len() - 1] is Some);
        }
    }
}

/// Running a pass twice over unchanged source messages appends nothing the
/// second time, and leaves the destination as the first pass left it.
pub proof fn lemma_idempotent(ids: Seq<Option<Seq<char>>>, dest: Set<Seq<char>>)
    ensures
        truthful_pass(ids, truthful_pass(ids, dest).1) == (0nat, truthful_pass(ids, dest).1),
{
    lemma_pass_covers(ids, dest);
    lemma_pass_nothing_new(ids, truthful_pass(ids, dest).1);
}


/// The model pass over the messages of `s`'s mailbox handled so far.
pub open spec fn pass_so_far(s: EngineView, dest: Set<Seq<char>>) -> (nat, Set<Seq<char>>) {
    truthful_pass(s.ids.subrange(0, s.pos as int), dest)
}

/// `t` is still within `s`'s mailbox, waiting on the destination, with
/// the appended count of the model pass from `dest`; an append it asks
/// for is of a message the destination does not yet hold.
pub open spec fn on_truthful_track(t: EngineView, s: EngineView, dest: Set<Seq<char>>) -> bool {
    &&& t.done == s.done
    &&& t.ids == s.ids
    &&& (t.phase == Phase::Querying || t.phase == Phase::Appending)
    &&& t.pos < t.ids.len()
    &&& t.ids[t.pos as int] is Some
    &&& t.appended == pass_so_far(t, dest).0
    &&& t.phase == Phase::Appending ==> !pass_so_far(t, dest).1.contains(t.ids[t.pos as int]->Some_0)
}

/// `t` has closed `s`'s mailbox with the appended count of the model
/// pass over all its messages from `dest`.
pub open spec fn closed_truthfully(t: EngineView, s: EngineView, dest: Set<Seq<char>>) -> bool {
    &&& t.done.len() == s.done.len() + 1
    &&& t.done.last().appended == truthful_pass(s.ids, dest).0
    &&& (t.phase == Phase::Selecting || t.phase == Phase::Finished)
}

proof fn lemma_settle_truthful(s: EngineView, dest: Set<Seq<char>>)
    requires
        s.done.len() < s.mailboxes.len(),
        s.pos <= s.ids.len(),
        s.appended == pass_so_far(s, dest).0,
    ensures
        on_truthful_track(settle(s), s, dest) && settle(s).phase == Phase::Querying
            || closed_truthfully(settle(s), s, dest),
    decreases s.ids.len() - s.pos,
{
    if s.pos >= s.ids.len() {
        assert(s.ids.subrange(0, s.pos as int) == s.ids);
    } else if s.ids[s.pos as int] is None {
        let n = EngineView { failed: s.failed + 1, pos: s.pos + 1, ..s };
        assert(n.ids.subrange(0, n.pos as int).drop_last() == s.ids.subrange(0, s.pos as int));
        lemma_settle_truthful(n, dest);
    }
}

/// Within one mailbox, against a destination that holds `dest` before the
/// mailbox's pass, answers each search truthfully and accepts each append,
/// every step keeps the engine's appended count equal to that of the model
/// pass, up to the close of the mailbox with the count of the whole pass.
pub proof fn lemma_truthful_step(s: EngineView, e: Event, dest: Set<Seq<char>>)
    requires
        well_formed(s),
        on_truthful_track(s, s, dest),
        s.phase == Phase::Querying ==> (e matches Event::Searched { matches } && (matches@.len()
            == 0 <==> !pass_so_far(s, dest).1.contains(s.ids[s.pos as int]->Some_0))),
        s.phase == Phase::Appending ==> e is Appended,
    ensures
        on_truthful_track(next_state(s, e), s, dest) || closed_truthfully(next_state(s, e), s, dest),
{
    let prefix = s.ids.subrange(0, s.pos as int);
    let next = s.ids.subrange(0, s.pos as int + 1);
    assert(next.drop_last() == prefix);
    if s.phase == Phase::Querying {
        if let Event::Searched { matches } = e {
            if matches@.len() != 0 {
                let n = EngineView { skipped: s.skipped + 1, pos: s.pos + 1, ..s };
                assert(n.ids.subrange(0, n.pos as int) == next);
                lemma_settle_truthful(n, dest);
            }
        }
    } else {
        let n = EngineView { appended: s.appended + 1, pos: s.pos + 1, ..s };
        assert(n.ids.subrange(0, n.pos as int) == next);
        lemma_settle_truthful(n, dest);
    }
}

/// A mailbox's fetched messages lead, against a destination holding
/// `dest`, either to the first message to query with nothing appended yet
/// or to the close of the mailbox.
pub proof fn lemma_truthful_fetch(s: EngineView, identifiers: Vec<Option<Vec<u8>>>, dest: Set<Seq<char>>)
    requires
        well_formed(s),
        s.phase == Phase::Fetching,
    ensures
        on_truthful_track(
            next_state(s, Event::Fetched { identifiers }),
            fetched(s, identifiers),
            dest,
        ) || closed_truthfully(
            next_state(s, Event::Fetched { identifiers }),
            fetched(s, identifiers),
            dest,
        ),
{
    let f = fetched(s, identifiers);
    assert(f.ids.subrange(0, 0) == Seq::<Option<Seq<char>>>::empty());
    lemma_settle_truthful(f, dest);
}

} // verus!

verus! {

/// How many of the identifiers are missing.
pub open spec fn missing_count(ids: Seq<Option<Seq<char>>>) -> nat
    decreases ids.len(),
{
    if ids.len() == 0 {
        0
    } else {
        missing_count(ids.drop_last()) + if ids.last() is None { 1nat } else { 0nat }
    }
}

/// `t` is still within `s`'s mailbox, waiting on the destination, having
/// counted as failed at least each message without identifier handled so far.
pub open spec fn missing_on_track(t: EngineView, s: EngineView) -> bool {
    &&& t.done == s.done
    &&& t.ids == s.ids
    &&& (t.phase == Phase::Querying || t.phase == Phase::Appending)
    &&& t.pos < t.ids.len()
    &&& t.ids[t.pos as int] is Some
    &&& t.failed >= missing_count(t.ids.subrange(0, t.pos as int))
}

/// `t` has closed `s`'s mailbox with at least one failure for each of its
/// messages without identifier.
pub open spec fn closed_with_missing(t: EngineView, s: EngineView) -> bool {
    &&& t.done.len() == s.done.len() + 1
    &&& t.done.last().failed >= missing_count(s.ids)
}

proof fn lemma_settle_missing(s: EngineView)
    requires
        s.done.len() < s.mailboxes.len(),
        s.pos <= s.ids.len(),
        s.failed >= missing_count(s.ids.subrange(0, s.pos as int)),
    ensures
        missing_on_track(settle(s), s) || closed_with_missing(settle(s), s),
    decreases s.ids.len() - s.pos,
{
    if s.pos >= s.ids.len() {
        assert(s.ids.subrange(0, s.pos as int) == s.ids);
    } else if s.ids[s.pos as int] is None {
        let n = EngineView { failed: s.failed + 1, pos: s.pos + 1, ..s };
        assert(n.ids.subrange(0, n.pos as int).drop_last() == s.ids.subrange(0, s.pos as int));
        lemma_settle_missing(n);
    }
}

/// The messages of a fetched mailbox lead to the first message to query,
/// each message without identifier before it counted as failed, or to the
/// close of the mailbox with every such message counted as failed.
pub proof fn lemma_missing_fetch(s: EngineView, identifiers: Vec<Option<Vec<u8>>>)
    requires
        well_formed(s),
        s.phase == Phase::Fetching,
    ensures
        missing_on_track(next_state(s, Event::Fetched { identifiers }), fetched(s, identifiers))
            || closed_with_missing(
            next_state(s, Event::Fetched { identifiers }),
            fetched(s, identifiers),
        ),
{
    let f = fetched(s, identifiers);
    assert(f.ids.subrange(0, 0) == Seq::<Option<Seq<char>>>::empty());
    lemma_settle_missing(f);
}

/// Every answer within a mailbox keeps at least one failure counted for
/// each message without identifier handled so far, up to the close of the
/// mailbox, whose result then counts at least one failure for each such
/// message of the mailbox.
pub proof fn lemma_missing_step(s: EngineView, e: Event)
    requires
        well_formed(s),
        missing_on_track(s, s),
        !(e is Cancelled),
    ensures
        missing_on_track(next_state(s, e), s) || closed_with_missing(next_state(s, e), s),
{
    let prefix = s.ids.subrange(0, s.pos as int);
    let next = s.ids.subrange(0, s.pos as int + 1);
    assert(next.drop_last() == prefix);
    let c = |a: nat, k: nat, f: nat|
        EngineView {
            appended: s.appended + a,
            skipped: s.skipped + k,
            failed: s.failed + f,
            pos: s.pos + 1,
            ..s
        };
    if s.phase == Phase::Querying {
        match e {
            Event::Searched { matches } => if matches@.len() != 0 {
                assert(c(0, 1, 0).ids.subrange(0, s.pos as int + 1) == next);
                lemma_settle_missing(c(0, 1, 0));
            },
            Event::SearchFailed => {
                assert(c(0, 0, 1).ids.subrange(0, s.pos as int + 1) == next);
                lemma_settle_missing(c(0, 0, 1));
            },
            _ => {},
        }
    } else {
        match e {
            Event::Appended => {
                assert(c(1, 0, 0).ids.subrange(0, s.pos as int + 1) == next);
                lemma_settle_missing(c(1, 0, 0));
            },
            Event::AppendFailed => {
                assert(c(0, 0, 1).ids.subrange(0, s.pos as int + 1) == next);
                lemma_settle_missing(c(0, 0, 1));
            },
            _ => {},
        }
    }
}

} // verus!

verus! {

/// The state after the events `es`, one after the other.
pub open spec fn apply_events(s: EngineView, es: Seq<Event>) -> EngineView
    decreases es.len(),
{
    if es.len() == 0 {
        s
    } else {
        apply_events(next_state(s, es[0]), es.drop_first())
    }
}

/// Each of the events `es` answers a search or an append of the current
/// mailbox as a destination that held `dest` before the mailbox's pass
/// would: a search finds a message exactly where the destination holds its
/// identifier, and every append succeeds.
pub open spec fn truthful_answers(s: EngineView, es: Seq<Event>, dest: Set<Seq<char>>) -> bool
    decreases es.len(),
{
    es.len() == 0 || {
        let e = es[0];
        &&& (s.phase == Phase::Querying || s.phase == Phase::Appending)
        &&& s.phase == Phase::Querying ==> (e matches Event::Searched { matches } && (
        matches@.len() == 0 <==> !pass_so_far(s, dest).1.contains(s.ids[s.pos as int]->Some_0)))
        &&& s.phase == Phase::Appending ==> e is Appended
        &&& truthful_answers(next_state(s, e), es.drop_first(), dest)
    }
}

proof fn lemma_truthful_events(s: EngineView, f: EngineView, es: Seq<Event>, dest: Set<Seq<char>>)
    requires
        well_formed(s),
        on_truthful_track(s, f, dest) || closed_truthfully(s, f, dest),
        truthful_answers(s, es, dest),
    ensures
        on_truthful_track(apply_events(s, es), f, dest) || closed_truthfully(
            apply_events(s, es),
            f,
            dest,
        ),
    decreases es.len(),
{
    if es.len() > 0 {
        let e = es[0];
        lemma_truthful_step(s, e, dest);
        lemma_next_state_well_formed(s, e);
        lemma_truthful_events(next_state(s, e), f, es.drop_first(), dest);
    }
}

/// A whole mailbox pass: once the messages are fetched and every search
/// and append is answered as a destination holding `dest` would, the
/// mailbox closes with the appended count of the model pass.
pub proof fn lemma_truthful_mailbox(
    s: EngineView,
    identifiers: Vec<Option<Vec<u8>>>,
    es: Seq<Event>,
    dest: Set<Seq<char>>,
)
    requires
        well_formed(s),
        s.phase == Phase::Fetching,
        truthful_answers(next_state(s, Event::Fetched { identifiers }), es, dest),
        apply_events(next_state(s, Event::Fetched { identifiers }), es).done.len() > s.done.len(),
    ensures
        apply_events(next_state(s, Event::Fetched { identifiers }), es).done[s.done.len() as int].appended
            == truthful_pass(fetched(s, identifiers).ids, dest).0,
{
    let t = next_state(s, Event::Fetched { identifiers });
    let f = fetched(s, identifiers);
    lemma_truthful_fetch(s, identifiers, dest);
    lemma_next_state_well_formed(s, Event::Fetched { identifiers });
    lemma_truthful_events(t, f, es, dest);
}

/// Running a mailbox twice over unchanged source messages appends nothing
/// the second time: the second pass meets a destination that holds what
/// the first pass left, and both are answered truthfully.
pub proof fn lemma_second_run_appends_nothing(
    s1: EngineView,
    s2: EngineView,
    identifiers: Vec<Option<Vec<u8>>>,
    es1: Seq<Event>,
    es2: Seq<Event>,
    dest: Set<Seq<char>>,
)
    requires
        well_formed(s1),
        s1.phase == Phase::Fetching,
        truthful_answers(next_state(s1, Event::Fetched { identifiers }), es1, dest),
        apply_events(next_state(s1, Event::Fetched { identifiers }), es1).done.len() > s1.done.len(),
        well_formed(s2),
        s2.phase == Phase::Fetching,
        truthful_answers(
            next_state(s2, Event::Fetched { identifiers }),
            es2,
            truthful_pass(fetched(s1, identifiers).ids, dest).1,
        ),
        apply_events(next_state(s2, Event::Fetched { identifiers }), es2).done.len() > s2.done.len(),
    ensures
        apply_events(next_state(s1, Event::Fetched { identifiers }), es1).done[s1.done.len() as int].appended
            == truthful_pass(fetched(s1, identifiers).ids, dest).0,
        apply_events(next_state(s2, Event::Fetched { identifiers }), es2).done[s2.done.len() as int].appended
            == 0,
{
    let ids = fetched(s1, identifiers).ids;
    assert(fetched(s2, identifiers).ids == ids);
    lemma_truthful_mailbox(s1, identifiers, es1, dest);
    lemma_truthful_mailbox(s2, identifiers, es2, truthful_pass(ids, dest).1);
    lemma_idempotent(ids, dest);
}

} // verus!
