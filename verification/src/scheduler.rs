use vstd::prelude::*;
use crate::events::WatchEvent;

verus! {

/// The single shared bit coordinating the watch loop and the run loop: "a
/// change happened since the last run". The watch loop marks it pending; the
/// run loop reads and clears it in one step. The surrounding program serializes
/// all access through one mutual-exclusion lock, so each method here is one
/// atomic step of the coordination.
pub struct ChangeFlag {
    pending: bool,
}

impl ChangeFlag {
    /// Whether a change is pending: a run is owed at the next poll.
    pub closed spec fn pending(self) -> bool {
        self.pending
    }

    /// A fresh flag: nothing pending, so the first poll runs nothing.
    pub fn new() -> (r: ChangeFlag)
        ensures
            !r.pending(),
    {
        ChangeFlag { pending: false }
    }

    /// The watch loop's step: an event marks the flag pending unless it is a
    /// pure rescan. An already pending flag stays pending — changes coalesce,
    /// they are not counted.
    pub fn note_change(&mut self, event: &WatchEvent)
        ensures
            final(self).pending() == (old(self).pending() || event.sets_flag()),
            final(self).pending() == pending_after(old(self).pending(), seq![*event]),
    {
        if event.should_set_flag() {
            self.pending = true;
        }
        proof {
            let events = seq![*event];
            assert(events.drop_last() =~= Seq::<WatchEvent>::empty());
            assert(events.last() == *event);
            assert(pending_after(old(self).pending(), Seq::<WatchEvent>::empty()) == old(
                self,
            ).pending());
        }
    }

    /// The run loop's step: reads whether a run is owed and clears the flag,
    /// in one atomic step, so the same batch of changes can never trigger a
    /// second run.
    pub fn poll(&mut self) -> (run: bool)
        ensures
            run == old(self).pending(),
            !final(self).pending(),
            (run, final(self).pending()) == poll_spec(old(self).pending()),
    {
        let run = self.pending;
        self.pending = false;
        run
    }
}

/// One iteration of the watch loop's decision, given the received event: the
/// flag is updated as `note_change` does, and the informational log line for
/// a plain change is handed back for the caller to emit.
pub fn watch_step(flag: &mut ChangeFlag, event: &WatchEvent) -> (log_line: Option<String>)
    ensures
        final(flag).pending() == (old(flag).pending() || event.sets_flag()),
        log_line matches Some(line) ==> (event.change_log_line_spec() matches Some(l) && line@
            == l),
        log_line is None <==> event.change_log_line_spec() is None,
{
    let log_line = event.change_log_line();
    flag.note_change(event);
    log_line
}

/// One iteration of the run loop's decision, after its fixed-interval sleep:
/// whether the configured command is to be executed now. The flag is cleared
/// before the (potentially long) execution starts, so changes that arrive
/// during the execution re-mark it for the next poll.
pub fn run_step(flag: &mut ChangeFlag) -> (run: bool)
    ensures
        run == old(flag).pending(),
        !final(flag).pending(),
{
    flag.poll()
}

/// The pending bit after a sequence of events is observed by the watch loop,
/// folded one `note_change` step at a time.
pub open spec fn pending_after(pending: bool, events: Seq<WatchEvent>) -> bool
    decreases events.len(),
{
    if events.len() == 0 {
        pending
    } else {
        pending_after(pending, events.drop_last()) || events.last().sets_flag()
    }
}

/// One poll of the run loop, as a step of the model: the first component is
/// whether a run is triggered, the second is the flag afterwards.
pub open spec fn poll_spec(pending: bool) -> (bool, bool) {
    (pending, false)
}

/// The fold over the events says exactly: the flag is pending afterwards when
/// it was pending before, or some observed event marks it.
pub proof fn lemma_pending_after_closed_form(pending: bool, events: Seq<WatchEvent>)
    ensures
        pending_after(pending, events) == (pending || exists|i: int|
            0 <= i < events.len() && (#[trigger] events[i]).sets_flag()),
    decreases events.len(),
{
    if events.len() == 0 {
    } else {
        lemma_pending_after_closed_form(pending, events.drop_last());
        if events.last().sets_flag() {
            assert(events[events.len() - 1].sets_flag());
        } else if exists|i: int| 0 <= i < events.len() && (#[trigger] events[i]).sets_flag() {
            let i = choose|i: int| 0 <= i < events.len() && (#[trigger] events[i]).sets_flag();
            assert(events.drop_last()[i] == events[i]);
        }
    }
}

/// A batch of change notifications delivered between two polls, none of them
/// a pure rescan, triggers exactly one run: the first poll after the batch
/// reports a run, and a second poll with no further notifications does not —
/// however many notifications the batch held.
pub proof fn lemma_batch_runs_once(events: Seq<WatchEvent>)
    requires
        events.len() >= 1,
        forall|i: int| 0 <= i < events.len() ==> (#[trigger] events[i]).sets_flag(),
    ensures
        poll_spec(pending_after(false, events)).0,
        !poll_spec(poll_spec(pending_after(false, events)).1).0,
{
    lemma_pending_after_closed_form(false, events);
    assert(events[0].sets_flag());
}

/// Changes that arrive while a command executes trigger exactly one
/// additional run after the current one completes, however many arrived: the
/// poll that triggered the current run already cleared the flag, so the
/// changes fold into a single pending batch for the next poll.
pub proof fn lemma_changes_during_run_add_one_run(pending: bool, during: Seq<WatchEvent>)
    requires
        poll_spec(pending).0,
        during.len() >= 1,
        forall|i: int| 0 <= i < during.len() ==> (#[trigger] during[i]).sets_flag(),
    ensures
        ({
            let after_run = pending_after(poll_spec(pending).1, during);
            poll_spec(after_run).0 && !poll_spec(poll_spec(after_run).1).0
        }),
{
    lemma_batch_runs_once(during);
}

/// Two successive polls never both report a run unless a change is observed
/// in between: a poll's check-and-clear is one atomic step, so a run consumes
/// the pending bit it observed.
pub proof fn lemma_no_double_run(pending: bool)
    ensures
        !(poll_spec(pending).0 && poll_spec(poll_spec(pending).1).0),
{
}

} // verus!
