//! What holds of every relay: what its replies can be, what it costs at
//! most, and what it asks for, step by step, as a run unfolds.

use vstd::prelude::*;

use crate::content::{joined_text, SegmentView};
use crate::effect::{ActionView, EventView};
use crate::machine::{asked, lemma_run_after_end, lemma_run_concat, run, trace, Machine};
use crate::relay::{relay_start, RelayView, MAX_POLLS, POLL_INTERVAL_SECS, REPLY_LIMIT};
use crate::status::{is_fixed_text, timeout_text, RunStatus};

verus! {

/// Whether `event` hands over messages of which the last one reads `text`.
pub open spec fn carries_reply(event: EventView, text: Seq<char>) -> bool {
    event matches EventView::Messages(messages) && messages.len() > 0 && joined_text(
        messages.last(),
    ) == text
}

/// A reply that a relay reaches was either there before, or is a fixed text,
/// or was read from messages it was given.
proof fn lemma_replies_have_a_source(state: RelayView, events: Seq<EventView>, text: Seq<char>)
    requires
        run(state, events).0 == (RelayView::Replied { text }),
    ensures
        state == (RelayView::Replied { text }) || is_fixed_text(text) || exists|i: int|
            0 <= i < events.len() && carries_reply(#[trigger] events[i], text),
    decreases events.len(),
{
    if events.len() > 0 {
        let after = state.next(events.first()).0;
        let rest = events.drop_first();
        lemma_replies_have_a_source(after, rest, text);
        if after == (RelayView::Replied { text }) {
            if state != after && !is_fixed_text(text) {
                assert(carries_reply(events[0], text));
            }
        } else if !is_fixed_text(text) {
            let i = choose|i: int| 0 <= i < rest.len() && carries_reply(#[trigger] rest[i], text);
            assert(carries_reply(events[i + 1], text));
        }
    }
}

/// The relay invents nothing. Whatever it is told, a reply it ends with is
/// either one of the fixed texts, or the text of the last of the messages
/// that some event handed it.
pub proof fn law_reply_is_read_or_fixed(
    thread_id: Seq<char>,
    text: Seq<char>,
    assistant_id: Seq<char>,
    events: Seq<EventView>,
    reply: Seq<char>,
)
    requires
        run(relay_start(thread_id, text, assistant_id).0, events).0 == (RelayView::Replied {
            text: reply,
        }),
    ensures
        is_fixed_text(reply) || exists|i: int|
            0 <= i < events.len() && carries_reply(#[trigger] events[i], reply),
{
    lemma_replies_have_a_source(relay_start(thread_id, text, assistant_id).0, events, reply);
}

/// How many of `actions` fetch the status of a run.
pub open spec fn fetches(actions: Seq<ActionView>) -> nat
    decreases actions.len(),
{
    if actions.len() == 0 {
        0
    } else {
        fetches(actions.drop_first()) + if actions.first() is RetrieveRun {
            1nat
        } else {
            0nat
        }
    }
}

/// The seconds that `actions` spend waiting, all waits taken together.
pub open spec fn waited(actions: Seq<ActionView>) -> nat
    decreases actions.len(),
{
    if actions.len() == 0 {
        0
    } else {
        waited(actions.drop_first()) + match actions.first() {
            ActionView::Wait { seconds } => seconds as nat,
            _ => 0nat,
        }
    }
}

impl RelayView {
    /// How many fetches of a run's status the relay may still ask for.
    pub open spec fn fetches_left(self) -> nat {
        match self {
            RelayView::Submitting { .. } | RelayView::Starting { .. } => MAX_POLLS as nat,
            RelayView::Waiting { polls_left, .. } | RelayView::Checking { polls_left, .. } => {
                polls_left as nat
            },
            _ => 0,
        }
    }

    /// How many waits the relay may still ask for.
    pub open spec fn waits_left(self) -> nat {
        match self {
            RelayView::Submitting { .. } | RelayView::Starting { .. } => MAX_POLLS as nat,
            RelayView::Waiting { polls_left, .. } => if polls_left == 0 {
                0
            } else {
                (polls_left - 1) as nat
            },
            RelayView::Checking { polls_left, .. } => polls_left as nat,
            _ => 0,
        }
    }
}

/// Whatever a relay is told, it never fetches or waits more often than its
/// state leaves room for.
pub proof fn lemma_relay_stays_within_budget(state: RelayView, events: Seq<EventView>)
    ensures
        fetches(run(state, events).1) <= state.fetches_left(),
        waited(run(state, events).1) <= POLL_INTERVAL_SECS * state.waits_left(),
    decreases events.len(),
{
    if events.len() > 0 {
        let (after, action) = state.next(events.first());
        let later = run(after, events.drop_first()).1;
        lemma_relay_stays_within_budget(after, events.drop_first());
        if let Some(action) = action {
            assert((asked(Some(action)) + later).drop_first() == later);
        } else {
            assert(asked(None) + later == later);
        }
    }
}

/// The cost of a relay is bounded. Whatever the provider answers, and
/// however long the relay is fed, it fetches the status of its run at most
/// `MAX_POLLS` times and waits at most `MAX_POLLS` poll intervals in all.
pub proof fn law_relay_cost_is_bounded(
    thread_id: Seq<char>,
    text: Seq<char>,
    assistant_id: Seq<char>,
    events: Seq<EventView>,
)
    ensures
        fetches(trace(relay_start(thread_id, text, assistant_id), events).1) <= MAX_POLLS,
        waited(trace(relay_start(thread_id, text, assistant_id), events).1) <= MAX_POLLS
            * POLL_INTERVAL_SECS,
{
    let start = relay_start(thread_id, text, assistant_id);
    let later = run(start.0, events).1;
    lemma_relay_stays_within_budget(start.0, events);
    assert((seq![start.1] + later).drop_first() == later);
}

/// The events that answer `statuses.len()` rounds of polling: each wait
/// passes, and each fetch reports the next status.
pub open spec fn poll_events(statuses: Seq<RunStatus>) -> Seq<EventView>
    decreases statuses.len(),
{
    if statuses.len() == 0 {
        Seq::empty()
    } else {
        seq![EventView::Done, EventView::Status(statuses.first())] + poll_events(
            statuses.drop_first(),
        )
    }
}

/// The actions of `rounds` rounds of polling: a wait of the poll interval,
/// then a fetch of the run's status, `rounds` times over.
pub open spec fn polls(thread_id: Seq<char>, run_id: Seq<char>, rounds: nat) -> Seq<ActionView>
    decreases rounds,
{
    if rounds == 0 {
        Seq::empty()
    } else {
        seq![
            ActionView::Wait { seconds: POLL_INTERVAL_SECS },
            ActionView::RetrieveRun { thread_id, run_id },
        ] + polls(thread_id, run_id, (rounds - 1) as nat)
    }
}

/// Every status of `statuses` is a pending one.
pub open spec fn all_pending(statuses: Seq<RunStatus>) -> bool {
    forall|i: int| 0 <= i < statuses.len() ==> (#[trigger] statuses[i]).pending()
}

/// The events of polling rounds, split at the last round.
proof fn lemma_poll_events_push(statuses: Seq<RunStatus>, status: RunStatus)
    ensures
        poll_events(statuses.push(status)) == poll_events(statuses) + seq![
            EventView::Done,
            EventView::Status(status),
        ],
    decreases statuses.len(),
{
    let last = seq![EventView::Done, EventView::Status(status)];
    if statuses.len() == 0 {
        assert(statuses.push(status).drop_first() == statuses);
        assert(statuses.push(status).first() == status);
        assert(poll_events(statuses) == Seq::<EventView>::empty());
        assert(last + Seq::<EventView>::empty() == Seq::<EventView>::empty() + last);
    } else {
        let head = seq![EventView::Done, EventView::Status(statuses.first())];
        assert(statuses.push(status).drop_first() == statuses.drop_first().push(status));
        lemma_poll_events_push(statuses.drop_first(), status);
        assert(head + (poll_events(statuses.drop_first()) + last) == (head + poll_events(
            statuses.drop_first(),
        )) + last);
    }
}

/// While the budget lasts, each pending status costs one fetch and leads to
/// the next wait.
proof fn lemma_pending_rounds(
    thread_id: Seq<char>,
    run_id: Seq<char>,
    polls_left: u8,
    statuses: Seq<RunStatus>,
)
    requires
        all_pending(statuses),
        statuses.len() < polls_left,
    ensures
        run(RelayView::Waiting { thread_id, run_id, polls_left }, poll_events(statuses)).0
            == (RelayView::Waiting {
            thread_id,
            run_id,
            polls_left: (polls_left - statuses.len()) as u8,
        }),
        seq![ActionView::Wait { seconds: POLL_INTERVAL_SECS }] + run(
            RelayView::Waiting { thread_id, run_id, polls_left },
            poll_events(statuses),
        ).1 == polls(thread_id, run_id, statuses.len()) + seq![
            ActionView::Wait { seconds: POLL_INTERVAL_SECS },
        ],
    decreases statuses.len(),
{
    let wait = ActionView::Wait { seconds: POLL_INTERVAL_SECS };
    let fetch = ActionView::RetrieveRun { thread_id, run_id };
    let state = RelayView::Waiting { thread_id, run_id, polls_left };
    if statuses.len() == 0 {
        assert(seq![wait] + Seq::<ActionView>::empty() == Seq::<ActionView>::empty() + seq![wait]);
    } else {
        let head = seq![EventView::Done, EventView::Status(statuses.first())];
        let rest = statuses.drop_first();
        let after = RelayView::Waiting { thread_id, run_id, polls_left: (polls_left - 1) as u8 };
        assert(statuses.first().pending());
        assert(all_pending(rest)) by {
            assert forall|i: int| 0 <= i < rest.len() implies (#[trigger] rest[i]).pending() by {
                assert(rest[i] == statuses[i + 1]);
            }
        }
        assert(run(state, head) == (after, seq![fetch, wait])) by {
            reveal_with_fuel(run, 3);
            assert(head.drop_first().first() == EventView::Status(statuses.first()));
        }
        lemma_run_concat(state, head, poll_events(rest));
        lemma_pending_rounds(thread_id, run_id, (polls_left - 1) as u8, rest);
        let later = run(after, poll_events(rest)).1;
        assert(seq![wait] + (seq![fetch, wait] + later) == seq![wait, fetch] + (seq![wait]
            + later));
        assert(seq![wait, fetch] + (polls(thread_id, run_id, rest.len()) + seq![wait]) == (
            seq![wait, fetch] + polls(thread_id, run_id, rest.len())) + seq![wait]);
    }
}

/// A relay that has polled `earlier.len()` times in vain, and is then told
/// `status`, has asked for exactly one more round of polling.
proof fn lemma_polling_until(
    thread_id: Seq<char>,
    text: Seq<char>,
    assistant_id: Seq<char>,
    run_id: Seq<char>,
    earlier: Seq<RunStatus>,
    status: RunStatus,
)
    requires
        all_pending(earlier),
        earlier.len() < MAX_POLLS,
    ensures
        ({
            let events = seq![EventView::Done, EventView::RunStarted { run_id }] + poll_events(
                earlier.push(status),
            );
            let reached = RelayView::Checking {
                thread_id,
                run_id,
                polls_left: (MAX_POLLS - earlier.len() - 1) as u8,
            };
            let (end, actions) = trace(relay_start(thread_id, text, assistant_id), events);
            &&& end == reached.next(EventView::Status(status)).0
            &&& actions == seq![
                ActionView::SubmitMessage { thread_id, text },
                ActionView::StartRun { thread_id, assistant_id },
            ] + polls(thread_id, run_id, earlier.len() + 1) + asked(
                reached.next(EventView::Status(status)).1,
            )
        }),
{
    let submit = ActionView::SubmitMessage { thread_id, text };
    let start_run = ActionView::StartRun { thread_id, assistant_id };
    let wait = ActionView::Wait { seconds: POLL_INTERVAL_SECS };
    let fetch = ActionView::RetrieveRun { thread_id, run_id };
    let opening = seq![EventView::Done, EventView::RunStarted { run_id }];
    let closing = seq![EventView::Done, EventView::Status(status)];
    let start = relay_start(thread_id, text, assistant_id).0;
    let waiting = RelayView::Waiting { thread_id, run_id, polls_left: MAX_POLLS };
    let waiting_again = RelayView::Waiting {
        thread_id,
        run_id,
        polls_left: (MAX_POLLS - earlier.len()) as u8,
    };
    let reached = RelayView::Checking {
        thread_id,
        run_id,
        polls_left: (MAX_POLLS - earlier.len() - 1) as u8,
    };
    let (end, last) = reached.next(EventView::Status(status));
    let last_actions = asked(last);

    lemma_poll_events_push(earlier, status);
    assert(run(start, opening) == (waiting, seq![start_run, wait])) by {
        reveal_with_fuel(run, 3);
        assert(opening.drop_first().first() == EventView::RunStarted { run_id });
    }
    lemma_pending_rounds(thread_id, run_id, MAX_POLLS, earlier);
    assert(run(waiting_again, closing) == (end, seq![fetch] + last_actions)) by {
        reveal_with_fuel(run, 3);
        assert(closing.drop_first().first() == EventView::Status(status));
        assert(closing.drop_first().drop_first().len() == 0);
    }
    lemma_run_concat(waiting, poll_events(earlier), closing);
    lemma_run_concat(start, opening, poll_events(earlier) + closing);
    let middle = run(waiting, poll_events(earlier)).1;
    let actions = trace(
        relay_start(thread_id, text, assistant_id),
        opening + poll_events(earlier.push(status)),
    ).1;
    assert(actions == seq![submit] + (seq![start_run, wait] + (middle + (seq![fetch]
        + last_actions))));
    assert(actions == seq![submit, start_run] + ((seq![wait] + middle) + seq![fetch])
        + last_actions);
    lemma_polls_push(thread_id, run_id, earlier.len());
}

/// One more round of polling, appended at the end.
proof fn lemma_polls_push(thread_id: Seq<char>, run_id: Seq<char>, rounds: nat)
    ensures
        polls(thread_id, run_id, rounds + 1) == polls(thread_id, run_id, rounds) + seq![
            ActionView::Wait { seconds: POLL_INTERVAL_SECS },
            ActionView::RetrieveRun { thread_id, run_id },
        ],
    decreases rounds,
{
    let round = seq![
        ActionView::Wait { seconds: POLL_INTERVAL_SECS },
        ActionView::RetrieveRun { thread_id, run_id },
    ];
    if rounds == 0 {
        assert(polls(thread_id, run_id, 1) == round + polls(thread_id, run_id, 0));
        assert(round + Seq::<ActionView>::empty() == Seq::<ActionView>::empty() + round);
    } else {
        lemma_polls_push(thread_id, run_id, (rounds - 1) as nat);
        assert(round + (polls(thread_id, run_id, (rounds - 1) as nat) + round) == (round + polls(
            thread_id,
            run_id,
            (rounds - 1) as nat,
        )) + round);
    }
}

/// The shape of polling: `rounds` waits and `rounds` fetches in turn, and
/// nothing else.
pub proof fn lemma_polls_shape(thread_id: Seq<char>, run_id: Seq<char>, rounds: nat)
    ensures
        polls(thread_id, run_id, rounds).len() == 2 * rounds,
        forall|i: int|
            0 <= i < 2 * rounds ==> #[trigger] polls(thread_id, run_id, rounds)[i] == if i % 2
                == 0 {
                ActionView::Wait { seconds: POLL_INTERVAL_SECS }
            } else {
                ActionView::RetrieveRun { thread_id, run_id }
            },
    decreases rounds,
{
    if rounds > 0 {
        lemma_polls_shape(thread_id, run_id, (rounds - 1) as nat);
    }
}

/// The poll budget. When the first `MAX_POLLS` statuses fetched are all
/// pending, the relay replies with the timeout text. It has waited and
/// fetched `MAX_POLLS` times and has never asked for the thread's messages.
pub proof fn law_exhausted_budget_times_out(
    thread_id: Seq<char>,
    text: Seq<char>,
    assistant_id: Seq<char>,
    run_id: Seq<char>,
    statuses: Seq<RunStatus>,
    rest: Seq<EventView>,
)
    requires
        statuses.len() == MAX_POLLS,
        all_pending(statuses),
    ensures
        ({
            let events = seq![EventView::Done, EventView::RunStarted { run_id }] + poll_events(
                statuses,
            ) + rest;
            let (end, actions) = trace(relay_start(thread_id, text, assistant_id), events);
            &&& end == RelayView::Replied { text: timeout_text() }
            &&& actions == seq![
                ActionView::SubmitMessage { thread_id, text },
                ActionView::StartRun { thread_id, assistant_id },
            ] + polls(thread_id, run_id, MAX_POLLS as nat)
            &&& forall|i: int| 0 <= i < actions.len() ==> !(#[trigger] actions[i] is ListMessages)
        }),
{
    let earlier = statuses.drop_last();
    let status = statuses.last();
    assert(earlier.push(status) == statuses);
    assert(all_pending(earlier));
    assert(status.pending());
    let polled = seq![EventView::Done, EventView::RunStarted { run_id }] + poll_events(statuses);
    lemma_polling_until(thread_id, text, assistant_id, run_id, earlier, status);
    lemma_run_concat(relay_start(thread_id, text, assistant_id).0, polled, rest);
    lemma_run_after_end(RelayView::Replied { text: timeout_text() }, rest);
    lemma_polls_shape(thread_id, run_id, MAX_POLLS as nat);
    let actions = trace(relay_start(thread_id, text, assistant_id), polled + rest).1;
    let opening = seq![
        ActionView::SubmitMessage { thread_id, text },
        ActionView::StartRun { thread_id, assistant_id },
    ];
    assert(actions == opening + polls(thread_id, run_id, MAX_POLLS as nat));
}

/// A run that ends without success. When a status that is neither pending
/// nor `Completed` is fetched within the budget, the relay replies with the
/// text of that status. It has made no fetch after that one and has never
/// asked for the thread's messages.
pub proof fn law_unsuccessful_run_is_reported(
    thread_id: Seq<char>,
    text: Seq<char>,
    assistant_id: Seq<char>,
    run_id: Seq<char>,
    earlier: Seq<RunStatus>,
    status: RunStatus,
    rest: Seq<EventView>,
)
    requires
        all_pending(earlier),
        earlier.len() < MAX_POLLS,
        !status.pending(),
        !(status is Completed),
    ensures
        ({
            let events = seq![EventView::Done, EventView::RunStarted { run_id }] + poll_events(
                earlier.push(status),
            ) + rest;
            let (end, actions) = trace(relay_start(thread_id, text, assistant_id), events);
            &&& status.failure_text() is Some
            &&& end == RelayView::Replied { text: status.failure_text().unwrap() }
            &&& actions == seq![
                ActionView::SubmitMessage { thread_id, text },
                ActionView::StartRun { thread_id, assistant_id },
            ] + polls(thread_id, run_id, earlier.len() + 1)
            &&& forall|i: int| 0 <= i < actions.len() ==> !(#[trigger] actions[i] is ListMessages)
        }),
{
    let polled = seq![EventView::Done, EventView::RunStarted { run_id }] + poll_events(
        earlier.push(status),
    );
    lemma_polling_until(thread_id, text, assistant_id, run_id, earlier, status);
    lemma_run_concat(relay_start(thread_id, text, assistant_id).0, polled, rest);
    lemma_run_after_end(RelayView::Replied { text: status.failure_text().unwrap() }, rest);
    lemma_polls_shape(thread_id, run_id, earlier.len() + 1);
    let actions = trace(relay_start(thread_id, text, assistant_id), polled + rest).1;
    let opening = seq![
        ActionView::SubmitMessage { thread_id, text },
        ActionView::StartRun { thread_id, assistant_id },
    ];
    assert(actions == opening + polls(thread_id, run_id, earlier.len() + 1));
}

/// A run that completes. When `Completed` is fetched within the budget, the
/// relay makes no further fetch, asks for the newest message of the thread,
/// and replies with the text segments of the last message it is given,
/// joined in order.
pub proof fn law_completed_run_is_read(
    thread_id: Seq<char>,
    text: Seq<char>,
    assistant_id: Seq<char>,
    run_id: Seq<char>,
    earlier: Seq<RunStatus>,
    messages: Seq<Seq<SegmentView>>,
    rest: Seq<EventView>,
)
    requires
        all_pending(earlier),
        earlier.len() < MAX_POLLS,
        messages.len() > 0,
    ensures
        ({
            let events = seq![EventView::Done, EventView::RunStarted { run_id }] + poll_events(
                earlier.push(RunStatus::Completed),
            ) + seq![EventView::Messages(messages)] + rest;
            let (end, actions) = trace(relay_start(thread_id, text, assistant_id), events);
            &&& end == RelayView::Replied { text: joined_text(messages.last()) }
            &&& actions == seq![
                ActionView::SubmitMessage { thread_id, text },
                ActionView::StartRun { thread_id, assistant_id },
            ] + polls(thread_id, run_id, earlier.len() + 1) + seq![
                ActionView::ListMessages { thread_id, limit: REPLY_LIMIT },
            ]
        }),
{
    let start = relay_start(thread_id, text, assistant_id).0;
    let polled = seq![EventView::Done, EventView::RunStarted { run_id }] + poll_events(
        earlier.push(RunStatus::Completed),
    );
    let answer = seq![EventView::Messages(messages)];
    let end = RelayView::Replied { text: joined_text(messages.last()) };
    lemma_polling_until(thread_id, text, assistant_id, run_id, earlier, RunStatus::Completed);
    assert(run(RelayView::Reading, answer) == (end, Seq::<ActionView>::empty())) by {
        reveal_with_fuel(run, 2);
    }
    lemma_run_concat(start, polled, answer);
    lemma_run_concat(start, polled + answer, rest);
    lemma_run_after_end(end, rest);
}

} // verus!
