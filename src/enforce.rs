use crate::classify::{exempt, is_exempt, IncomingMessage};
use crate::store::ChannelPolicyStore;
use vstd::prelude::*;

verus! {

/// How long the warning reply stays before it is deleted, in seconds.
pub const WARNING_LIFETIME_SECS: u64 = 3;

/// Where the handling of one message stands.
#[derive(Clone, Copy, Debug, PartialEq, Eq, Structural)]
pub enum Phase {
    /// Nothing is to be done with the message.
    Ignored,
    /// The original message is being deleted.
    DeletingOriginal,
    /// The warning reply is being sent.
    SendingWarning,
    /// The warning reply is up; its lifetime is running.
    WaitingToClean,
    /// The warning reply is being deleted.
    DeletingWarning,
    /// The sequence ran to its end.
    Finished,
    /// A step failed and the rest of the sequence was dropped.
    Aborted,
}

/// What the gateway reports back after an action.
#[derive(Clone, Copy, Debug, PartialEq, Eq, Structural)]
pub enum Event {
    /// The request to delete the original message came back, succeeded or not.
    OriginalDeleted(bool),
    /// The warning reply was sent, or sending it failed.
    WarningSent(bool),
    /// The warning's lifetime ran out.
    DelayElapsed,
    /// The request to delete the warning reply came back, succeeded or not.
    WarningDeleted(bool),
}

/// What the gateway is asked to do next.
#[derive(Clone, Copy, Debug, PartialEq, Eq, Structural)]
pub enum Action {
    Nothing,
    DeleteOriginal,
    SendWarning,
    Wait { seconds: u64 },
    DeleteWarning,
    /// Deleting the warning failed; this is logged and otherwise ignored.
    ReportCleanupFailure,
}

/// Whether a message is to be deleted and warned about: a person wrote it,
/// its channel is enforced, and it is not exempt.
pub open spec fn must_enforce(
    enforced: Set<u64>,
    author_is_bot: bool,
    channel: u64,
    attachments: nat,
    text: Seq<char>,
) -> bool {
    !author_is_bot && enforced.contains(channel) && !exempt(attachments, text)
}

/// The phase a received message enters and the first action taken for it.
pub open spec fn start(
    enforced: Set<u64>,
    author_is_bot: bool,
    channel: u64,
    attachments: nat,
    text: Seq<char>,
) -> (Phase, Action) {
    if must_enforce(enforced, author_is_bot, channel, attachments, text) {
        (Phase::DeletingOriginal, Action::DeleteOriginal)
    } else {
        (Phase::Ignored, Action::Nothing)
    }
}

/// The step taken on `event` in `phase`. An event that does not belong to
/// the phase changes nothing.
pub open spec fn transition(phase: Phase, event: Event) -> (Phase, Action) {
    match (phase, event) {
        (Phase::DeletingOriginal, Event::OriginalDeleted(true)) => (
            Phase::SendingWarning,
            Action::SendWarning,
        ),
        (Phase::DeletingOriginal, Event::OriginalDeleted(false)) => (Phase::Aborted, Action::Nothing),
        (Phase::SendingWarning, Event::WarningSent(true)) => (
            Phase::WaitingToClean,
            Action::Wait { seconds: WARNING_LIFETIME_SECS },
        ),
        (Phase::SendingWarning, Event::WarningSent(false)) => (Phase::Aborted, Action::Nothing),
        (Phase::WaitingToClean, Event::DelayElapsed) => (Phase::DeletingWarning, Action::DeleteWarning),
        (Phase::DeletingWarning, Event::WarningDeleted(true)) => (Phase::Finished, Action::Nothing),
        (Phase::DeletingWarning, Event::WarningDeleted(false)) => (
            Phase::Finished,
            Action::ReportCleanupFailure,
        ),
        _ => (phase, Action::Nothing),
    }
}

/// The phase reached and the actions taken when `events` arrive in order.
pub open spec fn run(phase: Phase, events: Seq<Event>) -> (Phase, Seq<Action>)
    decreases events.len(),
{
    if events.len() == 0 {
        (phase, Seq::empty())
    } else {
        let (next, action) = transition(phase, events[0]);
        let (last, rest) = run(next, events.drop_first());
        (last, seq![action] + rest)
    }
}

/// Whether to delete and warn, given who wrote the message, whether its
/// channel is enforced, and whether it is exempt.
pub fn should_enforce(author_is_bot: bool, channel_enforced: bool, is_exempt: bool) -> (r: bool)
    ensures
        r == (!author_is_bot && channel_enforced && !is_exempt),
{
    !author_is_bot && channel_enforced && !is_exempt
}

/// Handles a newly received message: the phase it enters and the first
/// action. Bots are let through before anything else is looked at.
pub fn receive(store: &ChannelPolicyStore, message: &IncomingMessage) -> (r: (Phase, Action))
    ensures
        r == start(
            store@,
            message.author_is_bot,
            message.channel_id,
            message.attachment_count as nat,
            message.content@,
        ),
{
    if message.author_is_bot {
        return (Phase::Ignored, Action::Nothing);
    }
    let enforced = store.is_enforced(message.channel_id);
    if !enforced {
        return (Phase::Ignored, Action::Nothing);
    }
    let exempt_message = is_exempt(message);
    if should_enforce(message.author_is_bot, enforced, exempt_message) {
        (Phase::DeletingOriginal, Action::DeleteOriginal)
    } else {
        (Phase::Ignored, Action::Nothing)
    }
}

/// The next phase and action once `event` arrives in `phase`.
pub fn advance(phase: Phase, event: Event) -> (r: (Phase, Action))
    ensures
        r == transition(phase, event),
{
    match (phase, event) {
        (Phase::DeletingOriginal, Event::OriginalDeleted(ok)) => {
            if ok {
                (Phase::SendingWarning, Action::SendWarning)
            } else {
                (Phase::Aborted, Action::Nothing)
            }
        },
        (Phase::SendingWarning, Event::WarningSent(ok)) => {
            if ok {
                (Phase::WaitingToClean, Action::Wait { seconds: WARNING_LIFETIME_SECS })
            } else {
                (Phase::Aborted, Action::Nothing)
            }
        },
        (Phase::WaitingToClean, Event::DelayElapsed) => (
            Phase::DeletingWarning,
            Action::DeleteWarning,
        ),
        (Phase::DeletingWarning, Event::WarningDeleted(ok)) => {
            if ok {
                (Phase::Finished, Action::Nothing)
            } else {
                (Phase::Finished, Action::ReportCleanupFailure)
            }
        },
        _ => (phase, Action::Nothing),
    }
}

/// The warning reply to a deleted message, addressed to its author.
pub fn warning_text(author_mention: &str) -> (r: String)
    ensures
        r@ == author_mention@ + " SHUT!"@,
{
    String::from_str(author_mention).concat(" SHUT!")
}

/// The confirmation of a toggle in the channel with this mention, given
/// whether the channel was enforced before it.
pub fn toggle_reply(was_enforced: bool, channel_mention: &str) -> (r: String)
    ensures
        was_enforced ==> r@ == "SHUT will stop removing messages from "@ + channel_mention@,
        !was_enforced ==> r@ == "SHUT will now remove non-media messages from "@ + channel_mention@,
{
    if was_enforced {
        String::from_str("SHUT will stop removing messages from ").concat(channel_mention)
    } else {
        String::from_str("SHUT will now remove non-media messages from ").concat(channel_mention)
    }
}

/// Whether no further step follows in `phase`.
pub open spec fn at_rest(phase: Phase) -> bool {
    phase == Phase::Ignored || phase == Phase::Aborted || phase == Phase::Finished
}

/// Once the handling of a message has come to rest, no later event leads to
/// any action on it.
pub proof fn lemma_rest_is_final(phase: Phase, events: Seq<Event>)
    requires
        at_rest(phase),
    ensures
        run(phase, events).0 == phase,
        run(phase, events).1.len() == events.len(),
        forall|i: int| 0 <= i < events.len() ==> run(phase, events).1[i] == Action::Nothing,
    decreases events.len(),
{
    if events.len() > 0 {
        lemma_rest_is_final(phase, events.drop_first());
        let rest = run(phase, events.drop_first()).1;
        assert forall|i: int| 0 <= i < events.len() implies run(phase, events).1[i]
            == Action::Nothing by {
            if i > 0 {
                assert(run(phase, events).1[i] == rest[i - 1]);
            }
        }
    }
}

/// A message with no text and no attachment, written by a person in an
/// enforced channel, is deleted; when each step succeeds, a warning follows,
/// it is left up for its lifetime, and it is then deleted.
pub proof fn lemma_bare_message_enforced(enforced: Set<u64>, channel: u64)
    requires
        enforced.contains(channel),
    ensures
        start(enforced, false, channel, 0, Seq::empty()) == (
            Phase::DeletingOriginal,
            Action::DeleteOriginal,
        ),
        run(
            Phase::DeletingOriginal,
            seq![
                Event::OriginalDeleted(true),
                Event::WarningSent(true),
                Event::DelayElapsed,
                Event::WarningDeleted(true),
            ],
        ) == (
            Phase::Finished,
            seq![
                Action::SendWarning,
                Action::Wait { seconds: WARNING_LIFETIME_SECS },
                Action::DeleteWarning,
                Action::Nothing,
            ],
        ),
{
    let events = seq![
        Event::OriginalDeleted(true),
        Event::WarningSent(true),
        Event::DelayElapsed,
        Event::WarningDeleted(true),
    ];
    let e1 = events.drop_first();
    let e2 = e1.drop_first();
    let e3 = e2.drop_first();
    let e4 = e3.drop_first();
    assert(e4.len() == 0);
    assert(e3[0] == Event::WarningDeleted(true));
    assert(e2[0] == Event::DelayElapsed);
    assert(e1[0] == Event::WarningSent(true));
    assert(run(Phase::Finished, e4) == (Phase::Finished, Seq::<Action>::empty()));
    assert(run(Phase::DeletingWarning, e3).1 =~= seq![Action::Nothing]);
    assert(run(Phase::WaitingToClean, e2).1 =~= seq![Action::DeleteWarning, Action::Nothing]);
    assert(run(Phase::SendingWarning, e1).1 =~= seq![
        Action::Wait { seconds: WARNING_LIFETIME_SECS },
        Action::DeleteWarning,
        Action::Nothing,
    ]);
    assert(run(Phase::DeletingOriginal, events).1 =~= seq![
        Action::SendWarning,
        Action::Wait { seconds: WARNING_LIFETIME_SECS },
        Action::DeleteWarning,
        Action::Nothing,
    ]);
}

/// A message written by a bot is ignored whatever its channel and content,
/// and no later event leads to any action on it.
pub proof fn lemma_bot_never_enforced(
    enforced: Set<u64>,
    channel: u64,
    attachments: nat,
    text: Seq<char>,
    events: Seq<Event>,
)
    ensures
        start(enforced, true, channel, attachments, text) == (Phase::Ignored, Action::Nothing),
        forall|i: int|
            0 <= i < events.len() ==> run(Phase::Ignored, events).1[i] == Action::Nothing,
{
    lemma_rest_is_final(Phase::Ignored, events);
}

/// When the original message cannot be deleted, no warning is sent for it,
/// whatever the gateway reports afterwards.
pub proof fn lemma_failed_delete_sends_no_warning(events: Seq<Event>)
    ensures
        transition(Phase::DeletingOriginal, Event::OriginalDeleted(false)) == (
            Phase::Aborted,
            Action::Nothing,
        ),
        forall|i: int|
            0 <= i < events.len() ==> run(Phase::Aborted, events).1[i] == Action::Nothing,
{
    lemma_rest_is_final(Phase::Aborted, events);
}

} // verus!
