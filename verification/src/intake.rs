//! Ticket intake: the conversational flow that turns a qualifying reaction
//! into a persisted ticket.
//!
//! The flow is a state machine. Each step consumes one event — a platform
//! result or the requester's (possibly timed-out) answer — and returns the
//! next state together with the actions the driver must perform: create or
//! delete a channel, post a prompt, persist the ticket row. Timeouts are
//! first-class: either wait timing out deletes the provisional channel,
//! notifies the requester, and leaves no ticket row behind.

use vstd::prelude::*;
use vstd::string::StringExecFns;

use crate::dispatch::{ticket_emoji, ticket_emoji_text};
use crate::matcher::{match_subjects, other_subject, top_matches, with_other_option};
use crate::subject::{Subject, SubjectV};
use crate::tickets::Ticket;

verus! {

/// How many matched subjects the requester is offered, besides "Other".
pub const SUGGESTION_LIMIT: usize = 5;

/// The fixed data one intake flow runs under.
pub struct IntakeContext {
    /// The server the ticket is opened in.
    pub server_id: u64,
    /// The requester.
    pub author_id: u64,
    /// The server's subject list, the candidate pool for classification.
    pub subjects: Vec<Subject>,
    /// Category the provisional channel is created in.
    pub unclaimed_category_id: u64,
}

/// Mathematical image of an [`IntakeContext`].
pub struct IntakeContextV {
    pub server_id: u64,
    pub author_id: u64,
    pub subjects: Seq<SubjectV>,
    pub unclaimed_category_id: u64,
}

impl View for IntakeContext {
    type V = IntakeContextV;

    open spec fn view(&self) -> IntakeContextV {
        IntakeContextV {
            server_id: self.server_id,
            author_id: self.author_id,
            subjects: self.subjects.deep_view(),
            unclaimed_category_id: self.unclaimed_category_id,
        }
    }
}

/// Where one intake flow stands.
pub enum IntakeState {
    /// The channel-creation request is out; waiting for the platform to
    /// hand back the new channel.
    AwaitingChannel,
    /// Waiting for the requester to type the subject of their issue.
    AwaitingSubjectText { channel_id: u64 },
    /// Waiting for the requester to pick one of the offered options.
    AwaitingSubjectChoice { channel_id: u64, options: Vec<Subject> },
    /// The ticket row is persisted; the flow is over.
    Completed { ticket: Ticket },
    /// The flow ended without a ticket; no row was or will be written.
    Aborted,
}

/// Mathematical image of an [`IntakeState`].
pub enum IntakeStateV {
    AwaitingChannel,
    AwaitingSubjectText { channel_id: u64 },
    AwaitingSubjectChoice { channel_id: u64, options: Seq<SubjectV> },
    Completed { ticket: Ticket },
    Aborted,
}

impl View for IntakeState {
    type V = IntakeStateV;

    open spec fn view(&self) -> IntakeStateV {
        match self {
            IntakeState::AwaitingChannel => IntakeStateV::AwaitingChannel,
            IntakeState::AwaitingSubjectText { channel_id } => IntakeStateV::AwaitingSubjectText {
                channel_id: *channel_id,
            },
            IntakeState::AwaitingSubjectChoice { channel_id, options } => {
                IntakeStateV::AwaitingSubjectChoice {
                    channel_id: *channel_id,
                    options: options.deep_view(),
                }
            }
            IntakeState::Completed { ticket } => IntakeStateV::Completed { ticket: *ticket },
            IntakeState::Aborted => IntakeStateV::Aborted,
        }
    }
}

/// One event an intake flow can consume.
pub enum IntakeEvent {
    /// The platform created the provisional channel.
    ChannelCreated { channel_id: u64 },
    /// The requester typed their subject text.
    SubjectReply { text: String },
    /// The subject-text wait timed out.
    SubjectReplyTimeout,
    /// The requester picked option `index` from the prompt.
    SubjectChoice { index: usize },
    /// The choice wait timed out.
    SubjectChoiceTimeout,
    /// The requester interacted in some way that is not a selection.
    SubjectChoiceDismissed,
}

/// Mathematical image of an [`IntakeEvent`].
pub enum IntakeEventV {
    ChannelCreated { channel_id: u64 },
    SubjectReply { text: Seq<char> },
    SubjectReplyTimeout,
    SubjectChoice { index: usize },
    SubjectChoiceTimeout,
    SubjectChoiceDismissed,
}

impl View for IntakeEvent {
    type V = IntakeEventV;

    open spec fn view(&self) -> IntakeEventV {
        match self {
            IntakeEvent::ChannelCreated { channel_id } => IntakeEventV::ChannelCreated {
                channel_id: *channel_id,
            },
            IntakeEvent::SubjectReply { text } => IntakeEventV::SubjectReply { text: text@ },
            IntakeEvent::SubjectReplyTimeout => IntakeEventV::SubjectReplyTimeout,
            IntakeEvent::SubjectChoice { index } => IntakeEventV::SubjectChoice { index: *index },
            IntakeEvent::SubjectChoiceTimeout => IntakeEventV::SubjectChoiceTimeout,
            IntakeEvent::SubjectChoiceDismissed => IntakeEventV::SubjectChoiceDismissed,
        }
    }
}

/// One action the driver must perform on the engine's behalf.
pub enum IntakeAction {
    /// Create a private text channel named `name` under `category_id`.
    CreateChannel { category_id: u64, name: String },
    /// Fire-and-forget confirmation to the requester; delivery failure must
    /// not affect the flow.
    SendTicketOpenedDm { user_id: u64, channel_id: u64 },
    /// Post the welcome prompt asking for the subject text.
    PostWelcome { channel_id: u64 },
    /// Present the single-choice subject menu; the options stand in the
    /// returned state.
    PostChoicePrompt { channel_id: u64 },
    /// Rename the ticket channel after the chosen subject.
    RenameChannel { channel_id: u64, name: String },
    /// Write the ticket row to the store.
    PersistTicket { ticket: Ticket },
    /// Post the confirmation naming the resolved subject.
    PostConfirmation { channel_id: u64, subject_name: String },
    /// Delete the provisional channel.
    DeleteChannel { channel_id: u64 },
    /// Tell the requester by direct message that the flow timed out.
    SendTimeoutNotice { user_id: u64 },
    /// Remove the triggering reaction so the user can react again.
    RemoveTriggerReaction,
}

/// Mathematical image of an [`IntakeAction`].
pub enum IntakeActionV {
    CreateChannel { category_id: u64, name: Seq<char> },
    SendTicketOpenedDm { user_id: u64, channel_id: u64 },
    PostWelcome { channel_id: u64 },
    PostChoicePrompt { channel_id: u64 },
    RenameChannel { channel_id: u64, name: Seq<char> },
    PersistTicket { ticket: Ticket },
    PostConfirmation { channel_id: u64, subject_name: Seq<char> },
    DeleteChannel { channel_id: u64 },
    SendTimeoutNotice { user_id: u64 },
    RemoveTriggerReaction,
}

impl View for IntakeAction {
    type V = IntakeActionV;

    open spec fn view(&self) -> IntakeActionV {
        match self {
            IntakeAction::CreateChannel { category_id, name } => IntakeActionV::CreateChannel {
                category_id: *category_id,
                name: name@,
            },
            IntakeAction::SendTicketOpenedDm { user_id, channel_id } => {
                IntakeActionV::SendTicketOpenedDm { user_id: *user_id, channel_id: *channel_id }
            }
            IntakeAction::PostWelcome { channel_id } => IntakeActionV::PostWelcome {
                channel_id: *channel_id,
            },
            IntakeAction::PostChoicePrompt { channel_id } => IntakeActionV::PostChoicePrompt {
                channel_id: *channel_id,
            },
            IntakeAction::RenameChannel { channel_id, name } => IntakeActionV::RenameChannel {
                channel_id: *channel_id,
                name: name@,
            },
            IntakeAction::PersistTicket { ticket } => IntakeActionV::PersistTicket {
                ticket: *ticket,
            },
            IntakeAction::PostConfirmation { channel_id, subject_name } => {
                IntakeActionV::PostConfirmation {
                    channel_id: *channel_id,
                    subject_name: subject_name@,
                }
            }
            IntakeAction::DeleteChannel { channel_id } => IntakeActionV::DeleteChannel {
                channel_id: *channel_id,
            },
            IntakeAction::SendTimeoutNotice { user_id } => IntakeActionV::SendTimeoutNotice {
                user_id: *user_id,
            },
            IntakeAction::RemoveTriggerReaction => IntakeActionV::RemoveTriggerReaction,
        }
    }
}

impl DeepView for IntakeAction {
    type V = IntakeActionV;

    open spec fn deep_view(&self) -> IntakeActionV {
        self.view()
    }
}

/// The name a ticket channel takes once its subject is known.
pub open spec fn renamed_channel(subject_name: Seq<char>) -> Seq<char> {
    ticket_emoji() + "-"@ + subject_name
}

/// The options offered for reply text `text`: the best matches, then
/// "Other".
pub open spec fn offered_options(subs: Seq<SubjectV>, text: Seq<char>) -> Seq<SubjectV> {
    top_matches(subs, text, SUGGESTION_LIMIT as int).push(other_subject())
}

/// The transition function of the intake machine: one state and one event
/// in, the next state and the prescribed actions out. Events that do not
/// fit the state leave it unchanged and prescribe nothing.
pub open spec fn intake_step_spec(
    ctx: IntakeContextV,
    s: IntakeStateV,
    e: IntakeEventV,
) -> (IntakeStateV, Seq<IntakeActionV>) {
    match (s, e) {
        (IntakeStateV::AwaitingChannel, IntakeEventV::ChannelCreated { channel_id }) => (
            IntakeStateV::AwaitingSubjectText { channel_id },
            seq![
                IntakeActionV::SendTicketOpenedDm { user_id: ctx.author_id, channel_id },
                IntakeActionV::PostWelcome { channel_id },
            ],
        ),
        (
            IntakeStateV::AwaitingSubjectText { channel_id },
            IntakeEventV::SubjectReply { text },
        ) => (
            IntakeStateV::AwaitingSubjectChoice {
                channel_id,
                options: offered_options(ctx.subjects, text),
            },
            seq![IntakeActionV::PostChoicePrompt { channel_id }],
        ),
        (IntakeStateV::AwaitingSubjectText { channel_id }, IntakeEventV::SubjectReplyTimeout) => (
            IntakeStateV::Aborted,
            seq![
                IntakeActionV::DeleteChannel { channel_id },
                IntakeActionV::SendTimeoutNotice { user_id: ctx.author_id },
            ],
        ),
        (
            IntakeStateV::AwaitingSubjectChoice { channel_id, options },
            IntakeEventV::SubjectChoice { index },
        ) => {
            if index < options.len() {
                let chosen = options[index as int];
                let ticket = Ticket {
                    channel_id,
                    server_id: ctx.server_id,
                    subject_id: chosen.id,
                    author_id: ctx.author_id,
                };
                (
                    IntakeStateV::Completed { ticket },
                    seq![
                        IntakeActionV::RenameChannel {
                            channel_id,
                            name: renamed_channel(chosen.name),
                        },
                        IntakeActionV::PersistTicket { ticket },
                        IntakeActionV::PostConfirmation { channel_id, subject_name: chosen.name },
                        IntakeActionV::RemoveTriggerReaction,
                    ],
                )
            } else {
                (IntakeStateV::Aborted, Seq::empty())
            }
        },
        (
            IntakeStateV::AwaitingSubjectChoice { channel_id, .. },
            IntakeEventV::SubjectChoiceTimeout,
        ) => (
            IntakeStateV::Aborted,
            seq![
                IntakeActionV::DeleteChannel { channel_id },
                IntakeActionV::SendTimeoutNotice { user_id: ctx.author_id },
            ],
        ),
        (
            IntakeStateV::AwaitingSubjectChoice { .. },
            IntakeEventV::SubjectChoiceDismissed,
        ) => (IntakeStateV::Aborted, Seq::empty()),
        (_, _) => (s, Seq::empty()),
    }
}

/// Builds the post-classification channel name: the ticket emoji, a dash,
/// the subject's name.
fn build_renamed_channel(subject_name: &str) -> (r: String)
    ensures
        r@ == renamed_channel(subject_name@),
{
    let mut s = String::from_str(ticket_emoji_text());
    s.append("-");
    s.append(subject_name);
    s
}

/// Runs one step of the intake machine. The returned actions are performed
/// by the driver in order; the returned state consumes the next event.
pub fn intake_step(ctx: &IntakeContext, state: IntakeState, event: IntakeEvent) -> (r: (
    IntakeState,
    Vec<IntakeAction>,
))
    ensures
        r.0@ == intake_step_spec(ctx@, state@, event@).0,
        r.1.deep_view() == intake_step_spec(ctx@, state@, event@).1,
{
    match (state, event) {
        (IntakeState::AwaitingChannel, IntakeEvent::ChannelCreated { channel_id }) => {
            let mut acts: Vec<IntakeAction> = Vec::new();
            acts.push(IntakeAction::SendTicketOpenedDm { user_id: ctx.author_id, channel_id });
            acts.push(IntakeAction::PostWelcome { channel_id });
            proof {
                assert(acts.deep_view() =~= intake_step_spec(ctx@, state@, event@).1);
            }
            (IntakeState::AwaitingSubjectText { channel_id }, acts)
        }
        (IntakeState::AwaitingSubjectText { channel_id }, IntakeEvent::SubjectReply { text }) => {
            let matches = match_subjects(&ctx.subjects, text.as_str(), SUGGESTION_LIMIT);
            let options = with_other_option(matches);
            let mut acts: Vec<IntakeAction> = Vec::new();
            acts.push(IntakeAction::PostChoicePrompt { channel_id });
            proof {
                assert(acts.deep_view() =~= intake_step_spec(ctx@, state@, event@).1);
            }
            (IntakeState::AwaitingSubjectChoice { channel_id, options }, acts)
        }
        (IntakeState::AwaitingSubjectText { channel_id }, IntakeEvent::SubjectReplyTimeout) => {
            let mut acts: Vec<IntakeAction> = Vec::new();
            acts.push(IntakeAction::DeleteChannel { channel_id });
            acts.push(IntakeAction::SendTimeoutNotice { user_id: ctx.author_id });
            proof {
                assert(acts.deep_view() =~= intake_step_spec(ctx@, state@, event@).1);
            }
            (IntakeState::Aborted, acts)
        }
        (
            IntakeState::AwaitingSubjectChoice { channel_id, options },
            IntakeEvent::SubjectChoice { index },
        ) => {
            if index < options.len() {
                let chosen_name = options[index].name.clone();
                let chosen_id = options[index].id;
                let ticket = Ticket {
                    channel_id,
                    server_id: ctx.server_id,
                    subject_id: chosen_id,
                    author_id: ctx.author_id,
                };
                let mut acts: Vec<IntakeAction> = Vec::new();
                acts.push(IntakeAction::RenameChannel {
                    channel_id,
                    name: build_renamed_channel(chosen_name.as_str()),
                });
                acts.push(IntakeAction::PersistTicket { ticket });
                acts.push(IntakeAction::PostConfirmation { channel_id, subject_name: chosen_name });
                acts.push(IntakeAction::RemoveTriggerReaction);
                proof {
                    assert(acts.deep_view() =~= intake_step_spec(ctx@, state@, event@).1);
                }
                (IntakeState::Completed { ticket }, acts)
            } else {
                (IntakeState::Aborted, Vec::new())
            }
        }
        (
            IntakeState::AwaitingSubjectChoice { channel_id, options: _ },
            IntakeEvent::SubjectChoiceTimeout,
        ) => {
            let mut acts: Vec<IntakeAction> = Vec::new();
            acts.push(IntakeAction::DeleteChannel { channel_id });
            acts.push(IntakeAction::SendTimeoutNotice { user_id: ctx.author_id });
            proof {
                assert(acts.deep_view() =~= intake_step_spec(ctx@, state@, event@).1);
            }
            (IntakeState::Aborted, acts)
        }
        (
            IntakeState::AwaitingSubjectChoice { channel_id: _, options: _ },
            IntakeEvent::SubjectChoiceDismissed,
        ) => (IntakeState::Aborted, Vec::new()),
        (s, _) => {
            let acts: Vec<IntakeAction> = Vec::new();
            (s, acts)
        }
    }
}

/// The provisional name of a new ticket channel: the ticket emoji, the
/// requester's display name, and a creation timestamp, dash-separated.
pub open spec fn ticket_channel_name(display_name: Seq<char>, stamp: Seq<char>) -> Seq<char> {
    ticket_emoji() + "-"@ + display_name + "-"@ + stamp
}

/// Relies on chrono's `Utc::now` and its `format`: renders the current UTC
/// wall-clock time as day-month-year-hour-minute-second digits. The value
/// depends on the clock, so nothing is promised of it.
#[verifier::external_body]
fn now_compact_timestamp() -> (r: String) {
    chrono::Utc::now().format("%d%m%Y%H%M%S").to_string()
}

/// Names the provisional ticket channel after the requester's display name
/// and the moment of creation; collision-tolerant, not unique-enforced.
pub fn temp_ticket_channel_name(display_name: &str) -> (r: String)
    ensures
        exists|stamp: Seq<char>| r@ == ticket_channel_name(display_name@, stamp),
{
    let stamp = now_compact_timestamp();
    let mut s = String::from_str(ticket_emoji_text());
    s.append("-");
    s.append(display_name);
    s.append("-");
    s.append(stamp.as_str());
    proof {
        assert(s@ == ticket_channel_name(display_name@, stamp@));
    }
    s
}

/// What starting an intake flow prescribes: one channel-creation request in
/// the unclaimed category.
pub open spec fn intake_start_spec(ctx: IntakeContextV, channel_name: Seq<char>) -> (
    IntakeStateV,
    Seq<IntakeActionV>,
) {
    (
        IntakeStateV::AwaitingChannel,
        seq![
            IntakeActionV::CreateChannel {
                category_id: ctx.unclaimed_category_id,
                name: channel_name,
            },
        ],
    )
}

/// Starts an intake flow for a qualifying reaction: asks the driver to
/// create the provisional channel under the unclaimed category.
pub fn intake_start(ctx: &IntakeContext, channel_name: String) -> (r: (
    IntakeState,
    Vec<IntakeAction>,
))
    ensures
        r.0@ == intake_start_spec(ctx@, channel_name@).0,
        r.1.deep_view() == intake_start_spec(ctx@, channel_name@).1,
{
    let ghost namev = channel_name@;
    let mut acts: Vec<IntakeAction> = Vec::new();
    acts.push(IntakeAction::CreateChannel {
        category_id: ctx.unclaimed_category_id,
        name: channel_name,
    });
    proof {
        assert(acts.deep_view() =~= intake_start_spec(ctx@, namev).1);
    }
    (IntakeState::AwaitingChannel, acts)
}

/// The actions an intake flow emits when it consumes the events `es` from
/// state `s`, concatenated in order.
pub open spec fn intake_run_actions(
    ctx: IntakeContextV,
    s: IntakeStateV,
    es: Seq<IntakeEventV>,
) -> Seq<IntakeActionV>
    decreases es.len(),
{
    if es.len() == 0 {
        Seq::empty()
    } else {
        let step = intake_step_spec(ctx, s, es[0]);
        step.1 + intake_run_actions(ctx, step.0, es.drop_first())
    }
}

/// Some action in `acts` writes a ticket row.
pub open spec fn persists_ticket(acts: Seq<IntakeActionV>) -> bool {
    exists|k: int| 0 <= k < acts.len() && acts[k] is PersistTicket
}

proof fn lemma_aborted_emits_nothing(ctx: IntakeContextV, es: Seq<IntakeEventV>)
    ensures
        intake_run_actions(ctx, IntakeStateV::Aborted, es) == Seq::<IntakeActionV>::empty(),
    decreases es.len(),
{
    if es.len() > 0 {
        lemma_aborted_emits_nothing(ctx, es.drop_first());
        assert(Seq::<IntakeActionV>::empty() + Seq::<IntakeActionV>::empty()
            =~= Seq::<IntakeActionV>::empty());
    }
}

/// Law: a flow that times out at the subject-reply wait deletes the
/// provisional channel, notifies the requester — and never writes a ticket
/// row, whatever events are fed to it afterwards.
pub proof fn lemma_reply_timeout_never_persists(
    ctx: IntakeContextV,
    channel_id: u64,
    es: Seq<IntakeEventV>,
)
    ensures
        ({
            let step = intake_step_spec(
                ctx,
                IntakeStateV::AwaitingSubjectText { channel_id },
                IntakeEventV::SubjectReplyTimeout,
            );
            &&& step.0 is Aborted
            &&& step.1 == seq![
                IntakeActionV::DeleteChannel { channel_id },
                IntakeActionV::SendTimeoutNotice { user_id: ctx.author_id },
            ]
            &&& !persists_ticket(step.1 + intake_run_actions(ctx, step.0, es))
        }),
{
    let step = intake_step_spec(
        ctx,
        IntakeStateV::AwaitingSubjectText { channel_id },
        IntakeEventV::SubjectReplyTimeout,
    );
    lemma_aborted_emits_nothing(ctx, es);
    let all = step.1 + intake_run_actions(ctx, step.0, es);
    assert(all =~= step.1);
    assert(!persists_ticket(all)) by {
        assert(forall|k: int| 0 <= k < all.len() ==> !(#[trigger] all[k] is PersistTicket));
    }
}

} // verus!
