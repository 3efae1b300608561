//! The streamed answer: what is sent to the model, and how the fragments
//! that come back are shown and folded into one response.

use crate::tui::{App, AppView, Role, TurnView};
use openai::chat::{
    ChatCompletion, ChatCompletionChoice, ChatCompletionChoiceDelta, ChatCompletionDelta,
    ChatCompletionDeltaMergeError, ChatCompletionGeneric,
};
use vstd::prelude::*;

verus! {

/// `openai::chat::ChatCompletionGeneric`, of which `ChatCompletionDelta` and
/// `ChatCompletion` are instances. Nothing is said of what it holds but by
/// the names below.
#[verifier::external_type_specification]
#[verifier::external_body]
#[verifier::reject_recursive_types(C)]
pub struct ExChatCompletionGeneric<C>(ChatCompletionGeneric<C>);

/// `openai::chat::ChatCompletionChoiceDelta`: a choice of a fragment.
#[verifier::external_type_specification]
#[verifier::external_body]
pub struct ExChatCompletionChoiceDelta(ChatCompletionChoiceDelta);

/// `openai::chat::ChatCompletionChoice`: a choice of a complete response.
#[verifier::external_type_specification]
#[verifier::external_body]
pub struct ExChatCompletionChoice(ChatCompletionChoice);

/// `openai::chat::ChatCompletionDeltaMergeError`: why a merge failed.
#[verifier::external_type_specification]
#[verifier::external_body]
pub struct ExChatCompletionDeltaMergeError(ChatCompletionDeltaMergeError);

/// The identifier of the completion that a fragment belongs to: its field
/// `id`.
pub uninterp spec fn delta_id(delta: ChatCompletionDelta) -> Seq<char>;

/// The choices that a fragment lists, in the order of its field `choices`:
/// of each its `index` and the `content` of its `delta`.
pub uninterp spec fn delta_choices(delta: ChatCompletionDelta) -> Seq<(u64, Option<Seq<char>>)>;

/// The identifier of a complete response: its field `id`.
pub uninterp spec fn completion_id(completion: ChatCompletion) -> Seq<char>;

/// The choices of a complete response, in the order of its field
/// `choices`: of each its `index` and the `content` of its `message`.
pub uninterp spec fn completion_choices(completion: ChatCompletion) -> Seq<
    (u64, Option<Seq<char>>),
>;

/// The text of a merge error: what its `Display` writes.
pub uninterp spec fn merge_error_message(error: ChatCompletionDeltaMergeError) -> Seq<char>;

/// The text of the error of a merge that failed because the two fragments
/// belong to different completions.
pub open spec fn different_completions_text() -> Seq<char> {
    "Different completion IDs"@
}

/// The text of an optional string.
pub open spec fn text_view(text: Option<String>) -> Option<Seq<char>> {
    match text {
        Some(t) => Some(t@),
        None => None,
    }
}

/// The text that a list of choices carries to the screen: the content of
/// the first choice listed, if there is one and it has content.
pub open spec fn first_text(choices: Seq<(u64, Option<Seq<char>>)>) -> Option<Seq<char>> {
    if choices.len() > 0 {
        choices[0].1
    } else {
        None
    }
}

/// A content after another was merged into it: the two joined, the later
/// one last; a missing content changes nothing.
pub open spec fn merged_content(mine: Option<Seq<char>>, theirs: Option<Seq<char>>) -> Option<
    Seq<char>,
> {
    match theirs {
        None => mine,
        Some(t) => match mine {
            Some(m) => Some(m + t),
            None => Some(t),
        },
    }
}

/// A choice after a fragment's choices were merged into it: those of
/// `theirs` that have its index, one after the other in their order.
pub open spec fn merged_choice(mine: (u64, Option<Seq<char>>), theirs: Seq<(u64, Option<Seq<char>>)>)
    -> (u64, Option<Seq<char>>)
    decreases theirs.len(),
{
    if theirs.len() == 0 {
        mine
    } else {
        let before = merged_choice(mine, theirs.drop_last());
        if theirs.last().0 == mine.0 {
            (before.0, merged_content(before.1, theirs.last().1))
        } else {
            before
        }
    }
}

/// The choices of a fragment after another fragment's choices were merged
/// into them. Each keeps its place and its index; a choice of `theirs`
/// whose index none of `mine` has is lost.
pub open spec fn merged_choices(
    mine: Seq<(u64, Option<Seq<char>>)>,
    theirs: Seq<(u64, Option<Seq<char>>)>,
) -> Seq<(u64, Option<Seq<char>>)> {
    Seq::new(mine.len(), |i: int| merged_choice(mine[i], theirs))
}

/// The choices held by a sequence of pairs of index and content.
pub open spec fn choice_views(choices: Seq<(u64, Option<String>)>) -> Seq<(u64, Option<Seq<char>>)> {
    Seq::new(choices.len(), |i: int| (choices[i].0, text_view(choices[i].1)))
}

/// Reads the field `choices` of a `ChatCompletionDelta`: of each choice,
/// in order, its `index` and a copy of the `content` of its `delta`.
#[verifier::external_body]
fn choices_of(delta: &ChatCompletionDelta) -> (choices: Vec<(u64, Option<String>)>)
    ensures
        choice_views(choices@) == delta_choices(*delta),
{
    delta.choices.iter().map(|choice| (choice.index, choice.delta.content.clone())).collect()
}

/// The text that a fragment carries to the screen: the content of the
/// first choice it lists, `None` where it lists none or the first has no
/// content.
pub fn fragment_text(delta: &ChatCompletionDelta) -> (text: Option<String>)
    ensures
        text_view(text) == first_text(delta_choices(*delta)),
{
    let mut choices = choices_of(delta);
    if choices.len() > 0 {
        let first = choices.remove(0);
        first.1
    } else {
        None
    }
}

/// `ChatCompletionDelta::merge`. It fails, and leaves `acc` as it was, when
/// the two fragments have different identifiers; its error is then
/// `DifferentCompletionIds`, whose text is given here. Otherwise it succeeds,
/// and each choice of `acc` has taken in the contents of the choices of
/// `other` that have its index. The identifier, and the number, order and
/// indices of the choices of `acc` stay as they were.
#[verifier::external_body]
fn merge_delta(acc: &mut ChatCompletionDelta, other: ChatCompletionDelta) -> (r: Result<
    (),
    ChatCompletionDeltaMergeError,
>)
    ensures
        r is Ok <==> delta_id(other) == delta_id(*old(acc)),
        r is Err ==> *final(acc) == *old(acc),
        r matches Err(e) ==> merge_error_message(e) == different_completions_text(),
        delta_id(*final(acc)) == delta_id(*old(acc)),
        r is Ok ==> delta_choices(*final(acc)) == merged_choices(
            delta_choices(*old(acc)),
            delta_choices(other),
        ),
{
    acc.merge(other)
}

/// The text of a `ChatCompletionDeltaMergeError`, as its `Display` gives it.
#[verifier::external_body]
fn merge_error_text(error: &ChatCompletionDeltaMergeError) -> (text: String)
    ensures
        text@ == merge_error_message(*error),
{
    error.to_string()
}

/// `From<ChatCompletionDelta> for ChatCompletion`: the complete response
/// that a merged fragment stands for. It has the fragment's identifier and
/// its choices, each with its index and content.
#[verifier::external_body]
fn complete(delta: ChatCompletionDelta) -> (completion: ChatCompletion)
    ensures
        completion_id(completion) == delta_id(delta),
        completion_choices(completion) == delta_choices(delta),
{
    delta.into()
}

/// The role under which a turn is sent to the model.
#[derive(Clone, Copy, Debug, PartialEq, Eq, Structural)]
pub enum RequestRole {
    System,
    User,
    Assistant,
}

/// One message of a request to the model.
#[derive(Clone, Debug, PartialEq, Eq)]
pub struct RequestMessage {
    pub role: RequestRole,
    pub content: String,
}

/// What a `RequestMessage` holds.
pub struct RequestMessageView {
    pub role: RequestRole,
    pub content: Seq<char>,
}

impl View for RequestMessage {
    type V = RequestMessageView;

    open spec fn view(&self) -> RequestMessageView {
        RequestMessageView { role: self.role, content: self.content@ }
    }
}

impl Role {
    /// The role under which a turn of this role is sent: a notification
    /// goes out as a system message.
    pub open spec fn request_role_spec(self) -> RequestRole {
        match self {
            Role::System => RequestRole::System,
            Role::Notification => RequestRole::System,
            Role::Assistant => RequestRole::Assistant,
            Role::User => RequestRole::User,
        }
    }

    pub fn request_role(self) -> (r: RequestRole)
        ensures
            r == self.request_role_spec(),
    {
        match self {
            Role::System => RequestRole::System,
            Role::Notification => RequestRole::System,
            Role::Assistant => RequestRole::Assistant,
            Role::User => RequestRole::User,
        }
    }
}

impl TurnView {
    /// The message that carries this turn to the model.
    pub open spec fn request(self) -> RequestMessageView {
        RequestMessageView { role: self.role.request_role_spec(), content: self.content }
    }
}

/// The messages held by a sequence of `RequestMessage` values.
pub open spec fn request_views(messages: Seq<RequestMessage>) -> Seq<RequestMessageView> {
    Seq::new(messages.len(), |i: int| messages[i]@)
}

/// The conversation as it is sent to the model: one message for each turn,
/// in order.
pub fn request_messages(app: &App) -> (messages: Vec<RequestMessage>)
    ensures
        request_views(messages@) == Seq::new(
            app@.messages.len(),
            |i: int| app@.messages[i].request(),
        ),
{
    let mut messages: Vec<RequestMessage> = Vec::new();
    let mut i: usize = 0;
    while i < app.messages.len()
        invariant
            i <= app.messages.len(),
            messages@.len() == i,
            forall|k: int| 0 <= k < i ==> (#[trigger] messages@[k])@ == app@.messages[k].request(),
        decreases app.messages.len() - i,
    {
        let turn = &app.messages[i];
        messages.push(
            RequestMessage { role: turn.role.request_role(), content: turn.content.clone() },
        );
        i += 1;
    }
    assert(request_views(messages@) =~= Seq::new(
        app@.messages.len(),
        |i: int| app@.messages[i].request(),
    ));
    messages
}

/// How far a stream has come.
#[derive(Clone, Copy, Debug, PartialEq, Eq, Structural)]
pub enum StreamPhase {
    /// Nothing was requested yet.
    NoStream,
    /// The answer's turn is open and no fragment has arrived.
    Open,
    /// At least one fragment has arrived.
    Draining,
    /// The stream has ended, or a fragment could not be merged.
    Closed,
}

/// What one look at the stream found.
pub enum StreamPoll {
    Fragment(ChatCompletionDelta),
    /// Nothing has arrived yet.
    Empty,
    /// The sender is gone: nothing more will arrive.
    Closed,
}

/// A fragment, as far as the accumulator looks into it: the identifier of
/// its completion, and of each choice it lists the index and the content.
pub struct FragmentView {
    pub id: Seq<char>,
    pub choices: Seq<(u64, Option<Seq<char>>)>,
}

/// What a `StreamPoll` holds.
pub enum StreamPollView {
    Fragment(FragmentView),
    Empty,
    Closed,
}

/// What a fragment holds.
pub open spec fn fragment_view(delta: ChatCompletionDelta) -> FragmentView {
    FragmentView { id: delta_id(delta), choices: delta_choices(delta) }
}

impl View for StreamPoll {
    type V = StreamPollView;

    open spec fn view(&self) -> StreamPollView {
        match self {
            StreamPoll::Fragment(d) => StreamPollView::Fragment(fragment_view(*d)),
            StreamPoll::Empty => StreamPollView::Empty,
            StreamPoll::Closed => StreamPollView::Closed,
        }
    }
}

/// What the caller does after a look at the stream.
#[derive(Clone, Copy, Debug, PartialEq, Eq, Structural)]
pub enum StreamAction {
    /// New text is shown: draw, then look again.
    Redraw,
    /// Look again.
    Continue,
    /// Wait `BACKOFF_MILLIS` milliseconds, then look again.
    Backoff,
    /// Stop reading.
    Stop,
}

/// How long to wait after a look that found nothing.
pub const BACKOFF_MILLIS: u64 = 50;

/// A fragment that did not belong to the response being merged.
#[derive(Clone, Debug, PartialEq, Eq)]
pub struct StreamError {
    /// What the merge said of it.
    pub message: String,
}

/// The state of one streamed answer.
pub struct StreamAccumulator {
    pub phase: StreamPhase,
    /// The fragments so far, merged into one.
    pub merged: Option<ChatCompletionDelta>,
}

/// What a `StreamAccumulator` holds.
pub struct StreamAccumulatorView {
    pub phase: StreamPhase,
    pub merged: Option<FragmentView>,
}

impl View for StreamAccumulator {
    type V = StreamAccumulatorView;

    open spec fn view(&self) -> StreamAccumulatorView {
        StreamAccumulatorView {
            phase: self.phase,
            merged: match self.merged {
                Some(m) => Some(fragment_view(m)),
                None => None,
            },
        }
    }
}

/// A stream and its conversation after a look at the stream, and what the
/// caller does next; `action` is `None` where the look failed.
pub struct AfterPoll {
    pub stream: StreamAccumulatorView,
    pub app: AppView,
    pub action: Option<StreamAction>,
}

impl FragmentView {
    /// The text that the fragment carries to the screen.
    pub open spec fn text(self) -> Option<Seq<char>> {
        first_text(self.choices)
    }

    /// Whether `other` can be merged into this fragment: the two belong to
    /// one completion.
    pub open spec fn accepts(self, other: FragmentView) -> bool {
        other.id == self.id
    }

    /// This fragment with `other` merged into it.
    pub open spec fn merge(self, other: FragmentView) -> FragmentView {
        FragmentView { id: self.id, choices: merged_choices(self.choices, other.choices) }
    }
}

impl StreamAccumulatorView {
    /// Whether fragments are still taken in.
    pub open spec fn is_live(self) -> bool {
        self.phase == StreamPhase::Open || self.phase == StreamPhase::Draining
    }

    /// The conversation after a fragment's text has been added to the
    /// open turn.
    pub open spec fn shown(app: AppView, text: Option<Seq<char>>) -> AppView {
        match text {
            Some(t) => app.append_answer(t),
            None => app,
        }
    }

    /// The stream after `fragment` has arrived, and what the caller does
    /// next. The first fragment is kept as it is, and each later one is
    /// merged into what is kept. One that belongs to another completion
    /// closes the stream and leaves what is kept; then there is no next
    /// action.
    pub open spec fn fold(self, fragment: FragmentView) -> (StreamAccumulatorView, Option<
        StreamAction,
    >) {
        let action = if fragment.text() is Some {
            StreamAction::Redraw
        } else {
            StreamAction::Continue
        };
        match self.merged {
            None => (
                StreamAccumulatorView {
                    phase: StreamPhase::Draining,
                    merged: Some(fragment),
                    ..self
                },
                Some(action),
            ),
            Some(kept) => if kept.accepts(fragment) {
                (
                    StreamAccumulatorView {
                        phase: StreamPhase::Draining,
                        merged: Some(kept.merge(fragment)),
                        ..self
                    },
                    Some(action),
                )
            } else {
                (StreamAccumulatorView { phase: StreamPhase::Closed, ..self }, None)
            },
        }
    }

    /// The stream and the conversation after a look at the stream.
    ///
    /// A fragment has its text, if it has any, added to the open turn, and
    /// is then merged into the fragments before it. Where it cannot be
    /// merged the look fails, and the stream and the turn are closed; the
    /// text stays shown. An empty look asks for a pause, and the end of the
    /// stream closes the stream and the turn. Before the turn is opened
    /// and after the stream is closed every look is answered by `Stop`,
    /// and nothing changes.
    pub open spec fn on_poll(self, app: AppView, poll: StreamPollView) -> AfterPoll {
        if !self.is_live() {
            AfterPoll { stream: self, app, action: Some(StreamAction::Stop) }
        } else {
            match poll {
                StreamPollView::Fragment(fragment) => AfterPoll {
                    stream: self.fold(fragment).0,
                    app: if self.fold(fragment).1 is Some {
                        Self::shown(app, fragment.text())
                    } else {
                        Self::shown(app, fragment.text()).close_answer()
                    },
                    action: self.fold(fragment).1,
                },
                StreamPollView::Empty => AfterPoll {
                    stream: self,
                    app,
                    action: Some(StreamAction::Backoff),
                },
                StreamPollView::Closed => AfterPoll {
                    stream: StreamAccumulatorView { phase: StreamPhase::Closed, ..self },
                    app: app.close_answer(),
                    action: Some(StreamAction::Stop),
                },
            }
        }
    }

    /// The stream and the conversation after the stream was opened: the
    /// conversation has a turn open for the answer. A stream is opened
    /// once, and only while no turn is open; otherwise nothing changes.
    pub open spec fn open(self, app: AppView) -> (StreamAccumulatorView, AppView) {
        if self.phase == StreamPhase::NoStream && app.open_turn is None {
            (StreamAccumulatorView { phase: StreamPhase::Open, ..self }, app.open_answer())
        } else {
            (self, app)
        }
    }
}

impl StreamAccumulator {
    /// An accumulator for a stream that was not requested yet.
    pub fn new() -> (acc: StreamAccumulator)
        ensures
            acc@ == (StreamAccumulatorView { phase: StreamPhase::NoStream, merged: None }),
    {
        StreamAccumulator { phase: StreamPhase::NoStream, merged: None }
    }

    /// Opens the stream: the conversation gets a turn for the answer, to
    /// which the fragments' texts will be added. Returns whether it did so:
    /// a stream is opened once, and only while no turn is open.
    pub fn open(&mut self, app: &mut App) -> (opened: bool)
        ensures
            (final(self)@, final(app)@) == old(self)@.open(old(app)@),
            opened == (old(self).phase == StreamPhase::NoStream && old(app).open_turn is None),
            !opened ==> *final(app) == *old(app) && *final(self) == *old(self),
    {
        match self.phase {
            StreamPhase::NoStream => {
                if app.open_answer() {
                    self.phase = StreamPhase::Open;
                    true
                } else {
                    false
                }
            },
            _ => false,
        }
    }

    /// Shows the text of a fragment: adds it to the open turn. Says
    /// whether the screen is to be drawn again: it is where there was text.
    pub fn show(app: &mut App, text: &Option<String>) -> (action: StreamAction)
        ensures
            final(app)@ == StreamAccumulatorView::shown(old(app)@, text_view(*text)),
            action == (if text is Some {
                StreamAction::Redraw
            } else {
                StreamAction::Continue
            }),
    {
        match text {
            Some(t) => {
                app.append_answer(t.as_str());
                StreamAction::Redraw
            },
            None => StreamAction::Continue,
        }
    }

    /// Takes in what one look at the stream found, and says what to do
    /// next. The call fails where a fragment belongs to another completion
    /// than those before it, and its error then says so.
    pub fn on_poll(&mut self, app: &mut App, poll: StreamPoll) -> (r: Result<
        StreamAction,
        StreamError,
    >)
        ensures
            final(self)@ == old(self)@.on_poll(old(app)@, poll@).stream,
            final(app)@ == old(self)@.on_poll(old(app)@, poll@).app,
            match r {
                Ok(action) => old(self)@.on_poll(old(app)@, poll@).action == Some(action),
                Err(e) => old(self)@.on_poll(old(app)@, poll@).action is None && e.message@
                    == different_completions_text(),
            },
            old(self).is_first_of(poll) ==> final(self).merged == Some(poll->Fragment_0),
    {
        match self.phase {
            StreamPhase::NoStream => {
                return Ok(StreamAction::Stop);
            },
            StreamPhase::Closed => {
                return Ok(StreamAction::Stop);
            },
            _ => {},
        }
        match poll {
            StreamPoll::Fragment(fragment) => {
                let text = fragment_text(&fragment);
                let action = Self::show(app, &text);
                match self.merged.take() {
                    None => {
                        self.merged = Some(fragment);
                    },
                    Some(mut merged) => {
                        let outcome = merge_delta(&mut merged, fragment);
                        self.merged = Some(merged);
                        if let Err(e) = outcome {
                            self.phase = StreamPhase::Closed;
                            app.close_answer();
                            return Err(StreamError { message: merge_error_text(&e) });
                        }
                    },
                }
                self.phase = StreamPhase::Draining;
                Ok(action)
            },
            StreamPoll::Empty => Ok(StreamAction::Backoff),
            StreamPoll::Closed => {
                self.phase = StreamPhase::Closed;
                app.close_answer();
                Ok(StreamAction::Stop)
            },
        }
    }

    /// Whether `poll` brings the first fragment of a live stream.
    pub open spec fn is_first_of(&self, poll: StreamPoll) -> bool {
        self@.is_live() && self.merged is None && poll is Fragment
    }

    /// The complete response that the merged fragments stand for, with
    /// their identifier and their choices; `None` where no fragment
    /// arrived.
    pub fn finish(self) -> (completion: Option<ChatCompletion>)
        ensures
            match completion {
                Some(c) => self@.merged == Some(
                    FragmentView { id: completion_id(c), choices: completion_choices(c) },
                ),
                None => self@.merged is None,
            },
    {
        match self.merged {
            Some(merged) => Some(complete(merged)),
            None => None,
        }
    }
}

} // verus!
