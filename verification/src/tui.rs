//! The conversation state: its turns, the input buffer, the status line, and
//! the texts that a screen shows of them.

use crate::text::{append_chars, from_chars, join, push_chars, slice_chars, to_chars};
use vstd::prelude::*;

verus! {

/// Who speaks in a turn of the conversation.
#[derive(Clone, Copy, Debug, PartialEq, Eq, Structural)]
pub enum Role {
    System,
    User,
    Assistant,
    /// A notice from a background command. It is shown, and sent to the
    /// model, as a system turn.
    Notification,
}

/// One message of the conversation.
#[derive(Clone, Debug, PartialEq, Eq)]
pub struct Turn {
    pub role: Role,
    pub content: String,
}

/// What a `Turn` holds.
pub struct TurnView {
    pub role: Role,
    pub content: Seq<char>,
}

impl View for Turn {
    type V = TurnView;

    open spec fn view(&self) -> TurnView {
        TurnView { role: self.role, content: self.content@ }
    }
}

/// What the console is doing.
#[derive(Clone, Debug, PartialEq, Eq)]
pub enum Status {
    Idle,
    Requesting,
    Error(String),
}

/// What a `Status` holds.
pub enum StatusView {
    Idle,
    Requesting,
    Error(Seq<char>),
}

impl View for Status {
    type V = StatusView;

    open spec fn view(&self) -> StatusView {
        match self {
            Status::Idle => StatusView::Idle,
            Status::Requesting => StatusView::Requesting,
            Status::Error(e) => StatusView::Error(e@),
        }
    }
}

/// What a background task reports to the console.
#[derive(Clone, Debug, PartialEq, Eq)]
pub enum AppEvent {
    Status(Status),
    System(String),
}

/// What an `AppEvent` holds.
pub enum AppEventView {
    Status(StatusView),
    System(Seq<char>),
}

impl View for AppEvent {
    type V = AppEventView;

    open spec fn view(&self) -> AppEventView {
        match self {
            AppEvent::Status(s) => AppEventView::Status(s@),
            AppEvent::System(m) => AppEventView::System(m@),
        }
    }
}

/// The state of one conversation.
#[derive(Clone, Debug, PartialEq, Eq)]
pub struct App {
    /// The line being typed.
    pub input: String,
    /// The turns so far, oldest first.
    pub messages: Vec<Turn>,
    /// The model that answers.
    pub model: String,
    /// What the console is doing.
    pub status: Status,
    /// The index of the turn that an answer is streaming into, while one
    /// is. There is at most one such turn.
    pub open_turn: Option<usize>,
}

/// What an `App` holds.
pub struct AppView {
    pub input: Seq<char>,
    pub messages: Seq<TurnView>,
    pub model: Seq<char>,
    pub status: StatusView,
    pub open_turn: Option<nat>,
}

/// The turns held by a sequence of `Turn` values.
pub open spec fn turn_views(turns: Seq<Turn>) -> Seq<TurnView> {
    Seq::new(turns.len(), |i: int| turns[i]@)
}

impl View for App {
    type V = AppView;

    open spec fn view(&self) -> AppView {
        AppView {
            input: self.input@,
            messages: turn_views(self.messages@),
            model: self.model@,
            status: self.status@,
            open_turn: match self.open_turn {
                Some(i) => Some(i as nat),
                None => None,
            },
        }
    }
}

impl Role {
    /// The name under which a turn of this role is shown.
    pub open spec fn label_spec(self) -> Seq<char> {
        match self {
            Role::System => "system"@,
            Role::User => "user"@,
            Role::Assistant => "assistant"@,
            Role::Notification => "system"@,
        }
    }

    pub fn label(self) -> (name: &'static str)
        ensures
            name@ == self.label_spec(),
    {
        match self {
            Role::System => "system",
            Role::User => "user",
            Role::Assistant => "assistant",
            Role::Notification => "system",
        }
    }
}

impl TurnView {
    /// The line that shows this turn: its role's name, a colon, a space and
    /// its content.
    pub open spec fn line(self) -> Seq<char> {
        self.role.label_spec() + ": "@ + self.content
    }
}

impl StatusView {
    /// The text of the status line.
    pub open spec fn text(self) -> Seq<char> {
        match self {
            StatusView::Idle => "按 Enter 发送，Esc 退出"@,
            StatusView::Requesting => "正在请求OpenAI..."@,
            StatusView::Error(e) => "请求失败: "@ + e,
        }
    }
}

/// What a screen shows of a conversation.
#[derive(Clone, Debug, PartialEq, Eq)]
pub struct Screen {
    /// The history pane: one line for each turn.
    pub history: String,
    /// The status line.
    pub status: String,
    /// The title of the input box.
    pub input_title: String,
    /// The input box: the line being typed.
    pub input: String,
}

/// What a `Screen` holds.
pub struct ScreenView {
    pub history: Seq<char>,
    pub status: Seq<char>,
    pub input_title: Seq<char>,
    pub input: Seq<char>,
}

impl View for Screen {
    type V = ScreenView;

    open spec fn view(&self) -> ScreenView {
        ScreenView {
            history: self.history@,
            status: self.status@,
            input_title: self.input_title@,
            input: self.input@,
        }
    }
}

/// The least number of rows that the history pane is given.
pub const HISTORY_MIN_ROWS: u16 = 5;

/// The number of rows of the status line.
pub const STATUS_ROWS: u16 = 1;

/// The number of rows of the input box, its border counted.
pub const INPUT_ROWS: u16 = 3;

/// `n` asterisks.
pub open spec fn stars(n: nat) -> Seq<char> {
    Seq::new(n, |i: int| '*')
}

/// What is shown in place of an API key: a fixed notice for an empty key,
/// asterisks only for a key of up to six characters, and otherwise the
/// first three and last three characters with asterisks for the rest. But
/// for the empty key, the result is as long as the key.
pub open spec fn masked(key: Seq<char>) -> Seq<char> {
    if key.len() == 0 {
        "(未设置)"@
    } else if key.len() <= 6 {
        stars(key.len())
    } else {
        key.take(3) + stars((key.len() - 6) as nat) + key.skip(key.len() - 3)
    }
}

/// The model that answers where none is configured.
pub open spec fn default_model() -> Seq<char> {
    "gpt-4o-mini"@
}

/// The API address where none is configured.
pub open spec fn default_api_base() -> Seq<char> {
    "https://api.openai.com/v1"@
}

/// The turn that tells the model the configuration in use.
pub open spec fn config_notice(api_base: Seq<char>, model: Seq<char>, api_key: Seq<char>) -> Seq<
    char,
> {
    "当前配置：api_base="@ + api_base + ", model="@ + model + ", api_key="@ + masked(api_key)
}

impl AppView {
    /// The state a conversation starts in, given the configured values.
    pub open spec fn initial(
        model: Option<Seq<char>>,
        api_base: Option<Seq<char>>,
        api_key: Option<Seq<char>>,
    ) -> AppView {
        let model = match model {
            Some(m) => m,
            None => default_model(),
        };
        let api_base = match api_base {
            Some(b) => b,
            None => default_api_base(),
        };
        let api_key = match api_key {
            Some(k) => k,
            None => Seq::empty(),
        };
        AppView {
            input: Seq::empty(),
            messages: seq![
                TurnView { role: Role::System, content: "你是一个助理，帮助进行AI编码。"@ },
                TurnView { role: Role::System, content: config_notice(api_base, model, api_key) },
            ],
            model,
            status: StatusView::Idle,
            open_turn: None,
        }
    }

    /// Whether the state is well formed: the open turn, if there is one,
    /// is a turn of the conversation, and the assistant's.
    pub open spec fn wf(self) -> bool {
        match self.open_turn {
            Some(i) => i < self.messages.len() && self.messages[i as int].role == Role::Assistant,
            None => true,
        }
    }

    /// This state with a turn opened for an answer: an empty turn of the
    /// assistant at the end. While a turn is open, no other is opened.
    pub open spec fn open_answer(self) -> AppView {
        if self.open_turn is None {
            AppView {
                open_turn: Some(self.messages.len()),
                ..self.push_turn(Role::Assistant, Seq::empty())
            }
        } else {
            self
        }
    }

    /// This state with `text` added at the end of the open turn. Without
    /// an open turn nothing changes.
    pub open spec fn append_answer(self, text: Seq<char>) -> AppView {
        match self.open_turn {
            Some(i) => self.append_to_turn(i as int, text),
            None => self,
        }
    }

    /// This state with no turn open.
    pub open spec fn close_answer(self) -> AppView {
        AppView { open_turn: None, ..self }
    }

    /// This state with one more turn at the end.
    pub open spec fn push_turn(self, role: Role, content: Seq<char>) -> AppView {
        AppView { messages: self.messages.push(TurnView { role, content }), ..self }
    }

    /// This state with `text` added at the end of turn `index`. An index
    /// that names no turn changes nothing.
    pub open spec fn append_to_turn(self, index: int, text: Seq<char>) -> AppView {
        if 0 <= index < self.messages.len() {
            let turn = self.messages[index];
            AppView {
                messages: self.messages.update(
                    index,
                    TurnView { role: turn.role, content: turn.content + text },
                ),
                ..self
            }
        } else {
            self
        }
    }

    /// This state with another status.
    pub open spec fn with_status(self, status: StatusView) -> AppView {
        AppView { status, ..self }
    }

    /// This state with another input line.
    pub open spec fn with_input(self, input: Seq<char>) -> AppView {
        AppView { input, ..self }
    }

    /// This state after a background task's report: a status replaces the
    /// status, a notice becomes a new turn.
    pub open spec fn apply_event(self, event: AppEventView) -> AppView {
        match event {
            AppEventView::Status(s) => self.with_status(s),
            AppEventView::System(m) => self.push_turn(Role::Notification, m),
        }
    }

    /// What a screen shows of this state.
    pub open spec fn screen(self) -> ScreenView {
        ScreenView {
            history: self.history_text(),
            status: self.status.text(),
            input_title: "输入（Enter 发送，Esc 退出）"@,
            input: self.input,
        }
    }

    /// The lines of the history pane, one for each turn.
    pub open spec fn history_lines(self) -> Seq<Seq<char>> {
        Seq::new(self.messages.len(), |i: int| self.messages[i].line())
    }

    /// The text of the history pane: the turns' lines, a line feed between
    /// each two.
    pub open spec fn history_text(self) -> Seq<char> {
        join(self.history_lines(), "\n"@)
    }
}

/// The form in which an API key may be shown.
pub fn mask_api_key(key: &str) -> (shown: String)
    ensures
        shown@ == masked(key@),
{
    let chars = to_chars(key);
    let len: usize = chars.len();
    if len == 0 {
        return "(未设置)".to_string();
    }
    let mut out: Vec<char> = Vec::new();
    if len <= 6 {
        push_stars(&mut out, len);
        assert(out@ == stars(len as nat));
        return from_chars(&out);
    }
    let head = slice_chars(&chars, 0, 3);
    let tail = slice_chars(&chars, len - 3, len);
    append_chars(&mut out, &head);
    push_stars(&mut out, len - 6);
    append_chars(&mut out, &tail);
    assert(out@ == masked(key@));
    from_chars(&out)
}

fn push_stars(out: &mut Vec<char>, n: usize)
    ensures
        final(out)@ == old(out)@ + stars(n as nat),
{
    let mut i: usize = 0;
    while i < n
        invariant
            i <= n,
            out@ == old(out)@ + stars(i as nat),
        decreases n - i,
    {
        out.push('*');
        assert(stars((i + 1) as nat) == stars(i as nat).push('*'));
        i += 1;
    }
}

impl Status {
    /// The text of the status line.
    pub fn text(&self) -> (line: String)
        ensures
            line@ == self@.text(),
    {
        match self {
            Status::Idle => "按 Enter 发送，Esc 退出".to_string(),
            Status::Requesting => "正在请求OpenAI...".to_string(),
            Status::Error(e) => {
                let mut line = "请求失败: ".to_string();
                line.append(e.as_str());
                line
            },
        }
    }
}

impl Turn {
    /// The line that shows this turn.
    pub fn line(&self) -> (line: String)
        ensures
            line@ == self@.line(),
    {
        let mut line = self.role.label().to_string();
        line.append(": ");
        line.append(self.content.as_str());
        line
    }
}

impl App {
    /// The state a conversation starts in. `model`, `api_base` and `api_key`
    /// are the configured values, where there are any: a missing model or
    /// address has its default, a missing key counts as empty. The first
    /// two turns instruct the model and state the configuration, with the
    /// key masked.
    pub fn new(model: Option<String>, api_base: Option<String>, api_key: Option<String>) -> (app:
        App)
        ensures
            app@ == AppView::initial(
                match model {
                    Some(m) => Some(m@),
                    None => None,
                },
                match api_base {
                    Some(b) => Some(b@),
                    None => None,
                },
                match api_key {
                    Some(k) => Some(k@),
                    None => None,
                },
            ),
    {
        let model = match model {
            Some(m) => m,
            None => "gpt-4o-mini".to_string(),
        };
        let api_base = match api_base {
            Some(b) => b,
            None => "https://api.openai.com/v1".to_string(),
        };
        let api_key = match api_key {
            Some(k) => k,
            None => String::new(),
        };
        let masked_key = mask_api_key(api_key.as_str());
        let mut notice = "当前配置：api_base=".to_string();
        notice.append(api_base.as_str());
        notice.append(", model=");
        notice.append(model.as_str());
        notice.append(", api_key=");
        notice.append(masked_key.as_str());
        let mut messages: Vec<Turn> = Vec::new();
        messages.push(Turn { role: Role::System, content: "你是一个助理，帮助进行AI编码。".to_string() });
        messages.push(Turn { role: Role::System, content: notice });
        let app = App {
            input: String::new(),
            messages,
            model,
            status: Status::Idle,
            open_turn: None,
        };
        assert(app@.messages =~= seq![
            TurnView { role: Role::System, content: "你是一个助理，帮助进行AI编码。"@ },
            TurnView { role: Role::System, content: config_notice(api_base@, model@, api_key@) },
        ]);
        app
    }

    /// Takes in what a background task reports: a status replaces the
    /// status, a notice becomes a new turn.
    pub fn apply_event(&mut self, event: AppEvent)
        ensures
            final(self)@ == old(self)@.apply_event(event@),
    {
        match event {
            AppEvent::Status(s) => {
                self.status = s;
            },
            AppEvent::System(m) => {
                self.push_turn(Role::Notification, m);
            },
        }
    }

    /// Adds a turn at the end of the conversation.
    pub fn push_turn(&mut self, role: Role, content: String)
        ensures
            final(self)@ == old(self)@.push_turn(role, content@),
    {
        self.messages.push(Turn { role, content });
        assert(turn_views(self.messages@) =~= turn_views(old(self).messages@).push(
            TurnView { role, content: content@ },
        ));
    }

    /// Adds `text` at the end of turn `index`. An index that names no turn
    /// changes nothing.
    fn append_to_turn(&mut self, index: usize, text: &str)
        ensures
            final(self)@ == old(self)@.append_to_turn(index as int, text@),
    {
        if index < self.messages.len() {
            let turn = &mut self.messages[index];
            turn.content.append(text);
            assert(turn_views(self.messages@) =~= old(self)@.append_to_turn(
                index as int,
                text@,
            ).messages);
        }
    }

    /// Opens a turn for an answer: an empty turn of the assistant at the
    /// end of the conversation. Returns whether it did so: while a turn is
    /// open, no other is opened.
    pub fn open_answer(&mut self) -> (opened: bool)
        ensures
            final(self)@ == old(self)@.open_answer(),
            opened == (old(self).open_turn is None),
            !opened ==> *final(self) == *old(self),
    {
        match self.open_turn {
            Some(_) => false,
            None => {
                let index = self.messages.len();
                self.push_turn(Role::Assistant, String::new());
                self.open_turn = Some(index);
                true
            },
        }
    }

    /// Adds `text` at the end of the open turn. Without an open turn
    /// nothing changes.
    pub fn append_answer(&mut self, text: &str)
        ensures
            final(self)@ == old(self)@.append_answer(text@),
    {
        match self.open_turn {
            Some(index) => {
                self.append_to_turn(index, text);
            },
            None => {},
        }
    }

    /// Closes the open turn, if there is one: its text stays, and nothing
    /// more is added to it.
    pub fn close_answer(&mut self)
        ensures
            final(self)@ == old(self)@.close_answer(),
    {
        self.open_turn = None;
    }

    /// The text of the history pane: one line for each turn.
    pub fn history_text(&self) -> (text: String)
        ensures
            text@ == self@.history_text(),
    {
        let mut text = String::new();
        let mut i: usize = 0;
        while i < self.messages.len()
            invariant
                i <= self.messages.len(),
                text@ == join(self@.history_lines().take(i as int), "\n"@),
            decreases self.messages.len() - i,
        {
            let line = self.messages[i].line();
            proof {
                let lines = self@.history_lines();
                assert(lines.take(i + 1) == lines.take(i as int).push(lines[i as int]));
                crate::text::lemma_join_push(lines.take(i as int), lines[i as int], "\n"@);
            }
            if i > 0 {
                text.append("\n");
            }
            text.append(line.as_str());
            i += 1;
        }
        assert(self@.history_lines().take(i as int) == self@.history_lines());
        text
    }

    /// What a screen shows of the conversation: the whole of it, to be
    /// drawn anew each time.
    pub fn screen(&self) -> (screen: Screen)
        ensures
            screen@ == self@.screen(),
    {
        Screen {
            history: self.history_text(),
            status: self.status_text(),
            input_title: "输入（Enter 发送，Esc 退出）".to_string(),
            input: self.input.clone(),
        }
    }

    /// The text of the status line.
    pub fn status_text(&self) -> (line: String)
        ensures
            line@ == self@.status.text(),
    {
        self.status.text()
    }
}

} // verus!
