//! The rules of the interaction loop: what a key does to the conversation,
//! and what the loop is to do next.

use crate::grammar::{trim_chars, trimmed};
use crate::text::{from_chars, push_char, slice_chars, to_chars};
use crate::tools::{
    is_command, is_command_line, parse_command, parsed, ToolCommand, ToolCommandView,
};
use crate::tui::{App, AppView, Role, Status, StatusView};
use vstd::prelude::*;

verus! {

/// How long the loop waits for a key before it draws again, in
/// milliseconds.
pub const KEY_POLL_MILLIS: u64 = 200;

/// The name of the environment value that holds the API key.
pub const API_KEY_VAR: &'static str = "OPENAI_API_KEY";

/// The name of the environment value that holds the model.
pub const MODEL_VAR: &'static str = "OPENAI_MODEL";

/// The name of the environment value that holds the API address.
pub const API_BASE_VAR: &'static str = "OPENAI_API_BASE";

/// Why the console cannot start.
#[derive(Clone, Copy, Debug, PartialEq, Eq, Structural)]
pub enum StartError {
    /// No API key is configured.
    MissingApiKey,
}

impl StartError {
    /// What to tell the user before the program ends.
    pub open spec fn guidance_spec(self) -> Seq<char> {
        "未检测到环境变量 `OPENAI_API_KEY`，请先设置后再运行。\nPowerShell 示例：$Env:OPENAI_API_KEY='sk-...'\n可选：$Env:OPENAI_MODEL='gpt-4o-mini'"@
    }

    pub fn guidance(self) -> (text: String)
        ensures
            text@ == self.guidance_spec(),
    {
        "未检测到环境变量 `OPENAI_API_KEY`，请先设置后再运行。\nPowerShell 示例：$Env:OPENAI_API_KEY='sk-...'\n可选：$Env:OPENAI_MODEL='gpt-4o-mini'".to_string()
    }
}

/// The conversation that the console starts with, given the configured
/// values, where there are any. Without an API key there is none: the
/// console does not start.
pub fn start(api_key: Option<String>, model: Option<String>, api_base: Option<String>) -> (r:
    Result<App, StartError>)
    ensures
        api_key is None ==> r == Err::<App, StartError>(StartError::MissingApiKey),
        api_key matches Some(key) ==> r matches Ok(app) && app@ == AppView::initial(
            match model {
                Some(m) => Some(m@),
                None => None,
            },
            match api_base {
                Some(b) => Some(b@),
                None => None,
            },
            Some(key@),
        ),
{
    match api_key {
        None => Err(StartError::MissingApiKey),
        Some(key) => Ok(App::new(model, api_base, Some(key))),
    }
}

/// A key, as far as the console tells keys apart.
#[derive(Clone, Copy, Debug, PartialEq, Eq, Structural)]
pub enum Key {
    Esc,
    Enter,
    Char(char),
    Backspace,
    Tab,
    Other,
}

/// What happened to a key.
#[derive(Clone, Copy, Debug, PartialEq, Eq, Structural)]
pub enum KeyKind {
    Press,
    Repeat,
    Release,
}

/// What the loop does after a key.
#[derive(Clone, Debug, PartialEq, Eq)]
pub enum LoopAction {
    /// Leave the loop.
    Quit,
    /// Go on with the next key.
    Continue,
    /// Run the command in the background, then go on.
    Spawn(ToolCommand),
    /// Send the conversation to the model and show the answer as it
    /// streams in; then call `finish_chat`.
    Chat,
    /// The line was meant as a command and is none: it was dropped.
    Dropped,
}

/// What a `LoopAction` holds.
pub enum LoopActionView {
    Quit,
    Continue,
    Spawn(ToolCommandView),
    Chat,
    Dropped,
}

impl View for LoopAction {
    type V = LoopActionView;

    open spec fn view(&self) -> LoopActionView {
        match self {
            LoopAction::Quit => LoopActionView::Quit,
            LoopAction::Continue => LoopActionView::Continue,
            LoopAction::Spawn(c) => LoopActionView::Spawn(c@),
            LoopAction::Chat => LoopActionView::Chat,
            LoopAction::Dropped => LoopActionView::Dropped,
        }
    }
}

/// The conversation after Enter, and what the loop does next.
///
/// A line of white space does nothing. A line that starts with a colon is
/// a command: it is run if it can be read, and dropped if not; either
/// way the input is emptied and nothing is sent to the model. Any other
/// line becomes a turn of the user, and the console starts a request; the
/// input stays until the answer is complete.
pub open spec fn after_enter(app: AppView) -> (AppView, LoopActionView) {
    if trimmed(app.input).len() == 0 {
        (app, LoopActionView::Continue)
    } else if is_command_line(app.input) {
        match parsed(app.input) {
            Some(c) => (app.with_input(Seq::empty()), LoopActionView::Spawn(c)),
            None => (app.with_input(Seq::empty()), LoopActionView::Dropped),
        }
    } else {
        (
            app.push_turn(Role::User, app.input).with_status(StatusView::Requesting),
            LoopActionView::Chat,
        )
    }
}

/// The conversation after a key was pressed, and what the loop does next.
pub open spec fn after_key(app: AppView, key: Key) -> (AppView, LoopActionView) {
    match key {
        Key::Esc => (app, LoopActionView::Quit),
        Key::Enter => after_enter(app),
        Key::Char(c) => (app.with_input(app.input.push(c)), LoopActionView::Continue),
        Key::Tab => (app.with_input(app.input.push('\t')), LoopActionView::Continue),
        Key::Backspace => (
            app.with_input(
                if app.input.len() > 0 {
                    app.input.drop_last()
                } else {
                    app.input
                },
            ),
            LoopActionView::Continue,
        ),
        Key::Other => (app, LoopActionView::Continue),
    }
}

/// The conversation after a key event: only a press counts.
pub open spec fn after_key_event(app: AppView, kind: KeyKind, key: Key) -> (
    AppView,
    LoopActionView,
) {
    if kind == KeyKind::Press {
        after_key(app, key)
    } else {
        (app, LoopActionView::Continue)
    }
}

/// The conversation after a request to the model has ended: the console is
/// idle again, or shows the error, of which a notice is added to the
/// conversation. The input is emptied, and no turn is open any more.
pub open spec fn after_chat(app: AppView, outcome: Result<(), Seq<char>>) -> AppView {
    match outcome {
        Ok(_) => app.with_status(StatusView::Idle).with_input(Seq::empty()).close_answer(),
        Err(e) => app.push_turn(Role::Notification, "请求失败: "@ + e).with_status(
            StatusView::Error(e),
        ).with_input(Seq::empty()).close_answer(),
    }
}

fn on_enter(app: &mut App) -> (action: LoopAction)
    ensures
        (final(app)@, action@) == after_enter(old(app)@),
{
    let line = trim_chars(&to_chars(app.input.as_str()));
    if line.len() == 0 {
        return LoopAction::Continue;
    }
    if is_command(app.input.as_str()) {
        let command = parse_command(app.input.as_str());
        app.input = String::new();
        match command {
            Some(c) => LoopAction::Spawn(c),
            None => LoopAction::Dropped,
        }
    } else {
        let content = app.input.clone();
        app.push_turn(Role::User, content);
        app.status = Status::Requesting;
        LoopAction::Chat
    }
}

/// Takes in a key event, and says what the loop does next.
pub fn handle_key(app: &mut App, kind: KeyKind, key: Key) -> (action: LoopAction)
    ensures
        (final(app)@, action@) == after_key_event(old(app)@, kind, key),
{
    match kind {
        KeyKind::Press => {},
        _ => {
            return LoopAction::Continue;
        },
    }
    match key {
        Key::Esc => LoopAction::Quit,
        Key::Enter => on_enter(app),
        Key::Char(c) => {
            push_char(&mut app.input, c);
            LoopAction::Continue
        },
        Key::Tab => {
            push_char(&mut app.input, '\t');
            LoopAction::Continue
        },
        Key::Backspace => {
            let chars = to_chars(app.input.as_str());
            if chars.len() > 0 {
                app.input = from_chars(&slice_chars(&chars, 0, chars.len() - 1));
                assert(app.input@ =~= old(app).input@.drop_last());
            }
            LoopAction::Continue
        },
        Key::Other => LoopAction::Continue,
    }
}

/// Takes in the end of a request to the model: `Err` holds the text of
/// the error that ended it.
pub fn finish_chat(app: &mut App, outcome: Result<(), String>)
    ensures
        final(app)@ == after_chat(
            old(app)@,
            match outcome {
                Ok(_) => Ok(()),
                Err(e) => Err(e@),
            },
        ),
{
    match outcome {
        Ok(_) => {
            app.status = Status::Idle;
        },
        Err(e) => {
            let mut notice = "请求失败: ".to_string();
            notice.append(e.as_str());
            app.push_turn(Role::Notification, notice);
            app.status = Status::Error(e);
        },
    }
    app.input = String::new();
    app.close_answer();
}

} // verus!
