use chat_console::tui::{
    App, AppEvent, Role, Screen, Status, Turn, HISTORY_MIN_ROWS, INPUT_ROWS, STATUS_ROWS,
};

fn s(text: &str) -> String {
    text.to_string()
}

#[test]
fn new_app_has_defaults_and_two_system_turns() {
    let app = App::new(None, None, None);
    assert_eq!(app.input, "");
    assert_eq!(app.model, "gpt-4o-mini");
    assert_eq!(app.status, Status::Idle);
    assert_eq!(app.open_turn, None);
    assert_eq!(
        app.messages,
        vec![
            Turn { role: Role::System, content: s("你是一个助理，帮助进行AI编码。") },
            Turn {
                role: Role::System,
                content: s(
                    "当前配置：api_base=https://api.openai.com/v1, model=gpt-4o-mini, api_key=(未设置)"
                )
            },
        ]
    );
}

#[test]
fn new_app_states_the_configuration_with_the_key_masked() {
    let app = App::new(Some(s("gpt-x")), Some(s("http://localhost:1/v1")), Some(s("sk-1234567890")));
    assert_eq!(app.model, "gpt-x");
    assert_eq!(
        app.messages[1].content,
        "当前配置：api_base=http://localhost:1/v1, model=gpt-x, api_key=sk-*******890"
    );
    let app = App::new(None, None, Some(s("abc")));
    assert_eq!(
        app.messages[1].content,
        "当前配置：api_base=https://api.openai.com/v1, model=gpt-4o-mini, api_key=***"
    );
    let app = App::new(Some(s("")), None, Some(s("")));
    assert_eq!(app.model, "");
    assert_eq!(
        app.messages[1].content,
        "当前配置：api_base=https://api.openai.com/v1, model=, api_key=(未设置)"
    );
}

#[test]
fn a_status_event_replaces_the_status() {
    let mut app = App::new(None, None, None);
    app.apply_event(AppEvent::Status(Status::Requesting));
    assert_eq!(app.status, Status::Requesting);
    assert_eq!(app.messages.len(), 2);
    app.apply_event(AppEvent::Status(Status::Error(s("boom"))));
    assert_eq!(app.status, Status::Error(s("boom")));
    app.apply_event(AppEvent::Status(Status::Idle));
    assert_eq!(app.status, Status::Idle);
    assert_eq!(app.messages.len(), 2);
}

#[test]
fn a_system_event_becomes_a_turn() {
    let mut app = App::new(None, None, None);
    app.apply_event(AppEvent::System(s("文件已创建")));
    assert_eq!(app.messages.len(), 3);
    assert_eq!(app.messages[2], Turn { role: Role::Notification, content: s("文件已创建") });
    assert_eq!(app.status, Status::Idle);
    assert_eq!(app.input, "");
}

#[test]
fn history_shows_one_line_for_each_turn() {
    let mut app = App { input: s(""), messages: vec![], model: s("m"), status: Status::Idle, open_turn: None };
    assert_eq!(app.history_text(), "");
    app.push_turn(Role::System, s("be kind"));
    assert_eq!(app.history_text(), "system: be kind");
    app.push_turn(Role::User, s("hi"));
    app.push_turn(Role::Assistant, s("hello\nthere"));
    app.push_turn(Role::Notification, s("done"));
    assert_eq!(
        app.history_text(),
        "system: be kind\nuser: hi\nassistant: hello\nthere\nsystem: done"
    );
}

#[test]
fn turn_lines_name_the_role() {
    assert_eq!(Turn { role: Role::User, content: s("x") }.line(), "user: x");
    assert_eq!(Turn { role: Role::Assistant, content: s("") }.line(), "assistant: ");
    assert_eq!(Role::System.label(), "system");
    assert_eq!(Role::Notification.label(), "system");
    assert_eq!(Role::User.label(), "user");
    assert_eq!(Role::Assistant.label(), "assistant");
}

#[test]
fn status_line_says_what_the_console_does() {
    let mut app = App::new(None, None, None);
    assert_eq!(app.status_text(), "按 Enter 发送，Esc 退出");
    app.status = Status::Requesting;
    assert_eq!(app.status_text(), "正在请求OpenAI...");
    app.status = Status::Error(s("timeout"));
    assert_eq!(app.status_text(), "请求失败: timeout");
    assert_eq!(Status::Error(s("")).text(), "请求失败: ");
}

#[test]
fn the_screen_shows_history_status_and_input() {
    let mut app = App {
        input: s("typing"),
        messages: vec![],
        model: s("m"),
        status: Status::Idle,
        open_turn: None,
    };
    app.push_turn(Role::User, s("hi"));
    app.push_turn(Role::Assistant, s("hello"));
    assert_eq!(
        app.screen(),
        Screen {
            history: s("user: hi\nassistant: hello"),
            status: s("按 Enter 发送，Esc 退出"),
            input_title: s("输入（Enter 发送，Esc 退出）"),
            input: s("typing"),
        }
    );
    app.status = Status::Error(s("x"));
    assert_eq!(app.screen().status, "请求失败: x");
    assert_eq!((HISTORY_MIN_ROWS, STATUS_ROWS, INPUT_ROWS), (5, 1, 3));
}

#[test]
fn one_turn_at_most_is_open_for_an_answer() {
    let mut app = App::new(None, None, None);
    app.append_answer("lost");
    assert_eq!(app.messages.len(), 2);
    assert!(app.open_answer());
    assert_eq!(app.open_turn, Some(2));
    assert_eq!(app.messages[2], Turn { role: Role::Assistant, content: s("") });
    let before = app.clone();
    assert!(!app.open_answer());
    assert_eq!(app, before);
    app.append_answer("ab");
    app.apply_event(AppEvent::System(s("note")));
    app.append_answer("cd");
    assert_eq!(app.messages[2].content, "abcd");
    assert_eq!(app.messages[3].content, "note");
    app.close_answer();
    assert_eq!(app.open_turn, None);
    app.append_answer("late");
    assert_eq!(app.messages[2].content, "abcd");
    assert!(app.open_answer());
    assert_eq!(app.open_turn, Some(4));
}
