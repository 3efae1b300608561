use chat_console::api::{
    fragment_text, request_messages, RequestMessage, RequestRole, StreamAccumulator, StreamAction,
    StreamPhase, StreamPoll, BACKOFF_MILLIS,
};
use chat_console::tui::{App, AppEvent, Role, Status, Turn};
use openai::chat::{
    ChatCompletionChoiceDelta, ChatCompletionDelta, ChatCompletionMessageDelta,
    ChatCompletionMessageRole,
};

fn s(text: &str) -> String {
    text.to_string()
}

fn choice(index: u64, text: Option<&str>) -> ChatCompletionChoiceDelta {
    ChatCompletionChoiceDelta {
        index,
        finish_reason: None,
        delta: ChatCompletionMessageDelta {
            role: None,
            content: text.map(|t| t.to_string()),
            name: None,
            function_call: None,
            tool_call_id: None,
            tool_calls: None,
        },
    }
}

fn fragment(id: &str, text: Option<&str>) -> ChatCompletionDelta {
    ChatCompletionDelta {
        id: id.to_string(),
        object: s("chat.completion.chunk"),
        created: 1,
        model: s("m"),
        choices: vec![choice(0, text)],
        usage: None,
    }
}

fn opened() -> (StreamAccumulator, App) {
    let mut app = App::new(None, None, None);
    app.push_turn(Role::User, s("hi"));
    let mut acc = StreamAccumulator::new();
    assert!(acc.open(&mut app));
    (acc, app)
}

#[test]
fn open_adds_an_empty_assistant_turn() {
    let (acc, app) = opened();
    assert_eq!(acc.phase, StreamPhase::Open);
    assert_eq!(app.open_turn, Some(3));
    assert!(acc.merged.is_none());
    assert_eq!(app.messages.len(), 4);
    assert_eq!(app.messages[3], Turn { role: Role::Assistant, content: s("") });
}

#[test]
fn open_works_once() {
    let (mut acc, mut app) = opened();
    let before = app.clone();
    assert!(!acc.open(&mut app));
    assert_eq!(app, before);
    assert_eq!(acc.phase, StreamPhase::Open);
    assert_eq!(app.open_turn, Some(3));
}

#[test]
fn a_second_stream_is_not_opened_while_a_turn_is_open() {
    let (mut first, mut app) = opened();
    let before = app.clone();
    let mut second = StreamAccumulator::new();
    assert!(!second.open(&mut app));
    assert_eq!(second.phase, StreamPhase::NoStream);
    assert_eq!(app, before);
    first.on_poll(&mut app, StreamPoll::Closed).unwrap();
    assert_eq!(app.open_turn, None);
    assert!(second.open(&mut app));
    assert_eq!(app.open_turn, Some(4));
    assert_eq!(app.messages.len(), 5);
}

#[test]
fn fragments_are_shown_in_the_order_of_arrival() {
    let (mut acc, mut app) = opened();
    let r = acc.on_poll(&mut app, StreamPoll::Fragment(fragment("c1", Some("Hel"))));
    assert_eq!(r, Ok(StreamAction::Redraw));
    assert_eq!(acc.phase, StreamPhase::Draining);
    assert_eq!(app.messages[3].content, "Hel");
    let r = acc.on_poll(&mut app, StreamPoll::Fragment(fragment("c1", Some("lo, "))));
    assert_eq!(r, Ok(StreamAction::Redraw));
    let r = acc.on_poll(&mut app, StreamPoll::Fragment(fragment("c1", Some("world"))));
    assert_eq!(r, Ok(StreamAction::Redraw));
    assert_eq!(app.messages[3].content, "Hello, world");
    assert_eq!(app.messages.len(), 4);
}

#[test]
fn reports_between_fragments_do_not_disturb_the_answer() {
    let (mut acc, mut app) = opened();
    acc.on_poll(&mut app, StreamPoll::Fragment(fragment("c1", Some("a")))).unwrap();
    app.apply_event(AppEvent::System(s("文件已创建")));
    app.apply_event(AppEvent::Status(Status::Idle));
    acc.on_poll(&mut app, StreamPoll::Fragment(fragment("c1", Some("b")))).unwrap();
    app.apply_event(AppEvent::System(s("文件已删除")));
    acc.on_poll(&mut app, StreamPoll::Fragment(fragment("c1", None))).unwrap();
    acc.on_poll(&mut app, StreamPoll::Fragment(fragment("c1", Some("c")))).unwrap();
    assert_eq!(app.messages.len(), 6);
    assert_eq!(app.messages[3], Turn { role: Role::Assistant, content: s("abc") });
    assert_eq!(app.messages[4], Turn { role: Role::Notification, content: s("文件已创建") });
    assert_eq!(app.messages[5], Turn { role: Role::Notification, content: s("文件已删除") });
    assert_eq!(
        app.history_text().lines().skip(3).collect::<Vec<_>>(),
        vec!["assistant: abc", "system: 文件已创建", "system: 文件已删除"]
    );
}

#[test]
fn a_fragment_without_text_asks_for_no_redraw() {
    let (mut acc, mut app) = opened();
    let before = app.clone();
    let r = acc.on_poll(&mut app, StreamPoll::Fragment(fragment("c1", None)));
    assert_eq!(r, Ok(StreamAction::Continue));
    assert_eq!(app, before);
    assert_eq!(acc.phase, StreamPhase::Draining);
    assert!(acc.merged.is_some());
}

#[test]
fn a_fragment_without_a_choice_has_no_text() {
    let (mut acc, mut app) = opened();
    let before = app.clone();
    let mut empty = fragment("c1", Some("unused"));
    empty.choices.clear();
    let r = acc.on_poll(&mut app, StreamPoll::Fragment(empty));
    assert_eq!(r, Ok(StreamAction::Continue));
    assert_eq!(app, before);
}

#[test]
fn the_text_shown_is_that_of_the_first_choice_listed() {
    let (mut acc, mut app) = opened();
    let mut two = fragment("c1", Some("unused"));
    two.choices = vec![choice(1, Some("second")), choice(0, Some("first"))];
    let r = acc.on_poll(&mut app, StreamPoll::Fragment(two));
    assert_eq!(r, Ok(StreamAction::Redraw));
    assert_eq!(app.messages[3].content, "second");
}

#[test]
fn an_empty_look_asks_for_a_pause() {
    let (mut acc, mut app) = opened();
    let before = app.clone();
    assert_eq!(acc.on_poll(&mut app, StreamPoll::Empty), Ok(StreamAction::Backoff));
    assert_eq!(acc.phase, StreamPhase::Open);
    assert_eq!(app, before);
    acc.on_poll(&mut app, StreamPoll::Fragment(fragment("c1", Some("a")))).unwrap();
    assert_eq!(acc.on_poll(&mut app, StreamPoll::Empty), Ok(StreamAction::Backoff));
    assert_eq!(acc.phase, StreamPhase::Draining);
    assert_eq!(BACKOFF_MILLIS, 50);
}

#[test]
fn the_end_of_the_stream_closes_the_accumulator() {
    let (mut acc, mut app) = opened();
    acc.on_poll(&mut app, StreamPoll::Fragment(fragment("c1", Some("a")))).unwrap();
    assert_eq!(app.open_turn, Some(3));
    assert_eq!(acc.on_poll(&mut app, StreamPoll::Closed), Ok(StreamAction::Stop));
    assert_eq!(acc.phase, StreamPhase::Closed);
    assert_eq!(app.open_turn, None);
    let before = app.clone();
    let r = acc.on_poll(&mut app, StreamPoll::Fragment(fragment("c1", Some("late"))));
    assert_eq!(r, Ok(StreamAction::Stop));
    assert_eq!(acc.on_poll(&mut app, StreamPoll::Empty), Ok(StreamAction::Stop));
    assert_eq!(acc.on_poll(&mut app, StreamPoll::Closed), Ok(StreamAction::Stop));
    assert_eq!(app, before);
    assert_eq!(app.messages[3].content, "a");
}

#[test]
fn before_the_turn_is_opened_nothing_is_taken_in() {
    let mut app = App::new(None, None, None);
    let before = app.clone();
    let mut acc = StreamAccumulator::new();
    assert_eq!(acc.phase, StreamPhase::NoStream);
    let r = acc.on_poll(&mut app, StreamPoll::Fragment(fragment("c1", Some("x"))));
    assert_eq!(r, Ok(StreamAction::Stop));
    assert_eq!(acc.on_poll(&mut app, StreamPoll::Empty), Ok(StreamAction::Stop));
    assert_eq!(acc.phase, StreamPhase::NoStream);
    assert!(acc.merged.is_none());
    assert_eq!(app, before);
    assert!(acc.finish().is_none());
}

#[test]
fn the_fragments_are_merged_into_one_response() {
    let (mut acc, mut app) = opened();
    let mut first = fragment("c1", Some("Hel"));
    first.choices[0].delta.role = Some(ChatCompletionMessageRole::Assistant);
    acc.on_poll(&mut app, StreamPoll::Fragment(first)).unwrap();
    acc.on_poll(&mut app, StreamPoll::Fragment(fragment("c1", Some("lo")))).unwrap();
    acc.on_poll(&mut app, StreamPoll::Fragment(fragment("c1", None))).unwrap();
    acc.on_poll(&mut app, StreamPoll::Closed).unwrap();
    let completion = acc.finish().unwrap();
    assert_eq!(completion.id, "c1");
    assert_eq!(completion.model, "m");
    assert_eq!(completion.choices.len(), 1);
    assert_eq!(completion.choices[0].message.content, Some(s("Hello")));
    assert_eq!(completion.choices[0].message.role, ChatCompletionMessageRole::Assistant);
    assert_eq!(completion.choices[0].finish_reason, "");
    assert_eq!(app.messages[3].content, "Hello");
}

#[test]
fn a_single_fragment_is_its_own_response() {
    let (mut acc, mut app) = opened();
    acc.on_poll(&mut app, StreamPoll::Fragment(fragment("c9", Some("only")))).unwrap();
    let completion = acc.finish().unwrap();
    assert_eq!(completion.id, "c9");
    assert_eq!(completion.choices[0].message.content, Some(s("only")));
}

#[test]
fn a_stream_without_fragments_has_no_response() {
    let (mut acc, mut app) = opened();
    acc.on_poll(&mut app, StreamPoll::Empty).unwrap();
    acc.on_poll(&mut app, StreamPoll::Closed).unwrap();
    assert!(acc.finish().is_none());
    assert_eq!(app.messages[3].content, "");
}

#[test]
fn a_fragment_of_another_completion_ends_the_stream() {
    let (mut acc, mut app) = opened();
    acc.on_poll(&mut app, StreamPoll::Fragment(fragment("c1", Some("a")))).unwrap();
    let r = acc.on_poll(&mut app, StreamPoll::Fragment(fragment("c2", Some("b"))));
    let error = r.unwrap_err();
    assert_eq!(error.message, "Different completion IDs");
    assert_eq!(acc.phase, StreamPhase::Closed);
    assert_eq!(app.open_turn, None);
    // The text was shown before the merge was tried.
    assert_eq!(app.messages[3].content, "ab");
    let r = acc.on_poll(&mut app, StreamPoll::Fragment(fragment("c1", Some("c"))));
    assert_eq!(r, Ok(StreamAction::Stop));
    assert_eq!(app.messages[3].content, "ab");
    let completion = acc.finish().unwrap();
    assert_eq!(completion.id, "c1");
    assert_eq!(completion.choices[0].message.content, Some(s("a")));
}

#[test]
fn show_adds_text_to_the_open_turn() {
    let (_, mut app) = opened();
    app.push_turn(Role::Notification, s("n"));
    assert_eq!(StreamAccumulator::show(&mut app, &Some(s("x"))), StreamAction::Redraw);
    assert_eq!(StreamAccumulator::show(&mut app, &None), StreamAction::Continue);
    assert_eq!(StreamAccumulator::show(&mut app, &Some(s(""))), StreamAction::Redraw);
    assert_eq!(StreamAccumulator::show(&mut app, &Some(s("y"))), StreamAction::Redraw);
    assert_eq!(app.messages[3].content, "xy");
    assert_eq!(app.messages[4].content, "n");
}

#[test]
fn the_request_carries_every_turn_with_its_role() {
    let mut app = App::new(Some(s("m")), Some(s("b")), Some(s("")));
    app.push_turn(Role::User, s("hi"));
    app.push_turn(Role::Assistant, s("hello"));
    app.push_turn(Role::Notification, s("文件已创建"));
    app.push_turn(Role::User, s("bye"));
    let sent = request_messages(&app);
    assert_eq!(sent.len(), 6);
    assert_eq!(sent[0].role, RequestRole::System);
    assert_eq!(sent[0].content, "你是一个助理，帮助进行AI编码。");
    assert_eq!(sent[1].role, RequestRole::System);
    assert_eq!(sent[2], RequestMessage { role: RequestRole::User, content: s("hi") });
    assert_eq!(sent[3], RequestMessage { role: RequestRole::Assistant, content: s("hello") });
    assert_eq!(sent[4], RequestMessage { role: RequestRole::System, content: s("文件已创建") });
    assert_eq!(sent[5], RequestMessage { role: RequestRole::User, content: s("bye") });
    assert_eq!(Role::Notification.request_role(), RequestRole::System);
}

fn fragment_of(id: &str, choices: Vec<ChatCompletionChoiceDelta>) -> ChatCompletionDelta {
    let mut f = fragment(id, None);
    f.choices = choices;
    f
}

fn merged_contents(fragments: Vec<ChatCompletionDelta>) -> Vec<(u64, Option<String>)> {
    let (mut acc, mut app) = opened();
    for f in fragments {
        acc.on_poll(&mut app, StreamPoll::Fragment(f)).unwrap();
    }
    let completion = acc.finish().unwrap();
    completion.choices.iter().map(|c| (c.index, c.message.content.clone())).collect()
}

#[test]
fn each_choice_takes_in_the_choices_of_its_index_in_order() {
    let first = fragment_of("c", vec![choice(0, Some("a")), choice(1, Some("b"))]);
    let second =
        fragment_of("c", vec![choice(1, Some("x")), choice(0, Some("y")), choice(1, Some("z"))]);
    assert_eq!(
        merged_contents(vec![first, second]),
        vec![(0, Some(s("ay"))), (1, Some(s("bxz")))]
    );
}

#[test]
fn a_missing_content_changes_nothing() {
    let none = || fragment_of("c", vec![choice(0, None)]);
    let some = |t: &str| fragment_of("c", vec![choice(0, Some(t))]);
    assert_eq!(merged_contents(vec![none(), none()]), vec![(0, None)]);
    assert_eq!(merged_contents(vec![none(), some("t")]), vec![(0, Some(s("t")))]);
    assert_eq!(merged_contents(vec![some("t"), none()]), vec![(0, Some(s("t")))]);
    assert_eq!(merged_contents(vec![some("t"), none(), some("u")]), vec![(0, Some(s("tu")))]);
    assert_eq!(merged_contents(vec![some(""), some("")]), vec![(0, Some(s("")))]);
}

#[test]
fn a_choice_of_an_index_not_kept_is_lost() {
    let first = fragment_of("c", vec![choice(0, Some("a"))]);
    let second = fragment_of("c", vec![choice(5, Some("q"))]);
    assert_eq!(merged_contents(vec![first, second]), vec![(0, Some(s("a")))]);
    let empty = fragment_of("c", vec![]);
    let later = fragment_of("c", vec![choice(0, Some("q"))]);
    assert_eq!(merged_contents(vec![empty, later]), vec![]);
}

#[test]
fn choices_that_share_an_index_all_take_in_the_same() {
    let first = fragment_of("c", vec![choice(0, Some("a")), choice(0, Some("b"))]);
    let second = fragment_of("c", vec![choice(0, Some("x"))]);
    assert_eq!(
        merged_contents(vec![first, second]),
        vec![(0, Some(s("ax"))), (0, Some(s("bx")))]
    );
}

#[test]
fn the_merged_response_holds_the_text_shown() {
    let (mut acc, mut app) = opened();
    for text in [Some("The "), None, Some("quick "), Some(""), Some("fox")] {
        let f = fragment_of("c", vec![choice(3, text)]);
        acc.on_poll(&mut app, StreamPoll::Fragment(f)).unwrap();
        app.apply_event(AppEvent::System(s("note")));
    }
    let shown = app.messages[app.open_turn.unwrap()].content.clone();
    assert_eq!(shown, "The quick fox");
    let completion = acc.finish().unwrap();
    assert_eq!(completion.choices.len(), 1);
    assert_eq!(completion.choices[0].index, 3);
    assert_eq!(completion.choices[0].message.content, Some(shown));
}

#[test]
fn the_text_of_a_fragment_is_the_content_of_its_first_choice() {
    assert_eq!(fragment_text(&fragment("c", Some("hello"))), Some(s("hello")));
    assert_eq!(fragment_text(&fragment("c", Some(""))), Some(s("")));
    assert_eq!(fragment_text(&fragment("c", None)), None);
    assert_eq!(fragment_text(&fragment_of("c", vec![])), None);
    let two = fragment_of("c", vec![choice(7, None), choice(0, Some("x"))]);
    assert_eq!(fragment_text(&two), None);
    let two = fragment_of("c", vec![choice(7, Some("y")), choice(0, Some("x"))]);
    assert_eq!(fragment_text(&two), Some(s("y")));
}
