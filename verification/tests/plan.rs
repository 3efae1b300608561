use chat_console::tools::{
    command_finished, command_started, parse_command, FileOp, Plan, ToolCommand,
};
use chat_console::tui::{App, AppEvent, Role, Status};
use std::collections::BTreeMap;

fn s(text: &str) -> String {
    text.to_string()
}

fn plan_of(line: &str, texts: &[&str]) -> Option<Plan> {
    let texts: Vec<String> = texts.iter().map(|t| t.to_string()).collect();
    parse_command(line).unwrap().plan(&texts)
}

#[test]
fn touch_writes_an_empty_file() {
    assert_eq!(
        plan_of(":touch a.txt", &[]),
        Some(Plan {
            ops: vec![FileOp::Write { path: s("a.txt"), content: s("") }],
            message: s("文件已创建")
        })
    );
}

#[test]
fn touch_again_plans_the_same() {
    let first = plan_of(":touch a.txt", &[]);
    let second = plan_of(":touch a.txt", &[]);
    assert_eq!(first, second);
    assert_eq!(second.unwrap().message, "文件已创建");
}

#[test]
fn touch_again_leaves_the_files_as_they_are() {
    let mut files: BTreeMap<String, String> = BTreeMap::new();
    files.insert(s("other.txt"), s("kept"));
    let mut messages = vec![];
    let mut after = vec![];
    for _ in 0..2 {
        let plan = plan_of(":touch a.txt", &[]).unwrap();
        for op in plan.ops {
            match op {
                FileOp::Write { path, content } => {
                    files.insert(path, content);
                }
                FileOp::Remove { path } => {
                    files.remove(&path);
                }
            }
        }
        messages.push(plan.message);
        after.push(files.clone());
    }
    assert_eq!(messages[0], messages[1]);
    assert_eq!(after[0], after[1]);
    assert_eq!(after[1].get("a.txt"), Some(&s("")));
    assert_eq!(after[1].get("other.txt"), Some(&s("kept")));
}

#[test]
fn rm_removes_the_file() {
    assert_eq!(
        plan_of(":rm a.txt", &[]),
        Some(Plan { ops: vec![FileOp::Remove { path: s("a.txt") }], message: s("文件已删除") })
    );
}

#[test]
fn write_writes_the_content() {
    assert_eq!(
        plan_of(":write a.txt one two", &[]),
        Some(Plan {
            ops: vec![FileOp::Write { path: s("a.txt"), content: s("one two") }],
            message: s("文件已写入")
        })
    );
}

#[test]
fn edit_at_writes_the_edited_text() {
    assert_eq!(
        plan_of(":edit-at f.txt 1 0 Z", &["ab\ncd\n"]),
        Some(Plan {
            ops: vec![FileOp::Write { path: s("f.txt"), content: s("Zab\ncd\n") }],
            message: s("已定点插入内容")
        })
    );
}

#[test]
fn move_content_writes_the_source_then_the_target() {
    assert_eq!(
        plan_of(":move-content src.txt 2 3 dst.txt 1", &["a\nb\nc\nd\n", "x\n"]),
        Some(Plan {
            ops: vec![
                FileOp::Write { path: s("src.txt"), content: s("a\nd\n") },
                FileOp::Write { path: s("dst.txt"), content: s("b\nc\nx\n") },
            ],
            message: s("已移动内容")
        })
    );
}

#[test]
fn move_content_within_one_file_ends_with_the_target() {
    let plan = plan_of(":move-content f 1 1 f 3", &["a\nb\nc\n", "a\nb\nc\n"]).unwrap();
    assert_eq!(
        plan.ops,
        vec![
            FileOp::Write { path: s("f"), content: s("b\nc\n") },
            FileOp::Write { path: s("f"), content: s("a\nb\na\nc\n") },
        ]
    );
}

#[test]
fn a_search_has_no_plan() {
    assert_eq!(plan_of(":find log", &[]), None);
}

#[test]
fn a_plan_needs_the_texts_of_the_inputs() {
    assert_eq!(plan_of(":touch a", &["x"]), None);
    assert_eq!(plan_of(":rm a", &["x"]), None);
    assert_eq!(plan_of(":write a b", &["x"]), None);
    assert_eq!(plan_of(":edit-at f 1 0 Z", &[]), None);
    assert_eq!(plan_of(":edit-at f 1 0 Z", &["a", "b"]), None);
    assert_eq!(plan_of(":move-content a 1 1 b 1", &["a"]), None);
    assert_eq!(plan_of(":move-content a 1 1 b 1", &["a", "b", "c"]), None);
}

#[test]
fn inputs_are_the_files_read_first() {
    let no_paths: Vec<String> = vec![];
    assert_eq!(parse_command(":touch a").unwrap().inputs(), no_paths);
    assert_eq!(parse_command(":rm a").unwrap().inputs(), no_paths);
    assert_eq!(parse_command(":write a b").unwrap().inputs(), no_paths);
    assert_eq!(parse_command(":find a").unwrap().inputs(), no_paths);
    assert_eq!(parse_command(":edit-at f 1 0 Z").unwrap().inputs(), vec![s("f")]);
    assert_eq!(
        ToolCommand::MoveContent {
            src: s("a"),
            start_line: 1,
            end_line: 1,
            dst: s("b"),
            dst_line: 1
        }
        .inputs(),
        vec![s("a"), s("b")]
    );
}

#[test]
fn a_command_reports_that_it_started() {
    assert_eq!(command_started(), AppEvent::Status(Status::Requesting));
}

#[test]
fn a_command_reports_its_message_and_goes_idle() {
    assert_eq!(
        command_finished(Ok(s("文件已创建"))),
        vec![AppEvent::System(s("文件已创建")), AppEvent::Status(Status::Idle)]
    );
}

#[test]
fn a_command_reports_its_failure() {
    assert_eq!(
        command_finished(Err(s("No such file or directory (os error 2)"))),
        vec![
            AppEvent::System(s("操作失败: No such file or directory (os error 2)")),
            AppEvent::Status(Status::Error(s("No such file or directory (os error 2)"))),
        ]
    );
}

#[test]
fn the_reports_of_a_command_reach_the_conversation() {
    let mut app = App::new(None, None, None);
    app.apply_event(command_started());
    assert_eq!(app.status, Status::Requesting);
    for event in command_finished(Ok(s("文件已创建"))) {
        app.apply_event(event);
    }
    assert_eq!(app.status, Status::Idle);
    assert_eq!(app.messages.len(), 3);
    assert_eq!(app.messages[2].role, Role::Notification);
    assert_eq!(app.messages[2].content, "文件已创建");
    for event in command_finished(Err(s("denied"))) {
        app.apply_event(event);
    }
    assert_eq!(app.status, Status::Error(s("denied")));
    assert_eq!(app.messages[3].content, "操作失败: denied");
}
