//! The file commands: what a command is, how a line of input is read as
//! one, what running it does to files, and what it reports when it ends.

use crate::edit::{edit_at, edited, move_content, moved_block, source_after_move, target_after_move};
use crate::grammar::{
    after_blank, after_words, after_words_index, before_blank, split_at_blank, split_words,
    trim_chars, trimmed, words,
};
use crate::number::{parse_number, parse_usize};
use crate::text::{from_chars, same_chars, slice_chars, to_chars};
use crate::tui::{AppEvent, AppEventView, Status, StatusView};
use vstd::prelude::*;

verus! {

/// A command, read and ready to run.
#[derive(Clone, Debug, PartialEq, Eq)]
pub enum ToolCommand {
    /// Creates the file, or empties it.
    Touch { path: String },
    /// Deletes the file.
    Rm { path: String },
    /// Makes `content` the whole text of the file.
    Write { path: String, content: String },
    /// Lists the files under the working directory whose name holds
    /// `pattern`.
    Find { pattern: String },
    /// Puts `content` into the file at column `col` of line `line`.
    EditAt { path: String, line: usize, col: usize, content: String },
    /// Moves the lines `start_line` to `end_line` of `src` to where line
    /// `dst_line` of `dst` starts.
    MoveContent { src: String, start_line: usize, end_line: usize, dst: String, dst_line: usize },
}

/// What a `ToolCommand` holds.
pub enum ToolCommandView {
    Touch { path: Seq<char> },
    Rm { path: Seq<char> },
    Write { path: Seq<char>, content: Seq<char> },
    Find { pattern: Seq<char> },
    EditAt { path: Seq<char>, line: usize, col: usize, content: Seq<char> },
    MoveContent {
        src: Seq<char>,
        start_line: usize,
        end_line: usize,
        dst: Seq<char>,
        dst_line: usize,
    },
}

impl View for ToolCommand {
    type V = ToolCommandView;

    open spec fn view(&self) -> ToolCommandView {
        match self {
            ToolCommand::Touch { path } => ToolCommandView::Touch { path: path@ },
            ToolCommand::Rm { path } => ToolCommandView::Rm { path: path@ },
            ToolCommand::Write { path, content } => ToolCommandView::Write {
                path: path@,
                content: content@,
            },
            ToolCommand::Find { pattern } => ToolCommandView::Find { pattern: pattern@ },
            ToolCommand::EditAt { path, line, col, content } => ToolCommandView::EditAt {
                path: path@,
                line: *line,
                col: *col,
                content: content@,
            },
            ToolCommand::MoveContent {
                src,
                start_line,
                end_line,
                dst,
                dst_line,
            } => ToolCommandView::MoveContent {
                src: src@,
                start_line: *start_line,
                end_line: *end_line,
                dst: dst@,
                dst_line: *dst_line,
            },
        }
    }
}

/// The command that an optional `ToolCommand` holds.
pub open spec fn option_view(command: Option<ToolCommand>) -> Option<ToolCommandView> {
    match command {
        Some(c) => Some(c@),
        None => None,
    }
}

/// `touch <path>`: the path is the first word.
pub open spec fn parse_touch(args: Seq<char>) -> Option<ToolCommandView> {
    let w = words(args);
    if w.len() >= 1 {
        Some(ToolCommandView::Touch { path: w[0] })
    } else {
        None
    }
}

/// `rm <path>`: the path is the first word.
pub open spec fn parse_rm(args: Seq<char>) -> Option<ToolCommandView> {
    let w = words(args);
    if w.len() >= 1 {
        Some(ToolCommandView::Rm { path: w[0] })
    } else {
        None
    }
}

/// `write <path> <content...>`: the path is what stands before the first
/// blank and must not be empty; the content is all that follows the blank,
/// as it stands.
pub open spec fn parse_write(args: Seq<char>) -> Option<ToolCommandView> {
    if before_blank(args).len() > 0 {
        Some(ToolCommandView::Write { path: before_blank(args), content: after_blank(args) })
    } else {
        None
    }
}

/// `find <substring>`: the pattern is the first word, or empty where there
/// is none.
pub open spec fn parse_find(args: Seq<char>) -> Option<ToolCommandView> {
    let w = words(args);
    Some(
        ToolCommandView::Find {
            pattern: if w.len() >= 1 {
                w[0]
            } else {
                Seq::empty()
            },
        },
    )
}

/// The text that `edit-at` puts in: all that follows, in `args`, the third
/// word and the one white-space character after it, as it stands. Where
/// nothing follows the third word, the text is empty.
pub open spec fn edit_content(args: Seq<char>) -> Seq<char> {
    let end = after_words(args, 0, 3);
    if 0 <= end < args.len() {
        args.skip(end + 1)
    } else {
        Seq::empty()
    }
}

/// `edit-at <path> <line> <col> <content...>`: the first three words are
/// the path and two numbers, and the rest of the line is the content.
pub open spec fn parse_edit_at(args: Seq<char>) -> Option<ToolCommandView> {
    let w = words(args);
    if w.len() >= 3 {
        match (parse_number(w[1]), parse_number(w[2])) {
            (Some(line), Some(col)) => Some(
                ToolCommandView::EditAt {
                    path: w[0],
                    line,
                    col,
                    content: edit_content(args),
                },
            ),
            _ => None,
        }
    } else {
        None
    }
}

/// `move-content <src> <start_line> <end_line> <dst> <dst_line>`: five
/// words, of which the second, third and fifth are numbers.
pub open spec fn parse_move_content(args: Seq<char>) -> Option<ToolCommandView> {
    let w = words(args);
    if w.len() >= 5 {
        match (parse_number(w[1]), parse_number(w[2]), parse_number(w[4])) {
            (Some(start_line), Some(end_line), Some(dst_line)) => Some(
                ToolCommandView::MoveContent {
                    src: w[0],
                    start_line,
                    end_line,
                    dst: w[3],
                    dst_line,
                },
            ),
            _ => None,
        }
    } else {
        None
    }
}

/// One kind of command: its name, and how its arguments are read.
pub trait CommandSpec {
    spec fn name_spec(&self) -> Seq<char>;

    spec fn parse_spec(&self, args: Seq<char>) -> Option<ToolCommandView>;

    /// The word that calls for this kind of command.
    fn name(&self) -> (name: &'static str)
        ensures
            name@ == self.name_spec(),
    ;

    /// The command that `args` ask for, or `None` where they are not
    /// arguments of this kind of command.
    fn parse(&self, args: &str) -> (command: Option<ToolCommand>)
        ensures
            option_view(command) == self.parse_spec(args@),
    ;
}

/// The kind `touch`.
pub struct TouchSpec;

/// The kind `rm`.
pub struct RmSpec;

/// The kind `write`.
pub struct WriteSpec;

/// The kind `find`.
pub struct FindSpec;

/// The kind `edit-at`.
pub struct EditAtSpec;

/// The kind `move-content`.
pub struct MoveContentSpec;

impl CommandSpec for TouchSpec {
    open spec fn name_spec(&self) -> Seq<char> {
        "touch"@
    }

    open spec fn parse_spec(&self, args: Seq<char>) -> Option<ToolCommandView> {
        parse_touch(args)
    }

    fn name(&self) -> (name: &'static str) {
        "touch"
    }

    fn parse(&self, args: &str) -> (command: Option<ToolCommand>) {
        let ws = split_words(&to_chars(args));
        if ws.len() >= 1 {
            Some(ToolCommand::Touch { path: from_chars(&ws[0]) })
        } else {
            None
        }
    }
}

impl CommandSpec for RmSpec {
    open spec fn name_spec(&self) -> Seq<char> {
        "rm"@
    }

    open spec fn parse_spec(&self, args: Seq<char>) -> Option<ToolCommandView> {
        parse_rm(args)
    }

    fn name(&self) -> (name: &'static str) {
        "rm"
    }

    fn parse(&self, args: &str) -> (command: Option<ToolCommand>) {
        let ws = split_words(&to_chars(args));
        if ws.len() >= 1 {
            Some(ToolCommand::Rm { path: from_chars(&ws[0]) })
        } else {
            None
        }
    }
}

impl CommandSpec for WriteSpec {
    open spec fn name_spec(&self) -> Seq<char> {
        "write"@
    }

    open spec fn parse_spec(&self, args: Seq<char>) -> Option<ToolCommandView> {
        parse_write(args)
    }

    fn name(&self) -> (name: &'static str) {
        "write"
    }

    fn parse(&self, args: &str) -> (command: Option<ToolCommand>) {
        let (path, content) = split_at_blank(&to_chars(args));
        if path.len() > 0 {
            Some(ToolCommand::Write { path: from_chars(&path), content: from_chars(&content) })
        } else {
            None
        }
    }
}

impl CommandSpec for FindSpec {
    open spec fn name_spec(&self) -> Seq<char> {
        "find"@
    }

    open spec fn parse_spec(&self, args: Seq<char>) -> Option<ToolCommandView> {
        parse_find(args)
    }

    fn name(&self) -> (name: &'static str) {
        "find"
    }

    fn parse(&self, args: &str) -> (command: Option<ToolCommand>) {
        let ws = split_words(&to_chars(args));
        let pattern = if ws.len() >= 1 {
            from_chars(&ws[0])
        } else {
            String::new()
        };
        Some(ToolCommand::Find { pattern })
    }
}

/// The text that `edit-at` puts in.
fn edit_content_of(args: &Vec<char>) -> (content: Vec<char>)
    ensures
        content@ == edit_content(args@),
{
    let end = after_words_index(args, 3);
    if end < args.len() {
        slice_chars(args, end + 1, args.len())
    } else {
        Vec::new()
    }
}

impl CommandSpec for EditAtSpec {
    open spec fn name_spec(&self) -> Seq<char> {
        "edit-at"@
    }

    open spec fn parse_spec(&self, args: Seq<char>) -> Option<ToolCommandView> {
        parse_edit_at(args)
    }

    fn name(&self) -> (name: &'static str) {
        "edit-at"
    }

    fn parse(&self, args: &str) -> (command: Option<ToolCommand>) {
        let chars = to_chars(args);
        let ws = split_words(&chars);
        if ws.len() < 3 {
            return None;
        }
        let line = match parse_usize(&ws[1]) {
            Some(n) => n,
            None => {
                return None;
            },
        };
        let col = match parse_usize(&ws[2]) {
            Some(n) => n,
            None => {
                return None;
            },
        };
        let content = edit_content_of(&chars);
        Some(
            ToolCommand::EditAt {
                path: from_chars(&ws[0]),
                line,
                col,
                content: from_chars(&content),
            },
        )
    }
}

impl CommandSpec for MoveContentSpec {
    open spec fn name_spec(&self) -> Seq<char> {
        "move-content"@
    }

    open spec fn parse_spec(&self, args: Seq<char>) -> Option<ToolCommandView> {
        parse_move_content(args)
    }

    fn name(&self) -> (name: &'static str) {
        "move-content"
    }

    fn parse(&self, args: &str) -> (command: Option<ToolCommand>) {
        let ws = split_words(&to_chars(args));
        if ws.len() < 5 {
            return None;
        }
        let start_line = match parse_usize(&ws[1]) {
            Some(n) => n,
            None => {
                return None;
            },
        };
        let end_line = match parse_usize(&ws[2]) {
            Some(n) => n,
            None => {
                return None;
            },
        };
        let dst_line = match parse_usize(&ws[4]) {
            Some(n) => n,
            None => {
                return None;
            },
        };
        Some(
            ToolCommand::MoveContent {
                src: from_chars(&ws[0]),
                start_line,
                end_line,
                dst: from_chars(&ws[3]),
                dst_line,
            },
        )
    }
}

/// A kind of command that the console knows.
pub enum RegisteredSpec {
    Touch(TouchSpec),
    Rm(RmSpec),
    Write(WriteSpec),
    Find(FindSpec),
    EditAt(EditAtSpec),
    MoveContent(MoveContentSpec),
}

impl CommandSpec for RegisteredSpec {
    open spec fn name_spec(&self) -> Seq<char> {
        match self {
            RegisteredSpec::Touch(s) => s.name_spec(),
            RegisteredSpec::Rm(s) => s.name_spec(),
            RegisteredSpec::Write(s) => s.name_spec(),
            RegisteredSpec::Find(s) => s.name_spec(),
            RegisteredSpec::EditAt(s) => s.name_spec(),
            RegisteredSpec::MoveContent(s) => s.name_spec(),
        }
    }

    open spec fn parse_spec(&self, args: Seq<char>) -> Option<ToolCommandView> {
        match self {
            RegisteredSpec::Touch(s) => s.parse_spec(args),
            RegisteredSpec::Rm(s) => s.parse_spec(args),
            RegisteredSpec::Write(s) => s.parse_spec(args),
            RegisteredSpec::Find(s) => s.parse_spec(args),
            RegisteredSpec::EditAt(s) => s.parse_spec(args),
            RegisteredSpec::MoveContent(s) => s.parse_spec(args),
        }
    }

    fn name(&self) -> (name: &'static str) {
        match self {
            RegisteredSpec::Touch(s) => s.name(),
            RegisteredSpec::Rm(s) => s.name(),
            RegisteredSpec::Write(s) => s.name(),
            RegisteredSpec::Find(s) => s.name(),
            RegisteredSpec::EditAt(s) => s.name(),
            RegisteredSpec::MoveContent(s) => s.name(),
        }
    }

    fn parse(&self, args: &str) -> (command: Option<ToolCommand>) {
        match self {
            RegisteredSpec::Touch(s) => s.parse(args),
            RegisteredSpec::Rm(s) => s.parse(args),
            RegisteredSpec::Write(s) => s.parse(args),
            RegisteredSpec::Find(s) => s.parse(args),
            RegisteredSpec::EditAt(s) => s.parse(args),
            RegisteredSpec::MoveContent(s) => s.parse(args),
        }
    }
}

/// The kinds of command that the console knows, in the order in which a
/// name is looked for among them.
pub open spec fn registry() -> Seq<RegisteredSpec> {
    seq![
        RegisteredSpec::Touch(TouchSpec),
        RegisteredSpec::Rm(RmSpec),
        RegisteredSpec::Write(WriteSpec),
        RegisteredSpec::Find(FindSpec),
        RegisteredSpec::EditAt(EditAtSpec),
        RegisteredSpec::MoveContent(MoveContentSpec),
    ]
}

/// The kinds of command that the console knows, in the order in which a
/// name is looked for among them.
pub fn command_specs() -> (specs: Vec<RegisteredSpec>)
    ensures
        specs@ == registry(),
{
    let mut specs: Vec<RegisteredSpec> = Vec::new();
    specs.push(RegisteredSpec::Touch(TouchSpec));
    specs.push(RegisteredSpec::Rm(RmSpec));
    specs.push(RegisteredSpec::Write(WriteSpec));
    specs.push(RegisteredSpec::Find(FindSpec));
    specs.push(RegisteredSpec::EditAt(EditAtSpec));
    specs.push(RegisteredSpec::MoveContent(MoveContentSpec));
    assert(specs@ =~= registry());
    specs
}

/// The command that the first of `specs` named `name` reads from `args`.
/// The first kind of that name decides alone: where it does not take the
/// arguments, no later kind is asked. Where no kind has the name, there is
/// no command.
pub open spec fn scan<S: CommandSpec>(specs: Seq<S>, name: Seq<char>, args: Seq<char>) -> Option<
    ToolCommandView,
>
    decreases specs.len(),
{
    if specs.len() == 0 {
        None
    } else if specs[0].name_spec() == name {
        specs[0].parse_spec(args)
    } else {
        scan(specs.skip(1), name, args)
    }
}

/// Looks `name` up among `specs`, in order, and has the first kind of that
/// name read `args`.
pub fn scan_specs<S: CommandSpec>(specs: &Vec<S>, name: &str, args: &str) -> (command: Option<
    ToolCommand,
>)
    ensures
        option_view(command) == scan(specs@, name@, args@),
{
    let wanted = to_chars(name);
    let mut i: usize = 0;
    assert(specs@.skip(0) =~= specs@);
    while i < specs.len()
        invariant
            i <= specs.len(),
            wanted@ == name@,
            scan(specs@.skip(i as int), name@, args@) == scan(specs@, name@, args@),
        decreases specs.len() - i,
    {
        let have = to_chars(specs[i].name());
        assert(specs@.skip(i as int)[0] == specs@[i as int]);
        if same_chars(&have, &wanted) {
            return specs[i].parse(args);
        }
        assert(specs@.skip(i as int).skip(1) =~= specs@.skip(i + 1));
        i += 1;
    }
    None
}

/// Whether `input` is meant as a command: its first character that is not
/// white space is a colon.
pub open spec fn is_command_line(input: Seq<char>) -> bool {
    let line = trimmed(input);
    line.len() > 0 && line[0] == ':'
}

/// The command that a line of input asks for.
///
/// The line is taken without the white space at its ends and must start
/// with a colon. What stands between the colon and the first blank is the
/// command's name, and what follows that blank are its arguments, as they
/// stand. The name is looked up in the registry.
pub open spec fn parsed(input: Seq<char>) -> Option<ToolCommandView> {
    if is_command_line(input) {
        let rest = trimmed(input).skip(1);
        scan(registry(), before_blank(rest), after_blank(rest))
    } else {
        None
    }
}

/// Reads a line of input as a command. `None` says that the line is not a
/// command: it does not start with a colon, names no known command, or
/// lacks an argument that the command needs.
pub fn parse_command(input: &str) -> (command: Option<ToolCommand>)
    ensures
        option_view(command) == parsed(input@),
{
    let line = trim_chars(&to_chars(input));
    if line.len() == 0 || line[0] != ':' {
        return None;
    }
    let rest = slice_chars(&line, 1, line.len());
    assert(rest@ == trimmed(input@).skip(1));
    let (name, args) = split_at_blank(&rest);
    let specs = command_specs();
    scan_specs(&specs, from_chars(&name).as_str(), from_chars(&args).as_str())
}

/// Whether a line of input is meant as a command.
pub fn is_command(input: &str) -> (r: bool)
    ensures
        r == is_command_line(input@),
{
    let line = trim_chars(&to_chars(input));
    line.len() > 0 && line[0] == ':'
}

/// One change to the files.
#[derive(Clone, Debug, PartialEq, Eq)]
pub enum FileOp {
    /// Makes `content` the whole text of the file at `path`; the file is
    /// created where there is none.
    Write { path: String, content: String },
    /// Deletes the file at `path`.
    Remove { path: String },
}

/// What a `FileOp` holds.
pub enum FileOpView {
    Write { path: Seq<char>, content: Seq<char> },
    Remove { path: Seq<char> },
}

impl View for FileOp {
    type V = FileOpView;

    open spec fn view(&self) -> FileOpView {
        match self {
            FileOp::Write { path, content } => FileOpView::Write {
                path: path@,
                content: content@,
            },
            FileOp::Remove { path } => FileOpView::Remove { path: path@ },
        }
    }
}

/// What running a command comes to: the changes to make, in order, and the
/// message to report when all of them are made.
#[derive(Clone, Debug, PartialEq, Eq)]
pub struct Plan {
    pub ops: Vec<FileOp>,
    pub message: String,
}

/// What a `Plan` holds.
pub struct PlanView {
    pub ops: Seq<FileOpView>,
    pub message: Seq<char>,
}

/// The changes held by a sequence of `FileOp` values.
pub open spec fn op_views(ops: Seq<FileOp>) -> Seq<FileOpView> {
    Seq::new(ops.len(), |i: int| ops[i]@)
}

impl View for Plan {
    type V = PlanView;

    open spec fn view(&self) -> PlanView {
        PlanView { ops: op_views(self.ops@), message: self.message@ }
    }
}

/// The plan that an optional `Plan` holds.
pub open spec fn plan_view(plan: Option<Plan>) -> Option<PlanView> {
    match plan {
        Some(p) => Some(p@),
        None => None,
    }
}

/// The files that commands work on: each path that names a file, with
/// the file's text.
pub type Files = Map<Seq<char>, Seq<char>>;

/// The files after one change.
pub open spec fn apply_op(files: Files, op: FileOpView) -> Files {
    match op {
        FileOpView::Write { path, content } => files.insert(path, content),
        FileOpView::Remove { path } => files.remove(path),
    }
}

/// The files after the changes `ops`, made in order.
pub open spec fn apply_ops(files: Files, ops: Seq<FileOpView>) -> Files
    decreases ops.len(),
{
    if ops.len() == 0 {
        files
    } else {
        apply_op(apply_ops(files, ops.drop_last()), ops.last())
    }
}

impl ToolCommandView {
    /// The files whose text the command reads before it changes anything,
    /// in the order in which it reads them.
    pub open spec fn inputs(self) -> Seq<Seq<char>> {
        match self {
            ToolCommandView::EditAt { path, .. } => seq![path],
            ToolCommandView::MoveContent { src, dst, .. } => seq![src, dst],
            _ => Seq::empty(),
        }
    }

    /// What the command does, given the texts of its inputs. There is a
    /// plan where `texts` are as many as the inputs and the command is not
    /// a search, which changes no file.
    pub open spec fn plan(self, texts: Seq<Seq<char>>) -> Option<PlanView> {
        if texts.len() != self.inputs().len() {
            None
        } else {
            match self {
                ToolCommandView::Touch { path } => Some(
                    PlanView {
                        ops: seq![FileOpView::Write { path, content: Seq::empty() }],
                        message: "文件已创建"@,
                    },
                ),
                ToolCommandView::Rm { path } => Some(
                    PlanView { ops: seq![FileOpView::Remove { path }], message: "文件已删除"@ },
                ),
                ToolCommandView::Write { path, content } => Some(
                    PlanView {
                        ops: seq![FileOpView::Write { path, content }],
                        message: "文件已写入"@,
                    },
                ),
                ToolCommandView::Find { .. } => None,
                ToolCommandView::EditAt { path, line, col, content } => Some(
                    PlanView {
                        ops: seq![
                            FileOpView::Write {
                                path,
                                content: edited(texts[0], line as int, col as int, content),
                            },
                        ],
                        message: "已定点插入内容"@,
                    },
                ),
                ToolCommandView::MoveContent { src, start_line, end_line, dst, dst_line } => Some(
                    PlanView {
                        ops: seq![
                            FileOpView::Write {
                                path: src,
                                content: source_after_move(
                                    texts[0],
                                    start_line as int,
                                    end_line as int,
                                ),
                            },
                            FileOpView::Write {
                                path: dst,
                                content: target_after_move(
                                    texts[1],
                                    moved_block(texts[0], start_line as int, end_line as int),
                                    dst_line as int,
                                ),
                            },
                        ],
                        message: "已移动内容"@,
                    },
                ),
            }
        }
    }
}

impl ToolCommand {
    /// The files whose text the command reads before it changes anything,
    /// in the order in which it reads them.
    pub fn inputs(&self) -> (paths: Vec<String>)
        ensures
            crate::text::string_views(paths@) == self@.inputs(),
    {
        let mut paths: Vec<String> = Vec::new();
        match self {
            ToolCommand::EditAt { path, .. } => {
                paths.push(path.clone());
            },
            ToolCommand::MoveContent { src, dst, .. } => {
                paths.push(src.clone());
                paths.push(dst.clone());
            },
            _ => {},
        }
        assert(crate::text::string_views(paths@) =~= self@.inputs());
        paths
    }

    /// What the command does, given the texts of its inputs: the changes
    /// to make and the message to report after them. `None` where `texts`
    /// are not as many as the inputs, and for a search.
    pub fn plan(&self, texts: &Vec<String>) -> (plan: Option<Plan>)
        ensures
            plan_view(plan) == self@.plan(crate::text::string_views(texts@)),
    {
        let mut ops: Vec<FileOp> = Vec::new();
        match self {
            ToolCommand::Touch { path } => {
                if texts.len() != 0 {
                    return None;
                }
                ops.push(FileOp::Write { path: path.clone(), content: String::new() });
                let plan = Plan { ops, message: "文件已创建".to_string() };
                assert(plan@.ops =~= self@.plan(Seq::empty())->0.ops);
                Some(plan)
            },
            ToolCommand::Rm { path } => {
                if texts.len() != 0 {
                    return None;
                }
                ops.push(FileOp::Remove { path: path.clone() });
                let plan = Plan { ops, message: "文件已删除".to_string() };
                assert(plan@.ops =~= self@.plan(Seq::empty())->0.ops);
                Some(plan)
            },
            ToolCommand::Write { path, content } => {
                if texts.len() != 0 {
                    return None;
                }
                ops.push(FileOp::Write { path: path.clone(), content: content.clone() });
                let plan = Plan { ops, message: "文件已写入".to_string() };
                assert(plan@.ops =~= self@.plan(Seq::empty())->0.ops);
                Some(plan)
            },
            ToolCommand::Find { .. } => None,
            ToolCommand::EditAt { path, line, col, content } => {
                if texts.len() != 1 {
                    return None;
                }
                let text = edit_at(texts[0].as_str(), *line, *col, content.as_str());
                ops.push(FileOp::Write { path: path.clone(), content: text });
                let plan = Plan { ops, message: "已定点插入内容".to_string() };
                assert(plan@.ops =~= self@.plan(crate::text::string_views(texts@))->0.ops);
                Some(plan)
            },
            ToolCommand::MoveContent { src, start_line, end_line, dst, dst_line } => {
                if texts.len() != 2 {
                    return None;
                }
                let (source, target) = move_content(
                    texts[0].as_str(),
                    texts[1].as_str(),
                    *start_line,
                    *end_line,
                    *dst_line,
                );
                ops.push(FileOp::Write { path: src.clone(), content: source });
                ops.push(FileOp::Write { path: dst.clone(), content: target });
                let plan = Plan { ops, message: "已移动内容".to_string() };
                assert(plan@.ops =~= self@.plan(crate::text::string_views(texts@))->0.ops);
                Some(plan)
            },
        }
    }
}

/// What a command reports when it starts: the console is busy.
pub open spec fn started_event() -> AppEventView {
    AppEventView::Status(StatusView::Requesting)
}

/// What a command reports when it ends: after a success its message and
/// an idle status, after a failure a notice of the failure and the error as
/// status.
pub open spec fn finished_events(outcome: Result<Seq<char>, Seq<char>>) -> Seq<AppEventView> {
    match outcome {
        Ok(message) => seq![
            AppEventView::System(message),
            AppEventView::Status(StatusView::Idle),
        ],
        Err(error) => seq![
            AppEventView::System("操作失败: "@ + error),
            AppEventView::Status(StatusView::Error(error)),
        ],
    }
}

/// The events held by a sequence of `AppEvent` values.
pub open spec fn event_views(events: Seq<AppEvent>) -> Seq<AppEventView> {
    Seq::new(events.len(), |i: int| events[i]@)
}

/// What a command reports when it starts.
pub fn command_started() -> (event: AppEvent)
    ensures
        event@ == started_event(),
{
    AppEvent::Status(Status::Requesting)
}

/// What a command reports when it ends, given its message or its error.
pub fn command_finished(outcome: Result<String, String>) -> (events: Vec<AppEvent>)
    ensures
        event_views(events@) == finished_events(
            match outcome {
                Ok(m) => Ok(m@),
                Err(e) => Err(e@),
            },
        ),
{
    let mut events: Vec<AppEvent> = Vec::new();
    match outcome {
        Ok(message) => {
            events.push(AppEvent::System(message));
            events.push(AppEvent::Status(Status::Idle));
            assert(event_views(events@) =~= finished_events(Ok(message@)));
        },
        Err(error) => {
            let mut notice = "操作失败: ".to_string();
            notice.append(error.as_str());
            events.push(AppEvent::System(notice));
            events.push(AppEvent::Status(Status::Error(error)));
            assert(event_views(events@) =~= finished_events(Err(error@)));
        },
    }
    events
}

} // verus!
