//! What holds of the console as a whole: laws that relate the grammar, the
//! commands' plans, the conversation and the stream to each other.

use crate::api::{
    merged_choice, merged_choices, StreamAccumulatorView, StreamAction, StreamPhase,
    StreamPollView,
};
use crate::console::{after_chat, after_key, after_key_event, Key, KeyKind, LoopActionView};
use crate::edit::{
    edit_offset, edited, is_line, lemma_line_end, lemma_lines_step, lemma_terminated_add,
    line_body, line_end, lines, lines_from, move_range, moved_block, source_after_move, span,
    terminated,
};
use crate::find::{occurs_in, EntryView, FindWalkView};
use crate::grammar::{
    after_blank, after_words, before_blank, first_blank, is_word, lemma_first_blank,
    lemma_skip_spaces, lemma_trim_end, lemma_word_end, skip_spaces, trim_end, trimmed, word_end,
    words, words_from,
};
use crate::text::{is_space, join};
use crate::number::{
    all_digits, decimal, digit, digit_value, digits_value, is_digit, lemma_digits_value_push,
    parse_number, unsigned_part,
};
use crate::tools::{
    apply_ops, edit_content, finished_events, is_command_line, parse_edit_at, parse_find,
    parse_move_content, parse_rm, parse_touch, parse_write, parsed, registry, scan, Files,
    FileOpView, PlanView, RegisteredSpec, ToolCommandView,
};
use crate::tui::{masked, stars, AppEventView, AppView, Role};
use vstd::prelude::*;

verus! {

/// Looking a name up in the registry comes to this: each of the six names
/// has its own grammar, and no other name is a command.
pub proof fn law_registry_dispatch(name: Seq<char>, args: Seq<char>)
    ensures
        scan(registry(), name, args) == if name == "touch"@ {
            parse_touch(args)
        } else if name == "rm"@ {
            parse_rm(args)
        } else if name == "write"@ {
            parse_write(args)
        } else if name == "find"@ {
            parse_find(args)
        } else if name == "edit-at"@ {
            parse_edit_at(args)
        } else if name == "move-content"@ {
            parse_move_content(args)
        } else {
            None
        },
{
    let r0 = registry();
    let r1 = r0.skip(1);
    let r2 = r1.skip(1);
    let r3 = r2.skip(1);
    let r4 = r3.skip(1);
    let r5 = r4.skip(1);
    let r6 = r5.skip(1);
    assert(r1[0] == r0[1] && r2[0] == r0[2] && r3[0] == r0[3] && r4[0] == r0[4] && r5[0] == r0[5]);
    assert(r6.len() == 0);
    assert(scan(r6, name, args) == None::<ToolCommandView>);
    assert(scan(r5, name, args) == if name == "move-content"@ {
        parse_move_content(args)
    } else {
        scan(r6, name, args)
    });
    assert(scan(r4, name, args) == if name == "edit-at"@ {
        parse_edit_at(args)
    } else {
        scan(r5, name, args)
    });
    assert(scan(r3, name, args) == if name == "find"@ {
        parse_find(args)
    } else {
        scan(r4, name, args)
    });
    assert(scan(r2, name, args) == if name == "write"@ {
        parse_write(args)
    } else {
        scan(r3, name, args)
    });
    assert(scan(r1, name, args) == if name == "rm"@ {
        parse_rm(args)
    } else {
        scan(r2, name, args)
    });
    assert(scan(r0, name, args) == if name == "touch"@ {
        parse_touch(args)
    } else {
        scan(r1, name, args)
    });
}

/// A line that is meant as a command is read by the name that follows its
/// colon: what stands between the colon and the first blank chooses the
/// grammar, and what follows that blank is read by it.
pub proof fn law_command_line_is_read_by_its_name(input: Seq<char>)
    requires
        is_command_line(input),
    ensures
        ({
            let rest = trimmed(input).skip(1);
            let name = before_blank(rest);
            let args = after_blank(rest);
            parsed(input) == if name == "touch"@ {
                parse_touch(args)
            } else if name == "rm"@ {
                parse_rm(args)
            } else if name == "write"@ {
                parse_write(args)
            } else if name == "find"@ {
                parse_find(args)
            } else if name == "edit-at"@ {
                parse_edit_at(args)
            } else if name == "move-content"@ {
                parse_move_content(args)
            } else {
                None
            }
        }),
{
    let rest = trimmed(input).skip(1);
    law_registry_dispatch(before_blank(rest), after_blank(rest));
}

/// Every well-formed `touch`, `rm` and `write` is read, and is read as the
/// command it names. `touch` and `rm` are well formed with at least one
/// word, `write` with a path before the first blank. Running the command
/// makes exactly the one change that its name says, to the file at that
/// path, and reports its fixed message.
pub proof fn law_simple_commands_run_as_named(args: Seq<char>)
    ensures
        words(args).len() >= 1 ==> {
            let path = words(args)[0];
            &&& parse_touch(args) == Some(ToolCommandView::Touch { path })
            &&& parse_rm(args) == Some(ToolCommandView::Rm { path })
            &&& (ToolCommandView::Touch { path }).plan(Seq::empty()) == Some(
                PlanView {
                    ops: seq![FileOpView::Write { path, content: Seq::empty() }],
                    message: "文件已创建"@,
                },
            )
            &&& (ToolCommandView::Rm { path }).plan(Seq::empty()) == Some(
                PlanView { ops: seq![FileOpView::Remove { path }], message: "文件已删除"@ },
            )
        },
        before_blank(args).len() >= 1 ==> {
            let path = before_blank(args);
            let content = after_blank(args);
            &&& parse_write(args) == Some(ToolCommandView::Write { path, content })
            &&& (ToolCommandView::Write { path, content }).plan(Seq::empty()) == Some(
                PlanView { ops: seq![FileOpView::Write { path, content }], message: "文件已写入"@ },
            )
        },
{
}

/// Arguments that lack what a command needs are arguments of no command:
/// `touch` and `rm` without a word, `write` without a path, `edit-at`
/// without three words or with a line or column that is no number,
/// `move-content` without five words or with a line that is no number.
pub proof fn law_malformed_arguments_are_refused(args: Seq<char>)
    ensures
        words(args).len() == 0 ==> parse_touch(args) is None && parse_rm(args) is None,
        before_blank(args).len() == 0 ==> parse_write(args) is None,
        words(args).len() < 3 ==> parse_edit_at(args) is None,
        words(args).len() >= 3 && (parse_number(words(args)[1]) is None || parse_number(
            words(args)[2],
        ) is None) ==> parse_edit_at(args) is None,
        words(args).len() < 5 ==> parse_move_content(args) is None,
        words(args).len() >= 5 && (parse_number(words(args)[1]) is None || parse_number(
            words(args)[2],
        ) is None || parse_number(words(args)[4]) is None) ==> parse_move_content(args) is None,
{
}

/// `edit-at` takes the rest of the line as it stands: for a path that is a
/// word, a line and a column that are read as numbers, however they are
/// written, and one white-space character after each of the three, the
/// content is all that follows, be it empty or hold white space itself.
pub proof fn law_edit_at_takes_the_rest_of_the_line(
    path: Seq<char>,
    line: Seq<char>,
    col: Seq<char>,
    content: Seq<char>,
    s1: char,
    s2: char,
    s3: char,
)
    requires
        is_word(path),
        parse_number(line) is Some,
        parse_number(col) is Some,
        is_space(s1),
        is_space(s2),
        is_space(s3),
    ensures
        parse_edit_at(path.push(s1) + line.push(s2) + col.push(s3) + content) == Some(
            ToolCommandView::EditAt {
                path,
                line: parse_number(line)->0,
                col: parse_number(col)->0,
                content,
            },
        ),
{
    let args = path.push(s1) + line.push(s2) + col.push(s3) + content;
    lemma_number_is_word(line);
    lemma_number_is_word(col);
    let e0 = path.len() as int;
    let p1 = e0 + 1;
    let e1 = p1 + line.len();
    let p2 = e1 + 1;
    let e2 = p2 + col.len();
    assert(args.len() == e2 + 1 + content.len());
    assert(args[e0] == s1 && args[e1] == s2 && args[e2] == s3);
    assert forall|k: int| 0 <= k < e0 implies !is_space(args[k]) by {
        assert(args[k] == path[k]);
    }
    assert forall|k: int| p1 <= k < e1 implies !is_space(args[k]) by {
        assert(args[k] == line[k - p1]);
    }
    assert forall|k: int| p2 <= k < e2 implies !is_space(args[k]) by {
        assert(args[k] == col[k - p2]);
    }
    lemma_word_end_run(args, 0, e0);
    lemma_word_end_run(args, p1, e1);
    lemma_word_end_run(args, p2, e2);
    assert(args.subrange(0, e0) =~= path);
    assert(args.subrange(p1, e1) =~= line);
    assert(args.subrange(p2, e2) =~= col);
    assert(words_from(args, p2) == seq![col] + words_from(args, e2));
    assert(words_from(args, e1) == words_from(args, p2));
    assert(words_from(args, p1) == seq![line] + words_from(args, e1));
    assert(words_from(args, e0) == words_from(args, p1));
    assert(words_from(args, 0) == seq![path] + words_from(args, e0));
    let w = words(args);
    assert(w.len() >= 3 && w[0] == path && w[1] == line && w[2] == col);
    assert(after_words(args, e2, 0) == e2);
    assert(after_words(args, p2, 1) == e2);
    assert(after_words(args, e1, 1) == e2);
    assert(after_words(args, p1, 2) == e2);
    assert(after_words(args, e0, 2) == e2);
    assert(after_words(args, 0, 3) == e2);
    assert(args.skip(e2 + 1) =~= content);
}

/// Where nothing follows the third word of its arguments, `edit-at` puts
/// in the empty text.
pub proof fn law_edit_at_without_text_inserts_nothing(args: Seq<char>)
    requires
        after_words(args, 0, 3) >= args.len(),
    ensures
        edit_content(args) == Seq::<char>::empty(),
{
}

proof fn lemma_number_is_word(a: Seq<char>)
    requires
        parse_number(a) is Some,
    ensures
        is_word(a),
{
    let digits = unsigned_part(a);
    assert forall|k: int| 0 <= k < a.len() implies !is_space(#[trigger] a[k]) by {
        if a[0] == '+' {
            if k > 0 {
                assert(is_digit(digits[k - 1]));
            }
        } else {
            assert(is_digit(digits[k]));
        }
    }
}

proof fn lemma_word_end_run(s: Seq<char>, i: int, e: int)
    requires
        0 <= i <= e <= s.len(),
        forall|k: int| i <= k < e ==> !is_space(s[k]),
        e < s.len() ==> is_space(s[e]),
    ensures
        word_end(s, i) == e,
    decreases e - i,
{
    if i < e {
        lemma_word_end_run(s, i + 1, e);
    }
}

/// A line that is meant as a command and cannot be read as one is dropped
/// on Enter: the input is emptied, and the conversation gets no turn and
/// keeps its status, so nothing of the line reaches the model.
pub proof fn law_unreadable_command_is_dropped(app: AppView)
    requires
        is_command_line(app.input),
        parsed(app.input) is None,
    ensures
        after_key(app, Key::Enter) == (app.with_input(Seq::empty()), LoopActionView::Dropped),
        after_key(app, Key::Enter).0.messages == app.messages,
        after_key(app, Key::Enter).0.status == app.status,
{
}

/// A line that is not meant as a command is never read as one.
pub proof fn law_chat_lines_are_no_commands(input: Seq<char>)
    requires
        !is_command_line(input),
    ensures
        parsed(input) is None,
{
}

/// One thing that happens while an answer streams in: a background task
/// reports, or the stream is looked at.
pub enum ConsoleStep {
    Event(AppEventView),
    Poll(StreamPollView),
}

/// The stream and the conversation after `steps`, taken in order.
pub open spec fn after_steps(
    stream: StreamAccumulatorView,
    app: AppView,
    steps: Seq<ConsoleStep>,
) -> (StreamAccumulatorView, AppView)
    decreases steps.len(),
{
    if steps.len() == 0 {
        (stream, app)
    } else {
        let before = after_steps(stream, app, steps.drop_last());
        match steps.last() {
            ConsoleStep::Event(e) => (before.0, before.1.apply_event(e)),
            ConsoleStep::Poll(p) => (
                before.0.on_poll(before.1, p).stream,
                before.0.on_poll(before.1, p).app,
            ),
        }
    }
}

/// The texts of the fragments that arrive among `steps` while the stream
/// takes fragments in, one after the other.
pub open spec fn streamed_text(
    stream: StreamAccumulatorView,
    app: AppView,
    steps: Seq<ConsoleStep>,
) -> Seq<char>
    decreases steps.len(),
{
    if steps.len() == 0 {
        Seq::empty()
    } else {
        let earlier = streamed_text(stream, app, steps.drop_last());
        let before = after_steps(stream, app, steps.drop_last()).0;
        match steps.last() {
            ConsoleStep::Poll(StreamPollView::Fragment(f)) => if before.is_live()
                && f.text() is Some {
                earlier + f.text()->0
            } else {
                earlier
            },
            _ => earlier,
        }
    }
}

/// While an answer streams in, the open turn shows the texts of the
/// fragments so far, one after the other in the order of arrival, however
/// the reports of background tasks fall between them. The turn stays where
/// it is and stays the assistant's, and no other turn that was there
/// changes. The turn stays open as long as the stream takes fragments in.
pub proof fn law_stream_shows_fragments_in_order(
    stream: StreamAccumulatorView,
    app: AppView,
    steps: Seq<ConsoleStep>,
    turn: nat,
)
    requires
        app.wf(),
        app.open_turn == Some(turn),
    ensures
        ({
            let end = after_steps(stream, app, steps);
            &&& end.1.wf()
            &&& end.1.open_turn == Some(turn) || end.1.open_turn is None
            &&& end.0.is_live() ==> end.1.open_turn == Some(turn)
            &&& end.1.messages.len() >= app.messages.len()
            &&& end.1.messages[turn as int].role == Role::Assistant
            &&& end.1.messages[turn as int].content == app.messages[turn as int].content
                + streamed_text(stream, app, steps)
            &&& forall|i: int|
                0 <= i < app.messages.len() && i != turn ==> end.1.messages[i] == app.messages[i]
            &&& end.1.input == app.input
            &&& end.1.model == app.model
        }),
    decreases steps.len(),
{
    let t = turn as int;
    if steps.len() == 0 {
        assert(app.messages[t].content + Seq::<char>::empty() =~= app.messages[t].content);
    } else {
        law_stream_shows_fragments_in_order(stream, app, steps.drop_last(), turn);
        let before = after_steps(stream, app, steps.drop_last());
        let end = after_steps(stream, app, steps);
        let earlier = streamed_text(stream, app, steps.drop_last());
        match steps.last() {
            ConsoleStep::Poll(StreamPollView::Fragment(f)) => {
                if before.0.is_live() && f.text() is Some {
                    assert(end.1.messages[t].content =~= app.messages[t].content + (earlier
                        + f.text()->0));
                }
            },
            _ => {},
        }
    }
}

/// The content of a choice as text: a missing content is empty.
pub open spec fn content_text(content: Option<Seq<char>>) -> Seq<char> {
    match content {
        Some(t) => t,
        None => Seq::empty(),
    }
}

/// Whether a step that brings a fragment brings one of the completion
/// `id` that lists the one choice of index `index`.
pub open spec fn brings_one_choice(step: ConsoleStep, id: Seq<char>, index: u64) -> bool {
    step matches ConsoleStep::Poll(StreamPollView::Fragment(f)) ==> f.id == id && f.choices.len()
        == 1 && f.choices[0].0 == index
}

/// Nothing is lost between the screen and the merged response. Where
/// every fragment of a stream belongs to one completion and lists the one
/// choice of one index, no look at the stream fails, and what is merged
/// holds, as the content of that choice, exactly the text that was added
/// to the answer's turn.
pub proof fn law_merged_response_holds_the_text_shown(
    stream: StreamAccumulatorView,
    app: AppView,
    steps: Seq<ConsoleStep>,
    id: Seq<char>,
    index: u64,
)
    requires
        stream.merged is None,
        forall|i: int| 0 <= i < steps.len() ==> brings_one_choice(#[trigger] steps[i], id, index),
    ensures
        ({
            let end = after_steps(stream, app, steps).0;
            let text = streamed_text(stream, app, steps);
            match end.merged {
                Some(m) => m.id == id && m.choices.len() == 1 && m.choices[0].0 == index
                    && content_text(m.choices[0].1) == text,
                None => text == Seq::<char>::empty(),
            }
        }),
        forall|k: int|
            0 <= k < steps.len() ==> (#[trigger] steps[k] matches ConsoleStep::Poll(p)
                ==> after_steps(stream, app, steps.take(k)).0.on_poll(
                after_steps(stream, app, steps.take(k)).1,
                p,
            ).action is Some),
    decreases steps.len(),
{
    if steps.len() > 0 {
        let head = steps.drop_last();
        assert forall|i: int| 0 <= i < head.len() implies brings_one_choice(
            #[trigger] head[i],
            id,
            index,
        ) by {
            assert(head[i] == steps[i]);
        }
        law_merged_response_holds_the_text_shown(stream, app, head, id, index);
        let before = after_steps(stream, app, head);
        let earlier = streamed_text(stream, app, head);
        assert(brings_one_choice(steps[steps.len() - 1], id, index));
        match steps.last() {
            ConsoleStep::Poll(StreamPollView::Fragment(f)) => {
                if before.0.is_live() {
                    match before.0.merged {
                        Some(m) => {
                            let theirs = f.choices;
                            assert(theirs.drop_last() =~= Seq::<(u64, Option<Seq<char>>)>::empty());
                            assert(merged_choice(m.choices[0], theirs.drop_last()) == m.choices[0]);
                            let merged = merged_choices(m.choices, theirs);
                            assert(merged[0] == merged_choice(m.choices[0], theirs));
                            assert(content_text(merged[0].1) =~= streamed_text(stream, app, steps));
                        },
                        None => {
                            assert(content_text(f.choices[0].1) =~= streamed_text(
                                stream,
                                app,
                                steps,
                            ));
                        },
                    }
                }
            },
            _ => {},
        }
        assert forall|k: int| 0 <= k < steps.len() && (#[trigger] steps[k] matches ConsoleStep::Poll(
            p,
        )) implies after_steps(stream, app, steps.take(k)).0.on_poll(
            after_steps(stream, app, steps.take(k)).1,
            steps[k]->Poll_0,
        ).action is Some by {
            if k < head.len() {
                assert(head[k] == steps[k]);
                assert(head.take(k) =~= steps.take(k));
            } else {
                assert(steps.take(k) =~= head);
            }
        }
    }
}

/// The conversation stays well formed, whatever happens: it starts so, and
/// a report, a key, the end of a request, the opening of a turn or of a
/// stream and a look at a stream all keep it so. There is thus never more
/// than one turn open, and the open turn is always a turn of the
/// assistant.
pub proof fn law_conversation_stays_well_formed(
    app: AppView,
    event: AppEventView,
    kind: KeyKind,
    key: Key,
    outcome: Result<(), Seq<char>>,
    stream: StreamAccumulatorView,
    poll: StreamPollView,
)
    requires
        app.wf(),
    ensures
        app.apply_event(event).wf(),
        after_key_event(app, kind, key).0.wf(),
        after_chat(app, outcome).wf(),
        app.open_answer().wf(),
        app.close_answer().wf(),
        stream.open(app).1.wf(),
        stream.on_poll(app, poll).app.wf(),
{
}

/// A conversation starts well formed, with no turn open.
pub proof fn law_conversation_starts_well_formed(
    model: Option<Seq<char>>,
    api_base: Option<Seq<char>>,
    api_key: Option<Seq<char>>,
)
    ensures
        AppView::initial(model, api_base, api_key).wf(),
        AppView::initial(model, api_base, api_key).open_turn is None,
{
}

/// Whether `after` has every turn of `before` as it was, but for the open
/// turn of `before`, which may have grown at its end.
pub open spec fn keeps_history(before: AppView, after: AppView) -> bool {
    &&& after.messages.len() >= before.messages.len()
    &&& forall|i: int|
        0 <= i < before.messages.len() ==> {
            &&& (#[trigger] after.messages[i]).role == before.messages[i].role
            &&& before.messages[i].content.is_prefix_of(after.messages[i].content)
            &&& before.open_turn != Some(i as nat) ==> after.messages[i] == before.messages[i]
        }
}

/// The conversation only grows: a turn that is there stays, with its role
/// and its content, and only the open turn takes in more text, at its end.
/// This holds of a report, a key, the end of a request, the opening of a
/// turn or of a stream and a look at a stream.
pub proof fn law_only_the_open_turn_changes(
    app: AppView,
    event: AppEventView,
    kind: KeyKind,
    key: Key,
    outcome: Result<(), Seq<char>>,
    stream: StreamAccumulatorView,
    poll: StreamPollView,
)
    ensures
        keeps_history(app, app.apply_event(event)),
        keeps_history(app, after_key_event(app, kind, key).0),
        keeps_history(app, after_chat(app, outcome)),
        keeps_history(app, app.open_answer()),
        keeps_history(app, app.close_answer()),
        keeps_history(app, stream.open(app).1),
        keeps_history(app, stream.on_poll(app, poll).app),
{
    lemma_same_history(app, app);
    lemma_same_history(app, app.with_input(Seq::empty()));
    lemma_same_history(app, app.close_answer());
    assert(keeps_history(app, after_key_event(app, kind, key).0)) by {
        let after = after_key_event(app, kind, key).0;
        assert forall|i: int| 0 <= i < app.messages.len() implies (
        #[trigger] after.messages[i]) == app.messages[i] by {}
        lemma_unchanged_history(app, after);
    }
    assert(keeps_history(app, app.apply_event(event))) by {
        lemma_unchanged_history(app, app.apply_event(event));
    }
    assert(keeps_history(app, after_chat(app, outcome))) by {
        lemma_unchanged_history(app, after_chat(app, outcome));
    }
    assert(keeps_history(app, app.open_answer())) by {
        lemma_unchanged_history(app, app.open_answer());
    }
    assert(keeps_history(app, stream.open(app).1)) by {
        lemma_unchanged_history(app, stream.open(app).1);
    }
    assert(keeps_history(app, stream.on_poll(app, poll).app)) by {
        let after = stream.on_poll(app, poll).app;
        assert forall|i: int| 0 <= i < app.messages.len() implies {
            &&& (#[trigger] after.messages[i]).role == app.messages[i].role
            &&& app.messages[i].content.is_prefix_of(after.messages[i].content)
            &&& app.open_turn != Some(i as nat) ==> after.messages[i] == app.messages[i]
        } by {
            assert(app.messages[i].content.is_prefix_of(app.messages[i].content));
            if let StreamPollView::Fragment(f) = poll {
                if let Some(t) = f.text() {
                    assert(app.messages[i].content.is_prefix_of(app.messages[i].content + t));
                }
            }
        }
    }
}

proof fn lemma_same_history(before: AppView, after: AppView)
    requires
        after.messages == before.messages,
    ensures
        keeps_history(before, after),
{
    lemma_unchanged_history(before, after);
}

proof fn lemma_unchanged_history(before: AppView, after: AppView)
    requires
        after.messages.len() >= before.messages.len(),
        forall|i: int| 0 <= i < before.messages.len() ==> after.messages[i] == before.messages[i],
    ensures
        keeps_history(before, after),
{
    assert forall|i: int| 0 <= i < before.messages.len() implies before.messages[i].content.is_prefix_of(
        (#[trigger] after.messages[i]).content,
    ) by {
        assert(before.messages[i].content.is_prefix_of(before.messages[i].content));
    }
}

/// A report of a background task changes nothing that was there: the
/// turns stay as they were, the input and the model too. A notice adds one
/// turn at the end; a status adds none.
pub proof fn law_events_keep_history(app: AppView, event: AppEventView)
    ensures
        app.apply_event(event).messages.take(app.messages.len() as int) == app.messages,
        app.apply_event(event).input == app.input,
        app.apply_event(event).model == app.model,
        app.apply_event(event).open_turn == app.open_turn,
        event is Status ==> app.apply_event(event).messages == app.messages,
        event is System ==> app.apply_event(event).messages.len() == app.messages.len() + 1,
{
    assert(app.apply_event(event).messages.take(app.messages.len() as int) =~= app.messages);
}

/// To `touch` a file again changes nothing: what `touch` does and reports
/// depends on the path alone, not on the files nor on the conversation, and
/// after the first run a second leaves every file as it is. The file then
/// exists and is empty.
pub proof fn law_touch_is_idempotent(files: Files, path: Seq<char>)
    ensures
        ({
            let plan = (ToolCommandView::Touch { path }).plan(Seq::empty())->0;
            let once = apply_ops(files, plan.ops);
            let twice = apply_ops(once, plan.ops);
            &&& (ToolCommandView::Touch { path }).plan(Seq::empty()) is Some
            &&& plan.message == "文件已创建"@
            &&& once.contains_key(path)
            &&& once[path] == Seq::<char>::empty()
            &&& twice == once
            &&& finished_events(Ok(plan.message)) == seq![
                AppEventView::System("文件已创建"@),
                AppEventView::Status(crate::tui::StatusView::Idle),
            ]
        }),
{
    let plan = (ToolCommandView::Touch { path }).plan(Seq::empty())->0;
    let ops = plan.ops;
    assert(ops.drop_last() =~= Seq::<FileOpView>::empty());
    assert(apply_ops(files, ops.drop_last()) == files);
    let once = apply_ops(files, ops);
    assert(once == files.insert(path, Seq::empty()));
    assert(apply_ops(once, ops.drop_last()) == once);
    assert(apply_ops(once, ops) =~= once);
}

/// A key that is not empty is shown at its own length, and of a key of
/// more than six characters only the first three and the last three are
/// shown: every character between them is an asterisk.
pub proof fn law_mask_hides_the_key(key: Seq<char>)
    requires
        key.len() > 0,
    ensures
        masked(key).len() == key.len(),
        key.len() <= 6 ==> forall|i: int| 0 <= i < key.len() ==> masked(key)[i] == '*',
        key.len() > 6 ==> forall|i: int| 3 <= i < key.len() - 3 ==> masked(key)[i] == '*',
        key.len() > 6 ==> forall|i: int|
            0 <= i < 3 || key.len() - 3 <= i < key.len() ==> masked(key)[i] == key[i],
{
}

/// An insertion is never outside the text, and adds exactly the content:
/// what stood before the offset stays before it, what stood after it
/// follows the content.
pub proof fn law_edit_inserts_in_place(text: Seq<char>, line: int, col: int, content: Seq<char>)
    requires
        0 <= col,
    ensures
        0 <= edit_offset(text, line, col) <= text.len(),
        edited(text, line, col, content).len() == text.len() + content.len(),
        ({
            let at = edit_offset(text, line, col);
            let out = edited(text, line, col, content);
            &&& out.take(at) == text.take(at)
            &&& out.subrange(at, at + content.len()) == content
            &&& out.skip(at + content.len()) == text.skip(at)
        }),
{
    let ls = lines(text);
    lemma_span_sign(ls);
    if 1 <= line <= ls.len() {
        lemma_span_sign(ls.take(line - 1));
    }
    let at = edit_offset(text, line, col);
    let out = edited(text, line, col, content);
    assert(out.take(at) =~= text.take(at));
    assert(out.subrange(at, at + content.len()) =~= content);
    assert(out.skip(at + content.len()) =~= text.skip(at));
}

proof fn lemma_span_sign(ls: Seq<Seq<char>>)
    ensures
        0 <= span(ls),
    decreases ls.len(),
{
    if ls.len() > 0 {
        lemma_span_sign(ls.drop_last());
    }
}

/// A number that is written in decimal is read back as itself.
pub proof fn law_decimal_is_read_back(n: usize)
    ensures
        parse_number(decimal(n as nat)) == Some(n),
{
    lemma_decimal_digits(n as nat);
    let s = decimal(n as nat);
    assert(is_digit(s[0]));
    assert(unsigned_part(s) == s);
}

proof fn lemma_decimal_digits(n: nat)
    ensures
        decimal(n).len() >= 1,
        all_digits(decimal(n)),
        digits_value(decimal(n)) == n,
    decreases n,
{
    if n < 10 {
        let s = decimal(n);
        assert(s.drop_last() =~= Seq::<char>::empty());
        assert(digits_value(s.drop_last()) == 0);
        assert(is_digit(digit(n as int)) && digit_value(digit(n as int)) == n);
        assert(digits_value(s) == n);
    } else {
        lemma_decimal_digits(n / 10);
        let d = digit((n % 10) as int);
        assert(is_digit(d) && digit_value(d) == n % 10);
        lemma_digits_value_push(decimal(n / 10), d);
    }
}

/// A word is never empty and holds no white space.
pub proof fn law_words_hold_no_white_space(s: Seq<char>)
    ensures
        forall|n: int| 0 <= n < words(s).len() ==> is_word(#[trigger] words(s)[n]),
{
    lemma_words_from(s, 0);
}

proof fn lemma_words_from(s: Seq<char>, i: int)
    requires
        0 <= i <= s.len(),
    ensures
        forall|n: int| 0 <= n < words_from(s, i).len() ==> is_word(#[trigger] words_from(s, i)[n]),
    decreases s.len() - i,
{
    if i < s.len() {
        if is_space(s[i]) {
            lemma_words_from(s, i + 1);
            assert(words_from(s, i) == words_from(s, i + 1));
        } else {
            lemma_word_end(s, i);
            let e = word_end(s, i);
            lemma_words_from(s, e);
            let word = s.subrange(i, e);
            let rest = words_from(s, e);
            assert(is_word(word)) by {
                assert forall|k: int| 0 <= k < word.len() implies !is_space(#[trigger] word[k]) by {
                    assert(word[k] == s[i + k]);
                }
            }
            assert(words_from(s, i) == seq![word] + rest);
            assert forall|n: int| 0 <= n < words_from(s, i).len() implies is_word(
                #[trigger] words_from(s, i)[n],
            ) by {
                if n == 0 {
                    assert(words_from(s, i)[0] == word);
                } else {
                    assert(words_from(s, i)[n] == rest[n - 1]);
                }
            }
        }
    }
}

/// What is left of a line after trimming neither starts nor ends with
/// white space, and all that was taken away is white space.
pub proof fn law_trimmed_ends_without_white_space(s: Seq<char>)
    ensures
        trimmed(s).len() > 0 ==> !is_space(trimmed(s)[0]) && !is_space(trimmed(s).last()),
        trimmed(s).len() > 0 ==> trimmed(s) == s.subrange(skip_spaces(s, 0), trim_end(s)),
        forall|k: int| 0 <= k < skip_spaces(s, 0) && k < s.len() ==> is_space(s[k]),
        forall|k: int| trim_end(s) <= k < s.len() ==> is_space(s[k]),
        trimmed(s).len() == 0 ==> forall|k: int| 0 <= k < s.len() ==> is_space(s[k]),
{
    lemma_skip_spaces(s, 0);
    lemma_trim_end(s);
    let from = skip_spaces(s, 0);
    let to = trim_end(s);
    if from < to {
        assert(trimmed(s)[0] == s[from]);
        assert(trimmed(s).last() == s[to - 1]);
    } else {
        assert forall|k: int| 0 <= k < s.len() implies is_space(s[k]) by {
            if k < from {
            } else {
                assert(to <= k);
            }
        }
    }
}

/// The split at the first blank loses nothing but that blank: what stands
/// before it holds no blank, and the two parts with a blank between them
/// are the whole. A text without a blank is all before it.
pub proof fn law_blank_splits_in_two(s: Seq<char>)
    ensures
        forall|k: int| 0 <= k < before_blank(s).len() ==> before_blank(s)[k] != ' ',
        first_blank(s, 0) < s.len() ==> s == before_blank(s).push(' ') + after_blank(s),
        first_blank(s, 0) >= s.len() ==> s == before_blank(s) && after_blank(s).len() == 0,
{
    lemma_first_blank(s, 0);
    let at = first_blank(s, 0);
    if at < s.len() {
        assert(s =~= before_blank(s).push(' ') + after_blank(s));
    } else {
        assert(s =~= before_blank(s));
    }
}

/// No line holds a line feed.
pub proof fn law_lines_hold_no_line_feed(s: Seq<char>)
    ensures
        forall|n: int| 0 <= n < lines(s).len() ==> is_line(#[trigger] lines(s)[n]),
{
    lemma_lines_from(s, 0);
}

proof fn lemma_lines_from(s: Seq<char>, i: int)
    requires
        0 <= i <= s.len(),
    ensures
        forall|n: int| 0 <= n < lines_from(s, i).len() ==> is_line(#[trigger] lines_from(s, i)[n]),
    decreases s.len() - i,
{
    if i < s.len() {
        lemma_line_end(s, i);
        lemma_lines_step(s, i);
        let e = line_end(s, i);
        let body = line_body(s, i, e);
        let rest = lines_from(s, e + 1);
        if e < s.len() {
            lemma_lines_from(s, e + 1);
        }
        assert(is_line(body)) by {
            assert forall|k: int| 0 <= k < body.len() implies #[trigger] body[k] != '\n' by {
                assert(body[k] == s[i + k]);
            }
        }
        assert forall|n: int| 0 <= n < lines_from(s, i).len() implies is_line(
            #[trigger] lines_from(s, i)[n],
        ) by {
            if n == 0 {
                assert(lines_from(s, i)[0] == body);
            } else {
                assert(lines_from(s, i)[n] == rest[n - 1]);
            }
        }
    }
}

/// How far a phase is along the way of a stream.
pub open spec fn phase_rank(phase: StreamPhase) -> int {
    match phase {
        StreamPhase::NoStream => 0,
        StreamPhase::Open => 1,
        StreamPhase::Draining => 2,
        StreamPhase::Closed => 3,
    }
}

/// A stream only moves forward: a look at it never takes it back to an
/// earlier phase. A look opens neither the stream nor a turn, and once the
/// stream is closed nothing changes any more, in the stream or, by a look,
/// in the conversation.
pub proof fn law_stream_only_advances(
    stream: StreamAccumulatorView,
    app: AppView,
    poll: StreamPollView,
)
    ensures
        phase_rank(stream.on_poll(app, poll).stream.phase) >= phase_rank(stream.phase),
        stream.on_poll(app, poll).app.open_turn == app.open_turn || stream.on_poll(
            app,
            poll,
        ).app.open_turn is None,
        stream.phase == StreamPhase::NoStream || stream.phase == StreamPhase::Closed ==> {
            &&& stream.on_poll(app, poll).stream == stream
            &&& stream.on_poll(app, poll).app == app
            &&& stream.on_poll(app, poll).action == Some(StreamAction::Stop)
        },
        stream.on_poll(app, poll).action is None ==> stream.on_poll(app, poll).stream.phase
            == StreamPhase::Closed,
        stream.on_poll(app, poll).stream.merged is None ==> stream.merged is None,
{
}

/// The search after the entries `entries` were looked at, in order.
pub open spec fn after_visits<D>(walk: FindWalkView<D>, entries: Seq<EntryView<D>>) -> FindWalkView<
    D,
>
    decreases entries.len(),
{
    if entries.len() == 0 {
        walk
    } else {
        after_visits(walk, entries.drop_last()).visit(entries.last())
    }
}

/// Whether `entry` is a file whose name holds `pattern`.
pub open spec fn is_match<D>(pattern: Seq<char>, entry: EntryView<D>) -> bool {
    entry matches EntryView::File { name: Some(n), .. } && occurs_in(pattern, n)
}

/// The paths of the files among `entries` whose name holds `pattern`, in
/// order.
pub open spec fn matching_paths<D>(pattern: Seq<char>, entries: Seq<EntryView<D>>) -> Seq<
    Seq<char>,
>
    decreases entries.len(),
{
    if entries.len() == 0 {
        Seq::empty()
    } else {
        let before = matching_paths(pattern, entries.drop_last());
        match entries.last() {
            EntryView::File { path, .. } => if is_match(pattern, entries.last()) {
                before.push(path)
            } else {
                before
            },
            EntryView::Directory(_) => before,
        }
    }
}

/// The directories among `entries`, in order.
pub open spec fn directories<D>(entries: Seq<EntryView<D>>) -> Seq<D>
    decreases entries.len(),
{
    if entries.len() == 0 {
        Seq::empty()
    } else {
        let before = directories(entries.drop_last());
        match entries.last() {
            EntryView::Directory(d) => before.push(d),
            EntryView::File { .. } => before,
        }
    }
}

/// A search finds exactly the files whose name holds the pattern, in the
/// order in which it comes by them, and puts off exactly the directories.
pub proof fn law_search_finds_exactly_the_matches<D>(
    walk: FindWalkView<D>,
    entries: Seq<EntryView<D>>,
)
    ensures
        after_visits(walk, entries).pattern == walk.pattern,
        after_visits(walk, entries).found == walk.found + matching_paths(walk.pattern, entries),
        after_visits(walk, entries).pending == walk.pending + directories(entries),
    decreases entries.len(),
{
    if entries.len() == 0 {
        assert(walk.found + Seq::<Seq<char>>::empty() =~= walk.found);
        assert(walk.pending + Seq::<D>::empty() =~= walk.pending);
    } else {
        law_search_finds_exactly_the_matches(walk, entries.drop_last());
        let before = after_visits(walk, entries.drop_last());
        let end = after_visits(walk, entries);
        assert(end.found =~= walk.found + matching_paths(walk.pattern, entries));
        assert(end.pending =~= walk.pending + directories(entries));
    }
}

/// A move takes its block out of the source as it stands there: with the
/// block put back between the lines before it and the lines after it, the
/// source is whole again, each of its lines followed by a line feed. This
/// is said of a range that is not empty; the block of an empty range is
/// one line feed.
pub proof fn law_move_takes_the_block_out(src: Seq<char>, start_line: int, end_line: int)
    requires
        0 <= start_line,
        0 <= end_line,
    ensures
        ({
            let ls = lines(src);
            let range = move_range(ls.len() as int, start_line, end_line);
            let block = moved_block(src, start_line, end_line);
            &&& 0 <= range.0 <= range.1 <= ls.len()
            &&& source_after_move(src, start_line, end_line) == terminated(ls.take(range.0))
                + terminated(ls.skip(range.1))
            &&& range.0 < range.1 ==> terminated(ls) == terminated(ls.take(range.0)) + block
                + terminated(ls.skip(range.1))
            &&& range.0 == range.1 ==> block == seq!['\n'] && source_after_move(
                src,
                start_line,
                end_line,
            ) == terminated(ls)
        }),
{
    let ls = lines(src);
    let range = move_range(ls.len() as int, start_line, end_line);
    let (a, b) = range;
    lemma_terminated_add(ls.take(a), ls.skip(b));
    if a < b {
        lemma_join_terminated(ls.subrange(a, b));
        lemma_terminated_add(ls.take(a), ls.subrange(a, b));
        lemma_terminated_add(ls.take(a) + ls.subrange(a, b), ls.skip(b));
        assert(ls.take(a) + ls.subrange(a, b) + ls.skip(b) =~= ls);
    } else {
        assert(ls.subrange(a, b) =~= Seq::<Seq<char>>::empty());
        assert(ls.take(a) + ls.skip(b) =~= ls);
        assert(moved_block(src, start_line, end_line) =~= seq!['\n']);
    }
}

proof fn lemma_join_terminated(ls: Seq<Seq<char>>)
    requires
        ls.len() > 0,
    ensures
        join(ls, seq!['\n']).push('\n') == terminated(ls),
    decreases ls.len(),
{
    if ls.len() == 1 {
        assert(ls.drop_last() =~= Seq::<Seq<char>>::empty());
        assert(terminated(ls.drop_last()) =~= Seq::<char>::empty());
        assert(terminated(ls) =~= ls[0].push('\n'));
    } else {
        lemma_join_terminated(ls.drop_last());
        assert(join(ls, seq!['\n']).push('\n') =~= terminated(ls));
    }
}

} // verus!
