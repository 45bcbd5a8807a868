//! Smaller promises: what is told of subagents, how a change is headed, what a task gives back, the
//! characters that bytes are written with, and what a request for an answer sends.
use crate::event::EventModel;
use crate::request::with_title_instruction;
use crate::session::one_line;
use crate::subagent::{AgentRole, TaskModel};
use crate::turn_executor::TurnModel;
use crate::ui::base64::{encoded, quad, symbol};
use crate::ui::diff::heading_lines;
use crate::ui::state::AppModel;
use crate::ui::status::first_lines;
use crate::ui::style::{Color, Style};
use crate::ui::width::text_columns;
use crate::ui::wrap::{at_least_one, chunks};
use crate::words::shortened;
use vstd::prelude::*;

verus! {

/// What a subagent was given is told when it starts, on one line. What it found is told when it
/// ends, where it found anything; the transcript and the prompts stay as they are.
pub proof fn law_subagents_are_told(
    state: AppModel,
    now: u64,
    shown: Seq<char>,
    event: EventModel,
)
    ensures
        event is SubagentStarted ==> state.on_event(event, now, shown).status
            == "Subagent running: "@ + shortened(one_line(event->SubagentStarted_task), 96)
            + "..."@,
        event is SubagentCompleted && first_lines(event->SubagentCompleted_result, 3, 240).len() > 0
            ==> state.on_event(event, now, shown) == (AppModel {
            status: "Subagent completed: "@ + first_lines(
                event->SubagentCompleted_result,
                3,
                240,
            ),
            ..state
        }),
        event is SubagentCompleted && first_lines(event->SubagentCompleted_result, 3, 240).len()
            == 0 ==> state.on_event(event, now, shown) == state,
{
    reveal(AppModel::on_event);
}

/// A change is headed by a dot, the operation and the target in brackets, on one line where that
/// fits. Where it does not fit the same text is broken.
pub proof fn law_headings_name_operation_and_target(
    operation: Seq<char>,
    target: Seq<char>,
    width: u16,
    i: int,
)
    ensures
        ({
            let full = "● "@ + operation + ("("@ + target + ")"@);
            let shown = heading_lines(operation, target, width);
            &&& text_columns(full) <= width ==> {
                &&& shown.len() == 1
                &&& shown[0].len() == 3
                &&& shown[0][0].content == "● "@
                &&& shown[0][0].style.fg == Some(Color::Green)
                &&& shown[0][1].content == operation
                &&& shown[0][1].style.bold
                &&& shown[0][2].content == "("@ + target + ")"@
                &&& shown[0][2].style == Style::normal()
            }
            &&& text_columns(full) > width ==> {
                &&& shown.len() == chunks(full, width as usize).len()
                &&& 0 <= i < shown.len() ==> shown[i].len() == 1 && shown[i][0].content == chunks(
                    full,
                    width as usize,
                )[i] && shown[i][0].style.bold
            }
        }),
{
}

/// A task that gives back its place and its turn holds neither, and is otherwise unchanged.
pub proof fn law_released_tasks_hold_nothing(task: TaskModel)
    ensures
        ({
            let after = task.released();
            &&& !after.has_place
            &&& !after.has_worker_turn
            &&& after.id == task.id
            &&& after.task == task.task
            &&& after.role == task.role
            &&& after.status == task.status
            &&& after.model == task.model
            &&& after.reasoning_effort == task.reasoning_effort
            &&& after.result == task.result
            &&& after.error == task.error
            &&& after.usage == task.usage
            &&& after.collected == task.collected
        }),
{
}

/// A task that is given a place runs in it, and is otherwise unchanged.
pub proof fn law_placed_tasks_run(task: TaskModel)
    ensures
        task.placed().has_place,
        task.placed().status is Running,
        task.placed().has_worker_turn == task.has_worker_turn,
        task.placed().id == task.id,
        task.placed().task == task.task,
        task.placed().role == task.role,
        task.placed().model == task.model,
        task.placed().result == task.result,
        task.placed().error == task.error,
        task.placed().collected == task.collected,
{
}

/// Explorers are told to change nothing, and workers to do what they were given.
pub proof fn law_roles_have_their_orders()
    ensures
        AgentRole::Explorer.prompt()
            == "You are a read-only code explorer. Inspect the workspace using available tools, do not modify anything, and return concise evidence-backed findings."@,
        AgentRole::Worker.prompt()
            == "You are a coding worker. Complete the assigned task using available tools, respect all permission and review prompts, verify the result, and return a concise summary."@,
{
}

/// Text is broken at the width that was asked for, which is taken for one where it is none.
pub proof fn law_no_width_is_one(width: usize)
    ensures
        width > 0 ==> at_least_one(width) == width,
        width == 0 ==> at_least_one(width) == 1,
{
}

/// Bytes are written with the capital letters first, the small ones next, and then the digits, a
/// plus and a slash.
pub proof fn law_symbols_are_in_order(n: nat)
    ensures
        symbol(0) == 'A' && symbol(26) == 'a' && symbol(52) == '0',
        symbol(62) == '+' && symbol(63) == '/',
        0 < n < 26 || 26 < n < 52 || 52 < n < 62 ==> symbol(n) as nat == symbol(
            (n - 1) as nat,
        ) as nat + 1,
{
}

proof fn lemma_same_digits(a: int, b: int, c: int, d: int, w: int, x: int, y: int, z: int)
    requires
        0 <= a < 64 && 0 <= b < 64 && 0 <= c < 64 && 0 <= d < 64,
        0 <= w < 64 && 0 <= x < 64 && 0 <= y < 64 && 0 <= z < 64,
        a * 262144 + b * 4096 + c * 64 + d == w * 262144 + x * 4096 + y * 64 + z,
    ensures
        a == w && b == x && c == y && d == z,
{
    assert(a == w);
    assert(b == x);
    assert(c == y);
}

proof fn lemma_sixes(p: int, q: int, r: int)
    requires
        0 <= p < 256 && 0 <= q < 256 && 0 <= r < 256,
    ensures
        (p / 4) * 262144 + ((p % 4) * 16 + q / 16) * 4096 + ((q % 16) * 4 + r / 64) * 64 + r % 64
            == p * 65536 + q * 256 + r,
        0 <= p / 4 < 64 && 0 <= (p % 4) * 16 + q / 16 < 64 && 0 <= (q % 16) * 4 + r / 64 < 64,
{
    assert(p == (p / 4) * 4 + p % 4);
    assert(q == (q / 16) * 16 + q % 16);
    assert(r == (r / 64) * 64 + r % 64);
}

/// Three bytes are written as four symbols: the bits of the bytes, first ones first, in sixes. What
/// is missing of the three is marked at the end.
pub proof fn law_bits_are_written_in_sixes(bytes: Seq<u8>, a: nat, b: nat, c: nat, d: nat)
    requires
        a < 64 && b < 64 && c < 64 && d < 64,
    ensures
        bytes.len() == 3 && bytes[0] * 65536 + bytes[1] * 256 + bytes[2] == a * 262144 + b * 4096
            + c * 64 + d ==> encoded(bytes) == seq![symbol(a), symbol(b), symbol(c), symbol(d)],
        bytes.len() == 2 && bytes[0] * 65536 + bytes[1] * 256 == a * 262144 + b * 4096 + c * 64
            ==> encoded(bytes) == seq![symbol(a), symbol(b), symbol(c), '='],
        bytes.len() == 1 && bytes[0] * 65536 == a * 262144 + b * 4096 ==> encoded(bytes) == seq![
            symbol(a),
            symbol(b),
            '=',
            '=',
        ],
        bytes.len() > 3 ==> encoded(bytes) == encoded(bytes.take(3)) + encoded(bytes.skip(3)),
{
    if bytes.len() > 3 {
        assert(encoded(bytes.take(3)) == quad(bytes.take(3)));
    } else if bytes.len() > 0 {
        let p = bytes[0] as int;
        let q = if bytes.len() > 1 {
            bytes[1] as int
        } else {
            0
        };
        let r = if bytes.len() > 2 {
            bytes[2] as int
        } else {
            0
        };
        let third = if bytes.len() > 1 {
            c as int
        } else {
            0
        };
        let fourth = if bytes.len() > 2 {
            d as int
        } else {
            0
        };
        lemma_sixes(p, q, r);
        if p * 65536 + q * 256 + r == a * 262144 + b * 4096 + third * 64 + fourth {
            lemma_same_digits(
                a as int,
                b as int,
                third,
                fourth,
                p / 4,
                (p % 4) * 16 + q / 16,
                (q % 16) * 4 + r / 64,
                r % 64,
            );
            assert(encoded(bytes) == quad(bytes));
        }
    }
}

/// The instruction for a title is sent only while a title is waited for; the conversation itself is
/// sent otherwise.
pub proof fn law_titles_are_asked_for_once(turn: TurnModel)
    ensures
        turn.state.session_title_pending ==> turn.request_messages() == with_title_instruction(
            turn.state.messages,
        ),
        !turn.state.session_title_pending ==> turn.request_messages() == turn.state.messages,
{
}

} // verus!
