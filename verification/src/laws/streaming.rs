//! What becomes of a streamed response.
use crate::json::{json_model, parsed_json, Json};
use crate::stream::{
    drop_call, emitted, find_call, find_index, lemma_drop_call_finds, lemma_put_call_finds, merged,
    put_call, put_index, AccumulatorModel, OpenCall,
};
use crate::llm_response::whole_text;
use crate::types::{FinishReason, ResponseBlockModel, StreamDeltaModel};
use serde_json::Value;
use vstd::prelude::*;

verus! {

/// Whether no two open calls share an id.
pub open spec fn distinct_calls(open: Seq<OpenCall>) -> bool {
    forall|i: int, j: int|
        0 <= i < j < open.len() ==> #[trigger] open[i].id != #[trigger] open[j].id
}

proof fn lemma_rest_is_distinct(open: Seq<OpenCall>)
    requires
        distinct_calls(open),
        open.len() > 0,
    ensures
        distinct_calls(open.drop_first()),
        forall|i: int| 0 < i < open.len() ==> #[trigger] open[i].id != open[0].id,
{
    let rest = open.drop_first();
    assert forall|i: int, j: int| 0 <= i < j < rest.len() implies #[trigger] rest[i].id
        != #[trigger] rest[j].id by {
        assert(open[i + 1].id != open[j + 1].id);
    }
}

proof fn lemma_calls_by_place(open: Seq<OpenCall>, k: int, call: OpenCall)
    requires
        distinct_calls(open),
        0 <= k < open.len(),
        call.id == open[k].id,
    ensures
        find_call(open, open[k].id) == Some(open[k]),
        put_call(open, call) == open.update(k, call),
        drop_call(open, call.id) == open.remove(k),
    decreases open.len(),
{
    let rest = open.drop_first();
    lemma_rest_is_distinct(open);
    if k > 0 {
        assert(open[k].id != open[0].id);
        assert(rest[k - 1] == open[k]);
        lemma_calls_by_place(rest, k - 1, call);
        assert(seq![open[0]] + rest.update(k - 1, call) =~= open.update(k, call));
        assert(seq![open[0]] + rest.remove(k - 1) =~= open.remove(k));
    } else {
        assert(seq![call] + rest =~= open.update(0, call));
        lemma_absent_call(rest, call);
        assert(rest =~= open.remove(0));
    }
}

proof fn lemma_absent_call(open: Seq<OpenCall>, call: OpenCall)
    requires
        forall|i: int| 0 <= i < open.len() ==> #[trigger] open[i].id != call.id,
    ensures
        find_call(open, call.id) is None,
        put_call(open, call) == open.push(call),
        drop_call(open, call.id) == open,
    decreases open.len(),
{
    if open.len() > 0 {
        let rest = open.drop_first();
        assert forall|i: int| 0 <= i < rest.len() implies #[trigger] rest[i].id != call.id by {
            assert(open[i + 1].id != call.id);
        }
        assert(open[0].id != call.id);
        lemma_absent_call(rest, call);
        assert(seq![open[0]] + rest.push(call) =~= open.push(call));
        assert(seq![open[0]] + rest =~= open);
    } else {
        assert(seq![call] =~= open.push(call));
        assert(drop_call(open, call.id) =~= open);
    }
}

proof fn lemma_started_calls_are_distinct(open: Seq<OpenCall>, call: OpenCall)
    requires
        distinct_calls(open),
    ensures
        distinct_calls(put_call(open, call)),
{
    if exists|k: int| 0 <= k < open.len() && #[trigger] open[k].id == call.id {
        let k = choose|k: int| 0 <= k < open.len() && #[trigger] open[k].id == call.id;
        lemma_calls_by_place(open, k, call);
        let after = open.update(k, call);
        assert forall|i: int, j: int| 0 <= i < j < after.len() implies #[trigger] after[i].id
            != #[trigger] after[j].id by {
            assert(open[i].id != open[j].id);
        }
    } else {
        lemma_absent_call(open, call);
    }
}

proof fn lemma_closed_calls_are_distinct(open: Seq<OpenCall>, id: Seq<char>)
    requires
        distinct_calls(open),
    ensures
        distinct_calls(drop_call(open, id)),
{
    let call = OpenCall { id, name: Seq::empty(), input_json: Seq::empty() };
    if exists|k: int| 0 <= k < open.len() && #[trigger] open[k].id == id {
        let k = choose|k: int| 0 <= k < open.len() && #[trigger] open[k].id == id;
        lemma_calls_by_place(open, k, call);
        let after = open.remove(k);
        assert forall|i: int, j: int| 0 <= i < j < after.len() implies #[trigger] after[i].id
            != #[trigger] after[j].id by {
            let a = if i < k { i } else { i + 1 };
            let b = if j < k { j } else { j + 1 };
            assert(open[a].id != open[b].id);
        }
    } else {
        lemma_absent_call(open, call);
    }
}

/// A call that is open is open once.
pub proof fn law_open_calls_are_distinct(m: AccumulatorModel, delta: StreamDeltaModel)
    requires
        distinct_calls(m.open),
    ensures
        distinct_calls(m.step(delta).0.open),
    decreases delta,
{
    match delta {
        StreamDeltaModel::ToolUseStart { id, name, index, input_delta } => {
            let input_json = match input_delta {
                Some(input) => input,
                None => Seq::empty(),
            };
            lemma_started_calls_are_distinct(m.open, OpenCall { id, name, input_json });
        },
        StreamDeltaModel::ToolUseInput { id, index, input_delta } => {
            if let Some(target) = m.resolve(id, index) {
                if let Some(call) = find_call(m.open, target) {
                    lemma_started_calls_are_distinct(
                        m.open,
                        OpenCall { input_json: call.input_json + input_delta, ..call },
                    );
                }
            }
        },
        StreamDeltaModel::ToolUseEnd { id, index } => {
            if let Some(target) = m.resolve(id, index) {
                lemma_closed_calls_are_distinct(m.open, target);
            }
        },
        StreamDeltaModel::Batch(deltas) => lemma_batched_calls_are_distinct(m, deltas, None),
        _ => {},
    }
}

proof fn lemma_batched_calls_are_distinct(
    m: AccumulatorModel,
    deltas: Seq<StreamDeltaModel>,
    first: Option<ResponseBlockModel>,
)
    requires
        distinct_calls(m.open),
    ensures
        distinct_calls(m.batch(deltas, first).0.open),
    decreases deltas,
{
    if deltas.len() > 0 {
        law_open_calls_are_distinct(m, deltas[0]);
        let (next, block) = m.step(deltas[0]);
        let rest = deltas.subrange(1, deltas.len() as int);
        match (block, first) {
            (Some(block), Some(_)) => lemma_batched_calls_are_distinct(
                next.push(block),
                rest,
                first,
            ),
            (Some(_), None) => lemma_batched_calls_are_distinct(next, rest, block),
            (None, _) => lemma_batched_calls_are_distinct(next, rest, first),
        }
    }
}

/// A piece of input goes behind the pieces that its call has, and changes nothing else: not the
/// other calls, not the text, not what is due to come out.
pub proof fn law_input_goes_behind_the_input(
    m: AccumulatorModel,
    k: int,
    id: Seq<char>,
    index: Option<usize>,
    piece: Seq<char>,
)
    requires
        distinct_calls(m.open),
        0 <= k < m.open.len(),
        m.resolve(id, index) == Some(m.open[k].id),
    ensures
        ({
            let (next, block) = m.step(
                StreamDeltaModel::ToolUseInput { id, index, input_delta: piece },
            );
            &&& block is None
            &&& next.open.len() == m.open.len()
            &&& next.open[k].id == m.open[k].id
            &&& next.open[k].name == m.open[k].name
            &&& next.open[k].input_json == m.open[k].input_json + piece
            &&& forall|j: int|
                0 <= j < m.open.len() && j != k ==> #[trigger] next.open[j] == m.open[j]
            &&& next.text == m.text
            &&& next.reasoning == m.reasoning
            &&& next.metadata == m.metadata
            &&& next.indices == m.indices
            &&& next.active == m.active
            &&& next.pending == m.pending
        }),
{
    let call = OpenCall { input_json: m.open[k].input_json + piece, ..m.open[k] };
    lemma_calls_by_place(m.open, k, call);
}

/// How an input is divided into pieces does not matter: two pieces give what they give as one.
pub proof fn law_divided_input_is_put_together(
    m: AccumulatorModel,
    k: int,
    id: Seq<char>,
    index: Option<usize>,
    a: Seq<char>,
    b: Seq<char>,
)
    requires
        distinct_calls(m.open),
        0 <= k < m.open.len(),
        m.resolve(id, index) == Some(m.open[k].id),
    ensures
        m.step(StreamDeltaModel::ToolUseInput { id, index, input_delta: a }).0.step(
            StreamDeltaModel::ToolUseInput { id, index, input_delta: b },
        ) == m.step(StreamDeltaModel::ToolUseInput { id, index, input_delta: a + b }),
{
    let one = m.step(StreamDeltaModel::ToolUseInput { id, index, input_delta: a }).0;
    let all = m.step(StreamDeltaModel::ToolUseInput { id, index, input_delta: a + b }).0;
    law_input_goes_behind_the_input(m, k, id, index, a);
    law_open_calls_are_distinct(m, StreamDeltaModel::ToolUseInput { id, index, input_delta: a });
    assert(one.resolve(id, index) == m.resolve(id, index));
    law_input_goes_behind_the_input(one, k, id, index, b);
    law_input_goes_behind_the_input(m, k, id, index, a + b);
    let two = one.step(StreamDeltaModel::ToolUseInput { id, index, input_delta: b }).0;
    assert(m.open[k].input_json + a + b =~= m.open[k].input_json + (a + b));
    assert(two.open[k] =~= all.open[k]);
    assert(two.open =~= all.open);
    assert(two =~= all);
}

/// A call that ends comes out behind all that was due before it, with its id, its name and the
/// value that the whole of its input stands for; the other calls stay open as they are.
pub proof fn law_ended_calls_come_out_whole(
    m: AccumulatorModel,
    k: int,
    id: Seq<char>,
    index: Option<usize>,
)
    requires
        distinct_calls(m.open),
        0 <= k < m.open.len(),
        m.resolve(id, index) == Some(m.open[k].id),
    ensures
        ({
            let (next, block) = m.step(StreamDeltaModel::ToolUseEnd { id, index });
            &&& emitted(block) + next.pending == m.pending.push(
                ResponseBlockModel::ToolUse {
                    id: m.open[k].id,
                    name: m.open[k].name,
                    input: parsed_json(m.open[k].input_json),
                },
            )
            &&& next.open.len() == m.open.len() - 1
            &&& forall|j: int| 0 <= j < k ==> #[trigger] next.open[j] == m.open[j]
            &&& forall|j: int| k <= j < next.open.len() ==> #[trigger] next.open[j] == m.open[j + 1]
            &&& next.text == m.text
            &&& next.reasoning == m.reasoning
        }),
{
    lemma_calls_by_place(m.open, k, m.open[k]);
    let (next, block) = m.step(StreamDeltaModel::ToolUseEnd { id, index });
    let due = m.pending.push(
        ResponseBlockModel::ToolUse {
            id: m.open[k].id,
            name: m.open[k].name,
            input: parsed_json(m.open[k].input_json),
        },
    );
    assert(emitted(block) + next.pending =~= due);
}

proof fn lemma_put_index_finds(
    indices: Seq<(usize, Seq<char>)>,
    index: usize,
    id: Seq<char>,
    other: usize,
)
    ensures
        find_index(put_index(indices, index, id), other) == (if other == index {
            Some(id)
        } else {
            find_index(indices, other)
        }),
    decreases indices.len(),
{
    reveal_with_fuel(find_index, 2);
    let put = put_index(indices, index, id);
    if indices.len() == 0 {
        assert(put.drop_first() =~= Seq::empty());
    } else if indices[0].0 == index {
        assert(put.drop_first() =~= indices.drop_first());
    } else {
        lemma_put_index_finds(indices.drop_first(), index, id, other);
        assert(put.drop_first() =~= put_index(indices.drop_first(), index, id));
    }
}

/// A delta belongs to the call that it names. One that names none belongs to the call that was
/// started under its index, and one without a known index to the call that was started last.
pub proof fn law_deltas_find_their_call(
    m: AccumulatorModel,
    id: Seq<char>,
    name: Seq<char>,
    index: Option<usize>,
    input: Option<Seq<char>>,
    named: Seq<char>,
    other: Option<usize>,
)
    ensures
        ({
            let next = m.step(
                StreamDeltaModel::ToolUseStart { id, name, index, input_delta: input },
            ).0;
            let none = Seq::<char>::empty();
            &&& named.len() > 0 ==> m.resolve(named, other) == Some(named)
            &&& index is Some ==> next.resolve(none, index) == Some(id)
            &&& next.resolve(none, None) == Some(id)
            &&& other is Some && other != index ==> next.resolve(none, other) == match find_index(
                m.indices,
                other->0,
            ) {
                Some(known) => Some(known),
                None => Some(id),
            }
        }),
{
    if let Some(at) = index {
        lemma_put_index_finds(m.indices, at, id, at);
        if let Some(o) = other {
            lemma_put_index_finds(m.indices, at, id, o);
        }
    }
}

/// The blocks that come out of some deltas, one after another, and what is held then.
pub open spec fn streamed(m: AccumulatorModel, deltas: Seq<StreamDeltaModel>) -> (
    AccumulatorModel,
    Seq<ResponseBlockModel>,
)
    decreases deltas.len(),
{
    if deltas.len() == 0 {
        (m, Seq::empty())
    } else {
        let (before, out) = streamed(m, deltas.drop_last());
        let (next, block) = before.step(deltas.last());
        (next, out + emitted(block))
    }
}

/// The input that some deltas bring for a call, in the order in which they come.
pub open spec fn input_for(
    m: AccumulatorModel,
    deltas: Seq<StreamDeltaModel>,
    call: Seq<char>,
) -> Seq<char>
    decreases deltas.len(),
{
    if deltas.len() == 0 {
        Seq::empty()
    } else {
        let before = streamed(m, deltas.drop_last()).0;
        input_for(m, deltas.drop_last(), call) + match deltas.last() {
            StreamDeltaModel::ToolUseInput { id, index, input_delta } => if before.resolve(id, index)
                == Some(call) {
                input_delta
            } else {
                Seq::empty()
            },
            _ => Seq::empty(),
        }
    }
}

/// Whether some deltas neither start a call anew nor end it.
pub open spec fn leave_open(
    m: AccumulatorModel,
    deltas: Seq<StreamDeltaModel>,
    call: Seq<char>,
) -> bool
    decreases deltas.len(),
{
    deltas.len() > 0 ==> {
        let before = streamed(m, deltas.drop_last()).0;
        &&& leave_open(m, deltas.drop_last(), call)
        &&& match deltas.last() {
            StreamDeltaModel::ToolUseStart { id, .. } => id != call,
            StreamDeltaModel::ToolUseEnd { id, index } => before.resolve(id, index) != Some(call),
            StreamDeltaModel::Finished(_) => false,
            StreamDeltaModel::Batch(_) => false,
            _ => true,
        }
    }
}

/// However the deltas of several calls, text and reasoning are mixed, the input of an open call is
/// what it had, followed by the pieces that belong to it in the order in which they came.
pub proof fn law_inputs_are_kept_apart(
    m: AccumulatorModel,
    deltas: Seq<StreamDeltaModel>,
    call: OpenCall,
)
    requires
        find_call(m.open, call.id) == Some(call),
        leave_open(m, deltas, call.id),
    ensures
        ({
            let held = find_call(streamed(m, deltas).0.open, call.id);
            &&& held is Some
            &&& (held->0).id == call.id
            &&& (held->0).name == call.name
            &&& (held->0).input_json == call.input_json + input_for(m, deltas, call.id)
        }),
    decreases deltas.len(),
{
    let brought = input_for(m, deltas, call.id);
    if deltas.len() == 0 {
        assert(call.input_json + brought =~= call.input_json);
    } else {
        let front = deltas.drop_last();
        law_inputs_are_kept_apart(m, front, call);
        let before = streamed(m, front).0;
        let held = find_call(before.open, call.id)->0;
        let earlier = input_for(m, front, call.id);
        assert(call.input_json + (earlier + Seq::<char>::empty()) =~= call.input_json + earlier);
        match deltas.last() {
            StreamDeltaModel::ToolUseStart { id, name, index, input_delta } => {
                let input_json = match input_delta {
                    Some(input) => input,
                    None => Seq::empty(),
                };
                lemma_put_call_finds(before.open, OpenCall { id, name, input_json }, call.id);
            },
            StreamDeltaModel::ToolUseInput { id, index, input_delta } => {
                if let Some(target) = before.resolve(id, index) {
                    if let Some(found) = find_call(before.open, target) {
                        let grown = OpenCall { input_json: found.input_json + input_delta, ..found };
                        lemma_found_call_has_its_id(before.open, target);
                        lemma_put_call_finds(before.open, grown, call.id);
                        assert(call.input_json + earlier + input_delta =~= call.input_json + (
                        earlier + input_delta));
                    }
                }
            },
            StreamDeltaModel::ToolUseEnd { id, index } => {
                if let Some(target) = before.resolve(id, index) {
                    lemma_drop_call_finds(before.open, target, call.id);
                }
            },
            _ => {},
        }
    }
}

proof fn lemma_found_call_has_its_id(open: Seq<OpenCall>, id: Seq<char>)
    ensures
        find_call(open, id) matches Some(call) ==> call.id == id,
    decreases open.len(),
{
    if open.len() > 0 {
        lemma_found_call_has_its_id(open.drop_first(), id);
    }
}

/// The deltas of a call whose input comes in pieces.
pub open spec fn call_in_pieces(
    id: Seq<char>,
    name: Seq<char>,
    first: Option<Seq<char>>,
    pieces: Seq<Seq<char>>,
) -> Seq<StreamDeltaModel> {
    seq![StreamDeltaModel::ToolUseStart { id, name, index: None, input_delta: first }] + Seq::new(
        pieces.len(),
        |i: int| StreamDeltaModel::ToolUseInput { id, index: None, input_delta: pieces[i] },
    )
}

/// A call whose input comes in any number of pieces comes out once, behind what was streamed
/// before it, with the value of the pieces put together in their order.
pub proof fn law_streamed_calls_are_put_together(
    m: AccumulatorModel,
    id: Seq<char>,
    name: Seq<char>,
    first: Option<Seq<char>>,
    pieces: Seq<Seq<char>>,
)
    requires
        distinct_calls(m.open),
        id.len() > 0,
    ensures
        ({
            let deltas = call_in_pieces(id, name, first, pieces).push(
                StreamDeltaModel::ToolUseEnd { id, index: None },
            );
            let (next, out) = streamed(m, deltas);
            out + next.pending == (m.pending + m.buffered()).push(
                ResponseBlockModel::ToolUse {
                    id,
                    name,
                    input: parsed_json(
                        (match first {
                            Some(input) => input,
                            None => Seq::empty(),
                        }) + whole_text(pieces),
                    ),
                },
            )
        }),
{
    let deltas = call_in_pieces(id, name, first, pieces);
    let end = StreamDeltaModel::ToolUseEnd { id, index: None };
    lemma_call_in_pieces(m, id, name, first, pieces);
    let (before, out) = streamed(m, deltas);
    let k = choose|k: int| 0 <= k < before.open.len() && #[trigger] before.open[k].id == id;
    law_ended_calls_come_out_whole(before, k, id, None);
    lemma_calls_by_place(before.open, k, before.open[k]);
    assert(deltas.push(end).drop_last() =~= deltas);
    let (next, block) = before.step(end);
    assert(out + emitted(block) + next.pending =~= out + (emitted(block) + next.pending));
    assert(out + before.pending.push((before.complete(id).1)->0) =~= (out + before.pending).push(
        (before.complete(id).1)->0,
    ));
}

proof fn lemma_call_in_pieces(
    m: AccumulatorModel,
    id: Seq<char>,
    name: Seq<char>,
    first: Option<Seq<char>>,
    pieces: Seq<Seq<char>>,
)
    requires
        distinct_calls(m.open),
        id.len() > 0,
    ensures
        ({
            let (next, out) = streamed(m, call_in_pieces(id, name, first, pieces));
            &&& distinct_calls(next.open)
            &&& find_call(next.open, id) == Some(
                OpenCall {
                    id,
                    name,
                    input_json: (match first {
                        Some(input) => input,
                        None => Seq::empty(),
                    }) + whole_text(pieces),
                },
            )
            &&& exists|k: int| 0 <= k < next.open.len() && #[trigger] next.open[k].id == id
            &&& out + next.pending == m.pending + m.buffered()
        }),
    decreases pieces.len(),
{
    let begun = match first {
        Some(input) => input,
        None => Seq::empty(),
    };
    let deltas = call_in_pieces(id, name, first, pieces);
    let (next, out) = streamed(m, deltas);
    if pieces.len() == 0 {
        let start = StreamDeltaModel::ToolUseStart { id, name, index: None, input_delta: first };
        let call = OpenCall { id, name, input_json: begun };
        assert(deltas =~= seq![start]);
        assert(deltas.drop_last() =~= Seq::empty());
        reveal_with_fuel(streamed, 2);
        law_open_calls_are_distinct(m, start);
        lemma_put_call_finds(m.open, call, id);
        assert(begun + whole_text(pieces) =~= begun);
        let (after, block) = m.step(start);
        assert(next == after);
        assert(out =~= emitted(block));
        assert(out + next.pending =~= m.pending + m.buffered());
        lemma_found_call_has_a_place(next.open, id);
    } else {
        let front = pieces.drop_last();
        let piece = pieces.last();
        let delta = StreamDeltaModel::ToolUseInput { id, index: None, input_delta: piece };
        lemma_call_in_pieces(m, id, name, first, front);
        assert(deltas.drop_last() =~= call_in_pieces(id, name, first, front));
        assert(deltas.last() == delta);
        let before = streamed(m, deltas.drop_last()).0;
        let k = choose|k: int| 0 <= k < before.open.len() && #[trigger] before.open[k].id == id;
        law_input_goes_behind_the_input(before, k, id, None, piece);
        law_open_calls_are_distinct(before, delta);
        lemma_calls_by_place(before.open, k, before.open[k]);
        lemma_calls_by_place(next.open, k, next.open[k]);
        assert(begun + whole_text(front) + piece =~= begun + whole_text(pieces));
        assert(out =~= streamed(m, deltas.drop_last()).1);
    }
}

proof fn lemma_found_call_has_a_place(open: Seq<OpenCall>, id: Seq<char>)
    requires
        find_call(open, id) is Some,
    ensures
        exists|k: int| 0 <= k < open.len() && #[trigger] open[k].id == id,
    decreases open.len(),
{
    if open[0].id != id {
        lemma_found_call_has_a_place(open.drop_first(), id);
        let k = choose|k: int|
            0 <= k < open.drop_first().len() && #[trigger] open.drop_first()[k].id == id;
        assert(open[k + 1].id == id);
    }
}

/// What has been streamed comes out as one block of reasoning and one of text, the reasoning first,
/// where there is any; both hold the whole of it.
pub proof fn law_buffers_become_blocks(m: AccumulatorModel)
    ensures
        m.reasoning.len() > 0 ==> m.buffered().len() > 0 && m.buffered()[0]
            == (ResponseBlockModel::Reasoning { text: m.reasoning, metadata: m.metadata }),
        m.metadata is Some ==> m.buffered().len() > 0 && m.buffered()[0]
            == (ResponseBlockModel::Reasoning { text: m.reasoning, metadata: m.metadata }),
        m.text.len() > 0 ==> m.buffered().len() > 0 && m.buffered().last()
            == ResponseBlockModel::Text(m.text),
        m.buffered().len() == (if m.reasoning.len() > 0 || m.metadata is Some {
            1int
        } else {
            0
        }) + (if m.text.len() > 0 {
            1int
        } else {
            0
        }),
{
}

/// When a response has finished, everything comes out: what was due, the reasoning, the text, and
/// every open call in the order in which the calls were started. Nothing is held any more.
pub proof fn law_finishing_brings_everything_out(m: AccumulatorModel, reason: FinishReason)
    ensures
        ({
            let (next, block) = m.step(StreamDeltaModel::Finished(reason));
            &&& emitted(block) + next.pending == m.pending + m.buffered() + Seq::new(
                m.open.len(),
                |i: int|
                    ResponseBlockModel::ToolUse {
                        id: m.open[i].id,
                        name: m.open[i].name,
                        input: parsed_json(m.open[i].input_json),
                    },
            )
            &&& next.open.len() == 0
            &&& next.text.len() == 0
            &&& next.reasoning.len() == 0
            &&& next.metadata is None
            &&& next.active is None
        }),
{
    let (next, block) = m.step(StreamDeltaModel::Finished(reason));
    assert(emitted(block) + next.pending =~= m.pending + m.buffered() + Seq::new(
        m.open.len(),
        |i: int|
            ResponseBlockModel::ToolUse {
                id: m.open[i].id,
                name: m.open[i].name,
                input: parsed_json(m.open[i].input_json),
            },
    ));
}

/// An item of the provider comes out behind the reasoning and the text that were streamed before
/// it, with its value as it is.
pub proof fn law_provider_items_keep_their_place(
    m: AccumulatorModel,
    provider: Seq<char>,
    value: Value,
)
    ensures
        ({
            let (next, block) = m.step(StreamDeltaModel::ProviderItem { provider, value });
            &&& emitted(block) + next.pending == (m.pending + m.buffered()).push(
                ResponseBlockModel::ProviderItem { provider, value },
            )
            &&& next.text.len() == 0
            &&& next.reasoning.len() == 0
            &&& next.open == m.open
        }),
{
    let (next, block) = m.step(StreamDeltaModel::ProviderItem { provider, value });
    assert(emitted(block) + next.pending =~= (m.pending + m.buffered()).push(
        ResponseBlockModel::ProviderItem { provider, value },
    ));
}

/// Text and reasoning go behind what was streamed of each, and nothing comes out yet.
pub proof fn law_streamed_text_goes_behind(m: AccumulatorModel, piece: Seq<char>)
    ensures
        ({
            let (next, block) = m.step(StreamDeltaModel::TextDelta(piece));
            block is None && next.text == m.text + piece && next.reasoning == m.reasoning
                && next.open == m.open && next.pending == m.pending && next.metadata == m.metadata
        }),
        ({
            let (next, block) = m.step(StreamDeltaModel::ReasoningDelta(piece));
            block is None && next.reasoning == m.reasoning + piece && next.text == m.text
                && next.open == m.open && next.pending == m.pending && next.metadata == m.metadata
        }),
{
}

/// Metadata of reasoning are put together member by member: a later member takes the place of an
/// earlier one of its name, and members that only one of them has are kept. The parts of a
/// signature are put one behind the other.
pub proof fn law_metadata_are_put_together(
    existing: Map<Seq<char>, Json>,
    incoming: Map<Seq<char>, Json>,
    key: Seq<char>,
    part: Seq<char>,
    later: Seq<char>,
)
    ensures
        ({
            let whole = merged(Some(Json::Object(existing)), Json::Object(incoming));
            let signed = incoming.contains_key("signature"@) && incoming["signature"@] is Text;
            &&& whole is Object
            &&& key != "signature"@ && incoming.contains_key(key) ==> (whole->Object_0).contains_key(
                key,
            ) && (whole->Object_0)[key] == incoming[key]
            &&& key != "signature"@ && key != "block"@ && !incoming.contains_key(key) ==> (
            (whole->Object_0).contains_key(key) <==> existing.contains_key(key))
            &&& key != "signature"@ && key != "block"@ && !incoming.contains_key(key)
                && existing.contains_key(key) ==> (whole->Object_0)[key] == existing[key]
            &&& !signed && key == "block"@ && !incoming.contains_key(key) && existing.contains_key(key)
                ==> (whole->Object_0).contains_key(key) && (whole->Object_0)[key] == existing[key]
        }),
        existing.contains_key("signature"@) && existing["signature"@] == Json::Text(part)
            && incoming.contains_key("signature"@) && incoming["signature"@] == Json::Text(later)
            ==> {
            let whole = merged(Some(Json::Object(existing)), Json::Object(incoming));
            (whole->Object_0)["signature"@] == Json::Text(part + later)
        },
        merged(None, Json::Object(incoming)) == Json::Object(incoming),
{
    reveal_strlit("signature");
    reveal_strlit("block");
    assert("signature"@.len() != "block"@.len());
}

/// The signature of reasoning that comes in parts also stands whole in the provider's own block.
pub proof fn law_blocks_carry_the_whole_signature(
    existing: Map<Seq<char>, Json>,
    block: Map<Seq<char>, Json>,
    incoming: Map<Seq<char>, Json>,
    later: Seq<char>,
)
    requires
        existing.contains_key("block"@),
        existing["block"@] == Json::Object(block),
        incoming.contains_key("signature"@),
        incoming["signature"@] == Json::Text(later),
        !incoming.contains_key("block"@),
    ensures
        ({
            let whole = merged(Some(Json::Object(existing)), Json::Object(incoming))->Object_0;
            &&& whole.contains_key("block"@)
            &&& whole["block"@] is Object
            &&& (whole["block"@]->Object_0).contains_key("signature"@)
            &&& (whole["block"@]->Object_0)["signature"@] == whole["signature"@]
            &&& forall|key: Seq<char>|
                key != "signature"@ && block.contains_key(key) ==> (
                whole["block"@]->Object_0).contains_key(key) && #[trigger] (
                whole["block"@]->Object_0)[key] == block[key]
        }),
{
    reveal_strlit("signature");
    reveal_strlit("block");
    assert("signature"@.len() != "block"@.len());
}

} // verus!
