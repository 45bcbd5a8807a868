//! Assembling streamed deltas into complete response blocks.
use crate::json::{
    extend_object, get_member, json_model, json_str, json_string, member, parse_json, parsed_json,
    set_member, text_member, Json,
};
use crate::text::{concat2, same_text};
use crate::types::{
    json_option, lemma_batch_model, ResponseBlockModel, ResponseContentBlock, StreamDelta,
    StreamDeltaModel,
};
use serde_json::Value;
use vstd::prelude::*;

verus! {

/// A tool call whose input is still being streamed.
#[derive(Debug)]
struct ToolCallAccumulator {
    id: String,
    name: String,
    input_json: String,
}

/// A tool call whose input is still being streamed.
#[verifier::ext_equal]
pub struct OpenCall {
    pub id: Seq<char>,
    pub name: Seq<char>,
    pub input_json: Seq<char>,
}

impl DeepView for ToolCallAccumulator {
    type V = OpenCall;

    closed spec fn deep_view(&self) -> OpenCall {
        OpenCall { id: self.id@, name: self.name@, input_json: self.input_json@ }
    }
}

/// Accumulates streaming deltas into complete response content blocks.
///
/// Open tool calls stand in the order in which they were first started.
#[derive(Debug)]
pub struct StreamAccumulator {
    pub text_buffer: String,
    reasoning_buffer: String,
    reasoning_metadata: Option<Value>,
    tool_calls: Vec<ToolCallAccumulator>,
    tool_indices: Vec<(usize, String)>,
    active_tool_id: Option<String>,
    pending_blocks: Vec<ResponseContentBlock>,
}

/// What an accumulator holds.
#[verifier::ext_equal]
pub struct AccumulatorModel {
    pub text: Seq<char>,
    pub reasoning: Seq<char>,
    pub metadata: Option<Json>,
    pub open: Seq<OpenCall>,
    pub indices: Seq<(usize, Seq<char>)>,
    pub active: Option<Seq<char>>,
    pub pending: Seq<ResponseBlockModel>,
}

/// The open call with the given id.
pub open spec fn find_call(open: Seq<OpenCall>, id: Seq<char>) -> Option<OpenCall>
    decreases open.len(),
{
    if open.len() == 0 {
        None
    } else if open[0].id == id {
        Some(open[0])
    } else {
        find_call(open.drop_first(), id)
    }
}

/// The open calls with `call` put in: in the place of one with the same id, or
/// else at the end.
pub open spec fn put_call(open: Seq<OpenCall>, call: OpenCall) -> Seq<OpenCall>
    decreases open.len(),
{
    if open.len() == 0 {
        seq![call]
    } else if open[0].id == call.id {
        seq![call] + open.drop_first()
    } else {
        seq![open[0]] + put_call(open.drop_first(), call)
    }
}

/// The open calls without the one with the given id.
pub open spec fn drop_call(open: Seq<OpenCall>, id: Seq<char>) -> Seq<OpenCall>
    decreases open.len(),
{
    if open.len() == 0 {
        Seq::empty()
    } else if open[0].id == id {
        drop_call(open.drop_first(), id)
    } else {
        seq![open[0]] + drop_call(open.drop_first(), id)
    }
}

/// The id that a stream index stands for.
pub open spec fn find_index(indices: Seq<(usize, Seq<char>)>, index: usize) -> Option<Seq<char>>
    decreases indices.len(),
{
    if indices.len() == 0 {
        None
    } else if indices[0].0 == index {
        Some(indices[0].1)
    } else {
        find_index(indices.drop_first(), index)
    }
}

/// The indices with `index` standing for `id`.
pub open spec fn put_index(
    indices: Seq<(usize, Seq<char>)>,
    index: usize,
    id: Seq<char>,
) -> Seq<(usize, Seq<char>)>
    decreases indices.len(),
{
    if indices.len() == 0 {
        seq![(index, id)]
    } else if indices[0].0 == index {
        seq![(index, id)] + indices.drop_first()
    } else {
        seq![indices[0]] + put_index(indices.drop_first(), index, id)
    }
}

/// The indices without those that stand for `id`.
pub open spec fn drop_indices(
    indices: Seq<(usize, Seq<char>)>,
    id: Seq<char>,
) -> Seq<(usize, Seq<char>)>
    decreases indices.len(),
{
    if indices.len() == 0 {
        Seq::empty()
    } else if indices[0].1 == id {
        drop_indices(indices.drop_first(), id)
    } else {
        seq![indices[0]] + drop_indices(indices.drop_first(), id)
    }
}

/// The complete tool call that an open one becomes.
pub open spec fn completed(call: OpenCall) -> ResponseBlockModel {
    ResponseBlockModel::ToolUse {
        id: call.id,
        name: call.name,
        input: parsed_json(call.input_json),
    }
}

/// The blocks that the open calls become, in order.
pub open spec fn all_completed(open: Seq<OpenCall>) -> Seq<ResponseBlockModel> {
    open.map_values(|call: OpenCall| completed(call))
}

impl AccumulatorModel {
    pub open spec fn empty() -> AccumulatorModel {
        AccumulatorModel {
            text: Seq::empty(),
            reasoning: Seq::empty(),
            metadata: None,
            open: Seq::empty(),
            indices: Seq::empty(),
            active: None,
            pending: Seq::empty(),
        }
    }

    /// The blocks that the buffered reasoning and text make.
    pub open spec fn buffered(self) -> Seq<ResponseBlockModel> {
        (if self.reasoning.len() > 0 || self.metadata is Some {
            seq![ResponseBlockModel::Reasoning { text: self.reasoning, metadata: self.metadata }]
        } else {
            Seq::empty()
        }) + (if self.text.len() > 0 {
            seq![ResponseBlockModel::Text(self.text)]
        } else {
            Seq::empty()
        })
    }

    /// The buffers emptied into the queue of pending blocks.
    pub open spec fn queue_buffered(self) -> AccumulatorModel {
        AccumulatorModel {
            text: Seq::empty(),
            reasoning: Seq::empty(),
            metadata: None,
            pending: self.pending + self.buffered(),
            ..self
        }
    }

    /// The first pending block taken out.
    pub open spec fn pop(self) -> (AccumulatorModel, Option<ResponseBlockModel>) {
        if self.pending.len() == 0 {
            (self, None)
        } else {
            (
                AccumulatorModel { pending: self.pending.drop_first(), ..self },
                Some(self.pending[0]),
            )
        }
    }

    pub open spec fn push(self, block: ResponseBlockModel) -> AccumulatorModel {
        AccumulatorModel { pending: self.pending.push(block), ..self }
    }

    /// The call that a delta with this id and index belongs to: the id itself, or
    /// what the index stands for, or the call started last, or the only one.
    pub open spec fn resolve(self, id: Seq<char>, index: Option<usize>) -> Option<Seq<char>> {
        if id.len() > 0 {
            Some(id)
        } else if index is Some && find_index(self.indices, index->0) is Some {
            find_index(self.indices, index->0)
        } else if self.active is Some {
            self.active
        } else if self.open.len() == 1 {
            Some(self.open[0].id)
        } else {
            None
        }
    }

    /// One tool call closed, with the block it makes if it was open.
    pub open spec fn complete(self, id: Seq<char>) -> (AccumulatorModel, Option<
        ResponseBlockModel,
    >) {
        (
            AccumulatorModel {
                active: if self.active == Some(id) {
                    None
                } else {
                    self.active
                },
                indices: drop_indices(self.indices, id),
                open: drop_call(self.open, id),
                ..self
            },
            match find_call(self.open, id) {
                Some(call) => Some(completed(call)),
                None => None,
            },
        )
    }

    /// Every open call closed, in order, its block queued.
    pub open spec fn queue_open(self) -> AccumulatorModel {
        AccumulatorModel {
            open: Seq::empty(),
            indices: Seq::empty(),
            active: None,
            pending: self.pending + all_completed(self.open),
            ..self
        }
    }

    /// One delta taken in, with the block that it completes, if any.
    pub open spec fn step(self, delta: StreamDeltaModel) -> (AccumulatorModel, Option<
        ResponseBlockModel,
    >)
        decreases delta,
    {
        match delta {
            StreamDeltaModel::TextDelta(text) => (
                AccumulatorModel { text: self.text + text, ..self },
                None,
            ),
            StreamDeltaModel::ReasoningDelta(text) => (
                AccumulatorModel { reasoning: self.reasoning + text, ..self },
                None,
            ),
            StreamDeltaModel::ReasoningMetadata(metadata) => (
                AccumulatorModel {
                    metadata: Some(merged(self.metadata, json_model(metadata))),
                    ..self
                },
                None,
            ),
            StreamDeltaModel::ProviderItem { provider, value } => self.queue_buffered().push(
                ResponseBlockModel::ProviderItem { provider, value },
            ).pop(),
            StreamDeltaModel::ToolUseStart { id, name, index, input_delta } => {
                let queued = self.queue_buffered();
                AccumulatorModel {
                    active: Some(id),
                    indices: match index {
                        Some(index) => put_index(self.indices, index, id),
                        None => self.indices,
                    },
                    open: put_call(
                        self.open,
                        OpenCall {
                            id,
                            name,
                            input_json: match input_delta {
                                Some(input) => input,
                                None => Seq::empty(),
                            },
                        },
                    ),
                    ..queued
                }.pop()
            },
            StreamDeltaModel::ToolUseInput { id, index, input_delta } => {
                match self.resolve(id, index) {
                    Some(target) => match find_call(self.open, target) {
                        Some(call) => (
                            AccumulatorModel {
                                open: put_call(
                                    self.open,
                                    OpenCall { input_json: call.input_json + input_delta, ..call },
                                ),
                                ..self
                            },
                            None,
                        ),
                        None => (self, None),
                    },
                    None => (self, None),
                }
            },
            StreamDeltaModel::ToolUseEnd { id, index } => {
                match self.resolve(id, index) {
                    Some(target) => {
                        let (next, block) = self.complete(target);
                        match block {
                            Some(block) => next.push(block).pop(),
                            None => next.pop(),
                        }
                    },
                    None => (self, None),
                }
            },
            StreamDeltaModel::Finished(_) => self.queue_buffered().queue_open().pop(),
            StreamDeltaModel::Batch(deltas) => {
                let (next, first) = self.batch(deltas, None);
                match first {
                    Some(_) => (next, first),
                    None => next.pop(),
                }
            },
            StreamDeltaModel::Usage(_) => (self, None),
        }
    }

    /// Several deltas taken in: the first block that comes out is handed on, each
    /// further one queued.
    pub open spec fn batch(
        self,
        deltas: Seq<StreamDeltaModel>,
        first: Option<ResponseBlockModel>,
    ) -> (AccumulatorModel, Option<ResponseBlockModel>)
        decreases deltas,
    {
        if deltas.len() == 0 {
            (self, first)
        } else {
            let (next, block) = self.step(deltas[0]);
            let rest = deltas.subrange(1, deltas.len() as int);
            match (block, first) {
                (Some(block), Some(_)) => next.push(block).batch(rest, first),
                (Some(_), None) => next.batch(rest, block),
                (None, _) => next.batch(rest, first),
            }
        }
    }

    /// One block taken out after the stream has ended.
    pub open spec fn flush(self) -> (AccumulatorModel, Option<ResponseBlockModel>) {
        if self.pending.len() > 0 {
            self.pop()
        } else if self.buffered().len() > 0 {
            self.queue_buffered().pop()
        } else {
            self.queue_open().pop()
        }
    }
}

impl AccumulatorModel {
    /// Everything that flushing will still bring out: the pending blocks, then the
    /// buffered reasoning and text, then the open tool calls.
    pub open spec fn drained(self) -> Seq<ResponseBlockModel> {
        self.pending + self.buffered() + all_completed(self.open)
    }

    /// The text that has been taken in and not handed out.
    pub open spec fn held_text(self) -> Seq<char> {
        text_of(self.pending) + self.text
    }

    /// The reasoning that has been taken in and not handed out.
    pub open spec fn held_reasoning(self) -> Seq<char> {
        reasoning_of(self.pending) + self.reasoning
    }

    /// Whether deltas can only be attributed to calls that are open.
    pub open spec fn names_only_open_calls(self) -> bool {
        &&& self.active matches Some(id) ==> find_call(self.open, id) is Some
        &&& forall|i: int|
            0 <= i < self.indices.len() ==> find_call(self.open, #[trigger] self.indices[i].1)
                is Some
    }
}

/// The text of the text blocks, one after the other.
pub open spec fn text_of(blocks: Seq<ResponseBlockModel>) -> Seq<char>
    decreases blocks.len(),
{
    if blocks.len() == 0 {
        Seq::empty()
    } else {
        text_of(blocks.drop_last()) + match blocks.last() {
            ResponseBlockModel::Text(text) => text,
            _ => Seq::empty(),
        }
    }
}

/// The text of the reasoning blocks, one after the other.
pub open spec fn reasoning_of(blocks: Seq<ResponseBlockModel>) -> Seq<char>
    decreases blocks.len(),
{
    if blocks.len() == 0 {
        Seq::empty()
    } else {
        reasoning_of(blocks.drop_last()) + match blocks.last() {
            ResponseBlockModel::Reasoning { text, .. } => text,
            _ => Seq::empty(),
        }
    }
}

/// The block that may have come out, as a list.
pub open spec fn emitted(block: Option<ResponseBlockModel>) -> Seq<ResponseBlockModel> {
    match block {
        Some(block) => seq![block],
        None => Seq::empty(),
    }
}

pub proof fn lemma_text_of_concat(a: Seq<ResponseBlockModel>, b: Seq<ResponseBlockModel>)
    ensures
        text_of(a + b) == text_of(a) + text_of(b),
        reasoning_of(a + b) == reasoning_of(a) + reasoning_of(b),
    decreases b.len(),
{
    if b.len() == 0 {
        assert(a + b =~= a);
        assert(text_of(a) + text_of(b) =~= text_of(a));
        assert(reasoning_of(a) + reasoning_of(b) =~= reasoning_of(a));
    } else {
        lemma_text_of_concat(a, b.drop_last());
        assert((a + b).drop_last() =~= a + b.drop_last());
        assert(text_of(a + b) =~= text_of(a) + text_of(b));
        assert(reasoning_of(a + b) =~= reasoning_of(a) + reasoning_of(b));
    }
}

proof fn lemma_text_of_one(block: ResponseBlockModel)
    ensures
        text_of(seq![block]) == (match block {
            ResponseBlockModel::Text(text) => text,
            _ => Seq::empty(),
        }),
        reasoning_of(seq![block]) == (match block {
            ResponseBlockModel::Reasoning { text, .. } => text,
            _ => Seq::empty(),
        }),
{
    reveal_with_fuel(text_of, 2);
    reveal_with_fuel(reasoning_of, 2);
    assert(seq![block].drop_last() =~= Seq::empty());
    assert(text_of(seq![block]) =~= match block {
        ResponseBlockModel::Text(text) => text,
        _ => Seq::empty(),
    });
    assert(reasoning_of(seq![block]) =~= match block {
        ResponseBlockModel::Reasoning { text, .. } => text,
        _ => Seq::empty(),
    });
}

proof fn lemma_completed_have_no_text(open: Seq<OpenCall>)
    ensures
        text_of(all_completed(open)) == Seq::<char>::empty(),
        reasoning_of(all_completed(open)) == Seq::<char>::empty(),
    decreases open.len(),
{
    if open.len() > 0 {
        lemma_completed_have_no_text(open.drop_last());
        assert(all_completed(open).drop_last() =~= all_completed(open.drop_last()));
    }
}

proof fn lemma_queue_buffered_keeps_text(m: AccumulatorModel)
    ensures
        m.queue_buffered().held_text() == m.held_text(),
        m.queue_buffered().held_reasoning() == m.held_reasoning(),
{
    let none = Seq::<ResponseBlockModel>::empty();
    let reasoning = if m.reasoning.len() > 0 || m.metadata is Some {
        seq![ResponseBlockModel::Reasoning { text: m.reasoning, metadata: m.metadata }]
    } else {
        none
    };
    let text = if m.text.len() > 0 {
        seq![ResponseBlockModel::Text(m.text)]
    } else {
        none
    };
    lemma_text_of_one(
        ResponseBlockModel::Reasoning { text: m.reasoning, metadata: m.metadata },
    );
    lemma_text_of_one(ResponseBlockModel::Text(m.text));
    lemma_text_of_concat(reasoning, text);
    lemma_text_of_concat(m.pending, m.buffered());
    assert(m.buffered() == reasoning + text);
    assert(text_of(m.buffered()) =~= m.text);
    assert(reasoning_of(m.buffered()) =~= m.reasoning);
    assert(m.queue_buffered().held_text() =~= m.held_text());
    assert(m.queue_buffered().held_reasoning() =~= m.held_reasoning());
}

proof fn lemma_pop_keeps_text(m: AccumulatorModel)
    ensures
        text_of(emitted(m.pop().1)) + m.pop().0.held_text() == m.held_text(),
        reasoning_of(emitted(m.pop().1)) + m.pop().0.held_reasoning() == m.held_reasoning(),
{
    if m.pending.len() > 0 {
        let first = seq![m.pending[0]];
        assert(m.pending =~= first + m.pending.drop_first());
        lemma_text_of_concat(first, m.pending.drop_first());
        assert(text_of(first) + m.pop().0.held_text() =~= m.held_text());
        assert(reasoning_of(first) + m.pop().0.held_reasoning() =~= m.held_reasoning());
    } else {
        assert(text_of(emitted(m.pop().1)) + m.held_text() =~= m.held_text());
        assert(reasoning_of(emitted(m.pop().1)) + m.held_reasoning() =~= m.held_reasoning());
    }
}

proof fn lemma_push_keeps_text(m: AccumulatorModel, block: ResponseBlockModel)
    requires
        !(block is Text),
        !(block is Reasoning),
    ensures
        m.push(block).held_text() == m.held_text(),
        m.push(block).held_reasoning() == m.held_reasoning(),
{
    lemma_text_of_one(block);
    lemma_text_of_concat(m.pending, seq![block]);
    assert(m.pending.push(block) =~= m.pending + seq![block]);
    assert(m.push(block).held_text() =~= m.held_text());
    assert(m.push(block).held_reasoning() =~= m.held_reasoning());
}

proof fn lemma_queue_open_keeps_text(m: AccumulatorModel)
    ensures
        m.queue_open().held_text() == m.held_text(),
        m.queue_open().held_reasoning() == m.held_reasoning(),
{
    lemma_completed_have_no_text(m.open);
    lemma_text_of_concat(m.pending, all_completed(m.open));
    assert(m.queue_open().held_text() =~= m.held_text());
    assert(m.queue_open().held_reasoning() =~= m.held_reasoning());
}

/// No text is lost, invented or reordered: what has come out, followed by what is
/// still held, is what went in. (A batch handed over whole may bring its blocks out
/// in another order; its deltas one by one do not.)
pub proof fn law_text_is_conserved(m: AccumulatorModel, delta: StreamDeltaModel)
    requires
        !(delta is Batch),
    ensures
        ({
            let (next, block) = m.step(delta);
            text_of(emitted(block)) + next.held_text() == m.held_text() + match delta {
                StreamDeltaModel::TextDelta(text) => text,
                _ => Seq::empty(),
            }
        }),
        ({
            let (next, block) = m.step(delta);
            reasoning_of(emitted(block)) + next.held_reasoning() == m.held_reasoning()
                + match delta {
                StreamDeltaModel::ReasoningDelta(text) => text,
                _ => Seq::empty(),
            }
        }),
{
    let (next, block) = m.step(delta);
    let none = Seq::<char>::empty();
    assert(m.held_text() + none =~= m.held_text());
    assert(m.held_reasoning() + none =~= m.held_reasoning());
    assert(none + m.held_text() =~= m.held_text());
    assert(none + m.held_reasoning() =~= m.held_reasoning());
    match delta {
        StreamDeltaModel::TextDelta(text) => {
            assert(none + next.held_text() =~= m.held_text() + text);
        },
        StreamDeltaModel::ReasoningDelta(text) => {
            assert(none + next.held_reasoning() =~= m.held_reasoning() + text);
        },
        StreamDeltaModel::ProviderItem { provider, value } => {
            let item = ResponseBlockModel::ProviderItem { provider, value };
            lemma_queue_buffered_keeps_text(m);
            lemma_push_keeps_text(m.queue_buffered(), item);
            lemma_pop_keeps_text(m.queue_buffered().push(item));
        },
        StreamDeltaModel::ToolUseStart { id, name, index, input_delta } => {
            lemma_queue_buffered_keeps_text(m);
            let input_json = match input_delta {
                Some(input) => input,
                None => none,
            };
            let queued = m.queue_buffered();
            let started = AccumulatorModel {
                active: Some(id),
                indices: match index {
                    Some(index) => put_index(m.indices, index, id),
                    None => m.indices,
                },
                open: put_call(m.open, OpenCall { id, name, input_json }),
                ..queued
            };
            lemma_pop_keeps_text(started);
        },
        StreamDeltaModel::ToolUseEnd { id, index } => {
            if let Some(target) = m.resolve(id, index) {
                let (closed, call) = m.complete(target);
                match call {
                    Some(call) => {
                        lemma_push_keeps_text(closed, call);
                        lemma_pop_keeps_text(closed.push(call));
                    },
                    None => lemma_pop_keeps_text(closed),
                }
            }
        },
        StreamDeltaModel::Finished(_) => {
            lemma_queue_buffered_keeps_text(m);
            lemma_queue_open_keeps_text(m.queue_buffered());
            lemma_pop_keeps_text(m.queue_buffered().queue_open());
        },
        _ => {},
    }
}

/// Flushing hands out, block by block, exactly what is held, in order; nothing comes
/// out only once nothing is held.
pub proof fn law_flush_drains_in_order(m: AccumulatorModel)
    ensures
        m.drained() == emitted(m.flush().1) + m.flush().0.drained(),
        m.flush().1 is None <==> m.drained().len() == 0,
{
    let (next, block) = m.flush();
    if m.pending.len() > 0 {
        assert(m.drained() =~= seq![m.pending[0]] + next.drained());
    } else if m.buffered().len() > 0 {
        assert(next.buffered() =~= Seq::empty());
        assert(m.drained() =~= seq![m.buffered()[0]] + next.drained());
    } else {
        assert(next.buffered() =~= Seq::empty());
        if m.open.len() > 0 {
            assert(m.drained() =~= seq![all_completed(m.open)[0]] + next.drained());
        } else {
            assert(m.drained() =~= Seq::empty());
            assert(next.drained() =~= Seq::empty());
        }
    }
}

pub proof fn lemma_put_call_finds(open: Seq<OpenCall>, call: OpenCall, id: Seq<char>)
    ensures
        find_call(put_call(open, call), id) == (if id == call.id {
            Some(call)
        } else {
            find_call(open, id)
        }),
    decreases open.len(),
{
    reveal_with_fuel(find_call, 2);
    if open.len() == 0 {
        assert(seq![call].drop_first() =~= Seq::<OpenCall>::empty());
    } else if open[0].id == call.id {
        let put = seq![call] + open.drop_first();
        assert(put.drop_first() =~= open.drop_first());
    } else {
        lemma_put_call_finds(open.drop_first(), call, id);
        let put = seq![open[0]] + put_call(open.drop_first(), call);
        assert(put.drop_first() =~= put_call(open.drop_first(), call));
    }
}

pub proof fn lemma_drop_call_finds(open: Seq<OpenCall>, gone: Seq<char>, id: Seq<char>)
    requires
        id != gone,
    ensures
        find_call(drop_call(open, gone), id) == find_call(open, id),
    decreases open.len(),
{
    if open.len() > 0 {
        lemma_drop_call_finds(open.drop_first(), gone, id);
        let kept = seq![open[0]] + drop_call(open.drop_first(), gone);
        assert(kept.drop_first() =~= drop_call(open.drop_first(), gone));
    }
}

proof fn lemma_put_index_values(
    indices: Seq<(usize, Seq<char>)>,
    index: usize,
    id: Seq<char>,
    i: int,
)
    requires
        0 <= i < put_index(indices, index, id).len(),
    ensures
        ({
            let value = put_index(indices, index, id)[i].1;
            value == id || exists|j: int|
                0 <= j < indices.len() && #[trigger] indices[j].1 == value
        }),
    decreases indices.len(),
{
    if indices.len() > 0 {
        let rest = indices.drop_first();
        if indices[0].0 == index {
            if i > 0 {
                assert(indices[i].1 == put_index(indices, index, id)[i].1);
            }
        } else if i > 0 {
            lemma_put_index_values(rest, index, id, i - 1);
            let value = put_index(rest, index, id)[i - 1].1;
            if value != id {
                let j = choose|j: int| 0 <= j < rest.len() && #[trigger] rest[j].1 == value;
                assert(indices[j + 1].1 == value);
            }
        } else {
            assert(indices[0].1 == put_index(indices, index, id)[0].1);
        }
    }
}

proof fn lemma_drop_indices_values(indices: Seq<(usize, Seq<char>)>, gone: Seq<char>, i: int)
    requires
        0 <= i < drop_indices(indices, gone).len(),
    ensures
        drop_indices(indices, gone)[i].1 != gone,
        exists|j: int|
            0 <= j < indices.len() && #[trigger] indices[j].1 == drop_indices(indices, gone)[i].1,
    decreases indices.len(),
{
    let rest = indices.drop_first();
    if indices[0].1 == gone {
        lemma_drop_indices_values(rest, gone, i);
        let j = choose|j: int|
            0 <= j < rest.len() && #[trigger] rest[j].1 == drop_indices(rest, gone)[i].1;
        assert(indices[j + 1].1 == drop_indices(indices, gone)[i].1);
    } else if i > 0 {
        lemma_drop_indices_values(rest, gone, i - 1);
        let j = choose|j: int|
            0 <= j < rest.len() && #[trigger] rest[j].1 == drop_indices(rest, gone)[i - 1].1;
        assert(indices[j + 1].1 == drop_indices(indices, gone)[i].1);
    } else {
        assert(indices[0].1 == drop_indices(indices, gone)[0].1);
    }
}

/// A delta without an id is only ever attributed to a call that is open: the
/// accumulator forgets a call's index and its being current as soon as it closes.
pub proof fn law_only_open_calls_are_named(m: AccumulatorModel, delta: StreamDeltaModel)
    requires
        m.names_only_open_calls(),
    ensures
        m.step(delta).0.names_only_open_calls(),
    decreases delta,
{
    match delta {
        StreamDeltaModel::ToolUseStart { id, name, index, input_delta } => {
            let input_json = match input_delta {
                Some(input) => input,
                None => Seq::empty(),
            };
            let call = OpenCall { id, name, input_json };
            let next = m.step(delta).0;
            assert(next.open == put_call(m.open, call));
            lemma_put_call_finds(m.open, call, id);
            assert forall|i: int| 0 <= i < next.indices.len() implies find_call(
                next.open,
                #[trigger] next.indices[i].1,
            ) is Some by {
                let value = next.indices[i].1;
                lemma_put_call_finds(m.open, call, value);
                if let Some(index) = index {
                    lemma_put_index_values(m.indices, index, id, i);
                    if value != id {
                        let j = choose|j: int|
                            0 <= j < m.indices.len() && #[trigger] m.indices[j].1 == value;
                        assert(find_call(m.open, m.indices[j].1) is Some);
                    }
                } else {
                    assert(find_call(m.open, m.indices[i].1) is Some);
                }
            }
        },
        StreamDeltaModel::ToolUseInput { id, index, input_delta } => {
            if let Some(target) = m.resolve(id, index) {
                if let Some(call) = find_call(m.open, target) {
                    let grown = OpenCall { input_json: call.input_json + input_delta, ..call };
                    let next = m.step(delta).0;
                    if let Some(active) = m.active {
                        lemma_put_call_finds(m.open, grown, active);
                    }
                    assert forall|i: int| 0 <= i < next.indices.len() implies find_call(
                        next.open,
                        #[trigger] next.indices[i].1,
                    ) is Some by {
                        lemma_put_call_finds(m.open, grown, m.indices[i].1);
                    }
                }
            }
        },
        StreamDeltaModel::ToolUseEnd { id, index } => {
            if let Some(target) = m.resolve(id, index) {
                let next = m.step(delta).0;
                assert(next.open == drop_call(m.open, target));
                assert(next.indices == drop_indices(m.indices, target));
                if let Some(active) = m.active {
                    if active != target {
                        lemma_drop_call_finds(m.open, target, active);
                    }
                }
                assert forall|i: int| 0 <= i < next.indices.len() implies find_call(
                    next.open,
                    #[trigger] next.indices[i].1,
                ) is Some by {
                    lemma_drop_indices_values(m.indices, target, i);
                    let j = choose|j: int|
                        0 <= j < m.indices.len() && #[trigger] m.indices[j].1 == next.indices[i].1;
                    assert(find_call(m.open, m.indices[j].1) is Some);
                    lemma_drop_call_finds(m.open, target, next.indices[i].1);
                }
            }
        },
        StreamDeltaModel::Batch(deltas) => {
            lemma_batch_names_only_open_calls(m, deltas, None);
        },
        _ => {},
    }
}

proof fn lemma_batch_names_only_open_calls(
    m: AccumulatorModel,
    deltas: Seq<StreamDeltaModel>,
    first: Option<ResponseBlockModel>,
)
    requires
        m.names_only_open_calls(),
    ensures
        m.batch(deltas, first).0.names_only_open_calls(),
    decreases deltas,
{
    if deltas.len() > 0 {
        law_only_open_calls_are_named(m, deltas[0]);
        let (next, block) = m.step(deltas[0]);
        let rest = deltas.subrange(1, deltas.len() as int);
        match (block, first) {
            (Some(block), Some(_)) => {
                assert(next.push(block).names_only_open_calls());
                lemma_batch_names_only_open_calls(next.push(block), rest, first)
            },
            (Some(_), None) => lemma_batch_names_only_open_calls(next, rest, block),
            (None, _) => lemma_batch_names_only_open_calls(next, rest, first),
        }
    }
}

/// The signature that a later piece of metadata extends.
pub open spec fn joined_signature(existing: Json, signature: Seq<char>) -> Seq<char> {
    match text_member(existing, "signature"@) {
        Some(prefix) => prefix + signature,
        None => signature,
    }
}

/// Reasoning metadata merged with a later piece.
///
/// Objects are merged member by member, the later piece winning. A `signature`
/// arrives in parts: the parts are concatenated, and the provider's `block`
/// carries the whole.
pub open spec fn merged(target: Option<Json>, incoming: Json) -> Json {
    match (target, text_member(incoming, "signature"@)) {
        (Some(existing), Some(signature)) => {
            let whole = Json::Text(joined_signature(existing, signature));
            union(signed_block(existing, whole), with_member(incoming, "signature"@, whole))
        },
        (Some(existing), None) => union(existing, incoming),
        (None, _) => incoming,
    }
}

/// An object with one member set; nothing else changes.
pub open spec fn with_member(json: Json, key: Seq<char>, value: Json) -> Json {
    match json {
        Json::Object(map) => Json::Object(map.insert(key, value)),
        _ => json,
    }
}

/// Metadata whose `block` object carries the signature.
pub open spec fn signed_block(existing: Json, signature: Json) -> Json {
    match member(existing, "block"@) {
        Some(Json::Object(block)) => with_member(
            existing,
            "block"@,
            Json::Object(block.insert("signature"@, signature)),
        ),
        _ => existing,
    }
}

/// Two objects merged, the second winning; otherwise the second alone.
pub open spec fn union(existing: Json, incoming: Json) -> Json {
    match (existing, incoming) {
        (Json::Object(a), Json::Object(b)) => Json::Object(a.union_prefer_right(b)),
        _ => incoming,
    }
}

pub fn merge_metadata(target: &mut Option<Value>, incoming: Value)
    ensures
        json_option(*final(target)) == Some(
            merged(json_option(*old(target)), json_model(incoming)),
        ),
{
    let mut incoming = incoming;
    let mut existing = match target.take() {
        None => {
            *target = Some(incoming);
            return ;
        },
        Some(existing) => existing,
    };
    let joined = match json_str(&incoming, "signature") {
        Some(signature) => match json_str(&existing, "signature") {
            Some(prefix) => Some(concat2(prefix, signature)),
            None => Some(signature.to_owned()),
        },
        None => None,
    };
    if let Some(signature) = joined {
        let block = match get_member(&existing, "block") {
            Some(block) => if block.is_object() {
                Some(block.clone())
            } else {
                None
            },
            None => None,
        };
        if let Some(block) = block {
            let mut block = block;
            set_member(&mut block, "signature", json_string(signature.as_str()));
            set_member(&mut existing, "block", block);
        }
        set_member(&mut incoming, "signature", json_string(signature.as_str()));
    }
    if existing.is_object() && incoming.is_object() {
        extend_object(&mut existing, incoming);
        *target = Some(existing);
    } else {
        *target = Some(incoming);
    }
}

/// The index bindings as the model holds them.
spec fn indices_model(indices: Seq<(usize, String)>) -> Seq<(usize, Seq<char>)> {
    indices.map_values(|entry: (usize, String)| (entry.0, entry.1@))
}

impl View for StreamAccumulator {
    type V = AccumulatorModel;

    closed spec fn view(&self) -> AccumulatorModel {
        AccumulatorModel {
            text: self.text_buffer@,
            reasoning: self.reasoning_buffer@,
            metadata: json_option(self.reasoning_metadata),
            open: self.tool_calls.deep_view(),
            indices: indices_model(self.tool_indices@),
            active: self.active_tool_id.deep_view(),
            pending: self.pending_blocks.deep_view(),
        }
    }
}

impl StreamAccumulator {
    pub fn new() -> (r: StreamAccumulator)
        ensures
            r@ == AccumulatorModel::empty(),
    {
        let r = StreamAccumulator {
            text_buffer: String::new(),
            reasoning_buffer: String::new(),
            reasoning_metadata: None,
            tool_calls: Vec::new(),
            tool_indices: Vec::new(),
            active_tool_id: None,
            pending_blocks: Vec::new(),
        };
        assert(r@ =~= AccumulatorModel::empty());
        r
    }

    fn pop_pending(&mut self) -> (r: Option<ResponseContentBlock>)
        ensures
            (final(self)@, r.deep_view()) == old(self)@.pop(),
    {
        if self.pending_blocks.len() == 0 {
            None
        } else {
            let block = self.pending_blocks.remove(0);
            assert(self@.pending =~= old(self)@.pending.drop_first());
            Some(block)
        }
    }

    fn push_pending(&mut self, block: ResponseContentBlock)
        ensures
            final(self)@ == old(self)@.push(block.deep_view()),
    {
        self.pending_blocks.push(block);
        assert(self@ =~= old(self)@.push(block.deep_view()));
    }

    fn queue_buffered_content(&mut self)
        ensures
            final(self)@ == old(self)@.queue_buffered(),
    {
        if !self.reasoning_buffer.as_str().is_empty() || self.reasoning_metadata.is_some() {
            let text = self.reasoning_buffer.clone();
            self.reasoning_buffer = String::new();
            let metadata = self.reasoning_metadata.take();
            self.pending_blocks.push(ResponseContentBlock::Reasoning { text, metadata });
        }
        if !self.text_buffer.as_str().is_empty() {
            let text = self.text_buffer.clone();
            self.text_buffer = String::new();
            self.pending_blocks.push(ResponseContentBlock::Text(text));
        }
        assert(self@ =~= old(self)@.queue_buffered());
    }

    /// Takes out one block after the stream has ended.
    pub fn flush(&mut self) -> (r: Option<ResponseContentBlock>)
        ensures
            (final(self)@, r.deep_view()) == old(self)@.flush(),
    {
        if let Some(block) = self.pop_pending() {
            return Some(block);
        }
        self.queue_buffered_content();
        if let Some(block) = self.pop_pending() {
            return Some(block);
        }
        proof {
            assert(old(self)@.buffered().len() == 0);
            assert(self@ =~= old(self)@);
        }
        self.queue_open_tool_calls();
        self.pop_pending()
    }

    fn resolve_tool_id(&self, id: &str, index: Option<usize>) -> (r: Option<String>)
        ensures
            r.deep_view() == self@.resolve(id@, index),
    {
        if !id.is_empty() {
            return Some(id.to_owned());
        }
        if let Some(index) = index {
            if let Some(found) = self.lookup_index(index) {
                return Some(found);
            }
        }
        match &self.active_tool_id {
            Some(active) => Some(active.clone()),
            None => if self.tool_calls.len() == 1 {
                Some(self.tool_calls[0].id.clone())
            } else {
                None
            },
        }
    }

    fn lookup_index(&self, index: usize) -> (r: Option<String>)
        ensures
            r.deep_view() == find_index(self@.indices, index),
    {
        let ghost all = self@.indices;
        let mut i: usize = 0;
        assert(all.subrange(0, all.len() as int) =~= all);
        while i < self.tool_indices.len()
            invariant
                all == self@.indices,
                all.len() == self.tool_indices.len(),
                i <= self.tool_indices.len(),
                find_index(all, index) == find_index(all.subrange(i as int, all.len() as int), index),
            decreases self.tool_indices.len() - i,
        {
            if self.tool_indices[i].0 == index {
                return Some(self.tool_indices[i].1.clone());
            }
            assert(all.subrange(i as int, all.len() as int).drop_first() =~= all.subrange(
                i + 1,
                all.len() as int,
            ));
            i += 1;
        }
        None
    }

    fn bind_index(&mut self, index: usize, id: &str)
        ensures
            final(self)@ == (AccumulatorModel {
                indices: put_index(old(self)@.indices, index, id@),
                ..old(self)@
            }),
    {
        let ghost all = self@.indices;
        let mut i: usize = 0;
        assert(all.subrange(0, all.len() as int) =~= all);
        assert(put_index(all, index, id@) =~= all.subrange(0, 0) + put_index(all, index, id@));
        while i < self.tool_indices.len()
            invariant
                *self == *old(self),
                all == self@.indices,
                all.len() == self.tool_indices.len(),
                i <= self.tool_indices.len(),
                put_index(all, index, id@) == all.subrange(0, i as int) + put_index(
                    all.subrange(i as int, all.len() as int),
                    index,
                    id@,
                ),
            decreases self.tool_indices.len() - i,
        {
            let ghost rest = all.subrange(i as int, all.len() as int);
            assert(rest.drop_first() =~= all.subrange(i + 1, all.len() as int));
            if self.tool_indices[i].0 == index {
                self.tool_indices[i] = (index, id.to_owned());
                assert(self@.indices =~= put_index(all, index, id@));
                return ;
            }
            assert(all.subrange(0, i + 1) =~= all.subrange(0, i as int) + seq![rest[0]]);
            i += 1;
        }
        self.tool_indices.push((index, id.to_owned()));
        assert(self@.indices =~= put_index(all, index, id@));
    }

    fn unbind_indices(&mut self, id: &str)
        ensures
            final(self)@ == (AccumulatorModel {
                indices: drop_indices(old(self)@.indices, id@),
                ..old(self)@
            }),
    {
        let ghost all = self@.indices;
        let mut kept: Vec<(usize, String)> = Vec::new();
        let mut i: usize = 0;
        assert(all.subrange(0, all.len() as int) =~= all);
        assert(drop_indices(all, id@) =~= indices_model(kept@) + drop_indices(all, id@));
        while i < self.tool_indices.len()
            invariant
                *self == *old(self),
                all == self@.indices,
                all.len() == self.tool_indices.len(),
                i <= self.tool_indices.len(),
                drop_indices(all, id@) == indices_model(kept@) + drop_indices(
                    all.subrange(i as int, all.len() as int),
                    id@,
                ),
            decreases self.tool_indices.len() - i,
        {
            let ghost rest = all.subrange(i as int, all.len() as int);
            assert(rest.drop_first() =~= all.subrange(i + 1, all.len() as int));
            if !same_text(self.tool_indices[i].1.as_str(), id) {
                let ghost before = indices_model(kept@);
                kept.push((self.tool_indices[i].0, self.tool_indices[i].1.clone()));
                assert(indices_model(kept@) =~= before + seq![rest[0]]);
            }
            i += 1;
        }
        self.tool_indices = kept;
        assert(self@.indices =~= drop_indices(all, id@));
    }

    /// The place of the open call with the given id.
    fn call_position(&self, id: &str) -> (r: Option<usize>)
        ensures
            match r {
                Some(i) => i < self@.open.len() && find_call(self@.open, id@) == Some(
                    self@.open[i as int],
                ) && self@.open[i as int].id == id@ && forall|call: OpenCall|
                    call.id == id@ ==> #[trigger] put_call(self@.open, call)
                        == self@.open.update(i as int, call),
                None => find_call(self@.open, id@) is None && forall|call: OpenCall|
                    call.id == id@ ==> #[trigger] put_call(self@.open, call)
                        == self@.open.push(call),
            },
    {
        let ghost all = self@.open;
        let mut i: usize = 0;
        assert(all.subrange(0, all.len() as int) =~= all);
        while i < self.tool_calls.len()
            invariant
                all == self@.open,
                all.len() == self.tool_calls.len(),
                i <= self.tool_calls.len(),
                forall|j: int| 0 <= j < i ==> all[j].id != id@,
            decreases self.tool_calls.len() - i,
        {
            if same_text(self.tool_calls[i].id.as_str(), id) {
                proof {
                    lemma_call_position(all, id@, i as int);
                }
                return Some(i);
            }
            i += 1;
        }
        proof {
            lemma_call_position(all, id@, i as int);
        }
        None
    }

    fn complete_tool_call(&mut self, tool_id: &str) -> (r: Option<ResponseContentBlock>)
        ensures
            (final(self)@, r.deep_view()) == old(self)@.complete(tool_id@),
    {
        let is_active = match &self.active_tool_id {
            Some(active) => same_text(active.as_str(), tool_id),
            None => false,
        };
        if is_active {
            self.active_tool_id = None;
        }
        self.unbind_indices(tool_id);
        let position = self.call_position(tool_id);
        let block = match position {
            Some(i) => Some(
                ResponseContentBlock::ToolUse {
                    id: tool_id.to_owned(),
                    name: self.tool_calls[i].name.clone(),
                    input: parse_json(self.tool_calls[i].input_json.as_str()),
                },
            ),
            None => None,
        };
        self.drop_calls(tool_id);
        block
    }

    fn drop_calls(&mut self, id: &str)
        ensures
            final(self)@ == (AccumulatorModel {
                open: drop_call(old(self)@.open, id@),
                ..old(self)@
            }),
    {
        let ghost all = self@.open;
        let mut i: usize = 0;
        let ghost mut seen: int = 0;
        assert(all.subrange(0, all.len() as int) =~= all);
        assert(drop_call(all, id@) =~= self@.open.subrange(0, 0) + drop_call(all, id@));
        while i < self.tool_calls.len()
            invariant
                0 <= seen <= all.len(),
                i <= self.tool_calls.len(),
                self@ == (AccumulatorModel { open: self@.open, ..old(self)@ }),
                self@.open.len() == self.tool_calls.len(),
                self@.open.subrange(i as int, self@.open.len() as int) == all.subrange(
                    seen,
                    all.len() as int,
                ),
                drop_call(all, id@) == self@.open.subrange(0, i as int) + drop_call(
                    all.subrange(seen, all.len() as int),
                    id@,
                ),
            decreases self.tool_calls.len() - i,
        {
            let ghost rest = all.subrange(seen, all.len() as int);
            let ghost before = self@.open;
            assert(before[i as int] == rest[0]);
            assert(rest.len() > 0);
            assert(rest.drop_first() =~= all.subrange(seen + 1, all.len() as int));
            if same_text(self.tool_calls[i].id.as_str(), id) {
                let _ = self.tool_calls.remove(i);
                assert(self@.open =~= before.remove(i as int));
                assert(self@.open.subrange(0, i as int) =~= before.subrange(0, i as int));
                assert(self@.open.subrange(i as int, self@.open.len() as int)
                    =~= rest.drop_first());
            } else {
                assert(before.subrange(0, i + 1) =~= before.subrange(0, i as int) + seq![rest[0]]);
                assert(before.subrange(i + 1, before.len() as int) =~= rest.drop_first());
                i += 1;
            }
            proof {
                seen = seen + 1;
            }
        }
        assert(self@.open =~= drop_call(all, id@)) by {
            assert(all.subrange(seen, all.len() as int).len() == 0);
            assert(self@.open.subrange(0, i as int) =~= self@.open);
        }
    }

    fn queue_open_tool_calls(&mut self)
        ensures
            final(self)@ == old(self)@.queue_open(),
    {
        let ghost all = self@.open;
        let mut i: usize = 0;
        assert(self@.pending + all_completed(all.take(0)) =~= self@.pending);
        while i < self.tool_calls.len()
            invariant
                i <= self.tool_calls.len(),
                all == old(self)@.open,
                all.len() == self.tool_calls.len(),
                self@ == (AccumulatorModel {
                    pending: old(self)@.pending + all_completed(all.take(i as int)),
                    ..old(self)@
                }),
            decreases self.tool_calls.len() - i,
        {
            let ghost before = self@.pending;
            let block = ResponseContentBlock::ToolUse {
                id: self.tool_calls[i].id.clone(),
                name: self.tool_calls[i].name.clone(),
                input: parse_json(self.tool_calls[i].input_json.as_str()),
            };
            assert(self@.open[i as int] == all[i as int]);
            assert(block.deep_view() == completed(all[i as int]));
            self.pending_blocks.push(block);
            i += 1;
            assert(all_completed(all.take(i as int)) =~= all_completed(all.take(i - 1)).push(
                completed(all[i - 1]),
            ));
            assert(self@.pending =~= before.push(completed(all[i - 1])));
            assert(self@.pending =~= old(self)@.pending + all_completed(all.take(i as int)));
        }
        assert(all.take(i as int) =~= all);
        self.tool_calls = Vec::new();
        self.tool_indices = Vec::new();
        self.active_tool_id = None;
        assert(self@ =~= old(self)@.queue_open());
    }

    fn start_tool_call(&mut self, id: String, name: String, input_json: String)
        ensures
            final(self)@ == (AccumulatorModel {
                open: put_call(
                    old(self)@.open,
                    OpenCall { id: id@, name: name@, input_json: input_json@ },
                ),
                ..old(self)@
            }),
    {
        let ghost call = OpenCall { id: id@, name: name@, input_json: input_json@ };
        match self.call_position(id.as_str()) {
            Some(i) => {
                assert(put_call(self@.open, call) == self@.open.update(i as int, call));
                self.tool_calls[i] = ToolCallAccumulator { id, name, input_json };
                assert(self@.open =~= old(self)@.open.update(i as int, call));
            },
            None => {
                assert(put_call(self@.open, call) == self@.open.push(call));
                self.tool_calls.push(ToolCallAccumulator { id, name, input_json });
                assert(self@.open =~= old(self)@.open.push(call));
            },
        }
    }

    /// Processes a single delta and returns the block that it completes, if any.
    pub fn process(&mut self, delta: StreamDelta) -> (r: Option<ResponseContentBlock>)
        ensures
            (final(self)@, r.deep_view()) == old(self)@.step(delta.deep_view()),
        decreases delta,
    {
        match delta {
            StreamDelta::TextDelta(text) => {
                self.text_buffer.append(text.as_str());
                None
            },
            StreamDelta::ReasoningDelta(text) => {
                self.reasoning_buffer.append(text.as_str());
                None
            },
            StreamDelta::ReasoningMetadata(metadata) => {
                merge_metadata(&mut self.reasoning_metadata, metadata);
                None
            },
            StreamDelta::ProviderItem { provider, value } => {
                // A completed provider item follows all deltas for that item, so the
                // content derived from them goes first.
                self.queue_buffered_content();
                self.push_pending(ResponseContentBlock::ProviderItem { provider, value });
                self.pop_pending()
            },
            StreamDelta::ToolUseStart { id, name, index, input_delta } => {
                self.queue_buffered_content();
                self.active_tool_id = Some(id.clone());
                if let Some(index) = index {
                    self.bind_index(index, id.as_str());
                }
                let input_json = match input_delta {
                    Some(input) => input,
                    None => String::new(),
                };
                self.start_tool_call(id, name, input_json);
                self.pop_pending()
            },
            StreamDelta::ToolUseInput { id, index, input_delta } => {
                if let Some(target) = self.resolve_tool_id(id.as_str(), index) {
                    if let Some(i) = self.call_position(target.as_str()) {
                        let name = self.tool_calls[i].name.clone();
                        let input_json = concat2(
                            self.tool_calls[i].input_json.as_str(),
                            input_delta.as_str(),
                        );
                        self.start_tool_call(target, name, input_json);
                    }
                }
                None
            },
            StreamDelta::ToolUseEnd { id, index } => {
                match self.resolve_tool_id(id.as_str(), index) {
                    Some(target) => {
                        if let Some(block) = self.complete_tool_call(target.as_str()) {
                            self.push_pending(block);
                        }
                        self.pop_pending()
                    },
                    None => None,
                }
            },
            StreamDelta::Finished(_) => {
                self.queue_buffered_content();
                self.queue_open_tool_calls();
                self.pop_pending()
            },
            StreamDelta::Batch(deltas) => {
                proof {
                    lemma_batch_model(deltas);
                }
                match self.process_batch(deltas) {
                    Some(block) => Some(block),
                    None => self.pop_pending(),
                }
            },
            StreamDelta::Usage(_) => None,
        }
    }

    fn process_batch(&mut self, deltas: Vec<StreamDelta>) -> (r: Option<ResponseContentBlock>)
        ensures
            (final(self)@, r.deep_view()) == old(self)@.batch(deltas.deep_view(), None),
        decreases deltas,
    {
        let ghost all = deltas.deep_view();
        let mut first: Option<ResponseContentBlock> = None;
        assert(all.subrange(0, all.len() as int) =~= all);
        let ghost items = deltas@;
        for delta in it: deltas
            invariant
                it.seq() == items,
                items == deltas@,
                all == deltas.deep_view(),
                old(self)@.batch(all, None) == self@.batch(
                    all.subrange(it.index(), all.len() as int),
                    first.deep_view(),
                ),
        {
            let ghost rest = all.subrange(it.index(), all.len() as int);
            assert(rest[0] == delta.deep_view());
            assert(rest.subrange(1, rest.len() as int) =~= all.subrange(
                it.index() + 1,
                all.len() as int,
            ));
            if let Some(block) = self.process(delta) {
                if first.is_none() {
                    first = Some(block);
                } else {
                    self.push_pending(block);
                }
            }
        }
        first
    }
}

impl Default for StreamAccumulator {
    fn default() -> (r: Self)
        ensures
            r@ == AccumulatorModel::empty(),
    {
        StreamAccumulator::new()
    }
}

proof fn lemma_call_position(open: Seq<OpenCall>, id: Seq<char>, i: int)
    requires
        0 <= i <= open.len(),
        forall|j: int| 0 <= j < i ==> open[j].id != id,
        i < open.len() ==> open[i].id == id,
    ensures
        i < open.len() ==> find_call(open, id) == Some(open[i]) && forall|call: OpenCall|
            call.id == id ==> #[trigger] put_call(open, call) == open.update(i, call),
        i == open.len() ==> find_call(open, id) is None && forall|call: OpenCall|
            call.id == id ==> #[trigger] put_call(open, call) == open.push(call),
    decreases open.len(),
{
    if open.len() == 0 {
        assert forall|call: OpenCall| call.id == id implies #[trigger] put_call(open, call)
            == open.push(call) by {
            assert(open.push(call) =~= seq![call]);
        }
    } else if i == 0 {
        assert forall|call: OpenCall| call.id == id implies #[trigger] put_call(open, call)
            == open.update(0, call) by {
            assert(open.update(0, call) =~= seq![call] + open.drop_first());
        }
    } else {
        let rest = open.drop_first();
        lemma_call_position(rest, id, i - 1);
        assert forall|call: OpenCall| call.id == id implies #[trigger] put_call(open, call) == (
        if i < open.len() {
            open.update(i, call)
        } else {
            open.push(call)
        }) by {
            assert(put_call(open, call) =~= seq![open[0]] + put_call(rest, call));
            if i < open.len() {
                assert(seq![open[0]] + rest.update(i - 1, call) =~= open.update(i, call));
            } else {
                assert(seq![open[0]] + rest.push(call) =~= open.push(call));
            }
        }
    }
}

} // verus!
