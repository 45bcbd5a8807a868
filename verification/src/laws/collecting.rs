//! What is collected of a streamed response.
use crate::event::EventModel;
use crate::llm_response::{
    calls_in, contents_of, final_text, flattened, flattened_all, kept_reason, texts_in, usage_fits,
    CollectorModel, ToolCallModel,
};
use crate::text::join;
use crate::types::{
    ContentBlockModel, FinishReason, ResponseBlockModel, StreamDeltaModel, Usage,
};
use vstd::prelude::*;

verus! {

/// A plain stop does not take the place of a more telling reason; any other reason does take the
/// place of what was reported before.
pub proof fn law_telling_reasons_are_kept(current: Option<FinishReason>, incoming: FinishReason)
    ensures
        incoming != FinishReason::Stop ==> kept_reason(current, incoming) == Some(incoming),
        current is Some && current != Some(FinishReason::Stop) && incoming == FinishReason::Stop
            ==> kept_reason(current, incoming) == current,
        current is None || current == Some(FinishReason::Stop) ==> kept_reason(current, incoming)
            == Some(incoming),
{
}

/// Every block of a response becomes the block of its kind in the conversation, in its place and
/// with all that it holds.
pub proof fn law_blocks_become_content(blocks: Seq<ResponseBlockModel>, i: int)
    requires
        0 <= i < blocks.len(),
    ensures
        contents_of(blocks).len() == blocks.len(),
        blocks[i] matches ResponseBlockModel::Text(text) ==> contents_of(blocks)[i] == (
        ContentBlockModel::Text { text }),
        blocks[i] matches ResponseBlockModel::Reasoning { text, metadata } ==> contents_of(
            blocks,
        )[i] == (ContentBlockModel::Reasoning { text, metadata }),
        blocks[i] matches ResponseBlockModel::ToolUse { id, name, input } ==> contents_of(blocks)[i]
            == (ContentBlockModel::ToolUse { id, name, input }),
        blocks[i] matches ResponseBlockModel::ProviderItem { provider, value } ==> contents_of(
            blocks,
        )[i] == (ContentBlockModel::ProviderItem { provider, value }),
{
}

/// The calls of a response are its tool uses in their order: those of the front, then those of the
/// rest, each with its id, name and input.
pub proof fn law_calls_are_found_in_order(
    front: Seq<ResponseBlockModel>,
    rest: Seq<ResponseBlockModel>,
    block: ResponseBlockModel,
)
    ensures
        calls_in(front + rest) == calls_in(front) + calls_in(rest),
        block matches ResponseBlockModel::ToolUse { id, name, input } ==> calls_in(seq![block])
            == seq![ToolCallModel { id, name, input }],
        !(block is ToolUse) ==> calls_in(seq![block]).len() == 0,
    decreases rest.len(),
{
    reveal_with_fuel(calls_in, 2);
    assert(seq![block].drop_last() =~= Seq::empty());
    if block is ToolUse {
        assert(calls_in(seq![block]) =~= seq![
            ToolCallModel {
                id: block->ToolUse_id,
                name: block->ToolUse_name,
                input: block->ToolUse_input,
            },
        ]);
    }
    if rest.len() == 0 {
        assert(front + rest =~= front);
        assert(calls_in(front) + calls_in(rest) =~= calls_in(front));
    } else {
        law_calls_are_found_in_order(front, rest.drop_last(), block);
        assert((front + rest).drop_last() =~= front + rest.drop_last());
        assert((front + rest).last() == rest.last());
        assert(calls_in(front + rest) =~= calls_in(front) + calls_in(rest));
    }
}

proof fn lemma_join_push(parts: Seq<Seq<char>>, part: Seq<char>, sep: Seq<char>)
    ensures
        join(parts.push(part), sep) == (if parts.len() == 0 {
            part
        } else {
            join(parts, sep) + sep + part
        }),
{
    assert(parts.push(part).drop_last() =~= parts);
    reveal_with_fuel(join, 2);
    if parts.len() == 0 {
        assert(join(parts.push(part), sep) =~= part);
    } else {
        assert(join(parts.push(part), sep) =~= join(parts, sep) + sep + part);
    }
}

/// The answer of a response is its texts, each on a line of its own and in their order; nothing but
/// text goes into it.
pub proof fn law_answers_are_the_texts(
    blocks: Seq<ResponseBlockModel>,
    block: ResponseBlockModel,
    text: Seq<char>,
)
    ensures
        !(block is Text) ==> final_text(blocks.push(block)) == final_text(blocks),
        (forall|i: int| 0 <= i < blocks.len() ==> !((#[trigger] blocks[i]) is Text)) ==> final_text(
            blocks.push(ResponseBlockModel::Text(text)),
        ) == text,
        (exists|i: int| 0 <= i < blocks.len() && (#[trigger] blocks[i]) is Text) ==> final_text(
            blocks.push(ResponseBlockModel::Text(text)),
        ) == final_text(blocks) + "\n"@ + text,
{
    assert(blocks.push(block).drop_last() =~= blocks);
    assert(blocks.push(ResponseBlockModel::Text(text)).drop_last() =~= blocks);
    lemma_join_push(texts_in(blocks), text, "\n"@);
    lemma_texts(blocks);
}

proof fn lemma_texts(blocks: Seq<ResponseBlockModel>)
    ensures
        texts_in(blocks).len() == 0 <==> forall|i: int|
            0 <= i < blocks.len() ==> !((#[trigger] blocks[i]) is Text),
    decreases blocks.len(),
{
    if blocks.len() > 0 {
        let front = blocks.drop_last();
        lemma_texts(front);
        assert(blocks[blocks.len() - 1] == blocks.last());
        if exists|i: int| 0 <= i < blocks.len() && (#[trigger] blocks[i]) is Text {
            let i = choose|i: int| 0 <= i < blocks.len() && (#[trigger] blocks[i]) is Text;
            if i < front.len() {
                assert(front[i] is Text);
            }
        } else {
            assert forall|i: int| 0 <= i < front.len() implies !((#[trigger] front[i]) is Text) by {
                assert(blocks[i] == front[i]);
            }
        }
    }
}

/// Batches are taken apart in order, also batches within batches; what is no batch stays as it is.
pub proof fn law_batches_are_taken_apart_in_order(
    front: Seq<StreamDeltaModel>,
    rest: Seq<StreamDeltaModel>,
    delta: StreamDeltaModel,
)
    ensures
        flattened(StreamDeltaModel::Batch(front + rest)) == flattened(
            StreamDeltaModel::Batch(front),
        ) + flattened(StreamDeltaModel::Batch(rest)),
        flattened(StreamDeltaModel::Batch(seq![delta])) == flattened(delta),
        !(delta is Batch) ==> flattened(delta) == seq![delta],
    decreases front.len(),
{
    reveal_with_fuel(flattened_all, 2);
    reveal_with_fuel(flattened, 2);
    assert(seq![delta].subrange(1, 1) =~= Seq::empty());
    assert(flattened_all(seq![delta]) =~= flattened(delta) + Seq::empty());
    assert(flattened(delta) + Seq::<StreamDeltaModel>::empty() =~= flattened(delta));
    if front.len() == 0 {
        assert(front + rest =~= rest);
        assert(flattened_all(front) + flattened_all(rest) =~= flattened_all(rest));
    } else {
        let tail = front.subrange(1, front.len() as int);
        law_batches_are_taken_apart_in_order(tail, rest, delta);
        assert((front + rest).subrange(1, (front + rest).len() as int) =~= tail + rest);
        assert((front + rest)[0] == front[0]);
        assert(flattened_all(front + rest) =~= flattened(front[0]) + flattened_all(tail + rest));
        assert(flattened(front[0]) + (flattened_all(tail) + flattened_all(rest)) =~= (flattened(
            front[0],
        ) + flattened_all(tail)) + flattened_all(rest));
    }
}

/// The tokens of one kind that the deltas report.
pub open spec fn reported(deltas: Seq<StreamDeltaModel>, kind: spec_fn(Usage) -> int) -> int
    decreases deltas.len(),
{
    if deltas.len() == 0 {
        0
    } else {
        reported(deltas.drop_last(), kind) + match deltas.last() {
            StreamDeltaModel::Usage(usage) => kind(usage),
            _ => 0,
        }
    }
}

/// The tokens of a response are the sum of what its deltas report, kind by kind.
pub proof fn law_tokens_are_added_up(m: CollectorModel, deltas: Seq<StreamDeltaModel>)
    requires
        usage_fits(m.usage, deltas),
    ensures
        ({
            let usage = m.accept(deltas).usage;
            &&& usage.input_tokens == m.usage.input_tokens + reported(
                deltas,
                |u: Usage| u.input_tokens as int,
            )
            &&& usage.output_tokens == m.usage.output_tokens + reported(
                deltas,
                |u: Usage| u.output_tokens as int,
            )
            &&& usage.cached_input_tokens == m.usage.cached_input_tokens + reported(
                deltas,
                |u: Usage| u.cached_input_tokens as int,
            )
            &&& usage.cache_miss_input_tokens == m.usage.cache_miss_input_tokens + reported(
                deltas,
                |u: Usage| u.cache_miss_input_tokens as int,
            )
            &&& usage.reasoning_output_tokens == m.usage.reasoning_output_tokens + reported(
                deltas,
                |u: Usage| u.reasoning_output_tokens as int,
            )
        }),
    decreases deltas.len(),
{
    crate::llm_response::lemma_accept_usage(m, deltas);
    if deltas.len() > 0 {
        law_tokens_are_added_up(m, deltas.drop_last());
        crate::llm_response::lemma_accept_usage(m, deltas.drop_last());
    }
}

/// Reasoning is shown as it comes and kept; token counts and the deltas of calls are not shown.
pub proof fn law_what_is_shown_of_a_response(
    m: CollectorModel,
    text: Seq<char>,
    usage: Usage,
    delta: StreamDeltaModel,
)
    ensures
        ({
            let n = m.accept_one(StreamDeltaModel::ReasoningDelta(text));
            &&& n.outbox == m.outbox.push(EventModel::ReasoningDelta(text))
            &&& n.accumulator.reasoning == m.accumulator.reasoning + text
            &&& n.accumulator.text == m.accumulator.text
            &&& n.blocks == m.blocks
            &&& n.usage == m.usage
        }),
        ({
            let n = m.accept_one(StreamDeltaModel::Usage(usage));
            &&& n.outbox == m.outbox
            &&& n.accumulator == m.accumulator
            &&& n.blocks == m.blocks
            &&& n.finish_reason == m.finish_reason
        }),
        delta is ToolUseStart || delta is ToolUseInput || delta is ToolUseEnd || delta
            is ProviderItem || delta is ReasoningMetadata || delta is Finished ==> {
            let n = m.accept_one(delta);
            n.outbox == m.outbox && n.usage == m.usage && n.title_filter == m.title_filter
        },
{
    let n = m.accept_one(StreamDeltaModel::ReasoningDelta(text));
    assert(n.blocks =~= m.blocks);
}

/// Once it is decided whether a response has a title, its text is shown and kept as it comes.
pub proof fn law_text_is_shown_as_it_comes(m: CollectorModel, text: Seq<char>)
    requires
        m.title_filter.decided,
        text.len() > 0,
    ensures
        ({
            let n = m.accept_one(StreamDeltaModel::TextDelta(text));
            &&& n.outbox == m.outbox.push(EventModel::TextDelta(text))
            &&& n.accumulator.text == m.accumulator.text + text
            &&& n.accumulator.reasoning == m.accumulator.reasoning
            &&& n.accumulator.open == m.accumulator.open
            &&& n.blocks == m.blocks
            &&& n.title_filter == m.title_filter
        }),
{
    let n = m.accept_one(StreamDeltaModel::TextDelta(text));
    assert(n.blocks =~= m.blocks);
}

} // verus!
