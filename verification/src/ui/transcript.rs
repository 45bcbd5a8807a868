//! The transcript as lines of styled text.
use super::banner::{header_lines, startup_header_lines, HeaderModel, StartupHeader};
use super::code::{CodeHighlighter, Highlighting};
use super::diff::{diff_message, render_diff_message};
use super::markdown::{message_lines, render_message_lines, Prefix};
use super::style::{
    append_lines, push_line, span, Color, Line, Span, SpanModel, Style,
};
use crate::session::{chat, copy_chat, ChatMessage, ChatModel};
use crate::text::{
    concat2, concat3, decimal, decimal_of, lemma_find_char_is, same_text, strip_prefix,
    without_prefix,
};
use crate::words::{parse_number, parsed_number};
use vstd::prelude::*;

verus! {

/// What the transcript is drawn from.
pub struct TranscriptModel {
    pub messages: Seq<ChatModel>,
    pub streaming: Seq<char>,
    pub reasoning: Seq<char>,
    pub elapsed: Option<u64>,
    pub expanded: bool,
}

pub open spec fn status_style() -> Style {
    Style::colored(Color::DarkGray)
}

/// The reasoning as it is shown: for how long it took, and where it is expanded, its text.
pub open spec fn reasoning_lines(
    content: Seq<char>,
    elapsed: u64,
    active: bool,
    expanded: bool,
    width: u16,
    colors: Highlighting,
) -> Seq<Seq<SpanModel>> {
    let label = span(
        if active {
            "Thinking ... "@
        } else {
            "Thought for "@
        },
        status_style(),
    );
    let time = span(
        decimal(elapsed as nat) + "s"@,
        Style { bold: true, ..status_style() },
    );
    let hint = span(
        if expanded {
            " (ctrl+o to collapse)"@
        } else {
            " (ctrl+o to expand)"@
        },
        status_style(),
    );
    let head = seq![
        if active {
            seq![label, time]
        } else {
            seq![label, time, hint]
        },
    ];
    if expanded && content.len() > 0 {
        head + message_lines(
            content,
            Some(Prefix { text: "  ", color: Color::DarkGray }),
            width,
            colors,
        )
    } else {
        head
    }
}

pub fn render_reasoning(
    content: &str,
    elapsed: u64,
    active: bool,
    expanded: bool,
    width: u16,
    highlighter: &CodeHighlighter,
) -> (r: Vec<Line>)
    ensures
        r.deep_view() == reasoning_lines(content@, elapsed, active, expanded, width, highlighter@),
{
    let quiet = Style::of(Color::DarkGray);
    let label = if active {
        "Thinking ... "
    } else {
        "Thought for "
    };
    let mut header = Line::of(Span::styled(label, quiet));
    let time = concat2(decimal_of(elapsed).as_str(), "s");
    header.push(Span { content: time, style: Style { bold: true, ..quiet } });
    if !active {
        let hint = if expanded {
            " (ctrl+o to collapse)"
        } else {
            " (ctrl+o to expand)"
        };
        header.push(Span::styled(hint, quiet));
    }
    let ghost first = header.deep_view();
    let mut lines: Vec<Line> = Vec::new();
    assert(lines.deep_view() =~= Seq::empty());
    push_line(&mut lines, header);
    assert(reasoning_lines(content@, elapsed, active, expanded, width, highlighter@)[0] =~= first);
    assert(lines.deep_view() =~= seq![first]);
    if expanded && !content.is_empty() {
        let more = render_message_lines(
            content,
            Some(Prefix { text: "  ", color: Color::DarkGray }),
            width,
            highlighter,
        );
        append_lines(&mut lines, more);
    }
    assert(lines.deep_view() =~= reasoning_lines(content@, elapsed, active, expanded, width, highlighter@));
    lines
}

/// What stands in front of a message, by the role of who speaks.
pub open spec fn prefix_of(role: Seq<char>) -> Option<Prefix> {
    if role == "user"@ {
        Some(Prefix { text: "> ", color: Color::Cyan })
    } else if role == "assistant"@ {
        Some(Prefix { text: "• ", color: Color::Green })
    } else if role == "tool"@ {
        Some(Prefix { text: "▸ ", color: Color::DarkGray })
    } else if role == "error"@ {
        Some(Prefix { text: "x ", color: Color::Red })
    } else {
        None
    }
}

fn role_prefix(role: &str) -> (r: Option<Prefix>)
    ensures
        r == prefix_of(role@),
{
    if same_text(role, "user") {
        Some(Prefix { text: "> ", color: Color::Cyan })
    } else if same_text(role, "assistant") {
        Some(Prefix { text: "• ", color: Color::Green })
    } else if same_text(role, "tool") {
        Some(Prefix { text: "▸ ", color: Color::DarkGray })
    } else if same_text(role, "error") {
        Some(Prefix { text: "x ", color: Color::Red })
    } else {
        None
    }
}

/// The seconds that a message of reasoning took, if it is one.
pub open spec fn reasoning_seconds(role: Seq<char>) -> Option<nat> {
    match strip_prefix(role, "reasoning:"@) {
        Some(seconds) => parsed_number(seconds),
        None => None,
    }
}

/// A message as it is shown.
#[verifier::opaque]
pub open spec fn chat_lines(
    message: ChatModel,
    width: u16,
    expanded: bool,
    colors: Highlighting,
) -> Seq<Seq<SpanModel>> {
    match reasoning_seconds(message.role) {
        Some(seconds) => reasoning_lines(
            message.content,
            seconds as u64,
            false,
            expanded,
            width,
            colors,
        ),
        None => if message.role == "diff"@ {
            diff_message(message.content, width)
        } else {
            message_lines(message.content, prefix_of(message.role), width, colors)
        },
    }
}

fn draw_message(
    role: &str,
    content: &str,
    width: u16,
    reasoning_expanded: bool,
    highlighter: &CodeHighlighter,
) -> (r: Vec<Line>)
    ensures
        r.deep_view() == chat_lines(chat(role@, content@), width, reasoning_expanded, highlighter@),
{
    reveal(chat_lines);
    let seconds = match without_prefix(role, "reasoning:") {
        Some(seconds) => parse_number(seconds.as_str()),
        None => None,
    };
    match seconds {
        Some(seconds) => render_reasoning(
            content,
            seconds,
            false,
            reasoning_expanded,
            width,
            highlighter,
        ),
        None => if same_text(role, "diff") {
            render_diff_message(content, width)
        } else {
            render_message_lines(content, role_prefix(role), width, highlighter)
        },
    }
}

pub fn render_chat_message(
    message: &ChatMessage,
    width: u16,
    reasoning_expanded: bool,
    highlighter: &CodeHighlighter,
) -> (r: Vec<Line>)
    ensures
        r.deep_view() == chat_lines(message.deep_view(), width, reasoning_expanded, highlighter@),
{
    draw_message(
        message.role.as_str(),
        message.content.as_str(),
        width,
        reasoning_expanded,
        highlighter,
    )
}

/// The messages as they are shown, with an empty line behind each.
pub open spec fn messages_lines(
    messages: Seq<ChatModel>,
    width: u16,
    expanded: bool,
    colors: Highlighting,
) -> Seq<Seq<SpanModel>>
    decreases messages.len(),
{
    if messages.len() == 0 {
        Seq::empty()
    } else {
        (messages_lines(messages.drop_last(), width, expanded, colors) + chat_lines(
            messages.last(),
            width,
            expanded,
            colors,
        )).push(Seq::empty())
    }
}

/// The lines of the header, if there is one, with an empty line behind them.
pub open spec fn top_lines(header: Option<HeaderModel>, width: u16) -> Seq<Seq<SpanModel>> {
    match header {
        Some(header) => header_lines(header, width).push(Seq::empty()),
        None => Seq::empty(),
    }
}

/// The reasoning that goes on, if there is any.
pub open spec fn active_reasoning(t: TranscriptModel, width: u16, colors: Highlighting) -> Seq<
    Seq<SpanModel>,
> {
    match t.elapsed {
        Some(elapsed) => reasoning_lines(
            t.reasoning,
            elapsed,
            true,
            t.expanded,
            width,
            colors,
        ).push(Seq::empty()),
        None => Seq::empty(),
    }
}

/// The answer that is being streamed, if there is any.
pub open spec fn active_answer(t: TranscriptModel, width: u16, colors: Highlighting) -> Seq<
    Seq<SpanModel>,
> {
    if t.streaming.len() == 0 {
        Seq::empty()
    } else {
        chat_lines(chat("assistant"@, t.streaming), width, t.expanded, colors).push(Seq::empty())
    }
}

/// The whole transcript, which has at least one line.
pub open spec fn transcript_lines(
    header: Option<HeaderModel>,
    t: TranscriptModel,
    width: u16,
    colors: Highlighting,
) -> Seq<Seq<SpanModel>> {
    let all = top_lines(header, width) + messages_lines(t.messages, width, t.expanded, colors)
        + active_reasoning(t, width, colors) + active_answer(t, width, colors);
    if all.len() == 0 {
        seq![Seq::empty()]
    } else {
        all
    }
}

fn push_gap(lines: &mut Vec<Line>)
    ensures
        final(lines).deep_view() == old(lines).deep_view().push(Seq::empty()),
{
    push_line(lines, Line::blank());
}

/// Draws the messages behind the lines that are there.
fn draw_messages(
    lines: &mut Vec<Line>,
    messages: &Vec<ChatMessage>,
    width: u16,
    reasoning_expanded: bool,
    highlighter: &CodeHighlighter,
)
    ensures
        final(lines).deep_view() == old(lines).deep_view() + messages_lines(
            messages.deep_view(),
            width,
            reasoning_expanded,
            highlighter@,
        ),
{
    let ghost top = lines.deep_view();
    let ghost all = messages.deep_view();
    let mut i: usize = 0;
    assert(all.take(0) =~= Seq::empty());
    assert(top =~= top + messages_lines(all.take(0), width, reasoning_expanded, highlighter@));
    while i < messages.len()
        invariant
            all == messages.deep_view(),
            i <= messages.len(),
            lines.deep_view() == top + messages_lines(
                all.take(i as int),
                width,
                reasoning_expanded,
                highlighter@,
            ),
        decreases messages.len() - i,
    {
        assert(all.take(i + 1).drop_last() =~= all.take(i as int));
        assert(all[i as int] == messages@[i as int].deep_view());
        let ghost drawn = messages_lines(all.take(i as int), width, reasoning_expanded, highlighter@);
        let more = render_chat_message(&messages[i], width, reasoning_expanded, highlighter);
        let ghost added = more.deep_view();
        append_lines(lines, more);
        push_gap(lines);
        i += 1;
        assert(((top + drawn) + added).push(Seq::empty()) =~= top + (drawn + added).push(
            Seq::empty(),
        ));
    }
    assert(all.take(i as int) =~= all);
}

#[verifier::spinoff_prover]
pub fn build_transcript_lines(
    startup_header: &Option<StartupHeader>,
    messages: &Vec<ChatMessage>,
    streaming_text: &str,
    reasoning_text: &str,
    reasoning_elapsed_secs: Option<u64>,
    reasoning_expanded: bool,
    width: u16,
    highlighter: &CodeHighlighter,
) -> (r: Vec<Line>)
    ensures
        r.deep_view() == transcript_lines(
            startup_header.deep_view(),
            TranscriptModel {
                messages: messages.deep_view(),
                streaming: streaming_text@,
                reasoning: reasoning_text@,
                elapsed: reasoning_elapsed_secs,
                expanded: reasoning_expanded,
            },
            width,
            highlighter@,
        ),
{
    let ghost t = TranscriptModel {
        messages: messages.deep_view(),
        streaming: streaming_text@,
        reasoning: reasoning_text@,
        elapsed: reasoning_elapsed_secs,
        expanded: reasoning_expanded,
    };
    let mut lines: Vec<Line> = Vec::new();
    assert(lines.deep_view() =~= Seq::empty());
    match startup_header {
        Some(header) => {
            let more = startup_header_lines(header, width);
            append_lines(&mut lines, more);
            push_gap(&mut lines);
            assert(lines.deep_view() =~= top_lines(startup_header.deep_view(), width));
        },
        None => {},
    }
    assert(lines.deep_view() =~= top_lines(startup_header.deep_view(), width));
    draw_messages(&mut lines, messages, width, reasoning_expanded, highlighter);
    let ghost before = lines.deep_view();
    match reasoning_elapsed_secs {
        Some(elapsed) => {
            let more = render_reasoning(
                reasoning_text,
                elapsed,
                true,
                reasoning_expanded,
                width,
                highlighter,
            );
            append_lines(&mut lines, more);
            push_gap(&mut lines);
        },
        None => {},
    }
    assert(lines.deep_view() =~= before + active_reasoning(t, width, highlighter@));
    let ghost before = lines.deep_view();
    if !streaming_text.is_empty() {
        let more = draw_message(
            "assistant",
            streaming_text,
            width,
            reasoning_expanded,
            highlighter,
        );
        append_lines(&mut lines, more);
        push_gap(&mut lines);
    }
    assert(lines.deep_view() =~= before + active_answer(t, width, highlighter@));
    if lines.len() == 0 {
        assert(lines.deep_view() =~= Seq::empty());
        push_gap(&mut lines);
        assert(lines.deep_view() =~= seq![Seq::<SpanModel>::empty()]);
    }
    lines
}

/// What tells one transcript from another.
pub open spec fn signature(t: TranscriptModel) -> Seq<ChatModel> {
    let marked = t.messages.push(chat("reasoning:expanded"@, truth(t.expanded)));
    let answered = if t.streaming.len() == 0 {
        marked
    } else {
        marked.push(chat("assistant:streaming"@, t.streaming))
    };
    match t.elapsed {
        Some(elapsed) => answered.push(
            chat(
                "reasoning:streaming"@,
                decimal(elapsed as nat) + ":"@ + truth(t.expanded) + ":"@ + t.reasoning,
            ),
        ),
        None => answered,
    }
}

pub open spec fn truth(b: bool) -> Seq<char> {
    if b {
        "true"@
    } else {
        "false"@
    }
}

fn truth_text(b: bool) -> (r: &'static str)
    ensures
        r@ == truth(b),
{
    if b {
        "true"
    } else {
        "false"
    }
}

fn push_chat(entries: &mut Vec<ChatMessage>, role: &str, content: &str)
    ensures
        final(entries).deep_view() == old(entries).deep_view().push(chat(role@, content@)),
{
    let ghost before = entries.deep_view();
    entries.push(ChatMessage::of(role, content));
    assert(entries.deep_view() =~= before.push(chat(role@, content@)));
}

pub fn transcript_signature(
    messages: &Vec<ChatMessage>,
    streaming_text: &str,
    reasoning_text: &str,
    reasoning_elapsed_secs: Option<u64>,
    reasoning_expanded: bool,
) -> (r: Vec<ChatMessage>)
    ensures
        r.deep_view() == signature(
            TranscriptModel {
                messages: messages.deep_view(),
                streaming: streaming_text@,
                reasoning: reasoning_text@,
                elapsed: reasoning_elapsed_secs,
                expanded: reasoning_expanded,
            },
        ),
{
    let mut entries = copy_chat(messages);
    push_chat(&mut entries, "reasoning:expanded", truth_text(reasoning_expanded));
    if !streaming_text.is_empty() {
        push_chat(&mut entries, "assistant:streaming", streaming_text);
    }
    match reasoning_elapsed_secs {
        Some(elapsed) => {
            let head = concat3(decimal_of(elapsed).as_str(), ":", truth_text(reasoning_expanded));
            let text = concat3(head.as_str(), ":", reasoning_text);
            push_chat(&mut entries, "reasoning:streaming", text.as_str());
        },
        None => {},
    }
    entries
}

fn same_entries(a: &Vec<ChatMessage>, b: &Vec<ChatMessage>) -> (r: bool)
    ensures
        r == (a.deep_view() == b.deep_view()),
{
    if a.len() != b.len() {
        assert(a.deep_view().len() != b.deep_view().len());
        return false;
    }
    let mut i: usize = 0;
    while i < a.len()
        invariant
            a.len() == b.len(),
            i <= a.len(),
            forall|j: int| 0 <= j < i ==> #[trigger] a.deep_view()[j] == b.deep_view()[j],
        decreases a.len() - i,
    {
        assert(a.deep_view()[i as int] == a@[i as int].deep_view());
        assert(b.deep_view()[i as int] == b@[i as int].deep_view());
        if !same_text(a[i].role.as_str(), b[i].role.as_str()) || !same_text(
            a[i].content.as_str(),
            b[i].content.as_str(),
        ) {
            return false;
        }
        assert(a.deep_view()[i as int] == b.deep_view()[i as int]);
        i += 1;
    }
    assert(a.deep_view() =~= b.deep_view());
    true
}

fn same_header(a: &Option<StartupHeader>, b: &Option<StartupHeader>) -> (r: bool)
    ensures
        r == (a.deep_view() == b.deep_view()),
{
    match (a, b) {
        (Some(a), Some(b)) => {
            let same = same_text(a.model.as_str(), b.model.as_str()) && same_text(
                a.directory.as_str(),
                b.directory.as_str(),
            );
            assert(same ==> a.deep_view() =~= b.deep_view());
            same
        },
        (None, None) => true,
        _ => false,
    }
}

proof fn lemma_decimal_is_digits(n: nat)
    ensures
        forall|i: int| 0 <= i < decimal(n).len() ==> #[trigger] decimal(n)[i] != ':',
    decreases n,
{
    if n >= 10 {
        lemma_decimal_is_digits(n / 10);
        assert forall|i: int| 0 <= i < decimal(n).len() implies #[trigger] decimal(n)[i] != ':' by {
            if i < decimal(n).len() - 1 {
                assert(decimal(n)[i] == decimal(n / 10)[i]);
            }
        }
    }
}

/// Two texts with the first colon behind a head without one have the same heads and rests.
proof fn lemma_split_at_colon(a: Seq<char>, x: Seq<char>, b: Seq<char>, y: Seq<char>)
    requires
        forall|i: int| 0 <= i < a.len() ==> a[i] != ':',
        forall|i: int| 0 <= i < b.len() ==> b[i] != ':',
        a + ":"@ + x == b + ":"@ + y,
    ensures
        a == b,
        x == y,
{
    reveal_strlit(":");
    let s = a + ":"@ + x;
    let t = b + ":"@ + y;
    assert forall|i: int| 0 <= i < a.len() implies s[i] != ':' by {
        assert(s[i] == a[i]);
    }
    assert forall|i: int| 0 <= i < b.len() implies t[i] != ':' by {
        assert(t[i] == b[i]);
    }
    lemma_find_char_is(s, ':', a.len() as int);
    lemma_find_char_is(t, ':', b.len() as int);
    assert(a =~= s.take(a.len() as int));
    assert(b =~= t.take(b.len() as int));
    assert(x =~= s.skip(a.len() as int + 1));
    assert(y =~= t.skip(b.len() as int + 1));
}

/// The same transcript has the same lines: what is drawn from one with the same signature can be
/// kept.
pub proof fn law_signatures_tell_transcripts_apart(
    header: Option<HeaderModel>,
    a: TranscriptModel,
    b: TranscriptModel,
    width: u16,
    colors: Highlighting,
)
    requires
        signature(a) == signature(b),
    ensures
        transcript_lines(header, a, width, colors) == transcript_lines(header, b, width, colors),
{
    reveal_strlit("reasoning:expanded");
    reveal_strlit("assistant:streaming");
    reveal_strlit("reasoning:streaming");
    reveal_strlit("true");
    reveal_strlit("false");
    let ma = a.messages.push(chat("reasoning:expanded"@, truth(a.expanded)));
    let mb = b.messages.push(chat("reasoning:expanded"@, truth(b.expanded)));
    let na = if a.streaming.len() == 0 {
        ma
    } else {
        ma.push(chat("assistant:streaming"@, a.streaming))
    };
    let nb = if b.streaming.len() == 0 {
        mb
    } else {
        mb.push(chat("assistant:streaming"@, b.streaming))
    };
    assert(ma.last().role == "reasoning:expanded"@);
    assert(mb.last().role == "reasoning:expanded"@);
    assert("reasoning:expanded"@[10] != "reasoning:streaming"@[10]);
    assert("reasoning:expanded"@[0] != "assistant:streaming"@[0]);
    assert("reasoning:streaming"@[0] != "assistant:streaming"@[0]);
    assert(na.last().role != "reasoning:streaming"@);
    assert(nb.last().role != "reasoning:streaming"@);
    let sa = signature(a);
    let sb = signature(b);
    assert(a.elapsed is Some ==> sa.last().role == "reasoning:streaming"@);
    assert(b.elapsed is Some ==> sb.last().role == "reasoning:streaming"@);
    assert(a.elapsed is Some <==> b.elapsed is Some);
    assert(a.elapsed is Some ==> sa.drop_last() =~= na);
    assert(b.elapsed is Some ==> sb.drop_last() =~= nb);
    assert(na == nb);
    assert(a.streaming.len() > 0 ==> na.last().role == "assistant:streaming"@);
    assert(b.streaming.len() > 0 ==> nb.last().role == "assistant:streaming"@);
    assert(a.streaming.len() > 0 ==> na.drop_last() =~= ma && na.last().content == a.streaming);
    assert(b.streaming.len() > 0 ==> nb.drop_last() =~= mb && nb.last().content == b.streaming);
    assert(a.streaming.len() > 0 <==> b.streaming.len() > 0);
    assert(a.streaming =~= b.streaming);
    assert(ma == mb);
    assert(ma.drop_last() =~= a.messages);
    assert(mb.drop_last() =~= b.messages);
    assert(ma.last().content == truth(a.expanded));
    assert(mb.last().content == truth(b.expanded));
    assert("true"@.len() != "false"@.len());
    assert(a.expanded == b.expanded);
    if a.elapsed is Some {
        let da = decimal((a.elapsed->0) as nat);
        let db = decimal((b.elapsed->0) as nat);
        let ra = truth(a.expanded) + ":"@ + a.reasoning;
        let rb = truth(b.expanded) + ":"@ + b.reasoning;
        lemma_decimal_is_digits((a.elapsed->0) as nat);
        lemma_decimal_is_digits((b.elapsed->0) as nat);
        assert(sa.last().content =~= da + ":"@ + ra);
        assert(sb.last().content =~= db + ":"@ + rb);
        lemma_split_at_colon(da, ra, db, rb);
        let head = (truth(a.expanded) + ":"@).len() as int;
        assert(ra.skip(head) =~= a.reasoning);
        assert(rb.skip(head) =~= b.reasoning);
        assert(active_reasoning(a, width, colors) == active_reasoning(b, width, colors));
    }
}

/// The lines of the transcript as they were last drawn.
pub struct TranscriptLineCache {
    pub width: u16,
    pub startup_header: Option<StartupHeader>,
    pub signature: Vec<ChatMessage>,
    pub lines: Vec<Line>,
}

impl TranscriptLineCache {
    /// The lines are those of every transcript with the signature that was kept, in these colours.
    pub open spec fn wf(self, colors: Highlighting) -> bool {
        forall|t: TranscriptModel|
            signature(t) == self.signature.deep_view() ==> #[trigger] transcript_lines(
                self.startup_header.deep_view(),
                t,
                self.width,
                colors,
            ) == self.lines.deep_view()
    }

    pub fn new() -> (r: Self)
        ensures
            forall|colors: Highlighting| r.wf(colors),
            r.lines.deep_view() == seq![Seq::<SpanModel>::empty()],
    {
        let mut lines: Vec<Line> = Vec::new();
        assert(lines.deep_view() =~= Seq::empty());
        push_gap(&mut lines);
        let r = TranscriptLineCache {
            width: 0,
            startup_header: None,
            signature: Vec::new(),
            lines,
        };
        assert(r.lines.deep_view() =~= seq![Seq::<SpanModel>::empty()]);
        assert forall|t: TranscriptModel| signature(t).len() > 0 by {
        }
        r
    }

    /// Draws the transcript, unless it is the one that was last drawn.
    pub fn ensure(
        &mut self,
        startup_header: &Option<StartupHeader>,
        messages: &Vec<ChatMessage>,
        streaming_text: &str,
        reasoning_text: &str,
        reasoning_elapsed_secs: Option<u64>,
        reasoning_expanded: bool,
        width: u16,
        highlighter: &CodeHighlighter,
    )
        requires
            old(self).wf(highlighter@),
        ensures
            final(self).wf(highlighter@),
            final(self).lines.deep_view() == transcript_lines(
                startup_header.deep_view(),
                TranscriptModel {
                    messages: messages.deep_view(),
                    streaming: streaming_text@,
                    reasoning: reasoning_text@,
                    elapsed: reasoning_elapsed_secs,
                    expanded: reasoning_expanded,
                },
                width,
                highlighter@,
            ),
    {
        let ghost t = TranscriptModel {
            messages: messages.deep_view(),
            streaming: streaming_text@,
            reasoning: reasoning_text@,
            elapsed: reasoning_elapsed_secs,
            expanded: reasoning_expanded,
        };
        let signature = transcript_signature(
            messages,
            streaming_text,
            reasoning_text,
            reasoning_elapsed_secs,
            reasoning_expanded,
        );
        if self.width != width || !same_header(&self.startup_header, startup_header)
            || !same_entries(&self.signature, &signature) {
            self.width = width;
            self.startup_header = match startup_header {
                Some(header) => Some(header.copy()),
                None => None,
            };
            self.signature = signature;
            self.lines = build_transcript_lines(
                startup_header,
                messages,
                streaming_text,
                reasoning_text,
                reasoning_elapsed_secs,
                reasoning_expanded,
                width,
                highlighter,
            );
            assert forall|other: TranscriptModel|
                self::signature(other) == self.signature.deep_view() implies #[trigger] transcript_lines(
                self.startup_header.deep_view(),
                other,
                self.width,
                highlighter@,
            ) == self.lines.deep_view() by {
                law_signatures_tell_transcripts_apart(
                    startup_header.deep_view(),
                    other,
                    t,
                    width,
                    highlighter@,
                );
            }
        } else {
            assert(self::signature(t) == self.signature.deep_view());
        }
    }
}

} // verus!
