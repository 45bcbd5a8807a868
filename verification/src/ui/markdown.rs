//! Markdown drawn as lines of styled text.
use super::code::{highlighted_code, CodeHighlighter, Highlighting};
use super::editor::saturated;
use super::markdown_source::{
    markdown, read_markdown, MarkdownEvent, MarkdownModel, MarkdownTag, MarkdownTagEnd, TagModel,
};
use super::style::{
    append_lines, push_line, span, Color, Line, Span, SpanModel, Style,
};
use super::table::{render_table, table_lines, CellAlignment, Cell};
use super::width::{text_columns, text_width};
use super::wrap::{wrap_spans_to_width, wrapped};
use crate::text::{concat2, decimal, decimal_of, owned};
use crate::words::{repeat, repeated, replace, replaced};
use vstd::prelude::*;

verus! {

pub open spec fn inline_code_style() -> Style {
    Style {
        fg: Some(Color::Yellow),
        bg: Some(Color::Rgb(249, 249, 249)),
        ..Style::normal()
    }
}

pub open spec fn heading_style(level: u8) -> Style {
    Style {
        fg: if level <= 2 {
            Some(Color::Cyan)
        } else {
            None
        },
        bold: true,
        ..Style::normal()
    }
}

pub open spec fn link_style() -> Style {
    Style { fg: Some(Color::Blue), underlined: true, ..Style::normal() }
}

pub open spec fn marker_style() -> Style {
    Style { fg: Some(Color::Cyan), bold: true, ..Style::normal() }
}

/// Emoji replaced by symbols that every terminal draws in one column.
pub open spec fn normalized(text: Seq<char>) -> Seq<char> {
    let a = replace(text, "✅"@, "✓"@);
    let b = replace(a, "❌"@, "✗"@);
    let c = replace(b, "🔴"@, "●"@);
    let d = replace(c, "🟡"@, "●"@);
    let e = replace(d, "🔵"@, "●"@);
    let f = replace(e, "📊"@, "▣"@);
    let g = replace(f, "⚠️"@, "!"@);
    replace(g, "⚠"@, "!"@)
}

pub fn normalize_terminal_icons(text: &str) -> (r: String)
    ensures
        r@ == normalized(text@),
{
    proof {
        reveal_strlit("✅");
        reveal_strlit("❌");
        reveal_strlit("🔴");
        reveal_strlit("🟡");
        reveal_strlit("🔵");
        reveal_strlit("📊");
        reveal_strlit("⚠️");
        reveal_strlit("⚠");
    }
    let a = replaced(text, "✅", "✓");
    let b = replaced(a.as_str(), "❌", "✗");
    let c = replaced(b.as_str(), "🔴", "●");
    let d = replaced(c.as_str(), "🟡", "●");
    let e = replaced(d.as_str(), "🔵", "●");
    let f = replaced(e.as_str(), "📊", "▣");
    let g = replaced(f.as_str(), "⚠️", "!");
    replaced(g.as_str(), "⚠", "!")
}

/// A code block that is open.
#[derive(Debug)]
struct CodeBlockState {
    lang: String,
    code: String,
}

#[verifier::ext_equal]
pub struct CodeModel {
    pub lang: Seq<char>,
    pub code: Seq<char>,
}

impl DeepView for CodeBlockState {
    type V = CodeModel;

    closed spec fn deep_view(&self) -> CodeModel {
        CodeModel { lang: self.lang@, code: self.code@ }
    }
}

/// A table that is open.
#[derive(Debug)]
struct TableState {
    alignments: Vec<CellAlignment>,
    rows: Vec<Vec<Cell>>,
    current_row: Vec<Cell>,
    current_cell: Cell,
}

#[verifier::ext_equal]
pub struct TableModel {
    pub alignments: Seq<CellAlignment>,
    pub rows: Seq<Seq<Seq<SpanModel>>>,
    pub row: Seq<Seq<SpanModel>>,
    pub cell: Seq<SpanModel>,
}

impl DeepView for TableState {
    type V = TableModel;

    closed spec fn deep_view(&self) -> TableModel {
        TableModel {
            alignments: self.alignments@,
            rows: self.rows.deep_view(),
            row: self.current_row.deep_view(),
            cell: self.current_cell.deep_view(),
        }
    }
}

/// The lines drawn so far, and what is open.
pub struct RenderModel {
    pub width: usize,
    pub lines: Seq<Seq<SpanModel>>,
    pub current: Seq<SpanModel>,
    pub style: Style,
    pub styles: Seq<Style>,
    pub quotes: usize,
    pub lists: Seq<Option<u64>>,
    pub code: Option<CodeModel>,
    pub table: Option<TableModel>,
    pub colors: Highlighting,
}

pub open spec fn quote_marks(n: nat) -> Seq<SpanModel>
    decreases n,
{
    if n == 0 {
        Seq::empty()
    } else {
        quote_marks((n - 1) as nat).push(span("│ "@, Style::colored(Color::DarkGray)))
    }
}

impl RenderModel {
    pub open spec fn start(width: usize, colors: Highlighting) -> RenderModel {
        RenderModel {
            width,
            lines: Seq::empty(),
            current: Seq::empty(),
            style: Style::normal(),
            styles: Seq::empty(),
            quotes: 0,
            lists: Seq::empty(),
            code: None,
            table: None,
            colors,
        }
    }

    /// The open line ended.
    pub open spec fn end_line(self) -> RenderModel {
        if self.current.len() == 0 {
            self
        } else {
            RenderModel { lines: self.lines.push(self.current), current: Seq::empty(), ..self }
        }
    }

    /// The open line, with the marks of the quotes where it is still empty.
    pub open spec fn prefixed(self) -> Seq<SpanModel> {
        if self.current.len() == 0 {
            quote_marks(self.quotes as nat)
        } else {
            self.current
        }
    }

    /// One more piece, in the cell of a table that is open or on the line.
    pub open spec fn add_piece(self, text: Seq<char>, style: Style) -> RenderModel {
        if text.len() == 0 {
            self
        } else {
            match self.table {
                Some(table) => RenderModel {
                    table: Some(TableModel { cell: table.cell.push(span(text, style)), ..table }),
                    ..self
                },
                None => RenderModel { current: self.prefixed().push(span(text, style)), ..self },
            }
        }
    }

    pub open spec fn add_text(self, text: Seq<char>) -> RenderModel {
        self.add_piece(normalized(text), self.style)
    }

    pub open spec fn push_style(self, over: Style) -> RenderModel {
        RenderModel {
            styles: self.styles.push(self.style),
            style: self.style.patched(over),
            ..self
        }
    }

    pub open spec fn pop_style(self) -> RenderModel {
        if self.styles.len() == 0 {
            self
        } else {
            RenderModel { style: self.styles.last(), styles: self.styles.drop_last(), ..self }
        }
    }

    /// The marker of the next item of the innermost list.
    pub open spec fn item_marker(self) -> Seq<char> {
        if self.lists.len() > 0 && self.lists.last() is Some {
            decimal(self.lists.last()->0 as nat) + ". "@
        } else {
            "• "@
        }
    }

    pub open spec fn start_item(self) -> RenderModel {
        let depth = if self.lists.len() == 0 {
            0
        } else {
            (self.lists.len() - 1) as nat
        };
        let indented = if depth > 0 {
            self.prefixed().push(span(repeat("  "@, depth), Style::normal()))
        } else {
            self.prefixed()
        };
        RenderModel {
            current: indented.push(span(self.item_marker(), marker_style())),
            lists: if self.lists.len() > 0 && self.lists.last() is Some {
                let next = self.lists.last()->0;
                self.lists.update(
                    self.lists.len() - 1,
                    Some(
                        if next == u64::MAX {
                            next
                        } else {
                            (next + 1) as u64
                        },
                    ),
                )
            } else {
                self.lists
            },
            ..self
        }
    }

    /// The open code block drawn.
    pub open spec fn end_code(self) -> RenderModel {
        match self.code {
            Some(block) => RenderModel {
                lines: self.lines + highlighted_code(self.colors, block.code, block.lang),
                code: None,
                ..self
            },
            None => self,
        }
    }

    pub open spec fn add_code(self, text: Seq<char>) -> RenderModel {
        match self.code {
            Some(block) => RenderModel {
                code: Some(CodeModel { code: block.code + text, ..block }),
                ..self
            },
            None => self,
        }
    }

    pub open spec fn start_tag(self, tag: TagModel) -> RenderModel {
        match tag {
            TagModel::Heading(level) => self.push_style(heading_style(level)),
            TagModel::BlockQuote => RenderModel {
                quotes: saturated(self.quotes + 1),
                ..self.end_line()
            },
            TagModel::CodeBlock(lang) => RenderModel {
                code: Some(
                    CodeModel {
                        lang: match lang {
                            Some(lang) => lang,
                            None => Seq::empty(),
                        },
                        code: Seq::empty(),
                    },
                ),
                ..self.end_line()
            },
            TagModel::List(first) => RenderModel { lists: self.lists.push(first), ..self },
            TagModel::Item => self.start_item(),
            TagModel::Emphasis => self.push_style(Style { italic: true, ..Style::normal() }),
            TagModel::Strong => self.push_style(Style { bold: true, ..Style::normal() }),
            TagModel::Strikethrough => self.push_style(
                Style { crossed_out: true, ..Style::normal() },
            ),
            TagModel::Link => self.push_style(link_style()),
            TagModel::Table(alignments) => RenderModel {
                table: Some(
                    TableModel {
                        alignments,
                        rows: Seq::empty(),
                        row: Seq::empty(),
                        cell: Seq::empty(),
                    },
                ),
                ..self.end_line()
            },
            TagModel::TableRow => match self.table {
                Some(table) => RenderModel {
                    table: Some(TableModel { row: Seq::empty(), ..table }),
                    ..self
                },
                None => self,
            },
            TagModel::TableCell => match self.table {
                Some(table) => RenderModel {
                    table: Some(TableModel { cell: Seq::empty(), ..table }),
                    ..self
                },
                None => self,
            },
            TagModel::Other => self,
        }
    }

    pub open spec fn end_tag(self, tag: MarkdownTagEnd) -> RenderModel {
        match tag {
            MarkdownTagEnd::Paragraph => self.end_line(),
            MarkdownTagEnd::Heading => self.pop_style().end_line(),
            MarkdownTagEnd::BlockQuote => RenderModel {
                quotes: saturated(self.quotes - 1),
                ..self.end_line()
            },
            MarkdownTagEnd::CodeBlock => self.end_code(),
            MarkdownTagEnd::List => RenderModel {
                lists: if self.lists.len() == 0 {
                    self.lists
                } else {
                    self.lists.drop_last()
                },
                ..self.end_line()
            },
            MarkdownTagEnd::Item => self.end_line(),
            MarkdownTagEnd::Inline => self.pop_style(),
            MarkdownTagEnd::Table => match self.table {
                Some(table) => RenderModel {
                    lines: self.lines + table_lines(table.rows, table.alignments, self.width),
                    table: None,
                    ..self
                },
                None => self,
            },
            MarkdownTagEnd::TableRow => match self.table {
                Some(table) => if table.row.len() == 0 {
                    self
                } else {
                    RenderModel {
                        table: Some(
                            TableModel {
                                rows: table.rows.push(table.row),
                                row: Seq::empty(),
                                ..table
                            },
                        ),
                        ..self
                    }
                },
                None => self,
            },
            MarkdownTagEnd::TableCell => match self.table {
                Some(table) => RenderModel {
                    table: Some(
                        TableModel {
                            row: table.row.push(table.cell),
                            cell: Seq::empty(),
                            ..table
                        },
                    ),
                    ..self
                },
                None => self,
            },
            MarkdownTagEnd::Other => self,
        }
    }

    /// An event inside a code block: only its end and its text count.
    pub open spec fn code_event(self, event: MarkdownModel) -> RenderModel {
        match event {
            MarkdownModel::End(MarkdownTagEnd::CodeBlock) => self.end_code(),
            MarkdownModel::Text(text) => self.add_code(text),
            MarkdownModel::Code(text) => self.add_code(text),
            MarkdownModel::Break => self.add_code("\n"@),
            _ => self,
        }
    }

    pub open spec fn event(self, event: MarkdownModel) -> RenderModel {
        if self.code is Some {
            self.code_event(event)
        } else {
            match event {
                MarkdownModel::Start(tag) => self.start_tag(tag),
                MarkdownModel::End(tag) => self.end_tag(tag),
                MarkdownModel::Text(text) => self.add_text(text),
                MarkdownModel::Html(text) => self.add_text(text),
                MarkdownModel::Code(text) => self.add_piece(text, inline_code_style()),
                MarkdownModel::Break => self.end_line(),
                MarkdownModel::Rule => RenderModel {
                    lines: self.end_line().lines.push(
                        seq![span("────────────────────────"@, Style::colored(Color::DarkGray))],
                    ),
                    ..self.end_line()
                },
                MarkdownModel::TaskListMarker(done) => self.add_text(
                    if done {
                        "[x] "@
                    } else {
                        "[ ] "@
                    },
                ),
                MarkdownModel::Other => self,
            }
        }
    }

    pub open spec fn events(self, events: Seq<MarkdownModel>) -> RenderModel
        decreases events.len(),
    {
        if events.len() == 0 {
            self
        } else {
            self.events(events.drop_last()).event(events.last())
        }
    }
}

/// Some lines, each broken so that it fits.
pub open spec fn all_wrapped(lines: Seq<Seq<SpanModel>>, width: usize) -> Seq<Seq<SpanModel>>
    decreases lines.len(),
{
    if lines.len() == 0 {
        Seq::empty()
    } else {
        all_wrapped(lines.drop_last(), width) + wrapped(lines.last(), width)
    }
}

/// The lines that some events are drawn as.
pub open spec fn rendered(events: Seq<MarkdownModel>, width: usize, colors: Highlighting) -> Seq<
    Seq<SpanModel>,
> {
    let end = RenderModel::start(width, colors).events(events).end_line().end_code();
    all_wrapped(end.lines, width)
}

struct MarkdownTerminalRenderer<'h> {
    terminal_width: usize,
    lines: Vec<Line>,
    current: Line,
    style: Style,
    style_stack: Vec<Style>,
    quote_depth: usize,
    list_stack: Vec<Option<u64>>,
    code_block: Option<CodeBlockState>,
    table: Option<TableState>,
    highlighter: &'h CodeHighlighter,
}

impl<'h> View for MarkdownTerminalRenderer<'h> {
    type V = RenderModel;

    closed spec fn view(&self) -> RenderModel {
        RenderModel {
            width: self.terminal_width,
            lines: self.lines.deep_view(),
            current: self.current.deep_view(),
            style: self.style,
            styles: self.style_stack@,
            quotes: self.quote_depth,
            lists: self.list_stack@,
            code: self.code_block.deep_view(),
            table: self.table.deep_view(),
            colors: self.highlighter@,
        }
    }
}

impl<'h> MarkdownTerminalRenderer<'h> {
    fn new(terminal_width: usize, highlighter: &'h CodeHighlighter) -> (r: Self)
        ensures
            r@ == RenderModel::start(terminal_width, highlighter@),
    {
        let r = MarkdownTerminalRenderer {
            terminal_width,
            lines: Vec::new(),
            current: Line::blank(),
            style: Style::plain(),
            style_stack: Vec::new(),
            quote_depth: 0,
            list_stack: Vec::new(),
            code_block: None,
            table: None,
            highlighter,
        };
        assert(r.lines.deep_view() =~= Seq::empty());
        assert(r.style_stack@ =~= Seq::empty());
        assert(r.list_stack@ =~= Seq::empty());
        r
    }

    fn finish_line(&mut self)
        ensures
            final(self)@ == old(self)@.end_line(),
    {
        if self.current.spans.len() == 0 {
            assert(self@.current.len() == 0);
            return;
        }
        let mut done = Line::blank();
        core::mem::swap(&mut done, &mut self.current);
        push_line(&mut self.lines, done);
    }

    fn ensure_line_prefix(&mut self)
        ensures
            final(self)@ == (RenderModel { current: old(self)@.prefixed(), ..old(self)@ }),
    {
        if self.current.spans.len() > 0 {
            assert(self@.current.len() > 0);
            return;
        }
        let mut i: usize = 0;
        let ghost before = *self;
        assert(self.current.deep_view() =~= quote_marks(0));
        while i < self.quote_depth
            invariant
                i <= self.quote_depth,
                self.current.deep_view() == quote_marks(i as nat),
                self.quote_depth == before.quote_depth,
                self@ == (RenderModel { current: self.current.deep_view(), ..before@ }),
            decreases self.quote_depth - i,
        {
            self.current.push(Span::styled("│ ", Style::of(Color::DarkGray)));
            i += 1;
        }
    }

    fn push_span(&mut self, text: String, style: Style)
        ensures
            final(self)@ == old(self)@.add_piece(text@, style),
    {
        if text.as_str().is_empty() {
            return;
        }
        match self.table.take() {
            Some(table) => {
                let mut table = table;
                let ghost before = table.current_cell.deep_view();
                let piece = Span { content: text, style };
                let ghost added = piece.deep_view();
                table.current_cell.push(piece);
                assert(table.current_cell.deep_view() =~= before.push(added));
                self.table = Some(table);
            },
            None => {
                self.ensure_line_prefix();
                self.current.push(Span { content: text, style });
            },
        }
    }

    fn push_text(&mut self, text: &str)
        ensures
            final(self)@ == old(self)@.add_text(text@),
    {
        let style = self.style;
        self.push_span(normalize_terminal_icons(text), style);
    }

    fn push_style(&mut self, over: Style)
        ensures
            final(self)@ == old(self)@.push_style(over),
    {
        self.style_stack.push(self.style);
        self.style = self.style.patch(over);
    }

    fn pop_style(&mut self)
        ensures
            final(self)@ == old(self)@.pop_style(),
    {
        if let Some(previous) = self.style_stack.pop() {
            self.style = previous;
        }
    }

    fn start_list_item(&mut self)
        ensures
            final(self)@ == old(self)@.start_item(),
    {
        let ghost before = self@;
        let n: usize = self.list_stack.len();
        let depth: usize = if n == 0 {
            0
        } else {
            n - 1
        };
        let number = if n > 0 {
            self.list_stack[n - 1]
        } else {
            None
        };
        let marker = match number {
            Some(number) => concat2(decimal_of(number).as_str(), ". "),
            None => owned("• "),
        };
        self.ensure_line_prefix();
        if depth > 0 {
            self.current.push(Span::raw(repeated("  ", depth).as_str()));
        }
        self.current.push(
            Span {
                content: marker,
                style: Style { fg: Some(Color::Cyan), bold: true, ..Style::plain() },
            },
        );
        if let Some(number) = number {
            self.list_stack[n - 1] = Some(
                if number == u64::MAX {
                    number
                } else {
                    number + 1
                },
            );
        }
        assert(self@.lists =~= before.start_item().lists);
    }

    fn finish_code_block(&mut self)
        ensures
            final(self)@ == old(self)@.end_code(),
    {
        match self.code_block.take() {
            Some(block) => {
                let lines = self.highlighter.highlight_code(block.code.as_str(), block.lang.as_str());
                append_lines(&mut self.lines, lines);
            },
            None => {},
        }
    }

    fn push_code(&mut self, text: &str)
        ensures
            final(self)@ == old(self)@.add_code(text@),
    {
        match self.code_block.take() {
            Some(block) => {
                let mut block = block;
                block.code.append(text);
                self.code_block = Some(block);
            },
            None => {},
        }
    }

    fn start_table(&mut self, alignments: Vec<CellAlignment>)
        ensures
            final(self)@ == old(self)@.start_tag(TagModel::Table(alignments@)),
    {
        self.finish_line();
        let table = TableState {
            alignments,
            rows: Vec::new(),
            current_row: Vec::new(),
            current_cell: Vec::new(),
        };
        proof {
            assert(table.rows.deep_view() =~= Seq::empty());
            assert(table.current_row.deep_view() =~= Seq::empty());
            assert(table.current_cell.deep_view() =~= Seq::empty());
        }
        self.table = Some(table);
    }

    fn start_table_row(&mut self)
        ensures
            final(self)@ == old(self)@.start_tag(TagModel::TableRow),
    {
        if let Some(table) = self.table.take() {
            let mut table = table;
            table.current_row = Vec::new();
            assert(table.current_row.deep_view() =~= Seq::empty());
            self.table = Some(table);
        }
    }

    fn start_table_cell(&mut self)
        ensures
            final(self)@ == old(self)@.start_tag(TagModel::TableCell),
    {
        if let Some(table) = self.table.take() {
            let mut table = table;
            table.current_cell = Vec::new();
            assert(table.current_cell.deep_view() =~= Seq::empty());
            self.table = Some(table);
        }
    }

    fn start_tag(&mut self, tag: MarkdownTag)
        ensures
            final(self)@ == old(self)@.start_tag(tag.deep_view()),
    {
        match tag {
            MarkdownTag::Heading(level) => self.push_style(
                Style {
                    fg: if level <= 2 {
                        Some(Color::Cyan)
                    } else {
                        None
                    },
                    bold: true,
                    ..Style::plain()
                },
            ),
            MarkdownTag::BlockQuote => {
                self.finish_line();
                self.quote_depth = self.quote_depth.saturating_add(1);
            },
            MarkdownTag::CodeBlock(lang) => {
                self.finish_line();
                let lang = match lang {
                    Some(lang) => lang,
                    None => String::new(),
                };
                let block = CodeBlockState { lang, code: String::new() };
                assert(block.code@ =~= Seq::empty());
                assert(tag.deep_view()->CodeBlock_0 is None ==> block.lang@ =~= Seq::empty());
                self.code_block = Some(block);
            },
            MarkdownTag::List(first) => self.list_stack.push(first),
            MarkdownTag::Item => self.start_list_item(),
            MarkdownTag::Emphasis => self.push_style(Style { italic: true, ..Style::plain() }),
            MarkdownTag::Strong => self.push_style(Style { bold: true, ..Style::plain() }),
            MarkdownTag::Strikethrough => self.push_style(
                Style { crossed_out: true, ..Style::plain() },
            ),
            MarkdownTag::Link => self.push_style(
                Style { fg: Some(Color::Blue), underlined: true, ..Style::plain() },
            ),
            MarkdownTag::Table(alignments) => self.start_table(alignments),
            MarkdownTag::TableRow => self.start_table_row(),
            MarkdownTag::TableCell => self.start_table_cell(),
            MarkdownTag::Other => {},
        }
    }

    fn finish_table_cell(&mut self)
        ensures
            final(self)@ == old(self)@.end_tag(MarkdownTagEnd::TableCell),
    {
        if let Some(table) = self.table.take() {
            let mut table = table;
            let ghost before = table.deep_view();
            let mut cell: Vec<Span> = Vec::new();
            core::mem::swap(&mut cell, &mut table.current_cell);
            let ghost added = cell.deep_view();
            table.current_row.push(cell);
            assert(table.current_row.deep_view() =~= before.row.push(added));
            assert(table.current_cell.deep_view() =~= Seq::empty());
            self.table = Some(table);
        }
    }

    fn finish_table_row(&mut self)
        ensures
            final(self)@ == old(self)@.end_tag(MarkdownTagEnd::TableRow),
    {
        if let Some(table) = self.table.take() {
            let mut table = table;
            let ghost before = table.deep_view();
            if table.current_row.len() > 0 {
                let mut row: Vec<Cell> = Vec::new();
                core::mem::swap(&mut row, &mut table.current_row);
                let ghost added = row.deep_view();
                table.rows.push(row);
                assert(table.rows.deep_view() =~= before.rows.push(added));
                assert(table.current_row.deep_view() =~= Seq::empty());
            } else {
                assert(before.row.len() == 0);
            }
            self.table = Some(table);
        }
    }

    fn finish_table(&mut self)
        ensures
            final(self)@ == old(self)@.end_tag(MarkdownTagEnd::Table),
    {
        if let Some(table) = self.table.take() {
            let lines = render_table(&table.rows, &table.alignments, self.terminal_width);
            append_lines(&mut self.lines, lines);
        }
    }

    fn end_tag(&mut self, tag: MarkdownTagEnd)
        ensures
            final(self)@ == old(self)@.end_tag(tag),
    {
        match tag {
            MarkdownTagEnd::Paragraph => self.finish_line(),
            MarkdownTagEnd::Heading => {
                self.pop_style();
                self.finish_line();
            },
            MarkdownTagEnd::BlockQuote => {
                self.finish_line();
                self.quote_depth = self.quote_depth.saturating_sub(1);
            },
            MarkdownTagEnd::CodeBlock => self.finish_code_block(),
            MarkdownTagEnd::List => {
                self.finish_line();
                let ghost before = self.list_stack@;
                let _ = self.list_stack.pop();
                assert(before.len() == 0 ==> self.list_stack@ =~= before);
            },
            MarkdownTagEnd::Item => self.finish_line(),
            MarkdownTagEnd::Inline => self.pop_style(),
            MarkdownTagEnd::Table => self.finish_table(),
            MarkdownTagEnd::TableRow => self.finish_table_row(),
            MarkdownTagEnd::TableCell => self.finish_table_cell(),
            MarkdownTagEnd::Other => {},
        }
    }

    fn handle_code_block_event(&mut self, event: MarkdownEvent)
        ensures
            final(self)@ == old(self)@.code_event(event.deep_view()),
    {
        match event {
            MarkdownEvent::End(MarkdownTagEnd::CodeBlock) => self.finish_code_block(),
            MarkdownEvent::Text(text) => self.push_code(text.as_str()),
            MarkdownEvent::Code(text) => self.push_code(text.as_str()),
            MarkdownEvent::Break => self.push_code("\n"),
            _ => {},
        }
    }

    fn handle_event(&mut self, event: MarkdownEvent)
        ensures
            final(self)@ == old(self)@.event(event.deep_view()),
    {
        if self.code_block.is_some() {
            self.handle_code_block_event(event);
            return;
        }
        match event {
            MarkdownEvent::Start(tag) => self.start_tag(tag),
            MarkdownEvent::End(tag) => self.end_tag(tag),
            MarkdownEvent::Text(text) => self.push_text(text.as_str()),
            MarkdownEvent::Html(text) => self.push_text(text.as_str()),
            MarkdownEvent::Code(text) => self.push_span(
                text,
                Style {
                    fg: Some(Color::Yellow),
                    bg: Some(Color::Rgb(249, 249, 249)),
                    ..Style::plain()
                },
            ),
            MarkdownEvent::Break => self.finish_line(),
            MarkdownEvent::Rule => {
                self.finish_line();
                let rule = Span::styled("────────────────────────", Style::of(Color::DarkGray));
                push_line(&mut self.lines, Line::of(rule));
            },
            MarkdownEvent::TaskListMarker(done) => self.push_text(
                if done {
                    "[x] "
                } else {
                    "[ ] "
                },
            ),
            MarkdownEvent::Other => {},
        }
    }
}

fn wrap_rendered_lines_to_width(lines: &Vec<Line>, width: usize) -> (r: Vec<Line>)
    ensures
        r.deep_view() == all_wrapped(lines.deep_view(), width),
{
    let ghost all = lines.deep_view();
    let mut out: Vec<Line> = Vec::new();
    let mut i: usize = 0;
    assert(all.take(0) =~= Seq::empty());
    assert(out.deep_view() =~= Seq::empty());
    while i < lines.len()
        invariant
            all == lines.deep_view(),
            i <= lines.len(),
            out.deep_view() == all_wrapped(all.take(i as int), width),
        decreases lines.len() - i,
    {
        assert(all.take(i + 1).drop_last() =~= all.take(i as int));
        assert(all[i as int] == lines@[i as int].deep_view());
        append_lines(&mut out, wrap_spans_to_width(&lines[i].spans, width));
        i += 1;
    }
    assert(all.take(i as int) =~= all);
    out
}

/// Draws the events of a Markdown text in `terminal_width` columns.
pub fn render_events(
    events: Vec<MarkdownEvent>,
    terminal_width: usize,
    highlighter: &CodeHighlighter,
) -> (r: Vec<Line>)
    ensures
        r.deep_view() == rendered(events.deep_view(), terminal_width, highlighter@),
{
    let ghost all = events.deep_view();
    let ghost items = events@;
    let mut renderer = MarkdownTerminalRenderer::new(terminal_width, highlighter);
    assert(all.take(0) =~= Seq::empty());
    for event in it: events
        invariant
            it.seq() == items,
            all.len() == items.len(),
            forall|i: int| 0 <= i < items.len() ==> #[trigger] all[i] == items[i].deep_view(),
            renderer@ == RenderModel::start(terminal_width, highlighter@).events(all.take(it.index())),
    {
        assert(all.take(it.index() + 1).drop_last() =~= all.take(it.index()));
        assert(all[it.index()] == items[it.index()].deep_view());
        renderer.handle_event(event);
    }
    assert(all.take(all.len() as int) =~= all);
    renderer.finish_line();
    renderer.finish_code_block();
    wrap_rendered_lines_to_width(&renderer.lines, terminal_width)
}

/// Draws a Markdown text.
pub fn render_markdown_message(
    content: &str,
    terminal_width: usize,
    highlighter: &CodeHighlighter,
) -> (r: Vec<Line>)
    ensures
        r.deep_view() == rendered(markdown(content@), terminal_width, highlighter@),
{
    render_events(read_markdown(content), terminal_width, highlighter)
}

/// What stands in front of a message.
#[derive(Debug, Clone, Copy)]
pub struct Prefix {
    pub text: &'static str,
    pub color: Color,
}

/// The columns that are left beside a prefix, of which there is at least one.
pub open spec fn room_beside(width: u16, prefix: Option<Prefix>) -> usize {
    let used = match prefix {
        Some(prefix) => text_columns(prefix.text@) as int,
        None => 0,
    };
    if width - used < 1 {
        1
    } else {
        (width - used) as usize
    }
}

/// A line behind a prefix: the prefix itself on the first line, blanks on the others.
pub open spec fn behind(
    prefix: Option<Prefix>,
    first: bool,
    line: Seq<SpanModel>,
) -> Seq<SpanModel> {
    match prefix {
        Some(prefix) => if first {
            seq![span(prefix.text@, Style::colored(prefix.color))] + line
        } else {
            seq![span(repeat(" "@, text_columns(prefix.text@) as nat), Style::normal())] + line
        },
        None => line,
    }
}

/// Some lines behind a prefix. There is at least one line.
pub open spec fn all_behind(prefix: Option<Prefix>, lines: Seq<Seq<SpanModel>>) -> Seq<
    Seq<SpanModel>,
> {
    if lines.len() == 0 {
        seq![Seq::empty()]
    } else {
        Seq::new(lines.len(), |i: int| behind(prefix, i == 0, lines[i]))
    }
}

/// A message as it is shown.
pub open spec fn message_lines(
    content: Seq<char>,
    prefix: Option<Prefix>,
    width: u16,
    colors: Highlighting,
) -> Seq<Seq<SpanModel>> {
    all_behind(prefix, rendered(markdown(content), room_beside(width, prefix), colors))
}

fn prefix_lines(lines: Vec<Line>, prefix: Option<Prefix>) -> (r: Vec<Line>)
    ensures
        r.deep_view() == all_behind(prefix, lines.deep_view()),
{
    let ghost all = all_behind(prefix, lines.deep_view());
    let ghost given = lines.deep_view();
    let mut out: Vec<Line> = Vec::new();
    if lines.len() == 0 {
        push_line(&mut out, Line::blank());
        assert(out.deep_view() =~= all);
        return out;
    }
    assert(out.deep_view() =~= all.take(0));
    let ghost items = lines@;
    let mut first = true;
    for line in it: lines
        invariant
            it.seq() == items,
            given.len() == items.len(),
            items.len() > 0,
            forall|i: int| 0 <= i < items.len() ==> #[trigger] given[i] == items[i].deep_view(),
            all == all_behind(prefix, given),
            first == (it.index() == 0),
            out.deep_view() == all.take(it.index()),
    {
        assert(given[it.index()] == items[it.index()].deep_view());
        let ghost own = line.deep_view();
        let next = match prefix {
            Some(prefix) => {
                let head = if first {
                    Span::styled(prefix.text, Style::of(prefix.color))
                } else {
                    Span::raw(repeated(" ", text_width(prefix.text)).as_str())
                };
                let ghost start = head.deep_view();
                let mut next = Line::of(head);
                let mut rest = line.spans;
                next.spans.append(&mut rest);
                assert(next.deep_view() =~= seq![start] + own);
                next
            },
            None => line,
        };
        push_line(&mut out, next);
        first = false;
        assert(out.deep_view() =~= all.take(it.index() + 1));
    }
    assert(out.deep_view() =~= all);
    out
}

/// Draws a message behind its prefix.
pub fn render_message_lines(
    content: &str,
    prefix: Option<Prefix>,
    full_width: u16,
    highlighter: &CodeHighlighter,
) -> (r: Vec<Line>)
    ensures
        r.deep_view() == message_lines(content@, prefix, full_width, highlighter@),
{
    let used: usize = match prefix {
        Some(prefix) => text_width(prefix.text),
        None => 0,
    };
    let room: usize = if used >= full_width as usize {
        1
    } else {
        full_width as usize - used
    };
    let lines = render_markdown_message(content, room, highlighter);
    prefix_lines(lines, prefix)
}

/// Style tags that are closed leave the style as it was, whatever was drawn between.
pub proof fn law_styles_are_restored(render: RenderModel, over: Style)
    ensures
        render.push_style(over).pop_style().style == render.style,
        render.push_style(over).pop_style().styles == render.styles,
{
    assert(render.push_style(over).styles.drop_last() =~= render.styles);
}

/// Nested styles add up: what an outer tag set stays set inside an inner one.
pub proof fn law_nested_styles_keep_modifiers(outer: Style, inner: Style)
    ensures
        ({
            let both = Style::normal().patched(outer).patched(inner);
            &&& outer.bold || inner.bold ==> both.bold
            &&& outer.italic || inner.italic ==> both.italic
            &&& outer.underlined || inner.underlined ==> both.underlined
            &&& outer.crossed_out || inner.crossed_out ==> both.crossed_out
            &&& inner.fg is Some ==> both.fg == inner.fg
            &&& inner.fg is None ==> both.fg == outer.fg
        }),
{
}

} // verus!
