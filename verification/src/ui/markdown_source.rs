//! Markdown as a sequence of events, read by the `pulldown_cmark` crate.
use super::table::CellAlignment;
use pulldown_cmark::{CodeBlockKind, CowStr, Event, HeadingLevel, Options, Parser, Tag, TagEnd};
use vstd::prelude::*;

verus! {

/// `pulldown_cmark::Event` is carried through; what is in one is told by `event_parts`.
#[verifier::external_type_specification]
#[verifier::external_body]
pub struct ExEvent<'a>(pulldown_cmark::Event<'a>);

/// `pulldown_cmark::Tag` is carried through; what is in one is told by `block_parts` and
/// `inline_parts`.
#[verifier::external_type_specification]
#[verifier::external_body]
pub struct ExTag<'a>(pulldown_cmark::Tag<'a>);

/// `pulldown_cmark::TagEnd` is carried through; which one it is is told by `block_end` and
/// `inline_end`.
#[verifier::external_type_specification]
#[verifier::external_body]
pub struct ExTagEnd(pulldown_cmark::TagEnd);

/// `pulldown_cmark::CowStr` is carried through; its characters are told by `cow_text`.
#[verifier::external_type_specification]
#[verifier::external_body]
pub struct ExCowStr<'a>(pulldown_cmark::CowStr<'a>);

/// `pulldown_cmark::HeadingLevel` is carried through; which one it is is told by `level_kind`.
#[verifier::external_type_specification]
#[verifier::external_body]
pub struct ExHeadingLevel(pulldown_cmark::HeadingLevel);

/// `pulldown_cmark::CodeBlockKind` is carried through; what is in one is told by `fence_parts`.
#[verifier::external_type_specification]
#[verifier::external_body]
pub struct ExCodeBlockKind<'a>(pulldown_cmark::CodeBlockKind<'a>);

/// `pulldown_cmark::Alignment` is carried through; which one it is is told by `column_kind`.
#[verifier::external_type_specification]
#[verifier::external_body]
pub struct ExAlignment(pulldown_cmark::Alignment);

/// An event of the parser, with its tag and its text still unread.
pub enum RawEvent {
    Start(Tag<'static>),
    End(TagEnd),
    Text(CowStr<'static>),
    Code(CowStr<'static>),
    InlineMath(CowStr<'static>),
    DisplayMath(CowStr<'static>),
    Html(CowStr<'static>),
    InlineHtml(CowStr<'static>),
    FootnoteReference(CowStr<'static>),
    SoftBreak,
    HardBreak,
    Rule,
    TaskListMarker(bool),
}

/// A tag of the parser that starts a block or a part of one.
pub enum RawBlock {
    Paragraph,
    Heading(HeadingLevel),
    BlockQuote,
    CodeBlock(CodeBlockKind<'static>),
    HtmlBlock,
    List(Option<u64>),
    Item,
    FootnoteDefinition,
    DefinitionList,
    DefinitionListTitle,
    DefinitionListDefinition,
    MetadataBlock,
}

/// A tag of the parser that starts a table, a part of one or something inside a line.
pub enum RawInline {
    Table(Vec<pulldown_cmark::Alignment>),
    TableHead,
    TableRow,
    TableCell,
    Emphasis,
    Strong,
    Strikethrough,
    Superscript,
    Subscript,
    Link,
    Image,
}

/// A tag of the parser that ends a block or a part of one.
pub enum RawBlockEnd {
    Paragraph,
    Heading,
    BlockQuote,
    CodeBlock,
    HtmlBlock,
    List,
    Item,
    FootnoteDefinition,
    DefinitionList,
    DefinitionListTitle,
    DefinitionListDefinition,
    MetadataBlock,
}

/// A tag of the parser that ends a table, a part of one or something inside a line.
pub enum RawInlineEnd {
    Table,
    TableHead,
    TableRow,
    TableCell,
    Emphasis,
    Strong,
    Strikethrough,
    Superscript,
    Subscript,
    Link,
    Image,
}

/// The level of a heading.
pub enum RawLevel {
    H1,
    H2,
    H3,
    H4,
    H5,
    H6,
}

/// A code block that is indented, or fenced with some words behind the fence.
pub enum RawFence {
    Indented,
    Fenced(CowStr<'static>),
}

/// Where the source of a table wants a column's cells.
pub enum RawColumn {
    Unset,
    Left,
    Center,
    Right,
}

/// What a tag starts.
#[derive(Debug)]
pub enum MarkdownTag {
    Heading(u8),
    BlockQuote,
    CodeBlock(Option<String>),
    List(Option<u64>),
    Item,
    Emphasis,
    Strong,
    Strikethrough,
    Link,
    Table(Vec<CellAlignment>),
    TableRow,
    TableCell,
    Other,
}

#[verifier::ext_equal]
pub enum TagModel {
    Heading(u8),
    BlockQuote,
    CodeBlock(Option<Seq<char>>),
    List(Option<u64>),
    Item,
    Emphasis,
    Strong,
    Strikethrough,
    Link,
    Table(Seq<CellAlignment>),
    TableRow,
    TableCell,
    Other,
}

impl DeepView for MarkdownTag {
    type V = TagModel;

    open spec fn deep_view(&self) -> TagModel {
        match *self {
            MarkdownTag::Heading(level) => TagModel::Heading(level),
            MarkdownTag::BlockQuote => TagModel::BlockQuote,
            MarkdownTag::CodeBlock(lang) => TagModel::CodeBlock(lang.deep_view()),
            MarkdownTag::List(first) => TagModel::List(first),
            MarkdownTag::Item => TagModel::Item,
            MarkdownTag::Emphasis => TagModel::Emphasis,
            MarkdownTag::Strong => TagModel::Strong,
            MarkdownTag::Strikethrough => TagModel::Strikethrough,
            MarkdownTag::Link => TagModel::Link,
            MarkdownTag::Table(alignments) => TagModel::Table(alignments@),
            MarkdownTag::TableRow => TagModel::TableRow,
            MarkdownTag::TableCell => TagModel::TableCell,
            MarkdownTag::Other => TagModel::Other,
        }
    }
}

/// What a tag ends.
#[derive(Debug, Clone, Copy, PartialEq, Eq, Structural)]
pub enum MarkdownTagEnd {
    Paragraph,
    Heading,
    BlockQuote,
    CodeBlock,
    List,
    Item,
    Inline,
    Table,
    TableRow,
    TableCell,
    Other,
}

/// An event of a Markdown text.
#[derive(Debug)]
pub enum MarkdownEvent {
    Start(MarkdownTag),
    End(MarkdownTagEnd),
    Text(String),
    Code(String),
    Html(String),
    Break,
    Rule,
    TaskListMarker(bool),
    Other,
}

#[verifier::ext_equal]
pub enum MarkdownModel {
    Start(TagModel),
    End(MarkdownTagEnd),
    Text(Seq<char>),
    Code(Seq<char>),
    Html(Seq<char>),
    Break,
    Rule,
    TaskListMarker(bool),
    Other,
}

impl DeepView for MarkdownEvent {
    type V = MarkdownModel;

    open spec fn deep_view(&self) -> MarkdownModel {
        match *self {
            MarkdownEvent::Start(tag) => MarkdownModel::Start(tag.deep_view()),
            MarkdownEvent::End(tag) => MarkdownModel::End(tag),
            MarkdownEvent::Text(text) => MarkdownModel::Text(text@),
            MarkdownEvent::Code(text) => MarkdownModel::Code(text@),
            MarkdownEvent::Html(text) => MarkdownModel::Html(text@),
            MarkdownEvent::Break => MarkdownModel::Break,
            MarkdownEvent::Rule => MarkdownModel::Rule,
            MarkdownEvent::TaskListMarker(done) => MarkdownModel::TaskListMarker(done),
            MarkdownEvent::Other => MarkdownModel::Other,
        }
    }
}

/// The events of a Markdown text, with the extensions that are asked for.
pub uninterp spec fn markdown_events(
    text: Seq<char>,
    tables: bool,
    strikethrough: bool,
    task_lists: bool,
) -> Seq<Event<'static>>;

/// What an event holds.
pub uninterp spec fn event_parts(event: Event<'static>) -> RawEvent;

/// What a tag that starts a block or a part of one holds.
pub uninterp spec fn block_parts(tag: Tag<'static>) -> Option<RawBlock>;

/// What a tag that starts a table, a part of one or something inside a line holds.
pub uninterp spec fn inline_parts(tag: Tag<'static>) -> Option<RawInline>;

/// Which tag it is that ends a block or a part of one.
pub uninterp spec fn block_end(tag: TagEnd) -> Option<RawBlockEnd>;

/// Which tag it is that ends a table, a part of one or something inside a line.
pub uninterp spec fn inline_end(tag: TagEnd) -> Option<RawInlineEnd>;

/// The characters of a text of the parser.
pub uninterp spec fn cow_text(text: CowStr<'static>) -> Seq<char>;

/// Which level of heading it is.
pub uninterp spec fn level_kind(level: HeadingLevel) -> RawLevel;

/// What a kind of code block holds.
pub uninterp spec fn fence_parts(kind: CodeBlockKind<'static>) -> RawFence;

/// Which alignment it is.
pub uninterp spec fn column_kind(alignment: pulldown_cmark::Alignment) -> RawColumn;

/// `pulldown_cmark::Parser::new_ext` reads a text with the extensions that are asked for. The
/// events depend on the text and the extensions alone.
#[verifier::external_body]
fn parse_markdown(content: &str, tables: bool, strikethrough: bool, task_lists: bool) -> (r: Vec<
    Event<'static>,
>)
    ensures
        r@ == markdown_events(content@, tables, strikethrough, task_lists),
{
    let mut options = Options::empty();
    options.set(Options::ENABLE_TABLES, tables);
    options.set(Options::ENABLE_STRIKETHROUGH, strikethrough);
    options.set(Options::ENABLE_TASKLISTS, task_lists);
    Parser::new_ext(content, options).map(|event| event.into_static()).collect()
}

/// The variants of `pulldown_cmark::Event`.
#[verifier::external_body]
fn event_of(event: Event<'static>) -> (r: RawEvent)
    ensures
        r == event_parts(event),
{
    match event {
        Event::Start(tag) => RawEvent::Start(tag),
        Event::End(tag) => RawEvent::End(tag),
        Event::Text(text) => RawEvent::Text(text),
        Event::Code(text) => RawEvent::Code(text),
        Event::InlineMath(text) => RawEvent::InlineMath(text),
        Event::DisplayMath(text) => RawEvent::DisplayMath(text),
        Event::Html(text) => RawEvent::Html(text),
        Event::InlineHtml(text) => RawEvent::InlineHtml(text),
        Event::FootnoteReference(text) => RawEvent::FootnoteReference(text),
        Event::SoftBreak => RawEvent::SoftBreak,
        Event::HardBreak => RawEvent::HardBreak,
        Event::Rule => RawEvent::Rule,
        Event::TaskListMarker(done) => RawEvent::TaskListMarker(done),
    }
}

/// The variants of `pulldown_cmark::Tag` that start a block or a part of one; any other tag is
/// handed back.
#[verifier::external_body]
fn block_of(tag: Tag<'static>) -> (r: Result<RawBlock, Tag<'static>>)
    ensures
        match r {
            Ok(block) => block_parts(tag) == Some(block),
            Err(other) => other == tag && block_parts(tag) is None,
        },
{
    Ok(match tag {
        Tag::Paragraph => RawBlock::Paragraph,
        Tag::Heading { level, .. } => RawBlock::Heading(level),
        Tag::BlockQuote(_) => RawBlock::BlockQuote,
        Tag::CodeBlock(kind) => RawBlock::CodeBlock(kind),
        Tag::HtmlBlock => RawBlock::HtmlBlock,
        Tag::List(first) => RawBlock::List(first),
        Tag::Item => RawBlock::Item,
        Tag::FootnoteDefinition(_) => RawBlock::FootnoteDefinition,
        Tag::DefinitionList => RawBlock::DefinitionList,
        Tag::DefinitionListTitle => RawBlock::DefinitionListTitle,
        Tag::DefinitionListDefinition => RawBlock::DefinitionListDefinition,
        Tag::MetadataBlock(_) => RawBlock::MetadataBlock,
        other => return Err(other),
    })
}

/// The variants of `pulldown_cmark::Tag` that start a table, a part of one or something inside a
/// line.
#[verifier::external_body]
fn inline_of(tag: Tag<'static>) -> (r: Option<RawInline>)
    ensures
        r == inline_parts(tag),
{
    Some(match tag {
        Tag::Table(columns) => RawInline::Table(columns),
        Tag::TableHead => RawInline::TableHead,
        Tag::TableRow => RawInline::TableRow,
        Tag::TableCell => RawInline::TableCell,
        Tag::Emphasis => RawInline::Emphasis,
        Tag::Strong => RawInline::Strong,
        Tag::Strikethrough => RawInline::Strikethrough,
        Tag::Superscript => RawInline::Superscript,
        Tag::Subscript => RawInline::Subscript,
        Tag::Link { .. } => RawInline::Link,
        Tag::Image { .. } => RawInline::Image,
        _ => return None,
    })
}

/// The variants of `pulldown_cmark::TagEnd` that end a block or a part of one.
#[verifier::external_body]
fn block_end_of(tag: &TagEnd) -> (r: Option<RawBlockEnd>)
    ensures
        r == block_end(*tag),
{
    Some(match tag {
        TagEnd::Paragraph => RawBlockEnd::Paragraph,
        TagEnd::Heading(_) => RawBlockEnd::Heading,
        TagEnd::BlockQuote(_) => RawBlockEnd::BlockQuote,
        TagEnd::CodeBlock => RawBlockEnd::CodeBlock,
        TagEnd::HtmlBlock => RawBlockEnd::HtmlBlock,
        TagEnd::List(_) => RawBlockEnd::List,
        TagEnd::Item => RawBlockEnd::Item,
        TagEnd::FootnoteDefinition => RawBlockEnd::FootnoteDefinition,
        TagEnd::DefinitionList => RawBlockEnd::DefinitionList,
        TagEnd::DefinitionListTitle => RawBlockEnd::DefinitionListTitle,
        TagEnd::DefinitionListDefinition => RawBlockEnd::DefinitionListDefinition,
        TagEnd::MetadataBlock(_) => RawBlockEnd::MetadataBlock,
        _ => return None,
    })
}

/// The variants of `pulldown_cmark::TagEnd` that end a table, a part of one or something inside a
/// line.
#[verifier::external_body]
fn inline_end_of(tag: &TagEnd) -> (r: Option<RawInlineEnd>)
    ensures
        r == inline_end(*tag),
{
    Some(match tag {
        TagEnd::Table => RawInlineEnd::Table,
        TagEnd::TableHead => RawInlineEnd::TableHead,
        TagEnd::TableRow => RawInlineEnd::TableRow,
        TagEnd::TableCell => RawInlineEnd::TableCell,
        TagEnd::Emphasis => RawInlineEnd::Emphasis,
        TagEnd::Strong => RawInlineEnd::Strong,
        TagEnd::Strikethrough => RawInlineEnd::Strikethrough,
        TagEnd::Superscript => RawInlineEnd::Superscript,
        TagEnd::Subscript => RawInlineEnd::Subscript,
        TagEnd::Link => RawInlineEnd::Link,
        TagEnd::Image => RawInlineEnd::Image,
        _ => return None,
    })
}

/// `CowStr` as a `String` has the same characters.
#[verifier::external_body]
fn text_of(text: CowStr<'static>) -> (r: String)
    ensures
        r@ == cow_text(text),
{
    text.into_string()
}

/// The variants of `pulldown_cmark::HeadingLevel`.
#[verifier::external_body]
fn level_of(level: HeadingLevel) -> (r: RawLevel)
    ensures
        r == level_kind(level),
{
    match level {
        HeadingLevel::H1 => RawLevel::H1,
        HeadingLevel::H2 => RawLevel::H2,
        HeadingLevel::H3 => RawLevel::H3,
        HeadingLevel::H4 => RawLevel::H4,
        HeadingLevel::H5 => RawLevel::H5,
        HeadingLevel::H6 => RawLevel::H6,
    }
}

/// The variants of `pulldown_cmark::CodeBlockKind`.
#[verifier::external_body]
fn fence_of(kind: CodeBlockKind<'static>) -> (r: RawFence)
    ensures
        r == fence_parts(kind),
{
    match kind {
        CodeBlockKind::Indented => RawFence::Indented,
        CodeBlockKind::Fenced(words) => RawFence::Fenced(words),
    }
}

/// The variants of `pulldown_cmark::Alignment`.
#[verifier::external_body]
fn column_of(alignment: &pulldown_cmark::Alignment) -> (r: RawColumn)
    ensures
        r == column_kind(*alignment),
{
    match alignment {
        pulldown_cmark::Alignment::None => RawColumn::Unset,
        pulldown_cmark::Alignment::Left => RawColumn::Left,
        pulldown_cmark::Alignment::Center => RawColumn::Center,
        pulldown_cmark::Alignment::Right => RawColumn::Right,
    }
}

/// Where a column's cells stand: at the left where nothing else is wanted.
pub open spec fn alignment_for(column: RawColumn) -> CellAlignment {
    match column {
        RawColumn::Right => CellAlignment::Right,
        RawColumn::Center => CellAlignment::Center,
        RawColumn::Left | RawColumn::Unset => CellAlignment::Left,
    }
}

pub open spec fn alignments_for(columns: Seq<pulldown_cmark::Alignment>) -> Seq<CellAlignment> {
    columns.map_values(
        |column: pulldown_cmark::Alignment| alignment_for(column_kind(column)),
    )
}

fn alignments_of(columns: &Vec<pulldown_cmark::Alignment>) -> (r: Vec<CellAlignment>)
    ensures
        r@ == alignments_for(columns@),
{
    let ghost all = alignments_for(columns@);
    let mut alignments: Vec<CellAlignment> = Vec::new();
    let mut i: usize = 0;
    while i < columns.len()
        invariant
            all == alignments_for(columns@),
            i <= columns.len(),
            alignments@ == all.take(i as int),
        decreases columns.len() - i,
    {
        let alignment = match column_of(&columns[i]) {
            RawColumn::Right => CellAlignment::Right,
            RawColumn::Center => CellAlignment::Center,
            RawColumn::Left | RawColumn::Unset => CellAlignment::Left,
        };
        alignments.push(alignment);
        i += 1;
        assert(alignments@ =~= all.take(i as int));
    }
    assert(all.take(i as int) =~= all);
    alignments
}

pub open spec fn level_number(level: RawLevel) -> u8 {
    match level {
        RawLevel::H1 => 1,
        RawLevel::H2 => 2,
        RawLevel::H3 => 3,
        RawLevel::H4 => 4,
        RawLevel::H5 => 5,
        RawLevel::H6 => 6,
    }
}

fn number_of(level: RawLevel) -> (r: u8)
    ensures
        r == level_number(level),
{
    match level {
        RawLevel::H1 => 1,
        RawLevel::H2 => 2,
        RawLevel::H3 => 3,
        RawLevel::H4 => 4,
        RawLevel::H5 => 5,
        RawLevel::H6 => 6,
    }
}

/// What is drawn for the start of a block: headings, quotes, code and lists count.
pub open spec fn block_tag(block: RawBlock) -> TagModel {
    match block {
        RawBlock::Heading(level) => TagModel::Heading(level_number(level_kind(level))),
        RawBlock::BlockQuote => TagModel::BlockQuote,
        RawBlock::CodeBlock(kind) => TagModel::CodeBlock(
            match fence_parts(kind) {
                RawFence::Fenced(words) => Some(cow_text(words)),
                RawFence::Indented => None,
            },
        ),
        RawBlock::List(first) => TagModel::List(first),
        RawBlock::Item => TagModel::Item,
        RawBlock::Paragraph
        | RawBlock::HtmlBlock
        | RawBlock::FootnoteDefinition
        | RawBlock::DefinitionList
        | RawBlock::DefinitionListTitle
        | RawBlock::DefinitionListDefinition
        | RawBlock::MetadataBlock => TagModel::Other,
    }
}

/// What is drawn for the start of a table or something inside a line: the head of a table is a
/// row like the others.
pub open spec fn inline_tag(inline: RawInline) -> TagModel {
    match inline {
        RawInline::Table(columns) => TagModel::Table(alignments_for(columns@)),
        RawInline::TableHead | RawInline::TableRow => TagModel::TableRow,
        RawInline::TableCell => TagModel::TableCell,
        RawInline::Emphasis => TagModel::Emphasis,
        RawInline::Strong => TagModel::Strong,
        RawInline::Strikethrough => TagModel::Strikethrough,
        RawInline::Link => TagModel::Link,
        RawInline::Superscript | RawInline::Subscript | RawInline::Image => TagModel::Other,
    }
}

/// What a tag starts.
pub open spec fn tag_content(tag: Tag<'static>) -> TagModel {
    match block_parts(tag) {
        Some(block) => block_tag(block),
        None => match inline_parts(tag) {
            Some(inline) => inline_tag(inline),
            None => TagModel::Other,
        },
    }
}

fn read_block(block: RawBlock) -> (r: MarkdownTag)
    ensures
        r.deep_view() == block_tag(block),
{
    match block {
        RawBlock::Heading(level) => MarkdownTag::Heading(number_of(level_of(level))),
        RawBlock::BlockQuote => MarkdownTag::BlockQuote,
        RawBlock::CodeBlock(kind) => MarkdownTag::CodeBlock(
            match fence_of(kind) {
                RawFence::Fenced(words) => Some(text_of(words)),
                RawFence::Indented => None,
            },
        ),
        RawBlock::List(first) => MarkdownTag::List(first),
        RawBlock::Item => MarkdownTag::Item,
        RawBlock::Paragraph
        | RawBlock::HtmlBlock
        | RawBlock::FootnoteDefinition
        | RawBlock::DefinitionList
        | RawBlock::DefinitionListTitle
        | RawBlock::DefinitionListDefinition
        | RawBlock::MetadataBlock => MarkdownTag::Other,
    }
}

fn read_inline(inline: RawInline) -> (r: MarkdownTag)
    ensures
        r.deep_view() == inline_tag(inline),
{
    match inline {
        RawInline::Table(columns) => MarkdownTag::Table(alignments_of(&columns)),
        RawInline::TableHead | RawInline::TableRow => MarkdownTag::TableRow,
        RawInline::TableCell => MarkdownTag::TableCell,
        RawInline::Emphasis => MarkdownTag::Emphasis,
        RawInline::Strong => MarkdownTag::Strong,
        RawInline::Strikethrough => MarkdownTag::Strikethrough,
        RawInline::Link => MarkdownTag::Link,
        RawInline::Superscript | RawInline::Subscript | RawInline::Image => MarkdownTag::Other,
    }
}

fn read_tag(tag: Tag<'static>) -> (r: MarkdownTag)
    ensures
        r.deep_view() == tag_content(tag),
{
    match block_of(tag) {
        Ok(block) => read_block(block),
        Err(tag) => match inline_of(tag) {
            Some(inline) => read_inline(inline),
            None => MarkdownTag::Other,
        },
    }
}

/// What the end of a block does.
pub open spec fn block_tag_end(block: RawBlockEnd) -> MarkdownTagEnd {
    match block {
        RawBlockEnd::Paragraph => MarkdownTagEnd::Paragraph,
        RawBlockEnd::Heading => MarkdownTagEnd::Heading,
        RawBlockEnd::BlockQuote => MarkdownTagEnd::BlockQuote,
        RawBlockEnd::CodeBlock => MarkdownTagEnd::CodeBlock,
        RawBlockEnd::List => MarkdownTagEnd::List,
        RawBlockEnd::Item => MarkdownTagEnd::Item,
        RawBlockEnd::HtmlBlock
        | RawBlockEnd::FootnoteDefinition
        | RawBlockEnd::DefinitionList
        | RawBlockEnd::DefinitionListTitle
        | RawBlockEnd::DefinitionListDefinition
        | RawBlockEnd::MetadataBlock => MarkdownTagEnd::Other,
    }
}

/// What the end of a table or of something inside a line does: the tags that set a style are
/// one.
pub open spec fn inline_tag_end(inline: RawInlineEnd) -> MarkdownTagEnd {
    match inline {
        RawInlineEnd::Table => MarkdownTagEnd::Table,
        RawInlineEnd::TableHead | RawInlineEnd::TableRow => MarkdownTagEnd::TableRow,
        RawInlineEnd::TableCell => MarkdownTagEnd::TableCell,
        RawInlineEnd::Emphasis
        | RawInlineEnd::Strong
        | RawInlineEnd::Strikethrough
        | RawInlineEnd::Link => MarkdownTagEnd::Inline,
        RawInlineEnd::Superscript
        | RawInlineEnd::Subscript
        | RawInlineEnd::Image => MarkdownTagEnd::Other,
    }
}

/// What a tag ends.
pub open spec fn tag_end_content(tag: TagEnd) -> MarkdownTagEnd {
    match block_end(tag) {
        Some(block) => block_tag_end(block),
        None => match inline_end(tag) {
            Some(inline) => inline_tag_end(inline),
            None => MarkdownTagEnd::Other,
        },
    }
}

fn read_block_end(block: RawBlockEnd) -> (r: MarkdownTagEnd)
    ensures
        r == block_tag_end(block),
{
    match block {
        RawBlockEnd::Paragraph => MarkdownTagEnd::Paragraph,
        RawBlockEnd::Heading => MarkdownTagEnd::Heading,
        RawBlockEnd::BlockQuote => MarkdownTagEnd::BlockQuote,
        RawBlockEnd::CodeBlock => MarkdownTagEnd::CodeBlock,
        RawBlockEnd::List => MarkdownTagEnd::List,
        RawBlockEnd::Item => MarkdownTagEnd::Item,
        RawBlockEnd::HtmlBlock
        | RawBlockEnd::FootnoteDefinition
        | RawBlockEnd::DefinitionList
        | RawBlockEnd::DefinitionListTitle
        | RawBlockEnd::DefinitionListDefinition
        | RawBlockEnd::MetadataBlock => MarkdownTagEnd::Other,
    }
}

fn read_inline_end(inline: RawInlineEnd) -> (r: MarkdownTagEnd)
    ensures
        r == inline_tag_end(inline),
{
    match inline {
        RawInlineEnd::Table => MarkdownTagEnd::Table,
        RawInlineEnd::TableHead | RawInlineEnd::TableRow => MarkdownTagEnd::TableRow,
        RawInlineEnd::TableCell => MarkdownTagEnd::TableCell,
        RawInlineEnd::Emphasis
        | RawInlineEnd::Strong
        | RawInlineEnd::Strikethrough
        | RawInlineEnd::Link => MarkdownTagEnd::Inline,
        RawInlineEnd::Superscript
        | RawInlineEnd::Subscript
        | RawInlineEnd::Image => MarkdownTagEnd::Other,
    }
}

fn read_tag_end(tag: TagEnd) -> (r: MarkdownTagEnd)
    ensures
        r == tag_end_content(tag),
{
    match block_end_of(&tag) {
        Some(block) => read_block_end(block),
        None => match inline_end_of(&tag) {
            Some(inline) => read_inline_end(inline),
            None => MarkdownTagEnd::Other,
        },
    }
}

/// What is drawn for an event: soft and hard breaks are one, and so are blocks and pieces of
/// HTML; formulas and footnotes are left out.
pub open spec fn event_content(event: RawEvent) -> MarkdownModel {
    match event {
        RawEvent::Start(tag) => MarkdownModel::Start(tag_content(tag)),
        RawEvent::End(tag) => MarkdownModel::End(tag_end_content(tag)),
        RawEvent::Text(text) => MarkdownModel::Text(cow_text(text)),
        RawEvent::Code(text) => MarkdownModel::Code(cow_text(text)),
        RawEvent::Html(text) => MarkdownModel::Html(cow_text(text)),
        RawEvent::InlineHtml(text) => MarkdownModel::Html(cow_text(text)),
        RawEvent::SoftBreak | RawEvent::HardBreak => MarkdownModel::Break,
        RawEvent::Rule => MarkdownModel::Rule,
        RawEvent::TaskListMarker(done) => MarkdownModel::TaskListMarker(done),
        RawEvent::InlineMath(_) => MarkdownModel::Other,
        RawEvent::DisplayMath(_) => MarkdownModel::Other,
        RawEvent::FootnoteReference(_) => MarkdownModel::Other,
    }
}

fn read_event(event: RawEvent) -> (r: MarkdownEvent)
    ensures
        r.deep_view() == event_content(event),
{
    match event {
        RawEvent::Start(tag) => MarkdownEvent::Start(read_tag(tag)),
        RawEvent::End(tag) => MarkdownEvent::End(read_tag_end(tag)),
        RawEvent::Text(text) => MarkdownEvent::Text(text_of(text)),
        RawEvent::Code(text) => MarkdownEvent::Code(text_of(text)),
        RawEvent::Html(text) => MarkdownEvent::Html(text_of(text)),
        RawEvent::InlineHtml(text) => MarkdownEvent::Html(text_of(text)),
        RawEvent::SoftBreak | RawEvent::HardBreak => MarkdownEvent::Break,
        RawEvent::Rule => MarkdownEvent::Rule,
        RawEvent::TaskListMarker(done) => MarkdownEvent::TaskListMarker(done),
        RawEvent::InlineMath(_) => MarkdownEvent::Other,
        RawEvent::DisplayMath(_) => MarkdownEvent::Other,
        RawEvent::FootnoteReference(_) => MarkdownEvent::Other,
    }
}

/// The events of a Markdown text, with tables, strikethrough and task lists, as they are drawn.
pub open spec fn markdown(text: Seq<char>) -> Seq<MarkdownModel> {
    markdown_events(text, true, true, true).map_values(
        |event: Event<'static>| event_content(event_parts(event)),
    )
}

/// Reads a Markdown text.
pub fn read_markdown(content: &str) -> (r: Vec<MarkdownEvent>)
    ensures
        r.deep_view() == markdown(content@),
{
    let raw = parse_markdown(content, true, true, true);
    let ghost all = markdown(content@);
    let mut events: Vec<MarkdownEvent> = Vec::new();
    assert(events.deep_view() =~= all.take(0));
    for event in it: raw
        invariant
            it.seq() == markdown_events(content@, true, true, true),
            all == markdown(content@),
            events.deep_view() == all.take(it.index()),
    {
        let ghost before = events.deep_view();
        let next = read_event(event_of(event));
        let ghost added = next.deep_view();
        events.push(next);
        assert(events.deep_view() =~= before.push(added));
        assert(events.deep_view() =~= all.take(it.index() + 1));
    }
    assert(events.deep_view() =~= all);
    events
}

} // verus!
