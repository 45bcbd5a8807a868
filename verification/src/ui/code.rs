//! Highlighted code, coloured by the `syntect` crate.
use super::style::{push_line, span, text_line, plain_line, Color, Line, Span, SpanModel, Style};
use crate::text::{from_chars, to_chars, trim_end_char, trimmed_end_char};
use syntect::easy::HighlightLines;
use syntect::highlighting::{Theme, ThemeSet};
use syntect::parsing::{SyntaxReference, SyntaxSet};
use vstd::prelude::*;

verus! {

/// `syntect::parsing::SyntaxSet` is carried through.
#[verifier::external_type_specification]
#[verifier::external_body]
pub struct ExSyntaxSet(syntect::parsing::SyntaxSet);

/// `syntect::highlighting::Theme` is carried through.
#[verifier::external_type_specification]
#[verifier::external_body]
pub struct ExTheme(syntect::highlighting::Theme);

/// `syntect::parsing::SyntaxReference` is carried through.
#[verifier::external_type_specification]
#[verifier::external_body]
pub struct ExSyntaxReference(syntect::parsing::SyntaxReference);

/// A piece of code and the red, green and blue of its colour.
#[derive(Debug)]
pub struct CodePiece {
    pub red: u8,
    pub green: u8,
    pub blue: u8,
    pub text: String,
}

#[verifier::ext_equal]
pub struct PieceModel {
    pub red: u8,
    pub green: u8,
    pub blue: u8,
    pub text: Seq<char>,
}

impl DeepView for CodePiece {
    type V = PieceModel;

    open spec fn deep_view(&self) -> PieceModel {
        PieceModel { red: self.red, green: self.green, blue: self.blue, text: self.text@ }
    }
}

/// `syntect::easy::HighlightLines`, which colours one line after another, is carried through.
#[verifier::external_type_specification]
#[verifier::external_body]
pub struct ExHighlightLines<'a>(syntect::easy::HighlightLines<'a>);

/// Whether a set has a syntax of plain text.
pub uninterp spec fn has_plain_text(set: SyntaxSet) -> bool;

/// The theme of this name that comes with the crate.
pub uninterp spec fn bundled_theme(name: Seq<char>) -> Theme;

/// The syntax for a token, such as the name of a language.
pub uninterp spec fn syntax_of_token(set: SyntaxSet, token: Seq<char>) -> Option<SyntaxReference>;

/// The syntax for files with an extension.
pub uninterp spec fn syntax_of_extension(set: SyntaxSet, extension: Seq<char>) -> Option<
    SyntaxReference,
>;

/// The syntax of plain text.
pub uninterp spec fn syntax_of_plain_text(set: SyntaxSet) -> SyntaxReference;

/// The state in which the lines of some code begin, by its syntax and the theme.
pub uninterp spec fn first_state(syntax: SyntaxReference, theme: Theme) -> HighlightLines<'static>;

/// The pieces of a line, none where it cannot be read, and the state behind the line.
pub uninterp spec fn line_in_state(
    state: HighlightLines<'static>,
    line: Seq<char>,
    set: SyntaxSet,
) -> (Option<Seq<PieceModel>>, HighlightLines<'static>);

/// The theme that code is shown in.
pub const THEME: &'static str = "base16-ocean.dark";

/// The default syntaxes and the theme that code is shown in.
pub struct CodeHighlighter {
    syntaxes: SyntaxSet,
    theme: Theme,
}

/// What code is coloured by.
pub struct Highlighting {
    pub set: SyntaxSet,
    pub theme: Theme,
}

impl View for CodeHighlighter {
    type V = Highlighting;

    closed spec fn view(&self) -> Highlighting {
        Highlighting { set: self.syntaxes, theme: self.theme }
    }
}

/// `SyntaxSet::load_defaults_newlines` loads the syntaxes that come with the crate, of which
/// plain text is one.
#[verifier::external_body]
fn default_syntaxes() -> (r: SyntaxSet)
    ensures
        has_plain_text(r),
{
    SyntaxSet::load_defaults_newlines()
}

/// `ThemeSet::load_defaults` loads the themes that come with the crate, of which
/// `base16-ocean.dark` is one.
#[verifier::external_body]
fn default_theme(name: &str) -> (r: Theme)
    requires
        name@ == "base16-ocean.dark"@,
    ensures
        r == bundled_theme(name@),
{
    ThemeSet::load_defaults().themes[name].clone()
}

/// `SyntaxSet::find_syntax_by_token` looks for a syntax with this extension or name, which
/// depends on the set and the token alone.
#[verifier::external_body]
fn find_by_token<'a>(set: &'a SyntaxSet, token: &str) -> (r: Option<&'a SyntaxReference>)
    ensures
        match r {
            Some(syntax) => syntax_of_token(*set, token@) == Some(*syntax),
            None => syntax_of_token(*set, token@) is None,
        },
{
    set.find_syntax_by_token(token)
}

/// `SyntaxSet::find_syntax_by_extension` looks for a syntax with this extension, which depends
/// on the set and the extension alone.
#[verifier::external_body]
fn find_by_extension<'a>(set: &'a SyntaxSet, extension: &str) -> (r: Option<&'a SyntaxReference>)
    ensures
        match r {
            Some(syntax) => syntax_of_extension(*set, extension@) == Some(*syntax),
            None => syntax_of_extension(*set, extension@) is None,
        },
{
    set.find_syntax_by_extension(extension)
}

/// `SyntaxSet::find_syntax_plain_text` gives the syntax of plain text of a set that has one.
#[verifier::external_body]
fn find_plain_text<'a>(set: &'a SyntaxSet) -> (r: &'a SyntaxReference)
    requires
        has_plain_text(*set),
    ensures
        *r == syntax_of_plain_text(*set),
{
    set.find_syntax_plain_text()
}

/// `HighlightLines::new` makes the state in which the lines of some code begin, which depends on
/// the syntax and the theme alone. The syntax has to come from a set, where it has a first context.
#[verifier::external_body]
fn begin_code<'a>(syntax: &SyntaxReference, theme: &'a Theme) -> (r: HighlightLines<'a>)
    requires
        exists|set: SyntaxSet, lang: Seq<char>|
            has_plain_text(set) && *syntax == #[trigger] syntax_for(set, lang),
    ensures
        r == first_state(*syntax, *theme),
{
    HighlightLines::new(syntax, theme)
}

/// `HighlightLines::highlight_line` colours the next line; the pieces and the state behind the
/// line depend on the state, the line and the syntaxes alone. The state has to come from a syntax
/// of the set. The patterns of a syntax are compiled when a line first needs them, and `syntect`
/// panics over one that does not compile; that those of the default syntaxes all compile is its
/// promise, and nothing here speaks of it.
#[verifier::external_body]
fn highlight_line(state: &mut HighlightLines, line: &str, set: &SyntaxSet) -> (r: Option<
    Vec<CodePiece>,
>)
    requires
        has_plain_text(*set),
        in_set(*old(state), *set),
    ensures
        (r.deep_view(), *final(state)) == line_in_state(*old(state), line@, *set),
{
    state.highlight_line(line, set).ok().map(|pieces| {
        pieces.into_iter().map(|(style, text)| CodePiece {
            red: style.foreground.r,
            green: style.foreground.g,
            blue: style.foreground.b,
            text: text.to_string(),
        }).collect()
    })
}

/// The syntax that code in a language is shown in: that of the name, else that of the
/// extension, else plain text.
pub open spec fn syntax_for(set: SyntaxSet, lang: Seq<char>) -> SyntaxReference {
    match syntax_of_token(set, lang) {
        Some(syntax) => syntax,
        None => match syntax_of_extension(set, lang) {
            Some(syntax) => syntax,
            None => syntax_of_plain_text(set),
        },
    }
}

/// The state behind some lines.
pub open spec fn state_after(
    state: HighlightLines<'static>,
    lines: Seq<Seq<char>>,
    set: SyntaxSet,
) -> HighlightLines<'static>
    decreases lines.len(),
{
    if lines.len() == 0 {
        state
    } else {
        line_in_state(state_after(state, lines.drop_last(), set), lines.last(), set).1
    }
}

/// The pieces of some lines, one after another.
pub open spec fn highlighted(
    state: HighlightLines<'static>,
    lines: Seq<Seq<char>>,
    set: SyntaxSet,
) -> Seq<Option<Seq<PieceModel>>> {
    Seq::new(
        lines.len(),
        |i: int| line_in_state(state_after(state, lines.take(i), set), lines[i], set).0,
    )
}

/// Whether a state is reached by code in a syntax of the set.
pub open spec fn in_set(state: HighlightLines<'static>, set: SyntaxSet) -> bool {
    exists|lang: Seq<char>, theme: Theme, lines: Seq<Seq<char>>|
        state == #[trigger] state_after(first_state(syntax_for(set, lang), theme), lines, set)
}

impl CodeHighlighter {
    #[verifier::type_invariant]
    spec fn wf(self) -> bool {
        has_plain_text(self.syntaxes)
    }

    /// A highlighter with the default syntaxes and the theme that code is shown in.
    pub fn new() -> (r: Self)
        ensures
            has_plain_text(r@.set),
            r@.theme == bundled_theme(THEME@),
    {
        CodeHighlighter { syntaxes: default_syntaxes(), theme: default_theme(THEME) }
    }

    fn syntax(&self, lang: &str) -> (r: &SyntaxReference)
        ensures
            *r == syntax_for(self@.set, lang@),
    {
        proof {
            use_type_invariant(self);
        }
        match find_by_token(&self.syntaxes, lang) {
            Some(syntax) => syntax,
            None => match find_by_extension(&self.syntaxes, lang) {
                Some(syntax) => syntax,
                None => find_plain_text(&self.syntaxes),
            },
        }
    }

    /// The pieces of the lines of some code.
    fn highlight_lines(&self, lines: &Vec<String>, lang: &str) -> (r: Vec<Option<Vec<CodePiece>>>)
        ensures
            r.deep_view() == highlighted(
                first_state(syntax_for(self@.set, lang@), self@.theme),
                lines.deep_view(),
                self@.set,
            ),
    {
        proof {
            use_type_invariant(self);
        }
        let mut state = begin_code(self.syntax(lang), &self.theme);
        let ghost start = first_state(syntax_for(self@.set, lang@), self@.theme);
        let ghost texts = lines.deep_view();
        let ghost all = highlighted(start, texts, self@.set);
        let mut out: Vec<Option<Vec<CodePiece>>> = Vec::new();
        let mut i: usize = 0;
        assert(texts.take(0) =~= Seq::empty());
        assert(out.deep_view() =~= all.take(0));
        while i < lines.len()
            invariant
                has_plain_text(self.syntaxes),
                start == first_state(syntax_for(self@.set, lang@), self@.theme),
                texts == lines.deep_view(),
                all == highlighted(start, texts, self@.set),
                i <= lines.len(),
                state == state_after(start, texts.take(i as int), self@.set),
                out.deep_view() == all.take(i as int),
            decreases lines.len() - i,
        {
            let ghost before = out.deep_view();
            assert(texts[i as int] == lines@[i as int]@);
            assert(texts.take(i + 1).drop_last() =~= texts.take(i as int));
            let pieces = highlight_line(&mut state, lines[i].as_str(), &self.syntaxes);
            let ghost added = pieces.deep_view();
            out.push(pieces);
            i += 1;
            assert(out.deep_view() =~= before.push(added));
            assert(out.deep_view() =~= all.take(i as int));
        }
        assert(all.take(i as int) =~= all);
        out
    }

    /// The lines of code that are shown for a code block.
    pub fn highlight_code(&self, code: &str, lang: &str) -> (r: Vec<Line>)
        ensures
            r.deep_view() == highlighted_code(self@, code@, lang@),
    {
        let lines = split_code(code);
        let pieces = self.highlight_lines(&lines, lang);
        assert(pieces.deep_view().len() == lines.deep_view().len());
        colored_lines(&lines, &pieces)
    }
}

/// The complete lines of some code, without their ends, and the line that it breaks off in.
pub open spec fn code_lines_so_far(s: Seq<char>) -> (Seq<Seq<char>>, Seq<char>)
    decreases s.len(),
{
    if s.len() == 0 {
        (Seq::empty(), Seq::empty())
    } else {
        let (done, open) = code_lines_so_far(s.drop_last());
        if s.last() == '\n' {
            (done.push(trim_end_char(open, '\r')), Seq::empty())
        } else {
            (done, open.push(s.last()))
        }
    }
}

/// The lines of some code, without carriage returns at their ends.
pub open spec fn code_lines(s: Seq<char>) -> Seq<Seq<char>> {
    let (done, open) = code_lines_so_far(s);
    if open.len() > 0 {
        done.push(trim_end_char(open, '\r'))
    } else {
        done
    }
}

pub fn split_code(code: &str) -> (r: Vec<String>)
    ensures
        r.deep_view() == code_lines(code@),
{
    let chars = to_chars(code);
    let mut done: Vec<String> = Vec::new();
    let mut from: usize = 0;
    let mut i: usize = 0;
    assert(done.deep_view() =~= Seq::empty());
    assert(chars@.take(0) =~= Seq::empty());
    assert(chars@.subrange(0, 0) =~= Seq::empty());
    while i < chars.len()
        invariant
            chars@ == code@,
            from <= i <= chars.len(),
            (done.deep_view(), chars@.subrange(from as int, i as int)) == code_lines_so_far(
                chars@.take(i as int),
            ),
        decreases chars.len() - i,
    {
        let ghost before = done.deep_view();
        let ghost open = chars@.subrange(from as int, i as int);
        assert(chars@.take(i + 1).drop_last() =~= chars@.take(i as int));
        if chars[i] == '\n' {
            let line = from_chars(&chars, from, i);
            let line = trimmed_end_char(line.as_str(), '\r');
            done.push(line);
            assert(done.deep_view() =~= before.push(line@));
            from = i + 1;
            assert(chars@.subrange(from as int, i + 1) =~= Seq::empty());
        } else {
            assert(chars@.subrange(from as int, i + 1) =~= open.push(chars@[i as int]));
        }
        i += 1;
    }
    assert(chars@.take(i as int) =~= code@);
    if from < chars.len() {
        let ghost before = done.deep_view();
        let line = from_chars(&chars, from, chars.len());
        let line = trimmed_end_char(line.as_str(), '\r');
        done.push(line);
        assert(done.deep_view() =~= before.push(line@));
    }
    done
}

pub open spec fn piece_span(piece: PieceModel) -> SpanModel {
    span(piece.text, Style::colored(Color::Rgb(piece.red, piece.green, piece.blue)))
}

/// A line of code in its colours, or plain where it has none.
pub open spec fn colored_line(line: Seq<char>, pieces: Option<Seq<PieceModel>>) -> Seq<SpanModel> {
    match pieces {
        Some(pieces) => pieces.map_values(|piece: PieceModel| piece_span(piece)),
        None => text_line(line),
    }
}

pub open spec fn colored(lines: Seq<Seq<char>>, pieces: Seq<Option<Seq<PieceModel>>>) -> Seq<
    Seq<SpanModel>,
> {
    Seq::new(lines.len(), |i: int| colored_line(lines[i], pieces[i]))
}

/// A code block as it is shown.
pub open spec fn highlighted_code(by: Highlighting, code: Seq<char>, lang: Seq<char>) -> Seq<
    Seq<SpanModel>,
> {
    let state = first_state(syntax_for(by.set, lang), by.theme);
    colored(code_lines(code), highlighted(state, code_lines(code), by.set))
}

fn color_pieces(pieces: &Vec<CodePiece>) -> (r: Line)
    ensures
        r.deep_view() == pieces.deep_view().map_values(|piece: PieceModel| piece_span(piece)),
{
    let ghost all = pieces.deep_view().map_values(|piece: PieceModel| piece_span(piece));
    let mut line = Line::blank();
    let mut i: usize = 0;
    assert(line.deep_view() =~= all.take(0));
    while i < pieces.len()
        invariant
            all == pieces.deep_view().map_values(|piece: PieceModel| piece_span(piece)),
            i <= pieces.len(),
            line.deep_view() == all.take(i as int),
        decreases pieces.len() - i,
    {
        assert(pieces.deep_view()[i as int] == pieces@[i as int].deep_view());
        let color = Color::Rgb(pieces[i].red, pieces[i].green, pieces[i].blue);
        line.push(Span::styled(pieces[i].text.as_str(), Style::of(color)));
        i += 1;
        assert(line.deep_view() =~= all.take(i as int));
    }
    assert(all.take(i as int) =~= all);
    line
}

/// Shows some lines of code in the colours of their pieces.
pub fn colored_lines(lines: &Vec<String>, pieces: &Vec<Option<Vec<CodePiece>>>) -> (r: Vec<Line>)
    requires
        lines@.len() == pieces@.len(),
    ensures
        r.deep_view() == colored(lines.deep_view(), pieces.deep_view()),
{
    let ghost all = colored(lines.deep_view(), pieces.deep_view());
    let mut out: Vec<Line> = Vec::new();
    let mut i: usize = 0;
    assert(out.deep_view() =~= all.take(0));
    while i < lines.len()
        invariant
            lines@.len() == pieces@.len(),
            all == colored(lines.deep_view(), pieces.deep_view()),
            i <= lines.len(),
            out.deep_view() == all.take(i as int),
        decreases lines.len() - i,
    {
        assert(lines.deep_view()[i as int] == lines@[i as int]@);
        assert(pieces.deep_view()[i as int] == pieces@[i as int].deep_view());
        let line = match &pieces[i] {
            Some(found) => color_pieces(found),
            None => plain_line(lines[i].as_str()),
        };
        push_line(&mut out, line);
        i += 1;
        assert(out.deep_view() =~= all.take(i as int));
    }
    assert(all.take(i as int) =~= all);
    out
}

} // verus!
