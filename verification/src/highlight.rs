//! Line-by-line syntax highlighting of JSON for a 24-bit colour terminal.
//!
//! The grammar and the theme come from syntect's built-in sets. A highlighter
//! carries the tokenizer's state from one line to the next, so the lines of a
//! text must be handed to it in order.

use crate::text::decimal;
use syntect::easy::HighlightLines;
use syntect::highlighting::{Color, FontStyle, Style, ThemeSet};
use syntect::parsing::SyntaxSet;
use vstd::prelude::*;

verus! {

/// syntect's set of grammars, carried as an opaque value.
#[verifier::external_type_specification]
#[verifier::external_body]
pub struct ExSyntaxSet(SyntaxSet);

/// syntect's set of themes, carried as an opaque value.
#[verifier::external_type_specification]
#[verifier::external_body]
pub struct ExThemeSet(ThemeSet);

/// syntect's line highlighter with the tokenizer state it carries, as an
/// opaque value.
#[verifier::external_type_specification]
#[verifier::external_body]
pub struct ExHighlightLines<'a>(HighlightLines<'a>);

/// syntect's error, carried as an opaque value.
#[verifier::external_type_specification]
#[verifier::external_body]
pub struct ExHighlightError(syntect::Error);

/// A colour with its opacity.
#[derive(Clone, Copy, Debug, PartialEq, Eq, Structural)]
pub struct Rgba {
    pub r: u8,
    pub g: u8,
    pub b: u8,
    pub a: u8,
}

/// A stretch of a line with the style it is shown in: foreground and
/// background colour, and the font style as syntect's bit set.
#[derive(Clone, Debug, PartialEq)]
pub struct Span {
    pub foreground: Rgba,
    pub background: Rgba,
    pub font: u8,
    pub text: String,
}

/// One colour channel of a foreground laid over a background: the
/// foreground's where it is opaque, else the two mixed by its opacity.
pub open spec fn blend(fore: u8, back: u8, alpha: u8) -> nat {
    if alpha == 255 {
        fore as nat
    } else {
        ((fore as nat) * (alpha as nat) + (back as nat) * ((255 - alpha) as nat)) / 255
    }
}

/// The escape sequence that sets a span's foreground as a 24-bit colour.
pub open spec fn colour_escape(span: Span) -> Seq<char> {
    let alpha = span.foreground.a;
    seq!['\u{1b}', '[', '3', '8', ';', '2', ';'] + decimal(
        blend(span.foreground.r, span.background.r, alpha),
    ) + seq![';'] + decimal(blend(span.foreground.g, span.background.g, alpha)) + seq![';']
        + decimal(blend(span.foreground.b, span.background.b, alpha)) + seq!['m']
}

/// Spans encoded for the terminal: each span's colour escape, then its text.
pub open spec fn escaped(spans: Seq<Span>) -> Seq<char>
    decreases spans.len(),
{
    if spans.len() == 0 {
        Seq::empty()
    } else {
        escaped(spans.drop_last()) + colour_escape(spans.last()) + spans.last().text@
    }
}

/// The texts of spans, one after another.
pub open spec fn span_text(spans: Seq<Span>) -> Seq<char>
    decreases spans.len(),
{
    if spans.len() == 0 {
        Seq::empty()
    } else {
        span_text(spans.drop_last()) + spans.last().text@
    }
}

/// The names of the grammars that a syntax set holds.
pub uninterp spec fn grammar_names(set: SyntaxSet) -> Set<Seq<char>>;

/// The names under which a theme set holds its themes.
pub uninterp spec fn theme_names(set: ThemeSet) -> Set<Seq<char>>;

/// The name of the grammar that bodies are highlighted with.
pub open spec fn json_grammar() -> Seq<char> {
    "JSON"@
}

/// The name of the theme that bodies are highlighted in.
pub open spec fn ocean_theme() -> Seq<char> {
    "base16-ocean.dark"@
}

/// Loads syntect's built-in grammars, in the variant for lines that keep
/// their line feed.
///
/// Trusted: calls `SyntaxSet::load_defaults_newlines`. The grammars come out
/// of a binary dump that syntect's documentation does not list, so nothing is
/// claimed of the set.
#[verifier::external_body]
fn load_syntaxes() -> SyntaxSet {
    SyntaxSet::load_defaults_newlines()
}

/// Loads syntect's built-in themes.
///
/// Trusted: calls `ThemeSet::load_defaults`, whose documentation lists
/// `base16-ocean.dark` among the keys of the map it returns. Nothing else is
/// claimed of the set.
#[verifier::external_body]
fn load_themes() -> (set: ThemeSet)
    ensures
        theme_names(set).contains("base16-ocean.dark"@),
{
    ThemeSet::load_defaults()
}

/// What syntect's line highlighter makes of a line: the styled spans, or
/// nothing where the line fails to tokenize. It is a function of the grammar
/// and the theme, both taken by name from the built-in sets, of the lines
/// that the highlighter has received since it was started, and of the line.
pub uninterp spec fn highlighted(
    grammar: Seq<char>,
    theme: Seq<char>,
    history: Seq<Seq<char>>,
    line: Seq<char>,
) -> Option<Seq<Span>>;

/// A line highlighter together with the set of grammars it tokenizes with:
/// the two are made as a pair and stay one. In ghost state it carries the
/// names it was started with and the lines it has received; only the two
/// functions below write them.
struct Tokenizer<'a> {
    state: HighlightLines<'a>,
    syntaxes: &'a SyntaxSet,
    grammar: Ghost<Seq<char>>,
    theme: Ghost<Seq<char>>,
    fed: Ghost<Seq<Seq<char>>>,
}

/// Starts highlighting a new text with the grammar and the theme of the
/// given names.
///
/// Trusted: looks the grammar up with `SyntaxSet::find_syntax_by_name` and
/// the theme in the `themes` map of the `ThemeSet`, and calls
/// `HighlightLines::new` with what it found, so that the grammar always
/// belongs to the set it is paired with. It succeeds exactly where the set
/// holds a grammar of that name and the name is a key of the map. The new
/// tokenizer has received no line.
#[verifier::external_body]
fn start_lines<'a>(
    syntaxes: &'a SyntaxSet,
    grammar: &str,
    themes: &'a ThemeSet,
    theme: &str,
) -> (made: Option<Tokenizer<'a>>)
    ensures
        made is Some <==> (grammar_names(*syntaxes).contains(grammar@) && theme_names(*themes).contains(theme@)),
        made matches Some(t) ==> (grammar_names(*t.syntaxes) == grammar_names(*syntaxes)
            && t.grammar@ == grammar@ && t.theme@ == theme@ && t.fed@.len() == 0),
{
    let syntax = syntaxes.find_syntax_by_name(grammar)?;
    let found = themes.themes.get(theme)?;
    Some(Tokenizer {
        state: HighlightLines::new(syntax, found),
        syntaxes,
        grammar: Ghost(grammar@),
        theme: Ghost(theme@),
        fed: Ghost(Seq::empty()),
    })
}

/// Tokenizes and styles the next line.
///
/// Trusted: calls `HighlightLines::highlight_line` with the set the state
/// was paired with, and copies each span's colours, font bits and text. The
/// outcome is the one named `highlighted` for the lines received so far and
/// this line, and the line is then among the lines received. The spans it
/// hands out are consecutive pieces of the line, starting at its beginning;
/// it may stop before the end where the scope stack cannot follow, so their
/// texts together are a prefix of the line. Nothing is claimed of the styles.
#[verifier::external_body]
fn highlight_line(tokenizer: &mut Tokenizer<'_>, line: &str) -> (r: Result<
    Vec<Span>,
    syntect::Error,
>)
    ensures
        match r {
            Ok(spans) => highlighted(
                old(tokenizer).grammar@,
                old(tokenizer).theme@,
                old(tokenizer).fed@,
                line@,
            ) == Some(spans@) && span_text(spans@).is_prefix_of(line@),
            Err(_) => highlighted(
                old(tokenizer).grammar@,
                old(tokenizer).theme@,
                old(tokenizer).fed@,
                line@,
            ) is None,
        },
        final(tokenizer).fed@ == old(tokenizer).fed@.push(line@),
        final(tokenizer).grammar@ == old(tokenizer).grammar@,
        final(tokenizer).theme@ == old(tokenizer).theme@,
        grammar_names(*final(tokenizer).syntaxes) == grammar_names(*old(tokenizer).syntaxes),
{
    let spans = tokenizer.state.highlight_line(line, tokenizer.syntaxes)?;
    Ok(spans.into_iter().map(|(s, text)| Span {
        foreground: Rgba { r: s.foreground.r, g: s.foreground.g, b: s.foreground.b, a: s.foreground.a },
        background: Rgba { r: s.background.r, g: s.background.g, b: s.background.b, a: s.background.a },
        font: s.font_style.bits(),
        text: text.to_string(),
    }).collect())
}

/// Encodes styled spans with 24-bit foreground colour escapes.
///
/// Trusted: calls `syntect::util::as_24_bit_terminal_escaped` without
/// background colours. For each span in turn it writes `ESC[38;2;R;G;Bm` and
/// the span's text, where R, G, B are the decimal channels of the foreground
/// blended over the background by the foreground's opacity; it never resets
/// the colour.
#[verifier::external_body]
fn escape_spans(spans: &Vec<Span>) -> (out: String)
    ensures
        out@ == escaped(spans@),
{
    let styled: Vec<(Style, &str)> = spans.iter().map(|s| (Style {
        foreground: Color { r: s.foreground.r, g: s.foreground.g, b: s.foreground.b, a: s.foreground.a },
        background: Color { r: s.background.r, g: s.background.g, b: s.background.b, a: s.background.a },
        font_style: FontStyle::from_bits_truncate(s.font),
    }, s.text.as_str())).collect();
    syntect::util::as_24_bit_terminal_escaped(&styled[..], false)
}

/// The grammars and themes, loaded once and only read afterwards.
pub struct Registry {
    syntaxes: SyntaxSet,
    themes: ThemeSet,
}

/// One line of a body: its text, the styled spans it was cut into (none for
/// an unstyled line), and what is shown for it.
#[derive(Debug)]
pub struct BodyLine {
    pub plain: String,
    pub spans: Vec<Span>,
    pub shown: String,
    pub styled: bool,
}

/// The spans of an optional list.
pub open spec fn spans_of(spans: Option<Vec<Span>>) -> Option<Seq<Span>> {
    match spans {
        Some(v) => Some(v@),
        None => None,
    }
}

impl BodyLine {
    /// Whether this is the line `text`, styled or not: a styled line shows
    /// its spans encoded for the terminal, and the spans' texts together are
    /// the line; an unstyled line shows the text itself.
    pub open spec fn is_line(&self, text: Seq<char>) -> bool {
        &&& self.plain@ == text
        &&& if self.styled {
            self.shown@ == escaped(self.spans@) && span_text(self.spans@) == text
        } else {
            self.shown@ == text && self.spans@.len() == 0
        }
    }

    /// Whether this is the line `text` shown as the highlighter's outcome
    /// says: the given spans encoded for the terminal, or the text itself
    /// where the line failed to tokenize.
    pub open spec fn is_outcome(&self, text: Seq<char>, spans: Option<Seq<Span>>) -> bool {
        &&& self.plain@ == text
        &&& self.styled == spans is Some
        &&& match spans {
            Some(s) => self.spans@ == s && self.shown@ == escaped(s),
            None => self.spans@.len() == 0 && self.shown@ == text,
        }
    }
}

/// What is shown for a line given the highlighter's outcome: its spans
/// encoded for the terminal, or the line unstyled where it failed to
/// tokenize.
pub fn line_output(line: &str, spans: Option<Vec<Span>>) -> (out: BodyLine)
    ensures
        out.is_outcome(line@, spans_of(spans)),
{
    match spans {
        Some(spans) => {
            let shown = escape_spans(&spans);
            BodyLine { plain: String::from_str(line), spans, shown, styled: true }
        },
        None => BodyLine {
            plain: String::from_str(line),
            spans: Vec::new(),
            shown: String::from_str(line),
            styled: false,
        },
    }
}

/// The spans of an outcome where they hold the whole line; nothing where the
/// line failed to tokenize or the spans stop short of its end.
pub open spec fn whole_spans(line: Seq<char>, outcome: Option<Seq<Span>>) -> Option<Seq<Span>> {
    match outcome {
        Some(spans) => if span_text(spans) == line {
            Some(spans)
        } else {
            None
        },
        None => None,
    }
}

/// The spans that a line is shown in when it is highlighted as JSON in the
/// `base16-ocean.dark` theme after the lines of `history`: the highlighter's
/// spans where they hold the whole line, nothing otherwise.
pub open spec fn json_rendering(history: Seq<Seq<char>>, line: Seq<char>) -> Option<Seq<Span>> {
    whole_spans(line, highlighted(json_grammar(), ocean_theme(), history, line))
}

/// Whether the spans' texts, one after another, are the line.
fn covers(spans: &Vec<Span>, line: &str) -> (yes: bool)
    ensures
        yes == (span_text(spans@) == line@),
{
    let mut text = String::new();
    let mut i: usize = 0;
    assert(spans@.take(0) =~= Seq::<Span>::empty());
    assert(text@ =~= span_text(spans@.take(0)));
    while i < spans.len()
        invariant
            i <= spans@.len(),
            text@ == span_text(spans@.take(i as int)),
        decreases spans@.len() - i,
    {
        text.append(spans[i].text.as_str());
        proof {
            assert(spans@.take(i + 1).drop_last() =~= spans@.take(i as int));
            assert(spans@.take(i + 1).last() == spans@[i as int]);
        }
        i += 1;
    }
    assert(spans@.take(i as int) =~= spans@);
    let whole = String::from_str(line);
    text == whole
}

/// A highlighter for one text, in one grammar and one theme.
pub struct Highlighter<'a> {
    tokenizer: Tokenizer<'a>,
}

impl Registry {
    /// The names of the grammars in the registry.
    pub closed spec fn grammars(&self) -> Set<Seq<char>> {
        grammar_names(self.syntaxes)
    }

    /// The names of the themes in the registry.
    pub closed spec fn themes(&self) -> Set<Seq<char>> {
        theme_names(self.themes)
    }

    /// Whether the registry holds what highlighting JSON takes: the JSON
    /// grammar and the `base16-ocean.dark` theme.
    pub open spec fn can_highlight_json(&self) -> bool {
        self.grammars().contains(json_grammar()) && self.themes().contains(ocean_theme())
    }

    /// Loads the built-in grammars and themes. The themes include
    /// `base16-ocean.dark`; which grammars there are is not known before
    /// they are looked up.
    pub fn load() -> (registry: Registry)
        ensures
            registry.themes().contains(ocean_theme()),
            registry.can_highlight_json() <==> registry.grammars().contains(json_grammar()),
    {
        Registry { syntaxes: load_syntaxes(), themes: load_themes() }
    }

    /// A fresh highlighter for JSON in the `base16-ocean.dark` theme, which
    /// looks grammars up in this registry and has received no line yet;
    /// `None` exactly where the registry lacks the grammar or the theme.
    pub fn json_highlighter(&self) -> (made: Option<Highlighter<'_>>)
        ensures
            made is Some <==> self.can_highlight_json(),
            made matches Some(h) ==> {
                &&& h.grammars() == self.grammars()
                &&& h.grammar() == json_grammar()
                &&& h.theme() == ocean_theme()
                &&& h.history() == Seq::<Seq<char>>::empty()
            },
    {
        match start_lines(&self.syntaxes, "JSON", &self.themes, "base16-ocean.dark") {
            Some(tokenizer) => Some(Highlighter { tokenizer }),
            None => None,
        }
    }

    /// A renderer for the lines of one body. It highlights exactly where the
    /// registry can highlight JSON, and its highlighter has received nothing.
    pub fn line_renderer(&self) -> (made: LineRenderer<'_>)
        ensures
            made.received() == if self.can_highlight_json() {
                Some(Seq::<Seq<char>>::empty())
            } else {
                None
            },
            made.kind() == if self.can_highlight_json() {
                Some((json_grammar(), ocean_theme()))
            } else {
                None
            },
    {
        LineRenderer { highlighter: self.json_highlighter() }
    }
}

impl<'a> Highlighter<'a> {
    /// The names of the grammars that this highlighter tokenizes with.
    pub closed spec fn grammars(&self) -> Set<Seq<char>> {
        grammar_names(*self.tokenizer.syntaxes)
    }

    /// The name of the grammar that this highlighter was started with.
    pub closed spec fn grammar(&self) -> Seq<char> {
        self.tokenizer.grammar@
    }

    /// The name of the theme that this highlighter was started with.
    pub closed spec fn theme(&self) -> Seq<char> {
        self.tokenizer.theme@
    }

    /// The lines that this highlighter has received, in order.
    pub closed spec fn history(&self) -> Seq<Seq<char>> {
        self.tokenizer.fed@
    }

    /// The spans that this highlighter shows a line in, were it handed over
    /// next: the outcome for its grammar and theme after the lines it has
    /// received, where the spans hold the whole line.
    pub open spec fn rendering(&self, line: Seq<char>) -> Option<Seq<Span>> {
        whole_spans(line, highlighted(self.grammar(), self.theme(), self.history(), line))
    }

    /// Highlights the next line of the text, in the state that the lines
    /// before it left. A line that fails to tokenize, or whose spans stop
    /// short of its end, is shown unstyled, and highlighting goes on with
    /// the next.
    pub fn render_line(&mut self, line: &str) -> (out: BodyLine)
        ensures
            out.is_outcome(line@, old(self).rendering(line@)),
            out.is_line(line@),
            final(self).history() == old(self).history().push(line@),
            final(self).grammar() == old(self).grammar(),
            final(self).theme() == old(self).theme(),
            final(self).grammars() == old(self).grammars(),
    {
        let spans = match highlight_line(&mut self.tokenizer, line) {
            Ok(spans) => if covers(&spans, line) {
                Some(spans)
            } else {
                None
            },
            Err(_) => None,
        };
        line_output(line, spans)
    }
}

/// Renders the lines of one body, one at a time: through a JSON highlighter
/// where the registry gave one, unstyled where it did not.
pub struct LineRenderer<'a> {
    highlighter: Option<Highlighter<'a>>,
}

impl<'a> LineRenderer<'a> {
    /// The lines that the renderer's highlighter has received, in order;
    /// `None` where it has no highlighter.
    pub closed spec fn received(&self) -> Option<Seq<Seq<char>>> {
        match self.highlighter {
            Some(h) => Some(h.history()),
            None => None,
        }
    }

    /// The names of the grammar and the theme of the renderer's highlighter;
    /// `None` where it has no highlighter.
    pub closed spec fn kind(&self) -> Option<(Seq<char>, Seq<char>)> {
        match self.highlighter {
            Some(h) => Some((h.grammar(), h.theme())),
            None => None,
        }
    }

    /// The spans that the next line is shown in: those of the highlighter
    /// after the lines received, or nothing without one.
    pub open spec fn rendering(&self, line: Seq<char>) -> Option<Seq<Span>> {
        match (self.kind(), self.received()) {
            (Some(kind), Some(history)) => whole_spans(
                line,
                highlighted(kind.0, kind.1, history, line),
            ),
            _ => None,
        }
    }

    /// Renders the next line of the body: by the highlighter, in the state
    /// that the lines before it left, or unstyled where there is none.
    pub fn next_line(&mut self, line: &str) -> (out: BodyLine)
        ensures
            out.is_outcome(line@, old(self).rendering(line@)),
            out.is_line(line@),
            final(self).kind() == old(self).kind(),
            final(self).received() == match old(self).received() {
                Some(before) => Some(before.push(line@)),
                None => None,
            },
    {
        match &mut self.highlighter {
            Some(h) => h.render_line(line),
            None => line_output(line, None),
        }
    }
}

} // verus!
