//! Rendering a response: the status line, the header lines, then the body.

use crate::body::{
    is_json_typed, joined, json_pretty, lemma_lines_join, lines, plan_body, planned_lines,
    reformatted, texts,
    BodyPlan,
};
use crate::json::is_json_chars;
use crate::content_type::{declared_type, get_content_type, is_json_parts, is_text_byte};
use crate::highlight::{
    json_grammar, json_rendering, line_output, ocean_theme, BodyLine, Registry,
};
use crate::response::{Header, Response, Version};
use crate::text::{decimal, push_char, push_decimal};
use vstd::prelude::*;

verus! {

/// The colours that set the status line and the header names apart.
#[derive(Clone, Copy, Debug, PartialEq, Eq, Structural)]
pub enum Tint {
    Blue,
    Green,
}

impl Tint {
    /// The SGR number of the foreground colour.
    pub open spec fn code(self) -> nat {
        match self {
            Tint::Blue => 34,
            Tint::Green => 32,
        }
    }

    /// The escape sequence that switches the colour on.
    pub open spec fn prefix(self) -> Seq<char> {
        seq!['\u{1b}', '['] + decimal(self.code()) + seq!['m']
    }
}

/// The escape sequence that switches all colours off.
pub open spec fn reset() -> Seq<char> {
    seq!['\u{1b}', '[', '0', 'm']
}

/// The prefixes written out: `ESC[34m` for blue and `ESC[32m` for green.
pub proof fn lemma_prefixes()
    ensures
        Tint::Blue.prefix() == seq!['\u{1b}', '[', '3', '4', 'm'],
        Tint::Green.prefix() == seq!['\u{1b}', '[', '3', '2', 'm'],
{
    reveal_with_fuel(decimal, 3);
    assert(Tint::Blue.prefix() =~= seq!['\u{1b}', '[', '3', '4', 'm']);
    assert(Tint::Green.prefix() =~= seq!['\u{1b}', '[', '3', '2', 'm']);
}

/// What `colored` writes for a text in a foreground colour, given by its SGR
/// number, when colouring is switched on.
pub uninterp spec fn painted(code: nat, text: Seq<char>) -> Seq<char>;

/// Whether `shown` is `text` in the given colour followed by `rest`, as far
/// as that can be known: the text is either left plain (colouring is off for
/// this process) or painted; a painted text without an escape character in
/// it is the text between the colour's prefix and the reset sequence.
pub open spec fn tinted(shown: Seq<char>, tint: Tint, text: Seq<char>, rest: Seq<char>) -> bool {
    ||| shown == text + rest
    ||| {
        &&& shown == painted(tint.code(), text) + rest
        &&& !text.contains('\u{1b}') ==> shown == tint.prefix() + text + reset() + rest
    }
}

/// Colours a text for the terminal.
///
/// Trusted: calls `Colorize::color` of the `colored` crate on the text and
/// formats the result. Whether colours are written depends on the process
/// (its environment and whether it writes to a terminal), so the result is
/// either the text unchanged or the painted text; for a text that holds no
/// escape character the painted text is the colour's prefix, the text, and
/// the reset sequence.
#[verifier::external_body]
fn paint(text: &str, tint: Tint) -> (r: String)
    ensures
        r@ == text@ || (r@ == painted(tint.code(), text@) && (!text@.contains('\u{1b}') ==> r@
            == tint.prefix() + text@ + reset())),
{
    let color = match tint {
        Tint::Blue => colored::Color::Blue,
        Tint::Green => colored::Color::Green,
    };
    colored::Colorize::color(text, color).to_string()
}

/// The text of the status line: the version, a space, the status code.
pub open spec fn status_text(version: Version, status: u16) -> Seq<char> {
    version.text() + seq![' '] + decimal(status as nat)
}

/// The status line of a response, in blue.
pub fn status_line(version: Version, status: u16) -> (line: String)
    ensures
        tinted(line@, Tint::Blue, status_text(version, status), Seq::empty()),
{
    let mut text = String::from_str(version.as_str());
    push_char(&mut text, ' ');
    push_decimal(&mut text, status);
    assert(text@ =~= status_text(version, status));
    let line = paint(text.as_str(), Tint::Blue);
    assert(line@ + Seq::<char>::empty() =~= line@);
    assert(text@ + Seq::<char>::empty() =~= text@);
    assert(painted(Tint::Blue.code(), text@) + Seq::<char>::empty() =~= painted(
        Tint::Blue.code(),
        text@,
    ));
    assert(Tint::Blue.prefix() + text@ + reset() + Seq::<char>::empty() =~= Tint::Blue.prefix()
        + text@ + reset());
    line
}

/// The hexadecimal digit of a value below sixteen, in lower case.
pub open spec fn hex_char(d: nat) -> char {
    if d < 10 {
        crate::text::digit_char(d)
    } else if d == 10 {
        'a'
    } else if d == 11 {
        'b'
    } else if d == 12 {
        'c'
    } else if d == 13 {
        'd'
    } else if d == 14 {
        'e'
    } else {
        'f'
    }
}

/// How one byte of a header value is shown: a text byte as its character,
/// any other as `\x` and two hexadecimal digits.
pub open spec fn shown_byte(b: u8) -> Seq<char> {
    if is_text_byte(b) {
        seq![b as char]
    } else {
        seq!['\\', 'x', hex_char((b / 16) as nat), hex_char((b % 16) as nat)]
    }
}

/// How a header value is shown: byte by byte.
pub open spec fn shown_value(value: Seq<u8>) -> Seq<char>
    decreases value.len(),
{
    if value.len() == 0 {
        Seq::empty()
    } else {
        shown_value(value.drop_last()) + shown_byte(value.last())
    }
}

fn hex_of(d: u8) -> (c: char)
    requires
        d < 16,
    ensures
        c == hex_char(d as nat),
{
    if d < 10 {
        (d + 48) as char
    } else {
        (d + 87) as char
    }
}

/// Appends a header value as it is shown.
fn push_value(out: &mut String, value: &Vec<u8>)
    ensures
        final(out)@ == old(out)@ + shown_value(value@),
{
    let mut i: usize = 0;
    assert(value@.take(0) =~= Seq::<u8>::empty());
    assert(out@ + shown_value(value@.take(0)) =~= out@);
    while i < value.len()
        invariant
            i <= value@.len(),
            out@ == old(out)@ + shown_value(value@.take(i as int)),
        decreases value@.len() - i,
    {
        let b: u8 = value[i];
        let ghost before = out@;
        if (32 <= b && b < 127) || b == 9 {
            push_char(out, b as char);
        } else {
            push_char(out, '\\');
            push_char(out, 'x');
            push_char(out, hex_of(b / 16));
            push_char(out, hex_of(b % 16));
        }
        proof {
            assert(out@ =~= before + shown_byte(b));
            assert(value@.take(i + 1).drop_last() =~= value@.take(i as int));
            assert(value@.take(i + 1).last() == b);
        }
        i += 1;
    }
    assert(value@.take(i as int) =~= value@);
}

/// The part of a header line after the name: a colon, a space, the value.
pub open spec fn header_rest(value: Seq<u8>) -> Seq<char> {
    seq![':', ' '] + shown_value(value)
}

/// One header line: the name in green, a colon and a space, the value.
pub fn header_line(header: &Header) -> (line: String)
    ensures
        tinted(line@, Tint::Green, header.name@, header_rest(header.value@)),
{
    let mut line = paint(header.name.as_str(), Tint::Green);
    let ghost name = line@;
    push_char(&mut line, ':');
    push_char(&mut line, ' ');
    push_value(&mut line, &header.value);
    proof {
        let rest = header_rest(header.value@);
        assert(line@ =~= name + rest);
    }
    line
}

/// Whether `lines` are the header lines of `headers`, one each and in the
/// same order.
pub open spec fn are_header_lines(lines: Seq<String>, headers: Seq<Header>) -> bool {
    &&& lines.len() == headers.len()
    &&& forall|i: int|
        0 <= i < headers.len() ==> tinted(
            #[trigger] lines[i]@,
            Tint::Green,
            headers[i].name@,
            header_rest(headers[i].value@),
        )
}

/// The header lines of a response, in the order of its headers.
pub fn header_lines(headers: &Vec<Header>) -> (lines: Vec<String>)
    ensures
        are_header_lines(lines@, headers@),
{
    let mut lines: Vec<String> = Vec::new();
    let mut i: usize = 0;
    while i < headers.len()
        invariant
            i <= headers@.len(),
            lines@.len() == i,
            forall|j: int|
                0 <= j < i ==> tinted(
                    #[trigger] lines@[j]@,
                    Tint::Green,
                    headers@[j].name@,
                    header_rest(headers@[j].value@),
                ),
        decreases headers@.len() - i,
    {
        lines.push(header_line(&headers[i]));
        i += 1;
    }
    lines
}

/// Whether `out` shows the body that `plan` asks for: a raw body as one
/// unstyled line that is the body itself; a reformatted one line by line, in
/// order, an unstyled line showing its own text.
pub open spec fn shows_plan(out: Seq<BodyLine>, plan: BodyPlan) -> bool {
    match plan {
        BodyPlan::Raw(t) => out.len() == 1 && out[0].is_outcome(t@, None),
        BodyPlan::Lines(v) => {
            &&& out.len() == v@.len()
            &&& forall|i: int| 0 <= i < out.len() ==> (#[trigger] out[i]).is_line(v@[i]@)
        },
    }
}

/// The lines that a plan hands to the highlighter: none for a raw body.
pub open spec fn plan_lines(plan: BodyPlan) -> Option<Seq<Seq<char>>> {
    match plan {
        BodyPlan::Raw(_) => None,
        BodyPlan::Lines(v) => Some(texts(v@)),
    }
}

/// Whether the lines of `out` are shown as one highlighter renders them in
/// order, where there is one (`able`): each line of a reformatted body is the
/// outcome of the JSON highlighter after exactly the lines before it, from
/// the first on, never of a fresh one. Without a highlighter, and for a raw
/// body, no line is styled.
pub open spec fn fed_in_order(out: Seq<BodyLine>, lines: Option<Seq<Seq<char>>>, able: bool) -> bool {
    forall|i: int|
        0 <= i < out.len() ==> match lines {
            Some(ls) if able => (#[trigger] out[i]).is_outcome(
                ls[i],
                json_rendering(ls.take(i), ls[i]),
            ),
            _ => !out[i].styled,
        }
}

/// Renders a body as planned. The lines of a reformatted body go through one
/// highlighter in order, so that each is tokenized in the state the lines
/// before it left; where the registry has no JSON grammar or lacks the theme,
/// they are shown unstyled.
pub fn render_body(plan: &BodyPlan, registry: &Registry) -> (out: Vec<BodyLine>)
    ensures
        shows_plan(out@, *plan),
        fed_in_order(out@, plan_lines(*plan), registry.can_highlight_json()),
{
    match plan {
        BodyPlan::Raw(t) => {
            let mut out: Vec<BodyLine> = Vec::new();
            out.push(line_output(t.as_str(), None));
            out
        },
        BodyPlan::Lines(v) => {
            let ghost able = registry.can_highlight_json();
            let mut renderer = registry.line_renderer();
            let mut out: Vec<BodyLine> = Vec::new();
            let mut i: usize = 0;
            assert(texts(v@).take(0) =~= Seq::<Seq<char>>::empty());
            while i < v.len()
                invariant
                    i <= v@.len(),
                    out@.len() == i,
                    renderer.received() == if able {
                        Some(texts(v@).take(i as int))
                    } else {
                        None
                    },
                    renderer.kind() == if able {
                        Some((json_grammar(), ocean_theme()))
                    } else {
                        None
                    },
                    forall|j: int|
                        0 <= j < i ==> (#[trigger] out@[j]).is_line(v@[j]@) && if able {
                            out@[j].is_outcome(
                                texts(v@)[j],
                                json_rendering(texts(v@).take(j), texts(v@)[j]),
                            )
                        } else {
                            !out@[j].styled
                        },
                decreases v@.len() - i,
            {
                let line = renderer.next_line(v[i].as_str());
                assert(texts(v@).take(i + 1) =~= texts(v@).take(i as int).push(v@[i as int]@));
                out.push(line);
                i += 1;
            }
            out
        },
    }
}

/// A rendered response: what to write, in this order. The status line and
/// each header line are written on a line of their own, an empty line follows
/// the status line and another the last header line; the body's lines are
/// written as they are, with nothing added.
#[derive(Debug)]
pub struct Rendered {
    pub status: String,
    pub headers: Vec<String>,
    pub body: Vec<BodyLine>,
}

/// Whether `out` shows `body` as `lines` ask: as it came where there are
/// none, else line by line.
pub open spec fn shows_body(out: Seq<BodyLine>, body: Seq<char>, lines: Option<Seq<Seq<char>>>) -> bool {
    match lines {
        None => out.len() == 1 && out[0].is_outcome(body, None),
        Some(ls) => {
            &&& out.len() == ls.len()
            &&& forall|i: int| 0 <= i < out.len() ==> (#[trigger] out[i]).is_line(ls[i])
        },
    }
}

impl Rendered {
    /// Whether this is the rendering of `response`.
    pub open spec fn is_rendering_of(&self, response: &Response) -> bool {
        &&& tinted(
            self.status@,
            Tint::Blue,
            status_text(response.version, response.status),
            Seq::empty(),
        )
        &&& are_header_lines(self.headers@, response.headers@)
        &&& shows_body(
            self.body@,
            response.body@,
            planned_lines(declared_type(response.headers@), response.body@),
        )
    }
}

/// Renders a response: the status line, one line per header in the order of
/// the response, and the body, reformatted and highlighted where the
/// response declares `application/json` and shown as it came otherwise.
pub fn render(response: &Response, registry: &Registry) -> (out: Rendered)
    ensures
        out.is_rendering_of(response),
        fed_in_order(
            out.body@,
            planned_lines(declared_type(response.headers@), response.body@),
            registry.can_highlight_json(),
        ),
        planned_lines(declared_type(response.headers@), response.body@) is Some <==> is_json_typed(
            declared_type(response.headers@),
        ) && is_json_chars(response.body@),
{
    let status = status_line(response.version, response.status);
    let headers = header_lines(&response.headers);
    let media = get_content_type(&response.headers);
    let plan = plan_body(&media, response.body.as_str());
    let body = render_body(&plan, registry);
    proof {
        match plan {
            BodyPlan::Raw(t) => {},
            BodyPlan::Lines(v) => {
                assert forall|i: int| 0 <= i < body@.len() implies (#[trigger] body@[i]).is_line(
                    texts(v@)[i],
                ) by {}
            },
        }
    }
    Rendered { status, headers, body }
}

/// The texts of a list, each followed by a line feed, one after another.
pub open spec fn ended(ls: Seq<Seq<char>>) -> Seq<char>
    decreases ls.len(),
{
    if ls.len() == 0 {
        Seq::empty()
    } else {
        ended(ls.drop_last()) + ls.last() + seq!['\n']
    }
}

/// What is shown for each line of a body.
pub open spec fn shown_texts(body: Seq<BodyLine>) -> Seq<Seq<char>> {
    Seq::new(body.len(), |i: int| body[i].shown@)
}

/// The text of each line of a body.
pub open spec fn plain_texts(body: Seq<BodyLine>) -> Seq<Seq<char>> {
    Seq::new(body.len(), |i: int| body[i].plain@)
}

impl Rendered {
    /// What is written before the body: the status line and an empty line,
    /// the header lines and an empty line.
    pub open spec fn written_head(&self) -> Seq<char> {
        self.status@ + seq!['\n', '\n'] + ended(texts(self.headers@)) + seq!['\n']
    }

    /// Everything that is written, in order: the head, then what is shown
    /// for the body's lines, one after another with nothing added.
    pub open spec fn written(&self) -> Seq<char> {
        self.written_head() + joined(shown_texts(self.body@))
    }

    /// The whole output as one text.
    pub fn to_text(&self) -> (out: String)
        ensures
            out@ == self.written(),
    {
        let mut out = self.status.clone();
        push_char(&mut out, '\n');
        push_char(&mut out, '\n');
        let ghost head = out@;
        let mut i: usize = 0;
        assert(texts(self.headers@).take(0) =~= Seq::<Seq<char>>::empty());
        assert(out@ =~= head + ended(texts(self.headers@).take(0)));
        while i < self.headers.len()
            invariant
                i <= self.headers@.len(),
                out@ == head + ended(texts(self.headers@).take(i as int)),
            decreases self.headers@.len() - i,
        {
            let ghost before = out@;
            out.append(self.headers[i].as_str());
            push_char(&mut out, '\n');
            proof {
                let all = texts(self.headers@);
                assert(all.take(i + 1).drop_last() =~= all.take(i as int));
                assert(all.take(i + 1).last() == self.headers@[i as int]@);
                assert(out@ =~= head + ended(all.take(i + 1)));
            }
            i += 1;
        }
        assert(texts(self.headers@).take(i as int) =~= texts(self.headers@));
        push_char(&mut out, '\n');
        let ghost head = out@;
        let mut k: usize = 0;
        assert(shown_texts(self.body@).take(0) =~= Seq::<Seq<char>>::empty());
        assert(out@ =~= head + joined(shown_texts(self.body@).take(0)));
        assert(head =~= self.written_head());
        while k < self.body.len()
            invariant
                k <= self.body@.len(),
                out@ == head + joined(shown_texts(self.body@).take(k as int)),
            decreases self.body@.len() - k,
        {
            out.append(self.body[k].shown.as_str());
            proof {
                let all = shown_texts(self.body@);
                assert(all.take(k + 1).drop_last() =~= all.take(k as int));
                assert(all.take(k + 1).last() == self.body@[k as int].shown@);
                assert(out@ =~= head + joined(all.take(k + 1)));
            }
            k += 1;
        }
        assert(shown_texts(self.body@).take(k as int) =~= shown_texts(self.body@));
        assert(out@ =~= self.written());
        out
    }
}

/// A response that declares no media type, or one that is not exactly
/// `application/json`, has its body shown as it came: one unstyled line that
/// is the body itself.
pub proof fn lemma_other_types_are_shown_raw(out: Rendered, response: Response)
    requires
        out.is_rendering_of(&response),
        match declared_type(response.headers@) {
            Some(p) => !is_json_parts(p),
            None => true,
        },
    ensures
        out.body@.len() == 1,
        out.body@[0].shown@ == response.body@,
        out.body@[0].plain@ == response.body@,
        !out.body@[0].styled,
        shown_texts(out.body@) == seq![response.body@],
        out.written() == out.written_head() + response.body@,
{
    assert(shown_texts(out.body@) =~= seq![response.body@]);
    lemma_joined_one(response.body@);
}

/// A response whose body is not JSON, or fails to reformat, has the body
/// shown as it came whatever type it declares, and so any two renderings of
/// it show the same body.
pub proof fn lemma_malformed_json_is_shown_raw(a: Rendered, b: Rendered, response: Response)
    requires
        a.is_rendering_of(&response),
        b.is_rendering_of(&response),
        !is_json_chars(response.body@) || json_pretty(response.body@) is None,
    ensures
        shown_texts(a.body@) == seq![response.body@],
        !a.body@[0].styled,
        shown_texts(a.body@) == shown_texts(b.body@),
        a.written() == a.written_head() + response.body@,
        b.written() == b.written_head() + response.body@,
{
    assert(shown_texts(a.body@) =~= seq![response.body@]);
    assert(shown_texts(b.body@) =~= seq![response.body@]);
    lemma_joined_one(response.body@);
}

/// A response that declares exactly `application/json` with a body that is
/// JSON and reformats has the indented text shown line by line: the lines'
/// texts are the lines of the indented text, and put together they are that
/// text.
pub proof fn lemma_json_is_shown_reformatted(out: Rendered, response: Response, pretty: Seq<char>)
    requires
        out.is_rendering_of(&response),
        match declared_type(response.headers@) {
            Some(p) => is_json_parts(p),
            None => false,
        },
        is_json_chars(response.body@),
        json_pretty(response.body@) == Some(pretty),
    ensures
        plain_texts(out.body@) == lines(pretty),
        joined(plain_texts(out.body@)) == pretty,
        forall|i: int|
            0 <= i < out.body@.len() && !out.body@[i].styled ==> #[trigger] out.body@[i].shown@
                == lines(pretty)[i],
{
    assert(plain_texts(out.body@) =~= lines(pretty));
    lemma_lines_join(pretty);
}

/// The header lines follow the order of the response: the line at each
/// position is the line of the header at that position.
pub proof fn lemma_header_lines_in_order(out: Rendered, response: Response, i: int)
    requires
        out.is_rendering_of(&response),
        0 <= i < response.headers@.len(),
    ensures
        out.headers@.len() == response.headers@.len(),
        tinted(
            out.headers@[i]@,
            Tint::Green,
            response.headers@[i].name@,
            header_rest(response.headers@[i].value@),
        ),
{
}

/// One text, joined, is that text.
pub proof fn lemma_joined_one(text: Seq<char>)
    ensures
        joined(seq![text]) == text,
{
    reveal_with_fuel(joined, 2);
    assert(seq![text].drop_last() =~= Seq::<Seq<char>>::empty());
    assert(joined(seq![text].drop_last()) =~= Seq::<char>::empty());
    assert(joined(seq![text]) =~= text);
}

/// A reformatted body shown without styling is written as the indented text
/// itself: the lines follow one another with nothing between them.
pub proof fn lemma_unstyled_json_is_written_indented(
    out: Rendered,
    response: Response,
    pretty: Seq<char>,
)
    requires
        out.is_rendering_of(&response),
        match declared_type(response.headers@) {
            Some(p) => is_json_parts(p),
            None => false,
        },
        is_json_chars(response.body@),
        json_pretty(response.body@) == Some(pretty),
        forall|i: int| 0 <= i < out.body@.len() ==> !(#[trigger] out.body@[i]).styled,
    ensures
        out.written() == out.written_head() + pretty,
{
    assert(shown_texts(out.body@) =~= lines(pretty));
    lemma_lines_join(pretty);
}

/// The lines of a body share one highlighter: where the body is highlighted,
/// the first line is the highlighter's outcome after no line at all, and
/// every later line its outcome after the lines before it, the last of which
/// is the line just before.
pub proof fn lemma_state_is_carried(out: Rendered, lines: Seq<Seq<char>>, i: int)
    requires
        fed_in_order(out.body@, Some(lines), true),
        out.body@.len() == lines.len(),
        0 <= i < lines.len(),
    ensures
        i == 0 ==> out.body@[0].is_outcome(
            lines[0],
            json_rendering(Seq::<Seq<char>>::empty(), lines[0]),
        ),
        i > 0 ==> out.body@[i].is_outcome(
            lines[i],
            json_rendering(lines.take(i - 1).push(lines[i - 1]), lines[i]),
        ),
{
    assert(out.body@[i].is_outcome(lines[i], json_rendering(lines.take(i), lines[i])));
    if i == 0 {
        assert(lines.take(0) =~= Seq::<Seq<char>>::empty());
    } else {
        assert(lines.take(i) =~= lines.take(i - 1).push(lines[i - 1]));
    }
}

/// Header lines follow the headers in whatever order these come: picking
/// the headers in some order, with or without repeats, and picking their
/// lines in the same order gives header lines of the headers picked. Nothing
/// is sorted, dropped or merged.
pub proof fn lemma_header_lines_follow_any_order(
    lines: Seq<String>,
    headers: Seq<Header>,
    order: Seq<int>,
)
    requires
        are_header_lines(lines, headers),
        forall|k: int| 0 <= k < order.len() ==> 0 <= #[trigger] order[k] < headers.len(),
    ensures
        are_header_lines(
            Seq::new(order.len(), |k: int| lines[order[k]]),
            Seq::new(order.len(), |k: int| headers[order[k]]),
        ),
{
    let picked_lines = Seq::new(order.len(), |k: int| lines[order[k]]);
    let picked = Seq::new(order.len(), |k: int| headers[order[k]]);
    assert forall|k: int| 0 <= k < picked.len() implies tinted(
        #[trigger] picked_lines[k]@,
        Tint::Green,
        picked[k].name@,
        header_rest(picked[k].value@),
    ) by {
        assert(0 <= order[k] < headers.len());
        assert(tinted(
            lines[order[k]]@,
            Tint::Green,
            headers[order[k]].name@,
            header_rest(headers[order[k]].value@),
        ));
    }
}

} // verus!
