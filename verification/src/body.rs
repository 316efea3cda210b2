//! The body of a response: deciding whether it is shown as it came or
//! reformatted, reformatting JSON, and cutting the result into lines.

use crate::content_type::{is_json_parts, MediaParts, MediaType};
use crate::json::{is_json_chars, is_json_text};
use vstd::prelude::*;

verus! {

/// What `jsonxf` makes of a text: the indented form, or nothing where it
/// reports a failure.
pub uninterp spec fn json_pretty(body: Seq<char>) -> Option<Seq<char>>;

/// Reformats a JSON text with two-space indentation.
///
/// Trusted: calls `jsonxf::pretty_print` and drops the error message. The
/// contract gives the outcome its name, `json_pretty`, and says that there is
/// one: the formatter does not validate its input, and it fails only where
/// reading or writing fails or what it wrote is not UTF-8. It reads from the
/// text and writes to a buffer in memory, and what it writes is the text's
/// bytes in order, white space outside strings left out, with line feeds and
/// spaces put in after ASCII characters only.
#[verifier::external_body]
fn pretty_print(body: &str) -> (r: Option<String>)
    ensures
        r is Some,
        json_pretty(body@) == text_of(r),
{
    jsonxf::pretty_print(body).ok()
}

/// The indented form of a body: that of a JSON text which the formatter
/// could reformat. A text that is not JSON has none, whatever the formatter
/// would make of it.
pub open spec fn reformatted(body: Seq<char>) -> Option<Seq<char>> {
    if is_json_chars(body) {
        json_pretty(body)
    } else {
        None
    }
}

/// Reformats a body believed to be JSON: the indented form of a body that
/// is JSON, `None` for one that is not.
pub fn reformat(body: &str) -> (r: Option<String>)
    ensures
        text_of(r) == reformatted(body@),
        r is Some <==> is_json_chars(body@),
{
    if is_json_text(body) {
        pretty_print(body)
    } else {
        None
    }
}

/// The lines of a text, each with its line feed where it has one. A character
/// starts a new line when there is no line yet or the last one is closed by a
/// line feed; otherwise it extends the last line.
pub open spec fn lines(s: Seq<char>) -> Seq<Seq<char>>
    decreases s.len(),
{
    if s.len() == 0 {
        Seq::empty()
    } else {
        let before = lines(s.drop_last());
        if before.len() > 0 && before.last().last() != '\n' {
            before.drop_last().push(before.last().push(s.last()))
        } else {
            before.push(seq![s.last()])
        }
    }
}

/// The texts of a list of strings.
pub open spec fn texts(v: Seq<String>) -> Seq<Seq<char>> {
    Seq::new(v.len(), |i: int| v[i]@)
}

/// The texts of a list, one after another.
pub open spec fn joined(ls: Seq<Seq<char>>) -> Seq<char>
    decreases ls.len(),
{
    if ls.len() == 0 {
        Seq::empty()
    } else {
        joined(ls.drop_last()) + ls.last()
    }
}

/// Cutting a text into lines loses nothing: the lines, one after another, are
/// the text again, and no line is empty.
pub proof fn lemma_lines_join(s: Seq<char>)
    ensures
        joined(lines(s)) == s,
        forall|i: int| 0 <= i < lines(s).len() ==> (#[trigger] lines(s)[i]).len() > 0,
    decreases s.len(),
{
    if s.len() > 0 {
        let before = lines(s.drop_last());
        lemma_lines_join(s.drop_last());
        if before.len() > 0 && before.last().last() != '\n' {
            let grown = before.drop_last().push(before.last().push(s.last()));
            assert(grown.drop_last() =~= before.drop_last());
            assert(joined(grown) =~= joined(before).push(s.last()));
        } else {
            let grown = before.push(seq![s.last()]);
            assert(grown.drop_last() =~= before);
            assert(joined(grown) =~= joined(before).push(s.last()));
        }
        assert(s.drop_last().push(s.last()) =~= s);
    }
}

/// Only the last line of a text can lack its line feed, and a line feed
/// stands nowhere but at the end of a line.
pub proof fn lemma_lines_closed(s: Seq<char>)
    ensures
        forall|i: int|
            0 <= i < lines(s).len() - 1 ==> (#[trigger] lines(s)[i]).last() == '\n',
        forall|i: int, j: int|
            0 <= i < lines(s).len() && 0 <= j < lines(s)[i].len() - 1 ==> #[trigger] lines(
                s,
            )[i][j] != '\n',
    decreases s.len(),
{
    if s.len() > 0 {
        lemma_lines_closed(s.drop_last());
        lemma_lines_join(s.drop_last());
    }
}

/// Cuts a text into its lines, line feeds kept.
///
/// Trusted: runs syntect's `LinesWithEndings` over the text and copies each
/// line. That iterator hands out the text up to and including each line feed,
/// and what is left after the last one if anything is: the contract says
/// exactly that, through `lines`.
#[verifier::external_body]
pub(crate) fn lines_with_endings(text: &str) -> (r: Vec<String>)
    ensures
        texts(r@) == lines(text@),
{
    syntect::util::LinesWithEndings::from(text).map(|l| l.to_string()).collect()
}

/// How a body is to be shown: as it came, or as the lines of its indented
/// form.
#[derive(Debug)]
pub enum BodyPlan {
    Raw(String),
    Lines(Vec<String>),
}

/// The lines a body is to be highlighted as, or `None` where it is shown as
/// it came: the declared type must be exactly `application/json` and the
/// body must reformat. A body that is declared JSON and is not, or that the
/// formatter fails on, is shown raw.
pub open spec fn planned_lines(media: Option<MediaParts>, body: Seq<char>) -> Option<
    Seq<Seq<char>>,
> {
    match media {
        Some(p) => if is_json_parts(p) {
            match reformatted(body) {
                Some(t) => Some(lines(t)),
                None => None,
            }
        } else {
            None
        },
        None => None,
    }
}

/// Whether the declared type is exactly `application/json`.
pub open spec fn is_json_typed(media: Option<MediaParts>) -> bool {
    match media {
        Some(p) => is_json_parts(p),
        None => false,
    }
}

/// The parts of an optional media type.
pub open spec fn parts_of(media: Option<MediaType>) -> Option<MediaParts> {
    match media {
        Some(m) => Some(m.parts()),
        None => None,
    }
}

impl BodyPlan {
    /// Whether this plan is the one `planned_lines` asks for.
    pub open spec fn follows(&self, media: Option<MediaParts>, body: Seq<char>) -> bool {
        match self {
            BodyPlan::Raw(t) => planned_lines(media, body) is None && t@ == body,
            BodyPlan::Lines(v) => planned_lines(media, body) == Some(texts(v@)),
        }
    }
}

/// The plan for a body once the reformatter has spoken: the lines of the
/// indented text where the type is JSON and reformatting succeeded, the body
/// as it came in every other case.
pub open spec fn plan_given(json: bool, body: Seq<char>, pretty: Option<Seq<char>>) -> Option<
    Seq<Seq<char>>,
> {
    match pretty {
        Some(t) => if json {
            Some(lines(t))
        } else {
            None
        },
        None => None,
    }
}

/// Decides how to show a body, given whether its type is JSON and what the
/// reformatter made of it.
pub fn plan_with(json: bool, body: &str, pretty: Option<String>) -> (plan: BodyPlan)
    ensures
        match plan {
            BodyPlan::Raw(t) => plan_given(json, body@, text_of(pretty)) is None && t@ == body@,
            BodyPlan::Lines(v) => plan_given(json, body@, text_of(pretty)) == Some(texts(v@)),
        },
{
    match pretty {
        Some(t) => {
            if json {
                BodyPlan::Lines(lines_with_endings(t.as_str()))
            } else {
                BodyPlan::Raw(String::from_str(body))
            }
        },
        None => BodyPlan::Raw(String::from_str(body)),
    }
}

/// The text of an optional string.
pub open spec fn text_of(s: Option<String>) -> Option<Seq<char>> {
    match s {
        Some(t) => Some(t@),
        None => None,
    }
}

/// Decides how to show a body: reformatted and cut into lines where the
/// declared type is exactly `application/json` and reformatting succeeds, as
/// it came otherwise.
pub fn plan_body(media: &Option<MediaType>, body: &str) -> (plan: BodyPlan)
    ensures
        plan.follows(parts_of(*media), body@),
        plan is Lines <==> is_json_typed(parts_of(*media)) && is_json_chars(body@),
{
    let json = match media {
        Some(m) => m.is_json(),
        None => false,
    };
    if json {
        let pretty = reformat(body);
        plan_with(true, body, pretty)
    } else {
        plan_with(false, body, None)
    }
}

} // verus!
