//! Recognizing JSON texts.
//!
//! A text is read byte by byte by a pushdown automaton: a mode that says what
//! may come next, and a stack of the arrays and objects that are still open.
//! The text is JSON when the automaton ends after a complete value with
//! nothing left open.
//!
//! The laws at the end hold the automaton to the grammar of JSON, which
//! `Json` states as a datatype: every value that the grammar builds is
//! accepted when written out, and so are arrays of accepted texts and objects
//! of accepted strings and texts, with white space allowed around each. That
//! the automaton accepts nothing else is not proved here.

use vstd::prelude::*;
use vstd::utf8::encode_utf8;

verus! {

/// What the automaton expects next.
#[derive(Clone, Copy, Debug, PartialEq, Eq, Structural)]
pub enum Mode {
    /// A value must start.
    Value,
    /// Just after `[`: a value or `]`.
    ArrayStart,
    /// Just after `{`: a key or `}`.
    ObjectStart,
    /// After a comma in an object: a key.
    Key,
    /// After a key: a colon.
    Colon,
    /// After a complete value: a comma, a closing bracket, or the end.
    After,
    /// Inside a string, which is a key or a value.
    InString { key: bool },
    /// After a backslash inside a string.
    Escape { key: bool },
    /// Inside `\u`, with this many hexadecimal digits still to come.
    Hex { key: bool, left: u8 },
    /// After the minus sign of a number.
    Minus,
    /// After a leading zero.
    Zero,
    /// Inside the integer part.
    Int,
    /// After the decimal point.
    Dot,
    /// Inside the fraction.
    Frac,
    /// After the exponent mark.
    Exp,
    /// After the exponent's sign.
    ExpSign,
    /// Inside the exponent.
    ExpDigits,
    /// Inside `true`, `false` or `null`: the bytes still to come are those of
    /// the word from this position on.
    Word { word: Word, at: u8 },
    /// The text is not JSON, whatever follows.
    Fail,
}

/// The three literal names.
#[derive(Clone, Copy, Debug, PartialEq, Eq, Structural)]
pub enum Word {
    True,
    False,
    Null,
}

/// What a step does to the stack of open containers.
#[derive(Clone, Copy, Debug, PartialEq, Eq, Structural)]
pub enum Action {
    Keep,
    /// Opens an object (`true`) or an array (`false`).
    Push(bool),
    Pop,
}

/// Space, tab, line feed, carriage return.
pub open spec fn is_space(c: u8) -> bool {
    c == 0x20 || c == 0x09 || c == 0x0a || c == 0x0d
}

pub open spec fn is_digit(c: u8) -> bool {
    0x30 <= c && c <= 0x39
}

pub open spec fn is_hex(c: u8) -> bool {
    is_digit(c) || (0x61 <= c && c <= 0x66) || (0x41 <= c && c <= 0x46)
}

/// The characters that may follow a backslash, `u` aside: `"`, `\`, `/`,
/// `b`, `f`, `n`, `r`, `t`.
pub open spec fn is_escape(c: u8) -> bool {
    c == 0x22 || c == 0x5c || c == 0x2f || c == 0x62 || c == 0x66 || c == 0x6e || c == 0x72 || c
        == 0x74
}

/// The bytes of a literal name.
pub open spec fn word_bytes(word: Word) -> Seq<u8> {
    match word {
        Word::True => seq![0x74u8, 0x72u8, 0x75u8, 0x65u8],
        Word::False => seq![0x66u8, 0x61u8, 0x6cu8, 0x73u8, 0x65u8],
        Word::Null => seq![0x6eu8, 0x75u8, 0x6cu8, 0x6cu8],
    }
}

/// The step after a complete value. `top` is the innermost open container:
/// an object (`true`), an array (`false`), or none.
pub open spec fn step_after(top: Option<bool>, c: u8) -> (Mode, Action) {
    if is_space(c) {
        (Mode::After, Action::Keep)
    } else if c == 0x2c {
        match top {
            Some(true) => (Mode::Key, Action::Keep),
            Some(false) => (Mode::Value, Action::Keep),
            None => (Mode::Fail, Action::Keep),
        }
    } else if c == 0x5d && top == Some(false) {
        (Mode::After, Action::Pop)
    } else if c == 0x7d && top == Some(true) {
        (Mode::After, Action::Pop)
    } else {
        (Mode::Fail, Action::Keep)
    }
}

/// The step where a value must start.
pub open spec fn step_value(c: u8) -> (Mode, Action) {
    if is_space(c) {
        (Mode::Value, Action::Keep)
    } else if c == 0x22 {
        (Mode::InString { key: false }, Action::Keep)
    } else if c == 0x2d {
        (Mode::Minus, Action::Keep)
    } else if c == 0x30 {
        (Mode::Zero, Action::Keep)
    } else if is_digit(c) {
        (Mode::Int, Action::Keep)
    } else if c == 0x5b {
        (Mode::ArrayStart, Action::Push(false))
    } else if c == 0x7b {
        (Mode::ObjectStart, Action::Push(true))
    } else if c == 0x74 {
        (Mode::Word { word: Word::True, at: 1 }, Action::Keep)
    } else if c == 0x66 {
        (Mode::Word { word: Word::False, at: 1 }, Action::Keep)
    } else if c == 0x6e {
        (Mode::Word { word: Word::Null, at: 1 }, Action::Keep)
    } else {
        (Mode::Fail, Action::Keep)
    }
}

/// One step of the automaton: the next mode and what happens to the stack.
pub open spec fn step(mode: Mode, top: Option<bool>, c: u8) -> (Mode, Action) {
    match mode {
        Mode::Value => step_value(c),
        Mode::ArrayStart => if is_space(c) {
            (Mode::ArrayStart, Action::Keep)
        } else if c == 0x5d {
            (Mode::After, Action::Pop)
        } else {
            step_value(c)
        },
        Mode::ObjectStart => if is_space(c) {
            (Mode::ObjectStart, Action::Keep)
        } else if c == 0x7d {
            (Mode::After, Action::Pop)
        } else if c == 0x22 {
            (Mode::InString { key: true }, Action::Keep)
        } else {
            (Mode::Fail, Action::Keep)
        },
        Mode::Key => if is_space(c) {
            (Mode::Key, Action::Keep)
        } else if c == 0x22 {
            (Mode::InString { key: true }, Action::Keep)
        } else {
            (Mode::Fail, Action::Keep)
        },
        Mode::Colon => if is_space(c) {
            (Mode::Colon, Action::Keep)
        } else if c == 0x3a {
            (Mode::Value, Action::Keep)
        } else {
            (Mode::Fail, Action::Keep)
        },
        Mode::After => step_after(top, c),
        Mode::InString { key } => if c == 0x22 {
            (
                if key {
                    Mode::Colon
                } else {
                    Mode::After
                },
                Action::Keep,
            )
        } else if c == 0x5c {
            (Mode::Escape { key }, Action::Keep)
        } else if c < 0x20 {
            (Mode::Fail, Action::Keep)
        } else {
            (Mode::InString { key }, Action::Keep)
        },
        Mode::Escape { key } => if is_escape(c) {
            (Mode::InString { key }, Action::Keep)
        } else if c == 0x75 {
            (Mode::Hex { key, left: 4 }, Action::Keep)
        } else {
            (Mode::Fail, Action::Keep)
        },
        Mode::Hex { key, left } => if !is_hex(c) {
            (Mode::Fail, Action::Keep)
        } else if left <= 1 {
            (Mode::InString { key }, Action::Keep)
        } else {
            (Mode::Hex { key, left: (left - 1) as u8 }, Action::Keep)
        },
        Mode::Minus => if c == 0x30 {
            (Mode::Zero, Action::Keep)
        } else if is_digit(c) {
            (Mode::Int, Action::Keep)
        } else {
            (Mode::Fail, Action::Keep)
        },
        Mode::Zero => if c == 0x2e {
            (Mode::Dot, Action::Keep)
        } else if c == 0x65 || c == 0x45 {
            (Mode::Exp, Action::Keep)
        } else {
            step_after(top, c)
        },
        Mode::Int => if is_digit(c) {
            (Mode::Int, Action::Keep)
        } else if c == 0x2e {
            (Mode::Dot, Action::Keep)
        } else if c == 0x65 || c == 0x45 {
            (Mode::Exp, Action::Keep)
        } else {
            step_after(top, c)
        },
        Mode::Dot => if is_digit(c) {
            (Mode::Frac, Action::Keep)
        } else {
            (Mode::Fail, Action::Keep)
        },
        Mode::Frac => if is_digit(c) {
            (Mode::Frac, Action::Keep)
        } else if c == 0x65 || c == 0x45 {
            (Mode::Exp, Action::Keep)
        } else {
            step_after(top, c)
        },
        Mode::Exp => if c == 0x2b || c == 0x2d {
            (Mode::ExpSign, Action::Keep)
        } else if is_digit(c) {
            (Mode::ExpDigits, Action::Keep)
        } else {
            (Mode::Fail, Action::Keep)
        },
        Mode::ExpSign => if is_digit(c) {
            (Mode::ExpDigits, Action::Keep)
        } else {
            (Mode::Fail, Action::Keep)
        },
        Mode::ExpDigits => if is_digit(c) {
            (Mode::ExpDigits, Action::Keep)
        } else {
            step_after(top, c)
        },
        Mode::Word { word, at } => if at < word_bytes(word).len() && c == word_bytes(word)[at as int] {
            if at + 1 == word_bytes(word).len() {
                (Mode::After, Action::Keep)
            } else {
                (Mode::Word { word, at: (at + 1) as u8 }, Action::Keep)
            }
        } else {
            (Mode::Fail, Action::Keep)
        },
        Mode::Fail => (Mode::Fail, Action::Keep),
    }
}

/// The innermost open container.
pub open spec fn top_of(stack: Seq<bool>) -> Option<bool> {
    if stack.len() == 0 {
        None
    } else {
        Some(stack.last())
    }
}

/// The stack after an action.
pub open spec fn act(stack: Seq<bool>, action: Action) -> Seq<bool> {
    match action {
        Action::Keep => stack,
        Action::Push(kind) => stack.push(kind),
        Action::Pop => if stack.len() == 0 {
            stack
        } else {
            stack.drop_last()
        },
    }
}

/// The automaton's mode and stack after reading a text from the start.
pub open spec fn scan(text: Seq<u8>) -> (Mode, Seq<bool>)
    decreases text.len(),
{
    if text.len() == 0 {
        (Mode::Value, Seq::empty())
    } else {
        let (mode, stack) = scan(text.drop_last());
        let (next, action) = step(mode, top_of(stack), text.last());
        (next, act(stack, action))
    }
}

/// Whether a value is complete in this mode: after a value, or inside a
/// number at a place where it may end.
pub open spec fn is_complete(mode: Mode) -> bool {
    mode == Mode::After || mode == Mode::Zero || mode == Mode::Int || mode == Mode::Frac || mode
        == Mode::ExpDigits
}

/// Whether a text is JSON: one complete value, white space around it
/// allowed, and every array and object closed.
pub open spec fn is_json(text: Seq<u8>) -> bool {
    is_complete(scan(text).0) && scan(text).1.len() == 0
}

fn space(c: u8) -> (r: bool)
    ensures
        r == is_space(c),
{
    c == 0x20 || c == 0x09 || c == 0x0a || c == 0x0d
}

fn digit(c: u8) -> (r: bool)
    ensures
        r == is_digit(c),
{
    0x30 <= c && c <= 0x39
}

fn word_byte(word: Word, at: u8) -> (r: Option<u8>)
    ensures
        r == if at < word_bytes(word).len() {
            Some(word_bytes(word)[at as int])
        } else {
            None
        },
        word_bytes(word).len() <= 5,
{
    match word {
        Word::True => if at == 0 {
            Some(0x74)
        } else if at == 1 {
            Some(0x72)
        } else if at == 2 {
            Some(0x75)
        } else if at == 3 {
            Some(0x65)
        } else {
            None
        },
        Word::False => if at == 0 {
            Some(0x66)
        } else if at == 1 {
            Some(0x61)
        } else if at == 2 {
            Some(0x6c)
        } else if at == 3 {
            Some(0x73)
        } else if at == 4 {
            Some(0x65)
        } else {
            None
        },
        Word::Null => if at == 0 {
            Some(0x6e)
        } else if at == 1 {
            Some(0x75)
        } else if at == 2 {
            Some(0x6c)
        } else if at == 3 {
            Some(0x6c)
        } else {
            None
        },
    }
}

fn next_after(top: Option<bool>, c: u8) -> (r: (Mode, Action))
    ensures
        r == step_after(top, c),
{
    if space(c) {
        (Mode::After, Action::Keep)
    } else if c == 0x2c {
        match top {
            Some(true) => (Mode::Key, Action::Keep),
            Some(false) => (Mode::Value, Action::Keep),
            None => (Mode::Fail, Action::Keep),
        }
    } else if c == 0x5d && top == Some(false) {
        (Mode::After, Action::Pop)
    } else if c == 0x7d && top == Some(true) {
        (Mode::After, Action::Pop)
    } else {
        (Mode::Fail, Action::Keep)
    }
}

fn next_value(c: u8) -> (r: (Mode, Action))
    ensures
        r == step_value(c),
{
    if space(c) {
        (Mode::Value, Action::Keep)
    } else if c == 0x22 {
        (Mode::InString { key: false }, Action::Keep)
    } else if c == 0x2d {
        (Mode::Minus, Action::Keep)
    } else if c == 0x30 {
        (Mode::Zero, Action::Keep)
    } else if digit(c) {
        (Mode::Int, Action::Keep)
    } else if c == 0x5b {
        (Mode::ArrayStart, Action::Push(false))
    } else if c == 0x7b {
        (Mode::ObjectStart, Action::Push(true))
    } else if c == 0x74 {
        (Mode::Word { word: Word::True, at: 1 }, Action::Keep)
    } else if c == 0x66 {
        (Mode::Word { word: Word::False, at: 1 }, Action::Keep)
    } else if c == 0x6e {
        (Mode::Word { word: Word::Null, at: 1 }, Action::Keep)
    } else {
        (Mode::Fail, Action::Keep)
    }
}

/// One step of the automaton.
pub fn next(mode: Mode, top: Option<bool>, c: u8) -> (r: (Mode, Action))
    ensures
        r == step(mode, top, c),
{
    let fail = (Mode::Fail, Action::Keep);
    match mode {
        Mode::Value => next_value(c),
        Mode::ArrayStart => if space(c) {
            (Mode::ArrayStart, Action::Keep)
        } else if c == 0x5d {
            (Mode::After, Action::Pop)
        } else {
            next_value(c)
        },
        Mode::ObjectStart => if space(c) {
            (Mode::ObjectStart, Action::Keep)
        } else if c == 0x7d {
            (Mode::After, Action::Pop)
        } else if c == 0x22 {
            (Mode::InString { key: true }, Action::Keep)
        } else {
            fail
        },
        Mode::Key => if space(c) {
            (Mode::Key, Action::Keep)
        } else if c == 0x22 {
            (Mode::InString { key: true }, Action::Keep)
        } else {
            fail
        },
        Mode::Colon => if space(c) {
            (Mode::Colon, Action::Keep)
        } else if c == 0x3a {
            (Mode::Value, Action::Keep)
        } else {
            fail
        },
        Mode::After => next_after(top, c),
        Mode::InString { key } => if c == 0x22 {
            if key {
                (Mode::Colon, Action::Keep)
            } else {
                (Mode::After, Action::Keep)
            }
        } else if c == 0x5c {
            (Mode::Escape { key }, Action::Keep)
        } else if c < 0x20 {
            fail
        } else {
            (Mode::InString { key }, Action::Keep)
        },
        Mode::Escape { key } => if c == 0x22 || c == 0x5c || c == 0x2f || c == 0x62 || c == 0x66
            || c == 0x6e || c == 0x72 || c == 0x74 {
            (Mode::InString { key }, Action::Keep)
        } else if c == 0x75 {
            (Mode::Hex { key, left: 4 }, Action::Keep)
        } else {
            fail
        },
        Mode::Hex { key, left } => if !(digit(c) || (0x61 <= c && c <= 0x66) || (0x41 <= c && c
            <= 0x46)) {
            fail
        } else if left <= 1 {
            (Mode::InString { key }, Action::Keep)
        } else {
            (Mode::Hex { key, left: left - 1 }, Action::Keep)
        },
        Mode::Minus => if c == 0x30 {
            (Mode::Zero, Action::Keep)
        } else if digit(c) {
            (Mode::Int, Action::Keep)
        } else {
            fail
        },
        Mode::Zero => if c == 0x2e {
            (Mode::Dot, Action::Keep)
        } else if c == 0x65 || c == 0x45 {
            (Mode::Exp, Action::Keep)
        } else {
            next_after(top, c)
        },
        Mode::Int => if digit(c) {
            (Mode::Int, Action::Keep)
        } else if c == 0x2e {
            (Mode::Dot, Action::Keep)
        } else if c == 0x65 || c == 0x45 {
            (Mode::Exp, Action::Keep)
        } else {
            next_after(top, c)
        },
        Mode::Dot => if digit(c) {
            (Mode::Frac, Action::Keep)
        } else {
            fail
        },
        Mode::Frac => if digit(c) {
            (Mode::Frac, Action::Keep)
        } else if c == 0x65 || c == 0x45 {
            (Mode::Exp, Action::Keep)
        } else {
            next_after(top, c)
        },
        Mode::Exp => if c == 0x2b || c == 0x2d {
            (Mode::ExpSign, Action::Keep)
        } else if digit(c) {
            (Mode::ExpDigits, Action::Keep)
        } else {
            fail
        },
        Mode::ExpSign => if digit(c) {
            (Mode::ExpDigits, Action::Keep)
        } else {
            fail
        },
        Mode::ExpDigits => if digit(c) {
            (Mode::ExpDigits, Action::Keep)
        } else {
            next_after(top, c)
        },
        Mode::Word { word, at } => match word_byte(word, at) {
            Some(expected) => if c != expected {
                fail
            } else {
                match word_byte(word, at + 1) {
                    Some(_) => (Mode::Word { word, at: at + 1 }, Action::Keep),
                    None => (Mode::After, Action::Keep),
                }
            },
            None => fail,
        },
        Mode::Fail => fail,
    }
}

/// Whether the bytes are a JSON text.
pub fn is_json_bytes(text: &[u8]) -> (yes: bool)
    ensures
        yes == is_json(text@),
{
    let mut mode = Mode::Value;
    let mut stack: Vec<bool> = Vec::new();
    let mut i: usize = 0;
    assert(text@.take(0) =~= Seq::<u8>::empty());
    while i < text.len()
        invariant
            i <= text@.len(),
            (mode, stack@) == scan(text@.take(i as int)),
        decreases text@.len() - i,
    {
        let top = if stack.len() == 0 {
            None
        } else {
            Some(stack[stack.len() - 1])
        };
        let (after, action) = next(mode, top, text[i]);
        proof {
            assert(text@.take(i + 1).drop_last() =~= text@.take(i as int));
            assert(text@.take(i + 1).last() == text@[i as int]);
        }
        match action {
            Action::Keep => {},
            Action::Push(kind) => {
                stack.push(kind);
            },
            Action::Pop => {
                let ghost before = stack@;
                stack.pop();
                assert(stack@ =~= act(before, Action::Pop));
            },
        }
        mode = after;
        i += 1;
    }
    assert(text@.take(i as int) =~= text@);
    let complete = match mode {
        Mode::After | Mode::Zero | Mode::Int | Mode::Frac | Mode::ExpDigits => true,
        _ => false,
    };
    complete && stack.len() == 0
}

/// Whether a text, in its UTF-8 encoding, is JSON.
pub open spec fn is_json_chars(text: Seq<char>) -> bool {
    is_json(encode_utf8(text))
}

/// Whether a text is JSON.
pub fn is_json_text(text: &str) -> (yes: bool)
    ensures
        yes == is_json_chars(text@),
{
    is_json_bytes(text.as_bytes())
}

/// The empty text is not JSON.
pub proof fn lemma_empty_is_not_json()
    ensures
        !is_json(Seq::empty()),
{
}

/// Once the automaton has failed, nothing that follows mends it: a text with
/// a failing beginning is not JSON.
pub proof fn lemma_failure_is_final(head: Seq<u8>, tail: Seq<u8>)
    requires
        scan(head).0 == Mode::Fail,
    ensures
        scan(head + tail).0 == Mode::Fail,
        !is_json(head + tail),
    decreases tail.len(),
{
    if tail.len() == 0 {
        assert(head + tail =~= head);
    } else {
        lemma_failure_is_final(head, tail.drop_last());
        assert((head + tail).drop_last() =~= head + tail.drop_last());
    }
}

/// White space before a text changes nothing.
pub proof fn lemma_leading_space(c: u8, text: Seq<u8>)
    requires
        is_space(c),
    ensures
        scan(seq![c] + text) == scan(text),
        is_json(seq![c] + text) == is_json(text),
    decreases text.len(),
{
    if text.len() == 0 {
        reveal_with_fuel(scan, 3);
        assert(seq![c] + text =~= seq![c]);
        assert(seq![c].drop_last() =~= Seq::<u8>::empty());
        assert(scan(seq![c]).1 =~= Seq::<bool>::empty());
    } else {
        lemma_leading_space(c, text.drop_last());
        assert((seq![c] + text).drop_last() =~= seq![c] + text.drop_last());
    }
}

/// White space after a JSON text leaves it a JSON text.
pub proof fn lemma_trailing_space(text: Seq<u8>, c: u8)
    requires
        is_space(c),
        is_json(text),
    ensures
        is_json(text.push(c)),
{
    assert(text.push(c).drop_last() =~= text);
}

/// A closing bracket after a JSON text has nothing to close: the text it
/// makes is not JSON, whatever follows.
pub proof fn lemma_stray_close_fails(text: Seq<u8>, c: u8)
    requires
        c == 0x5d || c == 0x7d,
        is_json(text),
    ensures
        scan(text.push(c)).0 == Mode::Fail,
        !is_json(text.push(c)),
{
    assert(text.push(c).drop_last() =~= text);
}

/// The modes that stand inside a container say which: just after an
/// opening bracket the innermost container is the one just opened, and
/// around a key it is an object.
pub proof fn lemma_open_modes_have_a_container(text: Seq<u8>)
    ensures
        scan(text).0 == Mode::ArrayStart ==> top_of(scan(text).1) == Some(false),
        is_in_object(scan(text).0) ==> top_of(scan(text).1) == Some(true),
    decreases text.len(),
{
    if text.len() > 0 {
        lemma_open_modes_have_a_container(text.drop_last());
    }
}

/// The modes that only occur directly inside an object: just after `{`,
/// before a key, inside a key, and before the colon.
pub open spec fn is_in_object(mode: Mode) -> bool {
    mode == Mode::ObjectStart || mode == Mode::Key || mode == Mode::Colon || mode == (Mode::InString {
        key: true,
    }) || mode == (Mode::Escape { key: true }) || (exists|left: u8|
        mode == (Mode::Hex { key: true, left }))
}

/// The mode inside a surrounding text, given the mode of the text read alone:
/// before the value has begun it is the mode the surroundings left, then the
/// text's own.
pub open spec fn mode_within(outer: Mode, mode: Mode, stack: Seq<bool>) -> Mode {
    if mode == Mode::Value && stack.len() == 0 {
        outer
    } else {
        mode
    }
}

/// A text is read inside another as it is read alone. Where the text before
/// it leaves the automaton waiting for a value, and the text read alone does
/// not fail, reading both gives the text's own mode, and its own stack on
/// top of the one left by the text before.
#[verifier::rlimit(80)]
#[verifier::spinoff_prover]
pub proof fn lemma_read_within(before: Seq<u8>, text: Seq<u8>)
    requires
        scan(before).0 == Mode::Value || scan(before).0 == Mode::ArrayStart,
        scan(text).0 != Mode::Fail,
    ensures
        scan(before + text) == (
            mode_within(scan(before).0, scan(text).0, scan(text).1),
            scan(before).1 + scan(text).1,
        ),
    decreases text.len(),
{
    if text.len() == 0 {
        assert(before + text =~= before);
        assert(scan(before).1 + scan(text).1 =~= scan(before).1);
    } else {
        let head = text.drop_last();
        let c = text.last();
        if scan(head).0 == Mode::Fail {
            lemma_failure_is_final(head, seq![c]);
            assert(head + seq![c] =~= text);
        }
        lemma_read_within(before, head);
        lemma_open_modes_have_a_container(head);
        assert((before + text).drop_last() =~= before + head);
        let (mode, stack) = scan(head);
        let outer = scan(before).1;
        let (next, action) = step(mode, top_of(stack), c);
        let within = mode_within(scan(before).0, mode, stack);
        assert(top_of(outer + stack) == if stack.len() == 0 {
            top_of(outer)
        } else {
            top_of(stack)
        });
        let (next_in, action_in) = step(within, top_of(outer + stack), c);
        assert(action_in == action);
        assert(next_in == mode_within(scan(before).0, next, act(stack, action)));
        assert(act(outer + stack, action) =~= outer + act(stack, action));
    }
}

/// Texts one after another with a comma between each two.
pub open spec fn comma_joined(items: Seq<Seq<u8>>) -> Seq<u8>
    decreases items.len(),
{
    if items.len() == 0 {
        Seq::empty()
    } else if items.len() == 1 {
        items[0]
    } else {
        comma_joined(items.drop_last()) + seq![0x2cu8] + items.last()
    }
}

/// The text of an array: its elements between square brackets, with commas
/// between them.
pub open spec fn array_text(items: Seq<Seq<u8>>) -> Seq<u8> {
    seq![0x5bu8] + comma_joined(items) + seq![0x5du8]
}

/// A JSON text read where a value may start is a complete value there, and
/// leaves the containers around it as they were.
pub proof fn lemma_value_within(before: Seq<u8>, text: Seq<u8>)
    requires
        scan(before).0 == Mode::Value || scan(before).0 == Mode::ArrayStart,
        is_json(text),
    ensures
        is_complete(scan(before + text).0),
        scan(before + text).1 == scan(before).1,
{
    lemma_read_within(before, text);
    assert(scan(before).1 + scan(text).1 =~= scan(before).1);
}

/// After an opening bracket and any number of elements, each a JSON text,
/// with commas between them, the automaton stands after a complete value
/// directly inside the array.
pub proof fn lemma_array_items(items: Seq<Seq<u8>>)
    requires
        items.len() > 0,
        forall|i: int| 0 <= i < items.len() ==> is_json(#[trigger] items[i]),
    ensures
        is_complete(scan(seq![0x5bu8] + comma_joined(items)).0),
        scan(seq![0x5bu8] + comma_joined(items)).1 == seq![false],
    decreases items.len(),
{
    let open = seq![0x5bu8];
    if items.len() == 1 {
        reveal_with_fuel(scan, 3);
        assert(open.drop_last() =~= Seq::<u8>::empty());
        assert(scan(open).0 == Mode::ArrayStart);
        assert(scan(open).1 =~= seq![false]);
        lemma_value_within(open, items[0]);
    } else {
        let head = items.drop_last();
        assert forall|i: int| 0 <= i < head.len() implies is_json(#[trigger] head[i]) by {
            assert(head[i] == items[i]);
        }
        lemma_array_items(head);
        let read = open + comma_joined(head);
        let next = read.push(0x2cu8);
        assert(next.drop_last() =~= read);
        assert(top_of(scan(read).1) == Some(false));
        assert(scan(next).0 == Mode::Value);
        assert(scan(next).1 =~= seq![false]);
        lemma_value_within(next, items.last());
        assert(open + comma_joined(items) =~= next + items.last());
    }
}

/// Arrays are JSON: any number of JSON texts, with commas between them and
/// square brackets around, make a JSON text.
pub proof fn lemma_array_is_json(items: Seq<Seq<u8>>)
    requires
        forall|i: int| 0 <= i < items.len() ==> is_json(#[trigger] items[i]),
    ensures
        is_json(array_text(items)),
{
    let open = seq![0x5bu8];
    let text = array_text(items);
    assert(text.drop_last() =~= open + comma_joined(items));
    if items.len() == 0 {
        reveal_with_fuel(scan, 3);
        assert(open + comma_joined(items) =~= open);
        assert(open.drop_last() =~= Seq::<u8>::empty());
        assert(scan(open).0 == Mode::ArrayStart);
        assert(scan(open).1 =~= seq![false]);
        assert(scan(text).1 =~= Seq::<bool>::empty());
    } else {
        lemma_array_items(items);
        assert(top_of(scan(text.drop_last()).1) == Some(false));
        assert(scan(text).1 =~= Seq::<bool>::empty());
    }
}

/// Whether a text is a JSON string: a JSON text that begins with its
/// opening quote.
pub open spec fn is_string_text(text: Seq<u8>) -> bool {
    text.len() > 0 && text[0] == 0x22 && is_json(text)
}

/// The mode inside a key, given the mode inside the same string read as a
/// value: the string's own modes as those of a key, and a colon awaited
/// after it.
pub open spec fn mode_as_key(mode: Mode) -> Mode {
    match mode {
        Mode::InString { key: _ } => Mode::InString { key: true },
        Mode::Escape { key: _ } => Mode::Escape { key: true },
        Mode::Hex { key: _, left } => Mode::Hex { key: true, left },
        Mode::After => Mode::Colon,
        _ => mode,
    }
}

/// Whether a mode is one of a string read as a value, or the one after it.
pub open spec fn is_string_mode(mode: Mode) -> bool {
    match mode {
        Mode::InString { key } => !key,
        Mode::Escape { key } => !key,
        Mode::Hex { key, left: _ } => !key,
        Mode::After => true,
        _ => false,
    }
}

/// A string is read as a key as it is read as a value. Where the text
/// before it leaves the automaton waiting for a key, and the text, which
/// begins with a quote, does not fail read alone, reading both gives the
/// key's mode for the string's own and leaves the stack as it was.
pub proof fn lemma_read_as_key(before: Seq<u8>, text: Seq<u8>)
    requires
        scan(before).0 == Mode::ObjectStart || scan(before).0 == Mode::Key,
        text.len() > 0,
        text[0] == 0x22,
        scan(text).0 != Mode::Fail,
    ensures
        is_string_mode(scan(text).0),
        scan(text).1.len() == 0,
        scan(before + text) == (mode_as_key(scan(text).0), scan(before).1),
    decreases text.len(),
{
    let head = text.drop_last();
    let c = text.last();
    assert((before + text).drop_last() =~= before + head);
    if text.len() == 1 {
        reveal_with_fuel(scan, 3);
        assert(head =~= Seq::<u8>::empty());
        assert(before + head =~= before);
        assert(scan(text).1 =~= Seq::<bool>::empty());
    } else {
        if scan(head).0 == Mode::Fail {
            lemma_failure_is_final(head, seq![c]);
            assert(head + seq![c] =~= text);
        }
        assert(head[0] == text[0]);
        lemma_read_as_key(before, head);
        assert(scan(text).1 =~= Seq::<bool>::empty());
    }
}

/// The text of one member of an object: the key, a colon, the value.
pub open spec fn member_text(key: Seq<u8>, value: Seq<u8>) -> Seq<u8> {
    key + seq![0x3au8] + value
}

/// The texts of the members of an object.
pub open spec fn member_texts(members: Seq<(Seq<u8>, Seq<u8>)>) -> Seq<Seq<u8>> {
    Seq::new(members.len(), |i: int| member_text(members[i].0, members[i].1))
}

/// The text of an object: its members between curly brackets, with commas
/// between them.
pub open spec fn object_text(members: Seq<(Seq<u8>, Seq<u8>)>) -> Seq<u8> {
    seq![0x7bu8] + comma_joined(member_texts(members)) + seq![0x7du8]
}

/// A member read where a key may start is a complete value there, and
/// leaves the containers around it as they were.
pub proof fn lemma_member_within(before: Seq<u8>, key: Seq<u8>, value: Seq<u8>)
    requires
        scan(before).0 == Mode::ObjectStart || scan(before).0 == Mode::Key,
        is_string_text(key),
        is_json(value),
    ensures
        is_complete(scan(before + member_text(key, value)).0),
        scan(before + member_text(key, value)).1 == scan(before).1,
{
    lemma_read_as_key(before, key);
    assert(scan(before + key).0 == Mode::Colon);
    let colon = (before + key).push(0x3au8);
    assert(colon.drop_last() =~= before + key);
    assert(scan(colon).0 == Mode::Value);
    assert(scan(colon).1 == scan(before).1);
    lemma_value_within(colon, value);
    assert(before + member_text(key, value) =~= colon + value);
}

/// After an opening curly bracket and any number of members, each a string,
/// a colon and a JSON text, with commas between them, the automaton stands
/// after a complete value directly inside the object.
pub proof fn lemma_object_items(members: Seq<(Seq<u8>, Seq<u8>)>)
    requires
        members.len() > 0,
        forall|i: int|
            0 <= i < members.len() ==> is_string_text((#[trigger] members[i]).0) && is_json(
                members[i].1,
            ),
    ensures
        is_complete(scan(seq![0x7bu8] + comma_joined(member_texts(members))).0),
        scan(seq![0x7bu8] + comma_joined(member_texts(members))).1 == seq![true],
    decreases members.len(),
{
    let open = seq![0x7bu8];
    let texts = member_texts(members);
    if members.len() == 1 {
        reveal_with_fuel(scan, 3);
        assert(open.drop_last() =~= Seq::<u8>::empty());
        assert(scan(open).0 == Mode::ObjectStart);
        assert(scan(open).1 =~= seq![true]);
        lemma_member_within(open, members[0].0, members[0].1);
        assert(comma_joined(texts) == texts[0]);
    } else {
        let head = members.drop_last();
        assert forall|i: int| 0 <= i < head.len() implies is_string_text((#[trigger] head[i]).0)
            && is_json(head[i].1) by {
            assert(head[i] == members[i]);
        }
        lemma_object_items(head);
        assert(member_texts(head) =~= texts.drop_last());
        let read = open + comma_joined(texts.drop_last());
        let next = read.push(0x2cu8);
        assert(next.drop_last() =~= read);
        assert(top_of(scan(read).1) == Some(true));
        assert(scan(next).0 == Mode::Key);
        assert(scan(next).1 =~= seq![true]);
        let last = members.last();
        lemma_member_within(next, last.0, last.1);
        assert(texts.last() == member_text(last.0, last.1));
        assert(open + comma_joined(texts) =~= next + texts.last());
    }
}

/// Objects are JSON: any number of members, each a JSON string, a colon and
/// a JSON text, with commas between them and curly brackets around, make a
/// JSON text.
pub proof fn lemma_object_is_json(members: Seq<(Seq<u8>, Seq<u8>)>)
    requires
        forall|i: int|
            0 <= i < members.len() ==> is_string_text((#[trigger] members[i]).0) && is_json(
                members[i].1,
            ),
    ensures
        is_json(object_text(members)),
{
    let open = seq![0x7bu8];
    let text = object_text(members);
    assert(text.drop_last() =~= open + comma_joined(member_texts(members)));
    if members.len() == 0 {
        reveal_with_fuel(scan, 3);
        assert(open + comma_joined(member_texts(members)) =~= open);
        assert(open.drop_last() =~= Seq::<u8>::empty());
        assert(scan(open).0 == Mode::ObjectStart);
        assert(scan(open).1 =~= seq![true]);
        assert(scan(text).1 =~= Seq::<bool>::empty());
    } else {
        lemma_object_items(members);
        assert(top_of(scan(text.drop_last()).1) == Some(true));
        assert(scan(text).1 =~= Seq::<bool>::empty());
    }
}

/// Reading one more byte is one step of the automaton.
pub proof fn lemma_scan_push(text: Seq<u8>, c: u8)
    ensures
        scan(text.push(c)) == (
            step(scan(text).0, top_of(scan(text).1), c).0,
            act(scan(text).1, step(scan(text).0, top_of(scan(text).1), c).1),
        ),
{
    assert(text.push(c).drop_last() =~= text);
}

/// The literal names `true`, `false` and `null` are JSON.
pub proof fn lemma_word_is_json(word: Word)
    ensures
        is_json(word_bytes(word)),
{
    let e = Seq::<u8>::empty();
    let w = word_bytes(word);
    lemma_scan_push(e, w[0]);
    lemma_scan_push(e.push(w[0]), w[1]);
    lemma_scan_push(e.push(w[0]).push(w[1]), w[2]);
    lemma_scan_push(e.push(w[0]).push(w[1]).push(w[2]), w[3]);
    if word == Word::False {
        lemma_scan_push(e.push(w[0]).push(w[1]).push(w[2]).push(w[3]), w[4]);
        assert(w =~= e.push(w[0]).push(w[1]).push(w[2]).push(w[3]).push(w[4]));
    } else {
        assert(w =~= e.push(w[0]).push(w[1]).push(w[2]).push(w[3]));
    }
}

/// A byte that stands for itself inside a string: none below the space, no
/// quote, no backslash.
pub open spec fn is_plain_byte(c: u8) -> bool {
    c >= 0x20 && c != 0x22 && c != 0x5c
}

/// One unit of a string's content: a plain byte, a backslash and one of the
/// escape characters, or `\u` and four hexadecimal digits.
pub open spec fn is_string_unit(unit: Seq<u8>) -> bool {
    ||| unit.len() == 1 && is_plain_byte(unit[0])
    ||| unit.len() == 2 && unit[0] == 0x5c && is_escape(unit[1])
    ||| unit.len() == 6 && unit[0] == 0x5c && unit[1] == 0x75 && is_hex(unit[2]) && is_hex(
        unit[3],
    ) && is_hex(unit[4]) && is_hex(unit[5])
}

/// Texts one after another.
pub open spec fn run_together(units: Seq<Seq<u8>>) -> Seq<u8>
    decreases units.len(),
{
    if units.len() == 0 {
        Seq::empty()
    } else {
        run_together(units.drop_last()) + units.last()
    }
}

/// The text of a string: its units between quotes.
pub open spec fn string_text(units: Seq<Seq<u8>>) -> Seq<u8> {
    seq![0x22u8] + run_together(units) + seq![0x22u8]
}

/// After the opening quote and any number of units the automaton is inside
/// the string.
pub proof fn lemma_string_units(units: Seq<Seq<u8>>)
    requires
        forall|i: int| 0 <= i < units.len() ==> is_string_unit(#[trigger] units[i]),
    ensures
        scan(seq![0x22u8] + run_together(units)) == (
            Mode::InString { key: false },
            Seq::<bool>::empty(),
        ),
    decreases units.len(),
{
    let quote = seq![0x22u8];
    if units.len() == 0 {
        lemma_scan_push(Seq::<u8>::empty(), 0x22u8);
        assert(quote + run_together(units) =~= Seq::<u8>::empty().push(0x22u8));
    } else {
        let head = units.drop_last();
        assert forall|i: int| 0 <= i < head.len() implies is_string_unit(#[trigger] head[i]) by {
            assert(head[i] == units[i]);
        }
        lemma_string_units(head);
        let x = quote + run_together(head);
        let u = units.last();
        assert(is_string_unit(u));
        assert(quote + run_together(units) =~= x + u);
        lemma_scan_push(x, u[0]);
        if u.len() == 1 {
            assert(x + u =~= x.push(u[0]));
        } else if u.len() == 2 {
            lemma_scan_push(x.push(u[0]), u[1]);
            assert(x + u =~= x.push(u[0]).push(u[1]));
        } else {
            let x1 = x.push(u[0]);
            let x2 = x1.push(u[1]);
            let x3 = x2.push(u[2]);
            let x4 = x3.push(u[3]);
            let x5 = x4.push(u[4]);
            lemma_scan_push(x1, u[1]);
            lemma_scan_push(x2, u[2]);
            lemma_scan_push(x3, u[3]);
            lemma_scan_push(x4, u[4]);
            lemma_scan_push(x5, u[5]);
            assert(x + u =~= x5.push(u[5]));
        }
    }
}

/// Strings are JSON: any number of units between quotes make a JSON string.
pub proof fn lemma_string_is_json(units: Seq<Seq<u8>>)
    requires
        forall|i: int| 0 <= i < units.len() ==> is_string_unit(#[trigger] units[i]),
    ensures
        is_string_text(string_text(units)),
{
    lemma_string_units(units);
    lemma_scan_push(seq![0x22u8] + run_together(units), 0x22u8);
    assert(string_text(units) =~= (seq![0x22u8] + run_together(units)).push(0x22u8));
}

/// Whether every byte is a decimal digit.
pub open spec fn all_digits(digits: Seq<u8>) -> bool {
    forall|i: int| 0 <= i < digits.len() ==> is_digit(#[trigger] digits[i])
}

/// Whether the digits are the integer part of a number: at least one, and no
/// zero in front of others.
pub open spec fn is_whole(digits: Seq<u8>) -> bool {
    digits.len() > 0 && all_digits(digits) && (digits.len() == 1 || digits[0] != 0x30)
}

/// Whether the bytes are an exponent's sign: none, a plus or a minus.
pub open spec fn is_sign(sign: Seq<u8>) -> bool {
    sign.len() == 0 || (sign.len() == 1 && (sign[0] == 0x2b || sign[0] == 0x2d))
}

/// The text of a number's fraction: a point and digits, or nothing.
pub open spec fn fraction_text(fraction: Option<Seq<u8>>) -> Seq<u8> {
    match fraction {
        Some(digits) => seq![0x2eu8] + digits,
        None => Seq::empty(),
    }
}

/// The text of a number's exponent: the mark, the sign and digits, or
/// nothing.
pub open spec fn exponent_text(exponent: Option<(u8, Seq<u8>, Seq<u8>)>) -> Seq<u8> {
    match exponent {
        Some((mark, sign, digits)) => seq![mark] + sign + digits,
        None => Seq::empty(),
    }
}

/// The text of a number: an optional minus, the integer part, an optional
/// fraction, an optional exponent.
pub open spec fn number_text(
    minus: bool,
    whole: Seq<u8>,
    fraction: Option<Seq<u8>>,
    exponent: Option<(u8, Seq<u8>, Seq<u8>)>,
) -> Seq<u8> {
    (if minus {
        seq![0x2du8]
    } else {
        Seq::empty()
    }) + whole + fraction_text(fraction) + exponent_text(exponent)
}

/// Whether the parts are those of a number.
pub open spec fn is_number(
    whole: Seq<u8>,
    fraction: Option<Seq<u8>>,
    exponent: Option<(u8, Seq<u8>, Seq<u8>)>,
) -> bool {
    &&& is_whole(whole)
    &&& match fraction {
        Some(digits) => digits.len() > 0 && all_digits(digits),
        None => true,
    }
    &&& match exponent {
        Some((mark, sign, digits)) => (mark == 0x65 || mark == 0x45) && is_sign(sign)
            && digits.len() > 0 && all_digits(digits),
        None => true,
    }
}

/// Whether more digits may follow in this mode without changing it.
pub open spec fn is_digit_run(mode: Mode) -> bool {
    mode == Mode::Int || mode == Mode::Frac || mode == Mode::ExpDigits
}

/// Digits inside a run of digits change nothing.
pub proof fn lemma_digits(text: Seq<u8>, digits: Seq<u8>)
    requires
        is_digit_run(scan(text).0),
        all_digits(digits),
    ensures
        scan(text + digits) == scan(text),
    decreases digits.len(),
{
    if digits.len() == 0 {
        assert(text + digits =~= text);
    } else {
        let head = digits.drop_last();
        assert forall|i: int| 0 <= i < head.len() implies is_digit(#[trigger] head[i]) by {
            assert(head[i] == digits[i]);
        }
        lemma_digits(text, head);
        assert(is_digit(digits[digits.len() - 1]));
        lemma_scan_push(text + head, digits.last());
        assert(text + digits =~= (text + head).push(digits.last()));
    }
}

/// A first digit that starts a run of digits, and the digits after it.
proof fn lemma_first_digits(text: Seq<u8>, digits: Seq<u8>, run: Mode)
    requires
        digits.len() > 0,
        all_digits(digits),
        is_digit_run(run),
        step(scan(text).0, top_of(scan(text).1), digits[0]) == (run, Action::Keep),
    ensures
        scan(text + digits) == (run, scan(text).1),
{
    lemma_scan_push(text, digits[0]);
    let rest = digits.skip(1);
    assert forall|i: int| 0 <= i < rest.len() implies is_digit(#[trigger] rest[i]) by {
        assert(rest[i] == digits[i + 1]);
    }
    lemma_digits(text.push(digits[0]), rest);
    assert(text + digits =~= text.push(digits[0]) + rest);
}

/// Whether a number may end in this mode before any exponent.
pub open spec fn is_mantissa_end(mode: Mode) -> bool {
    mode == Mode::Zero || mode == Mode::Int || mode == Mode::Frac
}

/// The sign and the integer part of a number, read from the start.
proof fn lemma_number_whole(minus: bool, whole: Seq<u8>)
    requires
        is_whole(whole),
    ensures
        is_mantissa_end(scan(number_text(minus, whole, None, None)).0),
        scan(number_text(minus, whole, None, None)).0 != Mode::Frac,
        scan(number_text(minus, whole, None, None)).1.len() == 0,
{
    let e = Seq::<u8>::empty();
    let s0 = if minus {
        seq![0x2du8]
    } else {
        e
    };
    if minus {
        lemma_scan_push(e, 0x2du8);
        assert(s0 =~= e.push(0x2du8));
    }
    assert(scan(s0).1 =~= Seq::<bool>::empty());
    assert(is_digit(whole[0]));
    if whole[0] == 0x30 {
        lemma_scan_push(s0, whole[0]);
        assert(s0 + whole =~= s0.push(whole[0]));
    } else {
        lemma_first_digits(s0, whole, Mode::Int);
    }
    assert(number_text(minus, whole, None, None) =~= s0 + whole);
    assert(scan(s0 + whole).1 =~= Seq::<bool>::empty());
}

/// A fraction after the integer part.
proof fn lemma_number_fraction(text: Seq<u8>, fraction: Option<Seq<u8>>)
    requires
        scan(text).0 == Mode::Zero || scan(text).0 == Mode::Int,
        match fraction {
            Some(digits) => digits.len() > 0 && all_digits(digits),
            None => true,
        },
    ensures
        is_mantissa_end(scan(text + fraction_text(fraction)).0),
        scan(text + fraction_text(fraction)).1 == scan(text).1,
{
    match fraction {
        Some(digits) => {
            lemma_scan_push(text, 0x2eu8);
            assert(is_digit(digits[0]));
            lemma_first_digits(text.push(0x2eu8), digits, Mode::Frac);
            assert(text + fraction_text(fraction) =~= text.push(0x2eu8) + digits);
        },
        None => {
            assert(text + fraction_text(fraction) =~= text);
        },
    }
}

/// An exponent after the integer part or the fraction.
proof fn lemma_number_exponent(text: Seq<u8>, exponent: Option<(u8, Seq<u8>, Seq<u8>)>)
    requires
        is_mantissa_end(scan(text).0),
        match exponent {
            Some((mark, sign, digits)) => (mark == 0x65 || mark == 0x45) && is_sign(sign)
                && digits.len() > 0 && all_digits(digits),
            None => true,
        },
    ensures
        is_complete(scan(text + exponent_text(exponent)).0),
        scan(text + exponent_text(exponent)).1 == scan(text).1,
{
    match exponent {
        Some((mark, sign, digits)) => {
            lemma_scan_push(text, mark);
            let marked = text.push(mark);
            assert(is_digit(digits[0]));
            if sign.len() == 0 {
                lemma_first_digits(marked, digits, Mode::ExpDigits);
                assert(text + exponent_text(exponent) =~= marked + digits);
            } else {
                lemma_scan_push(marked, sign[0]);
                lemma_first_digits(marked.push(sign[0]), digits, Mode::ExpDigits);
                assert(text + exponent_text(exponent) =~= marked.push(sign[0]) + digits);
            }
        },
        None => {
            assert(text + exponent_text(exponent) =~= text);
        },
    }
}

/// Numbers are JSON: an optional minus, an integer part without a needless
/// zero in front, an optional fraction and an optional exponent make a JSON
/// text.
pub proof fn lemma_number_is_json(
    minus: bool,
    whole: Seq<u8>,
    fraction: Option<Seq<u8>>,
    exponent: Option<(u8, Seq<u8>, Seq<u8>)>,
)
    requires
        is_number(whole, fraction, exponent),
    ensures
        is_json(number_text(minus, whole, fraction, exponent)),
{
    let s1 = number_text(minus, whole, None, None);
    lemma_number_whole(minus, whole);
    lemma_number_fraction(s1, fraction);
    let s2 = s1 + fraction_text(fraction);
    lemma_number_exponent(s2, exponent);
    assert(number_text(minus, whole, fraction, exponent) =~= s2 + exponent_text(exponent));
}

/// A JSON value as the grammar builds it: a literal name, a number from its
/// parts, a string from its units, an array of values, or an object of keys
/// and values.
pub enum Json {
    Name(Word),
    Number {
        minus: bool,
        whole: Seq<u8>,
        fraction: Option<Seq<u8>>,
        exponent: Option<(u8, Seq<u8>, Seq<u8>)>,
    },
    Text(Seq<Seq<u8>>),
    Array(Seq<Json>),
    Object(Seq<(Seq<Seq<u8>>, Json)>),
}

/// Whether every unit is a unit of a string's content.
pub open spec fn are_string_units(units: Seq<Seq<u8>>) -> bool {
    forall|i: int| 0 <= i < units.len() ==> is_string_unit(#[trigger] units[i])
}

/// Whether a value is built by the grammar's rules, all the way down.
pub open spec fn is_well_formed(value: Json) -> bool
    decreases value,
{
    match value {
        Json::Name(_) => true,
        Json::Number { minus: _, whole, fraction, exponent } => is_number(whole, fraction, exponent),
        Json::Text(units) => are_string_units(units),
        Json::Array(items) => forall|i: int|
            0 <= i < items.len() ==> is_well_formed(#[trigger] items[i]),
        Json::Object(members) => forall|i: int|
            0 <= i < members.len() ==> are_string_units((#[trigger] members[i]).0)
                && is_well_formed(members[i].1),
    }
}

/// A value written out without white space.
pub open spec fn written(value: Json) -> Seq<u8>
    decreases value,
{
    match value {
        Json::Name(word) => word_bytes(word),
        Json::Number { minus, whole, fraction, exponent } => number_text(
            minus,
            whole,
            fraction,
            exponent,
        ),
        Json::Text(units) => string_text(units),
        Json::Array(items) => array_text(written_items(items)),
        Json::Object(members) => object_text(written_members(members)),
    }
}

/// The elements of an array, each written out.
pub open spec fn written_items(items: Seq<Json>) -> Seq<Seq<u8>>
    decreases items,
{
    Seq::new(
        items.len(),
        |i: int|
            if 0 <= i < items.len() {
                written(items[i])
            } else {
                Seq::empty()
            },
    )
}

/// The members of an object, key and value each written out.
pub open spec fn written_members(members: Seq<(Seq<Seq<u8>>, Json)>) -> Seq<(Seq<u8>, Seq<u8>)>
    decreases members,
{
    Seq::new(
        members.len(),
        |i: int|
            if 0 <= i < members.len() {
                (string_text(members[i].0), written(members[i].1))
            } else {
                (Seq::empty(), Seq::empty())
            },
    )
}

/// Every value that the grammar builds is JSON when written out.
pub proof fn lemma_grammar_is_json(value: Json)
    requires
        is_well_formed(value),
    ensures
        is_json(written(value)),
    decreases value,
{
    match value {
        Json::Name(word) => {
            lemma_word_is_json(word);
        },
        Json::Number { minus, whole, fraction, exponent } => {
            lemma_number_is_json(minus, whole, fraction, exponent);
        },
        Json::Text(units) => {
            lemma_string_is_json(units);
        },
        Json::Array(items) => {
            let texts = written_items(items);
            assert forall|i: int| 0 <= i < texts.len() implies is_json(#[trigger] texts[i]) by {
                assert(is_well_formed(items[i]));
                lemma_grammar_is_json(items[i]);
            }
            lemma_array_is_json(texts);
        },
        Json::Object(members) => {
            let texts = written_members(members);
            assert forall|i: int| 0 <= i < texts.len() implies is_string_text(
                (#[trigger] texts[i]).0,
            ) && is_json(texts[i].1) by {
                assert(are_string_units(members[i].0) && is_well_formed(members[i].1));
                lemma_string_is_json(members[i].0);
                lemma_grammar_is_json(members[i].1);
            }
            lemma_object_is_json(texts);
        },
    }
}

} // verus!
