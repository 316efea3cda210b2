use httpie::body::{plan_body, plan_with, reformat, BodyPlan};
use httpie::json::{is_json_bytes, is_json_text, next, Action, Mode};
use httpie::content_type::{decode_text, eq_str, find_header, get_content_type, MediaType};
use httpie::highlight::{line_output, Registry, Rgba, Span};
use httpie::render::{header_line, header_lines, render, render_body, status_line};
use httpie::response::{Header, Response, Version};
use httpie::text::{eq_ignore_case, push_decimal};

fn header(name: &str, value: &str) -> Header {
    Header { name: name.to_string(), value: value.as_bytes().to_vec() }
}

fn response(headers: Vec<Header>, body: &str) -> Response {
    Response { version: Version::Http11, status: 200, headers, body: body.to_string() }
}

fn colours_on() {
    colored::control::set_override(true);
}

#[test]
fn json_response_is_reformatted_and_highlighted() {
    colours_on();
    let registry = Registry::load();
    let resp = response(vec![header("Content-Type", "application/json")], "{\"a\":1,\"b\":2}");
    let out = render(&resp, &registry);
    assert_eq!(out.status, "\u{1b}[34mHTTP/1.1 200\u{1b}[0m");
    assert_eq!(out.headers, vec!["\u{1b}[32mContent-Type\u{1b}[0m: application/json".to_string()]);
    let plain: Vec<&str> = out.body.iter().map(|l| l.plain.as_str()).collect();
    assert_eq!(plain, vec!["{\n", "  \"a\": 1,\n", "  \"b\": 2\n", "}"]);
    for line in out.body.iter() {
        assert!(line.styled);
        assert!(line.shown.contains("\u{1b}[38;2;"));
        assert_ne!(line.shown, line.plain);
    }
    assert!(out.body[1].shown.contains("a"));
    assert!(out.body[2].shown.contains("b"));
}

#[test]
fn plain_text_response_is_shown_raw() {
    colours_on();
    let registry = Registry::load();
    let mut resp = response(vec![header("Content-Type", "text/plain")], "hello");
    resp.status = 201;
    let out = render(&resp, &registry);
    assert_eq!(out.body.len(), 1);
    assert_eq!(out.body[0].shown, "hello");
    assert_eq!(out.body[0].plain, "hello");
    assert!(!out.body[0].styled);
    assert!(!out.body[0].shown.contains('\u{1b}'));
}

#[test]
fn missing_content_type_is_shown_raw() {
    let registry = Registry::load();
    let body = "{\"a\":1,\n \"b\":2}";
    let out = render(&response(vec![header("Server", "x")], body), &registry);
    assert_eq!(out.body.len(), 1);
    assert_eq!(out.body[0].shown, body);
    assert!(!out.body[0].styled);
}

#[test]
fn json_with_parameters_is_not_exactly_json() {
    let registry = Registry::load();
    let body = "{\"a\":1}";
    let resp = response(vec![header("Content-Type", "application/json; charset=utf-8")], body);
    let out = render(&resp, &registry);
    assert_eq!(out.body.len(), 1);
    assert_eq!(out.body[0].shown, body);
}

#[test]
fn malformed_content_type_is_shown_raw() {
    let registry = Registry::load();
    let resp = response(vec![header("Content-Type", "not a media type")], "{\"a\":1}");
    assert!(get_content_type(&resp.headers).is_none());
    let out = render(&resp, &registry);
    assert_eq!(out.body.len(), 1);
    assert_eq!(out.body[0].shown, "{\"a\":1}");
}

#[test]
fn undecodable_content_type_is_absent() {
    let headers = vec![Header { name: "content-type".to_string(), value: vec![0xff, 0x61] }];
    assert!(decode_text(&headers[0].value).is_none());
    assert!(get_content_type(&headers).is_none());
    let registry = Registry::load();
    let out = render(&response(headers, "[1]"), &registry);
    assert_eq!(out.body.len(), 1);
    assert_eq!(out.body[0].shown, "[1]");
}

#[test]
fn first_content_type_header_decides() {
    let headers =
        vec![header("X", "application/json"), header("content-type", "text/html"), header("Content-Type", "application/json")];
    assert_eq!(find_header(&headers, "content-type"), Some(1));
    let m = get_content_type(&headers).unwrap();
    assert_eq!(m.primary, "text");
    assert_eq!(m.subtype, "html");
    assert!(!m.is_json());
}

#[test]
fn header_name_case_is_ignored() {
    let headers = vec![header("CONTENT-type", "application/json")];
    assert_eq!(find_header(&headers, "content-type"), Some(0));
    assert!(get_content_type(&headers).unwrap().is_json());
    assert!(eq_ignore_case("Content-Type", "cONTENT-tYPE"));
    assert!(!eq_ignore_case("Content-Type", "Content_Type"));
    assert!(!eq_ignore_case("a", "ab"));
    assert!(!eq_ignore_case("[", "{"));
    assert!(!eq_ignore_case("@", "`"));
    assert!(find_header(&headers, "accept").is_none());
}

#[test]
fn media_type_parts_come_from_the_parser() {
    let m = get_content_type(&vec![header("Content-Type", "Text/HTML; charset=utf-8")]).unwrap();
    assert_eq!(m.primary, "text");
    assert_eq!(m.subtype, "html");
    assert_eq!(m.suffix, None);
    assert!(m.has_parameters);
    let m = get_content_type(&vec![header("Content-Type", "image/svg+xml")]).unwrap();
    assert_eq!(m.primary, "image");
    assert_eq!(m.subtype, "svg");
    assert_eq!(m.suffix, Some("xml".to_string()));
    assert!(!m.has_parameters);
}

#[test]
fn only_exact_application_json_is_json() {
    let json = |primary: &str, subtype: &str, suffix: Option<&str>, has_parameters: bool| {
        MediaType {
            primary: primary.to_string(),
            subtype: subtype.to_string(),
            suffix: suffix.map(|s| s.to_string()),
            has_parameters,
        }
        .is_json()
    };
    assert!(json("application", "json", None, false));
    assert!(!json("application", "json", None, true));
    assert!(!json("application", "json", Some("json"), false));
    assert!(!json("application", "jso", None, false));
    assert!(!json("text", "json", None, false));
    assert!(eq_str("json", "json"));
    assert!(!eq_str("json", "jsom"));
    assert!(!eq_str("json", "jsonx"));
}

#[test]
fn header_lines_keep_the_order_of_the_response() {
    colours_on();
    let headers = vec![header("b", "2"), header("a", "1"), header("c", "3"), header("a", "0")];
    let lines = header_lines(&headers);
    assert_eq!(
        lines,
        vec![
            "\u{1b}[32mb\u{1b}[0m: 2".to_string(),
            "\u{1b}[32ma\u{1b}[0m: 1".to_string(),
            "\u{1b}[32mc\u{1b}[0m: 3".to_string(),
            "\u{1b}[32ma\u{1b}[0m: 0".to_string(),
        ]
    );
    let swapped = vec![header("a", "1"), header("b", "2")];
    let lines = header_lines(&swapped);
    assert!(lines[0].ends_with(": 1"));
    assert!(lines[1].ends_with(": 2"));
    assert!(header_lines(&Vec::new()).is_empty());
}

#[test]
fn header_value_bytes_outside_text_are_escaped() {
    colours_on();
    let h = Header { name: "x".to_string(), value: vec![0x61, 0x00, 0x7f, 0xff, 0x09, 0x20, 0x7e, 0x1f] };
    assert_eq!(header_line(&h), "\u{1b}[32mx\u{1b}[0m: a\\x00\\x7f\\xff\t ~\\x1f");
    assert_eq!(decode_text(&vec![0x61, 0x09, 0x20, 0x7e]), Some("a\t ~".to_string()));
    assert_eq!(decode_text(&vec![]), Some(String::new()));
    assert_eq!(decode_text(&vec![0x7f]), None);
    assert_eq!(decode_text(&vec![0x1f]), None);
    assert_eq!(decode_text(&vec![0x80]), None);
}

#[test]
fn status_line_shows_version_and_code() {
    colours_on();
    assert_eq!(status_line(Version::Http11, 200), "\u{1b}[34mHTTP/1.1 200\u{1b}[0m");
    assert_eq!(status_line(Version::H2, 404), "\u{1b}[34mHTTP/2.0 404\u{1b}[0m");
    assert_eq!(status_line(Version::Http09, 0), "\u{1b}[34mHTTP/0.9 0\u{1b}[0m");
    assert_eq!(status_line(Version::Http10, 65535), "\u{1b}[34mHTTP/1.0 65535\u{1b}[0m");
    assert_eq!(status_line(Version::H3, 100), "\u{1b}[34mHTTP/3.0 100\u{1b}[0m");
    assert_eq!(Version::H3.as_str(), "HTTP/3.0");
}

#[test]
fn decimal_numerals_have_no_leading_zeros() {
    let show = |n: u16| {
        let mut s = String::from(">");
        push_decimal(&mut s, n);
        s
    };
    assert_eq!(show(0), ">0");
    assert_eq!(show(9), ">9");
    assert_eq!(show(10), ">10");
    assert_eq!(show(1203), ">1203");
    assert_eq!(show(65535), ">65535");
}

#[test]
fn failed_reformatting_falls_back_to_the_raw_body() {
    match plan_with(true, "{oops", None) {
        BodyPlan::Raw(t) => assert_eq!(t, "{oops"),
        BodyPlan::Lines(_) => panic!("a body that fails to reformat is shown raw"),
    }
    match plan_with(false, "{\"a\":1}", Some("{\n  \"a\": 1\n}".to_string())) {
        BodyPlan::Raw(t) => assert_eq!(t, "{\"a\":1}"),
        BodyPlan::Lines(_) => panic!("a body that is not JSON is shown raw"),
    }
    let registry = Registry::load();
    let out = render_body(&BodyPlan::Raw("{oops".to_string()), &registry);
    assert_eq!(out.len(), 1);
    assert_eq!(out[0].shown, "{oops");
    assert!(!out[0].styled);
}

#[test]
fn malformed_json_renders_the_same_every_time() {
    let registry = Registry::load();
    let resp = response(vec![header("Content-Type", "application/json")], "{\"a\": [1, 2");
    let first = render(&resp, &registry);
    let second = render(&resp, &registry);
    assert_eq!(first.body.len(), 1);
    assert_eq!(first.body[0].shown, "{\"a\": [1, 2");
    assert!(!first.body[0].styled);
    assert_eq!(first.body.len(), second.body.len());
    for (a, b) in first.body.iter().zip(second.body.iter()) {
        assert_eq!(a.plain, b.plain);
        assert_eq!(a.shown, b.shown);
        assert_eq!(a.styled, b.styled);
    }
    assert_eq!(first.status, second.status);
    assert_eq!(first.headers, second.headers);
}

#[test]
fn text_is_cut_after_each_line_feed() {
    let cut = |t: &str| match plan_with(true, "", Some(t.to_string())) {
        BodyPlan::Lines(v) => v,
        BodyPlan::Raw(_) => panic!("a reformatted JSON body is shown by lines"),
    };
    assert_eq!(cut("a\nb"), vec!["a\n", "b"]);
    assert_eq!(cut("a\nb\n"), vec!["a\n", "b\n"]);
    assert_eq!(cut("\n\nx"), vec!["\n", "\n", "x"]);
    assert_eq!(cut("x"), vec!["x"]);
    assert!(cut("").is_empty());
    assert_eq!(cut("a\r\nb").concat(), "a\r\nb");
}

#[test]
fn plan_for_json_holds_the_indented_lines() {
    let json = MediaType {
        primary: "application".to_string(),
        subtype: "json".to_string(),
        suffix: None,
        has_parameters: false,
    };
    match plan_body(&Some(json), "[1,{\"k\":\"v w\"}]") {
        BodyPlan::Lines(v) => {
            assert_eq!(v, vec!["[\n", "  1,\n", "  {\n", "    \"k\": \"v w\"\n", "  }\n", "]"])
        }
        BodyPlan::Raw(_) => panic!("a JSON body is reformatted"),
    }
    match plan_body(&None, "[1]") {
        BodyPlan::Raw(t) => assert_eq!(t, "[1]"),
        BodyPlan::Lines(_) => panic!("a body of unknown type is shown raw"),
    }
}

fn encode(spans: &[Span]) -> String {
    let mix = |f: u8, b: u8, a: u8| {
        if a == 255 {
            f as u32
        } else {
            (f as u32 * a as u32 + b as u32 * (255 - a as u32)) / 255
        }
    };
    let mut out = String::new();
    for s in spans {
        let a = s.foreground.a;
        out.push_str(&format!(
            "\u{1b}[38;2;{};{};{}m{}",
            mix(s.foreground.r, s.background.r, a),
            mix(s.foreground.g, s.background.g, a),
            mix(s.foreground.b, s.background.b, a),
            s.text
        ));
    }
    out
}

#[test]
fn line_output_shows_the_rendering_or_the_line() {
    let spans = vec![
        Span {
            foreground: Rgba { r: 1, g: 2, b: 3, a: 255 },
            background: Rgba { r: 9, g: 9, b: 9, a: 255 },
            font: 0,
            text: "x".to_string(),
        },
        Span {
            foreground: Rgba { r: 200, g: 100, b: 0, a: 128 },
            background: Rgba { r: 0, g: 0, b: 255, a: 255 },
            font: 1,
            text: "y\n".to_string(),
        },
    ];
    let styled = line_output("xy\n", Some(spans.clone()));
    assert_eq!(styled.plain, "xy\n");
    assert_eq!(styled.shown, "\u{1b}[38;2;1;2;3mx\u{1b}[38;2;100;50;127my\n");
    assert_eq!(styled.shown, encode(&spans));
    assert_eq!(styled.spans, spans);
    assert!(styled.styled);
    let empty = line_output("z", Some(Vec::new()));
    assert_eq!(empty.shown, "");
    assert!(empty.styled);
    let bare = line_output("x\n", None);
    assert_eq!(bare.plain, "x\n");
    assert_eq!(bare.shown, "x\n");
    assert!(bare.spans.is_empty());
    assert!(!bare.styled);
}

#[test]
fn transparent_foreground_shows_the_background() {
    let span = Span {
        foreground: Rgba { r: 10, g: 20, b: 30, a: 0 },
        background: Rgba { r: 7, g: 80, b: 255, a: 255 },
        font: 0,
        text: "t".to_string(),
    };
    assert_eq!(line_output("t", Some(vec![span])).shown, "\u{1b}[38;2;7;80;255mt");
}

#[test]
fn highlighting_carries_state_across_lines() {
    let registry = Registry::load();
    let mut carried = registry.json_highlighter().unwrap();
    let first = carried.render_line("/* note\n");
    let second = carried.render_line("1 */\n");
    assert_eq!(first.plain, "/* note\n");
    assert_eq!(second.plain, "1 */\n");
    let mut fresh = registry.json_highlighter().unwrap();
    let alone = fresh.render_line("1 */\n");
    assert!(second.styled && alone.styled);
    assert_ne!(second.shown, alone.shown);

    let mut again = registry.json_highlighter().unwrap();
    assert_eq!(again.render_line("/* note\n").shown, first.shown);
    assert_eq!(again.render_line("1 */\n").shown, second.shown);
}

#[test]
fn highlighted_line_keeps_its_text() {
    let registry = Registry::load();
    let mut h = registry.json_highlighter().unwrap();
    let line = h.render_line("{\"key\": [true, null, 12.5]}\n");
    assert!(line.styled);
    assert!(line.spans.len() > 1);
    let text: String = line.spans.iter().map(|s| s.text.as_str()).collect();
    assert_eq!(text, line.plain);
    assert_eq!(line.shown, encode(&line.spans));
    assert!(line.spans.iter().any(|s| s.foreground != line.spans[0].foreground));
}

#[test]
fn whole_output_is_status_then_headers_then_body() {
    colours_on();
    let registry = Registry::load();
    let resp = response(
        vec![header("Content-Type", "text/plain"), header("Server", "unit")],
        "hello",
    );
    let out = render(&resp, &registry);
    assert_eq!(
        out.to_text(),
        "\u{1b}[34mHTTP/1.1 200\u{1b}[0m\n\n\u{1b}[32mContent-Type\u{1b}[0m: text/plain\n\u{1b}[32mServer\u{1b}[0m: unit\n\nhello"
    );
    let bare = render(&response(Vec::new(), ""), &registry);
    assert_eq!(bare.to_text(), "\u{1b}[34mHTTP/1.1 200\u{1b}[0m\n\n\n");
}

#[test]
fn raw_body_is_written_byte_for_byte() {
    colours_on();
    let registry = Registry::load();
    let head = "\u{1b}[34mHTTP/1.1 200\u{1b}[0m\n\n";
    for (kind, body) in [
        (Some("text/plain"), "hello"),
        (Some("text/html"), "<p>\n</p>\n"),
        (Some("garbage"), "{\"a\":1}"),
        (Some("application/json"), "not json\n"),
        (None, "line one\r\nline two"),
    ] {
        let headers = match kind {
            Some(k) => vec![header("Content-Type", k)],
            None => Vec::new(),
        };
        let lines: String = match kind {
            Some(k) => format!("\u{1b}[32mContent-Type\u{1b}[0m: {k}\n"),
            None => String::new(),
        };
        let out = render(&response(headers, body), &registry);
        assert_eq!(out.to_text(), format!("{head}{lines}\n{body}"));
    }
}

#[test]
fn json_output_is_the_highlighted_lines_one_after_another() {
    let registry = Registry::load();
    let resp = response(vec![header("content-type", "application/json")], "[1,2]");
    let out = render(&resp, &registry);
    let plain: Vec<&str> = out.body.iter().map(|l| l.plain.as_str()).collect();
    assert_eq!(plain.concat(), "[\n  1,\n  2\n]");
    assert_eq!(out.body.len(), 4);
    let text = out.to_text();
    let tail: String = out.body.iter().map(|l| l.shown.as_str()).collect();
    assert!(text.ends_with(&tail));
    assert!(text.ends_with("]"));
    assert!(!tail.contains("\n\n"));
}

#[test]
fn body_lines_go_through_one_highlighter() {
    let registry = Registry::load();
    let lines = vec!["/* note\n".to_string(), "1 */\n".to_string(), "[2]\n".to_string()];
    let body = render_body(&BodyPlan::Lines(lines.clone()), &registry);
    let mut one = registry.json_highlighter().unwrap();
    let expected: Vec<_> = lines.iter().map(|l| one.render_line(l)).collect();
    assert_eq!(body.len(), 3);
    for (got, want) in body.iter().zip(expected.iter()) {
        assert_eq!(got.plain, want.plain);
        assert_eq!(got.shown, want.shown);
        assert!(got.styled);
    }
    let mut fresh = registry.json_highlighter().unwrap();
    assert_ne!(body[1].shown, fresh.render_line("1 */\n").shown);
}

#[test]
fn json_texts_are_recognized() {
    for text in [
        "{}",
        "[]",
        "0",
        "-0",
        "12",
        "-0.5e+10",
        "1E5",
        "1.25",
        "2e-3",
        "\"\"",
        "\"a\\u00e9\\n\\\"\\\\\\/\\b\\f\\r\\t\"",
        "\"h\u{e9}llo \u{1f600}\"",
        " \t\r\n[1, {\"a\": null, \"b\": [true, false]}, \"x\"] \n",
        "true",
        "false",
        "null",
        "{\"a\":{\"b\":{\"c\":[[[]]]}}}",
        "[1 ,2 , 3]",
        "{\"a\" : 1 , \"a\" : 2}",
    ] {
        assert!(is_json_text(text), "{text}");
    }
}

#[test]
fn malformed_texts_are_refused() {
    for text in [
        "",
        " ",
        "{",
        "}",
        "[",
        "]",
        "[1,]",
        "[,1]",
        "{\"a\":1,}",
        "{\"a\":}",
        "{\"a\" 1}",
        "{a:1}",
        "{1:2}",
        "{\"a\":1]",
        "[1}",
        "[1 2]",
        "1 2",
        "01",
        "1.",
        ".5",
        "+1",
        "-",
        "1e",
        "1e+",
        "0x10",
        "tru",
        "truee",
        "True",
        "nul",
        "fals",
        "NaN",
        "\"abc",
        "\"\\x\"",
        "\"\\u12G4\"",
        "\"\\u123\"",
        "\"a\tb\"",
        "\"a\nb\"",
        "'a'",
        "[1] [2]",
        "{\"a\":1}}",
        "\u{e9}",
        "{oops",
    ] {
        assert!(!is_json_text(text), "{text}");
    }
    assert!(!is_json_bytes(&[0x22, 0x00, 0x22]));
    assert!(is_json_bytes(&[0x22, 0xc3, 0xa9, 0x22]));
}

#[test]
fn automaton_steps() {
    assert_eq!(next(Mode::Value, None, b'['), (Mode::ArrayStart, Action::Push(false)));
    assert_eq!(next(Mode::Value, None, b'{'), (Mode::ObjectStart, Action::Push(true)));
    assert_eq!(next(Mode::ArrayStart, Some(false), b']'), (Mode::After, Action::Pop));
    assert_eq!(next(Mode::After, Some(true), b','), (Mode::Key, Action::Keep));
    assert_eq!(next(Mode::After, Some(false), b','), (Mode::Value, Action::Keep));
    assert_eq!(next(Mode::After, None, b','), (Mode::Fail, Action::Keep));
    assert_eq!(next(Mode::After, Some(true), b']'), (Mode::Fail, Action::Keep));
    assert_eq!(next(Mode::Int, Some(true), b'}'), (Mode::After, Action::Pop));
    assert_eq!(next(Mode::InString { key: true }, None, b'"'), (Mode::Colon, Action::Keep));
    assert_eq!(next(Mode::InString { key: false }, None, b'"'), (Mode::After, Action::Keep));
    assert_eq!(next(Mode::Hex { key: false, left: 1 }, None, b'F'), (Mode::InString { key: false }, Action::Keep));
    assert_eq!(next(Mode::Fail, None, b' '), (Mode::Fail, Action::Keep));
}

#[test]
fn reformat_refuses_what_is_not_json() {
    assert_eq!(reformat("{\"a\":1}"), Some("{\n  \"a\": 1\n}".to_string()));
    assert_eq!(reformat("[ ]"), Some("[]".to_string()));
    assert_eq!(reformat("{oops"), None);
    assert_eq!(reformat(""), None);
    assert_eq!(reformat("not json"), None);
}

#[test]
fn declared_json_that_is_not_json_is_shown_raw() {
    let registry = Registry::load();
    for body in ["not json", "{\"a\":1,}", "", "<html></html>"] {
        let out = render(&response(vec![header("Content-Type", "application/json")], body), &registry);
        assert_eq!(out.body.len(), 1);
        assert_eq!(out.body[0].shown, body);
        assert_eq!(out.body[0].plain, body);
        assert!(!out.body[0].styled);
    }
}

#[test]
fn loaded_registry_yields_a_json_highlighter() {
    let registry = Registry::load();
    let mut first = registry.json_highlighter().expect("the built-in sets hold JSON and the theme");
    let mut second = registry.json_highlighter().expect("a registry serves any number of highlighters");
    let a = first.render_line("[1]\n");
    let b = second.render_line("[1]\n");
    assert!(a.styled);
    assert_eq!(a.shown, b.shown);
}

#[test]
fn line_renderer_highlights_in_order() {
    let registry = Registry::load();
    let lines = vec!["/* note\n".to_string(), "1 */\n".to_string()];
    let mut renderer = registry.line_renderer();
    let first = renderer.next_line(&lines[0]);
    let second = renderer.next_line(&lines[1]);
    let body = render_body(&BodyPlan::Lines(lines), &registry);
    assert_eq!(first.shown, body[0].shown);
    assert_eq!(second.shown, body[1].shown);
    assert!(first.styled && second.styled);
    assert_eq!(second.plain, "1 */\n");
}

#[test]
fn every_styled_line_holds_its_whole_text() {
    let registry = Registry::load();
    let resp = response(
        vec![header("Content-Type", "application/json")],
        "{\"k\":[1,2.5e3,\"s \\\" t\",null,true,{\"x\":{}}],\"\u{e9}\":\"\u{1f600}\"}",
    );
    let out = render(&resp, &registry);
    assert!(out.body.len() > 5);
    for line in out.body.iter() {
        assert!(line.styled);
        let text: String = line.spans.iter().map(|s| s.text.as_str()).collect();
        assert_eq!(text, line.plain);
        assert_eq!(line.shown, encode(&line.spans));
    }
}

#[test]
fn reformat_succeeds_on_every_json_text() {
    for text in ["0", "\"\u{e9}\"", "[]", "{\"a\":[{\"b\":null}]}", " [ 1 , 2 ] "] {
        assert!(reformat(text).is_some(), "{text}");
    }
    assert_eq!(reformat(" [ 1 , \"\u{e9} x\" ] "), Some("[\n  1,\n  \"\u{e9} x\"\n]".to_string()));
}
