use sbm_core::json::{JsonError, SimpleJson};

fn num(t: &str) -> SimpleJson {
    SimpleJson::Num(t.to_string())
}

fn text(t: &str) -> SimpleJson {
    SimpleJson::Str(t.to_string())
}

#[test]
fn parses_nested_document() {
    let doc = "{\"a\": 1, \"b\": [true, false, null], \"c\": \"x\\\"y\", \"d\": {\"e\": -2.5e3}}";
    let v = SimpleJson::parse(doc).unwrap();
    assert_eq!(
        v,
        SimpleJson::Obj(vec![
            ("a".to_string(), num("1")),
            (
                "b".to_string(),
                SimpleJson::Arr(vec![SimpleJson::Bool(true), SimpleJson::Bool(false), SimpleJson::Null])
            ),
            ("c".to_string(), text("x\"y")),
            ("d".to_string(), SimpleJson::Obj(vec![("e".to_string(), num("-2.5e3"))])),
        ])
    );
}

#[test]
fn empty_containers() {
    assert_eq!(SimpleJson::parse("[]").unwrap(), SimpleJson::Arr(vec![]));
    assert_eq!(SimpleJson::parse(" { } ").unwrap(), SimpleJson::Obj(vec![]));
}

#[test]
fn trailing_commas_are_accepted() {
    assert_eq!(SimpleJson::parse("[1,]").unwrap(), SimpleJson::Arr(vec![num("1")]));
    assert_eq!(
        SimpleJson::parse("{\"a\":1,}").unwrap(),
        SimpleJson::Obj(vec![("a".to_string(), num("1"))])
    );
}

#[test]
fn text_after_the_value_is_ignored() {
    assert_eq!(SimpleJson::parse("12abc").unwrap(), num("12"));
    assert_eq!(SimpleJson::parse("[1] [2]").unwrap(), SimpleJson::Arr(vec![num("1")]));
}

#[test]
fn unicode_whitespace_is_skipped() {
    assert_eq!(
        SimpleJson::parse("\u{3000}[\u{a0}1\n,\t2 ]").unwrap(),
        SimpleJson::Arr(vec![num("1"), num("2")])
    );
}

#[test]
fn escapes_keep_the_escaped_character() {
    assert_eq!(SimpleJson::parse("\"a\\\\b\"").unwrap(), text("a\\b"));
    assert_eq!(SimpleJson::parse("\"n\\n\"").unwrap(), text("nn"));
}

#[test]
fn number_lexemes_follow_the_float_grammar() {
    assert_eq!(SimpleJson::parse("+.5e-3").unwrap(), num("+.5e-3"));
    assert_eq!(SimpleJson::parse("1.").unwrap(), num("1."));
    assert_eq!(SimpleJson::parse("7E+2").unwrap(), num("7E+2"));
    assert_eq!(SimpleJson::parse("1e"), Err(JsonError::InvalidNumber { start: 0, end: 2 }));
    assert_eq!(SimpleJson::parse("-"), Err(JsonError::InvalidNumber { start: 0, end: 1 }));
    assert_eq!(SimpleJson::parse("."), Err(JsonError::InvalidNumber { start: 0, end: 1 }));
    assert_eq!(SimpleJson::parse("x"), Err(JsonError::InvalidNumber { start: 0, end: 0 }));
    assert_eq!(SimpleJson::parse("1-2"), Err(JsonError::InvalidNumber { start: 0, end: 3 }));
    assert_eq!(SimpleJson::parse("  [1e5e]"), Err(JsonError::InvalidNumber { start: 3, end: 7 }));
}

#[test]
fn structural_errors_report_positions() {
    assert_eq!(SimpleJson::parse(""), Err(JsonError::UnexpectedEof));
    assert_eq!(SimpleJson::parse("   "), Err(JsonError::UnexpectedEof));
    assert_eq!(SimpleJson::parse("{"), Err(JsonError::UnterminatedObject));
    assert_eq!(SimpleJson::parse("{1:2}"), Err(JsonError::ExpectedKey { at: 1 }));
    assert_eq!(SimpleJson::parse("{\"a\" 1}"), Err(JsonError::ExpectedColon { at: 5 }));
    assert_eq!(SimpleJson::parse("{\"a\":1 2}"), Err(JsonError::ExpectedObjectSeparator { at: 7 }));
    assert_eq!(SimpleJson::parse("{\"a\":1"), Err(JsonError::ExpectedObjectSeparator { at: 6 }));
    assert_eq!(SimpleJson::parse("["), Err(JsonError::UnterminatedArray));
    assert_eq!(SimpleJson::parse("[1,2"), Err(JsonError::ExpectedArraySeparator { at: 4 }));
    assert_eq!(SimpleJson::parse("[1;2]"), Err(JsonError::ExpectedArraySeparator { at: 2 }));
    assert_eq!(SimpleJson::parse("\"abc"), Err(JsonError::UnterminatedString));
    assert_eq!(SimpleJson::parse("\"abc\\"), Err(JsonError::UnterminatedString));
    assert_eq!(SimpleJson::parse("tru"), Err(JsonError::InvalidBoolean));
    assert_eq!(SimpleJson::parse("fals"), Err(JsonError::InvalidBoolean));
    assert_eq!(SimpleJson::parse("nul"), Err(JsonError::InvalidNull));
    assert_eq!(SimpleJson::parse("[tru]"), Err(JsonError::InvalidBoolean));
}

#[test]
fn get_obj_returns_first_member_with_the_key() {
    let v = SimpleJson::parse("{\"k\":1,\"j\":\"s\",\"k\":2}").unwrap();
    assert_eq!(v.get_obj("k"), Some(&num("1")));
    assert_eq!(v.get_obj("j").and_then(|x| x.as_str()), Some("s"));
    assert_eq!(v.get_obj("missing"), None);
    assert_eq!(num("3").get_obj("k"), None);
}

#[test]
fn accessors_select_their_variant() {
    let v = SimpleJson::parse("[\"a\", 2]").unwrap();
    let xs = v.as_vec_json().unwrap();
    assert_eq!(xs.len(), 2);
    assert_eq!(xs[0].as_str(), Some("a"));
    assert_eq!(xs[1].as_str(), None);
    assert_eq!(xs[1].as_number_text(), Some("2"));
    assert_eq!(xs[0].as_vec_json(), None);
    assert_eq!(v.as_str(), None);
}
