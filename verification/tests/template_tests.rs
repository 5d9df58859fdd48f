use trace4rs::router::field_set;
use trace4rs::template::{Error, FieldValues, Fmtr};

fn values() -> FieldValues {
    FieldValues {
        timestamp: String::from("2020-01-01T00:00:00+00:00"),
        timestamp_utc: String::from("2020-01-01T00:00:00Z"),
        target: String::from("app::mod"),
        message: String::from("hello"),
        fields: String::from("k=v"),
        level: String::from("INFO"),
    }
}

#[test]
fn compile_known_fields_succeeds() {
    let fields = field_set();
    let f = Fmtr::new("{T} {t}: {l} {m}", &fields).unwrap();
    assert_eq!(f.field_from_id(0), Some("T"));
    assert_eq!(f.field_from_id(1), Some("t"));
    assert_eq!(f.field_from_id(2), Some("l"));
    assert_eq!(f.field_from_id(3), Some("m"));
    assert_eq!(f.field_from_id(4), None);
}

#[test]
fn compile_unknown_field_fails() {
    let fields = field_set();
    let r = Fmtr::new("{zz}", &fields);
    match r {
        Err(Error::UnknownField(u)) => assert_eq!(u, "zz"),
        _ => panic!("expected an unknown-field error"),
    }
}

#[test]
fn compile_empty_field_fails() {
    let fields = field_set();
    assert!(matches!(Fmtr::new("{}", &fields), Err(Error::EmptyField)));
}

#[test]
fn compile_stray_closing_brace_fails() {
    let fields = field_set();
    match Fmtr::new("a}b", &fields) {
        Err(Error::IllegalCharacter(c, _)) => assert_eq!(c, '}'),
        _ => panic!("expected an illegal-character error"),
    }
}

#[test]
fn compile_nested_open_brace_fails() {
    let fields = field_set();
    match Fmtr::new("{T{", &fields) {
        Err(Error::IllegalCharacter(c, _)) => assert_eq!(c, '{'),
        _ => panic!("expected an illegal-character error"),
    }
}

#[test]
fn render_replays_literals_and_fields() {
    let fields = field_set();
    let f = Fmtr::new("{t}: {l} {m}", &fields).unwrap();
    let out = f.write(&values());
    assert_eq!(out, "app::mod: INFO hello\n");
}

#[test]
fn render_is_idempotent() {
    let fields = field_set();
    let f = Fmtr::new("{T} {t}: {l} {m} {f}", &fields).unwrap();
    let v = values();
    let once = f.write(&v);
    let twice = f.write(&v);
    assert_eq!(once, twice);
}

#[test]
fn render_escaped_brace_is_literal() {
    let fields = field_set();
    // an escaped brace opens no field span
    let f = Fmtr::new("\\{m}", &fields);
    assert!(matches!(f, Err(Error::IllegalCharacter('}', _))));
}

#[test]
fn render_trailing_literal_and_newline() {
    let fields = field_set();
    let f = Fmtr::new("[{l}]", &fields).unwrap();
    assert_eq!(f.write(&values()), "[INFO]\n");
}

#[test]
fn unclosed_span_is_dropped_not_an_error() {
    let fields = field_set();
    let f = Fmtr::new("{m", &fields).unwrap();
    assert_eq!(f.field_from_id(0), None);
    assert_eq!(f.write(&values()), "{m\n");
}

#[test]
fn field_at_both_edges() {
    let fields = field_set();
    let f = Fmtr::new("{m}", &fields).unwrap();
    assert_eq!(f.write(&values()), "hello\n");
    let g = Fmtr::new("{l} and {t}", &fields).unwrap();
    assert_eq!(g.write(&values()), "INFO and app::mod\n");
}
