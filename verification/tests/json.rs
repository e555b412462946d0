use osaio_proxy::json::Json;

fn fraction(t: &str) -> Json {
    Json::Fraction(serde_json::from_str(t).unwrap())
}

#[test]
fn fractions_are_written_as_they_were_read() {
    for t in ["1e-30", "0.1", "-2.5", "1e300", "123456789012345678901234567890", "5e-324"] {
        let v: serde_json::Value = serde_json::from_str(t).unwrap();
        let j = fraction(t);
        assert_eq!(j.to_text(), v.to_string(), "{t}");
        assert_eq!(j.clone().to_text(), v.to_string(), "{t}");
        assert_eq!(Json::array().and(j).to_text(), format!("[{v}]"));
    }
}

#[test]
fn text_of_values() {
    assert_eq!(Json::Null.to_text(), "null");
    assert_eq!(Json::Bool(true).to_text(), "true");
    assert_eq!(Json::Int(-5).to_text(), "-5");
    assert_eq!(Json::UInt(u64::MAX).to_text(), "18446744073709551615");
    assert_eq!(Json::zero().to_text(), "0.0");
    assert_eq!(fraction("1.5e3").to_text(), "1500.0");
    assert_eq!(Json::text("a\"b\n").to_text(), "\"a\\\"b\\n\"");
    assert_eq!(Json::bytes(&[1, 0, 255]).to_text(), "[1,0,255]");
    assert_eq!(Json::texts(&vec!["x".into(), "".into()]).to_text(), "[\"x\",\"\"]");
    assert_eq!(Json::array().to_text(), "[]");
    assert_eq!(Json::object().to_text(), "{}");
}

#[test]
fn objects_are_written_by_name() {
    let j = Json::object()
        .with("b", Json::Int(1))
        .with("a", Json::array().and(Json::Null).and(Json::object().with("x", Json::Bool(false))));
    assert_eq!(j.to_text(), "{\"a\":[null,{\"x\":false}],\"b\":1}");
    assert_eq!(j.clone().to_text(), j.to_text());
}

#[test]
fn a_later_member_counts() {
    let j = Json::object().with("a", Json::Int(1)).with("b", Json::Int(2)).with("a", Json::Int(3));
    assert_eq!(j.to_text(), "{\"a\":3,\"b\":2}");
    assert_eq!(j.get("a").unwrap().as_int(), Some(3));
    assert_eq!(j.get("b").unwrap().as_int(), Some(2));
    assert!(j.get("c").is_none());
}

#[test]
fn members_of_one_name_at_any_place() {
    let j = Json::object()
        .with("a", Json::Int(1))
        .with("a", Json::Int(2))
        .with("b", Json::object().with("c", Json::Int(3)).with("c", Json::Null))
        .with("a", Json::Int(4))
        .with("d", Json::Int(5))
        .with("b", Json::text("x"));
    assert_eq!(j.to_text(), "{\"a\":4,\"b\":\"x\",\"d\":5}");
    let inner = Json::object().with("c", Json::Int(3)).with("c", Json::Null);
    assert_eq!(Json::array().and(inner).to_text(), "[{\"c\":null}]");
}

#[test]
fn reading_members() {
    let j = Json::object().with("t", Json::text("x"));
    assert_eq!(j.get("t").unwrap().as_text(), Some("x"));
    assert_eq!(j.get("t").unwrap().as_int(), None);
    assert!(j.get("t").unwrap().get("t").is_none());
    assert!(Json::array().get("t").is_none());
    assert_eq!(Json::Int(7).as_text(), None);
    assert_eq!(Json::UInt(7).as_int(), Some(7));
    assert_eq!(Json::UInt(i64::MAX as u64).as_int(), Some(i64::MAX));
    assert_eq!(Json::UInt(i64::MAX as u64 + 1).as_int(), None);
    assert_eq!(fraction("1.0").as_int(), None);
}
