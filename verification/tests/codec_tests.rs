use task_hookrs::date::{parse_date, Date};
use task_hookrs::error::TaskError;
use task_hookrs::import::{export_task, import_task, import_tasks};
use task_hookrs::json::{JsonValue, Num};
use task_hookrs::priority::TaskPriority;
use task_hookrs::status::TaskStatus;
use task_hookrs::task::{Task, TaskBuilder, TW25, TW26};
use task_hookrs::uda::{UDAValue, UDA};
use task_hookrs::uuid::Uuid;

fn minimal(extra: &str) -> String {
    format!(
        r#"{{"description":"x","entry":"20150619T165438Z","status":"pending","uuid":"8ca953d5-18b4-4eb9-bd56-18f2e5b752f0"{}}}"#,
        extra
    )
}

/// An unrecognized key never fails the decode; its value lands in the UDA
/// map under that key.
#[test]
fn unknown_field_is_kept_as_uda() {
    let s = minimal(r#","custom_field":"value""#);
    let task = import_task::<TW26>(&s).unwrap();
    assert_eq!(
        task.uda().get(&"custom_field".to_owned()),
        Some(&UDAValue::Str("value".to_owned()))
    );
}

/// Numeric UDA values are split by literal shape, not by range.
#[test]
fn uda_numeric_type_sniffing() {
    let s = minimal(r#","test_int_uda":1234,"test_float_uda":-17.1234"#);
    let task = import_task::<TW26>(&s).unwrap();
    assert_eq!(
        task.uda().get(&"test_int_uda".to_owned()),
        Some(&UDAValue::U64(1234))
    );
    assert_eq!(
        task.uda().get(&"test_float_uda".to_owned()),
        Some(&UDAValue::F64("-17.1234".to_string()))
    );
}

/// A non-scalar UDA value is rejected, naming the offending key.
#[test]
fn uda_non_scalar_is_rejected() {
    let s = minimal(r#","custom_field":[1,2]"#);
    let err = import_task::<TW26>(&s).unwrap_err();
    assert_eq!(err, TaskError::UnsupportedUda("custom_field".to_owned()));
    let s2 = minimal(r#","custom_field":true"#);
    let err2 = import_task::<TW26>(&s2).unwrap_err();
    assert_eq!(err2, TaskError::UnsupportedUda("custom_field".to_owned()));
}

/// An unrecognized status token fails loudly instead of defaulting.
#[test]
fn strict_enum_rejection() {
    let s = r#"{"description":"x","entry":"20150619T165438Z","status":"unknown_status","uuid":"8ca953d5-18b4-4eb9-bd56-18f2e5b752f0"}"#;
    let err = import_task::<TW26>(s).unwrap_err();
    assert_eq!(err, TaskError::InvalidField("status".to_owned()));
}

/// An unrecognized priority token fails as well.
#[test]
fn strict_priority_rejection() {
    let s = minimal(r#","priority":"U""#);
    let err = import_task::<TW26>(&s).unwrap_err();
    assert_eq!(err, TaskError::InvalidField("priority".to_owned()));
}

/// Decoding an object missing every required field names one of them.
#[test]
fn missing_required_field() {
    let err = import_task::<TW26>(r#"{"description": "x"}"#).unwrap_err();
    assert_eq!(err, TaskError::MissingField("status".to_owned()));
}

/// Text that is not JSON at all is a syntax error; a payload that is not
/// an object is a structural error.
#[test]
fn syntax_and_structure_errors() {
    assert_eq!(
        import_task::<TW26>("{ truncated").unwrap_err(),
        TaskError::Syntax
    );
    assert_eq!(
        import_task::<TW26>("[1,2,3]").unwrap_err(),
        TaskError::NotAnObject
    );
    assert_eq!(
        task_hookrs::import::import::<TW26>(r#"{"not":"an array"}"#).unwrap_err(),
        TaskError::NotAnObject
    );
}

/// A malformed date under a known field name fails the whole decode.
#[test]
fn malformed_date_rejected() {
    let s = minimal(r#","due":"2015-06-19T16:54:38Z""#);
    let err = import_task::<TW26>(&s).unwrap_err();
    assert_eq!(err, TaskError::InvalidField("due".to_owned()));
}

/// One result per non-blank line: a bad line gets its own error slot and
/// a blank line gets no slot at all.
#[test]
fn line_batch_partial_failure() {
    let good = minimal("");
    let text = format!("{}\n{{ truncated\n", good);
    let results = import_tasks::<TW26>(&text);
    assert_eq!(results.len(), 2);
    assert!(results[0].is_ok());
    assert!(results[1].is_err());
}

/// The depends field decodes from both wire shapes to the same set, and
/// each version's encoder reproduces its own wire shape.
#[test]
fn depends_format_duality() {
    let legacy = minimal(
        r#","depends":"8ca953d5-18b4-4eb9-bd56-18f2e5b752f0,5a04bb1e-3f4b-49fb-b9ba-44407ca223b5""#,
    );
    let current = minimal(
        r#","depends":["8ca953d5-18b4-4eb9-bd56-18f2e5b752f0","5a04bb1e-3f4b-49fb-b9ba-44407ca223b5"]"#,
    );
    let t25 = import_task::<TW25>(&legacy).unwrap();
    let t26 = import_task::<TW26>(&current).unwrap();
    assert_eq!(t25.depends(), t26.depends());
    assert_eq!(t25.depends().unwrap().len(), 2);

    let back25 = export_task::<TW25>(&t25).unwrap();
    assert!(back25.contains(
        r#""depends":"8ca953d5-18b4-4eb9-bd56-18f2e5b752f0,5a04bb1e-3f4b-49fb-b9ba-44407ca223b5""#
    ));
    let back26 = export_task::<TW26>(&t26).unwrap();
    assert!(back26.contains(
        r#""depends":["8ca953d5-18b4-4eb9-bd56-18f2e5b752f0","5a04bb1e-3f4b-49fb-b9ba-44407ca223b5"]"#
    ));
}

/// A rich task survives the full encode-decode round trip unchanged, under
/// both wire formats.
#[test]
fn full_round_trip() {
    let mut uda = UDA::new();
    uda.insert("zeta".to_owned(), UDAValue::U64(7));
    uda.insert("alpha".to_owned(), UDAValue::Str("a".to_owned()));
    uda.insert("mu".to_owned(), UDAValue::F64("2.5".to_string()));
    let t = TaskBuilder::<TW26>::default()
        .id(42)
        .description("round trip")
        .status(TaskStatus::Completed)
        .uuid(Uuid::parse_str("8ca953d5-18b4-4eb9-bd56-18f2e5b752f0").unwrap())
        .entry(parse_date("20150619T165438Z").unwrap())
        .due(parse_date("20160101T000000Z").unwrap())
        .priority(TaskPriority::High)
        .project("p.q".to_owned())
        .tags(vec!["a".to_owned(), "b".to_owned()])
        .depends(vec![
            Uuid::parse_str("5a04bb1e-3f4b-49fb-b9ba-44407ca223b5").unwrap(),
        ])
        .urgency(Num::F64("3.5".to_string()))
        .uda(uda)
        .build()
        .unwrap();

    let text26 = export_task::<TW26>(&t).unwrap();
    let back26: Task = import_task::<TW26>(&text26).unwrap();
    assert_eq!(back26, t);

    let text25 = export_task::<TW25>(&t).unwrap();
    let back25: Task = import_task::<TW25>(&text25).unwrap();
    assert_eq!(back25, t);
}

/// A float whose carried text names no finite JSON number cannot be
/// serialized.
#[test]
fn serialize_failure_on_bad_float_text() {
    let t = TaskBuilder::<TW26>::default()
        .description("bad float")
        .urgency(Num::F64("not-a-number".to_string()))
        .build()
        .unwrap();
    assert_eq!(export_task::<TW26>(&t).unwrap_err(), TaskError::Serialize);
}

/// Date parsing is strict: only the exact 16-character template, naming a
/// real calendar date, is accepted; formatting reproduces the input.
#[test]
fn date_codec_strictness() {
    assert!(parse_date("20150619T165438Z").is_some());
    assert_eq!(
        parse_date("20150619T165438Z").unwrap().format(),
        "20150619T165438Z"
    );
    assert!(parse_date("20150230T000000Z").is_none()); // no February 30th
    assert!(parse_date("20150619T165438").is_none()); // missing Z
    assert!(parse_date("2015-06-19T16:54:38Z").is_none()); // wrong template
    assert!(parse_date("20150619T245438Z").is_none()); // hour out of range
    assert!(parse_date("20160229T000000Z").is_some()); // leap year
    assert!(parse_date("20150229T000000Z").is_none()); // not a leap year
    assert_eq!(
        parse_date("20150619T165438Z").unwrap(),
        Date {
            year: 2015,
            month: 6,
            day: 19,
            hour: 16,
            minute: 54,
            second: 38
        }
    );
}

/// UUID parsing accepts either case and formatting emits lowercase.
#[test]
fn uuid_codec() {
    let u = Uuid::parse_str("8CA953D5-18B4-4EB9-BD56-18F2E5B752F0").unwrap();
    assert_eq!(u.format(), "8ca953d5-18b4-4eb9-bd56-18f2e5b752f0");
    assert!(Uuid::parse_str("8ca953d5-18b4-4eb9-bd56").is_none());
    assert!(Uuid::parse_str("8ca953d5-18b4-4eb9-bd56-18f2e5b752fg").is_none());
    assert!(Uuid::parse_str("8ca953d518b44eb9bd5618f2e5b752f0").is_none());
    let v4 = Uuid::new_v4();
    assert_eq!((v4.0 >> 76) & 0xf, 4);
}

/// The UDA map iterates in key-sorted order and replaces on re-insert.
#[test]
fn uda_map_behaviour() {
    let mut uda = UDA::new();
    assert!(uda.is_empty());
    uda.insert("b".to_owned(), UDAValue::U64(2));
    uda.insert("a".to_owned(), UDAValue::U64(1));
    uda.insert("c".to_owned(), UDAValue::U64(3));
    uda.insert("b".to_owned(), UDAValue::U64(9));
    assert_eq!(uda.len(), 3);
    assert!(!uda.is_empty());
    let keys: Vec<&str> = uda.entries().iter().map(|e| e.0.as_str()).collect();
    assert_eq!(keys, vec!["a", "b", "c"]);
    assert_eq!(uda.get(&"b".to_owned()), Some(&UDAValue::U64(9)));
    assert_eq!(uda.get(&"missing".to_owned()), None);
}

/// The decoder can be driven on a value built by hand, without any wire
/// text.
#[test]
fn decode_value_built_by_hand() {
    let v = JsonValue::Obj(vec![
        ("description".to_owned(), JsonValue::Str("x".to_owned())),
        ("entry".to_owned(), JsonValue::Str("20150619T165438Z".to_owned())),
        ("status".to_owned(), JsonValue::Str("pending".to_owned())),
        (
            "uuid".to_owned(),
            JsonValue::Str("8ca953d5-18b4-4eb9-bd56-18f2e5b752f0".to_owned()),
        ),
    ]);
    let t = task_hookrs::codec::task_from_value(&v, false).unwrap();
    assert_eq!(t.description(), "x");
    assert_eq!(*t.status(), TaskStatus::Pending);
    assert_eq!(
        task_hookrs::codec::task_from_value(&JsonValue::Null, false).unwrap_err(),
        TaskError::NotAnObject
    );
}

/// Wire text with escaped characters survives a full text-level round
/// trip: the parse boundary really decodes escapes and the print boundary
/// re-encodes them.
#[test]
fn string_escapes_round_trip() {
    let s = minimal(r#","custom":"a \"b\" \\ c\nd""#);
    let t = import_task::<TW26>(&s).unwrap();
    assert_eq!(
        t.uda().get(&"custom".to_owned()),
        Some(&UDAValue::Str("a \"b\" \\ c\nd".to_owned()))
    );
    let back = export_task::<TW26>(&t).unwrap();
    let again = import_task::<TW26>(&back).unwrap();
    assert_eq!(again, t);
    assert_eq!(t.description(), "x");
}
