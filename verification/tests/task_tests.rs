use task_hookrs::annotation::Annotation;
use task_hookrs::date::{parse_date, Date};
use task_hookrs::import::{export_task, import_task};
use task_hookrs::json::Num;
use task_hookrs::status::TaskStatus;
use task_hookrs::task::{TaskBuilder, TW25, TW26};
use task_hookrs::uda::{UDAValue, UDA};
use task_hookrs::uuid::Uuid;

fn mkdate(s: &str) -> Date {
    parse_date(s).unwrap()
}

#[test]
fn test_deser() {
    let s = r#"{
"id": 1,
"description": "test",
"entry": "20150619T165438Z",
"status": "waiting",
"uuid": "8ca953d5-18b4-4eb9-bd56-18f2e5b752f0",
"urgency": 5.3
}"#;

    println!("{}", s);

    let task = import_task::<TW26>(s);
    println!("{:?}", task);
    assert!(task.is_ok());
    let task = task.unwrap();

    assert_eq!(*task.status(), TaskStatus::Waiting);
    assert_eq!(task.description(), "test");
    assert_eq!(*task.entry(), mkdate("20150619T165438Z"));
    assert_eq!(
        *task.uuid(),
        Uuid::parse_str("8ca953d5-18b4-4eb9-bd56-18f2e5b752f0").unwrap()
    );
    assert_eq!(task.urgency(), Some(&Num::F64("5.3".to_string())));

    let back = export_task::<TW26>(&task).unwrap();

    assert!(back.contains("description"));
    assert!(back.contains("test"));
    assert!(back.contains("entry"));
    assert!(back.contains("20150619T165438Z"));
    assert!(back.contains("status"));
    assert!(back.contains("waiting"));
    assert!(back.contains("uuid"));
    assert!(back.contains("urgency"));
    assert!(back.contains("8ca953d5-18b4-4eb9-bd56-18f2e5b752f0"));
}

#[test]
fn test_deser_more_tw26() {
    let s = r#"{
"id": 1,
"description": "some description",
"entry": "20150619T165438Z",
"modified": "20160327T164007Z",
"project": "someproject",
"status": "waiting",
"tags": ["some", "tags", "are", "here"],
"uuid": "8ca953d5-18b4-4eb9-bd56-18f2e5b752f0",
"depends": ["8ca953d5-18b4-4eb9-bd56-18f2e5b752f0","5a04bb1e-3f4b-49fb-b9ba-44407ca223b5"],
"wait": "20160508T164007Z",
"urgency": 0.583562
}"#;
    let task = import_task::<TW26>(s);
    assert!(task.is_ok());
    let task = task.unwrap();

    assert_eq!(*task.status(), TaskStatus::Waiting);
    assert_eq!(task.description(), "some description");
    assert_eq!(*task.entry(), mkdate("20150619T165438Z"));
    assert_eq!(
        *task.uuid(),
        Uuid::parse_str("8ca953d5-18b4-4eb9-bd56-18f2e5b752f0").unwrap()
    );
    assert_eq!(task.urgency(), Some(&Num::F64("0.583562".to_string())));
    assert_eq!(task.modified(), Some(&mkdate("20160327T164007Z")));
    assert_eq!(task.project(), Some(&String::from("someproject")));

    if let Some(tags) = task.tags() {
        for tag in tags {
            let any_tag = ["some", "tags", "are", "here"]
                .iter()
                .any(|t| tag.as_str() == *t);
            assert!(any_tag, "Tag {} missing", tag);
        }
    } else {
        panic!("Tags completely missing");
    }

    assert_eq!(task.wait(), Some(&mkdate("20160508T164007Z")));

    if let Some(depends) = task.depends() {
        assert_eq!(depends.len(), 2);
        assert!(depends.contains(&Uuid::parse_str("8ca953d5-18b4-4eb9-bd56-18f2e5b752f0").unwrap()));
        assert!(depends.contains(&Uuid::parse_str("5a04bb1e-3f4b-49fb-b9ba-44407ca223b5").unwrap()));
    } else {
        panic!("Depends completely missing");
    }

    assert_eq!(task.wait(), Some(&mkdate("20160508T164007Z")));

    let back = export_task::<TW26>(&task).unwrap();

    assert!(back.contains("description"));
    assert!(back.contains("some description"));
    assert!(back.contains("entry"));
    assert!(back.contains("20150619T165438Z"));
    assert!(back.contains("project"));
    assert!(back.contains("someproject"));
    assert!(back.contains("status"));
    assert!(back.contains("waiting"));
    assert!(back.contains("tags"));
    assert!(back.contains("some"));
    assert!(back.contains("tags"));
    assert!(back.contains("are"));
    assert!(back.contains("here"));
    assert!(back.contains("uuid"));
    assert!(back.contains("8ca953d5-18b4-4eb9-bd56-18f2e5b752f0"));
    assert!(back.contains(
        r#"["8ca953d5-18b4-4eb9-bd56-18f2e5b752f0","5a04bb1e-3f4b-49fb-b9ba-44407ca223b5"]"#,
    ));
}

#[test]
fn test_deser_more_tw25() {
    let s = r#"{
"id": 1,
"description": "some description",
"entry": "20150619T165438Z",
"modified": "20160327T164007Z",
"project": "someproject",
"status": "waiting",
"tags": ["some", "tags", "are", "here"],
"uuid": "8ca953d5-18b4-4eb9-bd56-18f2e5b752f0",
"depends": "8ca953d5-18b4-4eb9-bd56-18f2e5b752f0,5a04bb1e-3f4b-49fb-b9ba-44407ca223b5",
"wait": "20160508T164007Z",
"urgency": 0.583562
}"#;

    println!("{}", s);

    let task = import_task::<TW25>(s);
    println!("{:?}", task);
    assert!(task.is_ok());
    let task = task.unwrap();

    assert_eq!(*task.status(), TaskStatus::Waiting);
    assert_eq!(task.description(), "some description");
    assert_eq!(*task.entry(), mkdate("20150619T165438Z"));
    assert_eq!(
        *task.uuid(),
        Uuid::parse_str("8ca953d5-18b4-4eb9-bd56-18f2e5b752f0").unwrap()
    );
    assert_eq!(task.urgency(), Some(&Num::F64("0.583562".to_string())));
    assert_eq!(task.modified(), Some(&mkdate("20160327T164007Z")));
    assert_eq!(task.project(), Some(&String::from("someproject")));

    if let Some(tags) = task.tags() {
        for tag in tags {
            let any_tag = ["some", "tags", "are", "here"]
                .iter()
                .any(|t| tag.as_str() == *t);
            assert!(any_tag, "Tag {} missing", tag);
        }
    } else {
        panic!("Tags completely missing");
    }

    if let Some(depends) = task.depends() {
        assert_eq!(depends.len(), 2);
        assert!(depends.contains(&Uuid::parse_str("8ca953d5-18b4-4eb9-bd56-18f2e5b752f0").unwrap()));
        assert!(depends.contains(&Uuid::parse_str("5a04bb1e-3f4b-49fb-b9ba-44407ca223b5").unwrap()));
    } else {
        panic!("Depends completely missing");
    }

    assert_eq!(task.wait(), Some(&mkdate("20160508T164007Z")));

    let back = export_task::<TW25>(&task).unwrap();

    assert!(back.contains("description"));
    assert!(back.contains("some description"));
    assert!(back.contains("entry"));
    assert!(back.contains("20150619T165438Z"));
    assert!(back.contains("project"));
    assert!(back.contains("someproject"));
    assert!(back.contains("status"));
    assert!(back.contains("waiting"));
    assert!(back.contains("tags"));
    assert!(back.contains("some"));
    assert!(back.contains("tags"));
    assert!(back.contains("are"));
    assert!(back.contains("here"));
    assert!(back.contains("uuid"));
    assert!(back.contains("8ca953d5-18b4-4eb9-bd56-18f2e5b752f0"));
    assert!(back.contains(
        "8ca953d5-18b4-4eb9-bd56-18f2e5b752f0,5a04bb1e-3f4b-49fb-b9ba-44407ca223b5",
    ));
}

#[test]
fn test_deser_annotation() {
    let s = r#"{
"id":192,
"description":"Some long description for a task",
"entry":"20160423T125820Z",
"modified":"20160423T125942Z",
"project":"project",
"status":"pending",
"tags":["search","things"],
"uuid":"5a04bb1e-3f4b-49fb-b9ba-44407ca223b5",
"annotations":[{"entry":"20160423T125911Z","description":"An Annotation"},
               {"entry":"20160423T125926Z","description":"Another Annotation"},
               {"entry":"20160422T125942Z","description":"A Third Anno"}
               ],
"urgency": -5
}"#;

    println!("{}", s);

    let task = import_task::<TW26>(s);
    println!("{:?}", task);
    assert!(task.is_ok());
    let task = task.unwrap();

    assert_eq!(task.urgency(), Some(&Num::I64(-5)));

    let all_annotations = vec![
        Annotation::new(mkdate("20160423T125911Z"), String::from("An Annotation")),
        Annotation::new(
            mkdate("20160423T125926Z"),
            String::from("Another Annotation"),
        ),
        Annotation::new(mkdate("20160422T125942Z"), String::from("A Third Anno")),
    ];

    if let Some(annotations) = task.annotations() {
        for annotation in annotations {
            let r = all_annotations.iter().any(|ann| {
                let descr = ann.description() == annotation.description();
                let entry = ann.entry() == annotation.entry();

                descr && entry
            });
            assert!(r, "Annotation {:?} missing or buggy", annotation);
        }
    } else {
        panic!("Annotations missing");
    }
}

#[test]
fn test_uda() {
    let s = r#"{
"description":"Some long description for a task",
"entry":"20160423T125820Z",
"modified":"20160423T125942Z",
"project":"project",
"status":"pending",
"uuid":"5a04bb1e-3f4b-49fb-b9ba-44407ca223b5",
"test_str_uda":"test_str_uda_value",
"test_float_uda":-17.1234,
"test_int_uda":1234
}"#;

    println!("{}", s);

    let task = import_task::<TW25>(s);
    println!("{:?}", task);
    assert!(task.is_ok());
    let task = task.unwrap();

    let str_uda = task.uda().get(&"test_str_uda".to_owned());
    assert!(str_uda.is_some());
    let str_uda = str_uda.unwrap();
    assert_eq!(str_uda, &UDAValue::Str("test_str_uda_value".to_owned()));

    let float_uda = task.uda().get(&"test_float_uda".to_owned());
    assert!(float_uda.is_some());
    let float_uda = float_uda.unwrap();
    assert_eq!(float_uda, &UDAValue::F64("-17.1234".to_string()));

    let int_uda = task.uda().get(&"test_int_uda".to_owned());
    assert!(int_uda.is_some());
    let int_uda = int_uda.unwrap();
    assert_eq!(int_uda, &UDAValue::U64(1234));

    let back = export_task::<TW25>(&task);
    assert!(back.is_ok());
    let back = back.unwrap();
    println!("{}", back);
    assert!(back.contains("description"));
    assert!(back.contains("Some long description for a task"));
    assert!(back.contains("entry"));
    assert!(back.contains("20160423T125820Z"));
    assert!(back.contains("project"));
    assert!(back.contains("status"));
    assert!(back.contains("pending"));
    assert!(back.contains("uuid"));
    assert!(back.contains("5a04bb1e-3f4b-49fb-b9ba-44407ca223b5"));
    assert!(back.contains("test_str_uda"));
    assert!(back.contains("test_str_uda_value"));
    assert!(back.contains("test_float_uda"));
    assert!(back.contains("-17.1234"));
    assert!(back.contains("test_int_uda"));
    assert!(back.contains("1234"));
}

#[test]
fn test_builder_simple() {
    let t = TaskBuilder::<TW25>::default()
        .description("test")
        .entry(mkdate("20150619T165438Z"))
        .build();
    println!("{:?}", t);
    assert!(t.is_ok());
    let t = t.unwrap();

    assert_eq!(t.status(), &TaskStatus::Pending);
    assert_eq!(t.description(), "test");
    assert_eq!(t.entry(), &mkdate("20150619T165438Z"));
}

#[test]
fn test_builder_extensive() {
    let mut uda = UDA::new();
    uda.insert(
        "test_str_uda".into(),
        UDAValue::Str("test_str_uda_value".into()),
    );
    uda.insert("test_int_uda".into(), UDAValue::U64(1234));
    uda.insert("test_float_uda".into(), UDAValue::F64("-17.1234".to_string()));
    let t = TaskBuilder::<TW25>::default()
        .description("test")
        .entry(mkdate("20150619T165438Z"))
        .id(192)
        .modified(mkdate("20160423T125942Z"))
        .project("project".to_owned())
        .tags(vec!["search".to_owned(), "things".to_owned()])
        .uda(uda)
        .build();
    println!("{:?}", t);
    assert!(t.is_ok());
    let t = t.unwrap();

    assert!(t.id().is_some());
    assert_eq!(t.id().unwrap(), 192);
    assert_eq!(t.status(), &TaskStatus::Pending);
    assert_eq!(t.description(), "test");
    assert_eq!(t.entry(), &mkdate("20150619T165438Z"));
    assert!(t.modified().is_some());
    assert_eq!(t.modified().unwrap(), &mkdate("20160423T125942Z"));
    assert!(t.project().is_some());
    assert_eq!(t.project().unwrap(), "project");
    assert!(t.tags().is_some());
    assert!(t.urgency().is_none());
    assert_eq!(
        t.tags().unwrap(),
        &vec!["search".to_owned(), "things".to_owned()]
    );
}

#[test]
fn test_builder_defaults() {
    assert!(TaskBuilder::<TW25>::default()
        .description("Nice Task")
        .build()
        .is_ok());
}

#[test]
fn test_builder_fail() {
    assert!(TaskBuilder::<TW25>::default().build().is_err());
}

const FIELD_NAMES_TO_NOT_SERIALIZE: [&str; 20] = [
    r#""id":"#,
    r#"""annotations:""#,
    r#""depends:""#,
    r#""due:""#,
    r#""end:""#,
    r#""imask:""#,
    r#""mask:""#,
    r#""modified:""#,
    r#""parent:""#,
    r#""priority:""#,
    r#""project:""#,
    r#""recur:""#,
    r#""scheduled:""#,
    r#""start:""#,
    r#""tags:""#,
    r#""until:""#,
    r#""wait:""#,
    r#""urgency:""#,
    r#""uda:""#,
    r#""_version:""#,
];

#[test]
fn test_null_fields_not_serialized_tw25() {
    let task = TaskBuilder::<TW25>::default()
        .description("Test Task")
        .build()
        .expect("Task to be built");

    let task_as_str = export_task::<TW25>(&task).expect("Task serialized as string");

    for field_name in FIELD_NAMES_TO_NOT_SERIALIZE {
        assert!(
            !task_as_str.contains(field_name),
            "'{}' should not have been in {}",
            field_name,
            task_as_str
        );
    }
}

#[test]
fn test_null_fields_not_serialized_tw26() {
    let task = TaskBuilder::<TW26>::default()
        .description("Test Task")
        .build()
        .expect("Task to be built");

    let task_as_str = export_task::<TW26>(&task).expect("Task serialized as string");

    for field_name in FIELD_NAMES_TO_NOT_SERIALIZE {
        assert!(
            !task_as_str.contains(field_name),
            "'{}' should not have been in {}",
            field_name,
            task_as_str
        );
    }
}
