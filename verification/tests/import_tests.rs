use task_hookrs::date::{parse_date, Date};
use task_hookrs::import::{import, import_task, import_tasks};
use task_hookrs::status::TaskStatus;
use task_hookrs::task::{TW25, TW26};
use task_hookrs::uuid::Uuid;

fn mkdate(s: &str) -> Date {
    parse_date(s).unwrap()
}

#[test]
fn test_one_tw25() {
    let s = r#"
[
    {
        "id": 1,
        "description": "some description",
        "entry": "20150619T165438Z",
        "modified": "20160327T164007Z",
        "project": "someproject",
        "status": "waiting",
        "tags": ["some", "tags", "are", "here"],
        "uuid": "8ca953d5-18b4-4eb9-bd56-18f2e5b752f0",
        "depends": "8ca953d5-18b5-4eb9-bd56-18f2e5b752f0",
        "wait": "20160508T164007Z",
        "urgency": 0.583562
    }
]
"#;

    let imported = import::<TW25>(s);
    assert!(imported.is_ok());
    let imported = imported.unwrap();
    assert!(imported.len() == 1);
}

#[test]
fn test_one_tw26() {
    let s = r#"
[
    {
        "id": 1,
        "description": "some description",
        "entry": "20150619T165438Z",
        "modified": "20160327T164007Z",
        "project": "someproject",
        "status": "waiting",
        "tags": ["some", "tags", "are", "here"],
        "uuid": "8ca953d5-18b4-4eb9-bd56-18f2e5b752f0",
        "depends": ["8ca953d5-18b5-4eb9-bd56-18f2e5b752f0"],
        "wait": "20160508T164007Z",
        "urgency": 0.583562
    }
]
"#;

    let imported = import::<TW26>(s);
    assert!(imported.is_ok());
    let imported = imported.unwrap();
    assert!(imported.len() == 1);
}

#[test]
fn test_two_tw25() {
    let s = r#"
[
    {
        "id"          : 1,
        "description" : "test",
        "entry"       : "20150619T165438Z",
        "modified"    : "20160327T164007Z",
        "project"     : "self.software",
        "status"      : "waiting",
        "tags"        : ["check", "this", "crate", "out"],
        "uuid"        : "8ca953d5-18b4-4eb9-bd56-18f2e5b752f0",
        "wait"        : "20160508T164007Z",
        "urgency"     : 0.583562
    },
    {
        "id"          : 2,
        "description" : "another test",
        "entry"       : "20150623T181011Z",
        "modified"    : "20160327T163718Z",
        "priority"    : "L",
        "project"     : "studying",
        "status"      : "waiting",
        "tags"        : ["I", "have", "awesome", "kittens"],
        "uuid"        : "54d49ffc-a06b-4dd8-b7d1-db5f50594312",
        "wait"        : "20160508T163718Z",
        "annotations" : [
            {
                "entry"       : "20150623T181018Z",
                "description" : "fooooooobar"
            }
        ],
        "urgency"     : 3.16164
    },
    {
        "id"          : 3,
        "description" : "I love kittens, really!",
        "entry"       : "20150919T222323Z",
        "modified"    : "20160327T163718Z",
        "project"     : "getkittens",
        "status"      : "waiting",
        "tags"        : ["kittens", "are", "so", "damn", "awesome"],
        "uuid"        : "08ee8dce-cb97-4c8c-9940-c9a440e90119",
        "wait"        : "20160508T163718Z",
        "urgency"     : 1.07397
    }
]

"#;

    assert!(import::<TW25>(s).unwrap().len() == 3);
}

#[test]
fn test_one_single_tw25() {
    let s = r#"
{
    "id": 1,
    "description": "some description",
    "entry": "20150619T165438Z",
    "modified": "20160327T164007Z",
    "project": "someproject",
    "status": "waiting",
    "tags": ["some", "tags", "are", "here"],
    "uuid": "8ca953d5-18b4-4eb9-bd56-18f2e5b752f0",
    "wait": "20160508T164007Z",
    "urgency": 0.583562
}
"#;
    let imported = import_task::<TW25>(s);
    assert!(imported.is_ok());

    // Check for every information
    let task = imported.unwrap();
    assert_eq!(*task.status(), TaskStatus::Waiting);
    assert_eq!(task.description(), "some description");
    assert_eq!(*task.entry(), mkdate("20150619T165438Z"));
    assert_eq!(
        *task.uuid(),
        Uuid::parse_str("8ca953d5-18b4-4eb9-bd56-18f2e5b752f0").unwrap()
    );
    assert_eq!(task.modified(), Some(&mkdate("20160327T164007Z")));
    assert_eq!(task.project(), Some(&String::from("someproject")));
    if let Some(tags) = task.tags() {
        for tag in tags {
            let any_tag = ["some", "tags", "are", "here"]
                .iter()
                .any(|t| tag.as_str() == *t);
            assert!(any_tag, "Tag {} missing", tag);
        }
    } else {
        panic!("Tags completely missing");
    }

    assert_eq!(task.wait(), Some(&mkdate("20160508T164007Z")));
}

#[test]
fn test_two_single_tw25() {
    let s = r#"
{"id":1,"description":"some description","entry":"20150619T165438Z","modified":"20160327T164007Z","project":"someproject","status":"waiting","tags":["some","tags","are","here"],"uuid":"8ca953d5-18b4-4eb9-bd56-18f2e5b752f0","wait":"20160508T164007Z","urgency":0.583562}
{"id":1,"description":"some description","entry":"20150619T165438Z","modified":"20160327T164007Z","project":"someproject","status":"waiting","tags":["some","tags","are","here"],"uuid":"8ca953d5-18b4-4eb9-bd56-18f2e5b752f0","wait":"20160508T164007Z","urgency":0.583562}"#;
    let imported = import_tasks::<TW25>(s);
    assert_eq!(imported.len(), 2);
    assert!(imported[0].is_ok());
    assert!(imported[1].is_ok());
    let import0 = imported[0].as_ref().unwrap();
    let import1 = imported[1].as_ref().unwrap();
    assert_eq!(*import0.status(), TaskStatus::Waiting);
    assert_eq!(*import1.status(), TaskStatus::Waiting);
}
