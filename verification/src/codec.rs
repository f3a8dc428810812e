//! The task codec: classifying JSON object keys into fixed schema fields
//! and user-defined attributes, and building tasks from them — and the
//! reverse direction, emitting a task as a JSON object.
//!
//! Decoding scans the object by field: each fixed field is looked up by
//! name and must have its expected shape, every other key is routed to the
//! UDA map. Errors surface in a fixed, documented order: the first
//! malformed fixed field (in schema order `id`, `status`, `uuid`, `entry`,
//! `description`, `annotations`, `depends`, `due`, `end`, `imask`, `mask`,
//! `modified`, `parent`, `priority`, `project`, `recur`, `scheduled`,
//! `start`, `tags`, `until`, `wait`, `urgency`), then the first
//! unsupported UDA value in object order, then the first missing required
//! field (in order `status`, `uuid`, `entry`, `description`).

use vstd::prelude::*;

use crate::annotation::{Annotation, AnnotationV};
use crate::date::{date_of_text, date_text, parse_date, Date};
use crate::error::{TaskError, TaskErrorV};
use crate::json::{entries_dv, elems_dv, JsonV, JsonValue, Num, NumV};
use crate::json::{lemma_elems_dv, lemma_entries_dv};
use crate::priority::{priority_of_token, priority_token, TaskPriority};
use crate::status::{status_of_token, status_token, TaskStatus};
use crate::strutil::str_eq;
use crate::task::{
    anns_view, opt_anns_view, opt_num_view, opt_str_view, opt_strs_view, opt_uuids_view,
    strs_view, Task, TaskV,
};
use crate::uda::{uda_insert, UDAValue, UDAV, UDA};
use crate::uuid::{uuid_of_text, uuid_text, Uuid};

verus! {

/// Whether `k` is one of the fixed task field names; every other key is a
/// user-defined attribute.
pub open spec fn is_fixed_key(k: Seq<char>) -> bool {
    ||| k == "id"@
    ||| k == "status"@
    ||| k == "uuid"@
    ||| k == "entry"@
    ||| k == "description"@
    ||| k == "annotations"@
    ||| k == "depends"@
    ||| k == "due"@
    ||| k == "end"@
    ||| k == "imask"@
    ||| k == "mask"@
    ||| k == "modified"@
    ||| k == "parent"@
    ||| k == "priority"@
    ||| k == "project"@
    ||| k == "recur"@
    ||| k == "scheduled"@
    ||| k == "start"@
    ||| k == "tags"@
    ||| k == "until"@
    ||| k == "wait"@
    ||| k == "urgency"@
}

/// The first value bound to `k` among the entries at or after index `i`.
pub open spec fn find_from(es: Seq<(Seq<char>, JsonV)>, k: Seq<char>, i: int) -> Option<JsonV>
    decreases es.len() - i,
{
    if i < 0 || i >= es.len() {
        None
    } else if es[i].0 == k {
        Some(es[i].1)
    } else {
        find_from(es, k, i + 1)
    }
}

/// The first value bound to `k` in the entry list.
pub open spec fn find_key(es: Seq<(Seq<char>, JsonV)>, k: Seq<char>) -> Option<JsonV> {
    find_from(es, k, 0)
}

/// Decodes an optional non-negative integer field.
pub open spec fn dec_opt_u64(v: Option<JsonV>) -> Result<Option<u64>, ()> {
    match v {
        None => Ok(None),
        Some(JsonV::U64(u)) => Ok(Some(u)),
        Some(_) => Err(()),
    }
}

/// Decodes an optional date field: a string of the wire template.
pub open spec fn dec_opt_date(v: Option<JsonV>) -> Result<Option<Date>, ()> {
    match v {
        None => Ok(None),
        Some(JsonV::Str(s)) => match date_of_text(s) {
            Some(d) => Ok(Some(d)),
            None => Err(()),
        },
        Some(_) => Err(()),
    }
}

/// Decodes an optional string field.
pub open spec fn dec_opt_string(v: Option<JsonV>) -> Result<Option<Seq<char>>, ()> {
    match v {
        None => Ok(None),
        Some(JsonV::Str(s)) => Ok(Some(s)),
        Some(_) => Err(()),
    }
}

/// Decodes an optional UUID field: a string of the hyphenated form.
pub open spec fn dec_opt_uuid(v: Option<JsonV>) -> Result<Option<Uuid>, ()> {
    match v {
        None => Ok(None),
        Some(JsonV::Str(s)) => match uuid_of_text(s) {
            Some(u) => Ok(Some(u)),
            None => Err(()),
        },
        Some(_) => Err(()),
    }
}

/// Decodes the optional status field: one of the five status tokens.
pub open spec fn dec_opt_status(v: Option<JsonV>) -> Result<Option<TaskStatus>, ()> {
    match v {
        None => Ok(None),
        Some(JsonV::Str(s)) => match status_of_token(s) {
            Some(st) => Ok(Some(st)),
            None => Err(()),
        },
        Some(_) => Err(()),
    }
}

/// Decodes the optional priority field: one of the three priority tokens.
pub open spec fn dec_opt_priority(v: Option<JsonV>) -> Result<Option<TaskPriority>, ()> {
    match v {
        None => Ok(None),
        Some(JsonV::Str(s)) => match priority_of_token(s) {
            Some(p) => Ok(Some(p)),
            None => Err(()),
        },
        Some(_) => Err(()),
    }
}

/// Decodes an optional number field, carried opaquely by literal shape.
pub open spec fn dec_opt_num(v: Option<JsonV>) -> Result<Option<NumV>, ()> {
    match v {
        None => Ok(None),
        Some(JsonV::U64(u)) => Ok(Some(NumV::U64(u))),
        Some(JsonV::I64(i)) => Ok(Some(NumV::I64(i))),
        Some(JsonV::F64(t)) => Ok(Some(NumV::F64(t))),
        Some(_) => Err(()),
    }
}

/// Decodes an array of strings; `None` when some element is not a string.
pub open spec fn dec_strings(a: Seq<JsonV>) -> Option<Seq<Seq<char>>>
    decreases a.len(),
{
    if a.len() == 0 {
        Some(Seq::empty())
    } else {
        match dec_strings(a.drop_last()) {
            None => None,
            Some(p) => match a.last() {
                JsonV::Str(s) => Some(p.push(s)),
                _ => None,
            },
        }
    }
}

/// Decodes the optional tags field: an array of strings.
pub open spec fn dec_opt_tags(v: Option<JsonV>) -> Result<Option<Seq<Seq<char>>>, ()> {
    match v {
        None => Ok(None),
        Some(JsonV::Arr(a)) => match dec_strings(a) {
            Some(ts) => Ok(Some(ts)),
            None => Err(()),
        },
        Some(_) => Err(()),
    }
}

/// Decodes one annotation object: an `entry` date and a `description`
/// string, both required; other keys are ignored.
pub open spec fn dec_annotation(j: JsonV) -> Option<AnnotationV> {
    match j {
        JsonV::Obj(es) => match (dec_opt_date(find_key(es, "entry"@)), dec_opt_string(
            find_key(es, "description"@),
        )) {
            (Ok(Some(d)), Ok(Some(s))) => Some(AnnotationV { entry: d, description: s }),
            _ => None,
        },
        _ => None,
    }
}

/// Decodes an array of annotation objects.
pub open spec fn dec_annotations_seq(a: Seq<JsonV>) -> Option<Seq<AnnotationV>>
    decreases a.len(),
{
    if a.len() == 0 {
        Some(Seq::empty())
    } else {
        match dec_annotations_seq(a.drop_last()) {
            None => None,
            Some(p) => match dec_annotation(a.last()) {
                Some(an) => Some(p.push(an)),
                None => None,
            },
        }
    }
}

/// Decodes the optional annotations field: an array of annotation objects.
pub open spec fn dec_opt_annotations(v: Option<JsonV>) -> Result<Option<Seq<AnnotationV>>, ()> {
    match v {
        None => Ok(None),
        Some(JsonV::Arr(a)) => match dec_annotations_seq(a) {
            Some(ans) => Ok(Some(ans)),
            None => Err(()),
        },
        Some(_) => Err(()),
    }
}

/// The index of the first comma at or after `i`, or the length when there
/// is none.
pub open spec fn comma_from(s: Seq<char>, i: int) -> int
    decreases s.len() - i,
{
    if i < 0 || i >= s.len() {
        s.len() as int
    } else if s[i] == ',' {
        i
    } else {
        comma_from(s, i + 1)
    }
}

/// The first comma at or after `i` lies between `i` and the length.
pub proof fn lemma_comma_from_bounds(s: Seq<char>, i: int)
    requires
        0 <= i <= s.len(),
    ensures
        i <= comma_from(s, i) <= s.len(),
        comma_from(s, i) < s.len() ==> s[comma_from(s, i)] == ',',
        forall|j: int| i <= j < comma_from(s, i) ==> s[j] != ',',
    decreases s.len() - i,
{
    if i < s.len() && s[i] != ',' {
        lemma_comma_from_bounds(s, i + 1);
    }
}

/// The comma-separated segments of `s` from index `i` on.
pub open spec fn split_from(s: Seq<char>, i: int) -> Seq<Seq<char>>
    decreases s.len() - i,
    when 0 <= i <= s.len()
    via split_from_decreases
{
    let j = comma_from(s, i);
    if j == s.len() {
        seq![s.subrange(i, j)]
    } else {
        seq![s.subrange(i, j)] + split_from(s, j + 1)
    }
}

#[via_fn]
proof fn split_from_decreases(s: Seq<char>, i: int) {
    lemma_comma_from_bounds(s, i);
}

/// The comma-separated segments of `s`. Splitting the empty text yields one
/// empty segment, as splitting on commas always yields one segment more
/// than there are commas.
pub open spec fn split_commas(s: Seq<char>) -> Seq<Seq<char>> {
    split_from(s, 0)
}

/// Parses each segment as a UUID; `None` when some segment is malformed.
pub open spec fn dec_uuid_texts(ts: Seq<Seq<char>>) -> Option<Seq<Uuid>>
    decreases ts.len(),
{
    if ts.len() == 0 {
        Some(Seq::empty())
    } else {
        match dec_uuid_texts(ts.drop_last()) {
            None => None,
            Some(p) => match uuid_of_text(ts.last()) {
                Some(u) => Some(p.push(u)),
                None => None,
            },
        }
    }
}

/// Decodes the optional `depends` field. Under the legacy format it is one
/// comma-joined string of UUIDs; under the current format it is an array
/// of UUID strings.
pub open spec fn dec_depends(v: Option<JsonV>, legacy: bool) -> Result<Option<Seq<Uuid>>, ()> {
    match v {
        None => Ok(None),
        Some(j) => if legacy {
            match j {
                JsonV::Str(s) => match dec_uuid_texts(split_commas(s)) {
                    Some(us) => Ok(Some(us)),
                    None => Err(()),
                },
                _ => Err(()),
            }
        } else {
            match j {
                JsonV::Arr(a) => match dec_strings(a) {
                    Some(ts) => match dec_uuid_texts(ts) {
                        Some(us) => Ok(Some(us)),
                        None => Err(()),
                    },
                    None => Err(()),
                },
                _ => Err(()),
            }
        },
    }
}

/// The UDA value a scalar wire value sniffs to, by literal shape; `None`
/// for every other shape (null, booleans, negative integers, arrays,
/// objects are not supported as UDA values).
pub open spec fn sniff_uda(j: JsonV) -> Option<UDAV> {
    match j {
        JsonV::Str(s) => Some(UDAV::Str(s)),
        JsonV::U64(u) => Some(UDAV::U64(u)),
        JsonV::F64(t) => Some(UDAV::F64(t)),
        _ => None,
    }
}

/// Folds the non-fixed entries at or after index `i` into the UDA map `m`;
/// the error carries the first offending key.
pub open spec fn uda_scan_at(
    m: Seq<(Seq<char>, UDAV)>,
    es: Seq<(Seq<char>, JsonV)>,
    i: int,
) -> Result<Seq<(Seq<char>, UDAV)>, Seq<char>>
    decreases es.len() - i,
{
    if i < 0 || i >= es.len() {
        Ok(m)
    } else if is_fixed_key(es[i].0) {
        uda_scan_at(m, es, i + 1)
    } else {
        match sniff_uda(es[i].1) {
            Some(u) => uda_scan_at(uda_insert(m, es[i].0, u), es, i + 1),
            None => Err(es[i].0),
        }
    }
}

/// The UDA map collected from an object's non-fixed entries.
pub open spec fn uda_scan(es: Seq<(Seq<char>, JsonV)>) -> Result<
    Seq<(Seq<char>, UDAV)>,
    Seq<char>,
> {
    uda_scan_at(Seq::empty(), es, 0)
}

/// Decodes a task from an object's entry list. The doc comment of this
/// module gives the order in which errors surface.
pub open spec fn decode_obj(es: Seq<(Seq<char>, JsonV)>, legacy: bool) -> Result<
    TaskV,
    TaskErrorV,
> {
    let f_id = find_key(es, "id"@);
    let f_status = find_key(es, "status"@);
    let f_uuid = find_key(es, "uuid"@);
    let f_entry = find_key(es, "entry"@);
    let f_description = find_key(es, "description"@);
    let f_annotations = find_key(es, "annotations"@);
    let f_depends = find_key(es, "depends"@);
    let f_due = find_key(es, "due"@);
    let f_end = find_key(es, "end"@);
    let f_imask = find_key(es, "imask"@);
    let f_mask = find_key(es, "mask"@);
    let f_modified = find_key(es, "modified"@);
    let f_parent = find_key(es, "parent"@);
    let f_priority = find_key(es, "priority"@);
    let f_project = find_key(es, "project"@);
    let f_recur = find_key(es, "recur"@);
    let f_scheduled = find_key(es, "scheduled"@);
    let f_start = find_key(es, "start"@);
    let f_tags = find_key(es, "tags"@);
    let f_until = find_key(es, "until"@);
    let f_wait = find_key(es, "wait"@);
    let f_urgency = find_key(es, "urgency"@);
    if dec_opt_u64(f_id) is Err {
        Err(TaskErrorV::InvalidField("id"@))
    } else if dec_opt_status(f_status) is Err {
        Err(TaskErrorV::InvalidField("status"@))
    } else if dec_opt_uuid(f_uuid) is Err {
        Err(TaskErrorV::InvalidField("uuid"@))
    } else if dec_opt_date(f_entry) is Err {
        Err(TaskErrorV::InvalidField("entry"@))
    } else if dec_opt_string(f_description) is Err {
        Err(TaskErrorV::InvalidField("description"@))
    } else if dec_opt_annotations(f_annotations) is Err {
        Err(TaskErrorV::InvalidField("annotations"@))
    } else if dec_depends(f_depends, legacy) is Err {
        Err(TaskErrorV::InvalidField("depends"@))
    } else if dec_opt_date(f_due) is Err {
        Err(TaskErrorV::InvalidField("due"@))
    } else if dec_opt_date(f_end) is Err {
        Err(TaskErrorV::InvalidField("end"@))
    } else if dec_opt_num(f_imask) is Err {
        Err(TaskErrorV::InvalidField("imask"@))
    } else if dec_opt_string(f_mask) is Err {
        Err(TaskErrorV::InvalidField("mask"@))
    } else if dec_opt_date(f_modified) is Err {
        Err(TaskErrorV::InvalidField("modified"@))
    } else if dec_opt_uuid(f_parent) is Err {
        Err(TaskErrorV::InvalidField("parent"@))
    } else if dec_opt_priority(f_priority) is Err {
        Err(TaskErrorV::InvalidField("priority"@))
    } else if dec_opt_string(f_project) is Err {
        Err(TaskErrorV::InvalidField("project"@))
    } else if dec_opt_string(f_recur) is Err {
        Err(TaskErrorV::InvalidField("recur"@))
    } else if dec_opt_date(f_scheduled) is Err {
        Err(TaskErrorV::InvalidField("scheduled"@))
    } else if dec_opt_date(f_start) is Err {
        Err(TaskErrorV::InvalidField("start"@))
    } else if dec_opt_tags(f_tags) is Err {
        Err(TaskErrorV::InvalidField("tags"@))
    } else if dec_opt_date(f_until) is Err {
        Err(TaskErrorV::InvalidField("until"@))
    } else if dec_opt_date(f_wait) is Err {
        Err(TaskErrorV::InvalidField("wait"@))
    } else if dec_opt_num(f_urgency) is Err {
        Err(TaskErrorV::InvalidField("urgency"@))
    } else if uda_scan(es) is Err {
        Err(TaskErrorV::UnsupportedUda(uda_scan(es)->Err_0))
    } else if f_status is None {
        Err(TaskErrorV::MissingField("status"@))
    } else if f_uuid is None {
        Err(TaskErrorV::MissingField("uuid"@))
    } else if f_entry is None {
        Err(TaskErrorV::MissingField("entry"@))
    } else if f_description is None {
        Err(TaskErrorV::MissingField("description"@))
    } else {
        Ok(
            TaskV {
                id: dec_opt_u64(f_id)->Ok_0,
                status: dec_opt_status(f_status)->Ok_0->0,
                uuid: dec_opt_uuid(f_uuid)->Ok_0->0,
                entry: dec_opt_date(f_entry)->Ok_0->0,
                description: dec_opt_string(f_description)->Ok_0->0,
                annotations: dec_opt_annotations(f_annotations)->Ok_0,
                depends: dec_depends(f_depends, legacy)->Ok_0,
                due: dec_opt_date(f_due)->Ok_0,
                end: dec_opt_date(f_end)->Ok_0,
                imask: dec_opt_num(f_imask)->Ok_0,
                mask: dec_opt_string(f_mask)->Ok_0,
                modified: dec_opt_date(f_modified)->Ok_0,
                parent: dec_opt_uuid(f_parent)->Ok_0,
                priority: dec_opt_priority(f_priority)->Ok_0,
                project: dec_opt_string(f_project)->Ok_0,
                recur: dec_opt_string(f_recur)->Ok_0,
                scheduled: dec_opt_date(f_scheduled)->Ok_0,
                start: dec_opt_date(f_start)->Ok_0,
                tags: dec_opt_tags(f_tags)->Ok_0,
                until: dec_opt_date(f_until)->Ok_0,
                wait: dec_opt_date(f_wait)->Ok_0,
                urgency: dec_opt_num(f_urgency)->Ok_0,
                uda: uda_scan(es)->Ok_0,
            },
        )
    }
}

/// Decodes a task from a JSON value: the value must be an object.
pub open spec fn decode_value(j: JsonV, legacy: bool) -> Result<TaskV, TaskErrorV> {
    match j {
        JsonV::Obj(es) => decode_obj(es, legacy),
        _ => Err(TaskErrorV::NotAnObject),
    }
}

/// The view of a decode result.
pub open spec fn dec_result_view(r: Result<Task, TaskError>) -> Result<TaskV, TaskErrorV> {
    match r {
        Ok(t) => Ok(t@),
        Err(e) => Err(e@),
    }
}

/// An array decodes as strings exactly when every element is a string, and
/// then elementwise.
pub proof fn lemma_dec_strings_char(a: Seq<JsonV>)
    ensures
        dec_strings(a) is Some <==> (forall|i: int| 0 <= i < a.len() ==> #[trigger] a[i] is Str),
        dec_strings(a) is Some ==> dec_strings(a)->0 == Seq::new(a.len(), |i: int| a[i]->Str_0),
    decreases a.len(),
{
    if a.len() == 0 {
        assert(dec_strings(a)->0 =~= Seq::new(a.len(), |i: int| a[i]->Str_0));
    } else {
        let p = a.drop_last();
        lemma_dec_strings_char(p);
        assert(forall|i: int| 0 <= i < p.len() ==> p[i] == a[i]);
        if dec_strings(a) is Some {
            assert forall|i: int| 0 <= i < a.len() implies #[trigger] a[i] is Str by {
                if i < a.len() - 1 {
                    assert(p[i] is Str);
                }
            }
            assert(dec_strings(a)->0 =~= Seq::new(a.len(), |i: int| a[i]->Str_0));
        } else {
            if forall|i: int| 0 <= i < a.len() ==> #[trigger] a[i] is Str {
                assert(forall|i: int| 0 <= i < p.len() ==> #[trigger] p[i] is Str);
                assert(a.last() is Str);
                assert(dec_strings(a) is Some);
            }
        }
    }
}

/// Segments decode as UUIDs exactly when every segment parses, and then
/// segmentwise.
pub proof fn lemma_dec_uuid_texts_char(ts: Seq<Seq<char>>)
    ensures
        dec_uuid_texts(ts) is Some <==> (forall|i: int|
            0 <= i < ts.len() ==> #[trigger] uuid_of_text(ts[i]) is Some),
        dec_uuid_texts(ts) is Some ==> dec_uuid_texts(ts)->0 == Seq::new(
            ts.len(),
            |i: int| uuid_of_text(ts[i])->0,
        ),
    decreases ts.len(),
{
    if ts.len() == 0 {
        assert(dec_uuid_texts(ts)->0 =~= Seq::new(ts.len(), |i: int| uuid_of_text(ts[i])->0));
    } else {
        let p = ts.drop_last();
        lemma_dec_uuid_texts_char(p);
        assert(forall|i: int| 0 <= i < p.len() ==> p[i] == ts[i]);
        if dec_uuid_texts(ts) is Some {
            assert forall|i: int| 0 <= i < ts.len() implies #[trigger] uuid_of_text(ts[i])
                is Some by {
                if i < ts.len() - 1 {
                    assert(uuid_of_text(p[i]) is Some);
                }
            }
            assert(dec_uuid_texts(ts)->0 =~= Seq::new(ts.len(), |i: int| uuid_of_text(ts[i])->0));
        } else {
            if forall|i: int| 0 <= i < ts.len() ==> #[trigger] uuid_of_text(ts[i]) is Some {
                assert(forall|i: int|
                    0 <= i < p.len() ==> #[trigger] uuid_of_text(p[i]) is Some);
                assert(uuid_of_text(ts.last()) is Some);
                assert(dec_uuid_texts(ts) is Some);
            }
        }
    }
}

/// An array decodes as annotations exactly when every element decodes, and
/// then elementwise.
pub proof fn lemma_dec_annotations_char(a: Seq<JsonV>)
    ensures
        dec_annotations_seq(a) is Some <==> (forall|i: int|
            0 <= i < a.len() ==> #[trigger] dec_annotation(a[i]) is Some),
        dec_annotations_seq(a) is Some ==> dec_annotations_seq(a)->0 == Seq::new(
            a.len(),
            |i: int| dec_annotation(a[i])->0,
        ),
    decreases a.len(),
{
    if a.len() == 0 {
        assert(dec_annotations_seq(a)->0 =~= Seq::new(a.len(), |i: int| dec_annotation(a[i])->0));
    } else {
        let p = a.drop_last();
        lemma_dec_annotations_char(p);
        assert(forall|i: int| 0 <= i < p.len() ==> p[i] == a[i]);
        if dec_annotations_seq(a) is Some {
            assert forall|i: int| 0 <= i < a.len() implies #[trigger] dec_annotation(a[i])
                is Some by {
                if i < a.len() - 1 {
                    assert(dec_annotation(p[i]) is Some);
                }
            }
            assert(dec_annotations_seq(a)->0 =~= Seq::new(
                a.len(),
                |i: int| dec_annotation(a[i])->0,
            ));
        } else {
            if forall|i: int| 0 <= i < a.len() ==> #[trigger] dec_annotation(a[i]) is Some {
                assert(forall|i: int|
                    0 <= i < p.len() ==> #[trigger] dec_annotation(p[i]) is Some);
                assert(dec_annotation(a.last()) is Some);
                assert(dec_annotations_seq(a) is Some);
            }
        }
    }
}

/// Whether `k` is one of the fixed task field names.
pub fn is_fixed(k: &str) -> (b: bool)
    ensures
        b == is_fixed_key(k@),
{
    str_eq(k, "id") || str_eq(k, "status") || str_eq(k, "uuid") || str_eq(k, "entry") || str_eq(
        k,
        "description",
    ) || str_eq(k, "annotations") || str_eq(k, "depends") || str_eq(k, "due") || str_eq(k, "end")
        || str_eq(k, "imask") || str_eq(k, "mask") || str_eq(k, "modified") || str_eq(k, "parent")
        || str_eq(k, "priority") || str_eq(k, "project") || str_eq(k, "recur") || str_eq(
        k,
        "scheduled",
    ) || str_eq(k, "start") || str_eq(k, "tags") || str_eq(k, "until") || str_eq(k, "wait")
        || str_eq(k, "urgency")
}

/// Finds the first entry named `name` in an object's entry list.
fn find_entry<'a>(es: &'a Vec<(String, JsonValue)>, name: &str) -> (r: Option<&'a JsonValue>)
    ensures
        match r {
            Some(v) => find_key(entries_dv(es@), name@) == Some(v.dv()),
            None => find_key(entries_dv(es@), name@) is None,
        },
{
    proof {
        lemma_entries_dv(es@);
    }
    let ghost ds = entries_dv(es@);
    let n = es.len();
    let mut i: usize = 0;
    while i < n
        invariant
            n == es@.len(),
            ds == entries_dv(es@),
            ds.len() == n,
            forall|j: int| 0 <= j < n ==> ds[j] == (#[trigger] es@[j].0@, es@[j].1.dv()),
            0 <= i <= n,
            find_from(ds, name@, 0) == find_from(ds, name@, i as int),
        decreases n - i,
    {
        if str_eq(es[i].0.as_str(), name) {
            return Some(&es[i].1);
        }
        i += 1;
    }
    None
}

/// Reads an optional non-negative integer field.
fn get_u64_field(es: &Vec<(String, JsonValue)>, name: &str) -> (r: Result<Option<u64>, TaskError>)
    ensures
        match r {
            Ok(v) => dec_opt_u64(find_key(entries_dv(es@), name@)) == Ok::<Option<u64>, ()>(v),
            Err(e) => dec_opt_u64(find_key(entries_dv(es@), name@)) is Err && e@
                == TaskErrorV::InvalidField(name@),
        },
{
    match find_entry(es, name) {
        None => Ok(None),
        Some(v) => match v {
            JsonValue::U64(u) => Ok(Some(*u)),
            _ => Err(TaskError::InvalidField(name.to_owned())),
        },
    }
}

/// Reads an optional date field.
fn get_date_field(es: &Vec<(String, JsonValue)>, name: &str) -> (r: Result<Option<Date>, TaskError>)
    ensures
        match r {
            Ok(v) => dec_opt_date(find_key(entries_dv(es@), name@)) == Ok::<Option<Date>, ()>(v),
            Err(e) => dec_opt_date(find_key(entries_dv(es@), name@)) is Err && e@
                == TaskErrorV::InvalidField(name@),
        },
{
    match find_entry(es, name) {
        None => Ok(None),
        Some(v) => match v {
            JsonValue::Str(s) => match parse_date(s.as_str()) {
                Some(d) => Ok(Some(d)),
                None => Err(TaskError::InvalidField(name.to_owned())),
            },
            _ => Err(TaskError::InvalidField(name.to_owned())),
        },
    }
}

/// Reads an optional string field.
fn get_string_field(es: &Vec<(String, JsonValue)>, name: &str) -> (r: Result<
    Option<String>,
    TaskError,
>)
    ensures
        match r {
            Ok(v) => dec_opt_string(find_key(entries_dv(es@), name@)) == Ok::<
                Option<Seq<char>>,
                (),
            >(opt_str_view(v)),
            Err(e) => dec_opt_string(find_key(entries_dv(es@), name@)) is Err && e@
                == TaskErrorV::InvalidField(name@),
        },
{
    match find_entry(es, name) {
        None => Ok(None),
        Some(v) => match v {
            JsonValue::Str(s) => Ok(Some(s.clone())),
            _ => Err(TaskError::InvalidField(name.to_owned())),
        },
    }
}

/// Reads an optional UUID field.
fn get_uuid_field(es: &Vec<(String, JsonValue)>, name: &str) -> (r: Result<Option<Uuid>, TaskError>)
    ensures
        match r {
            Ok(v) => dec_opt_uuid(find_key(entries_dv(es@), name@)) == Ok::<Option<Uuid>, ()>(v),
            Err(e) => dec_opt_uuid(find_key(entries_dv(es@), name@)) is Err && e@
                == TaskErrorV::InvalidField(name@),
        },
{
    match find_entry(es, name) {
        None => Ok(None),
        Some(v) => match v {
            JsonValue::Str(s) => match Uuid::parse_str(s.as_str()) {
                Some(u) => Ok(Some(u)),
                None => Err(TaskError::InvalidField(name.to_owned())),
            },
            _ => Err(TaskError::InvalidField(name.to_owned())),
        },
    }
}

/// Parses a status wire token.
pub fn parse_status(s: &str) -> (r: Option<TaskStatus>)
    ensures
        r == status_of_token(s@),
{
    if str_eq(s, "pending") {
        Some(TaskStatus::Pending)
    } else if str_eq(s, "deleted") {
        Some(TaskStatus::Deleted)
    } else if str_eq(s, "completed") {
        Some(TaskStatus::Completed)
    } else if str_eq(s, "waiting") {
        Some(TaskStatus::Waiting)
    } else if str_eq(s, "recurring") {
        Some(TaskStatus::Recurring)
    } else {
        None
    }
}

/// Parses a priority wire token.
pub fn parse_priority(s: &str) -> (r: Option<TaskPriority>)
    ensures
        r == priority_of_token(s@),
{
    if str_eq(s, "L") {
        Some(TaskPriority::Low)
    } else if str_eq(s, "M") {
        Some(TaskPriority::Medium)
    } else if str_eq(s, "H") {
        Some(TaskPriority::High)
    } else {
        None
    }
}

/// Reads the optional status field.
fn get_status_field(es: &Vec<(String, JsonValue)>) -> (r: Result<Option<TaskStatus>, TaskError>)
    ensures
        match r {
            Ok(v) => dec_opt_status(find_key(entries_dv(es@), "status"@)) == Ok::<
                Option<TaskStatus>,
                (),
            >(v),
            Err(e) => dec_opt_status(find_key(entries_dv(es@), "status"@)) is Err && e@
                == TaskErrorV::InvalidField("status"@),
        },
{
    match find_entry(es, "status") {
        None => Ok(None),
        Some(v) => match v {
            JsonValue::Str(s) => match parse_status(s.as_str()) {
                Some(st) => Ok(Some(st)),
                None => Err(TaskError::InvalidField("status".to_owned())),
            },
            _ => Err(TaskError::InvalidField("status".to_owned())),
        },
    }
}

/// Reads the optional priority field.
fn get_priority_field(es: &Vec<(String, JsonValue)>) -> (r: Result<Option<TaskPriority>, TaskError>)
    ensures
        match r {
            Ok(v) => dec_opt_priority(find_key(entries_dv(es@), "priority"@)) == Ok::<
                Option<TaskPriority>,
                (),
            >(v),
            Err(e) => dec_opt_priority(find_key(entries_dv(es@), "priority"@)) is Err && e@
                == TaskErrorV::InvalidField("priority"@),
        },
{
    match find_entry(es, "priority") {
        None => Ok(None),
        Some(v) => match v {
            JsonValue::Str(s) => match parse_priority(s.as_str()) {
                Some(p) => Ok(Some(p)),
                None => Err(TaskError::InvalidField("priority".to_owned())),
            },
            _ => Err(TaskError::InvalidField("priority".to_owned())),
        },
    }
}

/// Reads an optional number field.
fn get_num_field(es: &Vec<(String, JsonValue)>, name: &str) -> (r: Result<Option<Num>, TaskError>)
    ensures
        match r {
            Ok(v) => dec_opt_num(find_key(entries_dv(es@), name@)) == Ok::<Option<NumV>, ()>(
                opt_num_view(v),
            ),
            Err(e) => dec_opt_num(find_key(entries_dv(es@), name@)) is Err && e@
                == TaskErrorV::InvalidField(name@),
        },
{
    match find_entry(es, name) {
        None => Ok(None),
        Some(v) => match v {
            JsonValue::U64(u) => Ok(Some(Num::U64(*u))),
            JsonValue::I64(i) => Ok(Some(Num::I64(*i))),
            JsonValue::F64(t) => Ok(Some(Num::F64(t.clone()))),
            _ => Err(TaskError::InvalidField(name.to_owned())),
        },
    }
}

/// Decodes an array of strings into owned strings.
fn collect_strings(a: &Vec<JsonValue>) -> (r: Option<Vec<String>>)
    ensures
        match r {
            Some(v) => dec_strings(elems_dv(a@)) == Some(strs_view(v@)),
            None => dec_strings(elems_dv(a@)) is None,
        },
{
    proof {
        lemma_elems_dv(a@);
        lemma_dec_strings_char(elems_dv(a@));
    }
    let ghost ds = elems_dv(a@);
    let n = a.len();
    let mut out: Vec<String> = Vec::new();
    let mut i: usize = 0;
    while i < n
        invariant
            n == a@.len(),
            ds == elems_dv(a@),
            ds.len() == n,
            forall|j: int| 0 <= j < n ==> ds[j] == #[trigger] a@[j].dv(),
            dec_strings(ds) is Some <==> (forall|j: int| 0 <= j < n ==> #[trigger] ds[j] is Str),
            dec_strings(ds) is Some ==> dec_strings(ds)->0 == Seq::new(
                ds.len(),
                |j: int| ds[j]->Str_0,
            ),
            0 <= i <= n,
            out@.len() == i,
            forall|j: int| 0 <= j < i ==> #[trigger] ds[j] is Str,
            forall|j: int| 0 <= j < i ==> (#[trigger] out@[j])@ == ds[j]->Str_0,
        decreases n - i,
    {
        proof {
            assert(ds[i as int] == a@[i as int].dv());
        }
        match &a[i] {
            JsonValue::Str(s) => {
                proof {
                    assert(ds[i as int] == JsonV::Str(s@));
                }
                out.push(s.clone());
            },
            _ => {
                proof {
                    assert(!(ds[i as int] is Str));
                }
                return None;
            },
        }
        i += 1;
    }
    proof {
        assert(dec_strings(ds) is Some);
        assert(strs_view(out@) =~= dec_strings(ds)->0);
    }
    Some(out)
}

/// Reads the optional tags field.
fn get_tags_field(es: &Vec<(String, JsonValue)>) -> (r: Result<Option<Vec<String>>, TaskError>)
    ensures
        match r {
            Ok(v) => dec_opt_tags(find_key(entries_dv(es@), "tags"@)) == Ok::<
                Option<Seq<Seq<char>>>,
                (),
            >(opt_strs_view(v)),
            Err(e) => dec_opt_tags(find_key(entries_dv(es@), "tags"@)) is Err && e@
                == TaskErrorV::InvalidField("tags"@),
        },
{
    match find_entry(es, "tags") {
        None => Ok(None),
        Some(v) => match v {
            JsonValue::Arr(a) => match collect_strings(a) {
                Some(ts) => Ok(Some(ts)),
                None => Err(TaskError::InvalidField("tags".to_owned())),
            },
            _ => Err(TaskError::InvalidField("tags".to_owned())),
        },
    }
}

/// Decodes one annotation object.
fn collect_annotation(v: &JsonValue) -> (r: Option<Annotation>)
    ensures
        match r {
            Some(an) => dec_annotation(v.dv()) == Some(an@),
            None => dec_annotation(v.dv()) is None,
        },
{
    match v {
        JsonValue::Obj(es) => {
            let entry = match get_date_field(es, "entry") {
                Ok(Some(d)) => d,
                _ => {
                    return None;
                },
            };
            let description = match get_string_field(es, "description") {
                Ok(Some(s)) => s,
                _ => {
                    return None;
                },
            };
            Some(Annotation::new(entry, description))
        },
        _ => None,
    }
}

/// Decodes an array of annotation objects.
fn collect_annotations(a: &Vec<JsonValue>) -> (r: Option<Vec<Annotation>>)
    ensures
        match r {
            Some(v) => dec_annotations_seq(elems_dv(a@)) == Some(anns_view(v@)),
            None => dec_annotations_seq(elems_dv(a@)) is None,
        },
{
    proof {
        lemma_elems_dv(a@);
        lemma_dec_annotations_char(elems_dv(a@));
    }
    let ghost ds = elems_dv(a@);
    let n = a.len();
    let mut out: Vec<Annotation> = Vec::new();
    let mut i: usize = 0;
    while i < n
        invariant
            n == a@.len(),
            ds == elems_dv(a@),
            ds.len() == n,
            forall|j: int| 0 <= j < n ==> ds[j] == #[trigger] a@[j].dv(),
            dec_annotations_seq(ds) is Some <==> (forall|j: int|
                0 <= j < n ==> #[trigger] dec_annotation(ds[j]) is Some),
            dec_annotations_seq(ds) is Some ==> dec_annotations_seq(ds)->0 == Seq::new(
                ds.len(),
                |j: int| dec_annotation(ds[j])->0,
            ),
            0 <= i <= n,
            out@.len() == i,
            forall|j: int| 0 <= j < i ==> #[trigger] dec_annotation(ds[j]) is Some,
            forall|j: int| 0 <= j < i ==> (#[trigger] out@[j])@ == dec_annotation(ds[j])->0,
        decreases n - i,
    {
        proof {
            assert(ds[i as int] == a@[i as int].dv());
        }
        match collect_annotation(&a[i]) {
            Some(an) => {
                out.push(an);
            },
            None => {
                return None;
            },
        }
        i += 1;
    }
    proof {
        assert(dec_annotations_seq(ds) is Some);
        assert(anns_view(out@) =~= dec_annotations_seq(ds)->0);
    }
    Some(out)
}

/// Reads the optional annotations field.
fn get_annotations_field(es: &Vec<(String, JsonValue)>) -> (r: Result<
    Option<Vec<Annotation>>,
    TaskError,
>)
    ensures
        match r {
            Ok(v) => dec_opt_annotations(find_key(entries_dv(es@), "annotations"@)) == Ok::<
                Option<Seq<AnnotationV>>,
                (),
            >(opt_anns_view(v)),
            Err(e) => dec_opt_annotations(find_key(entries_dv(es@), "annotations"@)) is Err && e@
                == TaskErrorV::InvalidField("annotations"@),
        },
{
    match find_entry(es, "annotations") {
        None => Ok(None),
        Some(v) => match v {
            JsonValue::Arr(a) => match collect_annotations(a) {
                Some(ans) => Ok(Some(ans)),
                None => Err(TaskError::InvalidField("annotations".to_owned())),
            },
            _ => Err(TaskError::InvalidField("annotations".to_owned())),
        },
    }
}

/// Finds the next comma of `s` at or after character `from`.
fn find_comma(s: &str, from: usize) -> (r: usize)
    requires
        from <= s@.len(),
    ensures
        r == comma_from(s@, from as int),
        from <= r <= s@.len(),
{
    proof {
        lemma_comma_from_bounds(s@, from as int);
    }
    let n = s.unicode_len();
    let mut i: usize = from;
    while i < n
        invariant
            n == s@.len(),
            from <= i <= n,
            comma_from(s@, from as int) == comma_from(s@, i as int),
        decreases n - i,
    {
        if s.get_char(i) == ',' {
            return i;
        }
        i += 1;
    }
    i
}

/// Splits `s` at commas into owned segments.
fn split_commas_exec(s: &str) -> (r: Vec<String>)
    ensures
        strs_view(r@) == split_commas(s@),
{
    let n = s.unicode_len();
    let mut out: Vec<String> = Vec::new();
    let mut start: usize = 0;
    loop
        invariant
            n == s@.len(),
            0 <= start <= n,
            split_commas(s@) == strs_view(out@) + split_from(s@, start as int),
        decreases n - start,
    {
        let j = find_comma(s, start);
        let seg = s.substring_char(start, j).to_owned();
        out.push(seg);
        proof {
            lemma_comma_from_bounds(s@, start as int);
        }
        if j == n {
            proof {
                assert(split_from(s@, start as int) =~= seq![s@.subrange(start as int, j as int)]);
                assert(strs_view(out@) =~= split_commas(s@));
            }
            return out;
        }
        proof {
            assert(split_from(s@, start as int) =~= seq![
                s@.subrange(start as int, j as int),
            ] + split_from(s@, j + 1));
            assert(strs_view(out@) + split_from(s@, j + 1) =~= split_commas(s@)) by {
                assert(strs_view(out@) =~= strs_view(out@.drop_last()) + seq![
                    s@.subrange(start as int, j as int),
                ]);
            }
        }
        start = j + 1;
    }
}

/// Parses each owned segment as a UUID.
fn collect_uuids(ts: &Vec<String>) -> (r: Option<Vec<Uuid>>)
    ensures
        match r {
            Some(v) => dec_uuid_texts(strs_view(ts@)) == Some(v@),
            None => dec_uuid_texts(strs_view(ts@)) is None,
        },
{
    proof {
        lemma_dec_uuid_texts_char(strs_view(ts@));
    }
    let ghost ds = strs_view(ts@);
    let n = ts.len();
    let mut out: Vec<Uuid> = Vec::new();
    let mut i: usize = 0;
    while i < n
        invariant
            n == ts@.len(),
            ds == strs_view(ts@),
            ds.len() == n,
            forall|j: int| 0 <= j < n ==> ds[j] == (#[trigger] ts@[j])@,
            dec_uuid_texts(ds) is Some <==> (forall|j: int|
                0 <= j < n ==> #[trigger] uuid_of_text(ds[j]) is Some),
            dec_uuid_texts(ds) is Some ==> dec_uuid_texts(ds)->0 == Seq::new(
                ds.len(),
                |j: int| uuid_of_text(ds[j])->0,
            ),
            0 <= i <= n,
            out@.len() == i,
            forall|j: int| 0 <= j < i ==> #[trigger] uuid_of_text(ds[j]) is Some,
            forall|j: int| 0 <= j < i ==> #[trigger] out@[j] == uuid_of_text(ds[j])->0,
        decreases n - i,
    {
        match Uuid::parse_str(ts[i].as_str()) {
            Some(u) => {
                out.push(u);
            },
            None => {
                return None;
            },
        }
        i += 1;
    }
    proof {
        assert(dec_uuid_texts(ds) is Some);
        assert(out@ =~= dec_uuid_texts(ds)->0);
    }
    Some(out)
}

/// Reads the optional `depends` field, in the given wire format.
fn get_depends_field(es: &Vec<(String, JsonValue)>, legacy: bool) -> (r: Result<
    Option<Vec<Uuid>>,
    TaskError,
>)
    ensures
        match r {
            Ok(v) => dec_depends(find_key(entries_dv(es@), "depends"@), legacy) == Ok::<
                Option<Seq<Uuid>>,
                (),
            >(opt_uuids_view(v)),
            Err(e) => dec_depends(find_key(entries_dv(es@), "depends"@), legacy) is Err && e@
                == TaskErrorV::InvalidField("depends"@),
        },
{
    match find_entry(es, "depends") {
        None => Ok(None),
        Some(v) => {
            if legacy {
                match v {
                    JsonValue::Str(s) => {
                        let segs = split_commas_exec(s.as_str());
                        match collect_uuids(&segs) {
                            Some(us) => Ok(Some(us)),
                            None => Err(TaskError::InvalidField("depends".to_owned())),
                        }
                    },
                    _ => Err(TaskError::InvalidField("depends".to_owned())),
                }
            } else {
                match v {
                    JsonValue::Arr(a) => match collect_strings(a) {
                        Some(ts) => match collect_uuids(&ts) {
                            Some(us) => Ok(Some(us)),
                            None => Err(TaskError::InvalidField("depends".to_owned())),
                        },
                        None => Err(TaskError::InvalidField("depends".to_owned())),
                    },
                    _ => Err(TaskError::InvalidField("depends".to_owned())),
                }
            }
        },
    }
}

/// Collects every non-fixed key of the object into a UDA map.
fn collect_uda(es: &Vec<(String, JsonValue)>) -> (r: Result<UDA, TaskError>)
    ensures
        match r {
            Ok(u) => uda_scan(entries_dv(es@)) == Ok::<_, Seq<char>>(u@) && u.wf(),
            Err(e) => uda_scan(entries_dv(es@)) is Err && e@ == TaskErrorV::UnsupportedUda(
                uda_scan(entries_dv(es@))->Err_0,
            ),
        },
{
    proof {
        lemma_entries_dv(es@);
    }
    let ghost ds = entries_dv(es@);
    let n = es.len();
    let mut out = UDA::new();
    let mut i: usize = 0;
    while i < n
        invariant
            n == es@.len(),
            ds == entries_dv(es@),
            ds.len() == n,
            forall|j: int| 0 <= j < n ==> ds[j] == (#[trigger] es@[j].0@, es@[j].1.dv()),
            0 <= i <= n,
            out.wf(),
            uda_scan(ds) == uda_scan_at(out@, ds, i as int),
        decreases n - i,
    {
        proof {
            assert(ds[i as int] == (es@[i as int].0@, es@[i as int].1.dv()));
        }
        let key = &es[i].0;
        if !is_fixed(key.as_str()) {
            match &es[i].1 {
                JsonValue::Str(s) => {
                    proof {
                        assert(ds[i as int].1 == JsonV::Str(s@));
                    }
                    out.insert(key.clone(), UDAValue::Str(s.clone()));
                },
                JsonValue::U64(u) => {
                    proof {
                        assert(ds[i as int].1 == JsonV::U64(*u));
                    }
                    out.insert(key.clone(), UDAValue::U64(*u));
                },
                JsonValue::F64(t) => {
                    proof {
                        assert(ds[i as int].1 == JsonV::F64(t@));
                    }
                    out.insert(key.clone(), UDAValue::F64(t.clone()));
                },
                _ => {
                    proof {
                        assert(sniff_uda(ds[i as int].1) is None);
                    }
                    return Err(TaskError::UnsupportedUda(key.clone()));
                },
            }
        }
        i += 1;
    }
    Ok(out)
}

/// A singleton entry list when the value is present, empty when absent:
/// absent fields are never emitted, not even as `null`.
pub open spec fn opt_entry(name: Seq<char>, v: Option<JsonV>) -> Seq<(Seq<char>, JsonV)> {
    match v {
        Some(j) => seq![(name, j)],
        None => seq![],
    }
}

/// The wire value of a date.
pub open spec fn jv_date(d: Date) -> JsonV {
    JsonV::Str(date_text(d))
}

/// The wire value of a UUID.
pub open spec fn jv_uuid(u: Uuid) -> JsonV {
    JsonV::Str(uuid_text(u))
}

/// The wire value of an opaquely carried number.
pub open spec fn jv_num(n: NumV) -> JsonV {
    match n {
        NumV::U64(u) => JsonV::U64(u),
        NumV::I64(i) => JsonV::I64(i),
        NumV::F64(t) => JsonV::F64(t),
    }
}

/// The wire value of a tag list.
pub open spec fn jv_tags(ts: Seq<Seq<char>>) -> JsonV {
    JsonV::Arr(Seq::new(ts.len(), |i: int| JsonV::Str(ts[i])))
}

/// The wire value of one annotation.
pub open spec fn jv_ann(a: AnnotationV) -> JsonV {
    JsonV::Obj(seq![("entry"@, jv_date(a.entry)), ("description"@, JsonV::Str(a.description))])
}

/// The wire value of an annotation list.
pub open spec fn jv_anns(ans: Seq<AnnotationV>) -> JsonV {
    JsonV::Arr(Seq::new(ans.len(), |i: int| jv_ann(ans[i])))
}

/// The wire texts of a UUID list.
pub open spec fn uuid_texts(us: Seq<Uuid>) -> Seq<Seq<char>> {
    Seq::new(us.len(), |i: int| uuid_text(us[i]))
}

/// The comma-joined text of the segments.
pub open spec fn join_commas(ts: Seq<Seq<char>>) -> Seq<char>
    decreases ts.len(),
{
    if ts.len() == 0 {
        Seq::empty()
    } else if ts.len() == 1 {
        ts[0]
    } else {
        join_commas(ts.drop_last()) + seq![','] + ts.last()
    }
}

/// The wire value of the `depends` field: under the legacy format one
/// comma-joined string, under the current format an array of UUID strings.
pub open spec fn jv_depends(us: Seq<Uuid>, legacy: bool) -> JsonV {
    if legacy {
        JsonV::Str(join_commas(uuid_texts(us)))
    } else {
        JsonV::Arr(Seq::new(us.len(), |i: int| JsonV::Str(uuid_text(us[i]))))
    }
}

/// The wire value of a UDA value.
pub open spec fn uda_jv(v: UDAV) -> JsonV {
    match v {
        UDAV::Str(s) => JsonV::Str(s),
        UDAV::U64(u) => JsonV::U64(u),
        UDAV::F64(t) => JsonV::F64(t),
    }
}

/// The trailing entries of the encoded object: each UDA binding flattened
/// as a top-level key, in the map's key-sorted order.
pub open spec fn uda_entries(m: Seq<(Seq<char>, UDAV)>) -> Seq<(Seq<char>, JsonV)> {
    Seq::new(m.len(), |i: int| (m[i].0, uda_jv(m[i].1)))
}

/// The head of the encoded object: `id` when present, then the four
/// required fields.
pub open spec fn encode_head(t: TaskV) -> Seq<(Seq<char>, JsonV)> {
    opt_entry(
        "id"@,
        match t.id {
            Some(u) => Some(JsonV::U64(u)),
            None => None,
        },
    ) + seq![("status"@, JsonV::Str(status_token(t.status)))] + seq![
        ("uuid"@, JsonV::Str(uuid_text(t.uuid))),
    ] + seq![("entry"@, JsonV::Str(date_text(t.entry)))] + seq![
        ("description"@, JsonV::Str(t.description)),
    ]
}

/// The first group of optional fields, `annotations` through `parent`,
/// each emitted only when present.
pub open spec fn encode_opts1(t: TaskV, legacy: bool) -> Seq<(Seq<char>, JsonV)> {
    opt_entry(
        "annotations"@,
        match t.annotations {
            Some(ans) => Some(jv_anns(ans)),
            None => None,
        },
    ) + opt_entry(
        "depends"@,
        match t.depends {
            Some(us) => Some(jv_depends(us, legacy)),
            None => None,
        },
    ) + opt_entry(
        "due"@,
        match t.due {
            Some(d) => Some(jv_date(d)),
            None => None,
        },
    ) + opt_entry(
        "end"@,
        match t.end {
            Some(d) => Some(jv_date(d)),
            None => None,
        },
    ) + opt_entry(
        "imask"@,
        match t.imask {
            Some(n) => Some(jv_num(n)),
            None => None,
        },
    ) + opt_entry(
        "mask"@,
        match t.mask {
            Some(s) => Some(JsonV::Str(s)),
            None => None,
        },
    ) + opt_entry(
        "modified"@,
        match t.modified {
            Some(d) => Some(jv_date(d)),
            None => None,
        },
    ) + opt_entry(
        "parent"@,
        match t.parent {
            Some(u) => Some(jv_uuid(u)),
            None => None,
        },
    )
}

/// The second group of optional fields, `priority` through `urgency`, each
/// emitted only when present.
pub open spec fn encode_opts2(t: TaskV) -> Seq<(Seq<char>, JsonV)> {
    opt_entry(
        "priority"@,
        match t.priority {
            Some(p) => Some(JsonV::Str(priority_token(p))),
            None => None,
        },
    ) + opt_entry(
        "project"@,
        match t.project {
            Some(s) => Some(JsonV::Str(s)),
            None => None,
        },
    ) + opt_entry(
        "recur"@,
        match t.recur {
            Some(s) => Some(JsonV::Str(s)),
            None => None,
        },
    ) + opt_entry(
        "scheduled"@,
        match t.scheduled {
            Some(d) => Some(jv_date(d)),
            None => None,
        },
    ) + opt_entry(
        "start"@,
        match t.start {
            Some(d) => Some(jv_date(d)),
            None => None,
        },
    ) + opt_entry(
        "tags"@,
        match t.tags {
            Some(ts) => Some(jv_tags(ts)),
            None => None,
        },
    ) + opt_entry(
        "until"@,
        match t.until {
            Some(d) => Some(jv_date(d)),
            None => None,
        },
    ) + opt_entry(
        "wait"@,
        match t.wait {
            Some(d) => Some(jv_date(d)),
            None => None,
        },
    ) + opt_entry(
        "urgency"@,
        match t.urgency {
            Some(n) => Some(jv_num(n)),
            None => None,
        },
    )
}

/// Encodes a task as an object's entry list: `status`, `uuid`, `entry` and
/// `description` always (and `id` ahead of them when present), every other
/// fixed field only when present, and finally the UDA entries, key-sorted.
pub open spec fn encode_task(t: TaskV, legacy: bool) -> Seq<(Seq<char>, JsonV)> {
    encode_head(t) + encode_opts1(t, legacy) + encode_opts2(t) + uda_entries(t.uda)
}

/// Encodes a task as a JSON object value.
pub open spec fn encode_value(t: TaskV, legacy: bool) -> JsonV {
    JsonV::Obj(encode_task(t, legacy))
}

/// Concatenating onto the empty entry list changes nothing.
pub broadcast proof fn lemma_empty_add<A>(s: Seq<A>)
    ensures
        #[trigger] (Seq::<A>::empty() + s) == s,
{
    assert(Seq::<A>::empty() + s =~= s);
}

/// Concatenation of sequences is associative.
pub proof fn lemma_add_assoc<A>(a: Seq<A>, b: Seq<A>, c: Seq<A>)
    ensures
        (a + b) + c == a + (b + c),
{
    assert((a + b) + c =~= a + (b + c));
}

/// The view of an optional wire value.
pub open spec fn opt_jv_view(v: Option<JsonValue>) -> Option<JsonV> {
    match v {
        Some(x) => Some(x.dv()),
        None => None,
    }
}

/// Appends one optional entry to an object under construction.
fn push_opt(out: &mut Vec<(String, JsonValue)>, name: &str, v: Option<JsonValue>)
    ensures
        entries_dv(final(out)@) == entries_dv(old(out)@) + opt_entry(name@, opt_jv_view(v)),
{
    match v {
        Some(x) => {
            out.push((name.to_owned(), x));
            proof {
                assert(out@.drop_last() =~= old(out)@);
                assert(entries_dv(out@) =~= entries_dv(old(out)@) + opt_entry(
                    name@,
                    opt_jv_view(v),
                ));
            }
        },
        None => {
            proof {
                assert(entries_dv(out@) =~= entries_dv(out@) + opt_entry(name@, opt_jv_view(v)));
            }
        },
    }
}

/// Builds the wire value of a tag list.
fn tags_json(ts: &Vec<String>) -> (r: JsonValue)
    ensures
        r.dv() == jv_tags(strs_view(ts@)),
{
    let n = ts.len();
    let mut arr: Vec<JsonValue> = Vec::new();
    let mut i: usize = 0;
    while i < n
        invariant
            n == ts@.len(),
            0 <= i <= n,
            arr@.len() == i,
            elems_dv(arr@) == Seq::new(i as nat, |j: int| JsonV::Str(ts@[j]@)),
        decreases n - i,
    {
        let ghost prev = arr@;
        arr.push(JsonValue::Str(ts[i].clone()));
        proof {
            assert(arr@.drop_last() =~= prev);
            assert(elems_dv(arr@) == elems_dv(prev).push(arr@.last().dv()));
            assert(elems_dv(arr@) =~= Seq::new((i + 1) as nat, |j: int| JsonV::Str(ts@[j]@)));
        }
        i += 1;
    }
    proof {
        assert(elems_dv(arr@) =~= Seq::new(ts@.len(), |j: int| JsonV::Str(strs_view(ts@)[j])));
    }
    JsonValue::Arr(arr)
}

/// Builds the wire value of one annotation.
fn ann_json(a: &Annotation) -> (r: JsonValue)
    ensures
        r.dv() == jv_ann(a@),
{
    let mut es: Vec<(String, JsonValue)> = Vec::new();
    proof {
        assert(entries_dv(es@) =~= Seq::<(Seq<char>, JsonV)>::empty());
    }
    es.push(("entry".to_owned(), JsonValue::Str(a.entry().format())));
    let ghost s1 = es@;
    proof {
        assert(s1.drop_last() =~= Seq::<(String, JsonValue)>::empty());
        assert(entries_dv(s1) == entries_dv(s1.drop_last()).push((s1.last().0@, s1.last().1.dv())));
        assert(entries_dv(s1) =~= seq![("entry"@, jv_date(a@.entry))]);
    }
    es.push(("description".to_owned(), JsonValue::Str(a.description().clone())));
    proof {
        assert(es@.drop_last() =~= s1);
        assert(entries_dv(es@) == entries_dv(s1).push((es@.last().0@, es@.last().1.dv())));
        assert(entries_dv(es@) =~= seq![
            ("entry"@, jv_date(a@.entry)),
            ("description"@, JsonV::Str(a@.description)),
        ]);
    }
    JsonValue::Obj(es)
}

/// Builds the wire value of an annotation list.
fn anns_json(v: &Vec<Annotation>) -> (r: JsonValue)
    ensures
        r.dv() == jv_anns(anns_view(v@)),
{
    let n = v.len();
    let mut arr: Vec<JsonValue> = Vec::new();
    let mut i: usize = 0;
    while i < n
        invariant
            n == v@.len(),
            0 <= i <= n,
            arr@.len() == i,
            elems_dv(arr@) == Seq::new(i as nat, |j: int| jv_ann(v@[j]@)),
        decreases n - i,
    {
        let ghost prev = arr@;
        let e = ann_json(&v[i]);
        arr.push(e);
        proof {
            assert(arr@.drop_last() =~= prev);
            assert(elems_dv(arr@) == elems_dv(prev).push(arr@.last().dv()));
            assert(elems_dv(arr@) =~= Seq::new((i + 1) as nat, |j: int| jv_ann(v@[j]@)));
        }
        i += 1;
    }
    proof {
        assert(elems_dv(arr@) =~= Seq::new(anns_view(v@).len(), |j: int| jv_ann(anns_view(v@)[j])));
    }
    JsonValue::Arr(arr)
}

/// Builds the wire value of an opaquely carried number.
fn num_json(n: &Num) -> (r: JsonValue)
    ensures
        r.dv() == jv_num(n@),
{
    match n {
        Num::U64(u) => JsonValue::U64(*u),
        Num::I64(i) => JsonValue::I64(*i),
        Num::F64(t) => JsonValue::F64(t.clone()),
    }
}

/// Joins the wire texts of the UUIDs with commas.
fn join_uuids(us: &Vec<Uuid>) -> (r: String)
    ensures
        r@ == join_commas(uuid_texts(us@)),
{
    let n = us.len();
    let mut out = String::new();
    let mut i: usize = 0;
    proof {
        assert(out@ =~= join_commas(uuid_texts(us@).subrange(0, 0)));
    }
    while i < n
        invariant
            n == us@.len(),
            0 <= i <= n,
            out@ == join_commas(uuid_texts(us@).subrange(0, i as int)),
        decreases n - i,
    {
        if i > 0 {
            out.append(",");
        }
        let t = us[i].format();
        out.append(t.as_str());
        proof {
            reveal_strlit(",");
            let p = uuid_texts(us@).subrange(0, i as int);
            let q = uuid_texts(us@).subrange(0, i as int + 1);
            assert(q.drop_last() =~= p);
            assert(q.last() == uuid_text(us@[i as int]));
            if i == 0 {
                assert(out@ =~= join_commas(q));
            } else {
                assert(","@ =~= seq![',']);
                assert(out@ =~= join_commas(p) + seq![','] + q.last());
            }
        }
        i += 1;
    }
    proof {
        assert(uuid_texts(us@).subrange(0, n as int) =~= uuid_texts(us@));
    }
    out
}

/// Builds the wire value of the `depends` field in the given format.
fn depends_json(us: &Vec<Uuid>, legacy: bool) -> (r: JsonValue)
    ensures
        r.dv() == jv_depends(us@, legacy),
{
    if legacy {
        JsonValue::Str(join_uuids(us))
    } else {
        let n = us.len();
        let mut arr: Vec<JsonValue> = Vec::new();
        let mut i: usize = 0;
        while i < n
            invariant
                n == us@.len(),
                0 <= i <= n,
                arr@.len() == i,
                elems_dv(arr@) == Seq::new(i as nat, |j: int| JsonV::Str(uuid_text(us@[j]))),
            decreases n - i,
        {
            let ghost prev = arr@;
            let t = us[i].format();
            arr.push(JsonValue::Str(t));
            proof {
                assert(arr@.drop_last() =~= prev);
                assert(elems_dv(arr@) == elems_dv(prev).push(arr@.last().dv()));
                assert(elems_dv(arr@) =~= Seq::new(
                    (i + 1) as nat,
                    |j: int| JsonV::Str(uuid_text(us@[j])),
                ));
            }
            i += 1;
        }
        JsonValue::Arr(arr)
    }
}

/// Builds the wire value of a UDA value.
fn uda_value_json(v: &UDAValue) -> (r: JsonValue)
    ensures
        r.dv() == uda_jv(v@),
{
    match v {
        UDAValue::Str(s) => JsonValue::Str(s.clone()),
        UDAValue::U64(u) => JsonValue::U64(*u),
        UDAValue::F64(t) => JsonValue::F64(t.clone()),
    }
}

/// Appends every UDA binding as a top-level entry.
fn push_uda(out: &mut Vec<(String, JsonValue)>, uda: &UDA)
    ensures
        entries_dv(final(out)@) == entries_dv(old(out)@) + uda_entries(uda@),
{
    let ghost orig = entries_dv(old(out)@);
    let n = uda.len();
    let mut i: usize = 0;
    proof {
        assert(orig + uda_entries(uda@).subrange(0, 0) =~= orig);
    }
    while i < n
        invariant
            n == uda@.len(),
            0 <= i <= n,
            entries_dv(out@) == orig + uda_entries(uda@).subrange(0, i as int),
        decreases n - i,
    {
        let ghost prev = out@;
        let es = uda.entries();
        let val = uda_value_json(&es[i].1);
        out.push((es[i].0.clone(), val));
        proof {
            assert(out@.drop_last() =~= prev);
            assert(entries_dv(out@) == entries_dv(prev).push((out@.last().0@, out@.last().1.dv())));
            assert(entries_dv(out@) =~= orig + uda_entries(uda@).subrange(0, i as int + 1));
        }
        i += 1;
    }
    proof {
        assert(uda_entries(uda@).subrange(0, n as int) =~= uda_entries(uda@));
    }
}

/// Appends the head entries; a helper for `task_to_value`.
fn push_head(out: &mut Vec<(String, JsonValue)>, t: &Task)
    ensures
        entries_dv(final(out)@) == entries_dv(old(out)@) + encode_head(t@),
{
    broadcast use lemma_empty_add;

    let ghost orig = entries_dv(old(out)@);
    push_opt(
        out,
        "id",
        match t.id {
            Some(u) => Some(JsonValue::U64(u)),
            None => None,
        },
    );
    push_opt(out, "status", Some(JsonValue::Str(t.status.token().to_owned())));
    push_opt(out, "uuid", Some(JsonValue::Str(t.uuid.format())));
    push_opt(out, "entry", Some(JsonValue::Str(t.entry.format())));
    push_opt(out, "description", Some(JsonValue::Str(t.description.clone())));
    proof {
        assert(entries_dv(out@) =~= orig + encode_head(t@));
    }
}

/// Appends the first group of optional entries; a helper for
/// `task_to_value`.
fn push_opts1(out: &mut Vec<(String, JsonValue)>, t: &Task, legacy: bool)
    ensures
        entries_dv(final(out)@) == entries_dv(old(out)@) + encode_opts1(t@, legacy),
{
    let ghost orig = entries_dv(old(out)@);
    let ghost p1 = opt_entry(
        "annotations"@,
        match t@.annotations {
            Some(ans) => Some(jv_anns(ans)),
            None => None,
        },
    );
    let ghost p2 = opt_entry(
        "depends"@,
        match t@.depends {
            Some(us) => Some(jv_depends(us, legacy)),
            None => None,
        },
    );
    let ghost p3 = opt_entry(
        "due"@,
        match t@.due {
            Some(d) => Some(jv_date(d)),
            None => None,
        },
    );
    let ghost p4 = opt_entry(
        "end"@,
        match t@.end {
            Some(d) => Some(jv_date(d)),
            None => None,
        },
    );
    let ghost p5 = opt_entry(
        "imask"@,
        match t@.imask {
            Some(n) => Some(jv_num(n)),
            None => None,
        },
    );
    let ghost p6 = opt_entry(
        "mask"@,
        match t@.mask {
            Some(s) => Some(JsonV::Str(s)),
            None => None,
        },
    );
    let ghost p7 = opt_entry(
        "modified"@,
        match t@.modified {
            Some(d) => Some(jv_date(d)),
            None => None,
        },
    );
    let ghost p8 = opt_entry(
        "parent"@,
        match t@.parent {
            Some(u) => Some(jv_uuid(u)),
            None => None,
        },
    );
    push_opt(
        out,
        "annotations",
        match &t.annotations {
            Some(v) => Some(anns_json(v)),
            None => None,
        },
    );
    proof {
        assert(entries_dv(out@) == orig + p1);
    }
    push_opt(
        out,
        "depends",
        match &t.depends {
            Some(us) => Some(depends_json(us, legacy)),
            None => None,
        },
    );
    proof {
        lemma_add_assoc(orig, p1, p2);
        assert(entries_dv(out@) == orig + (p1 + p2));
    }
    push_opt(
        out,
        "due",
        match t.due {
            Some(d) => Some(JsonValue::Str(d.format())),
            None => None,
        },
    );
    proof {
        lemma_add_assoc(orig, p1 + p2, p3);
        assert(entries_dv(out@) == orig + (p1 + p2 + p3));
    }
    push_opt(
        out,
        "end",
        match t.end {
            Some(d) => Some(JsonValue::Str(d.format())),
            None => None,
        },
    );
    proof {
        lemma_add_assoc(orig, p1 + p2 + p3, p4);
        assert(entries_dv(out@) == orig + (p1 + p2 + p3 + p4));
    }
    push_opt(
        out,
        "imask",
        match &t.imask {
            Some(n) => Some(num_json(n)),
            None => None,
        },
    );
    proof {
        lemma_add_assoc(orig, p1 + p2 + p3 + p4, p5);
        assert(entries_dv(out@) == orig + (p1 + p2 + p3 + p4 + p5));
    }
    push_opt(
        out,
        "mask",
        match &t.mask {
            Some(s) => Some(JsonValue::Str(s.clone())),
            None => None,
        },
    );
    proof {
        lemma_add_assoc(orig, p1 + p2 + p3 + p4 + p5, p6);
        assert(entries_dv(out@) == orig + (p1 + p2 + p3 + p4 + p5 + p6));
    }
    push_opt(
        out,
        "modified",
        match t.modified {
            Some(d) => Some(JsonValue::Str(d.format())),
            None => None,
        },
    );
    proof {
        lemma_add_assoc(orig, p1 + p2 + p3 + p4 + p5 + p6, p7);
        assert(entries_dv(out@) == orig + (p1 + p2 + p3 + p4 + p5 + p6 + p7));
    }
    push_opt(
        out,
        "parent",
        match &t.parent {
            Some(u) => Some(JsonValue::Str(u.format())),
            None => None,
        },
    );
    proof {
        lemma_add_assoc(orig, p1 + p2 + p3 + p4 + p5 + p6 + p7, p8);
        assert(entries_dv(out@) == orig + (p1 + p2 + p3 + p4 + p5 + p6 + p7 + p8));
        assert(encode_opts1(t@, legacy) == p1 + p2 + p3 + p4 + p5 + p6 + p7 + p8);
    }
}

/// Appends the second group of optional entries; a helper for
/// `task_to_value`.
fn push_opts2(out: &mut Vec<(String, JsonValue)>, t: &Task)
    ensures
        entries_dv(final(out)@) == entries_dv(old(out)@) + encode_opts2(t@),
{
    let ghost orig = entries_dv(old(out)@);
    let ghost p1 = opt_entry(
        "priority"@,
        match t@.priority {
            Some(p) => Some(JsonV::Str(priority_token(p))),
            None => None,
        },
    );
    let ghost p2 = opt_entry(
        "project"@,
        match t@.project {
            Some(s) => Some(JsonV::Str(s)),
            None => None,
        },
    );
    let ghost p3 = opt_entry(
        "recur"@,
        match t@.recur {
            Some(s) => Some(JsonV::Str(s)),
            None => None,
        },
    );
    let ghost p4 = opt_entry(
        "scheduled"@,
        match t@.scheduled {
            Some(d) => Some(jv_date(d)),
            None => None,
        },
    );
    let ghost p5 = opt_entry(
        "start"@,
        match t@.start {
            Some(d) => Some(jv_date(d)),
            None => None,
        },
    );
    let ghost p6 = opt_entry(
        "tags"@,
        match t@.tags {
            Some(ts) => Some(jv_tags(ts)),
            None => None,
        },
    );
    let ghost p7 = opt_entry(
        "until"@,
        match t@.until {
            Some(d) => Some(jv_date(d)),
            None => None,
        },
    );
    let ghost p8 = opt_entry(
        "wait"@,
        match t@.wait {
            Some(d) => Some(jv_date(d)),
            None => None,
        },
    );
    let ghost p9 = opt_entry(
        "urgency"@,
        match t@.urgency {
            Some(n) => Some(jv_num(n)),
            None => None,
        },
    );
    push_opt(
        out,
        "priority",
        match &t.priority {
            Some(p) => Some(JsonValue::Str(p.token().to_owned())),
            None => None,
        },
    );
    proof {
        assert(entries_dv(out@) == orig + p1);
    }
    push_opt(
        out,
        "project",
        match &t.project {
            Some(s) => Some(JsonValue::Str(s.clone())),
            None => None,
        },
    );
    proof {
        lemma_add_assoc(orig, p1, p2);
        assert(entries_dv(out@) == orig + (p1 + p2));
    }
    push_opt(
        out,
        "recur",
        match &t.recur {
            Some(s) => Some(JsonValue::Str(s.clone())),
            None => None,
        },
    );
    proof {
        lemma_add_assoc(orig, p1 + p2, p3);
        assert(entries_dv(out@) == orig + (p1 + p2 + p3));
    }
    push_opt(
        out,
        "scheduled",
        match t.scheduled {
            Some(d) => Some(JsonValue::Str(d.format())),
            None => None,
        },
    );
    proof {
        lemma_add_assoc(orig, p1 + p2 + p3, p4);
        assert(entries_dv(out@) == orig + (p1 + p2 + p3 + p4));
    }
    push_opt(
        out,
        "start",
        match t.start {
            Some(d) => Some(JsonValue::Str(d.format())),
            None => None,
        },
    );
    proof {
        lemma_add_assoc(orig, p1 + p2 + p3 + p4, p5);
        assert(entries_dv(out@) == orig + (p1 + p2 + p3 + p4 + p5));
    }
    push_opt(
        out,
        "tags",
        match &t.tags {
            Some(ts) => Some(tags_json(ts)),
            None => None,
        },
    );
    proof {
        lemma_add_assoc(orig, p1 + p2 + p3 + p4 + p5, p6);
        assert(entries_dv(out@) == orig + (p1 + p2 + p3 + p4 + p5 + p6));
    }
    push_opt(
        out,
        "until",
        match t.until {
            Some(d) => Some(JsonValue::Str(d.format())),
            None => None,
        },
    );
    proof {
        lemma_add_assoc(orig, p1 + p2 + p3 + p4 + p5 + p6, p7);
        assert(entries_dv(out@) == orig + (p1 + p2 + p3 + p4 + p5 + p6 + p7));
    }
    push_opt(
        out,
        "wait",
        match t.wait {
            Some(d) => Some(JsonValue::Str(d.format())),
            None => None,
        },
    );
    proof {
        lemma_add_assoc(orig, p1 + p2 + p3 + p4 + p5 + p6 + p7, p8);
        assert(entries_dv(out@) == orig + (p1 + p2 + p3 + p4 + p5 + p6 + p7 + p8));
    }
    push_opt(
        out,
        "urgency",
        match &t.urgency {
            Some(n) => Some(num_json(n)),
            None => None,
        },
    );
    proof {
        lemma_add_assoc(orig, p1 + p2 + p3 + p4 + p5 + p6 + p7 + p8, p9);
        assert(entries_dv(out@) == orig + (p1 + p2 + p3 + p4 + p5 + p6 + p7 + p8 + p9));
        assert(encode_opts2(t@) == p1 + p2 + p3 + p4 + p5 + p6 + p7 + p8 + p9);
    }
}

/// Encodes a task as a JSON object value, under the given `depends` wire
/// format. This is the whole of the task codec's encode direction; the
/// contract pins the result to [`encode_value`] exactly.
pub fn task_to_value(t: &Task, legacy: bool) -> (r: JsonValue)
    ensures
        r.dv() == encode_value(t@, legacy),
{
    broadcast use lemma_empty_add;

    let mut out: Vec<(String, JsonValue)> = Vec::new();
    proof {
        assert(entries_dv(out@) =~= Seq::<(Seq<char>, JsonV)>::empty());
    }
    push_head(&mut out, t);
    push_opts1(&mut out, t, legacy);
    push_opts2(&mut out, t);
    push_uda(&mut out, &t.uda);
    proof {
        assert(entries_dv(out@) == encode_task(t@, legacy));
    }
    JsonValue::Obj(out)
}

/// Decodes a task from a parsed JSON value, which must be an object, under
/// the given `depends` wire format. This is the whole of the task codec's
/// decode direction: tests can drive it on values built by hand, and the
/// contract pins the result to [`decode_value`] exactly.
pub fn task_from_value(v: &JsonValue, legacy: bool) -> (r: Result<Task, TaskError>)
    ensures
        dec_result_view(r) == decode_value(v.dv(), legacy),
{
    let es = match v {
        JsonValue::Obj(es) => es,
        _ => {
            return Err(TaskError::NotAnObject);
        },
    };
    let ghost ds = entries_dv(es@);
    let id = match get_u64_field(es, "id") {
        Ok(x) => x,
        Err(e) => {
            return Err(e);
        },
    };
    let status_opt = match get_status_field(es) {
        Ok(x) => x,
        Err(e) => {
            return Err(e);
        },
    };
    let uuid_opt = match get_uuid_field(es, "uuid") {
        Ok(x) => x,
        Err(e) => {
            return Err(e);
        },
    };
    let entry_opt = match get_date_field(es, "entry") {
        Ok(x) => x,
        Err(e) => {
            return Err(e);
        },
    };
    let description_opt = match get_string_field(es, "description") {
        Ok(x) => x,
        Err(e) => {
            return Err(e);
        },
    };
    let annotations = match get_annotations_field(es) {
        Ok(x) => x,
        Err(e) => {
            return Err(e);
        },
    };
    let depends = match get_depends_field(es, legacy) {
        Ok(x) => x,
        Err(e) => {
            return Err(e);
        },
    };
    let due = match get_date_field(es, "due") {
        Ok(x) => x,
        Err(e) => {
            return Err(e);
        },
    };
    let end = match get_date_field(es, "end") {
        Ok(x) => x,
        Err(e) => {
            return Err(e);
        },
    };
    let imask = match get_num_field(es, "imask") {
        Ok(x) => x,
        Err(e) => {
            return Err(e);
        },
    };
    let mask = match get_string_field(es, "mask") {
        Ok(x) => x,
        Err(e) => {
            return Err(e);
        },
    };
    let modified = match get_date_field(es, "modified") {
        Ok(x) => x,
        Err(e) => {
            return Err(e);
        },
    };
    let parent = match get_uuid_field(es, "parent") {
        Ok(x) => x,
        Err(e) => {
            return Err(e);
        },
    };
    let priority = match get_priority_field(es) {
        Ok(x) => x,
        Err(e) => {
            return Err(e);
        },
    };
    let project = match get_string_field(es, "project") {
        Ok(x) => x,
        Err(e) => {
            return Err(e);
        },
    };
    let recur = match get_string_field(es, "recur") {
        Ok(x) => x,
        Err(e) => {
            return Err(e);
        },
    };
    let scheduled = match get_date_field(es, "scheduled") {
        Ok(x) => x,
        Err(e) => {
            return Err(e);
        },
    };
    let start = match get_date_field(es, "start") {
        Ok(x) => x,
        Err(e) => {
            return Err(e);
        },
    };
    let tags = match get_tags_field(es) {
        Ok(x) => x,
        Err(e) => {
            return Err(e);
        },
    };
    let until = match get_date_field(es, "until") {
        Ok(x) => x,
        Err(e) => {
            return Err(e);
        },
    };
    let wait = match get_date_field(es, "wait") {
        Ok(x) => x,
        Err(e) => {
            return Err(e);
        },
    };
    let urgency = match get_num_field(es, "urgency") {
        Ok(x) => x,
        Err(e) => {
            return Err(e);
        },
    };
    let uda = match collect_uda(es) {
        Ok(u) => u,
        Err(e) => {
            return Err(e);
        },
    };
    let status = match status_opt {
        Some(s) => s,
        None => {
            return Err(TaskError::MissingField("status".to_owned()));
        },
    };
    let uuid = match uuid_opt {
        Some(u) => u,
        None => {
            return Err(TaskError::MissingField("uuid".to_owned()));
        },
    };
    let entry = match entry_opt {
        Some(d) => d,
        None => {
            return Err(TaskError::MissingField("entry".to_owned()));
        },
    };
    let description = match description_opt {
        Some(s) => s,
        None => {
            return Err(TaskError::MissingField("description".to_owned()));
        },
    };
    Ok(
        Task::new(
            id,
            status,
            uuid,
            entry,
            description,
            annotations,
            depends,
            due,
            end,
            imask,
            mask,
            modified,
            parent,
            priority,
            project,
            recur,
            scheduled,
            start,
            tags,
            until,
            wait,
            urgency,
            uda,
        ),
    )
}

} // verus!
