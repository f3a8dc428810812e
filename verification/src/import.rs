//! Batch import and export entry points, layered on the task codec.
//!
//! Three wire shapes come in: a single JSON object, a JSON array of
//! objects (all-or-nothing), and newline-delimited objects (one result per
//! non-blank line, each independently succeeding or failing).

use vstd::prelude::*;

use crate::codec::{
    dec_result_view, decode_value, encode_value, task_from_value, task_to_value,
};
use crate::error::{TaskError, TaskErrorV};
use crate::json::{elems_dv, lemma_elems_dv, no_floats, parse_json, parse_of, print_json, print_of,
    printable, JsonV, JsonValue};
use crate::task::{Task, TaskV, TaskWarriorVersion};

verus! {

/// The views of a task list.
pub open spec fn tasks_view(v: Seq<Task>) -> Seq<TaskV> {
    Seq::new(v.len(), |i: int| v[i]@)
}

/// Decodes one task from wire text: parse, then decode the object.
pub open spec fn import_one_spec(s: Seq<char>, legacy: bool) -> Result<TaskV, TaskErrorV> {
    match parse_of(s) {
        None => Err(TaskErrorV::Syntax),
        Some(j) => decode_value(j, legacy),
    }
}

/// Decodes the array elements at or after `i`, failing on the first bad
/// element.
pub open spec fn decode_array_from(a: Seq<JsonV>, legacy: bool, i: int) -> Result<
    Seq<TaskV>,
    TaskErrorV,
>
    decreases a.len() - i,
{
    if i < 0 || i >= a.len() {
        Ok(Seq::empty())
    } else {
        match decode_value(a[i], legacy) {
            Err(e) => Err(e),
            Ok(t) => match decode_array_from(a, legacy, i + 1) {
                Err(e) => Err(e),
                Ok(rest) => Ok(seq![t] + rest),
            },
        }
    }
}

/// Decodes a whole task array from wire text: parse, require an array,
/// then decode every element, failing the whole call on the first bad one.
pub open spec fn import_array_spec(s: Seq<char>, legacy: bool) -> Result<Seq<TaskV>, TaskErrorV> {
    match parse_of(s) {
        None => Err(TaskErrorV::Syntax),
        Some(JsonV::Arr(a)) => decode_array_from(a, legacy, 0),
        Some(_) => Err(TaskErrorV::NotAnObject),
    }
}

/// The view of a batch decode result.
pub open spec fn batch_result_view(r: Result<Vec<Task>, TaskError>) -> Result<
    Seq<TaskV>,
    TaskErrorV,
> {
    match r {
        Ok(v) => Ok(tasks_view(v@)),
        Err(e) => Err(e@),
    }
}

/// Imports a single JSON-formatted task.
pub fn import_task<V: TaskWarriorVersion>(s: &str) -> (r: Result<Task, TaskError>)
    ensures
        dec_result_view(r) == import_one_spec(s@, V::legacy_depends()),
{
    match parse_json(s) {
        Err(_) => Err(TaskError::Syntax),
        Ok(v) => task_from_value(&v, V::is_legacy()),
    }
}

/// Imports a JSON array of tasks, as exported by the external tool. The
/// whole call fails on the first element that does not decode.
#[verifier::rlimit(100)]
pub fn import<V: TaskWarriorVersion>(s: &str) -> (r: Result<Vec<Task>, TaskError>)
    ensures
        batch_result_view(r) == import_array_spec(s@, V::legacy_depends()),
{
    let legacy = V::is_legacy();
    let parsed = match parse_json(s) {
        Err(_) => {
            return Err(TaskError::Syntax);
        },
        Ok(v) => v,
    };
    let ghost pd = parsed.dv();
    let a = match parsed {
        JsonValue::Arr(a) => {
            proof {
                assert(pd == JsonV::Arr(elems_dv(a@)));
            }
            a
        },
        _ => {
            proof {
                assert(!(pd is Arr));
            }
            return Err(TaskError::NotAnObject);
        },
    };
    proof {
        lemma_elems_dv(a@);
    }
    let ghost ds = elems_dv(a@);
    let n = a.len();
    let mut out: Vec<Task> = Vec::new();
    let mut i: usize = 0;
    proof {
        assert(tasks_view(out@) + decode_array_from(ds, legacy, 0)->Ok_0 =~= decode_array_from(
            ds,
            legacy,
            0,
        )->Ok_0);
    }
    while i < n
        invariant
            n == a@.len(),
            ds == elems_dv(a@),
            ds.len() == n,
            forall|j: int| 0 <= j < n ==> ds[j] == #[trigger] a@[j].dv(),
            0 <= i <= n,
            legacy == V::legacy_depends(),
            parse_of(s@) == Some(JsonV::Arr(ds)),
            match decode_array_from(ds, legacy, i as int) {
                Ok(rest) => decode_array_from(ds, legacy, 0) == Ok::<_, TaskErrorV>(
                    tasks_view(out@) + rest,
                ),
                Err(e) => decode_array_from(ds, legacy, 0) == Err::<Seq<TaskV>, _>(e),
            },
        decreases n - i,
    {
        proof {
            assert(ds[i as int] == a@[i as int].dv());
        }
        let ghost prev = out@;
        match task_from_value(&a[i], legacy) {
            Ok(t) => {
                out.push(t);
                proof {
                    assert(tasks_view(out@) =~= tasks_view(prev).push(out@.last()@));
                    match decode_array_from(ds, legacy, i as int + 1) {
                        Ok(rest) => {
                            assert(tasks_view(prev) + (seq![
                                decode_value(ds[i as int], legacy)->Ok_0,
                            ] + rest) =~= tasks_view(out@) + rest);
                        },
                        Err(_) => {
                        },
                    }
                }
            },
            Err(e) => {
                proof {
                    assert(decode_value(ds[i as int], legacy) == Err::<TaskV, _>(e@));
                    assert(decode_array_from(ds, legacy, i as int) == Err::<Seq<TaskV>, _>(e@));
                    assert(decode_array_from(ds, legacy, 0) == Err::<Seq<TaskV>, _>(e@));
                }
                return Err(e);
            },
        }
        i += 1;
    }
    proof {
        assert(decode_array_from(ds, legacy, n as int) == Ok::<_, TaskErrorV>(
            Seq::<TaskV>::empty(),
        ));
        assert(tasks_view(out@) + Seq::<TaskV>::empty() =~= tasks_view(out@));
    }
    Ok(out)
}

/// The index of the first newline at or after `i`, or the length when
/// there is none.
pub open spec fn newline_from(s: Seq<char>, i: int) -> int
    decreases s.len() - i,
{
    if i < 0 || i >= s.len() {
        s.len() as int
    } else if s[i] == '\n' {
        i
    } else {
        newline_from(s, i + 1)
    }
}

/// The first newline at or after `i` lies between `i` and the length.
pub proof fn lemma_newline_from_bounds(s: Seq<char>, i: int)
    requires
        0 <= i <= s.len(),
    ensures
        i <= newline_from(s, i) <= s.len(),
    decreases s.len() - i,
{
    if i < s.len() && s[i] != '\n' {
        lemma_newline_from_bounds(s, i + 1);
    }
}

/// A line with its trailing carriage return, if any, removed.
pub open spec fn strip_cr(l: Seq<char>) -> Seq<char> {
    if l.len() > 0 && l.last() == '\r' {
        l.drop_last()
    } else {
        l
    }
}

/// The non-blank lines of `s` from index `i` on: split at newlines, strip
/// a trailing carriage return from each line, and skip lines that are then
/// empty.
pub open spec fn nonblank_lines_from(s: Seq<char>, i: int) -> Seq<Seq<char>>
    decreases s.len() - i,
    when 0 <= i <= s.len()
    via nonblank_lines_from_decreases
{
    let j = newline_from(s, i);
    let l = strip_cr(s.subrange(i, j));
    let rest = if j == s.len() {
        Seq::<Seq<char>>::empty()
    } else {
        nonblank_lines_from(s, j + 1)
    };
    if l.len() == 0 {
        rest
    } else {
        seq![l] + rest
    }
}

#[via_fn]
proof fn nonblank_lines_from_decreases(s: Seq<char>, i: int) {
    lemma_newline_from_bounds(s, i);
}

/// The non-blank lines of `s`.
pub open spec fn nonblank_lines(s: Seq<char>) -> Seq<Seq<char>> {
    nonblank_lines_from(s, 0)
}

/// Finds the next newline of `s` at or after character `from`.
fn find_newline(s: &str, from: usize) -> (r: usize)
    requires
        from <= s@.len(),
    ensures
        r == newline_from(s@, from as int),
        from <= r <= s@.len(),
{
    proof {
        lemma_newline_from_bounds(s@, from as int);
    }
    let n = s.unicode_len();
    let mut i: usize = from;
    while i < n
        invariant
            n == s@.len(),
            from <= i <= n,
            newline_from(s@, from as int) == newline_from(s@, i as int),
        decreases n - i,
    {
        if s.get_char(i) == '\n' {
            return i;
        }
        i += 1;
    }
    i
}

/// Imports newline-delimited tasks: one result per non-blank line, in
/// input order. A bad line yields an error in its own slot and does not
/// abort the batch; blank lines are silently skipped and get no slot.
pub fn import_tasks<V: TaskWarriorVersion>(text: &str) -> (r: Vec<Result<Task, TaskError>>)
    ensures
        r@.len() == nonblank_lines(text@).len(),
        forall|i: int|
            0 <= i < r@.len() ==> dec_result_view(#[trigger] r@[i]) == import_one_spec(
                nonblank_lines(text@)[i],
                V::legacy_depends(),
            ),
{
    let n = text.unicode_len();
    let mut out: Vec<Result<Task, TaskError>> = Vec::new();
    let mut start: usize = 0;
    let ghost lines = nonblank_lines(text@);
    proof {
        assert(Seq::<Seq<char>>::empty() + nonblank_lines_from(text@, 0) =~= nonblank_lines_from(
            text@,
            0,
        ));
    }
    let ghost done = Seq::<Seq<char>>::empty();
    loop
        invariant
            n == text@.len(),
            0 <= start <= n,
            lines == nonblank_lines(text@),
            lines == done + nonblank_lines_from(text@, start as int),
            out@.len() == done.len(),
            forall|i: int|
                0 <= i < out@.len() ==> dec_result_view(#[trigger] out@[i]) == import_one_spec(
                    done[i],
                    V::legacy_depends(),
                ),
        decreases n - start,
    {
        let j = find_newline(text, start);
        let mut line = text.substring_char(start, j);
        proof {
            lemma_newline_from_bounds(text@, start as int);
        }
        let ll = line.unicode_len();
        if ll > 0 && line.get_char(ll - 1) == '\r' {
            line = line.substring_char(0, ll - 1);
            proof {
                assert(line@ =~= strip_cr(text@.subrange(start as int, j as int)));
            }
        } else {
            proof {
                assert(line@ =~= strip_cr(text@.subrange(start as int, j as int)));
            }
        }
        let ghost l = strip_cr(text@.subrange(start as int, j as int));
        if line.unicode_len() > 0 {
            let res = crate::import::import_task::<V>(line);
            out.push(res);
            proof {
                assert(nonblank_lines_from(text@, start as int) == seq![l] + (if j == n {
                    Seq::<Seq<char>>::empty()
                } else {
                    nonblank_lines_from(text@, j + 1)
                }));
            }
        } else {
            proof {
                assert(nonblank_lines_from(text@, start as int) == (if j == n {
                    Seq::<Seq<char>>::empty()
                } else {
                    nonblank_lines_from(text@, j + 1)
                }));
            }
        }
        let ghost done2 = if l.len() == 0 {
            done
        } else {
            done.push(l)
        };
        proof {
            if l.len() > 0 {
                assert(done + (seq![l] + (if j == n {
                    Seq::<Seq<char>>::empty()
                } else {
                    nonblank_lines_from(text@, j + 1)
                })) =~= done2 + (if j == n {
                    Seq::<Seq<char>>::empty()
                } else {
                    nonblank_lines_from(text@, j + 1)
                }));
            }
        }
        proof {
            done = done2;
        }
        if j == n {
            proof {
                assert(done + Seq::<Seq<char>>::empty() =~= done);
            }
            return out;
        }
        start = j + 1;
    }
}

/// Exports one task as JSON wire text, under the version's `depends`
/// format. Fails — with a serialize error — exactly when some carried
/// float text names no finite JSON number; a task carrying no float
/// always exports.
pub fn export_task<V: TaskWarriorVersion>(t: &Task) -> (r: Result<String, TaskError>)
    ensures
        r is Ok <==> printable(encode_value(t@, V::legacy_depends())),
        r matches Ok(s) ==> s@ == print_of(encode_value(t@, V::legacy_depends())),
        r matches Err(e) ==> e@ == TaskErrorV::Serialize,
        no_floats(encode_value(t@, V::legacy_depends())) ==> r is Ok,
{
    let v = task_to_value(t, V::is_legacy());
    match print_json(&v) {
        Some(s) => Ok(s),
        None => Err(TaskError::Serialize),
    }
}

/// The JSON array value of a task list.
pub open spec fn export_value(ts: Seq<TaskV>, legacy: bool) -> JsonV {
    JsonV::Arr(Seq::new(ts.len(), |i: int| encode_value(ts[i], legacy)))
}

/// Exports a task list as one JSON array, the shape the external tool's
/// import expects. Fails — with a serialize error — exactly when some
/// carried float text names no finite JSON number.
pub fn export<V: TaskWarriorVersion>(tasks: &Vec<Task>) -> (r: Result<String, TaskError>)
    ensures
        r is Ok <==> printable(export_value(tasks_view(tasks@), V::legacy_depends())),
        r matches Ok(s) ==> s@ == print_of(export_value(tasks_view(tasks@), V::legacy_depends())),
        r matches Err(e) ==> e@ == TaskErrorV::Serialize,
{
    let legacy = V::is_legacy();
    let n = tasks.len();
    let mut arr: Vec<JsonValue> = Vec::new();
    let mut i: usize = 0;
    while i < n
        invariant
            n == tasks@.len(),
            0 <= i <= n,
            arr@.len() == i,
            legacy == V::legacy_depends(),
            elems_dv(arr@) == Seq::new(i as nat, |j: int| encode_value(tasks@[j]@, legacy)),
        decreases n - i,
    {
        let ghost prev = arr@;
        let v = task_to_value(&tasks[i], legacy);
        arr.push(v);
        proof {
            assert(arr@.drop_last() =~= prev);
            assert(elems_dv(arr@) == elems_dv(prev).push(arr@.last().dv()));
            assert(elems_dv(arr@) =~= Seq::new(
                (i + 1) as nat,
                |j: int| encode_value(tasks@[j]@, legacy),
            ));
        }
        i += 1;
    }
    let whole = JsonValue::Arr(arr);
    proof {
        assert(elems_dv(arr@) =~= Seq::new(
            tasks_view(tasks@).len(),
            |j: int| encode_value(tasks_view(tasks@)[j], legacy),
        ));
        assert(whole.dv() == export_value(tasks_view(tasks@), legacy));
    }
    match print_json(&whole) {
        Some(s) => Ok(s),
        None => Err(TaskError::Serialize),
    }
}

} // verus!
