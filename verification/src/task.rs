//! The `Task` record, its builder, and the wire-format version markers.
//!
//! A task must have a status, a UUID, an entry date and a description; all
//! other fields are optional, and any JSON key outside the fixed schema is
//! carried in the task's UDA map.

use vstd::prelude::*;

use crate::annotation::{Annotation, AnnotationV};
use crate::date::Date;
use crate::error::{TaskError, TaskErrorV};
use crate::json::{Num, NumV};
use crate::priority::TaskPriority;
use crate::project::Project;
use crate::status::TaskStatus;
use crate::tag::Tag;
use crate::uda::{UDAV, UDA};
use crate::uuid::Uuid;

verus! {

/// Marker for the current wire format: `depends` is a JSON array of UUID
/// strings.
#[derive(Clone, Copy, Debug)]
pub struct TW26;

/// Marker for the legacy wire format: `depends` is one comma-joined string
/// of UUIDs.
#[derive(Clone, Copy, Debug)]
pub struct TW25;

/// Supertrait that keeps the set of version markers closed within this
/// crate's intent.
pub trait Sealed {

}

impl Sealed for TW26 {

}

impl Sealed for TW25 {

}

/// A wire-format version marker, selecting how the `depends` field is
/// encoded.
pub trait TaskWarriorVersion: Sealed {
    /// Whether `depends` uses the legacy comma-joined string form.
    spec fn legacy_depends() -> bool;

    /// Whether `depends` uses the legacy comma-joined string form.
    fn is_legacy() -> (b: bool)
        ensures
            b == Self::legacy_depends(),
    ;
}

impl TaskWarriorVersion for TW26 {
    open spec fn legacy_depends() -> bool {
        false
    }

    fn is_legacy() -> bool {
        false
    }
}

impl TaskWarriorVersion for TW25 {
    open spec fn legacy_depends() -> bool {
        true
    }

    fn is_legacy() -> bool {
        true
    }
}

/// The views of a sequence of annotations.
pub open spec fn anns_view(v: Seq<Annotation>) -> Seq<AnnotationV> {
    Seq::new(v.len(), |i: int| v[i]@)
}

/// The views of a sequence of strings.
pub open spec fn strs_view(v: Seq<String>) -> Seq<Seq<char>> {
    Seq::new(v.len(), |i: int| v[i]@)
}

/// The view of an optional annotation list.
pub open spec fn opt_anns_view(v: Option<Vec<Annotation>>) -> Option<Seq<AnnotationV>> {
    match v {
        Some(x) => Some(anns_view(x@)),
        None => None,
    }
}

/// The view of an optional UUID list.
pub open spec fn opt_uuids_view(v: Option<Vec<Uuid>>) -> Option<Seq<Uuid>> {
    match v {
        Some(x) => Some(x@),
        None => None,
    }
}

/// The view of an optional string list.
pub open spec fn opt_strs_view(v: Option<Vec<String>>) -> Option<Seq<Seq<char>>> {
    match v {
        Some(x) => Some(strs_view(x@)),
        None => None,
    }
}

/// The view of an optional string.
pub open spec fn opt_str_view(v: Option<String>) -> Option<Seq<char>> {
    match v {
        Some(x) => Some(x@),
        None => None,
    }
}

/// The view of an optional number.
pub open spec fn opt_num_view(v: Option<Num>) -> Option<NumV> {
    match v {
        Some(x) => Some(x@),
        None => None,
    }
}

/// A task record.
///
/// `status`, `uuid`, `entry` and `description` are required; every other
/// field is optional, and absent means "not serialized", never `null`.
/// `uda` carries every wire key outside the fixed schema.
#[derive(Clone, Debug, PartialEq)]
pub struct Task {
    /// The transient numeric handle the external tool assigns; not
    /// identity.
    pub id: Option<u64>,
    /// The status of the task.
    pub status: TaskStatus,
    /// The stable identity of the task.
    pub uuid: Uuid,
    /// When the task was created.
    pub entry: Date,
    /// The description: the task's main content.
    pub description: String,
    /// Annotations, in wire order.
    pub annotations: Option<Vec<Annotation>>,
    /// UUIDs of tasks that must complete before this one unblocks.
    pub depends: Option<Vec<Uuid>>,
    /// The due date.
    pub due: Option<Date>,
    /// When the task was last deleted or completed.
    pub end: Option<Date>,
    /// Recurrence-internal index mask, carried opaquely.
    pub imask: Option<Num>,
    /// Recurrence-internal mask, carried opaquely.
    pub mask: Option<String>,
    /// When the task was last modified.
    pub modified: Option<Date>,
    /// The parent of a recurring task.
    pub parent: Option<Uuid>,
    /// The priority.
    pub priority: Option<TaskPriority>,
    /// The project, a dot-hierarchical name carried opaquely.
    pub project: Option<Project>,
    /// The recurrence period expression, carried opaquely.
    pub recur: Option<String>,
    /// When the task becomes ready.
    pub scheduled: Option<Date>,
    /// When the task became active.
    pub start: Option<Date>,
    /// The tags.
    pub tags: Option<Vec<Tag>>,
    /// When the recurrence stops.
    pub until: Option<Date>,
    /// The task is hidden until this date.
    pub wait: Option<Date>,
    /// The computed urgency score, carried opaquely.
    pub urgency: Option<Num>,
    /// User-defined attributes: every wire key outside the fixed schema.
    pub uda: UDA,
}

/// The mathematical shape of a [`Task`].
#[verifier::ext_equal]
pub ghost struct TaskV {
    /// The transient numeric handle.
    pub id: Option<u64>,
    /// The status.
    pub status: TaskStatus,
    /// The stable identity.
    pub uuid: Uuid,
    /// When the task was created.
    pub entry: Date,
    /// The description.
    pub description: Seq<char>,
    /// Annotations, in wire order.
    pub annotations: Option<Seq<AnnotationV>>,
    /// Dependency edges.
    pub depends: Option<Seq<Uuid>>,
    /// The due date.
    pub due: Option<Date>,
    /// When the task was last deleted or completed.
    pub end: Option<Date>,
    /// Recurrence-internal index mask.
    pub imask: Option<NumV>,
    /// Recurrence-internal mask.
    pub mask: Option<Seq<char>>,
    /// When the task was last modified.
    pub modified: Option<Date>,
    /// The parent of a recurring task.
    pub parent: Option<Uuid>,
    /// The priority.
    pub priority: Option<TaskPriority>,
    /// The project.
    pub project: Option<Seq<char>>,
    /// The recurrence period expression.
    pub recur: Option<Seq<char>>,
    /// When the task becomes ready.
    pub scheduled: Option<Date>,
    /// When the task became active.
    pub start: Option<Date>,
    /// The tags.
    pub tags: Option<Seq<Seq<char>>>,
    /// When the recurrence stops.
    pub until: Option<Date>,
    /// The task is hidden until this date.
    pub wait: Option<Date>,
    /// The computed urgency score.
    pub urgency: Option<NumV>,
    /// User-defined attributes, key-sorted.
    pub uda: Seq<(Seq<char>, UDAV)>,
}

impl View for Task {
    type V = TaskV;

    open spec fn view(&self) -> TaskV {
        TaskV {
            id: self.id,
            status: self.status,
            uuid: self.uuid,
            entry: self.entry,
            description: self.description@,
            annotations: opt_anns_view(self.annotations),
            depends: opt_uuids_view(self.depends),
            due: self.due,
            end: self.end,
            imask: opt_num_view(self.imask),
            mask: opt_str_view(self.mask),
            modified: self.modified,
            parent: self.parent,
            priority: self.priority,
            project: opt_str_view(self.project),
            recur: opt_str_view(self.recur),
            scheduled: self.scheduled,
            start: self.start,
            tags: opt_strs_view(self.tags),
            until: self.until,
            wait: self.wait,
            urgency: opt_num_view(self.urgency),
            uda: self.uda@,
        }
    }
}

impl Task {
    /// Creates a task from all of its parts.
    #[allow(clippy::too_many_arguments)]
    pub fn new(
        id: Option<u64>,
        status: TaskStatus,
        uuid: Uuid,
        entry: Date,
        description: String,
        annotations: Option<Vec<Annotation>>,
        depends: Option<Vec<Uuid>>,
        due: Option<Date>,
        end: Option<Date>,
        imask: Option<Num>,
        mask: Option<String>,
        modified: Option<Date>,
        parent: Option<Uuid>,
        priority: Option<TaskPriority>,
        project: Option<Project>,
        recur: Option<String>,
        scheduled: Option<Date>,
        start: Option<Date>,
        tags: Option<Vec<Tag>>,
        until: Option<Date>,
        wait: Option<Date>,
        urgency: Option<Num>,
        uda: UDA,
    ) -> (r: Task)
        ensures
            r@ == (TaskV {
                id,
                status,
                uuid,
                entry,
                description: description@,
                annotations: opt_anns_view(annotations),
                depends: opt_uuids_view(depends),
                due,
                end,
                imask: opt_num_view(imask),
                mask: opt_str_view(mask),
                modified,
                parent,
                priority,
                project: opt_str_view(project),
                recur: opt_str_view(recur),
                scheduled,
                start,
                tags: opt_strs_view(tags),
                until,
                wait,
                urgency: opt_num_view(urgency),
                uda: uda@,
            }),
    {
        Task {
            id,
            status,
            uuid,
            entry,
            description,
            annotations,
            depends,
            due,
            end,
            imask,
            mask,
            modified,
            parent,
            priority,
            project,
            recur,
            scheduled,
            start,
            tags,
            until,
            wait,
            urgency,
            uda,
        }
    }

    /// The transient numeric handle.
    pub fn id(&self) -> (r: Option<u64>)
        ensures
            r == self@.id,
    {
        self.id
    }

    /// The status.
    pub fn status(&self) -> (r: &TaskStatus)
        ensures
            *r == self@.status,
    {
        &self.status
    }

    /// Replaces the status.
    pub fn set_status(&mut self, new: TaskStatus)
        ensures
            final(self)@ == (TaskV { status: new, ..old(self)@ }),
    {
        self.status = new;
    }

    /// The stable identity.
    pub fn uuid(&self) -> (r: &Uuid)
        ensures
            *r == self@.uuid,
    {
        &self.uuid
    }

    /// Replaces the UUID.
    pub fn set_uuid(&mut self, new: Uuid)
        ensures
            final(self)@ == (TaskV { uuid: new, ..old(self)@ }),
    {
        self.uuid = new;
    }

    /// The entry date.
    pub fn entry(&self) -> (r: &Date)
        ensures
            *r == self@.entry,
    {
        &self.entry
    }

    /// Replaces the entry date.
    pub fn set_entry(&mut self, new: Date)
        ensures
            final(self)@ == (TaskV { entry: new, ..old(self)@ }),
    {
        self.entry = new;
    }

    /// The description.
    pub fn description(&self) -> (r: &String)
        ensures
            r@ == self@.description,
    {
        &self.description
    }

    /// Replaces the description.
    pub fn set_description(&mut self, new: String)
        ensures
            final(self)@ == (TaskV { description: new@, ..old(self)@ }),
    {
        self.description = new;
    }

    /// The annotations.
    pub fn annotations(&self) -> (r: Option<&Vec<Annotation>>)
        ensures
            match r {
                Some(v) => self@.annotations == Some(anns_view(v@)),
                None => self@.annotations is None,
            },
    {
        self.annotations.as_ref()
    }

    /// Replaces the annotations.
    pub fn set_annotations(&mut self, new: Option<Vec<Annotation>>)
        ensures
            final(self)@ == (TaskV { annotations: opt_anns_view(new), ..old(self)@ }),
    {
        self.annotations = new;
    }

    /// The dependency edges.
    pub fn depends(&self) -> (r: Option<&Vec<Uuid>>)
        ensures
            match r {
                Some(v) => self@.depends == Some(v@),
                None => self@.depends is None,
            },
    {
        self.depends.as_ref()
    }

    /// Replaces the dependency edges.
    pub fn set_depends(&mut self, new: Option<Vec<Uuid>>)
        ensures
            final(self)@ == (TaskV { depends: opt_uuids_view(new), ..old(self)@ }),
    {
        self.depends = new;
    }

    /// The due date.
    pub fn due(&self) -> (r: Option<&Date>)
        ensures
            match r {
                Some(d) => self@.due == Some(*d),
                None => self@.due is None,
            },
    {
        self.due.as_ref()
    }

    /// Replaces the due date.
    pub fn set_due(&mut self, new: Option<Date>)
        ensures
            final(self)@ == (TaskV { due: new, ..old(self)@ }),
    {
        self.due = new;
    }

    /// When the task was last deleted or completed.
    pub fn end(&self) -> (r: Option<&Date>)
        ensures
            match r {
                Some(d) => self@.end == Some(*d),
                None => self@.end is None,
            },
    {
        self.end.as_ref()
    }

    /// Replaces the end date.
    pub fn set_end(&mut self, new: Option<Date>)
        ensures
            final(self)@ == (TaskV { end: new, ..old(self)@ }),
    {
        self.end = new;
    }

    /// The recurrence-internal index mask.
    pub fn imask(&self) -> (r: Option<&Num>)
        ensures
            match r {
                Some(n) => self@.imask == Some(n@),
                None => self@.imask is None,
            },
    {
        self.imask.as_ref()
    }

    /// Replaces the recurrence-internal index mask.
    pub fn set_imask(&mut self, new: Option<Num>)
        ensures
            final(self)@ == (TaskV { imask: opt_num_view(new), ..old(self)@ }),
    {
        self.imask = new;
    }

    /// The recurrence-internal mask.
    pub fn mask(&self) -> (r: Option<&String>)
        ensures
            match r {
                Some(s) => self@.mask == Some(s@),
                None => self@.mask is None,
            },
    {
        self.mask.as_ref()
    }

    /// Replaces the recurrence-internal mask.
    pub fn set_mask(&mut self, new: Option<String>)
        ensures
            final(self)@ == (TaskV { mask: opt_str_view(new), ..old(self)@ }),
    {
        self.mask = new;
    }

    /// When the task was last modified.
    pub fn modified(&self) -> (r: Option<&Date>)
        ensures
            match r {
                Some(d) => self@.modified == Some(*d),
                None => self@.modified is None,
            },
    {
        self.modified.as_ref()
    }

    /// Replaces the modification date.
    pub fn set_modified(&mut self, new: Option<Date>)
        ensures
            final(self)@ == (TaskV { modified: new, ..old(self)@ }),
    {
        self.modified = new;
    }

    /// The parent of a recurring task.
    pub fn parent(&self) -> (r: Option<&Uuid>)
        ensures
            match r {
                Some(u) => self@.parent == Some(*u),
                None => self@.parent is None,
            },
    {
        self.parent.as_ref()
    }

    /// Replaces the recurrence template back-reference.
    pub fn set_parent(&mut self, new: Option<Uuid>)
        ensures
            final(self)@ == (TaskV { parent: new, ..old(self)@ }),
    {
        self.parent = new;
    }

    /// The priority.
    pub fn priority(&self) -> (r: Option<&TaskPriority>)
        ensures
            match r {
                Some(p) => self@.priority == Some(*p),
                None => self@.priority is None,
            },
    {
        self.priority.as_ref()
    }

    /// Replaces the priority.
    pub fn set_priority(&mut self, new: Option<TaskPriority>)
        ensures
            final(self)@ == (TaskV { priority: new, ..old(self)@ }),
    {
        self.priority = new;
    }

    /// The project.
    pub fn project(&self) -> (r: Option<&Project>)
        ensures
            match r {
                Some(s) => self@.project == Some(s@),
                None => self@.project is None,
            },
    {
        self.project.as_ref()
    }

    /// Replaces the project.
    pub fn set_project(&mut self, new: Option<Project>)
        ensures
            final(self)@ == (TaskV { project: opt_str_view(new), ..old(self)@ }),
    {
        self.project = new;
    }

    /// The recurrence period expression.
    pub fn recur(&self) -> (r: Option<&String>)
        ensures
            match r {
                Some(s) => self@.recur == Some(s@),
                None => self@.recur is None,
            },
    {
        self.recur.as_ref()
    }

    /// Replaces the recurrence period expression.
    pub fn set_recur(&mut self, new: Option<String>)
        ensures
            final(self)@ == (TaskV { recur: opt_str_view(new), ..old(self)@ }),
    {
        self.recur = new;
    }

    /// When the task becomes ready.
    pub fn scheduled(&self) -> (r: Option<&Date>)
        ensures
            match r {
                Some(d) => self@.scheduled == Some(*d),
                None => self@.scheduled is None,
            },
    {
        self.scheduled.as_ref()
    }

    /// Replaces the scheduled date.
    pub fn set_scheduled(&mut self, new: Option<Date>)
        ensures
            final(self)@ == (TaskV { scheduled: new, ..old(self)@ }),
    {
        self.scheduled = new;
    }

    /// When the task became active.
    pub fn start(&self) -> (r: Option<&Date>)
        ensures
            match r {
                Some(d) => self@.start == Some(*d),
                None => self@.start is None,
            },
    {
        self.start.as_ref()
    }

    /// Replaces the start date.
    pub fn set_start(&mut self, new: Option<Date>)
        ensures
            final(self)@ == (TaskV { start: new, ..old(self)@ }),
    {
        self.start = new;
    }

    /// The tags.
    pub fn tags(&self) -> (r: Option<&Vec<Tag>>)
        ensures
            match r {
                Some(v) => self@.tags == Some(strs_view(v@)),
                None => self@.tags is None,
            },
    {
        self.tags.as_ref()
    }

    /// Replaces the tags.
    pub fn set_tags(&mut self, new: Option<Vec<Tag>>)
        ensures
            final(self)@ == (TaskV { tags: opt_strs_view(new), ..old(self)@ }),
    {
        self.tags = new;
    }

    /// When the recurrence stops.
    pub fn until(&self) -> (r: Option<&Date>)
        ensures
            match r {
                Some(d) => self@.until == Some(*d),
                None => self@.until is None,
            },
    {
        self.until.as_ref()
    }

    /// Replaces the until date.
    pub fn set_until(&mut self, new: Option<Date>)
        ensures
            final(self)@ == (TaskV { until: new, ..old(self)@ }),
    {
        self.until = new;
    }

    /// The wait date.
    pub fn wait(&self) -> (r: Option<&Date>)
        ensures
            match r {
                Some(d) => self@.wait == Some(*d),
                None => self@.wait is None,
            },
    {
        self.wait.as_ref()
    }

    /// Replaces the wait date.
    pub fn set_wait(&mut self, new: Option<Date>)
        ensures
            final(self)@ == (TaskV { wait: new, ..old(self)@ }),
    {
        self.wait = new;
    }

    /// The computed urgency score.
    pub fn urgency(&self) -> (r: Option<&Num>)
        ensures
            match r {
                Some(n) => self@.urgency == Some(n@),
                None => self@.urgency is None,
            },
    {
        self.urgency.as_ref()
    }

    /// Replaces the urgency score.
    pub fn set_urgency(&mut self, new: Option<Num>)
        ensures
            final(self)@ == (TaskV { urgency: opt_num_view(new), ..old(self)@ }),
    {
        self.urgency = new;
    }

    /// The user-defined attributes.
    pub fn uda(&self) -> (r: &UDA)
        ensures
            r@ == self@.uda,
    {
        &self.uda
    }

    /// Replaces the user-defined attributes.
    pub fn set_uda(&mut self, new: UDA)
        ensures
            final(self)@ == (TaskV { uda: new@, ..old(self)@ }),
    {
        self.uda = new;
    }
}

/// Builds a [`Task`] piece by piece. `description` is the only field
/// without a default: `status` defaults to pending, `uuid` to a fresh
/// random identifier, `entry` to the current time, and everything else to
/// absent.
pub struct TaskBuilder<V> {
    /// The transient numeric handle.
    pub id: Option<u64>,
    /// The status; pending when unset.
    pub status: Option<TaskStatus>,
    /// The identity; freshly generated when unset.
    pub uuid: Option<Uuid>,
    /// The entry date; the current time when unset.
    pub entry: Option<Date>,
    /// The description; `build` fails without it.
    pub description: Option<String>,
    /// The annotations.
    pub annotations: Option<Vec<Annotation>>,
    /// The dependency edges.
    pub depends: Option<Vec<Uuid>>,
    /// The due date.
    pub due: Option<Date>,
    /// The end date.
    pub end: Option<Date>,
    /// The recurrence-internal index mask.
    pub imask: Option<Num>,
    /// The recurrence-internal mask.
    pub mask: Option<String>,
    /// The modification date.
    pub modified: Option<Date>,
    /// The parent of a recurring task.
    pub parent: Option<Uuid>,
    /// The priority.
    pub priority: Option<TaskPriority>,
    /// The project.
    pub project: Option<Project>,
    /// The recurrence period expression.
    pub recur: Option<String>,
    /// The scheduled date.
    pub scheduled: Option<Date>,
    /// The start date.
    pub start: Option<Date>,
    /// The tags.
    pub tags: Option<Vec<Tag>>,
    /// The until date.
    pub until: Option<Date>,
    /// The wait date.
    pub wait: Option<Date>,
    /// The urgency score.
    pub urgency: Option<Num>,
    /// The user-defined attributes; empty when unset.
    pub uda: Option<UDA>,
    /// The wire-format version marker.
    pub version: Option<V>,
}

impl<V> Default for TaskBuilder<V> {
    /// An empty builder: nothing set.
    fn default() -> (r: Self)
        ensures
            r.id is None,
            r.status is None,
            r.uuid is None,
            r.entry is None,
            r.description is None,
            r.annotations is None,
            r.depends is None,
            r.due is None,
            r.end is None,
            r.imask is None,
            r.mask is None,
            r.modified is None,
            r.parent is None,
            r.priority is None,
            r.project is None,
            r.recur is None,
            r.scheduled is None,
            r.start is None,
            r.tags is None,
            r.until is None,
            r.wait is None,
            r.urgency is None,
            r.uda is None,
            r.version is None,
    {
        TaskBuilder {
            id: None,
            status: None,
            uuid: None,
            entry: None,
            description: None,
            annotations: None,
            depends: None,
            due: None,
            end: None,
            imask: None,
            mask: None,
            modified: None,
            parent: None,
            priority: None,
            project: None,
            recur: None,
            scheduled: None,
            start: None,
            tags: None,
            until: None,
            wait: None,
            urgency: None,
            uda: None,
            version: None,
        }
    }
}

impl<V> TaskBuilder<V> {
    /// Sets the transient numeric handle.
    pub fn id(self, v: u64) -> (r: Self)
        ensures
            r == (TaskBuilder { id: Some(v), ..self }),
    {
        TaskBuilder { id: Some(v), ..self }
    }

    /// Sets the status.
    pub fn status(self, v: TaskStatus) -> (r: Self)
        ensures
            r == (TaskBuilder { status: Some(v), ..self }),
    {
        TaskBuilder { status: Some(v), ..self }
    }

    /// Sets the UUID.
    pub fn uuid(self, v: Uuid) -> (r: Self)
        ensures
            r == (TaskBuilder { uuid: Some(v), ..self }),
    {
        TaskBuilder { uuid: Some(v), ..self }
    }

    /// Sets the entry date.
    pub fn entry(self, v: Date) -> (r: Self)
        ensures
            r == (TaskBuilder { entry: Some(v), ..self }),
    {
        TaskBuilder { entry: Some(v), ..self }
    }

    /// Sets the description.
    pub fn description(self, v: &str) -> (r: Self)
        ensures
            r.description matches Some(d) && d@ == v@,
            r.id == self.id,
            r.status == self.status,
            r.uuid == self.uuid,
            r.entry == self.entry,
            r.annotations == self.annotations,
            r.depends == self.depends,
            r.due == self.due,
            r.end == self.end,
            r.imask == self.imask,
            r.mask == self.mask,
            r.modified == self.modified,
            r.parent == self.parent,
            r.priority == self.priority,
            r.project == self.project,
            r.recur == self.recur,
            r.scheduled == self.scheduled,
            r.start == self.start,
            r.tags == self.tags,
            r.until == self.until,
            r.wait == self.wait,
            r.urgency == self.urgency,
            r.uda == self.uda,
            r.version == self.version,
    {
        TaskBuilder { description: Some(v.to_owned()), ..self }
    }

    /// Sets the annotations.
    pub fn annotations(self, v: Vec<Annotation>) -> (r: Self)
        ensures
            r == (TaskBuilder { annotations: Some(v), ..self }),
    {
        TaskBuilder { annotations: Some(v), ..self }
    }

    /// Sets the dependency edges.
    pub fn depends(self, v: Vec<Uuid>) -> (r: Self)
        ensures
            r == (TaskBuilder { depends: Some(v), ..self }),
    {
        TaskBuilder { depends: Some(v), ..self }
    }

    /// Sets the due date.
    pub fn due(self, v: Date) -> (r: Self)
        ensures
            r == (TaskBuilder { due: Some(v), ..self }),
    {
        TaskBuilder { due: Some(v), ..self }
    }

    /// Sets the end date.
    pub fn end(self, v: Date) -> (r: Self)
        ensures
            r == (TaskBuilder { end: Some(v), ..self }),
    {
        TaskBuilder { end: Some(v), ..self }
    }

    /// Sets the recurrence-internal index mask.
    pub fn imask(self, v: Num) -> (r: Self)
        ensures
            r == (TaskBuilder { imask: Some(v), ..self }),
    {
        TaskBuilder { imask: Some(v), ..self }
    }

    /// Sets the recurrence-internal mask.
    pub fn mask(self, v: String) -> (r: Self)
        ensures
            r == (TaskBuilder { mask: Some(v), ..self }),
    {
        TaskBuilder { mask: Some(v), ..self }
    }

    /// Sets the modification date.
    pub fn modified(self, v: Date) -> (r: Self)
        ensures
            r == (TaskBuilder { modified: Some(v), ..self }),
    {
        TaskBuilder { modified: Some(v), ..self }
    }

    /// Sets the recurrence template back-reference.
    pub fn parent(self, v: Uuid) -> (r: Self)
        ensures
            r == (TaskBuilder { parent: Some(v), ..self }),
    {
        TaskBuilder { parent: Some(v), ..self }
    }

    /// Sets the priority.
    pub fn priority(self, v: TaskPriority) -> (r: Self)
        ensures
            r == (TaskBuilder { priority: Some(v), ..self }),
    {
        TaskBuilder { priority: Some(v), ..self }
    }

    /// Sets the project.
    pub fn project(self, v: Project) -> (r: Self)
        ensures
            r == (TaskBuilder { project: Some(v), ..self }),
    {
        TaskBuilder { project: Some(v), ..self }
    }

    /// Sets the recurrence period expression.
    pub fn recur(self, v: String) -> (r: Self)
        ensures
            r == (TaskBuilder { recur: Some(v), ..self }),
    {
        TaskBuilder { recur: Some(v), ..self }
    }

    /// Sets the scheduled date.
    pub fn scheduled(self, v: Date) -> (r: Self)
        ensures
            r == (TaskBuilder { scheduled: Some(v), ..self }),
    {
        TaskBuilder { scheduled: Some(v), ..self }
    }

    /// Sets the start date.
    pub fn start(self, v: Date) -> (r: Self)
        ensures
            r == (TaskBuilder { start: Some(v), ..self }),
    {
        TaskBuilder { start: Some(v), ..self }
    }

    /// Sets the tags.
    pub fn tags(self, v: Vec<Tag>) -> (r: Self)
        ensures
            r == (TaskBuilder { tags: Some(v), ..self }),
    {
        TaskBuilder { tags: Some(v), ..self }
    }

    /// Sets the until date.
    pub fn until(self, v: Date) -> (r: Self)
        ensures
            r == (TaskBuilder { until: Some(v), ..self }),
    {
        TaskBuilder { until: Some(v), ..self }
    }

    /// Sets the wait date.
    pub fn wait(self, v: Date) -> (r: Self)
        ensures
            r == (TaskBuilder { wait: Some(v), ..self }),
    {
        TaskBuilder { wait: Some(v), ..self }
    }

    /// Sets the urgency score.
    pub fn urgency(self, v: Num) -> (r: Self)
        ensures
            r == (TaskBuilder { urgency: Some(v), ..self }),
    {
        TaskBuilder { urgency: Some(v), ..self }
    }

    /// Sets the user-defined attributes.
    pub fn uda(self, v: UDA) -> (r: Self)
        ensures
            r == (TaskBuilder { uda: Some(v), ..self }),
    {
        TaskBuilder { uda: Some(v), ..self }
    }

    /// Builds the task. Fails exactly when no description was set; every
    /// unset field with a default gets it here.
    pub fn build(self) -> (r: Result<Task, TaskError>)
        ensures
            self.description is None ==> (r matches Err(e) && e@ == TaskErrorV::MissingField(
                "description"@,
            )),
            self.description matches Some(d) ==> (r matches Ok(t) && {
                &&& t@.id == self.id
                &&& t@.status == (match self.status {
                    Some(s) => s,
                    None => TaskStatus::Pending,
                })
                &&& (self.uuid matches Some(u) ==> t@.uuid == u)
                &&& (match self.entry {
                    Some(e) => t@.entry == e,
                    None => t@.entry.wf(),
                })
                &&& t@.description == d@
                &&& t@.annotations == opt_anns_view(self.annotations)
                &&& t@.depends == opt_uuids_view(self.depends)
                &&& t@.due == self.due
                &&& t@.end == self.end
                &&& t@.imask == opt_num_view(self.imask)
                &&& t@.mask == opt_str_view(self.mask)
                &&& t@.modified == self.modified
                &&& t@.parent == self.parent
                &&& t@.priority == self.priority
                &&& t@.project == opt_str_view(self.project)
                &&& t@.recur == opt_str_view(self.recur)
                &&& t@.scheduled == self.scheduled
                &&& t@.start == self.start
                &&& t@.tags == opt_strs_view(self.tags)
                &&& t@.until == self.until
                &&& t@.wait == self.wait
                &&& t@.urgency == opt_num_view(self.urgency)
                &&& t@.uda == (match self.uda {
                    Some(u) => u@,
                    None => Seq::<(Seq<char>, UDAV)>::empty(),
                })
            }),
    {
        let description = match self.description {
            Some(d) => d,
            None => {
                return Err(TaskError::MissingField("description".to_owned()));
            },
        };
        let status = match self.status {
            Some(s) => s,
            None => TaskStatus::Pending,
        };
        let uuid = match self.uuid {
            Some(u) => u,
            None => Uuid::new_v4(),
        };
        let entry = match self.entry {
            Some(e) => e,
            None => Date::now(),
        };
        let uda = match self.uda {
            Some(u) => u,
            None => UDA::new(),
        };
        Ok(
            Task::new(
                self.id,
                status,
                uuid,
                entry,
                description,
                self.annotations,
                self.depends,
                self.due,
                self.end,
                self.imask,
                self.mask,
                self.modified,
                self.parent,
                self.priority,
                self.project,
                self.recur,
                self.scheduled,
                self.start,
                self.tags,
                self.until,
                self.wait,
                self.urgency,
                uda,
            ),
        )
    }
}

} // verus!
