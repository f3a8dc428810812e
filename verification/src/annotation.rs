//! Task annotations: a timestamp plus a free-text note.

use vstd::prelude::*;

use crate::date::Date;

verus! {

/// An annotation of a task: an entry date and a description. Annotations
/// carry no identity of their own; two with equal fields are
/// indistinguishable.
#[derive(Clone, Debug, PartialEq)]
pub struct Annotation {
    entry: Date,
    description: String,
}

/// The mathematical shape of an [`Annotation`].
#[verifier::ext_equal]
pub ghost struct AnnotationV {
    /// The entry date.
    pub entry: Date,
    /// The description text.
    pub description: Seq<char>,
}

impl View for Annotation {
    type V = AnnotationV;

    closed spec fn view(&self) -> AnnotationV {
        AnnotationV { entry: self.entry, description: self.description@ }
    }
}

impl Annotation {
    /// Creates a new annotation.
    pub fn new(entry: Date, description: String) -> (r: Annotation)
        ensures
            r@ == (AnnotationV { entry, description: description@ }),
    {
        Annotation { entry, description }
    }

    /// The entry date.
    pub fn entry(&self) -> (r: &Date)
        ensures
            *r == self@.entry,
    {
        &self.entry
    }

    /// The description text.
    pub fn description(&self) -> (r: &String)
        ensures
            r@ == self@.description,
    {
        &self.description
    }

    /// Replaces the entry date.
    pub fn set_entry(&mut self, entry: Date)
        ensures
            final(self)@ == (AnnotationV { entry, ..old(self)@ }),
    {
        self.entry = entry;
    }

    /// Replaces the description text.
    pub fn set_description(&mut self, description: String)
        ensures
            final(self)@ == (AnnotationV { description: description@, ..old(self)@ }),
    {
        self.description = description;
    }
}

} // verus!
