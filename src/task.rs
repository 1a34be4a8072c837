//! The task entity and the predicates derived from it.
use vstd::prelude::*;
use crate::date::{now, today, Date, Timestamp};
use crate::text::{contains_text, lower_of, text_contains, to_lower};
use crate::types::Priority;

verus! {

/// One tracked task.
#[derive(Clone, Debug)]
pub struct Task {
    pub id: u32,
    pub description: String,
    pub completed: bool,
    pub due_date: Option<Date>,
    pub completed_at: Option<Timestamp>,
    pub priority: Option<Priority>,
    pub tags: Option<Vec<String>>,
}

impl Task {
    /// `self` and `other` agree on every field but the completion ones.
    pub open spec fn same_but_completion(self, other: Task) -> bool {
        &&& self.id == other.id
        &&& self.description == other.description
        &&& self.due_date == other.due_date
        &&& self.priority == other.priority
        &&& self.tags == other.tags
    }

    /// Urgent on `today`: open, with a due date at most `threshold` days
    /// ahead (overdue tasks included).
    pub open spec fn urgent_on(self, today: Date, threshold: int) -> bool {
        !self.completed && match self.due_date {
            Some(due) => due.days_since(today) <= threshold,
            None => false,
        }
    }

    /// Overdue on `today`: open, with a due date strictly before it.
    pub open spec fn overdue_on(self, today: Date) -> bool {
        !self.completed && match self.due_date {
            Some(due) => due.day < today.day,
            None => false,
        }
    }

    /// The description contains `keyword`, both case-folded.
    pub open spec fn matches(self, keyword: Seq<char>) -> bool {
        text_contains(lower_of(self.description@), lower_of(keyword))
    }

    pub fn new(
        id: u32,
        description: String,
        priority: Option<Priority>,
        tags: Option<Vec<String>>,
        due_date: Option<Date>,
    ) -> (r: Task)
        ensures
            r.id == id,
            r.description == description,
            !r.completed,
            r.completed_at is None,
            r.due_date == due_date,
            r.priority == priority,
            r.tags == tags,
    {
        Task { id, description, completed: false, due_date, completed_at: None, priority, tags }
    }

    /// Marks the task completed at instant `at`; a second call moves the stamp.
    pub fn complete_at(&mut self, at: Timestamp)
        ensures
            final(self).completed,
            final(self).completed_at == Some(at),
            final(self).same_but_completion(*old(self)),
    {
        self.completed = true;
        self.completed_at = Some(at);
    }

    /// Marks the task completed now.
    pub fn complete(&mut self)
        ensures
            final(self).completed,
            final(self).completed_at is Some,
            final(self).same_but_completion(*old(self)),
    {
        let at = now();
        self.complete_at(at);
    }

    pub fn is_urgent_on(&self, today: Date, days_threshold: i64) -> (r: bool)
        ensures
            r == self.urgent_on(today, days_threshold as int),
    {
        if self.completed {
            return false;
        }
        match self.due_date {
            Some(due) => due.days_until(today) <= days_threshold,
            None => false,
        }
    }

    /// Urgency against the local date at the time of the call.
    pub fn is_urgent(&self, days_threshold: i64) -> (r: bool)
        ensures
            exists|d: Date| r == self.urgent_on(d, days_threshold as int),
            self.completed || self.due_date is None ==> !r,
    {
        let d = today();
        self.is_urgent_on(d, days_threshold)
    }

    pub fn is_overdue_on(&self, today: Date) -> (r: bool)
        ensures
            r == self.overdue_on(today),
    {
        if self.completed {
            return false;
        }
        match self.due_date {
            Some(due) => due.day < today.day,
            None => false,
        }
    }

    /// Overdue against the local date at the time of the call.
    pub fn is_overdue(&self) -> (r: bool)
        ensures
            exists|d: Date| r == self.overdue_on(d),
            self.completed || self.due_date is None ==> !r,
    {
        let d = today();
        self.is_overdue_on(d)
    }

    pub fn matches_keyword(&self, keyword: &str) -> (r: bool)
        ensures
            r == self.matches(keyword@),
    {
        let d = to_lower(self.description.as_str());
        let k = to_lower(keyword);
        contains_text(d.as_str(), k.as_str())
    }
}

} // verus!
