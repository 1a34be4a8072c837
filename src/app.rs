//! The task manager: the authoritative collection, ID assignment, mutations
//! and queries.
use vstd::prelude::*;
use crate::date::{date_parsed, parse_date, today, Date, Timestamp};
use crate::storage::{intact, load_outcome, FileRead, LoadStatus, Storage};
use crate::tags::{merge_tags, parse_tags, sorted_strict, tag_list, views};
use crate::task::Task;
use crate::types::Priority;

verus! {

/// A due date as supplied to an operation.
#[derive(Clone, Copy, Debug, PartialEq, Eq, Structural)]
pub enum DateInput {
    /// No due date was supplied.
    Absent,
    /// A due date was supplied but is not a valid `YYYY-MM-DD` date.
    Invalid,
    /// A valid due date was supplied.
    Valid(Date),
}

/// Why an add was refused.
#[derive(Clone, Copy, Debug, PartialEq, Eq, Structural)]
pub enum AddError {
    /// The due date is not a valid `YYYY-MM-DD` date.
    InvalidDate,
    /// The description is empty.
    EmptyDescription,
    /// Every task ID has been handed out.
    IdsExhausted,
}

/// Why an edit was refused.
#[derive(Clone, Copy, Debug, PartialEq, Eq, Structural)]
pub enum EditError {
    /// No task has the ID.
    NotFound,
    /// The new description is empty.
    EmptyDescription,
}

/// No task has the ID.
#[derive(Clone, Copy, Debug, PartialEq, Eq, Structural)]
pub struct NotFound;

/// What a supplied due-date text means.
pub open spec fn date_input(s: Option<String>) -> DateInput {
    match s {
        None => DateInput::Absent,
        Some(t) => match date_parsed(t@) {
            None => DateInput::Invalid,
            Some(d) => DateInput::Valid(Date { day: d as i32 }),
        },
    }
}

/// The tags of a task, as texts.
pub open spec fn tag_view(tags: Option<Vec<String>>) -> Option<Seq<Seq<char>>> {
    match tags {
        Some(v) => Some(views(v@)),
        None => None,
    }
}

/// The tags that a comma-separated text gives a task: none if it lists none.
pub open spec fn tags_of(csv: Seq<char>) -> Option<Seq<Seq<char>>> {
    if tag_list(csv).len() == 0 {
        None
    } else {
        Some(tag_list(csv))
    }
}

/// The tags a task holds after a full replacement by `replace`, if supplied.
pub open spec fn replaced_tags(old: Option<Seq<Seq<char>>>, replace: Option<String>) -> Option<
    Seq<Seq<char>>,
> {
    match replace {
        Some(csv) => tags_of(csv@),
        None => old,
    }
}

/// `new` holds, sorted and without repeats, exactly the tags of `base` and of `extra`.
pub open spec fn merged_into(new: Seq<Seq<char>>, base: Option<Seq<Seq<char>>>, extra: Seq<Seq<char>>) -> bool {
    &&& sorted_strict(new)
    &&& forall|t: Seq<char>|
        new.contains(t) <==> ((base is Some && base->0.contains(t)) || extra.contains(t))
}

/// `new` is `old` after an edit with the given inputs, the date input read as `due`.
pub open spec fn edit_applied(
    old: Task,
    new: Task,
    new_desc: Option<String>,
    priority: Option<Priority>,
    tags_replace: Option<String>,
    tags_add: Option<String>,
    due: DateInput,
) -> bool {
    let base = replaced_tags(tag_view(old.tags), tags_replace);
    &&& new.id == old.id
    &&& new.completed == old.completed
    &&& new.completed_at == old.completed_at
    &&& new.description == match new_desc {
        Some(d) => d,
        None => old.description,
    }
    &&& new.priority == match priority {
        Some(p) => Some(p),
        None => old.priority,
    }
    &&& new.due_date == match due {
        DateInput::Valid(d) => Some(d),
        _ => old.due_date,
    }
    &&& match tags_add {
        Some(csv) if tag_list(csv@).len() > 0 => new.tags is Some && merged_into(
            views(new.tags->0@),
            base,
            tag_list(csv@),
        ),
        _ => tag_view(new.tags) == base,
    }
}

/// Where a task stands in a listing: dated tasks first, by days until due,
/// then undated ones; ties keep collection order.
pub open spec fn list_key(t: Task, today: Date) -> (int, int) {
    match t.due_date {
        Some(d) => (0, d.days_since(today)),
        None => (1, 0),
    }
}

/// Task `i` is listed before task `j`.
pub open spec fn listed_before(tasks: Seq<Task>, today: Date, i: int, j: int) -> bool {
    let a = list_key(tasks[i], today);
    let b = list_key(tasks[j], today);
    a.0 < b.0 || (a.0 == b.0 && (a.1 < b.1 || (a.1 == b.1 && i < j)))
}

/// Task `i` belongs in the listing.
pub open spec fn listed(tasks: Seq<Task>, today: Date, urgent_only: bool, i: int) -> bool {
    0 <= i < tasks.len() && (!urgent_only || tasks[i].urgent_on(today, 3))
}

/// `r` lists exactly the tasks that belong, each once, in listing order.
pub open spec fn is_listing(r: Seq<usize>, tasks: Seq<Task>, today: Date, urgent_only: bool) -> bool {
    &&& forall|k: int| 0 <= k < r.len() ==> listed(tasks, today, urgent_only, #[trigger] r[k] as int)
    &&& forall|i: int| listed(tasks, today, urgent_only, i) ==> #[trigger] r.contains(i as usize)
    &&& forall|k: int, l: int|
        0 <= k < l < r.len() ==> listed_before(tasks, today, #[trigger] r[k] as int, #[trigger] r[l] as int)
}

/// The positions, in order, of the first `n` tasks whose description matches `keyword`.
pub open spec fn matching(tasks: Seq<Task>, keyword: Seq<char>, n: int) -> Seq<usize>
    decreases n,
{
    if n <= 0 {
        Seq::empty()
    } else if tasks[n - 1].matches(keyword) {
        matching(tasks, keyword, n - 1).push((n - 1) as usize)
    } else {
        matching(tasks, keyword, n - 1)
    }
}

/// Reads a supplied due-date text.
fn read_date(s: &Option<String>) -> (r: DateInput)
    ensures
        r == date_input(*s),
{
    match s {
        None => DateInput::Absent,
        Some(t) => match parse_date(t.as_str()) {
            None => DateInput::Invalid,
            Some(d) => DateInput::Valid(d),
        },
    }
}

/// The tags of a comma-separated text, or none if it lists none.
pub fn parse_tag_option(csv: &str) -> (r: Option<Vec<String>>)
    ensures
        tag_view(r) == tags_of(csv@),
{
    let v = parse_tags(csv);
    if v.len() == 0 {
        None
    } else {
        Some(v)
    }
}

/// IDs only grow: the ID that an add hands out exceeds every live ID, the
/// next ID is one past it, and so it is one past the largest live ID.
pub proof fn added_id_is_fresh(
    before: TodoApp,
    after: TodoApp,
    description: String,
    priority: Option<Priority>,
    tag_list: Option<String>,
    due: DateInput,
    id: u32,
)
    requires
        before.wf(),
        after.add_done(&before, description, priority, tag_list, due, Ok(id)),
    ensures
        forall|i: int| 0 <= i < before.spec_tasks().len() ==> (#[trigger] before.spec_tasks()[i]).id < id,
        after.spec_next_id() == id + 1,
        after.next_follows_max(),
{
    let last = after.spec_tasks().len() - 1;
    assert(after.spec_tasks()[last].id + 1 == after.spec_next_id());
}

/// A collection that the manager holds is read back whole: once decoded, a
/// load takes every task as it was stored, with the status `Loaded`.
pub proof fn saved_collection_loads_back(app: TodoApp, stored: Vec<Task>)
    requires
        app.wf(),
        stored@ == app.spec_tasks(),
    ensures
        load_outcome(FileRead::Decoded(stored)) == (app.spec_tasks(), LoadStatus::Loaded),
{
}

/// One empty description anywhere in a decoded file empties the whole load
/// and reports corruption, however sound the other tasks are.
pub proof fn empty_description_rejects_file(stored: Vec<Task>, i: int)
    requires
        0 <= i < stored@.len(),
        stored@[i].description@.len() == 0,
    ensures
        load_outcome(FileRead::Decoded(stored)) == (Seq::<Task>::empty(), LoadStatus::Corrupted),
{
}

/// The task manager.
pub struct TodoApp {
    tasks: Vec<Task>,
    next_id: u64,
    storage: Storage,
}

impl TodoApp {
    pub closed spec fn spec_tasks(&self) -> Seq<Task> {
        self.tasks@
    }

    pub closed spec fn spec_next_id(&self) -> int {
        self.next_id as int
    }

    pub closed spec fn spec_storage(&self) -> Storage {
        self.storage
    }

    /// Every ID lies below the next one to assign, which fits the ID range
    /// once more, and every description is non-empty.
    pub open spec fn wf(&self) -> bool {
        &&& 1 <= self.spec_next_id() <= u32::MAX as int + 1
        &&& forall|i: int|
            0 <= i < self.spec_tasks().len() ==> (#[trigger] self.spec_tasks()[i]).id
                < self.spec_next_id()
        &&& intact(self.spec_tasks())
    }

    /// No two tasks share an ID.
    pub open spec fn ids_unique(&self) -> bool {
        forall|i: int, j: int|
            0 <= i < j < self.spec_tasks().len() ==> (#[trigger] self.spec_tasks()[i]).id
                != (#[trigger] self.spec_tasks()[j]).id
    }

    /// The next ID is one past the largest live one, or 1 with no tasks.
    pub open spec fn next_follows_max(&self) -> bool {
        if self.spec_tasks().len() == 0 {
            self.spec_next_id() == 1
        } else {
            exists|i: int|
                0 <= i < self.spec_tasks().len() && (#[trigger] self.spec_tasks()[i]).id + 1
                    == self.spec_next_id()
        }
    }

    /// The IDs of `self` are those of `other`, position by position.
    pub open spec fn same_ids(&self, other: &TodoApp) -> bool {
        &&& self.spec_tasks().len() == other.spec_tasks().len()
        &&& forall|i: int|
            0 <= i < self.spec_tasks().len() ==> (#[trigger] self.spec_tasks()[i]).id
                == other.spec_tasks()[i].id
        &&& self.spec_next_id() == other.spec_next_id()
        &&& self.spec_storage() == other.spec_storage()
    }

    /// The manager over `storage`, starting from what reading its file gave.
    pub fn new(storage: Storage, read: FileRead) -> (r: (TodoApp, LoadStatus))
        ensures
            (r.0.spec_tasks(), r.1) == load_outcome(read),
            r.0.spec_storage() == storage,
            r.0.wf(),
            r.0.next_follows_max(),
    {
        let (tasks, status) = storage.load_tasks(read);
        let mut max: u64 = 0;
        let mut i: usize = 0;
        while i < tasks.len()
            invariant
                i <= tasks.len(),
                max <= u32::MAX,
                forall|j: int| 0 <= j < i ==> (#[trigger] tasks@[j]).id <= max,
                i == 0 ==> max == 0,
                i > 0 ==> exists|j: int| 0 <= j < i && (#[trigger] tasks@[j]).id == max,
            decreases tasks.len() - i,
        {
            if tasks[i].id as u64 > max || i == 0 {
                max = tasks[i].id as u64;
            }
            i = i + 1;
        }
        (TodoApp { tasks, next_id: max + 1, storage }, status)
    }

    pub fn tasks(&self) -> (r: &Vec<Task>)
        ensures
            r@ == self.spec_tasks(),
    {
        &self.tasks
    }

    pub fn next_id(&self) -> (r: u64)
        ensures
            r == self.spec_next_id(),
    {
        self.next_id
    }

    pub fn storage(&self) -> (r: &Storage)
        ensures
            *r == self.spec_storage(),
    {
        &self.storage
    }

    /// The position of the first task with ID `id`.
    pub fn find_task(&self, id: u32) -> (r: Option<usize>)
        ensures
            match r {
                Some(k) => k < self.spec_tasks().len() && self.spec_tasks()[k as int].id == id
                    && forall|j: int| 0 <= j < k ==> (#[trigger] self.spec_tasks()[j]).id != id,
                None => forall|j: int|
                    0 <= j < self.spec_tasks().len() ==> (#[trigger] self.spec_tasks()[j]).id != id,
            },
    {
        let mut k: usize = 0;
        while k < self.tasks.len()
            invariant
                k <= self.tasks.len(),
                forall|j: int| 0 <= j < k ==> (#[trigger] self.tasks@[j]).id != id,
            decreases self.tasks.len() - k,
        {
            if self.tasks[k].id == id {
                return Some(k);
            }
            k = k + 1;
        }
        None
    }

    /// `self` is `old` after an add with the given inputs returned `r`.
    pub open spec fn add_done(
        &self,
        old: &TodoApp,
        description: String,
        priority: Option<Priority>,
        tag_list: Option<String>,
        due: DateInput,
        r: Result<u32, AddError>,
    ) -> bool {
        match r {
            Err(e) => {
                &&& *self == *old
                &&& e == if due == DateInput::Invalid {
                    AddError::InvalidDate
                } else if description@.len() == 0 {
                    AddError::EmptyDescription
                } else {
                    AddError::IdsExhausted
                }
                &&& (due == DateInput::Invalid || description@.len() == 0 || old.spec_next_id()
                    > u32::MAX)
            },
            Ok(id) => {
                let t = self.spec_tasks().last();
                &&& due != DateInput::Invalid
                &&& description@.len() > 0
                &&& id == old.spec_next_id()
                &&& self.spec_next_id() == old.spec_next_id() + 1
                &&& self.spec_tasks() == old.spec_tasks().push(t)
                &&& self.spec_storage() == old.spec_storage()
                &&& t.id == id
                &&& t.description == description
                &&& !t.completed
                &&& t.completed_at is None
                &&& t.priority == priority
                &&& t.due_date == match due {
                    DateInput::Valid(d) => Some(d),
                    _ => None,
                }
                &&& tag_view(t.tags) == match tag_list {
                    Some(csv) => tags_of(csv@),
                    None => None,
                }
            },
        }
    }

    /// Adds a task whose due-date text was read as `due`. Refuses an invalid
    /// date, an empty description, or an exhausted ID range, changing nothing.
    pub fn add_task_with_date(
        &mut self,
        description: String,
        priority: Option<Priority>,
        tag_list: Option<String>,
        due: DateInput,
    ) -> (r: Result<u32, AddError>)
        requires
            old(self).wf(),
        ensures
            final(self).wf(),
            final(self).add_done(old(self), description, priority, tag_list, due, r),
            old(self).ids_unique() ==> final(self).ids_unique(),
            r is Ok ==> final(self).next_follows_max(),
            r is Ok <==> (due != DateInput::Invalid && description@.len() > 0 && old(self).spec_next_id() <= u32::MAX),
    {
        let due_date = match due {
            DateInput::Invalid => {
                return Err(AddError::InvalidDate);
            },
            DateInput::Absent => None,
            DateInput::Valid(d) => Some(d),
        };
        if description.as_str().is_empty() {
            return Err(AddError::EmptyDescription);
        }
        if self.next_id > u32::MAX as u64 {
            return Err(AddError::IdsExhausted);
        }
        let tags = match tag_list {
            Some(csv) => parse_tag_option(csv.as_str()),
            None => None,
        };
        let id = self.next_id as u32;
        let task = Task::new(id, description, priority, tags, due_date);
        self.tasks.push(task);
        self.next_id = self.next_id + 1;
        assert(self.spec_tasks()[self.spec_tasks().len() - 1].id + 1 == self.spec_next_id());
        Ok(id)
    }

    /// Adds a task; a due-date text that is not a valid `YYYY-MM-DD` date
    /// refuses the whole add.
    pub fn add_task(
        &mut self,
        description: String,
        priority: Option<Priority>,
        tag_list: Option<String>,
        due_date_str: Option<String>,
    ) -> (r: Result<u32, AddError>)
        requires
            old(self).wf(),
        ensures
            final(self).wf(),
            final(self).add_done(old(self), description, priority, tag_list, date_input(due_date_str), r),
            old(self).ids_unique() ==> final(self).ids_unique(),
            r is Ok ==> final(self).next_follows_max(),
            r is Ok <==> (date_input(due_date_str) != DateInput::Invalid && description@.len() > 0
                && old(self).spec_next_id() <= u32::MAX),
    {
        let due = read_date(&due_date_str);
        self.add_task_with_date(description, priority, tag_list, due)
    }

    /// `self` is `old` after an edit of task `id` with the given inputs returned `r`.
    pub open spec fn edit_done(
        &self,
        old: &TodoApp,
        id: u32,
        new_desc: Option<String>,
        priority: Option<Priority>,
        tags_replace: Option<String>,
        tags_add: Option<String>,
        due: DateInput,
        r: Result<usize, EditError>,
    ) -> bool {
        let found = exists|j: int| 0 <= j < old.spec_tasks().len() && (#[trigger] old.spec_tasks()[j]).id == id;
        match r {
            Err(e) => {
                &&& *self == *old
                &&& e == if !found {
                    EditError::NotFound
                } else {
                    EditError::EmptyDescription
                }
                &&& (!found || (new_desc is Some && new_desc->0@.len() == 0))
            },
            Ok(k) => {
                &&& k < old.spec_tasks().len()
                &&& old.spec_tasks()[k as int].id == id
                &&& forall|j: int| 0 <= j < k ==> (#[trigger] old.spec_tasks()[j]).id != id
                &&& !(new_desc is Some && new_desc->0@.len() == 0)
                &&& self.spec_tasks() == old.spec_tasks().update(k as int, self.spec_tasks()[k as int])
                &&& edit_applied(old.spec_tasks()[k as int], self.spec_tasks()[k as int], new_desc, priority, tags_replace, tags_add, due)
                &&& self.same_ids(old)
            },
        }
    }

    /// Edits task `id` with a due-date text read as `due`: each supplied input
    /// overwrites its field, an invalid date is passed over; tags are replaced
    /// first, then merged with the added ones.
    pub fn edit_task_with_date(
        &mut self,
        id: u32,
        new_desc: Option<String>,
        priority: Option<Priority>,
        tags_replace: Option<String>,
        tags_add: Option<String>,
        due: DateInput,
    ) -> (r: Result<usize, EditError>)
        requires
            old(self).wf(),
        ensures
            final(self).wf(),
            final(self).edit_done(old(self), id, new_desc, priority, tags_replace, tags_add, due, r),
            old(self).ids_unique() ==> final(self).ids_unique(),
            old(self).next_follows_max() ==> final(self).next_follows_max(),
    {
        let k = match self.find_task(id) {
            None => {
                return Err(EditError::NotFound);
            },
            Some(k) => k,
        };
        if let Some(d) = &new_desc {
            if d.as_str().is_empty() {
                return Err(EditError::EmptyDescription);
            }
        }
        let ghost old_app = *self;
        let mut t = self.tasks.remove(k);
        let ghost t0 = t;
        if let Some(d) = new_desc {
            t.description = d;
        }
        if let Some(p) = priority {
            t.priority = Some(p);
        }
        if let Some(csv) = tags_replace {
            t.tags = parse_tag_option(csv.as_str());
        }
        let ghost base = tag_view(t.tags);
        if let Some(csv) = tags_add {
            let extra = parse_tags(csv.as_str());
            if extra.len() > 0 {
                let merged = match &t.tags {
                    Some(e) => merge_tags(e, &extra),
                    None => {
                        let empty: Vec<String> = Vec::new();
                        assert(views(empty@) =~= Seq::<Seq<char>>::empty());
                        merge_tags(&empty, &extra)
                    },
                };
                t.tags = Some(merged);
            }
        }
        if let DateInput::Valid(d) = due {
            t.due_date = Some(d);
        }
        self.tasks.insert(k, t);
        assert(self.spec_tasks() =~= old_app.spec_tasks().update(k as int, t));
        proof {
            if old_app.next_follows_max() && old_app.spec_tasks().len() > 0 {
                let i = choose|i: int| 0 <= i < old_app.spec_tasks().len() && (#[trigger] old_app.spec_tasks()[i]).id + 1 == old_app.spec_next_id();
                assert(self.spec_tasks()[i].id + 1 == self.spec_next_id());
            }
        }
        Ok(k)
    }

    /// Edits task `id`; a due-date text that is not a valid `YYYY-MM-DD` date
    /// leaves the due date as it was while the other inputs still apply.
    pub fn edit_task(
        &mut self,
        id: u32,
        new_desc: Option<String>,
        priority: Option<Priority>,
        tags_replace: Option<String>,
        tags_add: Option<String>,
        due_date: Option<String>,
    ) -> (r: Result<usize, EditError>)
        requires
            old(self).wf(),
        ensures
            final(self).wf(),
            final(self).edit_done(old(self), id, new_desc, priority, tags_replace, tags_add, date_input(due_date), r),
            old(self).ids_unique() ==> final(self).ids_unique(),
            old(self).next_follows_max() ==> final(self).next_follows_max(),
    {
        let due = read_date(&due_date);
        self.edit_task_with_date(id, new_desc, priority, tags_replace, tags_add, due)
    }

    /// Marks the first task with ID `id` completed now.
    pub fn complete_task(&mut self, id: u32) -> (r: Result<usize, NotFound>)
        requires
            old(self).wf(),
        ensures
            final(self).wf(),
            final(self).same_ids(old(self)),
            old(self).ids_unique() ==> final(self).ids_unique(),
            old(self).next_follows_max() ==> final(self).next_follows_max(),
            match r {
                Err(_) => *final(self) == *old(self) && forall|j: int|
                    0 <= j < old(self).spec_tasks().len() ==> (#[trigger] old(self).spec_tasks()[j]).id != id,
                Ok(k) => {
                    &&& k < old(self).spec_tasks().len()
                    &&& old(self).spec_tasks()[k as int].id == id
                    &&& forall|j: int| 0 <= j < k ==> (#[trigger] old(self).spec_tasks()[j]).id != id
                    &&& final(self).spec_tasks() == old(self).spec_tasks().update(k as int, final(self).spec_tasks()[k as int])
                    &&& final(self).spec_tasks()[k as int].completed
                    &&& final(self).spec_tasks()[k as int].completed_at is Some
                    &&& final(self).spec_tasks()[k as int].same_but_completion(old(self).spec_tasks()[k as int])
                },
            },
    {
        let k = match self.find_task(id) {
            None => {
                return Err(NotFound);
            },
            Some(k) => k,
        };
        let ghost old_app = *self;
        let mut t = self.tasks.remove(k);
        t.complete();
        self.tasks.insert(k, t);
        assert(self.spec_tasks() =~= old_app.spec_tasks().update(k as int, t));
        proof {
            if old_app.next_follows_max() && old_app.spec_tasks().len() > 0 {
                let i = choose|i: int| 0 <= i < old_app.spec_tasks().len() && (#[trigger] old_app.spec_tasks()[i]).id + 1 == old_app.spec_next_id();
                assert(self.spec_tasks()[i].id + 1 == self.spec_next_id());
            }
        }
        Ok(k)
    }

    /// Completes each ID of `ids` in turn; an unknown ID is reported in its
    /// place and the rest still go ahead.
    pub fn complete_tasks(&mut self, ids: &Vec<u32>) -> (r: Vec<bool>)
        requires
            old(self).wf(),
        ensures
            final(self).wf(),
            final(self).same_ids(old(self)),
            old(self).ids_unique() ==> final(self).ids_unique(),
            old(self).next_follows_max() ==> final(self).next_follows_max(),
            r@.len() == ids@.len(),
            forall|i: int| 0 <= i < ids@.len() ==> #[trigger] r@[i] == exists|j: int|
                0 <= j < old(self).spec_tasks().len() && (#[trigger] old(self).spec_tasks()[j]).id == ids@[i],
            forall|j: int| 0 <= j < old(self).spec_tasks().len() ==> {
                let t = #[trigger] final(self).spec_tasks()[j];
                let t0 = old(self).spec_tasks()[j];
                if ids@.contains(t0.id) && forall|l: int| 0 <= l < j ==> (#[trigger] old(self).spec_tasks()[l]).id != t0.id {
                    t.completed && t.completed_at is Some && t.same_but_completion(t0)
                } else {
                    t == t0
                }
            },
    {
        let ghost old_app = *self;
        let mut r: Vec<bool> = Vec::new();
        let mut i: usize = 0;
        while i < ids.len()
            invariant
                i <= ids.len(),
                self.wf(),
                self.same_ids(&old_app),
                old_app.ids_unique() ==> self.ids_unique(),
                old_app.next_follows_max() ==> self.next_follows_max(),
                r@.len() == i,
                forall|a: int| 0 <= a < i ==> #[trigger] r@[a] == exists|j: int|
                    0 <= j < old_app.spec_tasks().len() && (#[trigger] old_app.spec_tasks()[j]).id == ids@[a],
                forall|j: int| 0 <= j < old_app.spec_tasks().len() ==> {
                    let t = #[trigger] self.spec_tasks()[j];
                    let t0 = old_app.spec_tasks()[j];
                    if ids@.take(i as int).contains(t0.id) && forall|l: int| 0 <= l < j ==> (#[trigger] old_app.spec_tasks()[l]).id != t0.id {
                        t.completed && t.completed_at is Some && t.same_but_completion(t0)
                    } else {
                        t == t0
                    }
                },
            decreases ids.len() - i,
        {
            let id = ids[i];
            let ghost before = *self;
            let res = self.complete_task(id);
            proof {
                assert(ids@.take(i + 1) =~= ids@.take(i as int).push(id));
                assert forall|j: int| 0 <= j < old_app.spec_tasks().len() implies ((#[trigger] old_app.spec_tasks()[j]).id == id <==> before.spec_tasks()[j].id == id) by {}
                assert forall|j: int| 0 <= j < old_app.spec_tasks().len() implies {
                    let t = #[trigger] self.spec_tasks()[j];
                    let t0 = old_app.spec_tasks()[j];
                    if ids@.take(i + 1).contains(t0.id) && forall|l: int| 0 <= l < j ==> (#[trigger] old_app.spec_tasks()[l]).id != t0.id {
                        t.completed && t.completed_at is Some && t.same_but_completion(t0)
                    } else {
                        t == t0
                    }
                } by {
                    let t0 = old_app.spec_tasks()[j];
                    let first = forall|l: int| 0 <= l < j ==> (#[trigger] old_app.spec_tasks()[l]).id != t0.id;
                    let pre = ids@.take(i as int);
                    let post = ids@.take(i + 1);
                    if pre.contains(t0.id) {
                        let a = choose|a: int| 0 <= a < pre.len() && pre[a] == t0.id;
                        assert(post[a] == t0.id);
                    }
                    if t0.id == id {
                        assert(post[i as int] == t0.id);
                    }
                    if post.contains(t0.id) {
                        let a = choose|a: int| 0 <= a < post.len() && post[a] == t0.id;
                        if a < i {
                            assert(pre[a] == t0.id);
                        }
                    }
                    match res {
                        Ok(k) => {
                            if j == k as int {
                                assert(before.spec_tasks()[j].id == t0.id);
                            } else if t0.id == id {
                                if j < k {
                                    assert(before.spec_tasks()[j].id == id);
                                } else {
                                    assert(old_app.spec_tasks()[k as int].id == before.spec_tasks()[k as int].id);
                                    assert(!first);
                                }
                            }
                        },
                        Err(_) => {},
                    }
                }
            }
            r.push(res.is_ok());
            i = i + 1;
        }
        assert(ids@.take(i as int) =~= ids@);
        r
    }

    /// Removes the first task with ID `id`; the next ID stays as it is.
    pub fn remove_task(&mut self, id: u32) -> (r: Result<(), NotFound>)
        requires
            old(self).wf(),
        ensures
            final(self).wf(),
            final(self).spec_next_id() == old(self).spec_next_id(),
            final(self).spec_storage() == old(self).spec_storage(),
            old(self).ids_unique() ==> final(self).ids_unique(),
            old(self).next_follows_max() && id as int + 1 != old(self).spec_next_id() ==> final(self).next_follows_max(),
            match r {
                Err(_) => *final(self) == *old(self) && forall|j: int|
                    0 <= j < old(self).spec_tasks().len() ==> (#[trigger] old(self).spec_tasks()[j]).id != id,
                Ok(_) => exists|k: int| {
                    &&& 0 <= k < old(self).spec_tasks().len()
                    &&& (#[trigger] old(self).spec_tasks()[k]).id == id
                    &&& (forall|j: int| 0 <= j < k ==> (#[trigger] old(self).spec_tasks()[j]).id != id)
                    &&& final(self).spec_tasks() == old(self).spec_tasks().remove(k)
                },
            },
            r is Ok && old(self).ids_unique() ==> forall|j: int|
                0 <= j < final(self).spec_tasks().len() ==> (#[trigger] final(self).spec_tasks()[j]).id != id,
    {
        let k = match self.find_task(id) {
            None => {
                return Err(NotFound);
            },
            Some(k) => k,
        };
        let ghost old_app = *self;
        let _ = self.tasks.remove(k);
        proof {
            let s0 = old_app.spec_tasks();
            let s1 = self.spec_tasks();
            assert forall|j: int| 0 <= j < s1.len() implies (j < k ==> s1[j] == s0[j]) && (j >= k ==> s1[j] == s0[j + 1]) by {}
            if old_app.next_follows_max() && id as int + 1 != old_app.spec_next_id() && s1.len() > 0 {
                let i = choose|i: int| 0 <= i < s0.len() && (#[trigger] s0[i]).id + 1 == old_app.spec_next_id();
                if i < k {
                    assert(s1[i].id + 1 == self.spec_next_id());
                } else {
                    assert(s1[i - 1].id + 1 == self.spec_next_id());
                }
            }
            if old_app.ids_unique() {
                assert forall|j: int| 0 <= j < s1.len() implies (#[trigger] s1[j]).id != id by {
                    if j >= k {
                        assert(s1[j] == s0[j + 1]);
                    }
                }
            }
        }
        Ok(())
    }

    /// Removes every task and starts IDs over from 1.
    pub fn remove_all_tasks(&mut self)
        requires
            old(self).wf(),
        ensures
            final(self).wf(),
            final(self).spec_tasks().len() == 0,
            final(self).spec_next_id() == 1,
            final(self).spec_storage() == old(self).spec_storage(),
            final(self).next_follows_max(),
            final(self).ids_unique(),
    {
        self.tasks.clear();
        self.next_id = 1;
    }

    /// Whether task `a` is listed before task `b`.
    fn comes_before(&self, today: Date, a: usize, b: usize) -> (r: bool)
        requires
            a < self.spec_tasks().len(),
            b < self.spec_tasks().len(),
        ensures
            r == listed_before(self.spec_tasks(), today, a as int, b as int),
    {
        let (ra, da): (u8, i64) = match self.tasks[a].due_date {
            Some(d) => (0, d.days_until(today)),
            None => (1, 0),
        };
        let (rb, db): (u8, i64) = match self.tasks[b].due_date {
            Some(d) => (0, d.days_until(today)),
            None => (1, 0),
        };
        ra < rb || (ra == rb && (da < db || (da == db && a < b)))
    }

    /// The positions of the tasks to show on `today`, all of them or only the
    /// urgent ones (due within three days, overdue included): dated tasks
    /// first by days until due, then undated ones, ties in collection order.
    pub fn list_tasks_on(&self, today: Date, urgent_only: bool) -> (r: Vec<usize>)
        ensures
            is_listing(r@, self.spec_tasks(), today, urgent_only),
    {
        let ghost ts = self.spec_tasks();
        let mut r: Vec<usize> = Vec::new();
        let mut i: usize = 0;
        while i < self.tasks.len()
            invariant
                ts == self.spec_tasks(),
                i <= ts.len(),
                forall|k: int| 0 <= k < r@.len() ==> listed(ts, today, urgent_only, #[trigger] r@[k] as int) && r@[k] < i,
                forall|j: int| 0 <= j < i && listed(ts, today, urgent_only, j) ==> #[trigger] r@.contains(j as usize),
                forall|k: int, l: int|
                    0 <= k < l < r@.len() ==> listed_before(ts, today, #[trigger] r@[k] as int, #[trigger] r@[l] as int),
            decreases ts.len() - i,
        {
            let wanted = !urgent_only || self.tasks[i].is_urgent_on(today, 3);
            if wanted {
                let mut p: usize = 0;
                while p < r.len()
                    invariant
                        ts == self.spec_tasks(),
                        i < ts.len(),
                        p <= r@.len(),
                        forall|k: int| 0 <= k < r@.len() ==> (#[trigger] r@[k]) < i,
                        forall|k: int| 0 <= k < p ==> listed_before(ts, today, #[trigger] r@[k] as int, i as int),
                    ensures
                        p <= r@.len(),
                        forall|k: int| 0 <= k < p ==> listed_before(ts, today, #[trigger] r@[k] as int, i as int),
                        p < r@.len() ==> !listed_before(ts, today, r@[p as int] as int, i as int),
                    decreases r.len() - p,
                {
                    if !self.comes_before(today, r[p], i) {
                        break;
                    }
                    p = p + 1;
                }
                let ghost r0 = r@;
                proof {
                    assert forall|l: int| p <= l < r0.len() implies listed_before(ts, today, i as int, #[trigger] r0[l] as int) by {
                        assert(listed_before(ts, today, i as int, r0[p as int] as int));
                        if l > p {
                            assert(listed_before(ts, today, r0[p as int] as int, r0[l] as int));
                        }
                    }
                }
                r.insert(p, i);
                proof {
                    assert(r@ == r0.insert(p as int, i));
                    assert forall|k: int, l: int|
                        0 <= k < l < r@.len() implies listed_before(ts, today, #[trigger] r@[k] as int, #[trigger] r@[l] as int) by {
                        if l < p {
                        } else if k < p && l == p {
                        } else if k < p && l > p {
                            assert(r@[l] == r0[l - 1]);
                        } else if k == p {
                            assert(r@[l] == r0[l - 1]);
                        } else {
                            assert(r@[k] == r0[k - 1]);
                            assert(r@[l] == r0[l - 1]);
                        }
                    }
                    assert forall|j: int| 0 <= j < i + 1 && listed(ts, today, urgent_only, j) implies #[trigger] r@.contains(j as usize) by {
                        if j == i {
                            assert(r@[p as int] == i);
                        } else {
                            assert(r0.contains(j as usize));
                            let a = choose|a: int| 0 <= a < r0.len() && r0[a] == j as usize;
                            if a < p {
                                assert(r@[a] == j as usize);
                            } else {
                                assert(r@[a + 1] == j as usize);
                            }
                        }
                    }
                    assert forall|k: int| 0 <= k < r@.len() implies listed(ts, today, urgent_only, #[trigger] r@[k] as int) && r@[k] < i + 1 by {
                        if k > p {
                            assert(r@[k] == r0[k - 1]);
                        }
                    }
                }
            }
            i = i + 1;
        }
        r
    }

    /// The listing against the local date at the time of the call.
    pub fn list_tasks(&self, urgent_only: bool) -> (r: Vec<usize>)
        ensures
            exists|d: Date| is_listing(r@, self.spec_tasks(), d, urgent_only),
    {
        let d = today();
        self.list_tasks_on(d, urgent_only)
    }

    /// The positions, in collection order, of the tasks whose description
    /// contains `keyword`, ignoring case.
    pub fn search_tasks(&self, keyword: &str) -> (r: Vec<usize>)
        ensures
            r@ == matching(self.spec_tasks(), keyword@, self.spec_tasks().len() as int),
    {
        let mut r: Vec<usize> = Vec::new();
        let mut i: usize = 0;
        while i < self.tasks.len()
            invariant
                i <= self.tasks@.len(),
                self.tasks@ == self.spec_tasks(),
                r@ == matching(self.spec_tasks(), keyword@, i as int),
            decreases self.tasks.len() - i,
        {
            if self.tasks[i].matches_keyword(keyword) {
                r.push(i);
            }
            i = i + 1;
        }
        r
    }
}

} // verus!
