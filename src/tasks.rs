//! The task store: an ordered collection of tasks whose ids are their positions.

use crate::date::{date_text, text_day, text_month, text_of_date, text_year, valid_date, CalendarDate};
use crate::selection::{line_id, line_id_of};
use crate::urgency::{days_until, deadline_urgency, deadline_urgency_of, Urgency, UrgencyCounts};
use vstd::prelude::*;

verus! {

/// The most characters a task name may hold.
pub const TITLE_CHAR_LIMIT: usize = 30;

/// The most characters a task description may hold.
pub const DESCRIPTION_CHAR_LIMIT: usize = 100;

#[derive(Clone, Copy, Debug, PartialEq, Eq, Structural)]
pub enum TaskStatus {
    Incomplete,
    Complete,
}

impl TaskStatus {
    pub open spec fn flipped(self) -> TaskStatus {
        match self {
            TaskStatus::Incomplete => TaskStatus::Complete,
            TaskStatus::Complete => TaskStatus::Incomplete,
        }
    }

    /// The other status.
    pub fn flip(self) -> (r: TaskStatus)
        ensures
            r == self.flipped(),
    {
        match self {
            TaskStatus::Incomplete => TaskStatus::Complete,
            TaskStatus::Complete => TaskStatus::Incomplete,
        }
    }
}

/// One reminder. Dates are `YYYY-MM-DD` texts; `0000-00-00` as the deadline
/// means that the task has none.
#[derive(Clone, Debug)]
pub struct Task {
    pub id: u32,
    pub name: String,
    pub description: String,
    pub status: TaskStatus,
    pub date_posted: String,
    pub date_deadline: String,
}

/// Why a task was not created.
#[derive(Clone, Copy, Debug, PartialEq, Eq, Structural)]
pub enum TaskError {
    /// The name has more than `TITLE_CHAR_LIMIT` characters.
    NameTooLong,
    /// The description has more than `DESCRIPTION_CHAR_LIMIT` characters.
    DescriptionTooLong,
    /// The largest id in use is already the largest `u32`.
    IdsExhausted,
}

/// The deadline text of a task without deadline.
pub open spec fn no_deadline_text() -> Seq<char> {
    "0000-00-00"@
}

/// The deadline text stored for an optional deadline.
pub open spec fn deadline_text(deadline: Option<CalendarDate>) -> Seq<char> {
    match deadline {
        Some(d) => text_of_date(d),
        None => no_deadline_text(),
    }
}

/// The largest id among `s`, or 0 where `s` is empty.
pub open spec fn max_id(s: Seq<Task>) -> nat
    decreases s.len(),
{
    if s.len() == 0 {
        0
    } else {
        let m = max_id(s.drop_last());
        if s.last().id as nat > m {
            s.last().id as nat
        } else {
            m
        }
    }
}

/// The id that a new task gets: one past the largest, or 0 in an empty store.
pub open spec fn next_id(s: Seq<Task>) -> nat {
    if s.len() == 0 {
        0
    } else {
        max_id(s) + 1
    }
}

/// Each task's id is its position.
pub open spec fn ids_dense(s: Seq<Task>) -> bool {
    forall|i: int| 0 <= i < s.len() ==> (#[trigger] s[i]).id == i as u32
}

/// `s` in the same order, each task's id replaced by its position.
pub open spec fn renumbered(s: Seq<Task>) -> Seq<Task> {
    Seq::new(s.len(), |i: int| Task { id: i as u32, ..s[i] })
}

/// The tasks of `s`, in order, whose id is not in `ids`.
pub open spec fn kept(s: Seq<Task>, ids: Seq<u32>) -> Seq<Task>
    decreases s.len(),
{
    if s.len() == 0 {
        s
    } else if ids.contains(s.last().id) {
        kept(s.drop_last(), ids)
    } else {
        kept(s.drop_last(), ids).push(s.last())
    }
}

/// `s` after toggling, one id after another, the status of the task at
/// position `id` where that task's id is `id`.
pub open spec fn switched(s: Seq<Task>, ids: Seq<u32>) -> Seq<Task>
    decreases ids.len(),
{
    if ids.len() == 0 {
        s
    } else {
        let p = switched(s, ids.drop_last());
        let id = ids.last();
        if (id as int) < p.len() && p[id as int].id == id {
            p.update(id as int, Task { status: p[id as int].status.flipped(), ..p[id as int] })
        } else {
            p
        }
    }
}

/// The bucket of a task on `today`: that of its deadline while it is
/// incomplete; none once it is complete.
pub open spec fn task_bucket(t: Task, today: CalendarDate) -> Option<Urgency> {
    if t.status == TaskStatus::Incomplete {
        deadline_urgency_of(t.date_deadline@, today)
    } else {
        None
    }
}

/// How many tasks of `s` fall in bucket `u` on `today`.
pub open spec fn bucket_count(s: Seq<Task>, today: CalendarDate, u: Urgency) -> nat
    decreases s.len(),
{
    if s.len() == 0 {
        0
    } else {
        bucket_count(s.drop_last(), today, u) + if task_bucket(s.last(), today) == Some(u) {
            1nat
        } else {
            0nat
        }
    }
}

/// How many tasks of `s` have status `status`.
pub open spec fn status_count(s: Seq<Task>, status: TaskStatus) -> nat
    decreases s.len(),
{
    if s.len() == 0 {
        0
    } else {
        status_count(s.drop_last(), status) + if s.last().status == status {
            1nat
        } else {
            0nat
        }
    }
}

/// The tasks of `s` with status `status`, in order.
pub open spec fn with_status(s: Seq<Task>, status: TaskStatus) -> Seq<Task>
    decreases s.len(),
{
    if s.len() == 0 {
        s
    } else if s.last().status == status {
        with_status(s.drop_last(), status).push(s.last())
    } else {
        with_status(s.drop_last(), status)
    }
}

proof fn lemma_renumbered_dense(s: Seq<Task>)
    requires
        ids_dense(s),
    ensures
        renumbered(s) == s,
{
    assert(renumbered(s) =~= s);
}

proof fn lemma_switched_one(s: Seq<Task>, id: u32)
    ensures
        switched(s, seq![id]) == (if (id as int) < s.len() && s[id as int].id == id {
            s.update(id as int, Task { status: s[id as int].status.flipped(), ..s[id as int] })
        } else {
            s
        }),
{
    assert(seq![id].drop_last() =~= Seq::<u32>::empty());
    assert(switched(s, Seq::<u32>::empty()) == s);
}

proof fn lemma_kept_all(s: Seq<Task>, ids: Seq<u32>)
    requires
        forall|i: int| 0 <= i < s.len() ==> !ids.contains(#[trigger] s[i].id),
    ensures
        kept(s, ids) == s,
    decreases s.len(),
{
    if s.len() > 0 {
        let p = s.drop_last();
        assert forall|i: int| 0 <= i < p.len() implies !ids.contains(#[trigger] p[i].id) by {
            assert(p[i] == s[i]);
        }
        lemma_kept_all(p, ids);
        assert(!ids.contains(s[s.len() - 1].id));
        assert(p.push(s.last()) =~= s);
    }
}

proof fn lemma_max_id_dense(s: Seq<Task>)
    requires
        ids_dense(s),
        0 < s.len() <= u32::MAX + 1,
    ensures
        max_id(s) == s.len() - 1,
    decreases s.len(),
{
    let p = s.drop_last();
    assert(ids_dense(p)) by {
        assert forall|i: int| 0 <= i < p.len() implies (#[trigger] p[i]).id == i as u32 by {
            assert(p[i] == s[i]);
        }
    }
    if p.len() > 0 {
        lemma_max_id_dense(p);
    }
    assert(s.last() == s[s.len() - 1]);
}

/// Where each task's id is its position, a new task gets the next position as
/// id, so that ids stay `0..n-1`.
pub proof fn lemma_create_keeps_ids_dense(tasks: Seq<Task>)
    requires
        ids_dense(tasks),
        tasks.len() <= u32::MAX,
    ensures
        next_id(tasks) == tasks.len(),
{
    if tasks.len() > 0 {
        lemma_max_id_dense(tasks);
    }
}

/// Toggling the same id twice, in two calls of `switch_task_status`, gives back
/// the collection as it was, whenever its ids are their positions.
pub proof fn lemma_toggle_twice_restores(tasks: Seq<Task>, id: u32)
    requires
        ids_dense(tasks),
    ensures
        renumbered(switched(renumbered(switched(tasks, seq![id])), seq![id])) == tasks,
{
    lemma_switched_one(tasks, id);
    let once = switched(tasks, seq![id]);
    assert(ids_dense(once));
    lemma_renumbered_dense(once);
    lemma_switched_one(once, id);
    let twice = switched(once, seq![id]);
    assert(ids_dense(twice));
    lemma_renumbered_dense(twice);
    assert(twice =~= tasks);
}

/// Deleting ids that no task has leaves a collection whose ids are their
/// positions as it was.
pub proof fn lemma_delete_absent_unchanged(tasks: Seq<Task>, ids: Seq<u32>)
    requires
        ids_dense(tasks),
        forall|i: int| 0 <= i < tasks.len() ==> !ids.contains(#[trigger] tasks[i].id),
    ensures
        renumbered(kept(tasks, ids)) == tasks,
{
    lemma_kept_all(tasks, ids);
    lemma_renumbered_dense(tasks);
}

/// A task without deadline falls in no bucket, whatever the day.
pub proof fn lemma_no_deadline_no_bucket(today: CalendarDate)
    ensures
        deadline_urgency_of(no_deadline_text(), today) is None,
{
    reveal_strlit("0000-00-00");
    assert(!valid_date(
        text_year(no_deadline_text()),
        text_month(no_deadline_text()),
        text_day(no_deadline_text()),
    ));
}

impl Task {
    /// The bucket of the deadline on `today`, whatever the status;
    /// `None` where it has no deadline.
    pub fn deadline_urgency(&self, today: CalendarDate) -> (r: Option<Urgency>)
        requires
            today.wf(),
        ensures
            r == deadline_urgency_of(self.date_deadline@, today),
    {
        deadline_urgency(self.date_deadline.as_str(), today)
    }

    /// The same task under another id.
    pub fn with_id(&self, id: u32) -> (r: Task)
        ensures
            r == (Task { id, ..*self }),
    {
        Task {
            id,
            name: self.name.clone(),
            description: self.description.clone(),
            status: self.status,
            date_posted: self.date_posted.clone(),
            date_deadline: self.date_deadline.clone(),
        }
    }

    /// The same task with the other status.
    pub fn toggled(&self) -> (r: Task)
        ensures
            r == (Task { status: self.status.flipped(), ..*self }),
    {
        Task {
            id: self.id,
            name: self.name.clone(),
            description: self.description.clone(),
            status: self.status.flip(),
            date_posted: self.date_posted.clone(),
            date_deadline: self.date_deadline.clone(),
        }
    }
}

/// Whether `id` is among `ids`.
fn contains_id(ids: &Vec<u32>, id: u32) -> (r: bool)
    ensures
        r == ids@.contains(id),
{
    let mut i: usize = 0;
    while i < ids.len()
        invariant
            i <= ids@.len(),
            forall|j: int| 0 <= j < i ==> ids@[j] != id,
        decreases ids@.len() - i,
    {
        if ids[i] == id {
            return true;
        }
        i += 1;
    }
    false
}

/// The in-memory collection of tasks, in creation order.
#[derive(Debug)]
pub struct TaskManager {
    task_list: Vec<Task>,
}

impl View for TaskManager {
    type V = Seq<Task>;

    closed spec fn view(&self) -> Seq<Task> {
        self.task_list@
    }
}

impl TaskManager {
    /// An empty store.
    pub fn new() -> (r: Self)
        ensures
            r@ == Seq::<Task>::empty(),
    {
        TaskManager { task_list: Vec::new() }
    }

    /// Whether the store holds no task.
    pub fn is_first_task(&self) -> (r: bool)
        ensures
            r == (self@.len() == 0),
    {
        self.task_list.len() == 0
    }

    /// The largest id in the store, 0 where it is empty.
    pub fn get_last_id(&self) -> (r: u32)
        ensures
            r as nat == max_id(self@),
    {
        let mut bigger: u32 = 0;
        let mut i: usize = 0;
        while i < self.task_list.len()
            invariant
                i <= self.task_list@.len(),
                bigger as nat == max_id(self.task_list@.take(i as int)),
            decreases self.task_list@.len() - i,
        {
            assert(self.task_list@.take(i + 1).drop_last() =~= self.task_list@.take(i as int));
            if self.task_list[i].id > bigger {
                bigger = self.task_list[i].id;
            }
            i += 1;
        }
        assert(self.task_list@.take(i as int) =~= self.task_list@);
        bigger
    }

    /// The signed number of days from `naive_date_b` to `naive_date_a`.
    pub fn get_days_diff(&self, naive_date_a: CalendarDate, naive_date_b: CalendarDate) -> (r: i64)
        requires
            naive_date_a.wf(),
            naive_date_b.wf(),
        ensures
            r as int == naive_date_a.day_count() - naive_date_b.day_count(),
    {
        days_until(naive_date_a, naive_date_b)
    }

    /// How many tasks have status `status`.
    pub fn count_with_status(&self, status: TaskStatus) -> (r: usize)
        ensures
            r as nat == status_count(self@, status),
    {
        let mut count: usize = 0;
        let mut i: usize = 0;
        while i < self.task_list.len()
            invariant
                i <= self.task_list@.len(),
                count <= i,
                count as nat == status_count(self.task_list@.take(i as int), status),
            decreases self.task_list@.len() - i,
        {
            assert(self.task_list@.take(i + 1).drop_last() =~= self.task_list@.take(i as int));
            if self.task_list[i].status == status {
                count += 1;
            }
            i += 1;
        }
        assert(self.task_list@.take(i as int) =~= self.task_list@);
        count
    }

    /// The tasks with status `status`, in order.
    pub fn tasks_with_status(&self, status: TaskStatus) -> (r: Vec<Task>)
        ensures
            r@ == with_status(self@, status),
    {
        let mut out: Vec<Task> = Vec::new();
        let mut i: usize = 0;
        while i < self.task_list.len()
            invariant
                i <= self.task_list@.len(),
                out@ == with_status(self.task_list@.take(i as int), status),
            decreases self.task_list@.len() - i,
        {
            assert(self.task_list@.take(i + 1).drop_last() =~= self.task_list@.take(i as int));
            let t = &self.task_list[i];
            if t.status == status {
                out.push(t.with_id(t.id));
            }
            i += 1;
        }
        assert(self.task_list@.take(i as int) =~= self.task_list@);
        out
    }

    /// How many incomplete tasks fall in each bucket on `today`.
    pub fn urgency_counts(&self, today: CalendarDate) -> (r: UrgencyCounts)
        requires
            today.wf(),
        ensures
            r.on_track as nat == bucket_count(self@, today, Urgency::OnTrack),
            r.approaching as nat == bucket_count(self@, today, Urgency::Approaching),
            r.due_today as nat == bucket_count(self@, today, Urgency::DueToday),
            r.overdue as nat == bucket_count(self@, today, Urgency::Overdue),
    {
        let mut counts = UrgencyCounts { on_track: 0, approaching: 0, due_today: 0, overdue: 0 };
        let mut i: usize = 0;
        while i < self.task_list.len()
            invariant
                i <= self.task_list@.len(),
                today.wf(),
                counts.on_track <= i && counts.approaching <= i,
                counts.due_today <= i && counts.overdue <= i,
                counts.on_track as nat == bucket_count(
                    self.task_list@.take(i as int),
                    today,
                    Urgency::OnTrack,
                ),
                counts.approaching as nat == bucket_count(
                    self.task_list@.take(i as int),
                    today,
                    Urgency::Approaching,
                ),
                counts.due_today as nat == bucket_count(
                    self.task_list@.take(i as int),
                    today,
                    Urgency::DueToday,
                ),
                counts.overdue as nat == bucket_count(
                    self.task_list@.take(i as int),
                    today,
                    Urgency::Overdue,
                ),
            decreases self.task_list@.len() - i,
        {
            assert(self.task_list@.take(i + 1).drop_last() =~= self.task_list@.take(i as int));
            let t = &self.task_list[i];
            if t.status == TaskStatus::Incomplete {
                match t.deadline_urgency(today) {
                    Some(Urgency::OnTrack) => counts.on_track = counts.on_track + 1,
                    Some(Urgency::Approaching) => counts.approaching = counts.approaching + 1,
                    Some(Urgency::DueToday) => counts.due_today = counts.due_today + 1,
                    Some(Urgency::Overdue) => counts.overdue = counts.overdue + 1,
                    None => {},
                }
            }
            i += 1;
        }
        assert(self.task_list@.take(i as int) =~= self.task_list@);
        counts
    }

    /// A copy of the whole collection, in order.
    pub fn get_tasklist(&self) -> (r: Vec<Task>)
        ensures
            r@ == self@,
    {
        let mut out: Vec<Task> = Vec::new();
        let mut i: usize = 0;
        while i < self.task_list.len()
            invariant
                i <= self.task_list@.len(),
                out@ == self.task_list@.take(i as int),
            decreases self.task_list@.len() - i,
        {
            let t = &self.task_list[i];
            out.push(t.with_id(t.id));
            assert(out@ =~= self.task_list@.take(i + 1));
            i += 1;
        }
        assert(out@ =~= self.task_list@);
        out
    }

    /// Appends a task as it is, if its name and description are within their
    /// limits; otherwise leaves the store as it was and says which is too long.
    pub fn save_task(&mut self, task: Task) -> (r: Result<(), TaskError>)
        ensures
            r is Ok <==> task.name@.len() <= TITLE_CHAR_LIMIT && task.description@.len()
                <= DESCRIPTION_CHAR_LIMIT,
            task.name@.len() > TITLE_CHAR_LIMIT ==> r == Err::<(), TaskError>(
                TaskError::NameTooLong,
            ),
            task.name@.len() <= TITLE_CHAR_LIMIT && task.description@.len()
                > DESCRIPTION_CHAR_LIMIT ==> r == Err::<(), TaskError>(
                TaskError::DescriptionTooLong,
            ),
            r is Ok ==> final(self)@ == old(self)@.push(task),
            r is Err ==> final(self)@ == old(self)@,
    {
        if task.name.as_str().unicode_len() > TITLE_CHAR_LIMIT {
            return Err(TaskError::NameTooLong);
        }
        if task.description.as_str().unicode_len() > DESCRIPTION_CHAR_LIMIT {
            return Err(TaskError::DescriptionTooLong);
        }
        self.task_list.push(task);
        Ok(())
    }

    /// Replaces the whole collection with the list read back from storage;
    /// a list that was missing or could not be read (`None`) counts as empty.
    pub fn load(&mut self, task_list: Option<Vec<Task>>)
        ensures
            final(self)@ == (match task_list {
                Some(v) => v@,
                None => Seq::<Task>::empty(),
            }),
    {
        self.task_list = match task_list {
            Some(v) => v,
            None => Vec::new(),
        };
    }

    /// Creates an incomplete task posted on `today` and appends it. Its id is one
    /// past the largest id in the store, or 0 in an empty store.
    pub fn create(
        &mut self,
        name: String,
        description: String,
        today: CalendarDate,
        deadline: Option<CalendarDate>,
    ) -> (r: Result<Task, TaskError>)
        requires
            today.wf(),
            deadline matches Some(d) ==> d.wf(),
        ensures
            name@.len() > TITLE_CHAR_LIMIT ==> r == Err::<Task, TaskError>(TaskError::NameTooLong),
            name@.len() <= TITLE_CHAR_LIMIT && description@.len() > DESCRIPTION_CHAR_LIMIT
                ==> r == Err::<Task, TaskError>(TaskError::DescriptionTooLong),
            name@.len() <= TITLE_CHAR_LIMIT && description@.len() <= DESCRIPTION_CHAR_LIMIT
                && next_id(old(self)@) > u32::MAX ==> r == Err::<Task, TaskError>(
                TaskError::IdsExhausted,
            ),
            r is Ok <==> name@.len() <= TITLE_CHAR_LIMIT && description@.len()
                <= DESCRIPTION_CHAR_LIMIT && next_id(old(self)@) <= u32::MAX,
            r is Err ==> final(self)@ == old(self)@,
            r matches Ok(t) ==> {
                &&& t.id as nat == next_id(old(self)@)
                &&& t.name == name
                &&& t.description == description
                &&& t.status == TaskStatus::Incomplete
                &&& t.date_posted@ == text_of_date(today)
                &&& t.date_deadline@ == deadline_text(deadline)
                &&& final(self)@ == old(self)@.push(t)
            },
    {
        if name.as_str().unicode_len() > TITLE_CHAR_LIMIT {
            return Err(TaskError::NameTooLong);
        }
        if description.as_str().unicode_len() > DESCRIPTION_CHAR_LIMIT {
            return Err(TaskError::DescriptionTooLong);
        }
        let id: u32 = if self.is_first_task() {
            0
        } else {
            let last = self.get_last_id();
            if last == u32::MAX {
                return Err(TaskError::IdsExhausted);
            }
            last + 1
        };
        let date_deadline = match deadline {
            Some(d) => date_text(&d),
            None => String::from_str("0000-00-00"),
        };
        let task = Task {
            id,
            name,
            description,
            status: TaskStatus::Incomplete,
            date_posted: date_text(&today),
            date_deadline,
        };
        let copy = task.with_id(id);
        self.task_list.push(task);
        Ok(copy)
    }

    /// The ids named by selection lines, one per line: each line names the
    /// number written by the digits of its first line. `None` where a line
    /// names no such number or one beyond `u32`.
    pub fn get_id_from_str(&self, lines: Vec<String>) -> (r: Option<Vec<u32>>)
        ensures
            r is Some <==> forall|i: int| 0 <= i < lines@.len() ==> (#[trigger] line_id(
                lines@[i]@,
            )) is Some,
            r matches Some(ids) ==> ids@.len() == lines@.len() && forall|i: int|
                0 <= i < lines@.len() ==> line_id(#[trigger] lines@[i]@) == Some(ids@[i]),
    {
        let mut id_vec: Vec<u32> = Vec::new();
        let mut i: usize = 0;
        while i < lines.len()
            invariant
                i <= lines@.len(),
                id_vec@.len() == i,
                forall|j: int| 0 <= j < i ==> line_id(#[trigger] lines@[j]@) == Some(id_vec@[j]),
            decreases lines@.len() - i,
        {
            match line_id_of(lines[i].as_str()) {
                Some(id) => id_vec.push(id),
                None => return None,
            }
            i += 1;
        }
        Some(id_vec)
    }

    /// Gives each task its position as id.
    fn update_ids(&mut self)
        ensures
            final(self)@ == renumbered(old(self)@),
    {
        let ghost start = self.task_list@;
        let mut i: usize = 0;
        while i < self.task_list.len()
            invariant
                i <= self.task_list@.len(),
                self.task_list@.len() == start.len(),
                forall|j: int| 0 <= j < i ==> #[trigger] self.task_list@[j] == renumbered(start)[j],
                forall|j: int| i <= j < start.len() ==> #[trigger] self.task_list@[j] == start[j],
            decreases self.task_list@.len() - i,
        {
            let t = self.task_list[i].with_id(i as u32);
            self.task_list.set(i, t);
            i += 1;
        }
        assert(self.task_list@ =~= renumbered(start));
    }

    /// Removes every task whose id is in `rm_list`, then renumbers the rest
    /// `0..n-1` in their order.
    pub fn delete_tasks(&mut self, rm_list: Vec<u32>)
        ensures
            final(self)@ == renumbered(kept(old(self)@, rm_list@)),
            ids_dense(final(self)@),
    {
        let ghost start = self.task_list@;
        let mut out: Vec<Task> = Vec::new();
        let mut i: usize = 0;
        while i < self.task_list.len()
            invariant
                i <= self.task_list@.len(),
                self.task_list@ == start,
                out@ == renumbered(kept(start.take(i as int), rm_list@)),
            decreases self.task_list@.len() - i,
        {
            let ghost prev = kept(start.take(i as int), rm_list@);
            assert(start.take(i + 1).drop_last() =~= start.take(i as int));
            let t = &self.task_list[i];
            if !contains_id(&rm_list, t.id) {
                let k = out.len();
                out.push(t.with_id(k as u32));
                assert(renumbered(prev.push(*t)) =~= renumbered(prev).push(
                    Task { id: k as u32, ..*t },
                ));
            }
            i += 1;
        }
        assert(start.take(i as int) =~= start);
        self.task_list = out;
    }

    /// Toggles, for each id of `switch_list` in turn, the status of the task at
    /// that position if its id is that id; ids that match no task are passed
    /// over. Ids are then renumbered by position.
    pub fn switch_task_status(&mut self, switch_list: Vec<u32>)
        ensures
            final(self)@ == renumbered(switched(old(self)@, switch_list@)),
    {
        let ghost start = self.task_list@;
        let mut i: usize = 0;
        while i < switch_list.len()
            invariant
                i <= switch_list@.len(),
                self.task_list@ == switched(start, switch_list@.take(i as int)),
            decreases switch_list@.len() - i,
        {
            assert(switch_list@.take(i + 1).drop_last() =~= switch_list@.take(i as int));
            let id = switch_list[i];
            let pos = id as usize;
            if pos < self.task_list.len() && self.task_list[pos].id == id {
                let t = self.task_list[pos].toggled();
                self.task_list.set(pos, t);
            }
            i += 1;
        }
        assert(switch_list@.take(i as int) =~= switch_list@);
        self.update_ids();
    }
}

} // verus!
