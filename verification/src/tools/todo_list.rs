//! A task list: adding tasks, completing, reordering by drag and drop,
//! deleting, clearing completed tasks and filtering what is shown.
use crate::text::{trim, trim_spec};
use vstd::prelude::*;

verus! {

broadcast use vstd::seq_lib::group_to_multiset_ensures;

/// Priority of a task.
#[derive(PartialEq, Eq, Clone, Copy, Debug, Structural)]
pub enum TodoPriority {
    High,
    Normal,
    Low,
    /// No priority set.
    NoPriority,
}

/// Which tasks the list shows.
#[derive(PartialEq, Eq, Clone, Copy, Debug, Structural)]
pub enum TodoFilter {
    All,
    Active,
    Completed,
}

/// One task.
pub struct TodoItem {
    pub text: String,
    pub completed: bool,
    pub priority: TodoPriority,
}

/// A task by its text, completion and priority.
pub type TodoModel = (Seq<char>, bool, TodoPriority);

impl View for TodoItem {
    type V = TodoModel;

    open spec fn view(&self) -> TodoModel {
        (self.text@, self.completed, self.priority)
    }
}

/// The task list with its input line and its filter.
pub struct TodoList {
    items: Vec<TodoItem>,
    new_task_text: String,
    new_task_priority: TodoPriority,
    filter: TodoFilter,
}

// ---------------------------------------------------------------------------
// Specifications
// ---------------------------------------------------------------------------

/// A task matches a filter.
pub open spec fn shown_by(filter: TodoFilter, completed: bool) -> bool {
    match filter {
        TodoFilter::All => true,
        TodoFilter::Active => !completed,
        TodoFilter::Completed => completed,
    }
}

/// Moving the task at `from` to the drop position `to` (a position between
/// tasks, `0..=len`): the task is taken out and put back at `to`, or at
/// `to - 1` when it came from before `to`. Out-of-range requests change
/// nothing.
pub open spec fn reorder_spec<A>(items: Seq<A>, from: int, to: int) -> Seq<A> {
    if 0 <= from < items.len() && 0 <= to <= items.len() {
        let target = if from < to {
            to - 1
        } else {
            to
        };
        if from != target {
            items.remove(from).insert(target, items[from])
        } else {
            items
        }
    } else {
        items
    }
}

/// Positions in descending order (repetitions allowed).
pub open spec fn sorted_desc(s: Seq<usize>) -> bool {
    forall|i: int, j: int| 0 <= i < j < s.len() ==> s[i] >= s[j]
}

/// Removing, one after the other, the element at each listed position; a
/// position past the end at its turn removes nothing.
pub open spec fn remove_each<A>(items: Seq<A>, positions: Seq<usize>) -> Seq<A>
    decreases positions.len(),
{
    if positions.len() == 0 {
        items
    } else {
        let p = positions[0];
        let next = if p < items.len() {
            items.remove(p as int)
        } else {
            items
        };
        remove_each(next, positions.drop_first())
    }
}

/// The elements whose positions are not in `marked`, in their order.
pub open spec fn without_positions<A>(items: Seq<A>, marked: Set<int>) -> Seq<A>
    decreases items.len(),
{
    if items.len() == 0 {
        Seq::empty()
    } else {
        let rest = without_positions(items.drop_last(), marked);
        if marked.contains(items.len() - 1) {
            rest
        } else {
            rest.push(items.last())
        }
    }
}

/// Positions of the tasks that a filter shows, in list order.
pub open spec fn visible_positions(items: Seq<TodoModel>, filter: TodoFilter) -> Seq<usize>
    decreases items.len(),
{
    if items.len() == 0 {
        Seq::empty()
    } else {
        let rest = visible_positions(items.drop_last(), filter);
        if shown_by(filter, items.last().1) {
            rest.push((items.len() - 1) as usize)
        } else {
            rest
        }
    }
}

/// The tasks that are not completed, in order.
pub open spec fn active_only(items: Seq<TodoModel>) -> Seq<TodoModel> {
    items.filter(|t: TodoModel| !t.1)
}

/// The text of the third starting task.
pub open spec fn third_item_text() -> Seq<char> {
    "Mark this"@ + " task as done"@
}

/// The task list that a fresh list shows.
pub open spec fn default_items() -> Seq<TodoModel> {
    seq![
        ("Welcome to Personars Todo!"@, false, TodoPriority::Normal),
        ("Try adding a new task"@, false, TodoPriority::High),
        (third_item_text(), true, TodoPriority::Low),
    ]
}

// ---------------------------------------------------------------------------
// Helpers
// ---------------------------------------------------------------------------

/// The positions sorted in descending order, as `sort_unstable_by(|a, b| b.cmp(a))`
/// leaves them: the same multiset, largest first.
pub fn sort_positions_desc(positions: &Vec<usize>) -> (r: Vec<usize>)
    ensures
        r@.to_multiset() == positions@.to_multiset(),
        sorted_desc(r@),
{
    let mut r: Vec<usize> = Vec::new();
    let mut i: usize = 0;
    while i < positions.len()
        invariant
            i <= positions@.len(),
            r@.to_multiset() == positions@.take(i as int).to_multiset(),
            sorted_desc(r@),
        decreases positions@.len() - i,
    {
        let x = positions[i];
        let mut k: usize = 0;
        while k < r.len() && r[k] >= x
            invariant
                k <= r@.len(),
                forall|t: int| 0 <= t < k ==> r@[t] >= x,
            decreases r@.len() - k,
        {
            k += 1;
        }
        let ghost before = r@;
        r.insert(k, x);
        proof {
            assert(r@ == before.insert(k as int, x));
            assert forall|a: int, b: int| 0 <= a < b < r@.len() implies r@[a] >= r@[b] by {
                if b < k {
                } else if a < k && b == k {
                } else if a < k && b > k {
                    assert(r@[b] == before[b - 1]);
                    if (k as int) < before.len() {
                        assert(before[k as int] < x);
                        assert(before[k as int] >= before[b - 1]);
                    }
                } else if a == k {
                    assert(r@[b] == before[b - 1]);
                    assert(before[k as int] < x);
                    assert(before[k as int] >= before[b - 1]);
                } else {
                    assert(r@[a] == before[a - 1]);
                    assert(r@[b] == before[b - 1]);
                }
            }
            assert(positions@.take(i + 1) =~= positions@.take(i as int).push(x));
        }
        i += 1;
    }
    assert(positions@.take(positions@.len() as int) =~= positions@);
    r
}

// ---------------------------------------------------------------------------
// The list
// ---------------------------------------------------------------------------

impl TodoList {
    pub closed spec fn items_view(&self) -> Seq<TodoModel> {
        self.items@.map_values(|t: TodoItem| t@)
    }

    pub closed spec fn new_task_text_spec(&self) -> Seq<char> {
        self.new_task_text@
    }

    pub closed spec fn new_task_priority_spec(&self) -> TodoPriority {
        self.new_task_priority
    }

    pub closed spec fn filter_spec(&self) -> TodoFilter {
        self.filter
    }

    /// A list that holds only the given tasks, with an empty input line,
    /// normal priority for new tasks and every task shown.
    pub fn from_items(items: Vec<TodoItem>) -> (r: Self)
        ensures
            r.items_view() == items@.map_values(|t: TodoItem| t@),
            r.new_task_text_spec() == Seq::<char>::empty(),
            r.new_task_priority_spec() == TodoPriority::Normal,
            r.filter_spec() == TodoFilter::All,
    {
        TodoList {
            items,
            new_task_text: String::new(),
            new_task_priority: TodoPriority::Normal,
            filter: TodoFilter::All,
        }
    }

    /// The state a fresh tool starts in.
    pub open spec fn is_fresh(&self) -> bool {
        &&& (self.items_view() == default_items())
        &&& (self.new_task_text_spec() == Seq::<char>::empty())
        &&& (self.new_task_priority_spec() == TodoPriority::Normal)
        &&& (self.filter_spec() == TodoFilter::All)
    }

    /// The list a new user sees: three example tasks.
    pub fn new() -> (r: Self)
        ensures
            r.is_fresh(),
            r.items_view() == default_items(),
            r.new_task_text_spec() == Seq::<char>::empty(),
            r.new_task_priority_spec() == TodoPriority::Normal,
            r.filter_spec() == TodoFilter::All,
    {
        let mut items: Vec<TodoItem> = Vec::new();
        items.push(
            TodoItem {
                text: String::from_str("Welcome to Personars Todo!"),
                completed: false,
                priority: TodoPriority::Normal,
            },
        );
        items.push(
            TodoItem {
                text: String::from_str("Try adding a new task"),
                completed: false,
                priority: TodoPriority::High,
            },
        );
        items.push(
            TodoItem {
                text: String::from_str("Mark this").concat(" task as done"),
                completed: true,
                priority: TodoPriority::Low,
            },
        );
        let r = TodoList::from_items(items);
        assert(r.items_view() =~= default_items());
        r
    }

    /// Add the typed task ("Add" or Enter): when the trimmed input is not
    /// empty, a new uncompleted task with that text and the chosen priority
    /// goes to the end and the input is cleared; otherwise nothing changes.
    /// Returns whether a task was added.
    pub fn add_task(&mut self) -> (added: bool)
        ensures
            added == (trim_spec(old(self).new_task_text_spec()).len() > 0),
            added ==> final(self).items_view() == old(self).items_view().push(
                (trim_spec(old(self).new_task_text_spec()), false, old(self).new_task_priority_spec()),
            ),
            added ==> final(self).new_task_text_spec() == Seq::<char>::empty(),
            !added ==> final(self).items_view() == old(self).items_view(),
            !added ==> final(self).new_task_text_spec() == old(self).new_task_text_spec(),
            final(self).new_task_priority_spec() == old(self).new_task_priority_spec(),
            final(self).filter_spec() == old(self).filter_spec(),
    {
        let text = trim(self.new_task_text.as_str());
        if text.as_str().is_empty() {
            return false;
        }
        let ghost before = self.items@;
        self.items.push(TodoItem { text, completed: false, priority: self.new_task_priority });
        assert(self.items@.map_values(|t: TodoItem| t@) =~= before.map_values(|t: TodoItem| t@).push(
            self.items@.last()@,
        ));
        self.new_task_text = String::new();
        true
    }

    /// Remove every completed task ("Clear Completed"), keeping the order of
    /// the others.
    pub fn clear_completed(&mut self)
        ensures
            final(self).items_view() == active_only(old(self).items_view()),
            final(self).new_task_text_spec() == old(self).new_task_text_spec(),
            final(self).new_task_priority_spec() == old(self).new_task_priority_spec(),
            final(self).filter_spec() == old(self).filter_spec(),
    {
        let mut kept: Vec<TodoItem> = Vec::new();
        let mut items: Vec<TodoItem> = Vec::new();
        std::mem::swap(&mut items, &mut self.items);
        let n = items.len();
        let ghost all = items@;
        let mut i: usize = 0;
        while i < n
            invariant
                i <= n == all.len(),
                items@ == all.subrange(i as int, n as int),
                kept@.map_values(|t: TodoItem| t@) == active_only(
                    all.take(i as int).map_values(|t: TodoItem| t@),
                ),
            decreases n - i,
        {
            let item = items.remove(0);
            proof {
                assert(item == all[i as int]);
                let m = all.take(i + 1).map_values(|t: TodoItem| t@);
                assert(m.drop_last() =~= all.take(i as int).map_values(|t: TodoItem| t@));
                assert(m.last() == item@);
                reveal(Seq::filter);
            }
            if !item.completed {
                let ghost k = kept@;
                kept.push(item);
                assert(kept@.map_values(|t: TodoItem| t@) =~= k.map_values(|t: TodoItem| t@).push(
                    item@,
                ));
            }
            i += 1;
            proof {
                assert(items@ =~= all.subrange(i as int, n as int));
            }
        }
        assert(all.take(n as int) =~= all);
        self.items = kept;
    }

    /// Apply a drag and drop: move the task at `from` to the drop position
    /// `to` (see [`reorder_spec`]).
    pub fn move_task(&mut self, from: usize, to: usize)
        ensures
            final(self).items_view() == reorder_spec(old(self).items_view(), from as int, to as int),
            final(self).new_task_text_spec() == old(self).new_task_text_spec(),
            final(self).new_task_priority_spec() == old(self).new_task_priority_spec(),
            final(self).filter_spec() == old(self).filter_spec(),
    {
        let len = self.items.len();
        if from < len && to <= len {
            let mut to = to;
            if from < to {
                to -= 1;
            }
            if from != to {
                let ghost before = self.items@;
                let item = self.items.remove(from);
                self.items.insert(to, item);
                proof {
                    let v = before.map_values(|t: TodoItem| t@);
                    assert(self.items@ == before.remove(from as int).insert(to as int, item));
                    assert(self.items@.map_values(|t: TodoItem| t@) =~= v.remove(from as int).insert(
                        to as int,
                        v[from as int],
                    ));
                }
            }
        }
    }

    /// Delete the tasks at the given positions (the trash buttons clicked in
    /// one frame): the positions are taken largest first and each one that
    /// is still inside the list is removed.
    pub fn delete_tasks(&mut self, positions: Vec<usize>)
        ensures
            exists|s: Seq<usize>|
                #![trigger remove_each(old(self).items_view(), s)]
                s.to_multiset() == positions@.to_multiset() && sorted_desc(s)
                    && final(self).items_view() == remove_each(old(self).items_view(), s),
            final(self).new_task_text_spec() == old(self).new_task_text_spec(),
            final(self).new_task_priority_spec() == old(self).new_task_priority_spec(),
            final(self).filter_spec() == old(self).filter_spec(),
    {
        let sorted = sort_positions_desc(&positions);
        let ghost start = self.items_view();
        let ghost text = self.new_task_text@;
        let ghost priority = self.new_task_priority;
        let ghost filter = self.filter;
        let mut i: usize = 0;
        assert(sorted@.skip(0) =~= sorted@);
        while i < sorted.len()
            invariant
                i <= sorted@.len(),
                remove_each(start, sorted@) == remove_each(self.items_view(), sorted@.skip(i as int)),
                self.new_task_text@ == text,
                self.new_task_priority == priority,
                self.filter == filter,
            decreases sorted@.len() - i,
        {
            let p = sorted[i];
            let ghost before = self.items_view();
            let ghost before_items = self.items@;
            proof {
                assert(sorted@.skip(i as int)[0] == p);
                assert(sorted@.skip(i as int).drop_first() =~= sorted@.skip(i + 1));
            }
            if p < self.items.len() {
                self.items.remove(p);
                assert(self.items_view() =~= before.remove(p as int)) by {
                    assert(self.items@ == before_items.remove(p as int));
                }
            }
            i += 1;
        }
        assert(sorted@.skip(sorted@.len() as int) =~= Seq::<usize>::empty());
        assert(remove_each(start, sorted@) == self.items_view());
    }

    /// Positions of the tasks that the current filter shows, in list order.
    pub fn visible_tasks(&self) -> (r: Vec<usize>)
        ensures
            r@ == visible_positions(self.items_view(), self.filter_spec()),
    {
        let mut r: Vec<usize> = Vec::new();
        let mut i: usize = 0;
        while i < self.items.len()
            invariant
                i <= self.items@.len(),
                r@ == visible_positions(self.items_view().take(i as int), self.filter),
            decreases self.items@.len() - i,
        {
            let completed = self.items[i].completed;
            let show = match self.filter {
                TodoFilter::All => true,
                TodoFilter::Active => !completed,
                TodoFilter::Completed => completed,
            };
            proof {
                let t = self.items_view().take(i + 1);
                assert(t.drop_last() =~= self.items_view().take(i as int));
                assert(t.last() == self.items_view()[i as int]);
            }
            if show {
                r.push(i);
            }
            i += 1;
        }
        assert(self.items_view().take(self.items@.len() as int) =~= self.items_view());
        r
    }

    pub fn set_new_task_text(&mut self, text: &str)
        ensures
            final(self).new_task_text_spec() == text@,
            final(self).items_view() == old(self).items_view(),
            final(self).new_task_priority_spec() == old(self).new_task_priority_spec(),
            final(self).filter_spec() == old(self).filter_spec(),
    {
        self.new_task_text = String::from_str(text);
    }

    pub fn set_new_task_priority(&mut self, priority: TodoPriority)
        ensures
            final(self).new_task_priority_spec() == priority,
            final(self).items_view() == old(self).items_view(),
            final(self).new_task_text_spec() == old(self).new_task_text_spec(),
            final(self).filter_spec() == old(self).filter_spec(),
    {
        self.new_task_priority = priority;
    }

    pub fn set_filter(&mut self, filter: TodoFilter)
        ensures
            final(self).filter_spec() == filter,
            final(self).items_view() == old(self).items_view(),
            final(self).new_task_text_spec() == old(self).new_task_text_spec(),
            final(self).new_task_priority_spec() == old(self).new_task_priority_spec(),
    {
        self.filter = filter;
    }

    /// Tick or untick the task at `index` (its checkbox).
    pub fn set_completed(&mut self, index: usize, completed: bool)
        requires
            index < old(self).items_view().len(),
        ensures
            final(self).items_view() == old(self).items_view().update(
                index as int,
                (old(self).items_view()[index as int].0, completed, old(self).items_view()[index as int].2),
            ),
            final(self).new_task_text_spec() == old(self).new_task_text_spec(),
            final(self).new_task_priority_spec() == old(self).new_task_priority_spec(),
            final(self).filter_spec() == old(self).filter_spec(),
    {
        let ghost before = self.items@;
        self.items[index].completed = completed;
        assert(self.items_view() =~= before.map_values(|t: TodoItem| t@).update(
            index as int,
            (before[index as int].text@, completed, before[index as int].priority),
        ));
    }

    /// Change the priority of the task at `index` (its priority selector).
    pub fn set_priority(&mut self, index: usize, priority: TodoPriority)
        requires
            index < old(self).items_view().len(),
        ensures
            final(self).items_view() == old(self).items_view().update(
                index as int,
                (old(self).items_view()[index as int].0, old(self).items_view()[index as int].1, priority),
            ),
            final(self).new_task_text_spec() == old(self).new_task_text_spec(),
            final(self).new_task_priority_spec() == old(self).new_task_priority_spec(),
            final(self).filter_spec() == old(self).filter_spec(),
    {
        let ghost before = self.items@;
        self.items[index].priority = priority;
        assert(self.items_view() =~= before.map_values(|t: TodoItem| t@).update(
            index as int,
            (before[index as int].text@, before[index as int].completed, priority),
        ));
    }

    pub fn items(&self) -> (r: &Vec<TodoItem>)
        ensures
            r@.map_values(|t: TodoItem| t@) == self.items_view(),
    {
        &self.items
    }

    pub fn new_task_text(&self) -> (r: &str)
        ensures
            r@ == self.new_task_text_spec(),
    {
        self.new_task_text.as_str()
    }

    pub fn new_task_priority(&self) -> (r: TodoPriority)
        ensures
            r == self.new_task_priority_spec(),
    {
        self.new_task_priority
    }

    pub fn filter(&self) -> (r: TodoFilter)
        ensures
            r == self.filter_spec(),
    {
        self.filter
    }
}

/// Where a dragged task lands when dropped on the row at `row`: on the row
/// itself when it is the dragged task or when the pointer is in the row's
/// upper half, just after the row otherwise.
pub fn drop_position(row: usize, row_is_dragged: bool, pointer_in_upper_half: bool) -> (r: usize)
    requires
        row < usize::MAX,
    ensures
        r == (if row_is_dragged || pointer_in_upper_half {
            row
        } else {
            (row + 1) as usize
        }),
{
    if row_is_dragged {
        row
    } else if pointer_in_upper_half {
        row
    } else {
        row + 1
    }
}

// ---------------------------------------------------------------------------
// Laws
// ---------------------------------------------------------------------------

/// Reordering by drag and drop neither loses nor duplicates a task: the
/// tasks after the move are the tasks before it, rearranged.
pub proof fn law_reorder_is_permutation(items: Seq<TodoModel>, from: int, to: int)
    ensures
        reorder_spec(items, from, to).to_multiset() == items.to_multiset(),
        reorder_spec(items, from, to).len() == items.len(),
{
    if 0 <= from < items.len() && 0 <= to <= items.len() {
        let target = if from < to {
            to - 1
        } else {
            to
        };
        if from != target {
            let x = items[from];
            let r = items.remove(from);
            assert(r.insert(target, x).to_multiset() == r.to_multiset().insert(x));
            assert(r.to_multiset() == items.to_multiset().remove(x));
            assert(items.to_multiset().count(x) > 0) by {
                assert(items.contains(x));
            }
        }
    }
}

/// A moved task ends up at its drop position (or just before it when it
/// came from above), and the task dropped onto its own place stays put.
pub proof fn law_reorder_places_task(items: Seq<TodoModel>, from: int, to: int)
    requires
        0 <= from < items.len(),
        0 <= to <= items.len(),
    ensures
        reorder_spec(items, from, to)[if from < to {
            to - 1
        } else {
            to
        }] == items[from],
{
}

/// Deleting tasks at distinct positions inside the list, given largest
/// first as the list does, removes exactly the tasks at those positions and
/// keeps the others in order.
pub proof fn law_delete_removes_marked(items: Seq<TodoModel>, positions: Seq<usize>)
    requires
        sorted_desc(positions),
        positions.no_duplicates(),
        forall|k: int| 0 <= k < positions.len() ==> #[trigger] positions[k] < items.len(),
    ensures
        remove_each(items, positions) == without_positions(
            items,
            positions.to_set().map(|p: usize| p as int),
        ),
    decreases positions.len(),
{
    let marked = positions.to_set().map(|p: usize| p as int);
    if positions.len() == 0 {
        assert(marked =~= Set::<int>::empty());
        lemma_without_nothing(items, marked);
    } else {
        let p = positions[0];
        let rest = positions.drop_first();
        let rest_marked = rest.to_set().map(|q: usize| q as int);
        assert forall|k: int| 0 <= k < rest.len() implies #[trigger] rest[k] < items.len() - 1 by {
            assert(rest[k] == positions[k + 1]);
            assert(positions[0] >= positions[k + 1]);
            assert(positions[0] != positions[k + 1]);
        }
        assert forall|i: int, j: int| 0 <= i < j < rest.len() implies rest[i] >= rest[j] by {
            assert(rest[i] == positions[i + 1]);
            assert(rest[j] == positions[j + 1]);
        }
        law_delete_removes_marked(items.remove(p as int), rest);
        assert forall|q: int| rest_marked.contains(q) implies q < p by {
            let k = choose|k: int| 0 <= k < rest.len() && rest[k] as int == q;
            assert(rest[k] == positions[k + 1]);
            assert(positions[0] >= positions[k + 1]);
            assert(positions[0] != positions[k + 1]);
        }
        assert(marked =~= rest_marked.insert(p as int)) by {
            assert forall|q: int| marked.contains(q) <==> rest_marked.insert(p as int).contains(q) by {
                if marked.contains(q) {
                    let k = choose|k: int| 0 <= k < positions.len() && positions[k] as int == q;
                    if k > 0 {
                        assert(rest[k - 1] == positions[k]);
                        assert(rest.to_set().contains(rest[k - 1]));
                    }
                }
                if rest_marked.contains(q) {
                    let u = choose|u: usize| rest.to_set().contains(u) && u as int == q;
                    let k = choose|k: int| 0 <= k < rest.len() && rest[k] == u;
                    assert(positions[k + 1] == u);
                    assert(positions.to_set().contains(u));
                }
                if q == p as int {
                    assert(positions.to_set().contains(p));
                }
            }
        }
        lemma_without_remove_largest(items, rest_marked, p as int);
    }
}

/// Marking nothing keeps everything.
proof fn lemma_without_nothing(items: Seq<TodoModel>, marked: Set<int>)
    requires
        forall|q: int| !marked.contains(q),
    ensures
        without_positions(items, marked) == items,
    decreases items.len(),
{
    if items.len() > 0 {
        lemma_without_nothing(items.drop_last(), marked);
        assert(items.drop_last().push(items.last()) =~= items);
    }
}

/// Removing the element at `p`, which lies after every other marked
/// position, and then dropping the other marked positions, is the same as
/// dropping all of them.
proof fn lemma_without_remove_largest(items: Seq<TodoModel>, marked: Set<int>, p: int)
    requires
        0 <= p < items.len(),
        forall|q: int| marked.contains(q) ==> q < p,
    ensures
        without_positions(items.remove(p), marked) == without_positions(items, marked.insert(p)),
    decreases items.len(),
{
    let all = marked.insert(p);
    if p == items.len() - 1 {
        assert(items.remove(p) =~= items.drop_last());
        lemma_without_same_below(items.drop_last(), marked, all);
    } else {
        let shorter = items.drop_last();
        lemma_without_remove_largest(shorter, marked, p);
        assert(items.remove(p).drop_last() =~= shorter.remove(p));
        assert(items.remove(p).last() == items.last());
        assert(!marked.contains(items.remove(p).len() - 1));
        assert(!all.contains(items.len() - 1));
    }
}

/// Only the marks below the length matter.
proof fn lemma_without_same_below(items: Seq<TodoModel>, a: Set<int>, b: Set<int>)
    requires
        forall|q: int| 0 <= q < items.len() ==> (a.contains(q) <==> b.contains(q)),
    ensures
        without_positions(items, a) == without_positions(items, b),
    decreases items.len(),
{
    if items.len() > 0 {
        lemma_without_same_below(items.drop_last(), a, b);
    }
}

/// Clearing completed tasks leaves only uncompleted ones, and keeps every
/// uncompleted one.
pub proof fn law_clear_completed_keeps_active(items: Seq<TodoModel>)
    ensures
        forall|i: int| 0 <= i < active_only(items).len() ==> !(#[trigger] active_only(items)[i]).1,
        forall|t: TodoModel| items.contains(t) && !t.1 ==> active_only(items).contains(t),
        active_only(active_only(items)) == active_only(items),
{
    broadcast use vstd::seq_lib::group_filter_ensures;

    let a = active_only(items);
    assert forall|i: int| 0 <= i < a.len() implies !(#[trigger] a[i]).1 by {
        assert(a.contains(a[i]));
    }
    lemma_filter_all(a);
}

proof fn lemma_filter_all(s: Seq<TodoModel>)
    requires
        forall|i: int| 0 <= i < s.len() ==> !(#[trigger] s[i]).1,
    ensures
        s.filter(|t: TodoModel| !t.1) == s,
    decreases s.len(),
{
    reveal(Seq::filter);
    if s.len() > 0 {
        lemma_filter_all(s.drop_last());
        assert(s.drop_last().push(s.last()) =~= s);
    }
}

} // verus!
