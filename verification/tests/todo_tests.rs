use personars::tools::todo_list::{drop_position, TodoFilter, TodoItem, TodoList, TodoPriority};

fn item(text: &str, completed: bool) -> TodoItem {
    TodoItem { text: text.to_owned(), completed, priority: TodoPriority::Normal }
}

fn texts(l: &TodoList) -> Vec<String> {
    l.items().iter().map(|t| t.text.clone()).collect()
}

#[test]
fn fresh_list() {
    let l = TodoList::new();
    let third = format!("{} {}", "Mark this", "task as done");
    assert_eq!(texts(&l), vec!["Welcome to Personars Todo!".to_owned(), "Try adding a new task".to_owned(), third]);
    assert!(l.items()[2].completed);
    assert_eq!(l.items()[1].priority, TodoPriority::High);
    assert_eq!(l.filter(), TodoFilter::All);
}

#[test]
fn adding_trims_and_skips_blank() {
    let mut l = TodoList::from_items(vec![]);
    l.set_new_task_text("  buy milk ");
    l.set_new_task_priority(TodoPriority::Low);
    assert!(l.add_task());
    assert_eq!(texts(&l), vec!["buy milk"]);
    assert_eq!(l.items()[0].priority, TodoPriority::Low);
    assert_eq!(l.new_task_text(), "");
    l.set_new_task_text("   ");
    assert!(!l.add_task());
    assert_eq!(l.items().len(), 1);
    assert_eq!(l.new_task_text(), "   ");
}

#[test]
fn drag_and_drop_moves_one_task() {
    let mut l = TodoList::from_items(vec![item("a", false), item("b", false), item("c", false), item("d", false)]);
    l.move_task(0, 3);
    assert_eq!(texts(&l), vec!["b", "c", "a", "d"]);
    l.move_task(3, 0);
    assert_eq!(texts(&l), vec!["d", "b", "c", "a"]);
    l.move_task(1, 2);
    assert_eq!(texts(&l), vec!["d", "b", "c", "a"]);
    l.move_task(9, 0);
    assert_eq!(texts(&l), vec!["d", "b", "c", "a"]);
    assert_eq!(drop_position(2, false, false), 3);
    assert_eq!(drop_position(2, false, true), 2);
    assert_eq!(drop_position(2, true, false), 2);
}

#[test]
fn delete_and_clear_completed() {
    let mut l = TodoList::from_items(vec![item("a", true), item("b", false), item("c", true), item("d", false)]);
    l.delete_tasks(vec![1, 3, 7]);
    assert_eq!(texts(&l), vec!["a", "c"]);
    let mut l = TodoList::from_items(vec![item("a", true), item("b", false), item("c", true), item("d", false)]);
    l.clear_completed();
    assert_eq!(texts(&l), vec!["b", "d"]);
}

#[test]
fn filters() {
    let mut l = TodoList::from_items(vec![item("a", true), item("b", false), item("c", true)]);
    assert_eq!(l.visible_tasks(), vec![0, 1, 2]);
    l.set_filter(TodoFilter::Active);
    assert_eq!(l.visible_tasks(), vec![1]);
    l.set_filter(TodoFilter::Completed);
    assert_eq!(l.visible_tasks(), vec![0, 2]);
    l.set_completed(1, true);
    assert_eq!(l.visible_tasks(), vec![0, 1, 2]);
}
