use personars::clock::UtcTime;
use personars::tools::markdown_notes::{MarkdownNotes, NarrowTab, NoteIndex};

fn at(secs: i64) -> UtcTime {
    UtcTime { secs, nanos: 0 }
}

#[test]
fn welcome_note() {
    let mut n = MarkdownNotes::with_welcome(1, at(0), at(0));
    assert_eq!(n.notes().len(), 1);
    assert_eq!(n.notes()[0].title, "Welcome Source Note");
    assert_eq!(n.active_note_id(), Some(1));
    assert!(n.note_index().is_empty());
    n.sync_native_index();
    assert_eq!(n.note_index().len(), 1);
    assert_eq!(n.note_index()[0].title, "Welcome Source Note");
    assert!(n.active_content().unwrap().starts_with("# Welcome to Markdown Notes"));
}

#[test]
fn new_notes_go_first_and_become_active() {
    let mut n = MarkdownNotes::with_welcome(1, at(0), at(0));
    n.sync_native_index();
    n.create_new_note_with(2, at(10));
    assert_eq!(n.notes()[0].id, 2);
    assert_eq!(n.notes()[0].title, "New Note");
    assert_eq!(n.note_index()[0].id, 2);
    assert_eq!(n.active_note_id(), Some(2));
    assert_eq!(n.active_content(), Some(""));
}

#[test]
fn editing_and_selecting() {
    let mut n = MarkdownNotes::with_welcome(1, at(0), at(0));
    n.sync_native_index();
    n.create_new_note_with(2, at(10));
    n.set_title_at("Shopping", at(20));
    n.set_content_at("- milk", at(21), at(21));
    assert_eq!(n.notes()[0].title, "Shopping");
    assert_eq!(n.notes()[0].content, "- milk");
    assert_eq!(n.note_index()[0].title, "Shopping");
    n.select_note(1);
    assert!(n.active_content().unwrap().starts_with("# Welcome"));
    n.select_note(2);
    assert_eq!(n.active_content(), Some("- milk"));
}

#[test]
fn deleting_and_searching() {
    let mut n = MarkdownNotes::with_welcome(1, at(0), at(0));
    n.sync_native_index();
    n.create_new_note_with(2, at(10));
    n.set_title_at("Shopping List", at(20));
    n.set_search_query("SHOP");
    assert_eq!(n.search_results(), vec![0]);
    n.set_search_query("");
    assert_eq!(n.search_results(), vec![0, 1]);
    n.delete_note(2);
    assert_eq!(n.notes().len(), 1);
    assert_eq!(n.note_index().len(), 1);
    assert_eq!(n.notes()[0].id, 1);
    n.set_narrow_tab(NarrowTab::Preview);
    assert_eq!(n.narrow_tab(), NarrowTab::Preview);
}

#[test]
fn content_edit_reaches_the_note() {
    let mut n = MarkdownNotes::with_welcome(1, at(0), at(0));
    n.sync_native_index();
    n.create_new_note();
    let id = n.active_note_id().unwrap();
    assert_eq!(n.note_index()[0].id, id);
    n.set_content("hello");
    assert_eq!(n.notes()[0].content, "hello");
    assert_eq!(n.notes()[1].id, 1);
    assert!(n.notes()[1].content.starts_with("# Welcome"));
}

#[test]
fn loaded_index_and_content() {
    // the welcome note is active and its content not loaded yet
    let mut n = MarkdownNotes::with_welcome(1, at(0), at(0));
    assert_eq!(n.apply_loaded_index(Vec::new()), Some(1));
    assert!(n.note_index().is_empty());
    let loaded = vec![
        NoteIndex { id: 1, title: "First".to_owned(), created_at: at(5), modified_at: at(6) },
        NoteIndex { id: 2, title: "Second".to_owned(), created_at: at(7), modified_at: at(8) },
    ];
    assert_eq!(n.apply_loaded_index(loaded), Some(1));
    let titles: Vec<&str> = n.note_index().iter().map(|e| e.title.as_str()).collect();
    assert_eq!(titles, vec!["First", "Second"]);
    // content for another note is dropped, content for the active one is taken
    n.apply_loaded_content(2, "other".to_owned());
    assert_eq!(n.active_content(), None);
    n.apply_loaded_content(1, "# Loaded".to_owned());
    assert_eq!(n.active_content(), Some("# Loaded"));
    // once loaded, nothing more is asked for
    assert_eq!(n.apply_loaded_index(Vec::new()), None);
}
