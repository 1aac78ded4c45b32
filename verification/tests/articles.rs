use forum_core::article::ArticleStore;
use forum_core::model::{Article, ArticleCreate, ArticleDelete, ArticleEdit};

fn store_with(titles: &[&str]) -> ArticleStore {
    let mut store = ArticleStore::new();
    for t in titles {
        let created = ArticleCreate {
            section_id: 1,
            title: (*t).to_string(),
            content: format!("body of {}", t),
        };
        created.insert(&mut store).unwrap();
    }
    store
}

#[test]
fn insert_returns_the_input_fields_and_a_fresh_id() {
    let mut store = ArticleStore::new();
    let first = ArticleCreate {
        section_id: 4,
        title: "hello".to_string(),
        content: "world".to_string(),
    }
    .insert(&mut store)
    .unwrap();
    assert_eq!(first.section_id, 4);
    assert_eq!(first.title, "hello");
    assert_eq!(first.content, "world");

    let second = ArticleCreate {
        section_id: 4,
        title: "again".to_string(),
        content: "more".to_string(),
    }
    .insert(&mut store)
    .unwrap();
    assert_ne!(second.id, first.id);
    assert!(second.created_time > first.created_time);
}

#[test]
fn insert_fails_only_when_the_counters_are_exhausted() {
    let mut store = ArticleStore {
        rows: Vec::new(),
        next_id: u64::MAX,
        next_time: u64::MAX,
    };
    let e = ArticleCreate {
        section_id: 1,
        title: String::new(),
        content: String::new(),
    }
    .insert(&mut store)
    .unwrap_err();
    assert_eq!(e, "Insert article error.");
}

#[test]
fn update_then_get_by_id_sees_the_full_overwrite() {
    let mut store = store_with(&["a", "b", "c"]);
    let b = Article::get_by_id(&store, 2).unwrap();
    assert_eq!(b.title, "b");

    let edited = ArticleEdit {
        id: 2,
        title: "b2".to_string(),
        content: "rewritten".to_string(),
    }
    .update(&mut store)
    .unwrap();
    assert_eq!(edited.id, 2);
    assert_eq!(edited.title, "b2");
    assert_eq!(edited.content, "rewritten");
    assert_eq!(edited.section_id, b.section_id);
    assert_eq!(edited.created_time, b.created_time);

    let again = Article::get_by_id(&store, 2).unwrap();
    assert_eq!(again.title, "b2");
    assert_eq!(again.content, "rewritten");
    assert_eq!(again.created_time, b.created_time);
}

#[test]
fn update_of_a_missing_id_fails_and_changes_nothing() {
    let mut store = store_with(&["a"]);
    let e = ArticleEdit {
        id: 99,
        title: "x".to_string(),
        content: "y".to_string(),
    }
    .update(&mut store)
    .unwrap_err();
    assert_eq!(e, "Update article error.");
    assert_eq!(Article::get_by_id(&store, 1).unwrap().title, "a");
}

#[test]
fn delete_returns_the_prior_row_and_get_by_id_then_fails() {
    let mut store = store_with(&["a", "b"]);
    let gone = ArticleDelete { id: 1 }.delete(&mut store).unwrap();
    assert_eq!(gone.title, "a");
    let e = Article::get_by_id(&store, 1).unwrap_err();
    assert_eq!(e, "get article error.");
    assert_eq!(Article::get_by_id(&store, 2).unwrap().title, "b");
}

#[test]
fn delete_of_a_missing_id_fails_with_the_fixed_message() {
    let mut store = store_with(&["a"]);
    let e = ArticleDelete { id: 7 }.delete(&mut store).unwrap_err();
    assert_eq!(e, "Delete article error.");
}

#[test]
fn get_by_id_of_an_empty_store_fails() {
    let store = ArticleStore::new();
    assert_eq!(Article::get_by_id(&store, 1).unwrap_err(), "get article error.");
}
