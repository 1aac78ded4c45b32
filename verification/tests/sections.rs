use forum_core::model::{Section, SectionEdit, SectionNew, UpdateSectionWeight, WEIGHT_SCALE};
use forum_core::section::SectionStore;

fn two_forums() -> SectionStore {
    let mut store = SectionStore::new();
    for (t, w) in [("alpha", 1), ("beta", 2)] {
        let s = SectionNew {
            title: t.to_string(),
            description: format!("about {}", t),
        }
        .create(&mut store)
        .unwrap();
        UpdateSectionWeight { id: s.id, weight: w * WEIGHT_SCALE }
            .update(&mut store)
            .unwrap();
    }
    store
}

#[test]
fn create_assigns_an_id_and_forum_defaults() {
    let mut store = SectionStore::new();
    let s = SectionNew {
        title: "news".to_string(),
        description: "all the news".to_string(),
    }
    .create(&mut store)
    .unwrap();
    assert_eq!(s.title, "news");
    assert_eq!(s.description, "all the news");
    assert_eq!(s.stype, 0);
    assert_eq!(s.suser, None);
    assert_eq!(s.weight, 0);
    let found = Section::get_by_id(&store, s.id).unwrap();
    assert_eq!(found.title, "news");
}

#[test]
fn edit_overwrites_title_and_description_only() {
    let mut store = two_forums();
    let s = SectionEdit {
        id: 1,
        title: "alpha2".to_string(),
        description: "new text".to_string(),
    }
    .update(&mut store)
    .unwrap();
    assert_eq!(s.title, "alpha2");
    assert_eq!(s.description, "new text");
    assert_eq!(s.weight, WEIGHT_SCALE);
    let e = SectionEdit {
        id: 9,
        title: String::new(),
        description: String::new(),
    }
    .update(&mut store)
    .unwrap_err();
    assert_eq!(e, "Update section error.");
}

#[test]
fn weight_update_changes_only_the_weight() {
    let mut store = two_forums();
    let s = UpdateSectionWeight { id: 2, weight: 9 * WEIGHT_SCALE }
        .update(&mut store)
        .unwrap();
    assert_eq!(s.title, "beta");
    assert_eq!(s.weight, 9 * WEIGHT_SCALE);
    let e = UpdateSectionWeight { id: 9, weight: 0 }.update(&mut store).unwrap_err();
    assert_eq!(e, "Update section weight error.");
}

#[test]
fn lookup_errors_use_the_fixed_message() {
    let store = SectionStore::new();
    assert_eq!(Section::get_by_id(&store, 1).unwrap_err(), "get section error.");
    assert_eq!(Section::get_by_suser(&store, 1).unwrap_err(), "get section error.");
}

#[test]
fn get_by_suser_finds_the_first_owned_section() {
    let mut store = two_forums();
    store.rows[1].suser = Some(7);
    store.rows[1].stype = 1;
    let s = Section::get_by_suser(&store, 7).unwrap();
    assert_eq!(s.id, 2);
    assert_eq!(Section::get_by_suser(&store, 8).unwrap_err(), "get section error.");
}

#[test]
fn forum_sections_lists_forums_by_weight_ascending() {
    let mut store = two_forums();
    // A third section, made a blog: it must not appear in the listing.
    let blog = SectionNew {
        title: "my blog".to_string(),
        description: String::new(),
    }
    .create(&mut store)
    .unwrap();
    store.rows[(blog.id - 1) as usize].stype = 1;
    // Put alpha behind beta.
    UpdateSectionWeight { id: 1, weight: 5 * WEIGHT_SCALE }
        .update(&mut store)
        .unwrap();
    let listed = Section::forum_sections(&store);
    let titles: Vec<&str> = listed.iter().map(|s| s.title.as_str()).collect();
    assert_eq!(titles, vec!["beta", "alpha"]);
}

#[test]
fn create_fails_with_the_fixed_message_when_the_id_counter_is_exhausted() {
    let mut store = SectionStore { rows: Vec::new(), next_id: u64::MAX };
    let e = SectionNew {
        title: String::new(),
        description: String::new(),
    }
    .create(&mut store)
    .unwrap_err();
    assert_eq!(e, "Insert section error.");
}
