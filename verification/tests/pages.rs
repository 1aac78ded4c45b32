use forum_core::article::ArticleStore;
use forum_core::handlers::{Outcome, Params, RedirectTarget, Route, SectionPage};
use forum_core::model::{
    ArticleCreate, Section, SectionNew, UpdateSectionWeight, User, WEIGHT_SCALE,
};
use forum_core::section::{SectionStore, NUMBER_ARTICLE_PER_PAGE};

fn no_params() -> Params {
    Params {
        id: None,
        author_id: None,
        current_page: None,
        title: None,
        description: None,
        order: Vec::new(),
    }
}

fn bytes(s: &str) -> Option<Vec<u8>> {
    Some(s.as_bytes().to_vec())
}

fn admin() -> Option<User> {
    Some(User { id: 100, role: 9 })
}

fn stores_with_blog() -> (ArticleStore, SectionStore) {
    let mut sstore = SectionStore::new();
    let s = SectionNew {
        title: "dev blog".to_string(),
        description: "notes".to_string(),
    }
    .create(&mut sstore)
    .unwrap();
    sstore.rows[(s.id - 1) as usize].stype = 1;
    sstore.rows[(s.id - 1) as usize].suser = Some(7);
    let mut astore = ArticleStore::new();
    for i in 0..3 {
        ArticleCreate {
            section_id: s.id,
            title: format!("post {}", i),
            content: String::new(),
        }
        .insert(&mut astore)
        .unwrap();
    }
    (astore, sstore)
}

#[test]
fn detail_by_id_fills_the_view() {
    let (astore, sstore) = stores_with_blog();
    let mut params = no_params();
    params.id = bytes("1");
    let user = Some(User { id: 7, role: 3 });
    let r = SectionPage::section_detail_page(&sstore, &astore, &Route::Blog, &params, &user);
    match r {
        Outcome::SectionDetail(v) => {
            assert_eq!(v.section.id, 1);
            assert!(v.is_a_blog);
            assert!(v.is_myown_blog);
            assert!(!v.is_admin);
            assert!(v.is_login);
            assert_eq!(v.total_item, 3);
            assert_eq!(v.total_page, 1);
            assert_eq!(v.current_page, 1);
            assert_eq!(v.articles.len(), 3);
            assert_eq!(v.articles[0].title, "post 2");
        }
        _ => panic!("expected the detail view"),
    }
}

#[test]
fn detail_of_a_missing_section_is_not_found() {
    let (astore, sstore) = stores_with_blog();
    let mut params = no_params();
    params.id = bytes("99");
    let r = SectionPage::section_detail_page(&sstore, &astore, &Route::Section, &params, &None);
    match r {
        Outcome::NotFound(m) => assert_eq!(m, "Not Found"),
        _ => panic!("expected a not-found outcome"),
    }
}

#[test]
fn blog_by_author_matches_direct_id_access() {
    let (astore, sstore) = stores_with_blog();
    let mut by_author = no_params();
    by_author.author_id = bytes("7");
    let a = SectionPage::section_detail_page(
        &sstore,
        &astore,
        &Route::BlogWithAuthor,
        &by_author,
        &None,
    );
    let mut by_id = no_params();
    by_id.id = bytes("1");
    let b = SectionPage::section_detail_page(&sstore, &astore, &Route::Blog, &by_id, &None);
    match (a, b) {
        (Outcome::SectionDetail(va), Outcome::SectionDetail(vb)) => {
            assert_eq!(va.section.id, vb.section.id);
            assert_eq!(va.section.title, vb.section.title);
            assert_eq!(va.total_item, vb.total_item);
            assert_eq!(va.total_page, vb.total_page);
            assert_eq!(va.articles.len(), vb.articles.len());
        }
        _ => panic!("expected two detail views"),
    }
}

#[test]
fn blog_by_unknown_author_is_a_bad_request() {
    let (astore, sstore) = stores_with_blog();
    let mut params = no_params();
    params.author_id = bytes("8");
    let r = SectionPage::section_detail_page(
        &sstore,
        &astore,
        &Route::BlogWithAuthor,
        &params,
        &None,
    );
    match r {
        Outcome::BadRequest(m) => assert_eq!(m, "no this section"),
        _ => panic!("expected a bad-request outcome"),
    }
}

#[test]
fn total_page_is_one_for_an_empty_section_and_off_by_one_on_exact_fill() {
    let mut sstore = SectionStore::new();
    SectionNew { title: "s".to_string(), description: String::new() }
        .create(&mut sstore)
        .unwrap();
    let mut astore = ArticleStore::new();
    let mut params = no_params();
    params.id = bytes("1");

    let r = SectionPage::section_detail_page(&sstore, &astore, &Route::Section, &params, &None);
    match r {
        Outcome::SectionDetail(v) => {
            assert_eq!(v.total_item, 0);
            assert_eq!(v.total_page, 1);
        }
        _ => panic!("expected the detail view"),
    }

    for i in 0..NUMBER_ARTICLE_PER_PAGE {
        ArticleCreate {
            section_id: 1,
            title: format!("a{}", i),
            content: String::new(),
        }
        .insert(&mut astore)
        .unwrap();
    }
    let r = SectionPage::section_detail_page(&sstore, &astore, &Route::Section, &params, &None);
    match r {
        Outcome::SectionDetail(v) => {
            assert_eq!(v.total_item, NUMBER_ARTICLE_PER_PAGE);
            assert_eq!(v.total_page, 2);
        }
        _ => panic!("expected the detail view"),
    }
}

#[test]
fn create_redirects_to_the_new_section() {
    let mut sstore = SectionStore::new();
    let mut params = no_params();
    params.title = Some("fresh".to_string());
    params.description = Some("text".to_string());
    let r = SectionPage::section_create(&mut sstore, &params);
    match r {
        Outcome::Redirect(RedirectTarget::SectionWithId(id)) => {
            let s = Section::get_by_id(&sstore, id).unwrap();
            assert_eq!(s.title, "fresh");
        }
        _ => panic!("expected a redirect"),
    }
    let r = SectionPage::section_create(&mut sstore, &no_params());
    assert!(matches!(r, Outcome::BadRequest(_)));
}

#[test]
fn edit_redirects_and_an_unknown_id_is_a_server_error() {
    let mut sstore = SectionStore::new();
    SectionNew { title: "old".to_string(), description: String::new() }
        .create(&mut sstore)
        .unwrap();
    let mut params = no_params();
    params.id = bytes("1");
    params.title = Some("new".to_string());
    params.description = Some("text".to_string());
    let r = SectionPage::section_edit(&mut sstore, &params);
    assert!(matches!(
        r,
        Outcome::Redirect(RedirectTarget::SectionWithId(1))
    ));
    assert_eq!(Section::get_by_id(&sstore, 1).unwrap().title, "new");

    params.id = bytes("9");
    let r = SectionPage::section_edit(&mut sstore, &params);
    match r {
        Outcome::ServerError(m) => assert_eq!(m, "section edit error."),
        _ => panic!("expected a server error"),
    }
}

#[test]
fn rearrange_writes_the_parsed_weights_in_listing_order() {
    // Two forum sections with weights one and two; the form sends the new
    // weights five and three for the listing positions, so the first
    // listed (alpha) takes five and the second (beta) takes three, and the
    // next listing puts beta first.
    let mut sstore = SectionStore::new();
    for (t, w) in [("alpha", 1), ("beta", 2)] {
        let s = SectionNew { title: t.to_string(), description: String::new() }
            .create(&mut sstore)
            .unwrap();
        UpdateSectionWeight { id: s.id, weight: w * WEIGHT_SCALE }
            .update(&mut sstore)
            .unwrap();
    }
    let mut params = no_params();
    params.order = vec![b"5.0".to_vec(), b"3.0".to_vec()];
    let r = SectionPage::section_rearrange(&mut sstore, &params);
    assert!(matches!(r, Outcome::Redirect(RedirectTarget::RearrangePage)));
    assert_eq!(Section::get_by_id(&sstore, 1).unwrap().weight, 5 * WEIGHT_SCALE);
    assert_eq!(Section::get_by_id(&sstore, 2).unwrap().weight, 3 * WEIGHT_SCALE);
    let listed = Section::forum_sections(&sstore);
    assert_eq!(listed[0].title, "beta");
    assert_eq!(listed[1].title, "alpha");
}

#[test]
fn rearrange_aborts_at_the_first_bad_value_and_keeps_earlier_writes() {
    let mut sstore = SectionStore::new();
    for t in ["alpha", "beta"] {
        SectionNew { title: t.to_string(), description: String::new() }
            .create(&mut sstore)
            .unwrap();
    }
    let mut params = no_params();
    params.order = vec![b"4.0".to_vec(), b"oops".to_vec()];
    let r = SectionPage::section_rearrange(&mut sstore, &params);
    assert!(matches!(r, Outcome::BadRequest(_)));
    assert_eq!(Section::get_by_id(&sstore, 1).unwrap().weight, 4 * WEIGHT_SCALE);
    assert_eq!(Section::get_by_id(&sstore, 2).unwrap().weight, 0);

    // Too few values: the same hard failure once the values run out. The
    // one value covers the first listed section (beta, still at weight
    // zero, so listed first); alpha, left uncovered, keeps its weight.
    let mut short = no_params();
    short.order = vec![b"1.0".to_vec()];
    let r = SectionPage::section_rearrange(&mut sstore, &short);
    assert!(matches!(r, Outcome::BadRequest(_)));
    assert_eq!(Section::get_by_id(&sstore, 2).unwrap().weight, WEIGHT_SCALE);
    assert_eq!(Section::get_by_id(&sstore, 1).unwrap().weight, 4 * WEIGHT_SCALE);
}

#[test]
fn anonymous_requests_are_rejected_before_any_write() {
    let astore = ArticleStore::new();
    let mut sstore = SectionStore::new();
    let mut params = no_params();
    params.title = Some("x".to_string());
    params.description = Some("y".to_string());
    for route in [
        Route::Section,
        Route::Blog,
        Route::BlogWithAuthor,
        Route::CreateSectionPage,
        Route::EditSectionPage,
        Route::CreateSection,
        Route::EditSection,
        Route::RearrangeSectionPage,
        Route::RearrangeSection,
    ] {
        let r = SectionPage::dispatch(&route, &params, &None, &astore, &mut sstore);
        match r {
            Outcome::NoPermission(m) => assert_eq!(m, "No permission."),
            _ => panic!("expected the permission rejection"),
        }
        assert_eq!(sstore.rows.len(), 0);
        assert_eq!(sstore.next_id, 1);
    }
    // A role below the threshold is rejected the same way.
    let low = Some(User { id: 1, role: 8 });
    let r = SectionPage::dispatch(&Route::CreateSection, &params, &low, &astore, &mut sstore);
    assert!(matches!(r, Outcome::NoPermission(_)));
    assert_eq!(sstore.rows.len(), 0);
}

#[test]
fn an_admin_passes_the_gate_and_the_handler_runs() {
    let astore = ArticleStore::new();
    let mut sstore = SectionStore::new();
    let mut params = no_params();
    params.title = Some("made".to_string());
    params.description = Some("by admin".to_string());
    let r = SectionPage::dispatch(&Route::CreateSection, &params, &admin(), &astore, &mut sstore);
    assert!(matches!(
        r,
        Outcome::Redirect(RedirectTarget::SectionWithId(1))
    ));
    assert_eq!(sstore.rows.len(), 1);

    let r = SectionPage::dispatch(
        &Route::CreateSectionPage,
        &no_params(),
        &admin(),
        &astore,
        &mut sstore,
    );
    assert!(matches!(r, Outcome::SectionCreateForm));

    let mut edit_params = no_params();
    edit_params.id = bytes("1");
    let r = SectionPage::dispatch(
        &Route::EditSectionPage,
        &edit_params,
        &admin(),
        &astore,
        &mut sstore,
    );
    match r {
        Outcome::SectionEditForm(s) => assert_eq!(s.title, "made"),
        _ => panic!("expected the edit form"),
    }

    let r = SectionPage::dispatch(
        &Route::RearrangeSectionPage,
        &no_params(),
        &admin(),
        &astore,
        &mut sstore,
    );
    match r {
        Outcome::RearrangeList(v) => assert_eq!(v.len(), 1),
        _ => panic!("expected the rearrange list"),
    }
}

#[test]
fn the_gate_itself_answers_by_role() {
    assert!(SectionPage::before(&admin()).is_ok());
    assert_eq!(
        SectionPage::before(&None).unwrap_err(),
        "No permission."
    );
    assert_eq!(
        SectionPage::before(&Some(User { id: 1, role: 8 })).unwrap_err(),
        "No permission."
    );
}

#[test]
fn a_malformed_page_parameter_is_a_bad_request() {
    let (astore, sstore) = stores_with_blog();
    let mut params = no_params();
    params.id = bytes("1");
    params.current_page = bytes("two");
    let r = SectionPage::section_detail_page(&sstore, &astore, &Route::Section, &params, &None);
    assert!(matches!(r, Outcome::BadRequest(_)));
}

#[test]
fn create_on_a_full_store_is_a_server_error() {
    let mut sstore = SectionStore { rows: Vec::new(), next_id: u64::MAX };
    let mut params = no_params();
    params.title = Some("t".to_string());
    params.description = Some("d".to_string());
    let r = SectionPage::section_create(&mut sstore, &params);
    match r {
        Outcome::ServerError(m) => assert_eq!(m, "section create error."),
        _ => panic!("expected a server error"),
    }
}

#[test]
fn later_pages_of_a_section_come_through_the_page_parameter() {
    let (astore, sstore) = stores_with_blog();
    let mut params = no_params();
    params.id = bytes("1");
    params.current_page = bytes("2");
    let r = SectionPage::section_detail_page(&sstore, &astore, &Route::Section, &params, &None);
    match r {
        Outcome::SectionDetail(v) => {
            assert_eq!(v.current_page, 2);
            assert_eq!(v.total_item, 3);
            // Three articles fit on the first page, so the second is empty.
            assert!(v.articles.is_empty());
        }
        _ => panic!("expected the detail view"),
    }
}
