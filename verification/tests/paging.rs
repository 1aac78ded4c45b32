use forum_core::article::ArticleStore;
use forum_core::model::{Article, ArticleCreate, Section};
use forum_core::section::NUMBER_ARTICLE_PER_PAGE;

fn store_of(n: usize, section_id: u64) -> ArticleStore {
    let mut store = ArticleStore::new();
    for i in 0..n {
        ArticleCreate {
            section_id,
            title: format!("t{}", i),
            content: String::new(),
        }
        .insert(&mut store)
        .unwrap();
    }
    store
}

#[test]
fn paging_is_newest_first_and_never_wider_than_the_size() {
    let store = store_of(5, 1);
    let page = Article::paging(&store, 0, 3);
    assert_eq!(page.len(), 3);
    assert_eq!(page[0].title, "t4");
    assert_eq!(page[1].title, "t3");
    assert_eq!(page[2].title, "t2");
    for w in page.windows(2) {
        assert!(w[0].created_time > w[1].created_time);
    }
}

#[test]
fn paging_concatenation_reproduces_the_full_descending_order() {
    let store = store_of(7, 1);
    let mut all = Vec::new();
    for page in 0..4 {
        let chunk = Article::paging(&store, page, 2);
        assert!(chunk.len() <= 2);
        all.extend(chunk.into_iter().map(|a| a.id));
    }
    let expected: Vec<u64> = (1..=7).rev().collect();
    assert_eq!(all, expected);
}

#[test]
fn paging_past_the_end_is_empty_not_an_error() {
    let store = store_of(2, 1);
    assert!(Article::paging(&store, 5, 10).is_empty());
    assert!(Article::paging(&store, 0, 0).is_empty());
}

#[test]
fn paging_by_section_filters_before_windowing() {
    let mut store = ArticleStore::new();
    for i in 0..6 {
        ArticleCreate {
            section_id: if i % 2 == 0 { 1 } else { 2 },
            title: format!("t{}", i),
            content: String::new(),
        }
        .insert(&mut store)
        .unwrap();
    }
    let page = Article::paging_by_section(&store, 1, 0, 10);
    let titles: Vec<&str> = page.iter().map(|a| a.title.as_str()).collect();
    assert_eq!(titles, vec!["t4", "t2", "t0"]);
    assert_eq!(Section::get_articles_count_belong_to_this(&store, 1), 3);
    assert_eq!(Section::get_articles_count_belong_to_this(&store, 2), 3);
    assert_eq!(Section::get_articles_count_belong_to_this(&store, 9), 0);
}

#[test]
fn section_paging_is_one_indexed_and_zero_reads_as_page_one() {
    let n = NUMBER_ARTICLE_PER_PAGE;
    let store = store_of(n + 3, 1);
    let page1 = Section::get_articles_paging_belong_to_this(&store, 1, 1);
    assert_eq!(page1.len(), n);
    assert_eq!(page1[0].title, format!("t{}", n + 2));
    let page2 = Section::get_articles_paging_belong_to_this(&store, 1, 2);
    assert_eq!(page2.len(), 3);
    assert_eq!(page2[2].title, "t0");
    let page0 = Section::get_articles_paging_belong_to_this(&store, 1, 0);
    assert_eq!(page0.len(), page1.len());
    assert_eq!(page0[0].title, page1[0].title);
}
