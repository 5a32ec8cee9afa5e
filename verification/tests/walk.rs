use server_low_level::cursor::{NotTriggered, PageSource, PaginationCursor};
use server_low_level::models::Message;
use server_low_level::mutation_manager::MutationManager;
use server_low_level::pagination::{PaginationMetadata, PaginationType};

#[test]
fn total_pages_rounds_up() {
    let pages = |count, size| PaginationMetadata::new(count, size, PaginationType::Fresh).total_pages;
    assert_eq!(pages(0, 5), 0);
    assert_eq!(pages(1, 5), 1);
    assert_eq!(pages(5, 5), 1);
    assert_eq!(pages(6, 5), 2);
    assert_eq!(pages(3, 2), 2);
    assert_eq!(pages(10, 1), 10);
    assert_eq!(pages(usize::MAX, 1), usize::MAX);
    assert_eq!(pages(usize::MAX, 2), usize::MAX / 2 + 1);
    assert_eq!(pages(usize::MAX, usize::MAX), 1);
    assert_eq!(pages(0, 0), 0);
    assert_eq!(pages(1, 0), usize::MAX);
    assert_eq!(
        PaginationMetadata::new(3, 2, PaginationType::Cache),
        PaginationMetadata { total_pages: 2, kind: PaginationType::Cache }
    );
}

#[test]
fn a_page_before_the_trigger_is_refused() {
    let cursor = PaginationCursor::new(10);
    assert_eq!(cursor.page_source(true), Err(NotTriggered));
    assert_eq!(cursor.page_source(false), Err(NotTriggered));
}

#[test]
fn trigger_without_changes_walks_the_primary_store() {
    let mut cursor = PaginationCursor::new(10);
    let mut buffer = MutationManager::new(10);
    let meta = cursor.trigger(&mut buffer, 25);
    assert_eq!(meta, PaginationMetadata { total_pages: 3, kind: PaginationType::Fresh });
    assert!(cursor.triggered);
    assert_eq!(cursor.pages_count, 3);
    assert_eq!(cursor.page_source(buffer.is_pagination_empty()), Ok(PageSource::Fresh { offset: 0, limit: 10 }));
    assert_eq!(cursor.fresh_page_served(10), 1);
    assert_eq!(cursor.page_source(true), Ok(PageSource::Fresh { offset: 10, limit: 10 }));
    assert_eq!(cursor.fresh_page_served(10), 2);
    assert_eq!(cursor.page_source(true), Ok(PageSource::Fresh { offset: 20, limit: 10 }));
    assert_eq!(cursor.fresh_page_served(5), 3);
    assert_eq!(cursor, PaginationCursor { pages_count: 3, ..PaginationCursor::new(10) });
    assert_eq!(cursor.page_source(true), Err(NotTriggered));
}

#[test]
fn trigger_with_changes_walks_the_queue() {
    let mut cursor = PaginationCursor::new(2);
    let mut buffer = MutationManager::new(2);
    for id in ["a", "b", "c"] {
        buffer
            .add_post(Message {
                uuid: id.to_string(),
                author: String::new(),
                message: None,
                likes: 0,
                has_image: false,
            })
            .unwrap();
    }
    let meta = cursor.trigger(&mut buffer, 1000);
    assert_eq!(meta, PaginationMetadata { total_pages: 2, kind: PaginationType::Cache });
    assert!(buffer.is_empty_for_pagination());
    assert_eq!(cursor.page_source(buffer.is_pagination_empty()), Ok(PageSource::Cache));
    cursor.cache_page_served(false);
    assert!(cursor.triggered);
    cursor.cache_page_served(true);
    assert!(!cursor.triggered);
    assert_eq!(cursor.offset, 0);
}

#[test]
fn offsets_do_not_overflow() {
    let mut cursor = PaginationCursor {
        page_size: 10,
        pages_count: 0,
        triggered: true,
        offset: usize::MAX - 3,
        page_number: usize::MAX,
    };
    assert_eq!(cursor.fresh_page_served(10), usize::MAX);
    assert_eq!(cursor.offset, usize::MAX);
    assert_eq!(cursor.page_number, usize::MAX);
    assert!(cursor.triggered);
}

#[test]
fn a_full_last_page_is_followed_by_an_empty_one() {
    let mut cursor = PaginationCursor::new(2);
    let mut buffer = MutationManager::new(2);
    assert_eq!(cursor.trigger(&mut buffer, 4).total_pages, 2);
    assert_eq!(cursor.fresh_page_served(2), 1);
    assert_eq!(cursor.fresh_page_served(2), 2);
    assert!(cursor.triggered);
    assert_eq!(cursor.page_source(true), Ok(PageSource::Fresh { offset: 4, limit: 2 }));
    assert_eq!(cursor.fresh_page_served(0), 3);
    assert!(!cursor.triggered);
    assert_eq!(cursor.offset, 0);
    assert_eq!(cursor.page_number, 0);
}
