use server_low_level::cursor::{PageSource, PaginationCursor};
use server_low_level::handlers::{
    finish_cache_page, finish_clear, finish_create, finish_delete, finish_staging, finish_update,
    next_source, told, IdIndex, Recorded, WriteOutcome,
};
use server_low_level::entry::StagingKey;
use server_low_level::maybe::Maybe;
use server_low_level::models::{Message, ServerPutUpdate};
use server_low_level::models::ImageChange;
use server_low_level::mutation_manager::{
    BufferError, DeleteEffects, MutationManager, StagingAction,
};
use server_low_level::page::{PageRecord, StagedPayload};
use server_low_level::request::{Method, Request};
use server_low_level::response::{ErrorKind, Response};
use server_low_level::route::{route, starts_with, trim_start_matches, Route};

#[test]
fn methods_are_read_in_upper_case() {
    assert_eq!(Method::from_str("GET"), Ok(Method::Get));
    assert_eq!(Method::from_str("POST"), Ok(Method::Post));
    assert_eq!(Method::from_str("PUT"), Ok(Method::Put));
    assert_eq!(Method::from_str("DELETE"), Ok(Method::Delete));
    assert_eq!(Method::from_str("PATCH"), Ok(Method::Patch));
    assert_eq!(Method::from_str("get"), Err("Invalid method"));
    assert_eq!(Method::from_str(""), Err("Invalid method"));
    assert_eq!(Method::from_str("GETS"), Err("Invalid method"));
    assert_eq!(Method::default(), Method::Get);
}

#[test]
fn request_keeps_what_is_set() {
    let mut request = Request::default();
    assert_eq!(request.method(), &Method::Get);
    assert_eq!(request.uri(), "");
    assert_eq!(request.body(), None);
    request.set_uri("/api/messages".to_string());
    request.set_body(Some("{}".to_string()));
    assert_eq!(request.set_method("PUT"), Ok(()));
    assert_eq!(request.method(), &Method::Put);
    assert_eq!(request.uri(), "/api/messages");
    assert_eq!(request.body(), Some(&"{}".to_string()));
    assert_eq!(request.set_method("put"), Err("Invalid method"));
    assert_eq!(request.method(), &Method::Put);
    request.set_body(None);
    assert_eq!(request.body(), None);
}

#[test]
fn prefixes_are_taken_off_repeatedly() {
    assert!(starts_with("/api/messages/x", "/api/messages"));
    assert!(starts_with("abc", ""));
    assert!(starts_with("abc", "abc"));
    assert!(!starts_with("ab", "abc"));
    assert!(!starts_with("xbc", "abc"));
    assert!(starts_with("éa", "é"));
    assert_eq!(trim_start_matches("ababc", "ab"), "c");
    assert_eq!(trim_start_matches("abab", "ab"), "");
    assert_eq!(trim_start_matches("cab", "ab"), "cab");
    assert_eq!(trim_start_matches("abc", ""), "abc");
    assert_eq!(trim_start_matches("ééü", "é"), "ü");
    for (text, prefix) in [("/api/messages/api/messages/1", "/api/messages"), ("aaa", "a"), ("", "a")] {
        assert_eq!(trim_start_matches(text, prefix), text.trim_start_matches(prefix));
    }
}

fn request(method: &str, uri: &str, body: Option<&str>) -> Request {
    let mut request = Request::default();
    request.set_method(method).unwrap();
    request.set_uri(uri.to_string());
    request.set_body(body.map(|b| b.to_string()));
    request
}

#[test]
fn requests_are_routed() {
    assert_eq!(route(&request("GET", "/api/messages", None)), Route::GetPage);
    assert_eq!(route(&request("GET", "/api/messages/", None)), Route::GetPage);
    assert_eq!(
        route(&request("GET", "/api/messages/trigger-pagination", None)),
        Route::TriggerPagination
    );
    assert_eq!(
        route(&request("GET", "/api/messages/other", None)),
        Route::NotFound("/other".to_string())
    );
    assert_eq!(route(&request("GET", "/else", None)), Route::NotFound("/else".to_string()));
    assert_eq!(route(&request("POST", "/api/messages", Some("{}"))), Route::Create);
    assert_eq!(route(&request("POST", "/api/messages", None)), Route::LengthRequired);
    assert_eq!(
        route(&request("PUT", "/api/messages/id-1", Some("{}"))),
        Route::Update("id-1".to_string())
    );
    assert_eq!(route(&request("PUT", "/api/messages/id-1", None)), Route::LengthRequired);
    assert_eq!(
        route(&request("DELETE", "/api/messages/id-1", None)),
        Route::Delete("id-1".to_string())
    );
    assert_eq!(route(&request("PATCH", "/api/messages", None)), Route::Clear);
}

#[test]
fn response_text_has_status_headers_and_content() {
    assert_eq!(Response::new().to_text(), "HTTP/1.1 200 OK\r\n\r\n");
    let response = Response::new()
        .status_line("HTTP/1.1 404 NOT FOUND")
        .append_header("Content-Length: 2")
        .append_header("Content-Type: text/plain")
        .body("no");
    assert_eq!(
        response.to_text(),
        "HTTP/1.1 404 NOT FOUND\r\nContent-Length: 2\r\nContent-Type: text/plain\r\n\r\nno"
    );
    let mut other = Response::new().append_header("A: b");
    other.set_status_line("HTTP/1.1 204 No Content");
    assert_eq!(other.to_text(), "HTTP/1.1 204 No Content\r\nA: b\r\n\r\n");
}

#[test]
fn errors_have_status_lines() {
    assert_eq!(ErrorKind::Validation.status_line(), "HTTP/1.1 400 BAD REQUEST");
    assert_eq!(ErrorKind::NotFound.status_line(), "HTTP/1.1 404 NOT FOUND");
    assert_eq!(ErrorKind::Conflict.status_line(), "HTTP/1.1 409 CONFLICT");
    assert_eq!(ErrorKind::Storage.status_line(), "HTTP/1.1 500 Internal Server Error");
    assert_eq!(ErrorKind::ProtocolState.status_line(), "HTTP/1.1 403 Forbidden");
    assert_eq!(ErrorKind::ProtocolState.response().to_text(), "HTTP/1.1 403 Forbidden\r\n\r\n");
}

#[test]
fn id_index_knows_what_is_taken() {
    let mut index = IdIndex::new();
    assert_eq!(index.len(), 0);
    assert!(!index.contains("a"));
    assert_eq!(index.reserve("a"), Ok(()));
    assert_eq!(index.reserve("b"), Ok(()));
    assert_eq!(index.reserve("a"), Err(ErrorKind::Conflict));
    assert_eq!(index.len(), 2);
    assert!(index.contains("a"));
    assert_eq!(index.release("a"), Ok(()));
    assert_eq!(index.release("a"), Err(ErrorKind::NotFound));
    assert!(!index.contains("a"));
    assert_eq!(index.len(), 1);
    index.forget("b");
    index.forget("b");
    assert_eq!(index.len(), 0);
    index.reserve("c").unwrap();
    index.clear();
    assert_eq!(index.len(), 0);
    assert!(!index.contains("c"));
}

fn entry(uuid: &str) -> Message {
    Message { uuid: uuid.to_string(), author: "a".to_string(), message: None, likes: 0, has_image: false }
}

fn touch() -> ServerPutUpdate {
    ServerPutUpdate {
        author: Maybe::Absent,
        message: Maybe::Absent,
        likes: Maybe::Value(1),
        image_updated: Maybe::Absent,
        image: Maybe::Absent,
    }
}

fn key(uuid: &str) -> StagingKey {
    StagingKey { generation: 0, uuid: uuid.to_string() }
}

#[test]
fn a_failed_write_leaves_the_buffer_alone() {
    let mut buffer = MutationManager::new(3);
    let mut index = IdIndex::new();
    index.reserve("a").unwrap();
    assert_eq!(
        finish_update(&mut buffer, &mut index, "a", touch(), None, WriteOutcome::Failed),
        Err(ErrorKind::Storage)
    );
    assert_eq!(
        finish_delete(&mut buffer, &mut index, "a", WriteOutcome::Failed),
        Err(ErrorKind::Storage)
    );
    assert!(index.contains("a"));
    assert_eq!(
        finish_create(&mut buffer, &mut index, entry("a"), WriteOutcome::Duplicate),
        Err(ErrorKind::Conflict)
    );
    assert!(index.contains("a"));
    assert_eq!(
        finish_create(&mut buffer, &mut index, entry("a"), WriteOutcome::Failed),
        Err(ErrorKind::Storage)
    );
    assert!(!index.contains("a"));
    assert!(buffer.is_empty_for_pagination());
}

#[test]
fn a_failed_create_can_be_tried_again() {
    let mut buffer = MutationManager::new(3);
    let mut index = IdIndex::new();
    assert_eq!(index.reserve("a"), Ok(()));
    assert_eq!(
        finish_create(&mut buffer, &mut index, entry("a"), WriteOutcome::Failed),
        Err(ErrorKind::Storage)
    );
    assert_eq!(index.len(), 0);
    assert!(!buffer.is_pending("a"));
    assert_eq!(index.reserve("a"), Ok(()));
    assert_eq!(
        finish_create(&mut buffer, &mut index, entry("a"), WriteOutcome::Applied),
        Ok(Recorded {
            staging: StagingAction::Write(key("a"), StagedPayload::Created(entry("a"))),
            fresh: true,
        })
    );
    assert!(index.contains("a"));
    assert!(buffer.is_pending("a"));
}

#[test]
fn a_row_that_is_missing_leaves_the_index() {
    let mut buffer = MutationManager::new(3);
    let mut index = IdIndex::new();
    index.reserve("a").unwrap();
    index.reserve("b").unwrap();
    assert_eq!(
        finish_update(&mut buffer, &mut index, "a", touch(), None, WriteOutcome::Missing),
        Err(ErrorKind::NotFound)
    );
    assert!(!index.contains("a"));
    assert_eq!(
        finish_delete(&mut buffer, &mut index, "b", WriteOutcome::Missing),
        Err(ErrorKind::NotFound)
    );
    assert!(!index.contains("b"));
    assert!(buffer.is_empty_for_pagination());
}

#[test]
fn an_applied_write_is_recorded() {
    let mut buffer = MutationManager::new(3);
    let mut index = IdIndex::new();
    index.reserve("a").unwrap();
    index.reserve("u").unwrap();
    assert_eq!(
        finish_create(&mut buffer, &mut index, entry("a"), WriteOutcome::Applied),
        Ok(Recorded {
            staging: StagingAction::Write(key("a"), StagedPayload::Created(entry("a"))),
            fresh: true,
        })
    );
    assert_eq!(
        finish_create(&mut buffer, &mut index, entry("a"), WriteOutcome::Applied),
        Err(ErrorKind::Conflict)
    );
    assert_eq!(
        finish_update(&mut buffer, &mut index, "a", touch(), None, WriteOutcome::Applied),
        Err(ErrorKind::Storage)
    );
    let mut updated = entry("a");
    updated.likes = 1;
    assert_eq!(
        finish_update(
            &mut buffer,
            &mut index,
            "a",
            touch(),
            Some(StagedPayload::Created(entry("a"))),
            WriteOutcome::Applied
        ),
        Ok(Recorded {
            staging: StagingAction::Write(key("a"), StagedPayload::Created(updated)),
            fresh: false,
        })
    );
    assert_eq!(
        finish_update(&mut buffer, &mut index, "u", touch(), None, WriteOutcome::Applied),
        Ok(Recorded {
            staging: StagingAction::Write(
                key("u"),
                StagedPayload::Updated(touch().without_image())
            ),
            fresh: true,
        })
    );
    assert!(index.contains("a") && index.contains("u"));
    assert_eq!(
        finish_delete(&mut buffer, &mut index, "a", WriteOutcome::Applied),
        Ok(DeleteEffects { staging: StagingAction::Remove(key("a")), image: ImageChange::Remove })
    );
    assert!(!index.contains("a"));
    assert_eq!(
        finish_delete(&mut buffer, &mut index, "x", WriteOutcome::Applied),
        Ok(DeleteEffects { staging: StagingAction::Keep, image: ImageChange::Remove })
    );
    assert_eq!(buffer.get_pagination_meta().total_pages, 1);
    assert_eq!(buffer.page_plan().len(), 2);
}

#[test]
fn a_record_that_cannot_be_written_is_not_left_pending() {
    let mut buffer = MutationManager::new(3);
    let mut index = IdIndex::new();
    index.reserve("a").unwrap();
    let created =
        finish_create(&mut buffer, &mut index, entry("a"), WriteOutcome::Applied).unwrap();
    assert!(buffer.is_pending("a"));
    assert_eq!(finish_staging(&mut buffer, "a", created.fresh, false), Err(ErrorKind::Storage));
    assert!(!buffer.is_pending("a"));
    assert!(buffer.is_empty_for_pagination());
    assert!(index.contains("a"));

    let first =
        finish_update(&mut buffer, &mut index, "a", touch(), None, WriteOutcome::Applied).unwrap();
    assert!(first.fresh);
    assert_eq!(finish_staging(&mut buffer, "a", first.fresh, true), Ok(()));
    assert!(buffer.is_pending("a"));
    let second = finish_update(
        &mut buffer,
        &mut index,
        "a",
        touch(),
        Some(StagedPayload::Updated(touch().without_image())),
        WriteOutcome::Applied,
    )
    .unwrap();
    assert!(!second.fresh);
    assert_eq!(finish_staging(&mut buffer, "a", second.fresh, false), Err(ErrorKind::Storage));
    assert!(buffer.is_pending("a"));

    buffer.unstage("a");
    assert!(!buffer.is_pending("a"));
    buffer.unstage("a");
    assert!(buffer.is_empty_for_pagination());
}

#[test]
fn refusals_are_told_as_errors() {
    assert_eq!(told(BufferError::AlreadyPending), ErrorKind::Conflict);
    assert_eq!(told(BufferError::StagingMismatch), ErrorKind::Storage);
}

#[test]
fn the_next_page_comes_from_the_queue_first() {
    let mut buffer = MutationManager::new(1);
    let mut cursor = PaginationCursor::new(1);
    assert_eq!(next_source(&cursor, &buffer), Err(ErrorKind::ProtocolState));
    buffer.add_post(entry("a")).unwrap();
    buffer.add_post(entry("b")).unwrap();
    cursor.trigger(&mut buffer, 7);
    assert_eq!(next_source(&cursor, &buffer), Ok(PageSource::Cache));

    assert_eq!(
        finish_cache_page(&mut buffer, &mut cursor, vec![]),
        Err(ErrorKind::Storage)
    );
    assert!(cursor.triggered);
    assert_eq!(buffer.page_plan().len(), 1);

    let record = |uuid: &str| PageRecord {
        staged: Some(StagedPayload::Created(entry(uuid))),
        image: None,
    };
    let first = finish_cache_page(&mut buffer, &mut cursor, vec![record("a")]).unwrap();
    assert!(!first.page.done);
    assert!(cursor.triggered);
    let last = finish_cache_page(&mut buffer, &mut cursor, vec![record("b")]).unwrap();
    assert!(last.page.done);
    assert_eq!(last.page.posts.len(), 1);
    assert!(!cursor.triggered);
    assert_eq!(next_source(&cursor, &buffer), Err(ErrorKind::ProtocolState));

    cursor.trigger(&mut buffer, 7);
    assert_eq!(next_source(&cursor, &buffer), Ok(PageSource::Fresh { offset: 0, limit: 1 }));
}

#[test]
fn clearing_needs_the_store_to_agree() {
    let mut buffer = MutationManager::new(3);
    let mut index = IdIndex::new();
    index.reserve("a").unwrap();
    buffer.add_post(entry("a")).unwrap();
    assert_eq!(finish_clear(&mut buffer, &mut index, WriteOutcome::Failed), Err(ErrorKind::Storage));
    assert!(index.contains("a"));
    assert!(!buffer.is_empty_for_pagination());
    assert_eq!(
        finish_clear(&mut buffer, &mut index, WriteOutcome::Applied),
        Ok(StagingAction::Wipe)
    );
    assert!(!index.contains("a"));
    assert!(buffer.is_empty_for_pagination());
}

#[test]
fn write_outcomes_map_to_errors() {
    assert_eq!(WriteOutcome::Applied.check(), Ok(()));
    assert_eq!(WriteOutcome::Missing.check(), Err(ErrorKind::NotFound));
    assert_eq!(WriteOutcome::Duplicate.check(), Err(ErrorKind::Conflict));
    assert_eq!(WriteOutcome::Failed.check(), Err(ErrorKind::Storage));
}

#[test]
fn methods_are_parsed_from_text() {
    assert_eq!("DELETE".parse::<Method>(), Ok(Method::Delete));
    assert_eq!("delete".parse::<Method>(), Err("Invalid method"));
}
