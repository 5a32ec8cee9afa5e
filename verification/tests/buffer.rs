use server_low_level::entry::{Entry, Kind, StagingKey};
use server_low_level::maybe::Maybe;
use server_low_level::models::{CompleteMessage, Message, ServerPutUpdate, ServerPutUpdateWithoutImage};
use server_low_level::models::ImageChange;
use server_low_level::mutation_manager::{
    BufferError, DeleteEffects, Delivery, MutationManager, StagingAction,
};
use server_low_level::page::{MutationResults, PageRecord, StagedPayload};
use server_low_level::pagination::PaginationType;

type Staging = Vec<(StagingKey, StagedPayload)>;

fn message(uuid: &str, author: &str) -> Message {
    Message {
        uuid: uuid.to_string(),
        author: author.to_string(),
        message: Some(format!("text of {uuid}")),
        likes: 1,
        has_image: false,
    }
}

fn author_update(author: &str) -> ServerPutUpdate {
    ServerPutUpdate {
        author: Maybe::Value(author.to_string()),
        message: Maybe::Absent,
        likes: Maybe::Absent,
        image_updated: Maybe::Absent,
        image: Maybe::Absent,
    }
}

fn apply(staging: &mut Staging, action: StagingAction) {
    match action {
        StagingAction::Keep => {}
        StagingAction::Write(key, payload) => {
            staging.retain(|(k, _)| *k != key);
            staging.push((key, payload));
        }
        StagingAction::Remove(key) => staging.retain(|(k, _)| *k != key),
        StagingAction::SweepBefore(generation) => staging.retain(|(k, _)| k.generation >= generation),
        StagingAction::Wipe => staging.clear(),
    }
}

fn load(staging: &Staging, key: &StagingKey) -> Option<StagedPayload> {
    staging.iter().find(|(k, _)| k == key).map(|(_, p)| p.clone())
}

fn create(buffer: &mut MutationManager, staging: &mut Staging, m: Message) {
    let action = buffer.add_post(m).expect("the id is new");
    apply(staging, action);
}

fn update(buffer: &mut MutationManager, staging: &mut Staging, uuid: &str, put: ServerPutUpdate) {
    let staged = buffer.staged_key(uuid).and_then(|key| load(staging, &key));
    let action = buffer.add_put(uuid, put, staged).expect("the staged record fits");
    apply(staging, action);
}

fn delete(buffer: &mut MutationManager, staging: &mut Staging, uuid: &str) {
    let effects = buffer.add_delete(uuid);
    assert_eq!(effects.image, ImageChange::Remove);
    apply(staging, effects.staging);
}

fn serve(buffer: &mut MutationManager, staging: &mut Staging) -> MutationResults {
    let plan = buffer.page_plan();
    let records: Vec<PageRecord> = plan
        .iter()
        .map(|entry| PageRecord {
            staged: entry.staged_key().and_then(|key| load(staging, &key)),
            image: None,
        })
        .collect();
    let Delivery { page, staging: actions } = buffer.get(records).expect("the records fit");
    let removed: Vec<StagingAction> =
        plan.iter().filter_map(|entry| entry.staged_key()).map(StagingAction::Remove).collect();
    let mut expected = removed;
    if page.done {
        expected.push(StagingAction::SweepBefore(buffer.generation()));
    }
    assert_eq!(actions, expected);
    for action in actions {
        apply(staging, action);
    }
    page
}

fn post_ids(page: &MutationResults) -> Vec<String> {
    page.posts.iter().map(|p| p.uuid.clone()).collect()
}

#[test]
fn new_buffer_is_empty() {
    let buffer = MutationManager::new(7);
    assert!(buffer.is_pagination_empty());
    assert!(buffer.is_empty_for_pagination());
    assert_eq!(buffer.page_size(), 7);
    assert_eq!(buffer.generation(), 0);
    assert!(buffer.page_plan().is_empty());
}

#[test]
fn create_stages_the_entry_under_its_id() {
    let mut buffer = MutationManager::new(2);
    let action = buffer.add_post(message("a", "ann")).unwrap();
    assert_eq!(
        action,
        StagingAction::Write(
            StagingKey { generation: 0, uuid: "a".to_string() },
            StagedPayload::Created(message("a", "ann")),
        )
    );
    assert!(!buffer.is_empty_for_pagination());
    assert!(buffer.is_pagination_empty());
    assert_eq!(buffer.staged_key("a"), Some(StagingKey { generation: 0, uuid: "a".to_string() }));
    assert_eq!(buffer.staged_key("b"), None);
}

#[test]
fn create_of_a_pending_id_is_refused() {
    let mut buffer = MutationManager::new(2);
    buffer.add_post(message("a", "ann")).unwrap();
    assert_eq!(buffer.add_post(message("a", "bob")), Err(BufferError::AlreadyPending));
    let mut staging = Staging::new();
    update(&mut buffer, &mut staging, "u", author_update("x"));
    assert_eq!(buffer.add_post(message("u", "bob")), Err(BufferError::AlreadyPending));
    let meta = buffer.get_pagination_meta();
    assert_eq!(meta.total_pages, 1);
}

#[test]
fn create_then_delete_leaves_no_trace() {
    let mut buffer = MutationManager::new(2);
    let mut staging = Staging::new();
    create(&mut buffer, &mut staging, message("a", "ann"));
    let effects = buffer.add_delete("a");
    assert_eq!(
        effects,
        DeleteEffects {
            staging: StagingAction::Remove(StagingKey { generation: 0, uuid: "a".to_string() }),
            image: ImageChange::Remove,
        }
    );
    apply(&mut staging, effects.staging);
    assert!(staging.is_empty());
    assert!(buffer.is_empty_for_pagination());
    assert_eq!(buffer.staged_key("a"), None);
    let meta = buffer.get_pagination_meta();
    assert_eq!(meta.total_pages, 0);
    assert!(buffer.is_pagination_empty());
}

#[test]
fn delete_of_a_delivered_id_queues_one_deletion() {
    let mut buffer = MutationManager::new(5);
    let mut staging = Staging::new();
    create(&mut buffer, &mut staging, message("a", "ann"));
    buffer.get_pagination_meta();
    let first = serve(&mut buffer, &mut staging);
    assert!(first.done);
    assert_eq!(post_ids(&first), vec!["a"]);

    assert_eq!(
        buffer.add_delete("a"),
        DeleteEffects { staging: StagingAction::Keep, image: ImageChange::Remove }
    );
    let meta = buffer.get_pagination_meta();
    assert_eq!(meta.total_pages, 1);
    let plan = buffer.page_plan();
    assert_eq!(plan, vec![Entry { kind: Kind::Delete, uuid: "a".to_string(), generation: 1 }]);
    let page = serve(&mut buffer, &mut staging);
    assert!(page.posts.is_empty());
    assert_eq!(page.puts_deletes.len(), 1);
    assert_eq!(page.puts_deletes[0].uuid, "a");
    assert!(page.puts_deletes[0].delete);
    assert_eq!(page.puts_deletes[0].put, None);
    assert!(page.done);
}

#[test]
fn delete_of_an_updated_id_drops_the_update() {
    let mut buffer = MutationManager::new(5);
    let mut staging = Staging::new();
    update(&mut buffer, &mut staging, "a", author_update("x"));
    assert_eq!(staging.len(), 1);
    delete(&mut buffer, &mut staging, "a");
    assert!(staging.is_empty());
    buffer.get_pagination_meta();
    let page = serve(&mut buffer, &mut staging);
    assert_eq!(page.puts_deletes.len(), 1);
    assert!(page.puts_deletes[0].delete);
}

#[test]
fn three_creations_fill_two_pages_of_two() {
    let mut buffer = MutationManager::new(2);
    let mut staging = Staging::new();
    create(&mut buffer, &mut staging, message("C", "c"));
    create(&mut buffer, &mut staging, message("A", "a"));
    create(&mut buffer, &mut staging, message("B", "b"));
    let meta = buffer.get_pagination_meta();
    assert_eq!(meta.total_pages, 2);
    assert_eq!(meta.kind, PaginationType::Cache);
    assert!(buffer.is_empty_for_pagination());

    let first = serve(&mut buffer, &mut staging);
    assert_eq!(post_ids(&first), vec!["A", "B"]);
    assert!(first.puts_deletes.is_empty());
    assert!(!first.done);
    assert_eq!(first.posts[0], CompleteMessage::new(message("A", "a"), None));

    let second = serve(&mut buffer, &mut staging);
    assert_eq!(post_ids(&second), vec!["C"]);
    assert!(second.done);
    assert!(staging.is_empty());
    assert!(buffer.is_pagination_empty());
}

#[test]
fn page_count_is_the_quotient_rounded_up() {
    for (count, size, pages) in [(3usize, 1usize, 3usize), (3, 2, 2), (3, 3, 1), (3, 4, 1), (4, 2, 2)] {
        let mut buffer = MutationManager::new(size);
        for i in 0..count {
            buffer.add_post(message(&format!("id{i}"), "x")).unwrap();
        }
        assert_eq!(buffer.get_pagination_meta().total_pages, pages);
    }
}

#[test]
fn update_before_the_walk_is_delivered_within_the_post() {
    let mut buffer = MutationManager::new(10);
    let mut staging = Staging::new();
    create(&mut buffer, &mut staging, message("A", "ann"));
    update(&mut buffer, &mut staging, "A", author_update("bob"));
    delete(&mut buffer, &mut staging, "B");
    let meta = buffer.get_pagination_meta();
    assert_eq!(meta.total_pages, 1);
    let page = serve(&mut buffer, &mut staging);
    assert_eq!(page.posts.len(), 1);
    assert_eq!(page.posts[0].uuid, "A");
    assert_eq!(page.posts[0].author, "bob");
    assert_eq!(page.posts[0].message, Some("text of A".to_string()));
    assert_eq!(page.puts_deletes.len(), 1);
    assert_eq!(page.puts_deletes[0].uuid, "B");
    assert!(page.puts_deletes[0].delete);
    assert_eq!(page.puts_deletes[0].put, None);
    assert!(page.done);
}

#[test]
fn changes_during_a_walk_wait_for_the_next_walk() {
    let mut buffer = MutationManager::new(10);
    let mut staging = Staging::new();
    create(&mut buffer, &mut staging, message("A", "ann"));
    assert_eq!(buffer.get_pagination_meta().total_pages, 1);
    update(&mut buffer, &mut staging, "A", author_update("bob"));
    delete(&mut buffer, &mut staging, "B");

    let page = serve(&mut buffer, &mut staging);
    assert_eq!(page.posts.len(), 1);
    assert_eq!(page.posts[0].author, "ann");
    assert!(page.puts_deletes.is_empty());
    assert!(page.done);
    assert!(!buffer.is_empty_for_pagination());

    assert_eq!(buffer.get_pagination_meta().total_pages, 1);
    let next = serve(&mut buffer, &mut staging);
    assert!(next.posts.is_empty());
    assert_eq!(next.puts_deletes.len(), 2);
    assert_eq!(next.puts_deletes[0].uuid, "A");
    assert!(!next.puts_deletes[0].delete);
    let put = next.puts_deletes[0].put.clone().unwrap();
    assert_eq!(put.author, Maybe::Value("bob".to_string()));
    assert_eq!(put.message, Maybe::Absent);
    assert_eq!(put.image, Maybe::Absent);
    assert_eq!(next.puts_deletes[1].uuid, "B");
    assert!(next.puts_deletes[1].delete);
    assert!(next.done);
    assert!(staging.is_empty());
}

#[test]
fn updates_to_one_id_coalesce() {
    let mut buffer = MutationManager::new(10);
    let mut staging = Staging::new();
    update(&mut buffer, &mut staging, "A", author_update("one"));
    update(
        &mut buffer,
        &mut staging,
        "A",
        ServerPutUpdate {
            author: Maybe::Absent,
            message: Maybe::Null,
            likes: Maybe::Value(9),
            image_updated: Maybe::Value(true),
            image: Maybe::Value("bytes".to_string()),
        },
    );
    update(&mut buffer, &mut staging, "A", author_update("three"));
    assert_eq!(staging.len(), 1);
    assert_eq!(
        staging[0].1,
        StagedPayload::Updated(ServerPutUpdateWithoutImage {
            author: Maybe::Value("three".to_string()),
            message: Maybe::Null,
            likes: Maybe::Value(9),
            image_updated: Maybe::Value(true),
        })
    );
    assert_eq!(buffer.get_pagination_meta().total_pages, 1);
    let plan = buffer.page_plan();
    assert_eq!(plan.len(), 1);
    assert_eq!(plan[0].kind, Kind::Put);
}

#[test]
fn update_needs_the_staged_record() {
    let mut buffer = MutationManager::new(10);
    buffer.add_post(message("A", "ann")).unwrap();
    assert_eq!(buffer.add_put("A", author_update("x"), None), Err(BufferError::StagingMismatch));
    assert_eq!(
        buffer.add_put(
            "A",
            author_update("x"),
            Some(StagedPayload::Created(message("B", "ann")))
        ),
        Err(BufferError::StagingMismatch)
    );
    let staged_update = StagedPayload::Updated(author_update("y").without_image());
    assert_eq!(
        buffer.add_put("A", author_update("x"), Some(staged_update.clone())),
        Err(BufferError::StagingMismatch)
    );
    buffer.add_put("U", author_update("x"), None).unwrap();
    assert_eq!(buffer.add_put("U", author_update("x"), None), Err(BufferError::StagingMismatch));
    assert_eq!(
        buffer.add_put("U", author_update("x"), Some(StagedPayload::Created(message("U", "a")))),
        Err(BufferError::StagingMismatch)
    );
    assert!(buffer.add_put("U", author_update("x"), Some(staged_update)).is_ok());
}

#[test]
fn page_needs_fitting_records() {
    let mut buffer = MutationManager::new(2);
    let mut staging = Staging::new();
    create(&mut buffer, &mut staging, message("A", "ann"));
    update(&mut buffer, &mut staging, "U", author_update("x"));
    delete(&mut buffer, &mut staging, "D");
    buffer.get_pagination_meta();
    let none = PageRecord { staged: None, image: None };
    let entry = PageRecord { staged: Some(StagedPayload::Created(message("A", "ann"))), image: None };
    let other = PageRecord { staged: Some(StagedPayload::Created(message("Z", "ann"))), image: None };
    let partial = PageRecord {
        staged: Some(StagedPayload::Updated(author_update("x").without_image())),
        image: None,
    };
    assert_eq!(buffer.get(vec![]), Err(BufferError::StagingMismatch));
    assert_eq!(buffer.get(vec![entry.clone()]), Err(BufferError::StagingMismatch));
    assert_eq!(buffer.get(vec![none.clone(), none.clone()]), Err(BufferError::StagingMismatch));
    assert_eq!(buffer.get(vec![other, none.clone()]), Err(BufferError::StagingMismatch));
    assert_eq!(buffer.get(vec![partial.clone(), none.clone()]), Err(BufferError::StagingMismatch));
    assert_eq!(
        buffer.get(vec![entry.clone(), none.clone(), none.clone()]),
        Err(BufferError::StagingMismatch)
    );
    assert_eq!(buffer.page_plan().len(), 2);
    let Delivery { page, staging: actions } = buffer.get(vec![entry, none.clone()]).unwrap();
    assert_eq!(
        actions,
        vec![StagingAction::Remove(StagingKey { generation: 0, uuid: "A".to_string() })]
    );
    assert_eq!(page.posts.len(), 1);
    assert_eq!(page.puts_deletes.len(), 1);
    assert_eq!(page.puts_deletes[0].uuid, "D");
    assert!(!page.done);
    let Delivery { page: last, staging: actions } = buffer.get(vec![partial]).unwrap();
    assert_eq!(
        actions,
        vec![
            StagingAction::Remove(StagingKey { generation: 0, uuid: "U".to_string() }),
            StagingAction::SweepBefore(1),
        ]
    );
    assert_eq!(last.puts_deletes.len(), 1);
    assert_eq!(last.puts_deletes[0].uuid, "U");
    assert!(last.done);
}

#[test]
fn snapshot_queues_posts_first_then_changes_by_id() {
    let mut buffer = MutationManager::new(100);
    let mut staging = Staging::new();
    delete(&mut buffer, &mut staging, "m");
    update(&mut buffer, &mut staging, "z", author_update("x"));
    create(&mut buffer, &mut staging, message("y", "a"));
    delete(&mut buffer, &mut staging, "b");
    update(&mut buffer, &mut staging, "m", author_update("x"));
    create(&mut buffer, &mut staging, message("c", "a"));
    delete(&mut buffer, &mut staging, "m");
    update(&mut buffer, &mut staging, "a", author_update("x"));
    buffer.get_pagination_meta();
    let plan: Vec<(Kind, String)> =
        buffer.page_plan().into_iter().map(|e| (e.kind, e.uuid)).collect();
    let expected: Vec<(Kind, String)> = [
        (Kind::Post, "c"),
        (Kind::Post, "y"),
        (Kind::Put, "a"),
        (Kind::Delete, "b"),
        (Kind::Delete, "m"),
        (Kind::Delete, "m"),
        (Kind::Put, "z"),
    ]
    .into_iter()
    .map(|(k, id)| (k, id.to_string()))
    .collect();
    assert_eq!(plan, expected);
}

#[test]
fn a_second_snapshot_extends_the_queue() {
    let mut buffer = MutationManager::new(1);
    let mut staging = Staging::new();
    create(&mut buffer, &mut staging, message("b", "x"));
    create(&mut buffer, &mut staging, message("c", "x"));
    assert_eq!(buffer.get_pagination_meta().total_pages, 2);
    assert_eq!(buffer.generation(), 1);
    let first = serve(&mut buffer, &mut staging);
    assert_eq!(post_ids(&first), vec!["b"]);
    create(&mut buffer, &mut staging, message("a", "x"));
    update(&mut buffer, &mut staging, "b", author_update("late"));
    assert_eq!(buffer.get_pagination_meta().total_pages, 3);
    assert_eq!(buffer.generation(), 2);
    let second = serve(&mut buffer, &mut staging);
    assert_eq!(post_ids(&second), vec!["c"]);
    assert!(!second.done);
    let third = serve(&mut buffer, &mut staging);
    assert_eq!(post_ids(&third), vec!["a"]);
    assert!(!third.done);
    let fourth = serve(&mut buffer, &mut staging);
    assert_eq!(fourth.puts_deletes.len(), 1);
    assert_eq!(fourth.puts_deletes[0].uuid, "b");
    assert!(fourth.done);
    assert!(staging.is_empty());
}

#[test]
fn recreated_id_keeps_both_payloads_apart() {
    let mut buffer = MutationManager::new(1);
    let mut staging = Staging::new();
    create(&mut buffer, &mut staging, message("a", "first"));
    buffer.get_pagination_meta();
    delete(&mut buffer, &mut staging, "a");
    create(&mut buffer, &mut staging, message("a", "second"));
    assert_eq!(staging.len(), 2);
    let page = serve(&mut buffer, &mut staging);
    assert_eq!(page.posts[0].author, "first");
    assert!(page.done);
    assert_eq!(buffer.get_pagination_meta().total_pages, 2);
    let post = serve(&mut buffer, &mut staging);
    assert_eq!(post.posts[0].author, "second");
    let deletion = serve(&mut buffer, &mut staging);
    assert!(deletion.puts_deletes[0].delete);
    assert!(deletion.done);
}

#[test]
fn walk_delivers_every_entry_once() {
    let mut buffer = MutationManager::new(3);
    let mut staging = Staging::new();
    let mut ids: Vec<String> = (0..10).map(|i| format!("id-{i:02}")).collect();
    for id in ids.iter().rev() {
        create(&mut buffer, &mut staging, message(id, "x"));
    }
    let pages = buffer.get_pagination_meta().total_pages;
    assert_eq!(pages, 4);
    let mut seen = Vec::new();
    for number in 1..=pages {
        let page = serve(&mut buffer, &mut staging);
        assert_eq!(page.done, number == pages);
        assert_eq!(page.posts.len(), if number == pages { 1 } else { 3 });
        seen.extend(post_ids(&page));
    }
    ids.sort();
    assert_eq!(seen, ids);
    assert!(buffer.is_pagination_empty());
}

#[test]
fn page_size_zero_delivers_nothing() {
    let mut buffer = MutationManager::new(0);
    buffer.add_post(message("a", "x")).unwrap();
    assert_eq!(buffer.get_pagination_meta().total_pages, usize::MAX);
    assert!(buffer.page_plan().is_empty());
    let delivery = buffer.get(vec![]).unwrap();
    assert!(delivery.page.posts.is_empty());
    assert!(!delivery.page.done);
    assert!(delivery.staging.is_empty());
}

#[test]
fn empty_queue_gives_a_last_page() {
    let mut buffer = MutationManager::new(2);
    let Delivery { page, staging } = buffer.get(vec![]).unwrap();
    assert!(page.posts.is_empty());
    assert!(page.puts_deletes.is_empty());
    assert!(page.done);
    assert_eq!(staging, vec![StagingAction::SweepBefore(0)]);
}

#[test]
fn clear_drops_everything() {
    let mut buffer = MutationManager::new(1);
    let mut staging = Staging::new();
    create(&mut buffer, &mut staging, message("a", "x"));
    create(&mut buffer, &mut staging, message("b", "x"));
    buffer.get_pagination_meta();
    update(&mut buffer, &mut staging, "c", author_update("x"));
    delete(&mut buffer, &mut staging, "d");
    assert_eq!(buffer.clear(), StagingAction::Wipe);
    assert!(buffer.is_pagination_empty());
    assert!(buffer.is_empty_for_pagination());
    assert_eq!(buffer.generation(), 0);
    assert_eq!(buffer.staged_key("c"), None);
    assert_eq!(buffer.get_pagination_meta().total_pages, 0);
}

#[test]
fn attachments_go_along_where_flagged() {
    let mut buffer = MutationManager::new(10);
    let mut with_image = message("a", "x");
    with_image.has_image = true;
    buffer.add_post(with_image.clone()).unwrap();
    buffer.add_post(message("b", "x")).unwrap();
    let touched = ServerPutUpdate {
        author: Maybe::Absent,
        message: Maybe::Absent,
        likes: Maybe::Absent,
        image_updated: Maybe::Value(true),
        image: Maybe::Value("new".to_string()),
    };
    buffer.add_put("p", touched.clone(), None).unwrap();
    buffer.add_put("q", touched.clone(), None).unwrap();
    buffer.add_put("r", author_update("x"), None).unwrap();
    buffer.get_pagination_meta();
    let image = Some("content".to_string());
    let records = vec![
        PageRecord { staged: Some(StagedPayload::Created(with_image)), image: image.clone() },
        PageRecord { staged: Some(StagedPayload::Created(message("b", "x"))), image: image.clone() },
        PageRecord {
            staged: Some(StagedPayload::Updated(touched.clone().without_image())),
            image: image.clone(),
        },
        PageRecord { staged: Some(StagedPayload::Updated(touched.without_image())), image: None },
        PageRecord {
            staged: Some(StagedPayload::Updated(author_update("x").without_image())),
            image: image.clone(),
        },
    ];
    let page = buffer.get(records).unwrap().page;
    assert_eq!(page.posts[0].image, image);
    assert_eq!(page.posts[1].image, None);
    let images: Vec<Maybe<String>> =
        page.puts_deletes.iter().map(|c| c.put.clone().unwrap().image).collect();
    assert_eq!(images, vec![Maybe::Value("content".to_string()), Maybe::Null, Maybe::Absent]);
}

#[test]
fn staged_record_says_whether_the_attachment_is_read() {
    let mut with_image = message("a", "x");
    assert!(!StagedPayload::Created(with_image.clone()).needs_image());
    with_image.has_image = true;
    assert!(StagedPayload::Created(with_image).needs_image());
    let staged = |flag: Maybe<bool>| {
        StagedPayload::Updated(ServerPutUpdateWithoutImage {
            author: Maybe::Absent,
            message: Maybe::Absent,
            likes: Maybe::Absent,
            image_updated: flag,
        })
    };
    assert!(staged(Maybe::Value(true)).needs_image());
    assert!(!staged(Maybe::Value(false)).needs_image());
    assert!(!staged(Maybe::Null).needs_image());
    assert!(!staged(Maybe::Absent).needs_image());
}

#[test]
fn snapshot_queues_as_many_entries_as_are_pending() {
    let mut buffer = MutationManager::new(4);
    let mut staging = Staging::new();
    create(&mut buffer, &mut staging, message("a", "x"));
    create(&mut buffer, &mut staging, message("b", "x"));
    buffer.get_pagination_meta();
    update(&mut buffer, &mut staging, "c", author_update("x"));
    delete(&mut buffer, &mut staging, "d");
    delete(&mut buffer, &mut staging, "d");
    create(&mut buffer, &mut staging, message("e", "x"));
    assert_eq!(buffer.get_pagination_meta().total_pages, 2);
    assert_eq!(buffer.page_plan().len(), 4);
    serve(&mut buffer, &mut staging);
    assert_eq!(buffer.page_plan().len(), 2);
}
