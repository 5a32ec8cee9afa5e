use server_low_level::entry::{sort_entries, Entry, Kind, StagingKey};
use server_low_level::order::{compare_ids, same_id, IdOrder};
use std::cmp::Ordering;

const IDS: [&str; 12] =
    ["", "a", "A", "ab", "abc", "b", "é", "e", "z", "日本", "\u{10000}", "\u{ffff}"];

#[test]
fn ids_are_ordered_as_strings_are() {
    for a in IDS {
        for b in IDS {
            let expected = match a.cmp(b) {
                Ordering::Less => IdOrder::Before,
                Ordering::Equal => IdOrder::Same,
                Ordering::Greater => IdOrder::After,
            };
            assert_eq!(compare_ids(a, b), expected, "{a:?} and {b:?}");
            assert_eq!(same_id(a, b), a == b);
        }
    }
}

#[test]
fn a_prefix_comes_first() {
    assert_eq!(compare_ids("ab", "abc"), IdOrder::Before);
    assert_eq!(compare_ids("abc", "ab"), IdOrder::After);
    assert_eq!(compare_ids("", "a"), IdOrder::Before);
    assert_eq!(compare_ids("", ""), IdOrder::Same);
}

fn e(kind: Kind, uuid: &str, generation: u64) -> Entry {
    Entry { kind, uuid: uuid.to_string(), generation }
}

#[test]
fn posts_come_before_changes() {
    assert!(e(Kind::Post, "z", 0).queued_before(&e(Kind::Put, "a", 0)));
    assert!(e(Kind::Post, "z", 0).queued_before(&e(Kind::Delete, "a", 0)));
    assert!(!e(Kind::Put, "a", 0).queued_before(&e(Kind::Post, "z", 0)));
    assert!(e(Kind::Put, "a", 0).queued_before(&e(Kind::Delete, "a", 0)));
    assert!(!e(Kind::Delete, "a", 0).queued_before(&e(Kind::Put, "a", 0)));
    assert!(e(Kind::Delete, "a", 0).queued_before(&e(Kind::Put, "b", 0)));
    assert!(e(Kind::Put, "a", 0).queued_before(&e(Kind::Put, "a", 0)));
    assert!(e(Kind::Put, "a", 0).queued_before(&e(Kind::Put, "a", 1)));
    assert!(!e(Kind::Put, "a", 1).queued_before(&e(Kind::Put, "a", 0)));
}

#[test]
fn sorting_keeps_every_entry() {
    let input = vec![
        e(Kind::Delete, "b", 0),
        e(Kind::Put, "b", 0),
        e(Kind::Post, "d", 0),
        e(Kind::Delete, "a", 0),
        e(Kind::Delete, "b", 0),
        e(Kind::Post, "c", 0),
        e(Kind::Put, "a", 0),
    ];
    let sorted = sort_entries(&input);
    assert_eq!(
        sorted,
        vec![
            e(Kind::Post, "c", 0),
            e(Kind::Post, "d", 0),
            e(Kind::Put, "a", 0),
            e(Kind::Delete, "a", 0),
            e(Kind::Put, "b", 0),
            e(Kind::Delete, "b", 0),
            e(Kind::Delete, "b", 0),
        ]
    );
    assert!(sort_entries(&Vec::new()).is_empty());
    assert_eq!(sort_entries(&vec![e(Kind::Put, "x", 3)]), vec![e(Kind::Put, "x", 3)]);
}

#[test]
fn sorting_many_entries() {
    let mut input = Vec::new();
    let mut x: u32 = 12345;
    for _ in 0..500 {
        x = x.wrapping_mul(1103515245).wrapping_add(12345);
        let kind = match x % 3 {
            0 => Kind::Post,
            1 => Kind::Put,
            _ => Kind::Delete,
        };
        input.push(e(kind, &format!("id{}", (x >> 8) % 97), 0));
    }
    let sorted = sort_entries(&input);
    assert_eq!(sorted.len(), input.len());
    for pair in sorted.windows(2) {
        assert!(pair[0].queued_before(&pair[1]));
    }
    let key = |entry: &Entry| (entry.kind.name().to_string(), entry.uuid.clone());
    let mut a: Vec<_> = input.iter().map(key).collect();
    let mut b: Vec<_> = sorted.iter().map(key).collect();
    a.sort();
    b.sort();
    assert_eq!(a, b);
}

#[test]
fn entry_names_its_staged_record() {
    assert_eq!(
        e(Kind::Post, "a", 4).staged_key(),
        Some(StagingKey { generation: 4, uuid: "a".to_string() })
    );
    assert_eq!(
        e(Kind::Put, "a", 0).staged_key(),
        Some(StagingKey { generation: 0, uuid: "a".to_string() })
    );
    assert_eq!(e(Kind::Delete, "a", 4).staged_key(), None);
    assert_eq!(e(Kind::Put, "a", 4).duplicate(), e(Kind::Put, "a", 4));
}

#[test]
fn kinds_have_names() {
    assert_eq!(Kind::Post.name(), "post");
    assert_eq!(Kind::Put.name(), "put");
    assert_eq!(Kind::Delete.name(), "delete");
}
