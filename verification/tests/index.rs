use otakuhub::index::{collection_name, IndexCollection, Provider};
use otakuhub::tracker::EntityKind;

#[test]
fn each_provider_and_kind_has_its_own_collection() {
    let mut names: Vec<&str> = Vec::new();
    for provider in [Provider::Jikan, Provider::Anilist] {
        for kind in [EntityKind::Anime, EntityKind::Character, EntityKind::Manga] {
            names.push(collection_name(provider, kind));
        }
    }
    assert_eq!(
        names,
        vec![
            "jikan_anime",
            "jikan_character",
            "jikan_manga",
            "anilist_anime",
            "anilist_character",
            "anilist_manga",
        ]
    );
    let mut deduped = names.clone();
    deduped.sort_unstable();
    deduped.dedup();
    assert_eq!(deduped.len(), names.len());
}

#[test]
fn upsert_inserts_and_replaces() {
    let mut collection: IndexCollection<&str> = IndexCollection::new();
    collection.upsert(1, "first");
    collection.upsert(2, "second");
    assert_eq!(collection.len(), 2);
    collection.upsert(1, "first, rewritten");
    assert_eq!(collection.len(), 2);
    assert_eq!(collection.get(1), Some(&"first, rewritten"));
    assert_eq!(collection.get(2), Some(&"second"));
    assert_eq!(collection.get(3), None);
}

#[test]
fn upserting_the_same_batch_twice_changes_nothing() {
    let mut collection: IndexCollection<String> = IndexCollection::new();
    collection.upsert(5, String::from("stale"));
    let keys = vec![1i64, 2, 5];
    let records = vec![
        String::from("one"),
        String::from("two"),
        String::from("five"),
    ];
    collection.upsert_batch(keys.clone(), records.clone());
    assert_eq!(collection.len(), 3);
    let after_first: Vec<Option<String>> = (0..7)
        .map(|k| collection.get(k).cloned())
        .collect();

    collection.upsert_batch(keys, records);
    assert_eq!(collection.len(), 3);
    for k in 0..7 {
        assert_eq!(collection.get(k).cloned(), after_first[k as usize]);
    }
    assert_eq!(collection.get(5), Some(&String::from("five")));
}

#[test]
fn later_batch_entry_wins_on_key_collision() {
    let mut collection: IndexCollection<&str> = IndexCollection::new();
    collection.upsert_batch(vec![1, 1], vec!["early", "late"]);
    assert_eq!(collection.len(), 1);
    assert_eq!(collection.get(1), Some(&"late"));
}

#[test]
fn absent_batch_keys_leave_other_records_alone() {
    let mut collection: IndexCollection<&str> = IndexCollection::new();
    collection.upsert(10, "kept");
    collection.upsert_batch(vec![11], vec!["new"]);
    assert_eq!(collection.len(), 2);
    assert_eq!(collection.get(10), Some(&"kept"));
    assert_eq!(collection.get(11), Some(&"new"));
}
