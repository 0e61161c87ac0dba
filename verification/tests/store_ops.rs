use pasta_store::record::{Pasta, PastaFile, StoreError};
use pasta_store::store::{
    delete_by_id, insert, read_all, rewrite_all_to_db, select_all_from_db, update, update_all,
    Store,
};

fn sample(id: u64, content: &str, created: i64) -> Pasta {
    Pasta {
        id,
        content: content.to_owned(),
        title: None,
        file: None,
        extension: "txt".to_owned(),
        readonly: false,
        private: false,
        editable: true,
        encrypt_server: false,
        encrypt_client: false,
        encrypted_key: None,
        created,
        expiration: 0,
        last_read: 0,
        read_count: 0,
        burn_after_reads: 0,
        pasta_type: "text".to_owned(),
    }
}

#[test]
fn insert_then_read_round_trip() {
    let mut s = Store::new();
    let mut p = sample(7, "body", 100);
    p.title = Some("a title".to_owned());
    p.file = Some(PastaFile { name: "notes.md".to_owned(), size: 42 });
    p.encrypted_key = Some("stored key material".to_owned());
    p.readonly = true;
    p.encrypt_server = true;
    assert_eq!(insert(&mut s, &p), Ok(()));
    let out = read_all(&s);
    assert_eq!(out.len(), 1);
    assert_eq!(out[0], p);
}

#[test]
fn partial_attachment_collapses_to_absent() {
    let mut s = Store::new();
    let mut empty_name = sample(1, "a", 1);
    empty_name.file = Some(PastaFile { name: String::new(), size: 9 });
    let mut zero_size = sample(2, "b", 2);
    zero_size.file = Some(PastaFile { name: "x.bin".to_owned(), size: 0 });
    assert_eq!(insert(&mut s, &empty_name), Ok(()));
    assert_eq!(insert(&mut s, &zero_size), Ok(()));
    let out = read_all(&s);
    assert_eq!(out.len(), 2);
    assert_eq!(out[0].file, None);
    assert_eq!(out[1].file, None);
}

#[test]
fn read_all_sorted_by_created() {
    let mut s = Store::new();
    assert_eq!(insert(&mut s, &sample(1, "late", 300)), Ok(()));
    assert_eq!(insert(&mut s, &sample(2, "early", 100)), Ok(()));
    assert_eq!(insert(&mut s, &sample(3, "middle", 200)), Ok(()));
    let out = read_all(&s);
    let created: Vec<i64> = out.iter().map(|p| p.created).collect();
    assert_eq!(created, vec![100, 200, 300]);
    let ids: Vec<u64> = out.iter().map(|p| p.id).collect();
    assert_eq!(ids, vec![2, 3, 1]);
}

#[test]
fn insert_duplicate_id_is_constraint_error() {
    let mut s = Store::new();
    assert_eq!(insert(&mut s, &sample(5, "first", 1)), Ok(()));
    assert_eq!(insert(&mut s, &sample(5, "second", 2)), Err(StoreError::Constraint));
    let out = read_all(&s);
    assert_eq!(out.len(), 1);
    assert_eq!(out[0].content, "first");
}

#[test]
fn update_existing_replaces_every_field() {
    let mut s = Store::new();
    assert_eq!(insert(&mut s, &sample(3, "old", 10)), Ok(()));
    let mut changed = sample(3, "new", 20);
    changed.title = Some("renamed".to_owned());
    changed.private = true;
    changed.read_count = 8;
    update(&mut s, &changed);
    let out = read_all(&s);
    assert_eq!(out.len(), 1);
    assert_eq!(out[0], changed);
}

#[test]
fn update_missing_id_is_silent_no_op() {
    let mut s = Store::new();
    assert_eq!(insert(&mut s, &sample(1, "kept", 10)), Ok(()));
    update(&mut s, &sample(99, "ghostly", 20));
    let out = read_all(&s);
    assert_eq!(out.len(), 1);
    assert_eq!(out[0], sample(1, "kept", 10));
}

#[test]
fn delete_removes_at_most_one_and_twice_is_safe() {
    let mut s = Store::new();
    assert_eq!(insert(&mut s, &sample(1, "a", 1)), Ok(()));
    assert_eq!(insert(&mut s, &sample(2, "b", 2)), Ok(()));
    delete_by_id(&mut s, 1);
    assert_eq!(read_all(&s).len(), 1);
    delete_by_id(&mut s, 1);
    let out = read_all(&s);
    assert_eq!(out.len(), 1);
    assert_eq!(out[0].id, 2);
    delete_by_id(&mut s, 42);
    assert_eq!(read_all(&s).len(), 1);
}

#[test]
fn rewrite_replaces_previous_contents() {
    let mut s = Store::new();
    assert_eq!(insert(&mut s, &sample(1, "gone", 1)), Ok(()));
    assert_eq!(insert(&mut s, &sample(2, "gone too", 2)), Ok(()));
    let replacement = vec![sample(8, "x", 30), sample(9, "y", 10)];
    assert_eq!(rewrite_all_to_db(&mut s, &replacement), Ok(()));
    let out = read_all(&s);
    assert_eq!(out.len(), 2);
    assert_eq!(out[0], sample(9, "y", 10));
    assert_eq!(out[1], sample(8, "x", 30));
}

#[test]
fn rewrite_duplicate_id_stops_at_collision() {
    let mut s = Store::new();
    assert_eq!(insert(&mut s, &sample(1, "old", 1)), Ok(()));
    let bad = vec![sample(4, "kept", 1), sample(4, "collides", 2), sample(5, "never", 3)];
    assert_eq!(rewrite_all_to_db(&mut s, &bad), Err(StoreError::Constraint));
    let out = read_all(&s);
    assert_eq!(out.len(), 1);
    assert_eq!(out[0], sample(4, "kept", 1));
}

#[test]
fn update_all_is_the_bulk_rewrite() {
    let mut s = Store::new();
    assert_eq!(insert(&mut s, &sample(1, "before", 1)), Ok(()));
    assert_eq!(update_all(&mut s, &vec![sample(2, "after", 5)]), Ok(()));
    let out = select_all_from_db(&s);
    assert_eq!(out.len(), 1);
    assert_eq!(out[0], sample(2, "after", 5));
}

#[test]
fn scenario_insert_rewrite_empty_delete() {
    let mut s = Store::new();
    assert_eq!(read_all(&s).len(), 0);
    assert_eq!(insert(&mut s, &sample(1, "hi", 1)), Ok(()));
    let out = read_all(&s);
    assert_eq!(out.len(), 1);
    assert_eq!(out[0].id, 1);
    assert_eq!(out[0].content, "hi");
    assert_eq!(rewrite_all_to_db(&mut s, &Vec::new()), Ok(()));
    assert_eq!(read_all(&s).len(), 0);
    assert_eq!(insert(&mut s, &sample(1, "one", 1)), Ok(()));
    assert_eq!(insert(&mut s, &sample(2, "two", 2)), Ok(()));
    delete_by_id(&mut s, 1);
    let out = read_all(&s);
    assert_eq!(out.len(), 1);
    assert_eq!(out[0].id, 2);
}

#[test]
fn equal_created_keeps_all_records() {
    let mut s = Store::new();
    assert_eq!(insert(&mut s, &sample(1, "a", 50)), Ok(()));
    assert_eq!(insert(&mut s, &sample(2, "b", 50)), Ok(()));
    assert_eq!(insert(&mut s, &sample(3, "c", 50)), Ok(()));
    let out = read_all(&s);
    assert_eq!(out.len(), 3);
    let mut ids: Vec<u64> = out.iter().map(|p| p.id).collect();
    ids.sort();
    assert_eq!(ids, vec![1, 2, 3]);
}
