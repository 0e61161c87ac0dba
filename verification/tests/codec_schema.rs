use pasta_store::codec::{decode, encode, Row};
use pasta_store::record::{Pasta, PastaFile};
use pasta_store::schema::{ensure_title_column, has_column_name, needs_column};

fn full_record() -> Pasta {
    Pasta {
        id: 11,
        content: "the body".to_owned(),
        title: Some("a title".to_owned()),
        file: Some(PastaFile { name: "data.tar".to_owned(), size: 2048 }),
        extension: "tar".to_owned(),
        readonly: true,
        private: false,
        editable: true,
        encrypt_server: true,
        encrypt_client: false,
        encrypted_key: Some("stored key material".to_owned()),
        created: 1700000000,
        expiration: 1700003600,
        last_read: 1700000500,
        read_count: 3,
        burn_after_reads: 5,
        pasta_type: "file".to_owned(),
    }
}

#[test]
fn encode_maps_booleans_to_zero_and_one() {
    let r = encode(&full_record());
    assert_eq!(r.read_only, 1);
    assert_eq!(r.private, 0);
    assert_eq!(r.editable, 1);
    assert_eq!(r.encrypt_server, 1);
    assert_eq!(r.encrypt_client, 0);
}

#[test]
fn encode_present_attachment_keeps_name_and_size() {
    let r = encode(&full_record());
    assert_eq!(r.file_name, "data.tar");
    assert_eq!(r.file_size, 2048);
}

#[test]
fn encode_absent_attachment_uses_sentinel_pair() {
    let mut p = full_record();
    p.file = None;
    let r = encode(&p);
    assert_eq!(r.file_name, "");
    assert_eq!(r.file_size, 0);
}

#[test]
fn decode_encode_is_identity_on_well_formed_records() {
    let p = full_record();
    assert_eq!(decode(&encode(&p)), p);
    let mut no_file = full_record();
    no_file.file = None;
    no_file.title = None;
    no_file.encrypted_key = None;
    assert_eq!(decode(&encode(&no_file)), no_file);
}

#[test]
fn decode_treats_any_nonzero_flag_as_true() {
    let mut r = encode(&full_record());
    r.private = -7;
    r.encrypt_client = 2;
    let p = decode(&r);
    assert!(p.private);
    assert!(p.encrypt_client);
    assert!(p.readonly);
}

#[test]
fn decode_collapses_partial_attachment() {
    let mut r = encode(&full_record());
    r.file_size = 0;
    assert_eq!(decode(&r).file, None);
    let mut r2 = encode(&full_record());
    r2.file_name = String::new();
    assert_eq!(decode(&r2).file, None);
}

#[test]
fn decode_reads_every_scalar_column() {
    let row = Row {
        id: 1,
        content: "c".to_owned(),
        title: None,
        file_name: String::new(),
        file_size: 0,
        extension: "md".to_owned(),
        read_only: 0,
        private: 1,
        editable: 0,
        encrypt_server: 0,
        encrypt_client: 0,
        encrypted_key: None,
        created: 42,
        expiration: 43,
        last_read: 44,
        read_count: 45,
        burn_after_reads: 46,
        pasta_type: "text".to_owned(),
    };
    let p = decode(&row);
    assert_eq!(p.id, 1);
    assert_eq!(p.content, "c");
    assert_eq!(p.title, None);
    assert_eq!(p.file, None);
    assert_eq!(p.extension, "md");
    assert!(!p.readonly && p.private && !p.editable);
    assert_eq!(p.created, 42);
    assert_eq!(p.expiration, 43);
    assert_eq!(p.last_read, 44);
    assert_eq!(p.read_count, 45);
    assert_eq!(p.burn_after_reads, 46);
    assert_eq!(p.pasta_type, "text");
}

fn old_schema() -> Vec<String> {
    vec!["id".to_owned(), "content".to_owned(), "extension".to_owned()]
}

#[test]
fn migration_adds_missing_title_column_once() {
    let mut cols = old_schema();
    ensure_title_column(true, &mut cols);
    assert_eq!(cols.len(), 4);
    assert_eq!(cols[0], "id");
    assert_eq!(cols[1], "content");
    assert_eq!(cols[2], "extension");
    assert_eq!(cols[3], "title");
    ensure_title_column(true, &mut cols);
    assert_eq!(cols.len(), 4);
}

#[test]
fn migration_skips_missing_table() {
    let mut cols: Vec<String> = Vec::new();
    ensure_title_column(false, &mut cols);
    assert!(cols.is_empty());
}

#[test]
fn migration_leaves_present_column_alone() {
    let mut cols = old_schema();
    cols.push("title".to_owned());
    let before = cols.clone();
    ensure_title_column(true, &mut cols);
    assert_eq!(cols, before);
}

#[test]
fn needs_column_only_on_existing_table_without_it() {
    let cols = old_schema();
    let title = "title".to_owned();
    assert!(needs_column(true, &cols, &title));
    assert!(!needs_column(false, &cols, &title));
    assert!(!needs_column(true, &cols, &"content".to_owned()));
    assert!(has_column_name(&cols, &"id".to_owned()));
    assert!(!has_column_name(&cols, &title));
}
