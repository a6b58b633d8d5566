use drill::engine::{
    blank, document_pairs, stored_only, tantivy_schema, DictIndex, Hit, IngestError, OpenError, QueryError, WriterError,
};
use drill::entry::GenericDictEntry;
use drill::record::{resolve_record, FieldValue, Record, ValidationError};
use drill::schema::{dict_schema, FieldSchema, FieldSpec, LanguageClass, SchemaError};
use drill::tokenize::{tokenize, Token};
use drill::view::{SideMenuBar, ViewMode};

fn two_fields() -> FieldSchema {
    FieldSchema::create(vec![
        FieldSpec::text("simplified", LanguageClass::Cjk),
        FieldSpec::text("english", LanguageClass::Latin),
    ])
    .unwrap()
}

fn names(list: &[&str]) -> Vec<String> {
    list.iter().map(|s| s.to_string()).collect()
}

fn hello_index() -> DictIndex {
    let mut index = DictIndex::create_in_ram(two_fields()).unwrap();
    let record = Record::new().with_text("simplified", "你好").with_text("english", "hello");
    index.add(&record).unwrap();
    index.commit().unwrap();
    index
}

#[test]
fn hello_scenario() {
    let index = hello_index();
    let hits = index.search("你好", 1, &names(&["simplified"])).unwrap();
    assert_eq!(hits.len(), 1);
    assert_eq!(hits[0].get("simplified"), Some("你好".to_string()));
    let hits = index.search("hello", 1, &names(&["simplified"])).unwrap();
    assert_eq!(hits.len(), 0);
    let hits = index.search("hello", 1, &names(&["english"])).unwrap();
    assert_eq!(hits.len(), 1);
    assert_eq!(hits[0].get("english"), Some("hello".to_string()));
}

#[test]
fn committed_record_is_found_by_its_token() {
    let mut index = DictIndex::create_in_ram(two_fields()).unwrap();
    let records = vec![
        Record::new().with_text("english", "a quick brown fox"),
        Record::new().with_text("english", "lazy dog sleeps"),
    ];
    index.index(&records).unwrap();
    assert_eq!(index.num_visible(), 2);
    let hits = index.search("dog", 5, &names(&["english"])).unwrap();
    assert_eq!(hits.len(), 1);
    assert_eq!(hits[0].get("english"), Some("lazy dog sleeps".to_string()));
}

#[test]
fn stored_text_comes_back_byte_for_byte() {
    let mut index = DictIndex::create_in_ram(two_fields()).unwrap();
    let original = "Hello, World!  It's MIXED case.";
    index.add(&Record::new().with_text("english", original)).unwrap();
    index.commit().unwrap();
    let hits = index.search("world", 3, &names(&["english"])).unwrap();
    assert_eq!(hits.len(), 1);
    assert_eq!(hits[0].get("english"), Some(original.to_string()));
}

#[test]
fn blank_query_matches_nothing() {
    let index = hello_index();
    assert_eq!(index.search("", 3, &names(&["english", "simplified"])).unwrap().len(), 0);
    assert_eq!(index.search("  \t ", 3, &names(&["english"])).unwrap().len(), 0);
    assert!(blank(" \n"));
    assert!(!blank(" a "));
}

#[test]
fn commit_without_new_documents_keeps_the_count() {
    let mut index = hello_index();
    assert_eq!(index.num_visible(), 1);
    index.commit().unwrap();
    assert_eq!(index.num_visible(), 1);
    index.commit().unwrap();
    assert_eq!(index.num_visible(), 1);
    assert_eq!(index.search("hello", 5, &names(&["english"])).unwrap().len(), 1);
}

#[test]
fn added_documents_stay_invisible_until_commit() {
    let mut index = hello_index();
    index.add(&Record::new().with_text("english", "hello again")).unwrap();
    assert_eq!(index.num_pending(), 1);
    assert_eq!(index.search("again", 5, &names(&["english"])).unwrap().len(), 0);
    index.commit().unwrap();
    assert_eq!(index.num_pending(), 0);
    assert_eq!(index.num_visible(), 2);
    assert_eq!(index.search("again", 5, &names(&["english"])).unwrap().len(), 1);
}

fn spans(tokens: Vec<Token>) -> Vec<(String, usize, usize)> {
    tokens.into_iter().map(|t| (t.text, t.offset_from, t.offset_to)).collect()
}

#[test]
fn cjk_tokens_are_characters() {
    assert_eq!(
        spans(tokenize(LanguageClass::Cjk, "你好a吗")),
        vec![("你".to_string(), 0, 3), ("好".to_string(), 3, 6), ("a".to_string(), 6, 7), ("吗".to_string(), 7, 10)]
    );
    assert!(tokenize(LanguageClass::Cjk, "").is_empty());
}

#[test]
fn latin_tokens_are_lowercased_words() {
    assert_eq!(
        spans(tokenize(LanguageClass::Latin, "Hello, World-Wide")),
        vec![("hello".to_string(), 0, 5), ("world".to_string(), 7, 12), ("wide".to_string(), 13, 17)]
    );
    assert!(tokenize(LanguageClass::Latin, "").is_empty());
}

#[test]
fn search_is_restricted_to_the_named_fields() {
    let mut index = DictIndex::create_in_ram(two_fields()).unwrap();
    index.add(&Record::new().with_text("english", "apple")).unwrap();
    index.add(&Record::new().with_text("simplified", "苹果")).unwrap();
    index.commit().unwrap();
    assert_eq!(index.search("apple", 5, &names(&["simplified"])).unwrap().len(), 0);
    assert_eq!(index.search("apple", 5, &names(&["english"])).unwrap().len(), 1);
    assert_eq!(index.search("苹果", 5, &names(&["english"])).unwrap().len(), 0);
    assert_eq!(index.search("苹果", 5, &names(&["simplified"])).unwrap().len(), 1);
}

#[test]
fn second_writer_is_locked_out() {
    let mut index = DictIndex::create_in_ram(two_fields()).unwrap();
    index.open_writer().unwrap();
    assert_eq!(index.open_writer(), Err(WriterError::Locked));
    index.close_writer();
    assert!(!index.writer_open());
    assert_eq!(index.open_writer(), Ok(()));
}

#[test]
fn schema_errors() {
    assert_eq!(FieldSchema::create(vec![]).unwrap_err(), SchemaError::Empty);
    let dup = FieldSchema::create(vec![
        FieldSpec::text("title", LanguageClass::Cjk),
        FieldSpec::text("url", LanguageClass::Latin),
        FieldSpec::text("title", LanguageClass::Latin),
    ]);
    assert_eq!(dup.unwrap_err(), SchemaError::DuplicateName("title".to_string()));
    let other = FieldSchema::create(vec![FieldSpec::text("english", LanguageClass::Latin)]).unwrap();
    assert_eq!(two_fields().check_same(&other), Err(SchemaError::Mismatch));
    assert_eq!(two_fields().check_same(&two_fields()), Ok(()));
}

#[test]
fn opening_with_another_schema_is_refused() {
    let index = hello_index();
    drop(index);
    let schema = tantivy_schema(&two_fields());
    let raw = tantivy::Index::create_in_ram(schema);
    let other = FieldSchema::create(vec![FieldSpec::text("english", LanguageClass::Latin)]).unwrap();
    assert!(matches!(DictIndex::open(raw.clone(), other), Err(OpenError::Schema(SchemaError::Mismatch))));
    assert!(DictIndex::open(raw, two_fields()).is_ok());
}

#[test]
fn unknown_field_in_record_is_rejected() {
    let mut index = hello_index();
    let bad = Record::new().with_text("english", "x").with_text("colour", "red");
    assert_eq!(
        index.add(&bad),
        Err(IngestError::Validation(ValidationError::UnknownField("colour".to_string())))
    );
    assert_eq!(index.num_pending(), 0);
    let batch = vec![Record::new().with_text("english", "fine"), bad];
    assert!(matches!(index.index(&batch), Err(IngestError::Validation(_))));
    assert_eq!(index.num_visible(), 1);
    assert_eq!(resolve_record(&two_fields(), &Record::new().with_text("english", "y")), Ok(vec![1]));
}

#[test]
fn unknown_field_in_query_is_rejected() {
    let index = hello_index();
    assert_eq!(
        index.search("hello", 1, &names(&["english", "pinyin"])).unwrap_err(),
        QueryError::UnknownField("pinyin".to_string())
    );
}

#[test]
fn malformed_query_is_a_parse_failure() {
    let index = hello_index();
    assert!(matches!(index.search("nosuchfield:hello", 1, &names(&["english"])), Err(QueryError::ParseFailure(_))));
}

#[test]
fn top_k_bounds_the_results() {
    let mut index = DictIndex::create_in_ram(two_fields()).unwrap();
    let records: Vec<Record> = (0..4).map(|i| Record::new().with_text("english", &format!("tea number{}", i))).collect();
    index.index(&records).unwrap();
    assert_eq!(index.search("tea", 2, &names(&["english"])).unwrap().len(), 2);
    assert_eq!(index.search("tea", 10, &names(&["english"])).unwrap().len(), 4);
}

#[test]
fn dictionary_index_takes_list_fields() {
    let mut index = DictIndex::new().unwrap();
    assert_eq!(index.schema().len(), 20);
    assert_eq!(index.schema().find(&"answer".to_string()), Some(19));
    let record = Record::new()
        .with_text("simplified", "高兴")
        .with_list("synonym", names(&["快乐", "愉快"]))
        .with_text("english", "happy");
    index.index(&[record]).unwrap();
    let hits = index.search("愉快", 3, &names(&["synonym"])).unwrap();
    assert_eq!(hits.len(), 1);
    assert_eq!(hits[0].get("english"), Some("happy".to_string()));
    assert_eq!(index.search("happy", 3, &names(&["english", "eng_definition"])).unwrap().len(), 1);
}

#[test]
fn dictionary_schema_is_valid() {
    let schema = dict_schema();
    assert_eq!(schema.len(), 20);
    assert_eq!(schema.field(0).name, "simplified");
    assert_eq!(schema.field(3).language, LanguageClass::Latin);
    assert!(schema.check_same(&dict_schema()).is_ok());
}

#[test]
fn unstored_fields_are_never_returned() {
    let mut hidden = FieldSpec::text("english", LanguageClass::Latin);
    hidden.stored = false;
    let schema = FieldSchema::create(vec![FieldSpec::text("simplified", LanguageClass::Cjk), hidden]).unwrap();
    let kept = stored_only(
        &schema,
        &vec![
            (1, Some("secret".to_string())),
            (0, Some("你".to_string())),
            (0, None),
            (7, Some("x".to_string())),
        ],
    );
    assert_eq!(kept, vec![("simplified".to_string(), "你".to_string())]);
    let mut index = DictIndex::create_in_ram(schema).unwrap();
    index.add(&Record::new().with_text("english", "secret word").with_text("simplified", "字")).unwrap();
    index.commit().unwrap();
    let hits = index.search("secret", 1, &names(&["english"])).unwrap();
    assert_eq!(hits.len(), 1);
    assert_eq!(hits[0].get("english"), None);
    assert_eq!(hits[0].get("simplified"), Some("字".to_string()));
}

#[test]
fn hit_lookup_takes_the_first_value() {
    let hit = Hit { fields: vec![("a".to_string(), "1".to_string()), ("a".to_string(), "2".to_string())] };
    assert_eq!(hit.get("a"), Some("1".to_string()));
    assert_eq!(hit.get("b"), None);
}

#[test]
fn side_menu_starts_on_flashcards() {
    let mut menu = SideMenuBar::default();
    assert_eq!(menu.selected_mode, ViewMode::Flashcard);
    menu.select(ViewMode::Dictionary);
    assert_eq!(menu.selected_mode, ViewMode::Dictionary);
}

#[test]
fn dictionary_entry_becomes_a_record_of_present_fields() {
    let entry = GenericDictEntry {
        simplified: Some("书".to_string()),
        english: Some("book".to_string()),
        synonym: names(&["书本"]),
        ..Default::default()
    };
    let record = entry.into_record();
    let keys: Vec<&str> = record.entries.iter().map(|(k, _)| k.as_str()).collect();
    assert_eq!(keys, vec!["simplified", "english", "synonym"]);
    assert!(matches!(&record.entries[2].1, FieldValue::TextList(v) if v == &names(&["书本"])));
    let empty = GenericDictEntry::default().into_record();
    assert!(empty.entries.is_empty());
    let antonyms = GenericDictEntry { antonym: names(&["坏"]), ..Default::default() }.into_record();
    let mut index = DictIndex::new().unwrap();
    index.index(&[record, antonyms]).unwrap();
    assert_eq!(index.search("book", 2, &names(&["english"])).unwrap().len(), 1);
    assert_eq!(index.search("坏", 2, &names(&["antonym"])).unwrap().len(), 1);
}

#[test]
fn writer_lock_is_shared_by_handles_on_one_index() {
    let schema = tantivy_schema(&two_fields());
    let raw = tantivy::Index::create_in_ram(schema);
    let mut first = DictIndex::open(raw.clone(), two_fields()).unwrap();
    let mut second = DictIndex::open(raw, two_fields()).unwrap();
    first.open_writer().unwrap();
    assert_eq!(second.open_writer(), Err(WriterError::Locked));
    assert!(matches!(
        second.add(&Record::new().with_text("english", "x")),
        Err(IngestError::Writer(WriterError::Locked))
    ));
    first.close_writer();
    assert_eq!(second.open_writer(), Ok(()));
}

#[test]
fn invalid_field_names_are_rejected() {
    let empty = FieldSchema::create(vec![FieldSpec::text("", LanguageClass::Latin)]);
    assert_eq!(empty.unwrap_err(), SchemaError::InvalidName(String::new()));
    let dash = FieldSchema::create(vec![
        FieldSpec::text("ok", LanguageClass::Latin),
        FieldSpec::text("-x", LanguageClass::Cjk),
    ]);
    assert_eq!(dash.unwrap_err(), SchemaError::InvalidName("-x".to_string()));
}

#[test]
fn document_pairs_list_every_value_with_its_position() {
    let record = Record::new()
        .with_text("english", "hi")
        .with_list("synonym", names(&["a", "b"]))
        .with_list("antonym", vec![]);
    let pairs = document_pairs(&vec![4, 5, 6], &record);
    assert_eq!(
        pairs,
        vec![(4, "hi".to_string()), (5, "a".to_string()), (5, "b".to_string())]
    );
}

#[test]
fn index_releases_the_writer_lock() {
    let schema = tantivy_schema(&two_fields());
    let raw = tantivy::Index::create_in_ram(schema);
    let mut first = DictIndex::open(raw.clone(), two_fields()).unwrap();
    let mut second = DictIndex::open(raw, two_fields()).unwrap();
    first.index(&[Record::new().with_text("english", "one")]).unwrap();
    assert!(!first.writer_open());
    second.index(&[Record::new().with_text("english", "two")]).unwrap();
    assert_eq!(second.num_visible(), 1);
    assert_eq!(second.search("one", 5, &names(&["english"])).unwrap().len(), 1);
}

#[test]
fn empty_batch_without_writer_succeeds() {
    let mut index = hello_index();
    index.close_writer();
    assert_eq!(index.index(&[]), Ok(()));
    assert_eq!(index.num_visible(), 1);
}

#[test]
fn unicode_whitespace_query_is_blank() {
    let index = hello_index();
    assert!(blank("\u{3000}\u{00A0} "));
    assert_eq!(index.search("\u{3000}", 3, &names(&["simplified"])).unwrap().len(), 0);
}
