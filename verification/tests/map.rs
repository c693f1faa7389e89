use src_ctx::{Insert, Origin, PendingSource, SourceIndex, SourceMap};

fn test_map(content: &str) -> (SourceMap, SourceIndex) {
    let mut map = SourceMap::new();
    let index = map
        .insert(Origin::from_named("test"), content.to_owned())
        .try_into_inserted()
        .unwrap();
    (map, index)
}

#[test]
fn entries() {
    let mut map = SourceMap::new();

    let idx_file = map
        .insert(Origin::from_file("test-file"), "test-file-content".into())
        .try_into_inserted()
        .unwrap();
    let idx_str = map
        .insert(Origin::from_named("test-str"), "test-str-content".into())
        .try_into_inserted()
        .unwrap();

    assert!(map.contains_file("test-file"));
    assert!(!map.contains_file("unknown-file"));

    assert_eq!(map.file_index("test-file"), Some(idx_file));
    assert_eq!(map.origin_index(&Origin::from_file("test-file")), Some(idx_file));
    assert_eq!(map.origin_index(&Origin::from_named("test-str")), Some(idx_str));

    assert_eq!(map.content(idx_file), "test-file-content");
    assert_eq!(map.content(idx_str), "test-str-content");

    assert_eq!(map.origin(idx_file), &Origin::from_file("test-file"));
    assert_eq!(map.origin(idx_str), &Origin::from_named("test-str"));

    assert_eq!(
        map.insert(Origin::from_file("test-file"), "other-content".into()),
        Insert::Previous(idx_file)
    );
    assert_eq!(
        map.insert(Origin::from_named("test-str"), "other-content".into()),
        Insert::Previous(idx_str)
    );
}

#[test]
fn map_ids() {
    let (map_a, index_a) = test_map("content a");
    let (map_b, index_b) = test_map("content b");

    assert!(map_a.contains(index_a));
    assert!(map_b.contains(index_b));

    assert!(!map_a.contains(index_b));
    assert!(!map_b.contains(index_a));
}

#[test]
fn repeated_insert_keeps_entry() {
    let mut map = SourceMap::new();
    let first = map.insert(Origin::from_named("dup"), "original".into());
    let index = first.try_into_inserted().unwrap();

    let second = map.insert(Origin::from_named("dup"), "replacement".into());
    assert_eq!(second, Insert::Previous(index));
    assert_eq!(map.content(index), "original");
    assert_eq!(map.origin(index), &Origin::from_named("dup"));
    assert_eq!(map.origins().len(), 1);
}

#[test]
fn lookups_and_listing() {
    let mut map = SourceMap::new();
    let idx_a = map
        .insert(Origin::from_file("a.txt"), "aaa".into())
        .try_into_inserted()
        .unwrap();
    let idx_n = map
        .insert(Origin::from_named("n"), "nnn".into())
        .try_into_inserted()
        .unwrap();
    let idx_b = map
        .insert(Origin::from_file("b.txt"), "bbb".into())
        .try_into_inserted()
        .unwrap();

    assert_eq!(map.file_index("a.txt"), Some(idx_a));
    assert_eq!(map.file_index("b.txt"), Some(idx_b));
    assert_eq!(map.file_index("n"), None);
    assert_eq!(map.origin_index(&Origin::from_named("missing")), None);
    assert_eq!(map.origin_index(&Origin::from_named("n")), Some(idx_n));

    assert_eq!(map.files(), vec!["a.txt".to_owned(), "b.txt".to_owned()]);
    assert_eq!(
        map.origins(),
        vec![
            Origin::from_file("a.txt"),
            Origin::from_named("n"),
            Origin::from_file("b.txt"),
        ]
    );
}

#[test]
fn insert_many_registers_batch() {
    let mut map = SourceMap::new();
    let known = map
        .insert(Origin::from_file("known.txt"), "known".into())
        .try_into_inserted()
        .unwrap();

    let outcomes = map.insert_many(vec![
        PendingSource::New(Origin::from_file("one.txt"), "one".into()),
        PendingSource::Known(known),
        PendingSource::New(Origin::from_file("two.txt"), "two".into()),
    ]);

    assert_eq!(outcomes.len(), 3);
    let idx_one = match outcomes[0] {
        Insert::Inserted(idx) => idx,
        Insert::Previous(_) => panic!("expected insertion"),
    };
    assert_eq!(outcomes[1], Insert::Previous(known));
    let idx_two = match outcomes[2] {
        Insert::Inserted(idx) => idx,
        Insert::Previous(_) => panic!("expected insertion"),
    };

    assert_eq!(map.content(idx_one), "one");
    assert_eq!(map.content(idx_two), "two");
    assert_eq!(map.content(known), "known");
    assert_eq!(map.file_index("one.txt"), Some(idx_one));
    assert_eq!(map.file_index("two.txt"), Some(idx_two));
}

#[test]
fn line_and_column_resolution() {
    let (map, index) = test_map("abc\ndef\nghi");
    let input = map.input(index);

    let origin = map.context_error_origin(input.skip(6).offset(), "test-note", None);
    assert_eq!(origin.location().line_number(), 2);
    assert_eq!(origin.location().column_number(), 3);
    assert_eq!(origin.location().line(), "def");
    assert_eq!(origin.note(), "test-note");
    assert_eq!(origin.origin(), &Origin::from_named("test"));
    assert!(origin.context().is_none());

    let first = map.context_error_origin(input.offset(), "start", None);
    assert_eq!(first.location().line_number(), 1);
    assert_eq!(first.location().column_number(), 1);
    assert_eq!(first.location().line(), "abc");

    let last = map.context_error_origin(input.skip(10).offset(), "end", Some(input.offset()));
    assert_eq!(last.location().line_number(), 3);
    assert_eq!(last.location().column_number(), 3);
    assert_eq!(last.location().line(), "ghi");
    let context = last.context().unwrap();
    assert_eq!(context.line_number(), 1);
    assert_eq!(context.column_number(), 1);
    assert_eq!(context.line(), "abc");
}
