use src_ctx::{Insert, Origin, SourceIndex, SourceMap, Span};

fn test_map(content: &str) -> (SourceMap, SourceIndex) {
    let mut map = SourceMap::new();
    let index = map
        .insert(Origin::from_named("test"), content.to_owned())
        .try_into_inserted()
        .unwrap();
    (map, index)
}

#[test]
fn inputs() {
    let (map, index) = test_map("abcdef");
    let input = map.input(index);

    assert_eq!(input.len(), 6);
    assert_eq!(input.content(), "abcdef");
    assert!(!input.is_empty());
    assert!(input.offset().is_at_start());

    let end = input.end();
    assert_eq!(end.len(), 0);
    assert_eq!(end.content(), "");
    assert!(end.is_empty());
    assert!(!end.offset().is_at_start());
    assert_eq!(end.offset().byte(), 6);

    let skip = input.skip(3);
    assert_eq!(skip.len(), 3);
    assert_eq!(skip.content(), "def");
    assert_eq!(skip.offset().byte(), 3);

    let trunc = input.truncate(3);
    assert_eq!(trunc.len(), 3);
    assert_eq!(trunc.content(), "abc");
    assert_eq!(trunc.offset().byte(), 0);

    let (left, right) = input.split(3);
    assert_eq!(left.content(), "abc");
    assert_eq!(left.offset().byte(), 0);
    assert_eq!(right.content(), "def");
    assert_eq!(right.offset().byte(), 3);

    assert_eq!(input.char(), Some('a'));
    assert_eq!(input.end().char(), None);

    let skip_char = input.skip_char('a').unwrap();
    assert_eq!(skip_char.content(), "bcdef");
    assert_eq!(skip_char.offset().byte(), 1);
    assert!(input.skip_char('X').is_none());
    assert!(input.end().skip_char('X').is_none());

    let (taken, take_char) = input.take_char().unwrap();
    assert_eq!(taken, 'a');
    assert_eq!(take_char.content(), "bcdef");
    assert_eq!(take_char.offset().byte(), 1);
    assert!(input.end().take_char().is_none());
}

#[test]
fn multibyte_chars() {
    let (map, index) = test_map("héllo");
    let input = map.input(index);

    assert_eq!(input.len(), 6);
    assert_eq!(input.char(), Some('h'));

    let after_h = input.skip_char('h').unwrap();
    assert_eq!(after_h.char(), Some('é'));
    assert_eq!(after_h.offset().byte(), 1);

    let (taken, after_e) = after_h.take_char().unwrap();
    assert_eq!(taken, 'é');
    assert_eq!(after_e.offset().byte(), 3);
    assert_eq!(after_e.content(), "llo");
}

#[test]
fn split_is_truncate_and_skip() {
    let (map, index) = test_map("one two three");
    let input = map.input(index);

    for n in [0usize, 3, 7, 13] {
        let (left, right) = input.split(n);
        let trunc = input.truncate(n);
        let skip = input.skip(n);
        assert_eq!(left.content(), trunc.content());
        assert_eq!(left.offset(), trunc.offset());
        assert_eq!(right.content(), skip.content());
        assert_eq!(right.offset(), skip.offset());
    }

    let zero = input.skip(0);
    assert_eq!(zero.content(), input.content());
    assert_eq!(zero.offset(), input.offset());
}

#[test]
fn spans_are_order_independent() {
    let (map, index) = test_map("abcdef");
    let input = map.input(index);
    let a = input.skip(2).offset();
    let b = input.skip(5).offset();

    assert_eq!(a.span(b), b.span(a));
    assert_eq!(a.span(b).byte_len(), 3);
    assert_eq!(a.span(b).start(), a);
    assert_eq!(a.span(b).end(), b);
    assert_eq!(a.span(a).byte_len(), 0);

    let span: Span = a.span(b);
    assert_eq!(span.byte_range(), 2..5);
    assert_eq!(span.source_index(), index);
    assert!(!span.is_at_start());
    assert!(input.offset().span(a).is_at_start());

    assert_eq!(map.span_str(span), "cde");
}

#[test]
fn offsets_into_map() {
    let (map, index) = test_map("ab\ncd");
    let input = map.input(index);

    assert_eq!(map.byte_offset_on_line(input.skip(1).offset()), 1);
    assert_eq!(map.byte_offset_on_line(input.skip(3).offset()), 0);
    assert_eq!(map.byte_offset_on_line(input.skip(4).offset()), 1);

    let inserts = map.origins();
    assert_eq!(inserts.len(), 1);
    assert_eq!(inserts[0], Origin::from_named("test"));
}

#[test]
fn insert_reports_previous_index() {
    let (mut map, index) = test_map("abcdef");
    let again = map.insert(Origin::from_named("test"), "other".to_owned());
    assert_eq!(again, Insert::Previous(index));
    assert_eq!(map.content(index), "abcdef");
}
