use src_ctx::{normalize, try_normalize, ContextError, ErrorMessage, Origin, SourceIndex, SourceMap};

#[derive(Debug, Clone, Copy, PartialEq, Eq, PartialOrd, Ord, Hash)]
pub struct Error(pub &'static str);

impl std::fmt::Display for Error {
    fn fmt(&self, f: &mut std::fmt::Formatter<'_>) -> std::fmt::Result {
        self.0.fmt(f)
    }
}

impl ErrorMessage for Error {
    fn message(&self) -> String {
        self.0.to_string()
    }

    fn causes(&self) -> Vec<String> {
        Vec::new()
    }
}

#[derive(Debug, Clone, Copy, PartialEq, Eq, PartialOrd, Ord, Hash)]
pub struct ErrorChain(pub &'static str, pub Error);

impl ErrorMessage for ErrorChain {
    fn message(&self) -> String {
        self.0.to_string()
    }

    fn causes(&self) -> Vec<String> {
        vec![self.1.0.to_string()]
    }
}

fn test_map(content: &str) -> (SourceMap, SourceIndex) {
    let mut map = SourceMap::new();
    let index = map
        .insert(Origin::from_named("test"), content.to_owned())
        .try_into_inserted()
        .unwrap();
    (map, index)
}

fn test_map_file(content: &str) -> (SourceMap, SourceIndex) {
    let mut map = SourceMap::new();
    let index = map
        .insert(Origin::from_file("test"), content.to_owned())
        .try_into_inserted()
        .unwrap();
    (map, index)
}

#[test]
fn source_errors() {
    let (map, index) = test_map("abcdef");
    let input = map.input(index);
    let skipped = input.skip(3);

    let error = skipped.error(Error("test-error"), "test-note");
    assert_eq!(error.error(), &Error("test-error"));
    assert_eq!(error.note(), "test-note");
    assert_eq!(error.offset(), skipped.offset());
    assert!(error.context_offset().is_none());

    let error = error.with_context(input.offset());
    assert_eq!(error.context_offset(), Some(input.offset()));

    let error = error.map(|error| format!("~{error}~"));
    assert_eq!(error.error(), &String::from("~test-error~"));
}

#[test]
fn context_error_origins() {
    let (map, index) = test_map("abcdef");
    let input = map.input(index);
    let skipped = input.skip(3);

    let error_a = skipped
        .error(Error("test-error"), "test-note")
        .with_context(input.offset())
        .into_context_error(&map);
    assert_eq!(error_a.error(), &Error("test-error"));

    let error_b = ContextError::with_origins(
        Error("test-error"),
        vec![map.context_error_origin(skipped.offset(), "test-note", Some(input.offset()))],
    );
    assert_eq!(error_a, error_b);
}

#[test]
fn context_error_display_named() {
    let (map, index) = test_map("abc\ndef\nghi");
    let input = map.input(index);

    let error = input
        .skip(6)
        .error(Error("test-error"), "test-note")
        .into_context_error(&map);
    assert_eq!(&error.display(), "test-error in `test`, line 2, column 3");
    assert_eq!(
        error.display_with_context(),
        normalize(
            "
        |error: test-error
        |--> `test`, line 2, column 3
        | 2 | def
        |   |   ^ test-note
    "
        )
    );

    let error = input
        .skip(6)
        .error(ErrorChain("test-chain", Error("test-error")), "test-note")
        .into_context_error(&map);
    assert_eq!(&error.display(), "test-chain in `test`, line 2, column 3");
    assert_eq!(
        error.display_with_context(),
        normalize(
            "
        |error: test-chain
        |cause: test-error
        |--> `test`, line 2, column 3
        | 2 | def
        |   |   ^ test-note
    "
        )
    );

    let error = input
        .skip(10)
        .error(Error("test-error"), "test-note")
        .with_context(input.offset())
        .into_context_error(&map);
    assert_eq!(
        error.display_with_context(),
        normalize(
            "
        |error: test-error
        |--> `test`, line 3, column 3
        | 1 | abc
        |   | ...
        | 3 | ghi
        |   |   ^ test-note
    "
        )
    );

    let error = input
        .skip(10)
        .error(Error("test-error"), "test-note")
        .with_context(input.skip(6).offset())
        .into_context_error(&map);
    assert_eq!(
        error.display_with_context(),
        normalize(
            "
        |error: test-error
        |--> `test`, line 3, column 3
        | 2 | def
        | 3 | ghi
        |   |   ^ test-note
    "
        )
    );
}

#[test]
fn context_error_display_file() {
    let (map, index) = test_map_file("abc\ndef\nghi");
    let input = map.input(index);

    let error = input
        .skip(6)
        .error(Error("test-error"), "test-note")
        .into_context_error(&map);
    assert_eq!(&error.display(), "test-error at test:2:3");
    assert_eq!(
        error.display_with_context(),
        normalize(
            "
        |error: test-error
        |--> test:2:3
        | 2 | def
        |   |   ^ test-note
    "
        )
    );

    let error = input
        .skip(10)
        .error(Error("test-error"), "test-note")
        .with_context(input.offset())
        .into_context_error(&map);
    assert_eq!(
        error.display_with_context(),
        normalize(
            "
        |error: test-error
        |--> test:3:3
        | 1 | abc
        |   | ...
        | 3 | ghi
        |   |   ^ test-note
    "
        )
    );

    let error = input
        .skip(10)
        .error(Error("test-error"), "test-note")
        .with_context(input.skip(6).offset())
        .into_context_error(&map);
    assert_eq!(
        error.display_with_context(),
        normalize(
            "
        |error: test-error
        |--> test:3:3
        | 2 | def
        | 3 | ghi
        |   |   ^ test-note
    "
        )
    );
}

#[test]
fn later_context_line_is_not_shown() {
    let (map, index) = test_map("abc\ndef\nghi");
    let input = map.input(index);

    let error = input
        .error(Error("test-error"), "test-note")
        .with_context(input.skip(8).offset())
        .into_context_error(&map);
    assert_eq!(
        error.display_with_context(),
        normalize(
            "
        |error: test-error
        |--> `test`, line 1, column 1
        | 1 | abc
        |   | ^ test-note
    "
        )
    );
}

#[test]
fn source_error_display_line() {
    let (map, index) = test_map("abcdef");
    let input = map.input(index);

    let error = input.skip(3).error(Error("test-error"), "test-note");
    assert_eq!(&error.display(), "test-error at byte offset 3");
}

#[test]
fn map_composes() {
    let (map, index) = test_map("abcdef");
    let input = map.input(index);
    let source = input
        .skip(3)
        .error(Error("test-error"), "test-note")
        .with_context(input.offset());

    let two_steps = source.clone().map(|e| format!("~{e}~")).map(|e| format!("[{e}]"));
    let one_step = source.clone().map(|e| format!("[~{e}~]"));
    assert_eq!(two_steps.error(), one_step.error());
    assert_eq!(two_steps.offset(), one_step.offset());
    assert_eq!(two_steps.note(), one_step.note());
    assert_eq!(two_steps.context_offset(), one_step.context_offset());

    let resolved = source.into_context_error(&map);
    let ctx_two = resolved.clone().map(|e| format!("~{e}~")).map(|e| format!("[{e}]"));
    let ctx_one = resolved.map(|e| format!("[~{e}~]"));
    assert_eq!(ctx_two, ctx_one);
}

#[test]
fn suffix_conjunction_forms() {
    let (map, index) = test_map("abc\ndef\nghi");
    let input = map.input(index);
    let a = map.context_error_origin(input.offset(), "first", None);
    let b = map.context_error_origin(input.skip(4).offset(), "second", None);
    let c = map.context_error_origin(input.skip(8).offset(), "third", None);

    let none = ContextError::with_origins(Error("oops"), vec![]);
    assert_eq!(&none.display(), "oops");

    let one = ContextError::with_origins(Error("oops"), vec![a.clone()]);
    assert_eq!(&one.display(), "oops in `test`, line 1, column 1");

    let two = ContextError::with_origins(Error("oops"), vec![a.clone(), b.clone()]);
    assert_eq!(
        &two.display(),
        "oops in `test`, line 1, column 1 and in `test`, line 2, column 1"
    );

    let three = ContextError::with_origins(Error("oops"), vec![a, b, c]);
    assert_eq!(
        &three.display(),
        "oops in `test`, line 1, column 1, in `test`, line 2, column 1 and in `test`, line 3, column 1"
    );
}

#[test]
fn display_with_outer_context_skips_causes() {
    let (map, index) = test_map("abc\ndef\nghi");
    let input = map.input(index);

    let error = input
        .skip(6)
        .error(ErrorChain("test-chain", Error("test-error")), "test-note")
        .into_context_error(&map);
    assert_eq!(
        error.display_with_outer_context(),
        normalize(
            "
        |error: test-chain
        |--> `test`, line 2, column 3
        | 2 | def
        |   |   ^ test-note
    "
        )
    );
}

#[test]
fn caret_preserves_tabs() {
    let (map, index) = test_map("\tabc");
    let input = map.input(index);

    let error = input
        .skip(2)
        .error(Error("test-error"), "test-note")
        .into_context_error(&map);
    assert_eq!(
        error.display_with_context(),
        "error: test-error\n--> `test`, line 1, column 3\n 1 | \tabc\n   |\t  ^ test-note\n"
    );
}

#[test]
fn try_normalize_checks_markers() {
    assert_eq!(try_normalize("|abc\n  |def"), Some("abc\ndef\n".to_string()));
    assert_eq!(try_normalize("   \n"), Some(String::new()));
    assert_eq!(try_normalize("no marker here"), None);
    assert_eq!(try_normalize("|ok\nbroken line"), None);
}

#[test]
fn normalize_strips_markers() {
    assert_eq!(
        &normalize(
            "
        |abc
        |  def
    "
        ),
        "abc\n  def\n"
    );
    assert_eq!(&normalize(""), "");
    assert_eq!(&normalize("   \n\t\n"), "");
    assert_eq!(&normalize("x|after"), "after\n");
}
