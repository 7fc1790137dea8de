use toolkit::errorsx::{Cause, ErrorX};

fn file_not_found() -> Cause {
    Cause::from_text("File not found")
}

#[test]
fn test_errorx_new() {
    let err = ErrorX::new("Test Error", "src/errorsx/mod.rs", 258);
    assert_eq!(err.message(), "Test Error");
    assert!(err.context().is_empty());
    assert!(err.source().is_none());
    assert!(err.status_code().is_none());
    assert!(err.status().is_none());
}

#[test]
fn test_errorx_builder() {
    let io_error = file_not_found();
    let err = ErrorX::builder("Failed to process file", "src/errorsx/mod.rs", 269)
        .with_context("Processing user upload")
        .with_source(io_error)
        .with_status_code(500)
        .with_status("Internal Server Error")
        .build();
    let location = err.location();
    let backtrace = err.backtrace();

    assert_eq!(err.message(), "Failed to process file");
    assert_eq!(err.context(), &vec!["Processing user upload".to_string()]);
    assert!(err.source().is_some());
    assert_eq!(location.file(), "src/errorsx/mod.rs");
    assert!(backtrace.contains("Backtrace"));
    assert_eq!(err.status_code(), &Some(500));
    assert_eq!(err.status(), &Some("Internal Server Error".to_string()));
}

#[test]
fn test_errorsx_display() {
    let io_error = file_not_found();
    let err = ErrorX::builder("Failed to process file", "src/errorsx/mod.rs", 290)
        .with_context("Processing user upload")
        .with_source(io_error)
        .with_status_code(500)
        .with_status("Internal Server Error")
        .build();
    let err_string = err.render();
    assert!(err_string.contains("Failed to process file"));
    assert!(err_string.contains("errorsx/mod.rs"));
    assert!(err_string.contains("Context:"));
    assert!(err_string.contains("Source"));
}

#[test]
fn test_errorx_source() {
    let io_error = Cause::from_text("IO Error");
    let err = ErrorX::builder("Higher Level Error", "src/errorsx/mod.rs", 305)
        .with_source(io_error)
        .build();

    assert!(err.source().is_some());
    assert_eq!(err.source().unwrap().render(), "IO Error");
}

#[test]
fn contexts_come_out_in_call_order() {
    let err = ErrorX::builder("m", "a.rs", 1)
        .with_context("first")
        .with_context("second")
        .with_context("third")
        .build();
    assert_eq!(
        err.context(),
        &vec!["first".to_string(), "second".to_string(), "third".to_string()]
    );
}

#[test]
fn location_is_taken_from_builder_not_build() {
    let b = ErrorX::builder("m", "origin.rs", 10).with_context("later");
    let err = b.with_status_code(1).build();
    assert_eq!(err.location().file(), "origin.rs");
    assert_eq!(err.location().line(), 10);
}

#[test]
fn later_settings_replace_earlier_ones() {
    let err = ErrorX::builder("m", "a.rs", 1)
        .with_status_code(404)
        .with_status_code(500)
        .with_status("Not Found")
        .with_status("Internal Server Error")
        .with_source(Cause::from_text("first cause"))
        .with_source(Cause::from_text("second cause"))
        .build();
    assert_eq!(err.status_code(), &Some(500));
    assert_eq!(err.status(), &Some("Internal Server Error".to_string()));
    assert_eq!(err.source().unwrap().render(), "second cause");
}

#[test]
fn render_has_exact_layout() {
    let err = ErrorX::builder("boom", "lib/x.rs", 42)
        .with_context("a")
        .with_context("b c")
        .build();
    let text = err.render();
    let expected_head = "Message:boom,\nLocation: (at: lib/x.rs, line_no:42),\nContext: a,b c,\nSource:\n ";
    assert!(text.starts_with(expected_head));
    assert_eq!(&text[expected_head.len()..], err.backtrace());
}

#[test]
fn render_with_empty_context_keeps_labels() {
    let err = ErrorX::new("plain", "f.rs", 0);
    let text = err.render();
    assert!(text.starts_with("Message:plain,\nLocation: (at: f.rs, line_no:0),\nContext: ,\nSource:\n "));
    assert!(text.contains("Context:"));
    assert!(text.contains("Source"));
}

#[test]
fn render_writes_large_line_numbers() {
    let err = ErrorX::new("m", "f.rs", 4294967295);
    assert!(err.render().contains("line_no:4294967295),"));
    let err = ErrorX::new("m", "f.rs", 1000);
    assert!(err.render().contains("line_no:1000),"));
}

#[test]
fn record_as_cause_renders_as_record() {
    let inner = ErrorX::builder("inner", "in.rs", 3)
        .with_source(Cause::from_text("root"))
        .build();
    let inner_text = inner.render();
    let outer = ErrorX::builder("outer", "out.rs", 7)
        .with_source(Cause::Record(Box::new(inner)))
        .build();
    let cause = outer.source().unwrap();
    assert_eq!(cause.render(), inner_text);
    assert_eq!(cause.source().unwrap().render(), "root");
    assert!(cause.source().unwrap().source().is_none());
    assert_eq!(outer.location().file(), "out.rs");
}

#[test]
fn foreign_cause_chain_is_walkable() {
    let c = Cause::Foreign {
        text: "top".to_string(),
        source: Some(Box::new(Cause::from_text("bottom"))),
    };
    assert_eq!(c.render(), "top");
    assert_eq!(c.source().unwrap().render(), "bottom");
}

#[test]
fn cause_survives_later_annotations() {
    let err = ErrorX::builder("m", "a.rs", 5)
        .with_context("before")
        .with_source(Cause::from_text("kept"))
        .with_context("after")
        .with_status_code(418)
        .with_status("teapot")
        .build();
    assert_eq!(err.source().unwrap().render(), "kept");
    assert_eq!(err.context(), &vec!["before".to_string(), "after".to_string()]);
    assert_eq!(err.location().line(), 5);
}
