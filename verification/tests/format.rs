//! The formatter keeps what the front end accepts and emits nothing else.

use glyph::diag::{Diagnostic, Severity};
use glyph::format::{format_source, FormatError};

#[test]
fn closure_golden_is_preserved_exactly_and_idempotently() {
    let source = r#"fn main() -> i32 {
  let zero: FnOnce<(), i32> = () -> 1
  let one: FnOnce<i32, i32> = value -> value + 1
  let many: FnOnce<(i32, i32), i32> = (left, right) -> {
    left + right
  }
  ret zero() + one(1) + many(1, 1)
}
"#;

    let once = format_source(source, &Vec::new()).expect("closure source should format");
    let twice = format_source(once, &Vec::new()).expect("formatted source should format again");
    assert_eq!(once, source);
    assert_eq!(twice, source);
}

#[test]
fn move_and_nested_closure_golden_is_preserved() {
    let source = r#"fn main() -> i32 {
  let base: i32 = 40
  let outer: FnOnce<i32, FnOnce<i32, i32>> =
    move (left: i32) -> (right: i32) -> base + left + right
  let inner = outer(1)
  ret inner(1)
}
"#;

    assert_eq!(format_source(source, &Vec::new()).unwrap(), source);
}

#[test]
fn malformed_closure_is_not_emitted() {
    let source = "fn main() -> i32 { let bad = x, y -> x + y ret 0 }";
    let found = Diagnostic {
        severity: Severity::Error,
        message: "expected an expression".to_string(),
        span: None,
    };
    let refused = format_source(source, &vec![found]);
    assert_eq!(refused, Err(FormatError::ParseErrors));
    assert_eq!(FormatError::ParseErrors.message(), "format failed: parse errors");
}
