//! The server loop's behaviour, one command line at a time, with the
//! real evaluator linked in.

use rsheet::apply_eval_outcome;
use rsheet::bind_refs;
use rsheet::evaluate;
use rsheet::handle_get;
use rsheet::handle_set;
use rsheet::process_message;
use rsheet::CellValue;
use rsheet::Reply;
use rsheet::Spreadsheet;

#[test]
fn get_unset_returns_no_value() {
    let mut sheet = Spreadsheet::new();
    assert_eq!(
        process_message(&mut sheet, "get C1"),
        Reply::Value("C1".to_string(), CellValue::Empty)
    );
}

#[test]
fn scenario_set_then_get() {
    let mut sheet = Spreadsheet::new();
    assert_eq!(
        process_message(&mut sheet, "set A1 5"),
        Reply::Value("A1".to_string(), CellValue::Int(5))
    );
    assert_eq!(
        process_message(&mut sheet, "set B1 A1+1"),
        Reply::Value("B1".to_string(), CellValue::Int(6))
    );
    assert_eq!(
        process_message(&mut sheet, "get B1"),
        Reply::Value("B1".to_string(), CellValue::Int(6))
    );
    assert_eq!(
        process_message(&mut sheet, "get C1"),
        Reply::Value("C1".to_string(), CellValue::Empty)
    );
    assert_eq!(
        process_message(&mut sheet, "bogus"),
        Reply::Error("invalid command format".to_string())
    );
}

#[test]
fn set_reply_matches_subsequent_get() {
    let mut sheet = Spreadsheet::new();
    let reply = process_message(&mut sheet, "set A1 2+3");
    assert_eq!(reply, Reply::Value("A1".to_string(), CellValue::Int(5)));
    assert_eq!(process_message(&mut sheet, "get A1"), Reply::Value("A1".to_string(), CellValue::Int(5)));
}

#[test]
fn set_with_unset_reference_fails_and_leaves_store() {
    let mut sheet = Spreadsheet::new();
    process_message(&mut sheet, "set A1 7");
    let reply = process_message(&mut sheet, "set B1 C1+1");
    match reply {
        Reply::Error(msg) => assert!(msg.starts_with("Expression error: ")),
        Reply::Value(_, _) => panic!("a set referencing an unset cell must fail"),
    }
    assert_eq!(
        process_message(&mut sheet, "get B1"),
        Reply::Value("B1".to_string(), CellValue::Empty)
    );
    assert_eq!(
        process_message(&mut sheet, "get A1"),
        Reply::Value("A1".to_string(), CellValue::Int(7))
    );
}

#[test]
fn set_idempotent() {
    let mut sheet = Spreadsheet::new();
    assert_eq!(
        process_message(&mut sheet, "set A1 5"),
        Reply::Value("A1".to_string(), CellValue::Int(5))
    );
    assert_eq!(
        process_message(&mut sheet, "set A1 5"),
        Reply::Value("A1".to_string(), CellValue::Int(5))
    );
    assert_eq!(
        process_message(&mut sheet, "get A1"),
        Reply::Value("A1".to_string(), CellValue::Int(5))
    );
}

#[test]
fn set_overwrites() {
    let mut sheet = Spreadsheet::new();
    process_message(&mut sheet, "set A1 5");
    process_message(&mut sheet, "set A1 6");
    assert_eq!(
        process_message(&mut sheet, "get A1"),
        Reply::Value("A1".to_string(), CellValue::Int(6))
    );
}

#[test]
fn set_stores_text() {
    let mut sheet = Spreadsheet::new();
    assert_eq!(
        process_message(&mut sheet, "set A1 \"hi\""),
        Reply::Value("A1".to_string(), CellValue::Text("hi".to_string()))
    );
    assert_eq!(
        process_message(&mut sheet, "get A1"),
        Reply::Value("A1".to_string(), CellValue::Text("hi".to_string()))
    );
}

#[test]
fn syntax_error_in_expression_reported() {
    let mut sheet = Spreadsheet::new();
    let reply = process_message(&mut sheet, "set A1 %%%");
    match reply {
        Reply::Error(msg) => assert!(msg.starts_with("Expression error: ")),
        Reply::Value(_, _) => panic!("a set with a malformed expression must fail"),
    }
    assert_eq!(
        process_message(&mut sheet, "get A1"),
        Reply::Value("A1".to_string(), CellValue::Empty)
    );
}

#[test]
fn store_get_and_set_directly() {
    let mut sheet = Spreadsheet::new();
    assert_eq!(sheet.get_cell_value("A1"), None);
    sheet.set_cell_value("A1".to_string(), CellValue::Int(3));
    assert_eq!(sheet.get_cell_value("A1"), Some(CellValue::Int(3)));
    sheet.set_cell_value("A1".to_string(), CellValue::Int(4));
    assert_eq!(sheet.get_cell_value("A1"), Some(CellValue::Int(4)));
    assert_eq!(sheet.get_cell_value("B1"), None);
}

#[test]
fn handlers_work_directly() {
    let mut sheet = Spreadsheet::new();
    assert_eq!(
        handle_set(&mut sheet, "A1", "1+1"),
        Reply::Value("A1".to_string(), CellValue::Int(2))
    );
    assert_eq!(handle_get(&sheet, "A1"), Reply::Value("A1".to_string(), CellValue::Int(2)));
}

#[test]
fn resolver_binds_only_present_cells() {
    let mut sheet = Spreadsheet::new();
    sheet.set_cell_value("A1".to_string(), CellValue::Int(5));
    let refs = vec!["A1".to_string(), "B9".to_string()];
    let vars = bind_refs(&sheet, &refs);
    assert_eq!(vars, vec![("A1".to_string(), CellValue::Int(5))]);
}

#[test]
fn evaluator_uses_bindings() {
    assert_eq!(evaluate("1+2", Vec::new()), Some(CellValue::Int(3)));
    assert_eq!(
        evaluate("A1*2", vec![("A1".to_string(), CellValue::Int(4))]),
        Some(CellValue::Int(8))
    );
}

#[test]
fn evaluator_fails_on_error_binding() {
    assert_eq!(
        evaluate("A1+1", vec![("A1".to_string(), CellValue::Error("bad".to_string()))]),
        None
    );
}

#[test]
fn error_value_outcome_is_not_published() {
    let mut sheet = Spreadsheet::new();
    let reply = apply_eval_outcome(
        &mut sheet,
        "A1",
        Some(CellValue::Error("boom".to_string())),
    );
    assert_eq!(reply, Reply::Error("Expression error: boom".to_string()));
    assert_eq!(sheet.get_cell_value("A1"), None);
}

#[test]
fn failed_outcome_is_reported() {
    let mut sheet = Spreadsheet::new();
    let reply = apply_eval_outcome(&mut sheet, "A1", None);
    assert_eq!(reply, Reply::Error("Expression error: cell depends on an error".to_string()));
    assert_eq!(sheet.get_cell_value("A1"), None);
}

#[test]
fn value_outcome_is_published() {
    let mut sheet = Spreadsheet::new();
    let reply = apply_eval_outcome(&mut sheet, "A1", Some(CellValue::Int(9)));
    assert_eq!(reply, Reply::Value("A1".to_string(), CellValue::Int(9)));
    assert_eq!(sheet.get_cell_value("A1"), Some(CellValue::Int(9)));
}
