//! The command grammar: what parses, what is rejected, and how
//! expressions are scanned for cell references.

use rsheet::parse_command;
use rsheet::validate_cell_name;
use rsheet::find_cell_refs;
use rsheet::Command;

#[test]
fn valid_get_parses() {
    assert_eq!(parse_command("get A1"), Ok(Command::Get("A1".to_string())));
}

#[test]
fn get_allows_surrounding_whitespace() {
    assert_eq!(parse_command("  get BC12\t "), Ok(Command::Get("BC12".to_string())));
}

#[test]
fn set_keeps_expression_verbatim() {
    assert_eq!(
        parse_command("set A1 B2 + 3 "),
        Ok(Command::Assign("A1".to_string(), "B2 + 3 ".to_string()))
    );
}

#[test]
fn set_with_empty_expression_parses() {
    assert_eq!(parse_command("set A1"), Ok(Command::Assign("A1".to_string(), "".to_string())));
}

#[test]
fn set_token_ends_at_symbol() {
    assert_eq!(
        parse_command("set A1+1 5"),
        Ok(Command::Assign("A1".to_string(), "+1 5".to_string()))
    );
}

#[test]
fn get_with_trailing_junk_rejected() {
    assert_eq!(parse_command("get A1 junk"), Err("invalid command format".to_string()));
}

#[test]
fn unknown_keyword_rejected() {
    assert_eq!(parse_command("bogus"), Err("invalid command format".to_string()));
}

#[test]
fn keyword_is_case_sensitive() {
    assert_eq!(parse_command("GET A1"), Err("invalid command format".to_string()));
}

#[test]
fn empty_line_rejected() {
    assert_eq!(parse_command(""), Err("invalid command format".to_string()));
}

#[test]
fn keyword_needs_whitespace_after_it() {
    assert_eq!(parse_command("getA1"), Err("invalid command format".to_string()));
}

#[test]
fn keyword_alone_rejected() {
    assert_eq!(parse_command("get"), Err("invalid command format".to_string()));
    assert_eq!(parse_command("set"), Err("invalid command format".to_string()));
}

#[test]
fn lowercase_name_rejected() {
    assert_eq!(parse_command("get a1"), Err("invalid cell name".to_string()));
}

#[test]
fn leading_zero_name_rejected() {
    assert_eq!(parse_command("get A01"), Err("invalid cell name".to_string()));
}

#[test]
fn letter_after_digit_name_rejected() {
    assert_eq!(parse_command("get A1B"), Err("invalid cell name".to_string()));
    assert_eq!(parse_command("set A1B 5"), Err("invalid cell name".to_string()));
}

#[test]
fn cell_name_grammar_accepts() {
    assert!(validate_cell_name("A1"));
    assert!(validate_cell_name("BC12"));
    assert!(validate_cell_name("Z9"));
    assert!(validate_cell_name("AB10"));
}

#[test]
fn cell_name_grammar_rejects() {
    assert!(!validate_cell_name("a1"));
    assert!(!validate_cell_name("A01"));
    assert!(!validate_cell_name("A1B"));
    assert!(!validate_cell_name("A"));
    assert!(!validate_cell_name("1A"));
    assert!(!validate_cell_name(""));
    assert!(!validate_cell_name("A0"));
    assert!(!validate_cell_name("_A1"));
    assert!(!validate_cell_name("A1 "));
}

#[test]
fn refs_found_in_expression() {
    assert_eq!(find_cell_refs("A1+B2*2"), vec!["A1".to_string(), "B2".to_string()]);
}

#[test]
fn refs_skip_invalid_tokens() {
    assert_eq!(find_cell_refs("sum(A1)+A01+A1B"), vec!["A1".to_string()]);
}

#[test]
fn refs_skip_underscored_tokens() {
    assert_eq!(find_cell_refs("A1_B2"), Vec::<String>::new());
}

#[test]
fn refs_list_repeated_references() {
    assert_eq!(find_cell_refs("A1+A1"), vec!["A1".to_string(), "A1".to_string()]);
}
