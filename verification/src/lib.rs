//! A verified core for a small spreadsheet server.
//!
//! Clients send textual commands (`get A1`, `set A1 B2+1`); the library
//! parses them, resolves the cell references an expression names, has the
//! expression evaluated, and publishes the result in an in-memory cell
//! store.  Everything but the external expression evaluator and the
//! transport is specified and verified here.

pub mod dispatch;
pub mod eval;
pub mod grammar;
pub mod parser;
pub mod resolver;
pub mod sheet;
pub mod values;

pub use dispatch::apply_eval_outcome;
pub use dispatch::handle_get;
pub use dispatch::handle_set;
pub use dispatch::process_message;
pub use eval::evaluate;
pub use grammar::validate_cell_name;
pub use parser::parse_command;
pub use parser::Command;
pub use resolver::bind_refs;
pub use resolver::find_cell_refs;
pub use sheet::Spreadsheet;
pub use values::CellValue;
pub use values::Reply;
