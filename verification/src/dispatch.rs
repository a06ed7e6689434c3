//! The request dispatcher: one raw line in, one reply out.  Parsing,
//! reading, resolving, and publishing are verified; only the evaluation
//! itself is the external service's.

use vstd::prelude::*;

use crate::eval::evaluate;
use crate::parser::parse_command;
use crate::parser::spec_parse;
use crate::parser::Command;
use crate::parser::CommandV;
use crate::resolver::bind_refs;
use crate::resolver::find_cell_refs;
use crate::sheet::lemma_set_then_get;
use crate::sheet::spec_get;
use crate::sheet::Spreadsheet;
use crate::values::CellValue;
use crate::values::CellValueV;
use crate::values::Reply;
use crate::values::ReplyV;

verus! {

/// What one `set` request does to the store, whatever the evaluation
/// came to: a reply carrying a value means that exactly that value —
/// never an error value — was published under the requested name; an
/// error reply means the store is untouched.
pub open spec fn set_step(
    pre: Map<Seq<char>, CellValueV>,
    post: Map<Seq<char>, CellValueV>,
    id: Seq<char>,
    r: ReplyV,
) -> bool {
    match r {
        ReplyV::Value(n, v) => n == id && !(v matches CellValueV::Error(_)) && post == pre.insert(
            id,
            v,
        ),
        ReplyV::Error(_) => post == pre,
    }
}

/// Replies to `get`: the cell's current value, the empty value where the
/// cell was never set; a `get` never fails and never changes the store.
pub fn handle_get(sheet: &Spreadsheet, cell_name: &str) -> (r: Reply)
    ensures
        r@ == ReplyV::Value(cell_name@, spec_get(sheet@, cell_name@)),
{
    match sheet.get_cell_value(cell_name) {
        Option::Some(v) => Reply::Value(cell_name.to_owned(), v),
        Option::None => Reply::Value(cell_name.to_owned(), CellValue::Empty),
    }
}

/// Publishes the outcome of one evaluation.  A proper value is written
/// into the cell and echoed in the reply; an error value, or an
/// evaluation that failed outright, leaves the store untouched and is
/// reported with the fixed diagnostic marker.
pub fn apply_eval_outcome(sheet: &mut Spreadsheet, cell_name: &str, outcome: Option<CellValue>) -> (r:
    Reply)
    ensures
        match outcome {
            Option::Some(v) => match v@ {
                CellValueV::Error(m) => final(sheet)@ == old(sheet)@ && r@ == ReplyV::Error(
                    "Expression error: "@ + m,
                ),
                _ => final(sheet)@ == old(sheet)@.insert(cell_name@, v@) && r@ == ReplyV::Value(
                    cell_name@,
                    v@,
                ),
            },
            Option::None => final(sheet)@ == old(sheet)@ && r@ == ReplyV::Error(
                "Expression error: cell depends on an error"@,
            ),
        },
{
    match outcome {
        Option::Some(CellValue::Error(m)) => Reply::Error(
            String::from_str("Expression error: ").concat(m.as_str()),
        ),
        Option::Some(v) => {
            let echoed = v.clone();
            sheet.set_cell_value(cell_name.to_owned(), v);
            Reply::Value(cell_name.to_owned(), echoed)
        },
        Option::None => Reply::Error(
            String::from_str("Expression error: cell depends on an error"),
        ),
    }
}

/// Serves one `set` request: resolves the referenced cells against the
/// current store, has the expression evaluated with those bindings and
/// no lock held, and publishes the outcome.
pub fn handle_set(sheet: &mut Spreadsheet, cell_name: &str, expr: &str) -> (r: Reply)
    ensures
        set_step(old(sheet)@, final(sheet)@, cell_name@, r@),
{
    let refs = find_cell_refs(expr);
    let vars = bind_refs(sheet, &refs);
    let outcome = evaluate(expr, vars);
    apply_eval_outcome(sheet, cell_name, outcome)
}

/// Serves one raw command line to completion: parses it and routes it,
/// touching the store only as the parsed command demands.  A line that
/// does not parse is answered with its diagnostic and changes nothing.
pub fn process_message(sheet: &mut Spreadsheet, msg: &str) -> (r: Reply)
    ensures
        match spec_parse(msg@) {
            Result::Ok(CommandV::Get(id)) => final(sheet)@ == old(sheet)@ && r@ == ReplyV::Value(
                id,
                spec_get(old(sheet)@, id),
            ),
            Result::Ok(CommandV::Assign(id, _expr)) => set_step(
                old(sheet)@,
                final(sheet)@,
                id,
                r@,
            ),
            Result::Err(e) => final(sheet)@ == old(sheet)@ && r@ == ReplyV::Error(e),
        },
{
    match parse_command(msg) {
        Result::Ok(Command::Get(cell_name)) => handle_get(&*sheet, cell_name.as_str()),
        Result::Ok(Command::Assign(cell_name, expr)) => handle_set(
            sheet,
            cell_name.as_str(),
            expr.as_str(),
        ),
        Result::Err(e) => Reply::Error(e),
    }
}

/// A `set` that replied with a value was published: a read of the same
/// cell right after returns exactly the value the reply carried.
pub proof fn lemma_set_reply_then_get(
    pre: Map<Seq<char>, CellValueV>,
    post: Map<Seq<char>, CellValueV>,
    id: Seq<char>,
    n: Seq<char>,
    v: CellValueV,
)
    requires
        set_step(pre, post, id, ReplyV::Value(n, v)),
    ensures
        spec_get(post, id) == v,
{
    lemma_set_then_get(pre, id, v);
}

/// A `set` that replied with an error changed nothing: every cell reads
/// afterwards as it did before.
pub proof fn lemma_set_error_unchanged(
    pre: Map<Seq<char>, CellValueV>,
    post: Map<Seq<char>, CellValueV>,
    id: Seq<char>,
    e: Seq<char>,
)
    requires
        set_step(pre, post, id, ReplyV::Error(e)),
    ensures
        forall|k: Seq<char>| spec_get(post, k) == spec_get(pre, k),
{
}

} // verus!
