//! The expression resolver: finds the cell identifiers an expression
//! references and looks their current values up in the store.  A
//! referenced cell that was never set is left out of the bindings; the
//! evaluator treats the missing binding itself as an error.

use vstd::prelude::*;

use crate::grammar::is_cell_name;
use crate::grammar::is_word;
use crate::grammar::lemma_word_end;
use crate::grammar::validate_cell_name;
use crate::grammar::word_char;
use crate::grammar::word_end;
use crate::grammar::word_end_exec;
use crate::sheet::Spreadsheet;
use crate::values::CellValue;
use crate::values::CellValueV;

verus! {

/// Does a token — a maximal run of word characters — start at `i`?
pub open spec fn is_token_start(s: Seq<char>, i: int) -> bool {
    0 <= i < s.len() && is_word(s[i]) && (i == 0 || !is_word(s[i - 1]))
}

/// The cell identifiers referenced at or after position `i` of `s`, in
/// order of appearance: every token that matches the cell-identifier
/// grammar.
pub open spec fn cell_refs_from(s: Seq<char>, i: int) -> Seq<Seq<char>>
    decreases s.len() - i,
{
    if !(0 <= i < s.len()) {
        Seq::empty()
    } else if is_token_start(s, i) && is_cell_name(s.subrange(i, word_end(s, i))) {
        seq![s.subrange(i, word_end(s, i))] + cell_refs_from(s, i + 1)
    } else {
        cell_refs_from(s, i + 1)
    }
}

/// The cell identifiers an expression references, in order of appearance.
pub open spec fn cell_refs(s: Seq<char>) -> Seq<Seq<char>> {
    cell_refs_from(s, 0)
}

/// Positions where no token starts contribute no reference.
proof fn lemma_refs_skip(s: Seq<char>, a: int, b: int)
    requires
        0 <= a <= b <= s.len(),
        forall|j: int| a <= j < b ==> !is_token_start(s, j),
    ensures
        cell_refs_from(s, a) == cell_refs_from(s, b),
    decreases b - a,
{
    if a < b {
        lemma_refs_skip(s, a + 1, b);
    }
}

/// Scans `expr` for referenced cell identifiers, exactly the tokens that
/// [`cell_refs`] lists.
pub fn find_cell_refs(expr: &str) -> (refs: Vec<String>)
    ensures
        refs@.map_values(|r: String| r@) == cell_refs(expr@),
{
    let n = expr.unicode_len();
    let mut refs: Vec<String> = Vec::new();
    let mut prev_word = false;
    let mut i: usize = 0;
    while i < n
        invariant
            i <= n,
            n == expr@.len(),
            prev_word == (i > 0 && is_word(expr@[i as int - 1])),
            refs@.map_values(|r: String| r@) + cell_refs_from(expr@, i as int) == cell_refs(
                expr@,
            ),
        decreases n - i,
    {
        let c = expr.get_char(i);
        if word_char(c) && !prev_word {
            proof {
                lemma_word_end(expr@, i as int);
            }
            let e = word_end_exec(expr, i);
            let tok = expr.substring_char(i, e);
            let ghost refs0 = refs@;
            if validate_cell_name(tok) {
                refs.push(String::from_str(tok));
                proof {
                    assert(refs@.map_values(|r: String| r@) =~= refs0.map_values(|r: String| r@)
                        + seq![tok@]);
                }
            }
            proof {
                assert(forall|j: int| i + 1 <= j < e ==> !is_token_start(expr@, j));
                lemma_refs_skip(expr@, i as int + 1, e as int);
                assert(refs@.map_values(|r: String| r@) + cell_refs_from(expr@, e as int)
                    =~= cell_refs(expr@));
            }
            i = e;
            prev_word = true;
        } else {
            proof {
                assert(!is_token_start(expr@, i as int));
            }
            prev_word = word_char(c);
            i = i + 1;
        }
    }
    refs
}

/// The bindings handed to the evaluator: each referenced cell that is
/// present in store `m`, paired with its current value, in order; cells
/// never set are left out.
pub open spec fn bind_refs_spec(
    m: Map<Seq<char>, CellValueV>,
    refs: Seq<Seq<char>>,
) -> Seq<(Seq<char>, CellValueV)>
    decreases refs.len(),
{
    if refs.len() == 0 {
        Seq::empty()
    } else {
        bind_refs_spec(m, refs.drop_last()) + (if m.contains_key(refs.last()) {
            seq![(refs.last(), m[refs.last()])]
        } else {
            Seq::empty()
        })
    }
}

/// The model of a list of (name, value) bindings.
pub open spec fn pairs_view(s: Seq<(String, CellValue)>) -> Seq<(Seq<char>, CellValueV)> {
    s.map_values(|p: (String, CellValue)| (p.0@, p.1@))
}

/// Reads the current value of every referenced cell out of the store,
/// exactly as [`bind_refs_spec`] lists them.
pub fn bind_refs(sheet: &Spreadsheet, refs: &Vec<String>) -> (vars: Vec<(String, CellValue)>)
    ensures
        pairs_view(vars@) == bind_refs_spec(sheet@, refs@.map_values(|r: String| r@)),
{
    let ghost rv = refs@.map_values(|r: String| r@);
    let mut vars: Vec<(String, CellValue)> = Vec::new();
    let mut i: usize = 0;
    while i < refs.len()
        invariant
            i <= refs@.len(),
            rv == refs@.map_values(|r: String| r@),
            pairs_view(vars@) == bind_refs_spec(sheet@, rv.subrange(0, i as int)),
        decreases refs@.len() - i,
    {
        let ghost vars0 = vars@;
        let name = &refs[i];
        match sheet.get_cell_value(name.as_str()) {
            Option::Some(v) => {
                vars.push((name.clone(), v));
                proof {
                    assert(pairs_view(vars@) =~= pairs_view(vars0) + seq![(name@, v@)]);
                }
            },
            Option::None => {},
        }
        proof {
            assert(rv.subrange(0, i as int + 1).drop_last() =~= rv.subrange(0, i as int));
            assert(rv.subrange(0, i as int + 1).last() == name@);
        }
        i = i + 1;
    }
    proof {
        assert(rv.subrange(0, rv.len() as int) =~= rv);
    }
    vars
}

} // verus!
