//! The cell store: a mapping from cell identifier to cell value, modelled
//! as a `Map<Seq<char>, CellValueV>`.  A key is present exactly when the
//! cell has been set at least once; reading an unset cell yields the
//! empty value rather than an error.

use vstd::prelude::*;

use crate::values::CellValue;
use crate::values::CellValueV;

verus! {

/// What a read of cell `k` in store `m` returns: the stored value, or
/// empty if the cell was never set.
pub open spec fn spec_get(m: Map<Seq<char>, CellValueV>, k: Seq<char>) -> CellValueV {
    if m.contains_key(k) {
        m[k]
    } else {
        CellValueV::Empty
    }
}

/// A cell never set reads as empty.
pub proof fn lemma_get_never_set(m: Map<Seq<char>, CellValueV>, id: Seq<char>)
    requires
        !m.contains_key(id),
    ensures
        spec_get(m, id) == CellValueV::Empty,
{
}

/// After a write, a read of the same cell returns exactly the written
/// value.
pub proof fn lemma_set_then_get(m: Map<Seq<char>, CellValueV>, id: Seq<char>, v: CellValueV)
    ensures
        spec_get(m.insert(id, v), id) == v,
{
}

/// Writing the same value to the same cell twice leaves the same store
/// as writing it once.
pub proof fn lemma_set_idempotent(m: Map<Seq<char>, CellValueV>, id: Seq<char>, v: CellValueV)
    ensures
        m.insert(id, v).insert(id, v) == m.insert(id, v),
{
    assert(m.insert(id, v).insert(id, v) =~= m.insert(id, v));
}

/// No two entries share a key.
spec fn keys_unique(s: Seq<(String, CellValue)>) -> bool {
    forall|i: int, j: int|
        0 <= i < j < s.len() ==> (#[trigger] s[i]).0@ != (#[trigger] s[j]).0@
}

/// The mapping that a sequence of (name, value) entries stands for;
/// later entries win, though with unique keys none ever overwrites.
spec fn as_map(s: Seq<(String, CellValue)>) -> Map<Seq<char>, CellValueV>
    decreases s.len(),
{
    if s.len() == 0 {
        Map::empty()
    } else {
        as_map(s.drop_last()).insert(s.last().0@, s.last().1@)
    }
}

proof fn lemma_as_map_absent(s: Seq<(String, CellValue)>, k: Seq<char>)
    requires
        forall|i: int| 0 <= i < s.len() ==> (#[trigger] s[i]).0@ != k,
    ensures
        !as_map(s).contains_key(k),
    decreases s.len(),
{
    if s.len() > 0 {
        lemma_as_map_absent(s.drop_last(), k);
    }
}

proof fn lemma_as_map_found(s: Seq<(String, CellValue)>, i: int)
    requires
        keys_unique(s),
        0 <= i < s.len(),
    ensures
        as_map(s).contains_key(s[i].0@),
        as_map(s)[s[i].0@] == s[i].1@,
    decreases s.len(),
{
    if i < s.len() - 1 {
        lemma_as_map_found(s.drop_last(), i);
        assert(s.last().0@ != s[i].0@);
    }
}

proof fn lemma_as_map_push(s: Seq<(String, CellValue)>, p: (String, CellValue))
    ensures
        as_map(s.push(p)) == as_map(s).insert(p.0@, p.1@),
{
    assert(s.push(p).drop_last() =~= s);
}

proof fn lemma_as_map_update(s: Seq<(String, CellValue)>, i: int, p: (String, CellValue))
    requires
        keys_unique(s),
        0 <= i < s.len(),
        p.0@ == s[i].0@,
    ensures
        as_map(s.update(i, p)) == as_map(s).insert(p.0@, p.1@),
    decreases s.len(),
{
    if i == s.len() - 1 {
        assert(s.update(i, p).drop_last() =~= s.drop_last());
        assert(as_map(s.update(i, p)) =~= as_map(s).insert(p.0@, p.1@));
    } else {
        lemma_as_map_update(s.drop_last(), i, p);
        assert(s.update(i, p).drop_last() =~= s.drop_last().update(i, p));
        assert(s.last().0@ != p.0@);
        assert(as_map(s.update(i, p)) =~= as_map(s).insert(p.0@, p.1@));
    }
}

/// The spreadsheet: every cell that was ever set, with its current
/// value.  Its model is the mapping from cell name to value.
pub struct Spreadsheet {
    cells: Vec<(String, CellValue)>,
}

impl View for Spreadsheet {
    type V = Map<Seq<char>, CellValueV>;

    closed spec fn view(&self) -> Map<Seq<char>, CellValueV> {
        as_map(self.cells@)
    }
}

impl Spreadsheet {
    #[verifier::type_invariant]
    spec fn wf(self) -> bool {
        keys_unique(self.cells@)
    }

    /// An empty spreadsheet: no cell has ever been set.
    pub fn new() -> (s: Self)
        ensures
            s@ == Map::<Seq<char>, CellValueV>::empty(),
    {
        Spreadsheet { cells: Vec::new() }
    }

    /// The current value of cell `cell_name`, or nothing if the cell was
    /// never set.
    pub fn get_cell_value(&self, cell_name: &str) -> (r: Option<CellValue>)
        ensures
            match r {
                Option::Some(v) => self@.contains_key(cell_name@) && v@ == self@[cell_name@],
                Option::None => !self@.contains_key(cell_name@),
            },
    {
        proof {
            use_type_invariant(&*self);
        }
        let key: String = cell_name.to_owned();
        let n = self.cells.len();
        let mut idx: usize = 0;
        while idx < n
            invariant
                n == self.cells@.len(),
                key@ == cell_name@,
                keys_unique(self.cells@),
                forall|i: int| 0 <= i < idx ==> (#[trigger] self.cells@[i]).0@ != cell_name@,
            decreases n - idx,
        {
            if self.cells[idx].0 == key {
                let v = self.cells[idx].1.clone();
                proof {
                    lemma_as_map_found(self.cells@, idx as int);
                }
                return Option::Some(v);
            }
            idx = idx + 1;
        }
        proof {
            lemma_as_map_absent(self.cells@, cell_name@);
        }
        Option::None
    }

    /// Writes `value` into cell `cell_name`, inserting the cell or
    /// overwriting whatever it held; always succeeds.
    pub fn set_cell_value(&mut self, cell_name: String, value: CellValue)
        ensures
            final(self)@ == old(self)@.insert(cell_name@, value@),
    {
        proof {
            use_type_invariant(&*self);
        }
        let mut cells: Vec<(String, CellValue)> = Vec::new();
        std::mem::swap(&mut cells, &mut self.cells);
        let ghost s0 = cells@;
        let n = cells.len();
        let mut idx: usize = 0;
        while idx < n
            invariant
                n == cells@.len(),
                cells@ == s0,
                keys_unique(s0),
                as_map(s0) == old(self)@,
                forall|i: int| 0 <= i < idx ==> (#[trigger] cells@[i]).0@ != cell_name@,
            decreases n - idx,
        {
            if cells[idx].0 == cell_name {
                proof {
                    lemma_as_map_update(s0, idx as int, (cell_name, value));
                    assert(keys_unique(s0.update(idx as int, (cell_name, value))));
                }
                cells.set(idx, (cell_name, value));
                self.cells = cells;
                return;
            }
            idx = idx + 1;
        }
        proof {
            lemma_as_map_push(s0, (cell_name, value));
            assert forall|i: int, j: int|
                0 <= i < j < s0.push((cell_name, value)).len() implies (#[trigger] s0.push(
                (cell_name, value),
            )[i]).0@ != (#[trigger] s0.push((cell_name, value))[j]).0@ by {
                if j < s0.len() {
                    assert(s0[i].0@ != s0[j].0@);
                }
            }
        }
        cells.push((cell_name, value));
        self.cells = cells;
    }
}

} // verus!
