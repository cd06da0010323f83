use vstd::prelude::*;

use crate::poly::{
    lemma_range_gate_poly, lemma_range_product_roots, range_check_poly, range_gate_poly, Poly,
};
use crate::table::{lemma_table_contains, table_seq, RangeTable};

verus! {

/// One placed row: the witnessed value (`None` while it is unknown, as during
/// key generation) and the two selectors.
#[derive(Clone, Copy, PartialEq, Eq, Structural, Debug)]
pub struct Row {
    pub value: Option<u64>,
    pub q_range_check: bool,
    pub q_lookup: bool,
}

/// The rows placed so far, one region each, and how many rows the circuit has.
#[derive(Clone, Debug)]
pub struct Layout {
    pub rows: Vec<Row>,
    pub capacity: usize,
}

impl Layout {
    pub fn new(capacity: usize) -> (r: Self)
        ensures
            r.rows@.len() == 0,
            r.capacity == capacity,
    {
        Layout { rows: Vec::new(), capacity }
    }
}

/// A cell that has been wired to the constraint for values below `N`. Cells
/// proven under different bounds have different types.
#[derive(Clone, Copy, PartialEq, Eq, Debug)]
pub struct RangeConstrained<const N: u64> {
    pub row: usize,
}

/// The layout has no free row left for a new region.
#[derive(Clone, Copy, PartialEq, Eq, Structural, Debug)]
pub enum AssignmentError {
    NotEnoughRows,
}

/// The row that `assign_simple` places.
pub open spec fn simple_row(value: Option<u64>) -> Row {
    Row { value, q_range_check: true, q_lookup: false }
}

/// The row that `assign_lookup` places.
pub open spec fn lookup_row(value: Option<u64>) -> Row {
    Row { value, q_range_check: false, q_lookup: true }
}

/// What `place` does to `old` with `row`: appended when a row is free, else
/// left alone; `r` is the new row's index, or the error.
pub open spec fn placed(old: Layout, new: Layout, row: Row, r: Result<usize, AssignmentError>) -> bool {
    &&& new.capacity == old.capacity
    &&& old.rows@.len() < old.capacity ==> r == Ok::<usize, AssignmentError>(
        old.rows@.len() as usize,
    ) && new.rows@ == old.rows@.push(row)
    &&& old.rows@.len() >= old.capacity ==> r == Err::<usize, AssignmentError>(
        AssignmentError::NotEnoughRows,
    ) && new.rows@ == old.rows@
}

/// The range-check gate for `[0, RANGE)`, a lookup into the table of
/// `[0, LOOKUP_RANGE)`, and the polynomial that the custom gate asserts.
#[derive(Debug)]
pub struct RangeCheckConfig<const RANGE: u64, const LOOKUP_RANGE: u64> {
    pub gate: Poly,
    pub table: RangeTable,
}

impl<const RANGE: u64, const LOOKUP_RANGE: u64> RangeCheckConfig<RANGE, LOOKUP_RANGE> {
    /// The range is not empty, `gate` is the range-check polynomial for it, and
    /// the table covers `[0, LOOKUP_RANGE)`.
    pub open spec fn wf(&self) -> bool {
        &&& RANGE > 0
        &&& self.gate == range_gate_poly(RANGE as nat)
        &&& self.table == (RangeTable { size: LOOKUP_RANGE })
    }

    /// Whether a row meets every constraint that its selectors switch on. An
    /// unknown value is not evaluated.
    pub open spec fn row_ok(&self, row: Row) -> bool {
        match row.value {
            None => true,
            Some(v) => {
                &&& row.q_range_check ==> self.gate.eval(v as int) == 0
                &&& row.q_lookup ==> table_seq(self.table.size as nat).contains(v)
            },
        }
    }

    /// Whether every row of `rows` meets its constraints.
    pub open spec fn rows_ok(&self, rows: Seq<Row>) -> bool {
        forall|k: int| 0 <= k < rows.len() ==> #[trigger] self.row_ok(rows[k])
    }

    /// Builds the range-check gate for `[0, RANGE)` and the table for
    /// `[0, LOOKUP_RANGE)`.
    pub fn configure() -> (r: Self)
        requires
            RANGE > 0,
        ensures
            r.wf(),
    {
        let gate = range_check_poly(RANGE);
        let table = RangeTable::new(LOOKUP_RANGE);
        RangeCheckConfig { gate, table }
    }

    /// Places `value` in a fresh region with `q_range_check` on, unchecked.
    pub fn assign_simple(&self, layout: &mut Layout, value: Option<u64>) -> (r: Result<
        RangeConstrained<RANGE>,
        AssignmentError,
    >)
        ensures
            final(layout).capacity == old(layout).capacity,
            old(layout).rows@.len() < old(layout).capacity ==> r == Ok::<
                RangeConstrained<RANGE>,
                AssignmentError,
            >(RangeConstrained { row: old(layout).rows@.len() as usize })
                && final(layout).rows@ == old(layout).rows@.push(simple_row(value)),
            old(layout).rows@.len() >= old(layout).capacity ==> r == Err::<
                RangeConstrained<RANGE>,
                AssignmentError,
            >(AssignmentError::NotEnoughRows) && final(layout).rows@ == old(layout).rows@,
    {
        let at = place(layout, Row { value, q_range_check: true, q_lookup: false });
        match at {
            Ok(row) => Ok(RangeConstrained { row }),
            Err(e) => Err(e),
        }
    }

    /// Places `value` in a fresh region with `q_lookup` on, unchecked.
    pub fn assign_lookup(&self, layout: &mut Layout, value: Option<u64>) -> (r: Result<
        RangeConstrained<LOOKUP_RANGE>,
        AssignmentError,
    >)
        ensures
            final(layout).capacity == old(layout).capacity,
            old(layout).rows@.len() < old(layout).capacity ==> r == Ok::<
                RangeConstrained<LOOKUP_RANGE>,
                AssignmentError,
            >(RangeConstrained { row: old(layout).rows@.len() as usize })
                && final(layout).rows@ == old(layout).rows@.push(lookup_row(value)),
            old(layout).rows@.len() >= old(layout).capacity ==> r == Err::<
                RangeConstrained<LOOKUP_RANGE>,
                AssignmentError,
            >(AssignmentError::NotEnoughRows) && final(layout).rows@ == old(layout).rows@,
    {
        let at = place(layout, Row { value, q_range_check: false, q_lookup: true });
        match at {
            Ok(row) => Ok(RangeConstrained { row }),
            Err(e) => Err(e),
        }
    }

    /// Evaluates the constraints that `row` switches on.
    pub fn row_satisfied(&self, row: &Row) -> (r: bool)
        requires
            self.wf(),
        ensures
            r == self.row_ok(*row),
    {
        match row.value {
            None => true,
            Some(v) => {
                proof {
                    lemma_range_gate_poly(RANGE as nat);
                    lemma_range_product_roots(RANGE as nat, v as int);
                    lemma_table_contains(LOOKUP_RANGE as nat, v);
                }
                (!row.q_range_check || v < RANGE) && (!row.q_lookup || self.table.contains(v))
            },
        }
    }

    /// Whether every placed row meets its constraints.
    pub fn is_satisfied(&self, layout: &Layout) -> (r: bool)
        requires
            self.wf(),
        ensures
            r == self.rows_ok(layout.rows@),
    {
        let mut k: usize = 0;
        while k < layout.rows.len()
            invariant
                self.wf(),
                k <= layout.rows@.len(),
                forall|j: int| 0 <= j < k ==> #[trigger] self.row_ok(layout.rows@[j]),
            decreases layout.rows@.len() - k,
        {
            if !self.row_satisfied(&layout.rows[k]) {
                return false;
            }
            k = k + 1;
        }
        true
    }
}

/// Two well-formed configurations with the same bounds are equal: the
/// registered gate and table, and so the keys derived from them, depend on the
/// bounds alone.
pub proof fn lemma_configure_determined<const RANGE: u64, const LOOKUP_RANGE: u64>(
    a: RangeCheckConfig<RANGE, LOOKUP_RANGE>,
    b: RangeCheckConfig<RANGE, LOOKUP_RANGE>,
)
    requires
        a.wf(),
        b.wf(),
    ensures
        a == b,
{
}

/// After `assign_simple` of a known value onto satisfied rows, the rows are
/// satisfied exactly when the value lies in `[0, RANGE)`: the range-check
/// polynomial vanishes on the values in range and on no other.
pub proof fn lemma_assign_simple_satisfied<const RANGE: u64, const LOOKUP_RANGE: u64>(
    cfg: RangeCheckConfig<RANGE, LOOKUP_RANGE>,
    before: Seq<Row>,
    v: u64,
)
    requires
        cfg.wf(),
        cfg.rows_ok(before),
    ensures
        cfg.rows_ok(before.push(simple_row(Some(v)))) <==> v < RANGE,
{
    lemma_range_gate_poly(RANGE as nat);
    lemma_range_product_roots(RANGE as nat, v as int);
    lemma_rows_ok_push(cfg, before, simple_row(Some(v)));
}

/// After `assign_lookup` of a known value onto satisfied rows, the rows are
/// satisfied exactly when the value lies in `[0, LOOKUP_RANGE)`: the lookup
/// finds it in the table and misses every other value.
pub proof fn lemma_assign_lookup_satisfied<const RANGE: u64, const LOOKUP_RANGE: u64>(
    cfg: RangeCheckConfig<RANGE, LOOKUP_RANGE>,
    before: Seq<Row>,
    v: u64,
)
    requires
        cfg.wf(),
        cfg.rows_ok(before),
    ensures
        cfg.rows_ok(before.push(lookup_row(Some(v)))) <==> v < LOOKUP_RANGE,
{
    lemma_table_contains(LOOKUP_RANGE as nat, v);
    lemma_rows_ok_push(cfg, before, lookup_row(Some(v)));
}

/// Rows placed with unknown values, as during key generation, never violate a
/// constraint, whichever path placed them.
pub proof fn lemma_unknown_rows_satisfied<const RANGE: u64, const LOOKUP_RANGE: u64>(
    cfg: RangeCheckConfig<RANGE, LOOKUP_RANGE>,
    rows: Seq<Row>,
)
    requires
        forall|k: int| 0 <= k < rows.len() ==> (#[trigger] rows[k]).value is None,
    ensures
        cfg.rows_ok(rows),
{
}

proof fn lemma_rows_ok_push<const RANGE: u64, const LOOKUP_RANGE: u64>(
    cfg: RangeCheckConfig<RANGE, LOOKUP_RANGE>,
    before: Seq<Row>,
    row: Row,
)
    requires
        cfg.rows_ok(before),
    ensures
        cfg.rows_ok(before.push(row)) <==> cfg.row_ok(row),
{
    let after = before.push(row);
    assert(after[before.len() as int] == row);
    if cfg.row_ok(row) {
        assert forall|k: int| 0 <= k < after.len() implies #[trigger] cfg.row_ok(after[k]) by {
            if k < before.len() {
                assert(after[k] == before[k]);
            }
        }
    }
}

/// Appends `row` as a new region if a row is free, and gives its index.
fn place(layout: &mut Layout, row: Row) -> (r: Result<usize, AssignmentError>)
    ensures
        placed(*old(layout), *final(layout), row, r),
{
    if layout.rows.len() < layout.capacity {
        let at = layout.rows.len();
        layout.rows.push(row);
        Ok(at)
    } else {
        Err(AssignmentError::NotEnoughRows)
    }
}

} // verus!
