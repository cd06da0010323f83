use vstd::prelude::*;

verus! {

/// The values `0, 1, ..., size - 1`, in that order.
pub open spec fn table_seq(size: nat) -> Seq<u64> {
    Seq::new(size, |i: int| i as u64)
}

/// A lookup table holding every value of `[0, size)` once, in ascending order.
#[derive(Clone, Copy, PartialEq, Eq, Structural, Debug)]
pub struct RangeTable {
    pub size: u64,
}

impl RangeTable {
    pub fn new(size: u64) -> (r: Self)
        ensures
            r.size == size,
    {
        RangeTable { size }
    }

    /// The contents of the table's value column, row by row.
    pub fn values(&self) -> (r: Vec<u64>)
        ensures
            r@ == table_seq(self.size as nat),
    {
        let mut r: Vec<u64> = Vec::new();
        let mut i: u64 = 0;
        while i < self.size
            invariant
                i <= self.size,
                r@ == table_seq(i as nat),
            decreases self.size - i,
        {
            r.push(i);
            i = i + 1;
            assert(r@ =~= table_seq(i as nat));
        }
        r
    }

    /// Whether `v` is one of the table's entries.
    pub fn contains(&self, v: u64) -> (r: bool)
        ensures
            r == table_seq(self.size as nat).contains(v),
    {
        proof {
            lemma_table_contains(self.size as nat, v);
        }
        v < self.size
    }
}

/// A value is in the table of `[0, size)` exactly when it is below `size`.
pub proof fn lemma_table_contains(size: nat, v: u64)
    requires
        size <= u64::MAX + 1,
    ensures
        table_seq(size).contains(v) <==> (v as nat) < size,
{
    if (v as nat) < size {
        assert(table_seq(size)[v as int] == v);
    }
}

/// A loaded table of size `size` holds `size` entries, starting at 0, each one
/// more than the one before: ascending, with no duplicate and no gap.
pub proof fn lemma_table_shape(size: nat)
    requires
        size <= u64::MAX + 1,
    ensures
        table_seq(size).len() == size,
        size > 0 ==> table_seq(size)[0] == 0,
        forall|i: int| 0 <= i < size ==> #[trigger] table_seq(size)[i] == i,
        forall|i: int| 0 < i < size ==> #[trigger] table_seq(size)[i] == table_seq(size)[i - 1] + 1,
        forall|i: int, j: int|
            0 <= i < j < size ==> #[trigger] table_seq(size)[i] < #[trigger] table_seq(size)[j],
{
}

} // verus!
