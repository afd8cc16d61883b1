use crate::column::Column;
use vstd::prelude::*;

verus! {

/// A column of lists: the items of all rows, flattened in row order, and for
/// each row the position at which its items start. The items of row `i` are
/// the values from `offsets[i]` up to `offsets[i + 1]`.
#[derive(Debug)]
pub struct ListColumn<T> {
    pub offsets: Vec<usize>,
    pub values: Column<T>,
}

/// The values from one offset up to the next.
pub open spec fn slice_at<V>(values: Seq<V>, offsets: Seq<usize>, i: int) -> Seq<V> {
    values.subrange(offsets[i] as int, offsets[i + 1] as int)
}

/// Whether `offsets` marks out rows in a buffer of `total` values: it starts
/// at zero, never steps back, and ends at `total`.
pub open spec fn marks_rows(offsets: Seq<usize>, total: nat) -> bool {
    &&& offsets.len() >= 1
    &&& offsets[0] == 0
    &&& forall|i: int| 0 <= i < offsets.len() - 1 ==> offsets[i] <= #[trigger] offsets[i + 1]
    &&& offsets.last() == total
}

impl<T: DeepView> ListColumn<T> {
    /// The invariant of a list column.
    pub open spec fn wf(&self) -> bool {
        marks_rows(self.offsets@, self.values@.len())
    }

    /// The number of rows.
    pub open spec fn spec_len(&self) -> nat {
        if self.offsets@.len() == 0 {
            0
        } else {
            (self.offsets@.len() - 1) as nat
        }
    }

    /// The items of row `i`.
    pub open spec fn row(&self, i: int) -> Seq<Option<T::V>> {
        slice_at(self.values@, self.offsets@, i)
    }

    /// Whether every row holds at least one slot.
    pub open spec fn rows_occupied(&self) -> bool {
        forall|i: int| 0 <= i < self.spec_len() ==> #[trigger] self.offsets@[i + 1] - self.offsets@[i] >= 1
    }

    /// Puts a list column together from its two buffers, if the offsets mark
    /// out rows in the values.
    pub fn from_parts(offsets: Vec<usize>, values: Column<T>) -> (r: Option<Self>)
        ensures
            r is Some <==> marks_rows(offsets@, values@.len()),
            r matches Some(list) ==> list.offsets == offsets && list.values == values && list.wf(),
    {
        let n = offsets.len();
        if n == 0 || offsets[0] != 0 || offsets[n - 1] != values.len() {
            return None;
        }
        let mut k: usize = 1;
        while k < n
            invariant
                1 <= k <= n,
                n == offsets.len(),
                forall|i: int| 0 <= i < k - 1 ==> offsets[i] <= #[trigger] offsets[i + 1],
            decreases n - k,
        {
            if offsets[k - 1] > offsets[k] {
                assert(offsets@[(k - 1) + 1] < offsets@[k - 1]);
                return None;
            }
            k += 1;
        }
        Some(ListColumn { offsets, values })
    }

    /// The number of rows.
    pub fn len(&self) -> (n: usize)
        ensures
            n == self.spec_len(),
    {
        if self.offsets.len() == 0 {
            0
        } else {
            self.offsets.len() - 1
        }
    }

    /// Where the items of row `i` start and end in the values; nothing for a
    /// position past the last row.
    pub fn row_range(&self, i: usize) -> (range: Option<(usize, usize)>)
        ensures
            range is Some <==> i < self.spec_len(),
            range matches Some((start, end)) ==> {
                &&& start == self.offsets@[i as int]
                &&& end == self.offsets@[i + 1]
                &&& self.wf() ==> start <= end <= self.values@.len()
            },
    {
        let n = self.offsets.len();
        if n >= 1 && i < n - 1 {
            proof {
                if self.wf() {
                    lemma_offsets_ordered(self.offsets@, self.values@.len(), i as int, i + 1);
                }
            }
            Some((self.offsets[i], self.offsets[i + 1]))
        } else {
            None
        }
    }
}

/// The slots that one row's result takes in the values: its items, or one null
/// slot where the row is null or has no item.
pub open spec fn slots_of<V>(result: Option<Seq<Option<V>>>) -> Seq<Option<V>> {
    match result {
        None => seq![None],
        Some(items) => if items.len() == 0 {
            seq![None]
        } else {
            items
        },
    }
}

/// Assembles the per-row results of a kernel into one list column: the items
/// of all rows flattened in row order, with the offsets of the rows. A null
/// row and a row without items each take one null slot, so that every row
/// holds at least one slot.
pub fn assemble<T: DeepView>(results: Vec<Option<Vec<Option<T>>>>) -> (out: ListColumn<T>)
    ensures
        out.wf(),
        out.spec_len() == results@.len(),
        forall|i: int|
            0 <= i < results@.len() ==> #[trigger] out.row(i) == slots_of(results.deep_view()[i]),
        out.rows_occupied(),
{
    let ghost all = results.deep_view();
    let mut offsets: Vec<usize> = Vec::new();
    let mut values: Column<T> = Column::empty();
    offsets.push(0);
    for result in it: results
        invariant
            it.seq() == results@,
            all == results.deep_view(),
            offsets@.len() == it.index() + 1,
            offsets@[0] == 0,
            offsets@.last() == values@.len(),
            forall|i: int| 0 <= i < it.index() ==> offsets@[i] + 1 <= #[trigger] offsets@[i + 1],
            forall|i: int| 0 <= i <= it.index() ==> #[trigger] offsets@[i] <= values@.len(),
            forall|i: int|
                0 <= i < it.index() ==> #[trigger] slice_at(values@, offsets@, i) == slots_of(
                    all[i],
                ),
    {
        let ghost before = values@;
        let ghost marks = offsets@;
        let ghost k = it.index() as int;
        assert(all[k] == result.deep_view());
        match result {
            None => {
                values.push(None);
            },
            Some(items) => {
                if items.len() == 0 {
                    values.push(None);
                } else {
                    let mut items = items;
                    let ghost added = items.deep_view();
                    values.rows.append(&mut items);
                    assert(values@ =~= before + added);
                }
            },
        }
        assert(values@ =~= before + slots_of(all[k]));
        offsets.push(values.len());
        proof {
            assert(offsets@ == marks.push(values@.len() as usize));
            assert forall|i: int| 0 <= i < k + 1 implies #[trigger] slice_at(
                values@,
                offsets@,
                i,
            ) == slots_of(all[i]) by {
                if i < k {
                    assert(marks[i] <= before.len());
                    assert(marks[i + 1] <= before.len());
                    assert(slice_at(before, marks, i) == slots_of(all[i]));
                    assert(slice_at(values@, offsets@, i) =~= slice_at(before, marks, i));
                } else {
                    assert(slice_at(values@, offsets@, i) =~= slots_of(all[k]));
                }
            }
        }
    }
    ListColumn { offsets, values }
}

/// Offsets that mark out rows are in order, and none is past the end of the
/// values.
pub proof fn lemma_offsets_ordered(offsets: Seq<usize>, total: nat, i: int, j: int)
    requires
        marks_rows(offsets, total),
        0 <= i <= j < offsets.len(),
    ensures
        offsets[i] <= offsets[j] <= total,
    decreases offsets.len() - i,
{
    if i < offsets.len() - 1 {
        assert(offsets[i] <= offsets[i + 1]);
        if i < j {
            lemma_offsets_ordered(offsets, total, i + 1, j);
        } else {
            lemma_offsets_ordered(offsets, total, i + 1, i + 1);
        }
    }
}

} // verus!
