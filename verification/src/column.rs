use vstd::prelude::*;

verus! {

/// An ordered sequence of row slots, each either null (`None`) or a value.
#[derive(Debug)]
pub struct Column<T> {
    pub rows: Vec<Option<T>>,
}

impl<T: DeepView> View for Column<T> {
    type V = Seq<Option<T::V>>;

    open spec fn view(&self) -> Seq<Option<T::V>> {
        self.rows.deep_view()
    }
}

impl<T: DeepView> Column<T> {
    /// A column holding the given row slots, in order.
    pub fn new(rows: Vec<Option<T>>) -> (col: Self)
        ensures
            col.rows == rows,
            col@ == rows.deep_view(),
    {
        Column { rows }
    }

    /// A column without rows.
    pub fn empty() -> (col: Self)
        ensures
            col@ == Seq::<Option<T::V>>::empty(),
    {
        let col = Column { rows: Vec::new() };
        assert(col@ =~= Seq::<Option<T::V>>::empty());
        col
    }

    /// The number of rows, null rows included.
    pub fn len(&self) -> (n: usize)
        ensures
            n == self@.len(),
            n == self.rows.len(),
    {
        self.rows.len()
    }

    /// The value of row `i`: `None` for a null row and for a position past the end.
    pub fn get(&self, i: usize) -> (r: Option<&T>)
        ensures
            i < self@.len() ==> r.deep_view() == self@[i as int] && r == match self.rows[i as int] {
                Some(v) => Some(&v),
                None => None,
            },
            i >= self@.len() ==> r is None,
    {
        if i < self.rows.len() {
            self.rows[i].as_ref()
        } else {
            None
        }
    }

    /// Whether row `i` is null; a position past the end counts as null.
    pub fn is_null(&self, i: usize) -> (b: bool)
        ensures
            b == (i >= self@.len() || self@[i as int] is None),
    {
        if i < self.rows.len() {
            self.rows[i].is_none()
        } else {
            true
        }
    }

    /// Adds one row slot at the end.
    pub fn push(&mut self, row: Option<T>)
        ensures
            final(self)@ == old(self)@.push(row.deep_view()),
            final(self).rows@ == old(self).rows@.push(row),
    {
        self.rows.push(row);
        assert(self@ =~= old(self)@.push(row.deep_view()));
    }

    /// The row slots, in order.
    pub fn into_rows(self) -> (rows: Vec<Option<T>>)
        ensures
            rows == self.rows,
            rows.deep_view() == self@,
    {
        self.rows
    }
}

/// Whether `output` has a row for every row of `input` and a null row wherever
/// `input` has one.
pub open spec fn propagates_nulls<A, B>(input: Seq<Option<A>>, output: Seq<Option<B>>) -> bool {
    &&& output.len() == input.len()
    &&& forall|i: int| 0 <= i < input.len() && input[i] is None ==> #[trigger] output[i] is None
}

} // verus!
