//! A named column paired with an index of labels of the same length.
use vstd::prelude::*;

use crate::column::{diff_seq, ewm_seq, kept_by, Column};
use crate::numeric::{alpha_in_unit, Numeric};

verus! {

/// A named column of values, each with a label.
#[derive(Clone, Debug)]
pub struct Series<T, I> {
    name: String,
    column: Column<T>,
    index: Vec<I>,
    capacity: Option<usize>,
}

/// The labels at the positions `pos` of `index`, in order.
pub open spec fn labels_at<I>(index: Seq<I>, pos: Seq<usize>) -> Seq<I> {
    pos.map_values(|p: usize| index[p as int])
}

/// Copies the labels, in order.
fn copy_labels<I: Copy>(index: &Vec<I>) -> (r: Vec<I>)
    ensures
        r@ == index@,
{
    let n = index.len();
    let mut out: Vec<I> = Vec::with_capacity(n);
    let mut i: usize = 0;
    while i < n
        invariant
            n == index@.len(),
            i <= n,
            out@ == index@.subrange(0, i as int),
        decreases n - i,
    {
        out.push(index[i]);
        i += 1;
        assert(out@ =~= index@.subrange(0, i as int));
    }
    assert(out@ =~= index@);
    out
}

impl<T: Numeric, I: Copy> Series<T, I> {
    /// The values, in order.
    pub closed spec fn spec_values(&self) -> Seq<T> {
        self.column@
    }

    /// The labels, in order.
    pub closed spec fn spec_index(&self) -> Seq<I> {
        self.index@
    }

    pub closed spec fn spec_name(&self) -> Seq<char> {
        self.name@
    }

    /// The capacity given at construction.
    pub closed spec fn spec_capacity(&self) -> Option<usize> {
        self.capacity
    }

    /// Every value has its label.
    pub closed spec fn wf(&self) -> bool {
        self.column@.len() == self.index@.len()
    }

    /// An empty series.
    pub fn new(name: String) -> (r: Self)
        ensures
            r.wf(),
            r.spec_name() == name@,
            r.spec_values() == Seq::<T>::empty(),
            r.spec_index() == Seq::<I>::empty(),
            r.spec_capacity() is None,
    {
        Series { name, column: Column::new(), index: Vec::new(), capacity: None }
    }

    /// The series of `data` labelled by `index`, which must be as long; `capacity`
    /// is kept as given.
    pub fn from_data(name: String, data: Vec<T>, index: Vec<I>, capacity: Option<usize>) -> (r:
        Self)
        requires
            data@.len() == index@.len(),
        ensures
            r.wf(),
            r.spec_name() == name@,
            r.spec_values() == data@,
            r.spec_index() == index@,
            r.spec_capacity() == capacity,
    {
        Series { name, column: Column::from_vec(data), index, capacity }
    }

    /// Appends `value` with label `index`.
    pub fn push(&mut self, value: T, index: I)
        requires
            old(self).wf(),
        ensures
            final(self).wf(),
            final(self).spec_values() == old(self).spec_values().push(value),
            final(self).spec_index() == old(self).spec_index().push(index),
            final(self).spec_name() == old(self).spec_name(),
            final(self).spec_capacity() == old(self).spec_capacity(),
    {
        self.column.push(value);
        self.index.push(index);
    }

    /// Appends each value with its label, in order.
    pub fn extend(&mut self, values: Vec<(T, I)>)
        requires
            old(self).wf(),
        ensures
            final(self).wf(),
            final(self).spec_values() == old(self).spec_values() + values@.map_values(
                |p: (T, I)| p.0,
            ),
            final(self).spec_index() == old(self).spec_index() + values@.map_values(
                |p: (T, I)| p.1,
            ),
            final(self).spec_name() == old(self).spec_name(),
            final(self).spec_capacity() == old(self).spec_capacity(),
    {
        let n = values.len();
        let mut i: usize = 0;
        while i < n
            invariant
                n == values@.len(),
                i <= n,
                self.wf(),
                self.spec_values() == old(self).spec_values() + values@.subrange(
                    0,
                    i as int,
                ).map_values(|p: (T, I)| p.0),
                self.spec_index() == old(self).spec_index() + values@.subrange(
                    0,
                    i as int,
                ).map_values(|p: (T, I)| p.1),
                self.spec_name() == old(self).spec_name(),
                self.spec_capacity() == old(self).spec_capacity(),
            decreases n - i,
        {
            let (value, label) = values[i];
            self.push(value, label);
            i += 1;
            assert(self.spec_values() =~= old(self).spec_values() + values@.subrange(
                0,
                i as int,
            ).map_values(|p: (T, I)| p.0));
            assert(self.spec_index() =~= old(self).spec_index() + values@.subrange(
                0,
                i as int,
            ).map_values(|p: (T, I)| p.1));
        }
        assert(values@.subrange(0, n as int) =~= values@);
    }

    pub fn name(&self) -> (r: &str)
        ensures
            r@ == self.spec_name(),
    {
        self.name.as_str()
    }

    /// The capacity given at construction.
    pub fn capacity(&self) -> (r: Option<usize>)
        ensures
            r == self.spec_capacity(),
    {
        self.capacity
    }

    pub fn set_name(&mut self, name: String)
        ensures
            final(self).spec_name() == name@,
            final(self).spec_values() == old(self).spec_values(),
            final(self).spec_index() == old(self).spec_index(),
            final(self).spec_capacity() == old(self).spec_capacity(),
            final(self).wf() == old(self).wf(),
    {
        self.name = name;
    }

    /// The values, as a column.
    pub fn column(&self) -> (r: &Column<T>)
        ensures
            r@ == self.spec_values(),
    {
        &self.column
    }

    /// The labels, in order.
    pub fn index(&self) -> (r: &[I])
        ensures
            r@ == self.spec_index(),
    {
        self.index.as_slice()
    }

    /// The values, in order.
    pub fn values(&self) -> (r: &[T])
        ensures
            r@ == self.spec_values(),
    {
        self.column.as_slice()
    }

    pub fn len(&self) -> (r: usize)
        ensures
            r == self.spec_values().len(),
    {
        self.column.len()
    }

    pub fn is_empty(&self) -> (r: bool)
        ensures
            r == (self.spec_values().len() == 0),
    {
        self.column.is_empty()
    }

    /// The value at position `index`, if there is one.
    pub fn get(&self, index: usize) -> (r: Option<&T>)
        ensures
            r == (if index < self.spec_values().len() {
                Some(&self.spec_values()[index as int])
            } else {
                None
            }),
    {
        self.column.get(index)
    }

    /// The series of `f` applied to each value, with the same name and labels.
    pub fn map<U: Numeric, F: Fn(&T) -> U>(&self, f: F) -> (r: Series<U, I>)
        requires
            self.wf(),
            forall|i: int|
                0 <= i < self.spec_values().len() ==> call_requires(
                    f,
                    (&#[trigger] self.spec_values()[i],),
                ),
        ensures
            r.wf(),
            r.spec_values().len() == self.spec_values().len(),
            forall|i: int|
                0 <= i < self.spec_values().len() ==> call_ensures(
                    f,
                    (&self.spec_values()[i],),
                    #[trigger] r.spec_values()[i],
                ),
            r.spec_index() == self.spec_index(),
            r.spec_name() == self.spec_name(),
            r.spec_capacity() == self.spec_capacity(),
    {
        assert forall|i: int| 0 <= i < self.column@.len() implies call_requires(
            f,
            (&#[trigger] self.column@[i],),
        ) by {
            assert(self.spec_values()[i] == self.column@[i]);
        }
        Series {
            name: self.name.clone(),
            column: self.column.map(f),
            index: copy_labels(&self.index),
            capacity: self.capacity,
        }
    }

    /// Replaces each value `x` by `f(x)`, in place.
    pub fn apply_mut<F: Fn(T) -> T>(&mut self, f: F)
        requires
            old(self).wf(),
            forall|i: int|
                0 <= i < old(self).spec_values().len() ==> call_requires(
                    f,
                    (#[trigger] old(self).spec_values()[i],),
                ),
        ensures
            final(self).wf(),
            final(self).spec_values().len() == old(self).spec_values().len(),
            forall|i: int|
                0 <= i < old(self).spec_values().len() ==> call_ensures(
                    f,
                    (old(self).spec_values()[i],),
                    #[trigger] final(self).spec_values()[i],
                ),
            final(self).spec_index() == old(self).spec_index(),
            final(self).spec_name() == old(self).spec_name(),
            final(self).spec_capacity() == old(self).spec_capacity(),
    {
        assert forall|i: int| 0 <= i < self.column@.len() implies call_requires(
            f,
            (#[trigger] self.column@[i],),
        ) by {
            assert(old(self).spec_values()[i] == self.column@[i]);
        }
        self.column.apply(f);
    }

    /// The values on which `pred` answers true, in order, each with its label.
    pub fn filter<F: Fn(&T) -> bool>(&self, pred: F) -> (r: Series<T, I>)
        requires
            self.wf(),
            forall|i: int|
                0 <= i < self.spec_values().len() ==> call_requires(
                    pred,
                    (&#[trigger] self.spec_values()[i],),
                ),
        ensures
            r.wf(),
            exists|pos: Seq<usize>|
                kept_by(pred, self.spec_values(), r.spec_values(), pos) && r.spec_index()
                    == labels_at(self.spec_index(), pos),
            r.spec_name() == self.spec_name(),
            r.spec_capacity() == self.spec_capacity(),
    {
        assert forall|i: int| 0 <= i < self.column@.len() implies call_requires(
            pred,
            (&#[trigger] self.column@[i],),
        ) by {
            assert(self.spec_values()[i] == self.column@[i]);
        }
        let (filtered, pos) = self.column.filter(pred);
        let n = pos.len();
        let mut labels: Vec<I> = Vec::with_capacity(n);
        let mut j: usize = 0;
        while j < n
            invariant
                n == pos@.len(),
                j <= n,
                kept_by(pred, self.column@, filtered@, pos@),
                self.index@.len() == self.column@.len(),
                labels@ == labels_at(self.index@, pos@.subrange(0, j as int)),
            decreases n - j,
        {
            let p = pos[j];
            labels.push(self.index[p]);
            j += 1;
            assert(labels@ =~= labels_at(self.index@, pos@.subrange(0, j as int)));
        }
        assert(pos@.subrange(0, n as int) =~= pos@);
        let r = Series {
            name: self.name.clone(),
            column: filtered,
            index: labels,
            capacity: self.capacity,
        };
        assert(kept_by(pred, self.spec_values(), r.spec_values(), pos@) && r.spec_index()
            == labels_at(self.spec_index(), pos@));
        r
    }

    /// A series with the name, labels and capacity of this one and the values of
    /// `values`, which must be as long.
    pub fn with_values(&self, values: Column<T>) -> (r: Series<T, I>)
        requires
            self.wf(),
            values@.len() == self.spec_values().len(),
        ensures
            r.wf(),
            r.spec_values() == values@,
            r.spec_index() == self.spec_index(),
            r.spec_name() == self.spec_name(),
            r.spec_capacity() == self.spec_capacity(),
    {
        Series {
            name: self.name.clone(),
            column: values,
            index: copy_labels(&self.index),
            capacity: self.capacity,
        }
    }

    /// Pairwise differences, with the same name and labels; the first value is
    /// zero and marks the absence of a predecessor.
    pub fn diff(&self) -> (r: Series<T, I>)
        requires
            self.wf(),
        ensures
            r.wf(),
            r.spec_values() == diff_seq(self.spec_values()),
            self.spec_values().len() > 0 ==> r.spec_values()[0] == T::zero_spec(),
            r.spec_index() == self.spec_index(),
            r.spec_name() == self.spec_name(),
            r.spec_capacity() == self.spec_capacity(),
    {
        Series {
            name: self.name.clone(),
            column: self.column.diff(),
            index: copy_labels(&self.index),
            capacity: self.capacity,
        }
    }

    /// The exponential recurrence of the values, with the same name and labels;
    /// see [`Column::into_ewm_mean`].
    pub fn ewm_mean(&self, alpha: T) -> (r: Series<T, I>)
        requires
            self.wf(),
            alpha_in_unit(alpha),
        ensures
            r.wf(),
            r.spec_values() == ewm_seq(self.spec_values(), alpha),
            r.spec_index() == self.spec_index(),
            r.spec_name() == self.spec_name(),
            r.spec_capacity() == self.spec_capacity(),
    {
        Series {
            name: self.name.clone(),
            column: self.column.ewm_mean(alpha),
            index: copy_labels(&self.index),
            capacity: self.capacity,
        }
    }
}

impl<T: Numeric> Series<T, usize> {
    /// The series of `data` labelled by positions `0, 1, ..., n - 1`.
    pub fn from_vec(name: String, data: Vec<T>, capacity: Option<usize>) -> (r: Self)
        ensures
            r.wf(),
            r.spec_name() == name@,
            r.spec_values() == data@,
            r.spec_index() == Seq::new(data@.len(), |i: int| i as usize),
            r.spec_capacity() == capacity,
    {
        let n = data.len();
        let mut index: Vec<usize> = Vec::with_capacity(n);
        let mut i: usize = 0;
        while i < n
            invariant
                n == data@.len(),
                i <= n,
                index@ == Seq::new(i as nat, |k: int| k as usize),
            decreases n - i,
        {
            index.push(i);
            i += 1;
            assert(index@ =~= Seq::new(i as nat, |k: int| k as usize));
        }
        Series::from_data(name, data, index, capacity)
    }
}

} // verus!
