//! Dense, order-preserving columns of numeric values and their bulk operations.
use vstd::prelude::*;

use crate::numeric::Numeric;

verus! {

/// `s[i] - s[i - 1]`, and zero at position 0, which has no predecessor.
pub open spec fn change_at<T: Numeric>(s: Seq<T>, i: int) -> T {
    if i == 0 {
        T::zero_spec()
    } else {
        s[i].sub_spec(s[i - 1])
    }
}

/// Pairwise differences of `s`, of the same length, with zero in front.
pub open spec fn diff_seq<T: Numeric>(s: Seq<T>) -> Seq<T> {
    Seq::new(s.len(), |i: int| change_at(s, i))
}

/// The part of a change that counts as a gain: the change when positive, else zero.
pub open spec fn gain_of<T: Numeric>(c: T) -> T {
    if T::zero_spec().lt_spec(c) {
        c
    } else {
        T::zero_spec()
    }
}

/// The part of a change that counts as a loss: zero when the change is positive,
/// else its absolute value.
pub open spec fn loss_of<T: Numeric>(c: T) -> T {
    if T::zero_spec().lt_spec(c) {
        T::zero_spec()
    } else {
        c.abs_spec()
    }
}

/// First position of the trailing window of at most `max_history` elements of a
/// sequence of length `len`; no bound keeps everything.
pub open spec fn window_start(len: nat, max_history: Option<usize>) -> int {
    match max_history {
        Some(m) => if len > m {
            len - m
        } else {
            0
        },
        None => 0,
    }
}

/// Gains of the changes over the window of `s` that `max_history` selects.
pub open spec fn window_gains<T: Numeric>(s: Seq<T>, max_history: Option<usize>) -> Seq<T> {
    let start = window_start(s.len(), max_history);
    Seq::new((s.len() - start) as nat, |k: int| gain_of(change_at(s, start + k)))
}

/// Losses of the changes over the window of `s` that `max_history` selects.
pub open spec fn window_losses<T: Numeric>(s: Seq<T>, max_history: Option<usize>) -> Seq<T> {
    let start = window_start(s.len(), max_history);
    Seq::new((s.len() - start) as nat, |k: int| loss_of(change_at(s, start + k)))
}

/// One step of the exponential recurrence: `alpha * x + (1 - alpha) * prev`.
pub open spec fn ewm_step<T: Numeric>(alpha: T, x: T, prev: T) -> T {
    alpha.mul_spec(x).add_spec(T::one_spec().sub_spec(alpha).mul_spec(prev))
}

/// Position `i` of the exponential recurrence over `raw`, seeded with `raw[0]`.
pub open spec fn ewm_at<T: Numeric>(raw: Seq<T>, alpha: T, i: int) -> T
    decreases i,
{
    if i <= 0 {
        raw[0]
    } else {
        ewm_step(alpha, raw[i], ewm_at(raw, alpha, i - 1))
    }
}

/// The exponential recurrence over the whole of `raw`.
pub open spec fn ewm_seq<T: Numeric>(raw: Seq<T>, alpha: T) -> Seq<T> {
    Seq::new(raw.len(), |i: int| ewm_at(raw, alpha, i))
}

/// `kept` holds, in order, exactly the elements of `s` at the strictly increasing
/// positions `pos`: those on which `pred` answered true, while it answered false
/// on every other position.
pub open spec fn kept_by<T, F: Fn(&T) -> bool>(
    pred: F,
    s: Seq<T>,
    kept: Seq<T>,
    pos: Seq<usize>,
) -> bool {
    &&& pos.len() == kept.len()
    &&& forall|j: int|
        0 <= j < pos.len() ==> {
            &&& #[trigger] pos[j] < s.len()
            &&& kept[j] == s[pos[j] as int]
            &&& call_ensures(pred, (&s[pos[j] as int],), true)
        }
    &&& forall|j: int, k: int| 0 <= j < k < pos.len() ==> pos[j] < pos[k]
    &&& forall|i: int|
        0 <= i < s.len() && !pos.contains(i as usize) ==> call_ensures(
            pred,
            (&s[i],),
            false,
        )
}

/// A column of numeric values, indexed from 0.
#[derive(Clone, Debug)]
pub struct Column<T> {
    raw: Vec<T>,
}

impl<T> View for Column<T> {
    type V = Seq<T>;

    closed spec fn view(&self) -> Seq<T> {
        self.raw@
    }
}

impl<T: Numeric> From<Vec<T>> for Column<T> {
    fn from(raw: Vec<T>) -> (r: Column<T>)
        ensures
            r@ == raw@,
    {
        Column { raw }
    }
}

impl<T: Numeric> vstd::std_specs::convert::FromSpecImpl<Vec<T>> for Column<T> {
    open spec fn obeys_from_spec() -> bool {
        true
    }

    closed spec fn from_spec(raw: Vec<T>) -> Column<T> {
        Column { raw }
    }
}

impl<T: Numeric> From<Column<T>> for Vec<T> {
    fn from(column: Column<T>) -> (r: Vec<T>)
        ensures
            r@ == column@,
    {
        column.raw
    }
}

impl<T: Numeric> vstd::std_specs::convert::FromSpecImpl<Column<T>> for Vec<T> {
    open spec fn obeys_from_spec() -> bool {
        true
    }

    closed spec fn from_spec(column: Column<T>) -> Vec<T> {
        column.raw
    }
}

impl<T: Numeric> Column<T> {
    /// An empty column.
    pub fn new() -> (r: Self)
        ensures
            r@ == Seq::<T>::empty(),
    {
        Column { raw: Vec::new() }
    }

    /// An empty column with room for `capacity` elements.
    pub fn with_capacity(capacity: usize) -> (r: Self)
        ensures
            r@ == Seq::<T>::empty(),
    {
        Column { raw: Vec::with_capacity(capacity) }
    }

    /// The column holding the elements of `raw`, in order.
    pub fn from_vec(raw: Vec<T>) -> (r: Self)
        ensures
            r@ == raw@,
    {
        Column { raw }
    }

    /// The elements, in order.
    pub fn into_vec(self) -> (r: Vec<T>)
        ensures
            r@ == self@,
    {
        self.raw
    }

    /// The elements, in order.
    pub fn as_slice(&self) -> (r: &[T])
        ensures
            r@ == self@,
    {
        self.raw.as_slice()
    }

    /// An iterator over the elements, in order.
    pub fn iter(&self) -> (r: std::slice::Iter<'_, T>)
        ensures
            vstd::std_specs::slice::into_iter_elts(r) == self@,
    {
        proof {
            broadcast use vstd::std_specs::slice::axiom_spec_slice_iter;
        }
        self.raw.as_slice().iter()
    }

    /// The element at `index`, if there is one.
    pub fn get(&self, index: usize) -> (r: Option<&T>)
        ensures
            r == (if index < self@.len() {
                Some(&self@[index as int])
            } else {
                None
            }),
    {
        if index < self.raw.len() {
            Some(&self.raw[index])
        } else {
            None
        }
    }

    /// Appends `value` at the end.
    pub fn push(&mut self, value: T)
        ensures
            final(self)@ == old(self)@.push(value),
    {
        self.raw.push(value);
    }

    /// Replaces the element at `index` by `value`.
    pub fn set(&mut self, index: usize, value: T)
        requires
            index < old(self)@.len(),
        ensures
            final(self)@ == old(self)@.update(index as int, value),
    {
        self.raw.set(index, value);
    }

    /// The last element, if any.
    pub fn last(&self) -> (r: Option<&T>)
        ensures
            r == (if self@.len() > 0 {
                Some(&self@.last())
            } else {
                None
            }),
    {
        let n = self.raw.len();
        if n > 0 {
            Some(&self.raw[n - 1])
        } else {
            None
        }
    }

    pub fn len(&self) -> (r: usize)
        ensures
            r == self@.len(),
    {
        self.raw.len()
    }

    pub fn is_empty(&self) -> (r: bool)
        ensures
            r == (self@.len() == 0),
    {
        self.raw.len() == 0
    }

    /// Relies on `Vec::capacity`: how many elements the buffer holds before it grows.
    #[verifier::external_body]
    pub fn capacity(&self) -> usize {
        self.raw.capacity()
    }

    /// Relies on `Vec::shrink_to_fit`, which releases spare capacity and leaves the
    /// elements as they are.
    #[verifier::external_body]
    pub fn shrink_to_fit(&mut self)
        ensures
            final(self)@ == old(self)@,
    {
        self.raw.shrink_to_fit();
    }

    /// Drops elements from the front until at most `len` remain.
    pub fn trim(&mut self, len: usize)
        ensures
            final(self)@ == (if old(self)@.len() > len {
                old(self)@.subrange(old(self)@.len() - len, old(self)@.len() as int)
            } else {
                old(self)@
            }),
    {
        let current_len = self.raw.len();
        if current_len > len {
            let tail = self.raw.split_off(current_len - len);
            self.raw = tail;
        }
    }

    /// Same-length pairwise differences; element 0 is zero, as it has no
    /// predecessor, and is not a real change.
    pub fn diff(&self) -> (r: Column<T>)
        ensures
            r@ == diff_seq(self@),
            self@.len() > 0 ==> r@[0] == T::zero_spec(),
    {
        let n = self.raw.len();
        let mut out: Vec<T> = Vec::with_capacity(n);
        let mut i: usize = 0;
        while i < n
            invariant
                n == self@.len(),
                i <= n,
                out@.len() == i,
                forall|j: int| 0 <= j < i ==> out@[j] == change_at(self@, j),
            decreases n - i,
        {
            if i == 0 {
                out.push(T::zero());
            } else {
                out.push(self.raw[i].sub(self.raw[i - 1]));
            }
            i += 1;
        }
        assert(out@ =~= diff_seq(self@));
        Column { raw: out }
    }

    /// Gains and losses of the changes over the trailing window of at most
    /// `max_history` elements (the whole column when `None`). A positive change is
    /// a gain with no loss; any other change is a loss of its absolute value with no
    /// gain. Position 0 of the column counts as no change.
    pub fn gains_losses(&self, max_history: Option<usize>) -> (r: (Column<T>, Column<T>))
        ensures
            r.0@ == window_gains(self@, max_history),
            r.1@ == window_losses(self@, max_history),
    {
        let len = self.raw.len();
        let start: usize = match max_history {
            Some(max) => if len > max {
                len - max
            } else {
                0
            },
            None => 0,
        };
        let mut gains: Vec<T> = Vec::with_capacity(len - start);
        let mut losses: Vec<T> = Vec::with_capacity(len - start);
        let mut i: usize = start;
        while i < len
            invariant
                len == self@.len(),
                start == window_start(self@.len(), max_history),
                start <= i <= len,
                gains@.len() == i - start,
                losses@.len() == i - start,
                forall|k: int|
                    0 <= k < i - start ==> gains@[k] == gain_of(change_at(self@, start + k)),
                forall|k: int|
                    0 <= k < i - start ==> losses@[k] == loss_of(change_at(self@, start + k)),
            decreases len - i,
        {
            let change = if i == 0 {
                T::zero()
            } else {
                self.raw[i].sub(self.raw[i - 1])
            };
            let zero = T::zero();
            if change.is_positive() {
                gains.push(change);
                losses.push(zero);
            } else {
                gains.push(zero);
                losses.push(change.abs());
            }
            i += 1;
        }
        assert(gains@ =~= window_gains(self@, max_history));
        assert(losses@ =~= window_losses(self@, max_history));
        (Column { raw: gains }, Column { raw: losses })
    }

    /// Replaces the column by its exponential recurrence: element 0 stays as it
    /// is, and each later element `i` becomes
    /// `alpha * raw[i] + (1 - alpha) * result[i - 1]`, computed left to right.
    pub fn into_ewm_mean(self, alpha: T) -> (r: Column<T>)
        requires
            crate::numeric::alpha_in_unit(alpha),
        ensures
            r@ == ewm_seq(self@, alpha),
            r@.len() == self@.len(),
            self@.len() > 0 ==> r@[0] == self@[0],
            forall|i: int|
                1 <= i < self@.len() ==> #[trigger] r@[i] == ewm_step(alpha, self@[i], r@[i - 1]),
    {
        let mut raw = self.raw;
        let n = raw.len();
        if n == 0 {
            assert(raw@ =~= ewm_seq(self@, alpha));
            return Column { raw };
        }
        let keep = T::one().sub(alpha);
        let mut i: usize = 1;
        while i < n
            invariant
                n == self@.len(),
                1 <= i <= n,
                raw@.len() == n,
                keep == T::one_spec().sub_spec(alpha),
                forall|j: int| 0 <= j < i ==> raw@[j] == ewm_at(self@, alpha, j),
                forall|j: int| i <= j < n ==> raw@[j] == self@[j],
            decreases n - i,
        {
            let v = alpha.mul(raw[i]).add(keep.mul(raw[i - 1]));
            raw.set(i, v);
            i += 1;
        }
        assert(raw@ =~= ewm_seq(self@, alpha));
        Column { raw }
    }

    /// The exponential recurrence of the column, which is left as it is; see
    /// [`Column::into_ewm_mean`].
    pub fn ewm_mean(&self, alpha: T) -> (r: Column<T>)
        requires
            crate::numeric::alpha_in_unit(alpha),
        ensures
            r@ == ewm_seq(self@, alpha),
            r@.len() == self@.len(),
            self@.len() > 0 ==> r@[0] == self@[0],
            forall|i: int|
                1 <= i < self@.len() ==> #[trigger] r@[i] == ewm_step(alpha, self@[i], r@[i - 1]),
    {
        self.clone_column().into_ewm_mean(alpha)
    }

    /// A column with the same elements.
    pub fn clone_column(&self) -> (r: Column<T>)
        ensures
            r@ == self@,
    {
        let n = self.raw.len();
        let mut out: Vec<T> = Vec::with_capacity(n);
        let mut i: usize = 0;
        while i < n
            invariant
                n == self@.len(),
                i <= n,
                out@ == self@.subrange(0, i as int),
            decreases n - i,
        {
            out.push(self.raw[i]);
            i += 1;
            assert(out@ =~= self@.subrange(0, i as int));
        }
        assert(out@ =~= self@);
        Column { raw: out }
    }
    /// The column of `f` applied to each element, in order.
    pub fn map<U: Numeric, F: Fn(&T) -> U>(&self, f: F) -> (r: Column<U>)
        requires
            forall|i: int| 0 <= i < self@.len() ==> call_requires(f, (&#[trigger] self@[i],)),
        ensures
            r@.len() == self@.len(),
            forall|i: int| 0 <= i < self@.len() ==> call_ensures(f, (&self@[i],), #[trigger] r@[i]),
    {
        let n = self.raw.len();
        let mut out: Vec<U> = Vec::with_capacity(n);
        let mut i: usize = 0;
        while i < n
            invariant
                n == self@.len(),
                i <= n,
                out@.len() == i,
                forall|j: int| 0 <= j < self@.len() ==> call_requires(f, (&#[trigger] self@[j],)),
                forall|j: int| 0 <= j < i ==> call_ensures(f, (&self@[j],), #[trigger] out@[j]),
            decreases n - i,
        {
            let v = f(&self.raw[i]);
            out.push(v);
            i += 1;
        }
        Column { raw: out }
    }

    /// Replaces each element `x` by `f(x)`, in place.
    pub fn apply<F: Fn(T) -> T>(&mut self, f: F)
        requires
            forall|i: int| 0 <= i < old(self)@.len() ==> call_requires(f, (#[trigger] old(self)@[i],)),
        ensures
            final(self)@.len() == old(self)@.len(),
            forall|i: int|
                0 <= i < old(self)@.len() ==> call_ensures(f, (old(self)@[i],), #[trigger] final(self)@[i]),
    {
        let n = self.raw.len();
        let mut i: usize = 0;
        while i < n
            invariant
                n == old(self)@.len(),
                i <= n,
                self@.len() == n,
                forall|j: int| 0 <= j < n ==> call_requires(f, (#[trigger] old(self)@[j],)),
                forall|j: int| 0 <= j < i ==> call_ensures(f, (old(self)@[j],), #[trigger] self@[j]),
                forall|j: int| i <= j < n ==> self@[j] == old(self)@[j],
            decreases n - i,
        {
            let v = f(self.raw[i]);
            self.raw.set(i, v);
            i += 1;
        }
    }

    /// The elements on which `pred` answers true, in order, and their positions in
    /// this column.
    pub fn filter<F: Fn(&T) -> bool>(&self, pred: F) -> (r: (Column<T>, Vec<usize>))
        requires
            forall|i: int| 0 <= i < self@.len() ==> call_requires(pred, (&#[trigger] self@[i],)),
        ensures
            kept_by(pred, self@, r.0@, r.1@),
    {
        let n = self.raw.len();
        let mut kept: Vec<T> = Vec::new();
        let mut pos: Vec<usize> = Vec::new();
        let mut i: usize = 0;
        while i < n
            invariant
                n == self@.len(),
                i <= n,
                forall|j: int| 0 <= j < n ==> call_requires(pred, (&#[trigger] self@[j],)),
                pos@.len() == kept@.len(),
                forall|j: int|
                    0 <= j < pos@.len() ==> {
                        &&& #[trigger] pos@[j] < i
                        &&& kept@[j] == self@[pos@[j] as int]
                        &&& call_ensures(pred, (&self@[pos@[j] as int],), true)
                    },
                forall|j: int, k: int| 0 <= j < k < pos@.len() ==> pos@[j] < pos@[k],
                forall|j: int|
                    0 <= j < i && !pos@.contains(j as usize) ==> call_ensures(
                        pred,
                        (&#[trigger] self@[j],),
                        false,
                    ),
            decreases n - i,
        {
            let x = &self.raw[i];
            let ghost prev = pos@;
            let keep = pred(x);
            if keep {
                kept.push(*x);
                pos.push(i);
                assert forall|v: usize| prev.contains(v) implies pos@.contains(v) by {
                    let k = choose|k: int| 0 <= k < prev.len() && prev[k] == v;
                    assert(pos@[k] == v);
                }
                assert(pos@[pos@.len() - 1] == i);
            } else {
                assert forall|j: int| 0 <= j < pos@.len() implies pos@[j] != i by {}
            }
            assert forall|j: int|
                0 <= j <= i && !pos@.contains(j as usize) implies call_ensures(
                pred,
                (&#[trigger] self@[j],),
                false,
            ) by {
                if j < i {
                    assert(!prev.contains(j as usize));
                }
            }
            i += 1;
        }
        (Column { raw: kept }, pos)
    }

    /// Keeps only the elements on which `pred` answers true, in order.
    pub fn trim_by<F: Fn(&T) -> bool>(&mut self, pred: F)
        requires
            forall|i: int| 0 <= i < old(self)@.len() ==> call_requires(pred, (&#[trigger] old(self)@[i],)),
        ensures
            exists|pos: Seq<usize>| kept_by(pred, old(self)@, final(self)@, pos),
    {
        let (kept, pos) = self.filter(pred);
        self.raw = kept.raw;
    }
}

} // verus!
