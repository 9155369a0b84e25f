use vstd::prelude::*;

verus! {

/// Relies on `std::mem::replace`: it moves `src` into `*dest` and hands back the value that was
/// there before.
pub assume_specification<T>[ std::mem::replace::<T> ](dest: &mut T, src: T) -> (r: T)
    ensures
        r == *old(dest),
        *final(dest) == src,
;

/// A cell that keeps every value it has held. Replacing the value with [`Lineage::set`] retains
/// the previous one; reclamation ([`Lineage::clear`], [`Lineage::drain`], [`Lineage::set_mut`],
/// [`Lineage::into_inner`]) releases the retained values and keeps the current one.
///
/// Every operation that changes the cell takes it by exclusive access, so no reference handed
/// out by [`Lineage::get`] is alive when a value is replaced or released.
pub struct Lineage<T> {
    /// The oldest retained value; the current one while nothing has replaced it.
    inline: T,
    /// The values that replaced `inline`, oldest first.
    history: Vec<T>,
}

impl<T> View for Lineage<T> {
    type V = Seq<T>;

    /// Every retained value, oldest first. The last one is the current value.
    closed spec fn view(&self) -> Seq<T> {
        seq![self.inline].add(self.history@)
    }
}

impl<T> Lineage<T> {
    /// A cell always has a current value: the retained values are never empty.
    pub proof fn lemma_has_current(&self)
        ensures
            self@.len() >= 1,
    {
    }

    /// Creates a cell whose only value is `value`.
    pub fn new(value: T) -> (r: Self)
        ensures
            r@ == seq![value],
    {
        Lineage { inline: value, history: Vec::new() }
    }

    /// A reference to the current value.
    pub fn get(&self) -> (r: &T)
        ensures
            *r == self@.last(),
    {
        let n = self.history.len();
        if n == 0 {
            &self.inline
        } else {
            &self.history[n - 1]
        }
    }

    /// Replaces the current value with `value`. The previous value stays retained.
    pub fn set(&mut self, value: T)
        ensures
            final(self)@ == old(self)@.push(value),
    {
        self.history.push(value);
        assert(self@ =~= old(self)@.push(value));
    }

    /// A mutable reference to the current value.
    pub fn get_mut(&mut self) -> (r: &mut T)
        ensures
            *r == old(self)@.last(),
            final(self)@ == old(self)@.drop_last().push(*final(r)),
    {
        let n = self.history.len();
        if n == 0 {
            &mut self.inline
        } else {
            &mut self.history[n - 1]
        }
    }

    /// Releases every retained value and makes `value` the only one.
    pub fn set_mut(&mut self, value: T)
        ensures
            final(self)@ == seq![value],
    {
        self.history.clear();
        self.inline = value;
        assert(self@ =~= seq![value]);
    }

    /// Releases every retained value but the current one, which stays current.
    pub fn clear(&mut self)
        ensures
            final(self)@ == seq![old(self)@.last()],
            old(self)@.len() == 1 ==> *final(self) == *old(self),
    {
        if self.history.len() == 0 {
            return;
        }
        let _past = self.drain();
    }

    /// Takes every retained value but the current one out of the cell, newest first, so that
    /// the value the cell started with comes last. The current value stays current.
    pub fn drain(&mut self) -> (r: Vec<T>)
        ensures
            r@ == old(self)@.drop_last().reverse(),
            final(self)@ == seq![old(self)@.last()],
    {
        let mut out: Vec<T> = Vec::new();
        match self.history.pop() {
            None => {
                assert(old(self)@.drop_last() =~= Seq::<T>::empty());
            },
            Some(newest) => {
                let ghost past = old(self).history@;
                let n = self.history.len();
                let mut k: usize = n;
                while k > 0
                    invariant
                        k == self.history.len(),
                        k <= n,
                        self.inline == old(self).inline,
                        n + 1 == past.len(),
                        self.history@ == past.take(k as int),
                        out@.len() == n - k,
                        forall|j: int| 0 <= j < n - k ==> out@[j] == past[n - 1 - j],
                    decreases k,
                {
                    let v = self.history.pop().unwrap();
                    assert(self.history@ =~= past.take(k - 1));
                    out.push(v);
                    k = k - 1;
                }
                let oldest = std::mem::replace(&mut self.inline, newest);
                out.push(oldest);
                proof {
                    let earlier = old(self)@.drop_last();
                    assert(earlier =~= seq![oldest].add(past.take(n as int)));
                    assert forall|j: int| 0 <= j < earlier.len() implies #[trigger] out@[j]
                        == earlier.reverse()[j] by {
                        if j < n {
                            assert(earlier[n - j] == past[n - 1 - j]);
                        }
                    }
                    assert(out@ =~= earlier.reverse());
                }
                assert(self@ =~= seq![old(self)@.last()]);
            },
        }
        out
    }

    /// Consumes the cell and returns its current value. Every other retained value is released.
    pub fn into_inner(self) -> (r: T)
        ensures
            r == self@.last(),
    {
        let mut this = self;
        match this.history.pop() {
            None => this.inline,
            Some(newest) => newest,
        }
    }
}

impl<T: Clone> Clone for Lineage<T> {
    /// A cell whose only value is a clone of this cell's current value.
    fn clone(&self) -> (r: Self)
        ensures
            r@.len() == 1,
            cloned(self@.last(), r@[0]),
    {
        Lineage::new(self.get().clone())
    }
}

impl<T: Default> Default for Lineage<T> {
    /// A cell whose only value is `T`'s default.
    fn default() -> (r: Self)
        ensures
            r@.len() == 1,
    {
        Lineage::new(T::default())
    }
}

impl<T> From<T> for Lineage<T> {
    /// The same as [`Lineage::new`].
    fn from(value: T) -> (r: Self)
        ensures
            r@ == seq![value],
    {
        Lineage::new(value)
    }
}

impl<T> vstd::std_specs::convert::FromSpecImpl<T> for Lineage<T> {
    open spec fn obeys_from_spec() -> bool {
        false
    }

    open spec fn from_spec(v: T) -> Self {
        arbitrary()
    }
}

/// One replacement of a cell's value: through [`Lineage::set`], which retains the previous
/// values, or through [`Lineage::set_mut`], which releases them.
pub enum Update<T> {
    Retaining(T),
    Releasing(T),
}

impl<T> Update<T> {
    /// The value that becomes current.
    pub open spec fn value(self) -> T {
        match self {
            Update::Retaining(v) => v,
            Update::Releasing(v) => v,
        }
    }
}

/// The retained values, oldest first, after `u` is applied to a cell that retained `s`.
pub open spec fn apply<T>(s: Seq<T>, u: Update<T>) -> Seq<T> {
    match u {
        Update::Retaining(v) => s.push(v),
        Update::Releasing(v) => seq![v],
    }
}

/// The retained values, oldest first, after each update of `us` is applied in order to a cell
/// that retained `s`.
pub open spec fn after_updates<T>(s: Seq<T>, us: Seq<Update<T>>) -> Seq<T>
    decreases us.len(),
{
    if us.len() == 0 {
        s
    } else {
        apply(after_updates(s, us.drop_last()), us.last())
    }
}

/// The retained values, oldest first, after each of `values` is passed to [`Lineage::set`] in
/// order on a cell that retained `s`.
pub open spec fn after_sets<T>(s: Seq<T>, values: Seq<T>) -> Seq<T>
    decreases values.len(),
{
    if values.len() == 0 {
        s
    } else {
        after_sets(s, values.drop_last()).push(values.last())
    }
}

/// A run of `set` calls appends its values, in order, behind the values already retained.
pub proof fn lemma_after_sets_appends<T>(s: Seq<T>, values: Seq<T>)
    ensures
        after_sets(s, values) == s.add(values),
    decreases values.len(),
{
    if values.len() > 0 {
        lemma_after_sets_appends(s, values.drop_last());
        assert(s.add(values.drop_last()).push(values.last()) =~= s.add(values));
    }
}

/// Replacing never disturbs what was read before: for any run of `set` calls, the value that
/// `get` returned after the first `k` of them is still retained, unchanged and in its place,
/// once the whole run has been made.
pub proof fn lemma_read_after_replace<T>(s: Seq<T>, values: Seq<T>, k: int)
    requires
        s.len() >= 1,
        0 <= k <= values.len(),
    ensures
        after_sets(s, values)[s.len() - 1 + k] == after_sets(s, values.take(k)).last(),
{
    lemma_after_sets_appends(s, values);
    lemma_after_sets_appends(s, values.take(k));
}

/// After any run of `set` and `set_mut` calls on a cell created with `first`, the current value
/// is the one passed by the last call, or `first` if there was none.
pub proof fn lemma_current_is_latest<T>(first: T, us: Seq<Update<T>>)
    ensures
        after_updates(seq![first], us).len() >= 1,
        us.len() == 0 ==> after_updates(seq![first], us).last() == first,
        us.len() > 0 ==> after_updates(seq![first], us).last() == us.last().value(),
    decreases us.len(),
{
    if us.len() > 0 {
        lemma_current_is_latest(first, us.drop_last());
    }
}

/// On a cell created with `first` and then given each of `values` through `set`, draining
/// yields the values that the last one displaced, newest first and `first` last, and the
/// current value afterwards is the last one set.
pub proof fn lemma_drain_order<T>(first: T, values: Seq<T>)
    requires
        values.len() >= 1,
    ensures
        after_sets(seq![first], values).drop_last().reverse().len() == values.len(),
        forall|j: int|
            0 <= j < values.len() - 1 ==> after_sets(seq![first], values).drop_last().reverse()[j]
                == values[values.len() - 2 - j],
        after_sets(seq![first], values).drop_last().reverse()[values.len() - 1] == first,
        after_sets(seq![first], values).last() == values.last(),
{
    lemma_after_sets_appends(seq![first], values);
    let n = values.len();
    let d = seq![first].add(values).drop_last();
    assert(d.len() == n);
    assert forall|j: int| 0 <= j < n - 1 implies d.reverse()[j] == values[n - 2 - j] by {
        assert(d[n - 1 - j] == values[n - 2 - j]);
    }
}

} // verus!
