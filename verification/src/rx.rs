//! Receiving ends of signal pipelines.
use vstd::prelude::*;

use crate::rtsm::SignalValue;
use crate::signal_error::{ErrorView, SignalError, received, result_view};

verus! {

/// What one call of `recv` does to a receiver whose remaining outcomes are known:
/// it hands out the first outcome and drops it, or reports the end and stays ended.
pub open spec fn recv_law<T>(
    before: Seq<Result<T, ErrorView>>,
    r: Result<Option<T>, SignalError>,
    after: Seq<Result<T, ErrorView>>,
) -> bool {
    if before.len() == 0 {
        r == Ok::<Option<T>, SignalError>(None) && after == before
    } else {
        result_view(r) == received(before[0]) && after == before.drop_first()
    }
}

/// The values of a finite stream up to its end, or its first error.
pub open spec fn collected<T>(s: Seq<Result<T, ErrorView>>) -> Result<Seq<T>, ErrorView>
    decreases s.len(),
{
    if s.len() == 0 {
        Ok(seq![])
    } else {
        match s[0] {
            Err(e) => Err(e),
            Ok(x) => match collected(s.drop_first()) {
                Ok(rest) => Ok(seq![x] + rest),
                Err(e) => Err(e),
            },
        }
    }
}

/// `acc` followed by what `collected` gives for the rest of a stream.
pub open spec fn after_prefix<T>(acc: Seq<T>, rest: Result<Seq<T>, ErrorView>) -> Result<
    Seq<T>,
    ErrorView,
> {
    match rest {
        Ok(r) => Ok(acc + r),
        Err(e) => Err(e),
    }
}

/// The prefix of a stream before its first error.
pub open spec fn fused<T>(s: Seq<Result<T, ErrorView>>) -> Seq<Result<T, ErrorView>>
    decreases s.len(),
{
    if s.len() == 0 {
        s
    } else if s[0] is Err {
        seq![]
    } else {
        seq![s[0]] + fused(s.drop_first())
    }
}

/// A source of values.
///
/// A receiver whose `is_finite` holds knows the outcomes it still has to give:
/// `outcomes`, in order, after which it reports the end (`Ok(None)`) for good.
pub trait Rx: Sized {
    type Item;

    /// Validity of the receiver's state.
    spec fn inv(&self) -> bool;

    /// Whether the remaining outcomes are a known finite sequence.
    spec fn is_finite(&self) -> bool;

    /// The outcomes still to come, when `is_finite` holds.
    spec fn outcomes(&self) -> Seq<Result<Self::Item, ErrorView>>;

    /// Blocking receive of one value.
    fn recv(&mut self) -> (r: Result<Option<Self::Item>, SignalError>)
        requires
            old(self).inv(),
        ensures
            final(self).inv(),
            old(self).is_finite() ==> final(self).is_finite() && recv_law(
                old(self).outcomes(),
                r,
                final(self).outcomes(),
            ),
    ;

    /// Stop after the first error, reporting the end from then on.
    fn fuse(self) -> (r: FuseRx<Self>)
        ensures
            r.inner() == self,
            !r.has_failed(),
    {
        FuseRx::new(self)
    }

    /// Receive every value up to the end; the first error ends the collection.
    fn collect_vec(self) -> (r: Result<Vec<Self::Item>, SignalError>)
        requires
            self.inv(),
            self.is_finite(),
        ensures
            match r {
                Ok(v) => collected(self.outcomes()) == Ok::<Seq<Self::Item>, ErrorView>(v@),
                Err(e) => collected(self.outcomes()) == Err::<Seq<Self::Item>, ErrorView>(e@),
            },
    {
        let ghost all = self.outcomes();
        let mut rx = self;
        let mut acc: Vec<Self::Item> = Vec::new();
        loop
            invariant
                rx.inv(),
                rx.is_finite(),
                all == self.outcomes(),
                collected(all) == after_prefix(acc@, collected(rx.outcomes())),
            decreases rx.outcomes().len(),
        {
            let ghost before = rx.outcomes();
            match rx.recv() {
                Ok(Some(x)) => {
                    proof {
                        assert(before[0] == Ok::<Self::Item, ErrorView>(x));
                        assert(acc@.push(x) =~= acc@ + seq![x]);
                        match collected(before.drop_first()) {
                            Ok(rest) => {
                                assert(acc@ + (seq![x] + rest) =~= acc@.push(x) + rest);
                            },
                            Err(_) => {},
                        }
                    }
                    acc.push(x);
                },
                Ok(None) => {
                    proof {
                        assert(acc@ + seq![] =~= acc@);
                    }
                    return Ok(acc);
                },
                Err(e) => {
                    return Err(e);
                },
            }
        }
    }
}

/// Repeats the same string forever.
pub struct ConstStringRx {
    string: String,
}

impl ConstStringRx {
    /// The string this receiver repeats.
    pub closed spec fn text(&self) -> Seq<char> {
        self.string@
    }

    pub fn new(s: String) -> (r: Self)
        ensures
            r.text() == s@,
    {
        ConstStringRx { string: s }
    }
}

impl Rx for ConstStringRx {
    type Item = String;

    open spec fn inv(&self) -> bool {
        true
    }

    open spec fn is_finite(&self) -> bool {
        false
    }

    open spec fn outcomes(&self) -> Seq<Result<String, ErrorView>> {
        seq![]
    }

    fn recv(&mut self) -> (r: Result<Option<String>, SignalError>)
        ensures
            final(self).text() == old(self).text(),
            r matches Ok(Some(s)) && s@ == old(self).text(),
    {
        Ok(Some(self.string.clone()))
    }
}

/// Counts up from zero, one value per call; the count wraps at the end of `isize`.
pub struct CounterRx {
    i: isize,
}

impl CounterRx {
    /// The value that the next `recv` gives.
    pub closed spec fn next_value(&self) -> isize {
        self.i
    }

    pub fn new() -> (r: Self)
        ensures
            r.next_value() == 0,
    {
        CounterRx { i: 0 }
    }
}

impl Rx for CounterRx {
    type Item = isize;

    open spec fn inv(&self) -> bool {
        true
    }

    open spec fn is_finite(&self) -> bool {
        false
    }

    open spec fn outcomes(&self) -> Seq<Result<isize, ErrorView>> {
        seq![]
    }

    fn recv(&mut self) -> (r: Result<Option<isize>, SignalError>)
        ensures
            r == Ok::<Option<isize>, SignalError>(Some(old(self).next_value())),
            final(self).next_value() == old(self).next_value().wrapping_add(1),
    {
        let i = self.i;
        self.i = self.i.wrapping_add(1);
        Ok(Some(i))
    }
}

/// Drops values equal to the value before them.
pub struct DeduplicateRx<R: Rx> {
    inner: R,
    last: Option<Option<R::Item>>,
}

impl<R: Rx> DeduplicateRx<R> {
    pub closed spec fn inner(&self) -> R {
        self.inner
    }

    /// The last outcome handed out: `None` before the first call.
    pub closed spec fn last_seen(&self) -> Option<Option<R::Item>> {
        self.last
    }

    pub fn new(inner: R) -> (r: Self)
        ensures
            r.inner() == inner,
            r.last_seen() is None,
    {
        DeduplicateRx { inner, last: None }
    }
}

/// What a deduplicating receiver hands out: each value of its source that differs from
/// the last value handed out, and every error.
pub open spec fn dedup_run<T>(last: Option<Option<T>>, input: Seq<Result<T, ErrorView>>) -> Seq<
    Result<T, ErrorView>,
>
    decreases input.len(),
{
    if input.len() == 0 {
        seq![]
    } else {
        match input[0] {
            Err(e) => seq![Err(e)] + dedup_run(last, input.drop_first()),
            Ok(x) => if last == Some(Some(x)) {
                dedup_run(last, input.drop_first())
            } else {
                seq![Ok(x)] + dedup_run(Some(Some(x)), input.drop_first())
            },
        }
    }
}

/// No value is followed right away by an equal value.
pub open spec fn no_equal_neighbours<T>(s: Seq<Result<T, ErrorView>>) -> bool {
    forall|i: int| 0 <= i < s.len() - 1 && (#[trigger] s[i]) is Ok ==> s[i + 1] != s[i]
}

/// Law: what a deduplicating receiver hands out has no value followed right away by an
/// equal value, and its first value differs from the last one handed out before.
pub proof fn lemma_dedup_no_equal_neighbours<T>(last: Option<Option<T>>, input: Seq<Result<T, ErrorView>>)
    ensures
        no_equal_neighbours(dedup_run(last, input)),
        dedup_run(last, input).len() > 0 ==> (dedup_run(last, input)[0] matches Ok(x) ==> last != Some(Some(x))),
    decreases input.len(),
{
    if input.len() > 0 {
        let rest_input = input.drop_first();
        match input[0] {
            Err(e) => {
                lemma_dedup_no_equal_neighbours(last, rest_input);
                let rest = dedup_run(last, rest_input);
                let out = seq![Err::<T, ErrorView>(e)] + rest;
                assert forall|i: int| 0 <= i < out.len() - 1 && (#[trigger] out[i]) is Ok implies out[i + 1] != out[i] by {
                    assert(i >= 1);
                    assert(out[i] == rest[i - 1]);
                    assert(out[i + 1] == rest[i]);
                }
            },
            Ok(x) => {
                if last == Some(Some(x)) {
                    lemma_dedup_no_equal_neighbours(last, rest_input);
                } else {
                    let next: Option<Option<T>> = Some(Some(x));
                    lemma_dedup_no_equal_neighbours(next, rest_input);
                    let rest = dedup_run(next, rest_input);
                    let out = seq![Ok::<T, ErrorView>(x)] + rest;
                    assert forall|i: int| 0 <= i < out.len() - 1 && (#[trigger] out[i]) is Ok implies out[i + 1] != out[i] by {
                        if i == 0 {
                            assert(out[1] == rest[0]);
                        } else {
                            assert(out[i] == rest[i - 1]);
                            assert(out[i + 1] == rest[i]);
                        }
                    }
                }
            },
        }
    }
}

impl<R: Rx> Rx for DeduplicateRx<R> where R::Item: SignalValue {
    type Item = R::Item;

    closed spec fn inv(&self) -> bool {
        self.inner.inv() && self.inner.is_finite()
    }

    open spec fn is_finite(&self) -> bool {
        true
    }

    open spec fn outcomes(&self) -> Seq<Result<R::Item, ErrorView>> {
        dedup_run(self.last_seen(), self.inner().outcomes())
    }

    /// A value equal to the last one handed out is skipped. The end of the source is
    /// reported each time it is reached, also right after an earlier end.
    fn recv(&mut self) -> (r: Result<Option<R::Item>, SignalError>) {
        let ghost target = self.outcomes();
        match self.last {
            None => {
                let ghost in0 = self.inner.outcomes();
                let new = match self.inner.recv() {
                    Ok(new) => new,
                    Err(e) => {
                        proof {
                            assert(target.drop_first() =~= self.outcomes());
                        }
                        return Err(e);
                    },
                };
                proof {
                    if in0.len() > 0 {
                        assert(target.drop_first() =~= dedup_run(
                            Some(new),
                            self.inner.outcomes(),
                        ));
                    }
                }
                self.last = Some(new);
                Ok(new)
            },
            Some(last) => {
                loop
                    invariant
                        self.inner.inv(),
                        self.inner.is_finite(),
                        self.last == Some(last),
                        self.outcomes() == target,
                        target == old(self).outcomes(),
                    decreases self.inner.outcomes().len(),
                {
                    let ghost in0 = self.inner.outcomes();
                    let n = match self.inner.recv() {
                        Ok(n) => n,
                        Err(e) => {
                            proof {
                                assert(target.drop_first() =~= self.outcomes());
                            }
                            return Err(e);
                        },
                    };
                    match n {
                        None => {
                            self.last = Some(None);
                            return Ok(None);
                        },
                        Some(x) => {
                            let repeated = match last {
                                Some(l) => x.same_as(&l),
                                None => false,
                            };
                            proof {
                                match last {
                                    Some(l) => {
                                        R::Item::lemma_value(x, l);
                                    },
                                    None => {},
                                }
                            }
                            if !repeated {
                                proof {
                                    assert(target.drop_first() =~= dedup_run(
                                        Some(Some(x)),
                                        self.inner.outcomes(),
                                    ));
                                }
                                self.last = Some(Some(x));
                                return Ok(Some(x));
                            }
                        },
                    }
                }
            },
        }
    }
}

/// Stops polling the inner receiver after its first error, reporting the end from then on.
pub struct FuseRx<R> {
    inner: R,
    error: bool,
}

impl<R> FuseRx<R> {
    pub closed spec fn inner(&self) -> R {
        self.inner
    }

    /// Whether the inner receiver has failed.
    pub closed spec fn has_failed(&self) -> bool {
        self.error
    }

    pub fn new(inner: R) -> (r: Self)
        ensures
            r.inner() == inner,
            !r.has_failed(),
    {
        FuseRx { inner, error: false }
    }
}

impl<R: Rx> Rx for FuseRx<R> {
    type Item = R::Item;

    open spec fn inv(&self) -> bool {
        self.inner().inv()
    }

    open spec fn is_finite(&self) -> bool {
        self.has_failed() || self.inner().is_finite()
    }

    open spec fn outcomes(&self) -> Seq<Result<R::Item, ErrorView>> {
        if self.has_failed() {
            seq![]
        } else {
            fused(self.inner().outcomes())
        }
    }

    /// After a failure of the inner receiver, the end, without asking it again.
    fn recv(&mut self) -> (r: Result<Option<R::Item>, SignalError>)
        ensures
            r is Ok,
            old(self).has_failed() ==> r == Ok::<Option<R::Item>, SignalError>(None) && final(self).has_failed()
                && final(self).inner() == old(self).inner(),
            !old(self).has_failed() && final(self).has_failed() ==> r == Ok::<Option<R::Item>, SignalError>(None),
            r matches Ok(Some(_)) ==> !final(self).has_failed(),
    {
        if self.error {
            Ok(None)
        } else {
            let ghost before = self.inner.outcomes();
            match self.inner.recv() {
                Ok(item) => {
                    proof {
                        if before.len() > 0 && old(self).inner().is_finite() {
                            assert(!(before[0] is Err));
                            assert(fused(before) == seq![before[0]] + fused(before.drop_first()));
                            assert((seq![before[0]] + fused(before.drop_first())).drop_first()
                                =~= fused(before.drop_first()));
                        }
                    }
                    Ok(item)
                },
                Err(_) => {
                    self.error = true;
                    Ok(None)
                },
            }
        }
    }
}

/// Applies a function to each value of the inner receiver.
pub struct MapRx<R, F> {
    inner: R,
    f: F,
}

/// What `f` gives for `x`, for a function whose result depends on its argument alone.
pub open spec fn applied<T, U, F: Fn(T) -> U>(f: F, x: T) -> U {
    choose|u: U| call_ensures(f, (x,), u)
}

/// `f` can be called on every value and gives one result for each.
pub open spec fn is_total_function<T, U, F: Fn(T) -> U>(f: F) -> bool {
    &&& forall|x: T| call_requires(f, (x,))
    &&& forall|x: T, u1: U, u2: U|
        call_ensures(f, (x,), u1) && call_ensures(f, (x,), u2) ==> u1 == u2
}

/// One outcome with its value mapped by `f`.
pub open spec fn map_outcome<T, U, F: Fn(T) -> U>(f: F, e: Result<T, ErrorView>) -> Result<
    U,
    ErrorView,
> {
    match e {
        Ok(x) => Ok(applied(f, x)),
        Err(err) => Err(err),
    }
}

impl<R, F> MapRx<R, F> {
    pub closed spec fn inner(&self) -> R {
        self.inner
    }

    pub closed spec fn function(&self) -> F {
        self.f
    }

}

impl<R: Rx, U, F: Fn(R::Item) -> U> MapRx<R, F> {
    pub fn new(inner: R, f: F) -> (r: Self)
        requires
            inner.inv(),
            is_total_function(f),
        ensures
            r.inner() == inner,
            r.function() == f,
            r.inv(),
    {
        MapRx { inner, f }
    }
}

impl<R: Rx, U, F: Fn(R::Item) -> U> Rx for MapRx<R, F> {
    type Item = U;

    closed spec fn inv(&self) -> bool {
        self.inner.inv() && is_total_function(self.f)
    }

    open spec fn is_finite(&self) -> bool {
        self.inner().is_finite()
    }

    open spec fn outcomes(&self) -> Seq<Result<U, ErrorView>> {
        Seq::new(
            self.inner().outcomes().len(),
            |i: int| map_outcome(self.function(), self.inner().outcomes()[i]),
        )
    }

    fn recv(&mut self) -> (r: Result<Option<U>, SignalError>) {
        let ghost before = self.inner.outcomes();
        let ghost fin = self.inner.is_finite();
        match self.inner.recv() {
            Ok(Some(x)) => {
                assert(call_requires(self.f, (x,)));
                let u = (self.f)(x);
                proof {
                    if fin && before.len() > 0 {
                        assert(call_ensures(self.f, (x,), u));
                        assert(applied(self.f, x) == u);
                        assert(self.outcomes() =~= old(self).outcomes().drop_first());
                    }
                }
                Ok(Some(u))
            },
            Ok(None) => {
                proof {
                    if fin {
                        assert(self.outcomes() =~= old(self).outcomes());
                    }
                }
                Ok(None)
            },
            Err(e) => {
                proof {
                    if fin && before.len() > 0 {
                        assert(self.outcomes() =~= old(self).outcomes().drop_first());
                    }
                }
                Err(e)
            },
        }
    }
}

/// Walks a receiver one outcome at a time, the way an iterator is walked.
pub struct RxIteratorAdapter<R> {
    inner: R,
}

impl<R: Rx> RxIteratorAdapter<R> {
    pub closed spec fn inner(&self) -> R {
        self.inner
    }

    pub fn new(inner: R) -> (r: Self)
        ensures
            r.inner() == inner,
    {
        RxIteratorAdapter { inner }
    }

    /// The next outcome, or `None` at the end.
    pub fn next(&mut self) -> (r: Option<Result<R::Item, SignalError>>)
        requires
            old(self).inner().inv(),
        ensures
            final(self).inner().inv(),
            old(self).inner().is_finite() ==> final(self).inner().is_finite() && if old(self).inner().outcomes().len() == 0 {
                r is None && final(self).inner().outcomes() == old(self).inner().outcomes()
            } else {
                r matches Some(x) && result_view(x) == old(self).inner().outcomes()[0]
                    && final(self).inner().outcomes()
                    == old(self).inner().outcomes().drop_first()
            },
    {
        match self.inner.recv() {
            Err(e) => Some(Err(e)),
            Ok(Some(item)) => Some(Ok(item)),
            Ok(None) => None,
        }
    }
}

/// Hands out the values of a vector, then ends.
pub struct IteratorRx<T> {
    /// The values still to come, last one first.
    rest: Vec<T>,
}

impl<T> IteratorRx<T> {
    /// The values still to come, in order.
    pub closed spec fn remaining(&self) -> Seq<T> {
        self.rest@.reverse()
    }

    pub fn new(items: Vec<T>) -> (r: Self)
        ensures
            r.remaining() == items@,
    {
        let ghost all = items@;
        let n = items.len();
        let mut items = items;
        let mut rest: Vec<T> = Vec::new();
        while items.len() > 0
            invariant
                items.len() + rest.len() == n,
                n == all.len(),
                items@ == all.take(items.len() as int),
                rest@ == all.skip(items.len() as int).reverse(),
            decreases items.len(),
        {
            let ghost k = items.len() as int;
            let x = items.pop().unwrap();
            proof {
                assert(items@ =~= all.take(k - 1));
                assert(all.skip(k - 1) =~= seq![x] + all.skip(k));
                assert((seq![x] + all.skip(k)).reverse() =~= all.skip(k).reverse().push(x));
            }
            rest.push(x);
        }
        proof {
            assert(all.skip(0) =~= all);
            assert(rest@.reverse() =~= all.reverse().reverse());
        }
        IteratorRx { rest }
    }
}

impl<T> Rx for IteratorRx<T> {
    type Item = T;

    open spec fn inv(&self) -> bool {
        true
    }

    open spec fn is_finite(&self) -> bool {
        true
    }

    open spec fn outcomes(&self) -> Seq<Result<T, ErrorView>> {
        self.remaining().map_values(|x: T| Ok::<T, ErrorView>(x))
    }

    fn recv(&mut self) -> (r: Result<Option<T>, SignalError>) {
        let ghost before = self.rest@;
        match self.rest.pop() {
            Some(x) => {
                proof {
                    assert(before =~= self.rest@.push(x));
                    assert(before.reverse() =~= seq![x] + self.rest@.reverse());
                    assert(self.outcomes() =~= old(self).outcomes().drop_first());
                }
                Ok(Some(x))
            },
            None => Ok(None),
        }
    }
}

} // verus!
