//! Closing of composite values: every part is closed, whatever the others
//! gave, and every failure is reported.
use vstd::prelude::*;

use crate::contract::Close;

verus! {

/// One optional error per part, in the parts' order.
pub open spec fn errors_of<E>(rs: Seq<Result<(), E>>) -> Seq<Option<E>> {
    rs.map_values(|x: Result<(), E>| x.err())
}

/// Holds when some part failed.
pub open spec fn some_failed<E>(rs: Seq<Result<(), E>>) -> bool {
    exists|i: int| 0 <= i < rs.len() && (#[trigger] rs[i]) is Err
}

/// Holds when `r` reports the part outcomes `rs`: success when every part
/// succeeded, else the list of one optional error per part.
pub open spec fn sequence_outcome<E>(rs: Seq<Result<(), E>>, r: Result<(), Vec<Option<E>>>) -> bool {
    match r {
        Ok(()) => !some_failed(rs),
        Err(es) => some_failed(rs) && es@ == errors_of(rs),
    }
}

/// Holds when `rs` are outcomes that closing each of `items` may have, part by
/// part.
pub open spec fn each_closed<T: Close>(items: Seq<T>, rs: Seq<Result<(), T::Error>>) -> bool {
    &&& rs.len() == items.len()
    &&& forall|i: int| 0 <= i < items.len() ==> T::close_outcome(#[trigger] items[i], rs[i])
}

impl<T0: Close> Close for (T0,) {
    type Error = T0::Error;

    open spec fn close_outcome(self, r: Result<(), T0::Error>) -> bool {
        T0::close_outcome(self.0, r)
    }

    /// Closes the single part.
    fn close(self) -> (r: Result<(), T0::Error>) {
        self.0.close()
    }
}

/// What closing two parts with outcomes `r0` and `r1` reports.
pub open spec fn pair_report<E0, E1>(r0: Result<(), E0>, r1: Result<(), E1>) -> Result<
    (),
    (Option<E0>, Option<E1>),
> {
    if r0 is Ok && r1 is Ok {
        Ok(())
    } else {
        Err((r0.err(), r1.err()))
    }
}

impl<T0: Close, T1: Close> Close for (T0, T1) {
    type Error = (Option<T0::Error>, Option<T1::Error>);

    open spec fn close_outcome(self, r: Result<(), Self::Error>) -> bool {
        exists|r0: Result<(), T0::Error>, r1: Result<(), T1::Error>|
            #![trigger T0::close_outcome(self.0, r0), T1::close_outcome(self.1, r1)]
            T0::close_outcome(self.0, r0) && T1::close_outcome(self.1, r1) && r == pair_report(r0, r1)
    }

    /// Closes both parts, and fails when either failed.
    fn close(self) -> (r: Result<(), Self::Error>) {
        let r0 = self.0.close();
        let r1 = self.1.close();
        let ghost (g0, g1) = (r0, r1);
        let result = (r0.err(), r1.err());
        let r = if result.0.is_none() && result.1.is_none() {
            Ok(())
        } else {
            Err(result)
        };
        assert(r == pair_report(g0, g1));
        r
    }
}

/// What closing three parts with outcomes `r0`, `r1` and `r2` reports.
pub open spec fn triple_report<E0, E1, E2>(
    r0: Result<(), E0>,
    r1: Result<(), E1>,
    r2: Result<(), E2>,
) -> Result<(), (Option<E0>, Option<E1>, Option<E2>)> {
    if r0 is Ok && r1 is Ok && r2 is Ok {
        Ok(())
    } else {
        Err((r0.err(), r1.err(), r2.err()))
    }
}

impl<T0: Close, T1: Close, T2: Close> Close for (T0, T1, T2) {
    type Error = (Option<T0::Error>, Option<T1::Error>, Option<T2::Error>);

    open spec fn close_outcome(self, r: Result<(), Self::Error>) -> bool {
        exists|r0: Result<(), T0::Error>, r1: Result<(), T1::Error>, r2: Result<(), T2::Error>|
            #![trigger T0::close_outcome(self.0, r0), T1::close_outcome(self.1, r1), T2::close_outcome(self.2, r2)]
            T0::close_outcome(self.0, r0) && T1::close_outcome(self.1, r1) && T2::close_outcome(
                self.2,
                r2,
            ) && r == triple_report(r0, r1, r2)
    }

    /// Closes all three parts, and fails when any of them failed.
    fn close(self) -> (r: Result<(), Self::Error>) {
        let r0 = self.0.close();
        let r1 = self.1.close();
        let r2 = self.2.close();
        let ghost (g0, g1, g2) = (r0, r1, r2);
        let result = (r0.err(), r1.err(), r2.err());
        let r = if result.0.is_none() && result.1.is_none() && result.2.is_none() {
            Ok(())
        } else {
            Err(result)
        };
        assert(r == triple_report(g0, g1, g2));
        r
    }
}

/// What closing four parts with outcomes `r0` to `r3` reports.
pub open spec fn quad_report<E0, E1, E2, E3>(
    r0: Result<(), E0>,
    r1: Result<(), E1>,
    r2: Result<(), E2>,
    r3: Result<(), E3>,
) -> Result<(), (Option<E0>, Option<E1>, Option<E2>, Option<E3>)> {
    if r0 is Ok && r1 is Ok && r2 is Ok && r3 is Ok {
        Ok(())
    } else {
        Err((r0.err(), r1.err(), r2.err(), r3.err()))
    }
}

impl<T0: Close, T1: Close, T2: Close, T3: Close> Close for (T0, T1, T2, T3) {
    type Error = (Option<T0::Error>, Option<T1::Error>, Option<T2::Error>, Option<T3::Error>);

    open spec fn close_outcome(self, r: Result<(), Self::Error>) -> bool {
        exists|
            r0: Result<(), T0::Error>,
            r1: Result<(), T1::Error>,
            r2: Result<(), T2::Error>,
            r3: Result<(), T3::Error>,
        |
            #![trigger T0::close_outcome(self.0, r0), T1::close_outcome(self.1, r1), T2::close_outcome(self.2, r2), T3::close_outcome(self.3, r3)]
            T0::close_outcome(self.0, r0) && T1::close_outcome(self.1, r1) && T2::close_outcome(
                self.2,
                r2,
            ) && T3::close_outcome(self.3, r3) && r == quad_report(r0, r1, r2, r3)
    }

    /// Closes all four parts, and fails when any of them failed.
    fn close(self) -> (r: Result<(), Self::Error>) {
        let r0 = self.0.close();
        let r1 = self.1.close();
        let r2 = self.2.close();
        let r3 = self.3.close();
        let ghost (g0, g1, g2, g3) = (r0, r1, r2, r3);
        let result = (r0.err(), r1.err(), r2.err(), r3.err());
        let r = if result.0.is_none() && result.1.is_none() && result.2.is_none()
            && result.3.is_none() {
            Ok(())
        } else {
            Err(result)
        };
        assert(r == quad_report(g0, g1, g2, g3));
        r
    }
}

impl<T: Close> Close for Vec<T> {
    type Error = Vec<Option<T::Error>>;

    open spec fn close_outcome(self, r: Result<(), Vec<Option<T::Error>>>) -> bool {
        exists|rs: Seq<Result<(), T::Error>>| each_closed(self@, rs) && sequence_outcome(rs, r)
    }

    /// Closes every item, first to last, and fails when any of them failed.
    fn close(self) -> (r: Result<(), Vec<Option<T::Error>>>) {
        let ghost all = self@;
        let mut items = self;
        // Items leave a vector from the back: reverse them first, so that they
        // are closed first to last.
        let mut reversed: Vec<T> = Vec::new();
        while items.len() > 0
            invariant
                items@.len() + reversed@.len() == all.len(),
                items@ == all.take(items@.len() as int),
                forall|i: int|
                    0 <= i < reversed@.len() ==> #[trigger] reversed@[i] == all[all.len() - 1 - i],
            decreases items@.len(),
        {
            let item = items.pop().unwrap();
            reversed.push(item);
        }
        let mut errors: Vec<Option<T::Error>> = Vec::new();
        let mut all_ok = true;
        let ghost mut rs: Seq<Result<(), T::Error>> = Seq::empty();
        while reversed.len() > 0
            invariant
                errors@.len() + reversed@.len() == all.len(),
                forall|i: int|
                    0 <= i < reversed@.len() ==> #[trigger] reversed@[i] == all[all.len() - 1 - i],
                each_closed(all.take(errors@.len() as int), rs),
                errors@ == errors_of(rs),
                all_ok == !some_failed(rs),
            decreases reversed@.len(),
        {
            let item = reversed.pop().unwrap();
            let res = item.close();
            let ghost prev = rs;
            proof {
                let k = errors@.len() as int;
                assert(item == all[k]);
                rs = prev.push(res);
                assert(all.take(k + 1) =~= all.take(k).push(item));
                assert forall|i: int| 0 <= i < prev.len() implies rs[i] == prev[i] by {}
                if some_failed(prev) {
                    let j = choose|j: int| 0 <= j < prev.len() && (#[trigger] prev[j]) is Err;
                    assert(rs[j] is Err);
                }
                if res is Err {
                    assert(rs[k] is Err);
                }
            }
            if res.is_err() {
                all_ok = false;
            }
            errors.push(res.err());
            proof {
                assert(errors@ =~= errors_of(rs));
            }
        }
        proof {
            assert(all.take(all.len() as int) =~= all);
        }
        let r = if all_ok {
            Ok(())
        } else {
            Err(errors)
        };
        assert(each_closed(all, rs) && sequence_outcome(rs, r));
        r
    }
}

impl<T: Close> Close for Box<T> {
    type Error = T::Error;

    open spec fn close_outcome(self, r: Result<(), T::Error>) -> bool {
        T::close_outcome(*self, r)
    }

    /// Closes the boxed value.
    fn close(self) -> (r: Result<(), T::Error>) {
        (*self).close()
    }
}

impl<T: Close> Close for Option<T> {
    type Error = T::Error;

    open spec fn close_outcome(self, r: Result<(), T::Error>) -> bool {
        match self {
            Some(v) => T::close_outcome(v, r),
            None => r is Ok,
        }
    }

    /// Closes the value if there is one; with none there is nothing to fail.
    fn close(self) -> (r: Result<(), T::Error>) {
        match self {
            Some(v) => v.close(),
            None => Ok(()),
        }
    }
}

/// Closing a sequence closes every item, and reports failure exactly when
/// some item failed; a failure then holds, at each index, the error of the
/// item there, and no error where the item succeeded.
pub proof fn lemma_sequence_close_reports<T: Close>(
    items: Vec<T>,
    r: Result<(), Vec<Option<T::Error>>>,
)
    requires
        call_ensures(<Vec<T> as Close>::close, (items,), r),
    ensures
        exists|rs: Seq<Result<(), T::Error>>|
            {
                &&& #[trigger] each_closed(items@, rs)
                &&& r is Err <==> some_failed(rs)
                &&& r is Err ==> {
                    &&& r->Err_0@.len() == items@.len()
                    &&& forall|i: int|
                        0 <= i < items@.len() ==> (#[trigger] r->Err_0@[i] is Some <==> rs[i] is Err)
                            && (rs[i] is Err ==> r->Err_0@[i] == Some(rs[i]->Err_0))
                }
            },
{
    let rs = choose|rs: Seq<Result<(), T::Error>>| each_closed(items@, rs) && sequence_outcome(rs, r);
    assert(each_closed(items@, rs));
    if r is Err {
        assert forall|i: int| 0 <= i < items@.len() implies (#[trigger] r->Err_0@[i] is Some <==> rs[i] is Err)
            && (rs[i] is Err ==> r->Err_0@[i] == Some(rs[i]->Err_0)) by {
            assert(r->Err_0@[i] == errors_of(rs)[i]);
        }
    }
}

/// Closing no value succeeds; closing some value may end exactly as closing
/// that value itself may.
pub proof fn lemma_optional_close<T: Close>(x: T)
    ensures
        forall|r: Result<(), T::Error>| #[trigger] Option::<T>::None.close_outcome(r) <==> r is Ok,
        forall|r: Result<(), T::Error>| #[trigger] Some(x).close_outcome(r) <==> x.close_outcome(r),
{
}

/// Closing a boxed value may end exactly as closing the value itself may.
pub proof fn lemma_boxed_close<T: Close>(b: Box<T>)
    ensures
        forall|r: Result<(), T::Error>| #[trigger] b.close_outcome(r) <==> (*b).close_outcome(r),
{
}

} // verus!
