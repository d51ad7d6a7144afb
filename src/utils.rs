use vstd::prelude::*;

verus! {

/// The values of the `Ok` results, in order.
pub open spec fn oks<T, E>(rs: Seq<Result<T, E>>) -> Seq<T>
    decreases rs.len(),
{
    if rs.len() == 0 {
        Seq::empty()
    } else {
        match rs.last() {
            Ok(v) => oks(rs.drop_last()).push(v),
            Err(_) => oks(rs.drop_last()),
        }
    }
}

/// The values of the `Err` results, in order.
pub open spec fn errs<T, E>(rs: Seq<Result<T, E>>) -> Seq<E>
    decreases rs.len(),
{
    if rs.len() == 0 {
        Seq::empty()
    } else {
        match rs.last() {
            Ok(_) => errs(rs.drop_last()),
            Err(e) => errs(rs.drop_last()).push(e),
        }
    }
}

/// Applies `f` to each item and splits the results: the values of the `Ok`
/// results in one vector and those of the `Err` results in the other, each
/// in the order of the items.
pub fn partition_try<T, E, F>(items: Vec<T>, f: F) -> (r: (Vec<T>, Vec<E>))
    where
        F: Fn(T) -> Result<T, E>,
    requires
        forall|i: int| 0 <= i < items@.len() ==> f.requires((#[trigger] items@[i],)),
    ensures
        exists|rs: Seq<Result<T, E>>|
            {
                &&& rs.len() == items@.len()
                &&& forall|i: int| 0 <= i < rs.len() ==> f.ensures((items@[i],), #[trigger] rs[i])
                &&& r.0@ == oks(rs)
                &&& r.1@ == errs(rs)
            },
{
    let ghost all = items@;
    let ghost mut rs: Seq<Result<T, E>> = Seq::empty();
    let mut ok: Vec<T> = Vec::new();
    let mut err: Vec<E> = Vec::new();
    for item in it: items.into_iter()
        invariant
            it.seq() == all,
            forall|i: int| 0 <= i < all.len() ==> f.requires((#[trigger] all[i],)),
            rs.len() == it.index(),
            forall|i: int| 0 <= i < rs.len() ==> f.ensures((all[i],), #[trigger] rs[i]),
            ok@ == oks(rs),
            err@ == errs(rs),
    {
        let res = f(item);
        let ghost before = rs;
        proof {
            rs = rs.push(res);
            assert(rs.drop_last() =~= before);
        }
        match res {
            Ok(ok_item) => ok.push(ok_item),
            Err(err_item) => err.push(err_item),
        }
    }
    (ok, err)
}

} // verus!
