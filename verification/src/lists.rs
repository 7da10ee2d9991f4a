//! Lists taken apart and put together again, item by item.

use vstd::prelude::*;

verus! {

/// The same items in the opposite order.
pub fn reversed<T>(items: Vec<T>) -> (res: Vec<T>)
    ensures
        res@ == items@.reverse(),
{
    let mut items = items;
    let mut res: Vec<T> = Vec::new();
    let ghost all = items@;
    loop
        invariant
            items@ == all.take(items@.len() as int),
            items@.len() <= all.len(),
            res@ == all.skip(items@.len() as int).reverse(),
        ensures
            res@ == all.reverse(),
        decreases items@.len(),
    {
        let ghost n = items@.len() as int;
        match items.pop() {
            Some(item) => {
                res.push(item);
                proof {
                    assert(items@ =~= all.take(n - 1));
                    assert(res@ =~= all.skip(n - 1).reverse());
                }
            },
            None => {
                proof {
                    assert(all.skip(0) =~= all);
                }
                break ;
            },
        }
    }
    res
}

/// What `f` makes of each item, given `context`, in order.
pub fn map_in<T, U, C, F: Fn(T, &C) -> U>(items: Vec<T>, context: &C, f: F) -> (res: Vec<U>)
    requires
        forall|i: int| 0 <= i < items.len() ==> call_requires(f, (#[trigger] items[i], context)),
    ensures
        res.len() == items.len(),
        forall|i: int|
            0 <= i < items.len() ==> call_ensures(f, (items[i], context), #[trigger] res[i]),
{
    let ghost all = items@;
    let mut rest = reversed(items);
    let mut res: Vec<U> = Vec::new();
    proof {
        assert(rest@.reverse() =~= all);
        assert(all.skip(0) =~= all);
    }
    loop
        invariant
            forall|i: int| 0 <= i < all.len() ==> call_requires(f, (#[trigger] all[i], context)),
            rest@.len() <= all.len(),
            rest@.reverse() == all.skip(all.len() - rest@.len()),
            res@.len() == all.len() - rest@.len(),
            forall|i: int|
                0 <= i < res@.len() ==> call_ensures(f, (all[i], context), #[trigger] res@[i]),
        ensures
            res@.len() == all.len(),
            forall|i: int|
                0 <= i < all.len() ==> call_ensures(f, (all[i], context), #[trigger] res@[i]),
        decreases rest@.len(),
    {
        let ghost done = res@.len() as int;
        let ghost stack = rest@;
        match rest.pop() {
            Some(item) => {
                proof {
                    assert(stack.reverse()[0] == item);
                    assert(all[done] == item);
                    assert(rest@.reverse() =~= stack.reverse().drop_first());
                    assert(all.skip(done).drop_first() =~= all.skip(done + 1));
                }
                res.push(f(item, context));
            },
            None => {
                break ;
            },
        }
    }
    res
}

/// What `f` makes of each item and the name at its place, given `context`,
/// in order.
pub fn map_named_in<T, U, C, F: Fn(T, &String, &C) -> U>(
    items: Vec<T>,
    names: &Vec<String>,
    context: &C,
    f: F,
) -> (res: Vec<U>)
    requires
        names.len() == items.len(),
        forall|i: int|
            0 <= i < items.len() ==> call_requires(f, (#[trigger] items[i], &names[i], context)),
    ensures
        res.len() == items.len(),
        forall|i: int|
            0 <= i < items.len() ==> call_ensures(
                f,
                (items[i], &names[i], context),
                #[trigger] res[i],
            ),
{
    let ghost all = items@;
    let mut rest = reversed(items);
    let mut res: Vec<U> = Vec::new();
    proof {
        assert(rest@.reverse() =~= all);
        assert(all.skip(0) =~= all);
    }
    loop
        invariant
            names.len() == all.len(),
            forall|i: int|
                0 <= i < all.len() ==> call_requires(f, (#[trigger] all[i], &names[i], context)),
            rest@.len() <= all.len(),
            rest@.reverse() == all.skip(all.len() - rest@.len()),
            res@.len() == all.len() - rest@.len(),
            forall|i: int|
                0 <= i < res@.len() ==> call_ensures(
                    f,
                    (all[i], &names[i], context),
                    #[trigger] res@[i],
                ),
        ensures
            res@.len() == all.len(),
            forall|i: int|
                0 <= i < all.len() ==> call_ensures(
                    f,
                    (all[i], &names[i], context),
                    #[trigger] res@[i],
                ),
        decreases rest@.len(),
    {
        let ghost done = res@.len() as int;
        let ghost stack = rest@;
        let place = res.len();
        match rest.pop() {
            Some(item) => {
                proof {
                    assert(stack.reverse()[0] == item);
                    assert(all[done] == item);
                    assert(rest@.reverse() =~= stack.reverse().drop_first());
                    assert(all.skip(done).drop_first() =~= all.skip(done + 1));
                }
                res.push(f(item, &names[place], context));
            },
            None => {
                break ;
            },
        }
    }
    res
}

} // verus!
