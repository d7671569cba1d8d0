//! A history window: a fixed number of values, the oldest first.

use vstd::prelude::*;

verus! {

/// `window` with its oldest value dropped and `value` appended as the newest. A window of no
/// values stays as it is.
pub open spec fn shifted<T>(window: Seq<T>, value: T) -> Seq<T> {
    if window.len() == 0 {
        window
    } else {
        window.drop_first().push(value)
    }
}

/// `window` after all of `values` were appended to it, the first of them first.
pub open spec fn shifted_by_all<T>(window: Seq<T>, values: Seq<T>) -> Seq<T>
    decreases values.len(),
{
    if values.len() == 0 {
        window
    } else {
        shifted(shifted_by_all(window, values.drop_last()), values.last())
    }
}

/// Drops the oldest value of `slice` and appends `new_val` as the newest.
pub fn shift_append<T: Copy>(slice: &mut [T], new_val: T)
    ensures
        final(slice)@ == shifted(old(slice)@, new_val),
{
    if slice.is_empty() {
        return;
    }
    let last: usize = slice.len() - 1;
    let mut i: usize = 0;
    while i < last
        invariant
            i <= last,
            last == slice@.len() - 1,
            slice@.len() == old(slice)@.len(),
            forall|j: int| 0 <= j < i ==> slice@[j] == old(slice)@[j + 1],
            forall|j: int| i <= j <= last ==> slice@[j] == old(slice)@[j],
        decreases last - i,
    {
        slice[i] = slice[i + 1];
        i += 1;
    }
    slice[last] = new_val;
    assert(slice@ =~= old(slice)@.drop_first().push(new_val));
}

/// A window keeps its size, and after any number of appends it holds the newest values of
/// everything that it was ever given: as many as fit.
pub proof fn window_holds_the_newest<T>(window: Seq<T>, values: Seq<T>)
    ensures
        shifted_by_all(window, values).len() == window.len(),
        shifted_by_all(window, values) == (window + values).skip(values.len() as int),
    decreases values.len(),
{
    if values.len() == 0 {
        assert((window + values).skip(0) =~= window);
    } else {
        let before = values.drop_last();
        window_holds_the_newest(window, before);
        let w = shifted_by_all(window, before);
        if window.len() == 0 {
            assert((window + values).skip(values.len() as int) =~= window);
            assert(w =~= window);
        } else {
            assert(w.drop_first().push(values.last()) =~= (window + values).skip(
                values.len() as int,
            ));
        }
    }
}

/// Once a window has been given as many values as it has room for, nothing that it held before
/// is left: it holds exactly the last values given.
pub proof fn full_window_forgets<T>(window: Seq<T>, values: Seq<T>)
    requires
        values.len() >= window.len(),
    ensures
        shifted_by_all(window, values) == values.skip(values.len() - window.len()),
{
    window_holds_the_newest(window, values);
    assert((window + values).skip(values.len() as int) =~= values.skip(
        values.len() - window.len(),
    ));
}

/// Appending values in two portions is the same as appending all of them at once.
pub proof fn appends_add_up<T>(window: Seq<T>, values: Seq<T>, more: Seq<T>)
    ensures
        shifted_by_all(window, values + more) == shifted_by_all(
            shifted_by_all(window, values),
            more,
        ),
    decreases more.len(),
{
    if more.len() == 0 {
        assert(values + more =~= values);
    } else {
        appends_add_up(window, values, more.drop_last());
        assert((values + more).drop_last() =~= values + more.drop_last());
    }
}

/// An append moves every value of a window one place towards the oldest and puts the new value in
/// the last place. It drops exactly the oldest value.
pub proof fn appends_move_every_value<T>(window: Seq<T>, value: T)
    ensures
        shifted(window, value).len() == window.len(),
        forall|j: int|
            0 <= j < window.len() - 1 ==> #[trigger] shifted(window, value)[j] == window[j + 1],
        window.len() > 0 ==> shifted(window, value)[window.len() - 1] == value,
{
}

} // verus!
