//! The cached input of a model: the history windows of its sensors and covariates.

use crate::window::{shift_append, shifted};
use vstd::prelude::*;

verus! {

/// The histories of all series, the sensors first and the covariates behind them. Each history
/// has `input_size` values, the oldest first, and lies behind the one before it in `data`.
#[derive(Debug)]
pub struct CachedInput<T> {
    pub data: Vec<T>,
    pub sensors: usize,
    pub covariates: usize,
    pub input_size: usize,
}

/// The mathematical counterpart of [`CachedInput`].
#[verifier::ext_equal]
pub struct Histories<T> {
    pub data: Seq<T>,
    pub sensors: usize,
    pub covariates: usize,
    pub input_size: usize,
}

impl<T> View for CachedInput<T> {
    type V = Histories<T>;

    open spec fn view(&self) -> Histories<T> {
        Histories {
            data: self.data@,
            sensors: self.sensors,
            covariates: self.covariates,
            input_size: self.input_size,
        }
    }
}

/// `data`, made of histories of `size` values, with `values[j]` appended to the history number
/// `first + j` for each `j`, and its oldest value dropped. The other histories stay.
pub open spec fn advanced<T>(data: Seq<T>, size: int, first: int, values: Seq<T>) -> Seq<T> {
    Seq::new(
        data.len(),
        |k: int|
            if first <= k / size < first + values.len() {
                if k % size == size - 1 {
                    values[k / size - first]
                } else {
                    data[k + 1]
                }
            } else {
                data[k]
            },
    )
}

impl<T> Histories<T> {
    /// Number of histories.
    pub open spec fn series(self) -> int {
        self.sensors + self.covariates
    }

    /// `data` holds exactly the values of all histories.
    pub open spec fn wf(self) -> bool {
        &&& self.series() <= usize::MAX
        &&& self.data.len() == self.series() * self.input_size
    }

    /// The history number `i`.
    pub open spec fn history(self, i: int) -> Seq<T> {
        self.data.subrange(i * self.input_size, i * self.input_size + self.input_size)
    }

    /// These histories are those of a request with these dimensions.
    pub open spec fn has_dimensions(
        self,
        sensors: usize,
        covariates: usize,
        input_size: usize,
    ) -> bool {
        &&& self.sensors == sensors
        &&& self.covariates == covariates
        &&& self.input_size == input_size
    }

    /// One new value for each sensor.
    pub open spec fn with_predictions(self, predictions: Seq<T>) -> Histories<T> {
        Histories { data: advanced(self.data, self.input_size as int, 0, predictions), ..self }
    }

    /// One new value for each covariate.
    pub open spec fn with_covariates(self, values: Seq<T>) -> Histories<T> {
        Histories {
            data: advanced(self.data, self.input_size as int, self.sensors as int, values),
            ..self
        }
    }

    /// The values ordered by time: first the oldest value of every series, in the order of the
    /// series, then the next, up to the newest.
    pub open spec fn interleaved(self) -> Seq<T> {
        Seq::new(
            self.data.len(),
            |k: int| self.data[(k % self.series()) * self.input_size + k / self.series()],
        )
    }

    /// A tensor of this shape is ordered by time: its axes are batch, time and series.
    pub open spec fn is_time_major(self, shape: Seq<usize>) -> bool {
        shape == seq![1usize, self.input_size, self.series() as usize]
    }

    /// The values that a model with input of this shape is given: ordered by time where the
    /// shape says so, and else history by history.
    pub open spec fn tensor_data(self, shape: Seq<usize>) -> Seq<T> {
        if self.is_time_major(shape) {
            self.interleaved()
        } else {
            self.data
        }
    }
}

/// Position `k` lies in the history number `i` of size `n` exactly if `k / n == i`, and `k % n`
/// is its place there.
proof fn lemma_position(k: int, n: int, i: int)
    requires
        n > 0,
        0 <= k,
    ensures
        k < i * n <==> k / n < i,
        i * n + n <= k <==> i < k / n,
        k / n == i ==> k % n == k - i * n,
{
    vstd::arithmetic::div_mod::lemma_fundamental_div_mod(k, n);
    let q = k / n;
    let r = k % n;
    assert(k == n * q + r && 0 <= r < n);
    assert(q < i ==> k < i * n) by (nonlinear_arith)
        requires
            k == n * q + r,
            0 <= r < n,
    ;
    assert(q > i ==> i * n + n <= k) by (nonlinear_arith)
        requires
            k == n * q + r,
            0 <= r < n,
    ;
    assert(q == i ==> (i * n <= k < i * n + n && r == k - i * n)) by (nonlinear_arith)
        requires
            k == n * q + r,
            0 <= r < n,
    ;
}

/// Appends `values[j]` to the history number `first + j` of `data`, for each `j`.
fn advance<T: Copy>(data: &mut Vec<T>, size: usize, first: usize, values: &Vec<T>)
    requires
        (first + values@.len()) * size <= old(data)@.len(),
        size == 0 ==> old(data)@.len() == 0,
    ensures
        final(data)@ == advanced(old(data)@, size as int, first as int, values@),
{
    let mut c: usize = 0;
    assert(values@.take(0) =~= Seq::<T>::empty());
    assert(data@ =~= advanced(old(data)@, size as int, first as int, values@.take(0)));
    while c < values.len()
        invariant
            c <= values@.len(),
            (first + values@.len()) * size <= old(data)@.len(),
            size == 0 ==> old(data)@.len() == 0,
            data@ == advanced(old(data)@, size as int, first as int, values@.take(c as int)),
        decreases values.len() - c,
    {
        if size > 0 {
            let ghost before = data@;
            let ghost i: int = first + c;
            assert(i * size + size <= (first + values@.len()) * size && first * size + c * size
                == i * size && i <= i * size) by (nonlinear_arith)
                requires
                    i == first + c,
                    c < values@.len(),
                    size > 0,
            ;
            assert(0 <= first * size && 0 <= c * size) by (nonlinear_arith);
            assert(data.len() == old(data)@.len());
            let start: usize = first * size + c * size;
            let end: usize = start + size;
            let (head, _) = data.as_mut_slice().split_at_mut(end);
            let (_, window) = head.split_at_mut(start);
            shift_append(window, values[c]);
            proof {
                let moved = shifted(before.subrange(start as int, end as int),
                    values@[c as int]);
                assert(data@ =~= before.subrange(0, start as int) + moved + before.subrange(
                    end as int,
                    before.len() as int,
                ));
                let after = advanced(
                    old(data)@,
                    size as int,
                    first as int,
                    values@.take(c + 1),
                );
                assert forall|k: int| 0 <= k < before.len() implies #[trigger] data@[k]
                    == after[k] by {
                    lemma_position(k, size as int, i);
                    if start <= k && k + 1 < end {
                        lemma_position(k + 1, size as int, i);
                    }
                }
                assert(data@ =~= after);
            }
        } else {
            assert(data@ =~= advanced(
                old(data)@,
                size as int,
                first as int,
                values@.take(c + 1),
            ));
        }
        c += 1;
    }
    assert(values@.take(c as int) =~= values@);
}

/// The values of `data`.
fn copied<T: Copy>(data: &Vec<T>) -> (copy: Vec<T>)
    ensures
        copy@ == data@,
{
    let mut copy: Vec<T> = Vec::new();
    let mut i: usize = 0;
    while i < data.len()
        invariant
            i <= data@.len(),
            copy@ == data@.take(i as int),
        decreases data.len() - i,
    {
        copy.push(data[i]);
        i += 1;
        assert(copy@ =~= data@.take(i as int));
    }
    assert(data@.take(i as int) =~= data@);
    copy
}

impl<T: Copy> CachedInput<T> {
    /// The input of a model that has just been loaded: no histories at all.
    pub fn placeholder() -> (input: CachedInput<T>)
        ensures
            input@ == (Histories {
                data: Seq::<T>::empty(),
                sensors: 0,
                covariates: 0,
                input_size: 0,
            }),
            input@.wf(),
    {
        CachedInput { data: Vec::new(), sensors: 0, covariates: 0, input_size: 0 }
    }

    /// Appends one new value to the history of each covariate.
    pub fn update_covariates(&mut self, values: &Vec<T>)
        requires
            old(self)@.wf(),
            values@.len() == old(self).covariates,
        ensures
            final(self)@ == old(self)@.with_covariates(values@),
            final(self)@.wf(),
    {
        assert(self.input_size == 0 ==> self@.series() * self.input_size == 0)
            by (nonlinear_arith);
        advance(&mut self.data, self.input_size, self.sensors, values);
    }

    /// Appends one predicted value to the history of each sensor.
    pub fn update_sensors(&mut self, predictions: &Vec<T>)
        requires
            old(self)@.wf(),
            predictions@.len() == old(self).sensors,
        ensures
            final(self)@ == old(self)@.with_predictions(predictions@),
            final(self)@.wf(),
    {
        assert(self.sensors * self.input_size <= self@.series() * self.input_size)
            by (nonlinear_arith)
            requires
                self@.series() == self.sensors + self.covariates,
        ;
        advance(&mut self.data, self.input_size, 0, predictions);
    }

    /// The values ordered by time.
    fn interleave(&self) -> (values: Vec<T>)
        requires
            self@.wf(),
        ensures
            values@ == self@.interleaved(),
    {
        let mut values: Vec<T> = Vec::new();
        let width: usize = self.sensors + self.covariates;
        let mut t: usize = 0;
        assert(0 * width == 0);
        while t < self.input_size
            invariant
                self@.wf(),
                width == self@.series(),
                t <= self.input_size,
                values@.len() == t * width,
                t * width <= self@.data.len(),
                forall|k: int| 0 <= k < t * width ==> values@[k] == self@.interleaved()[k],
            decreases self.input_size - t,
        {
            let mut i: usize = 0;
            while i < width
                invariant
                    self@.wf(),
                    width == self@.series(),
                    t < self.input_size,
                    i <= width,
                    values@.len() == t * width + i,
                    forall|k: int| 0 <= k < t * width + i ==> values@[k] == self@.interleaved()[k],
                decreases width - i,
            {
                assert(0 <= i * self.input_size && i * self.input_size + self.input_size <= width
                    * self.input_size) by (nonlinear_arith)
                    requires
                        i < width,
                ;
                assert(0 <= t * width && t * width + width <= width * self.input_size)
                    by (nonlinear_arith)
                    requires
                        t < self.input_size,
                ;
                assert(self.data.len() == self.data@.len());
                values.push(self.data[i * self.input_size + t]);
                proof {
                    lemma_position(t * width + i, width as int, t as int);
                }
                i += 1;
            }
            t += 1;
            assert(t * width == (t - 1) * width + width && t * width <= width * self.input_size)
                by (nonlinear_arith)
                requires
                    0 < t <= self.input_size,
            ;
        }
        assert(self.input_size * width == width * self.input_size) by (nonlinear_arith);
        assert(values@ =~= self@.interleaved());
        values
    }

    /// The values that a model with input of this shape is given.
    pub fn input_data(&self, shape: &Vec<usize>) -> (values: Vec<T>)
        requires
            self@.wf(),
        ensures
            values@ == self@.tensor_data(shape@),
    {
        if shape.len() == 3 && shape[0] == 1 && shape[1] == self.input_size && shape[2]
            == self.sensors + self.covariates {
            assert(shape@ =~= seq![1usize, self.input_size, self@.series() as usize]);
            self.interleave()
        } else {
            copied(&self.data)
        }
    }
}

/// Appending `values` to the histories from number `first` on shifts each of these by its value,
/// and leaves every other history as it is.
proof fn lemma_advanced_histories<T>(h: Histories<T>, first: int, values: Seq<T>, i: int)
    requires
        h.wf(),
        0 <= first,
        first + values.len() <= h.series(),
        0 <= i < h.series(),
    ensures
        ({
            let after = Histories {
                data: advanced(h.data, h.input_size as int, first, values),
                ..h
            };
            after.history(i) == if first <= i < first + values.len() {
                shifted(h.history(i), values[i - first])
            } else {
                h.history(i)
            }
        }),
{
    let n = h.input_size as int;
    let after = Histories { data: advanced(h.data, n, first, values), ..h };
    assert(0 <= i * n && i * n + n <= h.series() * n) by (nonlinear_arith)
        requires
            0 <= i < h.series(),
            0 <= n,
    ;
    let affected = first <= i < first + values.len();
    let expected = if affected {
        shifted(h.history(i), values[i - first])
    } else {
        h.history(i)
    };
    assert forall|t: int| 0 <= t < n implies #[trigger] after.history(i)[t] == expected[t] by {
        lemma_position(i * n + t, n, i);
        assert(after.history(i)[t] == after.data[i * n + t]);
        assert(affected && t < n - 1 ==> expected[t] == h.history(i)[t + 1]);
    }
    assert(after.history(i) =~= expected);
}

/// Predictions are appended to the histories of the sensors, one to each, and the oldest value
/// of each is dropped. The histories of the covariates stay as they are.
pub proof fn predictions_reach_the_sensors<T>(h: Histories<T>, predictions: Seq<T>)
    requires
        h.wf(),
        predictions.len() == h.sensors,
    ensures
        h.with_predictions(predictions).wf(),
        forall|i: int|
            0 <= i < h.sensors ==> #[trigger] h.with_predictions(predictions).history(i)
                == shifted(h.history(i), predictions[i]),
        forall|i: int|
            h.sensors <= i < h.series() ==> #[trigger] h.with_predictions(predictions).history(i)
                == h.history(i),
{
    assert forall|i: int| 0 <= i < h.series() implies #[trigger] h.with_predictions(
        predictions,
    ).history(i) == if i < h.sensors {
        shifted(h.history(i), predictions[i])
    } else {
        h.history(i)
    } by {
        lemma_advanced_histories(h, 0, predictions, i);
    }
}

/// New covariate values are appended to the histories of the covariates, one to each, and the
/// oldest value of each is dropped. The histories of the sensors stay as they are.
pub proof fn values_reach_the_covariates<T>(h: Histories<T>, values: Seq<T>)
    requires
        h.wf(),
        values.len() == h.covariates,
    ensures
        h.with_covariates(values).wf(),
        forall|i: int|
            0 <= i < h.sensors ==> #[trigger] h.with_covariates(values).history(i) == h.history(i),
        forall|i: int|
            h.sensors <= i < h.series() ==> #[trigger] h.with_covariates(values).history(i)
                == shifted(h.history(i), values[i - h.sensors]),
{
    assert forall|i: int| 0 <= i < h.series() implies #[trigger] h.with_covariates(values).history(
        i,
    ) == if i < h.sensors {
        h.history(i)
    } else {
        shifted(h.history(i), values[i - h.sensors])
    } by {
        lemma_advanced_histories(h, h.sensors as int, values, i);
    }
}

/// New covariate values and predictions do not interfere: either may be cached first.
pub proof fn updates_commute<T>(h: Histories<T>, values: Seq<T>, predictions: Seq<T>)
    requires
        h.wf(),
        values.len() == h.covariates,
        predictions.len() == h.sensors,
    ensures
        h.with_covariates(values).with_predictions(predictions) == h.with_predictions(
            predictions,
        ).with_covariates(values),
{
    let one = h.with_covariates(values).with_predictions(predictions);
    let other = h.with_predictions(predictions).with_covariates(values);
    let n = h.input_size as int;
    assert forall|k: int| 0 <= k < h.data.len() implies one.data[k] == other.data[k] by {
        if n == 0 {
            assert(h.series() * n == 0) by (nonlinear_arith)
                requires
                    n == 0,
            ;
        } else {
            lemma_position(k, n, k / n);
            lemma_position(k, n, h.series());
            if k % n != n - 1 {
                lemma_position(k + 1, n, k / n);
                lemma_position(k + 1, n, h.series());
            }
        }
    }
    assert(one.data =~= other.data);
}

/// Where the value number `t` of history number `i` stands when ordered by time.
proof fn lemma_interleaved_place<T>(h: Histories<T>, i: int, t: int)
    requires
        h.wf(),
        0 <= i < h.series(),
        0 <= t < h.input_size,
    ensures
        h.interleaved()[t * h.series() + i] == h.data[i * h.input_size + t],
        0 <= t * h.series() + i < h.data.len(),
        0 <= i * h.input_size,
        i * h.input_size + h.input_size <= h.data.len(),
{
    let n = h.input_size as int;
    let w = h.series();
    assert(0 <= t * w && t * w + w <= w * n && 0 <= i * n && i * n + n <= w * n)
        by (nonlinear_arith)
        requires
            0 <= i < w,
            0 <= t < n,
    ;
    lemma_position(t * w + i, w, t);
}

/// Ordered by time, the values stand in rows, one for each time, with one value of each series;
/// every value of every history is at its place there, and the histories can be read back.
pub proof fn interleaving_orders_by_time<T>(h: Histories<T>)
    requires
        h.wf(),
    ensures
        h.interleaved().len() == h.data.len(),
        forall|i: int, t: int|
            0 <= i < h.series() && 0 <= t < h.input_size ==> h.interleaved()[t * h.series() + i]
                == #[trigger] h.history(i)[t],
        h.data == Seq::new(
            h.data.len(),
            |k: int| h.interleaved()[(k % h.input_size as int) * h.series() + k / h.input_size as int],
        ),
{
    let n = h.input_size as int;
    let w = h.series();
    assert forall|i: int, t: int| 0 <= i < w && 0 <= t < n implies h.interleaved()[t * w + i]
        == #[trigger] h.history(i)[t] by {
        lemma_interleaved_place(h, i, t);
    }
    let back = Seq::new(h.data.len(), |k: int| h.interleaved()[(k % n) * w + k / n]);
    assert forall|k: int| 0 <= k < h.data.len() implies back[k] == h.data[k] by {
        if n == 0 {
            assert(w * n == 0);
        } else {
            lemma_position(k, n, k / n);
            lemma_position(k, n, w);
            lemma_position(k, n, 0);
            let i = k / n;
            let t = k % n;
            assert(0 <= i < w && 0 <= t < n && k == i * n + t);
            lemma_interleaved_place(h, i, t);
        }
    }
    assert(back =~= h.data);
}

/// The view of a cached input shows what it holds, and it is well-formed exactly if it holds
/// `input_size` values for each of its series.
pub proof fn cached_inputs_show_their_fields<T>(input: CachedInput<T>)
    ensures
        input@.data == input.data@,
        input@.has_dimensions(input.sensors, input.covariates, input.input_size),
        forall|sensors: usize, covariates: usize, input_size: usize| #[trigger]
            input@.has_dimensions(sensors, covariates, input_size) <==> sensors == input.sensors
                && covariates == input.covariates && input_size == input.input_size,
        input@.wf() <==> input.sensors + input.covariates <= usize::MAX && input.data@.len() == (
        input.sensors + input.covariates) * input.input_size,
{
}

/// The histories lie one behind the other, each of `input_size` values: the value number `t` of
/// history number `i` is the value number `i * input_size + t` of all.
pub proof fn histories_lie_in_a_row<T>(h: Histories<T>, i: int, t: int)
    requires
        h.wf(),
        0 <= i < h.sensors + h.covariates,
        0 <= t < h.input_size,
    ensures
        0 <= i * h.input_size + t < h.data.len(),
        h.history(i).len() == h.input_size,
        h.history(i)[t] == h.data[i * h.input_size + t],
{
    lemma_interleaved_place(h, i, t);
}

/// A model whose input has the axes batch (of one), time and series gets, for each time, the
/// values of all series at that time: the value number `t` of history number `i` stands at
/// `t * (sensors + covariates) + i`, whatever the numbers of sensors and covariates are. Every
/// other model gets the values as they are cached.
pub proof fn tensors_are_laid_out<T>(h: Histories<T>, shape: Seq<usize>)
    requires
        h.wf(),
    ensures
        h.tensor_data(shape).len() == h.data.len(),
        shape.len() == 3 && shape[0] == 1 && shape[1] == h.input_size && shape[2] == h.sensors
            + h.covariates ==> forall|i: int, t: int|
            0 <= i < h.sensors + h.covariates && 0 <= t < h.input_size ==> h.tensor_data(shape)[t
                * (h.sensors + h.covariates) + i] == #[trigger] h.history(i)[t],
        !(shape.len() == 3 && shape[0] == 1 && shape[1] == h.input_size && shape[2] == h.sensors
            + h.covariates) ==> h.tensor_data(shape) == h.data,
{
    interleaving_orders_by_time(h);
    if shape.len() == 3 && shape[0] == 1 && shape[1] == h.input_size && shape[2] == h.sensors
        + h.covariates {
        assert(shape =~= seq![1usize, h.input_size, h.series() as usize]);
    }
}

/// Predictions change the histories of the sensors alone: in each of them every value moves one
/// place towards the oldest, and the prediction for it takes the last place.
pub proof fn predictions_take_the_last_places<T>(h: Histories<T>, predictions: Seq<T>)
    requires
        h.wf(),
        predictions.len() == h.sensors,
    ensures
        h.with_predictions(predictions).has_dimensions(h.sensors, h.covariates, h.input_size),
        h.with_predictions(predictions).data.len() == h.data.len(),
        forall|i: int, t: int|
            0 <= i < h.sensors && 0 <= t < h.input_size - 1 ==> #[trigger] h.with_predictions(
                predictions,
            ).history(i)[t] == h.history(i)[t + 1],
        forall|i: int|
            0 <= i < h.sensors && h.input_size > 0 ==> (#[trigger] h.with_predictions(
                predictions,
            ).history(i))[h.input_size - 1] == predictions[i],
        forall|i: int, t: int|
            h.sensors <= i < h.sensors + h.covariates && 0 <= t < h.input_size
                ==> #[trigger] h.with_predictions(predictions).history(i)[t] == h.history(i)[t],
{
    predictions_reach_the_sensors(h, predictions);
    assert forall|i: int| 0 <= i < h.series() && h.input_size > 0 implies #[trigger] h.history(
        i,
    ).len() == h.input_size by {
        histories_lie_in_a_row(h, i, 0);
    }
}

/// New covariate values change the histories of the covariates alone: in each of them every value
/// moves one place towards the oldest, and the new value for it takes the last place.
pub proof fn values_take_the_last_places<T>(h: Histories<T>, values: Seq<T>)
    requires
        h.wf(),
        values.len() == h.covariates,
    ensures
        h.with_covariates(values).has_dimensions(h.sensors, h.covariates, h.input_size),
        h.with_covariates(values).data.len() == h.data.len(),
        forall|i: int, t: int|
            0 <= i < h.sensors && 0 <= t < h.input_size ==> #[trigger] h.with_covariates(
                values,
            ).history(i)[t] == h.history(i)[t],
        forall|i: int, t: int|
            h.sensors <= i < h.sensors + h.covariates && 0 <= t < h.input_size - 1
                ==> #[trigger] h.with_covariates(values).history(i)[t] == h.history(i)[t + 1],
        forall|i: int|
            h.sensors <= i < h.sensors + h.covariates && h.input_size > 0
                ==> (#[trigger] h.with_covariates(values).history(i))[h.input_size - 1]
                == values[i - h.sensors],
{
    values_reach_the_covariates(h, values);
    assert forall|i: int| 0 <= i < h.series() && h.input_size > 0 implies #[trigger] h.history(
        i,
    ).len() == h.input_size by {
        histories_lie_in_a_row(h, i, 0);
    }
}

} // verus!
