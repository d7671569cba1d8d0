//! What holds of the service as a whole.

use crate::handler::{
    infer, initial_histories, refuse, transition, Event, Next, Stage, Transition,
};
use crate::input::{predictions_reach_the_sensors, values_reach_the_covariates, Histories};
use crate::json::{
    cells_are_read_in_order, cells_before, is_row, rows_values, sensor_values, Json,
};
use crate::output::{choice, Choice};
use crate::reply::{Refusal, Status};
use crate::request::{requests_count_their_values, PredictionRequest};
use crate::shape::{element_count, tensor_shape, InputType};
use crate::text::decimal;
use crate::window::{appends_add_up, shifted_by_all};
use vstd::prelude::*;

verus! {

/// What a sequence of events leads to in a new exchange for `request`, with `histories` cached.
pub open spec fn run<T>(
    request: PredictionRequest,
    events: Seq<Event<T>>,
    histories: Histories<T>,
) -> Transition<T>
    decreases events.len(),
{
    if events.len() == 0 {
        Transition { stage: Stage::Inspect, next: Next::Ignore, histories }
    } else {
        let before = run(request, events.drop_last(), histories);
        transition(request, before.stage, events.last(), before.histories)
    }
}

/// No refusal has the status of a served request.
pub proof fn refusals_are_no_success(refusal: Refusal)
    ensures
        refusal.status() != Status::Success,
{
}

/// A refusal leaves the cached input as it was before the event that led to it. The cached input
/// changes only in the steps that ask for the model to be run or for predictions to be encoded.
pub proof fn refusals_keep_the_cache<T>(
    request: PredictionRequest,
    stage: Stage,
    event: Event<T>,
    histories: Histories<T>,
)
    ensures
        ({
            let after = transition(request, stage, event, histories);
            &&& after.next is Respond ==> after.histories == histories
            &&& after.histories == histories || after.next is Infer || after.next is Encode
        }),
{
}

/// How many events an exchange at `stage` waits for at most.
pub open spec fn events_left(stage: Stage) -> nat {
    match stage {
        Stage::Inspect => 5,
        Stage::FetchInput(_) => 4,
        Stage::ParseCovariates(_) => 4,
        Stage::Infer => 3,
        Stage::Extract => 2,
        Stage::Encode => 1,
        Stage::Done => 0,
    }
}

/// Every event that an exchange waits for brings it nearer to its end, and it ends exactly with a
/// reply: an exchange takes at most five events.
pub proof fn exchanges_end<T>(
    request: PredictionRequest,
    stage: Stage,
    event: Event<T>,
    histories: Histories<T>,
)
    ensures
        ({
            let after = transition(request, stage, event, histories);
            &&& after.next !is Ignore ==> events_left(after.stage) < events_left(stage)
            &&& after.next is Ignore ==> after.stage == stage
            &&& after.next is Respond <==> after.stage is Done && stage !is Done
        }),
{
}

/// A request is answered with success only once its predictions have been encoded, and the answer
/// is what they were encoded as.
pub proof fn success_follows_encoding<T>(
    request: PredictionRequest,
    stage: Stage,
    event: Event<T>,
    histories: Histories<T>,
)
    ensures
        transition(request, stage, event, histories).next matches Next::Respond {
            status,
            body,
        } ==> (status == Status::Success <==> stage is Encode) && (status == Status::Success ==> (
        event matches Event::Encoded(outcome) && body == match outcome {
            Ok(text) => text@,
            Err(report) => report@,
        })),
{
}

/// An initial request whose model takes as many values as it has, whose resource holds that many,
/// and whose model gives one prediction for each sensor, is served. Its input is fetched, cached
/// and given to the model, and the cached input is then updated with the predictions.
pub proof fn initial_requests_are_served<T>(
    request: PredictionRequest,
    dimensions: Vec<i64>,
    document: Json<T>,
    values: Seq<T>,
    names: Vec<String>,
    predictions: Vec<T>,
    text: String,
    histories: Histories<T>,
)
    requires
        request.init,
        request.input_resource is Some,
        request.input_resource->0@.len() > 0,
        element_count(tensor_shape(dimensions@)) == request.total(),
        sensor_values(document) == Ok::<Seq<T>, Refusal>(values),
        values.len() == request.total(),
        choice(names@) != Choice::Nothing,
        predictions@.len() == request.sensors,
    ensures
        ({
            let events = seq![
                Event::Inspected(Some(InputType::Floats(dimensions))),
                Event::InputFetched(document),
                Event::Ran(names),
                Event::Extracted(predictions),
                Event::Encoded(Ok(text)),
            ];
            let shape = tensor_shape(dimensions@);
            let cached = initial_histories(request, values);
            &&& run(request, events.take(1), histories).next == Next::<T>::FetchInput(
                request.input_resource->0@,
            )
            &&& run(request, events.take(2), histories).next == (Next::Infer {
                shape,
                data: cached.tensor_data(shape),
            })
            &&& run(request, events.take(4), histories).next == Next::Encode(predictions@)
            &&& run(request, events, histories) == (Transition {
                stage: Stage::Done,
                next: Next::<T>::Respond { status: Status::Success, body: text@ },
                histories: cached.with_predictions(predictions@),
            })
        }),
{
    let events = seq![
        Event::Inspected(Some(InputType::Floats(dimensions))),
        Event::InputFetched(document),
        Event::Ran(names),
        Event::Extracted(predictions),
        Event::Encoded(Ok(text)),
    ];
    lemma_prefixes(events);
    assert(run(request, events.take(0), histories).stage is Inspect);
    assert(run(request, events.take(1), histories).stage is FetchInput);
    assert(run(request, events.take(2), histories).stage is Infer);
    assert(run(request, events.take(3), histories).stage is Extract);
    assert(run(request, events.take(4), histories).stage is Encode);
}

/// A request with new covariate values is served if its model takes as many values as it has, an
/// input of its dimensions is cached, it has one value for each covariate, and the model gives
/// one prediction for each sensor. The covariate values are cached, the model is given the cached
/// input, and the cached input is then updated with the predictions.
pub proof fn updating_requests_are_served<T>(
    request: PredictionRequest,
    dimensions: Vec<i64>,
    values: Vec<T>,
    names: Vec<String>,
    predictions: Vec<T>,
    text: String,
    histories: Histories<T>,
)
    requires
        !request.init,
        request.input is Some,
        element_count(tensor_shape(dimensions@)) == request.total(),
        histories.data.len() > 0,
        histories.has_dimensions(request.sensors, request.covariates, request.input_size),
        values@.len() == request.covariates,
        choice(names@) != Choice::Nothing,
        predictions@.len() == request.sensors,
    ensures
        ({
            let events = seq![
                Event::Inspected(Some(InputType::Floats(dimensions))),
                Event::CovariatesParsed(values),
                Event::Ran(names),
                Event::Extracted(predictions),
                Event::Encoded(Ok(text)),
            ];
            let shape = tensor_shape(dimensions@);
            let cached = histories.with_covariates(values@);
            &&& run(request, events.take(1), histories).next == Next::<T>::ParseCovariates(
                request.input->0@,
            )
            &&& run(request, events.take(2), histories).next == (Next::Infer {
                shape,
                data: cached.tensor_data(shape),
            })
            &&& run(request, events.take(4), histories).next == Next::Encode(predictions@)
            &&& run(request, events, histories) == (Transition {
                stage: Stage::Done,
                next: Next::<T>::Respond { status: Status::Success, body: text@ },
                histories: cached.with_predictions(predictions@),
            })
        }),
{
    let events = seq![
        Event::Inspected(Some(InputType::Floats(dimensions))),
        Event::CovariatesParsed(values),
        Event::Ran(names),
        Event::Extracted(predictions),
        Event::Encoded(Ok(text)),
    ];
    lemma_prefixes(events);
    assert(run(request, events.take(0), histories).stage is Inspect);
    assert(run(request, events.take(1), histories).stage is ParseCovariates);
    assert(run(request, events.take(2), histories).stage is Infer);
    assert(run(request, events.take(3), histories).stage is Extract);
    assert(run(request, events.take(4), histories).stage is Encode);
}

/// What is known of an exchange at each stage, and of the cached input there: once the shape of
/// the model's input is known, it has as many elements as the request has values, and once the
/// model is to be run, the cached input has the dimensions of the request.
pub open spec fn consistent<T>(
    request: PredictionRequest,
    stage: Stage,
    histories: Histories<T>,
) -> bool {
    match stage {
        Stage::FetchInput(shape) => element_count(shape) == request.total(),
        Stage::ParseCovariates(shape) => element_count(shape) == request.total(),
        Stage::Infer | Stage::Extract | Stage::Encode => histories.has_dimensions(
            request.sensors,
            request.covariates,
            request.input_size,
        ),
        _ => true,
    }
}

/// Whatever happens in an exchange, the cached input stays well-formed, and what is known at each
/// stage holds.
pub proof fn exchanges_stay_consistent<T>(
    request: PredictionRequest,
    events: Seq<Event<T>>,
    histories: Histories<T>,
)
    requires
        request.fits(),
        histories.wf(),
    ensures
        run(request, events, histories).histories.wf(),
        consistent(
            request,
            run(request, events, histories).stage,
            run(request, events, histories).histories,
        ),
    decreases events.len(),
{
    if events.len() > 0 {
        exchanges_stay_consistent(request, events.drop_last(), histories);
    }
}

/// The model is never run on a tensor that its values do not fill: whenever an exchange asks for
/// the model to be run, it hands over as many values as the tensor has elements.
pub proof fn tensors_are_filled<T>(
    request: PredictionRequest,
    events: Seq<Event<T>>,
    histories: Histories<T>,
)
    requires
        request.fits(),
        histories.wf(),
    ensures
        run(request, events, histories).next matches Next::Infer { shape, data } ==> data.len()
            == element_count(shape) && data.len() == request.total(),
{
    if events.len() > 0 {
        exchanges_stay_consistent(request, events.drop_last(), histories);
    }
}

/// A request that is served leaves a cached input of its own dimensions behind.
pub proof fn served_requests_leave_their_input<T>(
    request: PredictionRequest,
    events: Seq<Event<T>>,
    histories: Histories<T>,
)
    requires
        request.fits(),
        histories.wf(),
        run(request, events, histories).next matches Next::Respond { status, .. } && status
            == Status::Success,
    ensures
        run(request, events, histories).histories.has_dimensions(
            request.sensors,
            request.covariates,
            request.input_size,
        ),
{
    exchanges_stay_consistent(request, events.drop_last(), histories);
}

/// A request that never gets as far as inference leaves the cached input as it found it, however
/// it is refused.
pub proof fn requests_without_inference_keep_the_cache<T>(
    request: PredictionRequest,
    events: Seq<Event<T>>,
    histories: Histories<T>,
)
    requires
        forall|k: int|
            0 <= k <= events.len() ==> (#[trigger] run(request, events.take(k), histories)).next
                !is Infer,
    ensures
        run(request, events, histories).histories == histories,
        run(request, events, histories).stage !is Infer,
        run(request, events, histories).stage !is Extract,
        run(request, events, histories).stage !is Encode,
    decreases events.len(),
{
    if events.len() > 0 {
        let earlier = events.drop_last();
        assert forall|k: int| 0 <= k <= earlier.len() implies (#[trigger] run(
            request,
            earlier.take(k),
            histories,
        )).next !is Infer by {
            assert(earlier.take(k) =~= events.take(k));
            assert(run(request, events.take(k), histories).next !is Infer);
        }
        requests_without_inference_keep_the_cache(request, earlier, histories);
        assert(events.take(events.len() as int) =~= events);
    }
}

/// As long as no input is cached for a model, requests with new covariate values are refused and
/// told to initialize it.
pub proof fn updates_need_an_initialized_model<T>(
    request: PredictionRequest,
    dimensions: Vec<i64>,
    histories: Histories<T>,
)
    requires
        !request.init,
        element_count(tensor_shape(dimensions@)) == request.total(),
        histories.data.len() == 0,
    ensures
        run(
            request,
            seq![Event::Inspected(Some(InputType::Floats(dimensions)))],
            histories,
        ) == refuse(Refusal::NotInitialized, histories),
{
    let events = seq![Event::<T>::Inspected(Some(InputType::Floats(dimensions)))];
    assert(events.drop_last() =~= Seq::<Event<T>>::empty());
    assert(run(request, events.drop_last(), histories).stage is Inspect);
}

/// Once a request of some dimensions has been served, the same model takes new covariate values
/// for these dimensions: the request that brings them reaches inference.
pub proof fn served_models_take_updates<T>(
    served: PredictionRequest,
    events: Seq<Event<T>>,
    histories: Histories<T>,
    request: PredictionRequest,
    dimensions: Vec<i64>,
    values: Vec<T>,
)
    requires
        served.fits(),
        histories.wf(),
        run(served, events, histories).next matches Next::Respond { status, .. } && status
            == Status::Success,
        !request.init,
        request.input is Some,
        request.sensors == served.sensors,
        request.covariates == served.covariates,
        request.input_size == served.input_size,
        request.total() > 0,
        element_count(tensor_shape(dimensions@)) == request.total(),
        values@.len() == request.covariates,
    ensures
        run(
            request,
            seq![
                Event::Inspected(Some(InputType::Floats(dimensions))),
                Event::CovariatesParsed(values),
            ],
            run(served, events, histories).histories,
        ) == infer(
            tensor_shape(dimensions@),
            run(served, events, histories).histories.with_covariates(values@),
        ),
{
    served_requests_leave_their_input(served, events, histories);
    exchanges_stay_consistent(served, events, histories);
    let cached = run(served, events, histories).histories;
    let first = Event::<T>::Inspected(Some(InputType::Floats(dimensions)));
    let both = seq![first, Event::CovariatesParsed(values)];
    assert(both.drop_last() =~= seq![first]);
    assert(seq![first].drop_last() =~= Seq::<Event<T>>::empty());
    assert(run(request, seq![first].drop_last(), cached).stage is Inspect);
    assert(run(request, both.drop_last(), cached).stage is ParseCovariates);
}

/// An exchange that brings new covariate values and is answered with predictions.
pub struct Update<T> {
    pub request: PredictionRequest,
    pub dimensions: Vec<i64>,
    pub values: Vec<T>,
    pub names: Vec<String>,
    pub predictions: Vec<T>,
    pub text: String,
}

impl<T> Update<T> {
    /// The events of the exchange.
    pub open spec fn events(self) -> Seq<Event<T>> {
        seq![
            Event::Inspected(Some(InputType::Floats(self.dimensions))),
            Event::CovariatesParsed(self.values),
            Event::Ran(self.names),
            Event::Extracted(self.predictions),
            Event::Encoded(Ok(self.text)),
        ]
    }

    /// The request has the dimensions of `histories`, its model takes that many values, there is
    /// one new value for each covariate and one prediction for each sensor.
    pub open spec fn suits(self, histories: Histories<T>) -> bool {
        &&& !self.request.init
        &&& self.request.input is Some
        &&& histories.has_dimensions(
            self.request.sensors,
            self.request.covariates,
            self.request.input_size,
        )
        &&& element_count(tensor_shape(self.dimensions@)) == self.request.total()
        &&& self.values@.len() == self.request.covariates
        &&& choice(self.names@) != Choice::Nothing
        &&& self.predictions@.len() == self.request.sensors
    }

    /// What the exchange leads to, with `histories` cached.
    pub open spec fn outcome(self, histories: Histories<T>) -> Transition<T> {
        run(self.request, self.events(), histories)
    }
}

/// The cached input after these exchanges, one after the other.
pub open spec fn after_updates<T>(histories: Histories<T>, updates: Seq<Update<T>>) -> Histories<T>
    decreases updates.len(),
{
    if updates.len() == 0 {
        histories
    } else {
        updates.last().outcome(after_updates(histories, updates.drop_last())).histories
    }
}

/// Suitable updates of a cached input are all served, one after the other. The history of a
/// series then holds the newest values of what it held and what the updates brought for it: the
/// predictions for a sensor, the new values for a covariate.
pub proof fn updates_build_the_histories<T>(
    histories: Histories<T>,
    updates: Seq<Update<T>>,
    i: int,
)
    requires
        histories.wf(),
        histories.data.len() > 0,
        forall|k: int| 0 <= k < updates.len() ==> (#[trigger] updates[k]).suits(histories),
        0 <= i < histories.series(),
    ensures
        forall|k: int|
            0 <= k < updates.len() ==> (#[trigger] updates[k]).outcome(
                after_updates(histories, updates.take(k)),
            ).next == (Next::<T>::Respond { status: Status::Success, body: updates[k].text@ }),
        after_updates(histories, updates).wf(),
        after_updates(histories, updates).has_dimensions(
            histories.sensors,
            histories.covariates,
            histories.input_size,
        ),
        i < histories.sensors ==> after_updates(histories, updates).history(i) == shifted_by_all(
            histories.history(i),
            updates.map_values(|update: Update<T>| update.predictions@[i]),
        ),
        histories.sensors <= i ==> after_updates(histories, updates).history(i) == shifted_by_all(
            histories.history(i),
            updates.map_values(|update: Update<T>| update.values@[i - histories.sensors]),
        ),
    decreases updates.len(),
{
    if updates.len() > 0 {
        let earlier = updates.drop_last();
        let update = updates.last();
        updates_build_the_histories(histories, earlier, i);
        let before = after_updates(histories, earlier);
        assert(before.data.len() == histories.data.len());
        updating_requests_are_served(
            update.request,
            update.dimensions,
            update.values,
            update.names,
            update.predictions,
            update.text,
            before,
        );
        values_reach_the_covariates(before, update.values@);
        predictions_reach_the_sensors(before.with_covariates(update.values@), update.predictions@);
        let after = before.with_covariates(update.values@).with_predictions(update.predictions@);
        assert(after_updates(histories, updates) == after);
        let predicted = updates.map_values(|u: Update<T>| u.predictions@[i]);
        assert(predicted.drop_last() =~= earlier.map_values(
            |u: Update<T>| u.predictions@[i],
        ));
        let brought = updates.map_values(|u: Update<T>| u.values@[i - histories.sensors]);
        assert(brought.drop_last() =~= earlier.map_values(
            |u: Update<T>| u.values@[i - histories.sensors],
        ));
        assert forall|k: int| 0 <= k < updates.len() implies (#[trigger] updates[k]).outcome(
            after_updates(histories, updates.take(k)),
        ).next == (Next::<T>::Respond { status: Status::Success, body: updates[k].text@ }) by {
            if k < earlier.len() {
                assert(earlier[k] == updates[k]);
                assert(earlier.take(k) =~= updates.take(k));
            } else {
                assert(updates.take(k) =~= earlier);
            }
        }
    }
}

/// After an initial request and any number of suitable updates, all served one after the other,
/// the history of a sensor holds the newest values of what was fetched for it and all predictions
/// since, and the history of a covariate the newest values of what was fetched for it and all new
/// values since. Nothing cached before the initial request is left.
pub proof fn served_requests_build_the_histories<T>(
    request: PredictionRequest,
    dimensions: Vec<i64>,
    document: Json<T>,
    values: Seq<T>,
    names: Vec<String>,
    predictions: Vec<T>,
    text: String,
    histories: Histories<T>,
    updates: Seq<Update<T>>,
    i: int,
)
    requires
        request.init,
        request.input_resource is Some,
        request.input_resource->0@.len() > 0,
        request.fits(),
        request.total() > 0,
        element_count(tensor_shape(dimensions@)) == request.total(),
        sensor_values(document) == Ok::<Seq<T>, Refusal>(values),
        values.len() == request.total(),
        choice(names@) != Choice::Nothing,
        predictions@.len() == request.sensors,
        forall|k: int|
            0 <= k < updates.len() ==> (#[trigger] updates[k]).suits(
                initial_histories(request, values),
            ),
        0 <= i < request.sensors + request.covariates,
    ensures
        ({
            let events = seq![
                Event::Inspected(Some(InputType::Floats(dimensions))),
                Event::InputFetched(document),
                Event::Ran(names),
                Event::Extracted(predictions),
                Event::Encoded(Ok(text)),
            ];
            let first = run(request, events, histories);
            let fetched = initial_histories(request, values);
            let last = after_updates(first.histories, updates);
            &&& first.next == (Next::<T>::Respond { status: Status::Success, body: text@ })
            &&& forall|k: int|
                0 <= k < updates.len() ==> (#[trigger] updates[k]).outcome(
                    after_updates(first.histories, updates.take(k)),
                ).next == (Next::<T>::Respond { status: Status::Success, body: updates[k].text@ })
            &&& i < request.sensors ==> last.history(i) == shifted_by_all(
                fetched.history(i),
                seq![predictions@[i]] + updates.map_values(
                    |update: Update<T>| update.predictions@[i],
                ),
            )
            &&& request.sensors <= i ==> last.history(i) == shifted_by_all(
                fetched.history(i),
                updates.map_values(|update: Update<T>| update.values@[i - request.sensors]),
            )
        }),
{
    initial_requests_are_served(
        request,
        dimensions,
        document,
        values,
        names,
        predictions,
        text,
        histories,
    );
    let fetched = initial_histories(request, values);
    let first = fetched.with_predictions(predictions@);
    predictions_reach_the_sensors(fetched, predictions@);
    assert(first.data.len() == fetched.data.len());
    updates_build_the_histories(first, updates, i);
    if i < request.sensors {
        let one = seq![predictions@[i]];
        assert(one.drop_last() =~= Seq::<T>::empty());
        assert(shifted_by_all(fetched.history(i), one.drop_last()) == fetched.history(i));
        assert(shifted_by_all(fetched.history(i), one) == first.history(i));
        appends_add_up(
            fetched.history(i),
            one,
            updates.map_values(|update: Update<T>| update.predictions@[i]),
        );
    }
}

/// An initial request is served without regard to new covariate values that it may bring, and to
/// what was cached before it: whatever these are, the same events lead to the same actions and
/// the same reply, and where the request is served, to the same cached input.
pub proof fn initial_requests_start_afresh<T>(
    request: PredictionRequest,
    other: PredictionRequest,
    events: Seq<Event<T>>,
    histories: Histories<T>,
    other_histories: Histories<T>,
)
    requires
        request.init,
        other.init,
        request.input_resource == other.input_resource,
        request.sensors == other.sensors,
        request.covariates == other.covariates,
        request.input_size == other.input_size,
    ensures
        ({
            let one = run(request, events, histories);
            let two = run(other, events, other_histories);
            &&& one.stage == two.stage
            &&& one.next == two.next
            &&& one.stage !is ParseCovariates
            &&& (one.stage is Infer || one.stage is Extract || one.stage is Encode)
                ==> one.histories == two.histories
            &&& (one.next matches Next::Respond { status, .. } && status == Status::Success)
                ==> one.histories == two.histories
        }),
    decreases events.len(),
{
    if events.len() > 0 {
        initial_requests_start_afresh(
            request,
            other,
            events.drop_last(),
            histories,
            other_histories,
        );
        let before = run(request, events.drop_last(), histories);
        success_follows_encoding(request, before.stage, events.last(), before.histories);
    }
}

/// The prefixes of a sequence of five.
proof fn lemma_prefixes<A>(s: Seq<A>)
    requires
        s.len() == 5,
    ensures
        s.take(0).len() == 0,
        s.take(5) == s,
        forall|k: int|
            1 <= k <= 5 ==> (#[trigger] s.take(k)).len() == k && s.take(k).drop_last() == s.take(
                k - 1,
            ) && s.take(k).last() == s[k - 1],
{
    assert(s.take(5) =~= s);
    assert forall|k: int| 1 <= k <= 5 implies (#[trigger] s.take(k)).len() == k && s.take(
        k,
    ).drop_last() == s.take(k - 1) && s.take(k).last() == s[k - 1] by {
        assert(s.take(k).drop_last() =~= s.take(k - 1));
    }
}

/// The exchange is over with this reply, and the cached input is still `histories`.
pub open spec fn is_answered<T>(
    after: Transition<T>,
    histories: Histories<T>,
    status: Status,
    body: Seq<char>,
) -> bool {
    &&& after.stage is Done
    &&& after.next == (Next::<T>::Respond { status, body })
    &&& after.histories == histories
}

/// How a request is answered on what its model declares. A model without input is a fault of the
/// server, and one that takes no floats, or another number of them than the request has values,
/// is no model for the request. An initial request must then name a resource, which is fetched;
/// any other needs a cached input and new covariate values, which are read.
pub proof fn inspections_are_answered<T>(
    request: PredictionRequest,
    input: Option<InputType>,
    histories: Histories<T>,
)
    requires
        crate::handler::countable(request, Event::<T>::Inspected(input)),
    ensures
        ({
            let after = transition(
                request,
                Stage::Inspect,
                Event::<T>::Inspected(input),
                histories,
            );
            let total = (request.sensors + request.covariates) * request.input_size;
            let bad = Status::BadRequest;
            &&& input is None ==> is_answered(
                after,
                histories,
                Status::InternalServerError,
                "Model has no inputs"@,
            )
            &&& input matches Some(InputType::Other(kind)) ==> is_answered(
                after,
                histories,
                bad,
                "Unexpected model input type: "@ + kind@,
            )
            &&& input matches Some(InputType::Floats(dimensions)) ==> {
                let shape = tensor_shape(dimensions@);
                let elements = element_count(shape);
                &&& elements != total ==> is_answered(
                    after,
                    histories,
                    bad,
                    "Model input element count ("@ + decimal(elements)
                        + ") does not match expected (sensors+covariates)*input_size = ("@
                        + decimal(request.sensors as nat) + "+"@ + decimal(
                        request.covariates as nat,
                    ) + ")*"@ + decimal(request.input_size as nat) + " = "@ + decimal(
                        total as nat,
                    ),
                )
                &&& elements == total && request.init && !(request.input_resource is Some
                    && request.input_resource->0@.len() > 0) ==> is_answered(
                    after,
                    histories,
                    bad,
                    "init=true requires input_resource"@,
                )
                &&& elements == total && request.init && request.input_resource is Some
                    && request.input_resource->0@.len() > 0 ==> after == (Transition {
                    stage: Stage::FetchInput(shape),
                    next: Next::<T>::FetchInput(request.input_resource->0@),
                    histories,
                })
                &&& elements == total && !request.init && histories.data.len() == 0
                    ==> is_answered(
                    after,
                    histories,
                    bad,
                    "init=false received but no cached input exists; call init=true first"@,
                )
                &&& elements == total && !request.init && histories.data.len() > 0
                    && request.input is None ==> is_answered(
                    after,
                    histories,
                    bad,
                    "init=false requires input (new covariate values)"@,
                )
                &&& elements == total && !request.init && histories.data.len() > 0
                    && request.input is Some ==> after == (Transition {
                    stage: Stage::ParseCovariates(shape),
                    next: Next::<T>::ParseCovariates(request.input->0@),
                    histories,
                })
            }
        }),
{
    requests_count_their_values(request);
    if let Some(InputType::Floats(dimensions)) = input {
        let shape = tensor_shape(dimensions@);
        assert(shape.take(shape.len() as int) =~= shape);
        assert(element_count(shape.take(shape.len() as int)) <= usize::MAX);
    }
}

/// How a request is answered on a resource that cannot be fetched, or whose document holds no
/// sensor values, or another number of them than the request has.
pub proof fn faulty_resources_are_answered<T>(
    request: PredictionRequest,
    shape: Seq<usize>,
    event: Event<T>,
    histories: Histories<T>,
)
    requires
        request.fits(),
        event matches Event::InputFetched(document) ==> (sensor_values(document) matches Ok(values)
            ==> values.len() <= usize::MAX),
    ensures
        ({
            let after = transition(request, Stage::FetchInput(shape), event, histories);
            let total = (request.sensors + request.covariates) * request.input_size;
            let bad = Status::BadRequest;
            &&& event matches Event::ResourceStatus(report) ==> is_answered(
                after,
                histories,
                bad,
                "input_resource returned error status: "@ + report@,
            )
            &&& event matches Event::ResourceUnreachable(report) ==> is_answered(
                after,
                histories,
                bad,
                "Failed to GET input_resource: "@ + report@,
            )
            &&& event matches Event::ResourceMalformed(report) ==> is_answered(
                after,
                histories,
                bad,
                "Failed to parse JSON from input_resource: "@ + report@,
            )
            &&& event matches Event::InputFetched(document) ==> match sensor_values(document) {
                Err(Refusal::MissingSensorKey) => is_answered(
                    after,
                    histories,
                    bad,
                    "input_resource JSON missing key \"sensor_\""@,
                ),
                Err(Refusal::SensorNotArray) => is_answered(
                    after,
                    histories,
                    bad,
                    "sensor_ must be an array"@,
                ),
                Err(Refusal::RowNotArray) => is_answered(
                    after,
                    histories,
                    bad,
                    "sensor_ must be an array of arrays"@,
                ),
                Err(Refusal::NonNumeric) => is_answered(
                    after,
                    histories,
                    bad,
                    "sensor_ contains non-numeric value"@,
                ),
                Err(_) => true,
                Ok(values) => values.len() != total ==> is_answered(
                    after,
                    histories,
                    bad,
                    "Flattened sensor_ length ("@ + decimal(values.len())
                        + ") does not match expected_total ("@ + decimal(total as nat) + ")"@,
                ),
            }
        }),
{
    requests_count_their_values(request);
}

/// The values of a fetched document are cached as they came: value for value, for the dimensions
/// of the request, so that the history number `i` is the `i`-th portion of `input_size` values.
/// The model is run on what is then cached.
pub proof fn fetched_values_are_cached_as_they_came<T>(
    request: PredictionRequest,
    shape: Seq<usize>,
    document: Json<T>,
    values: Seq<T>,
    histories: Histories<T>,
    i: int,
)
    requires
        sensor_values(document) == Ok::<Seq<T>, Refusal>(values),
        values.len() == (request.sensors + request.covariates) * request.input_size,
        0 <= i < request.sensors + request.covariates,
    ensures
        ({
            let after = transition(
                request,
                Stage::FetchInput(shape),
                Event::InputFetched(document),
                histories,
            );
            &&& after.stage is Infer
            &&& after.histories.data == values
            &&& after.histories.sensors == request.sensors
            &&& after.histories.covariates == request.covariates
            &&& after.histories.input_size == request.input_size
            &&& after.histories.history(i) == values.subrange(
                i * request.input_size,
                (i + 1) * request.input_size,
            )
            &&& after.next == (Next::Infer { shape, data: after.histories.tensor_data(shape) })
        }),
{
    requests_count_their_values(request);
    assert((i + 1) * request.input_size == i * request.input_size + request.input_size)
        by (nonlinear_arith);
}

/// Where the rows of a document are the series of the request, each of `input_size` numbers, row
/// number `i` becomes the history number `i`, value for value: the first rows are the sensors and
/// the others the covariates, and each history keeps the order of its row.
pub proof fn rows_become_histories<T>(
    request: PredictionRequest,
    shape: Seq<usize>,
    document: Json<T>,
    rows: Seq<Json<T>>,
    histories: Histories<T>,
    i: int,
    t: int,
)
    requires
        request.fits(),
        sensor_values(document) == rows_values(rows),
        rows.len() == request.sensors + request.covariates,
        forall|r: int|
            0 <= r < rows.len() ==> is_row(#[trigger] rows[r]) && rows[r]->Array_0@.len()
                == request.input_size,
        0 <= i < rows.len(),
        0 <= t < request.input_size,
    ensures
        ({
            let after = transition(
                request,
                Stage::FetchInput(shape),
                Event::InputFetched(document),
                histories,
            );
            &&& after.stage is Infer
            &&& rows[i]->Array_0@[t] == Json::Number(after.histories.history(i)[t])
            &&& after.histories.has_dimensions(
                request.sensors,
                request.covariates,
                request.input_size,
            )
        }),
{
    let n = request.input_size as int;
    cells_are_read_in_order(rows);
    let values = rows_values(rows)->Ok_0;
    lemma_equal_rows(rows, n, rows.len() as int);
    lemma_equal_rows(rows, n, i);
    fetched_values_are_cached_as_they_came(request, shape, document, values, histories, i);
    assert(is_row(rows[i]));
    assert(0 <= i * n && i * n + n <= rows.len() * n) by (nonlinear_arith)
        requires
            0 <= i < rows.len(),
            0 <= n,
    ;
    assert((i + 1) * n == i * n + n) by (nonlinear_arith);
    assert(Json::Number(values[cells_before(rows, i) + t]) == rows[i]->Array_0@[t]);
}

/// Rows of one length have that many cells each.
proof fn lemma_equal_rows<T>(rows: Seq<Json<T>>, n: int, r: int)
    requires
        0 <= r <= rows.len(),
        forall|q: int| 0 <= q < rows.len() ==> (#[trigger] rows[q])->Array_0@.len() == n,
    ensures
        cells_before(rows, r) == r * n,
    decreases r,
{
    if r > 0 {
        lemma_equal_rows(rows, n, r - 1);
        assert(rows[r - 1]->Array_0@.len() == n);
        assert(r * n == (r - 1) * n + n) by (nonlinear_arith);
    } else {
        assert(0 * n == 0);
    }
}

/// How a request is answered on its new covariate values. They must be numbers, one for each
/// covariate, and the cached input must be of the dimensions of the request. It is then given the
/// values, and the model is run on it.
pub proof fn covariate_values_are_answered<T>(
    request: PredictionRequest,
    shape: Seq<usize>,
    event: Event<T>,
    histories: Histories<T>,
)
    requires
        event matches Event::CovariatesParsed(values) ==> values@.len() <= usize::MAX,
    ensures
        ({
            let after = transition(request, Stage::ParseCovariates(shape), event, histories);
            let same = histories.sensors == request.sensors && histories.covariates
                == request.covariates && histories.input_size == request.input_size;
            let bad = Status::BadRequest;
            &&& event matches Event::CovariatesMalformed(report) ==> is_answered(
                after,
                histories,
                bad,
                "Invalid input JSON for covariates: "@ + report@,
            )
            &&& event matches Event::CovariatesParsed(values) ==> {
                &&& values@.len() != request.covariates ==> is_answered(
                    after,
                    histories,
                    bad,
                    "Expected "@ + decimal(request.covariates as nat)
                        + " covariate values, got "@ + decimal(values@.len()),
                )
                &&& values@.len() == request.covariates && !same ==> is_answered(
                    after,
                    histories,
                    bad,
                    "Cached input dimensions do not match request; call init=true again"@,
                )
                &&& values@.len() == request.covariates && same ==> after == (Transition {
                    stage: Stage::Infer,
                    next: Next::Infer { shape, data: after.histories.tensor_data(shape) },
                    histories: histories.with_covariates(values@),
                })
            }
        }),
{
}

/// How a request is answered on running its model: a failure is reported as it is, a model that
/// gives no output is a fault of the server, and else the output with the predictions is read.
pub proof fn inference_is_answered<T>(
    request: PredictionRequest,
    event: Event<T>,
    histories: Histories<T>,
)
    ensures
        ({
            let after = transition(request, Stage::Infer, event, histories);
            &&& event matches Event::InferenceFailed(report) ==> is_answered(
                after,
                histories,
                Status::BadRequest,
                report@,
            )
            &&& event matches Event::Ran(names) ==> {
                &&& names@.len() == 0 ==> is_answered(
                    after,
                    histories,
                    Status::InternalServerError,
                    "Model produced no outputs"@,
                )
                &&& names@.len() > 0 ==> after == (Transition {
                    stage: Stage::Extract,
                    next: Next::<T>::Extract(choice(names@)),
                    histories,
                })
            }
        }),
{
}

/// How a request is answered on its predictions: a failure to read them is reported as it is,
/// there must be one for each sensor of the cached input, and this is then given them. Encoded,
/// they are the reply; so is the report where they cannot be encoded.
pub proof fn predictions_are_answered<T>(
    request: PredictionRequest,
    event: Event<T>,
    histories: Histories<T>,
)
    requires
        event matches Event::Extracted(predictions) ==> predictions@.len() <= usize::MAX,
    ensures
        ({
            let after = transition(request, Stage::Extract, event, histories);
            &&& event matches Event::InferenceFailed(report) ==> is_answered(
                after,
                histories,
                Status::BadRequest,
                report@,
            )
            &&& event matches Event::Extracted(predictions) ==> {
                &&& predictions@.len() != histories.sensors ==> is_answered(
                    after,
                    histories,
                    Status::BadRequest,
                    "Model output length ("@ + decimal(predictions@.len())
                        + ") does not match sensors ("@ + decimal(histories.sensors as nat)
                        + ")"@,
                )
                &&& predictions@.len() == histories.sensors ==> after == (Transition {
                    stage: Stage::Encode,
                    next: Next::Encode(predictions@),
                    histories: histories.with_predictions(predictions@),
                })
            }
        }),
        event matches Event::Encoded(Ok(text)) ==> is_answered(
            transition(request, Stage::Encode, event, histories),
            histories,
            Status::Success,
            text@,
        ),
        event matches Event::Encoded(Err(report)) ==> is_answered(
            transition(request, Stage::Encode, event, histories),
            histories,
            Status::Success,
            report@,
        ),
{
}

/// An exchange takes in exactly the events that it waits for at its stage. Any other leaves its
/// stage and the cached input as they are.
pub proof fn other_events_change_nothing<T>(
    request: PredictionRequest,
    stage: Stage,
    event: Event<T>,
    histories: Histories<T>,
)
    ensures
        ({
            let after = transition(request, stage, event, histories);
            let awaited = match stage {
                Stage::Inspect => event is Inspected,
                Stage::FetchInput(_) => event is ResourceStatus || event is ResourceUnreachable
                    || event is ResourceMalformed || event is InputFetched,
                Stage::ParseCovariates(_) => event is CovariatesMalformed
                    || event is CovariatesParsed,
                Stage::Infer => event is InferenceFailed || event is Ran,
                Stage::Extract => event is InferenceFailed || event is Extracted,
                Stage::Encode => event is Encoded,
                Stage::Done => false,
            };
            &&& after.next is Ignore <==> !awaited
            &&& !awaited ==> after.stage == stage && after.histories == histories
        }),
{
}

} // verus!
