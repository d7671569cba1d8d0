//! The exchange that serves one prediction request, once its model is at hand.
//!
//! The exchange is a state machine. The surrounding program performs an [`Action`], tells the
//! exchange by an [`Event`] what came of it, and is given the next action, until there is a
//! reply.

use crate::input::{CachedInput, Histories};
use crate::json::{read_sensor_values, sensor_values, Json};
use crate::output::{choice, choose_output, Choice};
use crate::reply::{served, Refusal, Reply, Status};
use crate::request::PredictionRequest;
use crate::shape::{
    count_elements, count_fits, element_count, shape_of, tensor_shape, InputType,
};
use vstd::prelude::*;

verus! {

/// What came of an action.
#[derive(Debug)]
pub enum Event<T> {
    /// What the model declares of its first input, or `None` where it declares no input.
    Inspected(Option<InputType>),
    /// The input resource answered with an error status.
    ResourceStatus(String),
    /// The input resource could not be asked.
    ResourceUnreachable(String),
    /// The answer of the input resource is no JSON document.
    ResourceMalformed(String),
    /// The document that the input resource answered with.
    InputFetched(Json<T>),
    /// The new covariate values are no JSON array of numbers.
    CovariatesMalformed(String),
    /// The new covariate values.
    CovariatesParsed(Vec<T>),
    /// The model could not be run, or its output could not be read.
    InferenceFailed(String),
    /// The names of the outputs that the model gave, in their order.
    Ran(Vec<String>),
    /// The values of the chosen output.
    Extracted(Vec<T>),
    /// The predictions as a JSON text, or why there is none.
    Encoded(Result<String, String>),
}

/// What is to be done next.
#[derive(Debug)]
pub enum Action<T> {
    /// Fetch a JSON document from this address.
    FetchInput(String),
    /// Read this text as a JSON array of numbers.
    ParseCovariates(String),
    /// Run the model on a tensor of this shape with these values.
    Infer { shape: Vec<usize>, data: Vec<T> },
    /// Read the values of this output.
    Extract(Choice),
    /// Write these values as a JSON array.
    Encode(Vec<T>),
    /// Send this reply: the exchange is over.
    Respond(Reply),
    /// Nothing: the event was none that the exchange waits for.
    Ignore,
}

/// The mathematical counterpart of [`Action`].
#[verifier::ext_equal]
pub enum Next<T> {
    FetchInput(Seq<char>),
    ParseCovariates(Seq<char>),
    Infer { shape: Seq<usize>, data: Seq<T> },
    Extract(Choice),
    Encode(Seq<T>),
    Respond { status: Status, body: Seq<char> },
    Ignore,
}

impl<T> View for Action<T> {
    type V = Next<T>;

    open spec fn view(&self) -> Next<T> {
        match self {
            Action::FetchInput(url) => Next::FetchInput(url@),
            Action::ParseCovariates(text) => Next::ParseCovariates(text@),
            Action::Infer { shape, data } => Next::Infer { shape: shape@, data: data@ },
            Action::Extract(choice) => Next::Extract(*choice),
            Action::Encode(values) => Next::Encode(values@),
            Action::Respond(reply) => Next::Respond { status: reply.status, body: reply.body@ },
            Action::Ignore => Next::Ignore,
        }
    }
}

/// What an exchange waits for.
#[verifier::ext_equal]
pub enum Stage {
    /// What the model declares of its input.
    Inspect,
    /// The document with the first input, for a model with input of this shape.
    FetchInput(Seq<usize>),
    /// The new covariate values, for a model with input of this shape.
    ParseCovariates(Seq<usize>),
    /// The outputs of the model.
    Infer,
    /// The predictions.
    Extract,
    /// The predictions as a text.
    Encode,
    /// Nothing: there is a reply.
    Done,
}

/// What an event leads to.
#[verifier::ext_equal]
pub struct Transition<T> {
    pub stage: Stage,
    pub next: Next<T>,
    pub histories: Histories<T>,
}

/// The exchange ends with a refusal, and the cached input stays as it is.
pub open spec fn refuse<T>(refusal: Refusal, histories: Histories<T>) -> Transition<T> {
    Transition {
        stage: Stage::Done,
        next: Next::Respond { status: refusal.status(), body: refusal.text() },
        histories,
    }
}

/// The model is run on the cached input.
pub open spec fn infer<T>(shape: Seq<usize>, histories: Histories<T>) -> Transition<T> {
    Transition {
        stage: Stage::Infer,
        next: Next::Infer { shape, data: histories.tensor_data(shape) },
        histories,
    }
}

/// The model takes floats of these dimensions. They must be as many as the request has. An
/// initial request then needs an address for its input; any other needs a cached input and new
/// covariate values.
pub open spec fn inspected<T>(
    request: PredictionRequest,
    dimensions: Seq<i64>,
    histories: Histories<T>,
) -> Transition<T> {
    let shape = tensor_shape(dimensions);
    let elements = element_count(shape);
    if elements != request.total() {
        refuse(
            Refusal::ElementCount {
                elements: elements as usize,
                sensors: request.sensors,
                covariates: request.covariates,
                input_size: request.input_size,
                expected: request.total() as usize,
            },
            histories,
        )
    } else if request.init {
        match request.input_resource {
            Some(url) => if url@.len() > 0 {
                Transition {
                    stage: Stage::FetchInput(shape),
                    next: Next::FetchInput(url@),
                    histories,
                }
            } else {
                refuse(Refusal::MissingResource, histories)
            },
            None => refuse(Refusal::MissingResource, histories),
        }
    } else if histories.data.len() == 0 {
        refuse(Refusal::NotInitialized, histories)
    } else {
        match request.input {
            Some(text) => Transition {
                stage: Stage::ParseCovariates(shape),
                next: Next::ParseCovariates(text@),
                histories,
            },
            None => refuse(Refusal::MissingInput, histories),
        }
    }
}

/// The histories that an initial request caches.
pub open spec fn initial_histories<T>(request: PredictionRequest, values: Seq<T>) -> Histories<T> {
    Histories {
        data: values,
        sensors: request.sensors,
        covariates: request.covariates,
        input_size: request.input_size,
    }
}

/// The input document has come. It must hold as many sensor values as the request has, and they
/// become the cached input.
pub open spec fn fetched<T>(
    request: PredictionRequest,
    shape: Seq<usize>,
    document: Json<T>,
    histories: Histories<T>,
) -> Transition<T> {
    match sensor_values(document) {
        Err(refusal) => refuse(refusal, histories),
        Ok(values) => if values.len() != request.total() {
            refuse(
                Refusal::FlattenedLength {
                    found: values.len() as usize,
                    expected: request.total() as usize,
                },
                histories,
            )
        } else {
            infer(shape, initial_histories(request, values))
        },
    }
}

/// The new covariate values have come. There must be one for each covariate, and the cached
/// input must have the dimensions of the request; it is given the values.
pub open spec fn parsed<T>(
    request: PredictionRequest,
    shape: Seq<usize>,
    values: Seq<T>,
    histories: Histories<T>,
) -> Transition<T> {
    if values.len() != request.covariates {
        refuse(
            Refusal::CovariateCount {
                expected: request.covariates,
                found: values.len() as usize,
            },
            histories,
        )
    } else if !histories.has_dimensions(
        request.sensors,
        request.covariates,
        request.input_size,
    ) {
        refuse(Refusal::DimensionsChanged, histories)
    } else {
        infer(shape, histories.with_covariates(values))
    }
}

/// The model was run. The output that holds the predictions is read.
pub open spec fn ran<T>(names: Seq<String>, histories: Histories<T>) -> Transition<T> {
    match choice(names) {
        Choice::Nothing => refuse(Refusal::NoOutputs, histories),
        chosen => Transition { stage: Stage::Extract, next: Next::Extract(chosen), histories },
    }
}

/// The predictions have come. There must be one for each sensor, and the cached input is given
/// them.
pub open spec fn extracted<T>(predictions: Seq<T>, histories: Histories<T>) -> Transition<T> {
    if predictions.len() != histories.sensors {
        refuse(
            Refusal::PredictionCount {
                found: predictions.len() as usize,
                sensors: histories.sensors,
            },
            histories,
        )
    } else {
        Transition {
            stage: Stage::Encode,
            next: Next::Encode(predictions),
            histories: histories.with_predictions(predictions),
        }
    }
}

/// What `event` leads to in an exchange for `request` that is at `stage`, with `histories`
/// cached. An event that the exchange does not wait for changes nothing.
pub open spec fn transition<T>(
    request: PredictionRequest,
    stage: Stage,
    event: Event<T>,
    histories: Histories<T>,
) -> Transition<T> {
    match (stage, event) {
        (Stage::Inspect, Event::Inspected(None)) => refuse(Refusal::NoModelInputs, histories),
        (Stage::Inspect, Event::Inspected(Some(InputType::Other(kind)))) => refuse(
            Refusal::UnexpectedInput(kind),
            histories,
        ),
        (Stage::Inspect, Event::Inspected(Some(InputType::Floats(dimensions)))) => inspected(
            request,
            dimensions@,
            histories,
        ),
        (Stage::FetchInput(_), Event::ResourceStatus(report)) => refuse(
            Refusal::ResourceStatus(report),
            histories,
        ),
        (Stage::FetchInput(_), Event::ResourceUnreachable(report)) => refuse(
            Refusal::ResourceUnreachable(report),
            histories,
        ),
        (Stage::FetchInput(_), Event::ResourceMalformed(report)) => refuse(
            Refusal::ResourceMalformed(report),
            histories,
        ),
        (Stage::FetchInput(shape), Event::InputFetched(document)) => fetched(
            request,
            shape,
            document,
            histories,
        ),
        (Stage::ParseCovariates(_), Event::CovariatesMalformed(report)) => refuse(
            Refusal::CovariatesMalformed(report),
            histories,
        ),
        (Stage::ParseCovariates(shape), Event::CovariatesParsed(values)) => parsed(
            request,
            shape,
            values@,
            histories,
        ),
        (Stage::Infer, Event::InferenceFailed(report)) => refuse(
            Refusal::Inference(report),
            histories,
        ),
        (Stage::Infer, Event::Ran(names)) => ran(names@, histories),
        (Stage::Extract, Event::InferenceFailed(report)) => refuse(
            Refusal::Inference(report),
            histories,
        ),
        (Stage::Extract, Event::Extracted(predictions)) => extracted(predictions@, histories),
        (Stage::Encode, Event::Encoded(Ok(text))) => Transition {
            stage: Stage::Done,
            next: Next::Respond { status: Status::Success, body: text@ },
            histories,
        },
        (Stage::Encode, Event::Encoded(Err(report))) => Transition {
            stage: Stage::Done,
            next: Next::Respond { status: Status::Success, body: report@ },
            histories,
        },
        _ => Transition { stage, next: Next::Ignore, histories },
    }
}

/// The numbers of values that `event` and `request` speak of are machine integers.
pub open spec fn countable<T>(request: PredictionRequest, event: Event<T>) -> bool {
    event matches Event::Inspected(Some(InputType::Floats(dimensions))) ==> {
        &&& count_fits(tensor_shape(dimensions@))
        &&& request.fits()
    }
}

/// What an exchange waits for.
enum Waiting {
    Inspect,
    FetchInput(Vec<usize>),
    ParseCovariates(Vec<usize>),
    Infer,
    Extract,
    Encode,
    Done,
}

/// An exchange that serves one request.
pub struct Exchange {
    request: PredictionRequest,
    waiting: Waiting,
}

impl Exchange {
    /// The request that is served.
    pub closed spec fn request(self) -> PredictionRequest {
        self.request
    }

    /// What the exchange waits for.
    pub closed spec fn stage(self) -> Stage {
        match self.waiting {
            Waiting::Inspect => Stage::Inspect,
            Waiting::FetchInput(shape) => Stage::FetchInput(shape@),
            Waiting::ParseCovariates(shape) => Stage::ParseCovariates(shape@),
            Waiting::Infer => Stage::Infer,
            Waiting::Extract => Stage::Extract,
            Waiting::Encode => Stage::Encode,
            Waiting::Done => Stage::Done,
        }
    }

    /// An exchange that knows the shape of the model's input has counted its values.
    pub open spec fn wf(self) -> bool {
        (self.stage() is FetchInput || self.stage() is ParseCovariates) ==> self.request().fits()
    }

    /// An exchange that has just begun.
    pub fn new(request: PredictionRequest) -> (exchange: Exchange)
        ensures
            exchange.request() == request,
            exchange.stage() is Inspect,
            exchange.wf(),
    {
        Exchange { request, waiting: Waiting::Inspect }
    }

    /// Whether the numbers of values that `event` and the request speak of are machine integers.
    /// Only then can the exchange take in the event.
    pub fn can_count<T>(&self, event: &Event<T>) -> (countable: bool)
        ensures
            countable == self::countable(self.request(), *event),
    {
        match event {
            Event::Inspected(Some(InputType::Floats(dimensions))) => count_elements(
                &shape_of(dimensions),
            ).is_some() && self.request.expected_total().is_some(),
            _ => true,
        }
    }

    /// Takes in what came of the last action, and says what is to be done next.
    pub fn step<T: Copy>(&mut self, event: Event<T>, cached: &mut CachedInput<T>) -> (action:
        Action<T>)
        requires
            old(self).wf(),
            old(cached)@.wf(),
            countable(old(self).request(), event),
        ensures
            final(self).wf(),
            final(self).request() == old(self).request(),
            final(cached)@.wf(),
            (Transition {
                stage: final(self).stage(),
                next: action@,
                histories: final(cached)@,
            }) == transition(old(self).request(), old(self).stage(), event, old(cached)@),
    {
        let mut waiting: Waiting = Waiting::Done;
        std::mem::swap(&mut self.waiting, &mut waiting);
        match (waiting, event) {
            (Waiting::Inspect, Event::Inspected(None)) => self.refuse(Refusal::NoModelInputs),
            (Waiting::Inspect, Event::Inspected(Some(InputType::Other(kind)))) => self.refuse(
                Refusal::UnexpectedInput(kind),
            ),
            (Waiting::Inspect, Event::Inspected(Some(InputType::Floats(dimensions)))) =>
                self.on_inspected(&dimensions, cached),
            (Waiting::FetchInput(_), Event::ResourceStatus(report)) => self.refuse(
                Refusal::ResourceStatus(report),
            ),
            (Waiting::FetchInput(_), Event::ResourceUnreachable(report)) => self.refuse(
                Refusal::ResourceUnreachable(report),
            ),
            (Waiting::FetchInput(_), Event::ResourceMalformed(report)) => self.refuse(
                Refusal::ResourceMalformed(report),
            ),
            (Waiting::FetchInput(shape), Event::InputFetched(document)) => self.on_fetched(
                shape,
                &document,
                cached,
            ),
            (Waiting::ParseCovariates(_), Event::CovariatesMalformed(report)) => self.refuse(
                Refusal::CovariatesMalformed(report),
            ),
            (Waiting::ParseCovariates(shape), Event::CovariatesParsed(values)) => self.on_parsed(
                shape,
                &values,
                cached,
            ),
            (Waiting::Infer, Event::InferenceFailed(report)) => self.refuse(
                Refusal::Inference(report),
            ),
            (Waiting::Infer, Event::Ran(names)) => self.on_ran(&names, cached),
            (Waiting::Extract, Event::InferenceFailed(report)) => self.refuse(
                Refusal::Inference(report),
            ),
            (Waiting::Extract, Event::Extracted(predictions)) => self.on_extracted(
                predictions,
                cached,
            ),
            (Waiting::Encode, Event::Encoded(Ok(text))) => Action::Respond(served(text)),
            (Waiting::Encode, Event::Encoded(Err(report))) => Action::Respond(served(report)),
            (waiting, _) => {
                self.waiting = waiting;
                Action::Ignore
            },
        }
    }

    /// The exchange is over with a refusal.
    fn refuse<T>(&self, refusal: Refusal) -> (action: Action<T>)
        ensures
            action@ == (Next::<T>::Respond { status: refusal.status(), body: refusal.text() }),
    {
        Action::Respond(refusal.reply())
    }

    /// The model takes floats of these dimensions.
    fn on_inspected<T: Copy>(&mut self, dimensions: &Vec<i64>, cached: &CachedInput<T>) -> (action:
        Action<T>)
        requires
            old(self).stage() is Done,
            count_fits(tensor_shape(dimensions@)),
            old(self).request().fits(),
        ensures
            final(self).wf(),
            final(self).request() == old(self).request(),
            (Transition { stage: final(self).stage(), next: action@, histories: cached@ })
                == inspected(old(self).request(), dimensions@, cached@),
    {
        let shape: Vec<usize> = shape_of(dimensions);
        let elements: usize = count_elements(&shape).unwrap();
        let expected: usize = self.request.expected_total().unwrap();
        if elements != expected {
            return self.refuse(
                Refusal::ElementCount {
                    elements,
                    sensors: self.request.sensors,
                    covariates: self.request.covariates,
                    input_size: self.request.input_size,
                    expected,
                },
            );
        }
        if self.request.init {
            match &self.request.input_resource {
                Some(url) => {
                    if url.as_str().is_empty() {
                        self.refuse(Refusal::MissingResource)
                    } else {
                        let action: Action<T> = Action::FetchInput(url.clone());
                        self.waiting = Waiting::FetchInput(shape);
                        action
                    }
                },
                None => self.refuse(Refusal::MissingResource),
            }
        } else if cached.data.is_empty() {
            self.refuse(Refusal::NotInitialized)
        } else {
            match &self.request.input {
                Some(text) => {
                    let action: Action<T> = Action::ParseCovariates(text.clone());
                    self.waiting = Waiting::ParseCovariates(shape);
                    action
                },
                None => self.refuse(Refusal::MissingInput),
            }
        }
    }

    /// The model is run on the cached input.
    fn infer<T: Copy>(&mut self, shape: Vec<usize>, cached: &CachedInput<T>) -> (action: Action<T>)
        requires
            cached@.wf(),
        ensures
            final(self).wf(),
            final(self).request() == old(self).request(),
            (Transition { stage: final(self).stage(), next: action@, histories: cached@ })
                == infer(shape@, cached@),
    {
        self.waiting = Waiting::Infer;
        let data: Vec<T> = cached.input_data(&shape);
        Action::Infer { shape, data }
    }

    /// The input document has come.
    fn on_fetched<T: Copy>(
        &mut self,
        shape: Vec<usize>,
        document: &Json<T>,
        cached: &mut CachedInput<T>,
    ) -> (action: Action<T>)
        requires
            old(self).stage() is Done,
            old(self).request().fits(),
            old(cached)@.wf(),
        ensures
            final(self).wf(),
            final(self).request() == old(self).request(),
            final(cached)@.wf(),
            (Transition {
                stage: final(self).stage(),
                next: action@,
                histories: final(cached)@,
            }) == fetched(old(self).request(), shape@, *document, old(cached)@),
    {
        let values: Vec<T> = match read_sensor_values(document) {
            Ok(values) => values,
            Err(refusal) => {
                return self.refuse(refusal);
            },
        };
        let expected: usize = self.request.expected_total().unwrap();
        if values.len() != expected {
            return self.refuse(Refusal::FlattenedLength { found: values.len(), expected });
        }
        *cached = CachedInput {
            data: values,
            sensors: self.request.sensors,
            covariates: self.request.covariates,
            input_size: self.request.input_size,
        };
        self.infer(shape, cached)
    }

    /// The new covariate values have come.
    fn on_parsed<T: Copy>(
        &mut self,
        shape: Vec<usize>,
        values: &Vec<T>,
        cached: &mut CachedInput<T>,
    ) -> (action: Action<T>)
        requires
            old(self).stage() is Done,
            old(self).request().fits(),
            old(cached)@.wf(),
        ensures
            final(self).wf(),
            final(self).request() == old(self).request(),
            final(cached)@.wf(),
            (Transition {
                stage: final(self).stage(),
                next: action@,
                histories: final(cached)@,
            }) == parsed(old(self).request(), shape@, values@, old(cached)@),
    {
        if values.len() != self.request.covariates {
            return self.refuse(
                Refusal::CovariateCount {
                    expected: self.request.covariates,
                    found: values.len(),
                },
            );
        }
        if cached.sensors != self.request.sensors || cached.covariates != self.request.covariates
            || cached.input_size != self.request.input_size {
            return self.refuse(Refusal::DimensionsChanged);
        }
        cached.update_covariates(values);
        self.infer(shape, cached)
    }

    /// The model was run.
    fn on_ran<T>(&mut self, names: &Vec<String>, cached: &CachedInput<T>) -> (action: Action<T>)
        requires
            old(self).stage() is Done,
        ensures
            final(self).wf(),
            final(self).request() == old(self).request(),
            (Transition { stage: final(self).stage(), next: action@, histories: cached@ })
                == ran(names@, cached@),
    {
        match choose_output(names) {
            Choice::Nothing => self.refuse(Refusal::NoOutputs),
            chosen => {
                self.waiting = Waiting::Extract;
                Action::Extract(chosen)
            },
        }
    }

    /// The predictions have come.
    fn on_extracted<T: Copy>(
        &mut self,
        predictions: Vec<T>,
        cached: &mut CachedInput<T>,
    ) -> (action: Action<T>)
        requires
            old(self).stage() is Done,
            old(cached)@.wf(),
        ensures
            final(self).wf(),
            final(self).request() == old(self).request(),
            final(cached)@.wf(),
            (Transition {
                stage: final(self).stage(),
                next: action@,
                histories: final(cached)@,
            }) == extracted(predictions@, old(cached)@),
    {
        if predictions.len() != cached.sensors {
            return self.refuse(
                Refusal::PredictionCount { found: predictions.len(), sensors: cached.sensors },
            );
        }
        cached.update_sensors(&predictions);
        self.waiting = Waiting::Encode;
        Action::Encode(predictions)
    }
}

/// The view of an action shows what it asks for.
pub proof fn actions_show_their_fields<T>(action: Action<T>)
    ensures
        action matches Action::FetchInput(url) ==> action@ == Next::<T>::FetchInput(url@),
        action matches Action::ParseCovariates(text) ==> action@ == Next::<T>::ParseCovariates(
            text@,
        ),
        action matches Action::Infer { shape, data } ==> action@ == (Next::Infer {
            shape: shape@,
            data: data@,
        }),
        action matches Action::Extract(chosen) ==> action@ == Next::<T>::Extract(chosen),
        action matches Action::Encode(values) ==> action@ == Next::Encode(values@),
        action matches Action::Respond(reply) ==> action@ == (Next::<T>::Respond {
            status: reply.status,
            body: reply.body@,
        }),
        action is Ignore ==> action@ is Ignore,
{
}

/// An exchange can count the values of a model with float input exactly if every product on the
/// way to its number of elements, the number of series and the number of values of the request
/// are machine integers. Any other event asks for no counting.
pub proof fn countable_events<T>(request: PredictionRequest, event: Event<T>)
    ensures
        event matches Event::Inspected(Some(InputType::Floats(dimensions))) ==> (countable(
            request,
            event,
        ) <==> request.sensors + request.covariates <= usize::MAX && (request.sensors
            + request.covariates) * request.input_size <= usize::MAX && forall|k: int|
            0 <= k <= dimensions@.len() ==> #[trigger] element_count(
                tensor_shape(dimensions@).take(k),
            ) <= usize::MAX),
        !(event matches Event::Inspected(Some(InputType::Floats(_)))) ==> countable(request, event),
{
    crate::request::requests_count_their_values(request);
}

} // verus!
