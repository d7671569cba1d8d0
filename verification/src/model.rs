//! Loading a model, and what the model declares of its input.

use crate::reply::Refusal;
use crate::request::PredictionRequest;
use crate::shape::{
    accepted, declarations, declared, input_of, DeclarationView, InputDeclaration, InputType,
};
use ort::environment::Environment;
use ort::session::builder::{GraphOptimizationLevel, SessionBuilder};
use ort::session::Session;
use ort::value::ValueType;
use vstd::prelude::*;

verus! {

/// A model that is ready to run.
pub type Model = Session;

/// How many models are kept loaded at the same time. It is greater than 0.
pub const MAX_CACHED_MODELS: u64 = 8;

/// How far ONNX Runtime rewrites a model's graph before running it.
#[derive(Debug, Clone, Copy, PartialEq, Eq, Structural)]
pub enum OptimizationLevel {
    Disable,
    Level1,
    Level2,
    Level3,
}

/// `ort::environment::Environment`: an ONNX Runtime that has been loaded into the process. `ort`
/// makes one only once it has the library at hand.
#[verifier::external_type_specification]
#[verifier::external_body]
pub struct ExEnvironment(Environment);

/// `ort::session::builder::SessionBuilder`: the settings of a session that is not built yet.
#[verifier::external_type_specification]
#[verifier::external_body]
pub struct ExSessionBuilder(SessionBuilder);

/// `ort::session::Session`: a model that ONNX Runtime has loaded.
#[verifier::external_type_specification]
#[verifier::external_body]
pub struct ExSession(Session);

/// `ort::Error`: why a call into ONNX Runtime failed.
#[verifier::external_type_specification]
#[verifier::external_body]
pub struct ExOrtError(ort::Error);

/// The optimization level that a builder was last given.
pub uninterp spec fn builder_level(builder: SessionBuilder) -> Option<OptimizationLevel>;

/// The number of threads within an operator that a builder was last given.
pub uninterp spec fn builder_threads(builder: SessionBuilder) -> Option<usize>;

/// What a session was built from.
pub struct Origin {
    /// The bytes of the model.
    pub model: Seq<u8>,
    /// The optimization level that the builder had been given.
    pub level: Option<OptimizationLevel>,
    /// The number of threads within an operator that the builder had been given.
    pub threads: Option<usize>,
}

/// What a session was built from.
pub uninterp spec fn session_origin(session: Session) -> Origin;

/// What a session's model declares of its inputs, in their order.
pub uninterp spec fn session_inputs(session: Session) -> Seq<DeclarationView>;

/// Calls `ort::session::Session::builder`. Nothing is claimed of the new builder, nor when there
/// is one: that is up to the ONNX Runtime of the machine. That there is one in the process, the
/// environment shows: without it the call would panic.
#[verifier::external_body]
fn session_builder(_runtime: &Environment) -> (builder: Result<SessionBuilder, ort::Error>) {
    Session::builder()
}

/// Calls `ort::session::builder::SessionBuilder::with_optimization_level`. Where it succeeds, the
/// builder has the given level, and the number of threads that it had before.
#[verifier::external_body]
fn with_optimization_level(builder: SessionBuilder, level: OptimizationLevel) -> (changed: Result<
    SessionBuilder,
    ort::Error,
>)
    ensures
        changed matches Ok(b) ==> builder_level(b) == Some(level) && builder_threads(b)
            == builder_threads(builder),
{
    builder.with_optimization_level(
        match level {
            OptimizationLevel::Disable => GraphOptimizationLevel::Disable,
            OptimizationLevel::Level1 => GraphOptimizationLevel::Level1,
            OptimizationLevel::Level2 => GraphOptimizationLevel::Level2,
            OptimizationLevel::Level3 => GraphOptimizationLevel::Level3,
        },
    )
}

/// Calls `ort::session::builder::SessionBuilder::with_intra_threads`. Where it succeeds, the
/// builder has the level that it had before, and the given number of threads; of numbers beyond
/// the 32-bit integers, to which ONNX Runtime's own interface is limited, that is not claimed.
#[verifier::external_body]
fn with_intra_threads(builder: SessionBuilder, threads: usize) -> (changed: Result<
    SessionBuilder,
    ort::Error,
>)
    ensures
        changed matches Ok(b) ==> builder_level(b) == builder_level(builder) && (threads
            <= i32::MAX ==> builder_threads(b) == Some(threads)),
{
    builder.with_intra_threads(threads)
}

/// Calls `ort::session::builder::SessionBuilder::commit_from_memory`. Where it succeeds, the
/// session was built from the given bytes by a builder with these settings. Which bytes are a
/// model, and how the settings are used, is up to the ONNX Runtime of the machine.
#[verifier::external_body]
fn commit_from_memory(builder: SessionBuilder, model_bytes: &[u8]) -> (session: Result<
    Session,
    ort::Error,
>)
    ensures
        session matches Ok(s) ==> session_origin(s) == (Origin {
            model: model_bytes@,
            level: builder_level(builder),
            threads: builder_threads(builder),
        }),
{
    builder.commit_from_memory(model_bytes)
}

/// Reads `ort::session::Session::inputs`: of each input the dimensions and the element type, where
/// it is a tensor, and its type in words. The result is a function of the session alone: the list
/// is filled when the session is built, and stays. An element type is given by the name of its
/// variant in `ort::tensor::TensorElementType`, which is what its `Debug` writes.
#[verifier::external_body]
fn declared_inputs(session: &Session) -> (inputs: Vec<InputDeclaration>)
    ensures
        declarations(inputs@) == session_inputs(*session),
{
    session.inputs.iter().map(|input| InputDeclaration {
        tensor: match &input.input_type {
            ValueType::Tensor { ty, shape, .. } => Some((format!("{:?}", ty), shape.to_vec())),
            ValueType::Sequence(_) => None,
            ValueType::Map { .. } => None,
            ValueType::Optional(_) => None,
        },
        text: format!("{:?}", input.input_type),
    }).collect()
}

/// Calls the `Debug` of `anyhow::Error` on an `ort::Error`: the report of the failure, with a
/// backtrace where the environment asks for one. Nothing is claimed of the text.
#[verifier::external_body]
fn report(error: ort::Error) -> (text: String) {
    format!("{:?}", anyhow::Error::from(error))
}

/// `builder` is an outcome of creating a builder.
pub closed spec fn creates(
    runtime: Environment,
    builder: Result<SessionBuilder, ort::Error>,
) -> bool {
    call_ensures(session_builder, (&runtime,), builder)
}

/// `changed` is an outcome of giving `builder` this level.
pub closed spec fn sets_level(
    builder: SessionBuilder,
    level: OptimizationLevel,
    changed: Result<SessionBuilder, ort::Error>,
) -> bool {
    call_ensures(with_optimization_level, (builder, level), changed)
}

/// `changed` is an outcome of giving `builder` this number of threads.
pub closed spec fn sets_threads(
    builder: SessionBuilder,
    threads: usize,
    changed: Result<SessionBuilder, ort::Error>,
) -> bool {
    call_ensures(with_intra_threads, (builder, threads), changed)
}

/// `model` is an outcome of building a session from these bytes with `builder`.
pub closed spec fn commits(
    builder: SessionBuilder,
    bytes: Seq<u8>,
    model: Result<Model, ort::Error>,
) -> bool {
    exists|model_bytes: &[u8]| #[trigger]
        model_bytes@ == bytes && call_ensures(commit_from_memory, (builder, model_bytes), model)
}

/// `model` follows on the outcome of setting the threads: the error, or else an outcome of
/// building the session.
pub open spec fn follows_threads(
    builder: Result<SessionBuilder, ort::Error>,
    bytes: Seq<u8>,
    model: Result<Model, ort::Error>,
) -> bool {
    match builder {
        Err(error) => model == Err::<Model, ort::Error>(error),
        Ok(builder) => commits(builder, bytes, model),
    }
}

/// `model` follows on the outcome of setting the level: the error, or else what follows on an
/// outcome of setting the threads.
pub open spec fn follows_level(
    builder: Result<SessionBuilder, ort::Error>,
    threads: usize,
    bytes: Seq<u8>,
    model: Result<Model, ort::Error>,
) -> bool {
    match builder {
        Err(error) => model == Err::<Model, ort::Error>(error),
        Ok(builder) => exists|changed: Result<SessionBuilder, ort::Error>| #[trigger]
            sets_threads(builder, threads, changed) && follows_threads(changed, bytes, model),
    }
}

/// `model` follows on the outcome of creating a builder: the error, or else what follows on an
/// outcome of setting the level.
pub open spec fn follows_creation(
    builder: Result<SessionBuilder, ort::Error>,
    level: OptimizationLevel,
    threads: usize,
    bytes: Seq<u8>,
    model: Result<Model, ort::Error>,
) -> bool {
    match builder {
        Err(error) => model == Err::<Model, ort::Error>(error),
        Ok(builder) => exists|changed: Result<SessionBuilder, ort::Error>| #[trigger]
            sets_level(builder, level, changed) && follows_level(changed, threads, bytes, model),
    }
}

/// `model` comes of the four steps of building a model, one after the other: it is the session of
/// the last one where all succeed, and else the error of the first one that fails.
pub open spec fn constructs(
    runtime: Environment,
    bytes: Seq<u8>,
    level: OptimizationLevel,
    threads: usize,
    model: Result<Model, ort::Error>,
) -> bool {
    exists|builder: Result<SessionBuilder, ort::Error>| #[trigger]
        creates(runtime, builder) && follows_creation(builder, level, threads, bytes, model)
}

/// Builds the model, given the outcome of setting the threads.
pub fn after_threads(builder: Result<SessionBuilder, ort::Error>, model_bytes: &[u8]) -> (model:
    Result<Model, ort::Error>)
    ensures
        follows_threads(builder, model_bytes@, model),
        builder matches Err(error) ==> model == Err::<Model, ort::Error>(error),
        builder matches Ok(b) ==> (model matches Ok(m) ==> session_origin(m) == (Origin {
            model: model_bytes@,
            level: builder_level(b),
            threads: builder_threads(b),
        })),
{
    match builder {
        Ok(builder) => commit_from_memory(builder, model_bytes),
        Err(error) => Err(error),
    }
}

/// Builds the model, given the outcome of setting the level.
pub fn after_level(
    builder: Result<SessionBuilder, ort::Error>,
    model_bytes: &[u8],
    threads: usize,
) -> (model: Result<Model, ort::Error>)
    ensures
        follows_level(builder, threads, model_bytes@, model),
        builder matches Err(error) ==> model == Err::<Model, ort::Error>(error),
        builder matches Ok(b) ==> (model matches Ok(m) ==> {
            &&& session_origin(m).model == model_bytes@
            &&& session_origin(m).level == builder_level(b)
            &&& threads <= i32::MAX ==> session_origin(m).threads == Some(threads)
        }),
{
    match builder {
        Ok(builder) => {
            let changed = with_intra_threads(builder, threads);
            assert(sets_threads(builder, threads, changed));
            after_threads(changed, model_bytes)
        },
        Err(error) => Err(error),
    }
}

/// Builds the model, given the outcome of creating a builder.
pub fn after_creation(
    builder: Result<SessionBuilder, ort::Error>,
    model_bytes: &[u8],
    level: OptimizationLevel,
    threads: usize,
) -> (model: Result<Model, ort::Error>)
    ensures
        follows_creation(builder, level, threads, model_bytes@, model),
        builder matches Err(error) ==> model == Err::<Model, ort::Error>(error),
        model matches Ok(m) ==> {
            &&& session_origin(m).model == model_bytes@
            &&& session_origin(m).level == Some(level)
            &&& threads <= i32::MAX ==> session_origin(m).threads == Some(threads)
        },
{
    match builder {
        Ok(builder) => {
            let changed = with_optimization_level(builder, level);
            assert(sets_level(builder, level, changed));
            after_level(changed, model_bytes, threads)
        },
        Err(error) => Err(error),
    }
}

/// Loads a model from its bytes. Whether ONNX Runtime takes them is up to it: the outcome is that
/// of the four steps, one after the other, and ends with the first that fails. A model that it
/// gives back was built from these bytes, at this level, and with this number of threads as far
/// as it is a 32-bit integer.
pub fn construct_model(
    runtime: &Environment,
    model_bytes: &[u8],
    level: OptimizationLevel,
    threads: usize,
) -> (model: Result<Model, ort::Error>)
    ensures
        constructs(*runtime, model_bytes@, level, threads, model),
        model matches Ok(m) ==> {
            &&& session_origin(m).model == model_bytes@
            &&& session_origin(m).level == Some(level)
            &&& threads <= i32::MAX ==> session_origin(m).threads == Some(threads)
        },
{
    let builder = session_builder(runtime);
    assert(creates(*runtime, builder));
    after_creation(builder, model_bytes, level, threads)
}

/// The input of a model that the service feeds.
pub fn model_input(model: &Model) -> (input: Option<InputType>)
    ensures
        declared(input) == accepted(session_inputs(*model)),
{
    input_of(declared_inputs(model))
}

/// What became of the search for a model.
pub enum ModelEvent {
    /// The model is loaded already.
    Hit,
    /// The model is not loaded.
    Miss,
    /// The model's bytes were fetched, and there is an ONNX Runtime to build the model with.
    Fetched(Vec<u8>, &'static Environment),
    /// The model's bytes could not be fetched.
    FetchFailed(String),
}

/// What is to be done to get at a model.
pub enum ModelAction {
    /// Go on with the model that is loaded, and its cached input.
    Use,
    /// Fetch the model's bytes from this address.
    Fetch(String),
    /// Keep this model under its address, with an input of no histories, and go on with it.
    Store(Model),
    /// Refuse the request.
    Refuse(Refusal),
}

/// Every model is loaded at the highest optimization level.
pub const LEVEL: OptimizationLevel = OptimizationLevel::Level3;

/// Every model runs on one thread.
pub const THREADS: usize = 1;

/// What follows on the attempt to build a model: a model is kept, and a failure is reported to
/// the client.
pub fn on_built(built: Result<Model, String>) -> (action: ModelAction)
    ensures
        match built {
            Ok(model) => action == ModelAction::Store(model),
            Err(report) => action == ModelAction::Refuse(Refusal::ModelUnavailable(report)),
        },
{
    match built {
        Ok(model) => ModelAction::Store(model),
        Err(report) => ModelAction::Refuse(Refusal::ModelUnavailable(report)),
    }
}

/// `text` is an outcome of reporting `error`.
pub closed spec fn reports(error: ort::Error, text: String) -> bool {
    call_ensures(report, (error,), text)
}

/// What follows on `event` in the search for the model of `request`.
pub fn acquire(request: &PredictionRequest, event: ModelEvent) -> (action: ModelAction)
    ensures
        match event {
            ModelEvent::Hit => action is Use,
            ModelEvent::Miss => action == ModelAction::Fetch(request.model_url),
            ModelEvent::FetchFailed(report) => action == ModelAction::Refuse(
                Refusal::ModelUnavailable(report),
            ),
            ModelEvent::Fetched(bytes, runtime) => exists|built: Result<Model, ort::Error>|
                {
                    &&& #[trigger] constructs(
                        *runtime,
                        bytes@,
                        OptimizationLevel::Level3,
                        1usize,
                        built,
                    )
                    &&& match built {
                        Ok(model) => action == ModelAction::Store(model) && session_origin(model)
                            == (Origin {
                            model: bytes@,
                            level: Some(OptimizationLevel::Level3),
                            threads: Some(1usize),
                        }),
                        Err(error) => action matches ModelAction::Refuse(
                            Refusal::ModelUnavailable(text),
                        ) && reports(error, text),
                    }
                },
        },
{
    match event {
        ModelEvent::Hit => ModelAction::Use,
        ModelEvent::Miss => ModelAction::Fetch(request.model_url.clone()),
        ModelEvent::FetchFailed(report) => ModelAction::Refuse(Refusal::ModelUnavailable(report)),
        ModelEvent::Fetched(bytes, runtime) => {
            let built = construct_model(runtime, bytes.as_slice(), LEVEL, THREADS);
            assert(constructs(*runtime, bytes@, LEVEL, THREADS, built));
            match built {
                Ok(model) => on_built(Ok(model)),
                Err(error) => on_built(Err(report(error))),
            }
        },
    }
}

/// There is room for models, eight of them.
pub proof fn models_are_kept()
    ensures
        MAX_CACHED_MODELS > 0,
        MAX_CACHED_MODELS == 8,
{
}

/// A model comes of four steps that all succeed, each on what the one before gave: a builder is
/// created, given the level, given the threads, and builds the session from the bytes. An error
/// is that of one of these steps, and all steps before it succeeded.
pub proof fn models_come_of_four_steps(
    runtime: Environment,
    bytes: Seq<u8>,
    level: OptimizationLevel,
    threads: usize,
    model: Result<Model, ort::Error>,
)
    requires
        constructs(runtime, bytes, level, threads, model),
    ensures
        model is Ok ==> exists|b1: SessionBuilder, b2: SessionBuilder, b3: SessionBuilder|
            {
                &&& creates(runtime, Ok(b1))
                &&& #[trigger] sets_level(b1, level, Ok(b2))
                &&& #[trigger] sets_threads(b2, threads, Ok(b3))
                &&& commits(b3, bytes, model)
            },
        model matches Err(error) ==> {
            ||| creates(runtime, Err(error))
            ||| exists|b1: SessionBuilder|
                {
                    &&& creates(runtime, Ok(b1))
                    &&& #[trigger] sets_level(b1, level, Err(error))
                }
            ||| exists|b1: SessionBuilder, b2: SessionBuilder|
                {
                    &&& creates(runtime, Ok(b1))
                    &&& #[trigger] sets_level(b1, level, Ok(b2))
                    &&& #[trigger] sets_threads(b2, threads, Err(error))
                }
            ||| exists|b1: SessionBuilder, b2: SessionBuilder, b3: SessionBuilder|
                {
                    &&& creates(runtime, Ok(b1))
                    &&& #[trigger] sets_level(b1, level, Ok(b2))
                    &&& #[trigger] sets_threads(b2, threads, Ok(b3))
                    &&& commits(b3, bytes, model)
                }
        },
{
}

} // verus!
