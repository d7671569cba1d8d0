//! What a client is answered.

use crate::text::{decimal, prefixed, push_decimal};
use vstd::prelude::*;
use vstd::string::StringExecFns;

verus! {

/// The status of a reply, one for each HTTP status that the service answers with.
#[derive(Debug, Clone, Copy, PartialEq, Eq, Structural)]
pub enum Status {
    /// 200
    Success,
    /// 400
    BadRequest,
    /// 500
    InternalServerError,
}

/// A reply: its status and its body.
#[derive(Debug)]
pub struct Reply {
    pub status: Status,
    pub body: String,
}

/// Why a request is refused. A `String` holds the report of an outside failure.
#[derive(Debug)]
pub enum Refusal {
    /// The model could not be fetched or built.
    ModelUnavailable(String),
    /// The model declares no input.
    NoModelInputs,
    /// The first input of the model is no tensor of floats.
    UnexpectedInput(String),
    /// The model takes another number of values than the request has.
    ElementCount {
        elements: usize,
        sensors: usize,
        covariates: usize,
        input_size: usize,
        expected: usize,
    },
    /// There is nowhere to fetch the first input from.
    MissingResource,
    /// The input resource answered with an error status.
    ResourceStatus(String),
    /// The input resource could not be asked.
    ResourceUnreachable(String),
    /// The answer of the input resource is no JSON document.
    ResourceMalformed(String),
    /// The document has no field `sensor_`.
    MissingSensorKey,
    /// The field `sensor_` is no array.
    SensorNotArray,
    /// A row of the field `sensor_` is no array.
    RowNotArray,
    /// A cell of the field `sensor_` is no number.
    NonNumeric,
    /// The field `sensor_` holds another number of values than the request has.
    FlattenedLength { found: usize, expected: usize },
    /// No input has been cached for the model yet.
    NotInitialized,
    /// The new covariate values are missing.
    MissingInput,
    /// The new covariate values are no JSON array of numbers.
    CovariatesMalformed(String),
    /// The number of new covariate values is not that of the covariates.
    CovariateCount { expected: usize, found: usize },
    /// The cached input was made for other dimensions.
    DimensionsChanged,
    /// The model could not be run, or its output could not be read.
    Inference(String),
    /// The model gave no output.
    NoOutputs,
    /// The number of predictions is not that of the sensors.
    PredictionCount { found: usize, sensors: usize },
}

impl Refusal {
    /// A request is refused with status 500 where the model is at fault before it is given any
    /// input or gives no output at all, and with 400 otherwise.
    pub open spec fn status(self) -> Status {
        match self {
            Refusal::ModelUnavailable(_) => Status::InternalServerError,
            Refusal::NoModelInputs => Status::InternalServerError,
            Refusal::NoOutputs => Status::InternalServerError,
            _ => Status::BadRequest,
        }
    }

    /// What the client is told.
    pub open spec fn text(self) -> Seq<char> {
        match self {
            Refusal::ModelUnavailable(report) => report@,
            Refusal::NoModelInputs => "Model has no inputs"@,
            Refusal::UnexpectedInput(kind) => "Unexpected model input type: "@ + kind@,
            Refusal::ElementCount { elements, sensors, covariates, input_size, expected } =>
                "Model input element count ("@ + decimal(elements as nat)
                    + ") does not match expected (sensors+covariates)*input_size = ("@
                    + decimal(sensors as nat) + "+"@
                    + decimal(covariates as nat) + ")*"@
                    + decimal(input_size as nat) + " = "@
                    + decimal(expected as nat),
            Refusal::MissingResource => "init=true requires input_resource"@,
            Refusal::ResourceStatus(report) => "input_resource returned error status: "@ + report@,
            Refusal::ResourceUnreachable(report) => "Failed to GET input_resource: "@ + report@,
            Refusal::ResourceMalformed(report) =>
                "Failed to parse JSON from input_resource: "@ + report@,
            Refusal::MissingSensorKey => "input_resource JSON missing key \"sensor_\""@,
            Refusal::SensorNotArray => "sensor_ must be an array"@,
            Refusal::RowNotArray => "sensor_ must be an array of arrays"@,
            Refusal::NonNumeric => "sensor_ contains non-numeric value"@,
            Refusal::FlattenedLength { found, expected } =>
                "Flattened sensor_ length ("@ + decimal(found as nat)
                    + ") does not match expected_total ("@
                    + decimal(expected as nat) + ")"@,
            Refusal::NotInitialized =>
                "init=false received but no cached input exists; call init=true first"@,
            Refusal::MissingInput => "init=false requires input (new covariate values)"@,
            Refusal::CovariatesMalformed(report) =>
                "Invalid input JSON for covariates: "@ + report@,
            Refusal::CovariateCount { expected, found } =>
                "Expected "@ + decimal(expected as nat) + " covariate values, got "@
                    + decimal(found as nat),
            Refusal::DimensionsChanged =>
                "Cached input dimensions do not match request; call init=true again"@,
            Refusal::Inference(report) => report@,
            Refusal::NoOutputs => "Model produced no outputs"@,
            Refusal::PredictionCount { found, sensors } =>
                "Model output length ("@ + decimal(found as nat)
                    + ") does not match sensors ("@ + decimal(sensors as nat)
                    + ")"@,
        }
    }

    /// The reply to a refused request.
    pub fn reply(self) -> (reply: Reply)
        ensures
            reply.status == self.status(),
            reply.body@ == self.text(),
    {
        let status: Status = match &self {
            Refusal::ModelUnavailable(_) => Status::InternalServerError,
            Refusal::NoModelInputs => Status::InternalServerError,
            Refusal::NoOutputs => Status::InternalServerError,
            _ => Status::BadRequest,
        };
        Reply { status, body: self.into_text() }
    }

    /// What the client is told.
    fn into_text(self) -> (text: String)
        ensures
            text@ == self.text(),
    {
        match self {
            Refusal::ModelUnavailable(report) => report,
            Refusal::NoModelInputs => "Model has no inputs".to_owned(),
            Refusal::UnexpectedInput(kind) => prefixed(
                "Unexpected model input type: ",
                kind.as_str(),
            ),
            Refusal::ElementCount { elements, sensors, covariates, input_size, expected } => {
                let mut text: String = "Model input element count (".to_owned();
                push_decimal(&mut text, elements);
                text.append(") does not match expected (sensors+covariates)*input_size = (");
                push_decimal(&mut text, sensors);
                text.append("+");
                push_decimal(&mut text, covariates);
                text.append(")*");
                push_decimal(&mut text, input_size);
                text.append(" = ");
                push_decimal(&mut text, expected);
                text
            },
            Refusal::MissingResource => "init=true requires input_resource".to_owned(),
            Refusal::ResourceStatus(report) => prefixed(
                "input_resource returned error status: ",
                report.as_str(),
            ),
            Refusal::ResourceUnreachable(report) => prefixed(
                "Failed to GET input_resource: ",
                report.as_str(),
            ),
            Refusal::ResourceMalformed(report) => prefixed(
                "Failed to parse JSON from input_resource: ",
                report.as_str(),
            ),
            Refusal::MissingSensorKey => "input_resource JSON missing key \"sensor_\"".to_owned(),
            Refusal::SensorNotArray => "sensor_ must be an array".to_owned(),
            Refusal::RowNotArray => "sensor_ must be an array of arrays".to_owned(),
            Refusal::NonNumeric => "sensor_ contains non-numeric value".to_owned(),
            Refusal::FlattenedLength { found, expected } => {
                let mut text: String = "Flattened sensor_ length (".to_owned();
                push_decimal(&mut text, found);
                text.append(") does not match expected_total (");
                push_decimal(&mut text, expected);
                text.append(")");
                text
            },
            Refusal::NotInitialized =>
                "init=false received but no cached input exists; call init=true first".to_owned(),
            Refusal::MissingInput => "init=false requires input (new covariate values)".to_owned(),
            Refusal::CovariatesMalformed(report) => prefixed(
                "Invalid input JSON for covariates: ",
                report.as_str(),
            ),
            Refusal::CovariateCount { expected, found } => {
                let mut text: String = "Expected ".to_owned();
                push_decimal(&mut text, expected);
                text.append(" covariate values, got ");
                push_decimal(&mut text, found);
                text
            },
            Refusal::DimensionsChanged =>
                "Cached input dimensions do not match request; call init=true again".to_owned(),
            Refusal::Inference(report) => report,
            Refusal::NoOutputs => "Model produced no outputs".to_owned(),
            Refusal::PredictionCount { found, sensors } => {
                let mut text: String = "Model output length (".to_owned();
                push_decimal(&mut text, found);
                text.append(") does not match sensors (");
                push_decimal(&mut text, sensors);
                text.append(")");
                text
            },
        }
    }
}

/// The reply to a request that was served.
pub fn served(body: String) -> (reply: Reply)
    ensures
        reply.status == Status::Success,
        reply.body == body,
{
    Reply { status: Status::Success, body }
}

/// A client whose model cannot be had is told so with status 500, in the words of the report and
/// no others. Two reports of different words give different replies.
pub proof fn unavailable_models_are_reported(report: String, other: String)
    ensures
        Refusal::ModelUnavailable(report).status() == Status::InternalServerError,
        Refusal::ModelUnavailable(report).text() == report@,
        report@ != other@ ==> Refusal::ModelUnavailable(report).text()
            != Refusal::ModelUnavailable(other).text(),
{
}

} // verus!
