//! The single fetch-and-decode cycle: what one invocation owes its caller
//! for every way the exchange with the remote service can go.
//!
//! The surrounding application performs the one network round trip and
//! reports what it observed as a [`FetchEvent`]; [`fetch_outcome`] turns
//! that observation into the caller-visible result. Every decision — is the
//! status a success, does the body decode, which error is surfaced — is
//! made here and verified against [`spec_fetch_outcome`].

use vstd::prelude::*;
use vstd::string::*;
use crate::device::{DeviceModel, SmartDevice};
use crate::json::spec_parse_devices;
use crate::json::parse_devices;
use crate::text::{chars_of, spec_decimal, u16_to_decimal};
use crate::{is_success_status, spec_is_success};

verus! {

/// Everything that one fetch can report: a failure of the transport itself
/// (with its description), or a response with its status code and body.
pub enum FetchEvent {
    TransportFailed(String),
    Responded(u16, String),
}

/// Mathematical image of a [`FetchEvent`].
pub ghost enum EventModel {
    TransportFailed(Seq<char>),
    Responded(u16, Seq<char>),
}

impl View for FetchEvent {
    type V = EventModel;

    open spec fn view(&self) -> EventModel {
        match self {
            FetchEvent::TransportFailed(d) => EventModel::TransportFailed(d@),
            FetchEvent::Responded(status, body) => EventModel::Responded(*status, body@),
        }
    }
}

/// Why a fetch returned no devices: the transport failed (with the
/// transport's description), the response's status was no success (with the
/// numeric status), or a successful response's body did not decode.
#[derive(Debug)]
pub enum FetchError {
    NetworkError(String),
    HttpStatusError(u16),
    DecodeError(String),
}

/// Mathematical image of a [`FetchError`].
pub ghost enum ErrorModel {
    Network(Seq<char>),
    HttpStatus(u16),
    Decode(Seq<char>),
}

impl View for FetchError {
    type V = ErrorModel;

    open spec fn view(&self) -> ErrorModel {
        match self {
            FetchError::NetworkError(d) => ErrorModel::Network(d@),
            FetchError::HttpStatusError(status) => ErrorModel::HttpStatus(*status),
            FetchError::DecodeError(d) => ErrorModel::Decode(d@),
        }
    }
}

/// The description a decode failure carries.
pub open spec fn spec_decode_message() -> Seq<char> {
    "response body is not a JSON array of smart devices"@
}

/// The outcome owed for a response: the status decides first, and only a
/// success has its body decoded.
pub open spec fn spec_response_outcome(status: u16, body: Seq<char>) -> Result<
    Seq<DeviceModel>,
    ErrorModel,
> {
    if !spec_is_success(status) {
        Err(ErrorModel::HttpStatus(status))
    } else {
        match spec_parse_devices(body) {
            Some(ds) => Ok(ds),
            None => Err(ErrorModel::Decode(spec_decode_message())),
        }
    }
}

/// The outcome owed for everything one fetch can observe.
pub open spec fn spec_fetch_outcome(e: EventModel) -> Result<Seq<DeviceModel>, ErrorModel> {
    match e {
        EventModel::TransportFailed(d) => Err(ErrorModel::Network(d)),
        EventModel::Responded(status, body) => spec_response_outcome(status, body),
    }
}

/// The model of an executable outcome.
pub open spec fn outcome_view(r: Result<Vec<SmartDevice>, FetchError>) -> Result<
    Seq<DeviceModel>,
    ErrorModel,
> {
    match r {
        Ok(ds) => Ok(ds@.map_values(|d: SmartDevice| d@)),
        Err(e) => Err(e@),
    }
}

/// Judges one received response: its status, then its body.
pub fn evaluate_response(status: u16, body: &str) -> (r: Result<Vec<SmartDevice>, FetchError>)
    ensures
        outcome_view(r) == spec_response_outcome(status, body@),
{
    if !is_success_status(status) {
        return Err(FetchError::HttpStatusError(status));
    }
    let chars = chars_of(body);
    match parse_devices(&chars) {
        Some(ds) => Ok(ds),
        None => Err(
            FetchError::DecodeError(
                String::from_str("response body is not a JSON array of smart devices"),
            ),
        ),
    }
}

/// Turns what one fetch observed into the caller-visible result.
pub fn fetch_outcome(event: FetchEvent) -> (r: Result<Vec<SmartDevice>, FetchError>)
    ensures
        outcome_view(r) == spec_fetch_outcome(event@),
{
    match event {
        FetchEvent::TransportFailed(d) => Err(FetchError::NetworkError(d)),
        FetchEvent::Responded(status, body) => evaluate_response(status, body.as_str()),
    }
}

/// What [`FetchError::message`] returns for each error.
pub open spec fn spec_message(e: ErrorModel) -> Seq<char> {
    match e {
        ErrorModel::Network(d) => "network error: "@ + d,
        ErrorModel::HttpStatus(status) => "http status error: "@ + spec_decimal(status as nat),
        ErrorModel::Decode(d) => "decode error: "@ + d,
    }
}

impl FetchError {
    /// One descriptive line for the caller, naming the error's kind and
    /// what it carries.
    pub fn message(&self) -> (r: String)
        ensures
            r@ == spec_message(self@),
    {
        match self {
            FetchError::NetworkError(d) => {
                let mut s = String::from_str("network error: ");
                s.append(d.as_str());
                s
            },
            FetchError::HttpStatusError(status) => {
                let mut s = String::from_str("http status error: ");
                let p = u16_to_decimal(*status);
                s.append(p.as_str());
                s
            },
            FetchError::DecodeError(d) => {
                let mut s = String::from_str("decode error: ");
                s.append(d.as_str());
                s
            },
        }
    }
}

/// A response whose status is no success is answered with that status's
/// error, whatever its body holds: the body is never decoded.
pub proof fn lemma_status_error_ignores_body(status: u16, body1: Seq<char>, body2: Seq<char>)
    requires
        !spec_is_success(status),
    ensures
        spec_response_outcome(status, body1) == Err::<Seq<DeviceModel>, ErrorModel>(
            ErrorModel::HttpStatus(status),
        ),
        spec_response_outcome(status, body1) == spec_response_outcome(status, body2),
{
}

/// With a success status, the outcome is the decoded record sequence when
/// the body denotes one, and a decode error exactly when it does not.
pub proof fn lemma_success_status_decodes(status: u16, body: Seq<char>)
    requires
        spec_is_success(status),
    ensures
        spec_parse_devices(body) matches Some(ds) ==> spec_response_outcome(status, body)
            == Ok::<Seq<DeviceModel>, ErrorModel>(ds),
        spec_parse_devices(body) is None <==> spec_response_outcome(status, body) == Err::<
            Seq<DeviceModel>,
            ErrorModel,
        >(ErrorModel::Decode(spec_decode_message())),
{
}

/// A failure of the transport itself is answered with a network error that
/// carries the transport's description.
pub proof fn lemma_transport_failure_is_network_error(d: Seq<char>)
    ensures
        spec_fetch_outcome(EventModel::TransportFailed(d)) == Err::<Seq<DeviceModel>, ErrorModel>(
            ErrorModel::Network(d),
        ),
{
}

/// A fetch decides by what it observed alone: two fetches that observe the
/// same remote behaviour report equal outcomes, however often repeated.
pub proof fn lemma_fetch_deterministic(e1: EventModel, e2: EventModel)
    requires
        e1 == e2,
    ensures
        spec_fetch_outcome(e1) == spec_fetch_outcome(e2),
{
}

} // verus!
