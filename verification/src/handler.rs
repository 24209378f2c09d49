//! The request handler: one submission request, from body to response.
//!
//! A request moves through decoding, validation and persistence, and every
//! outcome resolves to an HTTP status here; nothing propagates past the
//! handler, and clients receive a status with an empty body. All diagnostic
//! events of one request carry the same request identifier, so failures can
//! be attributed in production.

use vstd::prelude::*;
use crate::form::{parse_form, parse_result, DecodeError};
use crate::validation::{validate, validation_verdict, ValidationError, ValidSubmission};
use crate::store::{contains_id, fresh_id, SubscriberRecord, SubscriberStore};

verus! {

/// The success status: the request was accepted and the record persisted.
pub const STATUS_OK: u16 = 200;

/// The client-error status: the body did not decode or a field broke a rule.
pub const STATUS_BAD_REQUEST: u16 = 400;

/// The server-error status: the storage failed; nothing was persisted.
pub const STATUS_INTERNAL_SERVER_ERROR: u16 = 500;

/// An HTTP response as the core decides it: a status code and a body,
/// which this service leaves empty on every path.
pub struct Response {
    pub status: u16,
    pub body: Vec<u8>,
}

/// Liveness probe: answers success with an empty body, unconditionally and
/// touching no storage.
pub fn health_check() -> (r: Response)
    ensures
        r.status == STATUS_OK,
        r.body@.len() == 0,
{
    Response { status: STATUS_OK, body: Vec::new() }
}

/// Why a submission request was turned away with a client error.
#[derive(PartialEq, Eq, Structural, Clone, Copy, Debug)]
pub enum Rejection {
    /// The body did not decode into a name and an email.
    Decode(DecodeError),
    /// The decoded fields broke a validation rule.
    Validation(ValidationError),
}

/// The decision owed for a request body before storage is involved: the
/// rejection to report, or `None` when the submission is acceptable.
pub open spec fn rejection_of(body: Seq<u8>) -> Option<Rejection> {
    match parse_result(body) {
        Result::Err(d) => Some(Rejection::Decode(d)),
        Result::Ok(fields) => match validation_verdict(fields.0, fields.1) {
            Option::Some(v) => Some(Rejection::Validation(v)),
            Option::None => None,
        },
    }
}

/// Decodes a request body and validates the decoded fields: exactly
/// [`rejection_of`] the body, with the accepted submission carrying the
/// decoded name and email.
pub fn decode_and_validate(body: &[u8]) -> (r: Result<ValidSubmission, Rejection>)
    ensures
        r is Ok <==> rejection_of(body@) is None,
        r is Err ==> rejection_of(body@) == Some(r->Err_0),
        r is Ok ==> parse_result(body@) is Ok && r->Ok_0.spec_name() == parse_result(
            body@,
        )->Ok_0.0 && r->Ok_0.spec_email() == parse_result(body@)->Ok_0.1 && r->Ok_0.wf(),
{
    match parse_form(body) {
        Err(d) => Err(Rejection::Decode(d)),
        Ok(form) => match validate(form.name.as_str(), form.email.as_str()) {
            Err(v) => Err(Rejection::Validation(v)),
            Ok(submission) => Ok(submission),
        },
    }
}

/// The status owed once persistence has answered: success maps to
/// [`STATUS_OK`], any store failure to [`STATUS_INTERNAL_SERVER_ERROR`],
/// with no retry, whatever the record and error types of the storage at
/// hand.
pub fn persistence_status<T, E>(outcome: &Result<T, E>) -> (s: u16)
    ensures
        outcome is Ok ==> s == STATUS_OK,
        outcome is Err ==> s == STATUS_INTERNAL_SERVER_ERROR,
{
    match outcome {
        Ok(_) => STATUS_OK,
        Err(_) => STATUS_INTERNAL_SERVER_ERROR,
    }
}

/// How grave a diagnostic event is.
#[derive(PartialEq, Eq, Structural, Clone, Copy, Debug)]
pub enum Severity {
    Info,
    Error,
}

/// The step of request handling that an event reports.
#[derive(PartialEq, Eq, Structural, Clone, Copy, Debug)]
pub enum EventStage {
    /// The body decoded; the submission is being considered.
    AddingSubscriber,
    /// The request was turned away with a client error.
    RequestRejected,
    /// The new subscriber was durably recorded.
    SubscriberSaved,
    /// The storage could not take the record.
    StoreFailed,
}

/// One structured diagnostic event, attributed to a request.
pub struct LogEvent {
    pub request_id: u128,
    pub severity: Severity,
    pub stage: EventStage,
}

/// Per-request metadata: the identifier every diagnostic event of the
/// request carries, and the submitted fields for attribution, empty until
/// the body decodes.
pub struct CorrelationContext {
    pub request_id: u128,
    pub subscriber_email: String,
    pub subscriber_name: String,
}

/// Everything one handled request produced: the response for the client,
/// and the correlation context and events for the operator.
pub struct HandledRequest {
    pub response: Response,
    pub context: CorrelationContext,
    pub events: Vec<LogEvent>,
}

/// Handles one submission request against the store.
///
/// The response is derived solely from how far the request got: a body
/// that does not decode or does not validate is answered with a client
/// error and the store untouched; an acceptable submission is persisted,
/// answering success exactly when the insert succeeded and a server error
/// with the store untouched otherwise. On an empty reachable store success
/// is owed: no stored identifier can collide. Every diagnostic event
/// carries the
/// request's identifier, and an error-severity event is emitted exactly on
/// a storage failure.
pub fn subscribe(store: &mut SubscriberStore, body: &[u8]) -> (h: HandledRequest)
    requires
        old(store).inv(),
    ensures
        final(store).inv(),
        final(store).is_available() == old(store).is_available(),
        h.response.body@.len() == 0,
        h.response.status == STATUS_OK || h.response.status == STATUS_BAD_REQUEST
            || h.response.status == STATUS_INTERNAL_SERVER_ERROR,
        rejection_of(body@) is Some ==> h.response.status == STATUS_BAD_REQUEST && final(store)@
            == old(store)@,
        rejection_of(body@) is None ==> ({
            ||| (h.response.status == STATUS_OK && (exists|rec: SubscriberRecord|
                final(store)@ == old(store)@.push(rec) && rec.name@ == parse_result(
                    body@,
                )->Ok_0.0 && rec.email@ == parse_result(body@)->Ok_0.1 && !contains_id(
                    old(store)@,
                    rec.id,
                )))
            ||| (h.response.status == STATUS_INTERNAL_SERVER_ERROR && final(store)@ == old(
                store,
            )@)
        }),
        h.response.status == STATUS_OK ==> rejection_of(body@) is None,
        rejection_of(body@) is None && old(store).is_available() && old(store)@.len() == 0
            ==> h.response.status == STATUS_OK,
        !old(store).is_available() ==> h.response.status != STATUS_OK,
        forall|k: int|
            0 <= k < h.events@.len() ==> h.events@[k].request_id == h.context.request_id,
        (exists|k: int| 0 <= k < h.events@.len() && h.events@[k].severity is Error)
            <==> h.response.status == STATUS_INTERNAL_SERVER_ERROR,
        parse_result(body@) is Ok ==> h.context.subscriber_name@ == parse_result(body@)->Ok_0.0
            && h.context.subscriber_email@ == parse_result(body@)->Ok_0.1,
        parse_result(body@) is Err ==> h.context.subscriber_name@.len() == 0
            && h.context.subscriber_email@.len() == 0,
{
    let request_id = fresh_id();
    let mut events: Vec<LogEvent> = Vec::new();
    match parse_form(body) {
        Err(_decode_error) => {
            events.push(
                LogEvent {
                    request_id,
                    severity: Severity::Info,
                    stage: EventStage::RequestRejected,
                },
            );
            proof {
                assert(forall|k: int| 0 <= k < events@.len() ==> events@[k].severity is Info);
            }
            HandledRequest {
                response: Response { status: STATUS_BAD_REQUEST, body: Vec::new() },
                context: CorrelationContext {
                    request_id,
                    subscriber_email: String::new(),
                    subscriber_name: String::new(),
                },
                events,
            }
        },
        Ok(form) => {
            let context = CorrelationContext {
                request_id,
                subscriber_email: form.email.clone(),
                subscriber_name: form.name.clone(),
            };
            events.push(
                LogEvent {
                    request_id,
                    severity: Severity::Info,
                    stage: EventStage::AddingSubscriber,
                },
            );
            match validate(form.name.as_str(), form.email.as_str()) {
                Err(_validation_error) => {
                    events.push(
                        LogEvent {
                            request_id,
                            severity: Severity::Info,
                            stage: EventStage::RequestRejected,
                        },
                    );
                    proof {
                        assert(forall|k: int|
                            0 <= k < events@.len() ==> events@[k].severity is Info);
                    }
                    HandledRequest {
                        response: Response { status: STATUS_BAD_REQUEST, body: Vec::new() },
                        context,
                        events,
                    }
                },
                Ok(submission) => {
                    let outcome = store.insert_subscriber(&submission);
                    match outcome {
                        Ok(_record) => {
                            events.push(
                                LogEvent {
                                    request_id,
                                    severity: Severity::Info,
                                    stage: EventStage::SubscriberSaved,
                                },
                            );
                            proof {
                                assert(forall|k: int|
                                    0 <= k < events@.len() ==> events@[k].severity is Info);
                            }
                            HandledRequest {
                                response: Response { status: STATUS_OK, body: Vec::new() },
                                context,
                                events,
                            }
                        },
                        Err(_store_error) => {
                            events.push(
                                LogEvent {
                                    request_id,
                                    severity: Severity::Error,
                                    stage: EventStage::StoreFailed,
                                },
                            );
                            proof {
                                assert(events@[events@.len() - 1].severity is Error);
                            }
                            HandledRequest {
                                response: Response {
                                    status: STATUS_INTERNAL_SERVER_ERROR,
                                    body: Vec::new(),
                                },
                                context,
                                events,
                            }
                        },
                    }
                },
            }
        },
    }
}

} // verus!
