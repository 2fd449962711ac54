//! The request-facing value types: what an incoming request carries and
//! how a failed speech request is reported at the boundary.  Transport
//! and route dispatch live outside the library.
use crate::tts::TtsError;
use crate::tts::TtsService;
use crate::tts::tts_error_message_spec;
use std::sync::Arc;
use vstd::prelude::*;

verus! {

/// A request carrying one markup fragment.
pub struct HtmlRequest {
    pub html_content: String,
}

/// How a failure is reported to a client.
pub struct ApiError {
    pub message: String,
}

impl ApiError {
    /// The boundary report of a failed speech request.
    pub fn from_tts(err: &TtsError) -> (r: ApiError)
        ensures
            r.message@ == tts_error_message_spec(*err),
    {
        ApiError { message: err.message() }
    }
}

/// The state shared by request handlers: the speech service set up at
/// startup.
pub struct ApiState {
    pub tts_service: Arc<TtsService>,
}

impl ApiState {
    pub fn new(service: TtsService) -> (r: ApiState)
        ensures
            r.tts_service == service,
    {
        ApiState { tts_service: Arc::new(service) }
    }
}

} // verus!
