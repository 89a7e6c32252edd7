use vstd::prelude::*;

use crate::request_id::RequestID;

verus! {

/// Why the identifier could not be read from a request.
#[derive(Clone, Copy, Debug, PartialEq, Eq, Structural)]
pub enum RequestIdError {
    /// No identifier was attached: the middleware did not run before the
    /// lookup.
    Missing,
}

impl RequestIdError {
    /// The fixed diagnostic text of the error.
    pub fn message(&self) -> (r: &'static str)
        ensures
            r@ == "request id is missing"@,
    {
        "request id is missing"
    }
}

/// The per-request context bag: what the stages of the pipeline attach to a
/// single request.
#[derive(Clone, Copy, Debug)]
pub struct Extensions {
    pub request_id: Option<RequestID>,
}

impl Extensions {
    /// An empty bag.
    pub fn new() -> (r: Extensions)
        ensures
            r.request_id is None,
    {
        Extensions { request_id: None }
    }

    /// Attaches `id`, replacing any identifier already there.
    pub fn insert(&mut self, id: RequestID)
        ensures
            final(self).request_id == Some(id),
    {
        self.request_id = Some(id);
    }
}

/// A request on its way through the pipeline: what the handlers read, and the
/// context bag that travels with it.
pub struct ServiceRequest<T> {
    pub payload: T,
    pub extensions: Extensions,
}

impl<T> ServiceRequest<T> {
    /// A request that no stage has touched yet.
    pub fn new(payload: T) -> (r: ServiceRequest<T>)
        ensures
            r.payload == payload,
            r.extensions.request_id is None,
    {
        ServiceRequest { payload, extensions: Extensions::new() }
    }
}

/// What the accessor gives for a context bag.
pub open spec fn lookup(extensions: Extensions) -> Result<RequestID, RequestIdError> {
    match extensions.request_id {
        Some(id) => Ok(id),
        None => Err(RequestIdError::Missing),
    }
}

impl RequestID {
    /// The identifier attached to the request whose context bag is
    /// `extensions`; `Missing` when none is.
    pub fn from_request(extensions: &Extensions) -> (r: Result<RequestID, RequestIdError>)
        ensures
            r == lookup(*extensions),
    {
        match extensions.request_id {
            Some(id) => Ok(id),
            None => Err(RequestIdError::Missing),
        }
    }
}

/// A request that never went through the middleware, such as one fresh from
/// `ServiceRequest::new`, has no identifier: the accessor fails with
/// `Missing`.
pub proof fn lemma_absent_without_injection<T>(req: ServiceRequest<T>)
    requires
        req.extensions.request_id is None,
    ensures
        lookup(req.extensions) == Err::<RequestID, RequestIdError>(RequestIdError::Missing),
{
}

} // verus!
