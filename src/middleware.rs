use vstd::prelude::*;

use crate::context::{lookup, Extensions, ServiceRequest};
use crate::request_id::{is_v4, RequestID};

verus! {

/// The request as the next stage sees it once `id` has been attached.
pub open spec fn injected<T>(req: ServiceRequest<T>, id: RequestID) -> ServiceRequest<T> {
    ServiceRequest { payload: req.payload, extensions: Extensions { request_id: Some(id) } }
}

/// Builds the middleware around the next stage of a pipeline.
pub struct RequestIDWrapper;

impl RequestIDWrapper {
    /// Wraps `service`, the rest of the pipeline.
    pub fn new_transform<S>(&self, service: S) -> (r: RequestIDMiddleware<S>)
        ensures
            r.service() == service,
    {
        RequestIDMiddleware { service }
    }
}

/// The middleware: attaches a fresh identifier to each request, then hands it
/// to the next stage.
pub struct RequestIDMiddleware<S> {
    service: S,
}

impl<S> RequestIDMiddleware<S> {
    /// The next stage of the pipeline.
    pub closed spec fn service(&self) -> S {
        self.service
    }

    /// Attaches `id` to `req` and returns what the next stage returns for it.
    pub fn call_with_id<T, R>(&self, req: ServiceRequest<T>, id: RequestID) -> (r: R) where
        S: Fn(ServiceRequest<T>) -> R,
        requires
            self.service().requires((injected(req, id),)),
        ensures
            self.service().ensures((injected(req, id),), r),
    {
        let mut req = req;
        req.extensions.insert(id);
        (self.service)(req)
    }

    /// Attaches a fresh random identifier to `req` and returns what the next
    /// stage returns for it.
    pub fn call<T, R>(&self, req: ServiceRequest<T>) -> (r: R) where
        S: Fn(ServiceRequest<T>) -> R,
        requires
            forall|id: RequestID| is_v4(id.0) ==> self.service().requires((injected(req, id),)),
        ensures
            exists|id: RequestID| is_v4(id.0) && self.service().ensures((injected(req, id),), r),
    {
        let id = RequestID::generate();
        self.call_with_id(req, id)
    }
}

/// After the middleware has run, the accessor finds the identifier it
/// attached, and that identifier is not zero.
pub proof fn lemma_present_after_injection<T>(req: ServiceRequest<T>, id: RequestID)
    requires
        is_v4(id.0),
    ensures
        lookup(injected(req, id).extensions) == Ok::<RequestID, crate::context::RequestIdError>(
            id,
        ),
        id.0 != 0,
{
    let v = id.0;
    assert(v != 0) by (bit_vector)
        requires
            v & 0xF000C000000000000000u128 == 0x40008000000000000000u128,
    ;
}

/// Two requests handled side by side each carry the identifier attached to
/// them, and nothing of the other one's.
pub proof fn lemma_requests_independent<T>(
    a: ServiceRequest<T>,
    b: ServiceRequest<T>,
    id_a: RequestID,
    id_b: RequestID,
)
    ensures
        lookup(injected(a, id_a).extensions) == Ok::<RequestID, crate::context::RequestIdError>(
            id_a,
        ),
        lookup(injected(b, id_b).extensions) == Ok::<RequestID, crate::context::RequestIdError>(
            id_b,
        ),
        injected(a, id_a).payload == a.payload,
        injected(b, id_b).payload == b.payload,
{
}

/// For a next stage whose outcome depends on the payload alone, and not on
/// the context bag, the middleware changes nothing of what comes back: every
/// outcome with the identifier attached is an outcome without it, and back.
pub proof fn lemma_pass_through<S, T, R>(
    mw: RequestIDMiddleware<S>,
    req: ServiceRequest<T>,
    id: RequestID,
) where S: Fn(ServiceRequest<T>) -> R
    requires
        forall|a: ServiceRequest<T>, b: ServiceRequest<T>, x: R|
            a.payload == b.payload ==> (#[trigger] mw.service().ensures((a,), x)
                <==> #[trigger] mw.service().ensures((b,), x)),
    ensures
        forall|x: R|
            mw.service().ensures((injected(req, id),), x) <==> mw.service().ensures((req,), x),
{
    assert forall|x: R|
        mw.service().ensures((injected(req, id),), x) <==> mw.service().ensures(
            (req,),
            x,
        ) by {
        assert(injected(req, id).payload == req.payload);
    }
}

} // verus!
