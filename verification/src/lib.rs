use vstd::prelude::*;
use vstd::string::StringExecFns;

pub mod kv;
pub mod path;

pub use path::json_object_of;
pub use path::Body;
pub use path::Header;
pub use path::Method;
pub use path::Path;
pub use path::PathBuilder;
pub use path::QueryParam;
pub use path::QuerySlice;

verus! {

/// Selects where a caller-supplied API credential is written when it is
/// injected into a request descriptor.
pub enum APIPlace {
    Header,
    QueryParam,
    Body,
    Nowhere,
}

/// Failures surfaced by the dispatch layer.
#[derive(Debug)]
pub enum ApiError {
    /// A transport-level failure of the underlying HTTP client, carrying
    /// its description.  Never retried; propagated to the caller.
    RequestError(String),
    /// The descriptor carries a method the dispatch layer does not know
    /// how to issue, named in lowercase.
    UnsupportedMethod(String),
    /// Reserved for response-shape validation failures; no current
    /// operation produces it.
    InvalidResponse(String),
}

/// Builder for an API binding: accumulates a base endpoint, a
/// credential-placement policy and registered descriptors.
pub struct Builder {
    pub endpoint: String,
    pub paths: Vec<Path>,
    pub api_place: APIPlace,
}

impl Builder {
    pub fn new(endpoint: &str, api_place: APIPlace) -> (r: Builder)
        ensures
            r.endpoint@ == endpoint@,
            r.paths@.len() == 0,
            r.api_place == api_place,
    {
        Builder { endpoint: endpoint.to_owned(), paths: Vec::new(), api_place }
    }

    /// Registers a descriptor.  The registry is advisory: dispatch works
    /// on any descriptor handed to it, registered or not.
    pub fn add_path(&mut self, path: Path)
        ensures
            final(self).paths@ == old(self).paths@.push(path),
            final(self).endpoint == old(self).endpoint,
            final(self).api_place == old(self).api_place,
    {
        self.paths.push(path);
    }

    pub fn build(self) -> (r: QuickAPIBinding)
        ensures
            r.endpoint == self.endpoint,
            r.paths == self.paths,
    {
        QuickAPIBinding { endpoint: self.endpoint, paths: self.paths }
    }
}

/// The final API binding: a base endpoint together with the registered
/// descriptors.  The HTTP client handle lives with the surrounding
/// program; `prepare` computes everything a transport needs to issue a
/// descriptor, and `complete_dispatch` classifies what came back.
pub struct QuickAPIBinding {
    pub endpoint: String,
    pub paths: Vec<Path>,
}

/// A fully resolved request, ready to hand to an HTTP transport.
pub struct RequestPlan {
    pub url: String,
    pub method: Method,
    pub headers: Vec<(String, String)>,
    pub body: Option<serde_json::Value>,
}

impl QuickAPIBinding {
    /// Resolves a descriptor against the base endpoint: the URL is the
    /// endpoint with the relative path appended verbatim, the headers are
    /// carried over, and a present body becomes the JSON payload.  A
    /// method outside the supported set is rejected with
    /// `UnsupportedMethod` carrying its lowercase name.  The query
    /// collection is modeled on the descriptor but, as in the dispatch
    /// contract, not appended to the URL.
    pub fn prepare(&self, path: &Path) -> (r: Result<RequestPlan, ApiError>)
        ensures
            match r {
                Ok(plan) => {
                    &&& path.method.is_supported()
                    &&& plan.method == path.method
                    &&& plan.url@ == self.endpoint@ + path.path@
                    &&& plan.headers@ == path.headers@
                    &&& (plan.body is Some <==> path.body is Some)
                    &&& (path.body matches Some(b) ==> plan.body == Some(json_object_of(b@)))
                },
                Err(e) => {
                    &&& !path.method.is_supported()
                    &&& e matches ApiError::UnsupportedMethod(name) && name@
                        == path.method.name_spec()
                },
            },
    {
        match path.method {
            Method::PATCH => Err(ApiError::UnsupportedMethod(path.method.as_str().to_owned())),
            _ => {
                let url = self.endpoint.clone().concat(path.path.as_str());
                let headers = kv::clone_entries(&path.headers);
                let body = match path.body.as_ref() {
                    Some(b) => Some(b.get()),
                    None => None,
                };
                Ok(RequestPlan { url, method: path.method, headers, body })
            },
        }
    }
}

/// Classifies the outcome of the transport call: a response passes
/// through untouched, and a transport failure is wrapped as
/// `RequestError`.
pub fn complete_dispatch<T>(outcome: Result<T, String>) -> (r: Result<T, ApiError>)
    ensures
        match outcome {
            Ok(resp) => r matches Ok(rr) && rr == resp,
            Err(msg) => r matches Err(e) && e == ApiError::RequestError(msg),
        },
{
    match outcome {
        Ok(resp) => Ok(resp),
        Err(msg) => Err(ApiError::RequestError(msg)),
    }
}

} // verus!

