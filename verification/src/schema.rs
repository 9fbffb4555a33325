//! The schema data model: a named, versioned API together with its
//! ordered endpoint records. Text is carried as UTF-8 bytes; the views
//! of the records are sequences of bytes.
use vstd::prelude::*;

verus! {

/// One HTTP-style entry of a schema: path, method, and the two format
/// labels. All four fields are free-form text.
pub struct Endpoint {
    pub path: Vec<u8>,
    pub method: Vec<u8>,
    pub request_format: Vec<u8>,
    pub response_format: Vec<u8>,
}

/// Mathematical image of an [`Endpoint`].
#[verifier::ext_equal]
pub struct EndpointView {
    pub path: Seq<u8>,
    pub method: Seq<u8>,
    pub request_format: Seq<u8>,
    pub response_format: Seq<u8>,
}

impl View for Endpoint {
    type V = EndpointView;

    open spec fn view(&self) -> EndpointView {
        EndpointView {
            path: self.path@,
            method: self.method@,
            request_format: self.request_format@,
            response_format: self.response_format@,
        }
    }
}

/// The top-level record: an API name, a version string, and an ordered
/// sequence of endpoints.
pub struct ApiSchema {
    pub name: Vec<u8>,
    pub version: Vec<u8>,
    pub endpoints: Vec<Endpoint>,
}

/// Mathematical image of an [`ApiSchema`].
#[verifier::ext_equal]
pub struct SchemaView {
    pub name: Seq<u8>,
    pub version: Seq<u8>,
    pub endpoints: Seq<EndpointView>,
}

/// The views of a sequence of endpoint records.
pub open spec fn ep_views(es: Seq<Endpoint>) -> Seq<EndpointView> {
    es.map_values(|e: Endpoint| e@)
}

impl View for ApiSchema {
    type V = SchemaView;

    open spec fn view(&self) -> SchemaView {
        SchemaView {
            name: self.name@,
            version: self.version@,
            endpoints: ep_views(self.endpoints@),
        }
    }
}

} // verus!
