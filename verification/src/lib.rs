//! A web framework core: request metadata, responses and bodies, method
//! guards, url-encoded form extraction, schemas of request and reply types,
//! an openapi specification collector, and the decisions of the route
//! attributes (route paths, handler arguments, function attributes,
//! openapi operations and schema settings), each with a checked contract.

pub mod http_types;
pub mod headers;
pub mod buf;
pub mod error;
pub mod http;
pub mod util;
pub mod guard;
pub mod text;
pub mod codec;
pub mod form;
pub mod extract;
pub mod entity;
pub mod openapi;
pub mod http_methods;
pub mod route;
pub mod params;
pub mod fn_attrs;
pub mod attrs;
pub mod schema;
pub mod schema_plan;
pub mod describe;
pub mod plan;
pub mod handler;

pub use crate::error::{Error, PayloadError, ResponseError, UrlencodedError};
pub use crate::extract::{ExtractorKind, Form, Json, Query};
pub use crate::form::{form_extractor, urlencoded_response, FormConfig, UrlEncoded};
pub use crate::guard::{AllowAll, DenyAll, Guard, MethodGuard};
pub use crate::http::{
    Body, BodyChunk, BodySize, BodyStream, Data, MessageBody, Payload, ReqInfo, RequestError, Resp,
    RespBuilder, ResponseHead, SizedStream,
};
pub use crate::http_types::{InvalidStatusCode, Method, StatusCode, Version};
