//! The logic of zenoh's REST plugin, of the router daemon's command line and of the choice of
//! the link a zenoh message is sent on: what each request asks of zenoh, how samples are
//! rendered in JSON and HTML, what each request is answered, and which settings the plugin
//! and the router start from.
pub mod base64_text;
pub mod encoding;
pub mod http;
pub mod json_text;
pub mod number;
pub mod outside;
pub mod port;
pub mod properties;
pub mod router;
pub mod sample;
pub mod text;
pub mod transport;

pub use encoding::{Encoding, KnownEncoding};
pub use http::{
    first_accept, method_to_kind, path_to_key_expr, put_request, query_mode, query_reply,
    query_selector, response, route, sse_event, write_reply, Handler, HttpMethod, HttpResponse,
    QueryMode, WriteOutcome,
};
pub use port::{parse_http_port, ConfigField, RestPlugin, RunningPlugin, StartError};
pub use router::{plugins_from_args, router_settings};
pub use sample::{
    sample_to_html, sample_to_json, to_html, to_json, value_to_json, Sample, SampleKind, Value,
};
pub use transport::{select_link, TxStats};
