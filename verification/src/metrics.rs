//! The metrics of a device, in the text format of Prometheus.
//!
//! They are handed on as the device sent them with its last heartbeat that had
//! any, character for character, as long as they have not expired and the device
//! has the capability [`METRICS_CAPABILITY`].

use vstd::prelude::*;

use crate::devices::has_capability;
use crate::json::decode_texts;
use crate::store::{capability_key, metrics_key};

verus! {

/// The content type that Prometheus expects.
pub const PROMETHEUS_CONTENT_TYPE: &'static str = "text/plain; version=0.0.4; charset=utf-8";

/// The capability of a device whose metrics are handed on.
pub const METRICS_CAPABILITY: &'static str = "metrics";

/// Metrics in the text format of Prometheus.
#[derive(Debug)]
pub struct PrometheusText(String);

impl View for PrometheusText {
    type V = Seq<char>;

    closed spec fn view(&self) -> Seq<char> {
        self.0@
    }
}

/// A response with a body of known length.
#[derive(Debug)]
pub struct TextResponse {
    /// The value of the header `Content-Type`.
    pub content_type: String,
    /// The length of the body in bytes.
    pub content_length: usize,
    /// The body.
    pub body: String,
}

impl PrometheusText {
    /// The response that carries the metrics.
    pub fn respond_to(self) -> (r: TextResponse)
        ensures
            r.content_type@ == PROMETHEUS_CONTENT_TYPE@,
            r.content_length == vstd::utf8::encode_utf8(self@).len() as usize,
            r.body@ == self@,
    {
        let content_length: usize = self.0.as_str().len();
        TextResponse {
            content_type: PROMETHEUS_CONTENT_TYPE.to_owned(),
            content_length,
            body: self.0,
        }
    }
}

/// Why there are no metrics to hand on.
#[derive(Debug, Clone, Copy, PartialEq, Eq, Structural)]
pub enum MetricsError {
    /// The device does not have the capability, or the store holds none.
    NotFound,
    /// The store failed.
    InternalServerError,
}

impl MetricsError {
    /// The status code of the response.
    pub open spec fn status_code(self) -> nat {
        match self {
            MetricsError::NotFound => 404,
            MetricsError::InternalServerError => 500,
        }
    }

    /// The status code of the response.
    pub fn code(self) -> (r: u16)
        ensures
            r == self.status_code(),
    {
        match self {
            MetricsError::NotFound => 404,
            MetricsError::InternalServerError => 500,
        }
    }
}

/// The keys that a query for the metrics of `channel` reads: its capabilities
/// and its metrics.
pub open spec fn keys_of(channel: Seq<char>) -> Seq<Seq<char>> {
    seq![crate::store::capability_key_of(channel), crate::store::metrics_key_of(channel)]
}

/// The metrics to hand on for a device, given what was read of its
/// capabilities and what is stored of its metrics: there are none where the
/// device does not have [`METRICS_CAPABILITY`].
pub open spec fn enabled(
    capabilities: Option<Seq<Seq<char>>>,
    stored: Option<Seq<char>>,
) -> Option<Seq<char>> {
    match capabilities {
        Some(list) => if list.contains(METRICS_CAPABILITY@) {
            stored
        } else {
            None
        },
        None => None,
    }
}

/// The metrics to hand on, given the values of the keys of a query.
pub open spec fn served(values: Seq<Option<Seq<char>>>) -> Option<Seq<char>> {
    if values.len() == 2 {
        enabled(crate::devices::read_value(values[0]), values[1])
    } else {
        None
    }
}

/// Decides which metrics to hand on, from what was read of the capabilities of
/// a device and what is stored of its metrics.
pub fn enabled_metrics(capabilities: &Option<Vec<String>>, stored: &Option<String>) -> (r: Result<
    PrometheusText,
    MetricsError,
>)
    ensures
        match enabled(capabilities.deep_view(), stored.deep_view()) {
            Some(text) => r is Ok && r->Ok_0@ == text,
            None => r == Err::<PrometheusText, MetricsError>(MetricsError::NotFound),
        },
{
    if let Some(list) = capabilities {
        if has_capability(list, METRICS_CAPABILITY) {
            if let Some(text) = stored {
                return Ok(PrometheusText(text.clone()));
            }
        }
    }
    Err(MetricsError::NotFound)
}

/// A query for the metrics of a device. The view is the channel of the device.
pub struct MetricsLookup {
    channel: String,
}

impl View for MetricsLookup {
    type V = Seq<char>;

    closed spec fn view(&self) -> Seq<char> {
        self.channel@
    }
}

/// Takes the question for the metrics of `channel_id`, and goes on to its
/// keys.
pub fn device_metrics(channel_id: &str) -> (r: MetricsLookup)
    ensures
        r@ == channel_id@,
{
    MetricsLookup { channel: channel_id.to_owned() }
}

impl MetricsLookup {
    /// The keys to read, in order.
    pub fn keys(&self) -> (r: Vec<String>)
        ensures
            r.deep_view() == keys_of(self@),
    {
        let mut keys: Vec<String> = Vec::new();
        keys.push(capability_key(self.channel.as_str()));
        keys.push(metrics_key(self.channel.as_str()));
        assert(keys.deep_view() =~= keys_of(self@));
        keys
    }

    /// Answers the query from the values of the keys.
    pub fn answer(&self, stored: Result<Vec<Option<String>>, String>) -> (r: Result<
        PrometheusText,
        MetricsError,
    >)
        ensures
            match stored {
                Ok(values) => match served(values.deep_view()) {
                    Some(text) => r is Ok && r->Ok_0@ == text,
                    None => r == Err::<PrometheusText, MetricsError>(MetricsError::NotFound),
                },
                Err(_) => r == Err::<PrometheusText, MetricsError>(
                    MetricsError::InternalServerError,
                ),
            },
    {
        match stored {
            Ok(values) => {
                if values.len() != 2 {
                    return Err(MetricsError::NotFound);
                }
                let capabilities: Option<Vec<String>> = match &values[0] {
                    Some(text) => decode_texts(text.as_str()),
                    None => None,
                };
                enabled_metrics(&capabilities, &values[1])
            },
            Err(_) => Err(MetricsError::InternalServerError),
        }
    }
}

} // verus!
