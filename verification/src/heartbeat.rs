//! Heartbeats: the remote procedure by which a device reports in.
//!
//! A call carries the channel of the device and its capabilities:
//!
//! ```json
//! { "device_channel": "presence-abc_rackmint", "capabilities": ["gpu", "camera"] }
//! ```
//!
//! A device with metrics may add them, in the text format of Prometheus, as a
//! text under `metrics_text`.
//!
//! A call is answered `{"status": "ok"}` once its writes have been made, and
//! `{"error": ...}` where it is malformed or a write fails.

use vstd::prelude::*;

use crate::clock::now_rfc3339;
use crate::json::{collect_texts, encode_texts, Json};
use crate::store::{capability_key, last_seen_key, metrics_key};
use crate::store::{StoreWrite, Write, WriteProgress, WriteRun, AVAILABLE_DEVICES_KEY};

verus! {

/// For how many seconds a heartbeat and its metrics count. A device that is
/// silent for longer is considered gone.
pub const HEARTBEAT_TTL_SECS: u64 = 15;

/// The name under which the procedure is registered.
pub const HEARTBEAT_PROCEDURE: &'static str = "handle_heartbeat";

/// What a well-formed heartbeat says.
#[derive(Debug)]
pub struct Heartbeat {
    /// The channel of the device.
    pub device_channel: String,
    /// The capabilities of the device.
    pub capabilities: Vec<String>,
    /// The metrics of the device, where it sent any.
    pub metrics_text: Option<String>,
}

/// The model of a [`Heartbeat`].
#[verifier::ext_equal]
pub struct Report {
    pub channel: Seq<char>,
    pub capabilities: Seq<Seq<char>>,
    pub metrics: Option<Seq<char>>,
}

impl View for Heartbeat {
    type V = Report;

    open spec fn view(&self) -> Report {
        Report {
            channel: self.device_channel@,
            capabilities: self.capabilities.deep_view(),
            metrics: self.metrics_text.deep_view(),
        }
    }
}

/// Why a heartbeat is refused.
#[derive(Debug, Clone, Copy, PartialEq, Eq, Structural)]
pub enum HeartbeatError {
    /// The call has no keyword arguments.
    MissingKwargs,
    /// There is no text under `device_channel`.
    MissingDeviceChannel,
    /// There is no array under `capabilities`.
    MissingCapabilities,
}

impl HeartbeatError {
    /// The message that the caller is given.
    pub open spec fn message_text(self) -> Seq<char> {
        match self {
            HeartbeatError::MissingKwargs => "missing kwargs"@,
            HeartbeatError::MissingDeviceChannel => "missing 'device_channel'"@,
            HeartbeatError::MissingCapabilities => "missing 'capabilities' (expected array)"@,
        }
    }

    /// The message that the caller is given.
    pub fn message(self) -> (r: &'static str)
        ensures
            r@ == self.message_text(),
    {
        match self {
            HeartbeatError::MissingKwargs => "missing kwargs",
            HeartbeatError::MissingDeviceChannel => "missing 'device_channel'",
            HeartbeatError::MissingCapabilities => "missing 'capabilities' (expected array)",
        }
    }
}

/// The metrics in the keyword arguments of a call: the text under
/// `metrics_text`, where there is one.
pub open spec fn metrics_in(fields: Json) -> Option<Seq<char>> {
    match fields.field("metrics_text"@) {
        Some(Json::Text(text)) => Some(text@),
        _ => None,
    }
}

/// What the keyword arguments of a call say, or the first thing that is
/// missing in them. What is not text among the capabilities, or stands there
/// for the metrics, is passed over.
pub open spec fn report_of(kwargs: Option<Json>) -> Result<Report, HeartbeatError> {
    match kwargs {
        None => Err(HeartbeatError::MissingKwargs),
        Some(fields) => match fields.field("device_channel"@) {
            Some(Json::Text(channel)) => match fields.field("capabilities"@) {
                Some(Json::Array(items)) => Ok(
                    Report {
                        channel: channel@,
                        capabilities: crate::json::texts_among(items@),
                        metrics: metrics_in(fields),
                    },
                ),
                _ => Err(HeartbeatError::MissingCapabilities),
            },
            _ => Err(HeartbeatError::MissingDeviceChannel),
        },
    }
}

/// The write that stores the metrics of a heartbeat, where it has any. They
/// expire.
pub open spec fn metrics_writes(channel: Seq<char>, metrics: Option<Seq<char>>) -> Seq<Write> {
    match metrics {
        Some(text) => seq![
            Write::PutExpiring {
                key: crate::store::metrics_key_of(channel),
                value: text,
                seconds: HEARTBEAT_TTL_SECS as nat,
            },
        ],
        None => Seq::empty(),
    }
}

/// The writes of a heartbeat, in order: the capabilities, which stay; the
/// time, which expires; the membership among the known devices; and the
/// metrics, where there are any.
pub open spec fn heartbeat_writes(
    channel: Seq<char>,
    capabilities_json: Seq<char>,
    time: Seq<char>,
    metrics: Option<Seq<char>>,
) -> Seq<Write> {
    seq![
        Write::Put { key: crate::store::capability_key_of(channel), value: capabilities_json },
        Write::PutExpiring {
            key: crate::store::last_seen_key_of(channel),
            value: time,
            seconds: HEARTBEAT_TTL_SECS as nat,
        },
        Write::AddMember { key: crate::store::devices_key(), member: channel },
    ] + metrics_writes(channel, metrics)
}

/// The time that the writes of a heartbeat carry.
pub open spec fn time_in(writes: Seq<Write>) -> Seq<char> {
    writes[1]->PutExpiring_value
}

/// What the handler does next.
pub enum HeartbeatStep {
    /// Make the current write of the run and report its outcome to
    /// [`resume_heartbeat`].
    Perform(WriteRun),
    /// Answer the call.
    Reply(Result<Json, Json>),
}

/// Reads the keyword arguments of a call.
pub fn parse_heartbeat(kwargs: &Option<Json>) -> (r: Result<Heartbeat, HeartbeatError>)
    ensures
        match report_of(*kwargs) {
            Ok(report) => r is Ok && r->Ok_0@ == report,
            Err(e) => r == Err::<Heartbeat, HeartbeatError>(e),
        },
{
    let fields: &Json = match kwargs {
        Some(fields) => fields,
        None => return Err(HeartbeatError::MissingKwargs),
    };
    let channel: String = match fields.get("device_channel") {
        Some(value) => match value.as_text() {
            Some(text) => text.clone(),
            None => return Err(HeartbeatError::MissingDeviceChannel),
        },
        None => return Err(HeartbeatError::MissingDeviceChannel),
    };
    let capabilities: Vec<String> = match fields.get("capabilities") {
        Some(value) => match value.as_array() {
            Some(items) => collect_texts(items),
            None => return Err(HeartbeatError::MissingCapabilities),
        },
        None => return Err(HeartbeatError::MissingCapabilities),
    };
    let metrics_text: Option<String> = match fields.get("metrics_text") {
        Some(value) => match value.as_text() {
            Some(text) => Some(text.clone()),
            None => None,
        },
        None => None,
    };
    Ok(Heartbeat { device_channel: channel, capabilities, metrics_text })
}

/// Lays out the writes of a heartbeat from `channel`, given the JSON of its
/// capabilities, the time and its metrics.
pub fn begin_heartbeat(
    channel: &str,
    capabilities_json: String,
    time: String,
    metrics_text: Option<String>,
) -> (r: WriteRun)
    ensures
        r@ == heartbeat_writes(channel@, capabilities_json@, time@, metrics_text.deep_view()),
{
    let mut writes: Vec<StoreWrite> = Vec::new();
    writes.push(StoreWrite::Put { key: capability_key(channel), value: capabilities_json });
    writes.push(
        StoreWrite::PutExpiring {
            key: last_seen_key(channel),
            value: time,
            seconds: HEARTBEAT_TTL_SECS,
        },
    );
    writes.push(
        StoreWrite::AddMember {
            key: AVAILABLE_DEVICES_KEY.to_owned(),
            member: channel.to_owned(),
        },
    );
    if let Some(text) = metrics_text {
        writes.push(
            StoreWrite::PutExpiring {
                key: metrics_key(channel),
                value: text,
                seconds: HEARTBEAT_TTL_SECS,
            },
        );
    }
    assert(writes.deep_view() =~= heartbeat_writes(
        channel@,
        capabilities_json@,
        time@,
        metrics_text.deep_view(),
    ));
    WriteRun::new(writes)
}

/// Takes a heartbeat call.
///
/// A well-formed call leads to its writes, with the time at which it was
/// taken; the capabilities read back from the JSON that is written are the
/// ones that it reported. Any other call is answered with an error at once,
/// and writes nothing.
pub fn handle_heartbeat(kwargs: Option<Json>) -> (r: HeartbeatStep)
    ensures
        match report_of(kwargs) {
            Ok(report) => {
                &&& r matches HeartbeatStep::Perform(run)
                &&& run@ == heartbeat_writes(
                    report.channel,
                    crate::json::encoded_texts(report.capabilities),
                    time_in(run@),
                    report.metrics,
                )
                &&& crate::clock::is_utc_time(time_in(run@))
                &&& crate::json::decoded_texts(crate::json::encoded_texts(report.capabilities))
                    == Some(report.capabilities)
            },
            Err(e) => {
                &&& r matches HeartbeatStep::Reply(Err(body))
                &&& body.is_single("error"@, e.message_text())
            },
        },
{
    match parse_heartbeat(&kwargs) {
        Ok(heartbeat) => {
            let capabilities_json: String = encode_texts(&heartbeat.capabilities);
            let time: String = now_rfc3339();
            let run = begin_heartbeat(
                heartbeat.device_channel.as_str(),
                capabilities_json,
                time,
                heartbeat.metrics_text,
            );
            assert(time_in(run@) == time@);
            HeartbeatStep::Perform(run)
        },
        Err(e) => HeartbeatStep::Reply(Err(Json::single("error", e.message()))),
    }
}

/// Takes the outcome of the current write of a heartbeat.
///
/// The first failure ends the run and is what the caller is told; once all
/// writes have been made the answer is that all is well.
pub fn resume_heartbeat(run: WriteRun, outcome: Result<(), String>) -> (r: HeartbeatStep)
    ensures
        run@.len() > 0,
        match outcome {
            Ok(_) => if crate::store::rest_of(run@, true).len() == 0 {
                r matches HeartbeatStep::Reply(Ok(body)) && body.is_single("status"@, "ok"@)
            } else {
                &&& r matches HeartbeatStep::Perform(rest)
                &&& rest@ == crate::store::rest_of(run@, true)
            },
            Err(message) => {
                &&& r matches HeartbeatStep::Reply(Err(body))
                &&& body.is_single("error"@, message@)
            },
        },
{
    match run.advance(outcome) {
        WriteProgress::Next(rest) => HeartbeatStep::Perform(rest),
        WriteProgress::Finished => HeartbeatStep::Reply(Ok(Json::single("status", "ok"))),
        WriteProgress::Aborted(message) => {
            HeartbeatStep::Reply(Err(Json::single("error", message.as_str())))
        },
    }
}

} // verus!
