//! The telemetry dispatcher: what is sent for one record and where, and what
//! the answer of the server means. The transmission itself is the caller's.

use vstd::prelude::*;
use vstd::string::StringExecFns;
use crate::clock::is_send_time_text;
use crate::clock::ClockReading;
use crate::json::lemma_member_index_found;
use crate::json::lemma_object_view;
use crate::json::lemma_with_member_reads_back;
use crate::json::member_value;
use crate::json::members_model;
use crate::json::with_member;
use crate::json::Json;
use crate::json::JsonModel;
use crate::json::JsonNumber;
use crate::json::NumberModel;
use crate::transform::all_transformed;
use crate::transform::extraction_fails;
use crate::transform::extract_telemetry_values;
use crate::transform::insert_send_time;
use crate::transform::key_model;
use crate::transform::TransformError;

verus! {

/// Where to send: the base URL of the server and the token of the device.
#[derive(Debug, PartialEq, Eq)]
pub struct Config {
    pub server: String,
    pub device_token: String,
}

/// Why there is no [`Config`].
#[derive(Clone, Copy, Debug, PartialEq, Eq, Structural)]
pub enum ConfigError {
    /// No server address is configured.
    MissingServer,
    /// No device token is configured.
    MissingDeviceToken,
}

/// One outgoing payload: the time of the attempt in milliseconds since the
/// epoch, and the values.
#[derive(Debug, PartialEq, Eq)]
pub struct TelemetryData {
    pub ts: u64,
    pub values: Vec<(String, Json)>,
}

/// One request that is ready to be posted.
#[derive(Debug, PartialEq, Eq)]
pub struct TelemetryRequest {
    pub url: String,
    pub telemetry: TelemetryData,
}

/// Why a dispatch attempt failed.
#[derive(Debug, PartialEq, Eq)]
pub enum SendError {
    /// The clocks gave no usable time. This ends the whole run.
    ClockUnreadable,
    /// The record gave no values.
    Transform(TransformError),
    /// The request did not get through; the payload is the reason.
    Transport(String),
    /// The server answered with a status outside 200..=299.
    Rejected { status: u16, body: String },
}

/// What one dispatch attempt came to, as the send loop sees it.
#[derive(Clone, Copy, Debug, PartialEq, Eq, Structural)]
pub enum SendOutcome {
    /// The server took the payload.
    Sent,
    /// The attempt failed; the loop goes on.
    Failed,
    /// The attempt failed and the run cannot go on.
    Fatal,
}

/// Builds the configuration from the two settings, each absent or present.
/// The server address is looked at first.
pub fn load_config(server: Option<String>, device_token: Option<String>) -> (r: Result<
    Config,
    ConfigError,
>)
    ensures
        match r {
            Ok(config) => server == Some(config.server) && device_token == Some(
                config.device_token,
            ),
            Err(ConfigError::MissingServer) => server is None,
            Err(ConfigError::MissingDeviceToken) => server is Some && device_token is None,
        },
{
    match server {
        None => Err(ConfigError::MissingServer),
        Some(server) => match device_token {
            None => Err(ConfigError::MissingDeviceToken),
            Some(device_token) => Ok(Config { server, device_token }),
        },
    }
}

/// The address that telemetry for the device is posted to.
pub open spec fn telemetry_url_model(server: Seq<char>, device_token: Seq<char>) -> Seq<char> {
    server + "/api/v1/"@ + device_token + "/telemetry"@
}

/// The address that telemetry for the device of `config` is posted to.
pub fn telemetry_url(config: &Config) -> (r: String)
    ensures
        r@ == telemetry_url_model(config.server@, config.device_token@),
{
    let mut url = String::from_str(config.server.as_str());
    url.append("/api/v1/");
    url.append(config.device_token.as_str());
    url.append("/telemetry");
    url
}

/// Whether `values` is what is sent for the members of a record at the time
/// `send_time`: the transformed members, with the time under `send_time`.
pub open spec fn stamped<F: Fn(&JsonNumber) -> Option<JsonNumber>>(
    members: Seq<(String, Json)>,
    random_key: Option<Seq<char>>,
    send_time: Seq<char>,
    values: Seq<(String, Json)>,
    redraw: F,
) -> bool {
    exists|plain: Seq<(String, Json)>|
        #![trigger all_transformed(members, random_key, plain, redraw)]
        all_transformed(members, random_key, plain, redraw) && members_model(values)
            == with_member(members_model(plain), "send_time"@, JsonModel::String(send_time))
}

/// What is sent always holds the time of sending under `send_time`, whatever
/// the record held under that name.
pub proof fn lemma_send_time_present<F: Fn(&JsonNumber) -> Option<JsonNumber>>(
    members: Seq<(String, Json)>,
    random_key: Option<Seq<char>>,
    send_time: Seq<char>,
    values: Seq<(String, Json)>,
    redraw: F,
)
    requires
        stamped(members, random_key, send_time, values, redraw),
    ensures
        member_value(members_model(values), "send_time"@) == Some(JsonModel::String(send_time)),
        values.len() > 0,
{
    let plain = choose|plain: Seq<(String, Json)>|
        #![trigger all_transformed(members, random_key, plain, redraw)]
        all_transformed(members, random_key, plain, redraw) && members_model(values)
            == with_member(members_model(plain), "send_time"@, JsonModel::String(send_time));
    lemma_with_member_reads_back(
        members_model(plain),
        "send_time"@,
        JsonModel::String(send_time),
    );
    lemma_member_index_found(members_model(values), "send_time"@);
    assert(members_model(values).len() == values.len());
}

/// Builds the payload for one record: its values, with the local time of
/// the reading among them, under the timestamp of the reading.
pub fn build_telemetry<F: Fn(&JsonNumber) -> Option<JsonNumber>>(
    data: &Json,
    random_key: &Option<String>,
    reading: &ClockReading,
    redraw: &F,
) -> (r: Result<TelemetryData, TransformError>)
    requires
        forall|n: &JsonNumber| call_requires(redraw, (n,)),
    ensures
        match r {
            Ok(telemetry) => {
                &&& telemetry.ts == reading.timestamp()
                &&& is_send_time_text(reading.local_time())
                &&& data matches Json::Object(members)
                &&& members@.len() > 0
                &&& stamped(
                    members@,
                    key_model(*random_key),
                    reading.local_time(),
                    telemetry.values@,
                    *redraw,
                )
                &&& data@.well_formed() ==> JsonModel::Object(
                    members_model(telemetry.values@),
                ).well_formed()
            },
            Err(e) => extraction_fails(*data, key_model(*random_key), *redraw, e),
        },
{
    match extract_telemetry_values(data, random_key, redraw) {
        Ok(plain) => {
            let mut values = plain;
            insert_send_time(&mut values, reading.send_time());
            assert(all_transformed(data->Object_0@, key_model(*random_key), plain@, *redraw));
            Ok(TelemetryData { ts: reading.ts(), values })
        },
        Err(e) => Err(e),
    }
}

/// The JSON body that carries a payload: an object with the timestamp under
/// `ts` and the values, as an object, under `values`.
pub open spec fn body_model(ts: u64, values: Seq<(Seq<char>, JsonModel)>) -> JsonModel {
    JsonModel::Object(
        seq![
            ("ts"@, JsonModel::Number(NumberModel::Integer(ts as int))),
            ("values"@, JsonModel::Object(values)),
        ],
    )
}

/// The JSON body that carries `telemetry`.
pub fn telemetry_body(telemetry: TelemetryData) -> (r: Json)
    ensures
        r@ == body_model(telemetry.ts, members_model(telemetry.values@)),
{
    let mut members: Vec<(String, Json)> = Vec::new();
    members.push((String::from_str("ts"), Json::Number(JsonNumber::Integer(telemetry.ts as i128))));
    members.push((String::from_str("values"), Json::Object(telemetry.values)));
    proof {
        lemma_object_view(telemetry.values);
        lemma_object_view(members);
        assert(members_model(members@) =~= body_model(
            telemetry.ts,
            members_model(telemetry.values@),
        )->Object_0);
    }
    Json::Object(members)
}

/// Makes ready what is posted for one record, from what the clocks gave:
/// checks the clock readings, builds the payload, and names the address.
/// Readings that are no [`ClockReading`] fail the attempt before the record
/// is looked at.
pub fn prepare_telemetry<F: Fn(&JsonNumber) -> Option<JsonNumber>>(
    config: &Config,
    data: &Json,
    random_key: &Option<String>,
    since_epoch_millis: Option<u128>,
    local_time: String,
    redraw: &F,
) -> (r: Result<TelemetryRequest, SendError>)
    requires
        forall|n: &JsonNumber| call_requires(redraw, (n,)),
    ensures
        match r {
            Ok(request) => {
                &&& since_epoch_millis matches Some(millis)
                &&& request.telemetry.ts == millis % 0x1_0000_0000_0000_0000
                &&& is_send_time_text(local_time@)
                &&& request.url@ == telemetry_url_model(config.server@, config.device_token@)
                &&& data matches Json::Object(members)
                &&& members@.len() > 0
                &&& stamped(
                    members@,
                    key_model(*random_key),
                    local_time@,
                    request.telemetry.values@,
                    *redraw,
                )
                &&& data@.well_formed() ==> JsonModel::Object(
                    members_model(request.telemetry.values@),
                ).well_formed()
            },
            Err(SendError::ClockUnreadable) => since_epoch_millis is None || !is_send_time_text(
                local_time@,
            ),
            Err(SendError::Transform(e)) => {
                &&& since_epoch_millis is Some
                &&& is_send_time_text(local_time@)
                &&& extraction_fails(*data, key_model(*random_key), *redraw, e)
            },
            Err(_) => false,
        },
{
    let reading = match ClockReading::new(since_epoch_millis, local_time) {
        Some(reading) => reading,
        None => {
            return Err(SendError::ClockUnreadable);
        },
    };
    match build_telemetry(data, random_key, &reading, redraw) {
        Ok(telemetry) => Ok(TelemetryRequest { url: telemetry_url(config), telemetry }),
        Err(e) => Err(SendError::Transform(e)),
    }
}

/// Whether an HTTP status says that the server took the request: one from
/// 200 to 299.
pub fn is_success_status(status: u16) -> (r: bool)
    ensures
        r == (200 <= status <= 299),
{
    200 <= status && status <= 299
}

/// What the answer of the server means: success for a status from 200 to
/// 299, a rejection that carries the status and the body for any other.
pub fn check_response(status: u16, body: String) -> (r: Result<(), SendError>)
    ensures
        200 <= status <= 299 ==> r is Ok,
        !(200 <= status <= 299) ==> r == Err::<(), SendError>(
            SendError::Rejected { status, body },
        ),
{
    if is_success_status(status) {
        Ok(())
    } else {
        Err(SendError::Rejected { status, body })
    }
}

/// What the send loop makes of the result of one attempt. Only a clock that
/// cannot be read ends the run; every other failure is passed over.
pub fn classify_attempt(result: &Result<(), SendError>) -> (r: SendOutcome)
    ensures
        r == match result {
            Ok(_) => SendOutcome::Sent,
            Err(SendError::ClockUnreadable) => SendOutcome::Fatal,
            Err(_) => SendOutcome::Failed,
        },
{
    match result {
        Ok(_) => SendOutcome::Sent,
        Err(SendError::ClockUnreadable) => SendOutcome::Fatal,
        Err(_) => SendOutcome::Failed,
    }
}

} // verus!
