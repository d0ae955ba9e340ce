//! Building blocks for requests to a telephony REST API: an incremental
//! `application/x-www-form-urlencoded` encoder, a request accumulator with
//! named field setters, and plain result models for the API's responses.

pub mod decode;
pub mod encoder;
pub mod models;
pub mod request;
pub mod views;

pub use encoder::{format_pair, push_pair};
pub use models::{
    call_resource_url, get_call_base, get_sms_base, sms_resource_url, CallDirection, CallResult,
    CallStatus, SmsResult, SmsStatus, TwilioError, REST_API_CALL_ENDPOINT, REST_API_SMS_ENDPOINT,
    REST_API_URL,
};
pub use request::{TwilioMethod, TwilioRequest};
pub use views::{Call, CallInstruction, Mms, Sms};
