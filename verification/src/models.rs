//! Plain models of the remote service's responses, the service's error
//! shape, and the resource URL builders. These carry no behaviour of their
//! own beyond formatting; the JSON layer that fills them lives outside the
//! library.

use vstd::prelude::*;
use vstd::string::StringExecFns;

use crate::encoder::ascii_chars;
use crate::request::dec_digits;

verus! {

/// REST API base URL.
pub const REST_API_URL: &'static str = "api.twilio.com/2010-04-01/Accounts";

/// REST API endpoint for messages.
pub const REST_API_SMS_ENDPOINT: &'static str = "Messages.json";

/// REST API endpoint for calls.
pub const REST_API_CALL_ENDPOINT: &'static str = "Calls.json";

/// The URL `https://<base>/<account_sid>/<leaf>`.
pub open spec fn resource_url(account_sid: Seq<char>, leaf: Seq<char>) -> Seq<char> {
    "https://"@ + REST_API_URL@ + "/"@ + account_sid + "/"@ + leaf
}

/// Builds `https://<base>/<account_sid>/<leaf>`.
fn build_resource_url(account_sid: &str, leaf: &str) -> (r: String)
    ensures
        r@ == resource_url(account_sid@, leaf@),
{
    let mut out = String::new();
    out.append("https://");
    out.append(REST_API_URL);
    out.append("/");
    out.append(account_sid);
    out.append("/");
    out.append(leaf);
    proof {
        assert(out@ =~= resource_url(account_sid@, leaf@));
    }
    out
}

/// Creates the base URL to fetch one message from.
///
/// To fetch a message, call `<base>/<id>.json`.
pub fn get_sms_base(account_sid: &str) -> (r: String)
    ensures
        r@ == resource_url(account_sid@, "Messages"@),
{
    build_resource_url(account_sid, "Messages")
}

/// Creates the URL to post a message to, or to fetch multiple messages from.
pub fn sms_resource_url(account_sid: &str) -> (r: String)
    ensures
        r@ == resource_url(account_sid@, REST_API_SMS_ENDPOINT@),
{
    build_resource_url(account_sid, REST_API_SMS_ENDPOINT)
}

/// Creates the base URL to fetch one call from.
///
/// To fetch a call, call `<base>/<id>.json`.
pub fn get_call_base(account_sid: &str) -> (r: String)
    ensures
        r@ == resource_url(account_sid@, "Calls"@),
{
    build_resource_url(account_sid, "Calls")
}

/// Creates the URL to post a call to, or to fetch multiple calls from.
pub fn call_resource_url(account_sid: &str) -> (r: String)
    ensures
        r@ == resource_url(account_sid@, REST_API_CALL_ENDPOINT@),
{
    build_resource_url(account_sid, REST_API_CALL_ENDPOINT)
}

/// Status of a message.
pub enum SmsStatus {
    /// In queue for sending.
    Queued,
    /// Sending is in progress.
    Sending,
    /// Sent.
    Sent,
    /// Failed to send.
    Failed,
    /// Successfully delivered.
    Delivered,
    /// Not delivered yet.
    Undelivered,
    /// Receiving.
    Receiving,
    /// Received.
    Received,
}

/// Status of a call.
pub enum CallStatus {
    /// In queue for starting.
    Queued,
    /// The call is ringing.
    Ringing,
    /// The call is ongoing.
    InProgress,
    /// The call is cancelled.
    Canceled,
    /// The call is finished.
    Completed,
    /// The callee is busy.
    Busy,
    /// The callee is not answering.
    NoAnswer,
    /// Cannot perform the call.
    Failed,
}

/// Direction of a call.
pub enum CallDirection {
    /// Inbound.
    Inbound,
    /// Outbound via the API.
    OutboundApi,
    /// Outbound via dial.
    OutboundDial,
    /// Trunking, terminating.
    TrunkingTerminating,
    /// Trunking, originating.
    TrunkingOriginating,
}

/// Result of a correct message request.
pub struct SmsResult {
    /// Originator of the message.
    pub from: String,
    /// Destination of the message.
    pub to: String,
    /// Message content.
    pub body: String,
    /// ID of the message.
    pub sid: String,
    /// Status of the message.
    pub status: SmsStatus,
    /// URL of an optional media attachment.
    pub media_url: Option<String>,
    /// Cost of the message.
    pub price: Option<String>,
    /// Currency unit of the cost.
    pub price_unit: String,
    /// Timestamp (including zone) of when the message was created.
    pub date_created: String,
    /// Timestamp (including zone) of when the message was sent.
    pub date_sent: Option<String>,
    /// Timestamp (including zone) of when the message was updated.
    pub date_updated: String,
}

/// Result of a correct call request.
pub struct CallResult {
    /// Originator of the call.
    pub from: String,
    /// Destination of the call.
    pub to: String,
    /// ID of the call.
    pub sid: String,
    /// Status of the call.
    pub status: CallStatus,
    /// Caller's name.
    pub caller_name: Option<String>,
    /// The call's duration.
    pub duration: Option<i64>,
    /// Cost of the call.
    pub price: Option<String>,
    /// Currency unit of the cost.
    pub price_unit: String,
    /// Timestamp (including zone) of when the call was created.
    pub date_created: String,
    /// Timestamp (including zone) of when the call was established.
    pub start_time: Option<String>,
    /// Timestamp (including zone) of when the call was finished.
    pub end_time: Option<String>,
    /// The call's direction.
    pub direction: CallDirection,
    /// The wait time in milliseconds before the call was started.
    pub queue_time: i64,
}

/// Error returned by the remote REST API.
pub struct TwilioError {
    /// Error code.
    pub code: usize,
    /// Error description.
    pub message: String,
    /// Corresponding HTTP status code.
    pub status: usize,
}

/// Base-10 digits are ASCII.
proof fn lemma_dec_digits_ascii(n: nat)
    ensures
        forall|i: int| 0 <= i < dec_digits(n).len() ==> (#[trigger] dec_digits(n)[i]) < 128,
    decreases n,
{
    if n >= 10 {
        lemma_dec_digits_ascii(n / 10);
    }
    assert forall|i: int| 0 <= i < dec_digits(n).len() implies (#[trigger] dec_digits(n)[i])
        < 128 by {
        if n < 10 {
            assert(dec_digits(n)[i] == (0x30 + n) as u8);
        } else if i < dec_digits(n / 10).len() {
            assert(dec_digits(n)[i] == dec_digits(n / 10)[i]);
        } else {
            assert(dec_digits(n)[i] == (0x30 + n % 10) as u8);
        }
    }
}

/// Writes a number as base-10 ASCII digits without leading zeros.
fn usize_digits(n: usize) -> (r: Vec<u8>)
    ensures
        r@ == dec_digits(n as nat),
    decreases n,
{
    if n < 10 {
        let mut v: Vec<u8> = Vec::new();
        v.push(0x30 + (n as u8));
        assert(v@ =~= dec_digits(n as nat));
        v
    } else {
        let mut v = usize_digits(n / 10);
        v.push(0x30 + ((n % 10) as u8));
        v
    }
}

impl TwilioError {
    /// The error formatted for display:
    /// `Twilio API responded with status=<status>, code=<code>, message: <message>`.
    pub open spec fn display_text(&self) -> Seq<char> {
        "Twilio API responded with status="@ + ascii_chars(dec_digits(self.status as nat))
            + ", code="@ + ascii_chars(dec_digits(self.code as nat)) + ", message: "@
            + self.message@
    }

    /// Formats the error for display.
    pub fn display(&self) -> (r: String)
        ensures
            r@ == self.display_text(),
    {
        let mut out = String::new();
        out.append("Twilio API responded with status=");
        proof {
            lemma_dec_digits_ascii(self.status as nat);
            lemma_dec_digits_ascii(self.code as nat);
        }
        let status = crate::encoder::ascii_to_string(usize_digits(self.status).as_slice());
        out.append(status.as_str());
        out.append(", code=");
        let code = crate::encoder::ascii_to_string(usize_digits(self.code).as_slice());
        out.append(code.as_str());
        out.append(", message: ");
        out.append(self.message.as_str());
        proof {
            assert(out@ =~= self.display_text());
        }
        out
    }
}

} // verus!
