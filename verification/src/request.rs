//! The request accumulator: a growable encoded buffer plus a pair count,
//! mutated only by appending whole key/value pairs.

use vstd::prelude::*;
use vstd::string::StringSliceAdditionalSpecFns;

use crate::decode::{pairs_view, parse_form};
use crate::encoder;
use crate::encoder::{ascii_chars, count_byte, enc_form, Pair};

verus! {

/// The base-10 digits of a number, most significant first, as ASCII bytes.
pub open spec fn dec_digits(n: nat) -> Seq<u8>
    decreases n,
{
    if n < 10 {
        seq![(0x30 + n) as u8]
    } else {
        dec_digits(n / 10).push((0x30 + n % 10) as u8)
    }
}

/// Writes a number as base-10 ASCII digits without leading zeros.
fn u32_digits(n: u32) -> (r: Vec<u8>)
    ensures
        r@ == dec_digits(n as nat),
    decreases n,
{
    if n < 10 {
        let mut v: Vec<u8> = Vec::new();
        v.push(0x30 + (n as u8));
        assert(v@ =~= dec_digits(n as nat));
        v
    } else {
        let mut v = u32_digits(n / 10);
        v.push(0x30 + ((n % 10) as u8));
        v
    }
}

/// Possible HTTP methods the remote service can use to invoke a callback.
pub enum TwilioMethod {
    /// Get
    GET,
    /// POST is the default method
    POST,
}

impl TwilioMethod {
    /// The method's name, as raw bytes.
    pub open spec fn str_bytes(&self) -> Seq<u8> {
        match self {
            TwilioMethod::GET => "GET".spec_bytes(),
            TwilioMethod::POST => "POST".spec_bytes(),
        }
    }

    /// The method's name.
    pub fn as_str(&self) -> (r: &'static str)
        ensures
            r.spec_bytes() == self.str_bytes(),
    {
        match self {
            TwilioMethod::GET => "GET",
            TwilioMethod::POST => "POST",
        }
    }
}

impl Default for TwilioMethod {
    /// The default callback method is `POST`.
    fn default() -> (r: Self)
        ensures
            r is POST,
    {
        TwilioMethod::POST
    }
}

/// Generic request builder.
///
/// Data is encoded incrementally as `application/x-www-form-urlencoded`: the
/// buffer always holds the separator-joined encodings of the pairs added so
/// far, in arrival order, and the count always equals the number of pairs.
pub struct TwilioRequest {
    buffer: Vec<u8>,
    len: usize,
    pairs: Ghost<Seq<Pair>>,
}

impl View for TwilioRequest {
    type V = Seq<Pair>;

    closed spec fn view(&self) -> Seq<Pair> {
        self.pairs@
    }
}

impl TwilioRequest {
    /// Content type of a request to the remote API, for HTTP POST requests.
    pub const CONTENT_TYPE: &'static str = "application/x-www-form-urlencode";

    /// The bytes stored in the buffer.
    pub closed spec fn form_bytes(&self) -> Seq<u8> {
        self.buffer@
    }

    /// The buffer holds exactly the encoding of the recorded pairs, and the
    /// count matches the number of pairs.
    pub closed spec fn wf(&self) -> bool {
        self.buffer@ == enc_form(self@) && self.len == self@.len()
    }

    /// A well-formed request's buffer holds exactly the encoding of its
    /// pairs.
    pub proof fn lemma_wf_bytes(&self)
        requires
            self.wf(),
        ensures
            self.form_bytes() == enc_form(self@),
    {
    }

    /// The buffer is determined by the pairs alone: any two well-formed
    /// requests holding the same pairs hold byte-identical buffers, however
    /// each was built.
    pub proof fn lemma_canonical_bytes(&self, other: &TwilioRequest)
        requires
            self.wf(),
            other.wf(),
            self@ == other@,
        ensures
            self.form_bytes() == other.form_bytes(),
    {
    }

    /// The buffer of a well-formed request holds exactly one unescaped `=`
    /// per pair, and one unescaped `&` between adjacent pairs: the pair count
    /// always equals the number of `=`-joined segments.
    pub proof fn lemma_count_invariants(&self)
        requires
            self.wf(),
        ensures
            count_byte(self.form_bytes(), encoder::EQ_BYTE) == self@.len(),
            self@.len() >= 1 ==> count_byte(self.form_bytes(), encoder::SEP_BYTE) == self@.len()
                - 1,
    {
        encoder::lemma_assignment_count(self@);
        if self@.len() >= 1 {
            encoder::lemma_separator_count(self@);
        }
    }

    /// Creates a new, empty request.
    pub fn new() -> (r: Self)
        ensures
            r.wf(),
            r@ == Seq::<Pair>::empty(),
    {
        TwilioRequest { buffer: Vec::new(), len: 0, pairs: Ghost(Seq::empty()) }
    }

    /// Appends one pair given as raw bytes, encoding both sides.
    pub fn add_pair_bytes(&mut self, field: &[u8], value: &[u8])
        requires
            old(self).wf(),
        ensures
            final(self).wf(),
            final(self)@ == old(self)@.push((field@, value@)),
    {
        proof {
            encoder::lemma_enc_form_len(self@);
        }
        encoder::push_pair_bytes(field, value, &mut self.buffer);
        self.pairs = Ghost(self.pairs@.push((field@, value@)));
        proof {
            encoder::lemma_enc_form_push(old(self)@, field@, value@);
            assert(self.buffer@ =~= enc_form(self@));
            encoder::lemma_enc_form_len(self@);
        }
        let n = self.buffer.len();
        assert(self.len < n);
        self.len = self.len + 1;
    }

    /// Appends one pair given as text, encoding both sides.
    pub fn add_pair(&mut self, field: &str, value: &str)
        requires
            old(self).wf(),
        ensures
            final(self).wf(),
            final(self)@ == old(self)@.push((field.spec_bytes(), value.spec_bytes())),
    {
        self.add_pair_bytes(field.as_bytes(), value.as_bytes());
    }

    /// Returns the raw `application/x-www-form-urlencoded` bytes.
    pub fn into_bytes(self) -> (r: Vec<u8>)
        requires
            self.wf(),
        ensures
            r@ == enc_form(self@),
    {
        self.buffer
    }

    /// Returns the `application/x-www-form-urlencoded` data as text.
    pub fn into_string(self) -> (r: String)
        requires
            self.wf(),
        ensures
            r@ == ascii_chars(enc_form(self@)),
    {
        proof {
            encoder::lemma_enc_form_ascii(self@);
        }
        encoder::ascii_to_string(self.buffer.as_slice())
    }

    /// Returns the `application/x-www-form-urlencoded` data as text, without
    /// consuming the request.
    pub fn as_form(&self) -> (r: String)
        requires
            self.wf(),
        ensures
            r@ == ascii_chars(enc_form(self@)),
    {
        proof {
            encoder::lemma_enc_form_ascii(self@);
        }
        encoder::ascii_to_string(self.buffer.as_slice())
    }

    /// The number of pairs added so far.
    pub fn pair_count(&self) -> (n: usize)
        requires
            self.wf(),
        ensures
            n == self@.len(),
    {
        self.len
    }

    /// Exposes the buffer's pairs in original order, each percent-decoded:
    /// the structured-encode adapter.
    pub fn to_pairs(&self) -> (r: Vec<(Vec<u8>, Vec<u8>)>)
        requires
            self.wf(),
        ensures
            pairs_view(r@) == self@,
    {
        proof {
            crate::decode::lemma_parse_encode_roundtrip(self@);
        }
        crate::decode::parse_pairs(self.buffer.as_slice())
    }

    /// Builds a request from an ordered sequence of decoded key/value pairs,
    /// re-encoding each through the normal append path: the structured-decode
    /// adapter.
    pub fn from_pairs(pairs: &Vec<(Vec<u8>, Vec<u8>)>) -> (r: Self)
        ensures
            r.wf(),
            r@ == pairs_view(pairs@),
    {
        let mut res = TwilioRequest::new();
        let mut idx: usize = 0;
        proof {
            assert(res@ =~= pairs_view(pairs@).take(0));
        }
        while idx < pairs.len()
            invariant
                idx <= pairs@.len(),
                res.wf(),
                res@ == pairs_view(pairs@).take(idx as int),
            decreases pairs@.len() - idx,
        {
            let p = &pairs[idx];
            res.add_pair_bytes(p.0.as_slice(), p.1.as_slice());
            proof {
                assert(pairs_view(pairs@).take(idx + 1) =~= pairs_view(pairs@).take(
                    idx as int,
                ).push((p.0@, p.1@)));
            }
            idx = idx + 1;
        }
        proof {
            assert(pairs_view(pairs@).take(pairs@.len() as int) =~= pairs_view(pairs@));
        }
        res
    }

    /// Builds a request from encoded form text: the pairs parsed out of the
    /// text, re-encoded in arrival order.
    pub fn from_encoded_str(form: &str) -> (r: Self)
        ensures
            r.wf(),
            r@ == parse_form(form.spec_bytes()),
    {
        Self::from_pairs(&crate::decode::parse_pairs(form.as_bytes()))
    }

    /// Adds `AccountSid` to specify the owner of the resource.
    pub fn account_sid(&mut self, sid: &str)
        requires
            old(self).wf(),
        ensures
            final(self).wf(),
            final(self)@ == old(self)@.push(("AccountSid".spec_bytes(), sid.spec_bytes())),
    {
        self.add_pair("AccountSid", sid);
    }

    /// Adds the `From` field: the identifier of the caller.
    pub fn from(&mut self, from: &str)
        requires
            old(self).wf(),
        ensures
            final(self).wf(),
            final(self)@ == old(self)@.push(("From".spec_bytes(), from.spec_bytes())),
    {
        self.add_pair("From", from);
    }

    /// Adds the `To` field: the identifier of the callee.
    pub fn to(&mut self, to: &str)
        requires
            old(self).wf(),
        ensures
            final(self).wf(),
            final(self)@ == old(self)@.push(("To".spec_bytes(), to.spec_bytes())),
    {
        self.add_pair("To", to);
    }

    /// Adds the `Body` field.
    ///
    /// The remote service expects at most 1600 characters of text; longer
    /// bodies still encode correctly and are left for the service to reject.
    pub fn body(&mut self, body: &str)
        requires
            old(self).wf(),
        ensures
            final(self).wf(),
            final(self)@ == old(self)@.push(("Body".spec_bytes(), body.spec_bytes())),
    {
        self.add_pair("Body", body);
    }

    /// Adds the `MediaUrl` field.
    pub fn media_url(&mut self, media_url: &str)
        requires
            old(self).wf(),
        ensures
            final(self).wf(),
            final(self)@ == old(self)@.push(("MediaUrl".spec_bytes(), media_url.spec_bytes())),
    {
        self.add_pair("MediaUrl", media_url);
    }

    /// Adds the `StatusCallback` field: the URL where a POST request reports
    /// status.
    pub fn post_status_callback(&mut self, url: &str)
        requires
            old(self).wf(),
        ensures
            final(self).wf(),
            final(self)@ == old(self)@.push(("StatusCallback".spec_bytes(), url.spec_bytes())),
    {
        self.add_pair("StatusCallback", url);
    }

    /// Sets the `ProvideFeedback` field: whether message delivery is tracked.
    pub fn provide_feedback(&mut self, value: bool)
        requires
            old(self).wf(),
        ensures
            final(self).wf(),
            final(self)@ == old(self)@.push(
                ("ProvideFeedback".spec_bytes(), (if value {
                    "true"
                } else {
                    "false"
                }).spec_bytes()),
            ),
    {
        if value {
            self.add_pair("ProvideFeedback", "true");
        } else {
            self.add_pair("ProvideFeedback", "false");
        }
    }

    /// Sets the `Attempt` field: the total number of attempts to post the
    /// message, as base-10 digits.
    pub fn attempt(&mut self, attempt: u32)
        requires
            old(self).wf(),
        ensures
            final(self).wf(),
            final(self)@ == old(self)@.push(("Attempt".spec_bytes(), dec_digits(attempt as nat))),
    {
        let digits = u32_digits(attempt);
        self.add_pair_bytes("Attempt".as_bytes(), digits.as_slice());
    }

    /// Sets the `ValidityPeriod` field: the number of seconds the message may
    /// wait in the sending queue, as base-10 digits.
    pub fn validity_period(&mut self, period: u16)
        requires
            old(self).wf(),
        ensures
            final(self).wf(),
            final(self)@ == old(self)@.push(
                ("ValidityPeriod".spec_bytes(), dec_digits(period as nat)),
            ),
    {
        let digits = u32_digits(period as u32);
        self.add_pair_bytes("ValidityPeriod".as_bytes(), digits.as_slice());
    }

    /// Sets the `SendAt` field: when the message is to be sent.
    pub fn send_at(&mut self, date: &str)
        requires
            old(self).wf(),
        ensures
            final(self).wf(),
            final(self)@ == old(self)@.push(("SendAt".spec_bytes(), date.spec_bytes())),
    {
        self.add_pair("SendAt", date);
    }

    /// Sets the `Twiml` field: the call's content as inline markup.
    pub fn twiml(&mut self, twiml: &str)
        requires
            old(self).wf(),
        ensures
            final(self).wf(),
            final(self)@ == old(self)@.push(("Twiml".spec_bytes(), twiml.spec_bytes())),
    {
        self.add_pair("Twiml", twiml);
    }

    /// Sets the `Url` field: where the call's content is fetched from.
    pub fn url(&mut self, url: &str)
        requires
            old(self).wf(),
        ensures
            final(self).wf(),
            final(self)@ == old(self)@.push(("Url".spec_bytes(), url.spec_bytes())),
    {
        self.add_pair("Url", url);
    }

    /// Sets the `Url` field together with the `Method` used to access it.
    pub fn url_with_method(&mut self, method: TwilioMethod, url: &str)
        requires
            old(self).wf(),
        ensures
            final(self).wf(),
            final(self)@ == old(self)@.push(("Method".spec_bytes(), method.str_bytes())).push(
                ("Url".spec_bytes(), url.spec_bytes()),
            ),
    {
        self.add_pair("Method", method.as_str());
        self.add_pair("Url", url);
    }

    /// Sets the `StatusCallback` field: where status information is posted.
    pub fn status_url(&mut self, url: &str)
        requires
            old(self).wf(),
        ensures
            final(self).wf(),
            final(self)@ == old(self)@.push(("StatusCallback".spec_bytes(), url.spec_bytes())),
    {
        self.add_pair("StatusCallback", url);
    }

    /// Sets the `StatusCallback` field together with the
    /// `StatusCallbackMethod` used to access it.
    pub fn status_url_with_method(&mut self, method: TwilioMethod, url: &str)
        requires
            old(self).wf(),
        ensures
            final(self).wf(),
            final(self)@ == old(self)@.push(
                ("StatusCallbackMethod".spec_bytes(), method.str_bytes()),
            ).push(("StatusCallback".spec_bytes(), url.spec_bytes())),
    {
        self.add_pair("StatusCallbackMethod", method.as_str());
        self.add_pair("StatusCallback", url);
    }

    /// Sets the `CallerId` field: the caller identification.
    pub fn caller_id(&mut self, id: &str)
        requires
            old(self).wf(),
        ensures
            final(self).wf(),
            final(self)@ == old(self)@.push(("CallerId".spec_bytes(), id.spec_bytes())),
    {
        self.add_pair("CallerId", id);
    }

    /// Sets the `SendDigits` field: the keys to dial after the call is
    /// established.
    ///
    /// The remote service expects at most 32 digits; longer values still
    /// encode correctly and are left for the service to reject.
    pub fn send_digits(&mut self, digits: &str)
        requires
            old(self).wf(),
        ensures
            final(self).wf(),
            final(self)@ == old(self)@.push(("SendDigits".spec_bytes(), digits.spec_bytes())),
    {
        self.add_pair("SendDigits", digits);
    }

    /// Sets the `PageSize` field: the maximum number of resources per page
    /// when reading multiple resources, as base-10 digits.
    pub fn page_size(&mut self, size: u32)
        requires
            old(self).wf(),
        ensures
            final(self).wf(),
            final(self)@ == old(self)@.push(("PageSize".spec_bytes(), dec_digits(size as nat))),
    {
        let digits = u32_digits(size);
        self.add_pair_bytes("PageSize".as_bytes(), digits.as_slice());
    }

    /// Sets the `StartDate` field: the starting date when reading multiple
    /// calls.
    pub fn start_date(&mut self, date: &str)
        requires
            old(self).wf(),
        ensures
            final(self).wf(),
            final(self)@ == old(self)@.push(("StartDate".spec_bytes(), date.spec_bytes())),
    {
        self.add_pair("StartDate", date);
    }

    /// Sets the `EndDate` field: the ending date when reading multiple calls.
    pub fn end_date(&mut self, date: &str)
        requires
            old(self).wf(),
        ensures
            final(self).wf(),
            final(self)@ == old(self)@.push(("EndDate".spec_bytes(), date.spec_bytes())),
    {
        self.add_pair("EndDate", date);
    }

    /// Sets the `DateSent` field: the message date when reading multiple
    /// messages.
    pub fn date_sent(&mut self, date: &str)
        requires
            old(self).wf(),
        ensures
            final(self).wf(),
            final(self)@ == old(self)@.push(("DateSent".spec_bytes(), date.spec_bytes())),
    {
        self.add_pair("DateSent", date);
    }
}

} // verus!
