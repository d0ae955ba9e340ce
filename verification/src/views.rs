//! Fixed-shape request views: a call, a message, and a multimedia message.
//! Each view offers a direct conversion into a [`TwilioRequest`] and a
//! streaming text conversion; both paths are proved to produce the same
//! bytes.

use vstd::prelude::*;
use vstd::string::{StringExecFns, StringSliceAdditionalSpecFns};

use crate::encoder;
use crate::encoder::{ascii_chars, enc_form, enc_pair, Pair, SEP_BYTE};
use crate::request::TwilioRequest;

verus! {

/// Call instruction: exactly one way of providing the call's content.
pub enum CallInstruction<'a> {
    /// Inline markup with the call instructions.
    Twiml(&'a str),
    /// A URL pointing to a file with the call instructions.
    Url(&'a str),
}

/// A minimal call request.
pub struct Call<'a> {
    /// Phone number of the source.
    pub from: &'a str,
    /// Phone number of the destination.
    pub to: &'a str,
    /// The call's content.
    pub instruction: CallInstruction<'a>,
}

/// A minimal text-message request.
pub struct Sms<'a> {
    /// Phone number of the source.
    pub from: &'a str,
    /// Phone number of the destination.
    pub to: &'a str,
    /// Text body.
    pub body: &'a str,
}

/// A minimal multimedia-message request: a message plus a media reference.
pub struct Mms<'a> {
    /// The message part.
    pub sms: Sms<'a>,
    /// URL of the media content.
    pub media_url: &'a str,
}

impl<'a> Sms<'a> {
    /// The pairs this view stands for, in their fixed order.
    pub open spec fn pairs(&self) -> Seq<Pair> {
        seq![
            ("From".spec_bytes(), self.from.spec_bytes()),
            ("To".spec_bytes(), self.to.spec_bytes()),
            ("Body".spec_bytes(), self.body.spec_bytes()),
        ]
    }

    /// Converts to a generic request by the fixed sequence of setters.
    pub fn request(&self) -> (r: TwilioRequest)
        ensures
            r.wf(),
            r@ == self.pairs(),
    {
        let mut res = TwilioRequest::new();
        res.from(self.from);
        res.to(self.to);
        res.body(self.body);
        proof {
            assert(res@ =~= self.pairs());
        }
        res
    }

    /// Writes the same pairs directly to text, without the intermediate
    /// buffer.
    pub fn display(&self) -> (r: String)
        ensures
            r@ == ascii_chars(enc_form(self.pairs())),
    {
        let mut out = String::new();
        encoder::format_pair("From", self.from, &mut out);
        out.append("&");
        encoder::format_pair("To", self.to, &mut out);
        out.append("&");
        encoder::format_pair("Body", self.body, &mut out);
        proof {
            lemma_sep_str();
            let ps = self.pairs();
            let p0 = enc_pair(ps[0].0, ps[0].1);
            let p1 = enc_pair(ps[1].0, ps[1].1);
            let p2 = enc_pair(ps[2].0, ps[2].1);
            let tail2 = seq![ps[2]];
            let tail1 = seq![ps[1], ps[2]];
            assert(enc_form(tail2) == p2);
            assert(tail1.drop_first() =~= tail2);
            assert(enc_form(tail1) == p1 + seq![SEP_BYTE] + p2);
            assert(ps.drop_first() =~= tail1);
            assert(enc_form(ps) == p0 + seq![SEP_BYTE] + (p1 + seq![SEP_BYTE] + p2));
            encoder::lemma_ascii_chars_concat(p0, seq![SEP_BYTE]);
            encoder::lemma_ascii_chars_concat(p0 + seq![SEP_BYTE], p1 + seq![SEP_BYTE] + p2);
            encoder::lemma_ascii_chars_concat(p1, seq![SEP_BYTE]);
            encoder::lemma_ascii_chars_concat(p1 + seq![SEP_BYTE], p2);
            assert(out@ =~= ascii_chars(enc_form(ps)));
        }
        out
    }
}

impl<'a> Call<'a> {
    /// The pairs this view stands for: source, destination, then the one
    /// instruction field.
    pub open spec fn pairs(&self) -> Seq<Pair> {
        seq![
            ("From".spec_bytes(), self.from.spec_bytes()),
            ("To".spec_bytes(), self.to.spec_bytes()),
            match self.instruction {
                CallInstruction::Twiml(twiml) => ("Twiml".spec_bytes(), twiml.spec_bytes()),
                CallInstruction::Url(url) => ("Url".spec_bytes(), url.spec_bytes()),
            },
        ]
    }

    /// Converts to a generic request by the fixed sequence of setters.
    pub fn request(&self) -> (r: TwilioRequest)
        ensures
            r.wf(),
            r@ == self.pairs(),
    {
        let mut res = TwilioRequest::new();
        res.from(self.from);
        res.to(self.to);
        match self.instruction {
            CallInstruction::Twiml(twiml) => res.twiml(twiml),
            CallInstruction::Url(url) => res.url(url),
        }
        proof {
            assert(res@ =~= self.pairs());
        }
        res
    }

    /// Writes the same pairs directly to text, without the intermediate
    /// buffer.
    pub fn display(&self) -> (r: String)
        ensures
            r@ == ascii_chars(enc_form(self.pairs())),
    {
        let mut out = String::new();
        encoder::format_pair("From", self.from, &mut out);
        out.append("&");
        encoder::format_pair("To", self.to, &mut out);
        out.append("&");
        match self.instruction {
            CallInstruction::Twiml(twiml) => encoder::format_pair("Twiml", twiml, &mut out),
            CallInstruction::Url(url) => encoder::format_pair("Url", url, &mut out),
        }
        proof {
            lemma_sep_str();
            let ps = self.pairs();
            let p0 = enc_pair(ps[0].0, ps[0].1);
            let p1 = enc_pair(ps[1].0, ps[1].1);
            let p2 = enc_pair(ps[2].0, ps[2].1);
            let tail2 = seq![ps[2]];
            let tail1 = seq![ps[1], ps[2]];
            assert(enc_form(tail2) == p2);
            assert(tail1.drop_first() =~= tail2);
            assert(enc_form(tail1) == p1 + seq![SEP_BYTE] + p2);
            assert(ps.drop_first() =~= tail1);
            assert(enc_form(ps) == p0 + seq![SEP_BYTE] + (p1 + seq![SEP_BYTE] + p2));
            encoder::lemma_ascii_chars_concat(p0, seq![SEP_BYTE]);
            encoder::lemma_ascii_chars_concat(p0 + seq![SEP_BYTE], p1 + seq![SEP_BYTE] + p2);
            encoder::lemma_ascii_chars_concat(p1, seq![SEP_BYTE]);
            encoder::lemma_ascii_chars_concat(p1 + seq![SEP_BYTE], p2);
            assert(out@ =~= ascii_chars(enc_form(ps)));
        }
        out
    }
}

impl<'a> Mms<'a> {
    /// The pairs this view stands for: the message's pairs, then the media
    /// reference, appended last.
    pub open spec fn pairs(&self) -> Seq<Pair> {
        self.sms.pairs().push(("MediaUrl".spec_bytes(), self.media_url.spec_bytes()))
    }

    /// Converts to a generic request by the fixed sequence of setters.
    pub fn request(&self) -> (r: TwilioRequest)
        ensures
            r.wf(),
            r@ == self.pairs(),
    {
        let mut res = self.sms.request();
        res.media_url(self.media_url);
        res
    }

    /// Writes the same pairs directly to text, without the intermediate
    /// buffer.
    pub fn display(&self) -> (r: String)
        ensures
            r@ == ascii_chars(enc_form(self.pairs())),
    {
        let mut out = self.sms.display();
        out.append("&");
        encoder::format_pair("MediaUrl", self.media_url, &mut out);
        proof {
            lemma_sep_str();
            let base = self.sms.pairs();
            let media = ("MediaUrl".spec_bytes(), self.media_url.spec_bytes());
            encoder::lemma_enc_form_push(base, media.0, media.1);
            let pm = enc_pair(media.0, media.1);
            encoder::lemma_ascii_chars_concat(enc_form(base), seq![SEP_BYTE]);
            encoder::lemma_ascii_chars_concat(enc_form(base) + seq![SEP_BYTE], pm);
            assert(out@ =~= ascii_chars(enc_form(self.pairs())));
        }
        out
    }
}

/// The direct-build path and the streaming-format path of a message view
/// spell the same bytes: the buffer of any request holding the view's pairs
/// spells exactly the text that [`Sms::display`] writes.
pub proof fn lemma_sms_paths_agree(sms: Sms, r: TwilioRequest)
    requires
        r.wf(),
        r@ == sms.pairs(),
    ensures
        ascii_chars(r.form_bytes()) == ascii_chars(enc_form(sms.pairs())),
{
    r.lemma_wf_bytes();
}

/// The direct-build path and the streaming-format path of a call view spell
/// the same bytes: the buffer of any request holding the view's pairs spells
/// exactly the text that [`Call::display`] writes.
pub proof fn lemma_call_paths_agree(call: Call, r: TwilioRequest)
    requires
        r.wf(),
        r@ == call.pairs(),
    ensures
        ascii_chars(r.form_bytes()) == ascii_chars(enc_form(call.pairs())),
{
    r.lemma_wf_bytes();
}

/// The direct-build path and the streaming-format path of a
/// multimedia-message view spell the same bytes: the buffer of any request
/// holding the view's pairs spells exactly the text that [`Mms::display`]
/// writes.
pub proof fn lemma_mms_paths_agree(mms: Mms, r: TwilioRequest)
    requires
        r.wf(),
        r@ == mms.pairs(),
    ensures
        ascii_chars(r.form_bytes()) == ascii_chars(enc_form(mms.pairs())),
{
    r.lemma_wf_bytes();
}

/// The separator text `&` spells the separator byte.
proof fn lemma_sep_str()
    ensures
        "&"@ == ascii_chars(seq![SEP_BYTE]),
{
    reveal_strlit("&");
    assert('&' == (0x26u8) as char);
    assert("&"@ =~= ascii_chars(seq![SEP_BYTE]));
}

} // verus!
