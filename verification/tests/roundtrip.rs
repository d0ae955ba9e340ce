use twilio_data::{
    call_resource_url, get_call_base, get_sms_base, sms_resource_url, TwilioError, TwilioRequest,
};

#[test]
fn encode_decode_reencode_is_identity() {
    let mut req = TwilioRequest::new();
    req.add_pair("From", "LOL KA");
    req.add_pair("Body", "a&b=c %26 caf\u{e9} ~*");
    req.add_pair("Empty", "");
    let original = req.as_form();

    let pairs = req.to_pairs();
    assert_eq!(req.pair_count(), pairs.len());
    let rebuilt = TwilioRequest::from_pairs(&pairs);
    assert_eq!(rebuilt.as_form(), original);
}

#[test]
fn to_pairs_decodes_in_order() {
    let mut req = TwilioRequest::new();
    req.add_pair("a", "1 2");
    req.add_pair("b", "x&y");
    let pairs = req.to_pairs();
    assert_eq!(pairs.len(), 2);
    assert_eq!(pairs[0].0, b"a");
    assert_eq!(pairs[0].1, b"1 2");
    assert_eq!(pairs[1].0, b"b");
    assert_eq!(pairs[1].1, b"x&y");
}

#[test]
fn parses_encoded_text_exactly() {
    let req = TwilioRequest::from_encoded_str("From=LOLKA&To=Me&Body=My+cute+text");
    assert_eq!(req.pair_count(), 3);
    assert_eq!(req.as_form(), "From=LOLKA&To=Me&Body=My+cute+text");
}

#[test]
fn parses_lowercase_hex_and_reencodes_uppercase() {
    let req = TwilioRequest::from_encoded_str("k=%3c%3e");
    assert_eq!(req.as_form(), "k=%3C%3E");
}

#[test]
fn malformed_escapes_pass_through_decoding() {
    let req = TwilioRequest::from_encoded_str("k=%zz%2");
    let pairs = req.to_pairs();
    assert_eq!(pairs[0].1, b"%zz%2");
    assert_eq!(req.as_form(), "k=%25zz%252");
}

#[test]
fn segment_without_assignment_gets_empty_value() {
    let req = TwilioRequest::from_encoded_str("lonely");
    let pairs = req.to_pairs();
    assert_eq!(pairs.len(), 1);
    assert_eq!(pairs[0].0, b"lonely");
    assert_eq!(pairs[0].1, b"");
    assert_eq!(req.as_form(), "lonely=");
}

#[test]
fn empty_segments_are_skipped() {
    let req = TwilioRequest::from_encoded_str("a=1&&b=2&");
    assert_eq!(req.pair_count(), 2);
    assert_eq!(req.as_form(), "a=1&b=2");

    let empty = TwilioRequest::from_encoded_str("");
    assert_eq!(empty.pair_count(), 0);
    assert_eq!(empty.as_form(), "");
}

#[test]
fn resource_urls_join_base_account_and_leaf() {
    assert_eq!(
        get_sms_base("AC1"),
        "https://api.twilio.com/2010-04-01/Accounts/AC1/Messages"
    );
    assert_eq!(
        sms_resource_url("AC1"),
        "https://api.twilio.com/2010-04-01/Accounts/AC1/Messages.json"
    );
    assert_eq!(
        get_call_base("AC1"),
        "https://api.twilio.com/2010-04-01/Accounts/AC1/Calls"
    );
    assert_eq!(
        call_resource_url("AC1"),
        "https://api.twilio.com/2010-04-01/Accounts/AC1/Calls.json"
    );
}

#[test]
fn error_display_text() {
    let err = TwilioError {
        code: 21211,
        message: String::from("Invalid 'To' number"),
        status: 400,
    };
    assert_eq!(
        err.display(),
        "Twilio API responded with status=400, code=21211, message: Invalid 'To' number"
    );
}
