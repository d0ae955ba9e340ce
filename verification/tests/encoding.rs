use twilio_data::{format_pair, push_pair, TwilioMethod, TwilioRequest};

#[test]
fn append_mode_and_format_mode_agree() {
    let mut bytes: Vec<u8> = Vec::new();
    push_pair("k y", "v/1 ~", &mut bytes);
    let mut text = String::new();
    format_pair("k y", "v/1 ~", &mut text);
    assert_eq!(String::from_utf8(bytes).unwrap(), text);
    assert_eq!(text, "k+y=v%2F1+~");
}

#[test]
fn encodes_unreserved_space_and_escapes() {
    let mut req = TwilioRequest::new();
    req.add_pair("Key", "AZaz09-_.~");
    req.add_pair("Key", "a b");
    req.add_pair("Key", "*:/?#");
    assert_eq!(
        req.as_form(),
        "Key=AZaz09-_.~&Key=a+b&Key=%2A%3A%2F%3F%23"
    );
}

#[test]
fn encodes_multibyte_text_bytewise() {
    let mut req = TwilioRequest::new();
    req.add_pair("Name", "caf\u{e9}");
    assert_eq!(req.as_form(), "Name=caf%C3%A9");
}

#[test]
fn encodes_empty_key_and_value() {
    let mut req = TwilioRequest::new();
    req.add_pair("", "");
    req.add_pair("k", "");
    req.add_pair("", "v");
    assert_eq!(req.as_form(), "=&k=&=v");
}

#[test]
fn empty_request_exports_empty_text() {
    let req = TwilioRequest::new();
    assert_eq!(req.pair_count(), 0);
    assert_eq!(req.as_form(), "");
    assert!(req.into_bytes().is_empty());
}

#[test]
fn push_pair_separates_only_after_content() {
    let mut out: Vec<u8> = Vec::new();
    push_pair("a", "1", &mut out);
    assert_eq!(out, b"a=1");
    push_pair("b", "2 3", &mut out);
    assert_eq!(out, b"a=1&b=2+3");
}

#[test]
fn separator_count_is_pairs_minus_one() {
    let mut req = TwilioRequest::new();
    req.add_pair("a", "x&y");
    req.add_pair("b", "p=q");
    req.add_pair("c", "&&");
    assert_eq!(req.pair_count(), 3);
    let form = req.into_string();
    assert_eq!(form, "a=x%26y&b=p%3Dq&c=%26%26");
    let seps = form.bytes().filter(|b| *b == b'&').count();
    assert_eq!(seps, 2);
    let eqs = form.bytes().filter(|b| *b == b'=').count();
    assert_eq!(eqs, 3);
}

#[test]
fn numeric_setters_write_decimal_digits() {
    let mut req = TwilioRequest::new();
    req.attempt(0);
    req.attempt(4294967295);
    req.validity_period(65535);
    req.page_size(10);
    assert_eq!(
        req.as_form(),
        "Attempt=0&Attempt=4294967295&ValidityPeriod=65535&PageSize=10"
    );
}

#[test]
fn feedback_writes_bool_literals() {
    let mut req = TwilioRequest::new();
    req.provide_feedback(true);
    req.provide_feedback(false);
    assert_eq!(req.as_form(), "ProvideFeedback=true&ProvideFeedback=false");
}

#[test]
fn method_setters_write_method_before_url() {
    let mut req = TwilioRequest::new();
    req.url_with_method(TwilioMethod::GET, "https://a.example/x");
    req.status_url_with_method(TwilioMethod::POST, "https://a.example/s");
    assert_eq!(
        req.as_form(),
        "Method=GET&Url=https%3A%2F%2Fa.example%2Fx&StatusCallbackMethod=POST&StatusCallback=https%3A%2F%2Fa.example%2Fs"
    );
}

#[test]
fn named_setters_use_fixed_keys() {
    let mut req = TwilioRequest::new();
    req.account_sid("AC123");
    req.post_status_callback("https://cb.example/");
    req.send_at("2024-01-02");
    req.caller_id("+15005550006");
    req.send_digits("1234#");
    req.start_date("2024-01-01");
    req.end_date("2024-12-31");
    req.date_sent("2024-06-15");
    assert_eq!(
        req.as_form(),
        "AccountSid=AC123&StatusCallback=https%3A%2F%2Fcb.example%2F&SendAt=2024-01-02\
         &CallerId=%2B15005550006&SendDigits=1234%23&StartDate=2024-01-01\
         &EndDate=2024-12-31&DateSent=2024-06-15"
    );
}

#[test]
fn method_names() {
    assert_eq!(TwilioMethod::GET.as_str(), "GET");
    assert_eq!(TwilioMethod::POST.as_str(), "POST");
    assert_eq!(TwilioMethod::default().as_str(), "POST");
}

#[test]
fn into_bytes_matches_form_text() {
    let mut req = TwilioRequest::new();
    req.from("A B");
    req.to("C/D");
    let text = req.as_form();
    assert_eq!(req.into_bytes(), text.into_bytes());
}
