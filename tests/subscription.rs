use onvif_session::subscription::{
    decode_renew_response, decode_subscribe_response, encode_renew, encode_subscribe, RenewError,
    RenewReply, SubscribeError, Subscription, SubscriptionState,
};

const SUBSCRIBE_RESPONSE: &str = "<?xml version=\"1.0\" encoding=\"UTF-8\"?>\
    <SOAP-ENV:Envelope xmlns:SOAP-ENV=\"http://www.w3.org/2003/05/soap-envelope\" \
    xmlns:wsa5=\"http://www.w3.org/2005/08/addressing\" xmlns:wsnt=\"http://docs.oasis-open.org/wsn/b-2\">\
    <SOAP-ENV:Body><wsnt:SubscribeResponse><wsnt:SubscriptionReference>\
    <wsa5:Address>http://192.168.1.110:8000/onvif/Subscription?Idx=0</wsa5:Address>\
    </wsnt:SubscriptionReference>\
    <wsnt:CurrentTime>2021-06-30T10:17:48Z</wsnt:CurrentTime>\
    <wsnt:TerminationTime>2021-06-30T10:32:48Z</wsnt:TerminationTime>\
    </wsnt:SubscribeResponse></SOAP-ENV:Body></SOAP-ENV:Envelope>";

fn subscription_at(termination_time: i64) -> Subscription {
    Subscription {
        reference: "http://cam/sub".to_string(),
        termination_time,
        state: SubscriptionState::Active,
    }
}

#[test]
fn subscribe_request_and_response_round_trip() {
    let body = encode_subscribe("http://192.168.1.90:8080/onvif/Notification", 15).unwrap();
    assert_eq!(
        body,
        "<wsnt:Subscribe xmlns:wsnt=\"http://docs.oasis-open.org/wsn/b-2\"><wsnt:ConsumerReference \
         xmlns:wsa=\"http://www.w3.org/2005/08/addressing\"><wsa:Address>\
         http://192.168.1.90:8080/onvif/Notification</wsa:Address></wsnt:ConsumerReference>\
         <wsnt:Filter /><wsnt:InitialTerminationTime>PT15M</wsnt:InitialTerminationTime>\
         <wsnt:SubscriptionPolicy /></wsnt:Subscribe>"
    );
    let resp = decode_subscribe_response(SUBSCRIBE_RESPONSE).unwrap();
    assert_eq!(resp.reference, "http://192.168.1.110:8000/onvif/Subscription?Idx=0");
    assert_eq!(resp.current_time, 1625048268);
    assert_eq!(resp.termination_time, 1625049168);
}

#[test]
fn lease_durations_are_written_in_iso_form() {
    let body = encode_renew(90).unwrap();
    assert_eq!(
        body,
        "<wsnt:Renew xmlns:wsnt=\"http://docs.oasis-open.org/wsn/b-2\"><wsnt:TerminationTime>PT1H30M\
         </wsnt:TerminationTime></wsnt:Renew>"
    );
    assert!(matches!(encode_renew(0), Err(RenewError::InvalidDuration)));
    assert!(matches!(encode_renew(u32::MAX), Err(RenewError::InvalidDuration)));
}

#[test]
fn subscribe_rejects_bad_callbacks_and_leases() {
    assert!(matches!(encode_subscribe("", 1), Err(SubscribeError::InvalidCallback)));
    let body = encode_subscribe("http://a/n?x=1&y=\"<2>\"", 1).unwrap();
    assert!(body.contains("<wsa:Address>http://a/n?x=1&amp;y=&quot;&lt;2&gt;&quot;</wsa:Address>"));
    assert!(body.contains("<wsnt:InitialTerminationTime>PT1M</wsnt:InitialTerminationTime>"));
    assert!(matches!(encode_subscribe("http://a/b", 0), Err(SubscribeError::InvalidDuration)));
}

#[test]
fn subscribe_fault_and_missing_fields() {
    let fault = "<s:Envelope><s:Body><s:Fault><s:Reason><s:Text xml:lang=\"en\">Invalid filter</s:Text>\
                 </s:Reason></s:Fault></s:Body></s:Envelope>";
    match decode_subscribe_response(fault) {
        Err(SubscribeError::Fault(t)) => assert_eq!(t, "Invalid filter"),
        other => panic!("unexpected {:?}", other),
    }
    let partial = "<wsnt:SubscribeResponse><wsa:Address>http://cam/sub</wsa:Address>\
                   <wsnt:CurrentTime>2021-06-30T10:17:48Z</wsnt:CurrentTime></wsnt:SubscribeResponse>";
    assert!(matches!(decode_subscribe_response(partial), Err(SubscribeError::Decode)));
    let bad_time = "<wsnt:SubscribeResponse><wsa:Address>http://cam/sub</wsa:Address>\
                    <wsnt:CurrentTime>yesterday</wsnt:CurrentTime>\
                    <wsnt:TerminationTime>2021-06-30T10:32:48Z</wsnt:TerminationTime></wsnt:SubscribeResponse>";
    assert!(matches!(decode_subscribe_response(bad_time), Err(SubscribeError::Decode)));
}

#[test]
fn time_offsets_are_applied() {
    let doc = "<wsnt:RenewResponse><wsnt:TerminationTime>2021-06-30T12:47:48+02:00</wsnt:TerminationTime>\
               </wsnt:RenewResponse>";
    match decode_renew_response(doc) {
        RenewReply::Renewed { termination_time } => assert_eq!(termination_time, 1625050068),
        other => panic!("unexpected {:?}", other),
    }
}

#[test]
fn renew_before_expiry_moves_lease_forward() {
    let resp = decode_subscribe_response(SUBSCRIBE_RESPONSE).unwrap();
    let mut sub = Subscription::new(resp);
    assert_eq!(sub.state, SubscriptionState::Active);
    let body = sub.renew_request(15).unwrap();
    assert!(body.contains("PT15M"));
    let reply = decode_renew_response(
        "<wsnt:RenewResponse><wsnt:TerminationTime>2021-06-30T10:47:48Z</wsnt:TerminationTime>\
         <wsnt:CurrentTime>2021-06-30T10:32:00Z</wsnt:CurrentTime></wsnt:RenewResponse>",
    );
    assert!(sub.apply_renew(reply).is_ok());
    assert_eq!(sub.termination_time, 1625050068);
    assert!(sub.termination_time > 1625049168);
}

#[test]
fn unknown_subscription_expires_and_blocks_renewal() {
    let mut sub = subscription_at(1000);
    let reply = decode_renew_response(
        "<s:Envelope><s:Body><s:Fault><s:Code><s:Value>s:Sender</s:Value><s:Subcode>\
         <s:Value>wsrf-rw:ResourceUnknownFault</s:Value></s:Subcode></s:Code>\
         <s:Reason><s:Text xml:lang=\"en\">Subscription unknown</s:Text></s:Reason></s:Fault></s:Body></s:Envelope>",
    );
    assert!(matches!(reply, RenewReply::UnknownSubscription(_)));
    match sub.apply_renew(reply) {
        Err(RenewError::Expired(t)) => assert_eq!(t, "Subscription unknown"),
        other => panic!("unexpected {:?}", other),
    }
    assert_eq!(sub.state, SubscriptionState::Expired);
    assert!(matches!(sub.renew_request(5), Err(RenewError::NotActive)));
    assert!(matches!(
        sub.apply_renew(RenewReply::Renewed { termination_time: 5000 }),
        Err(RenewError::NotActive)
    ));
    assert_eq!(sub.termination_time, 1000);
}

#[test]
fn renewals_in_sequence_lose_no_update() {
    let mut sub = subscription_at(1000);
    assert!(sub.apply_renew(RenewReply::Renewed { termination_time: 1600 }).is_ok());
    assert!(matches!(
        sub.apply_renew(RenewReply::Renewed { termination_time: 1300 }),
        Err(RenewError::NotExtended)
    ));
    assert_eq!(sub.termination_time, 1600);
    assert!(sub.apply_renew(RenewReply::Renewed { termination_time: 2200 }).is_ok());
    assert_eq!(sub.termination_time, 2200);
}

#[test]
fn renew_errors_are_reported() {
    let mut sub = subscription_at(1000);
    match sub.apply_renew(RenewReply::Fault("busy".to_string())) {
        Err(RenewError::Fault(t)) => assert_eq!(t, "busy"),
        other => panic!("unexpected {:?}", other),
    }
    assert!(matches!(sub.apply_renew(RenewReply::Transport), Err(RenewError::Transport)));
    assert!(matches!(sub.apply_renew(RenewReply::Malformed), Err(RenewError::Decode)));
    assert_eq!(sub.termination_time, 1000);
    assert_eq!(sub.state, SubscriptionState::Active);
    let other_fault = decode_renew_response(
        "<s:Fault><s:Reason><s:Text>Policy</s:Text></s:Reason></s:Fault>",
    );
    assert!(matches!(other_fault, RenewReply::Fault(ref t) if t == "Policy"));
    assert!(matches!(decode_renew_response("<x>nothing</x>"), RenewReply::Malformed));
}

#[test]
fn terminate_is_local() {
    let mut sub = subscription_at(1000);
    sub.terminate();
    assert_eq!(sub.state, SubscriptionState::Terminated);
    assert!(matches!(sub.renew_request(1), Err(RenewError::NotActive)));
}

#[test]
fn lease_that_ran_out_expires() {
    let mut sub = subscription_at(1000);
    sub.observe_time(999);
    assert_eq!(sub.state, SubscriptionState::Active);
    sub.observe_time(1000);
    assert_eq!(sub.state, SubscriptionState::Expired);
    assert!(matches!(sub.renew_request(1), Err(RenewError::NotActive)));
}

#[test]
fn day_and_hour_leases_are_written_by_part() {
    let day = encode_renew(1440).unwrap();
    assert!(day.contains("<wsnt:TerminationTime>P1D</wsnt:TerminationTime>"));
    let mixed = encode_renew(1501).unwrap();
    assert!(mixed.contains("<wsnt:TerminationTime>P1DT1H1M</wsnt:TerminationTime>"));
}

#[test]
fn long_or_short_years_are_decode_errors() {
    let doc = "<wsnt:SubscribeResponse><wsa:Address>http://cam/sub</wsa:Address>\
               <wsnt:CurrentTime>99999999999-01-01T00:00:00Z</wsnt:CurrentTime>\
               <wsnt:TerminationTime>2021-06-30T10:32:48Z</wsnt:TerminationTime></wsnt:SubscribeResponse>";
    assert!(matches!(decode_subscribe_response(doc), Err(SubscribeError::Decode)));
    let short = "<wsnt:RenewResponse><wsnt:TerminationTime>1-01-01T00:00:00Z</wsnt:TerminationTime>\
                 </wsnt:RenewResponse>";
    assert!(matches!(decode_renew_response(short), RenewReply::Malformed));
}

#[test]
fn reference_is_read_inside_subscription_reference_and_unescaped() {
    let doc = "<s:Envelope><s:Header><wsa:ReplyTo><wsa:Address>http://elsewhere/</wsa:Address></wsa:ReplyTo>\
               </s:Header><s:Body><wsnt:SubscribeResponse><wsnt:SubscriptionReference>\
               <wsa:Address>http://cam/sub?a=1&amp;b=2</wsa:Address></wsnt:SubscriptionReference>\
               <wsnt:CurrentTime>2021-06-30T10:17:48Z</wsnt:CurrentTime>\
               <wsnt:TerminationTime>2021-06-30T10:32:48Z</wsnt:TerminationTime>\
               </wsnt:SubscribeResponse></s:Body></s:Envelope>";
    let resp = decode_subscribe_response(doc).unwrap();
    assert_eq!(resp.reference, "http://cam/sub?a=1&b=2");
    let sub = Subscription::new(resp);
    assert!(sub.reference_trusted("http://cam/"));
    assert!(!sub.reference_trusted("http://other/"));
    assert!(!sub.reference_trusted("not a url"));
}

#[test]
fn negative_offsets_with_minutes_are_not_read() {
    let doc = "<wsnt:RenewResponse><wsnt:TerminationTime>2021-06-30T05:02:48-05:30</wsnt:TerminationTime>\
               </wsnt:RenewResponse>";
    assert!(matches!(decode_renew_response(doc), RenewReply::Malformed));
    let whole = "<wsnt:RenewResponse><wsnt:TerminationTime>2021-06-30T05:32:48-05:00</wsnt:TerminationTime>\
                 </wsnt:RenewResponse>";
    match decode_renew_response(whole) {
        RenewReply::Renewed { termination_time } => assert_eq!(termination_time, 1625049168),
        other => panic!("unexpected {:?}", other),
    }
}
