use onvif_session::notification::{process_notification, NotificationError};
use onvif_session::xml::element_text;

#[test]
fn notify_payload_is_decoded() {
    let payload = "<wsnt:Notify><wsnt:NotificationMessage><wsnt:Topic Dialect=\"x\">\
                   tns1:RuleEngine/CellMotionDetector/Motion</wsnt:Topic></wsnt:NotificationMessage>\
                   </wsnt:Notify>";
    let n = process_notification(bytes::Bytes::from(payload.as_bytes().to_vec())).unwrap();
    assert_eq!(n.text, payload);
    assert_eq!(n.topics, vec!["tns1:RuleEngine/CellMotionDetector/Motion".to_string()]);
}

#[test]
fn messages_are_reported_in_payload_order() {
    let payload = "<?xml version=\"1.0\"?><s:Envelope><s:Body><wsnt:Notify>\
                   <wsnt:NotificationMessage><wsnt:Topic>a/first</wsnt:Topic><wsnt:Message><x:Item v=\"1\"/></wsnt:Message></wsnt:NotificationMessage>\
                   <wsnt:NotificationMessage><wsnt:Topic>b/second</wsnt:Topic></wsnt:NotificationMessage>\
                   </wsnt:Notify></s:Body></s:Envelope>";
    let n = process_notification(bytes::Bytes::from(payload)).unwrap();
    assert_eq!(n.topics, vec!["a/first".to_string(), "b/second".to_string()]);
}

#[test]
fn payload_with_unbalanced_tags_is_rejected() {
    let r = process_notification(bytes::Bytes::from_static(b"<Notify>"));
    assert_eq!(r.unwrap_err(), NotificationError::Malformed);
    let r = process_notification(bytes::Bytes::from_static(b"<a:Notify><b></a:Notify></b>"));
    assert_eq!(r.unwrap_err(), NotificationError::Malformed);
    let r = process_notification(bytes::Bytes::from_static(b"<a:Notify></a:Notify"));
    assert_eq!(r.unwrap_err(), NotificationError::Malformed);
}

#[test]
fn payload_that_is_not_text_is_rejected() {
    let r = process_notification(bytes::Bytes::from(vec![0xffu8, 0xfe, 0x00]));
    assert_eq!(r.unwrap_err(), NotificationError::NotText);
}

#[test]
fn payload_without_notify_is_rejected() {
    let r = process_notification(bytes::Bytes::from_static(b"<hello/>"));
    assert_eq!(r.unwrap_err(), NotificationError::NotNotify);
}

#[test]
fn element_text_takes_first_match_in_any_prefix() {
    assert_eq!(element_text("<a:X>one</a:X><X>two</X>", "X").as_deref(), Some("one"));
    assert_eq!(element_text("<XY>no</XY><X attr=\"1\">yes</X>", "X").as_deref(), Some("yes"));
    assert_eq!(element_text("<X>unclosed", "X"), None);
    assert_eq!(element_text("", "X"), None);
}

#[test]
fn end_tags_are_not_taken_for_elements() {
    assert_eq!(element_text("</a:X>late<a:X>on</a:X>", "X").as_deref(), Some("on"));
    assert_eq!(element_text("<p/:X>no</p/:X>", "X"), None);
}

#[test]
fn payload_that_is_not_well_formed_is_rejected() {
    let cases: [&[u8]; 6] = [
        b"<Notify>&</Notify>",
        b"<Notify>&bogus;</Notify>",
        b"<a:Notify flag></a:Notify>",
        b"<a:Notify x=1></a:Notify>",
        b"<a:Notify></a:Notify>trailing",
        b"<a:Notify></a:Notify><b/>",
    ];
    for c in cases.iter() {
        let r = process_notification(bytes::Bytes::from_static(c));
        assert_eq!(r.unwrap_err(), NotificationError::Malformed);
    }
}

#[test]
fn references_comments_and_attributes_are_accepted() {
    let payload = "<?xml version=\"1.0\"?>\n<!-- pushed -->\n<a:Notify xmlns:a='urn:x' b=\"1 &amp; 2\">\
                   <a:Topic>t &lt;1&gt; &#65;&#x42;</a:Topic></a:Notify>\n";
    let n = process_notification(bytes::Bytes::from(payload)).unwrap();
    assert_eq!(n.topics.len(), 1);
}
