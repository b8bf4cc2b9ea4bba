//! Notifications that a device pushes to the callback address.
use vstd::prelude::*;
use vstd::utf8::{decode_utf8, valid_utf8};
use crate::nesting::{is_well_formed, well_formed};
use crate::xml::{contains_element, element_texts, has_element, texts_from};

verus! {

#[verifier::external_type_specification]
#[verifier::external_body]
pub struct ExBytes(bytes::Bytes);

/// The bytes that a `bytes::Bytes` buffer holds.
pub uninterp spec fn bytes_contents(b: bytes::Bytes) -> Seq<u8>;

/// Relies on `Vec<u8>: From<bytes::Bytes>`, which hands over the buffer's bytes
/// in order.
#[verifier::external_body]
fn buffer_to_vec(b: bytes::Bytes) -> (r: Vec<u8>)
    ensures
        r@ == bytes_contents(b),
{
    Vec::from(b)
}

/// Relies on `String::from_utf8`, which accepts exactly the valid UTF-8 byte
/// sequences and keeps their characters.
#[verifier::external_body]
fn utf8_text(v: Vec<u8>) -> (r: Option<String>)
    ensures
        match r {
            Some(s) => valid_utf8(v@) && s@ == decode_utf8(v@),
            None => !valid_utf8(v@),
        },
{
    String::from_utf8(v).ok()
}

/// A decoded notification message.
#[derive(Debug)]
pub struct Notification {
    /// The whole message text.
    pub text: String,
    /// The topic of each notification message, in payload order: the text
    /// of every `Topic` element.
    pub topics: Vec<String>,
}

/// Why a pushed payload could not be read as a notification.
#[derive(PartialEq, Eq, Structural, Clone, Copy, Debug)]
pub enum NotificationError {
    /// The payload is not UTF-8 text.
    NotText,
    /// The text is not a well-formed document.
    Malformed,
    /// The text holds no `Notify` element.
    NotNotify,
}

/// Decodes a payload that arrived at the callback address. Holds no state,
/// so overlapping deliveries may be decoded at once.
pub fn process_notification(bytes: bytes::Bytes) -> (r: Result<Notification, NotificationError>)
    ensures
        match r {
            Ok(n) => {
                &&& valid_utf8(bytes_contents(bytes))
                &&& n.text@ == decode_utf8(bytes_contents(bytes))
                &&& well_formed(n.text@)
                &&& has_element(n.text@, "Notify"@)
                &&& n.topics@.map_values(|t: String| t@) == texts_from(n.text@, "Topic"@, 0)
            },
            Err(NotificationError::NotText) => !valid_utf8(bytes_contents(bytes)),
            Err(NotificationError::Malformed) => {
                &&& valid_utf8(bytes_contents(bytes))
                &&& !well_formed(decode_utf8(bytes_contents(bytes)))
            },
            Err(NotificationError::NotNotify) => {
                &&& valid_utf8(bytes_contents(bytes))
                &&& well_formed(decode_utf8(bytes_contents(bytes)))
                &&& !has_element(decode_utf8(bytes_contents(bytes)), "Notify"@)
            },
        },
{
    let raw = buffer_to_vec(bytes);
    let text = match utf8_text(raw) {
        None => return Err(NotificationError::NotText),
        Some(t) => t,
    };
    if !is_well_formed(text.as_str()) {
        return Err(NotificationError::Malformed);
    }
    if !contains_element(text.as_str(), "Notify") {
        return Err(NotificationError::NotNotify);
    }
    let topics = element_texts(text.as_str(), "Topic");
    Ok(Notification { text, topics })
}

} // verus!
