//! The eventing handshake: Subscribe and Renew messages, and the state of a
//! subscription across renewals.
use vstd::prelude::*;
use vstd::string::*;
use crate::discovery::{parse_url, url_serialization};
use crate::text::{chars_of, find_from, has_prefix, occurs_at, starts_with};
use crate::xml::{
    contains_element, element_of, element_text, element_text_within, element_within, has_element,
};

verus! {

/// The decimal digits of `n`, without leading zeros.
pub open spec fn decimal(n: nat) -> Seq<char>
    decreases n,
{
    let digits = seq!['0', '1', '2', '3', '4', '5', '6', '7', '8', '9'];
    if n < 10 {
        seq![digits[n as int]]
    } else {
        decimal(n / 10) + seq![digits[(n % 10) as int]]
    }
}

/// `decimal(n)` followed by `unit`, or nothing where `n` is zero.
pub open spec fn part(n: nat, unit: char) -> Seq<char> {
    if n > 0 {
        decimal(n) + seq![unit]
    } else {
        Seq::empty()
    }
}

/// The ISO 8601 form of a duration of `seconds` whole seconds, split into
/// days, hours, minutes and seconds, each written only where it is not zero.
pub open spec fn duration_lexical(seconds: u32) -> Seq<char> {
    let s = seconds as nat;
    let day = s / 86400;
    let hour = (s / 3600) % 24;
    let minute = (s / 60) % 60;
    let second = s % 60;
    seq!['P'] + part(day, 'D') + if hour > 0 || minute > 0 || second > 0 {
        seq!['T'] + part(hour, 'H') + part(minute, 'M') + part(second, 'S')
    } else {
        Seq::empty()
    }
}

/// Relies on `xsd_types::Duration::new` and its `Display` impl, which, with
/// no months and no fraction, writes the days, hours, minutes and seconds of
/// the duration as `duration_lexical` states.
#[verifier::external_body]
fn duration_text(seconds: u32) -> (r: String)
    ensures
        r@ == duration_lexical(seconds),
{
    xsd_types::Duration::new(false, 0, seconds, 0).to_string()
}

/// What `xsd_types::DateTime::from_str` reads from a string: the local date and
/// time as seconds since the epoch, and the offset from UTC in seconds where
/// one is given, as the crate computes it (for `-hh:mm` that is
/// `-hh * 3600 + mm * 60`).
pub uninterp spec fn date_time_fields(s: Seq<char>) -> Option<(int, Option<int>)>;

/// The text opens with a four-digit year and its `-`. `xsd_types` finds the
/// end of the year by searching for `-` from the fifth character on, and
/// unwraps the year's parse, so it panics on shorter or much longer years;
/// a four-digit year rules that out.
pub open spec fn four_digit_year(s: Seq<char>) -> bool {
    &&& s.len() >= 5
    &&& forall|i: int| 0 <= i < 4 ==> '0' <= #[trigger] s[i] <= '9'
    &&& s[4] == '-'
}

/// The text ends in a negative offset with minutes (`-hh:mm`, `mm` not
/// `00`). `xsd_types` adds such minutes to the negative hours instead of
/// subtracting them, so these offsets are not read.
pub open spec fn negative_offset_with_minutes(s: Seq<char>) -> bool {
    &&& s.len() >= 6
    &&& s[s.len() - 6] == '-'
    &&& s[s.len() - 3] == ':'
    &&& !(s[s.len() - 2] == '0' && s[s.len() - 1] == '0')
}

fn has_negative_offset_with_minutes(s: &str) -> (r: bool)
    ensures
        r == negative_offset_with_minutes(s@),
{
    let cs = chars_of(s);
    let n = cs.len();
    n >= 6 && cs[n - 6] == '-' && cs[n - 3] == ':' && !(cs[n - 2] == '0' && cs[n - 1] == '0')
}

fn has_four_digit_year(s: &str) -> (r: bool)
    ensures
        r == four_digit_year(s@),
{
    let cs = chars_of(s);
    if cs.len() < 5 || cs[4] != '-' {
        return false;
    }
    let mut i: usize = 0;
    while i < 4
        invariant
            cs@ == s@,
            cs.len() >= 5,
            i <= 4,
            forall|k: int| 0 <= k < i ==> '0' <= #[trigger] cs@[k] <= '9',
        decreases 4 - i,
    {
        if cs[i] < '0' || cs[i] > '9' {
            return false;
        }
        i = i + 1;
    }
    true
}

/// Relies on `xsd_types::DateTime::from_str`, and on chrono's `timestamp` and
/// `local_minus_utc` to read the parsed value's fields. With a four-digit
/// year, the text either fails the date-time grammar or has fixed-width
/// fields, whose parses cannot fail.
#[verifier::external_body]
fn read_date_time(s: &str) -> (r: Option<(i64, Option<i32>)>)
    requires
        four_digit_year(s@),
    ensures
        match r {
            Some((t, o)) => date_time_fields(s@) == Some(
                (
                    t as int,
                    match o {
                        Some(x) => Some(x as int),
                        None => None,
                    },
                ),
            ),
            None => date_time_fields(s@) is None,
        },
{
    s.parse::<xsd_types::DateTime>().ok().map(
        |d| (d.date_time.and_utc().timestamp(), d.offset.map(|o| o.local_minus_utc())),
    )
}

/// The instant an `xs:dateTime` string denotes, in seconds since the epoch; a
/// time without an offset is read as UTC. `None` where the string does not
/// open with a four-digit year, ends in a negative offset with minutes, is
/// not a date-time, or the instant does not fit in an `i64`.
pub open spec fn instant_of(s: Seq<char>) -> Option<int> {
    if !four_digit_year(s) || negative_offset_with_minutes(s) {
        None
    } else {
        match date_time_fields(s) {
            Some((t, o)) => {
                let v = match o {
                    Some(x) => t - x,
                    None => t,
                };
                if i64::MIN <= v <= i64::MAX {
                    Some(v)
                } else {
                    None
                }
            },
            None => None,
        }
    }
}

/// The instant written in the first element named `n`.
pub open spec fn time_in(d: Seq<char>, n: Seq<char>) -> Option<int> {
    match element_of(d, n) {
        Some(t) => instant_of(t),
        None => None,
    }
}

fn instant(s: &str) -> (r: Option<i64>)
    ensures
        match r {
            Some(v) => instant_of(s@) == Some(v as int),
            None => instant_of(s@) is None,
        },
{
    if !has_four_digit_year(s) || has_negative_offset_with_minutes(s) {
        return None;
    }
    match read_date_time(s) {
        None => None,
        Some((t, None)) => Some(t),
        Some((t, Some(o))) => t.checked_sub(o as i64),
    }
}

fn time_field(doc: &str, name: &str) -> (r: Option<i64>)
    ensures
        match r {
            Some(v) => time_in(doc@, name@) == Some(v as int),
            None => time_in(doc@, name@) is None,
        },
{
    match element_text(doc, name) {
        None => None,
        Some(t) => instant(t.as_str()),
    }
}

/// How one character is written inside XML text or an attribute value.
pub open spec fn escaped_char(c: char) -> Seq<char> {
    if c == '&' {
        "&amp;"@
    } else if c == '<' {
        "&lt;"@
    } else if c == '>' {
        "&gt;"@
    } else if c == '"' {
        "&quot;"@
    } else {
        seq![c]
    }
}

/// `s` with each character written as `escaped_char` gives it.
pub open spec fn xml_escaped(s: Seq<char>) -> Seq<char>
    decreases s.len(),
{
    if s.len() == 0 {
        Seq::empty()
    } else {
        xml_escaped(s.drop_last()) + escaped_char(s.last())
    }
}

/// Escapes the characters of `s` that XML text cannot carry as they are.
pub fn escape_xml(s: &str) -> (r: String)
    ensures
        r@ == xml_escaped(s@),
{
    let cs = chars_of(s);
    let mut out = String::new();
    let mut i: usize = 0;
    while i < cs.len()
        invariant
            cs@ == s@,
            i <= cs.len(),
            out@ == xml_escaped(cs@.take(i as int)),
        decreases cs.len() - i,
    {
        let c = cs[i];
        if c == '&' {
            out.append("&amp;");
        } else if c == '<' {
            out.append("&lt;");
        } else if c == '>' {
            out.append("&gt;");
        } else if c == '"' {
            out.append("&quot;");
        } else {
            let one = s.substring_char(i, i + 1);
            assert(one@ =~= seq![c]);
            out.append(one);
        }
        assert(cs@.take(i + 1).drop_last() =~= cs@.take(i as int));
        i = i + 1;
    }
    assert(cs@.take(cs.len() as int) =~= cs@);
    out
}

/// The lease, in seconds, that a request of `minutes` minutes asks for;
/// `None` for zero minutes or a lease beyond what a `u32` of seconds holds.
pub open spec fn lease_seconds(minutes: u32) -> Option<u32> {
    if minutes == 0 || minutes * 60 > u32::MAX {
        None
    } else {
        Some((minutes * 60) as u32)
    }
}

fn lease(minutes: u32) -> (r: Option<u32>)
    ensures
        r == lease_seconds(minutes),
{
    if minutes == 0 {
        None
    } else {
        minutes.checked_mul(60)
    }
}

pub const SUBSCRIBE_HEAD: &'static str = "<wsnt:Subscribe xmlns:wsnt=\"http://docs.oasis-open.org/wsn/b-2\"><wsnt:ConsumerReference xmlns:wsa=\"http://www.w3.org/2005/08/addressing\"><wsa:Address>";

pub const SUBSCRIBE_MID: &'static str = "</wsa:Address></wsnt:ConsumerReference><wsnt:Filter /><wsnt:InitialTerminationTime>";

pub const SUBSCRIBE_TAIL: &'static str = "</wsnt:InitialTerminationTime><wsnt:SubscriptionPolicy /></wsnt:Subscribe>";

pub const RENEW_HEAD: &'static str = "<wsnt:Renew xmlns:wsnt=\"http://docs.oasis-open.org/wsn/b-2\"><wsnt:TerminationTime>";

pub const RENEW_TAIL: &'static str = "</wsnt:TerminationTime></wsnt:Renew>";

/// The Unsubscribe request body; it is sent to the subscription's reference.
pub const UNSUBSCRIBE_BODY: &'static str = "<wsnt:Unsubscribe xmlns:wsnt=\"http://docs.oasis-open.org/wsn/b-2\" />";

/// The Subscribe body that asks for notifications at the address written as
/// `callback` for a lease written as `duration`.
pub open spec fn subscribe_body(callback: Seq<char>, duration: Seq<char>) -> Seq<char> {
    SUBSCRIBE_HEAD@ + callback + SUBSCRIBE_MID@ + duration + SUBSCRIBE_TAIL@
}

/// The Renew body that asks for a lease written as `duration`.
pub open spec fn renew_body(duration: Seq<char>) -> Seq<char> {
    RENEW_HEAD@ + duration + RENEW_TAIL@
}

/// Why a subscription could not be made.
#[derive(Debug)]
pub enum SubscribeError {
    /// The callback address is empty.
    InvalidCallback,
    /// The lease is zero or too long.
    InvalidDuration,
    /// The request did not reach the device or its answer did not come back.
    Transport,
    /// The device refused the request, with its reason.
    Fault(String),
    /// The answer lacks a field or holds a malformed one.
    Decode,
}

/// Builds the Subscribe request body for a callback address and a lease in
/// minutes.
pub fn encode_subscribe(callback: &str, minutes: u32) -> (r: Result<String, SubscribeError>)
    ensures
        match r {
            Ok(b) => {
                &&& callback@.len() > 0
                &&& lease_seconds(minutes) matches Some(secs) && b@ == subscribe_body(
                    xml_escaped(callback@),
                    duration_lexical(secs),
                )
            },
            Err(SubscribeError::InvalidCallback) => callback@.len() == 0,
            Err(SubscribeError::InvalidDuration) => {
                &&& callback@.len() > 0
                &&& lease_seconds(minutes) is None
            },
            Err(_) => false,
        },
{
    if callback.is_empty() {
        return Err(SubscribeError::InvalidCallback);
    }
    let secs = match lease(minutes) {
        None => return Err(SubscribeError::InvalidDuration),
        Some(s) => s,
    };
    let d = duration_text(secs);
    let address = escape_xml(callback);
    let b = SUBSCRIBE_HEAD.to_owned().concat(address.as_str()).concat(SUBSCRIBE_MID).concat(d.as_str()).concat(
        SUBSCRIBE_TAIL,
    );
    Ok(b)
}

/// What a successful Subscribe answer carries.
#[derive(Debug)]
pub struct SubscribeResponse {
    /// The address of the subscription, to which renewals are sent.
    pub reference: String,
    /// The device's clock when it answered, in seconds since the epoch.
    pub current_time: i64,
    /// When the lease ends, in seconds since the epoch.
    pub termination_time: i64,
}

/// The reason text of a fault answer; empty where it gives none.
pub open spec fn fault_reason(d: Seq<char>) -> Seq<char> {
    match element_of(d, "Text"@) {
        Some(t) => t,
        None => Seq::empty(),
    }
}

fn fault_text(doc: &str) -> (r: String)
    ensures
        r@ == fault_reason(doc@),
{
    match element_text(doc, "Text") {
        Some(t) => t,
        None => String::new(),
    }
}

/// Reads the device's answer to a Subscribe request.
pub fn decode_subscribe_response(xml: &str) -> (r: Result<SubscribeResponse, SubscribeError>)
    ensures
        match r {
            Ok(resp) => {
                &&& !has_element(xml@, "Fault"@)
                &&& element_within(xml@, "SubscriptionReference"@, "Address"@) == Some(
                    resp.reference@,
                )
                &&& time_in(xml@, "CurrentTime"@) == Some(resp.current_time as int)
                &&& time_in(xml@, "TerminationTime"@) == Some(resp.termination_time as int)
            },
            Err(SubscribeError::Fault(t)) => has_element(xml@, "Fault"@) && t@ == fault_reason(
                xml@,
            ),
            Err(SubscribeError::Decode) => {
                &&& !has_element(xml@, "Fault"@)
                &&& {
                    ||| element_within(xml@, "SubscriptionReference"@, "Address"@) is None
                    ||| time_in(xml@, "CurrentTime"@) is None
                    ||| time_in(xml@, "TerminationTime"@) is None
                }
            },
            Err(_) => false,
        },
{
    if contains_element(xml, "Fault") {
        return Err(SubscribeError::Fault(fault_text(xml)));
    }
    let reference = match element_text_within(xml, "SubscriptionReference", "Address") {
        None => return Err(SubscribeError::Decode),
        Some(a) => a,
    };
    let current_time = match time_field(xml, "CurrentTime") {
        None => return Err(SubscribeError::Decode),
        Some(t) => t,
    };
    let termination_time = match time_field(xml, "TerminationTime") {
        None => return Err(SubscribeError::Decode),
        Some(t) => t,
    };
    Ok(SubscribeResponse { reference, current_time, termination_time })
}

/// Where a subscription stands.
#[derive(PartialEq, Eq, Structural, Clone, Copy, Debug)]
pub enum SubscriptionState {
    /// The lease runs and may be renewed.
    Active,
    /// The device no longer knows the subscription; a new one must be made.
    Expired,
    /// The subscriber tore it down.
    Terminated,
}

/// A subscription the device granted.
#[derive(Debug)]
pub struct Subscription {
    /// The address the device gave the subscription.
    pub reference: String,
    /// When the lease ends, in seconds since the epoch.
    pub termination_time: i64,
    pub state: SubscriptionState,
}

/// The device's answer to a Renew request, or its absence.
#[derive(Debug)]
pub enum RenewReply {
    /// The lease now ends at `termination_time`.
    Renewed { termination_time: i64 },
    /// The device does not know the subscription (its lease ran out), with
    /// the fault's reason.
    UnknownSubscription(String),
    /// The device refused the renewal for another reason.
    Fault(String),
    /// No answer came back.
    Transport,
    /// The answer could not be read.
    Malformed,
}

/// Why a renewal failed.
#[derive(Debug)]
pub enum RenewError {
    /// The subscription is expired or terminated: it must not be renewed.
    NotActive,
    /// The lease is zero or too long.
    InvalidDuration,
    /// No answer came back.
    Transport,
    /// The device refused, with its reason.
    Fault(String),
    /// The answer could not be read.
    Decode,
    /// The device no longer knows the subscription, with the fault's
    /// reason; it is now expired.
    Expired(String),
    /// The device answered with a lease that does not end later than the
    /// current one.
    NotExtended,
}

/// Builds the Renew request body for a lease in minutes.
pub fn encode_renew(minutes: u32) -> (r: Result<String, RenewError>)
    ensures
        match r {
            Ok(b) => lease_seconds(minutes) matches Some(secs) && b@ == renew_body(
                duration_lexical(secs),
            ),
            Err(RenewError::InvalidDuration) => lease_seconds(minutes) is None,
            Err(_) => false,
        },
{
    let secs = match lease(minutes) {
        None => return Err(RenewError::InvalidDuration),
        Some(s) => s,
    };
    let d = duration_text(secs);
    Ok(RENEW_HEAD.to_owned().concat(d.as_str()).concat(RENEW_TAIL))
}

/// Whether `p` occurs anywhere in `d`.
pub open spec fn mentions(d: Seq<char>, p: Seq<char>) -> bool {
    exists|i: int| occurs_at(d, p, i)
}

/// The reply that a Renew answer `d` stands for.
pub open spec fn renew_reply_of(d: Seq<char>) -> RenewReplyKind {
    if has_element(d, "Fault"@) {
        if mentions(d, "ResourceUnknown"@) {
            RenewReplyKind::UnknownSubscription
        } else {
            RenewReplyKind::Fault
        }
    } else {
        match time_in(d, "TerminationTime"@) {
            Some(t) => RenewReplyKind::Renewed(t),
            None => RenewReplyKind::Malformed,
        }
    }
}

/// The shape of a `RenewReply`, without the fault's text.
pub enum RenewReplyKind {
    Renewed(int),
    UnknownSubscription,
    Fault,
    Transport,
    Malformed,
}

/// The shape of a reply.
pub open spec fn kind_of_reply(r: RenewReply) -> RenewReplyKind {
    match r {
        RenewReply::Renewed { termination_time } => RenewReplyKind::Renewed(termination_time as int),
        RenewReply::UnknownSubscription(_) => RenewReplyKind::UnknownSubscription,
        RenewReply::Fault(_) => RenewReplyKind::Fault,
        RenewReply::Transport => RenewReplyKind::Transport,
        RenewReply::Malformed => RenewReplyKind::Malformed,
    }
}

/// Reads the device's answer to a Renew request. A fault that names an
/// unknown resource means that the subscription is gone.
pub fn decode_renew_response(xml: &str) -> (r: RenewReply)
    ensures
        kind_of_reply(r) == renew_reply_of(xml@),
        r matches RenewReply::Fault(t) ==> t@ == fault_reason(xml@),
        r matches RenewReply::UnknownSubscription(t) ==> t@ == fault_reason(xml@),
{
    if contains_element(xml, "Fault") {
        let d = chars_of(xml);
        let p = chars_of("ResourceUnknown");
        match find_from(&d, &p, 0) {
            Some(_) => RenewReply::UnknownSubscription(fault_text(xml)),
            None => {
                assert(!mentions(xml@, "ResourceUnknown"@));
                RenewReply::Fault(fault_text(xml))
            },
        }
    } else {
        match time_field(xml, "TerminationTime") {
            Some(t) => RenewReply::Renewed { termination_time: t },
            None => RenewReply::Malformed,
        }
    }
}

/// The subscription after `reply` was applied to `s`.
pub open spec fn renewed(s: Subscription, reply: RenewReply) -> Subscription {
    if s.state != SubscriptionState::Active {
        s
    } else {
        match reply {
            RenewReply::Renewed { termination_time } => if termination_time > s.termination_time {
                Subscription { termination_time, ..s }
            } else {
                s
            },
            RenewReply::UnknownSubscription(_) => Subscription { state: SubscriptionState::Expired, ..s },
            _ => s,
        }
    }
}

/// Whether applying `reply` to `s` renews it.
pub open spec fn renew_succeeds(s: Subscription, reply: RenewReply) -> bool {
    &&& s.state == SubscriptionState::Active
    &&& reply matches RenewReply::Renewed { termination_time } && termination_time
        > s.termination_time
}

impl Subscription {
    /// The subscription a successful Subscribe answer grants.
    pub fn new(response: SubscribeResponse) -> (r: Subscription)
        ensures
            r.reference == response.reference,
            r.termination_time == response.termination_time,
            r.state == SubscriptionState::Active,
    {
        Subscription {
            reference: response.reference,
            termination_time: response.termination_time,
            state: SubscriptionState::Active,
        }
    }

    /// The body of a Renew request for this subscription, to be sent to its
    /// reference address. Only an active subscription is renewed.
    pub fn renew_request(&self, minutes: u32) -> (r: Result<String, RenewError>)
        ensures
            self.state != SubscriptionState::Active ==> r matches Err(RenewError::NotActive),
            self.state == SubscriptionState::Active ==> match r {
                Ok(b) => lease_seconds(minutes) matches Some(secs) && b@ == renew_body(
                    duration_lexical(secs),
                ),
                Err(RenewError::InvalidDuration) => lease_seconds(minutes) is None,
                Err(_) => false,
            },
    {
        if self.state != SubscriptionState::Active {
            return Err(RenewError::NotActive);
        }
        encode_renew(minutes)
    }

    /// Applies the device's answer to a renewal. The lease only moves
    /// forward; an unknown-subscription fault expires the subscription.
    pub fn apply_renew(&mut self, reply: RenewReply) -> (r: Result<(), RenewError>)
        ensures
            *final(self) == renewed(*old(self), reply),
            r is Ok <==> renew_succeeds(*old(self), reply),
            old(self).state != SubscriptionState::Active ==> r matches Err(RenewError::NotActive),
            old(self).state == SubscriptionState::Active ==> match reply {
                RenewReply::Renewed { termination_time } => termination_time
                    <= old(self).termination_time ==> r matches Err(RenewError::NotExtended),
                RenewReply::UnknownSubscription(t) => r matches Err(RenewError::Expired(u)) && u@
                    == t@,
                RenewReply::Fault(t) => r matches Err(RenewError::Fault(u)) && u@ == t@,
                RenewReply::Transport => r matches Err(RenewError::Transport),
                RenewReply::Malformed => r matches Err(RenewError::Decode),
            },
    {
        if self.state != SubscriptionState::Active {
            return Err(RenewError::NotActive);
        }
        match reply {
            RenewReply::Renewed { termination_time } => {
                if termination_time > self.termination_time {
                    self.termination_time = termination_time;
                    Ok(())
                } else {
                    Err(RenewError::NotExtended)
                }
            },
            RenewReply::UnknownSubscription(t) => {
                self.state = SubscriptionState::Expired;
                Err(RenewError::Expired(t))
            },
            RenewReply::Fault(t) => Err(RenewError::Fault(t)),
            RenewReply::Transport => Err(RenewError::Transport),
            RenewReply::Malformed => Err(RenewError::Decode),
        }
    }

    /// Whether the subscription's reference lies under the trusted base, so
    /// that renewals and the Unsubscribe request, which carry the session's
    /// credentials, may be sent to it.
    pub fn reference_trusted(&self, base_uri: &str) -> (r: bool)
        ensures
            r == (url_serialization(base_uri@) matches Some(b) && has_prefix(self.reference@, b)),
    {
        match parse_url(base_uri) {
            None => false,
            Some(b) => {
                let r = chars_of(self.reference.as_str());
                let p = chars_of(b.as_str());
                starts_with(&r, &p)
            },
        }
    }

    /// Notes the time `now` (seconds since the epoch): an active subscription
    /// whose lease has ended by then becomes expired.
    pub fn observe_time(&mut self, now: i64)
        ensures
            final(self).reference == old(self).reference,
            final(self).termination_time == old(self).termination_time,
            final(self).state == if old(self).state == SubscriptionState::Active && now
                >= old(self).termination_time {
                SubscriptionState::Expired
            } else {
                old(self).state
            },
    {
        if self.state == SubscriptionState::Active && now >= self.termination_time {
            self.state = SubscriptionState::Expired;
        }
    }

    /// Tears the subscription down locally, whatever the device answered to
    /// the Unsubscribe request.
    pub fn terminate(&mut self)
        ensures
            final(self).reference == old(self).reference,
            final(self).termination_time == old(self).termination_time,
            final(self).state == SubscriptionState::Terminated,
    {
        self.state = SubscriptionState::Terminated;
    }
}

/// A renewal that succeeds moves the end of the lease strictly forward.
pub proof fn lemma_renewal_extends(s: Subscription, reply: RenewReply)
    requires
        renew_succeeds(s, reply),
    ensures
        renewed(s, reply).termination_time > s.termination_time,
        renewed(s, reply).state == SubscriptionState::Active,
        renewed(s, reply).reference == s.reference,
{
}

/// An unknown-subscription answer expires an active subscription, and an
/// expired subscription stays expired with the same lease whatever answers
/// follow: no later renewal of it succeeds.
pub proof fn lemma_expiry_is_final(s: Subscription, reply: RenewReply)
    requires
        s.state == SubscriptionState::Expired,
    ensures
        renewed(s, reply) == s,
        !renew_succeeds(s, reply),
{
}

/// An active subscription answered with an unknown-subscription fault is
/// expired afterwards.
pub proof fn lemma_unknown_subscription_expires(s: Subscription, reply: RenewReply)
    requires
        s.state == SubscriptionState::Active,
        reply is UnknownSubscription,
    ensures
        renewed(s, reply).state == SubscriptionState::Expired,
        renewed(s, reply).reference == s.reference,
        !renew_succeeds(s, reply),
{
}

/// Renewals applied one after the other lose no update: the second starts
/// from the lease the first left, the lease never moves back, and two
/// successful renewals end with the later of the two leases.
pub proof fn lemma_renewals_in_sequence(s: Subscription, first: RenewReply, second: RenewReply)
    ensures
        s.termination_time <= renewed(s, first).termination_time,
        renewed(s, first).termination_time <= renewed(renewed(s, first), second).termination_time,
        !renew_succeeds(renewed(s, first), second) ==> renewed(renewed(s, first), second).termination_time
            == renewed(s, first).termination_time,
        renew_succeeds(s, first) && renew_succeeds(renewed(s, first), second) ==> {
            &&& s.termination_time < renewed(s, first).termination_time
            &&& renewed(s, first).termination_time < renewed(renewed(s, first), second).termination_time
            &&& second matches RenewReply::Renewed { termination_time }
                && renewed(renewed(s, first), second).termination_time == termination_time
        },
{
}

} // verus!
