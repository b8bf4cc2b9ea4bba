//! Discovery of a device's services and the directory of per-service clients.
use vstd::prelude::*;
use crate::text::{chars_of, has_prefix, starts_with};

verus! {

/// What `url::Url::parse` makes of a string: its serialized form, or `None`
/// where the string is not an absolute URL.
pub uninterp spec fn url_serialization(s: Seq<char>) -> Option<Seq<char>>;

/// Relies on `url::Url::parse` and on `String: From<Url>`, which yields the
/// serialization of the parsed URL.
#[verifier::external_body]
pub(crate) fn parse_url(s: &str) -> (r: Option<String>)
    ensures
        match r {
            Some(u) => url_serialization(s@) == Some(u@),
            None => url_serialization(s@) is None,
        },
{
    url::Url::parse(s).ok().map(String::from)
}

/// The categories of capability a device can advertise.
#[derive(PartialEq, Eq, Structural, Clone, Copy, Debug)]
pub enum ServiceKind {
    DeviceManagement,
    Events,
    DeviceIo,
    Media,
    Media2,
    Imaging,
    Ptz,
    Analytics,
}

/// The service kind that a namespace URI names, if it is a known one.
pub open spec fn kind_of(ns: Seq<char>) -> Option<ServiceKind> {
    if ns == "http://www.onvif.org/ver10/device/wsdl"@ {
        Some(ServiceKind::DeviceManagement)
    } else if ns == "http://www.onvif.org/ver10/events/wsdl"@ {
        Some(ServiceKind::Events)
    } else if ns == "http://www.onvif.org/ver10/deviceIO/wsdl"@ {
        Some(ServiceKind::DeviceIo)
    } else if ns == "http://www.onvif.org/ver10/media/wsdl"@ {
        Some(ServiceKind::Media)
    } else if ns == "http://www.onvif.org/ver20/media/wsdl"@ {
        Some(ServiceKind::Media2)
    } else if ns == "http://www.onvif.org/ver20/imaging/wsdl"@ {
        Some(ServiceKind::Imaging)
    } else if ns == "http://www.onvif.org/ver20/ptz/wsdl"@ {
        Some(ServiceKind::Ptz)
    } else if ns == "http://www.onvif.org/ver20/analytics/wsdl"@ {
        Some(ServiceKind::Analytics)
    } else {
        None
    }
}

fn same_text(a: &str, b: &str) -> (r: bool)
    ensures
        r == (a@ == b@),
{
    a.to_owned() == b.to_owned()
}

/// Classifies a namespace URI; unknown namespaces give `None`.
pub fn classify(namespace: &str) -> (r: Option<ServiceKind>)
    ensures
        r == kind_of(namespace@),
{
    if same_text(namespace, "http://www.onvif.org/ver10/device/wsdl") {
        Some(ServiceKind::DeviceManagement)
    } else if same_text(namespace, "http://www.onvif.org/ver10/events/wsdl") {
        Some(ServiceKind::Events)
    } else if same_text(namespace, "http://www.onvif.org/ver10/deviceIO/wsdl") {
        Some(ServiceKind::DeviceIo)
    } else if same_text(namespace, "http://www.onvif.org/ver10/media/wsdl") {
        Some(ServiceKind::Media)
    } else if same_text(namespace, "http://www.onvif.org/ver20/media/wsdl") {
        Some(ServiceKind::Media2)
    } else if same_text(namespace, "http://www.onvif.org/ver20/imaging/wsdl") {
        Some(ServiceKind::Imaging)
    } else if same_text(namespace, "http://www.onvif.org/ver20/ptz/wsdl") {
        Some(ServiceKind::Ptz)
    } else if same_text(namespace, "http://www.onvif.org/ver20/analytics/wsdl") {
        Some(ServiceKind::Analytics)
    } else {
        None
    }
}

/// The device-management address under a base URL: the fixed path appended.
pub open spec fn device_url_of(base: Seq<char>) -> Seq<char> {
    if base.len() > 0 && base.last() == '/' {
        base + "device_service"@
    } else {
        base + "/device_service"@
    }
}

/// The device-management address for a base URI, or `None` where the base
/// is not a URL.
pub fn device_service_url(base_uri: &str) -> (r: Option<String>)
    ensures
        match url_serialization(base_uri@) {
            Some(base) => r matches Some(u) && u@ == device_url_of(base),
            None => r is None,
        },
{
    match parse_url(base_uri) {
        None => None,
        Some(base) => Some(device_url_for(&base)),
    }
}

fn device_url_for(base: &String) -> (r: String)
    ensures
        r@ == device_url_of(base@),
{
    let cs = chars_of(base.as_str());
    if cs.len() > 0 && cs[cs.len() - 1] == '/' {
        base.clone().concat("device_service")
    } else {
        base.clone().concat("/device_service")
    }
}

/// The device-management GetServices request body.
pub const GET_SERVICES_BODY: &'static str = "<tds:GetServices xmlns:tds=\"http://www.onvif.org/ver10/device/wsdl\"><tds:IncludeCapability>false</tds:IncludeCapability></tds:GetServices>";

/// A user name and secret, shared by every client of a session.
pub struct Credentials {
    pub username: String,
    pub password: String,
}

impl Credentials {
    pub fn new(username: &str, password: &str) -> (r: Credentials)
        ensures
            r.username@ == username@,
            r.password@ == password@,
    {
        Credentials { username: username.to_owned(), password: password.to_owned() }
    }

    /// A second copy of the same credentials.
    pub fn duplicate(&self) -> (r: Credentials)
        ensures
            r == *self,
    {
        Credentials { username: self.username.clone(), password: self.password.clone() }
    }
}

/// A service as the device advertises it: its namespace and its address.
#[derive(Debug)]
pub struct ServiceDescriptor {
    pub namespace: String,
    pub url: String,
}

/// A client bound to one service address, carrying the session's credentials.
pub struct ServiceClient {
    pub url: String,
    pub credentials: Credentials,
}

/// Why discovery failed.
#[derive(PartialEq, Eq, Structural, Clone, Copy, Debug)]
pub enum DiscoveryError {
    /// The base URI is not a URL.
    InvalidBaseUri,
    /// An advertised address lies outside the trusted base.
    UntrustedServiceUri,
    /// The device describes its device-management address otherwise than it was reached.
    InconsistentSelfDescription,
    /// An advertised address is not a URL.
    InvalidServiceUri,
}

/// The descriptor's address lies under the trusted base.
pub open spec fn trusted(base: Seq<char>, d: ServiceDescriptor) -> bool {
    has_prefix(d.url@, base)
}

/// A device-management descriptor names the address that was queried.
pub open spec fn self_consistent(base: Seq<char>, d: ServiceDescriptor) -> bool {
    kind_of(d.namespace@) == Some(ServiceKind::DeviceManagement) ==> d.url@ == device_url_of(base)
}

/// The descriptor's address parses as a URL.
pub open spec fn well_formed(d: ServiceDescriptor) -> bool {
    url_serialization(d.url@) is Some
}

/// The error discovery ends with, given the base URI and the advertised
/// services, or `None` where it succeeds.
pub open spec fn discovery_error(base_uri: Seq<char>, s: Seq<ServiceDescriptor>) -> Option<
    DiscoveryError,
> {
    match url_serialization(base_uri) {
        None => Some(DiscoveryError::InvalidBaseUri),
        Some(base) => if exists|i: int| 0 <= i < s.len() && !trusted(base, #[trigger] s[i]) {
            Some(DiscoveryError::UntrustedServiceUri)
        } else if exists|i: int| 0 <= i < s.len() && !self_consistent(base, #[trigger] s[i]) {
            Some(DiscoveryError::InconsistentSelfDescription)
        } else if exists|i: int| 0 <= i < s.len() && !well_formed(#[trigger] s[i]) {
            Some(DiscoveryError::InvalidServiceUri)
        } else {
            None
        },
    }
}

/// The address of the last advertised service of kind `k`, as advertised.
pub open spec fn advertised(s: Seq<ServiceDescriptor>, k: ServiceKind) -> Option<Seq<char>>
    decreases s.len(),
{
    if s.len() == 0 {
        None
    } else if kind_of(s.last().namespace@) == Some(k) {
        Some(s.last().url@)
    } else {
        advertised(s.drop_last(), k)
    }
}

/// The address the directory binds for kind `k`.
pub open spec fn expected_url(base: Seq<char>, s: Seq<ServiceDescriptor>, k: ServiceKind) -> Option<
    Seq<char>,
> {
    if k == ServiceKind::DeviceManagement {
        Some(device_url_of(base))
    } else {
        advertised(s, k)
    }
}

/// The client `c` is bound to `url` with the given user name and secret, or
/// both are absent.
pub open spec fn bound(
    c: Option<ServiceClient>,
    url: Option<Seq<char>>,
    username: Seq<char>,
    password: Seq<char>,
) -> bool {
    match (c, url) {
        (Some(c), Some(u)) => {
            &&& c.url@ == u
            &&& c.credentials.username@ == username
            &&& c.credentials.password@ == password
        },
        (None, None) => true,
        _ => false,
    }
}

/// The directory of a device's services: one client per advertised kind.
pub struct OnvifClient {
    devicemgmt: ServiceClient,
    event: Option<ServiceClient>,
    deviceio: Option<ServiceClient>,
    media: Option<ServiceClient>,
    media2: Option<ServiceClient>,
    imaging: Option<ServiceClient>,
    ptz: Option<ServiceClient>,
    analytics: Option<ServiceClient>,
}

impl OnvifClient {
    /// The client held for kind `k`.
    pub closed spec fn entry(&self, k: ServiceKind) -> Option<ServiceClient> {
        match k {
            ServiceKind::DeviceManagement => Some(self.devicemgmt),
            ServiceKind::Events => self.event,
            ServiceKind::DeviceIo => self.deviceio,
            ServiceKind::Media => self.media,
            ServiceKind::Media2 => self.media2,
            ServiceKind::Imaging => self.imaging,
            ServiceKind::Ptz => self.ptz,
            ServiceKind::Analytics => self.analytics,
        }
    }

    /// The client for `kind`; `None` where the device does not offer it.
    pub fn get(&self, kind: ServiceKind) -> (r: Option<&ServiceClient>)
        ensures
            match r {
                Some(c) => self.entry(kind) == Some(*c),
                None => self.entry(kind) is None,
            },
    {
        match kind {
            ServiceKind::DeviceManagement => Some(&self.devicemgmt),
            ServiceKind::Events => self.event.as_ref(),
            ServiceKind::DeviceIo => self.deviceio.as_ref(),
            ServiceKind::Media => self.media.as_ref(),
            ServiceKind::Media2 => self.media2.as_ref(),
            ServiceKind::Imaging => self.imaging.as_ref(),
            ServiceKind::Ptz => self.ptz.as_ref(),
            ServiceKind::Analytics => self.analytics.as_ref(),
        }
    }

    /// The device-management client.
    pub fn devicemgmt(&self) -> (r: &ServiceClient)
        ensures
            self.entry(ServiceKind::DeviceManagement) == Some(*r),
    {
        &self.devicemgmt
    }

    /// The eventing client, where the device offers one.
    pub fn event(&self) -> (r: Option<&ServiceClient>)
        ensures
            match r {
                Some(c) => self.entry(ServiceKind::Events) == Some(*c),
                None => self.entry(ServiceKind::Events) is None,
            },
    {
        self.event.as_ref()
    }

    /// Builds the directory from the services the device advertised in
    /// answer to a query of `device_service_url(base_uri)`.
    ///
    /// Every advertised address is first checked against the trusted base,
    /// then the device-management entries against the queried address, and
    /// only then are the addresses checked to parse as URLs and the clients
    /// made, each bound to the address as advertised (and so under the base).
    /// The first failed stage decides the error; no directory comes with it.
    pub fn new(
        base_uri: &str,
        username: &str,
        password: &str,
        services: &Vec<ServiceDescriptor>,
    ) -> (r: Result<OnvifClient, DiscoveryError>)
        ensures
            match r {
                Ok(c) => {
                    &&& discovery_error(base_uri@, services@) is None
                    &&& url_serialization(base_uri@) matches Some(base) && forall|k: ServiceKind|
                        #[trigger] c.entry(k) matches Some(sc) ==> has_prefix(sc.url@, base)
                    &&& url_serialization(base_uri@) matches Some(base) && forall|k: ServiceKind|
                        bound(
                            #[trigger] c.entry(k),
                            expected_url(base, services@, k),
                            username@,
                            password@,
                        )
                },
                Err(e) => discovery_error(base_uri@, services@) == Some(e),
            },
    {
        let base = match parse_url(base_uri) {
            None => return Err(DiscoveryError::InvalidBaseUri),
            Some(b) => b,
        };
        let device_url = device_url_for(&base);
        let base_chars = chars_of(base.as_str());
        let n = services.len();
        let mut i: usize = 0;
        while i < n
            invariant
                n == services.len(),
                i <= n,
                url_serialization(base_uri@) == Some(base@),
                base_chars@ == base@,
                forall|j: int| 0 <= j < i ==> trusted(base@, #[trigger] services@[j]),
            decreases n - i,
        {
            let u = chars_of(services[i].url.as_str());
            if !starts_with(&u, &base_chars) {
                assert(!trusted(base@, services@[i as int]));
                assert(exists|j: int| 0 <= j < services@.len() && !trusted(base@, #[trigger] services@[j]));
                return Err(DiscoveryError::UntrustedServiceUri);
            }
            i = i + 1;
        }
        i = 0;
        while i < n
            invariant
                n == services.len(),
                i <= n,
                url_serialization(base_uri@) == Some(base@),
                device_url@ == device_url_of(base@),
                forall|j: int| 0 <= j < n ==> trusted(base@, #[trigger] services@[j]),
                forall|j: int| 0 <= j < i ==> self_consistent(base@, #[trigger] services@[j]),
            decreases n - i,
        {
            let d = &services[i];
            match classify(d.namespace.as_str()) {
                Some(ServiceKind::DeviceManagement) => {
                    if !same_text(d.url.as_str(), device_url.as_str()) {
                        assert(!self_consistent(base@, services@[i as int]));
                        assert(exists|j: int|
                            0 <= j < services@.len() && !self_consistent(base@, #[trigger] services@[j]));
                        return Err(DiscoveryError::InconsistentSelfDescription);
                    }
                },
                _ => {},
            }
            i = i + 1;
        }
        let creds = Credentials::new(username, password);
        let mut out = OnvifClient {
            devicemgmt: ServiceClient { url: device_url, credentials: creds.duplicate() },
            event: None,
            deviceio: None,
            media: None,
            media2: None,
            imaging: None,
            ptz: None,
            analytics: None,
        };
        proof {
            let b = base@;
            if b.len() > 0 && b.last() == '/' {
                assert((b + "device_service"@).subrange(0, b.len() as int) =~= b);
            } else {
                assert((b + "/device_service"@).subrange(0, b.len() as int) =~= b);
            }
            assert(has_prefix(out.entry(ServiceKind::DeviceManagement)->Some_0.url@, b));
        }
        i = 0;
        while i < n
            invariant
                n == services.len(),
                i <= n,
                url_serialization(base_uri@) == Some(base@),
                creds.username@ == username@,
                creds.password@ == password@,
                forall|j: int| 0 <= j < n ==> trusted(base@, #[trigger] services@[j]),
                forall|j: int| 0 <= j < n ==> self_consistent(base@, #[trigger] services@[j]),
                forall|j: int| 0 <= j < i ==> well_formed(#[trigger] services@[j]),
                forall|k: ServiceKind|
                    bound(
                        #[trigger] out.entry(k),
                        expected_url(base@, services@.take(i as int), k),
                        username@,
                        password@,
                    ),
                forall|k: ServiceKind|
                    #[trigger] out.entry(k) matches Some(c) ==> has_prefix(c.url@, base@),
            decreases n - i,
        {
            let d = &services[i];
            match parse_url(d.url.as_str()) {
                None => {
                    assert(!well_formed(services@[i as int]));
                    assert(exists|j: int| 0 <= j < services@.len() && !well_formed(#[trigger] services@[j]));
                    return Err(DiscoveryError::InvalidServiceUri);
                },
                Some(_) => {},
            }
            let kind = classify(d.namespace.as_str());
            match kind {
                Some(k) => {
                    if k != ServiceKind::DeviceManagement {
                        out.set_entry(k, ServiceClient { url: d.url.clone(), credentials: creds.duplicate() });
                    }
                },
                None => {},
            }
            proof {
                let s = services@.take(i + 1);
                assert(s.drop_last() =~= services@.take(i as int));
                assert(s.last() == services@[i as int]);
                assert forall|k: ServiceKind|
                    bound(
                        #[trigger] out.entry(k),
                        expected_url(base@, s, k),
                        username@,
                        password@,
                    ) by {
                    if k != ServiceKind::DeviceManagement {
                        assert(advertised(s, k) == if kind_of(services@[i as int].namespace@) == Some(k) {
                            Some(services@[i as int].url@)
                        } else {
                            advertised(services@.take(i as int), k)
                        });
                    }
                }
            }
            i = i + 1;
        }
        assert(services@.take(n as int) =~= services@);
        Ok(out)
    }

    fn set_entry(&mut self, k: ServiceKind, c: ServiceClient)
        requires
            k != ServiceKind::DeviceManagement,
        ensures
            forall|j: ServiceKind|
                #[trigger] final(self).entry(j) == if j == k {
                    Some(c)
                } else {
                    old(self).entry(j)
                },
    {
        match k {
            ServiceKind::DeviceManagement => {},
            ServiceKind::Events => self.event = Some(c),
            ServiceKind::DeviceIo => self.deviceio = Some(c),
            ServiceKind::Media => self.media = Some(c),
            ServiceKind::Media2 => self.media2 = Some(c),
            ServiceKind::Imaging => self.imaging = Some(c),
            ServiceKind::Ptz => self.ptz = Some(c),
            ServiceKind::Analytics => self.analytics = Some(c),
        }
    }
}

/// Discovery succeeds only where every advertised address lies under the
/// trusted base, and one address outside it is enough for it to fail with
/// `UntrustedServiceUri`, whatever the other descriptors hold.
pub proof fn lemma_discovered_within_base(base_uri: Seq<char>, services: Seq<ServiceDescriptor>)
    requires
        url_serialization(base_uri) is Some,
    ensures
        discovery_error(base_uri, services) is None ==> forall|i: int|
            0 <= i < services.len() ==> has_prefix(
                #[trigger] services[i].url@,
                url_serialization(base_uri)->Some_0,
            ),
        (exists|i: int|
            0 <= i < services.len() && !has_prefix(
                #[trigger] services[i].url@,
                url_serialization(base_uri)->Some_0,
            )) ==> discovery_error(base_uri, services) == Some(DiscoveryError::UntrustedServiceUri),
{
    let base = url_serialization(base_uri)->Some_0;
    if exists|i: int| 0 <= i < services.len() && !has_prefix(#[trigger] services[i].url@, base) {
        let i = choose|i: int| 0 <= i < services.len() && !has_prefix(#[trigger] services[i].url@, base);
        assert(!trusted(base, services[i]));
    }
    assert forall|i: int| 0 <= i < services.len() && discovery_error(base_uri, services) is None
        implies has_prefix(#[trigger] services[i].url@, base) by {
        assert(trusted(base, services[i]));
    }
}

/// Where every address is trusted, a device-management descriptor whose
/// address differs from the one that was queried makes discovery fail with
/// `InconsistentSelfDescription`.
pub proof fn lemma_self_description_checked(
    base_uri: Seq<char>,
    services: Seq<ServiceDescriptor>,
    i: int,
)
    requires
        url_serialization(base_uri) is Some,
        forall|j: int|
            0 <= j < services.len() ==> has_prefix(
                #[trigger] services[j].url@,
                url_serialization(base_uri)->Some_0,
            ),
        0 <= i < services.len(),
        kind_of(services[i].namespace@) == Some(ServiceKind::DeviceManagement),
        services[i].url@ != device_url_of(url_serialization(base_uri)->Some_0),
    ensures
        discovery_error(base_uri, services) == Some(DiscoveryError::InconsistentSelfDescription),
{
    let base = url_serialization(base_uri)->Some_0;
    assert(!self_consistent(base, services[i]));
    assert forall|j: int| 0 <= j < services.len() implies trusted(base, #[trigger] services[j]) by {
        assert(has_prefix(services[j].url@, base));
    }
}

} // verus!
