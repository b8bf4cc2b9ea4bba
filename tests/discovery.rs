use onvif_session::discovery::{
    classify, device_service_url, DiscoveryError, OnvifClient, ServiceDescriptor, ServiceKind,
};

const DEVICE_NS: &str = "http://www.onvif.org/ver10/device/wsdl";
const EVENTS_NS: &str = "http://www.onvif.org/ver10/events/wsdl";
const MEDIA_NS: &str = "http://www.onvif.org/ver10/media/wsdl";

fn descriptor(namespace: &str, url: &str) -> ServiceDescriptor {
    ServiceDescriptor { namespace: namespace.to_string(), url: url.to_string() }
}

fn discovery_error(r: Result<OnvifClient, DiscoveryError>) -> Option<DiscoveryError> {
    match r {
        Ok(_) => None,
        Err(e) => Some(e),
    }
}

#[test]
fn events_service_under_base_is_bound() {
    let services = vec![descriptor(EVENTS_NS, "http://host/onvif/events_service")];
    let c = OnvifClient::new("http://host/onvif/", "admin", "secret", &services).unwrap();
    let event = c.event().unwrap();
    assert_eq!(event.url, "http://host/onvif/events_service");
    assert_eq!(event.credentials.username, "admin");
    assert_eq!(event.credentials.password, "secret");
    assert_eq!(c.devicemgmt().url, "http://host/onvif/device_service");
    let kinds = [
        ServiceKind::Events,
        ServiceKind::DeviceIo,
        ServiceKind::Media,
        ServiceKind::Media2,
        ServiceKind::Imaging,
        ServiceKind::Ptz,
        ServiceKind::Analytics,
    ];
    let present: Vec<ServiceKind> = kinds.iter().copied().filter(|k| c.get(*k).is_some()).collect();
    assert_eq!(present, vec![ServiceKind::Events]);
}

#[test]
fn foreign_service_uri_fails_discovery() {
    let services = vec![
        descriptor(EVENTS_NS, "http://host/onvif/events_service"),
        descriptor(MEDIA_NS, "http://evil/x"),
    ];
    let r = OnvifClient::new("http://host/onvif/", "admin", "secret", &services);
    assert_eq!(discovery_error(r), Some(DiscoveryError::UntrustedServiceUri));
}

#[test]
fn foreign_uri_wins_over_other_faults() {
    let services = vec![
        descriptor(DEVICE_NS, "http://host/onvif/elsewhere"),
        descriptor(EVENTS_NS, "http://evil/x"),
    ];
    let r = OnvifClient::new("http://host/onvif/", "admin", "secret", &services);
    assert_eq!(discovery_error(r), Some(DiscoveryError::UntrustedServiceUri));
}

#[test]
fn device_management_self_description_must_match() {
    let services = vec![descriptor(DEVICE_NS, "http://host/onvif/other_device_service")];
    let r = OnvifClient::new("http://host/onvif/", "admin", "secret", &services);
    assert_eq!(discovery_error(r), Some(DiscoveryError::InconsistentSelfDescription));

    let services = vec![descriptor(DEVICE_NS, "http://host/onvif/device_service")];
    let c = OnvifClient::new("http://host/onvif/", "admin", "secret", &services).unwrap();
    assert_eq!(c.get(ServiceKind::DeviceManagement).unwrap().url, "http://host/onvif/device_service");
}

#[test]
fn invalid_base_uri_is_rejected() {
    let r = OnvifClient::new("not a url", "admin", "secret", &vec![]);
    assert_eq!(discovery_error(r), Some(DiscoveryError::InvalidBaseUri));
}

#[test]
fn unknown_namespaces_are_ignored_and_later_entries_win() {
    let services = vec![
        descriptor("urn:example:unknown", "http://host/onvif/unknown"),
        descriptor(MEDIA_NS, "http://host/onvif/media_a"),
        descriptor(MEDIA_NS, "http://host/onvif/media_b"),
    ];
    let c = OnvifClient::new("http://host/onvif/", "u", "p", &services).unwrap();
    assert_eq!(c.get(ServiceKind::Media).unwrap().url, "http://host/onvif/media_b");
    assert!(c.event().is_none());
}

#[test]
fn empty_service_list_gives_device_management_only() {
    let c = OnvifClient::new("http://host/onvif/", "u", "p", &vec![]).unwrap();
    assert_eq!(c.devicemgmt().url, "http://host/onvif/device_service");
    assert!(c.get(ServiceKind::Ptz).is_none());
}

#[test]
fn base_uri_is_normalized_before_use() {
    assert_eq!(device_service_url("HTTP://Host").unwrap(), "http://host/device_service");
    assert_eq!(device_service_url("http://host/onvif/").unwrap(), "http://host/onvif/device_service");
    assert_eq!(device_service_url("http://host/onvif").unwrap(), "http://host/onvif/device_service");
    assert!(device_service_url("no scheme").is_none());
}

#[test]
fn namespaces_classify_to_kinds() {
    assert_eq!(classify(DEVICE_NS), Some(ServiceKind::DeviceManagement));
    assert_eq!(classify(EVENTS_NS), Some(ServiceKind::Events));
    assert_eq!(classify("http://www.onvif.org/ver20/ptz/wsdl"), Some(ServiceKind::Ptz));
    assert_eq!(classify("http://www.onvif.org/ver20/media/wsdl"), Some(ServiceKind::Media2));
    assert_eq!(classify("events"), None);
}
