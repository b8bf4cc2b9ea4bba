//! A client for IP cameras that speak ONVIF: discovery of a device's
//! services under a trusted base address, one authenticated client per
//! service, the event subscription handshake and its renewals, and the
//! decoding of pushed notifications.
pub mod discovery;
pub mod nesting;
pub mod notification;
pub mod subscription;
pub mod text;
pub mod xml;
