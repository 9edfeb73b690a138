use email_relay::settings::{
    default_server_host, default_server_port, transport_security_mode, TransportSecurityMode,
};

#[test]
fn bind_defaults() {
    assert_eq!(default_server_host(), "0.0.0.0");
    assert_eq!(default_server_port(), 3000);
}

#[test]
fn security_mode_by_port() {
    assert_eq!(transport_security_mode(465), TransportSecurityMode::ImplicitTls);
    assert_eq!(transport_security_mode(587), TransportSecurityMode::MandatoryStartTls);
    assert_eq!(transport_security_mode(25), TransportSecurityMode::Opportunistic);
    assert_eq!(transport_security_mode(2525), TransportSecurityMode::Opportunistic);
}
