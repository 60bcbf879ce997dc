use downlink::settings::{
    default_authorized_keys, default_grpc_listen_addr, default_http_listen_addr, default_log,
    default_metrics_listen_addr, Settings,
};

#[test]
fn defaults_have_their_documented_values() {
    assert_eq!(default_log(), "INFO");
    assert_eq!(default_http_listen_addr(), "0.0.0.0:80");
    assert_eq!(default_grpc_listen_addr(), "0.0.0.0:50051");
    assert_eq!(default_metrics_listen_addr(), "0.0.0.0:9000");
    assert_eq!(default_authorized_keys(), "");
}

#[test]
fn defaulted_settings_select_open_mode() {
    let settings = Settings::defaulted();
    assert_eq!(settings.log, "INFO");
    assert_eq!(settings.http_listen, "0.0.0.0:80");
    assert_eq!(settings.grpc_listen, "0.0.0.0:50051");
    assert_eq!(settings.metrics_listen, "0.0.0.0:9000");
    assert!(settings.authorized_keys.is_empty());
}
