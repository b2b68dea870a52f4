use relay_pool::tls::{tls_cfg, TlsConfig, TlsMode, TlsSettings};

#[test]
fn tls_cfg_https_port_without_options() {
    let (scheme, settings) = tls_cfg(&None, 443);
    assert_eq!(scheme, "https");
    assert_eq!(
        settings,
        TlsSettings { mode: TlsMode::Required, skip_hostname_verification: false }
    );
}

#[test]
fn tls_cfg_https_port_skipping_verification() {
    let tls = Some(TlsConfig { insecure_skip_verify: true });
    let (scheme, settings) = tls_cfg(&tls, 443);
    assert_eq!(scheme, "https");
    assert_eq!(
        settings,
        TlsSettings { mode: TlsMode::Required, skip_hostname_verification: true }
    );
}

#[test]
fn tls_cfg_https_port_with_verification() {
    let tls = Some(TlsConfig { insecure_skip_verify: false });
    let (scheme, settings) = tls_cfg(&tls, 443);
    assert_eq!(scheme, "https");
    assert_eq!(
        settings,
        TlsSettings { mode: TlsMode::Required, skip_hostname_verification: false }
    );
}

#[test]
fn tls_cfg_other_port_without_options_is_plain_http() {
    let (scheme, settings) = tls_cfg(&None, 8080);
    assert_eq!(scheme, "http");
    assert_eq!(
        settings,
        TlsSettings { mode: TlsMode::Disabled, skip_hostname_verification: false }
    );
}

#[test]
fn tls_cfg_other_port_with_options_prefers_https() {
    let tls = Some(TlsConfig { insecure_skip_verify: false });
    let (scheme, settings) = tls_cfg(&tls, 8080);
    assert_eq!(scheme, "https");
    assert_eq!(
        settings,
        TlsSettings { mode: TlsMode::Preferred, skip_hostname_verification: false }
    );
}

#[test]
fn tls_cfg_other_port_skipping_verification() {
    let tls = Some(TlsConfig { insecure_skip_verify: true });
    let (scheme, settings) = tls_cfg(&tls, 80);
    assert_eq!(scheme, "https");
    assert_eq!(
        settings,
        TlsSettings { mode: TlsMode::Preferred, skip_hostname_verification: true }
    );
}

#[test]
fn tls_cfg_port_zero_and_largest_port() {
    assert_eq!(tls_cfg(&None, 0).0, "http");
    assert_eq!(tls_cfg(&None, u32::MAX).0, "http");
    assert_eq!(tls_cfg(&None, 444).1.mode, TlsMode::Disabled);
    assert_eq!(tls_cfg(&None, 442).1.mode, TlsMode::Disabled);
}
