use thin_edge::certificate::check_identifier;
use thin_edge::certificate::ok_if_not_found;
use thin_edge::certificate::validity;
use thin_edge::certificate::CertCommand;
use thin_edge::certificate::CertConfig;
use thin_edge::certificate::CertError;
use thin_edge::certificate::ConfigError;
use thin_edge::certificate::CreateCertCmd;
use thin_edge::certificate::DeviceConfig;
use thin_edge::certificate::IoErrorKind;
use thin_edge::certificate::RemoveCertCmd;
use thin_edge::certificate::ShowCertCmd;
use thin_edge::certificate::TEdgeCertOpt;

fn config(cert: Option<&str>, key: Option<&str>) -> DeviceConfig {
    DeviceConfig { id: None, cert_path: cert.map(String::from), key_path: key.map(String::from) }
}

#[test]
fn identifiers_are_checked() {
    assert!(check_identifier("my-device-id").is_ok());
    assert!(matches!(check_identifier(""), Err(CertError::EmptyName)));
    assert!(check_identifier(&"a".repeat(64)).is_ok());
    assert!(matches!(
        check_identifier(&"a".repeat(65)),
        Err(CertError::TooLongName { name }) if name.len() == 65
    ));
    assert!(matches!(check_identifier(&"é".repeat(33)), Err(CertError::TooLongName { .. })));
    assert!(check_identifier(&"é".repeat(32)).is_ok());
    assert!(matches!(
        check_identifier("my\tdevice"),
        Err(CertError::InvalidCharacter { name }) if name == "my\tdevice"
    ));
    assert!(matches!(check_identifier("device\u{7f}"), Err(CertError::InvalidCharacter { .. })));
    assert!(matches!(check_identifier("device\u{85}"), Err(CertError::InvalidCharacter { .. })));
    assert!(check_identifier("device\u{a0} ~").is_ok());
}

#[test]
fn commands_are_built_from_the_configuration() {
    let create = TEdgeCertOpt::Create { id: "my-device-id".to_string() };
    match create.build_command(config(Some("/c.pem"), Some("/k.pem"))) {
        Ok(CertCommand::Create(cmd)) => {
            assert_eq!(cmd.id, "my-device-id");
            assert_eq!(cmd.cert_path, "/c.pem");
            assert_eq!(cmd.key_path, "/k.pem");
            assert_eq!(cmd.description(), "create a test certificate for the device my-device-id.");
            assert!(cmd.check().is_ok());
        }
        _ => panic!("the command was expected"),
    }
    assert!(matches!(
        TEdgeCertOpt::Show.build_command(config(Some("/c.pem"), None)),
        Ok(CertCommand::Show(ShowCertCmd { cert_path })) if cert_path == "/c.pem"
    ));
    assert!(matches!(
        TEdgeCertOpt::Remove.build_command(config(Some("/c.pem"), Some("/k.pem"))),
        Ok(CertCommand::Remove(RemoveCertCmd { cert_path, key_path })) if cert_path == "/c.pem" && key_path == "/k.pem"
    ));
    assert!(matches!(
        TEdgeCertOpt::Remove.build_command(config(Some("/c.pem"), None)),
        Err(ConfigError::ConfigNotSet { key }) if key == "device.key.path"
    ));
    assert!(matches!(
        TEdgeCertOpt::Show.build_command(config(None, Some("/k.pem"))),
        Err(ConfigError::ConfigNotSet { key }) if key == "device.cert.path"
    ));
    assert!(matches!(
        TEdgeCertOpt::Create { id: "x".to_string() }.build_command(config(None, None)),
        Err(ConfigError::ConfigNotSet { key }) if key == "device.cert.path"
    ));
}

#[test]
fn file_errors_are_told_in_context() {
    let io = |kind| CertError::IoError { kind, reason: "r".to_string() };
    assert!(matches!(
        io(IoErrorKind::AlreadyExists).cert_context("/c.pem"),
        CertError::CertificateAlreadyExists { path } if path == "/c.pem"
    ));
    assert!(matches!(
        io(IoErrorKind::NotFound).cert_context("/c.pem"),
        CertError::CertificateNotFound { path } if path == "/c.pem"
    ));
    assert!(matches!(io(IoErrorKind::Other).cert_context("/c.pem"), CertError::IoError { .. }));
    assert!(matches!(CertError::EmptyName.cert_context("/c.pem"), CertError::EmptyName));
    assert!(matches!(
        io(IoErrorKind::AlreadyExists).key_context("/k.pem"),
        CertError::KeyAlreadyExists { path } if path == "/k.pem"
    ));
    assert!(matches!(
        io(IoErrorKind::NotFound).key_context("/k.pem"),
        CertError::KeyNotFound { path } if path == "/k.pem"
    ));
    assert!(matches!(io(IoErrorKind::Other).key_context("/k.pem"), CertError::IoError { .. }));
    assert_eq!(ok_if_not_found(IoErrorKind::NotFound), Ok(()));
    assert_eq!(ok_if_not_found(IoErrorKind::Other), Err(IoErrorKind::Other));
    assert_eq!(ok_if_not_found(IoErrorKind::AlreadyExists), Err(IoErrorKind::AlreadyExists));
}

#[test]
fn configuration_is_updated() {
    let mut device = config(None, None);
    let create = CreateCertCmd {
        id: "my-device-id".to_string(),
        cert_path: "/c.pem".to_string(),
        key_path: "/k.pem".to_string(),
    };
    create.update_tedge_config(&mut device);
    assert_eq!(device.id.as_deref(), Some("my-device-id"));
    assert_eq!(device.cert_path.as_deref(), Some("/c.pem"));
    assert_eq!(device.key_path.as_deref(), Some("/k.pem"));
    let remove = RemoveCertCmd { cert_path: "/c.pem".to_string(), key_path: "/k.pem".to_string() };
    remove.update_tedge_config(&mut device);
    assert_eq!(device.id, None);
    assert_eq!(device.cert_path.as_deref(), Some("/c.pem"));
    assert_eq!(remove.description(), "remove the device certificate");
    assert_eq!(ShowCertCmd { cert_path: "/c.pem".to_string() }.description(), "show the device certificate");
}

#[test]
fn test_certificate_holds_for_a_year() {
    let defaults = CertConfig::default();
    assert_eq!(defaults.test_cert.validity_period_days, 365);
    assert_eq!(defaults.test_cert.organization_name, "Thin Edge");
    assert_eq!(defaults.test_cert.organizational_unit_name, "Test Device");
    assert_eq!(validity(1_700_000_000, 365), Some((1_699_913_600, 1_731_536_000)));
    assert_eq!(validity(0, 0), Some((-86_400, 0)));
    assert_eq!(validity(i64::MIN, 1), None);
    assert_eq!(validity(i64::MAX, 1), None);
    assert_eq!(validity(i64::MAX, 0), Some((i64::MAX - 86_400, i64::MAX)));
}
