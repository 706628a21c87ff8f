//! The commands that create, show and remove the device certificate: what
//! they need of the configuration, which identifiers they accept, and how
//! they name what went wrong with a file.

use vstd::prelude::*;
use vstd::string::*;

verus! {

/// The longest identifier that fits the common name of a certificate.
pub const MAX_CN_SIZE: usize = 64;

/// What `cert` is asked to do.
#[derive(Debug)]
pub enum TEdgeCertOpt {
    /// Create a self-signed device certificate
    Create {
        /// The device identifier to be used as the common name for the certificate
        id: String,
    },
    /// Show the device certificate, if any
    Show,
    /// Remove the device certificate
    Remove,
}

/// Create a self-signed device certificate
#[derive(Debug)]
pub struct CreateCertCmd {
    /// The device identifier
    pub id: String,
    /// The path where the device certificate will be stored
    pub cert_path: String,
    /// The path where the device private key will be stored
    pub key_path: String,
}

/// Show the device certificate, if any
#[derive(Debug)]
pub struct ShowCertCmd {
    /// The path where the device certificate will be stored
    pub cert_path: String,
}

/// Remove the device certificate
#[derive(Debug)]
pub struct RemoveCertCmd {
    /// The path of the certificate to be removed
    pub cert_path: String,
    /// The path of the private key to be removed
    pub key_path: String,
}

/// A command that is ready to run.
#[derive(Debug)]
pub enum CertCommand {
    Create(CreateCertCmd),
    Show(ShowCertCmd),
    Remove(RemoveCertCmd),
}

pub enum CertCommandView {
    Create { id: Seq<char>, cert_path: Seq<char>, key_path: Seq<char> },
    Show { cert_path: Seq<char> },
    Remove { cert_path: Seq<char>, key_path: Seq<char> },
}

impl View for CertCommand {
    type V = CertCommandView;

    open spec fn view(&self) -> CertCommandView {
        match self {
            CertCommand::Create(cmd) => CertCommandView::Create {
                id: cmd.id@,
                cert_path: cmd.cert_path@,
                key_path: cmd.key_path@,
            },
            CertCommand::Show(cmd) => CertCommandView::Show { cert_path: cmd.cert_path@ },
            CertCommand::Remove(cmd) => CertCommandView::Remove {
                cert_path: cmd.cert_path@,
                key_path: cmd.key_path@,
            },
        }
    }
}

/// What the configuration says of the device.
#[derive(Debug)]
pub struct DeviceConfig {
    pub id: Option<String>,
    pub cert_path: Option<String>,
    pub key_path: Option<String>,
}

pub struct DeviceConfigView {
    pub id: Option<Seq<char>>,
    pub cert_path: Option<Seq<char>>,
    pub key_path: Option<Seq<char>>,
}

/// The characters that an optional text holds.
pub open spec fn optional_chars(text: Option<String>) -> Option<Seq<char>> {
    match text {
        Some(t) => Some(t@),
        None => None,
    }
}

impl View for DeviceConfig {
    type V = DeviceConfigView;

    open spec fn view(&self) -> DeviceConfigView {
        DeviceConfigView {
            id: optional_chars(self.id),
            cert_path: optional_chars(self.cert_path),
            key_path: optional_chars(self.key_path),
        }
    }
}

/// What is wrong with the configuration.
#[derive(Debug)]
pub enum ConfigError {
    /// The setting `key` has no value.
    ConfigNotSet { key: String },
}

/// The setting that holds the path of the certificate.
pub open spec fn device_cert_path() -> Seq<char> {
    "device.cert.path"@
}

/// The setting that holds the path of the private key.
pub open spec fn device_key_path() -> Seq<char> {
    "device.key.path"@
}

/// The model of what `cert` is asked to do.
pub enum CertOptView {
    Create { id: Seq<char> },
    Show,
    Remove,
}

impl View for TEdgeCertOpt {
    type V = CertOptView;

    open spec fn view(&self) -> CertOptView {
        match self {
            TEdgeCertOpt::Create { id } => CertOptView::Create { id: id@ },
            TEdgeCertOpt::Show => CertOptView::Show,
            TEdgeCertOpt::Remove => CertOptView::Remove,
        }
    }
}

/// The command for what is asked, with the paths of the configuration; or
/// the setting that is missing: the path of the certificate first.
pub open spec fn command_built(opt: CertOptView, config: DeviceConfigView) -> Result<
    CertCommandView,
    Seq<char>,
> {
    match config.cert_path {
        None => Err(device_cert_path()),
        Some(cert_path) => match opt {
            CertOptView::Show => Ok(CertCommandView::Show { cert_path }),
            CertOptView::Create { id } => match config.key_path {
                Some(key_path) => Ok(CertCommandView::Create { id, cert_path, key_path }),
                None => Err(device_key_path()),
            },
            CertOptView::Remove => match config.key_path {
                Some(key_path) => Ok(CertCommandView::Remove { cert_path, key_path }),
                None => Err(device_key_path()),
            },
        },
    }
}

fn cert_path_of(config: &DeviceConfig) -> (path: Result<String, ConfigError>)
    ensures
        match path {
            Ok(p) => config@.cert_path == Some(p@),
            Err(ConfigError::ConfigNotSet { key }) => config@.cert_path is None && key@
                == device_cert_path(),
        },
{
    match &config.cert_path {
        Some(path) => Ok(path.clone()),
        None => Err(ConfigError::ConfigNotSet { key: String::from_str("device.cert.path") }),
    }
}

fn key_path_of(config: &DeviceConfig) -> (path: Result<String, ConfigError>)
    ensures
        match path {
            Ok(p) => config@.key_path == Some(p@),
            Err(ConfigError::ConfigNotSet { key }) => config@.key_path is None && key@
                == device_key_path(),
        },
{
    match &config.key_path {
        Some(path) => Ok(path.clone()),
        None => Err(ConfigError::ConfigNotSet { key: String::from_str("device.key.path") }),
    }
}

impl TEdgeCertOpt {
    /// Builds the command for what is asked.
    pub fn build_command(self, config: DeviceConfig) -> (command: Result<CertCommand, ConfigError>)
        ensures
            match command {
                Ok(c) => command_built(self@, config@) == Ok::<CertCommandView, Seq<char>>(c@),
                Err(ConfigError::ConfigNotSet { key }) => command_built(self@, config@) == Err::<
                    CertCommandView,
                    Seq<char>,
                >(key@),
            },
    {
        let cert_path = match cert_path_of(&config) {
            Ok(path) => path,
            Err(error) => {
                return Err(error);
            },
        };
        match self {
            TEdgeCertOpt::Create { id } => {
                match key_path_of(&config) {
                    Ok(key_path) => Ok(
                        CertCommand::Create(CreateCertCmd { id, cert_path, key_path }),
                    ),
                    Err(error) => Err(error),
                }
            },
            TEdgeCertOpt::Show => Ok(CertCommand::Show(ShowCertCmd { cert_path })),
            TEdgeCertOpt::Remove => {
                match key_path_of(&config) {
                    Ok(key_path) => Ok(CertCommand::Remove(RemoveCertCmd { cert_path, key_path })),
                    Err(error) => Err(error),
                }
            },
        }
    }
}

/// The kinds of input and output errors that the commands tell apart.
#[derive(Clone, Copy, Debug, PartialEq, Eq, Structural)]
pub enum IoErrorKind {
    AlreadyExists,
    NotFound,
    Other,
}

/// What went wrong with a certificate command.
#[derive(Debug)]
pub enum CertError {
    InvalidCharacter { name: String },
    EmptyName,
    TooLongName { name: String },
    CertificateAlreadyExists { path: String },
    CertificateNotFound { path: String },
    KeyNotFound { path: String },
    KeyAlreadyExists { path: String },
    ConfigNotSet { key: String },
    IoError { kind: IoErrorKind, reason: String },
    CertPathError { reason: String },
    KeyPathError { reason: String },
    CryptographyError { reason: String },
    PemError { reason: String },
    X509Error { reason: String },
}

pub enum CertErrorView {
    InvalidCharacter { name: Seq<char> },
    EmptyName,
    TooLongName { name: Seq<char> },
    CertificateAlreadyExists { path: Seq<char> },
    CertificateNotFound { path: Seq<char> },
    KeyNotFound { path: Seq<char> },
    KeyAlreadyExists { path: Seq<char> },
    ConfigNotSet { key: Seq<char> },
    IoError { kind: IoErrorKind, reason: Seq<char> },
    CertPathError { reason: Seq<char> },
    KeyPathError { reason: Seq<char> },
    CryptographyError { reason: Seq<char> },
    PemError { reason: Seq<char> },
    X509Error { reason: Seq<char> },
}

impl View for CertError {
    type V = CertErrorView;

    open spec fn view(&self) -> CertErrorView {
        match self {
            CertError::InvalidCharacter { name } => CertErrorView::InvalidCharacter { name: name@ },
            CertError::EmptyName => CertErrorView::EmptyName,
            CertError::TooLongName { name } => CertErrorView::TooLongName { name: name@ },
            CertError::CertificateAlreadyExists {
                path,
            } => CertErrorView::CertificateAlreadyExists { path: path@ },
            CertError::CertificateNotFound { path } => CertErrorView::CertificateNotFound {
                path: path@,
            },
            CertError::KeyNotFound { path } => CertErrorView::KeyNotFound { path: path@ },
            CertError::KeyAlreadyExists { path } => CertErrorView::KeyAlreadyExists {
                path: path@,
            },
            CertError::ConfigNotSet { key } => CertErrorView::ConfigNotSet { key: key@ },
            CertError::IoError { kind, reason } => CertErrorView::IoError {
                kind: *kind,
                reason: reason@,
            },
            CertError::CertPathError { reason } => CertErrorView::CertPathError {
                reason: reason@,
            },
            CertError::KeyPathError { reason } => CertErrorView::KeyPathError { reason: reason@ },
            CertError::CryptographyError { reason } => CertErrorView::CryptographyError {
                reason: reason@,
            },
            CertError::PemError { reason } => CertErrorView::PemError { reason: reason@ },
            CertError::X509Error { reason } => CertErrorView::X509Error { reason: reason@ },
        }
    }
}

/// An error on the certificate file, told more plainly where the file was
/// there already or was not found.
pub open spec fn in_cert_context(error: CertErrorView, path: Seq<char>) -> CertErrorView {
    match error {
        CertErrorView::IoError { kind, reason } => match kind {
            IoErrorKind::AlreadyExists => CertErrorView::CertificateAlreadyExists { path },
            IoErrorKind::NotFound => CertErrorView::CertificateNotFound { path },
            IoErrorKind::Other => error,
        },
        _ => error,
    }
}

/// An error on the key file, told more plainly where the file was there
/// already or was not found.
pub open spec fn in_key_context(error: CertErrorView, path: Seq<char>) -> CertErrorView {
    match error {
        CertErrorView::IoError { kind, reason } => match kind {
            IoErrorKind::AlreadyExists => CertErrorView::KeyAlreadyExists { path },
            IoErrorKind::NotFound => CertErrorView::KeyNotFound { path },
            IoErrorKind::Other => error,
        },
        _ => error,
    }
}

impl CertError {
    /// Improve the error message in case the error in a IO error on the certificate file.
    pub fn cert_context(self, path: &str) -> (error: CertError)
        ensures
            error@ == in_cert_context(self@, path@),
    {
        match self {
            CertError::IoError { kind, reason } => match kind {
                IoErrorKind::AlreadyExists => CertError::CertificateAlreadyExists {
                    path: String::from_str(path),
                },
                IoErrorKind::NotFound => CertError::CertificateNotFound {
                    path: String::from_str(path),
                },
                IoErrorKind::Other => CertError::IoError { kind, reason },
            },
            other => other,
        }
    }

    /// Improve the error message in case the error in a IO error on the private key file.
    pub fn key_context(self, path: &str) -> (error: CertError)
        ensures
            error@ == in_key_context(self@, path@),
    {
        match self {
            CertError::IoError { kind, reason } => match kind {
                IoErrorKind::AlreadyExists => CertError::KeyAlreadyExists {
                    path: String::from_str(path),
                },
                IoErrorKind::NotFound => CertError::KeyNotFound { path: String::from_str(path) },
                IoErrorKind::Other => CertError::IoError { kind, reason },
            },
            other => other,
        }
    }
}

/// A file that is not there need not be removed.
pub fn ok_if_not_found(err: IoErrorKind) -> (outcome: Result<(), IoErrorKind>)
    ensures
        outcome == (match err {
            IoErrorKind::NotFound => Ok::<(), IoErrorKind>(()),
            _ => Err::<(), IoErrorKind>(err),
        }),
{
    match err {
        IoErrorKind::NotFound => Ok(()),
        _ => Err(err),
    }
}

/// The control characters: U+0000 to U+001F and U+007F to U+009F.
pub open spec fn is_control(c: char) -> bool {
    (c as u32) <= 0x1f || (0x7f <= (c as u32) && (c as u32) <= 0x9f)
}

/// Whether a text holds a control character.
pub open spec fn has_control(text: Seq<char>) -> bool {
    exists|i: int| 0 <= i < text.len() && is_control(#[trigger] text[i])
}

/// What is said of an identifier: it is not empty, its UTF-8 form is at
/// most 64 bytes long, and it holds no control character.
pub open spec fn identifier_checked(id: Seq<char>) -> Result<(), CertErrorView> {
    if id.len() == 0 {
        Err(CertErrorView::EmptyName)
    } else if (vstd::utf8::encode_utf8(id).len() as usize) > MAX_CN_SIZE {
        Err(CertErrorView::TooLongName { name: id })
    } else if has_control(id) {
        Err(CertErrorView::InvalidCharacter { name: id })
    } else {
        Ok(())
    }
}

fn control(c: char) -> (b: bool)
    ensures
        b == is_control(c),
{
    let code = c as u32;
    code <= 0x1f || (0x7f <= code && code <= 0x9f)
}

/// Checks that a text can be the identifier of a device.
pub fn check_identifier(id: &str) -> (checked: Result<(), CertError>)
    ensures
        match checked {
            Ok(_) => identifier_checked(id@) is Ok,
            Err(e) => identifier_checked(id@) == Err::<(), CertErrorView>(e@),
        },
{
    if id.is_empty() {
        return Err(CertError::EmptyName);
    } else if id.len() > MAX_CN_SIZE {
        return Err(CertError::TooLongName { name: String::from_str(id) });
    }
    let count = id.unicode_len();
    let mut i: usize = 0;
    while i < count
        invariant
            i <= count,
            count == id@.len(),
            id@.len() > 0,
            (vstd::utf8::encode_utf8(id@).len() as usize) <= MAX_CN_SIZE,
            forall|j: int| 0 <= j < i ==> !is_control(#[trigger] id@[j]),
        decreases count - i,
    {
        if control(id.get_char(i)) {
            assert(is_control(id@[i as int]));
            return Err(CertError::InvalidCharacter { name: String::from_str(id) });
        }
        i += 1;
    }
    Ok(())
}

impl CreateCertCmd {
    pub fn description(&self) -> (text: String)
        ensures
            text@ == "create a test certificate for the device "@ + self.id@ + "."@,
    {
        let text = String::from_str("create a test certificate for the device ");
        let text = text.concat(self.id.as_str());
        text.concat(".")
    }

    /// Notes the device's identifier and the paths of its certificate and
    /// key in the configuration.
    pub fn update_tedge_config(&self, config: &mut DeviceConfig)
        ensures
            final(config)@ == (DeviceConfigView {
                id: Some(self.id@),
                cert_path: Some(self.cert_path@),
                key_path: Some(self.key_path@),
            }),
    {
        config.id = Some(self.id.clone());
        config.cert_path = Some(self.cert_path.clone());
        config.key_path = Some(self.key_path.clone());
    }

    /// Checks the identifier of the certificate to create.
    pub fn check(&self) -> (checked: Result<(), CertError>)
        ensures
            match checked {
                Ok(_) => identifier_checked(self.id@) is Ok,
                Err(e) => identifier_checked(self.id@) == Err::<(), CertErrorView>(e@),
            },
    {
        check_identifier(self.id.as_str())
    }
}

impl ShowCertCmd {
    pub fn description(&self) -> (text: String)
        ensures
            text@ == "show the device certificate"@,
    {
        String::from_str("show the device certificate")
    }
}

impl RemoveCertCmd {
    pub fn description(&self) -> (text: String)
        ensures
            text@ == "remove the device certificate"@,
    {
        String::from_str("remove the device certificate")
    }

    /// Takes the device's identifier out of the configuration.
    pub fn update_tedge_config(&self, config: &mut DeviceConfig)
        ensures
            final(config)@ == (DeviceConfigView { id: None, ..old(config)@ }),
    {
        config.id = None;
    }
}

/// How a test certificate is made out.
#[derive(Debug)]
pub struct TestCertConfig {
    pub validity_period_days: u32,
    pub organization_name: String,
    pub organizational_unit_name: String,
}

/// How certificates are made out.
#[derive(Debug)]
pub struct CertConfig {
    pub test_cert: TestCertConfig,
}

impl Default for TestCertConfig {
    fn default() -> (config: TestCertConfig)
        ensures
            config.validity_period_days == 365,
            config.organization_name@ == "Thin Edge"@,
            config.organizational_unit_name@ == "Test Device"@,
    {
        TestCertConfig {
            validity_period_days: 365,
            organization_name: String::from_str("Thin Edge"),
            organizational_unit_name: String::from_str("Test Device"),
        }
    }
}

impl Default for CertConfig {
    fn default() -> (config: CertConfig)
        ensures
            config.test_cert.validity_period_days == 365,
            config.test_cert.organization_name@ == "Thin Edge"@,
            config.test_cert.organizational_unit_name@ == "Test Device"@,
    {
        CertConfig { test_cert: TestCertConfig::default() }
    }
}

/// The seconds of one day.
pub const SECONDS_PER_DAY: i64 = 86400;

/// From when to when a certificate made at `today` holds, in seconds: from
/// one day before, so that it holds today, to `days` days after.
pub open spec fn validity_of(today: i64, days: u32) -> Option<(i64, i64)> {
    if today - SECONDS_PER_DAY >= i64::MIN && today + days * SECONDS_PER_DAY <= i64::MAX {
        Some(((today - SECONDS_PER_DAY) as i64, (today + days * SECONDS_PER_DAY) as i64))
    } else {
        None
    }
}

/// From when to when a certificate made at `today` holds.
pub fn validity(today: i64, days: u32) -> (period: Option<(i64, i64)>)
    ensures
        period == validity_of(today, days),
{
    let span: i64 = (days as i64) * SECONDS_PER_DAY;
    if today < i64::MIN + SECONDS_PER_DAY || today > i64::MAX - span {
        None
    } else {
        Some((today - SECONDS_PER_DAY, today + span))
    }
}

} // verus!
