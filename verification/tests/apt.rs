use thin_edge::apt_plugin::exit_code;
use thin_edge::apt_plugin::run;
use thin_edge::apt_plugin::run_cmd;
use thin_edge::apt_plugin::AptPlan;
use thin_edge::apt_plugin::ExitStatus;
use thin_edge::apt_plugin::PluginOp;
use thin_edge::module_check::is_package_extension;
use thin_edge::module_check::module_has_extension;
use thin_edge::module_check::InternalError;
use thin_edge::module_check::PackageMetadata;
use thin_edge::plugin::CommandLine;
use thin_edge::plugin::CommandRunner;
use thin_edge::plugin::ProcessOutput;

fn line(plan: &AptPlan) -> String {
    match plan {
        AptPlan::Single(command) => words(command),
        AptPlan::Piped { first, second } => format!("{} | {}", words(first), words(second)),
    }
}

fn words(command: &CommandLine) -> String {
    let mut all = vec![String::from_utf8(command.program.clone()).unwrap()];
    for arg in &command.args {
        all.push(String::from_utf8(arg.clone()).unwrap());
    }
    all.join(" ")
}

struct Dpkg {
    works: bool,
}

impl CommandRunner for Dpkg {
    fn run(&self, command: &CommandLine) -> Result<ProcessOutput, Vec<u8>> {
        assert_eq!(words(command), "dpkg -I /tmp/curl.deb");
        if self.works {
            Ok(ProcessOutput {
                success: true,
                stdout: b" Package: curl\n Version: 7\n".to_vec(),
                stderr: vec![],
            })
        } else {
            Err(b"not found".to_vec())
        }
    }
}

#[test]
fn package_tool_is_told_what_to_do() {
    assert_eq!(line(&run(&PluginOp::Prepare)), "apt-get update --quiet --yes");
    assert_eq!(line(&run(&PluginOp::Finalize)), "apt-get auto-remove --quiet --yes");
    assert_eq!(
        line(&run(&PluginOp::Install { module: "curl".into(), version: None, file_path: None })),
        "apt-get install --quiet --yes curl"
    );
    assert_eq!(
        line(&run(&PluginOp::Install { module: "curl".into(), version: Some("7".into()), file_path: None })),
        "apt-get install --quiet --yes curl=7"
    );
    assert_eq!(
        line(&run(&PluginOp::Install {
            module: "curl".into(),
            version: Some("7".into()),
            file_path: Some("/tmp/curl.deb".into())
        })),
        "apt-get install --quiet --yes /tmp/curl.deb"
    );
    assert_eq!(
        line(&run(&PluginOp::Install { module: "curl".into(), version: None, file_path: Some("/tmp/c.deb".into()) })),
        "apt-get install --quiet --yes /tmp/c.deb"
    );
    assert_eq!(
        line(&run(&PluginOp::Remove { module: "curl".into(), version: None })),
        "apt-get remove --quiet --yes curl"
    );
    assert_eq!(
        line(&run(&PluginOp::Remove { module: "curl".into(), version: Some("7".into()) })),
        "apt-get remove --quiet --yes curl=7"
    );
    assert_eq!(
        line(&run(&PluginOp::List)),
        r#"apt --manual-installed list | awk -F [/ ] {if ($1 != "Listing...") { print "{\"name\":\""$1"\",\"version\":\""$3"\"}"}}"#
    );
    assert_eq!(words(&run_cmd(b"apt-get", b"  update   --quiet ")), "apt-get update --quiet");
}

#[test]
fn plugin_ends_with_the_code_of_its_outcome() {
    assert_eq!(exit_code(&Ok(ExitStatus { code: Some(0) })), 0);
    assert_eq!(exit_code(&Ok(ExitStatus { code: Some(100) })), 2);
    assert_eq!(exit_code(&Ok(ExitStatus { code: Some(-1) })), 2);
    assert_eq!(exit_code(&Ok(ExitStatus { code: None })), 4);
    assert_eq!(exit_code(&Err(InternalError::exec_error(b"apt", b"not found"))), 5);
    assert_eq!(
        String::from_utf8(InternalError::exec_error(b"apt", b"not found").to_text()).unwrap(),
        "Fail to run `apt`: not found"
    );
}

#[test]
fn package_files_end_in_deb() {
    assert!(module_has_extension(&"/tmp/curl_7.deb".to_string()));
    assert!(module_has_extension(&"curl.tar.deb".to_string()));
    assert!(!module_has_extension(&"/tmp/curl.rpm".to_string()));
    assert!(!module_has_extension(&"/tmp/curl".to_string()));
    assert!(!module_has_extension(&"/tmp/.deb".to_string()));
    assert!(!module_has_extension(&"".to_string()));
    assert!(is_package_extension(&Some("deb".to_string())));
    assert!(!is_package_extension(&Some("DEB".to_string())));
    assert!(!is_package_extension(&None));
}

#[test]
fn package_metadata_is_searched() {
    let empty = PackageMetadata::new();
    assert!(!empty.metadata_contains(b""));
    let metadata = PackageMetadata::new().try_new(b"/tmp/curl.deb", &Dpkg { works: true }).unwrap();
    assert!(metadata.metadata_contains(b"Version: 7"));
    assert!(metadata.metadata_contains(b"Package: curl"));
    assert!(!metadata.metadata_contains(b"Package: vim"));
    match PackageMetadata::new().try_new(b"/tmp/curl.deb", &Dpkg { works: false }) {
        Err(InternalError::ExecError { cmd, from }) => {
            assert_eq!(cmd, b"dpkg".to_vec());
            assert_eq!(from, b"not found".to_vec());
        }
        _ => panic!("the package tool could not be run"),
    }
    assert!(PackageMetadata::new().with_output(vec![0xff]).is_err());
    let garbled = ProcessOutput { success: true, stdout: vec![b'a', 0xff], stderr: vec![] };
    match PackageMetadata::new().from_run(Ok(garbled)) {
        Err(InternalError::ExecError { cmd, from }) => {
            assert_eq!(cmd, b"dpkg".to_vec());
            assert_eq!(from, b"invalid utf-8 sequence of 1 bytes from index 1".to_vec());
        }
        _ => panic!("what the package tool wrote is not UTF-8"),
    }
    let written = ProcessOutput { success: false, stdout: b"Package: x".to_vec(), stderr: vec![] };
    let read = PackageMetadata::new().from_run(Ok(written)).ok().unwrap();
    assert_eq!(read.metadata, Some(b"Package: x".to_vec()));
}
