use std::cell::RefCell;
use thin_edge::message::SoftwareModuleItem;
use thin_edge::message::SoftwareOperationStatus;
use thin_edge::message::SoftwareRequestResponseSoftwareList;
use thin_edge::message::SoftwareRequestUpdate;
use thin_edge::plugin::CommandLine;
use thin_edge::plugin::CommandRunner;
use thin_edge::plugin::ExternalPlugin;
use thin_edge::plugin::ExternalPluginCommand;
use thin_edge::plugin::Plugin;
use thin_edge::plugin::ProcessOutput;
use thin_edge::plugin::Stage;
use thin_edge::plugin_manager::DirectoryEntry;
use thin_edge::plugin_manager::ExternalPlugins;
use thin_edge::plugin_manager::Plugins;
use thin_edge::software::SoftwareError;
use thin_edge::software::SoftwareModule;
use thin_edge::software::SoftwareModuleAction;
use thin_edge::software::SoftwareModuleUpdate;

struct Script {
    calls: RefCell<Vec<String>>,
    failing: Vec<&'static str>,
    listing: &'static str,
}

impl Script {
    fn new(failing: Vec<&'static str>, listing: &'static str) -> Script {
        Script { calls: RefCell::new(vec![]), failing, listing }
    }
}

impl CommandRunner for Script {
    fn run(&self, command: &CommandLine) -> Result<ProcessOutput, Vec<u8>> {
        let mut line = String::from_utf8(command.program.clone()).unwrap();
        for arg in &command.args {
            line.push(' ');
            line.push_str(&String::from_utf8(arg.clone()).unwrap());
        }
        self.calls.borrow_mut().push(line.clone());
        if line.starts_with("/missing") {
            return Err(b"No such file".to_vec());
        }
        let fails = self.failing.iter().any(|f| line.contains(f));
        Ok(ProcessOutput {
            success: !fails,
            stdout: if line.ends_with(" list") { self.listing.into() } else { b" 1.2\n".to_vec() },
            stderr: if fails { b"it broke".to_vec() } else { vec![] },
        })
    }
}

fn module(software_type: &str, name: &str, version: Option<&str>) -> SoftwareModule {
    SoftwareModule {
        software_type: software_type.into(),
        name: name.into(),
        version: version.map(|v| v.into()),
        url: None,
    }
}

fn item(name: &str, action: SoftwareModuleAction) -> SoftwareModuleItem {
    SoftwareModuleItem {
        name: name.into(),
        version: None,
        action: Some(action),
        url: None,
        reason: None,
    }
}

fn entries() -> Vec<DirectoryEntry> {
    vec![
        DirectoryEntry { file_name: Some(b"apt".to_vec()), path: b"/plugins/apt".to_vec(), is_file: true },
        DirectoryEntry { file_name: Some(b"sub".to_vec()), path: b"/plugins/sub".to_vec(), is_file: false },
        DirectoryEntry { file_name: None, path: b"/plugins/\xff".to_vec(), is_file: true },
        DirectoryEntry { file_name: Some(b"default".to_vec()), path: b"/plugins/default".to_vec(), is_file: true },
        DirectoryEntry { file_name: Some(b"apt".to_vec()), path: b"/plugins/apt2".to_vec(), is_file: true },
    ]
}

#[test]
fn command_line_of_a_plugin() {
    let plugin = ExternalPluginCommand::new(b"apt", b"/plugins/apt");
    let command = plugin.command(b"install", Some(&module("apt", "curl", Some("7")))).unwrap();
    assert_eq!(command.program, b"/plugins/apt".to_vec());
    assert_eq!(command.args, vec![b"install".to_vec(), b"curl".to_vec(), b"7".to_vec()]);
    assert_eq!(command.current_dir, Some(b"/tmp".to_vec()));
    let command = plugin.command(b"remove", Some(&module("apt", "curl", None))).unwrap();
    assert_eq!(command.args, vec![b"remove".to_vec(), b"curl".to_vec()]);
    let command = plugin.command(b"prepare", None).unwrap();
    assert_eq!(command.args, vec![b"prepare".to_vec()]);
    match plugin.command(b"install", Some(&module("docker", "nginx", None))) {
        Err(SoftwareError::WrongModuleType { actual_type, expected_type }) => {
            assert_eq!(actual_type, b"apt".to_vec());
            assert_eq!(expected_type, b"docker".to_vec());
        }
        _ => panic!("a module of another type is refused"),
    }
    assert!(plugin.check_module_type(&module("apt", "x", None)).is_ok());
}

#[test]
fn outcome_of_a_stage() {
    let plugin = ExternalPluginCommand::new(b"apt", b"/plugins/apt");
    let ok = ProcessOutput { success: true, stdout: vec![], stderr: b"ignored".to_vec() };
    assert!(plugin.stage_result(Stage::Prepare, None, Ok(ok)).is_ok());
    let failed = || ProcessOutput { success: false, stdout: vec![], stderr: b"no space".to_vec() };
    assert!(matches!(
        plugin.stage_result(Stage::Prepare, None, Ok(failed())),
        Err(SoftwareError::Prepare { reason }) if reason == b"no space".to_vec()
    ));
    assert!(matches!(
        plugin.stage_result(Stage::Finalize, None, Ok(failed())),
        Err(SoftwareError::Finalize { reason }) if reason == b"no space".to_vec()
    ));
    let curl = module("apt", "curl", None);
    assert!(matches!(
        plugin.stage_result(Stage::Install, Some(&curl), Ok(failed())),
        Err(SoftwareError::Install { module, reason }) if module.name == b"curl".to_vec() && reason == b"no space".to_vec()
    ));
    assert!(matches!(
        plugin.stage_result(Stage::Remove, Some(&curl), Ok(failed())),
        Err(SoftwareError::Uninstall { .. })
    ));
    assert!(matches!(
        plugin.stage_result(Stage::Install, Some(&curl), Err(b"cannot run".to_vec())),
        Err(SoftwareError::Plugin { software_type, reason }) if software_type == b"apt".to_vec() && reason == b"cannot run".to_vec()
    ));
    let garbled = ProcessOutput { success: false, stdout: vec![], stderr: vec![b'a', 0xff] };
    match plugin.stage_result(Stage::Prepare, None, Ok(garbled)) {
        Err(SoftwareError::Plugin { reason, .. }) => {
            assert_eq!(
                String::from_utf8(reason).unwrap(),
                "invalid utf-8 sequence of 1 bytes from index 1"
            );
        }
        _ => panic!("what the plugin wrote is not UTF-8"),
    }
}

#[test]
fn content_has_to_be_utf8() {
    let plugin = ExternalPluginCommand::new(b"apt", b"/plugins/apt");
    assert_eq!(plugin.content("h\u{e9}".into()).unwrap(), vec![b'h', 0xc3, 0xa9]);
    assert!(plugin.content(vec![0xc3]).is_err());
    match plugin.plugin_error(b"why") {
        SoftwareError::Plugin { software_type, reason } => {
            assert_eq!(software_type, b"apt".to_vec());
            assert_eq!(reason, b"why".to_vec());
        }
        _ => panic!("a plugin error was expected"),
    }
}

#[test]
fn list_and_version_of_a_plugin() {
    let plugin = ExternalPluginCommand::new(b"apt", b"/plugins/apt");
    let script = Script::new(vec![], "{\"name\":\"curl\",\"version\":\"7\"}\n{\"name\":\"vim\"}\n\n");
    let modules = plugin.list(&script).unwrap();
    assert_eq!(modules.len(), 2);
    assert_eq!(modules[0].name, b"curl".to_vec());
    assert_eq!(modules[0].version, Some(b"7".to_vec()));
    assert_eq!(modules[0].software_type, b"apt".to_vec());
    assert_eq!(modules[1].version, None);
    assert_eq!(plugin.version(&module("apt", "curl", None), &script).unwrap(), Some(b"1.2".to_vec()));
    assert_eq!(script.calls.borrow().clone(), vec!["/plugins/apt list", "/plugins/apt version curl"]);

    let command = plugin.command(b"list", None).unwrap();
    let output = plugin.execute(&command, &script).unwrap();
    assert!(output.success);
    let missing = ExternalPluginCommand::new(b"apt", b"/missing");
    let command = missing.command(b"list", None).unwrap();
    assert!(matches!(
        missing.execute(&command, &script),
        Err(SoftwareError::Plugin { software_type, reason }) if software_type == b"apt".to_vec() && reason == b"No such file".to_vec()
    ));

    let broken = Script::new(vec![], "{\"name\":\"curl\"} nonsense");
    assert!(matches!(plugin.list(&broken), Err(SoftwareError::Plugin { .. })));
    let failing = Script::new(vec![" list"], "");
    assert!(matches!(
        plugin.list(&failing),
        Err(SoftwareError::Plugin { reason, .. }) if reason == b"it broke".to_vec()
    ));
    let empty = ProcessOutput { success: true, stdout: b" \n".to_vec(), stderr: vec![] };
    assert_eq!(plugin.version_result(Ok(empty)).unwrap(), None);
}

#[test]
fn plugins_of_a_directory() {
    let plugins = ExternalPlugins::open(b"/plugins", &entries());
    assert!(!plugins.empty());
    assert_eq!(plugins.plugin_map.len(), 2);
    assert_eq!(plugins.by_software_type(b"apt").unwrap().path, b"/plugins/apt2".to_vec());
    assert!(plugins.by_software_type(b"sub").is_none());
    assert_eq!(plugins.default().unwrap().name, b"default".to_vec());
    assert_eq!(plugins.by_file_extension(b"pkg.1.apt").unwrap().name, b"apt".to_vec());
    assert_eq!(plugins.by_file_extension(b"pkg").unwrap().name, b"default".to_vec());
    assert!(plugins.by_file_extension(b"pkg.rpm").is_none());
    assert!(plugins.plugin(b"apt").is_ok());
    assert!(matches!(
        plugins.plugin(b"rpm"),
        Err(SoftwareError::UnknownSoftwareType { software_type }) if software_type == b"rpm".to_vec()
    ));
    assert!(ExternalPlugins::open(b"/plugins", &vec![]).empty());
    let idle = Script::new(vec![" list"], "");
    assert!(ExternalPlugins::open(b"/plugins", &vec![]).list(&idle).unwrap().is_empty());
    assert!(idle.calls.borrow().is_empty());
    assert!(matches!(
        plugins.list(&idle),
        Err(SoftwareError::Plugin { software_type, reason }) if software_type == b"apt".to_vec() && reason == b"it broke".to_vec()
    ));
    assert_eq!(idle.calls.borrow().clone(), vec!["/plugins/apt2 list"]);
}

#[test]
fn update_is_carried_out_in_order() {
    let plugins = ExternalPlugins::open(b"/plugins", &entries());
    let request = SoftwareRequestUpdate {
        id: 9,
        update_list: vec![SoftwareRequestResponseSoftwareList {
            plugin_type: "apt".into(),
            list: vec![item("curl", SoftwareModuleAction::Install), item("vim", SoftwareModuleAction::Remove)],
        }],
    };
    let script = Script::new(vec![], "{\"name\":\"curl\",\"version\":\"7\"}");
    let response = plugins.process(&request, &script).unwrap();
    assert_eq!(response.id, 9);
    assert_eq!(response.status, SoftwareOperationStatus::Successful);
    assert!(response.failures.is_empty());
    assert_eq!(response.current_software_list.len(), 2);
    assert_eq!(response.current_software_list[0].plugin_type, b"apt".to_vec());
    assert_eq!(response.current_software_list[0].list[0].name, b"curl".to_vec());
    assert_eq!(
        script.calls.borrow().clone(),
        vec![
            "/plugins/apt2 prepare",
            "/plugins/apt2 install curl",
            "/plugins/apt2 remove vim",
            "/plugins/apt2 finalize",
            "/plugins/apt2 list",
            "/plugins/default list",
        ]
    );

    let failing = Script::new(vec!["remove vim"], "");
    let response = plugins.process(&request, &failing).unwrap();
    assert_eq!(response.status, SoftwareOperationStatus::Failed);
    assert_eq!(response.failures.len(), 1);
    assert_eq!(response.failures[0].plugin_type, b"apt".to_vec());
    assert_eq!(response.failures[0].list.len(), 1);
    assert_eq!(response.failures[0].list[0].name, b"vim".to_vec());
    assert_eq!(response.failures[0].list[0].reason, Some(b"Action failed".to_vec()));

    let unprepared = Script::new(vec!["prepare"], "");
    let response = plugins.process(&request, &unprepared).unwrap();
    assert_eq!(response.status, SoftwareOperationStatus::Failed);
    assert_eq!(response.failures[0].list.len(), 2);
    assert_eq!(response.failures[0].list[0].reason, Some(b"Failed prepare stage".to_vec()));
}

#[test]
fn modules_of_a_list_are_installed_and_removed() {
    let plugins = ExternalPlugins::open(b"/plugins", &entries());
    let list = SoftwareRequestResponseSoftwareList {
        plugin_type: "apt".into(),
        list: vec![
            item("curl", SoftwareModuleAction::Install),
            item("vim", SoftwareModuleAction::Remove),
            SoftwareModuleItem { name: "idle".into(), version: None, action: None, url: None, reason: None },
            item("nano", SoftwareModuleAction::Install),
        ],
    };
    let plugin = ExternalPluginCommand::new(b"apt", b"/plugins/apt");
    let script = Script::new(vec!["install curl", "install nano"], "");
    let failures = plugins.install_or_remove(&list, &plugin, &script);
    assert_eq!(failures.len(), 2);
    assert_eq!(failures[0].name, b"curl".to_vec());
    assert_eq!(failures[0].reason, Some(b"Action failed".to_vec()));
    assert_eq!(failures[1].name, b"nano".to_vec());
    assert_eq!(
        script.calls.borrow().clone(),
        vec!["/plugins/apt install curl", "/plugins/apt remove vim", "/plugins/apt install nano"]
    );

    // A plugin of another type refuses every module, without a run.
    let other = ExternalPluginCommand::new(b"docker", b"/plugins/docker");
    let untouched = Script::new(vec![], "");
    let failures = plugins.install_or_remove(&list, &other, &untouched);
    assert_eq!(failures.len(), 3);
    assert!(untouched.calls.borrow().is_empty());
}

#[test]
fn update_fails_with_the_plugin_that_does_not_finalize_or_list() {
    let plugins = ExternalPlugins::open(b"/plugins", &entries());
    let request = SoftwareRequestUpdate {
        id: 9,
        update_list: vec![SoftwareRequestResponseSoftwareList {
            plugin_type: "apt".into(),
            list: vec![item("curl", SoftwareModuleAction::Install)],
        }],
    };
    let unfinished = Script::new(vec!["finalize"], "");
    assert!(matches!(
        plugins.process(&request, &unfinished),
        Err(SoftwareError::Finalize { reason }) if reason == b"it broke".to_vec()
    ));
    let unlisted = Script::new(vec!["default list"], "");
    assert!(matches!(
        plugins.process(&request, &unlisted),
        Err(SoftwareError::Plugin { software_type, reason }) if software_type == b"default".to_vec() && reason == b"it broke".to_vec()
    ));

    let none = ExternalPlugins::open(b"/plugins", &vec![]);
    let nothing = SoftwareRequestUpdate { id: 3, update_list: vec![] };
    let idle = Script::new(vec!["prepare", "install", "finalize", "list"], "");
    let response = none.process(&nothing, &idle).unwrap();
    assert_eq!(response.id, 3);
    assert_eq!(response.status, SoftwareOperationStatus::Successful);
    assert!(response.current_software_list.is_empty());
    assert!(idle.calls.borrow().is_empty());
}

#[test]
fn unknown_software_type_fails_the_request() {
    let plugins = ExternalPlugins::open(b"/plugins", &entries());
    let request = SoftwareRequestUpdate {
        id: 9,
        update_list: vec![
            SoftwareRequestResponseSoftwareList { plugin_type: "apt".into(), list: vec![item("curl", SoftwareModuleAction::Install)] },
            SoftwareRequestResponseSoftwareList { plugin_type: "rpm".into(), list: vec![] },
        ],
    };
    let script = Script::new(vec![], "");
    assert!(matches!(
        plugins.process(&request, &script),
        Err(SoftwareError::UnknownSoftwareType { software_type }) if software_type == b"rpm".to_vec()
    ));
    assert!(script.calls.borrow().is_empty());
}

#[test]
fn failed_updates_are_given_back() {
    let plugin = ExternalPlugin {
        command: ExternalPluginCommand::new(b"apt", b"/plugins/apt"),
        runner: Script::new(vec!["install vim"], ""),
    };
    let updates = vec![
        SoftwareModuleUpdate::Install { module: module("apt", "curl", None) },
        SoftwareModuleUpdate::Install { module: module("apt", "vim", None) },
        SoftwareModuleUpdate::Remove { module: module("docker", "nginx", None) },
    ];
    let failed = plugin.apply_all(&updates);
    assert_eq!(failed.len(), 2);
    assert_eq!(
        plugin.runner.calls.borrow().clone(),
        vec!["/plugins/apt prepare", "/plugins/apt install curl", "/plugins/apt install vim"]
    );
    assert!(matches!(&failed[0].update, SoftwareModuleUpdate::Install { module } if module.name == b"vim".to_vec()));
    assert!(matches!(&failed[1].update, SoftwareModuleUpdate::Remove { module } if module.name == b"nginx".to_vec()));
    assert!(matches!(failed[0].error, Some(SoftwareError::Install { .. })));
    assert!(matches!(failed[1].error, Some(SoftwareError::WrongModuleType { .. })));
    assert!(plugin.apply(&updates[0]).is_ok());
    assert!(plugin.prepare().is_ok());
    assert!(plugin.finalize().is_ok());
    assert!(plugin.list().unwrap().is_empty());
    assert_eq!(plugin.version(&module("apt", "curl", None)).unwrap(), Some(b"1.2".to_vec()));
    assert!(plugin.remove(&module("apt", "curl", None)).is_ok());
}

#[test]
fn items_and_modules() {
    let m = module("apt", "curl", Some("7"));
    let named = SoftwareModuleItem::from_module(m.duplicate());
    assert_eq!(named.name, b"curl".to_vec());
    assert!(named.action.is_none());
    let update = SoftwareModuleItem::from_update(SoftwareModuleUpdate::Remove { module: m.duplicate() });
    assert_eq!(update.action, Some(SoftwareModuleAction::Remove));
    let failed = SoftwareModuleItem::from_failed_update(
        SoftwareModuleUpdate::Install { module: m.duplicate() },
        Some(b"why".to_vec()),
    );
    assert_eq!(failed.reason, Some(b"why".to_vec()));
    assert_eq!(failed.action, Some(SoftwareModuleAction::Install));
    let back = named.duplicate().into_module(b"apt");
    assert_eq!(back.software_type, b"apt".to_vec());
    assert_eq!(back.version, Some(b"7".to_vec()));
    assert!(named.into_update(b"apt").is_none());
    assert!(matches!(
        update.into_update(b"apt"),
        Some(SoftwareModuleUpdate::Remove { module }) if module.name == b"curl".to_vec()
    ));
}

#[test]
fn software_errors_are_told() {
    let text = |e: SoftwareError| String::from_utf8(e.to_text()).unwrap();
    assert_eq!(text(SoftwareError::Plugin { software_type: "apt".into(), reason: "r".into() }), "Plugin error for apt: r");
    assert_eq!(text(SoftwareError::Prepare { reason: "r".into() }), "Failed to prepare: r");
    assert_eq!(text(SoftwareError::Install { module: module("apt", "curl", None), reason: "r".into() }), "Failed to install curl: r");
    assert_eq!(text(SoftwareError::Uninstall { module: module("apt", "curl", None), reason: "r".into() }), "Failed to remove curl: r");
    assert_eq!(text(SoftwareError::Finalize { reason: "r".into() }), "Failed to finalize: r");
    assert_eq!(text(SoftwareError::UnknownSoftwareType { software_type: "rpm".into() }), "Unknown software type: rpm");
    assert_eq!(text(SoftwareError::WrongModuleType { actual_type: "apt".into(), expected_type: "rpm".into() }), "Unexpected module type: rpm: apt");
    assert_eq!(text(SoftwareError::ParseError { reason: "r".into() }), "Failed to parse: r");
}
