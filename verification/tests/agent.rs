use std::cell::RefCell;
use thin_edge::agent::publish_capabilities;
use thin_edge::agent::AgentAction;
use thin_edge::agent::AgentIo;
use thin_edge::agent::SmAgent;
use thin_edge::agent::SmAgentConfig;
use thin_edge::agent::SoftwareOperation;
use thin_edge::agent::State;
use thin_edge::message::SoftwareOperationStatus;
use thin_edge::message::SoftwareRequestResponse;
use thin_edge::plugin::CommandLine;
use thin_edge::plugin::CommandRunner;
use thin_edge::plugin::ProcessOutput;
use thin_edge::plugin_manager::DirectoryEntry;
use thin_edge::plugin_manager::ExternalPlugins;

struct Tool {
    fails: bool,
    calls: RefCell<Vec<Vec<u8>>>,
}

impl CommandRunner for Tool {
    fn run(&self, command: &CommandLine) -> Result<ProcessOutput, Vec<u8>> {
        self.calls.borrow_mut().push(command.args[0].clone());
        Ok(ProcessOutput {
            success: !(self.fails && command.args[0] == b"install".to_vec()),
            stdout: b"{\"name\":\"curl\",\"version\":\"7\"}\n".to_vec(),
            stderr: b"no".to_vec(),
        })
    }
}

struct Log {
    seen: Vec<String>,
}

impl AgentIo for Log {
    fn perform(&mut self, action: &AgentAction) {
        self.seen.push(show(action));
    }
}

fn show(action: &AgentAction) -> String {
    match action {
        AgentAction::StoreState(state) => {
            format!("store {}", String::from_utf8(state.to_text()).unwrap().replace('\n', ";"))
        }
        AgentAction::Publish(message) => format!(
            "publish {} {}",
            String::from_utf8(message.topic.clone()).unwrap(),
            String::from_utf8(message.payload.clone()).unwrap()
        ),
        AgentAction::ClearState => "clear".to_string(),
    }
}

fn plugins() -> ExternalPlugins {
    ExternalPlugins::open(
        b"/plugins",
        &vec![DirectoryEntry { file_name: Some(b"apt".to_vec()), path: b"/plugins/apt".to_vec(), is_file: true }],
    )
}

#[test]
fn journal_is_written_and_read() {
    let state = State { operation_id: Some(1234), operation: Some(b"update".to_vec()) };
    let text = state.to_text();
    assert_eq!(String::from_utf8(text.clone()).unwrap(), "id = \"1234\"\nkind = \"update\"\n");
    let back = State::from_text(&text);
    assert_eq!(back.operation_id, Some(1234));
    assert_eq!(back.operation, Some(b"update".to_vec()));
    assert!(back.is_live());

    assert!(State::idle().to_text().is_empty());
    let empty = State::from_text(b"");
    assert!(!empty.is_live());
    assert_eq!(empty.operation_id, None);
    let corrupt = State::from_text(b"id = \"12\"\nkind = update");
    assert_eq!(corrupt.operation_id, None);
    assert_eq!(corrupt.operation, None);
    let no_number = State::from_text(b"id = \"x\"\nkind = \"list\"");
    assert_eq!(no_number.operation_id, None);
    assert!(!no_number.is_live());
    let half = State::from_text(b"# journal\n id=\"7\" \n");
    assert_eq!(half.operation_id, Some(7));
    assert!(!half.is_live());
}

#[test]
fn unfinished_operation_is_answered_as_failed() {
    let agent = SmAgent::new(b"sm-agent");
    let state = State { operation_id: Some(5), operation: Some(b"update".to_vec()) };
    let actions = agent.check_state_store(&state);
    let shown: Vec<String> = actions.iter().map(show).collect();
    assert_eq!(
        shown,
        vec![
            r#"publish local/cmd/res/software/update {"id":5,"status":"failed","reason":"unfinished operation request","currentSoftwareList":[]}"#,
            "clear",
        ]
    );
    let listing = State { operation_id: Some(6), operation: Some(b"list".to_vec()) };
    assert!(show(&agent.check_state_store(&listing)[0]).starts_with("publish local/cmd/res/software/list "));
    let restart = State { operation_id: Some(6), operation: Some(b"restart".to_vec()) };
    assert!(show(&agent.check_state_store(&restart)[0]).starts_with("publish local/cmd/res/restart "));
    let odd = State { operation_id: Some(6), operation: Some(b"odd".to_vec()) };
    assert!(show(&agent.check_state_store(&odd)[0]).starts_with("publish local/errors "));
    assert!(agent.check_state_store(&State::idle()).is_empty());
    assert!(agent
        .check_state_store(&State { operation_id: Some(1), operation: None })
        .is_empty());
}

#[test]
fn update_request_is_executing_before_it_ends() {
    let agent = SmAgent::new(b"sm-agent");
    let tool = Tool { fails: false, calls: RefCell::new(vec![]) };
    let mut log = Log { seen: vec![] };
    let payload = br#"{"id":42,"updateList":[{"type":"apt","list":[{"name":"curl","version":"7","action":"install"}]}]}"#;
    let trace = agent.handle_software_update_request(payload, &plugins(), &tool, &mut log);
    let shown: Vec<String> = trace.iter().map(show).collect();
    assert_eq!(
        shown,
        vec![
            r#"store id = "42";kind = "update";"#,
            r#"publish local/cmd/res/software/update {"id":42,"status":"executing","currentSoftwareList":[]}"#,
            r#"publish local/cmd/res/software/update {"id":42,"status":"successful","currentSoftwareList":[{"type":"apt","list":[{"name":"curl","version":"7"}]}]}"#,
            "clear",
        ]
    );
    assert_eq!(log.seen, shown);
    assert_eq!(
        tool.calls.borrow().clone(),
        vec![b"prepare".to_vec(), b"install".to_vec(), b"finalize".to_vec(), b"list".to_vec()]
    );

    let failing = Tool { fails: true, calls: RefCell::new(vec![]) };
    let mut log = Log { seen: vec![] };
    let trace = agent.handle_software_update_request(payload, &plugins(), &failing, &mut log);
    assert_eq!(trace.len(), 4);
    assert_eq!(
        show(&trace[2]),
        r#"publish local/cmd/res/software/update {"id":42,"status":"failed","currentSoftwareList":[{"type":"apt","list":[{"name":"curl","version":"7"}]}],"failures":[{"type":"apt","list":[{"name":"curl","version":"7","action":"install","reason":"Action failed"}]}]}"#
    );
}

#[test]
fn update_of_an_unknown_type_fails() {
    let agent = SmAgent::new(b"sm-agent");
    let tool = Tool { fails: false, calls: RefCell::new(vec![]) };
    let mut log = Log { seen: vec![] };
    let payload = br#"{"id":42,"updateList":[{"type":"rpm","list":[]}]}"#;
    let trace = agent.handle_software_update_request(payload, &plugins(), &tool, &mut log);
    assert_eq!(trace.len(), 4);
    assert_eq!(
        show(&trace[2]),
        r#"publish local/cmd/res/software/update {"id":42,"status":"failed","reason":"Unknown software type: rpm","currentSoftwareList":[]}"#
    );
    assert_eq!(show(&trace[3]), "clear");
    assert!(tool.calls.borrow().is_empty());
}

#[test]
fn request_that_cannot_be_read_is_answered() {
    let agent = SmAgent::new(b"sm-agent");
    let tool = Tool { fails: false, calls: RefCell::new(vec![]) };
    let mut log = Log { seen: vec![] };
    let trace = agent.handle_software_update_request(b"{", &plugins(), &tool, &mut log);
    assert_eq!(
        log.seen,
        vec!["publish local/cmd/res/software/update Failed to parse: the message is not what its topic asks for"]
    );
    assert_eq!(trace.len(), 1);
    let trace = agent.handle_software_list_request(b"[]", &plugins(), &tool, &mut log);
    assert_eq!(
        show(&trace[0]),
        "publish local/cmd/res/software/list Failed to parse: the message is not what its topic asks for"
    );
}

struct Broken;

impl CommandRunner for Broken {
    fn run(&self, _command: &CommandLine) -> Result<ProcessOutput, Vec<u8>> {
        Err(b"cannot run".to_vec())
    }
}

#[test]
fn list_request_fails_with_the_error_of_the_plugin() {
    let agent = SmAgent::new(b"sm-agent");
    let mut log = Log { seen: vec![] };
    let trace = agent.handle_software_list_request(br#"{"id":3}"#, &plugins(), &Broken, &mut log);
    let shown: Vec<String> = trace.iter().map(show).collect();
    assert_eq!(
        shown,
        vec![
            r#"store id = "3";kind = "list";"#,
            r#"publish local/cmd/res/software/list {"id":3,"status":"failed","reason":"Plugin error for apt: cannot run","currentSoftwareList":[]}"#,
            "clear",
        ]
    );

    let none = ExternalPlugins::open(b"/plugins", &vec![]);
    let trace = agent.handle_software_list_request(br#"{"id":4}"#, &none, &Broken, &mut log);
    assert_eq!(
        show(&trace[1]),
        r#"publish local/cmd/res/software/list {"id":4,"status":"successful","currentSoftwareList":[]}"#
    );
}

#[test]
fn list_request_is_answered() {
    let agent = SmAgent::new(b"sm-agent");
    let tool = Tool { fails: false, calls: RefCell::new(vec![]) };
    let mut log = Log { seen: vec![] };
    let trace = agent.process_request(
        b"local/cmd/req/software/list",
        br#"{"id":3}"#,
        &plugins(),
        &tool,
        &mut log,
    );
    let shown: Vec<String> = trace.iter().map(show).collect();
    assert_eq!(
        shown,
        vec![
            r#"store id = "3";kind = "list";"#,
            r#"publish local/cmd/res/software/list {"id":3,"status":"successful","currentSoftwareList":[{"type":"apt","list":[{"name":"curl","version":"7"}]}]}"#,
            "clear",
        ]
    );
    assert!(agent
        .process_request(b"local/cmd/req/other", b"{}", &plugins(), &tool, &mut log)
        .is_empty());
}

#[test]
fn operations_of_topics_and_kinds() {
    assert_eq!(
        SoftwareOperation::from_topic(b"local/cmd/req/software/list"),
        SoftwareOperation::CurrentSoftwareList
    );
    assert_eq!(
        SoftwareOperation::from_topic(b"local/cmd/req/software/update"),
        SoftwareOperation::SoftwareUpdates
    );
    assert_eq!(SoftwareOperation::from_topic(b"local/cmd/req/restart"), SoftwareOperation::Restart);
    assert_eq!(SoftwareOperation::from_topic(b"x"), SoftwareOperation::UnknownOperation);
    assert_eq!(SoftwareOperation::from_kind(b"list"), SoftwareOperation::CurrentSoftwareList);
    assert_eq!(SoftwareOperation::from_kind(b"update"), SoftwareOperation::SoftwareUpdates);
    assert_eq!(SoftwareOperation::from_kind(b"restart"), SoftwareOperation::Restart);
    assert_eq!(SoftwareOperation::from_kind(b""), SoftwareOperation::UnknownOperation);
    assert_eq!(SoftwareOperation::Restart.response_topic(), b"local/cmd/res/restart".to_vec());
    let config = SmAgentConfig::default();
    assert_eq!(config.request_topic, b"local/cmd/req/software/#".to_vec());
    assert_eq!(config.errors_topic, b"local/errors".to_vec());
    assert_eq!(config.max_packet_size, 50 * 1024);
}

#[test]
fn capabilities_are_announced() {
    let shown: Vec<String> = publish_capabilities().iter().map(show).collect();
    assert_eq!(
        shown,
        vec!["publish local/capabilities/software/list ", "publish local/capabilities/software/update "]
    );
    assert!(matches!(&publish_capabilities()[0], AgentAction::Publish(m) if m.retain && m.payload.is_empty()));
}

#[test]
fn answer_is_finalized_by_the_agent() {
    let agent = SmAgent::new(b"sm-agent");
    let mut response = SoftwareRequestResponse::new(1, SoftwareOperationStatus::Failed);
    agent.finalize_response(&mut response, vec![]);
    assert_eq!(response.status, SoftwareOperationStatus::Successful);
    let actions = agent.conclude(b"t", &response);
    assert_eq!(actions.len(), 2);
    assert_eq!(show(&actions[1]), "clear");
}

struct NoCloud;

impl thin_edge::cumulocity::C8YHttpProxy for NoCloud {
    fn get_jwt_token(&mut self) -> Result<Vec<u8>, Vec<u8>> {
        Err(b"offline".to_vec())
    }

    fn url_is_in_my_tenant_domain(&self, _url: &[u8]) -> bool {
        false
    }

    fn send_software_list_http(&mut self, _software_list: &[u8]) -> Result<(), Vec<u8>> {
        Err(b"offline".to_vec())
    }
}

impl thin_edge::cumulocity::OperationExecutor for NoCloud {
    fn spawn(&mut self, _operation: &[u8], _command: &[u8], _payload: &[u8]) -> Result<(), Vec<u8>> {
        Err(b"offline".to_vec())
    }
}

impl thin_edge::cumulocity::RequestIds for NoCloud {
    fn next_id(&mut self) -> usize {
        0
    }
}

#[test]
fn unfinished_operation_reaches_the_cloud_as_failed() {
    let agent = SmAgent::new(b"sm-agent");
    let tool = Tool { fails: false, calls: RefCell::new(vec![]) };
    let mut log = Log { seen: vec![] };
    let payload = br#"{"id":42,"updateList":[]}"#;
    let trace = agent.handle_software_update_request(payload, &plugins(), &tool, &mut log);
    let journal = match &trace[0] {
        AgentAction::StoreState(state) => state.to_text(),
        _ => panic!("the journal is written first"),
    };

    // The agent is cut short here, and starts again with what its journal holds.
    let actions = agent.check_state_store(&State::from_text(&journal));
    let answer = match &actions[0] {
        AgentAction::Publish(message) => message.duplicate(),
        _ => panic!("the operation is answered first"),
    };
    assert!(matches!(actions[1], AgentAction::ClearState));

    let mut converter = thin_edge::cumulocity::CumulocityConverter::new(
        thin_edge::size_threshold::SizeThreshold(16 * 1024),
        b"dev".to_vec(),
        b"thin-edge.io".to_vec(),
        thin_edge::operations::Operations::empty(),
        None,
        NoCloud,
        NoCloud,
        NoCloud,
    );
    let out = converter.try_convert(&answer).unwrap();
    assert_eq!(out.len(), 1);
    assert_eq!(out[0].topic, b"cloud/out".to_vec());
    assert_eq!(
        String::from_utf8(out[0].payload.clone()).unwrap(),
        r#"502,c8y_SoftwareUpdate,"unfinished operation request""#
    );
}
