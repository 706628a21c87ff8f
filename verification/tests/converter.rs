use thin_edge::bus::Message;
use thin_edge::cumulocity::C8YHttpProxy;
use thin_edge::cumulocity::Converter;
use thin_edge::cumulocity::CumulocityConverter;
use thin_edge::cumulocity::OperationExecutor;
use thin_edge::cumulocity::RequestIds;
use thin_edge::measurement::from_thin_edge_json;
use thin_edge::measurement::from_thin_edge_json_with_child;
use thin_edge::operations::OperationFile;
use thin_edge::operations::Operations;
use thin_edge::size_threshold::SizeThreshold;

struct FakeProxy {
    token: Option<Vec<u8>>,
    uploads: Vec<Vec<u8>>,
}

impl C8YHttpProxy for FakeProxy {
    fn get_jwt_token(&mut self) -> Result<Vec<u8>, Vec<u8>> {
        match &self.token {
            Some(t) => Ok(t.clone()),
            None => Err(b"no token".to_vec()),
        }
    }

    fn url_is_in_my_tenant_domain(&self, url: &[u8]) -> bool {
        url.starts_with(b"https://tenant.example/")
    }

    fn send_software_list_http(&mut self, software_list: &[u8]) -> Result<(), Vec<u8>> {
        self.uploads.push(software_list.to_vec());
        Ok(())
    }
}

struct FakeExecutor {
    fails: bool,
    started: Vec<(Vec<u8>, Vec<u8>)>,
}

impl OperationExecutor for FakeExecutor {
    fn spawn(&mut self, _operation: &[u8], command: &[u8], payload: &[u8]) -> Result<(), Vec<u8>> {
        if self.fails {
            Err(b"not found".to_vec())
        } else {
            self.started.push((command.to_vec(), payload.to_vec()));
            Ok(())
        }
    }
}

struct Counter {
    next: usize,
}

impl RequestIds for Counter {
    fn next_id(&mut self) -> usize {
        self.next += 1;
        self.next - 1
    }
}

fn converter_with(files: Vec<OperationFile>) -> CumulocityConverter<FakeProxy, FakeExecutor, Counter> {
    CumulocityConverter::new(
        SizeThreshold(16 * 1024),
        b"dev".to_vec(),
        b"thin-edge.io".to_vec(),
        Operations::try_new(&files).unwrap(),
        None,
        FakeProxy { token: Some(b"tok".to_vec()), uploads: vec![] },
        FakeExecutor { fails: false, started: vec![] },
        Counter { next: 0 },
    )
}

fn converter() -> CumulocityConverter<FakeProxy, FakeExecutor, Counter> {
    converter_with(vec![])
}

fn text(message: &Message) -> String {
    String::from_utf8(message.payload.clone()).unwrap()
}

fn topic(message: &Message) -> String {
    String::from_utf8(message.topic.clone()).unwrap()
}

#[test]
fn measurement_of_the_root_device() {
    let mut c = converter();
    let input = Message::new(
        b"local/measurements",
        br#"{"temperature":21.5,"time":"2024-01-01T00:00:00Z"}"#.to_vec(),
    );
    let out = c.convert(&input);
    assert_eq!(out.len(), 1);
    assert_eq!(topic(&out[0]), "cloud/measurement/create");
    assert_eq!(
        text(&out[0]),
        r#"{"type":"ThinEdgeMeasurement","time":"2024-01-01T00:00:00Z","temperature":{"temperature":{"value":21.5}}}"#
    );
    assert!(!out[0].retain);
}

#[test]
fn measurement_of_a_new_child() {
    let mut c = converter();
    let input = Message::new(
        b"local/measurements/sensor-a",
        br#"{"temperature":21.5,"time":"2024-01-01T00:00:00Z"}"#.to_vec(),
    );
    let out = c.convert(&input);
    assert_eq!(out.len(), 2);
    assert_eq!(topic(&out[0]), "cloud/out");
    assert_eq!(text(&out[0]), "101,sensor-a,sensor-a,thin-edge.io-child");
    assert_eq!(topic(&out[1]), "cloud/measurement/create");
    assert_eq!(
        text(&out[1]),
        r#"{"type":"ThinEdgeMeasurement","externalSource":{"externalId":"sensor-a","type":"c8y_Serial"},"time":"2024-01-01T00:00:00Z","temperature":{"temperature":{"value":21.5}}}"#
    );

    let again = c.convert(&input);
    assert_eq!(again.len(), 1);
    assert_eq!(topic(&again[0]), "cloud/measurement/create");
    assert_eq!(text(&again[0]), text(&out[1]));
}

#[test]
fn measurement_with_a_group() {
    let mut c = converter();
    let input = Message::new(
        b"local/measurements",
        br#"{"coordinate":{"x":1,"y":2.5},"pressure":98}"#.to_vec(),
    );
    let out = c.convert(&input);
    assert_eq!(out.len(), 1);
    assert_eq!(
        text(&out[0]),
        r#"{"type":"ThinEdgeMeasurement","coordinate":{"x":{"value":1},"y":{"value":2.5}},"pressure":{"pressure":{"value":98}}}"#
    );
}

#[test]
fn measurement_that_is_no_json_is_reported() {
    let mut c = converter();
    let out = c.convert(&Message::new(b"local/measurements", b"21.5".to_vec()));
    assert_eq!(out.len(), 1);
    assert_eq!(topic(&out[0]), "local/errors");
    assert_eq!(text(&out[0]), "Invalid JSON: the payload is not a JSON object");

    let out = c.convert(&Message::new(b"local/measurements", br#"{"a":"b"}"#.to_vec()));
    assert_eq!(
        text(&out[0]),
        "Invalid JSON: a measurement is neither a number nor a group of numbers"
    );

    let out = c.convert(&Message::new(b"local/measurements", br#"{"a":{"b":"c"}}"#.to_vec()));
    assert_eq!(text(&out[0]), "Invalid JSON: a group holds a value that is not a number");

    let out = c.convert(&Message::new(b"local/measurements", br#"{"time":5}"#.to_vec()));
    assert_eq!(text(&out[0]), "Invalid JSON: the member time is not a string");
}

#[test]
fn empty_child_id_is_refused() {
    let mut c = converter();
    let out = c.convert(&Message::new(b"local/measurements/", br#"{"a":1}"#.to_vec()));
    assert_eq!(out.len(), 1);
    assert_eq!(topic(&out[0]), "local/errors");
    assert_eq!(text(&out[0]), "Invalid child id: ");
}

#[test]
fn oversized_payload() {
    let mut c = converter();
    let input = Message::new(b"local/measurements", vec![b'a'; 20 * 1024]);
    let out = c.convert(&input);
    assert_eq!(out.len(), 1);
    assert_eq!(topic(&out[0]), "local/errors");
    assert_eq!(
        text(&out[0]),
        "The input size 20480 is too big. The threshold is 16384."
    );

    let on_cloud = c.convert(&Message::new(b"cloud/in/528", vec![b'a'; 20 * 1024]));
    assert_eq!(on_cloud.len(), 1);
    assert_eq!(topic(&on_cloud[0]), "local/errors");

    let fits = c.convert(&Message::new(b"local/events/e", vec![b' '; 16 * 1024]));
    assert_eq!(text(&fits[0]), "Invalid JSON: the payload is not a JSON object");
}

#[test]
fn unsupported_topic_is_reported() {
    let mut c = converter();
    let out = c.convert(&Message::new(b"other/topic", b"x".to_vec()));
    assert_eq!(out.len(), 1);
    assert_eq!(topic(&out[0]), "local/errors");
    assert_eq!(text(&out[0]), "Unsupported topic: other/topic");
}

#[test]
fn alarm_clear_after_restart() {
    let mut c = converter();
    let mirrored = Message::new(b"internal/alarms/critical/temp", br#"{"text":"hot"}"#.to_vec())
        .with_retain();
    assert!(c.convert(&mirrored).is_empty());

    let flushed = c.sync_messages();
    assert_eq!(flushed.len(), 1);
    assert_eq!(topic(&flushed[0]), "local/alarms/critical/temp");
    assert!(flushed[0].payload.is_empty());
    assert!(flushed[0].retain);

    let out = c.convert(&flushed[0]);
    assert_eq!(out.len(), 2);
    assert_eq!(topic(&out[0]), "cloud/out");
    assert_eq!(text(&out[0]), "306,temp");
    assert_eq!(topic(&out[1]), "internal/alarms/critical/temp");
    assert!(out[1].payload.is_empty());
    assert!(out[1].retain);
}

#[test]
fn alarms_are_reconciled_by_the_flush() {
    let mut c = converter();
    let same = br#"{"text":"same"}"#.to_vec();
    let raised = br#"{"text":"new"}"#.to_vec();
    c.convert(&Message::new(b"internal/alarms/major/a", same.clone()).with_retain());
    c.convert(&Message::new(b"internal/alarms/minor/gone", b"{}".to_vec()).with_retain());
    c.convert(&Message::new(b"internal/alarms/minor/b", br#"{"text":"old"}"#.to_vec()));
    assert!(c.convert(&Message::new(b"local/alarms/major/a", same).with_retain()).is_empty());
    assert!(c.convert(&Message::new(b"local/alarms/minor/b", raised.clone())).is_empty());
    assert!(c.convert(&Message::new(b"local/alarms/warning/c", raised.clone())).is_empty());

    let flushed = c.sync_messages();
    assert_eq!(flushed.len(), 3);
    assert_eq!(topic(&flushed[0]), "local/alarms/minor/gone");
    assert!(flushed[0].payload.is_empty() && flushed[0].retain);
    assert_eq!(topic(&flushed[1]), "local/alarms/minor/b");
    assert_eq!(flushed[1].payload, raised);
    assert_eq!(topic(&flushed[2]), "local/alarms/warning/c");

    assert!(c.sync_messages().is_empty());
}

#[test]
fn synced_alarm_is_converted_and_mirrored() {
    let mut c = converter();
    c.sync_messages();
    let payload = br#"{"text":"I raised \"it\"","time":"2024-01-01T00:00:00Z"}"#.to_vec();
    let out = c.convert(&Message::new(b"local/alarms/critical/temperature_alarm", payload.clone()));
    assert_eq!(out.len(), 2);
    assert_eq!(topic(&out[0]), "cloud/out");
    assert_eq!(
        text(&out[0]),
        r#"301,temperature_alarm,"I raised ""it""",2024-01-01T00:00:00Z"#
    );
    assert_eq!(topic(&out[1]), "internal/alarms/critical/temperature_alarm");
    assert_eq!(out[1].payload, payload);
    assert!(out[1].retain);

    let internal = c.convert(&out[1]);
    assert!(internal.is_empty());

    let out = c.convert(&Message::new(b"local/alarms/major/m", b"{}".to_vec()));
    assert_eq!(text(&out[0]), r#"302,m,"""#);
    let out = c.convert(&Message::new(b"local/alarms/minor/m", br#"{"text":"t"}"#.to_vec()));
    assert_eq!(text(&out[0]), r#"303,m,"t""#);
    let out = c.convert(&Message::new(b"local/alarms/warning/m", br#"{"text":"t"}"#.to_vec()));
    assert_eq!(text(&out[0]), r#"304,m,"t""#);
}

#[test]
fn ill_formed_alarms_are_reported() {
    let mut c = converter();
    c.sync_messages();
    let out = c.convert(&Message::new(b"local/alarms/fatal/x", b"{}".to_vec()));
    assert_eq!(topic(&out[0]), "local/errors");
    assert_eq!(text(&out[0]), "Unsupported alarm severity: fatal");
    let out = c.convert(&Message::new(b"local/alarms/major", b"{}".to_vec()));
    assert_eq!(text(&out[0]), "Unsupported topic: local/alarms/major");
    let out = c.convert(&Message::new(b"local/alarms/major/a/b", b"{}".to_vec()));
    assert_eq!(text(&out[0]), "Unsupported topic: local/alarms/major/a/b");
    let out = c.convert(&Message::new(b"local/alarms/major/a", br#"{"text":1}"#.to_vec()));
    assert_eq!(text(&out[0]), "Invalid JSON: the member text is not a string");
    let out = c.convert(&Message::new(b"local/alarms/major/a", b"[]".to_vec()));
    assert_eq!(text(&out[0]), "Invalid JSON: the payload is not a JSON object");
}

#[test]
fn event_is_converted() {
    let mut c = converter();
    let out = c.convert(&Message::new(
        b"local/events/login",
        br#"{"text":"someone, somewhere","time":"2024-01-01T00:00:00Z"}"#.to_vec(),
    ));
    assert_eq!(out.len(), 1);
    assert_eq!(topic(&out[0]), "cloud/out");
    assert_eq!(text(&out[0]), r#"400,login,"someone, somewhere",2024-01-01T00:00:00Z"#);

    let out = c.convert(&Message::new(b"local/events/login", vec![]));
    assert_eq!(text(&out[0]), r#"400,login,"""#);

    let out = c.convert(&Message::new(b"local/events/", vec![]));
    assert_eq!(topic(&out[0]), "local/errors");
}

#[test]
fn software_update_happy_path() {
    let mut c = converter();
    let out = c.convert(&Message::new(
        b"cloud/in/528",
        b"528,dev,apt,curl,7,https://tenant.example/curl.deb,install,apt,vim,,https://other.example/vim.deb,delete,docker,nginx,1.2,,install".to_vec(),
    ));
    assert_eq!(out.len(), 1);
    assert_eq!(topic(&out[0]), "local/cmd/req/software/update");
    assert_eq!(
        text(&out[0]),
        r#"{"id":0,"updateList":[{"type":"apt","list":[{"name":"curl","version":"7","action":"install","url":{"url":"https://tenant.example/curl.deb","auth":{"type":"Bearer","token":"tok"}}},{"name":"vim","action":"remove","url":"https://other.example/vim.deb"}]},{"type":"docker","list":[{"name":"nginx","version":"1.2","action":"install"}]}]}"#
    );

    let executing = c.convert(&Message::new(
        b"local/cmd/res/software/update",
        br#"{"id":0,"status":"executing"}"#.to_vec(),
    ));
    assert_eq!(executing.len(), 1);
    assert_eq!(topic(&executing[0]), "cloud/out");
    assert_eq!(text(&executing[0]), "501,c8y_SoftwareUpdate");
    assert!(c.http_proxy.uploads.is_empty());

    let done = c.convert(&Message::new(
        b"local/cmd/res/software/update",
        br#"{"id":0,"status":"successful","currentSoftwareList":[{"type":"apt","list":[{"name":"curl","version":"7"},{"name":"vim"}]}]}"#.to_vec(),
    ));
    assert_eq!(done.len(), 1);
    assert_eq!(text(&done[0]), "503,c8y_SoftwareUpdate");
    assert_eq!(c.http_proxy.uploads.len(), 1);
    assert_eq!(
        String::from_utf8(c.http_proxy.uploads[0].clone()).unwrap(),
        r#"{"c8y_SoftwareList":[{"name":"curl","version":"7::apt","url":""},{"name":"vim","version":"::apt","url":""}]}"#
    );

    let failed = c.convert(&Message::new(
        b"local/cmd/res/software/update",
        br#"{"id":0,"status":"failed","reason":"no space"}"#.to_vec(),
    ));
    assert_eq!(text(&failed[0]), r#"502,c8y_SoftwareUpdate,"no space""#);
    assert_eq!(c.http_proxy.uploads.len(), 2);
    assert_eq!(
        String::from_utf8(c.http_proxy.uploads[1].clone()).unwrap(),
        r#"{"c8y_SoftwareList":[]}"#
    );
}

#[test]
fn software_update_without_token_fails() {
    let mut c = converter();
    c.http_proxy.token = None;
    let out = c.convert(&Message::new(b"cloud/in/528", b"528,dev,apt,curl,7,,install".to_vec()));
    assert_eq!(out.len(), 2);
    assert_eq!(text(&out[0]), "501,c8y_SoftwareUpdate");
    assert_eq!(text(&out[1]), r#"502,c8y_SoftwareUpdate,"HTTP error: no token""#);
}

#[test]
fn ill_formed_software_update_is_told_to_the_cloud() {
    let mut c = converter();
    let out = c.convert(&Message::new(b"cloud/in/528", b"528,dev,apt,curl,7".to_vec()));
    assert_eq!(out.len(), 2);
    assert_eq!(topic(&out[0]), "cloud/out");
    assert_eq!(text(&out[0]), "501,c8y_SoftwareUpdate");
    assert_eq!(
        text(&out[1]),
        r#"502,c8y_SoftwareUpdate,"Invalid SmartREST for c8y_SoftwareUpdate: the record does not hold the device and five fields for each module""#
    );
    let out = c.convert(&Message::new(b"cloud/in/528", b"528,dev,apt,curl,7,,upgrade".to_vec()));
    assert_eq!(
        text(&out[1]),
        r#"502,c8y_SoftwareUpdate,"Invalid SmartREST for c8y_SoftwareUpdate: a module lacks its type or its name, or has an unknown action""#
    );
}

#[test]
fn unknown_operation_template() {
    let mut c = converter();
    let out = c.convert(&Message::new(b"cloud/in/999", b"999,foo".to_vec()));
    assert_eq!(out.len(), 2);
    assert_eq!(topic(&out[0]), "cloud/out");
    assert_eq!(text(&out[0]), "501,foo");
    assert_eq!(topic(&out[1]), "cloud/out");
    assert_eq!(text(&out[1]), r#"502,foo,"Unknown operation: foo""#);

    let short = c.convert(&Message::new(b"cloud/in/9", b"9".to_vec()));
    assert_eq!(text(&short[0]), "501,9");
    assert_eq!(
        text(&short[1]),
        r#"502,9,"Invalid SmartREST for 9: the record is shorter than a template id""#
    );
}

#[test]
fn restart_is_forwarded_and_reported() {
    let mut c = converter();
    let out = c.convert(&Message::new(b"cloud/in/510", b"510,dev".to_vec()));
    assert_eq!(out.len(), 1);
    assert_eq!(topic(&out[0]), "local/cmd/req/restart");
    assert_eq!(text(&out[0]), r#"{"id":0}"#);
    let next = c.convert(&Message::new(b"cloud/in/510", b"510,dev".to_vec()));
    assert_eq!(text(&next[0]), r#"{"id":1}"#);

    let bad = c.convert(&Message::new(b"cloud/in/510", b"510".to_vec()));
    assert_eq!(text(&bad[0]), "501,c8y_Restart");

    let out = c.convert(&Message::new(
        b"local/cmd/res/restart",
        br#"{"id":0,"status":"executing"}"#.to_vec(),
    ));
    assert_eq!(text(&out[0]), "501,c8y_Restart");
    let out = c.convert(&Message::new(
        b"local/cmd/res/restart",
        br#"{"id":0,"status":"successful"}"#.to_vec(),
    ));
    assert_eq!(text(&out[0]), "503,c8y_Restart");
    let out = c.convert(&Message::new(
        b"local/cmd/res/restart",
        br#"{"id":0,"status":"failed","reason":"x"}"#.to_vec(),
    ));
    assert_eq!(text(&out[0]), r#"502,c8y_Restart,"Restart Failed""#);
    let out = c.convert(&Message::new(b"local/cmd/res/restart", b"{}".to_vec()));
    assert_eq!(topic(&out[0]), "local/errors");
    assert_eq!(text(&out[0]), "Invalid JSON: the message is not what its topic asks for");
}

#[test]
fn registered_operation_is_started() {
    let files = vec![
        OperationFile {
            name: b"c8y_Command".to_vec(),
            content: b"# shell\ntemplate = \"511\"\ncommand = \"/usr/bin/run\"\nowner = \"me\"\n".to_vec(),
        },
        OperationFile { name: b"c8y_Marker".to_vec(), content: b"template=\"512\"".to_vec() },
    ];
    let mut c = converter_with(files);
    let out = c.convert(&Message::new(b"cloud/in/511", b"511,dev,echo hi".to_vec()));
    assert!(out.is_empty());
    assert_eq!(
        c.executor.started,
        vec![(b"/usr/bin/run".to_vec(), b"511,dev,echo hi".to_vec())]
    );
    let out = c.convert(&Message::new(b"cloud/in/512", b"512,dev".to_vec()));
    assert!(out.is_empty());
    assert_eq!(c.executor.started.len(), 1);

    c.executor.fails = true;
    let out = c.convert(&Message::new(b"cloud/in/511", b"511,dev,echo hi".to_vec()));
    assert_eq!(out.len(), 2);
    assert_eq!(text(&out[0]), "501,c8y_Command");
    assert_eq!(text(&out[1]), r#"502,c8y_Command,"Failed to start c8y_Command: not found""#);
}

#[test]
fn software_list_response_is_uploaded() {
    let mut c = converter();
    let out = c.convert(&Message::new(
        b"local/cmd/res/software/list",
        br#"{"id":3,"status":"successful","currentSoftwareList":[{"type":"apt","list":[{"name":"a","version":"1","url":"u"}]}]}"#.to_vec(),
    ));
    assert!(out.is_empty());
    assert_eq!(
        String::from_utf8(c.http_proxy.uploads[0].clone()).unwrap(),
        r#"{"c8y_SoftwareList":[{"name":"a","version":"1::apt","url":"u"}]}"#
    );
    let out = c.convert(&Message::new(
        b"local/cmd/res/software/list",
        br#"{"id":3,"status":"failed"}"#.to_vec(),
    ));
    assert!(out.is_empty());
    assert_eq!(c.http_proxy.uploads.len(), 1);
}

#[test]
fn init_messages_in_order() {
    let files = vec![OperationFile {
        name: b"c8y_Command".to_vec(),
        content: b"template = \"511\"".to_vec(),
    }];
    let mut c = converter_with(files);
    c.inventory_fragments = Some(br#"{"c8y_Agent":"mine","c8y_Hardware":{"model":"x"}}"#.to_vec());
    let out = c.init_messages();
    assert_eq!(out.len(), 6);
    assert_eq!(topic(&out[0]), "cloud/inventory/update/dev");
    assert_eq!(
        text(&out[0]),
        r#"{"c8y_Agent":{"name":"thin-edge.io","version":"0.1.0","url":"https://thin-edge.io"},"c8y_Hardware":{"model":"x"}}"#
    );
    assert_eq!(topic(&out[1]), "cloud/out");
    assert_eq!(text(&out[1]), "114,c8y_Command");
    assert_eq!(topic(&out[2]), "cloud/inventory/update/dev");
    assert_eq!(text(&out[2]), r#"{"type":"thin-edge.io"}"#);
    assert_eq!(text(&out[3]), "118,software-management");
    assert_eq!(text(&out[4]), "500");
    assert_eq!(topic(&out[5]), "local/cmd/req/software/list");
    assert_eq!(text(&out[5]), r#"{"id":0}"#);
    assert!(c.children.is_empty());
    assert!(c.http_proxy.uploads.is_empty());
    assert!(c.executor.started.is_empty());

    let chosen = c.try_init_messages(41).ok().unwrap();
    assert_eq!(chosen.len(), 6);
    assert_eq!(text(&chosen[5]), r#"{"id":41}"#);
    assert_eq!(text(&chosen[0]), text(&out[0]));
    assert_eq!(c.ids.next, 1);

    let mut plain = converter();
    let out = plain.init_messages();
    assert_eq!(
        text(&out[0]),
        r#"{"c8y_Agent":{"name":"thin-edge.io","version":"0.1.0","url":"https://thin-edge.io"}}"#
    );
    assert_eq!(text(&out[1]), "114");

    let mut broken = converter();
    broken.inventory_fragments = Some(b"[1]".to_vec());
    let out = broken.init_messages();
    assert_eq!(out.len(), 1);
    assert_eq!(topic(&out[0]), "local/errors");
}

#[test]
fn subscriptions_name_the_operations() {
    let files = vec![OperationFile {
        name: b"c8y_Command".to_vec(),
        content: b"template = \"511\"".to_vec(),
    }];
    let c = converter_with(files);
    let filters = c.subscriptions();
    assert_eq!(filters.len(), 11);
    assert_eq!(filters[0], b"local/measurements".to_vec());
    assert_eq!(filters[10], b"cloud/in/511".to_vec());
}

#[test]
fn measurements_are_wrapped_for_the_cloud() {
    assert_eq!(
        String::from_utf8(from_thin_edge_json(br#"{"temperature":23}"#).unwrap()).unwrap(),
        r#"{"type":"ThinEdgeMeasurement","temperature":{"temperature":{"value":23}}}"#
    );
    assert_eq!(
        String::from_utf8(from_thin_edge_json_with_child(br#"{"a":{}}"#, b"c\"1").unwrap()).unwrap(),
        r#"{"type":"ThinEdgeMeasurement","externalSource":{"externalId":"c\"1","type":"c8y_Serial"},"a":{}}"#
    );
    assert!(from_thin_edge_json(b"[]").is_err());
    assert!(from_thin_edge_json_with_child(b"", b"c").is_err());
}
