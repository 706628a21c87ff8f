use thin_edge::bus::Message;
use thin_edge::cumulocity::operation_finished;
use thin_edge::cumulocity::Converter;
use thin_edge::mapper::mqtt_config;
use thin_edge::mapper::CumulocityMapper;
use thin_edge::mapper::Mapper;
use thin_edge::mapper::MapperEvent;
use thin_edge::mapper::Phase;
use thin_edge::operations::OperationFile;
use thin_edge::operations::Operations;

struct UppercaseConverter {
    synced: bool,
}

impl Converter for UppercaseConverter {
    fn subscriptions(&self) -> Vec<Vec<u8>> {
        vec![b"in_topic".to_vec()]
    }

    fn convert(&mut self, input: &Message) -> Vec<Message> {
        if input.payload.is_ascii() {
            vec![Message::new(b"out_topic", input.payload.to_ascii_uppercase())]
        } else {
            vec![Message::new(b"err_topic", b"not ascii".to_vec())]
        }
    }

    fn init_messages(&mut self) -> Vec<Message> {
        vec![Message::new(b"out_topic", b"init".to_vec())]
    }

    fn sync_messages(&mut self) -> Vec<Message> {
        self.synced = true;
        vec![
            Message::new(b"in_topic", b"kept".to_vec()),
            Message::new(b"health/check", vec![]),
        ]
    }
}

fn mapper() -> Mapper<UppercaseConverter> {
    Mapper::new(UppercaseConverter { synced: false }, b"mapper_under_test", 4711)
}

fn payloads(messages: &Vec<Message>) -> Vec<String> {
    messages.iter().map(|m| String::from_utf8(m.payload.clone()).unwrap()).collect()
}

#[test]
fn valid_input_is_converted() {
    let mut m = mapper();
    m.step(MapperEvent::Connected);
    let out = m.step(MapperEvent::Received(Message::new(b"in_topic", b"abcde".to_vec())));
    assert_eq!(out.len(), 1);
    assert_eq!(out[0].topic, b"out_topic".to_vec());
    assert_eq!(out[0].payload, b"ABCDE".to_vec());
    let out = m.step(MapperEvent::Received(Message::new(b"in_topic", "éèê".into())));
    assert_eq!(out[0].topic, b"err_topic".to_vec());
}

#[test]
fn health_check_is_answered() {
    let mut m = mapper();
    m.step(MapperEvent::Connected);
    for topic in [&b"health/check/mapper_under_test"[..], &b"health/check"[..]] {
        let out = m.step(MapperEvent::Received(Message::new(topic, vec![])));
        assert_eq!(out.len(), 1);
        assert_eq!(out[0].topic, b"health/status/mapper_under_test".to_vec());
        assert_eq!(payloads(&out), vec![r#"{"status":"up","pid":4711}"#]);
        assert!(!out[0].retain);
    }
    let other = m.step(MapperEvent::Received(Message::new(b"health/check/other", vec![])));
    assert_eq!(other[0].topic, b"out_topic".to_vec());
}

#[test]
fn phases_follow_the_events() {
    let mut m = mapper();
    assert_eq!(m.phase, Phase::Starting);
    assert!(m.step(MapperEvent::Received(Message::new(b"in_topic", b"early".to_vec()))).is_empty());
    assert!(m.step(MapperEvent::SyncWindowExpired).is_empty());
    assert_eq!(m.phase, Phase::Starting);

    assert_eq!(payloads(&m.step(MapperEvent::Connected)), vec!["init"]);
    assert_eq!(m.phase, Phase::Syncing);
    assert!(m.step(MapperEvent::Connected).is_empty());

    let flushed = m.step(MapperEvent::SyncWindowExpired);
    assert_eq!(payloads(&flushed), vec!["KEPT", r#"{"status":"up","pid":4711}"#]);
    assert_eq!(m.phase, Phase::Running);
    assert!(m.converter.synced);
    assert!(m.step(MapperEvent::SyncWindowExpired).is_empty());
    assert_eq!(payloads(&m.step(MapperEvent::Received(Message::new(b"in_topic", b"x".to_vec())))), vec!["X"]);
}

#[test]
fn subscriptions_of_the_mapper() {
    let m = mapper();
    assert_eq!(
        m.subscriptions(),
        vec![
            b"in_topic".to_vec(),
            b"health/check".to_vec(),
            b"health/check/mapper_under_test".to_vec(),
        ]
    );
    let config = mqtt_config(b"name", b"localhost", 1883, m.subscriptions());
    assert_eq!(config.host, b"localhost".to_vec());
    assert_eq!(config.port, 1883);
    assert_eq!(config.session_name, b"name".to_vec());
    assert_eq!(config.max_packet_size, 10 * 1024 * 1024);
    assert!(!config.clean_session);
}

#[test]
fn sessions_of_the_cloud_mapper() {
    let operations = Operations::try_new(&vec![OperationFile {
        name: b"c8y_Command".to_vec(),
        content: b"template = \"511\"".to_vec(),
    }])
    .unwrap();
    let mapper = CumulocityMapper::new();
    let init = mapper.init_session(&operations, b"localhost", 1883);
    assert_eq!(init.session_name, b"tedge-mapper-c8y".to_vec());
    assert!(!init.clean_session);
    assert_eq!(
        init.subscriptions,
        vec![
            b"local/cmd/res/software/list".to_vec(),
            b"local/cmd/res/software/update".to_vec(),
            b"cloud/in/528".to_vec(),
            b"cloud/in/510".to_vec(),
            b"local/cmd/res/restart".to_vec(),
            b"cloud/in/511".to_vec(),
        ]
    );
    let clear = mapper.clear_session(&operations, b"localhost", 1883);
    assert!(clear.clean_session);
    assert_eq!(clear.subscriptions, init.subscriptions);
}

#[test]
fn end_of_a_command_is_told_to_the_cloud() {
    let done = operation_finished(b"c8y_Command", true, b"");
    assert_eq!(payloads(&done), vec!["501,c8y_Command", "503,c8y_Command"]);
    assert_eq!(done[0].topic, b"cloud/out".to_vec());
    let failed = operation_finished(b"c8y_Command", false, b"exit 1");
    assert_eq!(payloads(&failed), vec!["501,c8y_Command", r#"502,c8y_Command,"exit 1""#]);
}
