use thin_edge::message::DownloadInfo;
use thin_edge::message::SoftwareModuleItem;
use thin_edge::message::SoftwareOperationStatus;
use thin_edge::message::SoftwareRequestList;
use thin_edge::message::SoftwareRequestResponse;
use thin_edge::message::SoftwareRequestResponseSoftwareList;
use thin_edge::message::SoftwareRequestUpdate;
use thin_edge::software::SoftwareModuleAction;

fn same_item(a: &SoftwareModuleItem, b: &SoftwareModuleItem) -> bool {
    a.name == b.name
        && a.version == b.version
        && a.action == b.action
        && a.reason == b.reason
        && match (&a.url, &b.url) {
            (Some(x), Some(y)) => x.url == y.url && x.auth == y.auth,
            (None, None) => true,
            _ => false,
        }
}

fn same_lists(
    a: &Vec<SoftwareRequestResponseSoftwareList>,
    b: &Vec<SoftwareRequestResponseSoftwareList>,
) -> bool {
    a.len() == b.len()
        && a.iter().zip(b.iter()).all(|(x, y)| {
            x.plugin_type == y.plugin_type
                && x.list.len() == y.list.len()
                && x.list.iter().zip(y.list.iter()).all(|(i, j)| same_item(i, j))
        })
}

fn same_response(a: &SoftwareRequestResponse, b: &SoftwareRequestResponse) -> bool {
    a.id == b.id
        && a.status == b.status
        && a.reason == b.reason
        && same_lists(&a.current_software_list, &b.current_software_list)
        && same_lists(&a.failures, &b.failures)
}

#[test]
fn serde_software_request_list() {
    let request = SoftwareRequestList { id: 1234 };
    let expected_json = r#"{"id":1234}"#;

    let actual_json = request.to_json().expect("Failed to serialize");

    assert_eq!(actual_json, expected_json.as_bytes());

    let de_request =
        SoftwareRequestList::from_json(actual_json.as_slice()).expect("failed to deserialize");
    assert_eq!(request, de_request);
}

#[test]
fn serde_software_request_update() {
    let debian_module1 = SoftwareModuleItem {
        name: "debian1".into(),
        version: Some("0.0.1".into()),
        action: Some(SoftwareModuleAction::Install),
        url: None,
        reason: None,
    };

    let debian_module2 = SoftwareModuleItem {
        name: "debian2".into(),
        version: Some("0.0.2".into()),
        action: Some(SoftwareModuleAction::Install),
        url: None,
        reason: None,
    };

    let debian_list = SoftwareRequestResponseSoftwareList {
        plugin_type: "debian".into(),
        list: vec![debian_module1, debian_module2],
    };

    let docker_module1 = SoftwareModuleItem {
        name: "docker1".into(),
        version: Some("0.0.1".into()),
        action: Some(SoftwareModuleAction::Remove),
        url: Some(DownloadInfo::new(b"test.com")),
        reason: None,
    };

    let docker_list = SoftwareRequestResponseSoftwareList {
        plugin_type: "docker".into(),
        list: vec![docker_module1],
    };

    let request = SoftwareRequestUpdate {
        id: 1234,
        update_list: vec![debian_list, docker_list],
    };

    let expected_json = r#"{"id":1234,"updateList":[{"type":"debian","list":[{"name":"debian1","version":"0.0.1","action":"install"},{"name":"debian2","version":"0.0.2","action":"install"}]},{"type":"docker","list":[{"name":"docker1","version":"0.0.1","action":"remove","url":"test.com"}]}]}"#;

    let actual_json = request.to_json().expect("Fail to serialize the request");
    assert_eq!(actual_json, expected_json.as_bytes());

    let parsed_request =
        SoftwareRequestUpdate::from_json(&actual_json).expect("Fail to parse the json request");
    assert_eq!(parsed_request.id, request.id);
    assert!(same_lists(&parsed_request.update_list, &request.update_list));
}

#[test]
fn serde_software_list_empty_successful() {
    let request = SoftwareRequestResponse {
        id: 1234,
        status: SoftwareOperationStatus::Successful,
        reason: None,
        current_software_list: vec![],
        failures: vec![],
    };

    let expected_json = r#"{"id":1234,"status":"successful","currentSoftwareList":[]}"#;

    let actual_json = request.to_json().expect("Fail to serialize the request");
    assert_eq!(actual_json, expected_json.as_bytes());
    assert_eq!(request.to_bytes().expect("Fail to serialize the request"), actual_json);

    let parsed_request =
        SoftwareRequestResponse::from_json(&actual_json).expect("Fail to parse the json request");
    assert!(same_response(&parsed_request, &request));
}

#[test]
fn serde_software_list_some_modules_successful() {
    let module1 = SoftwareModuleItem {
        name: "debian1".into(),
        version: Some("0.0.1".into()),
        action: None,
        url: None,
        reason: None,
    };

    let docker_module1 = SoftwareRequestResponseSoftwareList {
        plugin_type: "debian".into(),
        list: vec![module1],
    };

    let request = SoftwareRequestResponse {
        id: 1234,
        status: SoftwareOperationStatus::Successful,
        reason: None,
        current_software_list: vec![docker_module1],
        failures: vec![],
    };

    let expected_json = r#"{"id":1234,"status":"successful","currentSoftwareList":[{"type":"debian","list":[{"name":"debian1","version":"0.0.1"}]}]}"#;

    let actual_json = request.to_json().expect("Fail to serialize the request");
    assert_eq!(actual_json, expected_json.as_bytes());

    let parsed_request =
        SoftwareRequestResponse::from_json(&actual_json).expect("Fail to parse the json request");
    assert!(same_response(&parsed_request, &request));
}

#[test]
fn bytes_are_the_text() {
    let list = SoftwareRequestList { id: 5 };
    assert_eq!(list.to_bytes().unwrap(), list.to_json().unwrap());
    assert_eq!(SoftwareRequestList::from_slice(br#"{"id":5}"#).unwrap(), list);
    let update = SoftwareRequestUpdate { id: 6, update_list: vec![] };
    assert_eq!(update.to_bytes().unwrap(), br#"{"id":6,"updateList":[]}"#.to_vec());
    assert_eq!(SoftwareRequestUpdate::from_slice(br#"{"id":6,"updateList":[]}"#).unwrap().id, 6);
    let answer = SoftwareRequestResponse::from_slice(br#"{"id":7,"status":"executing","more":1}"#).unwrap();
    assert_eq!(answer.id, 7);
    assert_eq!(answer.status, SoftwareOperationStatus::Executing);
    assert!(matches!(
        SoftwareRequestResponse::from_slice(br#"{"id":7}"#),
        Err(thin_edge::software::SoftwareError::ParseError { reason }) if reason == b"the message is not what its topic asks for".to_vec()
    ));
}

#[test]
fn unknown_member_of_a_request_is_refused() {
    assert!(SoftwareRequestList::from_json(br#"{"id":1,"extra":2}"#).is_err());
    assert!(SoftwareRequestList::from_json(br#"{"id":"1"}"#).is_err());
    assert!(SoftwareRequestList::from_json(b"not json").is_err());
}

#[test]
fn address_with_token_is_an_object() {
    let item = SoftwareModuleItem {
        name: "curl".into(),
        version: None,
        action: Some(SoftwareModuleAction::Install),
        url: Some(DownloadInfo::new(b"https://t.example/x").with_auth(b"tok")),
        reason: None,
    };
    let text = item.to_tree().to_text();
    assert_eq!(
        String::from_utf8(text.clone()).unwrap(),
        r#"{"name":"curl","action":"install","url":{"url":"https://t.example/x","auth":{"type":"Bearer","token":"tok"}}}"#
    );
    let tree = thin_edge::json::parse(&text).unwrap();
    let back = SoftwareModuleItem::from_tree(&tree).unwrap();
    assert!(same_item(&item, &back));
}

#[test]
fn finalize_response_succeeds_without_failures() {
    let mut response = SoftwareRequestResponse::new(7, SoftwareOperationStatus::Failed);
    response.finalize_response(vec![]);
    assert_eq!(response.status, SoftwareOperationStatus::Successful);

    let mut failed = SoftwareRequestResponse::new(8, SoftwareOperationStatus::Failed);
    failed.failures.push(SoftwareRequestResponseSoftwareList {
        plugin_type: "apt".into(),
        list: vec![],
    });
    failed.finalize_response(vec![]);
    assert_eq!(failed.status, SoftwareOperationStatus::Failed);
}
