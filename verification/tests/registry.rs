use thin_edge::operations::Operation;
use thin_edge::operations::OperationFile;
use thin_edge::operations::Operations;
use thin_edge::operations::OperationsError;

fn file(name: &str, content: &str) -> OperationFile {
    OperationFile { name: name.into(), content: content.into() }
}

#[test]
fn registry_lists_and_finds_operations() {
    let registry = Operations::try_new(&vec![
        file("c8y_Command", "template = \"511\"\ncommand = \"/etc/tedge/run\"\n"),
        file("c8y_LogfileRequest", "  # only announced\n\ntemplate=\"522\"\r\nunknown = \"x\"\n"),
    ])
    .unwrap();
    assert_eq!(
        registry.get_operations_list(),
        vec![b"c8y_Command".to_vec(), b"c8y_LogfileRequest".to_vec()]
    );
    assert_eq!(
        registry.topics_for_operations(),
        vec![b"cloud/in/511".to_vec(), b"cloud/in/522".to_vec()]
    );
    let found = registry.matching_smartrest_template(b"511").unwrap();
    assert_eq!(found.name, b"c8y_Command".to_vec());
    assert_eq!(found.command(), Some(b"/etc/tedge/run".to_vec()));
    let other = registry.matching_smartrest_template(b"522").unwrap();
    assert_eq!(other.command(), None);
    assert!(registry.matching_smartrest_template(b"523").is_none());
    assert!(Operations::empty().get_operations_list().is_empty());
}

#[test]
fn later_lines_replace_earlier_ones() {
    let op = Operation::parse(b"op", b"template = \"100\"\ntemplate = \"200\"").unwrap();
    assert_eq!(op.template, b"200".to_vec());
}

#[test]
fn malformed_definitions_fail_the_registry() {
    assert!(matches!(
        Operations::try_new(&vec![file("a", "template 511")]),
        Err(OperationsError::Malformed { .. })
    ));
    assert!(matches!(
        Operations::try_new(&vec![file("a", "template = 511")]),
        Err(OperationsError::Malformed { .. })
    ));
    assert!(matches!(
        Operations::try_new(&vec![file("a", "command = \"x\"")]),
        Err(OperationsError::MissingTemplate { .. })
    ));
    assert!(matches!(
        Operations::try_new(&vec![file("a", "template = \"51\"")]),
        Err(OperationsError::InvalidTemplate { .. })
    ));
    assert!(matches!(
        Operations::try_new(&vec![file("a", "template = \"5x1\"")]),
        Err(OperationsError::InvalidTemplate { .. })
    ));
}

#[test]
fn duplicate_templates_are_rejected() {
    let outcome = Operations::try_new(&vec![
        file("first", "template = \"511\""),
        file("second", "template = \"512\""),
        file("third", "template = \"511\""),
    ]);
    match outcome {
        Err(OperationsError::DuplicateTemplate { name }) => assert_eq!(name, b"third".to_vec()),
        _ => panic!("the third definition repeats a template"),
    }
}
