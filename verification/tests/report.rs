use nixos_ami_upload::report::{aggregate, clone_records, ImageRecord, Report};

fn record(region: &str, image_id: &str) -> ImageRecord {
    ImageRecord { region: region.to_string(), image_id: image_id.to_string() }
}

#[test]
fn new_report_is_empty() {
    let report = Report::new();
    assert!(report.entries.is_empty());
    assert_eq!(report.get(&"us-east-1".to_string()), None);
}

#[test]
fn aggregate_holds_home_and_replicas() {
    let report = aggregate(
        record("us-east-1", "ami-home"),
        vec![record("us-west-2", "ami-west"), record("eu-west-1", "ami-eu")],
    );
    assert_eq!(report.get(&"us-east-1".to_string()), Some("ami-home".to_string()));
    assert_eq!(report.get(&"us-west-2".to_string()), Some("ami-west".to_string()));
    assert_eq!(report.get(&"eu-west-1".to_string()), Some("ami-eu".to_string()));
    assert_eq!(report.get(&"ap-south-1".to_string()), None);
    assert_eq!(report.entries.len(), 3);
    assert_eq!(report.entries[0], record("us-east-1", "ami-home"));
}

#[test]
fn aggregate_without_replicas_holds_home() {
    let report = aggregate(record("us-east-1", "ami-home"), Vec::new());
    assert_eq!(report.entries, vec![record("us-east-1", "ami-home")]);
    assert_eq!(report.get(&"us-east-1".to_string()), Some("ami-home".to_string()));
}

#[test]
fn later_entry_stands_for_its_region() {
    let mut report = Report::new();
    report.insert("us-east-1".to_string(), "ami-1".to_string());
    report.insert("us-west-2".to_string(), "ami-2".to_string());
    report.insert("us-east-1".to_string(), "ami-3".to_string());
    assert_eq!(report.get(&"us-east-1".to_string()), Some("ami-3".to_string()));
    assert_eq!(report.get(&"us-west-2".to_string()), Some("ami-2".to_string()));
}

#[test]
fn cloned_records_are_equal() {
    let records = vec![record("a", "1"), record("b", "2")];
    assert_eq!(clone_records(&records), records);
    assert_eq!(clone_records(&Vec::new()), Vec::new());
}

#[test]
fn report_does_not_depend_on_the_order_of_replicas() {
    let one = aggregate(
        record("us-east-1", "ami-home"),
        vec![record("us-west-2", "ami-west"), record("eu-west-1", "ami-eu")],
    );
    let other = aggregate(
        record("us-east-1", "ami-home"),
        vec![record("eu-west-1", "ami-eu"), record("us-west-2", "ami-west")],
    );
    for region in ["us-east-1", "us-west-2", "eu-west-1", "ap-south-1"] {
        assert_eq!(one.get(&region.to_string()), other.get(&region.to_string()));
    }
}
