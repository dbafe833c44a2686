use nixos_ami_upload::discovery::{directory_path, Lookup, Page, Pager};
use nixos_ami_upload::region::ResolveError;

fn page(regions: &[&str], next_token: Option<&str>) -> Page {
    Page {
        regions: regions.iter().map(|s| s.to_string()).collect(),
        next_token: next_token.map(|s| s.to_string()),
    }
}

#[test]
fn first_request_has_no_token() {
    let pager = Pager::start();
    assert_eq!(pager.requests, 1);
    assert_eq!(pager.due(), Some(None));
    assert!(pager.collected.is_empty());
    assert_eq!(pager.outcome(), None);
}

#[test]
fn three_pages_take_three_requests() {
    let pager = Pager::start();
    let pager = pager.accept(page(&["us-east-1", "us-west-2"], Some("t1")));
    assert_eq!(pager.due(), Some(Some("t1".to_string())));
    assert_eq!(pager.requests, 2);
    let pager = pager.accept(page(&[], Some("t2")));
    assert_eq!(pager.due(), Some(Some("t2".to_string())));
    assert_eq!(pager.requests, 3);
    let pager = pager.accept(page(&["eu-west-1", "eu-west-2", "ap-south-1"], None));
    assert_eq!(pager.due(), None);
    assert_eq!(pager.requests, 3);
    assert_eq!(pager.state, Lookup::Complete);
    assert_eq!(pager.collected.len(), 5);
    let expected: Vec<String> = ["us-east-1", "us-west-2", "eu-west-1", "eu-west-2", "ap-south-1"]
        .iter()
        .map(|s| s.to_string())
        .collect();
    assert_eq!(pager.outcome(), Some(Ok(expected)));
}

#[test]
fn single_page_takes_one_request() {
    let pager = Pager::start().accept(page(&["sa-east-1"], None));
    assert_eq!(pager.requests, 1);
    assert_eq!(pager.outcome(), Some(Ok(vec!["sa-east-1".to_string()])));
}

#[test]
fn failure_discards_earlier_pages() {
    let pager = Pager::start().accept(page(&["us-east-1", "us-west-2"], Some("t1")));
    let pager = pager.reject("throttled".to_string());
    assert!(pager.collected.is_empty());
    assert_eq!(pager.requests, 2);
    assert_eq!(pager.due(), None);
    assert_eq!(
        pager.outcome(),
        Some(Err(ResolveError::RegionDiscoveryFailed("throttled".to_string())))
    );
}

#[test]
fn finished_lookup_ignores_further_answers() {
    let done = Pager::start().accept(page(&["us-east-1"], None));
    let again = done.clone().accept(page(&["us-west-2"], Some("t")));
    assert_eq!(again, done);
    let still = done.clone().reject("late".to_string());
    assert_eq!(still, done);
    let failed = Pager::start().reject("down".to_string());
    let after = failed.clone().accept(page(&["us-west-2"], None));
    assert_eq!(after, failed);
}

#[test]
fn request_count_stops_at_the_largest_number() {
    let pager = Pager {
        collected: Vec::new(),
        requests: u64::MAX,
        state: Lookup::Request(Some("t".to_string())),
    };
    let pager = pager.accept(page(&[], Some("u")));
    assert_eq!(pager.requests, u64::MAX);
}

#[test]
fn directory_path_names_the_compute_regions() {
    assert_eq!(directory_path(), "/aws/service/global-infrastructure/services/ec2/regions");
}
