use nixos_ami_upload::region::{
    canonical_regions, replica_set, resolve, resolve_all, resolve_explicit, RegionSelector,
    ResolveError,
};
use nixos_ami_upload::selector::parse_selector;

fn strings(items: &[&str]) -> Vec<String> {
    items.iter().map(|s| s.to_string()).collect()
}

#[test]
fn two_regions_give_home_and_one_replica() {
    let selector = parse_selector("us-east-1,us-west-2");
    let set = resolve(&selector, "eu-west-1", &Vec::new()).unwrap();
    assert_eq!(set.home, "us-east-1");
    assert_eq!(set.replicas, strings(&["us-west-2"]));
}

#[test]
fn home_region_is_never_a_replica() {
    let tokens = strings(&["us-east-1", "us-west-2", "us-east-1", "us-west-2", "us-east-1"]);
    let set = resolve_explicit(&tokens).unwrap();
    assert_eq!(set.home, "us-east-1");
    assert_eq!(set.replicas, strings(&["us-west-2"]));
    assert!(!set.replicas.contains(&set.home));
}

#[test]
fn only_home_named_gives_no_replica() {
    let set = resolve_explicit(&strings(&["eu-north-1", "eu-north-1"])).unwrap();
    assert_eq!(set.home, "eu-north-1");
    assert!(set.replicas.is_empty());
}

#[test]
fn resolving_twice_gives_the_same_set() {
    let tokens = strings(&["ap-south-1", "us-west-2", "eu-west-3", "us-west-2"]);
    let first = resolve_explicit(&tokens).unwrap();
    let second = resolve_explicit(&tokens).unwrap();
    assert_eq!(first, second);
}

#[test]
fn replica_membership_ignores_order() {
    let home = "ap-south-1".to_string();
    let mut a = replica_set(&home, &strings(&["ap-south-1", "us-west-2", "eu-west-3"]));
    let mut b = replica_set(&home, &strings(&["eu-west-3", "ap-south-1", "us-west-2", "eu-west-3"]));
    a.sort();
    b.sort();
    assert_eq!(a, b);
    assert_eq!(a, strings(&["eu-west-3", "us-west-2"]));
}

#[test]
fn replicas_keep_the_order_of_first_mention() {
    let home = "us-east-1".to_string();
    let replicas = replica_set(
        &home,
        &strings(&["us-west-2", "us-east-1", "eu-west-1", "us-west-2", "ap-east-1"]),
    );
    assert_eq!(replicas, strings(&["us-west-2", "eu-west-1", "ap-east-1"]));
}

#[test]
fn tokens_are_brought_to_canonical_names() {
    let names = canonical_regions(&strings(&["USEAST1", "Us-West-2", "eucentral1"])).unwrap();
    assert_eq!(names, strings(&["us-east-1", "us-west-2", "eu-central-1"]));
}

#[test]
fn two_spellings_of_home_are_one_region() {
    let set = resolve_explicit(&strings(&["useast1", "us-east-1", "US-WEST-2"])).unwrap();
    assert_eq!(set.home, "us-east-1");
    assert_eq!(set.replicas, strings(&["us-west-2"]));
}

#[test]
fn unknown_token_is_named_in_the_error() {
    let r = resolve_explicit(&strings(&["us-east-1", "mars-1", "venus-2"]));
    assert_eq!(r, Err(ResolveError::InvalidRegion("mars-1".to_string())));
}

#[test]
fn empty_token_is_invalid() {
    let selector = parse_selector("");
    let r = resolve(&selector, "us-east-1", &Vec::new());
    assert_eq!(r, Err(ResolveError::InvalidRegion(String::new())));
}

#[test]
fn empty_list_is_refused() {
    let r = resolve_explicit(&Vec::new());
    assert_eq!(r, Err(ResolveError::NoRegionsSpecified));
    let selector = RegionSelector::Explicit(Vec::new());
    assert_eq!(
        resolve(&selector, "us-east-1", &strings(&["us-east-1"])),
        Err(ResolveError::NoRegionsSpecified)
    );
}

#[test]
fn all_regions_take_home_from_the_surroundings() {
    let discovered = strings(&["us-east-1", "eu-west-1", "ap-south-1", "eu-west-1"]);
    let set = resolve_all("eu-west-1", &discovered).unwrap();
    assert_eq!(set.home, "eu-west-1");
    assert_eq!(set.replicas, strings(&["us-east-1", "ap-south-1"]));
}

#[test]
fn all_regions_with_empty_listing_leave_home_alone() {
    let set = resolve(&RegionSelector::All, "us-west-1", &Vec::new()).unwrap();
    assert_eq!(set.home, "us-west-1");
    assert!(set.replicas.is_empty());
}

#[test]
fn all_regions_refuse_an_unknown_listing_entry() {
    let discovered = strings(&["us-east-1", "xx-nowhere-9"]);
    let r = resolve_all("us-east-1", &discovered);
    assert_eq!(r, Err(ResolveError::InvalidRegion("xx-nowhere-9".to_string())));
}

#[test]
fn unknown_ambient_region_is_refused() {
    let r = resolve_all("nowhere", &strings(&["us-east-1"]));
    assert_eq!(r, Err(ResolveError::InvalidRegion("nowhere".to_string())));
}

#[test]
fn resolve_error_messages() {
    assert_eq!(
        ResolveError::NoRegionsSpecified.message(),
        "must specify one or more regions, or use the default of 'all'"
    );
    assert_eq!(
        ResolveError::InvalidRegion("mars-1".to_string()).message(),
        "could not parse region: mars-1"
    );
    assert_eq!(
        ResolveError::RegionDiscoveryFailed("throttled".to_string()).message(),
        "could not list regions: throttled"
    );
}

#[test]
fn selector_needs_discovery_only_for_all() {
    assert!(RegionSelector::All.needs_discovery());
    assert!(!RegionSelector::Explicit(strings(&["us-east-1"])).needs_discovery());
}
