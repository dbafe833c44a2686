use nixos_ami_upload::region::RegionSelector;
use nixos_ami_upload::selector::{parse_selector, split_commas, OutputFormat};

fn strings(items: &[&str]) -> Vec<String> {
    items.iter().map(|s| s.to_string()).collect()
}

#[test]
fn split_gives_each_piece() {
    assert_eq!(split_commas("us-east-1,us-west-2"), strings(&["us-east-1", "us-west-2"]));
    assert_eq!(split_commas("one"), strings(&["one"]));
}

#[test]
fn split_keeps_empty_pieces() {
    assert_eq!(split_commas(""), strings(&[""]));
    assert_eq!(split_commas(","), strings(&["", ""]));
    assert_eq!(split_commas("a,,b,"), strings(&["a", "", "b", ""]));
}

#[test]
fn split_counts_characters_not_bytes() {
    assert_eq!(split_commas("é,ü,日本"), strings(&["é", "ü", "日本"]));
}

#[test]
fn split_and_join_give_the_text_back() {
    let text = "ap-south-1,,eu-west-1,";
    assert_eq!(split_commas(text).join(","), text);
}

#[test]
fn all_selects_every_region() {
    assert_eq!(parse_selector("all"), RegionSelector::All);
    assert_eq!(parse_selector("all,us-east-1"), RegionSelector::All);
}

#[test]
fn a_list_selects_what_it_names() {
    assert_eq!(
        parse_selector("us-east-1,all"),
        RegionSelector::Explicit(strings(&["us-east-1", "all"]))
    );
    assert_eq!(parse_selector("ALL"), RegionSelector::Explicit(strings(&["ALL"])));
}

#[test]
fn json_is_the_output_format() {
    assert_eq!(OutputFormat::from_str("json"), Ok(OutputFormat::Json));
}

#[test]
fn other_output_formats_are_refused() {
    assert_eq!(
        OutputFormat::from_str("nix"),
        Err("invalid format 'nix'; must be 'json'".to_string())
    );
    assert_eq!(
        OutputFormat::from_str(""),
        Err("invalid format ''; must be 'json'".to_string())
    );
    assert_eq!(
        OutputFormat::from_str("JSON"),
        Err("invalid format 'JSON'; must be 'json'".to_string())
    );
}
