use ec2_rs::config::{Configuration, Ec2Configuration};
use ec2_rs::table::Table;

fn nothing_configured() -> Configuration {
    Configuration {
        cache_path: None,
        cache_max_age: None,
        ec2: Ec2Configuration {
            regions: None,
            all_instances: None,
            destination_variable: None,
            vpc_destination_variable: None,
            instance_filters: None,
            include_filter: None,
            exclude_filter: None,
        },
    }
}

#[test]
fn defaults_of_the_cache() {
    let config = nothing_configured();
    assert_eq!(config.get_cache_path(), "~/.ansible/tmp");
    assert_eq!(config.get_cache_max_age(), 300);
}

#[test]
fn default_regions() {
    let config = nothing_configured();
    assert_eq!(
        config.ec2.get_regions(),
        vec![
            "us-east-1",
            "us-east-2",
            "us-west-1",
            "us-west-2",
            "eu-west-1",
            "eu-central-1",
            "ap-southeast-1",
            "ap-southeast-2",
            "ca-central-1",
        ]
    );
}

#[test]
fn defaults_of_the_scan() {
    let config = nothing_configured();
    assert_eq!(config.ec2.get_dest_variable(), "private_dns_name");
    assert_eq!(config.ec2.get_vpc_dest_variable(), "private_ip_address");
    assert!(!config.ec2.get_all_instances());
    assert_eq!(config.ec2.get_instance_filters().len(), 0);
    assert_eq!(config.ec2.get_include_filter(), ".*");
    assert_eq!(config.ec2.get_exclude_filter(), "^$");
}

#[test]
fn configured_values_are_returned() {
    let mut filters: Table<String> = Table::new();
    filters.insert("tag:Env".to_owned(), "prod,stage".to_owned());
    let config = Configuration {
        cache_path: Some("/var/cache/inventory".to_owned()),
        cache_max_age: Some(0),
        ec2: Ec2Configuration {
            regions: Some(vec!["eu-north-1".to_owned()]),
            all_instances: Some(true),
            destination_variable: Some("public_ip_address".to_owned()),
            vpc_destination_variable: Some("instance_id".to_owned()),
            instance_filters: Some(filters),
            include_filter: Some("^web".to_owned()),
            exclude_filter: Some("test$".to_owned()),
        },
    };
    assert_eq!(config.get_cache_path(), "/var/cache/inventory");
    assert_eq!(config.get_cache_max_age(), 0);
    assert_eq!(config.ec2.get_regions(), vec!["eu-north-1"]);
    assert!(config.ec2.get_all_instances());
    assert_eq!(config.ec2.get_dest_variable(), "public_ip_address");
    assert_eq!(config.ec2.get_vpc_dest_variable(), "instance_id");
    assert_eq!(config.ec2.get_include_filter(), "^web");
    assert_eq!(config.ec2.get_exclude_filter(), "test$");
    let filters = config.ec2.get_instance_filters();
    assert_eq!(filters.len(), 1);
    assert_eq!(filters.get("tag:Env").map(|v| v.as_str()), Some("prod,stage"));
}

#[test]
fn an_empty_list_of_regions_stays_empty() {
    let mut config = nothing_configured();
    config.ec2.regions = Some(Vec::new());
    assert!(config.ec2.get_regions().is_empty());
}
