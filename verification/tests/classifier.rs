use ec2_rs::config::{Configuration, Ec2Configuration};
use ec2_rs::ec2_utils::{
    get_instance_dest_variable, get_raw_region_of_instance, get_raw_security_group_names,
    instance_should_be_added, region_of,
};
use ec2_rs::instance::{GroupIdentifier, Instance, InstanceState, Placement};

fn config(all_instances: Option<bool>, dest: Option<&str>, vpc_dest: Option<&str>) -> Configuration {
    Configuration {
        cache_path: None,
        cache_max_age: None,
        ec2: Ec2Configuration {
            regions: None,
            all_instances,
            destination_variable: dest.map(|s| s.to_owned()),
            vpc_destination_variable: vpc_dest.map(|s| s.to_owned()),
            instance_filters: None,
            include_filter: None,
            exclude_filter: None,
        },
    }
}

fn with_code(code: Option<i64>) -> Instance {
    Instance { state: Some(InstanceState { code, name: None }), ..Instance::default() }
}

fn addressed(subnet: Option<&str>) -> Instance {
    Instance {
        instance_id: Some("i-0a000a0aa0000aaaa".to_owned()),
        private_dns_name: Some("ip-10-0-0-1.ec2.internal".to_owned()),
        private_ip_address: Some("10.0.0.1".to_owned()),
        public_ip_address: Some("54.0.0.1".to_owned()),
        subnet_id: subnet.map(|s| s.to_owned()),
        ..Instance::default()
    }
}

#[test]
fn a_running_instance_is_listed() {
    assert!(instance_should_be_added(&config(Some(false), None, None), &with_code(Some(16))));
    assert!(instance_should_be_added(&config(None, None, None), &with_code(Some(16))));
}

#[test]
fn only_the_low_byte_of_the_code_counts() {
    let running_only = config(Some(false), None, None);
    assert!(instance_should_be_added(&running_only, &with_code(Some(256 + 16))));
    assert!(instance_should_be_added(&running_only, &with_code(Some(0x7f00 + 16))));
    assert!(instance_should_be_added(&running_only, &with_code(Some(-240))));
    assert!(!instance_should_be_added(&running_only, &with_code(Some(4096))));
    assert!(!instance_should_be_added(&running_only, &with_code(Some(-16))));
}

#[test]
fn other_states_are_not_listed() {
    let running_only = config(Some(false), None, None);
    for code in [0, 1, 15, 17, 32, 48, 64, 80, 255] {
        assert!(!instance_should_be_added(&running_only, &with_code(Some(code))));
    }
}

#[test]
fn an_instance_without_state_is_never_listed() {
    assert!(!instance_should_be_added(&config(Some(false), None, None), &Instance::default()));
    assert!(!instance_should_be_added(&config(Some(true), None, None), &Instance::default()));
}

#[test]
fn an_instance_without_state_code_is_never_listed() {
    assert!(!instance_should_be_added(&config(Some(false), None, None), &with_code(None)));
    assert!(!instance_should_be_added(&config(Some(true), None, None), &with_code(None)));
}

#[test]
fn all_instances_lists_every_state() {
    let every_state = config(Some(true), None, None);
    for code in [0, 16, 32, 48, 64, 80] {
        assert!(instance_should_be_added(&every_state, &with_code(Some(code))));
    }
}

#[test]
fn in_a_subnet_the_private_address_names_the_host() {
    let instance = addressed(Some("subnet-aaa00aa0"));
    let settings = config(None, None, None);
    let dest = get_instance_dest_variable(&settings, &instance);
    assert_eq!(dest.map(|s| s.as_str()), Some("10.0.0.1"));
}

#[test]
fn outside_a_subnet_the_private_dns_name_names_the_host() {
    let instance = addressed(None);
    let settings = config(None, None, None);
    let dest = get_instance_dest_variable(&settings, &instance);
    assert_eq!(dest.map(|s| s.as_str()), Some("ip-10-0-0-1.ec2.internal"));
}

#[test]
fn the_configured_attribute_names_the_host() {
    let settings = config(None, Some("public_ip_address"), Some("instance_id"));
    let inside = addressed(Some("subnet-aaa00aa0"));
    let outside = addressed(None);
    assert_eq!(
        get_instance_dest_variable(&settings, &inside).map(|s| s.as_str()),
        Some("i-0a000a0aa0000aaaa")
    );
    assert_eq!(
        get_instance_dest_variable(&settings, &outside).map(|s| s.as_str()),
        Some("54.0.0.1")
    );
}

#[test]
fn an_empty_subnet_id_is_no_subnet() {
    let instance = Instance {
        subnet_id: Some("".to_owned()),
        private_ip_address: Some("10.0.0.5".to_owned()),
        private_dns_name: Some("h.internal".to_owned()),
        ..Instance::default()
    };
    let settings = config(None, None, None);
    let dest = get_instance_dest_variable(&settings, &instance);
    assert_eq!(dest.map(|s| s.as_str()), Some("h.internal"));
    let configured = config(None, Some("public_ip_address"), Some("instance_id"));
    assert!(get_instance_dest_variable(&configured, &addressed(Some(""))).is_some());
    assert_eq!(
        get_instance_dest_variable(&configured, &addressed(Some(""))).map(|s| s.as_str()),
        Some("54.0.0.1")
    );
}

#[test]
fn an_unknown_attribute_names_nothing() {
    let settings = config(None, Some("public_dns_name"), Some("Instance_Id"));
    assert!(get_instance_dest_variable(&settings, &addressed(None)).is_none());
    assert!(get_instance_dest_variable(&settings, &addressed(Some("subnet-1"))).is_none());
}

#[test]
fn a_missing_attribute_names_nothing() {
    let settings = config(None, None, None);
    let mut instance = addressed(Some("subnet-1"));
    instance.private_ip_address = None;
    assert!(get_instance_dest_variable(&settings, &instance).is_none());
}

#[test]
fn region_is_the_zone_without_its_letter() {
    assert_eq!(region_of("us-east-1c"), Some("us-east-1".to_owned()));
    assert_eq!(region_of("eu-west-1a"), Some("eu-west-1".to_owned()));
    assert_eq!(region_of("ap-southeast-2b"), Some("ap-southeast-2".to_owned()));
}

#[test]
fn a_zone_without_hyphen_has_no_region() {
    assert_eq!(region_of("local"), None);
    assert_eq!(region_of(""), None);
}

#[test]
fn region_at_the_edges_of_the_zone() {
    assert_eq!(region_of("us-east-1"), Some("us-east-1".to_owned()));
    assert_eq!(region_of("zone-"), Some("zone-".to_owned()));
    assert_eq!(region_of("-"), Some("-".to_owned()));
    assert_eq!(region_of("-ab"), Some("-a".to_owned()));
    assert_eq!(region_of("a-\u{e9}\u{e9}"), Some("a-\u{e9}".to_owned()));
}

#[test]
fn region_of_an_instance_comes_from_its_placement() {
    let mut instance = Instance::default();
    assert_eq!(get_raw_region_of_instance(&instance), None);
    instance.placement = Some(Placement { availability_zone: None });
    assert_eq!(get_raw_region_of_instance(&instance), None);
    instance.placement = Some(Placement { availability_zone: Some("us-east-1c".to_owned()) });
    assert_eq!(get_raw_region_of_instance(&instance), Some("us-east-1".to_owned()));
    instance.placement = Some(Placement { availability_zone: Some("nowhere".to_owned()) });
    assert_eq!(get_raw_region_of_instance(&instance), None);
}

#[test]
fn security_group_names_skip_groups_without_name() {
    let mut instance = Instance::default();
    assert_eq!(get_raw_security_group_names(&instance), None);
    instance.security_groups = Some(vec![
        GroupIdentifier { group_id: Some("sg-1".to_owned()), group_name: Some("default".to_owned()) },
        GroupIdentifier { group_id: Some("sg-2".to_owned()), group_name: None },
        GroupIdentifier { group_id: None, group_name: Some("web".to_owned()) },
    ]);
    assert_eq!(
        get_raw_security_group_names(&instance),
        Some(vec!["default".to_owned(), "web".to_owned()])
    );
    instance.security_groups = Some(Vec::new());
    assert_eq!(get_raw_security_group_names(&instance), Some(Vec::new()));
}
