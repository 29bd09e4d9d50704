use ec2_rs::config::{Configuration, Ec2Configuration};
use ec2_rs::errors::InventoryError;
use ec2_rs::pattern::{admission, HostFilter};
use ec2_rs::request::{account_list, build_filters, RequestFilter};
use ec2_rs::role_assumer::{CredentialRequest, RoleAssumer};
use ec2_rs::table::Table;

const ALIASES: &[u8] =
    b"{\n\"account\": \"arn:aws:iam::000000000000:role/xacct/role\", \"count\": 3, \"nested\": {\"a\": \"b\"}, \"other\": \"arn:aws:iam::111111111111:role/other\"\n}";

fn role(arn: &str) -> CredentialRequest {
    CredentialRequest::AssumeRole { role_arn: arn.to_owned(), session_name: "default".to_owned() }
}

#[test]
fn an_alias_names_the_role_to_assume() {
    let assumer = RoleAssumer::new(Some(ALIASES));
    assert_eq!(
        assumer.resolve("account".to_owned()),
        role("arn:aws:iam::000000000000:role/xacct/role")
    );
    assert_eq!(
        assumer.assume_role("other".to_owned()),
        role("arn:aws:iam::111111111111:role/other")
    );
}

#[test]
fn an_account_without_alias_is_its_own_role() {
    let assumer = RoleAssumer::new(Some(ALIASES));
    assert_eq!(
        assumer.resolve("arn:aws:iam::222222222222:role/direct".to_owned()),
        role("arn:aws:iam::222222222222:role/direct")
    );
    assert_eq!(assumer.resolve("Account".to_owned()), role("Account"));
}

#[test]
fn aliases_that_are_no_strings_are_passed_over() {
    let assumer = RoleAssumer::new(Some(ALIASES));
    assert_eq!(assumer.resolve("count".to_owned()), role("count"));
    assert_eq!(assumer.resolve("nested".to_owned()), role("nested"));
}

#[test]
fn a_missing_or_broken_alias_file_is_no_error() {
    let broken: [&[u8]; 5] = [b"", b"not json", b"[\"account\"]", b"\"account\"", b"{\"account\": "];
    for file in broken {
        let assumer = RoleAssumer::new(Some(file));
        assert_eq!(assumer.resolve("account".to_owned()), role("account"));
    }
    let assumer = RoleAssumer::new(None);
    assert_eq!(assumer.resolve("account".to_owned()), role("account"));
}

#[test]
fn the_default_account_uses_the_credentials_of_the_environment() {
    let assumer = RoleAssumer::new(Some(b"{\"default\": \"arn:aws:iam::000000000000:role/x\"}"));
    assert_eq!(assumer.resolve("default".to_owned()), CredentialRequest::Ambient);
    assert_eq!(assumer.get_default_creds(), CredentialRequest::Ambient);
    assert_eq!(
        assumer.assume_role("default".to_owned()),
        role("arn:aws:iam::000000000000:role/x")
    );
}

#[test]
fn an_account_resolves_the_same_way_every_time() {
    let assumer = RoleAssumer::new(Some(ALIASES));
    let first = assumer.resolve("account".to_owned());
    for _ in 0..3 {
        assert_eq!(assumer.resolve("account".to_owned()), first);
    }
}

#[test]
fn the_alias_file_lies_in_the_home_directory() {
    let path = RoleAssumer::alias_file_path();
    assert!(path.ends_with("/.rapture/aliases.json"));
}

#[test]
fn accounts_are_separated_by_commas() {
    assert_eq!(account_list("a,b"), vec!["a", "b"]);
    assert_eq!(account_list("arn:aws:iam::000000000000:role/x"), vec!["arn:aws:iam::000000000000:role/x"]);
    assert_eq!(account_list(""), vec![""]);
}

#[test]
fn no_filters_make_no_list() {
    assert_eq!(build_filters(&Table::new(), None), None);
}

#[test]
fn configured_filters_come_first_and_hosts_last() {
    let mut configured: Table<String> = Table::new();
    configured.insert("tag:Env".to_owned(), "prod,stage".to_owned());
    configured.insert("instance-state-name".to_owned(), "running".to_owned());
    assert_eq!(
        build_filters(&configured, Some("i-1,i-2")),
        Some(vec![
            RequestFilter {
                name: "tag:Env".to_owned(),
                values: vec!["prod".to_owned(), "stage".to_owned()],
            },
            RequestFilter {
                name: "instance-state-name".to_owned(),
                values: vec!["running".to_owned()],
            },
            RequestFilter {
                name: "instance-id".to_owned(),
                values: vec!["i-1".to_owned(), "i-2".to_owned()],
            },
        ])
    );
}

#[test]
fn a_list_of_hosts_alone_is_a_filter() {
    assert_eq!(
        build_filters(&Table::new(), Some("")),
        Some(vec![RequestFilter { name: "instance-id".to_owned(), values: vec!["".to_owned()] }])
    );
}

#[test]
fn a_host_is_listed_if_wanted_and_not_unwanted() {
    assert_eq!(admission(Some(true), Some(false)), Ok(true));
    assert_eq!(admission(Some(true), Some(true)), Ok(false));
    assert_eq!(admission(Some(false), Some(false)), Ok(false));
    assert_eq!(admission(Some(false), Some(true)), Ok(false));
}

#[test]
fn a_search_that_could_not_be_made_is_a_configuration_error() {
    assert_eq!(admission(None, Some(false)), Err(InventoryError::Config));
    assert_eq!(admission(Some(true), None), Err(InventoryError::Config));
    assert_eq!(admission(None, None), Err(InventoryError::Config));
}

#[test]
fn the_default_patterns_list_every_host_with_a_name() {
    let config = Configuration {
        cache_path: None,
        cache_max_age: None,
        ec2: Ec2Configuration {
            regions: None,
            all_instances: None,
            destination_variable: None,
            vpc_destination_variable: None,
            instance_filters: None,
            include_filter: None,
            exclude_filter: None,
        },
    };
    let filter = HostFilter::from_config(&config);
    assert_eq!(filter.admits("10.0.0.1"), Ok(true));
    assert_eq!(filter.admits("ip-10-0-0-1.ec2.internal"), Ok(true));
    assert_eq!(filter.admits(""), Ok(false));
}

#[test]
fn patterns_are_regular_expressions() {
    let filter = HostFilter { wanted: "^web-\\d+$".to_owned(), unwanted: "-9$".to_owned() };
    assert_eq!(filter.admits("web-12"), Ok(true));
    assert_eq!(filter.admits("web-9"), Ok(false));
    assert_eq!(filter.admits("db-12"), Ok(false));
    assert_eq!(filter.admits("web-"), Ok(false));
}

#[test]
fn a_broken_pattern_is_a_configuration_error() {
    let unwanted = HostFilter { wanted: ".*".to_owned(), unwanted: "[".to_owned() };
    assert_eq!(unwanted.admits("host"), Err(InventoryError::Config));
    assert_eq!(unwanted.admits(""), Err(InventoryError::Config));
    let wanted = HostFilter { wanted: "(".to_owned(), unwanted: "^$".to_owned() };
    assert_eq!(wanted.admits("host"), Err(InventoryError::Config));
}

#[test]
fn branch_failures_do_not_end_the_run() {
    assert!(!InventoryError::Auth.is_fatal());
    assert!(!InventoryError::Provider.is_fatal());
    assert!(InventoryError::Config.is_fatal());
    assert!(InventoryError::Path.is_fatal());
    assert!(InventoryError::NoCacheData.is_fatal());
    assert!(InventoryError::Serialization.is_fatal());
}

#[test]
fn every_failure_has_its_message() {
    assert_eq!(InventoryError::Path.message(), "Can't find root path!");
    assert_eq!(InventoryError::NoCacheData.message(), "No cache data!");
    assert_eq!(InventoryError::Provider.message(), "Failed to describe instances!");
    assert_eq!(InventoryError::Config.message(), "The configuration is missing or invalid!");
    assert_eq!(InventoryError::Auth.message(), "Failed to get credentials for an account!");
    assert_eq!(
        InventoryError::Serialization.message(),
        "Failed to render the inventory as JSON!"
    );
}
