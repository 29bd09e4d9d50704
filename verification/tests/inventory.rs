use ec2_rs::collector::{
    collect_groups, collect_hosts, gather_groups, gather_hosts, list_instance, record_if_admitted,
    AccountScan, HostRecord,
};
use ec2_rs::config::{Configuration, Ec2Configuration};
use ec2_rs::errors::InventoryError;
use ec2_rs::instance::{GroupIdentifier, Instance, InstanceState, Reservation, Tag};
use ec2_rs::inventory::{assemble, build_inventory, Member};
use ec2_rs::pattern::HostFilter;
use ec2_rs::table::Table;

fn config(wanted: Option<&str>, unwanted: Option<&str>) -> Configuration {
    Configuration {
        cache_path: None,
        cache_max_age: None,
        ec2: Ec2Configuration {
            regions: Some(vec!["us-east-1".to_owned()]),
            all_instances: None,
            destination_variable: None,
            vpc_destination_variable: None,
            instance_filters: None,
            include_filter: wanted.map(|s| s.to_owned()),
            exclude_filter: unwanted.map(|s| s.to_owned()),
        },
    }
}

fn running(address: &str) -> Instance {
    Instance {
        instance_id: Some(format!("i-{}", address)),
        instance_type: Some("m3.medium".to_owned()),
        private_ip_address: Some(address.to_owned()),
        private_dns_name: Some(format!("ip-{}.internal", address)),
        security_groups: Some(vec![
            GroupIdentifier { group_id: Some("sg-1".to_owned()), group_name: Some("default".to_owned()) },
            GroupIdentifier { group_id: Some("sg-2".to_owned()), group_name: Some("web".to_owned()) },
        ]),
        state: Some(InstanceState { code: Some(16), name: Some("running".to_owned()) }),
        subnet_id: Some("subnet-1".to_owned()),
        tags: Some(vec![Tag { key: Some("Role".to_owned()), value: Some("Web".to_owned()) }]),
        ..Instance::default()
    }
}

fn stopped(address: &str) -> Instance {
    Instance {
        state: Some(InstanceState { code: Some(80), name: Some("stopped".to_owned()) }),
        ..running(address)
    }
}

fn answer(instances: Vec<Instance>) -> Result<Option<Vec<Reservation>>, InventoryError> {
    Ok(Some(vec![Reservation { instances: Some(instances) }]))
}

fn hosts(document: &Table<Member>, group: &str) -> Vec<String> {
    match document.get(group) {
        Some(Member::Hosts(hosts)) => hosts.clone(),
        other => panic!("{} is no group: {:?}", group, other),
    }
}

fn host_vars(document: &Table<Member>) -> &Table<Table<String>> {
    match document.get("_meta") {
        Some(Member::Meta(meta)) => {
            assert_eq!(meta.len(), 1);
            meta.get("hostvars").expect("_meta holds the host variables")
        }
        other => panic!("_meta holds no host variables: {:?}", other),
    }
}

#[test]
fn one_account_one_region_one_running_instance() {
    let settings = config(None, None);
    let filter = HostFilter::from_config(&settings);
    let records = collect_groups(&settings, &filter, &answer(vec![running("10.0.0.1")]), "insops")
        .expect("the default patterns compile");
    assert_eq!(records.len(), 1);
    let document = build_inventory(records);
    let vars = host_vars(&document);
    assert_eq!(vars.len(), 1);
    let entry = vars.get("10.0.0.1").expect("the host has its fields");
    assert_eq!(entry.get("ec2_security_group_names").map(|v| v.as_str()), Some("default,web"));
    assert_eq!(entry.get("ec2_tag_role").map(|v| v.as_str()), Some("web"));
    assert_eq!(entry.get("ec2_account_value").map(|v| v.as_str()), Some("insops"));
    for group in [
        "type_m3.medium",
        "security_group_default",
        "security_group_web",
        "tag_role=web",
        "i-10.0.0.1",
        "ec2",
    ] {
        assert_eq!(hosts(&document, group), vec!["10.0.0.1"]);
    }
    assert_eq!(document.len(), 7);
}

#[test]
fn the_field_of_a_tag_is_no_group() {
    let settings = config(None, None);
    let filter = HostFilter::from_config(&settings);
    let records =
        collect_groups(&settings, &filter, &answer(vec![running("10.0.0.1")]), "insops").unwrap();
    let document = build_inventory(records);
    assert!(document.get("ec2_tag_role").is_none());
}

#[test]
fn instances_that_are_not_running_are_passed_over() {
    let settings = config(None, None);
    let filter = HostFilter::from_config(&settings);
    let response = answer(vec![stopped("10.0.0.1"), running("10.0.0.2"), Instance::default()]);
    let records = collect_groups(&settings, &filter, &response, "acct").unwrap();
    assert_eq!(records.len(), 1);
    assert_eq!(records[0].dest, "10.0.0.2");
    let entries = collect_hosts(&settings, &response, "acct");
    assert_eq!(entries.len(), 1);
    assert_eq!(entries[0].get("ec2_id").map(|v| v.as_str()), Some("i-10.0.0.2"));
}

#[test]
fn hosts_listed_one_by_one_need_no_name() {
    let settings = config(None, None);
    let mut nameless = running("10.0.0.3");
    nameless.private_ip_address = None;
    let response = answer(vec![nameless]);
    assert_eq!(collect_hosts(&settings, &response, "acct").len(), 1);
    let filter = HostFilter::from_config(&settings);
    assert_eq!(collect_groups(&settings, &filter, &response, "acct").unwrap().len(), 0);
}

#[test]
fn a_failed_call_counts_as_an_empty_answer() {
    let settings = config(None, None);
    let filter = HostFilter::from_config(&settings);
    let failed = Err(InventoryError::Provider);
    assert_eq!(collect_groups(&settings, &filter, &failed, "acct").unwrap().len(), 0);
    assert_eq!(collect_hosts(&settings, &failed, "acct").len(), 0);
    let empty = Ok(None);
    assert_eq!(collect_groups(&settings, &filter, &empty, "acct").unwrap().len(), 0);
    assert_eq!(collect_hosts(&settings, &empty, "acct").len(), 0);
    let hollow = Ok(Some(vec![Reservation { instances: None }]));
    assert_eq!(collect_groups(&settings, &filter, &hollow, "acct").unwrap().len(), 0);
    assert_eq!(collect_hosts(&settings, &hollow, "acct").len(), 0);
}

#[test]
fn reservations_are_gone_through_in_order() {
    let settings = config(None, None);
    let filter = HostFilter::from_config(&settings);
    let response = Ok(Some(vec![
        Reservation { instances: Some(vec![running("10.0.0.1"), running("10.0.0.2")]) },
        Reservation { instances: None },
        Reservation { instances: Some(vec![running("10.0.0.3")]) },
    ]));
    let records = collect_groups(&settings, &filter, &response, "acct").unwrap();
    let names: Vec<&str> = records.iter().map(|record| record.dest.as_str()).collect();
    assert_eq!(names, vec!["10.0.0.1", "10.0.0.2", "10.0.0.3"]);
}

#[test]
fn the_patterns_decide_by_the_name_of_the_host() {
    let settings = config(Some("^10\\.0\\.0\\."), Some("\\.2$"));
    let filter = HostFilter::from_config(&settings);
    let response = answer(vec![running("10.0.0.1"), running("10.0.0.2"), running("10.1.0.3")]);
    let records = collect_groups(&settings, &filter, &response, "acct").unwrap();
    assert_eq!(records.len(), 1);
    assert_eq!(records[0].dest, "10.0.0.1");
}

#[test]
fn a_pattern_that_does_not_compile_is_a_configuration_error() {
    let settings = config(Some("("), None);
    let filter = HostFilter::from_config(&settings);
    let response = answer(vec![running("10.0.0.1")]);
    assert_eq!(
        collect_groups(&settings, &filter, &response, "acct").err(),
        Some(InventoryError::Config)
    );
    assert_eq!(
        list_instance(&settings, &filter, &running("10.0.0.1"), "acct").err(),
        Some(InventoryError::Config)
    );
    assert!(list_instance(&settings, &filter, &stopped("10.0.0.1"), "acct").unwrap().is_none());
    assert_eq!(collect_groups(&settings, &filter, &answer(Vec::new()), "acct").unwrap().len(), 0);
}

#[test]
fn groups_list_their_hosts_in_the_order_of_the_records() {
    let settings = config(None, None);
    let filter = HostFilter::from_config(&settings);
    let mut records = Vec::new();
    for address in ["10.0.0.3", "10.0.0.1", "10.0.0.2"] {
        let response = answer(vec![running(address)]);
        records.append(&mut collect_groups(&settings, &filter, &response, "acct").unwrap());
    }
    let document = build_inventory(records);
    assert_eq!(hosts(&document, "ec2"), vec!["10.0.0.3", "10.0.0.1", "10.0.0.2"]);
    assert_eq!(hosts(&document, "type_m3.medium"), vec!["10.0.0.3", "10.0.0.1", "10.0.0.2"]);
    assert_eq!(hosts(&document, "i-10.0.0.1"), vec!["10.0.0.1"]);
    assert_eq!(host_vars(&document).len(), 3);
}

#[test]
fn of_two_hosts_with_one_name_the_later_keeps_its_fields() {
    let settings = config(None, None);
    let filter = HostFilter::from_config(&settings);
    let first = collect_groups(&settings, &filter, &answer(vec![running("10.0.0.1")]), "one");
    let second = collect_groups(&settings, &filter, &answer(vec![running("10.0.0.1")]), "two");
    let mut records = first.unwrap();
    records.append(&mut second.unwrap());
    let document = build_inventory(records);
    let vars = host_vars(&document);
    assert_eq!(vars.len(), 1);
    let entry = vars.get("10.0.0.1").unwrap();
    assert_eq!(entry.get("ec2_account_value").map(|v| v.as_str()), Some("two"));
    assert_eq!(hosts(&document, "ec2"), vec!["10.0.0.1", "10.0.0.1"]);
}

#[test]
fn an_empty_scan_still_gives_a_document() {
    let document = build_inventory(Vec::new());
    assert_eq!(document.len(), 1);
    assert_eq!(host_vars(&document).len(), 0);
}

#[test]
fn a_group_called_meta_takes_the_place_of_the_host_variables() {
    let mut groups: Table<Vec<String>> = Table::new();
    groups.insert("_meta".to_owned(), vec!["h".to_owned()]);
    groups.insert("ec2".to_owned(), vec!["h".to_owned()]);
    let document = assemble(Table::new(), &groups);
    assert_eq!(document.len(), 2);
    assert_eq!(hosts(&document, "_meta"), vec!["h"]);
    assert_eq!(hosts(&document, "ec2"), vec!["h"]);
}

#[test]
fn a_record_can_be_made_by_hand() {
    let mut groups: Table<String> = Table::new();
    groups.insert("ec2".to_owned(), "h".to_owned());
    let record = HostRecord { dest: "h".to_owned(), entry: Table::new(), groups };
    let document = build_inventory(vec![record]);
    assert_eq!(hosts(&document, "ec2"), vec!["h"]);
    assert_eq!(host_vars(&document).get("h").map(|entry| entry.len()), Some(0));
}

#[test]
fn a_scan_is_gathered_account_by_account_and_region_by_region() {
    let settings = config(None, None);
    let filter = HostFilter::from_config(&settings);
    let scans = vec![
        AccountScan {
            account: "one".to_owned(),
            regions: Ok(vec![answer(vec![running("10.0.0.1")]), answer(vec![running("10.0.0.2")])]),
        },
        AccountScan { account: "two".to_owned(), regions: Ok(vec![answer(vec![running("10.0.1.1")])]) },
    ];
    let records = gather_groups(&settings, &filter, &scans).unwrap();
    let names: Vec<&str> = records.iter().map(|record| record.dest.as_str()).collect();
    assert_eq!(names, vec!["10.0.0.1", "10.0.0.2", "10.0.1.1"]);
    let accounts: Vec<Option<&str>> = records
        .iter()
        .map(|record| record.entry.get("ec2_account_value").map(|v| v.as_str()))
        .collect();
    assert_eq!(accounts, vec![Some("one"), Some("one"), Some("two")]);
    let entries = gather_hosts(&settings, &scans);
    let ids: Vec<Option<&str>> =
        entries.iter().map(|entry| entry.get("ec2_id").map(|v| v.as_str())).collect();
    assert_eq!(ids, vec![Some("i-10.0.0.1"), Some("i-10.0.0.2"), Some("i-10.0.1.1")]);
}

#[test]
fn an_account_without_credentials_empties_only_its_own_branch() {
    let settings = config(None, None);
    let filter = HostFilter::from_config(&settings);
    let scans = vec![
        AccountScan { account: "denied".to_owned(), regions: Err(InventoryError::Auth) },
        AccountScan { account: "two".to_owned(), regions: Ok(vec![answer(vec![running("10.0.1.1")])]) },
        AccountScan { account: "gone".to_owned(), regions: Err(InventoryError::Auth) },
    ];
    let records = gather_groups(&settings, &filter, &scans).unwrap();
    assert_eq!(records.len(), 1);
    assert_eq!(records[0].dest, "10.0.1.1");
    assert_eq!(gather_hosts(&settings, &scans).len(), 1);
}

#[test]
fn a_region_that_failed_empties_only_its_own_branch() {
    let settings = config(None, None);
    let filter = HostFilter::from_config(&settings);
    let scans = vec![AccountScan {
        account: "one".to_owned(),
        regions: Ok(vec![
            Err(InventoryError::Provider),
            answer(vec![running("10.0.0.2")]),
            Err(InventoryError::Provider),
        ]),
    }];
    let records = gather_groups(&settings, &filter, &scans).unwrap();
    assert_eq!(records.len(), 1);
    assert_eq!(records[0].dest, "10.0.0.2");
    assert_eq!(gather_hosts(&settings, &scans).len(), 1);
}

#[test]
fn a_scan_in_which_everything_failed_is_still_a_document() {
    let settings = config(None, None);
    let filter = HostFilter::from_config(&settings);
    let scans = vec![
        AccountScan { account: "a".to_owned(), regions: Err(InventoryError::Auth) },
        AccountScan { account: "b".to_owned(), regions: Ok(vec![Err(InventoryError::Provider)]) },
    ];
    let document = build_inventory(gather_groups(&settings, &filter, &scans).unwrap());
    assert_eq!(document.len(), 1);
    assert_eq!(host_vars(&document).len(), 0);
    assert!(gather_hosts(&settings, &scans).is_empty());
}

#[test]
fn what_the_patterns_said_decides_about_the_record() {
    let instance = running("10.0.0.1");
    let listed = record_if_admitted(&instance, "10.0.0.1", "acct", Ok(true)).unwrap().unwrap();
    assert_eq!(listed.dest, "10.0.0.1");
    assert_eq!(listed.entry.get("ec2_account_value").map(|v| v.as_str()), Some("acct"));
    assert_eq!(listed.groups.get("ec2").map(|v| v.as_str()), Some("10.0.0.1"));
    assert!(record_if_admitted(&instance, "10.0.0.1", "acct", Ok(false)).unwrap().is_none());
    assert_eq!(
        record_if_admitted(&instance, "10.0.0.1", "acct", Err(InventoryError::Config)).err(),
        Some(InventoryError::Config)
    );
}
