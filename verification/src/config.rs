//! The settings of a scan. Every setting is optional and has a default.

use crate::table::Table;
use crate::text::clone_texts;
use vstd::prelude::*;

verus! {

/// The settings that do not concern the provider: where the cache lives and
/// how long it stays fresh.
#[derive(Debug)]
pub struct Configuration {
    /// The directory of the cache files. Defaults to `~/.ansible/tmp`.
    pub cache_path: Option<String>,
    /// The age in seconds up to which a cache file is fresh. Defaults to 300.
    pub cache_max_age: Option<u64>,
    /// The settings of the scan itself.
    pub ec2: Ec2Configuration,
}

/// The settings of the scan.
#[derive(Debug)]
pub struct Ec2Configuration {
    /// The regions to scan. Defaults to `default_regions()`.
    pub regions: Option<Vec<String>>,
    /// Whether instances that are not running are listed too. Defaults to
    /// `false`.
    pub all_instances: Option<bool>,
    /// The attribute that names a host outside a virtual network. Defaults
    /// to `private_dns_name`.
    pub destination_variable: Option<String>,
    /// The attribute that names a host inside a virtual network. Defaults to
    /// `private_ip_address`.
    pub vpc_destination_variable: Option<String>,
    /// Filters handed to the provider: a name and a comma-separated list of
    /// values each. Defaults to none.
    pub instance_filters: Option<Table<String>>,
    /// Only hosts whose name matches this pattern are listed. Defaults to
    /// `.*`.
    pub include_filter: Option<String>,
    /// Hosts whose name matches this pattern are left out. Defaults to `^$`.
    pub exclude_filter: Option<String>,
}

/// The regions that are scanned when none are configured.
pub open spec fn default_regions() -> Seq<Seq<char>> {
    seq![
        "us-east-1"@,
        "us-east-2"@,
        "us-west-1"@,
        "us-west-2"@,
        "eu-west-1"@,
        "eu-central-1"@,
        "ap-southeast-1"@,
        "ap-southeast-2"@,
        "ca-central-1"@,
    ]
}

/// The text of an optional setting, or its default.
pub open spec fn text_or(setting: Option<String>, default: Seq<char>) -> Seq<char> {
    match setting {
        Some(s) => s@,
        None => default,
    }
}

fn setting_or(setting: &Option<String>, default: &str) -> (r: String)
    ensures
        r@ == text_or(*setting, default@),
{
    match setting {
        Some(s) => s.clone(),
        None => default.to_owned(),
    }
}

impl Configuration {
    /// The directory of the cache files, as configured or by default.
    pub open spec fn cache_path_text(&self) -> Seq<char> {
        text_or(self.cache_path, "~/.ansible/tmp"@)
    }

    /// The maximum age of the cache in seconds, as configured or by default.
    pub open spec fn cache_max_age_value(&self) -> u64 {
        match self.cache_max_age {
            Some(age) => age,
            None => 300,
        }
    }

    /// The directory in which cache files are kept.
    pub fn get_cache_path(&self) -> (r: String)
        ensures
            r@ == self.cache_path_text(),
    {
        setting_or(&self.cache_path, "~/.ansible/tmp")
    }

    /// The age in seconds up to which a cache file is fresh.
    pub fn get_cache_max_age(&self) -> (r: u64)
        ensures
            r == self.cache_max_age_value(),
    {
        match self.cache_max_age {
            Some(age) => age,
            None => 300,
        }
    }
}

impl Ec2Configuration {
    /// The regions to scan, as configured or by default.
    pub open spec fn regions_list(&self) -> Seq<Seq<char>> {
        match self.regions {
            Some(r) => r.deep_view(),
            None => default_regions(),
        }
    }

    /// The attribute that names a host outside a virtual network.
    pub open spec fn dest_variable_text(&self) -> Seq<char> {
        text_or(self.destination_variable, "private_dns_name"@)
    }

    /// The attribute that names a host inside a virtual network.
    pub open spec fn vpc_dest_variable_text(&self) -> Seq<char> {
        text_or(self.vpc_destination_variable, "private_ip_address"@)
    }

    /// Whether instances in every state are listed.
    pub open spec fn all_instances_value(&self) -> bool {
        match self.all_instances {
            Some(b) => b,
            None => false,
        }
    }

    /// The provider filters, as configured or none.
    pub open spec fn instance_filters_map(&self) -> Map<Seq<char>, Seq<char>> {
        match self.instance_filters {
            Some(t) => t@,
            None => Map::empty(),
        }
    }

    /// The names of the provider filters in their configured order.
    pub open spec fn instance_filter_names(&self) -> Seq<Seq<char>> {
        match self.instance_filters {
            Some(t) => t.keys(),
            None => Seq::empty(),
        }
    }

    /// The pattern a host name has to match.
    pub open spec fn include_filter_text(&self) -> Seq<char> {
        text_or(self.include_filter, ".*"@)
    }

    /// The pattern a host name must not match.
    pub open spec fn exclude_filter_text(&self) -> Seq<char> {
        text_or(self.exclude_filter, "^$"@)
    }

    /// The regions to scan.
    pub fn get_regions(&self) -> (r: Vec<String>)
        ensures
            r.deep_view() == self.regions_list(),
    {
        match &self.regions {
            Some(regions) => clone_texts(regions),
            None => {
                let mut out: Vec<String> = Vec::new();
                out.push("us-east-1".to_owned());
                out.push("us-east-2".to_owned());
                out.push("us-west-1".to_owned());
                out.push("us-west-2".to_owned());
                out.push("eu-west-1".to_owned());
                out.push("eu-central-1".to_owned());
                out.push("ap-southeast-1".to_owned());
                out.push("ap-southeast-2".to_owned());
                out.push("ca-central-1".to_owned());
                out
            },
        }
    }

    /// The attribute that names a host outside a virtual network.
    pub fn get_dest_variable(&self) -> (r: String)
        ensures
            r@ == self.dest_variable_text(),
    {
        setting_or(&self.destination_variable, "private_dns_name")
    }

    /// The attribute that names a host inside a virtual network.
    pub fn get_vpc_dest_variable(&self) -> (r: String)
        ensures
            r@ == self.vpc_dest_variable_text(),
    {
        setting_or(&self.vpc_destination_variable, "private_ip_address")
    }

    /// Whether instances in every state are listed, not only running ones.
    pub fn get_all_instances(&self) -> (r: bool)
        ensures
            r == self.all_instances_value(),
    {
        match self.all_instances {
            Some(b) => b,
            None => false,
        }
    }

    /// The filters handed to the provider, by name.
    pub fn get_instance_filters(&self) -> (r: Table<String>)
        ensures
            r@ == self.instance_filters_map(),
            r.keys() == self.instance_filter_names(),
    {
        match &self.instance_filters {
            Some(filters) => filters.duplicate(),
            None => Table::new(),
        }
    }

    /// The pattern a host name has to match to be listed.
    pub fn get_include_filter(&self) -> (r: String)
        ensures
            r@ == self.include_filter_text(),
    {
        setting_or(&self.include_filter, ".*")
    }

    /// The pattern that keeps a host out of the list when its name matches.
    pub fn get_exclude_filter(&self) -> (r: String)
        ensures
            r@ == self.exclude_filter_text(),
    {
        setting_or(&self.exclude_filter, "^$")
    }
}

} // verus!
