//! The include and exclude patterns that decide which hosts are listed.

use crate::config::Configuration;
use crate::errors::InventoryError;
use vstd::prelude::*;

verus! {

/// Whether `pattern` is a regular expression that the `regex` crate
/// compiles: one that it can parse and that stays within its size limit.
pub uninterp spec fn regex_compiles(pattern: Seq<char>) -> bool;

/// Whether the regular expression `pattern` matches somewhere in `text`, as
/// the `regex` crate decides it. Defined for the patterns it can compile.
pub uninterp spec fn regex_is_match(pattern: Seq<char>, text: Seq<char>) -> bool;

/// Compiles `pattern` with `regex::Regex::new` and searches `text` with
/// `Regex::is_match`. `None` means that the pattern did not compile. The
/// contract gives both answers their names: whether the pattern compiles,
/// and, where it does, whether it matches.
#[verifier::external_body]
pub(crate) fn search(pattern: &str, text: &str) -> (r: Option<bool>)
    ensures
        r is Some <==> regex_compiles(pattern@),
        r matches Some(found) ==> found == regex_is_match(pattern@, text@),
{
    match regex::Regex::new(pattern) {
        Ok(compiled) => Some(compiled.is_match(text)),
        Err(_) => None,
    }
}

/// Whether both patterns compile, so that hosts can be tried on them.
pub open spec fn patterns_compile(wanted: Seq<char>, unwanted: Seq<char>) -> bool {
    regex_compiles(wanted) && regex_compiles(unwanted)
}

/// Whether a host named `name` is listed under these two patterns: it has to
/// match the first and must not match the second.
pub open spec fn admits_name(wanted: Seq<char>, unwanted: Seq<char>, name: Seq<char>) -> bool {
    regex_is_match(wanted, name) && !regex_is_match(unwanted, name)
}

/// What two searches say together. A search that could not be made, because
/// its pattern did not compile, is an error of the configuration; otherwise
/// the host is listed when the include pattern matched and the exclude
/// pattern did not.
pub fn admission(included: Option<bool>, excluded: Option<bool>) -> (r: Result<
    bool,
    InventoryError,
>)
    ensures
        r == match (included, excluded) {
            (Some(i), Some(e)) => Ok::<bool, InventoryError>(i && !e),
            _ => Err::<bool, InventoryError>(InventoryError::Config),
        },
{
    match (included, excluded) {
        (Some(i), Some(e)) => Ok(i && !e),
        _ => Err(InventoryError::Config),
    }
}

/// The two patterns of a scan.
#[derive(Clone, Debug, PartialEq, Eq)]
pub struct HostFilter {
    /// A host is listed only if its name matches this pattern.
    pub wanted: String,
    /// A host is left out if its name matches this pattern.
    pub unwanted: String,
}

impl HostFilter {
    /// The patterns that `config` sets, or the defaults: include everything,
    /// exclude only the empty name.
    pub fn from_config(config: &Configuration) -> (r: HostFilter)
        ensures
            r.wanted@ == config.ec2.include_filter_text(),
            r.unwanted@ == config.ec2.exclude_filter_text(),
    {
        HostFilter {
            wanted: config.ec2.get_include_filter(),
            unwanted: config.ec2.get_exclude_filter(),
        }
    }

    /// Decides whether a host named `name` is listed. Fails exactly when
    /// one of the patterns does not compile.
    pub fn admits(&self, name: &str) -> (r: Result<bool, InventoryError>)
        ensures
            r is Ok <==> patterns_compile(self.wanted@, self.unwanted@),
            r matches Ok(listed) ==> listed == admits_name(self.wanted@, self.unwanted@, name@),
            r matches Err(e) ==> e == InventoryError::Config,
    {
        let included = search(self.wanted.as_str(), name);
        let excluded = search(self.unwanted.as_str(), name);
        admission(included, excluded)
    }
}

} // verus!
