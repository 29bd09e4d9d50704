//! From the provider's answers to the records of the listed hosts.
//!
//! Each account and region is asked once. What comes back is gone through
//! instance by instance, and what the listed instances bring is gathered in
//! the order of the accounts and, within an account, of its regions.

use crate::config::Configuration;
use crate::ec2_utils::{
    dest_variable, format_for_host_output, get_instance_dest_variable, host_fields,
    instance_should_be_added, should_include,
};
use crate::errors::InventoryError;
use crate::groups::{group_map, group_map_of};
use crate::instance::{Instance, Reservation};
use crate::pattern::{admits_name, patterns_compile, HostFilter};
use crate::table::Table;
use vstd::prelude::*;

verus! {

/// What one listed host brings: its name, its fields and its groups.
#[derive(Debug)]
pub struct HostRecord {
    pub dest: String,
    pub entry: Table<String>,
    pub groups: Table<String>,
}

/// The model of a `HostRecord`.
pub struct HostRecordView {
    pub dest: Seq<char>,
    pub entry: Map<Seq<char>, Seq<char>>,
    pub groups: Map<Seq<char>, Seq<char>>,
}

impl DeepView for HostRecord {
    type V = HostRecordView;

    open spec fn deep_view(&self) -> HostRecordView {
        HostRecordView { dest: self.dest@, entry: self.entry@, groups: self.groups@ }
    }
}

/// What one account and region answered: the reservations, if the answer
/// holds any, or the failure of the call.
pub type Answer = Result<Option<Vec<Reservation>>, InventoryError>;

/// What the scan of one account brought: the answers of its regions, in the
/// order of the regions, or the failure to get credentials for the account.
#[derive(Debug)]
pub struct AccountScan {
    pub account: String,
    pub regions: Result<Vec<Answer>, InventoryError>,
}

/// The instances of an answer. A call that failed and an answer without
/// reservations both hold none.
pub open spec fn answered(response: Answer) -> Seq<Reservation> {
    match response {
        Ok(Some(reservations)) => reservations@,
        _ => Seq::empty(),
    }
}

/// The instances of some reservations, in their order.
pub open spec fn instances_of(reservations: Seq<Reservation>) -> Seq<Instance>
    decreases reservations.len(),
{
    if reservations.len() == 0 {
        Seq::empty()
    } else {
        let head = instances_of(reservations.drop_last());
        match reservations.last().instances {
            Some(instances) => head + instances@,
            None => head,
        }
    }
}

/// Whether `instance` gets as far as the patterns: it is in a listed state
/// and has the attribute that names it.
pub open spec fn has_name(config: &Configuration, instance: &Instance) -> bool {
    should_include(config.ec2.all_instances_value(), instance.state) && dest_variable(
        config,
        instance,
    ) is Some
}

/// Whether one of `instances` gets as far as the patterns.
pub open spec fn some_has_name(config: &Configuration, instances: Seq<Instance>) -> bool {
    exists|k: int| 0 <= k < instances.len() && has_name(config, &#[trigger] instances[k])
}

/// The name under which `instance` appears among the groups, if it does:
/// it has to be in a listed state, to have the attribute that names it, and
/// to pass the two patterns with that name.
pub open spec fn listed_name(
    config: &Configuration,
    wanted: Seq<char>,
    unwanted: Seq<char>,
    instance: &Instance,
) -> Option<Seq<char>> {
    if should_include(config.ec2.all_instances_value(), instance.state) {
        match dest_variable(config, instance) {
            Some(dest) => if admits_name(wanted, unwanted, dest) {
                Some(dest)
            } else {
                None
            },
            None => None,
        }
    } else {
        None
    }
}

/// The record of `instance` when it is listed as `dest` under `account`.
pub open spec fn record_of(
    instance: &Instance,
    dest: Seq<char>,
    account: Seq<char>,
) -> HostRecordView {
    HostRecordView {
        dest,
        entry: host_fields(instance, account),
        groups: group_map(instance, dest),
    }
}

/// A record uses one name throughout: every group of the host maps to the
/// name under which its fields are filed.
pub proof fn lemma_record_uses_one_name(instance: &Instance, dest: Seq<char>, account: Seq<char>)
    ensures
        record_of(instance, dest, account).dest == dest,
        record_of(instance, dest, account).groups.contains_key("ec2"@),
        forall|k: Seq<char>| #[trigger]
            record_of(instance, dest, account).groups.contains_key(k) ==> record_of(
                instance,
                dest,
                account,
            ).groups[k] == dest,
{
}

/// The records of those of `instances` that are listed, in their order.
pub open spec fn records_of(
    config: &Configuration,
    wanted: Seq<char>,
    unwanted: Seq<char>,
    instances: Seq<Instance>,
    account: Seq<char>,
) -> Seq<HostRecordView>
    decreases instances.len(),
{
    if instances.len() == 0 {
        Seq::empty()
    } else {
        let head = records_of(config, wanted, unwanted, instances.drop_last(), account);
        match listed_name(config, wanted, unwanted, &instances.last()) {
            Some(dest) => head.push(record_of(&instances.last(), dest, account)),
            None => head,
        }
    }
}

/// The fields of those of `instances` that are in a listed state, in their
/// order.
pub open spec fn entries_of(
    config: &Configuration,
    instances: Seq<Instance>,
    account: Seq<char>,
) -> Seq<Map<Seq<char>, Seq<char>>>
    decreases instances.len(),
{
    if instances.len() == 0 {
        Seq::empty()
    } else {
        let head = entries_of(config, instances.drop_last(), account);
        if should_include(config.ec2.all_instances_value(), instances.last().state) {
            head.push(host_fields(&instances.last(), account))
        } else {
            head
        }
    }
}

/// Going through two runs of instances one after the other gives the
/// records of the first followed by those of the second: no answer changes
/// what another brings.
pub proof fn lemma_records_of_append(
    config: &Configuration,
    wanted: Seq<char>,
    unwanted: Seq<char>,
    a: Seq<Instance>,
    b: Seq<Instance>,
    account: Seq<char>,
)
    ensures
        records_of(config, wanted, unwanted, a + b, account) == records_of(
            config,
            wanted,
            unwanted,
            a,
            account,
        ) + records_of(config, wanted, unwanted, b, account),
    decreases b.len(),
{
    if b.len() == 0 {
        assert(records_of(config, wanted, unwanted, a, account) + Seq::empty() =~= records_of(
            config,
            wanted,
            unwanted,
            a,
            account,
        ));
    } else {
        assert((a + b).drop_last() =~= a + b.drop_last());
        lemma_records_of_append(config, wanted, unwanted, a, b.drop_last(), account);
        let x = records_of(config, wanted, unwanted, a, account);
        let y = records_of(config, wanted, unwanted, b.drop_last(), account);
        match listed_name(config, wanted, unwanted, &b.last()) {
            Some(dest) => {
                assert((x + y).push(record_of(&b.last(), dest, account)) =~= x + y.push(
                    record_of(&b.last(), dest, account),
                ));
            },
            None => {},
        }
    }
}

/// The same for the fields of single hosts: two runs of instances give the
/// entries of the first followed by those of the second.
pub proof fn lemma_entries_of_append(
    config: &Configuration,
    a: Seq<Instance>,
    b: Seq<Instance>,
    account: Seq<char>,
)
    ensures
        entries_of(config, a + b, account) == entries_of(config, a, account) + entries_of(
            config,
            b,
            account,
        ),
    decreases b.len(),
{
    if b.len() == 0 {
        assert(entries_of(config, a, account) + Seq::empty() =~= entries_of(config, a, account));
    } else {
        assert((a + b).drop_last() =~= a + b.drop_last());
        lemma_entries_of_append(config, a, b.drop_last(), account);
        let x = entries_of(config, a, account);
        let y = entries_of(config, b.drop_last(), account);
        if should_include(config.ec2.all_instances_value(), b.last().state) {
            assert((x + y).push(host_fields(&b.last(), account)) =~= x + y.push(
                host_fields(&b.last(), account),
            ));
        }
    }
}

/// Makes the record of an instance that has the name `dest`, given what the
/// two patterns said of that name: a host that they do not admit gets no
/// record, and a pattern that could not be tried is handed on as the error
/// it is.
pub fn record_if_admitted(
    instance: &Instance,
    dest: &str,
    account: &str,
    admitted: Result<bool, InventoryError>,
) -> (r: Result<Option<HostRecord>, InventoryError>)
    ensures
        match admitted {
            Ok(true) => r matches Ok(Some(record)) && record.deep_view() == record_of(
                instance,
                dest@,
                account@,
            ),
            Ok(false) => r matches Ok(None),
            Err(e) => r matches Err(f) && f == e,
        },
{
    match admitted {
        Err(e) => Err(e),
        Ok(false) => Ok(None),
        Ok(true) => Ok(
            Some(
                HostRecord {
                    dest: dest.to_owned(),
                    entry: format_for_host_output(instance, account),
                    groups: group_map_of(instance, dest),
                },
            ),
        ),
    }
}

/// Decides about one instance when hosts are listed by group. An instance
/// that is not in a listed state, or that lacks the attribute that would
/// name it, is passed over before any pattern is tried. Fails exactly when
/// the instance gets as far as the patterns and one of them does not
/// compile.
pub fn list_instance(
    config: &Configuration,
    filter: &HostFilter,
    instance: &Instance,
    account: &str,
) -> (r: Result<Option<HostRecord>, InventoryError>)
    ensures
        r matches Ok(record) ==> record.deep_view() == match listed_name(
            config,
            filter.wanted@,
            filter.unwanted@,
            instance,
        ) {
            Some(dest) => Some(record_of(instance, dest, account@)),
            None => None,
        },
        r matches Err(e) ==> e == InventoryError::Config,
        r is Err <==> has_name(config, instance) && !patterns_compile(
            filter.wanted@,
            filter.unwanted@,
        ),
{
    if !instance_should_be_added(config, instance) {
        return Ok(None);
    }
    let dest = match get_instance_dest_variable(config, instance) {
        Some(dest) => dest,
        None => {
            return Ok(None);
        },
    };
    record_if_admitted(instance, dest.as_str(), account, filter.admits(dest.as_str()))
}

/// Goes through one answer of the provider when hosts are listed by group,
/// and returns the records of the listed instances in the order of the
/// answer. A failed call counts as an answer without instances. Fails
/// exactly when an instance gets as far as the patterns and one of them does
/// not compile.
pub fn collect_groups(
    config: &Configuration,
    filter: &HostFilter,
    response: &Answer,
    account: &str,
) -> (r: Result<Vec<HostRecord>, InventoryError>)
    ensures
        r matches Ok(records) ==> records.deep_view() == records_of(
            config,
            filter.wanted@,
            filter.unwanted@,
            instances_of(answered(*response)),
            account@,
        ),
        r matches Err(e) ==> e == InventoryError::Config,
        r is Err <==> some_has_name(config, instances_of(answered(*response)))
            && !patterns_compile(filter.wanted@, filter.unwanted@),
{
    let mut out: Vec<HostRecord> = Vec::new();
    let reservations = match response {
        Ok(Some(reservations)) => reservations,
        _ => {
            return Ok(out);
        },
    };
    let ghost wanted = filter.wanted@;
    let ghost unwanted = filter.unwanted@;
    let mut i: usize = 0;
    while i < reservations.len()
        invariant
            i <= reservations.len(),
            wanted == filter.wanted@,
            unwanted == filter.unwanted@,
            reservations@ == answered(*response),
            !patterns_compile(wanted, unwanted) ==> !some_has_name(
                config,
                instances_of(reservations@.take(i as int)),
            ),
            out.deep_view() == records_of(
                config,
                wanted,
                unwanted,
                instances_of(reservations@.take(i as int)),
                account@,
            ),
        decreases reservations.len() - i,
    {
        let ghost done = instances_of(reservations@.take(i as int));
        assert(reservations@.take(i + 1).drop_last() == reservations@.take(i as int));
        match &reservations[i].instances {
            None => {},
            Some(instances) => {
                let mut j: usize = 0;
                assert(done + instances@.take(0) =~= done);
                while j < instances.len()
                    invariant
                        j <= instances.len(),
                        i < reservations.len(),
                        reservations@[i as int].instances == Some(*instances),
                        reservations@ == answered(*response),
                        wanted == filter.wanted@,
                        unwanted == filter.unwanted@,
                        !patterns_compile(wanted, unwanted) ==> !some_has_name(
                            config,
                            done + instances@.take(j as int),
                        ),
                        out.deep_view() == records_of(
                            config,
                            wanted,
                            unwanted,
                            done + instances@.take(j as int),
                            account@,
                        ),
                    decreases instances.len() - j,
                {
                    let ghost upto = done + instances@.take(j as int);
                    let ghost next = done + instances@.take(j + 1);
                    assert(next.drop_last() =~= upto);
                    match list_instance(config, filter, &instances[j], account) {
                        Err(e) => {
                            proof {
                                lemma_instance_is_among(reservations@, i as int, j as int);
                            }
                            return Err(e);
                        },
                        Ok(None) => {},
                        Ok(Some(record)) => {
                            out.push(record);
                        },
                    }
                    proof {
                        if !patterns_compile(wanted, unwanted) {
                            lemma_no_name_extends(config, next);
                        }
                    }
                    j += 1;
                }
                assert(instances@.take(instances.len() as int) =~= instances@);
            },
        }
        i += 1;
    }
    assert(reservations@.take(reservations.len() as int) =~= reservations@);
    Ok(out)
}

/// Where no instance but the last could have a name, and the last has none
/// either, none has.
proof fn lemma_no_name_extends(config: &Configuration, instances: Seq<Instance>)
    requires
        instances.len() > 0,
        !some_has_name(config, instances.drop_last()),
        !has_name(config, &instances.last()),
    ensures
        !some_has_name(config, instances),
{
    if some_has_name(config, instances) {
        let k = choose|k: int|
            0 <= k < instances.len() && has_name(config, &#[trigger] instances[k]);
        if k < instances.len() - 1 {
            assert(has_name(config, &instances.drop_last()[k]));
        }
    }
}

/// Every instance of every reservation is among the instances of the
/// reservations.
pub proof fn lemma_instance_is_among(reservations: Seq<Reservation>, i: int, j: int)
    requires
        0 <= i < reservations.len(),
        reservations[i].instances matches Some(instances) && 0 <= j < instances@.len(),
    ensures
        exists|k: int|
            0 <= k < instances_of(reservations).len() && #[trigger] instances_of(reservations)[k]
                == reservations[i].instances->0@[j],
    decreases reservations.len(),
{
    let head = instances_of(reservations.drop_last());
    if i < reservations.len() - 1 {
        lemma_instance_is_among(reservations.drop_last(), i, j);
        let k = choose|k: int|
            0 <= k < head.len() && #[trigger] head[k]
                == reservations.drop_last()[i].instances->0@[j];
        assert(instances_of(reservations)[k] == head[k]);
    } else {
        assert(instances_of(reservations)[head.len() + j] == reservations[i].instances->0@[j]);
    }
}

/// Goes through one answer of the provider when hosts are listed one by
/// one, and returns the fields of every instance in a listed state, in the
/// order of the answer. A failed call counts as an answer without
/// instances.
pub fn collect_hosts(
    config: &Configuration,
    response: &Answer,
    account: &str,
) -> (r: Vec<Table<String>>)
    ensures
        r.deep_view() == entries_of(config, instances_of(answered(*response)), account@),
{
    let mut out: Vec<Table<String>> = Vec::new();
    let reservations = match response {
        Ok(Some(reservations)) => reservations,
        _ => {
            return out;
        },
    };
    let mut i: usize = 0;
    while i < reservations.len()
        invariant
            i <= reservations.len(),
            out.deep_view() == entries_of(
                config,
                instances_of(reservations@.take(i as int)),
                account@,
            ),
        decreases reservations.len() - i,
    {
        let ghost done = instances_of(reservations@.take(i as int));
        assert(reservations@.take(i + 1).drop_last() == reservations@.take(i as int));
        match &reservations[i].instances {
            None => {},
            Some(instances) => {
                let mut j: usize = 0;
                while j < instances.len()
                    invariant
                        j <= instances.len(),
                        out.deep_view() == entries_of(
                            config,
                            done + instances@.take(j as int),
                            account@,
                        ),
                    decreases instances.len() - j,
                {
                    let ghost upto = done + instances@.take(j as int);
                    let ghost next = done + instances@.take(j + 1);
                    assert(next.drop_last() =~= upto);
                    if instance_should_be_added(config, &instances[j]) {
                        let entry = format_for_host_output(&instances[j], account);
                        out.push(entry);
                    }
                    j += 1;
                }
                assert(instances@.take(instances.len() as int) =~= instances@);
            },
        }
        i += 1;
    }
    assert(reservations@.take(reservations.len() as int) =~= reservations@);
    out
}

/// Whether an instance of one of `scans` gets as far as the patterns.
pub open spec fn scans_have_name(config: &Configuration, scans: Seq<AccountScan>) -> bool {
    exists|i: int, j: int|
        0 <= i < scans.len() && 0 <= j < answers_of(scans[i]).len() && some_has_name(
            config,
            instances_of(answered(#[trigger] answers_of(scans[i])[j])),
        )
}

/// Where no scan but the last has an instance with a name, and no answer
/// of the last has one either, none has.
proof fn lemma_no_scan_has_name(config: &Configuration, scans: Seq<AccountScan>)
    requires
        scans.len() > 0,
        !scans_have_name(config, scans.drop_last()),
        forall|b: int|
            0 <= b < answers_of(scans.last()).len() ==> !some_has_name(
                config,
                instances_of(answered(#[trigger] answers_of(scans.last())[b])),
            ),
    ensures
        !scans_have_name(config, scans),
{
    if scans_have_name(config, scans) {
        let (i, j) = choose|i: int, j: int|
            0 <= i < scans.len() && 0 <= j < answers_of(scans[i]).len() && some_has_name(
                config,
                instances_of(answered(#[trigger] answers_of(scans[i])[j])),
            );
        if i < scans.len() - 1 {
            let head = scans.drop_last();
            assert(head[i] == scans[i]);
            assert(some_has_name(config, instances_of(answered(answers_of(head[i])[j]))));
        } else {
            assert(scans[i] == scans.last());
            assert(!some_has_name(
                config,
                instances_of(answered(answers_of(scans.last())[j])),
            ));
        }
    }
}

/// The answers of an account. An account for which no credentials could be
/// had has none.
pub open spec fn answers_of(scan: AccountScan) -> Seq<Answer> {
    match scan.regions {
        Ok(answers) => answers@,
        Err(_) => Seq::empty(),
    }
}

/// The records of the listed instances of some answers of one account, in
/// the order of the answers.
pub open spec fn records_of_answers(
    config: &Configuration,
    wanted: Seq<char>,
    unwanted: Seq<char>,
    answers: Seq<Answer>,
    account: Seq<char>,
) -> Seq<HostRecordView>
    decreases answers.len(),
{
    if answers.len() == 0 {
        Seq::empty()
    } else {
        records_of_answers(config, wanted, unwanted, answers.drop_last(), account) + records_of(
            config,
            wanted,
            unwanted,
            instances_of(answered(answers.last())),
            account,
        )
    }
}

/// The records of the listed instances of some accounts, in the order of
/// the accounts. Each account brings its own records, whatever became of
/// the others.
pub open spec fn records_of_scans(
    config: &Configuration,
    wanted: Seq<char>,
    unwanted: Seq<char>,
    scans: Seq<AccountScan>,
) -> Seq<HostRecordView>
    decreases scans.len(),
{
    if scans.len() == 0 {
        Seq::empty()
    } else {
        records_of_scans(config, wanted, unwanted, scans.drop_last()) + records_of_answers(
            config,
            wanted,
            unwanted,
            answers_of(scans.last()),
            scans.last().account@,
        )
    }
}

/// The fields of the hosts of some answers of one account, in the order of
/// the answers.
pub open spec fn entries_of_answers(
    config: &Configuration,
    answers: Seq<Answer>,
    account: Seq<char>,
) -> Seq<Map<Seq<char>, Seq<char>>>
    decreases answers.len(),
{
    if answers.len() == 0 {
        Seq::empty()
    } else {
        entries_of_answers(config, answers.drop_last(), account) + entries_of(
            config,
            instances_of(answered(answers.last())),
            account,
        )
    }
}

/// The fields of the hosts of some accounts, in the order of the accounts.
pub open spec fn entries_of_scans(config: &Configuration, scans: Seq<AccountScan>) -> Seq<
    Map<Seq<char>, Seq<char>>,
>
    decreases scans.len(),
{
    if scans.len() == 0 {
        Seq::empty()
    } else {
        entries_of_scans(config, scans.drop_last()) + entries_of_answers(
            config,
            answers_of(scans.last()),
            scans.last().account@,
        )
    }
}

/// A branch that failed empties itself and nothing else: an account without
/// credentials, and a region whose call failed, bring no records, and the
/// records of the accounts and regions before them stay as they were.
pub proof fn lemma_failed_branch_is_empty(
    config: &Configuration,
    wanted: Seq<char>,
    unwanted: Seq<char>,
    scans: Seq<AccountScan>,
    failed: AccountScan,
    answers: Seq<Answer>,
    error: InventoryError,
    account: Seq<char>,
)
    requires
        failed.regions is Err,
    ensures
        records_of_scans(config, wanted, unwanted, scans.push(failed)) == records_of_scans(
            config,
            wanted,
            unwanted,
            scans,
        ),
        entries_of_scans(config, scans.push(failed)) == entries_of_scans(config, scans),
        records_of_answers(config, wanted, unwanted, answers.push(Err(error)), account)
            == records_of_answers(config, wanted, unwanted, answers, account),
        entries_of_answers(config, answers.push(Err(error)), account) == entries_of_answers(
            config,
            answers,
            account,
        ),
{
    assert(scans.push(failed).drop_last() =~= scans);
    assert(answers.push(Err(error)).drop_last() =~= answers);
    assert(records_of_scans(config, wanted, unwanted, scans) + Seq::empty()
        =~= records_of_scans(config, wanted, unwanted, scans));
    assert(records_of_answers(config, wanted, unwanted, answers, account) + Seq::empty()
        =~= records_of_answers(config, wanted, unwanted, answers, account));
    assert(entries_of_answers(config, answers, account) + Seq::empty() =~= entries_of_answers(
        config,
        answers,
        account,
    ));
}

/// Gathers the records of a whole scan when hosts are listed by group: the
/// accounts in their order, and within each account the regions in theirs.
/// Fails exactly when an instance gets as far as the patterns and one of
/// them does not compile.
pub fn gather_groups(config: &Configuration, filter: &HostFilter, scans: &Vec<AccountScan>) -> (r:
    Result<Vec<HostRecord>, InventoryError>)
    ensures
        r matches Ok(records) ==> records.deep_view() == records_of_scans(
            config,
            filter.wanted@,
            filter.unwanted@,
            scans@,
        ),
        r matches Err(e) ==> e == InventoryError::Config,
        r is Err <==> scans_have_name(config, scans@) && !patterns_compile(
            filter.wanted@,
            filter.unwanted@,
        ),
{
    let ghost wanted = filter.wanted@;
    let ghost unwanted = filter.unwanted@;
    let mut out: Vec<HostRecord> = Vec::new();
    let mut i: usize = 0;
    while i < scans.len()
        invariant
            i <= scans.len(),
            wanted == filter.wanted@,
            unwanted == filter.unwanted@,
            !patterns_compile(wanted, unwanted) ==> !scans_have_name(
                config,
                scans@.take(i as int),
            ),
            out.deep_view() == records_of_scans(config, wanted, unwanted, scans@.take(i as int)),
        decreases scans.len() - i,
    {
        let scan = &scans[i];
        let ghost done = out.deep_view();
        assert(scans@.take(i + 1).drop_last() =~= scans@.take(i as int));
        match &scan.regions {
            Err(_) => {
                assert(done + Seq::<HostRecordView>::empty() =~= done);
            },
            Ok(answers) => {
                let mut j: usize = 0;
                while j < answers.len()
                    invariant
                        j <= answers.len(),
                        i < scans.len(),
                        scans@[i as int].regions == Ok::<Vec<Answer>, InventoryError>(*answers),
                        wanted == filter.wanted@,
                        unwanted == filter.unwanted@,
                        !patterns_compile(wanted, unwanted) ==> forall|b: int|
                            0 <= b < j ==> !some_has_name(
                                config,
                                instances_of(answered(#[trigger] answers@[b])),
                            ),
                        out.deep_view() == done + records_of_answers(
                            config,
                            wanted,
                            unwanted,
                            answers@.take(j as int),
                            scan.account@,
                        ),
                    decreases answers.len() - j,
                {
                    let ghost part = records_of_answers(
                        config,
                        wanted,
                        unwanted,
                        answers@.take(j as int),
                        scan.account@,
                    );
                    assert(answers@.take(j + 1).drop_last() =~= answers@.take(j as int));
                    let mut listed = match collect_groups(
                        config,
                        filter,
                        &answers[j],
                        scan.account.as_str(),
                    ) {
                        Ok(listed) => listed,
                        Err(e) => {
                            assert(answers_of(scans@[i as int])[j as int] == answers@[j as int]);
                            return Err(e);
                        },
                    };
                    let ghost more = listed.deep_view();
                    out.append(&mut listed);
                    assert(done + (part + more) =~= (done + part) + more);
                    j += 1;
                }
                assert(answers@.take(answers.len() as int) =~= answers@);
            },
        }
        proof {
            if !patterns_compile(wanted, unwanted) {
                lemma_no_scan_has_name(config, scans@.take(i + 1));
            }
        }
        i += 1;
    }
    assert(scans@.take(scans.len() as int) =~= scans@);
    Ok(out)
}

/// Gathers the fields of the hosts of a whole scan when hosts are listed
/// one by one: the accounts in their order, and within each account the
/// regions in theirs.
pub fn gather_hosts(config: &Configuration, scans: &Vec<AccountScan>) -> (r: Vec<Table<String>>)
    ensures
        r.deep_view() == entries_of_scans(config, scans@),
{
    let mut out: Vec<Table<String>> = Vec::new();
    let mut i: usize = 0;
    while i < scans.len()
        invariant
            i <= scans.len(),
            out.deep_view() == entries_of_scans(config, scans@.take(i as int)),
        decreases scans.len() - i,
    {
        let scan = &scans[i];
        let ghost done = out.deep_view();
        assert(scans@.take(i + 1).drop_last() =~= scans@.take(i as int));
        match &scan.regions {
            Err(_) => {},
            Ok(answers) => {
                let mut j: usize = 0;
                while j < answers.len()
                    invariant
                        j <= answers.len(),
                        out.deep_view() == done + entries_of_answers(
                            config,
                            answers@.take(j as int),
                            scan.account@,
                        ),
                    decreases answers.len() - j,
                {
                    let ghost part = entries_of_answers(
                        config,
                        answers@.take(j as int),
                        scan.account@,
                    );
                    assert(answers@.take(j + 1).drop_last() =~= answers@.take(j as int));
                    let mut listed = collect_hosts(config, &answers[j], scan.account.as_str());
                    let ghost more = listed.deep_view();
                    out.append(&mut listed);
                    assert(done + (part + more) =~= (done + part) + more);
                    j += 1;
                }
                assert(answers@.take(answers.len() as int) =~= answers@);
            },
        }
        i += 1;
    }
    assert(scans@.take(scans.len() as int) =~= scans@);
    out
}

} // verus!
