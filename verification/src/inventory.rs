//! The inventory document: every group with its hosts, and under `_meta`
//! the fields of every host.

use crate::collector::{record_of, HostRecord, HostRecordView};
use crate::ec2_utils::{group_names, host_fields};
use crate::groups::{group_keys, prefixed_key, safe_key, tag_group_key};
use crate::instance::Instance;
use crate::merge::contributions;
use crate::ec2_utils::{merge_ec2_results, MergeInput};
use crate::merge::{lemma_prefix_map_step, merged_groups, objects_of, prefix_map};
use crate::table::Table;
use crate::text::clone_texts;
use vstd::prelude::*;

verus! {

/// One member of the document.
#[derive(Debug)]
pub enum Member {
    /// The member `_meta`: an object whose one member, `hostvars`, maps the
    /// name of every host to its fields.
    Meta(Table<Table<Table<String>>>),
    /// A group: the names of its hosts.
    Hosts(Vec<String>),
}

/// The model of a `Member`.
pub enum MemberView {
    Meta(Map<Seq<char>, Map<Seq<char>, Map<Seq<char>, Seq<char>>>>),
    Hosts(Seq<Seq<char>>),
}

impl DeepView for Member {
    type V = MemberView;

    open spec fn deep_view(&self) -> MemberView {
        match self {
            Member::Meta(vars) => MemberView::Meta(vars@),
            Member::Hosts(hosts) => MemberView::Hosts(hosts.deep_view()),
        }
    }
}

/// The fields of every host by its name. Where two records share a name,
/// the later one stays.
pub open spec fn host_vars_of(records: Seq<HostRecordView>) -> Map<
    Seq<char>,
    Map<Seq<char>, Seq<char>>,
>
    decreases records.len(),
{
    if records.len() == 0 {
        Map::empty()
    } else {
        host_vars_of(records.drop_last()).insert(records.last().dest, records.last().entry)
    }
}

/// The group maps of some records, in their order.
pub open spec fn group_maps_of(records: Seq<HostRecordView>) -> Seq<Map<Seq<char>, Seq<char>>> {
    records.map_values(|r: HostRecordView| r.groups)
}

/// What stands under `_meta`: the fields of the hosts, under `hostvars`.
pub open spec fn meta_of(vars: Map<Seq<char>, Map<Seq<char>, Seq<char>>>) -> MemberView {
    MemberView::Meta(
        Map::<Seq<char>, Map<Seq<char>, Map<Seq<char>, Seq<char>>>>::empty().insert(
            "hostvars"@,
            vars,
        ),
    )
}

/// The document made of the fields of the hosts and of the merged groups:
/// every group is a member, and `_meta` holds the fields unless a group of
/// that name takes its place.
pub open spec fn document(
    vars: Map<Seq<char>, Map<Seq<char>, Seq<char>>>,
    groups: Map<Seq<char>, Seq<Seq<char>>>,
) -> Map<Seq<char>, MemberView> {
    Map::new(
        |k: Seq<char>| k == "_meta"@ || groups.contains_key(k),
        |k: Seq<char>|
            if groups.contains_key(k) {
                MemberView::Hosts(groups[k])
            } else {
                meta_of(vars)
            },
    )
}

/// The inventory that some records add up to.
pub open spec fn inventory_of(records: Seq<HostRecordView>) -> Map<Seq<char>, MemberView> {
    document(host_vars_of(records), merged_groups(group_maps_of(records)))
}

/// Every host that was recorded has its fields in the document, and of two
/// records with one name the later one is kept.
pub proof fn lemma_last_record_wins(records: Seq<HostRecordView>, i: int)
    requires
        0 <= i < records.len(),
        forall|j: int| i < j < records.len() ==> records[j].dest != records[i].dest,
    ensures
        host_vars_of(records).contains_key(records[i].dest),
        host_vars_of(records)[records[i].dest] == records[i].entry,
    decreases records.len(),
{
    if i < records.len() - 1 {
        let head = records.drop_last();
        assert forall|j: int| i < j < head.len() implies head[j].dest != head[i].dest by {
            assert(head[j] == records[j]);
        }
        lemma_last_record_wins(head, i);
    }
}

/// What the document holds: every group with its hosts, and the fields of
/// the hosts under `_meta` as long as no group is called `_meta`.
pub proof fn lemma_document_members(
    vars: Map<Seq<char>, Map<Seq<char>, Seq<char>>>,
    groups: Map<Seq<char>, Seq<Seq<char>>>,
)
    ensures
        document(vars, groups).contains_key("_meta"@),
        !groups.contains_key("_meta"@) ==> document(vars, groups)["_meta"@] == meta_of(vars),
        forall|k: Seq<char>| #[trigger]
            groups.contains_key(k) ==> document(vars, groups).contains_key(k) && document(
                vars,
                groups,
            )[k] == MemberView::Hosts(groups[k]),
{
}

/// The name of a host is the same wherever the host appears: a host that
/// was recorded is listed in each of its groups under the name of its
/// record.
pub proof fn lemma_host_is_in_its_groups(records: Seq<HostRecordView>, i: int, key: Seq<char>)
    requires
        0 <= i < records.len(),
        records[i].groups.contains_key(key),
        records[i].groups[key] == records[i].dest,
    ensures
        merged_groups(group_maps_of(records)).contains_key(key),
        merged_groups(group_maps_of(records))[key].contains(records[i].dest),
        inventory_of(records).contains_key(key),
        inventory_of(records)[key] == MemberView::Hosts(
            merged_groups(group_maps_of(records))[key],
        ),
{
    crate::merge::lemma_contribution_present(group_maps_of(records), i, key);
}

/// The inventory of a scan that lists one host. Every group of the host is
/// a member of the document and lists just that host; among the groups are
/// the one of its type, one for each of its security groups that has a name
/// and one for each of its tags. Unless one of the groups is called `_meta`,
/// the fields of the host stand under `_meta`, under `hostvars` and the
/// name of the host.
pub proof fn lemma_inventory_of_one_host(instance: &Instance, dest: Seq<char>, account: Seq<char>)
    ensures
        forall|k: Seq<char>| #[trigger]
            group_keys(instance).contains(k) ==> inventory_of(
                seq![record_of(instance, dest, account)],
            ).contains_key(k) && inventory_of(seq![record_of(instance, dest, account)])[k]
                == MemberView::Hosts(seq![dest]),
        !group_keys(instance).contains("_meta"@) ==> inventory_of(
            seq![record_of(instance, dest, account)],
        )["_meta"@] == meta_of(
            Map::<Seq<char>, Map<Seq<char>, Seq<char>>>::empty().insert(
                dest,
                host_fields(instance, account),
            ),
        ),
        instance.instance_type matches Some(t) ==> group_keys(instance).contains(
            prefixed_key("type_"@, t@),
        ),
        forall|i: int|
            0 <= i < group_names(instance.groups()).len() ==> group_keys(instance).contains(
                safe_key("security_group_"@, #[trigger] group_names(instance.groups())[i]),
            ),
        forall|i: int|
            0 <= i < instance.tag_list().len() ==> group_keys(instance).contains(
                tag_group_key(#[trigger] instance.tag_list()[i]),
            ),
{
    let record = record_of(instance, dest, account);
    let records = seq![record];
    let maps = group_maps_of(records);
    assert(maps =~= seq![record.groups]);
    assert(records.drop_last() =~= Seq::<HostRecordView>::empty());
    assert(host_vars_of(records.drop_last()) =~= Map::<
        Seq<char>,
        Map<Seq<char>, Seq<char>>,
    >::empty());
    assert(maps.drop_last().len() == 0);
    assert forall|k: Seq<char>| #[trigger] group_keys(instance).contains(k) implies inventory_of(
        records,
    ).contains_key(k) && inventory_of(records)[k] == MemberView::Hosts(seq![dest]) by {
        assert(maps[0].contains_key(k));
        assert(contributions(maps.drop_last(), k) =~= Seq::<Seq<char>>::empty());
        assert(contributions(maps, k) =~= seq![dest]);
    }
    if !group_keys(instance).contains("_meta"@) {
        if merged_groups(maps).contains_key("_meta"@) {
            let i = choose|i: int| 0 <= i < maps.len() && #[trigger] maps[i].contains_key("_meta"@);
            assert(maps[i] == record.groups);
        }
    }
    assert forall|i: int| 0 <= i < instance.tag_list().len() implies group_keys(
        instance,
    ).contains(tag_group_key(#[trigger] instance.tag_list()[i])) by {
        assert(crate::groups::tag_keys(instance.tag_list()[i]).contains(
            tag_group_key(instance.tag_list()[i]),
        ));
    }
}

/// Puts the fields of the hosts and the merged groups into one document.
pub fn assemble(vars: Table<Table<String>>, groups: &Table<Vec<String>>) -> (r: Table<Member>)
    ensures
        r@ == document(vars@, groups@),
{
    let ghost hv = vars@;
    let ghost keys = groups.keys();
    let ghost values = groups.values();
    let count = groups.len();
    let mut meta: Table<Table<Table<String>>> = Table::new();
    meta.insert("hostvars".to_owned(), vars);
    let mut doc: Table<Member> = Table::new();
    doc.insert("_meta".to_owned(), Member::Meta(meta));
    proof {
        if count > 0 {
            lemma_prefix_map_step(keys, values, 0);
        } else {
            assert(prefix_map(keys, values, 0) =~= Map::<Seq<char>, Seq<Seq<char>>>::empty());
        }
    }
    let mut j: usize = 0;
    while j < count
        invariant
            j <= count,
            count == keys.len(),
            count == values.len(),
            keys.no_duplicates(),
            keys == groups.keys(),
            values == groups.values(),
            doc@ == document(hv, prefix_map(keys, values, j as int)),
        decreases count - j,
    {
        let key = groups.key_at(j).clone();
        let hosts = clone_texts(groups.value_at(j));
        let ghost part = prefix_map(keys, values, j as int);
        proof {
            lemma_prefix_map_step(keys, values, j as int);
            assert(document(hv, part.insert(keys[j as int], values[j as int])) =~= document(
                hv,
                part,
            ).insert(keys[j as int], MemberView::Hosts(values[j as int])));
        }
        doc.insert(key, Member::Hosts(hosts));
        j += 1;
    }
    proof {
        if count > 0 {
            lemma_prefix_map_step(keys, values, 0);
        } else {
            assert(prefix_map(keys, values, 0) =~= groups@);
        }
    }
    doc
}

/// Folds the records of all answers into the inventory: the fields of each
/// host under its name, each group with the names of its hosts in the order
/// of the records.
pub fn build_inventory(records: Vec<HostRecord>) -> (r: Table<Member>)
    ensures
        r@ == inventory_of(records.deep_view()),
{
    let ghost all = records.deep_view();
    let ghost raw = records@;
    let mut vars: Table<Table<String>> = Table::new();
    let mut maps: Vec<MergeInput> = Vec::new();
    assert(objects_of(maps.deep_view()) =~= group_maps_of(all.take(0)));
    for record in it: records
        invariant
            it.seq() == raw,
            all == raw.map_values(|r: HostRecord| r.deep_view()),
            vars@ == host_vars_of(all.take(it.index() as int)),
            objects_of(maps.deep_view()) == group_maps_of(all.take(it.index() as int)),
    {
        let ghost n = it.index() as int;
        let ghost before = maps.deep_view();
        assert(all.take(n + 1).drop_last() =~= all.take(n));
        vars.insert(record.dest, record.entry);
        maps.push(MergeInput::Object(record.groups));
        assert(maps.deep_view().drop_last() =~= before);
        assert(group_maps_of(all.take(n + 1)) =~= group_maps_of(all.take(n)).push(
            record.groups@,
        ));
    }
    assert(all.take(raw.len() as int) =~= all);
    let merged = merge_ec2_results(maps);
    assemble(vars, &merged)
}

} // verus!
