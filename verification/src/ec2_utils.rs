//! What is read off one instance: whether it is listed, under which name,
//! with which fields; and how the groups of all hosts are merged.

use crate::config::Configuration;
use crate::instance::{opt_text, text_of, GroupIdentifier, Instance, InstanceState, Tag};
use crate::merge::{
    lemma_merge_empty_object, lemma_merge_one_entry, lemma_no_contribution,
    lemma_prefix_map_step, merged_groups, objects_of, prefix_map,
};
use crate::table::Table;
use crate::text::{
    ascii_lower_text, concat_text, join_commas, join_with, lowercase, lowercase_text, push_char,
    safe_text, same_text, to_ascii_lower,
};
use vstd::prelude::*;

verus! {

/// Whether a state code says "running": its low byte is 16. The higher bits
/// are set aside.
pub open spec fn is_running_code(code: i64) -> bool {
    (code & 0xff) == 16
}

/// Whether an instance in `state` is listed. An instance without a state or
/// without a state code never is; otherwise every instance is when
/// `all_instances` is set, and only a running one when it is not.
pub open spec fn should_include(all_instances: bool, state: Option<InstanceState>) -> bool {
    match state {
        Some(s) => match s.code {
            Some(code) => all_instances || is_running_code(code),
            None => false,
        },
        None => false,
    }
}

/// When only running instances are listed, an instance is listed exactly
/// when it has a state with a code whose low byte is 16; no other low byte
/// will do, and neither will a missing state or a missing code.
pub proof fn lemma_only_running_is_listed(state: Option<InstanceState>)
    ensures
        should_include(false, state) <==> (state matches Some(s) && s.code matches Some(code)
            && (code & 0xff) == 16),
        state is None ==> !should_include(false, state) && !should_include(true, state),
        should_include(false, Some(InstanceState { code: Some(16), name: None })),
{
    assert(16i64 & 0xff == 16) by (bit_vector);
}

/// For a code that is not negative, the low byte is what is left when the
/// code is divided by 256.
pub proof fn lemma_low_byte(code: i64)
    requires
        code >= 0,
    ensures
        is_running_code(code) <==> code % 256 == 16,
{
    assert(code >= 0 ==> ((code & 0xff) == 16 <==> code % 256 == 16)) by (bit_vector);
}

/// Decides whether `instance` belongs in the inventory.
pub fn instance_should_be_added(config: &Configuration, instance: &Instance) -> (r: bool)
    ensures
        r == should_include(config.ec2.all_instances_value(), instance.state),
{
    match &instance.state {
        None => false,
        Some(state) => match state.code {
            None => false,
            Some(code) => config.ec2.get_all_instances() || (code & 0xff) == 16,
        },
    }
}

/// The attribute of `instance` that `var` names. Four attributes can name a
/// host; any other word names none.
pub open spec fn named_attribute(var: Seq<char>, instance: &Instance) -> Option<Seq<char>> {
    if var == "instance_id"@ {
        opt_text(instance.instance_id)
    } else if var == "private_ip_address"@ {
        opt_text(instance.private_ip_address)
    } else if var == "private_dns_name"@ {
        opt_text(instance.private_dns_name)
    } else if var == "public_ip_address"@ {
        opt_text(instance.public_ip_address)
    } else {
        None
    }
}

fn get_potential_ec2_variable<'a>(var: &str, instance: &'a Instance) -> (r: Option<&'a String>)
    ensures
        match r {
            Some(s) => named_attribute(var@, instance) == Some(s@),
            None => named_attribute(var@, instance) is None,
        },
{
    if same_text(var, "instance_id") {
        instance.instance_id.as_ref()
    } else if same_text(var, "private_ip_address") {
        instance.private_ip_address.as_ref()
    } else if same_text(var, "private_dns_name") {
        instance.private_dns_name.as_ref()
    } else if same_text(var, "public_ip_address") {
        instance.public_ip_address.as_ref()
    } else {
        None
    }
}

/// Whether `instance` belongs to a virtual network: it has a subnet id, and
/// the id is not empty.
pub open spec fn has_subnet(instance: &Instance) -> bool {
    instance.subnet_id matches Some(id) && id@.len() > 0
}

/// The name of the attribute by which `instance` is listed: the one
/// configured for virtual networks when the instance has a subnet, the
/// general one when it has none.
pub open spec fn dest_variable_name(config: &Configuration, instance: &Instance) -> Seq<char> {
    if has_subnet(instance) {
        config.ec2.vpc_dest_variable_text()
    } else {
        config.ec2.dest_variable_text()
    }
}

/// The name under which `instance` is listed, if it has one.
pub open spec fn dest_variable(config: &Configuration, instance: &Instance) -> Option<Seq<char>> {
    named_attribute(dest_variable_name(config, instance), instance)
}

/// The value by which `instance` is listed: the attribute that the
/// configuration names for it. `None` when the instance lacks that attribute
/// or the configured word names no attribute.
pub fn get_instance_dest_variable<'a>(config: &Configuration, instance: &'a Instance) -> (r:
    Option<&'a String>)
    ensures
        match r {
            Some(s) => dest_variable(config, instance) == Some(s@),
            None => dest_variable(config, instance) is None,
        },
{
    let in_subnet = match &instance.subnet_id {
        Some(id) => !id.as_str().is_empty(),
        None => false,
    };
    if in_subnet {
        let name = config.ec2.get_vpc_dest_variable();
        get_potential_ec2_variable(name.as_str(), instance)
    } else {
        let name = config.ec2.get_dest_variable();
        get_potential_ec2_variable(name.as_str(), instance)
    }
}

/// Which attribute names a host when nothing is configured: an instance
/// with a subnet is listed by its private IP address, whatever else it has,
/// and an instance without a subnet, or with an empty subnet id, by its
/// private DNS name.
pub proof fn lemma_default_dest_variable(config: &Configuration, instance: &Instance)
    requires
        config.ec2.destination_variable is None,
        config.ec2.vpc_destination_variable is None,
    ensures
        has_subnet(instance) ==> dest_variable(config, instance) == opt_text(
            instance.private_ip_address,
        ),
        !has_subnet(instance) ==> dest_variable(config, instance) == opt_text(
            instance.private_dns_name,
        ),
{
    reveal_strlit("instance_id");
    reveal_strlit("private_ip_address");
    reveal_strlit("private_dns_name");
    assert("private_dns_name"@.len() != "private_ip_address"@.len());
}

/// Which attribute names a host in general: the one configured for virtual
/// networks exactly when the instance has a subnet.
pub proof fn lemma_vpc_takes_precedence(config: &Configuration, instance: &Instance)
    ensures
        has_subnet(instance) ==> dest_variable(config, instance) == named_attribute(
            config.ec2.vpc_dest_variable_text(),
            instance,
        ),
        !has_subnet(instance) ==> dest_variable(config, instance) == named_attribute(
            config.ec2.dest_variable_text(),
            instance,
        ),
{
}

/// The index of the last `c` in `s`, or -1 when `s` holds none.
pub open spec fn last_index_of(s: Seq<char>, c: char) -> int
    decreases s.len(),
{
    if s.len() == 0 {
        -1
    } else if s.last() == c {
        s.len() - 1
    } else {
        last_index_of(s.drop_last(), c)
    }
}

/// `last_index_of` finds an occurrence, and none follows it.
pub proof fn lemma_last_index_of(s: Seq<char>, c: char)
    ensures
        -1 <= last_index_of(s, c) < s.len(),
        last_index_of(s, c) >= 0 ==> s[last_index_of(s, c)] == c,
        forall|j: int| last_index_of(s, c) < j < s.len() ==> s[j] != c,
    decreases s.len(),
{
    if s.len() > 0 && s.last() != c {
        let t = s.drop_last();
        lemma_last_index_of(t, c);
        assert forall|j: int| last_index_of(s, c) < j < s.len() implies s[j] != c by {
            if j < t.len() {
                assert(t[j] == s[j]);
            }
        }
    }
}

/// The region of an availability zone: the zone up to and including the
/// character after its last hyphen (the whole zone when nothing follows the
/// hyphen). A zone without a hyphen has no region.
pub open spec fn region_of_zone(zone: Seq<char>) -> Option<Seq<char>> {
    let at = last_index_of(zone, '-');
    if at < 0 {
        None
    } else if at + 2 <= zone.len() {
        Some(zone.take(at + 2))
    } else {
        Some(zone)
    }
}

/// Derives the region from the name of an availability zone.
pub fn region_of(zone: &str) -> (r: Option<String>)
    ensures
        opt_text(r) == region_of_zone(zone@),
{
    let total: usize = zone.unicode_len();
    let mut found: Option<usize> = None;
    let mut n: usize = 0;
    for c in it: zone.chars()
        invariant
            it.seq() == zone@,
            total == zone@.len(),
            n == it.index(),
            match found {
                Some(at) => at == last_index_of(zone@.take(n as int), '-'),
                None => last_index_of(zone@.take(n as int), '-') == -1,
            },
    {
        assert(zone@.take(n + 1).drop_last() == zone@.take(n as int));
        if c == '-' {
            found = Some(n);
        }
        n += 1;
    }
    assert(zone@.take(total as int) == zone@);
    match found {
        None => None,
        Some(at) => {
            proof {
                lemma_last_index_of(zone@, '-');
            }
            let keep: usize = if total - at >= 2 {
                at + 2
            } else {
                total
            };
            let mut out = String::new();
            let mut m: usize = 0;
            for c in it: zone.chars()
                invariant
                    it.seq() == zone@,
                    total == zone@.len(),
                    keep <= total,
                    m == it.index(),
                    out@ == zone@.take(if m <= keep {
                        m as int
                    } else {
                        keep as int
                    }),
            {
                if m < keep {
                    push_char(&mut out, c);
                }
                m += 1;
            }
            Some(out)
        },
    }
}

/// The region of `instance`: that of its availability zone, if it has a
/// zone and the zone has a region.
pub open spec fn raw_region(instance: &Instance) -> Option<Seq<char>> {
    match instance.zone() {
        Some(zone) => region_of_zone(zone),
        None => None,
    }
}

/// The region in which `instance` runs, derived from its availability zone.
pub fn get_raw_region_of_instance(instance: &Instance) -> (r: Option<String>)
    ensures
        opt_text(r) == raw_region(instance),
{
    match &instance.placement {
        None => None,
        Some(placement) => match &placement.availability_zone {
            None => None,
            Some(zone) => region_of(zone.as_str()),
        },
    }
}

/// The region of `instance`, or the empty string when none can be derived.
pub open spec fn region_text(instance: &Instance) -> Seq<char> {
    opt_or_empty(raw_region(instance))
}

fn get_region_of_instance(instance: &Instance) -> (r: String)
    ensures
        r@ == region_text(instance),
{
    match get_raw_region_of_instance(instance) {
        Some(region) => region,
        None => String::new(),
    }
}

/// The names of those groups that have one, in the order of the groups.
pub open spec fn group_names(groups: Seq<GroupIdentifier>) -> Seq<Seq<char>>
    decreases groups.len(),
{
    if groups.len() == 0 {
        Seq::empty()
    } else {
        let head = group_names(groups.drop_last());
        match groups.last().group_name {
            Some(name) => head.push(name@),
            None => head,
        }
    }
}

/// The ids of those groups that have one, in the order of the groups.
pub open spec fn group_ids(groups: Seq<GroupIdentifier>) -> Seq<Seq<char>>
    decreases groups.len(),
{
    if groups.len() == 0 {
        Seq::empty()
    } else {
        let head = group_ids(groups.drop_last());
        match groups.last().group_id {
            Some(id) => head.push(id@),
            None => head,
        }
    }
}

fn names_of(groups: &Vec<GroupIdentifier>) -> (r: Vec<String>)
    ensures
        r.deep_view() == group_names(groups@),
{
    let mut out: Vec<String> = Vec::new();
    let mut i: usize = 0;
    while i < groups.len()
        invariant
            i <= groups.len(),
            out.deep_view() == group_names(groups@.take(i as int)),
        decreases groups.len() - i,
    {
        assert(groups@.take(i + 1).drop_last() == groups@.take(i as int));
        match &groups[i].group_name {
            Some(name) => {
                out.push(name.clone());
            },
            None => {},
        }
        i += 1;
    }
    assert(groups@.take(groups.len() as int) == groups@);
    out
}

fn ids_of(groups: &Vec<GroupIdentifier>) -> (r: Vec<String>)
    ensures
        r.deep_view() == group_ids(groups@),
{
    let mut out: Vec<String> = Vec::new();
    let mut i: usize = 0;
    while i < groups.len()
        invariant
            i <= groups.len(),
            out.deep_view() == group_ids(groups@.take(i as int)),
        decreases groups.len() - i,
    {
        assert(groups@.take(i + 1).drop_last() == groups@.take(i as int));
        match &groups[i].group_id {
            Some(id) => {
                out.push(id.clone());
            },
            None => {},
        }
        i += 1;
    }
    assert(groups@.take(groups.len() as int) == groups@);
    out
}

/// The names of the security groups of `instance`, or `None` when the
/// instance reports no groups at all.
pub fn get_raw_security_group_names(instance: &Instance) -> (r: Option<Vec<String>>)
    ensures
        match instance.security_groups {
            Some(groups) => r is Some && r->0.deep_view() == group_names(groups@),
            None => r is None,
        },
{
    match &instance.security_groups {
        Some(groups) => Some(names_of(groups)),
        None => None,
    }
}

/// The names of the security groups of `instance`, joined by commas; empty
/// when the instance reports no groups.
pub open spec fn security_group_names_text(instance: &Instance) -> Seq<char> {
    match instance.security_groups {
        Some(groups) => join_with(group_names(groups@), ','),
        None => Seq::empty(),
    }
}

/// The ids of the security groups of `instance`, joined by commas; empty
/// when the instance reports no groups.
pub open spec fn security_group_ids_text(instance: &Instance) -> Seq<char> {
    match instance.security_groups {
        Some(groups) => join_with(group_ids(groups@), ','),
        None => Seq::empty(),
    }
}

fn get_security_group_names(instance: &Instance) -> (r: String)
    ensures
        r@ == security_group_names_text(instance),
{
    match get_raw_security_group_names(instance) {
        Some(names) => join_commas(&names),
        None => String::new(),
    }
}

fn get_security_group_ids(instance: &Instance) -> (r: String)
    ensures
        r@ == security_group_ids_text(instance),
{
    match &instance.security_groups {
        Some(groups) => {
            let ids = ids_of(groups);
            join_commas(&ids)
        },
        None => String::new(),
    }
}

/// Replaces every character that is not an ASCII letter, an ASCII digit or a
/// hyphen by an underscore. The field names of tags are made of what is left.
pub fn to_safe(string: &str) -> (r: String)
    ensures
        r@ == safe_text(string@),
{
    let mut out = String::new();
    for c in it: string.chars()
        invariant
            it.seq() == string@,
            out@ == safe_text(string@.take(it.index() as int)),
    {
        let d: char = if (c >= 'A' && c <= 'Z') || (c >= 'a' && c <= 'z') || (c >= '0' && c
            <= '9') || c == '-' {
            c
        } else {
            '_'
        };
        push_char(&mut out, d);
    }
    out
}

/// The field name under which a tag is listed: `ec2_tag_` and the tag's key,
/// unsafe characters replaced by `_`, capitals made small.
pub open spec fn tag_field_name(tag: Tag) -> Seq<char> {
    ascii_lower_text(safe_text("ec2_tag_"@ + text_of(tag.key)))
}

/// The value with which a tag is listed: its value in lowercase.
pub open spec fn tag_field_value(tag: Tag) -> Seq<char> {
    lowercase_text(text_of(tag.value))
}

fn text_or_empty(field: &Option<String>) -> (r: String)
    ensures
        r@ == text_of(*field),
{
    match field {
        Some(s) => s.clone(),
        None => String::new(),
    }
}

fn normalize_tag(tag: &Tag) -> (r: (String, String))
    ensures
        r.0@ == tag_field_name(*tag),
        r.1@ == tag_field_value(*tag),
{
    let key = text_or_empty(&tag.key);
    let to_normalize = concat_text("ec2_tag_", key.as_str());
    let safe = to_safe(to_normalize.as_str());
    let normalized_key = to_ascii_lower(safe.as_str());
    let value = match &tag.value {
        Some(v) => lowercase(v.as_str()),
        None => lowercase(""),
    };
    proof {
        reveal_strlit("");
        assert(""@ =~= Seq::<char>::empty());
    }
    (normalized_key, value)
}

/// The fields that every host is listed with, before its tags are added:
/// each is the text of one attribute of the instance, and empty where the
/// instance lacks the attribute.
pub open spec fn fixed_fields(instance: &Instance, account: Seq<char>) -> Map<
    Seq<char>,
    Seq<char>,
> {
    Map::<Seq<char>, Seq<char>>::empty().insert("ec2_account_value"@, account).insert(
        "ec2_architecture"@,
        text_of(instance.architecture),
    ).insert("ec2_hypervisor"@, text_of(instance.hypervisor)).insert(
        "ec2_id"@,
        text_of(instance.instance_id),
    ).insert("ec2_image_id"@, text_of(instance.image_id)).insert(
        "ec2_instance_profile"@,
        opt_or_empty(instance.profile_arn()),
    ).insert("ec2_instance_type"@, text_of(instance.instance_type)).insert(
        "ec2_ip_address"@,
        text_of(instance.public_ip_address),
    ).insert("ec2_key_name"@, text_of(instance.key_name)).insert(
        "ec2_placement"@,
        opt_or_empty(instance.zone()),
    ).insert("ec2_region"@, region_text(instance)).insert(
        "ec2_root_device_name"@,
        text_of(instance.root_device_name),
    ).insert("ec2_root_device_type"@, text_of(instance.root_device_type)).insert(
        "ec2_security_group_ids"@,
        security_group_ids_text(instance),
    ).insert("ec2_security_group_names"@, security_group_names_text(instance)).insert(
        "ec2_state"@,
        opt_or_empty(instance.state_name()),
    ).insert("ec2_subnet_id"@, text_of(instance.subnet_id)).insert(
        "ec2_virtualization_type"@,
        text_of(instance.virtualization_type),
    ).insert("ec2_vpc_id"@, text_of(instance.vpc_id))
}

/// An optional text, read as empty when it is absent.
pub open spec fn opt_or_empty(field: Option<Seq<char>>) -> Seq<char> {
    match field {
        Some(s) => s,
        None => Seq::empty(),
    }
}

/// `base` with one field for each tag, added in the order of the tags, so
/// that of two tags with the same field name the later one stays.
pub open spec fn with_tags(base: Map<Seq<char>, Seq<char>>, tags: Seq<Tag>) -> Map<
    Seq<char>,
    Seq<char>,
>
    decreases tags.len(),
{
    if tags.len() == 0 {
        base
    } else {
        with_tags(base, tags.drop_last()).insert(
            tag_field_name(tags.last()),
            tag_field_value(tags.last()),
        )
    }
}

/// The fields with which a host is listed: the fixed ones and one for each
/// tag.
pub open spec fn host_fields(instance: &Instance, account: Seq<char>) -> Map<
    Seq<char>,
    Seq<char>,
> {
    with_tags(fixed_fields(instance, account), instance.tag_list())
}

/// The names of the fields that every host is listed with.
pub open spec fn fixed_field_names() -> Set<Seq<char>> {
    set![
        "ec2_account_value"@,
        "ec2_architecture"@,
        "ec2_hypervisor"@,
        "ec2_id"@,
        "ec2_image_id"@,
        "ec2_instance_profile"@,
        "ec2_instance_type"@,
        "ec2_ip_address"@,
        "ec2_key_name"@,
        "ec2_placement"@,
        "ec2_region"@,
        "ec2_root_device_name"@,
        "ec2_root_device_type"@,
        "ec2_security_group_ids"@,
        "ec2_security_group_names"@,
        "ec2_state"@,
        "ec2_subnet_id"@,
        "ec2_virtualization_type"@,
        "ec2_vpc_id"@,
    ]
}

/// The field name of a tag begins with `ec2_tag_`, whatever its key.
pub proof fn lemma_tag_field_prefix(tag: Tag)
    ensures
        tag_field_name(tag).len() == 8 + text_of(tag.key).len(),
        tag_field_name(tag).take(8) == "ec2_tag_"@,
{
    reveal_strlit("ec2_tag_");
    let raw = "ec2_tag_"@ + text_of(tag.key);
    assert forall|i: int| 0 <= i < 8 implies tag_field_name(tag)[i] == "ec2_tag_"@[i] by {
        assert(raw[i] == "ec2_tag_"@[i]);
    }
}

/// The field name of a tag is made of small ASCII letters, digits, hyphens
/// and underscores, and of nothing else, whatever the key of the tag holds.
pub proof fn lemma_tag_field_name_is_plain(tag: Tag)
    ensures
        forall|i: int|
            0 <= i < tag_field_name(tag).len() ==> {
                let c = #[trigger] tag_field_name(tag)[i];
                ('a' <= c && c <= 'z') || ('0' <= c && c <= '9') || c == '-' || c == '_'
            },
{
    let raw = "ec2_tag_"@ + text_of(tag.key);
    assert forall|i: int| 0 <= i < tag_field_name(tag).len() implies {
        let c = #[trigger] tag_field_name(tag)[i];
        ('a' <= c && c <= 'z') || ('0' <= c && c <= '9') || c == '-' || c == '_'
    } by {
        let safe = safe_text(raw)[i];
        if 'A' <= safe && safe <= 'Z' {
            assert('a' <= ((safe as u8) + 32) as char && ((safe as u8) + 32) as char <= 'z');
        }
    }
}

/// No tag is listed under the name of a fixed field.
pub proof fn lemma_tag_field_is_not_fixed(tag: Tag)
    ensures
        !fixed_field_names().contains(tag_field_name(tag)),
{
    lemma_tag_field_prefix(tag);
    reveal_strlit("ec2_tag_");
    let name = tag_field_name(tag);
    assert(name[4] == 't');
    reveal_strlit("ec2_account_value");
    reveal_strlit("ec2_architecture");
    reveal_strlit("ec2_hypervisor");
    reveal_strlit("ec2_id");
    reveal_strlit("ec2_image_id");
    reveal_strlit("ec2_instance_profile");
    reveal_strlit("ec2_instance_type");
    reveal_strlit("ec2_ip_address");
    reveal_strlit("ec2_key_name");
    reveal_strlit("ec2_placement");
    reveal_strlit("ec2_region");
    reveal_strlit("ec2_root_device_name");
    reveal_strlit("ec2_root_device_type");
    reveal_strlit("ec2_security_group_ids");
    reveal_strlit("ec2_security_group_names");
    reveal_strlit("ec2_state");
    reveal_strlit("ec2_subnet_id");
    reveal_strlit("ec2_virtualization_type");
    reveal_strlit("ec2_vpc_id");
}

/// Every host has every fixed field, whatever its tags are: the fields of a
/// host are the fixed ones and those of its tags, and a fixed field holds
/// what the instance shows for it.
pub proof fn lemma_fixed_fields_stay(instance: &Instance, account: Seq<char>)
    ensures
        fixed_fields(instance, account).dom() == fixed_field_names(),
        forall|name: Seq<char>| #[trigger]
            fixed_field_names().contains(name) ==> host_fields(instance, account).contains_key(
                name,
            ) && host_fields(instance, account)[name] == fixed_fields(instance, account)[name],
        forall|name: Seq<char>| #[trigger]
            host_fields(instance, account).contains_key(name) ==> fixed_field_names().contains(
                name,
            ) || exists|i: int|
                0 <= i < instance.tag_list().len() && name == tag_field_name(
                    #[trigger] instance.tag_list()[i],
                ),
{
    let base = fixed_fields(instance, account);
    lemma_with_tags_keeps(base, instance.tag_list());
}

proof fn lemma_with_tags_keeps(base: Map<Seq<char>, Seq<char>>, tags: Seq<Tag>)
    requires
        base.dom() == fixed_field_names(),
    ensures
        forall|name: Seq<char>| #[trigger]
            fixed_field_names().contains(name) ==> with_tags(base, tags).contains_key(name)
                && with_tags(base, tags)[name] == base[name],
        forall|name: Seq<char>| #[trigger]
            with_tags(base, tags).contains_key(name) ==> fixed_field_names().contains(name)
                || exists|i: int| 0 <= i < tags.len() && name == tag_field_name(#[trigger] tags[i]),
    decreases tags.len(),
{
    if tags.len() > 0 {
        let head = tags.drop_last();
        lemma_with_tags_keeps(base, head);
        lemma_tag_field_is_not_fixed(tags.last());
        assert forall|name: Seq<char>| #[trigger]
            with_tags(base, tags).contains_key(name) implies fixed_field_names().contains(name)
            || exists|i: int| 0 <= i < tags.len() && name == tag_field_name(#[trigger] tags[i]) by {
            if name == tag_field_name(tags.last()) {
                assert(tags[tags.len() - 1] == tags.last());
            } else {
                assert(with_tags(base, head).contains_key(name));
                if !fixed_field_names().contains(name) {
                    let i = choose|i: int|
                        0 <= i < head.len() && name == tag_field_name(#[trigger] head[i]);
                    assert(tags[i] == head[i]);
                }
            }
        }
    }
}

fn profile_arn_text(instance: &Instance) -> (r: String)
    ensures
        r@ == opt_or_empty(instance.profile_arn()),
{
    match &instance.iam_instance_profile {
        Some(profile) => text_or_empty(&profile.arn),
        None => String::new(),
    }
}

fn zone_text(instance: &Instance) -> (r: String)
    ensures
        r@ == opt_or_empty(instance.zone()),
{
    match &instance.placement {
        Some(placement) => text_or_empty(&placement.availability_zone),
        None => String::new(),
    }
}

fn state_name_text(instance: &Instance) -> (r: String)
    ensures
        r@ == opt_or_empty(instance.state_name()),
{
    match &instance.state {
        Some(state) => text_or_empty(&state.name),
        None => String::new(),
    }
}

/// Projects `instance` to the fields with which it is listed under
/// `account`. The fixed fields are always there, empty where the instance
/// has nothing to show; each tag adds a field of its own.
pub fn format_for_host_output(instance: &Instance, account: &str) -> (r: Table<String>)
    ensures
        r@ == host_fields(instance, account@),
{
    let mut map: Table<String> = Table::new();
    map.insert("ec2_account_value".to_owned(), account.to_owned());
    map.insert("ec2_architecture".to_owned(), text_or_empty(&instance.architecture));
    map.insert("ec2_hypervisor".to_owned(), text_or_empty(&instance.hypervisor));
    map.insert("ec2_id".to_owned(), text_or_empty(&instance.instance_id));
    map.insert("ec2_image_id".to_owned(), text_or_empty(&instance.image_id));
    map.insert("ec2_instance_profile".to_owned(), profile_arn_text(instance));
    map.insert("ec2_instance_type".to_owned(), text_or_empty(&instance.instance_type));
    map.insert("ec2_ip_address".to_owned(), text_or_empty(&instance.public_ip_address));
    map.insert("ec2_key_name".to_owned(), text_or_empty(&instance.key_name));
    map.insert("ec2_placement".to_owned(), zone_text(instance));
    map.insert("ec2_region".to_owned(), get_region_of_instance(instance));
    map.insert("ec2_root_device_name".to_owned(), text_or_empty(&instance.root_device_name));
    map.insert("ec2_root_device_type".to_owned(), text_or_empty(&instance.root_device_type));
    map.insert("ec2_security_group_ids".to_owned(), get_security_group_ids(instance));
    map.insert("ec2_security_group_names".to_owned(), get_security_group_names(instance));
    map.insert("ec2_state".to_owned(), state_name_text(instance));
    map.insert("ec2_subnet_id".to_owned(), text_or_empty(&instance.subnet_id));
    map.insert("ec2_virtualization_type".to_owned(), text_or_empty(&instance.virtualization_type));
    map.insert("ec2_vpc_id".to_owned(), text_or_empty(&instance.vpc_id));
    match &instance.tags {
        None => {},
        Some(tags) => {
            let mut i: usize = 0;
            while i < tags.len()
                invariant
                    i <= tags.len(),
                    map@ == with_tags(fixed_fields(instance, account@), tags@.take(i as int)),
                decreases tags.len() - i,
            {
                assert(tags@.take(i + 1).drop_last() == tags@.take(i as int));
                let (k, v) = normalize_tag(&tags[i]);
                map.insert(k, v);
                i += 1;
            }
            assert(tags@.take(tags.len() as int) == tags@);
        },
    }
    map
}

/// Adds the entries of one object to the merged groups: each value goes to
/// the end of the list of its key, and a key that is new gets a list of its
/// own.
fn merge_object(
    acc: &mut Table<Vec<String>>,
    object: &Table<String>,
    Ghost(done): Ghost<Seq<Map<Seq<char>, Seq<char>>>>,
)
    requires
        old(acc)@ == merged_groups(done),
    ensures
        final(acc)@ == merged_groups(done.push(object@)),
{
    let ghost keys = object.keys();
    let ghost values = object.values();
    let count = object.len();
    proof {
        lemma_merge_empty_object(done);
        if count > 0 {
            lemma_prefix_map_step(keys, values, 0);
        } else {
            assert(prefix_map(keys, values, 0) =~= Map::<Seq<char>, Seq<char>>::empty());
        }
    }
    let mut j: usize = 0;
    while j < count
        invariant
            j <= count,
            count == keys.len(),
            count == values.len(),
            keys.no_duplicates(),
            keys == object.keys(),
            values == object.values(),
            acc@ == merged_groups(done.push(prefix_map(keys, values, j as int))),
        decreases count - j,
    {
        let key = object.key_at(j);
        let value = object.value_at(j);
        let ghost part = prefix_map(keys, values, j as int);
        proof {
            lemma_prefix_map_step(keys, values, j as int);
            lemma_merge_one_entry(done, part, key@, value@);
        }
        match acc.position(key.as_str()) {
            Some(at) => {
                acc.append_at(at, value.clone());
            },
            None => {
                proof {
                    lemma_no_contribution(done.push(part), key@);
                }
                let mut list: Vec<String> = Vec::new();
                list.push(value.clone());
                assert(list.deep_view() =~= Seq::<Seq<char>>::empty().push(value@));
                acc.insert(key.clone(), list);
            },
        }
        j += 1;
    }
    proof {
        if count > 0 {
            lemma_prefix_map_step(keys, values, 0);
        } else {
            assert(prefix_map(keys, values, 0) =~= object@);
        }
    }
}

/// One value that is handed to the merge: the group map of a host, or
/// whatever else came in its place.
#[derive(Debug)]
pub enum MergeInput {
    /// An object: group keys, each with the name of the host.
    Object(Table<String>),
    /// A value that is no object, as its text.
    Other(String),
}

impl DeepView for MergeInput {
    type V = Option<Map<Seq<char>, Seq<char>>>;

    open spec fn deep_view(&self) -> Option<Map<Seq<char>, Seq<char>>> {
        match self {
            MergeInput::Object(object) => Some(object@),
            MergeInput::Other(_) => None,
        }
    }
}

/// Folds the group maps of all hosts into one map from each group key to
/// the names of its hosts. The first host that brings a key starts its list;
/// every later one is appended, so each list is in the order of `objects`.
/// A value that is no object is ignored.
pub fn merge_ec2_results(objects: Vec<MergeInput>) -> (r: Table<Vec<String>>)
    ensures
        r@ == merged_groups(objects_of(objects.deep_view())),
{
    let ghost all = objects.deep_view();
    let mut acc: Table<Vec<String>> = Table::new();
    let mut i: usize = 0;
    assert(acc@ =~= merged_groups(objects_of(all.take(0))));
    while i < objects.len()
        invariant
            i <= objects.len(),
            all == objects.deep_view(),
            acc@ == merged_groups(objects_of(all.take(i as int))),
        decreases objects.len() - i,
    {
        assert(all.take(i + 1).drop_last() =~= all.take(i as int));
        match &objects[i] {
            MergeInput::Object(object) => {
                merge_object(&mut acc, object, Ghost(objects_of(all.take(i as int))));
            },
            MergeInput::Other(_) => {},
        }
        i += 1;
    }
    assert(all.take(objects.len() as int) =~= all);
    acc
}

} // verus!
