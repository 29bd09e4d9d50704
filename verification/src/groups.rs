//! The groups of one host.
//!
//! A listed host belongs to a group for its id, its region, its zone, its
//! type, its key pair, its virtual network, each of its security groups and
//! each of its tags, and to the group `ec2`. A tag named `Flags` adds one
//! group for each piece of its comma-separated value.
//!
//! The key for the type is made of the type as it stands, so that type
//! `m3.medium` gives `type_m3.medium`. In the keys for the key pair, the
//! virtual network, the security groups and the flags every character that
//! is not safe in a name is replaced by an underscore. So it is in the key
//! and the value of a tag, which are put in lowercase and joined by `=`, so
//! that tag `Role` with value `Web` gives `tag_role=web`.

use crate::ec2_utils::{
    get_raw_region_of_instance, get_raw_security_group_names, group_names, last_index_of,
    lemma_last_index_of, raw_region, to_safe,
};
use crate::instance::{opt_text, text_of, Instance, Tag};
use crate::table::Table;
use crate::text::{
    ascii_lower_text, concat_text, safe_text, same_text, split_commas, split_on, to_ascii_lower,
};
use vstd::prelude::*;

verus! {

/// The group key made of `prefix` and `value` as they stand.
pub open spec fn prefixed_key(prefix: Seq<char>, value: Seq<char>) -> Seq<char> {
    prefix + value
}

/// The group key made of `prefix` and `value` with every unsafe character
/// replaced by an underscore.
pub open spec fn safe_key(prefix: Seq<char>, value: Seq<char>) -> Seq<char> {
    safe_text(prefix + value)
}

/// The set that holds `key` if there is one.
pub open spec fn opt_key(key: Option<Seq<char>>) -> Set<Seq<char>> {
    match key {
        Some(k) => set![k],
        None => Set::empty(),
    }
}

/// The group key for an optional attribute: none when the attribute is
/// absent.
pub open spec fn opt_prefixed_key(prefix: Seq<char>, value: Option<Seq<char>>) -> Set<Seq<char>> {
    match value {
        Some(v) => set![prefixed_key(prefix, v)],
        None => Set::empty(),
    }
}

/// The safe group key for an optional attribute: none when the attribute is
/// absent.
pub open spec fn opt_safe_key(prefix: Seq<char>, value: Option<Seq<char>>) -> Set<Seq<char>> {
    match value {
        Some(v) => set![safe_key(prefix, v)],
        None => Set::empty(),
    }
}

/// One group key for each name.
pub open spec fn security_group_keys(names: Seq<Seq<char>>) -> Set<Seq<char>> {
    Set::new(
        |k: Seq<char>|
            exists|i: int|
                0 <= i < names.len() && k == safe_key("security_group_"@, #[trigger] names[i]),
    )
}

/// One side of the group key of a tag: the text with every unsafe
/// character replaced by an underscore, its capitals made small.
pub open spec fn tag_part(text: Seq<char>) -> Seq<char> {
    ascii_lower_text(safe_text(text))
}

/// The group key of a tag: `tag_`, the key, `=` and the value, key and
/// value with their unsafe characters replaced and in lowercase.
pub open spec fn tag_group_key(tag: Tag) -> Seq<char> {
    "tag_"@ + tag_part(text_of(tag.key)) + "="@ + tag_part(text_of(tag.value))
}

/// One group key for each piece of a comma-separated list of flags.
pub open spec fn flag_keys(flags: Seq<Seq<char>>) -> Set<Seq<char>> {
    Set::new(
        |k: Seq<char>|
            exists|j: int| 0 <= j < flags.len() && k == safe_key("flag_"@, #[trigger] flags[j]),
    )
}

/// The group keys that one tag adds: its own, and those of its flags when
/// the tag is named `Flags`.
pub open spec fn tag_keys(tag: Tag) -> Set<Seq<char>> {
    if text_of(tag.key) == "Flags"@ {
        flag_keys(split_on(text_of(tag.value), ',')).insert(tag_group_key(tag))
    } else {
        set![tag_group_key(tag)]
    }
}

/// The group keys that the tags add.
pub open spec fn all_tag_keys(tags: Seq<Tag>) -> Set<Seq<char>> {
    Set::new(
        |k: Seq<char>|
            exists|i: int| 0 <= i < tags.len() && tag_keys(#[trigger] tags[i]).contains(k),
    )
}

/// The keys of the groups that `instance` belongs to.
pub open spec fn group_keys(instance: &Instance) -> Set<Seq<char>> {
    opt_key(opt_text(instance.instance_id)).union(opt_key(raw_region(instance))).union(
        opt_key(instance.zone()),
    ).union(opt_prefixed_key("type_"@, opt_text(instance.instance_type))).union(
        opt_safe_key("key_"@, opt_text(instance.key_name)),
    ).union(opt_safe_key("vpc_id_"@, opt_text(instance.vpc_id))).union(
        security_group_keys(group_names(instance.groups())),
    ).union(all_tag_keys(instance.tag_list())).insert("ec2"@)
}

/// No group is called `_meta`, the name under which the document keeps the
/// fields of the hosts, unless the id or the zone of the instance is that
/// very word: every other key begins with a letter or holds a hyphen.
pub proof fn lemma_no_group_is_meta(instance: &Instance)
    requires
        opt_text(instance.instance_id) != Some("_meta"@),
        instance.zone() != Some("_meta"@),
    ensures
        !group_keys(instance).contains("_meta"@),
{
    reveal_strlit("_meta");
    reveal_strlit("type_");
    reveal_strlit("key_");
    reveal_strlit("vpc_id_");
    reveal_strlit("security_group_");
    reveal_strlit("flag_");
    reveal_strlit("tag_");
    reveal_strlit("ec2");
    let meta = "_meta"@;
    assert(meta[0] == '_');
    match raw_region(instance) {
        Some(region) => {
            let zone = instance.zone()->0;
            let at = last_index_of(zone, '-');
            lemma_last_index_of(zone, '-');
            assert(region[at] == '-');
            assert(meta.len() == 5 && meta[1] == 'm' && meta[2] == 'e' && meta[3] == 't'
                && meta[4] == 'a');
            if region == meta {
                assert(0 <= at < 5);
                assert(meta[at] != '-');
            }
        },
        None => {},
    }
    match instance.instance_type {
        Some(t) => {
            assert(prefixed_key("type_"@, t@)[0] == 't');
        },
        None => {},
    }
    match instance.key_name {
        Some(k) => {
            assert(("key_"@ + k@)[0] == 'k');
            assert(safe_key("key_"@, k@)[0] == 'k');
        },
        None => {},
    }
    match instance.vpc_id {
        Some(v) => {
            assert(("vpc_id_"@ + v@)[0] == 'v');
            assert(safe_key("vpc_id_"@, v@)[0] == 'v');
        },
        None => {},
    }
    let names = group_names(instance.groups());
    assert forall|i: int| 0 <= i < names.len() implies safe_key(
        "security_group_"@,
        #[trigger] names[i],
    ) != meta by {
        assert(("security_group_"@ + names[i])[0] == 's');
        assert(safe_key("security_group_"@, names[i])[0] == 's');
    }
    let tags = instance.tag_list();
    assert forall|i: int| 0 <= i < tags.len() implies !tag_keys(#[trigger] tags[i]).contains(
        meta,
    ) by {
        let tag = tags[i];
        assert(tag_group_key(tag)[0] == 't');
        let flags = split_on(text_of(tag.value), ',');
        assert forall|j: int| 0 <= j < flags.len() implies safe_key(
            "flag_"@,
            #[trigger] flags[j],
        ) != meta by {
            assert(("flag_"@ + flags[j])[0] == 'f');
            assert(safe_key("flag_"@, flags[j])[0] == 'f');
        }
    }
    assert("ec2"@[0] == 'e');
}

/// The map that sends every key of `keys` to `value`.
pub open spec fn constant_map(keys: Set<Seq<char>>, value: Seq<char>) -> Map<Seq<char>, Seq<char>> {
    Map::new(|k: Seq<char>| keys.contains(k), |k: Seq<char>| value)
}

/// The group map of a host: each of its group keys, mapped to the name
/// under which the host is listed.
pub open spec fn group_map(instance: &Instance, dest: Seq<char>) -> Map<Seq<char>, Seq<char>> {
    constant_map(group_keys(instance), dest)
}

fn put(map: &mut Table<String>, key: String, dest: &str, Ghost(keys): Ghost<Set<Seq<char>>>)
    requires
        old(map)@ == constant_map(keys, dest@),
    ensures
        final(map)@ == constant_map(keys.insert(key@), dest@),
{
    map.insert(key, dest.to_owned());
}

fn put_opt(
    map: &mut Table<String>,
    key: Option<String>,
    dest: &str,
    Ghost(keys): Ghost<Set<Seq<char>>>,
)
    requires
        old(map)@ == constant_map(keys, dest@),
    ensures
        final(map)@ == constant_map(keys.union(opt_key(opt_text(key))), dest@),
{
    match key {
        Some(k) => {
            put(map, k, dest, Ghost(keys));
        },
        None => {
            assert(keys =~= keys.union(Set::empty()));
        },
    }
}

fn put_prefixed(
    map: &mut Table<String>,
    prefix: &str,
    value: &Option<String>,
    dest: &str,
    Ghost(keys): Ghost<Set<Seq<char>>>,
)
    requires
        old(map)@ == constant_map(keys, dest@),
    ensures
        final(map)@ == constant_map(keys.union(opt_prefixed_key(prefix@, opt_text(*value))), dest@),
{
    match value {
        Some(v) => {
            let key = concat_text(prefix, v.as_str());
            put(map, key, dest, Ghost(keys));
            assert(keys.insert(prefixed_key(prefix@, v@)) =~= keys.union(
                set![prefixed_key(prefix@, v@)],
            ));
        },
        None => {
            assert(keys =~= keys.union(Set::empty()));
        },
    }
}

fn put_safe(
    map: &mut Table<String>,
    prefix: &str,
    value: &Option<String>,
    dest: &str,
    Ghost(keys): Ghost<Set<Seq<char>>>,
)
    requires
        old(map)@ == constant_map(keys, dest@),
    ensures
        final(map)@ == constant_map(keys.union(opt_safe_key(prefix@, opt_text(*value))), dest@),
{
    match value {
        Some(v) => {
            let raw = concat_text(prefix, v.as_str());
            let key = to_safe(raw.as_str());
            put(map, key, dest, Ghost(keys));
            assert(keys.insert(safe_key(prefix@, v@)) =~= keys.union(
                set![safe_key(prefix@, v@)],
            ));
        },
        None => {
            assert(keys =~= keys.union(Set::empty()));
        },
    }
}

fn put_security_groups(
    map: &mut Table<String>,
    names: &Vec<String>,
    dest: &str,
    Ghost(keys): Ghost<Set<Seq<char>>>,
)
    requires
        old(map)@ == constant_map(keys, dest@),
    ensures
        final(map)@ == constant_map(keys.union(security_group_keys(names.deep_view())), dest@),
{
    let ghost all = names.deep_view();
    let mut i: usize = 0;
    assert(keys =~= keys.union(security_group_keys(all.take(0))));
    while i < names.len()
        invariant
            i <= names.len(),
            all == names.deep_view(),
            map@ == constant_map(keys.union(security_group_keys(all.take(i as int))), dest@),
        decreases names.len() - i,
    {
        let raw = concat_text("security_group_", names[i].as_str());
        let key = to_safe(raw.as_str());
        let ghost so_far = keys.union(security_group_keys(all.take(i as int)));
        put(map, key, dest, Ghost(so_far));
        proof {
            let k = safe_key("security_group_"@, all[i as int]);
            let next = security_group_keys(all.take(i + 1));
            assert(all.take(i + 1)[i as int] == all[i as int]);
            assert forall|q: Seq<char>| #[trigger]
                so_far.insert(k).contains(q) == keys.union(next).contains(q) by {
                if security_group_keys(all.take(i as int)).contains(q) {
                    let w = choose|w: int|
                        0 <= w < all.take(i as int).len() && q == safe_key(
                            "security_group_"@,
                            #[trigger] all.take(i as int)[w],
                        );
                    assert(all.take(i + 1)[w] == all.take(i as int)[w]);
                }
                if next.contains(q) {
                    let w = choose|w: int|
                        0 <= w < all.take(i + 1).len() && q == safe_key(
                            "security_group_"@,
                            #[trigger] all.take(i + 1)[w],
                        );
                    if w < i {
                        assert(all.take(i as int)[w] == all.take(i + 1)[w]);
                    }
                }
            }
            assert(so_far.insert(k) =~= keys.union(next));
        }
        i += 1;
    }
    assert(all.take(names.len() as int) =~= all);
}

fn put_flags(
    map: &mut Table<String>,
    flags: &Vec<String>,
    dest: &str,
    Ghost(keys): Ghost<Set<Seq<char>>>,
)
    requires
        old(map)@ == constant_map(keys, dest@),
    ensures
        final(map)@ == constant_map(keys.union(flag_keys(flags.deep_view())), dest@),
{
    let ghost all = flags.deep_view();
    let mut i: usize = 0;
    assert(keys =~= keys.union(flag_keys(all.take(0))));
    while i < flags.len()
        invariant
            i <= flags.len(),
            all == flags.deep_view(),
            map@ == constant_map(keys.union(flag_keys(all.take(i as int))), dest@),
        decreases flags.len() - i,
    {
        let raw = concat_text("flag_", flags[i].as_str());
        let key = to_safe(raw.as_str());
        let ghost so_far = keys.union(flag_keys(all.take(i as int)));
        put(map, key, dest, Ghost(so_far));
        proof {
            let k = safe_key("flag_"@, all[i as int]);
            let next = flag_keys(all.take(i + 1));
            assert(all.take(i + 1)[i as int] == all[i as int]);
            assert forall|q: Seq<char>| #[trigger]
                so_far.insert(k).contains(q) == keys.union(next).contains(q) by {
                if flag_keys(all.take(i as int)).contains(q) {
                    let w = choose|w: int|
                        0 <= w < all.take(i as int).len() && q == safe_key(
                            "flag_"@,
                            #[trigger] all.take(i as int)[w],
                        );
                    assert(all.take(i + 1)[w] == all.take(i as int)[w]);
                }
                if next.contains(q) {
                    let w = choose|w: int|
                        0 <= w < all.take(i + 1).len() && q == safe_key(
                            "flag_"@,
                            #[trigger] all.take(i + 1)[w],
                        );
                    if w < i {
                        assert(all.take(i as int)[w] == all.take(i + 1)[w]);
                    }
                }
            }
            assert(so_far.insert(k) =~= keys.union(next));
        }
        i += 1;
    }
    assert(all.take(flags.len() as int) =~= all);
}

fn field_text(field: &Option<String>) -> (r: &str)
    ensures
        r@ == text_of(*field),
{
    match field {
        Some(s) => s.as_str(),
        None => {
            proof {
                reveal_strlit("");
            }
            ""
        },
    }
}

fn put_tag(map: &mut Table<String>, tag: &Tag, dest: &str, Ghost(keys): Ghost<Set<Seq<char>>>)
    requires
        old(map)@ == constant_map(keys, dest@),
    ensures
        final(map)@ == constant_map(keys.union(tag_keys(*tag)), dest@),
{
    let tag_key = field_text(&tag.key);
    let tag_value = field_text(&tag.value);
    let ghost mut so_far = keys;
    if same_text(tag_key, "Flags") {
        let flags = split_commas(tag_value);
        put_flags(map, &flags, dest, Ghost(keys));
        proof {
            so_far = keys.union(flag_keys(flags.deep_view()));
        }
    }
    let safe_key = to_safe(tag_key);
    let safe_value = to_safe(tag_value);
    let named = concat_text("tag_", to_ascii_lower(safe_key.as_str()).as_str());
    let assigned = concat_text(named.as_str(), "=");
    let key = concat_text(assigned.as_str(), to_ascii_lower(safe_value.as_str()).as_str());
    put(map, key, dest, Ghost(so_far));
}

fn put_tags(
    map: &mut Table<String>,
    tags: &Vec<Tag>,
    dest: &str,
    Ghost(keys): Ghost<Set<Seq<char>>>,
)
    requires
        old(map)@ == constant_map(keys, dest@),
    ensures
        final(map)@ == constant_map(keys.union(all_tag_keys(tags@)), dest@),
{
    let mut i: usize = 0;
    assert(keys =~= keys.union(all_tag_keys(tags@.take(0))));
    while i < tags.len()
        invariant
            i <= tags.len(),
            map@ == constant_map(keys.union(all_tag_keys(tags@.take(i as int))), dest@),
        decreases tags.len() - i,
    {
        let ghost so_far = keys.union(all_tag_keys(tags@.take(i as int)));
        put_tag(map, &tags[i], dest, Ghost(so_far));
        proof {
            let next = all_tag_keys(tags@.take(i + 1));
            assert(tags@.take(i + 1)[i as int] == tags@[i as int]);
            assert forall|q: Seq<char>| #[trigger]
                so_far.union(tag_keys(tags@[i as int])).contains(q) == keys.union(next).contains(
                    q,
                ) by {
                if all_tag_keys(tags@.take(i as int)).contains(q) {
                    let w = choose|w: int|
                        0 <= w < tags@.take(i as int).len() && tag_keys(
                            #[trigger] tags@.take(i as int)[w],
                        ).contains(q);
                    assert(tags@.take(i + 1)[w] == tags@.take(i as int)[w]);
                }
                if next.contains(q) {
                    let w = choose|w: int|
                        0 <= w < tags@.take(i + 1).len() && tag_keys(
                            #[trigger] tags@.take(i + 1)[w],
                        ).contains(q);
                    if w < i {
                        assert(tags@.take(i as int)[w] == tags@.take(i + 1)[w]);
                    }
                }
            }
            assert(so_far.union(tag_keys(tags@[i as int])) =~= keys.union(next));
        }
        i += 1;
    }
    assert(tags@.take(tags.len() as int) =~= tags@);
}

fn clone_opt(field: &Option<String>) -> (r: Option<String>)
    ensures
        opt_text(r) == opt_text(*field),
{
    match field {
        Some(s) => Some(s.clone()),
        None => None,
    }
}

fn zone_of(instance: &Instance) -> (r: Option<String>)
    ensures
        opt_text(r) == instance.zone(),
{
    match &instance.placement {
        Some(placement) => clone_opt(&placement.availability_zone),
        None => None,
    }
}

/// Builds the group map of `instance`: every group key of the instance,
/// mapped to `dest`, the name under which the host is listed.
pub fn group_map_of(instance: &Instance, dest: &str) -> (r: Table<String>)
    ensures
        r@ == group_map(instance, dest@),
{
    let mut map: Table<String> = Table::new();
    let ghost s0 = Set::<Seq<char>>::empty();
    assert(map@ =~= constant_map(s0, dest@));
    put_opt(&mut map, clone_opt(&instance.instance_id), dest, Ghost(s0));
    let ghost s1 = s0.union(opt_key(opt_text(instance.instance_id)));
    put_opt(&mut map, get_raw_region_of_instance(instance), dest, Ghost(s1));
    let ghost s2 = s1.union(opt_key(raw_region(instance)));
    put_opt(&mut map, zone_of(instance), dest, Ghost(s2));
    let ghost s3 = s2.union(opt_key(instance.zone()));
    put_prefixed(&mut map, "type_", &instance.instance_type, dest, Ghost(s3));
    let ghost s4 = s3.union(opt_prefixed_key("type_"@, opt_text(instance.instance_type)));
    put_safe(&mut map, "key_", &instance.key_name, dest, Ghost(s4));
    let ghost s5 = s4.union(opt_safe_key("key_"@, opt_text(instance.key_name)));
    put_safe(&mut map, "vpc_id_", &instance.vpc_id, dest, Ghost(s5));
    let ghost s6 = s5.union(opt_safe_key("vpc_id_"@, opt_text(instance.vpc_id)));
    let ghost s7 = s6.union(security_group_keys(group_names(instance.groups())));
    match get_raw_security_group_names(instance) {
        Some(names) => {
            put_security_groups(&mut map, &names, dest, Ghost(s6));
        },
        None => {
            assert(s6 =~= s7);
        },
    }
    let ghost s8 = s7.union(all_tag_keys(instance.tag_list()));
    match &instance.tags {
        Some(tags) => {
            put_tags(&mut map, tags, dest, Ghost(s7));
        },
        None => {
            assert(s7 =~= s8);
        },
    }
    put(&mut map, "ec2".to_owned(), dest, Ghost(s8));
    map
}

} // verus!
