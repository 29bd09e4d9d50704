//! What is asked of the provider: which accounts, and with which filters.

use crate::table::Table;
use crate::text::{split_commas, split_on};
use vstd::prelude::*;

verus! {

/// One filter of a request: a name and the values that it admits.
#[derive(Clone, Debug, PartialEq, Eq)]
pub struct RequestFilter {
    pub name: String,
    pub values: Vec<String>,
}

impl DeepView for RequestFilter {
    type V = (Seq<char>, Seq<Seq<char>>);

    open spec fn deep_view(&self) -> (Seq<char>, Seq<Seq<char>>) {
        (self.name@, self.values.deep_view())
    }
}

/// The filters that the configuration sets: one for each name, in the order
/// of the names, its values being the pieces of the comma-separated text.
pub open spec fn configured_filters(names: Seq<Seq<char>>, values: Seq<Seq<char>>) -> Seq<
    (Seq<char>, Seq<Seq<char>>),
> {
    Seq::new(names.len(), |i: int| (names[i], split_on(values[i], ',')))
}

/// The filter that a list of wanted hosts adds: their instance ids.
pub open spec fn host_filters(hosts: Option<Seq<char>>) -> Seq<(Seq<char>, Seq<Seq<char>>)> {
    match hosts {
        Some(list) => seq![("instance-id"@, split_on(list, ','))],
        None => Seq::empty(),
    }
}

/// The filters of a request: the configured ones, then that of the wanted
/// hosts if there is such a list.
pub open spec fn request_filters(
    names: Seq<Seq<char>>,
    values: Seq<Seq<char>>,
    hosts: Option<Seq<char>>,
) -> Seq<(Seq<char>, Seq<Seq<char>>)> {
    configured_filters(names, values) + host_filters(hosts)
}

/// Builds the filters of the request from the configured instance filters
/// and, where single hosts are asked for, from the comma-separated list of
/// their ids. `None` when that makes no filter at all.
pub fn build_filters(instance_filters: &Table<String>, hosts: Option<&str>) -> (r: Option<
    Vec<RequestFilter>,
>)
    ensures
        match r {
            Some(filters) => filters.len() > 0 && filters.deep_view() == request_filters(
                instance_filters.keys(),
                instance_filters.values(),
                match hosts {
                    Some(list) => Some(list@),
                    None => None,
                },
            ),
            None => request_filters(
                instance_filters.keys(),
                instance_filters.values(),
                match hosts {
                    Some(list) => Some(list@),
                    None => None,
                },
            ).len() == 0,
        },
{
    let ghost names = instance_filters.keys();
    let ghost values = instance_filters.values();
    let count = instance_filters.len();
    let mut out: Vec<RequestFilter> = Vec::new();
    let mut i: usize = 0;
    while i < count
        invariant
            i <= count,
            count == names.len(),
            count == values.len(),
            names == instance_filters.keys(),
            values == instance_filters.values(),
            out.len() == i,
            forall|j: int|
                0 <= j < i ==> #[trigger] out[j].deep_view() == (
                    names[j],
                    split_on(values[j], ','),
                ),
        decreases count - i,
    {
        let name = instance_filters.key_at(i).clone();
        let pieces = split_commas(instance_filters.value_at(i).as_str());
        out.push(RequestFilter { name, values: pieces });
        i += 1;
    }
    match hosts {
        Some(list) => {
            let filter = RequestFilter {
                name: "instance-id".to_owned(),
                values: split_commas(list),
            };
            out.push(filter);
        },
        None => {
            assert(out.deep_view() + host_filters(None) =~= out.deep_view());
        },
    }
    if out.len() == 0 {
        None
    } else {
        Some(out)
    }
}

/// The accounts of a run: the pieces of the comma-separated list in which
/// they are given.
pub fn account_list(roles: &str) -> (r: Vec<String>)
    ensures
        r.deep_view() == split_on(roles@, ','),
        r.len() >= 1,
{
    proof {
        crate::text::lemma_split_pieces(roles@, ',');
    }
    split_commas(roles)
}

} // verus!
