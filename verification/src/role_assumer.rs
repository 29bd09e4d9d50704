//! Which credentials an account is scanned with.
//!
//! An account is named by the role to assume in it, or by a short name that
//! a file of aliases maps to that role. One reserved name stands for the
//! credentials that the environment provides.

use crate::cache::expand_home;
use crate::table::Table;
use crate::text::same_text;
use vstd::prelude::*;

verus! {

/// The members of the JSON object that `bytes` hold, as `serde_json` reads
/// them: each with its name, and with its value where that is a string.
/// `None` where `bytes` are not JSON or the JSON is not an object.
pub uninterp spec fn json_object_members(bytes: Seq<u8>) -> Option<
    Seq<(Seq<char>, Option<Seq<char>>)>,
>;

/// Reads `bytes` with `serde_json::from_slice` and, if a JSON object comes
/// out, lists its members in the order in which `serde_json::Map` yields
/// them. A member whose value is not a string is listed without a value.
/// The contract only gives that result its name.
#[verifier::external_body]
pub(crate) fn object_members(bytes: &[u8]) -> (r: Option<Vec<(String, Option<String>)>>)
    ensures
        r.deep_view() == json_object_members(bytes@),
{
    match serde_json::from_slice::<serde_json::Value>(bytes) {
        Ok(serde_json::Value::Object(members)) => Some(
            members.into_iter().map(
                |(name, value)| match value {
                    serde_json::Value::String(text) => (name, Some(text)),
                    _ => (name, None),
                },
            ).collect(),
        ),
        _ => None,
    }
}

/// The aliases that some members define: each member with a string value
/// maps its name to that value, a later one replacing an earlier one of the
/// same name. Members with other values are passed over.
pub open spec fn aliases_of(members: Seq<(Seq<char>, Option<Seq<char>>)>) -> Map<
    Seq<char>,
    Seq<char>,
>
    decreases members.len(),
{
    if members.len() == 0 {
        Map::empty()
    } else {
        let head = aliases_of(members.drop_last());
        match members.last().1 {
            Some(role) => head.insert(members.last().0, role),
            None => head,
        }
    }
}

/// The aliases that a file defines. A missing file defines none, and neither
/// does one that is not a JSON object.
pub open spec fn aliases_in(file: Option<Seq<u8>>) -> Map<Seq<char>, Seq<char>> {
    match file {
        Some(bytes) => match json_object_members(bytes) {
            Some(members) => aliases_of(members),
            None => Map::empty(),
        },
        None => Map::empty(),
    }
}

/// The name that stands for the credentials of the environment.
pub open spec fn default_account() -> Seq<char> {
    "default"@
}

/// The name of the session in which a role is assumed.
pub open spec fn session_name() -> Seq<char> {
    "default"@
}

/// How the credentials of an account are to be had.
#[derive(Clone, Debug, PartialEq, Eq)]
pub enum CredentialRequest {
    /// Take the credentials that the environment provides.
    Ambient,
    /// Assume this role in a session of this name.
    AssumeRole { role_arn: String, session_name: String },
}

/// The model of a `CredentialRequest`.
pub enum CredentialRequestView {
    Ambient,
    AssumeRole { role_arn: Seq<char>, session_name: Seq<char> },
}

impl DeepView for CredentialRequest {
    type V = CredentialRequestView;

    open spec fn deep_view(&self) -> CredentialRequestView {
        match self {
            CredentialRequest::Ambient => CredentialRequestView::Ambient,
            CredentialRequest::AssumeRole { role_arn, session_name } => {
                CredentialRequestView::AssumeRole {
                    role_arn: role_arn@,
                    session_name: session_name@,
                }
            },
        }
    }
}

/// The role that is assumed for `account`: the one its alias names, or the
/// account itself where it has no alias.
pub open spec fn role_of(aliases: Map<Seq<char>, Seq<char>>, account: Seq<char>) -> Seq<char> {
    if aliases.contains_key(account) {
        aliases[account]
    } else {
        account
    }
}

/// How the credentials of `account` are to be had.
pub open spec fn request_for(
    aliases: Map<Seq<char>, Seq<char>>,
    account: Seq<char>,
) -> CredentialRequestView {
    if account == default_account() {
        CredentialRequestView::Ambient
    } else {
        CredentialRequestView::AssumeRole {
            role_arn: role_of(aliases, account),
            session_name: session_name(),
        }
    }
}

/// Knows the aliases of the accounts and says how to get credentials for
/// each.
#[derive(Debug)]
pub struct RoleAssumer {
    roles_to_assume: Table<String>,
}

impl View for RoleAssumer {
    type V = Map<Seq<char>, Seq<char>>;

    closed spec fn view(&self) -> Map<Seq<char>, Seq<char>> {
        self.roles_to_assume@
    }
}

/// Where the file of aliases is looked for, the home directory written as
/// `~`.
pub open spec fn alias_file() -> Seq<char> {
    "~/.rapture/aliases.json"@
}

impl RoleAssumer {
    /// The path of the file of aliases, the home directory filled in where
    /// the environment tells it.
    pub fn alias_file_path() -> (r: String)
        ensures
            r@ == alias_file() || crate::cache::ends_with(r@, alias_file().skip(1)),
    {
        expand_home("~/.rapture/aliases.json")
    }

    /// Learns the aliases from the contents of the file of aliases; `None`
    /// stands for a file that is not there. A file that is not a JSON
    /// object teaches nothing, and that is no error.
    pub fn new(alias_file: Option<&[u8]>) -> (r: Self)
        ensures
            r@ == aliases_in(
                match alias_file {
                    Some(bytes) => Some(bytes@),
                    None => None,
                },
            ),
    {
        let mut role_names: Table<String> = Table::new();
        match alias_file {
            None => {},
            Some(bytes) => match object_members(bytes) {
                None => {},
                Some(members) => {
                    let ghost all = members.deep_view();
                    let ghost raw = members@;
                    for member in it: members
                        invariant
                            it.seq() == raw,
                            all == raw.map_values(|m: (String, Option<String>)| m.deep_view()),
                            role_names@ == aliases_of(all.take(it.index() as int)),
                    {
                        let ghost n = it.index() as int;
                        assert(all.take(n + 1).drop_last() =~= all.take(n));
                        let (name, value) = member;
                        match value {
                            Some(role) => {
                                role_names.insert(name, role);
                            },
                            None => {},
                        }
                    }
                    assert(all.take(raw.len() as int) =~= all);
                },
            },
        }
        RoleAssumer { roles_to_assume: role_names }
    }

    /// Says which role to assume for `to_assume`: the one its alias names,
    /// or `to_assume` itself where it has no alias.
    pub fn assume_role(&self, to_assume: String) -> (r: CredentialRequest)
        ensures
            r.deep_view() == (CredentialRequestView::AssumeRole {
                role_arn: role_of(self@, to_assume@),
                session_name: session_name(),
            }),
    {
        let role_arn = match self.roles_to_assume.get(to_assume.as_str()) {
            Some(role) => role.clone(),
            None => to_assume,
        };
        CredentialRequest::AssumeRole { role_arn, session_name: "default".to_owned() }
    }

    /// Says to take the credentials of the environment.
    pub fn get_default_creds(&self) -> (r: CredentialRequest)
        ensures
            r.deep_view() == CredentialRequestView::Ambient,
    {
        CredentialRequest::Ambient
    }

    /// Says how to get the credentials of `account`. This is decided once
    /// for an account, and every region of the account is then scanned with
    /// the same credentials.
    pub fn resolve(&self, account: String) -> (r: CredentialRequest)
        ensures
            r.deep_view() == request_for(self@, account@),
    {
        if same_text(account.as_str(), "default") {
            self.get_default_creds()
        } else {
            self.assume_role(account)
        }
    }
}

} // verus!
