//! The cache of the last inventory: one file of JSON text that is served
//! in place of a scan while it is young enough.
//!
//! Nothing here touches the file system. The caller looks at the file and
//! hands over what it saw; what is decided from it is decided here.

use crate::errors::InventoryError;
use crate::instance::opt_text;
use vstd::prelude::*;

verus! {

/// Whether `path` begins with a home-directory shorthand that can be
/// expanded: a tilde, alone or followed by a slash.
pub open spec fn has_home_shorthand(path: Seq<char>) -> bool {
    path.len() >= 1 && path[0] == '~' && (path.len() == 1 || path[1] == '/')
}

/// Whether `text` ends with `tail`.
pub open spec fn ends_with(text: Seq<char>, tail: Seq<char>) -> bool {
    text.len() >= tail.len() && text.skip(text.len() - tail.len()) == tail
}

/// Whether `text` begins with `start`.
pub open spec fn begins_with(text: Seq<char>, start: Seq<char>) -> bool {
    start.len() <= text.len() && text.take(start.len() as int) == start
}

/// Whether `expanded` can be what becomes of `path` when its home shorthand
/// is expanded: a path without the shorthand stays as it is, and one with it
/// stays as it is or has its tilde replaced, what followed the tilde still
/// at its end.
pub open spec fn expands_to(path: Seq<char>, expanded: Seq<char>) -> bool {
    expanded == path || (has_home_shorthand(path) && ends_with(expanded, path.skip(1)))
}

/// Expands a leading `~` with `shellexpand::tilde`. Which directory takes
/// the place of the tilde depends on the environment, so the contract says
/// only what holds of every outcome: a path without the shorthand comes back
/// unchanged, and one with it comes back unchanged or with the tilde
/// replaced, what followed the tilde still at its end.
#[verifier::external_body]
pub(crate) fn expand_home(path: &str) -> (r: String)
    ensures
        expands_to(path@, r@),
{
    shellexpand::tilde(path).into_owned()
}

/// The parent of a path as `std::path::Path::parent` gives it on the
/// platforms this library is built for, where `/` separates the components
/// of a path: the path without its final component, or `None` where it has
/// none to take off.
pub uninterp spec fn path_parent(path: Seq<char>) -> Option<Seq<char>>;

/// The parent of `path`, by `std::path::Path::parent`. The contract gives
/// the result its name and says of it what the documentation says: the
/// parent is the beginning of the path and shorter than the path, and the
/// empty path and the root `/` have none.
#[verifier::external_body]
pub(crate) fn parent_of(path: &str) -> (r: Option<String>)
    ensures
        opt_text(r) == path_parent(path@),
        r matches Some(p) ==> begins_with(path@, p@) && p@.len() < path@.len(),
        path@.len() == 0 ==> r is None,
        path@ == "/"@ ==> r is None,
{
    std::path::Path::new(path).parent().and_then(|p| p.to_str()).map(|p| p.to_owned())
}

/// Whether `path` is absolute where `/` separates the components of a path:
/// it begins with a slash.
pub open spec fn is_absolute(path: Seq<char>) -> bool {
    path.len() > 0 && path[0] == '/'
}

/// `base` with `name` adjoined, where `/` separates the components of a
/// path: an absolute `name` takes the place of `base`; any other follows
/// `base`, after a slash where `base` is not empty and does not end with
/// one.
pub open spec fn joined_path(base: Seq<char>, name: Seq<char>) -> Seq<char> {
    if is_absolute(name) {
        name
    } else if base.len() > 0 && base.last() != '/' {
        base.push('/') + name
    } else {
        base + name
    }
}

/// `base` with `name` adjoined by `std::path::Path::join`. The contract
/// says what that gives on the platforms this library is built for, where
/// `/` separates the components of a path.
#[verifier::external_body]
pub(crate) fn join_path(base: &str, name: &str) -> (r: String)
    ensures
        r@ == joined_path(base@, name@),
{
    std::path::Path::new(base).join(name).to_string_lossy().into_owned()
}

/// Where the cache of one set of accounts lives.
#[derive(Clone, Debug, PartialEq, Eq)]
pub struct CacheLocation {
    /// The directory above the cache root. It has to exist before the cache
    /// is written.
    pub parent: String,
    /// The cache file: the cache root with the key of the accounts adjoined.
    pub file: String,
}

/// Makes a location of what was found out about the cache root: a root
/// without a parent cannot be used.
pub fn location_from(parent: Option<String>, file: String) -> (r: Result<
    CacheLocation,
    InventoryError,
>)
    ensures
        match parent {
            Some(p) => r matches Ok(location) && location.parent == p && location.file == file,
            None => r matches Err(e) && e == InventoryError::Path,
        },
{
    match parent {
        Some(p) => Ok(CacheLocation { parent: p, file }),
        None => Err(InventoryError::Path),
    }
}

/// Whether `r` is the answer for the expanded root `expanded`: a root with
/// a parent gives the location made of that parent and of the root with the
/// key of the accounts adjoined, and a root without a parent gives the path
/// error.
pub open spec fn answers_for(
    r: Result<CacheLocation, InventoryError>,
    expanded: Seq<char>,
    account_names: Seq<char>,
) -> bool {
    match path_parent(expanded) {
        Some(parent) => r matches Ok(location) && location.parent@ == parent && location.file@
            == joined_path(expanded, account_names),
        None => r matches Err(e) && e == InventoryError::Path,
    }
}

/// Whether `location` lies under the expanded root `expanded`: its parent
/// is the beginning of the root and shorter than it, and its file ends with
/// the key of the accounts and, unless that key is an absolute path, begins
/// with the root.
pub open spec fn located_under(
    location: CacheLocation,
    expanded: Seq<char>,
    account_names: Seq<char>,
) -> bool {
    &&& begins_with(expanded, location.parent@)
    &&& location.parent@.len() < expanded.len()
    &&& ends_with(location.file@, account_names)
    &&& !is_absolute(account_names) ==> begins_with(location.file@, expanded)
}

/// A root with `name` adjoined ends with `name`, and begins with the root
/// unless `name` is absolute.
pub proof fn lemma_joined_path_ends(base: Seq<char>, name: Seq<char>)
    ensures
        ends_with(joined_path(base, name), name),
        !is_absolute(name) ==> begins_with(joined_path(base, name), base),
{
    let joined = joined_path(base, name);
    assert(joined.skip(joined.len() - name.len()) =~= name);
    if !is_absolute(name) {
        assert(joined.take(base.len() as int) =~= base);
    }
}

/// Works out where the cache for `account_names` lives under `root_path`,
/// in which a leading `~` stands for the home directory. A root that has a
/// parent once it is expanded gives the location: the parent, and the root
/// with the key of the accounts adjoined. A root without a parent, as the
/// root `/` and the empty root are, gives the path error. Where the root has
/// no home shorthand, it is the root as it stands that decides.
pub fn cache_location(root_path: &str, account_names: &str) -> (r: Result<
    CacheLocation,
    InventoryError,
>)
    ensures
        exists|expanded: Seq<char>|
            #[trigger] expands_to(root_path@, expanded) && answers_for(
                r,
                expanded,
                account_names@,
            ) && (r matches Ok(location) ==> located_under(location, expanded, account_names@)),
        !has_home_shorthand(root_path@) ==> answers_for(r, root_path@, account_names@),
        r matches Ok(location) ==> (!has_home_shorthand(root_path@) ==> located_under(
            location,
            root_path@,
            account_names@,
        )),
        r matches Err(e) ==> e == InventoryError::Path,
        root_path@.len() == 0 || root_path@ == "/"@ ==> r is Err,
{
    proof {
        reveal_strlit("/");
    }
    let expanded = expand_home(root_path);
    let parent = parent_of(expanded.as_str());
    let file = join_path(expanded.as_str(), account_names);
    proof {
        lemma_joined_path_ends(expanded@, account_names@);
    }
    location_from(parent, file)
}

/// What `str::trim` leaves of a text: the text without the whitespace at
/// its two ends, whitespace being what Unicode calls so.
pub uninterp spec fn trimmed_text(text: Seq<char>) -> Seq<char>;

/// `text` without leading and trailing whitespace, by `str::trim`. The
/// contract only gives that result its name.
#[verifier::external_body]
pub(crate) fn trim(text: &str) -> (r: String)
    ensures
        r@ == trimmed_text(text@),
{
    text.trim().to_owned()
}

/// The moment that an RFC 2822 date names, in seconds since the start of
/// 1970, as `chrono` reads it; `None` for a text that is no such date.
pub uninterp spec fn rfc2822_seconds(text: Seq<char>) -> Option<i64>;

/// Reads an RFC 2822 date with `chrono::DateTime::parse_from_rfc2822` and
/// turns it into seconds with `DateTime::timestamp`. The contract only gives
/// that result its name.
#[verifier::external_body]
pub(crate) fn parse_rfc2822(text: &str) -> (r: Option<i64>)
    ensures
        r == rfc2822_seconds(text@),
{
    match chrono::DateTime::parse_from_rfc2822(text) {
        Ok(moment) => Some(moment.timestamp()),
        Err(_) => None,
    }
}

/// Whether `text` is JSON: whether `serde_json` reads a value from it.
pub uninterp spec fn json_parses(text: Seq<char>) -> bool;

/// Tries to read `text` as a JSON value with `serde_json::from_str` and
/// says whether a value came out. The contract only gives that answer its
/// name.
#[verifier::external_body]
pub(crate) fn parses_as_json(text: &str) -> (r: bool)
    ensures
        r == json_parses(text@),
{
    serde_json::from_str::<serde_json::Value>(text).is_ok()
}

/// What is known about the age of the cache file.
#[derive(Clone, Debug, PartialEq, Eq)]
pub enum FileClock {
    /// The file could not be examined; there may be none.
    Missing,
    /// The file system knows when the file was last changed: so many
    /// seconds ago. `None` when that moment lies in the future.
    Age(Option<u64>),
    /// The file system does not know. `printed` is what the `date` program
    /// printed for the file as an RFC 2822 date, if it printed anything, and
    /// `now` is the current time in seconds since the start of 1970.
    Stamp { printed: Option<String>, now: i64 },
}

/// Whether a file is fresh that was last changed at `modified` when it is
/// `now` and files stay fresh for `timeout` seconds.
pub open spec fn young_enough(now: int, modified: int, timeout: int) -> bool {
    now - modified < timeout
}

/// Whether the cache file is fresh. It depends on the age of the file and
/// on the timeout alone, never on what the file holds; where the age cannot
/// be told, the file is stale.
pub open spec fn fresh(clock: FileClock, timeout: u64) -> bool {
    match clock {
        FileClock::Missing => false,
        FileClock::Age(Some(seconds)) => young_enough(seconds as int, 0, timeout as int),
        FileClock::Age(None) => false,
        FileClock::Stamp { printed: Some(text), now } => match rfc2822_seconds(
            trimmed_text(text@),
        ) {
            Some(modified) => young_enough(now as int, modified as int, timeout as int),
            None => false,
        },
        FileClock::Stamp { printed: None, now } => false,
    }
}

/// Whether a file last changed at `modified` is fresh at `now`.
pub fn is_young_enough(now: i64, modified: i64, timeout: u64) -> (r: bool)
    ensures
        r == young_enough(now as int, modified as int, timeout as int),
{
    let age: i128 = (now as i128) - (modified as i128);
    age < (timeout as i128)
}

/// Decides whether the cache file is fresh.
pub fn is_fresh(clock: &FileClock, timeout: u64) -> (r: bool)
    ensures
        r == fresh(*clock, timeout),
{
    match clock {
        FileClock::Missing => false,
        FileClock::Age(Some(seconds)) => *seconds < timeout,
        FileClock::Age(None) => false,
        FileClock::Stamp { printed: Some(text), now } => {
            let date = trim(text.as_str());
            match parse_rfc2822(date.as_str()) {
                Some(modified) => is_young_enough(*now, modified, timeout),
                None => false,
            }
        },
        FileClock::Stamp { printed: None, now: _ } => false,
    }
}

/// The data of a cache file with these contents: the contents themselves,
/// where they are JSON. A missing file, an empty one and one that does not
/// hold JSON have no data.
pub open spec fn cached_data(contents: Option<Seq<char>>) -> Option<Seq<char>> {
    match contents {
        Some(text) => if text.len() > 0 && json_parses(text) {
            Some(text)
        } else {
            None
        },
        None => None,
    }
}

/// The cache as it was found when the run began.
#[derive(Debug)]
pub struct Cache {
    path_to_cache: String,
    valid_cache: bool,
    potential_json_value: Option<String>,
}

/// What has to be written to disk to renew the cache: `contents` replaces
/// whatever the file at `path` held.
#[derive(Clone, Debug, PartialEq, Eq)]
pub struct CacheWrite {
    pub path: String,
    pub contents: String,
}

impl Cache {
    /// The path of the cache file.
    pub closed spec fn path(&self) -> Seq<char> {
        self.path_to_cache@
    }

    /// Whether the file was fresh when it was looked at.
    pub closed spec fn valid(&self) -> bool {
        self.valid_cache
    }

    /// The data that the file held, if it held any.
    pub closed spec fn data(&self) -> Option<Seq<char>> {
        opt_text(self.potential_json_value)
    }

    /// Takes stock of the cache file at `path_to_cache`: `clock` is what is
    /// known of its age and `contents` what it holds, `None` for a file that
    /// is missing or cannot be read as text. Freshness and data are settled
    /// independently: a stale file may well hold data.
    pub fn new(
        path_to_cache: String,
        timeout_seconds: u64,
        clock: &FileClock,
        contents: Option<&str>,
    ) -> (r: Cache)
        ensures
            r.path() == path_to_cache@,
            r.valid() == fresh(*clock, timeout_seconds),
            r.data() == cached_data(
                match contents {
                    Some(text) => Some(text@),
                    None => None,
                },
            ),
    {
        let valid_cache = is_fresh(clock, timeout_seconds);
        let potential_json_value = match contents {
            Some(text) => if !text.is_empty() && parses_as_json(text) {
                Some(text.to_owned())
            } else {
                None
            },
            None => None,
        };
        Cache { path_to_cache, valid_cache, potential_json_value }
    }

    /// Whether the cache is fresh under the timeout it was opened with.
    pub fn is_cache_valid(&self) -> (r: bool)
        ensures
            r == self.valid(),
    {
        self.valid_cache
    }

    /// Whether the cache holds data, fresh or not.
    pub fn has_cache_data(&self) -> (r: bool)
        ensures
            r == self.data().is_some(),
    {
        self.potential_json_value.is_some()
    }

    /// Hands out the data of the cache, which is used up by that.
    pub fn get_cache_data(self) -> (r: Result<String, InventoryError>)
        ensures
            match self.data() {
                Some(data) => r matches Ok(text) && text@ == data,
                None => r matches Err(e) && e == InventoryError::NoCacheData,
            },
    {
        match self.potential_json_value {
            Some(data) => Ok(data),
            None => Err(InventoryError::NoCacheData),
        }
    }

    /// Says what to write to renew the cache, which is used up by that. The
    /// file is replaced as a whole.
    pub fn write_cache_data(self, to_write: &str) -> (r: CacheWrite)
        ensures
            r.path@ == self.path(),
            r.contents@ == to_write@,
    {
        CacheWrite { path: self.path_to_cache, contents: to_write.to_owned() }
    }
}

/// A cache file that has just been written is fresh under every timeout but
/// zero.
pub proof fn lemma_fresh_after_write(timeout: u64)
    requires
        timeout > 0,
    ensures
        fresh(FileClock::Age(Some(0)), timeout),
{
}

/// Writing and reading back: a cache that is opened on a text that was
/// just written, its file not a second old, is fresh under every timeout but
/// zero, and where the text is JSON and not empty, the data of the cache is
/// that text, character for character.
pub proof fn lemma_written_is_read_back(written: Seq<char>, timeout: u64)
    requires
        timeout > 0,
    ensures
        fresh(FileClock::Age(Some(0)), timeout),
        written.len() > 0 && json_parses(written) ==> cached_data(Some(written)) == Some(
            written,
        ),
{
}

} // verus!
