//! An inventory of the instances of several accounts and regions, grouped
//! the way configuration management wants it: every group with its hosts,
//! and under `_meta` the fields of every host.
//!
//! The library decides and computes; it reads no file and makes no call to
//! the provider. Its user asks the provider and hands over the answers.
//!
//! - `config`: the settings of a scan and their defaults.
//! - `instance`: the instance record as the inventory reads it.
//! - `ec2_utils`: whether an instance is listed, under which name and with
//!   which fields; the merge of the groups of all hosts.
//! - `groups`: the groups of one host.
//! - `pattern`: the patterns that a host name has to pass.
//! - `collector`: from the answers of the provider to the records of the
//!   listed hosts.
//! - `inventory`: from the records to the document.
//! - `merge`: the model of merging and what holds of it.
//! - `cache`: freshness and contents of the cached document.
//! - `role_assumer`: which credentials an account is scanned with.
//! - `request`: accounts and filters of a scan.
//! - `run`: the steps of a run and their order.
//! - `table`, `text`, `errors`: the map, the string helpers and the failures
//!   that the rest is built on.

pub mod cache;
pub mod collector;
pub mod config;
pub mod ec2_utils;
pub mod errors;
pub mod groups;
pub mod instance;
pub mod inventory;
pub mod merge;
pub mod pattern;
pub mod request;
pub mod role_assumer;
pub mod run;
pub mod table;
pub mod text;
