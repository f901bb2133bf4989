//! Backup and restore of the data of self-hosted applications, and the
//! house-keeping around the hosts they run on.
//!
//! The library decides; it does not act. It says which snapshots a store
//! holds, what a restore is made from, which commands are run against a
//! host and in which order, and what follows from how each one went. The
//! caller reads directories, runs the commands, asks the operator, and
//! hands back what came of it.
//!
//! The heart of it:
//! - [`registry`]: the applications and what is backed up of each;
//! - [`catalog`]: the snapshots of a store, in listing order;
//! - [`backup`]: the operations that make a snapshot, application by
//!   application;
//! - [`planner`]: the snapshots that a restore is made from;
//! - [`validator`]: the checks on a host before another host's data is
//!   restored onto it;
//! - [`restore`]: the phases of a restore;
//! - [`remote`]: the commands that are run against a host.
//!
//! Around it: [`hosts`], [`inventory`], [`keys`] and [`ssh_config`] for the
//! hosts and how they are reached; [`ansible`] and [`playbook`] for
//! playbooks; [`config`], [`user_config`] and [`secrets`] for settings;
//! [`dns`], [`opml`] and [`sync`] for single tasks; [`fstree`], [`text`],
//! [`moment`], [`output`], [`selector`] and [`environment`] underneath.

pub mod ansible;
pub mod backup;
pub mod catalog;
pub mod config;
pub mod dns;
pub mod environment;
pub mod fstree;
pub mod hosts;
pub mod inventory;
pub mod keys;
pub mod moment;
pub mod opml;
pub mod output;
pub mod planner;
pub mod playbook;
pub mod registry;
pub mod remote;
pub mod restore;
pub mod secrets;
pub mod selector;
pub mod ssh_config;
pub mod sync;
pub mod text;
pub mod user_config;
pub mod validator;
