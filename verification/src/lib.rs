//! Verified core of the Divine Nostr-to-ATProto bridge.

use vstd::prelude::*;

pub mod chars;
pub mod encoding;
pub mod event;
pub mod text_builder;
pub mod translator;
pub mod tid;
pub mod config;
pub mod health;
pub mod signature;
pub mod deletion;
pub mod pipeline;
pub mod provisioner;
pub mod appview;
pub mod json;
pub mod nostr;
pub mod order;
pub mod legacy_repair;
pub mod runtime;
pub mod xrpc;
pub mod pds_accounts;
pub mod video_service;
pub mod profile_sync;
pub mod indexer;
pub mod plc;
pub mod funnelcake;
pub mod repair_cli;
pub mod keystore;
pub mod backfill;

verus! {

} // verus!
