//! Change-aware, idempotent synchronization of a trading-card table with a
//! remote card database.
//!
//! The remote side republishes a full snapshot of card records together with
//! an identifier-renumbering feed, and exposes a short content fingerprint.
//! This crate holds the verified core of the protocol: scanning a response
//! body for the fingerprint token, deciding from the persisted watermark
//! whether an update is needed, ingesting a snapshot while skipping records
//! whose primary key is already stored, applying the identifier remap while
//! tolerating malformed keys, and committing a new watermark only after both
//! write phases. Network transport, archive decoding and the relational
//! storage engine live outside the crate and hand plain values in and out.

mod cards;
mod changelog;
mod errors;
mod fingerprint;
mod models;
mod parse;
mod sync;
mod text;
mod watermark;

pub use cards::{
    CardRow, CardTable, cids_unique, count_id_spec, has_cid, lemma_changelog_keeps_cids,
    lemma_changelog_keeps_cids_unique, lemma_changelog_skips_malformed,
    lemma_insert_all_appends, lemma_insert_all_idempotent, lemma_insert_all_keeps_cids_unique,
    lemma_remap_correct, make_row, remap_rows, row_of_card, row_with_id, spec_apply_changelog,
    spec_apply_entry, spec_insert, spec_insert_all,
};
pub use changelog::{changelog_of, entries_match, parse_id_change_log};
pub use errors::SyncError;
pub use fingerprint::{extract_md5, is_hex_digit, md5_token_at};
pub use models::{CardAttribute, CardDescription, YGOCard, is_extra, spec_is_extra};
pub use parse::{all_dec_digits, dec_val, is_dec_digit, parse_i64, parse_i64_spec};
pub use sync::{
    SyncOutcome, apply_update, latest_checksum, lemma_mismatch_triggers_update,
    lemma_sync_idempotent, needs_update, run_sync, spec_needs_update, spec_sync_cards,
    spec_sync_watermarks,
};
pub use text::{contains_seq, contains_str, ends_with_seq, is_json_name, str_ends_with, str_eq};
pub use watermark::{UpdateChecker, WatermarkTable, latest_index, lemma_latest_index_in_range, ts_le};
