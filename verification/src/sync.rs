use vstd::prelude::*;

use crate::cards::{CardRow, CardTable, spec_apply_changelog, spec_insert_all};
use crate::models::YGOCard;
use crate::text::str_eq;
use crate::watermark::{
    UpdateChecker, WatermarkTable, latest_index, lemma_latest_index_in_range, ts_le,
};

verus! {

/// The two terminal outcomes of a successful sync run.
#[derive(Debug, Clone, Copy, PartialEq, Eq, Structural)]
pub enum SyncOutcome {
    /// The stored watermark already matches the remote fingerprint; nothing
    /// was written.
    UpToDate,
    /// Ingestion and remap ran, and a new watermark row was appended.
    Updated,
}

/// The checksum the local store has absorbed: that of the authoritative
/// watermark row, or nothing on a fresh store.
pub open spec fn latest_checksum(wm: Seq<(Seq<char>, Option<i64>)>) -> Option<Seq<char>> {
    if wm.len() == 0 {
        None
    } else {
        Some(wm[latest_index(wm)].0)
    }
}

/// An update is needed exactly when no watermark exists or the stored
/// checksum differs from the remote fingerprint.
pub open spec fn spec_needs_update(wm: Seq<(Seq<char>, Option<i64>)>, remote: Seq<char>) -> bool {
    match latest_checksum(wm) {
        None => true,
        Some(c) => c != remote,
    }
}

/// What the card table holds after a run against `remote`: untouched when up
/// to date, else the snapshot ingested and then the changelog applied, in
/// that order.
pub open spec fn spec_sync_cards(
    cards: Seq<CardRow>,
    wm: Seq<(Seq<char>, Option<i64>)>,
    remote: Seq<char>,
    snapshot: Seq<YGOCard>,
    changelog: Seq<(String, i64)>,
) -> Seq<CardRow> {
    if spec_needs_update(wm, remote) {
        spec_apply_changelog(spec_insert_all(cards, snapshot), changelog)
    } else {
        cards
    }
}

/// What the watermark table holds after a run against `remote`: untouched
/// when up to date, else one appended row carrying the remote fingerprint.
pub open spec fn spec_sync_watermarks(
    wm: Seq<(Seq<char>, Option<i64>)>,
    remote: Seq<char>,
    now: i64,
) -> Seq<(Seq<char>, Option<i64>)> {
    if spec_needs_update(wm, remote) {
        wm.push((remote, Some(now)))
    } else {
        wm
    }
}

/// Decides whether a run must ingest: a missing watermark forces a full
/// ingestion; otherwise the stored and remote checksums are compared.
pub fn needs_update(local: &Option<UpdateChecker>, remote_md5: &str) -> (r: bool)
    ensures
        r == match *local {
            Option::None => true,
            Option::Some(rec) => rec.md5_checksum@ != remote_md5@,
        },
{
    match local {
        None => true,
        Some(rec) => !str_eq(rec.md5_checksum.as_str(), remote_md5),
    }
}

/// Runs the write half of a pass: ingest the snapshot, then apply the
/// changelog — remap runs after ingestion so freshly inserted rows are
/// eligible targets — then append the new watermark. The watermark is the
/// last write, so an interrupted pass is retried in full by the next run.
pub fn apply_update(
    cards: &mut CardTable,
    watermarks: &mut WatermarkTable,
    remote_md5: &str,
    snapshot: &Vec<YGOCard>,
    changelog: &Vec<(String, i64)>,
    now: i64,
)
    ensures
        final(cards)@ == spec_apply_changelog(spec_insert_all(old(cards)@, snapshot@), changelog@),
        final(watermarks)@ == old(watermarks)@.push((remote_md5@, Some(now))),
{
    cards.insert_cards(snapshot);
    cards.update_id_change_log(changelog);
    watermarks.update_record(remote_md5, now);
}

/// One full sync pass over decoded inputs: read the local watermark, compare
/// it against the remote fingerprint, and when they differ ingest, remap and
/// append a new watermark, in that order; when they match, write nothing.
pub fn run_sync(
    cards: &mut CardTable,
    watermarks: &mut WatermarkTable,
    remote_md5: &str,
    snapshot: &Vec<YGOCard>,
    changelog: &Vec<(String, i64)>,
    now: i64,
) -> (r: SyncOutcome)
    ensures
        (r is Updated) == spec_needs_update(old(watermarks)@, remote_md5@),
        final(cards)@ == spec_sync_cards(
            old(cards)@,
            old(watermarks)@,
            remote_md5@,
            snapshot@,
            changelog@,
        ),
        final(watermarks)@ == spec_sync_watermarks(old(watermarks)@, remote_md5@, now),
{
    let local = watermarks.get_last_updated_record();
    if needs_update(&local, remote_md5) {
        apply_update(cards, watermarks, remote_md5, snapshot, changelog, now);
        SyncOutcome::Updated
    } else {
        SyncOutcome::UpToDate
    }
}

/// Law (fingerprint mismatch triggers an update): with a stored checksum
/// differing from the remote fingerprint, a run performs the full pass —
/// snapshot ingested, changelog applied, and one watermark row appended with
/// the remote checksum.
pub proof fn lemma_mismatch_triggers_update(
    cards: Seq<CardRow>,
    wm: Seq<(Seq<char>, Option<i64>)>,
    remote: Seq<char>,
    snapshot: Seq<YGOCard>,
    changelog: Seq<(String, i64)>,
    now: i64,
)
    requires
        wm.len() > 0,
        wm[latest_index(wm)].0 != remote,
    ensures
        spec_needs_update(wm, remote),
        spec_sync_cards(cards, wm, remote, snapshot, changelog) == spec_apply_changelog(
            spec_insert_all(cards, snapshot),
            changelog,
        ),
        spec_sync_watermarks(wm, remote, now) == wm.push((remote, Some(now))),
{
    lemma_latest_index_in_range(wm);
}

/// After an update pass whose completion time is no earlier than every
/// stored timestamp, the appended row is the authoritative one.
proof fn lemma_absorbed_after_update(wm: Seq<(Seq<char>, Option<i64>)>, remote: Seq<char>, now: i64)
    requires
        forall|i: int| 0 <= i < wm.len() ==> ts_le((#[trigger] wm[i]).1, Some(now)),
    ensures
        latest_checksum(wm.push((remote, Some(now)))) == Some(remote),
{
    let wm1 = wm.push((remote, Some(now)));
    assert(wm1.drop_last() =~= wm);
    if wm.len() > 0 {
        lemma_latest_index_in_range(wm);
        assert(ts_le(wm1[latest_index(wm)].1, wm1.last().1));
    }
    assert(latest_index(wm1) == wm.len());
}

/// Law (idempotence): once a run has completed against the remote
/// fingerprint, an immediately following run against the same fingerprint is
/// up to date and writes nothing, whatever snapshot and changelog it would
/// have been handed. The completed run's timestamp must not precede a stored
/// one: clocks do not run backwards.
pub proof fn lemma_sync_idempotent(
    cards: Seq<CardRow>,
    wm: Seq<(Seq<char>, Option<i64>)>,
    remote: Seq<char>,
    snapshot: Seq<YGOCard>,
    changelog: Seq<(String, i64)>,
    now: i64,
    snapshot2: Seq<YGOCard>,
    changelog2: Seq<(String, i64)>,
    now2: i64,
)
    requires
        forall|i: int| 0 <= i < wm.len() ==> ts_le((#[trigger] wm[i]).1, Some(now)),
    ensures
        ({
            let cards1 = spec_sync_cards(cards, wm, remote, snapshot, changelog);
            let wm1 = spec_sync_watermarks(wm, remote, now);
            &&& !spec_needs_update(wm1, remote)
            &&& spec_sync_cards(cards1, wm1, remote, snapshot2, changelog2) == cards1
            &&& spec_sync_watermarks(wm1, remote, now2) == wm1
        }),
{
    if spec_needs_update(wm, remote) {
        lemma_absorbed_after_update(wm, remote, now);
    }
}

} // verus!
