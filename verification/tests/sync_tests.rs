use cardsync::{
    CardDescription, CardTable, SyncOutcome, UpdateChecker, WatermarkTable, YGOCard, needs_update,
    run_sync,
};

fn plain_card(cid: i32, id: i32) -> YGOCard {
    YGOCard {
        cid,
        id,
        cn_name: None,
        sc_name: None,
        md_name: None,
        nwbbs_n: None,
        cnocg_n: None,
        jp_ruby: None,
        jp_name: None,
        en_name: None,
        text: CardDescription {
            types: "通常".to_string(),
            pdesc: String::new(),
            desc: String::new(),
        },
        data: None,
        is_extra: false,
    }
}

#[test]
fn needs_update_when_no_watermark() {
    assert!(needs_update(&None, "aaaaaaaaaaaaaaaaaaaaaaaaaaaaaaaa"));
}

#[test]
fn needs_update_compares_checksums() {
    let stored = UpdateChecker {
        md5_checksum: "aaaaaaaaaaaaaaaaaaaaaaaaaaaaaaaa".to_string(),
        last_updated: Some(1),
    };
    assert!(!needs_update(
        &Some(stored),
        "aaaaaaaaaaaaaaaaaaaaaaaaaaaaaaaa"
    ));
    let stored = UpdateChecker {
        md5_checksum: "aaaaaaaaaaaaaaaaaaaaaaaaaaaaaaaa".to_string(),
        last_updated: Some(1),
    };
    assert!(needs_update(
        &Some(stored),
        "bbbbbbbbbbbbbbbbbbbbbbbbbbbbbbbb"
    ));
}

#[test]
fn watermark_latest_is_greatest_timestamp() {
    let mut wm = WatermarkTable::new();
    assert!(wm.get_last_updated_record().is_none());
    wm.update_record("aaaaaaaaaaaaaaaaaaaaaaaaaaaaaaaa", 200);
    wm.update_record("bbbbbbbbbbbbbbbbbbbbbbbbbbbbbbbb", 100);
    let latest = wm.get_last_updated_record().unwrap();
    // The second row is older: the first row stays authoritative.
    assert_eq!(latest.md5_checksum, "aaaaaaaaaaaaaaaaaaaaaaaaaaaaaaaa");
    assert_eq!(latest.last_updated, Some(200));
    assert_eq!(wm.len(), 2);
}

#[test]
fn watermark_accumulates_repeated_checksums() {
    let mut wm = WatermarkTable::new();
    wm.update_record("aaaaaaaaaaaaaaaaaaaaaaaaaaaaaaaa", 1);
    wm.update_record("aaaaaaaaaaaaaaaaaaaaaaaaaaaaaaaa", 2);
    assert_eq!(wm.len(), 2);
    assert_eq!(wm.get_last_updated_record().unwrap().last_updated, Some(2));
}

#[test]
fn end_to_end_first_run_ingests_second_run_skips() {
    let remote = "aaaaaaaaaaaaaaaaaaaaaaaaaaaaaaaa";
    let snapshot = vec![plain_card(1, 10), plain_card(2, 20)];
    let changelog: Vec<(String, i64)> = Vec::new();
    let mut cards = CardTable::new();
    let mut wm = WatermarkTable::new();

    let first = run_sync(&mut cards, &mut wm, remote, &snapshot, &changelog, 100);
    assert_eq!(first, SyncOutcome::Updated);
    assert_eq!(cards.len(), 2);
    assert_eq!(wm.len(), 1);
    assert_eq!(
        wm.get_last_updated_record().unwrap().md5_checksum,
        remote.to_string()
    );

    let second = run_sync(&mut cards, &mut wm, remote, &snapshot, &changelog, 101);
    assert_eq!(second, SyncOutcome::UpToDate);
    assert_eq!(cards.len(), 2);
    assert_eq!(wm.len(), 1);
}

#[test]
fn mismatched_fingerprint_runs_full_pass() {
    let stored = "aaaaaaaaaaaaaaaaaaaaaaaaaaaaaaaa";
    let remote = "bbbbbbbbbbbbbbbbbbbbbbbbbbbbbbbb";
    let mut cards = CardTable::new();
    let mut wm = WatermarkTable::new();
    cards.insert_card(&plain_card(1, 100));
    wm.update_record(stored, 50);

    let snapshot = vec![plain_card(2, 100)];
    let changelog = vec![("100".to_string(), 200i64)];
    let outcome = run_sync(&mut cards, &mut wm, remote, &snapshot, &changelog, 60);

    assert_eq!(outcome, SyncOutcome::Updated);
    // Ingestion ran once: the new record is present.
    assert_eq!(cards.len(), 2);
    // Remap ran once, after ingestion, so both rows were rewritten.
    assert_eq!(cards.count_id(200), 2);
    assert_eq!(cards.count_id(100), 0);
    // One new watermark row carries the remote checksum.
    assert_eq!(wm.len(), 2);
    let latest = wm.get_last_updated_record().unwrap();
    assert_eq!(latest.md5_checksum, remote.to_string());
    assert_eq!(latest.last_updated, Some(60));
}

#[test]
fn matching_fingerprint_writes_nothing() {
    let remote = "cccccccccccccccccccccccccccccccc";
    let mut cards = CardTable::new();
    let mut wm = WatermarkTable::new();
    wm.update_record(remote, 5);
    let snapshot = vec![plain_card(1, 1)];
    let changelog = vec![("1".to_string(), 2i64)];
    let outcome = run_sync(&mut cards, &mut wm, remote, &snapshot, &changelog, 6);
    assert_eq!(outcome, SyncOutcome::UpToDate);
    assert_eq!(cards.len(), 0);
    assert_eq!(wm.len(), 1);
}
