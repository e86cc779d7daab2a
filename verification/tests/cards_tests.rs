use cardsync::{CardDescription, CardTable, YGOCard, is_extra};

fn sample_card(cid: i32, id: i32, types: &str) -> YGOCard {
    YGOCard {
        cid,
        id,
        cn_name: Some(format!("card {}", cid)),
        sc_name: None,
        md_name: None,
        nwbbs_n: None,
        cnocg_n: None,
        jp_ruby: None,
        jp_name: None,
        en_name: None,
        text: CardDescription {
            types: types.to_string(),
            pdesc: String::new(),
            desc: "effect text".to_string(),
        },
        data: None,
        is_extra: false,
    }
}

#[test]
fn derived_flag_true_for_each_marker() {
    for marker in ["融合", "同调", "超量", "连接"] {
        let card = sample_card(1, 1, &format!("[怪兽|{}]", marker));
        assert!(is_extra(&card), "marker {}", marker);
    }
}

#[test]
fn derived_flag_false_without_marker() {
    assert!(!is_extra(&sample_card(1, 1, "通常")));
    assert!(!is_extra(&sample_card(1, 1, "")));
    assert!(is_extra(&sample_card(1, 1, "融合")));
}

#[test]
fn ingestion_stores_derived_flag() {
    let mut table = CardTable::new();
    table.insert_card(&sample_card(1, 10, "融合"));
    table.insert_card(&sample_card(2, 20, "通常"));
    assert!(table.get(0).is_extra);
    assert!(!table.get(1).is_extra);
}

#[test]
fn insert_skips_existing_cid() {
    let mut table = CardTable::new();
    table.insert_card(&sample_card(1, 10, "通常"));
    let mut replay = sample_card(1, 99, "融合");
    replay.cn_name = Some("another name".to_string());
    table.insert_card(&replay);
    assert_eq!(table.len(), 1);
    // The first write won: ingestion never updates an existing row.
    assert_eq!(table.get(0).id, 10);
    assert_eq!(table.get(0).cn_name, Some("card 1".to_string()));
}

#[test]
fn ingesting_snapshot_twice_changes_nothing() {
    let snapshot = vec![
        sample_card(1, 10, "通常"),
        sample_card(2, 20, "融合"),
        sample_card(3, 30, "同调"),
    ];
    let mut table = CardTable::new();
    table.insert_cards(&snapshot);
    let first_pass: Vec<(i32, i64, bool)> = (0..table.len())
        .map(|i| {
            let r = table.get(i);
            (r.cid, r.id, r.is_extra)
        })
        .collect();
    table.insert_cards(&snapshot);
    let second_pass: Vec<(i32, i64, bool)> = (0..table.len())
        .map(|i| {
            let r = table.get(i);
            (r.cid, r.id, r.is_extra)
        })
        .collect();
    assert_eq!(table.len(), 3);
    assert_eq!(first_pass, second_pass);
}

#[test]
fn remap_rewrites_all_matching_rows() {
    let mut table = CardTable::new();
    table.insert_card(&sample_card(1, 100, "通常"));
    table.insert_card(&sample_card(2, 100, "通常"));
    table.insert_card(&sample_card(3, 7, "通常"));
    let mapping = vec![("100".to_string(), 200i64)];
    table.update_id_change_log(&mapping);
    assert_eq!(table.count_id(200), 2);
    assert_eq!(table.count_id(100), 0);
    assert_eq!(table.count_id(7), 1);
}

#[test]
fn remap_skips_malformed_key_and_continues() {
    let mut table = CardTable::new();
    table.insert_card(&sample_card(1, 100, "通常"));
    let mapping = vec![("abc".to_string(), 5i64), ("100".to_string(), 200i64)];
    table.update_id_change_log(&mapping);
    assert_eq!(table.count_id(200), 1);
    assert_eq!(table.count_id(100), 0);
    assert_eq!(table.count_id(5), 0);
}

#[test]
fn remap_touches_only_the_identifier() {
    let mut table = CardTable::new();
    table.insert_card(&sample_card(9, 100, "融合"));
    table.update_id_change_log(&vec![("100".to_string(), 200i64)]);
    let row = table.get(0);
    assert_eq!(row.cid, 9);
    assert_eq!(row.id, 200);
    assert!(row.is_extra);
    assert_eq!(row.cn_name, Some("card 9".to_string()));
    assert_eq!(row.desc, "effect text".to_string());
}

#[test]
fn ingestion_widens_display_identifier() {
    let mut table = CardTable::new();
    table.insert_card(&sample_card(1, i32::MAX, "通常"));
    assert_eq!(table.get(0).id, i32::MAX as i64);
}
