use accessory_slots::catalog::{accessorydata_on_build_hook, AccessoryData, Catalog};
use accessory_slots::codec::{
    unitaccessorylist_deserialize_hook, unitaccessorylist_serialize_hook, DecodeError,
};
use accessory_slots::kind::{
    derive_kind, gameicon_try_get_accessory_kinds_hook, part_label_id, AccessoryDataKinds,
    AccessoryDataMasks, KindIcon,
};
use accessory_slots::table::{
    unitaccessorylist_add_hook, unitaccessorylist_clear_hook, unitaccessorylist_copyfrom_hook,
    unitaccessorylist_ctor_hook, unitaccessorylist_get_count, unitaccessorylist_is_exist_hook,
    SlotTable, CAPACITY,
};

fn slots_of(t: &SlotTable) -> Vec<i32> {
    (0..t.len()).map(|i| t.get(i)).collect()
}

fn table_with(refs: &[i32]) -> SlotTable {
    let mut t = SlotTable::new(refs.len());
    for (i, r) in refs.iter().enumerate() {
        t.set(i, *r);
    }
    t
}

/// Entry 0 is the reserved one; entries 1.. have the given masks.
fn catalog_with(masks: &[i32]) -> Catalog {
    let mut c = Catalog::new();
    c.push(AccessoryData::new("AID_None".to_string(), 0, 0, 0));
    for (i, m) in masks.iter().enumerate() {
        let idx = (i + 1) as i32;
        c.push(AccessoryData::new(format!("AID_{}", idx), *m, 0, idx));
    }
    c
}

fn words_to_bytes(words: &[i32]) -> Vec<u8> {
    words.iter().flat_map(|w| w.to_le_bytes()).collect()
}

#[test]
fn equip_same_mask_replaces_earlier() {
    let cat = catalog_with(&[4, 4]);
    let a = AccessoryData::new("AID_1".to_string(), 4, 0, 1);
    let b = AccessoryData::new("AID_2".to_string(), 4, 0, 2);
    let mut t = unitaccessorylist_ctor_hook();
    assert!(unitaccessorylist_add_hook(&mut t, &cat, Some(&a), 2));
    let mut expected = vec![0; 16];
    expected[2] = 1;
    assert_eq!(slots_of(&t), expected);
    assert!(unitaccessorylist_add_hook(&mut t, &cat, Some(&b), 5));
    let mut expected = vec![0; 16];
    expected[5] = 2;
    assert_eq!(slots_of(&t), expected);
    assert!(!unitaccessorylist_is_exist_hook(&t, &cat, Some(&a)));
    assert!(unitaccessorylist_is_exist_hook(&t, &cat, Some(&b)));
}

#[test]
fn equip_exclusivity_keeps_one_per_mask() {
    let cat = catalog_with(&[8, 8, 2]);
    let mut t = table_with(&[1, 3, 0, 1]);
    let b = AccessoryData::new("AID_2".to_string(), 8, 0, 2);
    assert!(unitaccessorylist_add_hook(&mut t, &cat, Some(&b), 2));
    assert_eq!(slots_of(&t), vec![0, 3, 2, 0]);
}

#[test]
fn equip_conflict_is_exact_mask_equality() {
    // Masks 3 and 1 overlap in a bit but are not equal: no conflict.
    let cat = catalog_with(&[3, 1]);
    let mut t = table_with(&[1, 0, 0, 0]);
    let b = AccessoryData::new("AID_2".to_string(), 1, 0, 2);
    assert!(unitaccessorylist_add_hook(&mut t, &cat, Some(&b), 3));
    assert_eq!(slots_of(&t), vec![1, 0, 0, 2]);
}

#[test]
fn equip_without_accessory_is_rejected() {
    let cat = catalog_with(&[4]);
    let mut t = table_with(&[1, 0, 0, 0]);
    assert!(!unitaccessorylist_add_hook(&mut t, &cat, None, 1));
    assert_eq!(slots_of(&t), vec![1, 0, 0, 0]);
    assert!(!unitaccessorylist_is_exist_hook(&t, &cat, None));
}

#[test]
fn equip_past_end_takes_first_empty_slot() {
    let cat = catalog_with(&[4, 2, 8]);
    let mut t = table_with(&[2, 0, 3, 0]);
    let a = AccessoryData::new("AID_1".to_string(), 4, 0, 1);
    assert!(unitaccessorylist_add_hook(&mut t, &cat, Some(&a), 9));
    assert_eq!(slots_of(&t), vec![2, 1, 3, 0]);
}

#[test]
fn equip_past_end_on_full_table_places_nothing() {
    let cat = catalog_with(&[4, 2, 8, 16, 32]);
    let mut t = table_with(&[2, 3, 4, 1]);
    let e = AccessoryData::new("AID_5".to_string(), 32, 0, 5);
    assert!(unitaccessorylist_add_hook(&mut t, &cat, Some(&e), 5));
    assert_eq!(slots_of(&t), vec![2, 3, 4, 1]);
    // The conflicting entry is emptied and the freed slot takes the new one.
    let a2 = AccessoryData::new("AID_9".to_string(), 4, 0, 9);
    assert!(unitaccessorylist_add_hook(&mut t, &cat, Some(&a2), 7));
    assert_eq!(slots_of(&t), vec![2, 3, 4, 9]);
}

#[test]
fn is_exist_ignores_unresolved_references() {
    let cat = catalog_with(&[4]);
    let t = table_with(&[-3, 42, 0, 0]);
    let none = AccessoryData::new("AID_None".to_string(), 0, 0, 0);
    let a = AccessoryData::new("AID_1".to_string(), 4, 0, 1);
    assert!(!unitaccessorylist_is_exist_hook(&t, &cat, Some(&none)));
    assert!(!unitaccessorylist_is_exist_hook(&t, &cat, Some(&a)));
}

#[test]
fn is_exist_compares_identifiers() {
    let cat = catalog_with(&[4, 2]);
    let t = table_with(&[0, 2, 0, 0]);
    // Another definition that carries the same identifier matches too.
    let twin = AccessoryData::new("AID_2".to_string(), 64, 0, 7);
    assert!(unitaccessorylist_is_exist_hook(&t, &cat, Some(&twin)));
}

#[test]
fn clear_empties_every_slot() {
    let mut t = table_with(&[5, -1, 7, 0, 9]);
    unitaccessorylist_clear_hook(&mut t);
    assert_eq!(slots_of(&t), vec![0; 5]);
}

#[test]
fn copy_from_shorter_source_keeps_tail() {
    let mut dest = table_with(&[9, 9, 9, 9, 9, 9]);
    let src = table_with(&[1, 2, 3, 4]);
    unitaccessorylist_copyfrom_hook(&mut dest, &src);
    assert_eq!(slots_of(&dest), vec![1, 2, 3, 4, 9, 9]);
}

#[test]
fn copy_from_longer_source_keeps_length() {
    let mut dest = table_with(&[9, 9, 9, 9]);
    let src = table_with(&[1, 2, 3, 4, 5, 6, 7]);
    unitaccessorylist_copyfrom_hook(&mut dest, &src);
    assert_eq!(slots_of(&dest), vec![1, 2, 3, 4]);
}

#[test]
fn new_table_has_current_capacity_and_count() {
    let t = unitaccessorylist_ctor_hook();
    assert_eq!(t.len(), 16);
    assert_eq!(CAPACITY, 16);
    assert_eq!(slots_of(&t), vec![0; 16]);
    assert_eq!(unitaccessorylist_get_count(&t), 16);
    let small = SlotTable::new(4);
    assert_eq!(unitaccessorylist_get_count(&small), 16);
}

#[test]
fn derive_kind_legacy_masks_keep_base() {
    assert_eq!(derive_kind(1, 0), 0);
    assert_eq!(derive_kind(2, 1), 1);
    assert_eq!(derive_kind(4, 2), 2);
    assert_eq!(derive_kind(8, 3), 3);
}

#[test]
fn derive_kind_high_masks_give_log2() {
    let mut mask: i32 = 16;
    for k in 4..=16 {
        assert_eq!(derive_kind(mask, 0), k);
        assert_eq!(derive_kind(mask, 0), derive_kind(mask, 0));
        mask *= 2;
    }
    assert_eq!(derive_kind(65536, 3), 16);
    assert_eq!(derive_kind(1024, 0), 10);
}

#[test]
fn derive_kind_other_masks_give_one() {
    for m in [0, 3, 5, 12, 17, 131072, 65537, -16, i32::MIN, i32::MAX] {
        assert_eq!(derive_kind(m, 0), 1);
    }
}

#[test]
fn on_build_sets_kind_from_mask() {
    let mut d = AccessoryData { id: "AID_X".to_string(), mask: 256, kind: 2, index: 3 };
    accessorydata_on_build_hook(&mut d);
    assert_eq!(d.kind, 8);
    assert_eq!(d.mask, 256);
    assert_eq!(d.index, 3);
    assert_eq!(d.id, "AID_X");
    let mut legacy = AccessoryData { id: "AID_Y".to_string(), mask: 2, kind: 1, index: 4 };
    accessorydata_on_build_hook(&mut legacy);
    assert_eq!(legacy.kind, 1);
}

#[test]
fn legacy_enums_values() {
    assert_eq!(AccessoryDataMasks::Body.value(), 1);
    assert_eq!(AccessoryDataMasks::Head.value(), 2);
    assert_eq!(AccessoryDataMasks::Face.value(), 4);
    assert_eq!(AccessoryDataMasks::Back.value(), 8);
    assert_eq!(AccessoryDataKinds::Body.value(), 0);
    assert_eq!(AccessoryDataKinds::Head.value(), 1);
    assert_eq!(AccessoryDataKinds::Face.value(), 2);
    assert_eq!(AccessoryDataKinds::Back.value(), 3);
}

#[test]
fn serialize_writes_version_then_slots() {
    let t = table_with(&[1, 258, -1, 0]);
    let bytes = unitaccessorylist_serialize_hook(&t);
    assert_eq!(
        bytes,
        vec![1, 0, 0, 0, 1, 0, 0, 0, 2, 1, 0, 0, 255, 255, 255, 255, 0, 0, 0, 0]
    );
}

#[test]
fn round_trip_current_format() {
    let mut t = unitaccessorylist_ctor_hook();
    let refs = [3, 0, 17, 5, 100000, -7, 0, 1, 2, 3, 4, 5, 6, 7, 8, 65536];
    for (i, r) in refs.iter().enumerate() {
        t.set(i, *r);
    }
    let bytes = unitaccessorylist_serialize_hook(&t);
    assert_eq!(bytes.len(), 4 + 4 * 16);
    let mut back = unitaccessorylist_ctor_hook();
    back.set(0, 99);
    assert_eq!(unitaccessorylist_deserialize_hook(&mut back, &bytes), Ok(68));
    assert_eq!(slots_of(&back), refs.to_vec());
}

#[test]
fn legacy_stream_decodes_to_empty_table() {
    let bytes = words_to_bytes(&[0, 7, 8, 9, 10]);
    let mut t = unitaccessorylist_ctor_hook();
    t.set(3, 4);
    t.set(12, 6);
    assert_eq!(unitaccessorylist_deserialize_hook(&mut t, &bytes), Ok(20));
    assert_eq!(slots_of(&t), vec![0; 16]);
}

#[test]
fn legacy_stream_with_negative_version_is_discarded() {
    let mut bytes = words_to_bytes(&[-5, 1, 2, 3, 4]);
    bytes.extend_from_slice(&[0xaa, 0xbb]);
    let mut t = table_with(&[1, 2, 3, 4, 5, 6]);
    assert_eq!(unitaccessorylist_deserialize_hook(&mut t, &bytes), Ok(20));
    assert_eq!(slots_of(&t), vec![0; 6]);
}

#[test]
fn decode_reports_consumed_bytes_and_ignores_rest() {
    let mut bytes = words_to_bytes(&[2, 11, 12, 13, 14]);
    bytes.extend_from_slice(&[1, 2, 3]);
    let mut t = SlotTable::new(4);
    assert_eq!(unitaccessorylist_deserialize_hook(&mut t, &bytes), Ok(20));
    assert_eq!(slots_of(&t), vec![11, 12, 13, 14]);
}

#[test]
fn decode_truncated_version_is_error() {
    let mut t = table_with(&[1, 2, 3, 4]);
    assert_eq!(unitaccessorylist_deserialize_hook(&mut t, &[1, 0, 0]), Err(DecodeError::Truncated));
    assert_eq!(slots_of(&t), vec![1, 2, 3, 4]);
    assert_eq!(unitaccessorylist_deserialize_hook(&mut t, &[]), Err(DecodeError::Truncated));
}

#[test]
fn decode_truncated_slots_is_error() {
    let mut t = unitaccessorylist_ctor_hook();
    t.set(1, 5);
    let bytes = words_to_bytes(&[1, 2, 3]);
    assert_eq!(unitaccessorylist_deserialize_hook(&mut t, &bytes), Err(DecodeError::Truncated));
    let mut expected = vec![0; 16];
    expected[1] = 5;
    assert_eq!(slots_of(&t), expected);
    let legacy = words_to_bytes(&[0, 1, 2, 3]);
    assert_eq!(unitaccessorylist_deserialize_hook(&mut t, &legacy), Err(DecodeError::Truncated));
}

#[test]
fn catalog_lookups() {
    let cat = catalog_with(&[4, 2]);
    assert_eq!(cat.len(), 3);
    assert_eq!(cat.get(1).map(|d| d.mask), Some(4));
    assert!(cat.get(3).is_none());
    assert!(cat.get(-1).is_none());
    assert_eq!(cat.find_by_id(&"AID_2".to_string()).map(|d| d.index), Some(2));
    assert!(cat.find_by_id(&"AID_7".to_string()).is_none());
}

#[test]
fn kind_icons() {
    assert!(matches!(gameicon_try_get_accessory_kinds_hook(0), KindIcon::System("Clothes")));
    assert!(matches!(gameicon_try_get_accessory_kinds_hook(1), KindIcon::Bundled("Hat.png")));
    assert!(matches!(gameicon_try_get_accessory_kinds_hook(2), KindIcon::System("Face")));
    assert!(matches!(gameicon_try_get_accessory_kinds_hook(3), KindIcon::Bundled("Pose.png")));
    assert!(matches!(gameicon_try_get_accessory_kinds_hook(4), KindIcon::Bundled("Placeholder.png")));
    assert!(matches!(gameicon_try_get_accessory_kinds_hook(9), KindIcon::Bundled("Hair.png")));
    assert!(matches!(gameicon_try_get_accessory_kinds_hook(15), KindIcon::Bundled("NoEngage.png")));
    assert!(matches!(gameicon_try_get_accessory_kinds_hook(16), KindIcon::Bundled("Placeholder.png")));
    assert!(matches!(gameicon_try_get_accessory_kinds_hook(-2), KindIcon::Bundled("Placeholder.png")));
}

#[test]
fn part_labels() {
    assert_eq!(part_label_id(5), "MID_MENU_ACCESSORY_SHOP_PART_OUTFIT_BATTLE");
    assert_eq!(part_label_id(11), "MID_MENU_ACCESSORY_SHOP_PART_SKINCOLOR");
    assert_eq!(part_label_id(15), "MID_MENU_ACCESSORY_SHOP_PART_NOENGAGE");
    assert_eq!(part_label_id(16), "MID_MENU_ACCESSORY_SHOP_PART_PLACEHOLDER");
    assert_eq!(part_label_id(2), "MID_MENU_ACCESSORY_SHOP_PART_PLACEHOLDER");
}
