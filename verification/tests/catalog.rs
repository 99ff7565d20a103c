use equipment_inventory::dao::{ComponentInfoStorer, DeviceInfoStorer, RelationStorer, SubsystemInfoStorer};
use equipment_inventory::datetime::MyDatetime;
use equipment_inventory::error::ErrorKind;
use equipment_inventory::model::{
    ComponentInfoInsert, ComponentInfoQuery, ComponentInfoUpdate, DeviceInfo, DeviceInfoInsert, DeviceInfoQuery, DeviceInfoUpdate,
    DevinfoSubinfoInsert, SubinfoCominfoInsert, SubsystemInfoInsert, SubsystemInfoQuery, SubsystemInfoUpdate,
};
use equipment_inventory::storer::memory::MemoryStore;

fn device_info(name: &str, model: &str, interval: i32) -> DeviceInfoInsert {
    DeviceInfoInsert { name: name.to_string(), model: model.to_string(), maintain_interval: Some(interval) }
}

fn all_device_infos(page: i64, size: i64) -> DeviceInfoQuery {
    DeviceInfoQuery { name: None, model: None, maintain_interval_begin: None, maintain_interval_end: None, page, size }
}

fn all_component_infos() -> ComponentInfoQuery {
    ComponentInfoQuery { name: None, model: None, maintain_interval_begin: None, maintain_interval_end: None, page: None, size: None }
}

fn all_subsystem_infos() -> SubsystemInfoQuery {
    SubsystemInfoQuery { name: None, maintain_interval_begin: None, maintain_interval_end: None, page: 1, size: 100 }
}

fn store_with_intervals(intervals: &[i32]) -> MemoryStore {
    let mut store = MemoryStore::new(MyDatetime(1000));
    for (i, v) in intervals.iter().enumerate() {
        let id = DeviceInfoStorer::insert(&mut store, device_info(&format!("pump {}", i + 1), "P-1", *v)).unwrap();
        assert_eq!(id, i as i32 + 1);
    }
    store
}

#[test]
fn insert_returns_increasing_keys_and_stamps_the_row() {
    let mut store = MemoryStore::new(MyDatetime(77));
    let a = DeviceInfoStorer::insert(&mut store, device_info("pump", "P-1", 30)).unwrap();
    let b = DeviceInfoStorer::insert(&mut store, device_info("fan", "F-2", 60)).unwrap();
    assert_eq!((a, b), (1, 2));
    let row = DeviceInfoStorer::get(&store, 2).unwrap();
    assert_eq!(
        row,
        DeviceInfo {
            id: 2,
            name: "fan".to_string(),
            model: "F-2".to_string(),
            maintain_interval: 60,
            create_at: MyDatetime(77),
            update_at: MyDatetime(77),
        }
    );
}

#[test]
fn insert_without_interval_stores_zero() {
    let mut store = MemoryStore::new(MyDatetime(0));
    let id = DeviceInfoStorer::insert(
        &mut store,
        DeviceInfoInsert { name: "pump".to_string(), model: "P".to_string(), maintain_interval: None },
    )
    .unwrap();
    assert_eq!(DeviceInfoStorer::get(&store, id).unwrap().maintain_interval, 0);
}

#[test]
fn insert_with_negative_interval_is_a_storage_error() {
    let mut store = MemoryStore::new(MyDatetime(0));
    let e = DeviceInfoStorer::insert(&mut store, device_info("pump", "P-1", -1)).unwrap_err();
    assert_eq!(e.kind, ErrorKind::StorageError);
    assert_eq!(DeviceInfoStorer::count(&store, all_device_infos(1, 10)).unwrap(), 0);
}

#[test]
fn get_of_an_absent_key_is_not_found() {
    let store = store_with_intervals(&[10]);
    assert_eq!(DeviceInfoStorer::get(&store, 2).unwrap_err().kind, ErrorKind::NotFound);
    assert_eq!(SubsystemInfoStorer::get(&store, 1).unwrap_err().kind, ErrorKind::NotFound);
    assert_eq!(ComponentInfoStorer::get(&store, 1).unwrap_err().kind, ErrorKind::NotFound);
}

#[test]
fn is_exist_tells_present_from_absent() {
    let store = store_with_intervals(&[10, 20]);
    assert_eq!(DeviceInfoStorer::is_exist(&store, 2), Ok(true));
    assert_eq!(DeviceInfoStorer::is_exist(&store, 3), Ok(false));
    assert_eq!(DeviceInfoStorer::is_exist(&store, 0), Ok(false));
}

#[test]
fn bulk_insert_is_all_or_nothing() {
    let mut store = store_with_intervals(&[10]);
    let bad = vec![device_info("a", "m", 1), device_info("b", "m", -5), device_info("c", "m", 3)];
    let e = DeviceInfoStorer::bulk_insert(&mut store, &bad).unwrap_err();
    assert_eq!(e.kind, ErrorKind::StorageError);
    assert_eq!(DeviceInfoStorer::count(&store, all_device_infos(1, 10)).unwrap(), 1);
    let good = vec![device_info("a", "m", 1), device_info("b", "m", 5)];
    assert_eq!(DeviceInfoStorer::bulk_insert(&mut store, &good), Ok(2));
    let (rows, total) = DeviceInfoStorer::query(&store, &all_device_infos(1, 10)).unwrap();
    assert_eq!(total, 3);
    assert_eq!(rows.iter().map(|r| (r.id, r.name.clone())).collect::<Vec<_>>(), vec![
        (1, "pump 1".to_string()),
        (2, "a".to_string()),
        (3, "b".to_string())
    ]);
}

#[test]
fn interval_filter_is_half_open() {
    let store = store_with_intervals(&[10, 20, 30]);
    let mut q = all_device_infos(1, 10);
    q.maintain_interval_begin = Some(10);
    q.maintain_interval_end = Some(20);
    let (rows, total) = DeviceInfoStorer::query(&store, &q).unwrap();
    assert_eq!(total, 1);
    assert_eq!(rows.len(), 1);
    assert_eq!(rows[0].maintain_interval, 10);
    assert_eq!(rows[0].id, 1);
}

#[test]
fn interval_filter_with_one_bound() {
    let store = store_with_intervals(&[10, 20, 30]);
    let mut q = all_device_infos(1, 10);
    q.maintain_interval_begin = Some(20);
    let (rows, _) = DeviceInfoStorer::query(&store, &q).unwrap();
    assert_eq!(rows.iter().map(|r| r.maintain_interval).collect::<Vec<_>>(), vec![20, 30]);
    let mut q = all_device_infos(1, 10);
    q.maintain_interval_end = Some(30);
    let (rows, _) = DeviceInfoStorer::query(&store, &q).unwrap();
    assert_eq!(rows.iter().map(|r| r.maintain_interval).collect::<Vec<_>>(), vec![10, 20]);
}

#[test]
fn name_filter_is_a_case_sensitive_contains() {
    let mut store = MemoryStore::new(MyDatetime(0));
    for name in ["Main Pump", "pump spare", "Fan"] {
        DeviceInfoStorer::insert(&mut store, device_info(name, "X", 1)).unwrap();
    }
    let mut q = all_device_infos(1, 10);
    q.name = Some("Pump".to_string());
    let (rows, total) = DeviceInfoStorer::query(&store, &q).unwrap();
    assert_eq!(total, 1);
    assert_eq!(rows[0].name, "Main Pump");
    q.name = Some("ump".to_string());
    let (rows, total) = DeviceInfoStorer::query(&store, &q).unwrap();
    assert_eq!(total, 2);
    assert_eq!(rows.iter().map(|r| r.id).collect::<Vec<_>>(), vec![1, 2]);
    q.name = Some(String::new());
    assert_eq!(DeviceInfoStorer::query(&store, &q).unwrap().1, 3);
}

#[test]
fn pages_are_disjoint_contiguous_slices() {
    let store = store_with_intervals(&[1, 2, 3, 4, 5, 6, 7]);
    let all = DeviceInfoStorer::query(&store, &all_device_infos(1, 100)).unwrap().0;
    let size = 3;
    let first = DeviceInfoStorer::query(&store, &all_device_infos(1, size)).unwrap();
    let second = DeviceInfoStorer::query(&store, &all_device_infos(2, size)).unwrap();
    let third = DeviceInfoStorer::query(&store, &all_device_infos(3, size)).unwrap();
    let fourth = DeviceInfoStorer::query(&store, &all_device_infos(4, size)).unwrap();
    assert_eq!(first.0, all[0..3].to_vec());
    assert_eq!(second.0, all[3..6].to_vec());
    assert_eq!(third.0, all[6..7].to_vec());
    assert!(fourth.0.is_empty());
    assert_eq!((first.1, second.1, third.1, fourth.1), (7, 7, 7, 7));
}

#[test]
fn page_or_size_below_one_is_an_invalid_argument() {
    let store = store_with_intervals(&[1, 2]);
    assert_eq!(DeviceInfoStorer::query(&store, &all_device_infos(1, 0)).unwrap_err().kind, ErrorKind::InvalidArgument);
    assert_eq!(DeviceInfoStorer::query(&store, &all_device_infos(1, -3)).unwrap_err().kind, ErrorKind::InvalidArgument);
    assert_eq!(DeviceInfoStorer::query(&store, &all_device_infos(0, 5)).unwrap_err().kind, ErrorKind::InvalidArgument);
}

#[test]
fn a_huge_page_is_empty() {
    let store = store_with_intervals(&[1, 2]);
    let (rows, total) = DeviceInfoStorer::query(&store, &all_device_infos(i64::MAX, i64::MAX)).unwrap();
    assert!(rows.is_empty());
    assert_eq!(total, 2);
}

#[test]
fn count_ignores_paging() {
    let store = store_with_intervals(&[5, 15, 25]);
    let mut q = all_device_infos(0, 0);
    q.maintain_interval_begin = Some(10);
    assert_eq!(DeviceInfoStorer::count(&store, q), Ok(2));
}

#[test]
fn update_without_fields_changes_nothing() {
    let mut store = store_with_intervals(&[10]);
    store.set_now(MyDatetime(5000));
    let before = DeviceInfoStorer::get(&store, 1).unwrap();
    let none = DeviceInfoUpdate { name: None, model: None, maintain_interval: None };
    assert_eq!(DeviceInfoStorer::update(&mut store, 1, none.clone()), Ok(1));
    assert_eq!(DeviceInfoStorer::get(&store, 1).unwrap(), before);
    assert_eq!(DeviceInfoStorer::update(&mut store, 9, none), Ok(0));
    assert_eq!(DeviceInfoStorer::get(&store, 1).unwrap(), before);
}

#[test]
fn update_changes_only_the_given_fields() {
    let mut store = store_with_intervals(&[10]);
    store.set_now(MyDatetime(5000));
    let upd = DeviceInfoUpdate { name: None, model: Some("P-2".to_string()), maintain_interval: Some(45) };
    assert_eq!(DeviceInfoStorer::update(&mut store, 1, upd), Ok(1));
    assert_eq!(
        DeviceInfoStorer::get(&store, 1).unwrap(),
        DeviceInfo {
            id: 1,
            name: "pump 1".to_string(),
            model: "P-2".to_string(),
            maintain_interval: 45,
            create_at: MyDatetime(1000),
            update_at: MyDatetime(5000),
        }
    );
}

#[test]
fn update_to_a_negative_interval_is_refused() {
    let mut store = store_with_intervals(&[10]);
    let upd = DeviceInfoUpdate { name: Some("x".to_string()), model: None, maintain_interval: Some(-1) };
    assert_eq!(DeviceInfoStorer::update(&mut store, 1, upd.clone()).unwrap_err().kind, ErrorKind::StorageError);
    assert_eq!(DeviceInfoStorer::get(&store, 1).unwrap().name, "pump 1");
    assert_eq!(DeviceInfoStorer::update(&mut store, 2, upd), Ok(0));
}

#[test]
fn subsystem_and_component_template_updates() {
    let mut store = MemoryStore::new(MyDatetime(1));
    let s = SubsystemInfoStorer::insert(&mut store, SubsystemInfoInsert { name: "hydraulics".to_string(), maintain_interval: 7 })
        .unwrap();
    let c = ComponentInfoStorer::insert(
        &mut store,
        ComponentInfoInsert { name: "valve".to_string(), model: "V1".to_string(), maintain_interval: 3 },
    )
    .unwrap();
    assert_eq!(SubsystemInfoStorer::update(&mut store, s, SubsystemInfoUpdate { name: None, maintain_interval: None }), Ok(1));
    assert_eq!(SubsystemInfoStorer::get(&store, s).unwrap().maintain_interval, 7);
    assert_eq!(
        ComponentInfoStorer::update(
            &mut store,
            c,
            ComponentInfoUpdate { name: Some("gate valve".to_string()), model: None, maintain_interval: None }
        ),
        Ok(1)
    );
    let row = ComponentInfoStorer::get(&store, c).unwrap();
    assert_eq!((row.name.as_str(), row.model.as_str(), row.maintain_interval), ("gate valve", "V1", 3));
}

#[test]
fn delete_returns_the_affected_count() {
    let mut store = store_with_intervals(&[10, 20]);
    assert_eq!(DeviceInfoStorer::delete(&mut store, 1), Ok(1));
    assert_eq!(DeviceInfoStorer::delete(&mut store, 1), Ok(0));
    assert_eq!(DeviceInfoStorer::is_exist(&store, 1), Ok(false));
    assert_eq!(DeviceInfoStorer::is_exist(&store, 2), Ok(true));
    let id = DeviceInfoStorer::insert(&mut store, device_info("new", "N", 1)).unwrap();
    assert_eq!(id, 3);
}

#[test]
fn bulk_delete_matches_texts_exactly() {
    let mut store = MemoryStore::new(MyDatetime(0));
    for (name, v) in [("pump", 10), ("pump spare", 10), ("pump", 50), ("fan", 10)] {
        DeviceInfoStorer::insert(&mut store, device_info(name, "X", v)).unwrap();
    }
    let mut q = all_device_infos(1, 1);
    q.name = Some("pump".to_string());
    q.maintain_interval_end = Some(50);
    assert_eq!(DeviceInfoStorer::bulk_delete(&mut store, q), Ok(1));
    let (rows, _) = DeviceInfoStorer::query(&store, &all_device_infos(1, 10)).unwrap();
    assert_eq!(rows.iter().map(|r| r.id).collect::<Vec<_>>(), vec![2, 3, 4]);
}

#[test]
fn deleting_a_device_template_removes_its_attachments() {
    let mut store = store_with_intervals(&[10, 20]);
    let s = SubsystemInfoStorer::insert(&mut store, SubsystemInfoInsert { name: "s".to_string(), maintain_interval: 1 }).unwrap();
    let c = ComponentInfoStorer::insert(
        &mut store,
        ComponentInfoInsert { name: "c".to_string(), model: "m".to_string(), maintain_interval: 1 },
    )
    .unwrap();
    for d in [1, 2] {
        RelationStorer::insert_deviceinfo_subsysteminfo(&mut store, DevinfoSubinfoInsert { device_info_id: d, subsystem_info_id: s })
            .unwrap();
        RelationStorer::insert_subsysteminfo_componentinfo(
            &mut store,
            SubinfoCominfoInsert { device_info_id: d, subsystem_info_id: s, component_info_id: c, quantity: 2 },
        )
        .unwrap();
    }
    assert_eq!(DeviceInfoStorer::delete(&mut store, 1), Ok(1));
    let q = all_device_infos(1, 10);
    let (rows, total) = DeviceInfoStorer::query_by_subsystem_info(&store, s, q).unwrap();
    assert_eq!(total, 1);
    assert_eq!(rows[0].id, 2);
    assert_eq!(RelationStorer::delete_subsysteminfo_componentinfo(&mut store, 1, s, c), Ok(0));
    assert_eq!(RelationStorer::delete_subsysteminfo_componentinfo(&mut store, 2, s, c), Ok(1));
}

#[test]
fn queries_across_attachments() {
    let mut store = store_with_intervals(&[10, 20, 30]);
    let s1 = SubsystemInfoStorer::insert(&mut store, SubsystemInfoInsert { name: "cooling".to_string(), maintain_interval: 5 })
        .unwrap();
    let s2 = SubsystemInfoStorer::insert(&mut store, SubsystemInfoInsert { name: "power".to_string(), maintain_interval: 9 })
        .unwrap();
    let c1 = ComponentInfoStorer::insert(
        &mut store,
        ComponentInfoInsert { name: "fan".to_string(), model: "F".to_string(), maintain_interval: 2 },
    )
    .unwrap();
    let c2 = ComponentInfoStorer::insert(
        &mut store,
        ComponentInfoInsert { name: "fuse".to_string(), model: "U".to_string(), maintain_interval: 4 },
    )
    .unwrap();
    for (d, s) in [(1, s1), (3, s1), (1, s2)] {
        RelationStorer::insert_deviceinfo_subsysteminfo(&mut store, DevinfoSubinfoInsert { device_info_id: d, subsystem_info_id: s })
            .unwrap();
    }
    for (d, s, c) in [(1, s1, c1), (3, s1, c1), (1, s2, c2)] {
        RelationStorer::insert_subsysteminfo_componentinfo(
            &mut store,
            SubinfoCominfoInsert { device_info_id: d, subsystem_info_id: s, component_info_id: c, quantity: 1 },
        )
        .unwrap();
    }
    let (devs, total) = DeviceInfoStorer::query_by_subsystem_info(&store, s1, all_device_infos(1, 10)).unwrap();
    assert_eq!((devs.iter().map(|d| d.id).collect::<Vec<_>>(), total), (vec![1, 3], 2));
    let (devs, total) = DeviceInfoStorer::query_by_subsystem_info(&store, s1, all_device_infos(2, 1)).unwrap();
    assert_eq!((devs.iter().map(|d| d.id).collect::<Vec<_>>(), total), (vec![3], 2));
    let (subs, total) = SubsystemInfoStorer::query_by_device_info(&store, 1, all_subsystem_infos()).unwrap();
    assert_eq!((subs.iter().map(|s| s.id).collect::<Vec<_>>(), total), (vec![s1, s2], 2));
    let (subs, total) = SubsystemInfoStorer::query_by_device_info(&store, 2, all_subsystem_infos()).unwrap();
    assert_eq!((subs.len(), total), (0, 0));
    let (subs, total) = SubsystemInfoStorer::query_by_component_info(&store, c1, all_subsystem_infos()).unwrap();
    assert_eq!((subs.iter().map(|s| s.id).collect::<Vec<_>>(), total), (vec![s1], 1));
    let (coms, total) = ComponentInfoStorer::query_by_subsystem_info(&store, s1, all_component_infos()).unwrap();
    assert_eq!((coms.iter().map(|c| c.id).collect::<Vec<_>>(), total), (vec![c1], 1));
    let (coms, total) = ComponentInfoStorer::query_by_subsystem_info(&store, 99, all_component_infos()).unwrap();
    assert_eq!((coms.len(), total), (0, 0));
}

#[test]
fn detail_loads_the_attached_subtree() {
    let mut store = store_with_intervals(&[10, 20]);
    let s1 = SubsystemInfoStorer::insert(&mut store, SubsystemInfoInsert { name: "cooling".to_string(), maintain_interval: 5 })
        .unwrap();
    let s2 = SubsystemInfoStorer::insert(&mut store, SubsystemInfoInsert { name: "power".to_string(), maintain_interval: 9 })
        .unwrap();
    let c1 = ComponentInfoStorer::insert(
        &mut store,
        ComponentInfoInsert { name: "fan".to_string(), model: "F".to_string(), maintain_interval: 2 },
    )
    .unwrap();
    let c2 = ComponentInfoStorer::insert(
        &mut store,
        ComponentInfoInsert { name: "fuse".to_string(), model: "U".to_string(), maintain_interval: 4 },
    )
    .unwrap();
    for s in [s2, s1] {
        RelationStorer::insert_deviceinfo_subsysteminfo(&mut store, DevinfoSubinfoInsert { device_info_id: 1, subsystem_info_id: s })
            .unwrap();
    }
    for (d, s, c) in [(1, s1, c2), (1, s1, c1), (2, s2, c2)] {
        RelationStorer::insert_subsysteminfo_componentinfo(
            &mut store,
            SubinfoCominfoInsert { device_info_id: d, subsystem_info_id: s, component_info_id: c, quantity: 3 },
        )
        .unwrap();
    }
    let (root, branches) = DeviceInfoStorer::detail(&store, 1).unwrap();
    assert_eq!(root.id, 1);
    let shape: Vec<(i32, Vec<i32>)> = branches.iter().map(|(s, cs)| (s.id, cs.iter().map(|c| c.id).collect())).collect();
    assert_eq!(shape, vec![(s1, vec![c1, c2]), (s2, vec![])]);
    let (_, branches) = DeviceInfoStorer::detail(&store, 2).unwrap();
    assert!(branches.is_empty());
    assert_eq!(DeviceInfoStorer::detail(&store, 3).unwrap_err().kind, ErrorKind::NotFound);
}

#[test]
fn relation_store_rejects_duplicates_and_bad_quantities() {
    let mut store = MemoryStore::new(MyDatetime(0));
    let pair = DevinfoSubinfoInsert { device_info_id: 4, subsystem_info_id: 5 };
    assert_eq!(RelationStorer::insert_deviceinfo_subsysteminfo(&mut store, pair), Ok(1));
    assert_eq!(RelationStorer::insert_deviceinfo_subsysteminfo(&mut store, pair).unwrap_err().kind, ErrorKind::Conflict);
    let triple = SubinfoCominfoInsert { device_info_id: 4, subsystem_info_id: 5, component_info_id: 6, quantity: 0 };
    assert_eq!(RelationStorer::insert_subsysteminfo_componentinfo(&mut store, triple).unwrap_err().kind, ErrorKind::InvalidArgument);
    let triple = SubinfoCominfoInsert { quantity: 1, ..triple };
    assert_eq!(RelationStorer::insert_subsysteminfo_componentinfo(&mut store, triple), Ok(1));
    assert_eq!(RelationStorer::insert_subsysteminfo_componentinfo(&mut store, triple).unwrap_err().kind, ErrorKind::Conflict);
    let other = SubinfoCominfoInsert { component_info_id: 7, ..triple };
    assert_eq!(RelationStorer::insert_subsysteminfo_componentinfo(&mut store, other), Ok(1));
    assert_eq!(RelationStorer::bulk_delete_subsysteminfo_componentinfo(&mut store, 4, 5), Ok(2));
    assert_eq!(RelationStorer::bulk_delete_subsysteminfo_componentinfo(&mut store, 4, 5), Ok(0));
    assert_eq!(RelationStorer::delete_deviceinfo_subsysteminfo(&mut store, 4, 6), Ok(0));
    assert_eq!(RelationStorer::bulk_delete_deviceinfo_subsysteminfo(&mut store, 4), Ok(1));
    assert_eq!(RelationStorer::insert_deviceinfo_subsysteminfo(&mut store, pair), Ok(1));
}

#[test]
fn bulk_delete_of_the_other_templates() {
    let mut store = MemoryStore::new(MyDatetime(0));
    for (name, v) in [("cooling", 5), ("cooling unit", 5), ("cooling", 50)] {
        SubsystemInfoStorer::insert(&mut store, SubsystemInfoInsert { name: name.to_string(), maintain_interval: v }).unwrap();
    }
    let q = SubsystemInfoQuery {
        name: Some("cooling".to_string()),
        maintain_interval_begin: None,
        maintain_interval_end: Some(50),
        page: 0,
        size: 0,
    };
    assert_eq!(SubsystemInfoStorer::bulk_delete(&mut store, q), Ok(1));
    let (rows, _) = SubsystemInfoStorer::query(&store, &all_subsystem_infos()).unwrap();
    assert_eq!(rows.iter().map(|r| r.id).collect::<Vec<_>>(), vec![2, 3]);
    for (name, model) in [("fan", "F1"), ("fan", "F2"), ("fuse", "F1")] {
        ComponentInfoStorer::insert(
            &mut store,
            ComponentInfoInsert { name: name.to_string(), model: model.to_string(), maintain_interval: 1 },
        )
        .unwrap();
    }
    let mut q = all_component_infos();
    q.model = Some("F1".to_string());
    assert_eq!(ComponentInfoStorer::bulk_delete(&mut store, q), Ok(2));
    assert_eq!(ComponentInfoStorer::count(&store, all_component_infos()), Ok(1));
    assert_eq!(ComponentInfoStorer::bulk_delete(&mut store, all_component_infos()), Ok(1));
    assert_eq!(ComponentInfoStorer::count(&store, all_component_infos()), Ok(0));
}
