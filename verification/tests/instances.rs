use equipment_inventory::dao::{ComponentStorer, DeviceStorer, SubsystemStorer};
use equipment_inventory::datetime::MyDatetime;
use equipment_inventory::error::ErrorKind;
use equipment_inventory::model::{
    Component, ComponentInsert, ComponentQuery, ComponentUpdate, Device, DeviceInsert, DeviceQuery, DeviceStatus, DeviceUpdate,
    Subsystem, SubsystemInsert, SubsystemQuery, SubsystemUpdate,
};
use equipment_inventory::storer::memory::MemoryStore;
use equipment_inventory::table::Record;
use equipment_inventory::table::in_key_order;
use equipment_inventory::tree::{assemble, families, grouped_by, owned_by_any, subtree};

fn device(name: &str, interval: i32) -> DeviceInsert {
    DeviceInsert {
        name: name.to_string(),
        model: "M".to_string(),
        maintain_interval: interval,
        unicode: format!("SN-{}", name),
        last_start_at: None,
        last_stop_at: None,
        total_duration: 0,
        status: DeviceStatus::Stopped,
    }
}

fn subsystem(device_id: i32, name: &str) -> SubsystemInsert {
    SubsystemInsert { device_id, name: name.to_string(), maintain_interval: 5 }
}

fn component(subsystem_id: i32, name: &str) -> ComponentInsert {
    ComponentInsert { subsystem_id, name: name.to_string(), model: "C".to_string(), maintain_interval: 2 }
}

fn any_device() -> DeviceQuery {
    DeviceQuery {
        name: None,
        model: None,
        maintain_interval_begin: None,
        maintain_interval_end: None,
        last_start_at_begin: None,
        last_start_at_end: None,
        last_stop_at_begin: None,
        last_stop_at_end: None,
        total_duration_begin: None,
        total_duration_end: None,
        status: None,
        page: None,
        size: None,
    }
}

fn device_row(id: i32) -> Device {
    Device {
        id,
        name: format!("d{}", id),
        model: "M".to_string(),
        maintain_interval: 1,
        unicode: String::new(),
        last_start_at: None,
        last_stop_at: None,
        total_duration: 0,
        status: DeviceStatus::Running,
        create_at: MyDatetime(0),
        update_at: MyDatetime(0),
    }
}

fn subsystem_row(id: i32, device_id: i32) -> Subsystem {
    Subsystem { id, device_id, name: format!("s{}", id), maintain_interval: 1, create_at: MyDatetime(0), update_at: MyDatetime(0) }
}

fn component_row(id: i32, subsystem_id: i32) -> Component {
    Component {
        id,
        subsystem_id,
        name: format!("c{}", id),
        model: "C".to_string(),
        maintain_interval: 1,
        create_at: MyDatetime(0),
        update_at: MyDatetime(0),
    }
}

fn triples(forest: &[(Device, Vec<(Subsystem, Vec<Component>)>)]) -> Vec<(i32, i32, i32)> {
    let mut out = Vec::new();
    for (d, subs) in forest {
        for (s, coms) in subs {
            for c in coms {
                out.push((d.id, s.id, c.id));
            }
        }
    }
    out
}

fn naive_triples(devs: &[Device], subs: &[Subsystem], coms: &[Component]) -> Vec<(i32, i32, i32)> {
    let mut out = Vec::new();
    for d in devs {
        for s in subs.iter().filter(|s| s.device_id == d.id) {
            for c in coms.iter().filter(|c| c.subsystem_id == s.id) {
                out.push((d.id, s.id, c.id));
            }
        }
    }
    out
}

#[test]
fn grouping_gives_the_triples_of_a_lookup_per_root() {
    let devs = vec![device_row(1), device_row(2), device_row(3)];
    let subs = vec![subsystem_row(1, 2), subsystem_row(2, 1), subsystem_row(3, 2), subsystem_row(4, 9), subsystem_row(5, 3)];
    let coms = vec![
        component_row(1, 3),
        component_row(2, 1),
        component_row(3, 3),
        component_row(4, 4),
        component_row(5, 77),
        component_row(6, 2),
    ];
    let forest = assemble(&devs, &subs, &coms);
    assert_eq!(forest.len(), 3);
    assert_eq!(forest.iter().map(|t| t.0.id).collect::<Vec<_>>(), vec![1, 2, 3]);
    assert_eq!(triples(&forest), naive_triples(&devs, &subs, &coms));
    assert_eq!(triples(&forest), vec![(1, 2, 6), (2, 1, 2), (2, 3, 1), (2, 3, 3)]);
    let shape: Vec<Vec<(i32, usize)>> = forest.iter().map(|t| t.1.iter().map(|b| (b.0.id, b.1.len())).collect()).collect();
    assert_eq!(shape, vec![vec![(2, 1)], vec![(1, 1), (3, 2)], vec![(5, 0)]]);
    assert_eq!(assemble(&devs, &subs, &coms), forest);
}

#[test]
fn grouping_with_nothing_to_group() {
    let no_devs: Vec<Device> = vec![];
    let no_subs: Vec<Subsystem> = vec![];
    let no_coms: Vec<Component> = vec![];
    assert!(assemble(&no_devs, &no_subs, &no_coms).is_empty());
    assert!(assemble(&no_devs, &vec![subsystem_row(1, 1)], &vec![component_row(1, 1)]).is_empty());
    let forest = assemble(&vec![device_row(1), device_row(2)], &no_subs, &vec![component_row(1, 1)]);
    assert_eq!(forest.len(), 2);
    assert!(forest[0].1.is_empty() && forest[1].1.is_empty());
    let forest = assemble(&vec![device_row(1)], &vec![subsystem_row(1, 1)], &no_coms);
    assert_eq!(forest[0].1.len(), 1);
    assert!(forest[0].1[0].1.is_empty());
}

#[test]
fn grouped_by_keeps_order_and_empty_groups() {
    let subs = vec![subsystem_row(10, 1), subsystem_row(11, 1), subsystem_row(12, 1)];
    let coms = vec![component_row(1, 12), component_row(2, 10), component_row(3, 12), component_row(4, 5)];
    let groups = grouped_by(&coms, &subs);
    let ids: Vec<Vec<i32>> = groups.iter().map(|g| g.iter().map(|c| c.id()).collect()).collect();
    assert_eq!(ids, vec![vec![2], vec![], vec![1, 3]]);
}

#[test]
fn subtree_of_one_root() {
    let subs = vec![subsystem_row(1, 7), subsystem_row(2, 8), subsystem_row(3, 7)];
    let coms = vec![component_row(1, 3), component_row(2, 2), component_row(3, 3)];
    let branches = subtree(7, &subs, &coms);
    let shape: Vec<(i32, Vec<i32>)> = branches.iter().map(|(s, cs)| (s.id, cs.iter().map(|c| c.id).collect())).collect();
    assert_eq!(shape, vec![(1, vec![]), (3, vec![1, 3])]);
}

fn populated() -> MemoryStore {
    let mut store = MemoryStore::new(MyDatetime(10));
    for (name, v) in [("a", 10), ("b", 20), ("c", 30)] {
        DeviceStorer::insert(&mut store, device(name, v)).unwrap();
    }
    for (d, name) in [(1, "s1"), (1, "s2"), (3, "s3")] {
        SubsystemStorer::insert(&mut store, subsystem(d, name)).unwrap();
    }
    for (s, name) in [(1, "c1"), (3, "c2"), (1, "c3")] {
        ComponentStorer::insert(&mut store, component(s, name)).unwrap();
    }
    store
}

#[test]
fn device_get_returns_the_owned_subtree() {
    let store = populated();
    let (dev, branches) = DeviceStorer::get(&store, 1).unwrap();
    assert_eq!(dev.name, "a");
    let shape: Vec<(i32, Vec<i32>)> = branches.iter().map(|(s, cs)| (s.id, cs.iter().map(|c| c.id).collect())).collect();
    assert_eq!(shape, vec![(1, vec![1, 3]), (2, vec![])]);
    let (_, branches) = DeviceStorer::get(&store, 2).unwrap();
    assert!(branches.is_empty());
    assert_eq!(DeviceStorer::get(&store, 4).unwrap_err().kind, ErrorKind::NotFound);
}

#[test]
fn device_query_returns_subtrees_of_the_page() {
    let store = populated();
    let (forest, total) = DeviceStorer::query(&store, &any_device()).unwrap();
    assert_eq!(total, 3);
    assert_eq!(triples(&forest), vec![(1, 1, 1), (1, 1, 3), (3, 3, 2)]);
    assert_eq!(forest.iter().map(|t| (t.0.id, t.1.len())).collect::<Vec<_>>(), vec![(1, 2), (2, 0), (3, 1)]);
    let mut q = any_device();
    q.page = Some(2);
    q.size = Some(2);
    let (forest, total) = DeviceStorer::query(&store, &q).unwrap();
    assert_eq!(total, 3);
    assert_eq!(forest.iter().map(|t| (t.0.id, t.1.len())).collect::<Vec<_>>(), vec![(3, 1)]);
    q.size = Some(0);
    assert_eq!(DeviceStorer::query(&store, &q).unwrap_err().kind, ErrorKind::InvalidArgument);
    q.size = None;
    assert_eq!(DeviceStorer::query(&store, &q).unwrap().0.len(), 3);
}

#[test]
fn device_query_filters() {
    let mut store = populated();
    let upd = DeviceUpdate {
        name: None,
        model: None,
        unicode: None,
        last_start_at: Some(MyDatetime(500)),
        last_stop_at: None,
        total_duration: Some(40),
        status: Some(DeviceStatus::Running),
    };
    assert_eq!(DeviceStorer::update(&mut store, 2, upd), Ok(1));
    let mut q = any_device();
    q.status = Some(DeviceStatus::Running);
    assert_eq!(DeviceStorer::query(&store, &q).unwrap().0.iter().map(|t| t.0.id).collect::<Vec<_>>(), vec![2]);
    let mut q = any_device();
    q.last_start_at_begin = Some(MyDatetime(500));
    q.last_start_at_end = Some(MyDatetime(501));
    assert_eq!(DeviceStorer::query(&store, &q).unwrap().1, 1);
    q.last_start_at_end = Some(MyDatetime(500));
    assert_eq!(DeviceStorer::query(&store, &q).unwrap().1, 0);
    let mut q = any_device();
    q.last_stop_at_end = Some(MyDatetime(i64::MAX));
    assert_eq!(DeviceStorer::query(&store, &q).unwrap().1, 0);
    let mut q = any_device();
    q.total_duration_begin = Some(1);
    q.total_duration_end = Some(41);
    assert_eq!(DeviceStorer::query(&store, &q).unwrap().1, 1);
    let mut q = any_device();
    q.maintain_interval_begin = Some(10);
    q.maintain_interval_end = Some(20);
    let (forest, total) = DeviceStorer::query(&store, &q).unwrap();
    assert_eq!((forest[0].0.maintain_interval, total), (10, 1));
}

#[test]
fn device_update_without_fields_is_a_no_op() {
    let mut store = populated();
    store.set_now(MyDatetime(999));
    let before = DeviceStorer::get(&store, 1).unwrap();
    let none = DeviceUpdate {
        name: None,
        model: None,
        unicode: None,
        last_start_at: None,
        last_stop_at: None,
        total_duration: None,
        status: None,
    };
    assert_eq!(DeviceStorer::update(&mut store, 1, none.clone()), Ok(1));
    assert_eq!(DeviceStorer::get(&store, 1).unwrap(), before);
    assert_eq!(DeviceStorer::update(&mut store, 44, none), Ok(0));
    assert_eq!(SubsystemStorer::update(&mut store, 1, SubsystemUpdate { name: None, maintain_interval: None }), Ok(1));
    assert_eq!(SubsystemStorer::update(&mut store, 9, SubsystemUpdate { name: None, maintain_interval: None }), Ok(0));
    assert_eq!(
        ComponentStorer::update(&mut store, 1, ComponentUpdate { name: None, model: None, maintain_interval: None }),
        Ok(1)
    );
    assert_eq!(DeviceStorer::get(&store, 1).unwrap(), before);
}

#[test]
fn a_child_needs_its_parent() {
    let mut store = populated();
    assert_eq!(SubsystemStorer::insert(&mut store, subsystem(9, "x")).unwrap_err().kind, ErrorKind::StorageError);
    assert_eq!(ComponentStorer::insert(&mut store, component(9, "x")).unwrap_err().kind, ErrorKind::StorageError);
    let e = SubsystemStorer::bulk_insert(&mut store, &vec![subsystem(1, "ok"), subsystem(9, "x")]).unwrap_err();
    assert_eq!(e.kind, ErrorKind::StorageError);
    assert_eq!(DeviceStorer::get(&store, 1).unwrap().1.len(), 2);
    assert_eq!(SubsystemStorer::bulk_insert(&mut store, &vec![subsystem(2, "n1"), subsystem(2, "n2")]), Ok(2));
    assert_eq!(DeviceStorer::get(&store, 2).unwrap().1.iter().map(|b| b.0.id).collect::<Vec<_>>(), vec![4, 5]);
    assert_eq!(ComponentStorer::bulk_insert(&mut store, &vec![component(5, "k"), component(4, "l")]), Ok(2));
    assert_eq!(ComponentStorer::get(&store, 5).unwrap().1.id, 4);
}

#[test]
fn a_parent_with_children_cannot_be_deleted() {
    let mut store = populated();
    assert_eq!(DeviceStorer::delete(&mut store, 1).unwrap_err().kind, ErrorKind::StorageError);
    assert_eq!(SubsystemStorer::delete(&mut store, 1).unwrap_err().kind, ErrorKind::StorageError);
    assert_eq!(DeviceStorer::delete(&mut store, 2), Ok(1));
    assert_eq!(DeviceStorer::delete(&mut store, 2), Ok(0));
    assert_eq!(ComponentStorer::delete(&mut store, 1), Ok(1));
    assert_eq!(ComponentStorer::delete(&mut store, 3), Ok(1));
    assert_eq!(SubsystemStorer::delete(&mut store, 1), Ok(1));
    assert_eq!(SubsystemStorer::delete(&mut store, 2), Ok(1));
    assert_eq!(DeviceStorer::delete(&mut store, 1), Ok(1));
    assert_eq!(DeviceStorer::query(&store, &any_device()).unwrap().1, 1);
}

#[test]
fn subsystem_and_component_lookups() {
    let store = populated();
    let (dev, sub, coms) = SubsystemStorer::get(&store, 1).unwrap();
    assert_eq!((dev.id, sub.id, coms.iter().map(|c| c.id).collect::<Vec<_>>()), (1, 1, vec![1, 3]));
    let (dev, sub, coms) = SubsystemStorer::get(&store, 3).unwrap();
    assert_eq!((dev.id, sub.name.as_str(), coms.len()), (3, "s3", 1));
    assert_eq!(SubsystemStorer::get(&store, 8).unwrap_err().kind, ErrorKind::NotFound);
    let (dev, sub, com) = ComponentStorer::get(&store, 2).unwrap();
    assert_eq!((dev.id, sub.id, com.name.as_str()), (3, 3, "c2"));
    assert_eq!(ComponentStorer::get(&store, 0).unwrap_err().kind, ErrorKind::NotFound);
    let q = SubsystemQuery {
        subsystem_name: Some("s".to_string()),
        maintain_interval_begin: Some(5),
        maintain_interval_end: Some(6),
        page: Some(1),
        size: Some(2),
    };
    let (rows, total) = SubsystemStorer::query(&store, &q).unwrap();
    let shape: Vec<(i32, i32, Vec<i32>)> =
        rows.iter().map(|(d, s, cs)| (d.id, s.id, cs.iter().map(|c| c.id).collect())).collect();
    assert_eq!((shape, total), (vec![(1, 1, vec![1, 3]), (1, 2, vec![])], 3));
    let q = SubsystemQuery { page: Some(2), ..q };
    let (rows, total) = SubsystemStorer::query(&store, &q).unwrap();
    let shape: Vec<(i32, i32, Vec<i32>)> =
        rows.iter().map(|(d, s, cs)| (d.id, s.id, cs.iter().map(|c| c.id).collect())).collect();
    assert_eq!((shape, total), (vec![(3, 3, vec![2])], 3));
    let q = ComponentQuery {
        name: Some("c3".to_string()),
        model: None,
        maintain_interval_begin: None,
        maintain_interval_end: None,
        page: None,
        size: None,
    };
    let (rows, total) = ComponentStorer::query(&store, &q).unwrap();
    assert_eq!((rows.iter().map(|c| c.id).collect::<Vec<_>>(), total), (vec![3], 1));
}

#[test]
fn families_join_each_row_with_its_parent_and_children() {
    let devs = vec![device_row(1), device_row(4)];
    let subs = vec![subsystem_row(1, 4), subsystem_row(2, 1), subsystem_row(3, 4)];
    let coms = vec![component_row(1, 3), component_row(2, 1), component_row(3, 3), component_row(4, 9)];
    assert!(in_key_order(&devs));
    let out = families(&devs, &subs, &coms);
    let shape: Vec<(i32, i32, Vec<i32>)> = out.iter().map(|(d, s, cs)| (d.id, s.id, cs.iter().map(|c| c.id).collect())).collect();
    assert_eq!(shape, vec![(4, 1, vec![2]), (1, 2, vec![]), (4, 3, vec![1, 3])]);
    let none: Vec<Subsystem> = vec![];
    assert!(families(&devs, &none, &coms).is_empty());
}

#[test]
fn key_order_is_strictly_increasing() {
    assert!(in_key_order(&Vec::<Device>::new()));
    assert!(in_key_order(&vec![device_row(3)]));
    assert!(in_key_order(&vec![device_row(1), device_row(2), device_row(9)]));
    assert!(!in_key_order(&vec![device_row(1), device_row(1)]));
    assert!(!in_key_order(&vec![device_row(1), device_row(3), device_row(2)]));
}

#[test]
fn loading_what_the_roots_own() {
    let devs = vec![device_row(2), device_row(5)];
    let subs = vec![subsystem_row(1, 5), subsystem_row(2, 3), subsystem_row(3, 2), subsystem_row(4, 7)];
    let coms = vec![component_row(1, 2), component_row(2, 3), component_row(3, 1), component_row(4, 4)];
    let loaded_subs = owned_by_any(&subs, &devs);
    assert_eq!(loaded_subs.iter().map(|s| s.id).collect::<Vec<_>>(), vec![1, 3]);
    let loaded_coms = owned_by_any(&coms, &loaded_subs);
    assert_eq!(loaded_coms.iter().map(|c| c.id).collect::<Vec<_>>(), vec![2, 3]);
    assert_eq!(assemble(&devs, &loaded_subs, &loaded_coms), assemble(&devs, &subs, &coms));
}
