use equipment_inventory::dao::{ComponentInfoStorer, ComponentStorer, DeviceInfoStorer, DeviceStorer, Storage, SubsystemStorer};
use equipment_inventory::datetime::MyDatetime;
use equipment_inventory::error::{Error, ErrorKind};
use equipment_inventory::model::{ComponentInfoQuery, ComponentQuery, DeviceQuery, DeviceStatus, SubsystemQuery};
use equipment_inventory::result;
use equipment_inventory::service::{Server, Service};
use equipment_inventory::storer::memory::MemoryStore;

fn service() -> Service<MemoryStore> {
    Service::new(MemoryStore::new(MyDatetime(100)))
}

fn every_component_info() -> ComponentInfoQuery {
    ComponentInfoQuery { name: None, model: None, maintain_interval_begin: None, maintain_interval_end: None, page: None, size: None }
}

fn every_device() -> DeviceQuery {
    DeviceQuery {
        name: None,
        model: None,
        maintain_interval_begin: None,
        maintain_interval_end: None,
        last_start_at_begin: None,
        last_start_at_end: None,
        last_stop_at_begin: None,
        last_stop_at_end: None,
        total_duration_begin: None,
        total_duration_end: None,
        status: None,
        page: None,
        size: None,
    }
}

#[test]
fn attaching_a_pair_twice_is_a_conflict() {
    let mut svc = service();
    let d = svc.add_device_info("press".to_string(), "PR-9".to_string(), 90).unwrap();
    let s = svc.add_subsystem_info("hydraulics".to_string(), 30).unwrap();
    assert_eq!(svc.attach_subsystem_info(d, s), Ok(1));
    assert_eq!(svc.attach_subsystem_info(d, s), Err(Error { kind: ErrorKind::Conflict }));
    let c = svc.add_component_info("valve".to_string(), "V".to_string(), 10).unwrap();
    assert_eq!(svc.attach_component_info(d, s, c, 5), Ok(1));
    assert_eq!(svc.attach_component_info(d, s, c, 5), Err(Error { kind: ErrorKind::Conflict }));
    assert_eq!(svc.attach_component_info(d, s, c, 6), Err(Error { kind: ErrorKind::Conflict }));
}

#[test]
fn attaching_needs_both_ends() {
    let mut svc = service();
    let d = svc.add_device_info("press".to_string(), "PR-9".to_string(), 90).unwrap();
    let s = svc.add_subsystem_info("hydraulics".to_string(), 30).unwrap();
    let c = svc.add_component_info("valve".to_string(), "V".to_string(), 10).unwrap();
    assert_eq!(svc.attach_subsystem_info(d + 1, s).unwrap_err().kind, ErrorKind::NotFound);
    assert_eq!(svc.attach_subsystem_info(d, s + 1).unwrap_err().kind, ErrorKind::NotFound);
    assert_eq!(svc.attach_component_info(d, s + 1, c, 1).unwrap_err().kind, ErrorKind::NotFound);
    assert_eq!(svc.attach_component_info(d, s, c + 1, 1).unwrap_err().kind, ErrorKind::NotFound);
    assert_eq!(svc.attach_component_info(d, s, c + 1, 0).unwrap_err().kind, ErrorKind::NotFound);
    assert_eq!(svc.attach_component_info(d, s, c, 0).unwrap_err().kind, ErrorKind::InvalidArgument);
    assert_eq!(svc.attach_component_info(d, s, c, -2).unwrap_err().kind, ErrorKind::InvalidArgument);
    assert_eq!(svc.attach_component_info(d, s, c, 1), Ok(1));
}

#[test]
fn detaching_a_subsystem_template_cascades() {
    let mut svc = service();
    let d = svc.add_device_info("press".to_string(), "PR-9".to_string(), 90).unwrap();
    let s = svc.add_subsystem_info("hydraulics".to_string(), 30).unwrap();
    let c = svc.add_component_info("valve".to_string(), "V".to_string(), 10).unwrap();
    svc.attach_subsystem_info(d, s).unwrap();
    svc.attach_component_info(d, s, c, 5).unwrap();
    let (found, total) = ComponentInfoStorer::query_by_subsystem_info(&svc.store, s, every_component_info()).unwrap();
    assert_eq!((found.len(), total), (1, 1));
    assert_eq!(svc.remove_subsystem_info(d, s), Ok(1));
    let (found, total) = ComponentInfoStorer::query_by_subsystem_info(&svc.store, s, every_component_info()).unwrap();
    assert_eq!((found.len(), total), (0, 0));
    assert!(DeviceInfoStorer::detail(&svc.store, d).unwrap().1.is_empty());
    assert_eq!(svc.remove_component_info(d, s, c), Ok(0));
    assert_eq!(svc.remove_subsystem_info(d, s), Ok(0));
    assert_eq!(svc.attach_subsystem_info(d, s), Ok(1));
    assert!(DeviceInfoStorer::detail(&svc.store, d).unwrap().1[0].1.is_empty());
}

#[test]
fn detaching_leaves_other_device_templates_alone() {
    let mut svc = service();
    let d1 = svc.add_device_info("press".to_string(), "PR-9".to_string(), 90).unwrap();
    let d2 = svc.add_device_info("lathe".to_string(), "L-1".to_string(), 60).unwrap();
    let s = svc.add_subsystem_info("hydraulics".to_string(), 30).unwrap();
    let c = svc.add_component_info("valve".to_string(), "V".to_string(), 10).unwrap();
    for d in [d1, d2] {
        svc.attach_subsystem_info(d, s).unwrap();
        svc.attach_component_info(d, s, c, 2).unwrap();
    }
    assert_eq!(svc.remove_subsystem_info(d1, s), Ok(1));
    assert_eq!(DeviceInfoStorer::detail(&svc.store, d2).unwrap().1[0].1.len(), 1);
    assert_eq!(svc.remove_component_info(d2, s, c), Ok(1));
    assert!(DeviceInfoStorer::detail(&svc.store, d2).unwrap().1[0].1.is_empty());
}

#[test]
fn a_device_is_built_like_its_template() {
    let mut svc = service();
    let d = svc.add_device_info("press".to_string(), "PR-9".to_string(), 90).unwrap();
    let s1 = svc.add_subsystem_info("hydraulics".to_string(), 30).unwrap();
    let s2 = svc.add_subsystem_info("frame".to_string(), 365).unwrap();
    let c1 = svc.add_component_info("valve".to_string(), "V".to_string(), 10).unwrap();
    let c2 = svc.add_component_info("hose".to_string(), "H".to_string(), 20).unwrap();
    svc.attach_subsystem_info(d, s1).unwrap();
    svc.attach_subsystem_info(d, s2).unwrap();
    svc.attach_component_info(d, s1, c1, 4).unwrap();
    svc.attach_component_info(d, s1, c2, 1).unwrap();
    svc.store.set_now(MyDatetime(2000));
    let id = svc.create_device(d, "SN-001".to_string()).unwrap();
    assert_eq!(id, 1);
    let (forest, total) = DeviceStorer::query(&svc.store, &every_device()).unwrap();
    assert_eq!(total, 1);
    assert_eq!(forest.len(), 1);
    let (dev, branches) = &forest[0];
    assert_eq!((dev.name.as_str(), dev.model.as_str(), dev.maintain_interval), ("press", "PR-9", 90));
    assert_eq!(dev.unicode, "SN-001");
    assert_eq!(dev.status, DeviceStatus::Stopped);
    assert_eq!((dev.last_start_at, dev.last_stop_at, dev.total_duration), (None, None, 0));
    assert_eq!((dev.create_at, dev.update_at), (MyDatetime(2000), MyDatetime(2000)));
    assert_eq!(branches.len(), 2);
    assert_eq!((branches[0].0.name.as_str(), branches[0].0.maintain_interval, branches[0].0.device_id), ("hydraulics", 30, id));
    assert_eq!((branches[1].0.name.as_str(), branches[1].0.maintain_interval, branches[1].0.device_id), ("frame", 365, id));
    let leaves: Vec<(String, String, i32, i32)> =
        branches[0].1.iter().map(|c| (c.name.clone(), c.model.clone(), c.maintain_interval, c.subsystem_id)).collect();
    assert_eq!(
        leaves,
        vec![
            ("valve".to_string(), "V".to_string(), 10, branches[0].0.id),
            ("hose".to_string(), "H".to_string(), 20, branches[0].0.id)
        ]
    );
    assert!(branches[1].1.is_empty());
    let subs = SubsystemStorer::query(
        &svc.store,
        &SubsystemQuery { subsystem_name: None, maintain_interval_begin: None, maintain_interval_end: None, page: None, size: None },
    )
    .unwrap();
    assert_eq!(subs.1, 2);
    assert_eq!(subs.0.iter().map(|(d, s, cs)| (d.id, s.id, cs.len())).collect::<Vec<_>>(), vec![(1, 1, 2), (1, 2, 0)]);
    let coms = ComponentStorer::query(
        &svc.store,
        &ComponentQuery { name: None, model: None, maintain_interval_begin: None, maintain_interval_end: None, page: None, size: None },
    )
    .unwrap();
    assert_eq!(coms.1, 2);
}

#[test]
fn building_twice_gives_two_separate_trees() {
    let mut svc = service();
    let d = svc.add_device_info("press".to_string(), "PR-9".to_string(), 90).unwrap();
    let s = svc.add_subsystem_info("hydraulics".to_string(), 30).unwrap();
    let c = svc.add_component_info("valve".to_string(), "V".to_string(), 10).unwrap();
    svc.attach_subsystem_info(d, s).unwrap();
    svc.attach_component_info(d, s, c, 3).unwrap();
    assert_eq!(svc.create_device(d, "SN-001".to_string()), Ok(1));
    assert_eq!(svc.create_device(d, "SN-002".to_string()), Ok(2));
    let (forest, _) = DeviceStorer::query(&svc.store, &every_device()).unwrap();
    let shape: Vec<(i32, Vec<(i32, Vec<i32>)>)> = forest
        .iter()
        .map(|(dev, bs)| (dev.id, bs.iter().map(|(s, cs)| (s.id, cs.iter().map(|c| c.id).collect())).collect()))
        .collect();
    assert_eq!(shape, vec![(1, vec![(1, vec![1])]), (2, vec![(2, vec![2])])]);
}

#[test]
fn building_from_a_missing_template_is_not_found() {
    let mut svc = service();
    assert_eq!(svc.create_device(1, "SN-001".to_string()), Err(Error { kind: ErrorKind::NotFound }));
    assert_eq!(DeviceStorer::query(&svc.store, &every_device()).unwrap().1, 0);
}

#[test]
fn deleting_through_the_service() {
    let mut svc = service();
    let d = svc.add_device_info("press".to_string(), "PR-9".to_string(), 90).unwrap();
    let s = svc.add_subsystem_info("hydraulics".to_string(), 30).unwrap();
    let c = svc.add_component_info("valve".to_string(), "V".to_string(), 10).unwrap();
    svc.attach_subsystem_info(d, s).unwrap();
    let dev = svc.create_device(d, "SN-001".to_string()).unwrap();
    assert_eq!(svc.delete_device(dev).unwrap_err().kind, ErrorKind::StorageError);
    assert_eq!(SubsystemStorer::delete(&mut svc.store, 1), Ok(1));
    assert_eq!(svc.delete_device(dev), Ok(1));
    assert_eq!(svc.delete_component_info(c), Ok(1));
    assert_eq!(svc.delete_subsystem_info(s), Ok(1));
    assert_eq!(svc.delete_device_info(d), Ok(1));
    assert_eq!(svc.delete_device_info(d), Ok(0));
    assert_eq!(svc.add_device_info("x".to_string(), "y".to_string(), -1).unwrap_err().kind, ErrorKind::StorageError);
}

#[test]
fn a_rolled_back_transaction_leaves_no_trace() {
    let mut svc = service();
    svc.add_device_info("press".to_string(), "PR-9".to_string(), 90).unwrap();
    svc.begin();
    svc.add_device_info("lathe".to_string(), "L".to_string(), 5).unwrap();
    svc.store.begin();
    assert_eq!(svc.delete_device_info(1), Ok(1));
    assert_eq!(DeviceInfoStorer::is_exist(&svc.store, 1), Ok(false));
    svc.store.rollback();
    assert_eq!(DeviceInfoStorer::is_exist(&svc.store, 1), Ok(true));
    assert_eq!(DeviceInfoStorer::is_exist(&svc.store, 2), Ok(true));
    svc.rollback();
    assert_eq!(DeviceInfoStorer::is_exist(&svc.store, 1), Ok(true));
    assert_eq!(DeviceInfoStorer::is_exist(&svc.store, 2), Ok(false));
    assert_eq!(svc.add_device_info("lathe".to_string(), "L".to_string(), 5), Ok(2));
    svc.begin();
    assert_eq!(svc.add_device_info("mill".to_string(), "M".to_string(), 5), Ok(3));
    svc.commit();
    assert_eq!(DeviceInfoStorer::is_exist(&svc.store, 3), Ok(true));
}

#[test]
fn failures_map_to_status_codes() {
    assert_eq!(result::status_code(ErrorKind::NotFound), 404);
    assert_eq!(result::status_code(ErrorKind::Conflict), 409);
    assert_eq!(result::status_code(ErrorKind::InvalidArgument), 400);
    assert_eq!(result::status_code(ErrorKind::StorageError), 599);
    assert_eq!(result::status_code(ErrorKind::InternalError), 500);
    let e = result::Error::from_failure(&Error::new(ErrorKind::InternalError));
    assert_eq!(e, result::Error::new(500, "internal error".to_string()));
    assert_eq!(Error::new(ErrorKind::Conflict).message(), "conflict");
    assert_eq!(Error::new(ErrorKind::NotFound).message(), "not found");
    assert_eq!(Error::new(ErrorKind::InvalidArgument).message(), "invalid argument");
    assert_eq!(Error::new(ErrorKind::StorageError).message(), "storage error");
}
