use equipment_inventory::dao::{
    Checkpoints, ComponentInfoStorer, ComponentStorer, DeviceInfoStorer, DeviceStorer, RelationStorer, Storage,
    SubsystemInfoStorer, SubsystemStorer, Tables,
};
use equipment_inventory::error::{Error, ErrorKind};
use equipment_inventory::model::{
    Component, ComponentInfo, ComponentInfoInsert, ComponentInfoQuery, ComponentInfoUpdate, ComponentInsert, ComponentQuery,
    ComponentUpdate, Device, DeviceInfo, DeviceInfoInsert, DeviceInfoQuery, DeviceInfoUpdate, DeviceInsert, DeviceQuery,
    DeviceUpdate, DevinfoSubinfoInsert, SubinfoCominfoInsert, Subsystem, SubsystemInfo, SubsystemInfoInsert, SubsystemInfoQuery,
    SubsystemInfoUpdate, SubsystemInsert, SubsystemQuery, SubsystemUpdate,
};
use equipment_inventory::service::{Server, Service};

/// A store that breaks its word: it detaches a pair and then fails to
/// detach the components scoped to it. It keeps a log of what it was asked.
struct Flaky {
    log: Vec<&'static str>,
}

impl Storage for Flaky {
    fn tables(&self) -> Tables {
        unreachable!()
    }

    fn checkpoints(&self) -> Checkpoints {
        unreachable!()
    }

    fn begin(&mut self) {
        self.log.push("begin");
    }

    fn commit(&mut self) {
        self.log.push("commit");
    }

    fn rollback(&mut self) {
        self.log.push("rollback");
    }
}

impl DeviceInfoStorer for Flaky {
    fn insert(&mut self, _info: DeviceInfoInsert) -> Result<i32, Error> {
        unreachable!()
    }

    fn bulk_insert(&mut self, _infos: &Vec<DeviceInfoInsert>) -> Result<usize, Error> {
        unreachable!()
    }

    fn delete(&mut self, _id: i32) -> Result<usize, Error> {
        unreachable!()
    }

    fn bulk_delete(&mut self, _query: DeviceInfoQuery) -> Result<usize, Error> {
        unreachable!()
    }

    fn update(&mut self, _id: i32, _upd: DeviceInfoUpdate) -> Result<usize, Error> {
        unreachable!()
    }

    fn get(&self, _id: i32) -> Result<DeviceInfo, Error> {
        unreachable!()
    }

    fn query(&self, _query: &DeviceInfoQuery) -> Result<(Vec<DeviceInfo>, i64), Error> {
        unreachable!()
    }

    fn query_by_subsystem_info(&self, _subinfoid: i32, _query: DeviceInfoQuery) -> Result<(Vec<DeviceInfo>, i64), Error> {
        unreachable!()
    }

    fn count(&self, _query: DeviceInfoQuery) -> Result<i64, Error> {
        unreachable!()
    }

    fn is_exist(&self, _id: i32) -> Result<bool, Error> {
        unreachable!()
    }

    fn detail(&self, _id: i32) -> Result<(DeviceInfo, Vec<(SubsystemInfo, Vec<ComponentInfo>)>), Error> {
        unreachable!()
    }
}

impl SubsystemInfoStorer for Flaky {
    fn insert(&mut self, _info: SubsystemInfoInsert) -> Result<i32, Error> {
        unreachable!()
    }

    fn bulk_insert(&mut self, _infos: &Vec<SubsystemInfoInsert>) -> Result<usize, Error> {
        unreachable!()
    }

    fn delete(&mut self, _id: i32) -> Result<usize, Error> {
        unreachable!()
    }

    fn bulk_delete(&mut self, _query: SubsystemInfoQuery) -> Result<usize, Error> {
        unreachable!()
    }

    fn update(&mut self, _id: i32, _upd: SubsystemInfoUpdate) -> Result<usize, Error> {
        unreachable!()
    }

    fn get(&self, _id: i32) -> Result<SubsystemInfo, Error> {
        unreachable!()
    }

    fn query(&self, _query: &SubsystemInfoQuery) -> Result<(Vec<SubsystemInfo>, i64), Error> {
        unreachable!()
    }

    fn query_by_device_info(&self, _devinfoid: i32, _query: SubsystemInfoQuery) -> Result<(Vec<SubsystemInfo>, i64), Error> {
        unreachable!()
    }

    fn query_by_component_info(&self, _comid: i32, _query: SubsystemInfoQuery) -> Result<(Vec<SubsystemInfo>, i64), Error> {
        unreachable!()
    }

    fn count(&self, _query: SubsystemInfoQuery) -> Result<i64, Error> {
        unreachable!()
    }

    fn is_exist(&self, _id: i32) -> Result<bool, Error> {
        unreachable!()
    }
}

impl ComponentInfoStorer for Flaky {
    fn insert(&mut self, _info: ComponentInfoInsert) -> Result<i32, Error> {
        unreachable!()
    }

    fn bulk_insert(&mut self, _infos: &Vec<ComponentInfoInsert>) -> Result<usize, Error> {
        unreachable!()
    }

    fn delete(&mut self, _id: i32) -> Result<usize, Error> {
        unreachable!()
    }

    fn bulk_delete(&mut self, _query: ComponentInfoQuery) -> Result<usize, Error> {
        unreachable!()
    }

    fn update(&mut self, _id: i32, _upd: ComponentInfoUpdate) -> Result<usize, Error> {
        unreachable!()
    }

    fn get(&self, _id: i32) -> Result<ComponentInfo, Error> {
        unreachable!()
    }

    fn query(&self, _query: &ComponentInfoQuery) -> Result<(Vec<ComponentInfo>, i64), Error> {
        unreachable!()
    }

    fn query_by_subsystem_info(&self, _subinfoid: i32, _query: ComponentInfoQuery) -> Result<(Vec<ComponentInfo>, i64), Error> {
        unreachable!()
    }

    fn count(&self, _query: ComponentInfoQuery) -> Result<i64, Error> {
        unreachable!()
    }

    fn is_exist(&self, _id: i32) -> Result<bool, Error> {
        unreachable!()
    }
}

impl DeviceStorer for Flaky {
    fn insert(&mut self, _info: DeviceInsert) -> Result<i32, Error> {
        unreachable!()
    }

    fn bulk_insert(&mut self, _infos: &Vec<DeviceInsert>) -> Result<usize, Error> {
        unreachable!()
    }

    fn delete(&mut self, _id: i32) -> Result<usize, Error> {
        unreachable!()
    }

    fn update(&mut self, _id: i32, _upd: DeviceUpdate) -> Result<usize, Error> {
        unreachable!()
    }

    fn get(&self, _id: i32) -> Result<(Device, Vec<(Subsystem, Vec<Component>)>), Error> {
        unreachable!()
    }

    fn query(&self, _query: &DeviceQuery) -> Result<(Vec<(Device, Vec<(Subsystem, Vec<Component>)>)>, i64), Error> {
        unreachable!()
    }
}

impl SubsystemStorer for Flaky {
    fn insert(&mut self, _info: SubsystemInsert) -> Result<i32, Error> {
        unreachable!()
    }

    fn bulk_insert(&mut self, _infos: &Vec<SubsystemInsert>) -> Result<usize, Error> {
        unreachable!()
    }

    fn delete(&mut self, _id: i32) -> Result<usize, Error> {
        unreachable!()
    }

    fn update(&mut self, _id: i32, _upd: SubsystemUpdate) -> Result<usize, Error> {
        unreachable!()
    }

    fn get(&self, _id: i32) -> Result<(Device, Subsystem, Vec<Component>), Error> {
        unreachable!()
    }

    fn query(&self, _query: &SubsystemQuery) -> Result<(Vec<(Device, Subsystem, Vec<Component>)>, i64), Error> {
        unreachable!()
    }
}

impl ComponentStorer for Flaky {
    fn insert(&mut self, _info: ComponentInsert) -> Result<i32, Error> {
        unreachable!()
    }

    fn bulk_insert(&mut self, _infos: &Vec<ComponentInsert>) -> Result<usize, Error> {
        unreachable!()
    }

    fn delete(&mut self, _id: i32) -> Result<usize, Error> {
        unreachable!()
    }

    fn update(&mut self, _id: i32, _upd: ComponentUpdate) -> Result<usize, Error> {
        unreachable!()
    }

    fn get(&self, _id: i32) -> Result<(Device, Subsystem, Component), Error> {
        unreachable!()
    }

    fn query(&self, _query: &ComponentQuery) -> Result<(Vec<Component>, i64), Error> {
        unreachable!()
    }
}

impl RelationStorer for Flaky {
    fn insert_deviceinfo_subsysteminfo(&mut self, _rel: DevinfoSubinfoInsert) -> Result<usize, Error> {
        unreachable!()
    }

    fn delete_deviceinfo_subsysteminfo(&mut self, _devinfo_id: i32, _subinfo_id: i32) -> Result<usize, Error> {
        self.log.push("detach the pair");
        Ok(1)
    }

    fn bulk_delete_deviceinfo_subsysteminfo(&mut self, _devinfo_id: i32) -> Result<usize, Error> {
        unreachable!()
    }

    fn insert_subsysteminfo_componentinfo(&mut self, _rel: SubinfoCominfoInsert) -> Result<usize, Error> {
        unreachable!()
    }

    fn delete_subsysteminfo_componentinfo(&mut self, _devinfo_id: i32, _subinfo_id: i32, _cominfo_id: i32) -> Result<usize, Error> {
        unreachable!()
    }

    fn bulk_delete_subsysteminfo_componentinfo(&mut self, _devinfo_id: i32, _subinfo_id: i32) -> Result<usize, Error> {
        self.log.push("detach its components");
        Err(Error::new(ErrorKind::StorageError))
    }
}

#[test]
fn a_half_applied_detach_is_an_internal_error() {
    let mut svc = Service::new(Flaky { log: Vec::new() });
    assert_eq!(svc.remove_subsystem_info(1, 2), Err(Error { kind: ErrorKind::InternalError }));
    assert_eq!(svc.store.log, vec!["begin", "detach the pair", "detach its components", "rollback"]);
}
