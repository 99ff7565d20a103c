//! The stores of the inventory: what each holds, and what each operation
//! returns and changes, stated over the tables as sequences of rows.

use crate::datetime::MyDatetime;
use crate::entity::{any_negative, amended, entity_wf, rows_from, Amend, Draft};
use crate::error::{Error, ErrorKind};
use crate::model::{
    Component, ComponentInfo, ComponentInfoInsert, ComponentInfoQuery, ComponentInfoUpdate, ComponentInsert, ComponentQuery,
    ComponentUpdate, Device, DeviceInfo, DeviceInfoInsert, DeviceInfoQuery, DeviceInfoUpdate, DeviceInsert, DeviceQuery,
    DeviceUpdate, DeviceinfoSubsysteminfo, DevinfoSubinfoInsert, ExactComponentInfo, ExactDeviceInfo, ExactSubsystemInfo,
    SubinfoCominfoInsert, Subsystem, SubsystemInfo, SubsystemInfoInsert, SubsystemInfoQuery, SubsystemInfoUpdate,
    SubsystemInsert, SubsystemQuery, SubsystemUpdate, SubsysteminfoComponentinfo,
};
use crate::table::{has_key, hits, misses, only, paged, paging_valid, removed, row_of, table_wf, Criterion, Record};
use crate::tree::{branches_of, branches_view, children_of, is_family_of, is_forest_of};
use vstd::prelude::*;

verus! {

/// The eight tables, each with the key it gave out last, and the clock that
/// stamps new and changed rows.
pub struct Tables {
    pub now: MyDatetime,
    pub device_infos: Seq<DeviceInfo>,
    pub last_device_info: i32,
    pub subsystem_infos: Seq<SubsystemInfo>,
    pub last_subsystem_info: i32,
    pub component_infos: Seq<ComponentInfo>,
    pub last_component_info: i32,
    pub device_links: Seq<DeviceinfoSubsysteminfo>,
    pub last_device_link: i32,
    pub component_links: Seq<SubsysteminfoComponentinfo>,
    pub last_component_link: i32,
    pub devices: Seq<Device>,
    pub last_device: i32,
    pub subsystems: Seq<Subsystem>,
    pub last_subsystem: i32,
    pub components: Seq<Component>,
    pub last_component: i32,
}

/// The attachment of one subsystem template to one device template.
#[derive(Clone, Copy, Debug)]
pub struct PairIs {
    pub device_info_id: i32,
    pub subsystem_info_id: i32,
}

impl Criterion<DeviceinfoSubsysteminfo> for PairIs {
    open spec fn admits(&self, row: &DeviceinfoSubsysteminfo) -> bool {
        row.device_info_id == self.device_info_id && row.subsystem_info_id == self.subsystem_info_id
    }

    fn test(&self, row: &DeviceinfoSubsysteminfo) -> (b: bool) {
        row.device_info_id == self.device_info_id && row.subsystem_info_id == self.subsystem_info_id
    }
}

/// The component attachments scoped to one device template and one subsystem
/// template.
impl Criterion<SubsysteminfoComponentinfo> for PairIs {
    open spec fn admits(&self, row: &SubsysteminfoComponentinfo) -> bool {
        row.device_info_id == self.device_info_id && row.subsystem_info_id == self.subsystem_info_id
    }

    fn test(&self, row: &SubsysteminfoComponentinfo) -> (b: bool) {
        row.device_info_id == self.device_info_id && row.subsystem_info_id == self.subsystem_info_id
    }
}

/// The attachments of one device template.
#[derive(Clone, Copy, Debug)]
pub struct UnderDevice {
    pub device_info_id: i32,
}

impl Criterion<DeviceinfoSubsysteminfo> for UnderDevice {
    open spec fn admits(&self, row: &DeviceinfoSubsysteminfo) -> bool {
        row.device_info_id == self.device_info_id
    }

    fn test(&self, row: &DeviceinfoSubsysteminfo) -> (b: bool) {
        row.device_info_id == self.device_info_id
    }
}

/// The attachment of one component template to one subsystem template within
/// one device template.
#[derive(Clone, Copy, Debug)]
pub struct TripleIs {
    pub device_info_id: i32,
    pub subsystem_info_id: i32,
    pub component_info_id: i32,
}

impl Criterion<SubsysteminfoComponentinfo> for TripleIs {
    open spec fn admits(&self, row: &SubsysteminfoComponentinfo) -> bool {
        row.device_info_id == self.device_info_id && row.subsystem_info_id == self.subsystem_info_id && row.component_info_id
            == self.component_info_id
    }

    fn test(&self, row: &SubsysteminfoComponentinfo) -> (b: bool) {
        row.device_info_id == self.device_info_id && row.subsystem_info_id == self.subsystem_info_id && row.component_info_id
            == self.component_info_id
    }
}

/// The subsystem template `s` is attached to the device template `d`.
pub open spec fn linked(links: Seq<DeviceinfoSubsysteminfo>, d: i32, s: i32) -> bool {
    hits(links, PairIs { device_info_id: d, subsystem_info_id: s }).len() > 0
}

/// The component template `c` is attached to the subsystem template `s`
/// within the device template `d`.
pub open spec fn attached(links: Seq<SubsysteminfoComponentinfo>, d: i32, s: i32, c: i32) -> bool {
    hits(links, TripleIs { device_info_id: d, subsystem_info_id: s, component_info_id: c }).len() > 0
}

/// The attachments of one component template to one subsystem template, in
/// whatever device template.
#[derive(Clone, Copy, Debug)]
pub struct PartIs {
    pub subsystem_info_id: i32,
    pub component_info_id: i32,
}

impl Criterion<SubsysteminfoComponentinfo> for PartIs {
    open spec fn admits(&self, row: &SubsysteminfoComponentinfo) -> bool {
        row.subsystem_info_id == self.subsystem_info_id && row.component_info_id == self.component_info_id
    }

    fn test(&self, row: &SubsysteminfoComponentinfo) -> (b: bool) {
        row.subsystem_info_id == self.subsystem_info_id && row.component_info_id == self.component_info_id
    }
}

/// The component template `c` is attached to the subsystem template `s` in
/// some device template.
pub open spec fn holds_component(links: Seq<SubsysteminfoComponentinfo>, s: i32, c: i32) -> bool {
    hits(links, PartIs { subsystem_info_id: s, component_info_id: c }).len() > 0
}

/// No attachment occurs twice, and every quantity is positive.
pub open spec fn links_wf(t: Tables) -> bool {
    &&& forall|d: i32, s: i32| #[trigger] hits(t.device_links, PairIs { device_info_id: d, subsystem_info_id: s }).len() <= 1
    &&& forall|d: i32, s: i32, c: i32| #[trigger]
        hits(t.component_links, TripleIs { device_info_id: d, subsystem_info_id: s, component_info_id: c }).len() <= 1
    &&& forall|k: int| 0 <= k < t.component_links.len() ==> (#[trigger] t.component_links[k]).quantity > 0
}

/// Every subsystem belongs to a device that is there, and every component to
/// a subsystem that is there.
pub open spec fn ownership_wf(t: Tables) -> bool {
    &&& forall|i: int| 0 <= i < t.subsystems.len() ==> has_key(t.devices, (#[trigger] t.subsystems[i]).device_id)
    &&& forall|i: int| 0 <= i < t.components.len() ==> has_key(t.subsystems, (#[trigger] t.components[i]).subsystem_id)
}

/// The invariant of the inventory.
pub open spec fn consistent(t: Tables) -> bool {
    &&& entity_wf(t.device_infos, t.last_device_info)
    &&& entity_wf(t.subsystem_infos, t.last_subsystem_info)
    &&& entity_wf(t.component_infos, t.last_component_info)
    &&& table_wf(t.device_links, t.last_device_link)
    &&& table_wf(t.component_links, t.last_component_link)
    &&& entity_wf(t.devices, t.last_device)
    &&& entity_wf(t.subsystems, t.last_subsystem)
    &&& entity_wf(t.components, t.last_component)
    &&& links_wf(t)
    &&& ownership_wf(t)
}

/// The tables to go back to, one for each open transaction.
pub type Checkpoints = Seq<Tables>;

/// Something that holds the tables of an inventory.
pub trait Storage {
    /// The tables as they are now.
    spec fn tables(&self) -> Tables;

    /// The tables as they were when each of the open transactions began, the
    /// innermost last.
    spec fn checkpoints(&self) -> Checkpoints;

    /// Opens a transaction: what is changed from here on can be taken back.
    fn begin(&mut self)
        ensures
            final(self).tables() == old(self).tables(),
            final(self).checkpoints() == old(self).checkpoints().push(old(self).tables()),
    ;

    /// Closes the innermost transaction and keeps what it changed.
    fn commit(&mut self)
        requires
            old(self).checkpoints().len() > 0,
        ensures
            final(self).tables() == old(self).tables(),
            final(self).checkpoints() == old(self).checkpoints().drop_last(),
    ;

    /// Closes the innermost transaction and takes back what it changed.
    fn rollback(&mut self)
        requires
            old(self).checkpoints().len() > 0,
        ensures
            final(self).tables() == old(self).checkpoints().last(),
            final(self).checkpoints() == old(self).checkpoints().drop_last(),
    ;
}

/// Some drafted subsystem names a device that is not there.
pub open spec fn any_orphan_subsystem(devices: Seq<Device>, subs: Seq<SubsystemInsert>) -> bool {
    exists|i: int| 0 <= i < subs.len() && !has_key(devices, (#[trigger] subs[i]).device_id)
}

/// Some drafted component names a subsystem that is not there.
pub open spec fn any_orphan_component(subsystems: Seq<Subsystem>, coms: Seq<ComponentInsert>) -> bool {
    exists|i: int| 0 <= i < coms.len() && !has_key(subsystems, (#[trigger] coms[i]).subsystem_id)
}

/// "Passes `q` and has the subsystem template `s` attached, which exists."
pub open spec fn is_device_info_of(t: Tables, s: i32, q: DeviceInfoQuery) -> spec_fn(DeviceInfo) -> bool {
    |d: DeviceInfo| has_key(t.subsystem_infos, s) && q.admits(&d) && linked(t.device_links, d.id, s)
}

/// The device templates that pass `q` and have the subsystem template `s`
/// attached, provided that subsystem template exists.
pub open spec fn device_infos_of(t: Tables, s: i32, q: DeviceInfoQuery) -> Seq<DeviceInfo> {
    t.device_infos.filter(is_device_info_of(t, s, q))
}

/// "Passes `q` and is attached to the device template `d`, which exists."
pub open spec fn is_subsystem_info_of(t: Tables, d: i32, q: SubsystemInfoQuery) -> spec_fn(SubsystemInfo) -> bool {
    |s: SubsystemInfo| has_key(t.device_infos, d) && q.admits(&s) && linked(t.device_links, d, s.id)
}

/// The subsystem templates that pass `q` and are attached to the device
/// template `d`, provided that device template exists.
pub open spec fn subsystem_infos_of(t: Tables, d: i32, q: SubsystemInfoQuery) -> Seq<SubsystemInfo> {
    t.subsystem_infos.filter(is_subsystem_info_of(t, d, q))
}

/// "Passes `q` and has the component template `c` attached, which exists."
pub open spec fn is_subsystem_info_with(t: Tables, c: i32, q: SubsystemInfoQuery) -> spec_fn(SubsystemInfo) -> bool {
    |s: SubsystemInfo| has_key(t.component_infos, c) && q.admits(&s) && holds_component(t.component_links, s.id, c)
}

/// The subsystem templates that pass `q` and have the component template `c`
/// attached, provided that component template exists.
pub open spec fn subsystem_infos_with(t: Tables, c: i32, q: SubsystemInfoQuery) -> Seq<SubsystemInfo> {
    t.subsystem_infos.filter(is_subsystem_info_with(t, c, q))
}

/// "Passes `q` and is attached to the subsystem template `s`, which exists."
pub open spec fn is_component_info_of(t: Tables, s: i32, q: ComponentInfoQuery) -> spec_fn(ComponentInfo) -> bool {
    |c: ComponentInfo| has_key(t.subsystem_infos, s) && q.admits(&c) && holds_component(t.component_links, s, c.id)
}

/// The component templates that pass `q` and are attached to the subsystem
/// template `s`, provided that subsystem template exists.
pub open spec fn component_infos_of(t: Tables, s: i32, q: ComponentInfoQuery) -> Seq<ComponentInfo> {
    t.component_infos.filter(is_component_info_of(t, s, q))
}

/// "Is attached to the device template `d`."
pub open spec fn is_template_subsystem(t: Tables, d: i32) -> spec_fn(SubsystemInfo) -> bool {
    |s: SubsystemInfo| linked(t.device_links, d, s.id)
}

/// The subsystem templates attached to the device template `d`.
pub open spec fn template_subsystems(t: Tables, d: i32) -> Seq<SubsystemInfo> {
    t.subsystem_infos.filter(is_template_subsystem(t, d))
}

/// "Is attached to the subsystem template `s` within the device template `d`."
pub open spec fn is_template_component(t: Tables, d: i32, s: i32) -> spec_fn(ComponentInfo) -> bool {
    |c: ComponentInfo| attached(t.component_links, d, s, c.id)
}

/// The component templates attached to the subsystem template `s` within the
/// device template `d`.
pub open spec fn template_components(t: Tables, d: i32, s: i32) -> Seq<ComponentInfo> {
    t.component_infos.filter(is_template_component(t, d, s))
}

/// A subsystem template with its component templates within the device template `d`.
pub open spec fn template_branch(t: Tables, d: i32) -> spec_fn(SubsystemInfo) -> (SubsystemInfo, Seq<ComponentInfo>) {
    |s: SubsystemInfo| (s, template_components(t, d, s.id))
}

/// The subtree of the device template `d`: its subsystem templates, each with
/// its component templates.
pub open spec fn template_branches(t: Tables, d: i32) -> Seq<(SubsystemInfo, Seq<ComponentInfo>)> {
    template_subsystems(t, d).map_values(template_branch(t, d))
}

/// The attachments that stay when the device templates `gone` go.
pub open spec fn orphaned_pairs(gone: Seq<DeviceInfo>) -> spec_fn(DeviceinfoSubsysteminfo) -> bool {
    |l: DeviceinfoSubsysteminfo| !has_key(gone, l.device_info_id)
}

/// The component attachments that stay when the device templates `gone` go.
pub open spec fn orphaned_triples(gone: Seq<DeviceInfo>) -> spec_fn(SubsysteminfoComponentinfo) -> bool {
    |l: SubsysteminfoComponentinfo| !has_key(gone, l.device_info_id)
}

/// The tables after the device templates `gone` have left: the remaining
/// templates, and the attachments that are not scoped under one that left.
pub open spec fn without_device_infos(t: Tables, left: Seq<DeviceInfo>, gone: Seq<DeviceInfo>) -> Tables {
    Tables {
        device_infos: left,
        device_links: t.device_links.filter(orphaned_pairs(gone)),
        component_links: t.component_links.filter(orphaned_triples(gone)),
        ..t
    }
}

// ====================================================== device templates

pub trait DeviceInfoStorer: Storage {
    /// Adds one device template and returns its key. Refused with
    /// `StorageError` where the interval is negative or no key is left.
    fn insert(&mut self, info: DeviceInfoInsert) -> (r: Result<i32, Error>)
        requires
            consistent(old(self).tables()),
        ensures
            consistent(final(self).tables()),
            final(self).checkpoints() == old(self).checkpoints(),
            r is Err <==> info.interval() < 0 || old(self).tables().last_device_info == i32::MAX,
            r is Err ==> r->Err_0.kind == ErrorKind::StorageError && final(self).tables() == old(self).tables(),
            r is Ok ==> r->Ok_0 == old(self).tables().last_device_info + 1 && final(self).tables() == (Tables {
                device_infos: old(self).tables().device_infos.push(info.row(r->Ok_0, old(self).tables().now)),
                last_device_info: r->Ok_0,
                ..old(self).tables()
            }),
    ;

    /// Adds all the templates or none of them.
    fn bulk_insert(&mut self, infos: &Vec<DeviceInfoInsert>) -> (r: Result<usize, Error>)
        requires
            consistent(old(self).tables()),
        ensures
            consistent(final(self).tables()),
            final(self).checkpoints() == old(self).checkpoints(),
            r is Err <==> any_negative::<DeviceInfo, DeviceInfoInsert>(infos@) || old(self).tables().last_device_info
                + infos@.len() > i32::MAX,
            r is Err ==> r->Err_0.kind == ErrorKind::StorageError && final(self).tables() == old(self).tables(),
            r is Ok ==> r->Ok_0 == infos@.len() && final(self).tables() == (Tables {
                device_infos: old(self).tables().device_infos + rows_from::<DeviceInfo, DeviceInfoInsert>(
                    infos@,
                    old(self).tables().last_device_info,
                    old(self).tables().now,
                ),
                last_device_info: (old(self).tables().last_device_info + infos@.len()) as i32,
                ..old(self).tables()
            }),
    ;

    /// Removes the template `id`, if it is there, together with the
    /// attachments scoped under it, and returns how many templates left.
    fn delete(&mut self, id: i32) -> (r: Result<usize, Error>)
        requires
            consistent(old(self).tables()),
        ensures
            consistent(final(self).tables()),
            final(self).checkpoints() == old(self).checkpoints(),
            r is Ok,
            r->Ok_0 == only(old(self).tables().device_infos, id).len(),
            final(self).tables() == without_device_infos(
                old(self).tables(),
                removed(old(self).tables().device_infos, id),
                only(old(self).tables().device_infos, id),
            ),
    ;

    /// Removes the templates whose texts equal those of the filter and whose
    /// interval lies in its bounds, together with the attachments scoped under
    /// them, and returns how many templates left.
    fn bulk_delete(&mut self, query: DeviceInfoQuery) -> (r: Result<usize, Error>)
        requires
            consistent(old(self).tables()),
        ensures
            consistent(final(self).tables()),
            final(self).checkpoints() == old(self).checkpoints(),
            r is Ok,
            r->Ok_0 == hits(old(self).tables().device_infos, exact(query)).len(),
            final(self).tables() == without_device_infos(
                old(self).tables(),
                misses(old(self).tables().device_infos, exact(query)),
                hits(old(self).tables().device_infos, exact(query)),
            ),
    ;

    /// Changes the given fields of the template `id` and returns how many
    /// rows it reached: one if the template is there, else none. An update
    /// without any field changes nothing. Refused with `StorageError` where it
    /// would set a negative interval on a row that is there.
    fn update(&mut self, id: i32, upd: DeviceInfoUpdate) -> (r: Result<usize, Error>)
        requires
            consistent(old(self).tables()),
        ensures
            consistent(final(self).tables()),
            final(self).checkpoints() == old(self).checkpoints(),
            r is Err <==> has_key(old(self).tables().device_infos, id) && upd.interval() is Some && upd.interval()->0 < 0,
            r is Err ==> r->Err_0.kind == ErrorKind::StorageError && final(self).tables() == old(self).tables(),
            upd.is_empty() ==> r is Ok && final(self).tables() == old(self).tables(),
            r is Ok && !has_key(old(self).tables().device_infos, id) ==> r->Ok_0 == 0 && final(self).tables() == old(
                self,
            ).tables(),
            r is Ok && has_key(old(self).tables().device_infos, id) ==> r->Ok_0 == 1 && final(self).tables() == (Tables {
                device_infos: amended(old(self).tables().device_infos, id, upd, old(self).tables().now),
                ..old(self).tables()
            }),
    ;

    /// The template `id`, or `NotFound`.
    fn get(&self, id: i32) -> (r: Result<DeviceInfo, Error>)
        requires
            consistent(self.tables()),
        ensures
            r is Ok <==> has_key(self.tables().device_infos, id),
            r is Ok ==> r->Ok_0 == row_of(self.tables().device_infos, id),
            r is Err ==> r->Err_0.kind == ErrorKind::NotFound,
    ;

    /// One page of the templates that pass the filter, in key order, and the
    /// number of all templates that pass it.
    fn query(&self, query: &DeviceInfoQuery) -> (r: Result<(Vec<DeviceInfo>, i64), Error>)
        requires
            consistent(self.tables()),
        ensures
            r is Err <==> query.page < 1 || query.size < 1,
            r is Err ==> r->Err_0.kind == ErrorKind::InvalidArgument,
            r is Ok ==> r->Ok_0.0@ == paged(hits(self.tables().device_infos, *query), Some(query.page), Some(query.size))
                && r->Ok_0.1 == hits(self.tables().device_infos, *query).len(),
    ;

    /// One page of the templates that pass the filter and have the subsystem
    /// template attached, and the number of all such templates.
    fn query_by_subsystem_info(&self, subinfoid: i32, query: DeviceInfoQuery) -> (r: Result<(Vec<DeviceInfo>, i64), Error>)
        requires
            consistent(self.tables()),
        ensures
            r is Err <==> query.page < 1 || query.size < 1,
            r is Err ==> r->Err_0.kind == ErrorKind::InvalidArgument,
            r is Ok ==> r->Ok_0.0@ == paged(device_infos_of(self.tables(), subinfoid, query), Some(query.page), Some(query.size))
                && r->Ok_0.1 == device_infos_of(self.tables(), subinfoid, query).len(),
    ;

    /// The number of templates that pass the filter, whatever its page.
    fn count(&self, query: DeviceInfoQuery) -> (r: Result<i64, Error>)
        requires
            consistent(self.tables()),
        ensures
            r is Ok,
            r->Ok_0 == hits(self.tables().device_infos, query).len(),
    ;

    fn is_exist(&self, id: i32) -> (r: Result<bool, Error>)
        requires
            consistent(self.tables()),
        ensures
            r is Ok,
            r->Ok_0 == has_key(self.tables().device_infos, id),
    ;

    /// The template `id` with its whole attached subtree, or `NotFound`.
    fn detail(&self, id: i32) -> (r: Result<(DeviceInfo, Vec<(SubsystemInfo, Vec<ComponentInfo>)>), Error>)
        requires
            consistent(self.tables()),
        ensures
            r is Ok <==> has_key(self.tables().device_infos, id),
            r is Err ==> r->Err_0.kind == ErrorKind::NotFound,
            r is Ok ==> r->Ok_0.0 == row_of(self.tables().device_infos, id) && branches_view(r->Ok_0.1@) == template_branches(
                self.tables(),
                id,
            ),
    ;
}

// ====================================================== subsystem templates

pub trait SubsystemInfoStorer: Storage {
    /// Adds one subsystem template and returns its key. Refused with `StorageError`
    /// where the interval is negative or no key is left.
    fn insert(&mut self, info: SubsystemInfoInsert) -> (r: Result<i32, Error>)
        requires
            consistent(old(self).tables()),
        ensures
            consistent(final(self).tables()),
            final(self).checkpoints() == old(self).checkpoints(),
            r is Err <==> info.interval() < 0 || old(self).tables().last_subsystem_info == i32::MAX,
            r is Err ==> r->Err_0.kind == ErrorKind::StorageError && final(self).tables() == old(self).tables(),
            r is Ok ==> r->Ok_0 == old(self).tables().last_subsystem_info + 1 && final(self).tables() == (Tables {
                subsystem_infos: old(self).tables().subsystem_infos.push(info.row(r->Ok_0, old(self).tables().now)),
                last_subsystem_info: r->Ok_0,
                ..old(self).tables()
            }),
    ;

    /// Adds all of them or none of them.
    fn bulk_insert(&mut self, infos: &Vec<SubsystemInfoInsert>) -> (r: Result<usize, Error>)
        requires
            consistent(old(self).tables()),
        ensures
            consistent(final(self).tables()),
            final(self).checkpoints() == old(self).checkpoints(),
            r is Err <==> any_negative::<SubsystemInfo, SubsystemInfoInsert>(infos@) || old(self).tables().last_subsystem_info
                + infos@.len() > i32::MAX,
            r is Err ==> r->Err_0.kind == ErrorKind::StorageError && final(self).tables() == old(self).tables(),
            r is Ok ==> r->Ok_0 == infos@.len() && final(self).tables() == (Tables {
                subsystem_infos: old(self).tables().subsystem_infos + rows_from::<SubsystemInfo, SubsystemInfoInsert>(
                    infos@,
                    old(self).tables().last_subsystem_info,
                    old(self).tables().now,
                ),
                last_subsystem_info: (old(self).tables().last_subsystem_info + infos@.len()) as i32,
                ..old(self).tables()
            }),
    ;

    /// Removes the subsystem template `id` and returns how many rows left: one if it was
    /// there, else none.
    fn delete(&mut self, id: i32) -> (r: Result<usize, Error>)
        requires
            consistent(old(self).tables()),
        ensures
            consistent(final(self).tables()),
            final(self).checkpoints() == old(self).checkpoints(),
            r is Ok,
            r->Ok_0 == only(old(self).tables().subsystem_infos, id).len(),
            final(self).tables() == (Tables { subsystem_infos: removed(old(self).tables().subsystem_infos, id), ..old(self).tables() }),
    ;

    /// Removes the templates whose texts equal those of the filter and whose
    /// interval lies in its bounds, and returns how many left.
    fn bulk_delete(&mut self, query: SubsystemInfoQuery) -> (r: Result<usize, Error>)
        requires
            consistent(old(self).tables()),
        ensures
            consistent(final(self).tables()),
            final(self).checkpoints() == old(self).checkpoints(),
            r is Ok,
            r->Ok_0 == hits(old(self).tables().subsystem_infos, exact_subsystem_info(query)).len(),
            final(self).tables() == (Tables {
                subsystem_infos: misses(old(self).tables().subsystem_infos, exact_subsystem_info(query)),
                ..old(self).tables()
            }),
    ;

    /// Changes the given fields of the subsystem template `id` and returns how many rows
    /// it reached: one if the row is there, else none. An update without any
    /// field changes nothing. Refused with `StorageError` where it would set a
    /// negative interval on a row that is there.
    fn update(&mut self, id: i32, upd: SubsystemInfoUpdate) -> (r: Result<usize, Error>)
        requires
            consistent(old(self).tables()),
        ensures
            consistent(final(self).tables()),
            final(self).checkpoints() == old(self).checkpoints(),
            r is Err <==> has_key(old(self).tables().subsystem_infos, id) && upd.interval() is Some && upd.interval()->0 < 0,
            r is Err ==> r->Err_0.kind == ErrorKind::StorageError && final(self).tables() == old(self).tables(),
            upd.is_empty() ==> r is Ok && final(self).tables() == old(self).tables(),
            r is Ok && !has_key(old(self).tables().subsystem_infos, id) ==> r->Ok_0 == 0 && final(self).tables() == old(
                self,
            ).tables(),
            r is Ok && has_key(old(self).tables().subsystem_infos, id) ==> r->Ok_0 == 1 && final(self).tables() == (Tables {
                subsystem_infos: amended(old(self).tables().subsystem_infos, id, upd, old(self).tables().now),
                ..old(self).tables()
            }),
    ;

    /// The subsystem template `id`, or `NotFound`.
    fn get(&self, id: i32) -> (r: Result<SubsystemInfo, Error>)
        requires
            consistent(self.tables()),
        ensures
            r is Ok <==> has_key(self.tables().subsystem_infos, id),
            r is Ok ==> r->Ok_0 == row_of(self.tables().subsystem_infos, id),
            r is Err ==> r->Err_0.kind == ErrorKind::NotFound,
    ;

    /// The requested page of the rows that pass the filter, in key order, and
    /// the number of all rows that pass it.
    fn query(&self, query: &SubsystemInfoQuery) -> (r: Result<(Vec<SubsystemInfo>, i64), Error>)
        requires
            consistent(self.tables()),
        ensures
            r is Err <==> !paging_valid(Some(query.page), Some(query.size)),
            r is Err ==> r->Err_0.kind == ErrorKind::InvalidArgument,
            r is Ok ==> r->Ok_0.0@ == paged(hits(self.tables().subsystem_infos, *query), Some(query.page), Some(query.size)) && r->Ok_0.1 == hits(
                self.tables().subsystem_infos,
                *query,
            ).len(),
    ;

    /// The requested page of the templates that pass the filter and are attached
    /// to the device template, and the number of all such templates.
    fn query_by_device_info(&self, devinfoid: i32, query: SubsystemInfoQuery) -> (r: Result<(Vec<SubsystemInfo>, i64), Error>)
        requires
            consistent(self.tables()),
        ensures
            r is Err <==> !paging_valid(Some(query.page), Some(query.size)),
            r is Err ==> r->Err_0.kind == ErrorKind::InvalidArgument,
            r is Ok ==> r->Ok_0.0@ == paged(subsystem_infos_of(self.tables(), devinfoid, query), Some(query.page), Some(query.size)) && r->Ok_0.1 == subsystem_infos_of(
                self.tables(),
                devinfoid,
                query,
            ).len(),
    ;

    /// The requested page of the templates that pass the filter and have the
    /// component template attached, and the number of all such templates.
    fn query_by_component_info(&self, comid: i32, query: SubsystemInfoQuery) -> (r: Result<(Vec<SubsystemInfo>, i64), Error>)
        requires
            consistent(self.tables()),
        ensures
            r is Err <==> !paging_valid(Some(query.page), Some(query.size)),
            r is Err ==> r->Err_0.kind == ErrorKind::InvalidArgument,
            r is Ok ==> r->Ok_0.0@ == paged(subsystem_infos_with(self.tables(), comid, query), Some(query.page), Some(query.size)) && r->Ok_0.1 == subsystem_infos_with(
                self.tables(),
                comid,
                query,
            ).len(),
    ;

    /// The number of rows that pass the filter, whatever its page.
    fn count(&self, query: SubsystemInfoQuery) -> (r: Result<i64, Error>)
        requires
            consistent(self.tables()),
        ensures
            r is Ok,
            r->Ok_0 == hits(self.tables().subsystem_infos, query).len(),
    ;

    fn is_exist(&self, id: i32) -> (r: Result<bool, Error>)
        requires
            consistent(self.tables()),
        ensures
            r is Ok,
            r->Ok_0 == has_key(self.tables().subsystem_infos, id),
    ;
}

// ====================================================== component templates

pub trait ComponentInfoStorer: Storage {
    /// Adds one component template and returns its key. Refused with `StorageError`
    /// where the interval is negative or no key is left.
    fn insert(&mut self, info: ComponentInfoInsert) -> (r: Result<i32, Error>)
        requires
            consistent(old(self).tables()),
        ensures
            consistent(final(self).tables()),
            final(self).checkpoints() == old(self).checkpoints(),
            r is Err <==> info.interval() < 0 || old(self).tables().last_component_info == i32::MAX,
            r is Err ==> r->Err_0.kind == ErrorKind::StorageError && final(self).tables() == old(self).tables(),
            r is Ok ==> r->Ok_0 == old(self).tables().last_component_info + 1 && final(self).tables() == (Tables {
                component_infos: old(self).tables().component_infos.push(info.row(r->Ok_0, old(self).tables().now)),
                last_component_info: r->Ok_0,
                ..old(self).tables()
            }),
    ;

    /// Adds all of them or none of them.
    fn bulk_insert(&mut self, infos: &Vec<ComponentInfoInsert>) -> (r: Result<usize, Error>)
        requires
            consistent(old(self).tables()),
        ensures
            consistent(final(self).tables()),
            final(self).checkpoints() == old(self).checkpoints(),
            r is Err <==> any_negative::<ComponentInfo, ComponentInfoInsert>(infos@) || old(self).tables().last_component_info
                + infos@.len() > i32::MAX,
            r is Err ==> r->Err_0.kind == ErrorKind::StorageError && final(self).tables() == old(self).tables(),
            r is Ok ==> r->Ok_0 == infos@.len() && final(self).tables() == (Tables {
                component_infos: old(self).tables().component_infos + rows_from::<ComponentInfo, ComponentInfoInsert>(
                    infos@,
                    old(self).tables().last_component_info,
                    old(self).tables().now,
                ),
                last_component_info: (old(self).tables().last_component_info + infos@.len()) as i32,
                ..old(self).tables()
            }),
    ;

    /// Removes the component template `id` and returns how many rows left: one if it was
    /// there, else none.
    fn delete(&mut self, id: i32) -> (r: Result<usize, Error>)
        requires
            consistent(old(self).tables()),
        ensures
            consistent(final(self).tables()),
            final(self).checkpoints() == old(self).checkpoints(),
            r is Ok,
            r->Ok_0 == only(old(self).tables().component_infos, id).len(),
            final(self).tables() == (Tables { component_infos: removed(old(self).tables().component_infos, id), ..old(self).tables() }),
    ;

    /// Removes the templates whose texts equal those of the filter and whose
    /// interval lies in its bounds, and returns how many left.
    fn bulk_delete(&mut self, query: ComponentInfoQuery) -> (r: Result<usize, Error>)
        requires
            consistent(old(self).tables()),
        ensures
            consistent(final(self).tables()),
            final(self).checkpoints() == old(self).checkpoints(),
            r is Ok,
            r->Ok_0 == hits(old(self).tables().component_infos, exact_component_info(query)).len(),
            final(self).tables() == (Tables {
                component_infos: misses(old(self).tables().component_infos, exact_component_info(query)),
                ..old(self).tables()
            }),
    ;

    /// Changes the given fields of the component template `id` and returns how many rows
    /// it reached: one if the row is there, else none. An update without any
    /// field changes nothing. Refused with `StorageError` where it would set a
    /// negative interval on a row that is there.
    fn update(&mut self, id: i32, upd: ComponentInfoUpdate) -> (r: Result<usize, Error>)
        requires
            consistent(old(self).tables()),
        ensures
            consistent(final(self).tables()),
            final(self).checkpoints() == old(self).checkpoints(),
            r is Err <==> has_key(old(self).tables().component_infos, id) && upd.interval() is Some && upd.interval()->0 < 0,
            r is Err ==> r->Err_0.kind == ErrorKind::StorageError && final(self).tables() == old(self).tables(),
            upd.is_empty() ==> r is Ok && final(self).tables() == old(self).tables(),
            r is Ok && !has_key(old(self).tables().component_infos, id) ==> r->Ok_0 == 0 && final(self).tables() == old(
                self,
            ).tables(),
            r is Ok && has_key(old(self).tables().component_infos, id) ==> r->Ok_0 == 1 && final(self).tables() == (Tables {
                component_infos: amended(old(self).tables().component_infos, id, upd, old(self).tables().now),
                ..old(self).tables()
            }),
    ;

    /// The component template `id`, or `NotFound`.
    fn get(&self, id: i32) -> (r: Result<ComponentInfo, Error>)
        requires
            consistent(self.tables()),
        ensures
            r is Ok <==> has_key(self.tables().component_infos, id),
            r is Ok ==> r->Ok_0 == row_of(self.tables().component_infos, id),
            r is Err ==> r->Err_0.kind == ErrorKind::NotFound,
    ;

    /// The requested page of the rows that pass the filter, in key order, and
    /// the number of all rows that pass it.
    fn query(&self, query: &ComponentInfoQuery) -> (r: Result<(Vec<ComponentInfo>, i64), Error>)
        requires
            consistent(self.tables()),
        ensures
            r is Err <==> !paging_valid(query.page, query.size),
            r is Err ==> r->Err_0.kind == ErrorKind::InvalidArgument,
            r is Ok ==> r->Ok_0.0@ == paged(hits(self.tables().component_infos, *query), query.page, query.size) && r->Ok_0.1 == hits(
                self.tables().component_infos,
                *query,
            ).len(),
    ;

    /// The requested page of the templates that pass the filter and are attached
    /// to the subsystem template, each once, and the number of all such templates.
    fn query_by_subsystem_info(&self, subinfoid: i32, query: ComponentInfoQuery) -> (r: Result<(Vec<ComponentInfo>, i64), Error>)
        requires
            consistent(self.tables()),
        ensures
            r is Err <==> !paging_valid(query.page, query.size),
            r is Err ==> r->Err_0.kind == ErrorKind::InvalidArgument,
            r is Ok ==> r->Ok_0.0@ == paged(component_infos_of(self.tables(), subinfoid, query), query.page, query.size) && r->Ok_0.1 == component_infos_of(
                self.tables(),
                subinfoid,
                query,
            ).len(),
    ;

    /// The number of rows that pass the filter, whatever its page.
    fn count(&self, query: ComponentInfoQuery) -> (r: Result<i64, Error>)
        requires
            consistent(self.tables()),
        ensures
            r is Ok,
            r->Ok_0 == hits(self.tables().component_infos, query).len(),
    ;

    fn is_exist(&self, id: i32) -> (r: Result<bool, Error>)
        requires
            consistent(self.tables()),
        ensures
            r is Ok,
            r->Ok_0 == has_key(self.tables().component_infos, id),
    ;
}

// ====================================================== devices

pub trait DeviceStorer: Storage {
    /// Adds one device and returns its key. Refused with `StorageError`
    /// where the interval is negative or no key is left.
    fn insert(&mut self, info: DeviceInsert) -> (r: Result<i32, Error>)
        requires
            consistent(old(self).tables()),
        ensures
            consistent(final(self).tables()),
            final(self).checkpoints() == old(self).checkpoints(),
            r is Err <==> info.interval() < 0 || old(self).tables().last_device == i32::MAX,
            r is Err ==> r->Err_0.kind == ErrorKind::StorageError && final(self).tables() == old(self).tables(),
            r is Ok ==> r->Ok_0 == old(self).tables().last_device + 1 && final(self).tables() == (Tables {
                devices: old(self).tables().devices.push(info.row(r->Ok_0, old(self).tables().now)),
                last_device: r->Ok_0,
                ..old(self).tables()
            }),
    ;

    /// Adds all of them or none of them.
    fn bulk_insert(&mut self, infos: &Vec<DeviceInsert>) -> (r: Result<usize, Error>)
        requires
            consistent(old(self).tables()),
        ensures
            consistent(final(self).tables()),
            final(self).checkpoints() == old(self).checkpoints(),
            r is Err <==> any_negative::<Device, DeviceInsert>(infos@) || old(self).tables().last_device
                + infos@.len() > i32::MAX,
            r is Err ==> r->Err_0.kind == ErrorKind::StorageError && final(self).tables() == old(self).tables(),
            r is Ok ==> r->Ok_0 == infos@.len() && final(self).tables() == (Tables {
                devices: old(self).tables().devices + rows_from::<Device, DeviceInsert>(
                    infos@,
                    old(self).tables().last_device,
                    old(self).tables().now,
                ),
                last_device: (old(self).tables().last_device + infos@.len()) as i32,
                ..old(self).tables()
            }),
    ;

    /// Removes the device `id` and returns how many rows left: one if it was
    /// there, else none. Refused with `StorageError` while it owns a subsystem.
    fn delete(&mut self, id: i32) -> (r: Result<usize, Error>)
        requires
            consistent(old(self).tables()),
        ensures
            consistent(final(self).tables()),
            final(self).checkpoints() == old(self).checkpoints(),
            r is Err <==> children_of(old(self).tables().subsystems, id).len() > 0,
            r is Err ==> r->Err_0.kind == ErrorKind::StorageError && final(self).tables() == old(self).tables(),
            r is Ok ==> r->Ok_0 == only(old(self).tables().devices, id).len() && final(self).tables() == (Tables {
                devices: removed(old(self).tables().devices, id),
                ..old(self).tables()
            }),
    ;

    /// Changes the given fields of the device `id` and returns how many rows
    /// it reached: one if the row is there, else none. An update without any
    /// field changes nothing. Refused with `StorageError` where it would set a
    /// negative interval on a row that is there.
    fn update(&mut self, id: i32, upd: DeviceUpdate) -> (r: Result<usize, Error>)
        requires
            consistent(old(self).tables()),
        ensures
            consistent(final(self).tables()),
            final(self).checkpoints() == old(self).checkpoints(),
            r is Err <==> has_key(old(self).tables().devices, id) && upd.interval() is Some && upd.interval()->0 < 0,
            r is Err ==> r->Err_0.kind == ErrorKind::StorageError && final(self).tables() == old(self).tables(),
            upd.is_empty() ==> r is Ok && final(self).tables() == old(self).tables(),
            r is Ok && !has_key(old(self).tables().devices, id) ==> r->Ok_0 == 0 && final(self).tables() == old(
                self,
            ).tables(),
            r is Ok && has_key(old(self).tables().devices, id) ==> r->Ok_0 == 1 && final(self).tables() == (Tables {
                devices: amended(old(self).tables().devices, id, upd, old(self).tables().now),
                ..old(self).tables()
            }),
    ;

    /// The device `id` with the subsystems it owns, each with the components
    /// it owns; `NotFound` if there is no such device.
    fn get(&self, id: i32) -> (r: Result<(Device, Vec<(Subsystem, Vec<Component>)>), Error>)
        requires
            consistent(self.tables()),
        ensures
            r is Ok <==> has_key(self.tables().devices, id),
            r is Err ==> r->Err_0.kind == ErrorKind::NotFound,
            r is Ok ==> r->Ok_0.0 == row_of(self.tables().devices, id) && branches_view(r->Ok_0.1@) == branches_of(
                self.tables().subsystems,
                self.tables().components,
                id,
            ),
    ;

    /// The requested page of the devices that pass the filter, in key order,
    /// each with its whole owned subtree, and the number of all devices that
    /// pass the filter.
    fn query(&self, query: &DeviceQuery) -> (r: Result<(Vec<(Device, Vec<(Subsystem, Vec<Component>)>)>, i64), Error>)
        requires
            consistent(self.tables()),
        ensures
            r is Err <==> !paging_valid(query.page, query.size),
            r is Err ==> r->Err_0.kind == ErrorKind::InvalidArgument,
            r is Ok ==> is_forest_of(
                r->Ok_0.0@,
                paged(hits(self.tables().devices, *query), query.page, query.size),
                self.tables().subsystems,
                self.tables().components,
            ) && r->Ok_0.1 == hits(self.tables().devices, *query).len(),
    ;
}

// ====================================================== subsystems

pub trait SubsystemStorer: Storage {
    /// Adds one subsystem and returns its key. Refused with `StorageError`
    /// where the interval is negative, its device is not there or no key is left.
    fn insert(&mut self, info: SubsystemInsert) -> (r: Result<i32, Error>)
        requires
            consistent(old(self).tables()),
        ensures
            consistent(final(self).tables()),
            final(self).checkpoints() == old(self).checkpoints(),
            r is Err <==> info.interval() < 0 || !has_key(old(self).tables().devices, info.device_id) || old(self).tables().last_subsystem == i32::MAX,
            r is Err ==> r->Err_0.kind == ErrorKind::StorageError && final(self).tables() == old(self).tables(),
            r is Ok ==> r->Ok_0 == old(self).tables().last_subsystem + 1 && final(self).tables() == (Tables {
                subsystems: old(self).tables().subsystems.push(info.row(r->Ok_0, old(self).tables().now)),
                last_subsystem: r->Ok_0,
                ..old(self).tables()
            }),
    ;

    /// Adds all of them or none of them.
    fn bulk_insert(&mut self, infos: &Vec<SubsystemInsert>) -> (r: Result<usize, Error>)
        requires
            consistent(old(self).tables()),
        ensures
            consistent(final(self).tables()),
            final(self).checkpoints() == old(self).checkpoints(),
            r is Err <==> any_negative::<Subsystem, SubsystemInsert>(infos@) || any_orphan_subsystem(old(self).tables().devices, infos@) || old(self).tables().last_subsystem
                + infos@.len() > i32::MAX,
            r is Err ==> r->Err_0.kind == ErrorKind::StorageError && final(self).tables() == old(self).tables(),
            r is Ok ==> r->Ok_0 == infos@.len() && final(self).tables() == (Tables {
                subsystems: old(self).tables().subsystems + rows_from::<Subsystem, SubsystemInsert>(
                    infos@,
                    old(self).tables().last_subsystem,
                    old(self).tables().now,
                ),
                last_subsystem: (old(self).tables().last_subsystem + infos@.len()) as i32,
                ..old(self).tables()
            }),
    ;

    /// Removes the subsystem `id` and returns how many rows left: one if it was
    /// there, else none. Refused with `StorageError` while it owns a component.
    fn delete(&mut self, id: i32) -> (r: Result<usize, Error>)
        requires
            consistent(old(self).tables()),
        ensures
            consistent(final(self).tables()),
            final(self).checkpoints() == old(self).checkpoints(),
            r is Err <==> children_of(old(self).tables().components, id).len() > 0,
            r is Err ==> r->Err_0.kind == ErrorKind::StorageError && final(self).tables() == old(self).tables(),
            r is Ok ==> r->Ok_0 == only(old(self).tables().subsystems, id).len() && final(self).tables() == (Tables {
                subsystems: removed(old(self).tables().subsystems, id),
                ..old(self).tables()
            }),
    ;

    /// Changes the given fields of the subsystem `id` and returns how many rows
    /// it reached: one if the row is there, else none. An update without any
    /// field changes nothing. Refused with `StorageError` where it would set a
    /// negative interval on a row that is there.
    fn update(&mut self, id: i32, upd: SubsystemUpdate) -> (r: Result<usize, Error>)
        requires
            consistent(old(self).tables()),
        ensures
            consistent(final(self).tables()),
            final(self).checkpoints() == old(self).checkpoints(),
            r is Err <==> has_key(old(self).tables().subsystems, id) && upd.interval() is Some && upd.interval()->0 < 0,
            r is Err ==> r->Err_0.kind == ErrorKind::StorageError && final(self).tables() == old(self).tables(),
            upd.is_empty() ==> r is Ok && final(self).tables() == old(self).tables(),
            r is Ok && !has_key(old(self).tables().subsystems, id) ==> r->Ok_0 == 0 && final(self).tables() == old(
                self,
            ).tables(),
            r is Ok && has_key(old(self).tables().subsystems, id) ==> r->Ok_0 == 1 && final(self).tables() == (Tables {
                subsystems: amended(old(self).tables().subsystems, id, upd, old(self).tables().now),
                ..old(self).tables()
            }),
    ;

    /// The subsystem `id` with the device that owns it and the components it
    /// owns; `NotFound` if there is no such subsystem.
    fn get(&self, id: i32) -> (r: Result<(Device, Subsystem, Vec<Component>), Error>)
        requires
            consistent(self.tables()),
        ensures
            r is Ok <==> has_key(self.tables().subsystems, id),
            r is Err ==> r->Err_0.kind == ErrorKind::NotFound,
            r is Ok ==> r->Ok_0.1 == row_of(self.tables().subsystems, id) && r->Ok_0.0 == row_of(
                self.tables().devices,
                r->Ok_0.1.device_id,
            ) && r->Ok_0.2@ == children_of(self.tables().components, id),
    ;

    /// The requested page of the subsystems that pass the filter, in key
    /// order, each with the device that owns it and the components it owns,
    /// and the number of all subsystems that pass the filter.
    fn query(&self, query: &SubsystemQuery) -> (r: Result<(Vec<(Device, Subsystem, Vec<Component>)>, i64), Error>)
        requires
            consistent(self.tables()),
        ensures
            r is Err <==> !paging_valid(query.page, query.size),
            r is Err ==> r->Err_0.kind == ErrorKind::InvalidArgument,
            r is Ok ==> is_family_of(
                r->Ok_0.0@,
                self.tables().devices,
                paged(hits(self.tables().subsystems, *query), query.page, query.size),
                self.tables().components,
            ) && r->Ok_0.1 == hits(self.tables().subsystems, *query).len(),
    ;
}

// ====================================================== components

pub trait ComponentStorer: Storage {
    /// Adds one component and returns its key. Refused with `StorageError`
    /// where the interval is negative, its subsystem is not there or no key is left.
    fn insert(&mut self, info: ComponentInsert) -> (r: Result<i32, Error>)
        requires
            consistent(old(self).tables()),
        ensures
            consistent(final(self).tables()),
            final(self).checkpoints() == old(self).checkpoints(),
            r is Err <==> info.interval() < 0 || !has_key(old(self).tables().subsystems, info.subsystem_id) || old(self).tables().last_component == i32::MAX,
            r is Err ==> r->Err_0.kind == ErrorKind::StorageError && final(self).tables() == old(self).tables(),
            r is Ok ==> r->Ok_0 == old(self).tables().last_component + 1 && final(self).tables() == (Tables {
                components: old(self).tables().components.push(info.row(r->Ok_0, old(self).tables().now)),
                last_component: r->Ok_0,
                ..old(self).tables()
            }),
    ;

    /// Adds all of them or none of them.
    fn bulk_insert(&mut self, infos: &Vec<ComponentInsert>) -> (r: Result<usize, Error>)
        requires
            consistent(old(self).tables()),
        ensures
            consistent(final(self).tables()),
            final(self).checkpoints() == old(self).checkpoints(),
            r is Err <==> any_negative::<Component, ComponentInsert>(infos@) || any_orphan_component(old(self).tables().subsystems, infos@) || old(self).tables().last_component
                + infos@.len() > i32::MAX,
            r is Err ==> r->Err_0.kind == ErrorKind::StorageError && final(self).tables() == old(self).tables(),
            r is Ok ==> r->Ok_0 == infos@.len() && final(self).tables() == (Tables {
                components: old(self).tables().components + rows_from::<Component, ComponentInsert>(
                    infos@,
                    old(self).tables().last_component,
                    old(self).tables().now,
                ),
                last_component: (old(self).tables().last_component + infos@.len()) as i32,
                ..old(self).tables()
            }),
    ;

    /// Removes the component `id` and returns how many rows left: one if it was
    /// there, else none.
    fn delete(&mut self, id: i32) -> (r: Result<usize, Error>)
        requires
            consistent(old(self).tables()),
        ensures
            consistent(final(self).tables()),
            final(self).checkpoints() == old(self).checkpoints(),
            r is Ok,
            r->Ok_0 == only(old(self).tables().components, id).len(),
            final(self).tables() == (Tables { components: removed(old(self).tables().components, id), ..old(self).tables() }),
    ;

    /// Changes the given fields of the component `id` and returns how many rows
    /// it reached: one if the row is there, else none. An update without any
    /// field changes nothing. Refused with `StorageError` where it would set a
    /// negative interval on a row that is there.
    fn update(&mut self, id: i32, upd: ComponentUpdate) -> (r: Result<usize, Error>)
        requires
            consistent(old(self).tables()),
        ensures
            consistent(final(self).tables()),
            final(self).checkpoints() == old(self).checkpoints(),
            r is Err <==> has_key(old(self).tables().components, id) && upd.interval() is Some && upd.interval()->0 < 0,
            r is Err ==> r->Err_0.kind == ErrorKind::StorageError && final(self).tables() == old(self).tables(),
            upd.is_empty() ==> r is Ok && final(self).tables() == old(self).tables(),
            r is Ok && !has_key(old(self).tables().components, id) ==> r->Ok_0 == 0 && final(self).tables() == old(
                self,
            ).tables(),
            r is Ok && has_key(old(self).tables().components, id) ==> r->Ok_0 == 1 && final(self).tables() == (Tables {
                components: amended(old(self).tables().components, id, upd, old(self).tables().now),
                ..old(self).tables()
            }),
    ;

    /// The component `id` with the subsystem and the device above it;
    /// `NotFound` if there is no such component.
    fn get(&self, id: i32) -> (r: Result<(Device, Subsystem, Component), Error>)
        requires
            consistent(self.tables()),
        ensures
            r is Ok <==> has_key(self.tables().components, id),
            r is Err ==> r->Err_0.kind == ErrorKind::NotFound,
            r is Ok ==> r->Ok_0.2 == row_of(self.tables().components, id) && r->Ok_0.1 == row_of(
                self.tables().subsystems,
                r->Ok_0.2.subsystem_id,
            ) && r->Ok_0.0 == row_of(self.tables().devices, r->Ok_0.1.device_id),
    ;

    /// The requested page of the rows that pass the filter, in key order, and
    /// the number of all rows that pass it.
    fn query(&self, query: &ComponentQuery) -> (r: Result<(Vec<Component>, i64), Error>)
        requires
            consistent(self.tables()),
        ensures
            r is Err <==> !paging_valid(query.page, query.size),
            r is Err ==> r->Err_0.kind == ErrorKind::InvalidArgument,
            r is Ok ==> r->Ok_0.0@ == paged(hits(self.tables().components, *query), query.page, query.size) && r->Ok_0.1 == hits(
                self.tables().components,
                *query,
            ).len(),
    ;
}

// ====================================================== attachments

pub trait RelationStorer: Storage {
    /// Attaches a subsystem template to a device template. An attachment that
    /// is already there is a `Conflict`; `StorageError` where no key is left.
    fn insert_deviceinfo_subsysteminfo(&mut self, rel: DevinfoSubinfoInsert) -> (r: Result<usize, Error>)
        requires
            consistent(old(self).tables()),
        ensures
            consistent(final(self).tables()),
            final(self).checkpoints() == old(self).checkpoints(),
            r is Err ==> final(self).tables() == old(self).tables(),
            r is Err <==> linked(old(self).tables().device_links, rel.device_info_id, rel.subsystem_info_id) || old(
                self,
            ).tables().last_device_link == i32::MAX,
            r is Err ==> r->Err_0.kind == (if linked(
                old(self).tables().device_links,
                rel.device_info_id,
                rel.subsystem_info_id,
            ) {
                ErrorKind::Conflict
            } else {
                ErrorKind::StorageError
            }),
            r is Ok ==> r->Ok_0 == 1 && final(self).tables() == (Tables {
                device_links: old(self).tables().device_links.push(
                    DeviceinfoSubsysteminfo {
                        id: (old(self).tables().last_device_link + 1) as i32,
                        device_info_id: rel.device_info_id,
                        subsystem_info_id: rel.subsystem_info_id,
                    },
                ),
                last_device_link: (old(self).tables().last_device_link + 1) as i32,
                ..old(self).tables()
            }),
    ;

    /// Detaches a subsystem template from a device template and returns how
    /// many attachments left: none if it was not attached.
    fn delete_deviceinfo_subsysteminfo(&mut self, devinfo_id: i32, subinfo_id: i32) -> (r: Result<usize, Error>)
        requires
            consistent(old(self).tables()),
        ensures
            consistent(final(self).tables()),
            final(self).checkpoints() == old(self).checkpoints(),
            r is Ok,
            r->Ok_0 == hits(
                old(self).tables().device_links,
                PairIs { device_info_id: devinfo_id, subsystem_info_id: subinfo_id },
            ).len(),
            final(self).tables() == (Tables {
                device_links: misses(
                    old(self).tables().device_links,
                    PairIs { device_info_id: devinfo_id, subsystem_info_id: subinfo_id },
                ),
                ..old(self).tables()
            }),
    ;

    /// Detaches every subsystem template from a device template.
    fn bulk_delete_deviceinfo_subsysteminfo(&mut self, devinfo_id: i32) -> (r: Result<usize, Error>)
        requires
            consistent(old(self).tables()),
        ensures
            consistent(final(self).tables()),
            final(self).checkpoints() == old(self).checkpoints(),
            r is Ok,
            r->Ok_0 == hits(old(self).tables().device_links, UnderDevice { device_info_id: devinfo_id }).len(),
            final(self).tables() == (Tables {
                device_links: misses(old(self).tables().device_links, UnderDevice { device_info_id: devinfo_id }),
                ..old(self).tables()
            }),
    ;

    /// Attaches a component template, in a quantity, to a subsystem template
    /// within a device template. A quantity below one is an
    /// `InvalidArgument`; an attachment that is already there is a `Conflict`;
    /// `StorageError` where no key is left.
    fn insert_subsysteminfo_componentinfo(&mut self, rel: SubinfoCominfoInsert) -> (r: Result<usize, Error>)
        requires
            consistent(old(self).tables()),
        ensures
            consistent(final(self).tables()),
            final(self).checkpoints() == old(self).checkpoints(),
            r is Err ==> final(self).tables() == old(self).tables(),
            r is Err <==> rel.quantity <= 0 || attached(
                old(self).tables().component_links,
                rel.device_info_id,
                rel.subsystem_info_id,
                rel.component_info_id,
            ) || old(self).tables().last_component_link == i32::MAX,
            r is Err ==> r->Err_0.kind == (if rel.quantity <= 0 {
                ErrorKind::InvalidArgument
            } else if attached(
                old(self).tables().component_links,
                rel.device_info_id,
                rel.subsystem_info_id,
                rel.component_info_id,
            ) {
                ErrorKind::Conflict
            } else {
                ErrorKind::StorageError
            }),
            r is Ok ==> r->Ok_0 == 1 && final(self).tables() == (Tables {
                component_links: old(self).tables().component_links.push(
                    SubsysteminfoComponentinfo {
                        id: (old(self).tables().last_component_link + 1) as i32,
                        device_info_id: rel.device_info_id,
                        subsystem_info_id: rel.subsystem_info_id,
                        component_info_id: rel.component_info_id,
                        quantity: rel.quantity,
                    },
                ),
                last_component_link: (old(self).tables().last_component_link + 1) as i32,
                ..old(self).tables()
            }),
    ;

    /// Detaches a component template from a subsystem template within a
    /// device template and returns how many attachments left.
    fn delete_subsysteminfo_componentinfo(&mut self, devinfo_id: i32, subinfo_id: i32, cominfo_id: i32) -> (r: Result<
        usize,
        Error,
    >)
        requires
            consistent(old(self).tables()),
        ensures
            consistent(final(self).tables()),
            final(self).checkpoints() == old(self).checkpoints(),
            r is Ok,
            r->Ok_0 == hits(
                old(self).tables().component_links,
                TripleIs { device_info_id: devinfo_id, subsystem_info_id: subinfo_id, component_info_id: cominfo_id },
            ).len(),
            final(self).tables() == (Tables {
                component_links: misses(
                    old(self).tables().component_links,
                    TripleIs { device_info_id: devinfo_id, subsystem_info_id: subinfo_id, component_info_id: cominfo_id },
                ),
                ..old(self).tables()
            }),
    ;

    /// Detaches every component template scoped to a device template and a
    /// subsystem template.
    fn bulk_delete_subsysteminfo_componentinfo(&mut self, devinfo_id: i32, subinfo_id: i32) -> (r: Result<usize, Error>)
        requires
            consistent(old(self).tables()),
        ensures
            consistent(final(self).tables()),
            final(self).checkpoints() == old(self).checkpoints(),
            r is Ok,
            r->Ok_0 == hits(
                old(self).tables().component_links,
                PairIs { device_info_id: devinfo_id, subsystem_info_id: subinfo_id },
            ).len(),
            final(self).tables() == (Tables {
                component_links: misses(
                    old(self).tables().component_links,
                    PairIs { device_info_id: devinfo_id, subsystem_info_id: subinfo_id },
                ),
                ..old(self).tables()
            }),
    ;
}

/// The filter of a bulk removal of subsystem templates made from a query.
pub open spec fn exact_subsystem_info(query: SubsystemInfoQuery) -> ExactSubsystemInfo {
    ExactSubsystemInfo {
        name: query.name,
        maintain_interval_begin: query.maintain_interval_begin,
        maintain_interval_end: query.maintain_interval_end,
    }
}

/// The filter of a bulk removal of component templates made from a query.
pub open spec fn exact_component_info(query: ComponentInfoQuery) -> ExactComponentInfo {
    ExactComponentInfo {
        name: query.name,
        model: query.model,
        maintain_interval_begin: query.maintain_interval_begin,
        maintain_interval_end: query.maintain_interval_end,
    }
}

/// The filter of a bulk removal made from a query: its texts must be equal.
pub open spec fn exact(query: DeviceInfoQuery) -> ExactDeviceInfo {
    ExactDeviceInfo {
        name: query.name,
        model: query.model,
        maintain_interval_begin: query.maintain_interval_begin,
        maintain_interval_end: query.maintain_interval_end,
    }
}

} // verus!
