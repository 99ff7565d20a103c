//! The service over the stores: attaching and detaching templates, and
//! building a device with its subsystems and components from a template.

use crate::dao::{
    consistent, linked, attached, template_branches, template_components, template_subsystems, ComponentInfoStorer,
    Checkpoints, ComponentStorer, DeviceInfoStorer, DeviceStorer, PairIs, RelationStorer, Storage, SubsystemInfoStorer, SubsystemStorer,
    Tables, TripleIs,
};
use crate::entity::{Draft, Entity};
use crate::error::{Error, ErrorKind};
use crate::model::{
    ComponentInfo, ComponentInfoInsert, ComponentInsert, DeviceInfo, DeviceInfoInsert, DeviceInsert, DeviceStatus,
    DeviceinfoSubsysteminfo, DevinfoSubinfoInsert, SubinfoCominfoInsert, SubsystemInfo, SubsystemInfoInsert, SubsystemInsert,
    SubsysteminfoComponentinfo,
};
use crate::table::{admitted_by, has_key, hits, index_of, lemma_filter_filter_len, misses, only, rejected_by, removed, row_of, Record};
use crate::tree::{branches_view, children_of};
use vstd::prelude::*;

verus! {

/// The device that a device template becomes: the template's name, model and
/// interval, the given serial, stopped, never started and never run.
pub open spec fn device_draft(info: DeviceInfo, unicode: String) -> DeviceInsert {
    DeviceInsert {
        name: info.name,
        model: info.model,
        maintain_interval: info.maintain_interval,
        unicode,
        last_start_at: None,
        last_stop_at: None,
        total_duration: 0,
        status: DeviceStatus::Stopped,
    }
}

/// The subsystem that a subsystem template becomes under the device `device_id`.
pub open spec fn subsystem_draft(device_id: i32, info: SubsystemInfo) -> SubsystemInsert {
    SubsystemInsert { device_id, name: info.name, maintain_interval: info.maintain_interval }
}

/// The component that a component template becomes under the subsystem `subsystem_id`.
pub open spec fn component_draft(subsystem_id: i32, info: ComponentInfo) -> ComponentInsert {
    ComponentInsert { subsystem_id, name: info.name, model: info.model, maintain_interval: info.maintain_interval }
}

/// The tables with one more device, unless no key is left.
pub open spec fn with_device(t: Tables, draft: DeviceInsert) -> Option<Tables> {
    if t.last_device == i32::MAX {
        None
    } else {
        Some(
            Tables {
                devices: t.devices.push(draft.row((t.last_device + 1) as i32, t.now)),
                last_device: (t.last_device + 1) as i32,
                ..t
            },
        )
    }
}

/// The tables with one more subsystem, unless no key is left.
pub open spec fn with_subsystem(t: Tables, draft: SubsystemInsert) -> Option<Tables> {
    if t.last_subsystem == i32::MAX {
        None
    } else {
        Some(
            Tables {
                subsystems: t.subsystems.push(draft.row((t.last_subsystem + 1) as i32, t.now)),
                last_subsystem: (t.last_subsystem + 1) as i32,
                ..t
            },
        )
    }
}

/// The tables with one more component, unless no key is left.
pub open spec fn with_component(t: Tables, draft: ComponentInsert) -> Option<Tables> {
    if t.last_component == i32::MAX {
        None
    } else {
        Some(
            Tables {
                components: t.components.push(draft.row((t.last_component + 1) as i32, t.now)),
                last_component: (t.last_component + 1) as i32,
                ..t
            },
        )
    }
}

/// The tables after one component was made of each of the templates, in
/// their order, under the subsystem `subsystem_id`.
pub open spec fn plant_components(t: Tables, subsystem_id: i32, infos: Seq<ComponentInfo>) -> Option<Tables>
    decreases infos.len(),
{
    if infos.len() == 0 {
        Some(t)
    } else {
        match plant_components(t, subsystem_id, infos.drop_last()) {
            Some(u) => with_component(u, component_draft(subsystem_id, infos.last())),
            None => None,
        }
    }
}

/// The tables after a subsystem was made of the template of the branch, and
/// under it one component of each of the branch's component templates.
pub open spec fn plant_branch(t: Tables, device_id: i32, branch: (SubsystemInfo, Seq<ComponentInfo>)) -> Option<Tables> {
    match with_subsystem(t, subsystem_draft(device_id, branch.0)) {
        Some(u) => plant_components(u, u.last_subsystem, branch.1),
        None => None,
    }
}

/// The tables after every branch was planted, in order, under the device `device_id`.
pub open spec fn plant_branches(t: Tables, device_id: i32, branches: Seq<(SubsystemInfo, Seq<ComponentInfo>)>) -> Option<
    Tables,
>
    decreases branches.len(),
{
    if branches.len() == 0 {
        Some(t)
    } else {
        match plant_branches(t, device_id, branches.drop_last()) {
            Some(u) => plant_branch(u, device_id, branches.last()),
            None => None,
        }
    }
}

/// The tables after a device was built from the device template
/// `devinfo_id`: one device, one subsystem for each attached subsystem
/// template, and under it one component for each component template attached
/// to that subsystem template, whatever the quantity. `None` where the keys
/// of a table run out.
pub open spec fn instantiated(t: Tables, devinfo_id: i32, unicode: String) -> Option<Tables> {
    match with_device(t, device_draft(row_of(t.device_infos, devinfo_id), unicode)) {
        Some(u) => plant_branches(u, u.last_device, template_branches(t, devinfo_id)),
        None => None,
    }
}

/// Why a subsystem template cannot be attached to a device template, if it cannot.
pub open spec fn subsystem_attach_refusal(t: Tables, devinfo_id: i32, subinfo_id: i32) -> Option<ErrorKind> {
    if !has_key(t.device_infos, devinfo_id) || !has_key(t.subsystem_infos, subinfo_id) {
        Some(ErrorKind::NotFound)
    } else if linked(t.device_links, devinfo_id, subinfo_id) {
        Some(ErrorKind::Conflict)
    } else if t.last_device_link == i32::MAX {
        Some(ErrorKind::StorageError)
    } else {
        None
    }
}

/// The tables after a subsystem template was attached to a device template.
pub open spec fn subsystem_attached(t: Tables, devinfo_id: i32, subinfo_id: i32) -> Tables {
    Tables {
        device_links: t.device_links.push(
            DeviceinfoSubsysteminfo {
                id: (t.last_device_link + 1) as i32,
                device_info_id: devinfo_id,
                subsystem_info_id: subinfo_id,
            },
        ),
        last_device_link: (t.last_device_link + 1) as i32,
        ..t
    }
}

/// Why a component template cannot be attached, if it cannot.
pub open spec fn component_attach_refusal(t: Tables, devinfo_id: i32, subinfo_id: i32, cominfo_id: i32, quantity: i32) -> Option<
    ErrorKind,
> {
    if !has_key(t.subsystem_infos, subinfo_id) || !has_key(t.component_infos, cominfo_id) {
        Some(ErrorKind::NotFound)
    } else if quantity <= 0 {
        Some(ErrorKind::InvalidArgument)
    } else if attached(t.component_links, devinfo_id, subinfo_id, cominfo_id) {
        Some(ErrorKind::Conflict)
    } else if t.last_component_link == i32::MAX {
        Some(ErrorKind::StorageError)
    } else {
        None
    }
}

/// The tables after a component template was attached.
pub open spec fn component_attached(t: Tables, devinfo_id: i32, subinfo_id: i32, cominfo_id: i32, quantity: i32) -> Tables {
    Tables {
        component_links: t.component_links.push(
            SubsysteminfoComponentinfo {
                id: (t.last_component_link + 1) as i32,
                device_info_id: devinfo_id,
                subsystem_info_id: subinfo_id,
                component_info_id: cominfo_id,
                quantity,
            },
        ),
        last_component_link: (t.last_component_link + 1) as i32,
        ..t
    }
}

/// The tables after a subsystem template was detached from a device
/// template: the attachment is gone, and with it every component attachment
/// scoped to the pair.
pub open spec fn subsystem_detached(t: Tables, devinfo_id: i32, subinfo_id: i32) -> Tables {
    Tables {
        device_links: misses(t.device_links, PairIs { device_info_id: devinfo_id, subsystem_info_id: subinfo_id }),
        component_links: misses(t.component_links, PairIs { device_info_id: devinfo_id, subsystem_info_id: subinfo_id }),
        ..t
    }
}

/// An attachment is unique: once a subsystem template is attached to a device
/// template, attaching the same pair again is a `Conflict`.
pub proof fn lemma_second_attach_conflicts(t: Tables, devinfo_id: i32, subinfo_id: i32)
    requires
        subsystem_attach_refusal(t, devinfo_id, subinfo_id) is None,
    ensures
        subsystem_attach_refusal(subsystem_attached(t, devinfo_id, subinfo_id), devinfo_id, subinfo_id) == Some(
            ErrorKind::Conflict,
        ),
{
    let pair = PairIs { device_info_id: devinfo_id, subsystem_info_id: subinfo_id };
    let link = DeviceinfoSubsysteminfo {
        id: (t.last_device_link + 1) as i32,
        device_info_id: devinfo_id,
        subsystem_info_id: subinfo_id,
    };
    t.device_links.lemma_filter_push(link, admitted_by(pair));
}

/// The same holds of a component template: attached once within a device
/// template and a subsystem template, it cannot be attached there again.
pub proof fn lemma_second_component_attach_conflicts(t: Tables, devinfo_id: i32, subinfo_id: i32, cominfo_id: i32, quantity: i32)
    requires
        component_attach_refusal(t, devinfo_id, subinfo_id, cominfo_id, quantity) is None,
    ensures
        component_attach_refusal(
            component_attached(t, devinfo_id, subinfo_id, cominfo_id, quantity),
            devinfo_id,
            subinfo_id,
            cominfo_id,
            quantity,
        ) == Some(ErrorKind::Conflict),
{
    let triple = TripleIs { device_info_id: devinfo_id, subsystem_info_id: subinfo_id, component_info_id: cominfo_id };
    let link = SubsysteminfoComponentinfo {
        id: (t.last_component_link + 1) as i32,
        device_info_id: devinfo_id,
        subsystem_info_id: subinfo_id,
        component_info_id: cominfo_id,
        quantity,
    };
    t.component_links.lemma_filter_push(link, admitted_by(triple));
}

/// Detaching cascades: after a subsystem template is detached from a device
/// template, the pair is no longer attached, no component attachment scoped
/// to the pair is left, and the subtree of the device template holds no
/// component template under that subsystem template. Where the subsystem
/// template had component templates within this device template only, no
/// query for its component templates finds any.
pub proof fn lemma_detach_cascades(t: Tables, devinfo_id: i32, subinfo_id: i32)
    ensures
        !linked(subsystem_detached(t, devinfo_id, subinfo_id).device_links, devinfo_id, subinfo_id),
        hits(
            subsystem_detached(t, devinfo_id, subinfo_id).component_links,
            PairIs { device_info_id: devinfo_id, subsystem_info_id: subinfo_id },
        ).len() == 0,
        forall|c: i32| !attached(subsystem_detached(t, devinfo_id, subinfo_id).component_links, devinfo_id, subinfo_id, c),
        template_components(subsystem_detached(t, devinfo_id, subinfo_id), devinfo_id, subinfo_id) == Seq::<
            ComponentInfo,
        >::empty(),
        (forall|k: int|
            0 <= k < t.component_links.len() && (#[trigger] t.component_links[k]).subsystem_info_id == subinfo_id
                ==> t.component_links[k].device_info_id == devinfo_id) ==> (forall|q: crate::model::ComponentInfoQuery|
            #[trigger] crate::dao::component_infos_of(subsystem_detached(t, devinfo_id, subinfo_id), subinfo_id, q)
                == Seq::<ComponentInfo>::empty()),
{
    let after = subsystem_detached(t, devinfo_id, subinfo_id);
    let pair = PairIs { device_info_id: devinfo_id, subsystem_info_id: subinfo_id };
    lemma_filter_filter_len(t.device_links, rejected_by(pair), admitted_by(pair));
    lemma_filter_filter_len(t.component_links, rejected_by(pair), admitted_by(pair));
    assert forall|c: i32| !attached(after.component_links, devinfo_id, subinfo_id, c) by {
        let triple = TripleIs { device_info_id: devinfo_id, subsystem_info_id: subinfo_id, component_info_id: c };
        lemma_filter_filter_len(t.component_links, rejected_by(pair), admitted_by(triple));
    }
    crate::table::lemma_filter_none(after.component_infos, crate::dao::is_template_component(after, devinfo_id, subinfo_id));
    if forall|k: int|
        0 <= k < t.component_links.len() && (#[trigger] t.component_links[k]).subsystem_info_id == subinfo_id
            ==> t.component_links[k].device_info_id == devinfo_id {
        assert forall|q: crate::model::ComponentInfoQuery| #[trigger]
            crate::dao::component_infos_of(after, subinfo_id, q) == Seq::<ComponentInfo>::empty() by {
            assert forall|i: int| 0 <= i < after.component_infos.len() implies !crate::dao::is_component_info_of(
                after,
                subinfo_id,
                q,
            )(#[trigger] after.component_infos[i]) by {
                let part = crate::dao::PartIs {
                    subsystem_info_id: subinfo_id,
                    component_info_id: after.component_infos[i].id,
                };
                lemma_filter_filter_len(t.component_links, rejected_by(pair), admitted_by(part));
            }
            crate::table::lemma_filter_none(after.component_infos, crate::dao::is_component_info_of(after, subinfo_id, q));
        }
    }
}

/// The operations of the inventory service.
pub trait Server: Storage {
    /// Adds a component template and returns its key.
    fn add_component_info(&mut self, name: String, model: String, interval: i32) -> (r: Result<i32, Error>)
        requires
            consistent(old(self).tables()),
        ensures
            consistent(final(self).tables()),
            final(self).checkpoints() == old(self).checkpoints(),
            r is Err <==> interval < 0 || old(self).tables().last_component_info == i32::MAX,
            r is Err ==> r->Err_0.kind == ErrorKind::StorageError && final(self).tables() == old(self).tables(),
            r is Ok ==> r->Ok_0 == old(self).tables().last_component_info + 1 && final(self).tables() == (Tables {
                component_infos: old(self).tables().component_infos.push(
                    (ComponentInfoInsert { name, model, maintain_interval: interval }).row(r->Ok_0, old(self).tables().now),
                ),
                last_component_info: r->Ok_0,
                ..old(self).tables()
            }),
    ;

    /// Removes a component template and returns how many rows left.
    fn delete_component_info(&mut self, compinfo_id: i32) -> (r: Result<usize, Error>)
        requires
            consistent(old(self).tables()),
        ensures
            consistent(final(self).tables()),
            final(self).checkpoints() == old(self).checkpoints(),
            r is Ok,
            r->Ok_0 == only(old(self).tables().component_infos, compinfo_id).len(),
            final(self).tables() == (Tables {
                component_infos: removed(old(self).tables().component_infos, compinfo_id),
                ..old(self).tables()
            }),
    ;

    /// Adds a subsystem template and returns its key.
    fn add_subsystem_info(&mut self, name: String, interval: i32) -> (r: Result<i32, Error>)
        requires
            consistent(old(self).tables()),
        ensures
            consistent(final(self).tables()),
            final(self).checkpoints() == old(self).checkpoints(),
            r is Err <==> interval < 0 || old(self).tables().last_subsystem_info == i32::MAX,
            r is Err ==> r->Err_0.kind == ErrorKind::StorageError && final(self).tables() == old(self).tables(),
            r is Ok ==> r->Ok_0 == old(self).tables().last_subsystem_info + 1 && final(self).tables() == (Tables {
                subsystem_infos: old(self).tables().subsystem_infos.push(
                    (SubsystemInfoInsert { name, maintain_interval: interval }).row(r->Ok_0, old(self).tables().now),
                ),
                last_subsystem_info: r->Ok_0,
                ..old(self).tables()
            }),
    ;

    /// Removes a subsystem template and returns how many rows left.
    fn delete_subsystem_info(&mut self, subinfo_id: i32) -> (r: Result<usize, Error>)
        requires
            consistent(old(self).tables()),
        ensures
            consistent(final(self).tables()),
            final(self).checkpoints() == old(self).checkpoints(),
            r is Ok,
            r->Ok_0 == only(old(self).tables().subsystem_infos, subinfo_id).len(),
            final(self).tables() == (Tables {
                subsystem_infos: removed(old(self).tables().subsystem_infos, subinfo_id),
                ..old(self).tables()
            }),
    ;

    /// Adds a device template and returns its key.
    fn add_device_info(&mut self, name: String, model: String, interval: i32) -> (r: Result<i32, Error>)
        requires
            consistent(old(self).tables()),
        ensures
            consistent(final(self).tables()),
            final(self).checkpoints() == old(self).checkpoints(),
            r is Err <==> interval < 0 || old(self).tables().last_device_info == i32::MAX,
            r is Err ==> r->Err_0.kind == ErrorKind::StorageError && final(self).tables() == old(self).tables(),
            r is Ok ==> r->Ok_0 == old(self).tables().last_device_info + 1 && final(self).tables() == (Tables {
                device_infos: old(self).tables().device_infos.push(
                    (DeviceInfoInsert { name, model, maintain_interval: Some(interval) }).row(
                        r->Ok_0,
                        old(self).tables().now,
                    ),
                ),
                last_device_info: r->Ok_0,
                ..old(self).tables()
            }),
    ;

    /// Removes a device template with the attachments scoped under it.
    fn delete_device_info(&mut self, devinfo_id: i32) -> (r: Result<usize, Error>)
        requires
            consistent(old(self).tables()),
        ensures
            consistent(final(self).tables()),
            final(self).checkpoints() == old(self).checkpoints(),
            r is Ok,
            r->Ok_0 == only(old(self).tables().device_infos, devinfo_id).len(),
            final(self).tables() == crate::dao::without_device_infos(
                old(self).tables(),
                removed(old(self).tables().device_infos, devinfo_id),
                only(old(self).tables().device_infos, devinfo_id),
            ),
    ;

    /// Attaches a subsystem template to a device template. `NotFound` where
    /// either is missing; `Conflict` where the attachment is already there.
    fn attach_subsystem_info(&mut self, devinfo_id: i32, subinfo_id: i32) -> (r: Result<usize, Error>)
        requires
            consistent(old(self).tables()),
        ensures
            consistent(final(self).tables()),
            final(self).checkpoints() == old(self).checkpoints(),
            r is Err <==> subsystem_attach_refusal(old(self).tables(), devinfo_id, subinfo_id) is Some,
            r is Err ==> Some(r->Err_0.kind) == subsystem_attach_refusal(old(self).tables(), devinfo_id, subinfo_id)
                && final(self).tables() == old(self).tables(),
            r is Ok ==> r->Ok_0 == 1 && final(self).tables() == subsystem_attached(old(self).tables(), devinfo_id, subinfo_id),
    ;

    /// Detaches a subsystem template from a device template, and with it
    /// every component template attached within the pair, in one transaction.
    /// Returns how many component attachments left. A store that fails the
    /// second step after the first is answered with a rollback and an
    /// `InternalError`; a store that keeps its contract never does.
    fn remove_subsystem_info(&mut self, devinfo_id: i32, subinfo_id: i32) -> (r: Result<usize, Error>)
        requires
            consistent(old(self).tables()),
        ensures
            consistent(final(self).tables()),
            final(self).checkpoints() == old(self).checkpoints(),
            r is Ok,
            r->Ok_0 == hits(
                old(self).tables().component_links,
                PairIs { device_info_id: devinfo_id, subsystem_info_id: subinfo_id },
            ).len(),
            final(self).tables() == subsystem_detached(old(self).tables(), devinfo_id, subinfo_id),
    ;

    /// Attaches a component template, in a quantity, to a subsystem template
    /// within a device template. `NotFound` where the subsystem template or
    /// the component template is missing; `InvalidArgument` for a quantity
    /// below one; `Conflict` where the attachment is already there.
    fn attach_component_info(&mut self, devinfo_id: i32, subinfo_id: i32, cominfo_id: i32, quantity: i32) -> (r: Result<
        usize,
        Error,
    >)
        requires
            consistent(old(self).tables()),
        ensures
            consistent(final(self).tables()),
            final(self).checkpoints() == old(self).checkpoints(),
            r is Err <==> component_attach_refusal(old(self).tables(), devinfo_id, subinfo_id, cominfo_id, quantity) is Some,
            r is Err ==> Some(r->Err_0.kind) == component_attach_refusal(
                old(self).tables(),
                devinfo_id,
                subinfo_id,
                cominfo_id,
                quantity,
            ) && final(self).tables() == old(self).tables(),
            r is Ok ==> r->Ok_0 == 1 && final(self).tables() == component_attached(
                old(self).tables(),
                devinfo_id,
                subinfo_id,
                cominfo_id,
                quantity,
            ),
    ;

    /// Detaches a component template and returns how many attachments left.
    fn remove_component_info(&mut self, devinfo_id: i32, subinfo_id: i32, cominfo_id: i32) -> (r: Result<usize, Error>)
        requires
            consistent(old(self).tables()),
        ensures
            consistent(final(self).tables()),
            final(self).checkpoints() == old(self).checkpoints(),
            r is Ok,
            r->Ok_0 == hits(
                old(self).tables().component_links,
                TripleIs { device_info_id: devinfo_id, subsystem_info_id: subinfo_id, component_info_id: cominfo_id },
            ).len(),
            final(self).tables() == (Tables {
                component_links: misses(
                    old(self).tables().component_links,
                    TripleIs { device_info_id: devinfo_id, subsystem_info_id: subinfo_id, component_info_id: cominfo_id },
                ),
                ..old(self).tables()
            }),
    ;

    /// Builds a device from a device template and returns the device's key.
    /// The steps run in one transaction, so all of the tree is made or none
    /// of it: `NotFound` where the template is
    /// missing, `StorageError` where the keys of a table run out.
    fn create_device(&mut self, devinfo_id: i32, unicode: String) -> (r: Result<i32, Error>)
        requires
            consistent(old(self).tables()),
        ensures
            consistent(final(self).tables()),
            final(self).checkpoints() == old(self).checkpoints(),
            r is Ok <==> has_key(old(self).tables().device_infos, devinfo_id) && instantiated(
                old(self).tables(),
                devinfo_id,
                unicode,
            ) is Some,
            r is Ok ==> r->Ok_0 == old(self).tables().last_device + 1 && Some(final(self).tables()) == instantiated(
                old(self).tables(),
                devinfo_id,
                unicode,
            ),
            r is Err ==> final(self).tables() == old(self).tables() && r->Err_0.kind == (if has_key(
                old(self).tables().device_infos,
                devinfo_id,
            ) {
                ErrorKind::StorageError
            } else {
                ErrorKind::NotFound
            }),
    ;

    /// Removes a device and returns how many rows left. Refused with
    /// `StorageError` while the device owns a subsystem.
    fn delete_device(&mut self, dev_id: i32) -> (r: Result<usize, Error>)
        requires
            consistent(old(self).tables()),
        ensures
            consistent(final(self).tables()),
            final(self).checkpoints() == old(self).checkpoints(),
            r is Err <==> children_of(old(self).tables().subsystems, dev_id).len() > 0,
            r is Err ==> r->Err_0.kind == ErrorKind::StorageError && final(self).tables() == old(self).tables(),
            r is Ok ==> r->Ok_0 == only(old(self).tables().devices, dev_id).len() && final(self).tables() == (Tables {
                devices: removed(old(self).tables().devices, dev_id),
                ..old(self).tables()
            }),
    ;
}

/// The service over one store that holds all the tables.
pub struct Service<S> {
    pub store: S,
}

impl<S> Service<S> {
    /// The service over the given store.
    pub fn new(store: S) -> (service: Service<S>)
        ensures
            service.store == store,
    {
        Service { store }
    }
}

impl<S: Storage> Storage for Service<S> {
    open spec fn tables(&self) -> Tables {
        self.store.tables()
    }

    open spec fn checkpoints(&self) -> Checkpoints {
        self.store.checkpoints()
    }

    fn begin(&mut self) {
        self.store.begin();
    }

    fn commit(&mut self) {
        self.store.commit();
    }

    fn rollback(&mut self) {
        self.store.rollback();
    }
}

/// Planting one more component template extends what was planted before.
proof fn lemma_plant_components_step(t: Tables, subsystem_id: i32, infos: Seq<ComponentInfo>, k: int)
    requires
        0 <= k < infos.len(),
    ensures
        plant_components(t, subsystem_id, infos.take(k + 1)) == (match plant_components(t, subsystem_id, infos.take(k)) {
            Some(u) => with_component(u, component_draft(subsystem_id, infos[k])),
            None => None,
        }),
{
    assert(infos.take(k + 1).drop_last() =~= infos.take(k));
    assert(infos.take(k + 1).last() == infos[k]);
}

/// Where the keys run out on a prefix, they run out on the whole.
proof fn lemma_plant_components_none(t: Tables, subsystem_id: i32, infos: Seq<ComponentInfo>, k: int)
    requires
        0 <= k <= infos.len(),
        plant_components(t, subsystem_id, infos.take(k)) is None,
    ensures
        plant_components(t, subsystem_id, infos) is None,
    decreases infos.len() - k,
{
    if k < infos.len() {
        lemma_plant_components_step(t, subsystem_id, infos, k);
        lemma_plant_components_none(t, subsystem_id, infos, k + 1);
    } else {
        assert(infos.take(k) =~= infos);
    }
}

/// Planting one more branch extends what was planted before.
proof fn lemma_plant_branches_step(t: Tables, device_id: i32, branches: Seq<(SubsystemInfo, Seq<ComponentInfo>)>, i: int)
    requires
        0 <= i < branches.len(),
    ensures
        plant_branches(t, device_id, branches.take(i + 1)) == (match plant_branches(t, device_id, branches.take(i)) {
            Some(u) => plant_branch(u, device_id, branches[i]),
            None => None,
        }),
{
    assert(branches.take(i + 1).drop_last() =~= branches.take(i));
    assert(branches.take(i + 1).last() == branches[i]);
}

proof fn lemma_plant_branches_none(t: Tables, device_id: i32, branches: Seq<(SubsystemInfo, Seq<ComponentInfo>)>, i: int)
    requires
        0 <= i <= branches.len(),
        plant_branches(t, device_id, branches.take(i)) is None,
    ensures
        plant_branches(t, device_id, branches) is None,
    decreases branches.len() - i,
{
    if i < branches.len() {
        lemma_plant_branches_step(t, device_id, branches, i);
        lemma_plant_branches_none(t, device_id, branches, i + 1);
    } else {
        assert(branches.take(i) =~= branches);
    }
}

/// No template of a consistent inventory carries a negative interval, so
/// none in the subtree of a device template does.
proof fn lemma_template_intervals(t: Tables, devinfo_id: i32)
    requires
        consistent(t),
    ensures
        has_key(t.device_infos, devinfo_id) ==> row_of(t.device_infos, devinfo_id).maintain_interval >= 0,
        forall|j: int|
            0 <= j < template_branches(t, devinfo_id).len() ==> (#[trigger] template_branches(
                t,
                devinfo_id,
            )[j]).0.maintain_interval >= 0,
        forall|j: int, k: int|
            0 <= j < template_branches(t, devinfo_id).len() && 0 <= k < template_branches(t, devinfo_id)[j].1.len()
                ==> (#[trigger] template_branches(t, devinfo_id)[j].1[k]).maintain_interval >= 0,
{
    let plan = template_branches(t, devinfo_id);
    let subs = template_subsystems(t, devinfo_id);
    if has_key(t.device_infos, devinfo_id) {
        assert(t.device_infos[index_of(t.device_infos, devinfo_id)].interval() >= 0);
    }
    assert forall|j: int| 0 <= j < plan.len() implies (#[trigger] plan[j]).0.maintain_interval >= 0 by {
        assert(subs.contains(subs[j]));
        t.subsystem_infos.lemma_filter_contains_rev(crate::dao::is_template_subsystem(t, devinfo_id), subs[j]);
        let m = choose|m: int| 0 <= m < t.subsystem_infos.len() && t.subsystem_infos[m] == subs[j];
        assert(t.subsystem_infos[m].interval() >= 0);
    }
    assert forall|j: int, k: int| 0 <= j < plan.len() && 0 <= k < plan[j].1.len() implies (#[trigger] plan[j].1[k]).maintain_interval
        >= 0 by {
        let coms = template_components(t, devinfo_id, subs[j].id);
        assert(plan[j].1 == coms);
        assert(coms.contains(coms[k]));
        t.component_infos.lemma_filter_contains_rev(crate::dao::is_template_component(t, devinfo_id, subs[j].id), coms[k]);
        let m = choose|m: int| 0 <= m < t.component_infos.len() && t.component_infos[m] == coms[k];
        assert(t.component_infos[m].interval() >= 0);
    }
}

impl<S> Server for Service<S> where
    S: DeviceInfoStorer + SubsystemInfoStorer + ComponentInfoStorer + DeviceStorer + SubsystemStorer + ComponentStorer + RelationStorer,
 {
    fn add_component_info(&mut self, name: String, model: String, interval: i32) -> (r: Result<i32, Error>) {
        ComponentInfoStorer::insert(&mut self.store, ComponentInfoInsert { name, model, maintain_interval: interval })
    }

    fn delete_component_info(&mut self, compinfo_id: i32) -> (r: Result<usize, Error>) {
        ComponentInfoStorer::delete(&mut self.store, compinfo_id)
    }

    fn add_subsystem_info(&mut self, name: String, interval: i32) -> (r: Result<i32, Error>) {
        SubsystemInfoStorer::insert(&mut self.store, SubsystemInfoInsert { name, maintain_interval: interval })
    }

    fn delete_subsystem_info(&mut self, subinfo_id: i32) -> (r: Result<usize, Error>) {
        SubsystemInfoStorer::delete(&mut self.store, subinfo_id)
    }

    fn add_device_info(&mut self, name: String, model: String, interval: i32) -> (r: Result<i32, Error>) {
        DeviceInfoStorer::insert(&mut self.store, DeviceInfoInsert { name, model, maintain_interval: Some(interval) })
    }

    fn delete_device_info(&mut self, devinfo_id: i32) -> (r: Result<usize, Error>) {
        DeviceInfoStorer::delete(&mut self.store, devinfo_id)
    }

    fn attach_subsystem_info(&mut self, devinfo_id: i32, subinfo_id: i32) -> (r: Result<usize, Error>) {
        match DeviceInfoStorer::get(&self.store, devinfo_id) {
            Ok(_) => {},
            Err(e) => {
                return Err(e);
            },
        }
        match SubsystemInfoStorer::get(&self.store, subinfo_id) {
            Ok(_) => {},
            Err(e) => {
                return Err(e);
            },
        }
        RelationStorer::insert_deviceinfo_subsysteminfo(
            &mut self.store,
            DevinfoSubinfoInsert { device_info_id: devinfo_id, subsystem_info_id: subinfo_id },
        )
    }

    fn remove_subsystem_info(&mut self, devinfo_id: i32, subinfo_id: i32) -> (r: Result<usize, Error>) {
        let ghost open = self.store.checkpoints();
        let ghost t0 = self.store.tables();
        self.store.begin();
        proof {
            assert(open.push(t0).drop_last() =~= open);
        }
        match RelationStorer::delete_deviceinfo_subsysteminfo(&mut self.store, devinfo_id, subinfo_id) {
            Ok(_) => {},
            Err(e) => {
                self.store.rollback();
                return Err(e);
            },
        }
        match RelationStorer::bulk_delete_subsysteminfo_componentinfo(&mut self.store, devinfo_id, subinfo_id) {
            Ok(n) => {
                self.store.commit();
                Ok(n)
            },
            Err(_) => {
                self.store.rollback();
                Err(Error::new(ErrorKind::InternalError))
            },
        }
    }

    fn attach_component_info(&mut self, devinfo_id: i32, subinfo_id: i32, cominfo_id: i32, quantity: i32) -> (r: Result<
        usize,
        Error,
    >) {
        match SubsystemInfoStorer::get(&self.store, subinfo_id) {
            Ok(_) => {},
            Err(e) => {
                return Err(e);
            },
        }
        match ComponentInfoStorer::get(&self.store, cominfo_id) {
            Ok(_) => {},
            Err(e) => {
                return Err(e);
            },
        }
        RelationStorer::insert_subsysteminfo_componentinfo(
            &mut self.store,
            SubinfoCominfoInsert {
                device_info_id: devinfo_id,
                subsystem_info_id: subinfo_id,
                component_info_id: cominfo_id,
                quantity,
            },
        )
    }

    fn remove_component_info(&mut self, devinfo_id: i32, subinfo_id: i32, cominfo_id: i32) -> (r: Result<usize, Error>) {
        RelationStorer::delete_subsysteminfo_componentinfo(&mut self.store, devinfo_id, subinfo_id, cominfo_id)
    }

    fn create_device(&mut self, devinfo_id: i32, unicode: String) -> (r: Result<i32, Error>) {
        let ghost t0 = self.store.tables();
        let ghost open = self.store.checkpoints();
        self.store.begin();
        proof {
            assert(open.push(t0).drop_last() =~= open);
        }
        let (info, branches) = match DeviceInfoStorer::detail(&self.store, devinfo_id) {
            Ok(found) => found,
            Err(e) => {
                self.store.rollback();
                return Err(e);
            },
        };
        let ghost plan = branches_view(branches@);
        proof {
            lemma_template_intervals(t0, devinfo_id);
        }
        let draft = DeviceInsert {
            name: info.name,
            model: info.model,
            maintain_interval: info.maintain_interval,
            unicode,
            last_start_at: None,
            last_stop_at: None,
            total_duration: 0,
            status: DeviceStatus::Stopped,
        };
        let dev_id: i32 = match DeviceStorer::insert(&mut self.store, draft) {
            Ok(id) => id,
            Err(e) => {
                self.store.rollback();
                proof {
                    assert(open.push(t0).drop_last() =~= open);
                }
                return Err(e);
            },
        };
        let ghost t1 = self.store.tables();
        proof {
            assert(t1.devices[t0.devices.len() as int].key() == dev_id);
            assert(plan.take(0) =~= Seq::empty());
        }
        let mut i: usize = 0;
        while i < branches.len()
            invariant
                i <= branches.len(),
                plan == branches_view(branches@),
                plan == template_branches(t0, devinfo_id),
                has_key(t0.device_infos, devinfo_id),
                with_device(t0, device_draft(row_of(t0.device_infos, devinfo_id), unicode)) == Some(t1),
                dev_id == t0.last_device + 1,
                dev_id == t1.last_device,
                old(self).store.tables() == t0,
                old(self).store.checkpoints() == open,
                self.store.checkpoints() == open.push(t0),
                consistent(t0),
                consistent(self.store.tables()),
                plant_branches(t1, dev_id, plan.take(i as int)) == Some(self.store.tables()),
                has_key(self.store.tables().devices, dev_id),
                forall|j: int| 0 <= j < plan.len() ==> (#[trigger] plan[j]).0.maintain_interval >= 0,
                forall|j: int, k: int|
                    0 <= j < plan.len() && 0 <= k < plan[j].1.len() ==> (#[trigger] plan[j].1[k]).maintain_interval >= 0,
            decreases branches.len() - i,
        {
            let branch = &branches[i];
            let ghost ti = self.store.tables();
            proof {
                assert(plan[i as int] == (branch.0, branch.1@));
                lemma_plant_branches_step(t1, dev_id, plan, i as int);
            }
            let sub_draft = SubsystemInsert {
                device_id: dev_id,
                name: branch.0.name.clone(),
                maintain_interval: branch.0.maintain_interval,
            };
            let sub_id: i32 = match SubsystemStorer::insert(&mut self.store, sub_draft) {
                Ok(id) => id,
                Err(e) => {
                    proof {
                        lemma_plant_branches_none(t1, dev_id, plan, i + 1);
                    }
                    self.store.rollback();
                    proof {
                        assert(open.push(t0).drop_last() =~= open);
                    }
                    return Err(e);
                },
            };
            let ghost u0 = self.store.tables();
            let coms = &branch.1;
            proof {
                assert(u0.subsystems[ti.subsystems.len() as int].key() == sub_id);
                assert(coms@.take(0) =~= Seq::empty());
            }
            let mut k: usize = 0;
            while k < coms.len()
                invariant
                    k <= coms.len(),
                    i < plan.len(),
                    dev_id == t1.last_device,
                    plan == template_branches(t0, devinfo_id),
                    plan[i as int].1 == coms@,
                    has_key(t0.device_infos, devinfo_id),
                    with_device(t0, device_draft(row_of(t0.device_infos, devinfo_id), unicode)) == Some(t1),
                    plant_branches(t1, dev_id, plan.take(i + 1)) == (match with_subsystem(
                        ti,
                        subsystem_draft(dev_id, plan[i as int].0),
                    ) {
                        Some(u) => plant_components(u, u.last_subsystem, plan[i as int].1),
                        None => None,
                    }),
                    with_subsystem(ti, subsystem_draft(dev_id, plan[i as int].0)) == Some(u0),
                    u0.last_subsystem == sub_id,
                    old(self).store.tables() == t0,
                    old(self).store.checkpoints() == open,
                self.store.checkpoints() == open.push(t0),
                    consistent(t0),
                    consistent(self.store.tables()),
                    plant_components(u0, sub_id, coms@.take(k as int)) == Some(self.store.tables()),
                    has_key(self.store.tables().devices, dev_id),
                    has_key(self.store.tables().subsystems, sub_id),
                    forall|j: int, k: int|
                        0 <= j < plan.len() && 0 <= k < plan[j].1.len() ==> (#[trigger] plan[j].1[k]).maintain_interval >= 0,
                decreases coms.len() - k,
            {
                proof {
                    assert(plan[i as int].1[k as int].maintain_interval >= 0);
                    lemma_plant_components_step(u0, sub_id, coms@, k as int);
                }
                let com_draft = ComponentInsert {
                    subsystem_id: sub_id,
                    name: coms[k].name.clone(),
                    model: coms[k].model.clone(),
                    maintain_interval: coms[k].maintain_interval,
                };
                match ComponentStorer::insert(&mut self.store, com_draft) {
                    Ok(_) => {},
                    Err(e) => {
                        proof {
                            lemma_plant_components_none(u0, sub_id, coms@, k + 1);
                            lemma_plant_branches_none(t1, dev_id, plan, i + 1);
                        }
                        self.store.rollback();
                        proof {
                            assert(open.push(t0).drop_last() =~= open);
                        }
                        return Err(e);
                    },
                }
                k += 1;
            }
            proof {
                assert(coms@.take(k as int) =~= coms@);
            }
            i += 1;
        }
        self.store.commit();
        proof {
            assert(plan.take(i as int) =~= plan);
            assert(open.push(t0).drop_last() =~= open);
        }
        Ok(dev_id)
    }

    fn delete_device(&mut self, dev_id: i32) -> (r: Result<usize, Error>) {
        DeviceStorer::delete(&mut self.store, dev_id)
    }
}

} // verus!
