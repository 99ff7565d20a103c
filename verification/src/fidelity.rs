//! A device built from a template has the template's shape: what the
//! instantiation of a device template leaves in the tables of devices,
//! subsystems and components.

use crate::dao::{consistent, template_branches, Tables};
use crate::entity::Draft;
use crate::model::{Component, ComponentInfo, Subsystem, SubsystemInfo};
use crate::service::{
    component_draft, device_draft, instantiated, plant_branches, plant_components, subsystem_draft, with_device,
    with_subsystem,
};
use crate::table::{admitted_by, has_key, index_of, lemma_filter_none, row_of, Record};
use crate::tree::{branches_of, children_of, Owned, OwnedBy};
use vstd::prelude::*;

verus! {

/// The subsystem `s` was made of the template `info` under the device `device_id`.
pub open spec fn subsystem_like(s: Subsystem, device_id: i32, info: SubsystemInfo) -> bool {
    s.device_id == device_id && s.name == info.name && s.maintain_interval == info.maintain_interval
}

/// The component `c` was made of the template `info` under the subsystem `subsystem_id`.
pub open spec fn component_like(c: Component, subsystem_id: i32, info: ComponentInfo) -> bool {
    c.subsystem_id == subsystem_id && c.name == info.name && c.model == info.model && c.maintain_interval
        == info.maintain_interval
}

/// The components were made of the templates, one of each, in their order.
pub open spec fn components_like(made: Seq<Component>, subsystem_id: i32, infos: Seq<ComponentInfo>) -> bool {
    made.len() == infos.len() && forall|k: int| 0 <= k < made.len() ==> component_like(#[trigger] made[k], subsystem_id, infos[k])
}

/// The subtree was made of the template subtree: one subsystem for each
/// subsystem template, in their order, each with one component for each of
/// its component templates.
pub open spec fn tree_like(
    made: Seq<(Subsystem, Seq<Component>)>,
    device_id: i32,
    plan: Seq<(SubsystemInfo, Seq<ComponentInfo>)>,
) -> bool {
    made.len() == plan.len() && forall|j: int|
        0 <= j < made.len() ==> subsystem_like((#[trigger] made[j]).0, device_id, plan[j].0) && components_like(
            made[j].1,
            made[j].0.id,
            plan[j].1,
        )
}

/// Two tables differ in their components at most.
pub open spec fn same_but_components(t: Tables, u: Tables) -> bool {
    u == (Tables { components: u.components, last_component: u.last_component, ..t })
}

/// Two tables differ in their subsystems and components at most.
pub open spec fn same_but_subtrees(t: Tables, u: Tables) -> bool {
    u == (Tables {
        subsystems: u.subsystems,
        last_subsystem: u.last_subsystem,
        components: u.components,
        last_component: u.last_component,
        ..t
    })
}

/// No subsystem has a key above the last one given out, and no component
/// belongs to a subsystem above it.
pub open spec fn below_last_subsystem(t: Tables) -> bool {
    &&& forall|i: int| 0 <= i < t.subsystems.len() ==> (#[trigger] t.subsystems[i]).id <= t.last_subsystem
    &&& forall|i: int| 0 <= i < t.components.len() ==> (#[trigger] t.components[i]).subsystem_id <= t.last_subsystem
}

proof fn lemma_components_like(t: Tables, subsystem_id: i32, infos: Seq<ComponentInfo>)
    requires
        plant_components(t, subsystem_id, infos) is Some,
        forall|i: int| 0 <= i < t.components.len() ==> (#[trigger] t.components[i]).subsystem_id != subsystem_id,
    ensures
        same_but_components(t, plant_components(t, subsystem_id, infos)->0),
        components_like(children_of(plant_components(t, subsystem_id, infos)->0.components, subsystem_id), subsystem_id, infos),
        forall|other: i32|
            other != subsystem_id ==> #[trigger] children_of(plant_components(t, subsystem_id, infos)->0.components, other)
                == children_of(t.components, other),
        forall|i: int|
            0 <= i < plant_components(t, subsystem_id, infos)->0.components.len() ==> (#[trigger] plant_components(
                t,
                subsystem_id,
                infos,
            )->0.components[i]).subsystem_id == subsystem_id || (i < t.components.len() && plant_components(
                t,
                subsystem_id,
                infos,
            )->0.components[i] == t.components[i]),
    decreases infos.len(),
{
    let u = plant_components(t, subsystem_id, infos)->0;
    let by = admitted_by(OwnedBy { owner: subsystem_id });
    if infos.len() == 0 {
        lemma_filter_none(t.components, by);
    } else {
        let front = infos.drop_last();
        let v = plant_components(t, subsystem_id, front)->0;
        lemma_components_like(t, subsystem_id, front);
        let row = component_draft(subsystem_id, infos.last()).row((v.last_component + 1) as i32, v.now);
        assert(u.components == v.components.push(row));
        v.components.lemma_filter_push(row, by);
        assert forall|other: i32| other != subsystem_id implies #[trigger] children_of(u.components, other) == children_of(
            t.components,
            other,
        ) by {
            v.components.lemma_filter_push(row, admitted_by(OwnedBy { owner: other }));
            assert(children_of(v.components, other) == children_of(t.components, other));
        }
        let made = children_of(u.components, subsystem_id);
        let before = children_of(v.components, subsystem_id);
        assert(made == before.push(row));
        assert forall|k: int| 0 <= k < made.len() implies component_like(#[trigger] made[k], subsystem_id, infos[k]) by {
            if k < before.len() {
                assert(made[k] == before[k]);
                assert(front[k] == infos[k]);
            }
        }
    }
}

proof fn lemma_branches_like(t: Tables, device_id: i32, plan: Seq<(SubsystemInfo, Seq<ComponentInfo>)>)
    requires
        plant_branches(t, device_id, plan) is Some,
        forall|i: int| 0 <= i < t.subsystems.len() ==> (#[trigger] t.subsystems[i]).device_id != device_id,
        below_last_subsystem(t),
    ensures
        same_but_subtrees(t, plant_branches(t, device_id, plan)->0),
        below_last_subsystem(plant_branches(t, device_id, plan)->0),
        tree_like(
            branches_of(
                plant_branches(t, device_id, plan)->0.subsystems,
                plant_branches(t, device_id, plan)->0.components,
                device_id,
            ),
            device_id,
            plan,
        ),
    decreases plan.len(),
{
    let u = plant_branches(t, device_id, plan)->0;
    let by = admitted_by(OwnedBy { owner: device_id });
    if plan.len() == 0 {
        lemma_filter_none(t.subsystems, by);
    } else {
        let front = plan.drop_last();
        let v = plant_branches(t, device_id, front)->0;
        lemma_branches_like(t, device_id, front);
        let w = with_subsystem(v, subsystem_draft(device_id, plan.last().0))->0;
        let row = subsystem_draft(device_id, plan.last().0).row((v.last_subsystem + 1) as i32, v.now);
        assert(w.subsystems == v.subsystems.push(row));
        assert(u == plant_components(w, w.last_subsystem, plan.last().1)->0);
        lemma_components_like(w, row.id, plan.last().1);
        v.subsystems.lemma_filter_push(row, by);
        let owned_before = children_of(v.subsystems, device_id);
        let owned = children_of(u.subsystems, device_id);
        assert(owned == owned_before.push(row));
        let made = branches_of(u.subsystems, u.components, device_id);
        let made_before = branches_of(v.subsystems, v.components, device_id);
        assert forall|j: int| 0 <= j < made.len() implies subsystem_like((#[trigger] made[j]).0, device_id, plan[j].0)
            && components_like(made[j].1, made[j].0.id, plan[j].1) by {
            if j < owned_before.len() {
                assert(owned[j] == owned_before[j]);
                assert(owned_before.contains(owned_before[j]));
                v.subsystems.lemma_filter_contains_rev(by, owned_before[j]);
                let m = choose|m: int| 0 <= m < v.subsystems.len() && v.subsystems[m] == owned_before[j];
                assert(v.subsystems[m].id <= v.last_subsystem);
                assert(children_of(u.components, owned[j].id) == children_of(w.components, owned[j].id));
                assert(made_before[j] == (owned_before[j], children_of(v.components, owned_before[j].id)));
                assert(made[j] == made_before[j]);
                assert(front[j] == plan[j]);
            } else {
                assert(made[j] == (row, children_of(u.components, row.id)));
                assert(plan[j] == plan.last());
            }
        }
        assert forall|i: int| 0 <= i < u.subsystems.len() implies (#[trigger] u.subsystems[i]).id <= u.last_subsystem by {
            if i < v.subsystems.len() {
                assert(u.subsystems[i] == v.subsystems[i]);
            }
        }
        assert forall|i: int| 0 <= i < u.components.len() implies (#[trigger] u.components[i]).subsystem_id
            <= u.last_subsystem by {
            if u.components[i].subsystem_id != row.id {
                assert(u.components[i] == v.components[i]);
            }
        }
    }
}

/// Instantiation is faithful to the template. Where a device is built from
/// the device template `devinfo_id`: the device table gains exactly one row,
/// which carries the template's name, model and interval; the subtree that
/// the new device owns has one subsystem for each attached subsystem
/// template, in order, with that template's name and interval; and each of
/// these subsystems owns one component for each component template attached
/// under its template, with that template's name, model and interval. The
/// templates and their attachments stay as they were.
pub proof fn lemma_instantiation_fidelity(t: Tables, devinfo_id: i32, unicode: String)
    requires
        consistent(t),
        has_key(t.device_infos, devinfo_id),
        instantiated(t, devinfo_id, unicode) is Some,
    ensures
        same_but_subtrees(
            Tables {
                devices: t.devices.push(
                    device_draft(row_of(t.device_infos, devinfo_id), unicode).row((t.last_device + 1) as i32, t.now),
                ),
                last_device: (t.last_device + 1) as i32,
                ..t
            },
            instantiated(t, devinfo_id, unicode)->0,
        ),
        tree_like(
            branches_of(
                instantiated(t, devinfo_id, unicode)->0.subsystems,
                instantiated(t, devinfo_id, unicode)->0.components,
                (t.last_device + 1) as i32,
            ),
            (t.last_device + 1) as i32,
            template_branches(t, devinfo_id),
        ),
{
    let t1 = with_device(t, device_draft(row_of(t.device_infos, devinfo_id), unicode))->0;
    let id = t1.last_device;
    assert forall|i: int| 0 <= i < t1.subsystems.len() implies (#[trigger] t1.subsystems[i]).device_id != id by {
        let owner = t.subsystems[i].device_id;
        assert(has_key(t.devices, owner));
        assert(t.devices[index_of(t.devices, owner)].key() <= t.last_device);
    }
    assert forall|i: int| 0 <= i < t1.components.len() implies (#[trigger] t1.components[i]).subsystem_id
        <= t1.last_subsystem by {
        let owner = t.components[i].subsystem_id;
        assert(has_key(t.subsystems, owner));
        assert(t.subsystems[index_of(t.subsystems, owner)].key() <= t.last_subsystem);
    }
    assert forall|i: int| 0 <= i < t1.subsystems.len() implies (#[trigger] t1.subsystems[i]).id <= t1.last_subsystem by {
        assert(t.subsystems[i].key() <= t.last_subsystem);
    }
    lemma_branches_like(t1, id, template_branches(t, devinfo_id));
}

} // verus!
