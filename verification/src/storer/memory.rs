//! A store that keeps the eight tables in memory.

use crate::dao::{
    any_orphan_component, any_orphan_subsystem, attached, consistent, holds_component, is_component_info_of,
    is_device_info_of, is_subsystem_info_of, is_subsystem_info_with, is_template_component, is_template_subsystem, linked,
    orphaned_pairs, orphaned_triples, template_branch, template_subsystems, Checkpoints, ComponentInfoStorer, ComponentStorer,
    DeviceInfoStorer, DeviceStorer, PairIs, PartIs, RelationStorer, Storage, SubsystemInfoStorer, SubsystemStorer, Tables,
    TripleIs, UnderDevice,
};
use crate::datetime::MyDatetime;
use crate::entity::{
    amend, append, append_all, entity_wf, has_negative, lemma_empty_update, rows_from, Amend, Draft, Entity,
};
use crate::error::{Error, ErrorKind};
use crate::model::{
    Component, ComponentInfo, ComponentInfoInsert, ComponentInfoQuery, ComponentInfoUpdate, ComponentInsert, ComponentQuery,
    ComponentUpdate, Device, DeviceInfo, DeviceInfoInsert, DeviceInfoQuery, DeviceInfoUpdate, DeviceInsert, DeviceQuery,
    DeviceUpdate, DeviceinfoSubsysteminfo, DevinfoSubinfoInsert, ExactComponentInfo, ExactDeviceInfo, ExactSubsystemInfo,
    SubinfoCominfoInsert, Subsystem, SubsystemInfo, SubsystemInfoInsert, SubsystemInfoQuery, SubsystemInfoUpdate,
    SubsystemInsert, SubsystemQuery, SubsystemUpdate, SubsysteminfoComponentinfo,
};
use crate::table::{
    admitted_by, count, fetch, has_key, hits, index_of, lemma_filter_ascending, lemma_filter_empty, lemma_filter_filter_len,
    lemma_filter_same, lemma_found_rows_pass, lemma_index_unique, lemma_len_bound, lemma_push_wf, lemma_removed_wf, only,
    page_of, position,
    rejected_by, remove_key, remove_where, removed, search, select, Criterion, Record,
};
use crate::tree::{
    assemble, branch_view, branches_view, children_of, copy_rows, families, lemma_forest_of_loaded, owned_by_any, subtree,
    Owned, OwnedBy,
};
use vstd::prelude::*;

verus! {

/// The inventory in memory: every table is a vector of rows in key order.
pub struct MemoryStore {
    now: MyDatetime,
    device_infos: Vec<DeviceInfo>,
    last_device_info: i32,
    subsystem_infos: Vec<SubsystemInfo>,
    last_subsystem_info: i32,
    component_infos: Vec<ComponentInfo>,
    last_component_info: i32,
    device_links: Vec<DeviceinfoSubsysteminfo>,
    last_device_link: i32,
    component_links: Vec<SubsysteminfoComponentinfo>,
    last_component_link: i32,
    devices: Vec<Device>,
    last_device: i32,
    subsystems: Vec<Subsystem>,
    last_subsystem: i32,
    components: Vec<Component>,
    last_component: i32,
    saved: Vec<Saved>,
}

/// The tables as they were when a transaction began.
pub struct Saved {
    now: MyDatetime,
    device_infos: Vec<DeviceInfo>,
    last_device_info: i32,
    subsystem_infos: Vec<SubsystemInfo>,
    last_subsystem_info: i32,
    component_infos: Vec<ComponentInfo>,
    last_component_info: i32,
    device_links: Vec<DeviceinfoSubsysteminfo>,
    last_device_link: i32,
    component_links: Vec<SubsysteminfoComponentinfo>,
    last_component_link: i32,
    devices: Vec<Device>,
    last_device: i32,
    subsystems: Vec<Subsystem>,
    last_subsystem: i32,
    components: Vec<Component>,
    last_component: i32,
}

impl Saved {
    /// The tables that were saved.
    pub closed spec fn tables(self) -> Tables {
        Tables {
            now: self.now,
            device_infos: self.device_infos@,
            last_device_info: self.last_device_info,
            subsystem_infos: self.subsystem_infos@,
            last_subsystem_info: self.last_subsystem_info,
            component_infos: self.component_infos@,
            last_component_info: self.last_component_info,
            device_links: self.device_links@,
            last_device_link: self.last_device_link,
            component_links: self.component_links@,
            last_component_link: self.last_component_link,
            devices: self.devices@,
            last_device: self.last_device,
            subsystems: self.subsystems@,
            last_subsystem: self.last_subsystem,
            components: self.components@,
            last_component: self.last_component,
        }
    }
}

/// The tables of a saved state.
pub open spec fn saved_tables() -> spec_fn(Saved) -> Tables {
    |s: Saved| s.tables()
}

/// Tables without rows, at the time `now`.
pub open spec fn empty_tables(now: MyDatetime) -> Tables {
    Tables {
        now,
        device_infos: Seq::empty(),
        last_device_info: 0,
        subsystem_infos: Seq::empty(),
        last_subsystem_info: 0,
        component_infos: Seq::empty(),
        last_component_info: 0,
        device_links: Seq::empty(),
        last_device_link: 0,
        component_links: Seq::empty(),
        last_component_link: 0,
        devices: Seq::empty(),
        last_device: 0,
        subsystems: Seq::empty(),
        last_subsystem: 0,
        components: Seq::empty(),
        last_component: 0,
    }
}

impl Storage for MemoryStore {
    closed spec fn tables(&self) -> Tables {
        Tables {
            now: self.now,
            device_infos: self.device_infos@,
            last_device_info: self.last_device_info,
            subsystem_infos: self.subsystem_infos@,
            last_subsystem_info: self.last_subsystem_info,
            component_infos: self.component_infos@,
            last_component_info: self.last_component_info,
            device_links: self.device_links@,
            last_device_link: self.last_device_link,
            component_links: self.component_links@,
            last_component_link: self.last_component_link,
            devices: self.devices@,
            last_device: self.last_device,
            subsystems: self.subsystems@,
            last_subsystem: self.last_subsystem,
            components: self.components@,
            last_component: self.last_component,
        }
    }

    closed spec fn checkpoints(&self) -> Checkpoints {
        self.saved@.map_values(saved_tables())
    }

    fn begin(&mut self) {
        let copy = Saved {
            now: self.now,
            device_infos: copy_rows(&self.device_infos),
            last_device_info: self.last_device_info,
            subsystem_infos: copy_rows(&self.subsystem_infos),
            last_subsystem_info: self.last_subsystem_info,
            component_infos: copy_rows(&self.component_infos),
            last_component_info: self.last_component_info,
            device_links: copy_rows(&self.device_links),
            last_device_link: self.last_device_link,
            component_links: copy_rows(&self.component_links),
            last_component_link: self.last_component_link,
            devices: copy_rows(&self.devices),
            last_device: self.last_device,
            subsystems: copy_rows(&self.subsystems),
            last_subsystem: self.last_subsystem,
            components: copy_rows(&self.components),
            last_component: self.last_component,
        };
        proof {
            self.saved@.lemma_push_map_commute(saved_tables(), copy);
        }
        self.saved.push(copy);
    }

    fn commit(&mut self) {
        proof {
            assert(self.saved@.drop_last().map_values(saved_tables()) =~= self.saved@.map_values(saved_tables()).drop_last());
        }
        let _closed: Option<Saved> = self.saved.pop();
    }

    fn rollback(&mut self) {
        proof {
            assert(self.saved@.drop_last().map_values(saved_tables()) =~= self.saved@.map_values(saved_tables()).drop_last());
        }
        match self.saved.pop() {
            Some(back) => {
                self.now = back.now;
                self.device_infos = back.device_infos;
                self.last_device_info = back.last_device_info;
                self.subsystem_infos = back.subsystem_infos;
                self.last_subsystem_info = back.last_subsystem_info;
                self.component_infos = back.component_infos;
                self.last_component_info = back.last_component_info;
                self.device_links = back.device_links;
                self.last_device_link = back.last_device_link;
                self.component_links = back.component_links;
                self.last_component_link = back.last_component_link;
                self.devices = back.devices;
                self.last_device = back.last_device;
                self.subsystems = back.subsystems;
                self.last_subsystem = back.last_subsystem;
                self.components = back.components;
                self.last_component = back.last_component;
            },
            None => {},
        }
    }
}

impl MemoryStore {
    /// An empty inventory whose clock shows `now`.
    pub fn new(now: MyDatetime) -> (store: MemoryStore)
        ensures
            store.tables() == empty_tables(now),
            store.checkpoints() == Seq::<Tables>::empty(),
            consistent(store.tables()),
    {
        proof {
            assert forall|d: i32, s: i32| #[trigger]
                hits(Seq::<DeviceinfoSubsysteminfo>::empty(), PairIs { device_info_id: d, subsystem_info_id: s }).len() <= 1 by {
                lemma_filter_empty::<DeviceinfoSubsysteminfo>(admitted_by(PairIs { device_info_id: d, subsystem_info_id: s }));
            }
            assert forall|d: i32, s: i32, c: i32| #[trigger]
                hits(
                    Seq::<SubsysteminfoComponentinfo>::empty(),
                    TripleIs { device_info_id: d, subsystem_info_id: s, component_info_id: c },
                ).len() <= 1 by {
                lemma_filter_empty::<SubsysteminfoComponentinfo>(
                    admitted_by(TripleIs { device_info_id: d, subsystem_info_id: s, component_info_id: c }),
                );
            }
        }
        proof {
            assert(Seq::<Saved>::empty().map_values(saved_tables()) =~= Seq::<Tables>::empty());
        }
        MemoryStore {
            now,
            device_infos: Vec::new(),
            last_device_info: 0,
            subsystem_infos: Vec::new(),
            last_subsystem_info: 0,
            component_infos: Vec::new(),
            last_component_info: 0,
            device_links: Vec::new(),
            last_device_link: 0,
            component_links: Vec::new(),
            last_component_link: 0,
            devices: Vec::new(),
            last_device: 0,
            subsystems: Vec::new(),
            last_subsystem: 0,
            components: Vec::new(),
            last_component: 0,
            saved: Vec::new(),
        }
    }

    /// Sets the clock: rows made or changed from now on carry this time.
    pub fn set_now(&mut self, now: MyDatetime)
        requires
            consistent(old(self).tables()),
        ensures
            consistent(final(self).tables()),
            final(self).checkpoints() == old(self).checkpoints(),
            final(self).tables() == (Tables { now, ..old(self).tables() }),
    {
        self.now = now;
    }
}

/// "Scoped under one of these device templates."
pub struct ScopedUnder<'a> {
    pub gone: &'a Vec<DeviceInfo>,
}

impl<'a> Criterion<DeviceinfoSubsysteminfo> for ScopedUnder<'a> {
    open spec fn admits(&self, row: &DeviceinfoSubsysteminfo) -> bool {
        has_key(self.gone@, row.device_info_id)
    }

    fn test(&self, row: &DeviceinfoSubsysteminfo) -> (b: bool) {
        position(self.gone, row.device_info_id).is_some()
    }
}

impl<'a> Criterion<SubsysteminfoComponentinfo> for ScopedUnder<'a> {
    open spec fn admits(&self, row: &SubsysteminfoComponentinfo) -> bool {
        has_key(self.gone@, row.device_info_id)
    }

    fn test(&self, row: &SubsysteminfoComponentinfo) -> (b: bool) {
        position(self.gone, row.device_info_id).is_some()
    }
}

/// A filter keeps an entity table well formed.
pub proof fn lemma_entity_filter<R: Entity>(rows: Seq<R>, last: i32, p: spec_fn(R) -> bool)
    requires
        entity_wf(rows, last),
    ensures
        entity_wf(rows.filter(p), last),
{
    lemma_filter_ascending(rows, p);
    let kept = rows.filter(p);
    assert forall|i: int| 0 <= i < kept.len() implies 0 <= (#[trigger] kept[i]).interval() by {
        assert(rows.contains(kept[i]));
    }
}

/// Removing a row keeps an entity table well formed.
pub proof fn lemma_entity_removed<R: Entity>(rows: Seq<R>, last: i32, id: i32)
    requires
        entity_wf(rows, last),
    ensures
        entity_wf(removed(rows, id), last),
{
    lemma_removed_wf(rows, last, id);
    let kept = removed(rows, id);
    assert forall|i: int| 0 <= i < kept.len() implies 0 <= (#[trigger] kept[i]).interval() by {
        assert(rows.contains(kept[i]));
    }
}

/// Dropping attachments, whichever, keeps the inventory consistent.
pub proof fn lemma_links_dropped(
    t: Tables,
    after: Tables,
    p: spec_fn(DeviceinfoSubsysteminfo) -> bool,
    q: spec_fn(SubsysteminfoComponentinfo) -> bool,
)
    requires
        consistent(t),
        entity_wf(after.device_infos, t.last_device_info),
        after == (Tables {
            device_infos: after.device_infos,
            device_links: after.device_links,
            component_links: after.component_links,
            ..t
        }),
        after.device_links == t.device_links || after.device_links == t.device_links.filter(p),
        after.component_links == t.component_links || after.component_links == t.component_links.filter(q),
    ensures
        consistent(after),
{
    lemma_filter_ascending(t.device_links, p);
    lemma_filter_ascending(t.component_links, q);
    assert forall|d: i32, s: i32| #[trigger]
        hits(after.device_links, PairIs { device_info_id: d, subsystem_info_id: s }).len() <= 1 by {
        let c = PairIs { device_info_id: d, subsystem_info_id: s };
        lemma_filter_filter_len(t.device_links, p, admitted_by(c));
        assert(hits(t.device_links, c).len() <= 1);
    }
    assert forall|d: i32, s: i32, c: i32| #[trigger]
        hits(after.component_links, TripleIs { device_info_id: d, subsystem_info_id: s, component_info_id: c }).len() <= 1 by {
        let x = TripleIs { device_info_id: d, subsystem_info_id: s, component_info_id: c };
        lemma_filter_filter_len(t.component_links, q, admitted_by(x));
        assert(hits(t.component_links, x).len() <= 1);
    }
    assert forall|k: int| 0 <= k < after.component_links.len() implies (#[trigger] after.component_links[k]).quantity > 0 by {
        assert(t.component_links.contains(after.component_links[k]));
    }
}

impl MemoryStore {
    /// Drops the attachments scoped under the device templates `gone`.
    fn drop_links_under(&mut self, gone: &Vec<DeviceInfo>)
        ensures
            final(self).checkpoints() == old(self).checkpoints(),
            final(self).tables() == (Tables {
                device_links: old(self).tables().device_links.filter(orphaned_pairs(gone@)),
                component_links: old(self).tables().component_links.filter(orphaned_triples(gone@)),
                ..old(self).tables()
            }),
    {
        let under = ScopedUnder { gone };
        proof {
            lemma_filter_same(self.device_links@, rejected_by(under), orphaned_pairs(gone@));
            lemma_filter_same(self.component_links@, rejected_by(under), orphaned_triples(gone@));
        }
        let _pairs: usize = remove_where(&mut self.device_links, &under);
        let _triples: usize = remove_where(&mut self.component_links, &under);
    }
}

impl DeviceInfoStorer for MemoryStore {
    fn insert(&mut self, info: DeviceInfoInsert) -> (r: Result<i32, Error>) {
        if info.upkeep() < 0 || self.last_device_info == i32::MAX {
            return Err(Error::new(ErrorKind::StorageError));
        }
        let id: i32 = append(&mut self.device_infos, &mut self.last_device_info, &info, self.now);
        Ok(id)
    }

    fn bulk_insert(&mut self, infos: &Vec<DeviceInfoInsert>) -> (r: Result<usize, Error>) {
        if has_negative(infos) || infos.len() > (i32::MAX - self.last_device_info) as usize {
            return Err(Error::new(ErrorKind::StorageError));
        }
        append_all(&mut self.device_infos, &mut self.last_device_info, infos, self.now);
        Ok(infos.len())
    }

    fn delete(&mut self, id: i32) -> (r: Result<usize, Error>) {
        let mut gone: Vec<DeviceInfo> = Vec::new();
        match fetch(&self.device_infos, id) {
            Some(row) => {
                gone.push(row);
            },
            None => {},
        }
        proof {
            assert(gone@ =~= only(self.device_infos@, id));
            lemma_entity_removed(self.device_infos@, self.last_device_info, id);
        }
        let ghost before = self.tables();
        let n: usize = remove_key(&mut self.device_infos, id);
        self.drop_links_under(&gone);
        proof {
            lemma_links_dropped(before, self.tables(), orphaned_pairs(gone@), orphaned_triples(gone@));
        }
        Ok(n)
    }

    fn bulk_delete(&mut self, query: DeviceInfoQuery) -> (r: Result<usize, Error>) {
        let by = ExactDeviceInfo {
            name: query.name,
            model: query.model,
            maintain_interval_begin: query.maintain_interval_begin,
            maintain_interval_end: query.maintain_interval_end,
        };
        let gone: Vec<DeviceInfo> = select(&self.device_infos, &by);
        let ghost before = self.tables();
        proof {
            lemma_entity_filter(self.device_infos@, self.last_device_info, rejected_by(by));
        }
        let n: usize = remove_where(&mut self.device_infos, &by);
        self.drop_links_under(&gone);
        proof {
            lemma_links_dropped(before, self.tables(), orphaned_pairs(gone@), orphaned_triples(gone@));
        }
        Ok(n)
    }

    fn update(&mut self, id: i32, upd: DeviceInfoUpdate) -> (r: Result<usize, Error>) {
        proof {
            if upd.is_empty() {
                lemma_empty_update(self.device_infos@, id, upd, self.now);
            }
        }
        if position(&self.device_infos, id).is_none() {
            return Ok(0);
        }
        match upd.new_interval() {
            Some(v) => {
                if v < 0 {
                    return Err(Error::new(ErrorKind::StorageError));
                }
            },
            None => {},
        }
        let n: usize = amend(&mut self.device_infos, id, &upd, self.now, Ghost(self.last_device_info));
        Ok(n)
    }

    fn get(&self, id: i32) -> (r: Result<DeviceInfo, Error>) {
        match fetch(&self.device_infos, id) {
            Some(row) => Ok(row),
            None => Err(Error::new(ErrorKind::NotFound)),
        }
    }

    fn query(&self, query: &DeviceInfoQuery) -> (r: Result<(Vec<DeviceInfo>, i64), Error>) {
        proof {
            lemma_len_bound(self.device_infos@, self.last_device_info);
        }
        search(&self.device_infos, query, Some(query.page), Some(query.size))
    }

    fn query_by_subsystem_info(&self, subinfoid: i32, query: DeviceInfoQuery) -> (r: Result<(Vec<DeviceInfo>, i64), Error>) {
        let by = DeviceInfosOf {
            present: position(&self.subsystem_infos, subinfoid).is_some(),
            query: &query,
            links: &self.device_links,
            subsystem_info_id: subinfoid,
        };
        proof {
            lemma_len_bound(self.device_infos@, self.last_device_info);
            lemma_filter_same(self.device_infos@, admitted_by(by), is_device_info_of(self.tables(), subinfoid, query));
        }
        search(&self.device_infos, &by, Some(query.page), Some(query.size))
    }

    fn count(&self, query: DeviceInfoQuery) -> (r: Result<i64, Error>) {
        proof {
            lemma_len_bound(self.device_infos@, self.last_device_info);
            self.device_infos@.lemma_filter_len(admitted_by(query));
        }
        let n: usize = count(&self.device_infos, &query);
        Ok(n as i64)
    }

    fn is_exist(&self, id: i32) -> (r: Result<bool, Error>) {
        Ok(position(&self.device_infos, id).is_some())
    }

    fn detail(&self, id: i32) -> (r: Result<(DeviceInfo, Vec<(SubsystemInfo, Vec<ComponentInfo>)>), Error>) {
        let root: DeviceInfo = match fetch(&self.device_infos, id) {
            Some(row) => row,
            None => {
                return Err(Error::new(ErrorKind::NotFound));
            },
        };
        let of_root = SubsystemInfosUnder { links: &self.device_links, device_info_id: id };
        let subs: Vec<SubsystemInfo> = select(&self.subsystem_infos, &of_root);
        let ghost t = self.tables();
        proof {
            lemma_filter_same(self.subsystem_infos@, admitted_by(of_root), is_template_subsystem(t, id));
            assert(subs@ == template_subsystems(t, id));
        }
        let mut branches: Vec<(SubsystemInfo, Vec<ComponentInfo>)> = Vec::new();
        let mut i: usize = 0;
        proof {
            assert(branches_view(branches@) =~= subs@.take(0).map_values(template_branch(t, id)));
        }
        while i < subs.len()
            invariant
                i <= subs.len(),
                t == self.tables(),
                subs@ == template_subsystems(t, id),
                branches_view(branches@) == subs@.take(i as int).map_values(template_branch(t, id)),
            decreases subs.len() - i,
        {
            let sub: SubsystemInfo = subs[i].duplicate();
            let of_sub = ComponentInfosUnder { links: &self.component_links, device_info_id: id, subsystem_info_id: sub.id };
            let coms: Vec<ComponentInfo> = select(&self.component_infos, &of_sub);
            proof {
                lemma_filter_same(self.component_infos@, admitted_by(of_sub), is_template_component(t, id, sub.id));
                subs@.lemma_take_succ_push(i as int);
                subs@.take(i as int).lemma_push_map_commute(template_branch(t, id), sub);
                branches@.lemma_push_map_commute(branch_view(), (sub, coms));
            }
            branches.push((sub, coms));
            i += 1;
        }
        proof {
            subs@.lemma_take_len();
        }
        Ok((root, branches))
    }
}

/// "Passes the query and has this subsystem template attached, which is present."
pub struct DeviceInfosOf<'a> {
    pub present: bool,
    pub query: &'a DeviceInfoQuery,
    pub links: &'a Vec<DeviceinfoSubsysteminfo>,
    pub subsystem_info_id: i32,
}

impl<'a> Criterion<DeviceInfo> for DeviceInfosOf<'a> {
    open spec fn admits(&self, row: &DeviceInfo) -> bool {
        self.present && self.query.admits(row) && linked(self.links@, row.id, self.subsystem_info_id)
    }

    fn test(&self, row: &DeviceInfo) -> (b: bool) {
        self.present && self.query.test(row) && count(
            self.links,
            &PairIs { device_info_id: row.id, subsystem_info_id: self.subsystem_info_id },
        ) > 0
    }
}

/// "Is attached to this device template."
pub struct SubsystemInfosUnder<'a> {
    pub links: &'a Vec<DeviceinfoSubsysteminfo>,
    pub device_info_id: i32,
}

impl<'a> Criterion<SubsystemInfo> for SubsystemInfosUnder<'a> {
    open spec fn admits(&self, row: &SubsystemInfo) -> bool {
        linked(self.links@, self.device_info_id, row.id)
    }

    fn test(&self, row: &SubsystemInfo) -> (b: bool) {
        count(self.links, &PairIs { device_info_id: self.device_info_id, subsystem_info_id: row.id }) > 0
    }
}

/// "Is attached to this subsystem template within this device template."
pub struct ComponentInfosUnder<'a> {
    pub links: &'a Vec<SubsysteminfoComponentinfo>,
    pub device_info_id: i32,
    pub subsystem_info_id: i32,
}

impl<'a> Criterion<ComponentInfo> for ComponentInfosUnder<'a> {
    open spec fn admits(&self, row: &ComponentInfo) -> bool {
        attached(self.links@, self.device_info_id, self.subsystem_info_id, row.id)
    }

    fn test(&self, row: &ComponentInfo) -> (b: bool) {
        count(
            self.links,
            &TripleIs {
                device_info_id: self.device_info_id,
                subsystem_info_id: self.subsystem_info_id,
                component_info_id: row.id,
            },
        ) > 0
    }
}

impl SubsystemInfoStorer for MemoryStore {
    fn insert(&mut self, info: SubsystemInfoInsert) -> (r: Result<i32, Error>) {
        if info.upkeep() < 0 || self.last_subsystem_info == i32::MAX {
            return Err(Error::new(ErrorKind::StorageError));
        }
        let id: i32 = append(&mut self.subsystem_infos, &mut self.last_subsystem_info, &info, self.now);
        Ok(id)
    }

    fn bulk_insert(&mut self, infos: &Vec<SubsystemInfoInsert>) -> (r: Result<usize, Error>) {
        if has_negative(infos) || infos.len() > (i32::MAX - self.last_subsystem_info) as usize {
            return Err(Error::new(ErrorKind::StorageError));
        }
        append_all(&mut self.subsystem_infos, &mut self.last_subsystem_info, infos, self.now);
        Ok(infos.len())
    }

    fn delete(&mut self, id: i32) -> (r: Result<usize, Error>) {
        proof {
            lemma_entity_removed(self.subsystem_infos@, self.last_subsystem_info, id);
        }
        let n: usize = remove_key(&mut self.subsystem_infos, id);
        Ok(n)
    }

    fn bulk_delete(&mut self, query: SubsystemInfoQuery) -> (r: Result<usize, Error>) {
        let by = ExactSubsystemInfo {
            name: query.name,
            maintain_interval_begin: query.maintain_interval_begin,
            maintain_interval_end: query.maintain_interval_end,
        };
        proof {
            lemma_entity_filter(self.subsystem_infos@, self.last_subsystem_info, rejected_by(by));
        }
        let n: usize = remove_where(&mut self.subsystem_infos, &by);
        Ok(n)
    }

    fn update(&mut self, id: i32, upd: SubsystemInfoUpdate) -> (r: Result<usize, Error>) {
        proof {
            if upd.is_empty() {
                lemma_empty_update(self.subsystem_infos@, id, upd, self.now);
            }
        }
        if position(&self.subsystem_infos, id).is_none() {
            return Ok(0);
        }
        match upd.new_interval() {
            Some(v) => {
                if v < 0 {
                    return Err(Error::new(ErrorKind::StorageError));
                }
            },
            None => {},
        }
        let n: usize = amend(&mut self.subsystem_infos, id, &upd, self.now, Ghost(self.last_subsystem_info));
        Ok(n)
    }

    fn get(&self, id: i32) -> (r: Result<SubsystemInfo, Error>) {
        match fetch(&self.subsystem_infos, id) {
            Some(row) => Ok(row),
            None => Err(Error::new(ErrorKind::NotFound)),
        }
    }

    fn query(&self, query: &SubsystemInfoQuery) -> (r: Result<(Vec<SubsystemInfo>, i64), Error>) {
        proof {
            lemma_len_bound(self.subsystem_infos@, self.last_subsystem_info);
        }
        search(&self.subsystem_infos, query, Some(query.page), Some(query.size))
    }

    fn query_by_device_info(&self, devinfoid: i32, query: SubsystemInfoQuery) -> (r: Result<(Vec<SubsystemInfo>, i64), Error>) {
        let by = SubsystemInfosOf {
            present: position(&self.device_infos, devinfoid).is_some(),
            query: &query,
            links: &self.device_links,
            device_info_id: devinfoid,
        };
        proof {
            lemma_len_bound(self.subsystem_infos@, self.last_subsystem_info);
            lemma_filter_same(self.subsystem_infos@, admitted_by(by), is_subsystem_info_of(self.tables(), devinfoid, query));
        }
        search(&self.subsystem_infos, &by, Some(query.page), Some(query.size))
    }

    fn query_by_component_info(&self, comid: i32, query: SubsystemInfoQuery) -> (r: Result<(Vec<SubsystemInfo>, i64), Error>) {
        let by = SubsystemInfosWith {
            present: position(&self.component_infos, comid).is_some(),
            query: &query,
            links: &self.component_links,
            component_info_id: comid,
        };
        proof {
            lemma_len_bound(self.subsystem_infos@, self.last_subsystem_info);
            lemma_filter_same(self.subsystem_infos@, admitted_by(by), is_subsystem_info_with(self.tables(), comid, query));
        }
        search(&self.subsystem_infos, &by, Some(query.page), Some(query.size))
    }

    fn count(&self, query: SubsystemInfoQuery) -> (r: Result<i64, Error>) {
        proof {
            lemma_len_bound(self.subsystem_infos@, self.last_subsystem_info);
            self.subsystem_infos@.lemma_filter_len(admitted_by(query));
        }
        let n: usize = count(&self.subsystem_infos, &query);
        Ok(n as i64)
    }

    fn is_exist(&self, id: i32) -> (r: Result<bool, Error>) {
        Ok(position(&self.subsystem_infos, id).is_some())
    }
}

impl ComponentInfoStorer for MemoryStore {
    fn insert(&mut self, info: ComponentInfoInsert) -> (r: Result<i32, Error>) {
        if info.upkeep() < 0 || self.last_component_info == i32::MAX {
            return Err(Error::new(ErrorKind::StorageError));
        }
        let id: i32 = append(&mut self.component_infos, &mut self.last_component_info, &info, self.now);
        Ok(id)
    }

    fn bulk_insert(&mut self, infos: &Vec<ComponentInfoInsert>) -> (r: Result<usize, Error>) {
        if has_negative(infos) || infos.len() > (i32::MAX - self.last_component_info) as usize {
            return Err(Error::new(ErrorKind::StorageError));
        }
        append_all(&mut self.component_infos, &mut self.last_component_info, infos, self.now);
        Ok(infos.len())
    }

    fn delete(&mut self, id: i32) -> (r: Result<usize, Error>) {
        proof {
            lemma_entity_removed(self.component_infos@, self.last_component_info, id);
        }
        let n: usize = remove_key(&mut self.component_infos, id);
        Ok(n)
    }

    fn bulk_delete(&mut self, query: ComponentInfoQuery) -> (r: Result<usize, Error>) {
        let by = ExactComponentInfo {
            name: query.name,
            model: query.model,
            maintain_interval_begin: query.maintain_interval_begin,
            maintain_interval_end: query.maintain_interval_end,
        };
        proof {
            lemma_entity_filter(self.component_infos@, self.last_component_info, rejected_by(by));
        }
        let n: usize = remove_where(&mut self.component_infos, &by);
        Ok(n)
    }

    fn update(&mut self, id: i32, upd: ComponentInfoUpdate) -> (r: Result<usize, Error>) {
        proof {
            if upd.is_empty() {
                lemma_empty_update(self.component_infos@, id, upd, self.now);
            }
        }
        if position(&self.component_infos, id).is_none() {
            return Ok(0);
        }
        match upd.new_interval() {
            Some(v) => {
                if v < 0 {
                    return Err(Error::new(ErrorKind::StorageError));
                }
            },
            None => {},
        }
        let n: usize = amend(&mut self.component_infos, id, &upd, self.now, Ghost(self.last_component_info));
        Ok(n)
    }

    fn get(&self, id: i32) -> (r: Result<ComponentInfo, Error>) {
        match fetch(&self.component_infos, id) {
            Some(row) => Ok(row),
            None => Err(Error::new(ErrorKind::NotFound)),
        }
    }

    fn query(&self, query: &ComponentInfoQuery) -> (r: Result<(Vec<ComponentInfo>, i64), Error>) {
        proof {
            lemma_len_bound(self.component_infos@, self.last_component_info);
        }
        search(&self.component_infos, query, query.page, query.size)
    }

    fn query_by_subsystem_info(&self, subinfoid: i32, query: ComponentInfoQuery) -> (r: Result<(Vec<ComponentInfo>, i64), Error>) {
        let by = ComponentInfosOf {
            present: position(&self.subsystem_infos, subinfoid).is_some(),
            query: &query,
            links: &self.component_links,
            subsystem_info_id: subinfoid,
        };
        proof {
            lemma_len_bound(self.component_infos@, self.last_component_info);
            lemma_filter_same(self.component_infos@, admitted_by(by), is_component_info_of(self.tables(), subinfoid, query));
        }
        search(&self.component_infos, &by, query.page, query.size)
    }

    fn count(&self, query: ComponentInfoQuery) -> (r: Result<i64, Error>) {
        proof {
            lemma_len_bound(self.component_infos@, self.last_component_info);
            self.component_infos@.lemma_filter_len(admitted_by(query));
        }
        let n: usize = count(&self.component_infos, &query);
        Ok(n as i64)
    }

    fn is_exist(&self, id: i32) -> (r: Result<bool, Error>) {
        Ok(position(&self.component_infos, id).is_some())
    }
}

/// "Passes the query and is attached to this device template, which is present."
pub struct SubsystemInfosOf<'a> {
    pub present: bool,
    pub query: &'a SubsystemInfoQuery,
    pub links: &'a Vec<DeviceinfoSubsysteminfo>,
    pub device_info_id: i32,
}

impl<'a> Criterion<SubsystemInfo> for SubsystemInfosOf<'a> {
    open spec fn admits(&self, row: &SubsystemInfo) -> bool {
        self.present && self.query.admits(row) && linked(self.links@, self.device_info_id, row.id)
    }

    fn test(&self, row: &SubsystemInfo) -> (b: bool) {
        self.present && self.query.test(row) && count(
            self.links,
            &PairIs { device_info_id: self.device_info_id, subsystem_info_id: row.id },
        ) > 0
    }
}

/// "Passes the query and has this component template attached, which is present."
pub struct SubsystemInfosWith<'a> {
    pub present: bool,
    pub query: &'a SubsystemInfoQuery,
    pub links: &'a Vec<SubsysteminfoComponentinfo>,
    pub component_info_id: i32,
}

impl<'a> Criterion<SubsystemInfo> for SubsystemInfosWith<'a> {
    open spec fn admits(&self, row: &SubsystemInfo) -> bool {
        self.present && self.query.admits(row) && holds_component(self.links@, row.id, self.component_info_id)
    }

    fn test(&self, row: &SubsystemInfo) -> (b: bool) {
        self.present && self.query.test(row) && count(
            self.links,
            &PartIs { subsystem_info_id: row.id, component_info_id: self.component_info_id },
        ) > 0
    }
}

/// "Passes the query and is attached to this subsystem template, which is present."
pub struct ComponentInfosOf<'a> {
    pub present: bool,
    pub query: &'a ComponentInfoQuery,
    pub links: &'a Vec<SubsysteminfoComponentinfo>,
    pub subsystem_info_id: i32,
}

impl<'a> Criterion<ComponentInfo> for ComponentInfosOf<'a> {
    open spec fn admits(&self, row: &ComponentInfo) -> bool {
        self.present && self.query.admits(row) && holds_component(self.links@, self.subsystem_info_id, row.id)
    }

    fn test(&self, row: &ComponentInfo) -> (b: bool) {
        self.present && self.query.test(row) && count(
            self.links,
            &PartIs { subsystem_info_id: self.subsystem_info_id, component_info_id: row.id },
        ) > 0
    }
}

/// Adding an attachment that is not there yet keeps the inventory consistent.
proof fn lemma_pair_added(t: Tables, after: Tables, link: DeviceinfoSubsysteminfo)
    requires
        consistent(t),
        !linked(t.device_links, link.device_info_id, link.subsystem_info_id),
        link.id == t.last_device_link + 1,
        after == (Tables { device_links: t.device_links.push(link), last_device_link: link.id, ..t }),
    ensures
        consistent(after),
{
    lemma_push_wf(t.device_links, t.last_device_link, link);
    assert forall|d: i32, s: i32| #[trigger]
        hits(after.device_links, PairIs { device_info_id: d, subsystem_info_id: s }).len() <= 1 by {
        let c = PairIs { device_info_id: d, subsystem_info_id: s };
        t.device_links.lemma_filter_push(link, admitted_by(c));
        assert(hits(t.device_links, c).len() <= 1);
        if c.admits(&link) {
            assert(c == PairIs { device_info_id: link.device_info_id, subsystem_info_id: link.subsystem_info_id });
        }
    }
}

proof fn lemma_triple_added(t: Tables, after: Tables, link: SubsysteminfoComponentinfo)
    requires
        consistent(t),
        !attached(t.component_links, link.device_info_id, link.subsystem_info_id, link.component_info_id),
        link.id == t.last_component_link + 1,
        link.quantity > 0,
        after == (Tables { component_links: t.component_links.push(link), last_component_link: link.id, ..t }),
    ensures
        consistent(after),
{
    lemma_push_wf(t.component_links, t.last_component_link, link);
    assert forall|d: i32, s: i32, c: i32| #[trigger]
        hits(after.component_links, TripleIs { device_info_id: d, subsystem_info_id: s, component_info_id: c }).len() <= 1 by {
        let x = TripleIs { device_info_id: d, subsystem_info_id: s, component_info_id: c };
        t.component_links.lemma_filter_push(link, admitted_by(x));
        assert(hits(t.component_links, x).len() <= 1);
        if x.admits(&link) {
            assert(x == TripleIs {
                device_info_id: link.device_info_id,
                subsystem_info_id: link.subsystem_info_id,
                component_info_id: link.component_info_id,
            });
        }
    }
    assert forall|k: int| 0 <= k < after.component_links.len() implies (#[trigger] after.component_links[k]).quantity > 0 by {
        if k < t.component_links.len() {
            assert(t.component_links[k].quantity > 0);
        }
    }
}

impl RelationStorer for MemoryStore {
    fn insert_deviceinfo_subsysteminfo(&mut self, rel: DevinfoSubinfoInsert) -> (r: Result<usize, Error>) {
        let pair = PairIs { device_info_id: rel.device_info_id, subsystem_info_id: rel.subsystem_info_id };
        if count(&self.device_links, &pair) > 0 {
            return Err(Error::new(ErrorKind::Conflict));
        }
        if self.last_device_link == i32::MAX {
            return Err(Error::new(ErrorKind::StorageError));
        }
        let id: i32 = self.last_device_link + 1;
        let link = DeviceinfoSubsysteminfo { id, device_info_id: rel.device_info_id, subsystem_info_id: rel.subsystem_info_id };
        let ghost before = self.tables();
        self.device_links.push(link);
        self.last_device_link = id;
        proof {
            lemma_pair_added(before, self.tables(), link);
        }
        Ok(1)
    }

    fn delete_deviceinfo_subsysteminfo(&mut self, devinfo_id: i32, subinfo_id: i32) -> (r: Result<usize, Error>) {
        let pair = PairIs { device_info_id: devinfo_id, subsystem_info_id: subinfo_id };
        let ghost before = self.tables();
        let n: usize = remove_where(&mut self.device_links, &pair);
        proof {
            lemma_links_dropped(before, self.tables(), rejected_by(pair), rejected_by(pair));
        }
        Ok(n)
    }

    fn bulk_delete_deviceinfo_subsysteminfo(&mut self, devinfo_id: i32) -> (r: Result<usize, Error>) {
        let under = UnderDevice { device_info_id: devinfo_id };
        let pair = PairIs { device_info_id: devinfo_id, subsystem_info_id: 0 };
        let ghost before = self.tables();
        let n: usize = remove_where(&mut self.device_links, &under);
        proof {
            lemma_links_dropped(before, self.tables(), rejected_by(under), rejected_by(pair));
        }
        Ok(n)
    }

    fn insert_subsysteminfo_componentinfo(&mut self, rel: SubinfoCominfoInsert) -> (r: Result<usize, Error>) {
        if rel.quantity <= 0 {
            return Err(Error::new(ErrorKind::InvalidArgument));
        }
        let triple = TripleIs {
            device_info_id: rel.device_info_id,
            subsystem_info_id: rel.subsystem_info_id,
            component_info_id: rel.component_info_id,
        };
        if count(&self.component_links, &triple) > 0 {
            return Err(Error::new(ErrorKind::Conflict));
        }
        if self.last_component_link == i32::MAX {
            return Err(Error::new(ErrorKind::StorageError));
        }
        let id: i32 = self.last_component_link + 1;
        let link = SubsysteminfoComponentinfo {
            id,
            device_info_id: rel.device_info_id,
            subsystem_info_id: rel.subsystem_info_id,
            component_info_id: rel.component_info_id,
            quantity: rel.quantity,
        };
        let ghost before = self.tables();
        self.component_links.push(link);
        self.last_component_link = id;
        proof {
            lemma_triple_added(before, self.tables(), link);
        }
        Ok(1)
    }

    fn delete_subsysteminfo_componentinfo(&mut self, devinfo_id: i32, subinfo_id: i32, cominfo_id: i32) -> (r: Result<
        usize,
        Error,
    >) {
        let triple = TripleIs { device_info_id: devinfo_id, subsystem_info_id: subinfo_id, component_info_id: cominfo_id };
        let pair = PairIs { device_info_id: devinfo_id, subsystem_info_id: subinfo_id };
        let ghost before = self.tables();
        let n: usize = remove_where(&mut self.component_links, &triple);
        proof {
            lemma_links_dropped(before, self.tables(), rejected_by(pair), rejected_by(triple));
        }
        Ok(n)
    }

    fn bulk_delete_subsysteminfo_componentinfo(&mut self, devinfo_id: i32, subinfo_id: i32) -> (r: Result<usize, Error>) {
        let pair = PairIs { device_info_id: devinfo_id, subsystem_info_id: subinfo_id };
        let ghost before = self.tables();
        let n: usize = remove_where(&mut self.component_links, &pair);
        proof {
            lemma_links_dropped(before, self.tables(), rejected_by(pair), rejected_by(pair));
        }
        Ok(n)
    }
}

/// A parent that owns no row can go without leaving a row behind.
proof fn lemma_parent_removed<P: Entity, C: Owned>(parents: Seq<P>, last: i32, children: Seq<C>, id: i32)
    requires
        entity_wf(parents, last),
        children_of(children, id).len() == 0,
        forall|i: int| 0 <= i < children.len() ==> has_key(parents, (#[trigger] children[i]).owner()),
    ensures
        entity_wf(removed(parents, id), last),
        forall|i: int| 0 <= i < children.len() ==> has_key(removed(parents, id), (#[trigger] children[i]).owner()),
{
    lemma_entity_removed(parents, last, id);
    lemma_removed_wf(parents, last, id);
    assert forall|i: int| 0 <= i < children.len() implies has_key(removed(parents, id), (#[trigger] children[i]).owner()) by {
        if children[i].owner() == id {
            children.lemma_filter_contains(admitted_by(OwnedBy { owner: id }), i);
        }
    }
}

/// Whether some drafted subsystem names a device that is not there.
fn orphan_subsystem(devices: &Vec<Device>, subs: &Vec<SubsystemInsert>) -> (b: bool)
    ensures
        b == any_orphan_subsystem(devices@, subs@),
{
    let mut i: usize = 0;
    while i < subs.len()
        invariant
            i <= subs.len(),
            forall|k: int| 0 <= k < i ==> has_key(devices@, (#[trigger] subs@[k]).device_id),
        decreases subs.len() - i,
    {
        if position(devices, subs[i].device_id).is_none() {
            return true;
        }
        i += 1;
    }
    false
}

/// Whether some drafted component names a subsystem that is not there.
fn orphan_component(subsystems: &Vec<Subsystem>, coms: &Vec<ComponentInsert>) -> (b: bool)
    ensures
        b == any_orphan_component(subsystems@, coms@),
{
    let mut i: usize = 0;
    while i < coms.len()
        invariant
            i <= coms.len(),
            forall|k: int| 0 <= k < i ==> has_key(subsystems@, (#[trigger] coms@[k]).subsystem_id),
        decreases coms.len() - i,
    {
        if position(subsystems, coms[i].subsystem_id).is_none() {
            return true;
        }
        i += 1;
    }
    false
}

impl DeviceStorer for MemoryStore {
    fn insert(&mut self, info: DeviceInsert) -> (r: Result<i32, Error>) {
        if info.upkeep() < 0 || self.last_device == i32::MAX {
            return Err(Error::new(ErrorKind::StorageError));
        }
        let id: i32 = append(&mut self.devices, &mut self.last_device, &info, self.now);
        Ok(id)
    }

    fn bulk_insert(&mut self, infos: &Vec<DeviceInsert>) -> (r: Result<usize, Error>) {
        if has_negative(infos) || infos.len() > (i32::MAX - self.last_device) as usize {
            return Err(Error::new(ErrorKind::StorageError));
        }
        append_all(&mut self.devices, &mut self.last_device, infos, self.now);
        Ok(infos.len())
    }

    fn delete(&mut self, id: i32) -> (r: Result<usize, Error>) {
        if count(&self.subsystems, &OwnedBy { owner: id }) > 0 {
            return Err(Error::new(ErrorKind::StorageError));
        }
        proof {
            lemma_parent_removed(self.devices@, self.last_device, self.subsystems@, id);
        }
        let n: usize = remove_key(&mut self.devices, id);
        Ok(n)
    }

    fn update(&mut self, id: i32, upd: DeviceUpdate) -> (r: Result<usize, Error>) {
        proof {
            if upd.is_empty() {
                lemma_empty_update(self.devices@, id, upd, self.now);
            }
        }
        let n: usize = amend(&mut self.devices, id, &upd, self.now, Ghost(self.last_device));
        Ok(n)
    }

    fn get(&self, id: i32) -> (r: Result<(Device, Vec<(Subsystem, Vec<Component>)>), Error>) {
        match fetch(&self.devices, id) {
            Some(root) => Ok((root, subtree(id, &self.subsystems, &self.components))),
            None => Err(Error::new(ErrorKind::NotFound)),
        }
    }

    fn query(&self, query: &DeviceQuery) -> (r: Result<(Vec<(Device, Vec<(Subsystem, Vec<Component>)>)>, i64), Error>) {
        proof {
            lemma_len_bound(self.devices@, self.last_device);
            self.devices@.lemma_filter_len(admitted_by(*query));
        }
        let found: Vec<Device> = select(&self.devices, query);
        let total: i64 = found.len() as i64;
        match page_of(found, query.page, query.size) {
            Ok(roots) => {
                let subs: Vec<Subsystem> = owned_by_any(&self.subsystems, &roots);
                let coms: Vec<Component> = owned_by_any(&self.components, &subs);
                let forest = assemble(&roots, &subs, &coms);
                proof {
                    lemma_forest_of_loaded(forest@, roots@, self.subsystems@, self.components@);
                }
                Ok((forest, total))
            },
            Err(e) => Err(e),
        }
    }
}

impl SubsystemStorer for MemoryStore {
    fn insert(&mut self, info: SubsystemInsert) -> (r: Result<i32, Error>) {
        if info.upkeep() < 0 || position(&self.devices, info.device_id).is_none() || self.last_subsystem == i32::MAX {
            return Err(Error::new(ErrorKind::StorageError));
        }
        let id: i32 = append(&mut self.subsystems, &mut self.last_subsystem, &info, self.now);
        Ok(id)
    }

    fn bulk_insert(&mut self, infos: &Vec<SubsystemInsert>) -> (r: Result<usize, Error>) {
        if has_negative(infos) || orphan_subsystem(&self.devices, infos) || infos.len() > (i32::MAX
            - self.last_subsystem) as usize {
            return Err(Error::new(ErrorKind::StorageError));
        }
        let ghost before = self.tables();
        append_all(&mut self.subsystems, &mut self.last_subsystem, infos, self.now);
        proof {
            let added = rows_from::<Subsystem, SubsystemInsert>(infos@, before.last_subsystem, before.now);
            assert forall|i: int| 0 <= i < self.subsystems@.len() implies has_key(
                self.devices@,
                (#[trigger] self.subsystems@[i]).device_id,
            ) by {
                if i < before.subsystems.len() {
                    assert(self.subsystems@[i] == before.subsystems[i]);
                } else {
                    let k = i - before.subsystems.len();
                    assert(self.subsystems@[i] == added[k]);
                    assert(added[k].device_id == infos@[k].device_id);
                }
            }
        }
        Ok(infos.len())
    }

    fn delete(&mut self, id: i32) -> (r: Result<usize, Error>) {
        if count(&self.components, &OwnedBy { owner: id }) > 0 {
            return Err(Error::new(ErrorKind::StorageError));
        }
        proof {
            lemma_parent_removed(self.subsystems@, self.last_subsystem, self.components@, id);
            lemma_removed_wf(self.subsystems@, self.last_subsystem, id);
            let kept = removed(self.subsystems@, id);
            assert forall|i: int| 0 <= i < kept.len() implies has_key(self.devices@, (#[trigger] kept[i]).device_id) by {
                assert(self.subsystems@.contains(kept[i]));
            }
        }
        let n: usize = remove_key(&mut self.subsystems, id);
        Ok(n)
    }

    fn update(&mut self, id: i32, upd: SubsystemUpdate) -> (r: Result<usize, Error>) {
        proof {
            if upd.is_empty() {
                lemma_empty_update(self.subsystems@, id, upd, self.now);
            }
        }
        let at: usize = match position(&self.subsystems, id) {
            Some(at) => at,
            None => {
                return Ok(0);
            },
        };
        match upd.new_interval() {
            Some(v) => {
                if v < 0 {
                    return Err(Error::new(ErrorKind::StorageError));
                }
            },
            None => {},
        }
        let ghost before = self.tables();
        let n: usize = amend(&mut self.subsystems, id, &upd, self.now, Ghost(self.last_subsystem));
        proof {
            lemma_index_unique(before.subsystems, id, at as int);
            assert forall|i: int| 0 <= i < self.subsystems@.len() implies has_key(
                self.devices@,
                (#[trigger] self.subsystems@[i]).device_id,
            ) by {
                assert(self.subsystems@[i].device_id == before.subsystems[i].device_id);
            }
        }
        Ok(n)
    }

    fn get(&self, id: i32) -> (r: Result<(Device, Subsystem, Vec<Component>), Error>) {
        let sub: Subsystem = match fetch(&self.subsystems, id) {
            Some(row) => row,
            None => {
                return Err(Error::new(ErrorKind::NotFound));
            },
        };
        proof {
            assert(has_key(self.devices@, self.subsystems@[index_of(self.subsystems@, id)].device_id));
        }
        match fetch(&self.devices, sub.device_id) {
            Some(dev) => {
                let coms: Vec<Component> = select(&self.components, &OwnedBy { owner: id });
                Ok((dev, sub, coms))
            },
            None => Err(Error::new(ErrorKind::NotFound)),
        }
    }

    fn query(&self, query: &SubsystemQuery) -> (r: Result<(Vec<(Device, Subsystem, Vec<Component>)>, i64), Error>) {
        proof {
            lemma_len_bound(self.subsystems@, self.last_subsystem);
            self.subsystems@.lemma_filter_len(admitted_by(*query));
        }
        let found: Vec<Subsystem> = select(&self.subsystems, query);
        let total: i64 = found.len() as i64;
        match page_of(found, query.page, query.size) {
            Ok(part) => {
                proof {
                    lemma_found_rows_pass(self.subsystems@, *query, query.page, query.size);
                    assert forall|i: int| 0 <= i < part@.len() implies has_key(self.devices@, (#[trigger] part@[i]).owner()) by {
                        assert(self.subsystems@.contains(part@[i]));
                    }
                }
                Ok((families(&self.devices, &part, &self.components), total))
            },
            Err(e) => Err(e),
        }
    }
}

impl ComponentStorer for MemoryStore {
    fn insert(&mut self, info: ComponentInsert) -> (r: Result<i32, Error>) {
        if info.upkeep() < 0 || position(&self.subsystems, info.subsystem_id).is_none() || self.last_component == i32::MAX {
            return Err(Error::new(ErrorKind::StorageError));
        }
        let id: i32 = append(&mut self.components, &mut self.last_component, &info, self.now);
        Ok(id)
    }

    fn bulk_insert(&mut self, infos: &Vec<ComponentInsert>) -> (r: Result<usize, Error>) {
        if has_negative(infos) || orphan_component(&self.subsystems, infos) || infos.len() > (i32::MAX
            - self.last_component) as usize {
            return Err(Error::new(ErrorKind::StorageError));
        }
        let ghost before = self.tables();
        append_all(&mut self.components, &mut self.last_component, infos, self.now);
        proof {
            let added = rows_from::<Component, ComponentInsert>(infos@, before.last_component, before.now);
            assert forall|i: int| 0 <= i < self.components@.len() implies has_key(
                self.subsystems@,
                (#[trigger] self.components@[i]).subsystem_id,
            ) by {
                if i < before.components.len() {
                    assert(self.components@[i] == before.components[i]);
                } else {
                    let k = i - before.components.len();
                    assert(self.components@[i] == added[k]);
                    assert(added[k].subsystem_id == infos@[k].subsystem_id);
                }
            }
        }
        Ok(infos.len())
    }

    fn delete(&mut self, id: i32) -> (r: Result<usize, Error>) {
        proof {
            lemma_entity_removed(self.components@, self.last_component, id);
            lemma_removed_wf(self.components@, self.last_component, id);
            let kept = removed(self.components@, id);
            assert forall|i: int| 0 <= i < kept.len() implies has_key(self.subsystems@, (#[trigger] kept[i]).subsystem_id) by {
                assert(self.components@.contains(kept[i]));
            }
        }
        let n: usize = remove_key(&mut self.components, id);
        Ok(n)
    }

    fn update(&mut self, id: i32, upd: ComponentUpdate) -> (r: Result<usize, Error>) {
        proof {
            if upd.is_empty() {
                lemma_empty_update(self.components@, id, upd, self.now);
            }
        }
        let at: usize = match position(&self.components, id) {
            Some(at) => at,
            None => {
                return Ok(0);
            },
        };
        match upd.new_interval() {
            Some(v) => {
                if v < 0 {
                    return Err(Error::new(ErrorKind::StorageError));
                }
            },
            None => {},
        }
        let ghost before = self.tables();
        let n: usize = amend(&mut self.components, id, &upd, self.now, Ghost(self.last_component));
        proof {
            lemma_index_unique(before.components, id, at as int);
            assert forall|i: int| 0 <= i < self.components@.len() implies has_key(
                self.subsystems@,
                (#[trigger] self.components@[i]).subsystem_id,
            ) by {
                assert(self.components@[i].subsystem_id == before.components[i].subsystem_id);
            }
        }
        Ok(n)
    }

    fn get(&self, id: i32) -> (r: Result<(Device, Subsystem, Component), Error>) {
        let com: Component = match fetch(&self.components, id) {
            Some(row) => row,
            None => {
                return Err(Error::new(ErrorKind::NotFound));
            },
        };
        proof {
            assert(has_key(self.subsystems@, self.components@[index_of(self.components@, id)].subsystem_id));
        }
        let sub: Subsystem = match fetch(&self.subsystems, com.subsystem_id) {
            Some(row) => row,
            None => {
                return Err(Error::new(ErrorKind::NotFound));
            },
        };
        proof {
            assert(has_key(self.devices@, self.subsystems@[index_of(self.subsystems@, com.subsystem_id)].device_id));
        }
        match fetch(&self.devices, sub.device_id) {
            Some(dev) => Ok((dev, sub, com)),
            None => Err(Error::new(ErrorKind::NotFound)),
        }
    }

    fn query(&self, query: &ComponentQuery) -> (r: Result<(Vec<Component>, i64), Error>) {
        proof {
            lemma_len_bound(self.components@, self.last_component);
        }
        search(&self.components, query, query.page, query.size)
    }
}

} // verus!
