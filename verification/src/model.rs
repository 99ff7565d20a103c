//! The rows of the inventory, the values that insert, filter and update
//! them, and what each filter and each update means.

use crate::datetime::{in_period, period_holds, MyDatetime};
use crate::error::{Error, ErrorKind};
use crate::entity::{Amend, Draft, Entity};
use crate::table::{hits, lemma_found_rows_pass, paged, Criterion, Record};
use crate::text::{contains, contains_text, same_text};
use crate::tree::Owned;
use vstd::prelude::*;

verus! {

/// The operating state of a device.
#[derive(Clone, Copy, Debug, PartialEq, Eq, Structural)]
pub enum DeviceStatus {
    Running,
    Stopped,
    Breakdown,
}

/// The status that a text names, if it names one.
pub open spec fn status_named(text: Seq<char>) -> Option<DeviceStatus> {
    if text == "Running"@ {
        Some(DeviceStatus::Running)
    } else if text == "Stopped"@ {
        Some(DeviceStatus::Stopped)
    } else if text == "Breakdown"@ {
        Some(DeviceStatus::Breakdown)
    } else {
        None
    }
}

impl DeviceStatus {
    /// The name under which the status is stored and sent.
    pub fn as_text(&self) -> (text: &'static str)
        ensures
            text@ == match *self {
                DeviceStatus::Running => "Running"@,
                DeviceStatus::Stopped => "Stopped"@,
                DeviceStatus::Breakdown => "Breakdown"@,
            },
    {
        match self {
            DeviceStatus::Running => "Running",
            DeviceStatus::Stopped => "Stopped",
            DeviceStatus::Breakdown => "Breakdown",
        }
    }

    /// Reads a status from its name; any other text is refused.
    pub fn from_form_value(s: &str) -> (r: Result<DeviceStatus, Error>)
        ensures
            r is Ok <==> status_named(s@) is Some,
            r is Ok ==> Some(r->Ok_0) == status_named(s@),
            r is Err ==> r->Err_0.kind == ErrorKind::InvalidArgument,
    {
        if same_text(s, "Running") {
            Ok(DeviceStatus::Running)
        } else if same_text(s, "Stopped") {
            Ok(DeviceStatus::Stopped)
        } else if same_text(s, "Breakdown") {
            Ok(DeviceStatus::Breakdown)
        } else {
            Err(Error::new(ErrorKind::InvalidArgument))
        }
    }
}

/// `text` passes a substring filter: an absent filter passes everything.
pub open spec fn text_passes(text: Seq<char>, part: Option<String>) -> bool {
    part is Some ==> contains_text(text, part->0@)
}

/// `text` passes an exact filter: an absent filter passes everything.
pub open spec fn text_equals(text: Seq<char>, wanted: Option<String>) -> bool {
    wanted is Some ==> text == wanted->0@
}

/// `value` lies in the half-open interval `[begin, end)`, where an absent
/// bound does not bind.
pub open spec fn in_interval(value: i32, begin: Option<i32>, end: Option<i32>) -> bool {
    &&& begin is Some ==> begin->0 <= value
    &&& end is Some ==> value < end->0
}

/// Decides `text_passes`.
pub fn passes(text: &String, part: &Option<String>) -> (b: bool)
    ensures
        b == text_passes(text@, *part),
{
    match part {
        Some(p) => contains(text.as_str(), p.as_str()),
        None => true,
    }
}

/// Decides `text_equals`.
pub fn equals(text: &String, wanted: &Option<String>) -> (b: bool)
    ensures
        b == text_equals(text@, *wanted),
{
    match wanted {
        Some(p) => same_text(text.as_str(), p.as_str()),
        None => true,
    }
}

/// Decides `in_interval`.
pub fn interval_holds(value: i32, begin: &Option<i32>, end: &Option<i32>) -> (b: bool)
    ensures
        b == in_interval(value, *begin, *end),
{
    let above: bool = match begin {
        Some(v) => *v <= value,
        None => true,
    };
    let below: bool = match end {
        Some(v) => value < *v,
        None => true,
    };
    above && below
}

/// The interval filter is half-open: with both bounds given, a value passes
/// exactly if `begin <= value < end`, so the value `end` itself never passes.
pub proof fn lemma_interval_half_open(value: i32, begin: i32, end: i32)
    ensures
        in_interval(value, Some(begin), Some(end)) <==> begin <= value < end,
        !in_interval(end, Some(begin), Some(end)),
{
}

/// The interval filter holds of every row that a query for device templates
/// returns: with both bounds given, each returned row has its interval in
/// `[begin, end)`.
pub proof fn lemma_query_within_interval(rows: Seq<DeviceInfo>, query: DeviceInfoQuery, begin: i32, end: i32)
    requires
        query.maintain_interval_begin == Some(begin),
        query.maintain_interval_end == Some(end),
        query.page >= 1,
        query.size >= 1,
    ensures
        forall|i: int|
            0 <= i < paged(hits(rows, query), Some(query.page), Some(query.size)).len() ==> begin <= (#[trigger] paged(
                hits(rows, query),
                Some(query.page),
                Some(query.size),
            )[i]).maintain_interval < end,
{
    lemma_found_rows_pass(rows, query, Some(query.page), Some(query.size));
}

/// The text of an update: the new one where one is given, else the old one.
pub open spec fn patched_text(old_text: String, new_text: Option<String>) -> String {
    if new_text is Some {
        new_text->0
    } else {
        old_text
    }
}

/// Computes `patched_text`.
pub fn patch_text(old_text: &String, new_text: &Option<String>) -> (r: String)
    ensures
        r == patched_text(*old_text, *new_text),
{
    match new_text {
        Some(t) => t.clone(),
        None => old_text.clone(),
    }
}

/// The value of an update: the new one where one is given, else the old one.
pub open spec fn patched<T>(old_value: T, new_value: Option<T>) -> T {
    if new_value is Some {
        new_value->0
    } else {
        old_value
    }
}

// ---------------------------------------------------------------- device template

/// The values of a new device template.
#[derive(Clone, Debug, PartialEq, Eq)]
pub struct DeviceInfoInsert {
    pub name: String,
    pub model: String,
    pub maintain_interval: Option<i32>,
}

/// A filter on device templates with a page: texts must be contained, the
/// interval must lie in `[begin, end)`.
#[derive(Clone, Debug, PartialEq, Eq)]
pub struct DeviceInfoQuery {
    pub name: Option<String>,
    pub model: Option<String>,
    pub maintain_interval_begin: Option<i32>,
    pub maintain_interval_end: Option<i32>,
    pub page: i64,
    pub size: i64,
}

/// A device template.
#[derive(Clone, Debug, PartialEq, Eq)]
pub struct DeviceInfo {
    pub id: i32,
    pub name: String,
    pub model: String,
    pub maintain_interval: i32,
    pub create_at: MyDatetime,
    pub update_at: MyDatetime,
}

/// A partial update of a device template.
#[derive(Clone, Debug, PartialEq, Eq)]
pub struct DeviceInfoUpdate {
    pub name: Option<String>,
    pub model: Option<String>,
    pub maintain_interval: Option<i32>,
}

impl Record for DeviceInfo {
    open spec fn key(&self) -> i32 {
        self.id
    }

    fn id(&self) -> (r: i32) {
        self.id
    }

    fn duplicate(&self) -> (r: Self) {
        DeviceInfo {
            id: self.id,
            name: self.name.clone(),
            model: self.model.clone(),
            maintain_interval: self.maintain_interval,
            create_at: self.create_at,
            update_at: self.update_at,
        }
    }
}

impl Entity for DeviceInfo {
    open spec fn interval(&self) -> i32 {
        self.maintain_interval
    }
}

impl Criterion<DeviceInfo> for DeviceInfoQuery {
    open spec fn admits(&self, row: &DeviceInfo) -> bool {
        &&& text_passes(row.name@, self.name)
        &&& text_passes(row.model@, self.model)
        &&& in_interval(row.maintain_interval, self.maintain_interval_begin, self.maintain_interval_end)
    }

    fn test(&self, row: &DeviceInfo) -> (b: bool) {
        passes(&row.name, &self.name) && passes(&row.model, &self.model) && interval_holds(
            row.maintain_interval,
            &self.maintain_interval_begin,
            &self.maintain_interval_end,
        )
    }
}

/// The filter of a bulk removal: the texts must be equal, not only contained.
pub struct ExactDeviceInfo {
    pub name: Option<String>,
    pub model: Option<String>,
    pub maintain_interval_begin: Option<i32>,
    pub maintain_interval_end: Option<i32>,
}

impl Criterion<DeviceInfo> for ExactDeviceInfo {
    open spec fn admits(&self, row: &DeviceInfo) -> bool {
        &&& text_equals(row.name@, self.name)
        &&& text_equals(row.model@, self.model)
        &&& in_interval(row.maintain_interval, self.maintain_interval_begin, self.maintain_interval_end)
    }

    fn test(&self, row: &DeviceInfo) -> (b: bool) {
        equals(&row.name, &self.name) && equals(&row.model, &self.model) && interval_holds(
            row.maintain_interval,
            &self.maintain_interval_begin,
            &self.maintain_interval_end,
        )
    }
}

impl Draft<DeviceInfo> for DeviceInfoInsert {
    /// The interval of the new row: the one given, or zero.
    open spec fn interval(&self) -> i32 {
        if self.maintain_interval is Some {
            self.maintain_interval->0
        } else {
            0
        }
    }

    /// The row that this value becomes under the key `id` at the time `now`.
    open spec fn row(&self, id: i32, now: MyDatetime) -> DeviceInfo {
        DeviceInfo { id, name: self.name, model: self.model, maintain_interval: self.interval(), create_at: now, update_at: now }
    }

    fn to_row(&self, id: i32, now: MyDatetime) -> (r: DeviceInfo) {
        let interval: i32 = match self.maintain_interval {
            Some(v) => v,
            None => 0,
        };
        DeviceInfo { id, name: self.name.clone(), model: self.model.clone(), maintain_interval: interval, create_at: now, update_at: now }
    }

    fn upkeep(&self) -> (v: i32) {
        match self.maintain_interval {
            Some(v) => v,
            None => 0,
        }
    }

    proof fn lemma_row(&self, id: i32, now: MyDatetime) {
    }
}

impl Amend<DeviceInfo> for DeviceInfoUpdate {
    /// No field is given.
    open spec fn is_empty(&self) -> bool {
        self.name is None && self.model is None && self.maintain_interval is None
    }

    /// The interval that the update would set, if it sets one.
    open spec fn interval(&self) -> Option<i32> {
        self.maintain_interval
    }

    /// The row after the update: given fields replaced, the others kept. The
    /// time of the last update moves only if a field is given.
    open spec fn applied(&self, row: DeviceInfo, now: MyDatetime) -> DeviceInfo {
        DeviceInfo {
            id: row.id,
            name: patched_text(row.name, self.name),
            model: patched_text(row.model, self.model),
            maintain_interval: patched(row.maintain_interval, self.maintain_interval),
            create_at: row.create_at,
            update_at: if self.is_empty() {
                row.update_at
            } else {
                now
            },
        }
    }

    fn apply(&self, row: &DeviceInfo, now: MyDatetime) -> (r: DeviceInfo) {
        let empty: bool = self.name.is_none() && self.model.is_none() && self.maintain_interval.is_none();
        DeviceInfo {
            id: row.id,
            name: patch_text(&row.name, &self.name),
            model: patch_text(&row.model, &self.model),
            maintain_interval: match self.maintain_interval {
                Some(v) => v,
                None => row.maintain_interval,
            },
            create_at: row.create_at,
            update_at: if empty {
                row.update_at
            } else {
                now
            },
        }
    }

    fn new_interval(&self) -> (v: Option<i32>) {
        self.maintain_interval
    }

    proof fn lemma_applied(&self, row: DeviceInfo, now: MyDatetime) {
    }
}

// ---------------------------------------------------------------- subsystem template

/// The values of a new subsystem template.
#[derive(Clone, Debug, PartialEq, Eq)]
pub struct SubsystemInfoInsert {
    pub name: String,
    pub maintain_interval: i32,
}

/// A filter on subsystem templates with a page.
#[derive(Clone, Debug, PartialEq, Eq)]
pub struct SubsystemInfoQuery {
    pub name: Option<String>,
    pub maintain_interval_begin: Option<i32>,
    pub maintain_interval_end: Option<i32>,
    pub page: i64,
    pub size: i64,
}

/// A partial update of a subsystem template.
#[derive(Clone, Debug, PartialEq, Eq)]
pub struct SubsystemInfoUpdate {
    pub name: Option<String>,
    pub maintain_interval: Option<i32>,
}

/// A subsystem template.
#[derive(Clone, Debug, PartialEq, Eq)]
pub struct SubsystemInfo {
    pub id: i32,
    pub name: String,
    pub maintain_interval: i32,
    pub create_at: MyDatetime,
    pub update_at: MyDatetime,
}

impl Record for SubsystemInfo {
    open spec fn key(&self) -> i32 {
        self.id
    }

    fn id(&self) -> (r: i32) {
        self.id
    }

    fn duplicate(&self) -> (r: Self) {
        SubsystemInfo {
            id: self.id,
            name: self.name.clone(),
            maintain_interval: self.maintain_interval,
            create_at: self.create_at,
            update_at: self.update_at,
        }
    }
}

impl Entity for SubsystemInfo {
    open spec fn interval(&self) -> i32 {
        self.maintain_interval
    }
}

impl Criterion<SubsystemInfo> for SubsystemInfoQuery {
    open spec fn admits(&self, row: &SubsystemInfo) -> bool {
        &&& text_passes(row.name@, self.name)
        &&& in_interval(row.maintain_interval, self.maintain_interval_begin, self.maintain_interval_end)
    }

    fn test(&self, row: &SubsystemInfo) -> (b: bool) {
        passes(&row.name, &self.name) && interval_holds(
            row.maintain_interval,
            &self.maintain_interval_begin,
            &self.maintain_interval_end,
        )
    }
}

/// The filter of a bulk removal: the name must be equal, not only contained.
pub struct ExactSubsystemInfo {
    pub name: Option<String>,
    pub maintain_interval_begin: Option<i32>,
    pub maintain_interval_end: Option<i32>,
}

impl Criterion<SubsystemInfo> for ExactSubsystemInfo {
    open spec fn admits(&self, row: &SubsystemInfo) -> bool {
        &&& text_equals(row.name@, self.name)
        &&& in_interval(row.maintain_interval, self.maintain_interval_begin, self.maintain_interval_end)
    }

    fn test(&self, row: &SubsystemInfo) -> (b: bool) {
        equals(&row.name, &self.name) && interval_holds(
            row.maintain_interval,
            &self.maintain_interval_begin,
            &self.maintain_interval_end,
        )
    }
}

impl Draft<SubsystemInfo> for SubsystemInfoInsert {
    open spec fn interval(&self) -> i32 {
        self.maintain_interval
    }

    /// The row that this value becomes under the key `id` at the time `now`.
    open spec fn row(&self, id: i32, now: MyDatetime) -> SubsystemInfo {
        SubsystemInfo { id, name: self.name, maintain_interval: self.maintain_interval, create_at: now, update_at: now }
    }

    fn to_row(&self, id: i32, now: MyDatetime) -> (r: SubsystemInfo) {
        SubsystemInfo { id, name: self.name.clone(), maintain_interval: self.maintain_interval, create_at: now, update_at: now }
    }

    fn upkeep(&self) -> (v: i32) {
        self.maintain_interval
    }

    proof fn lemma_row(&self, id: i32, now: MyDatetime) {
    }
}

impl Amend<SubsystemInfo> for SubsystemInfoUpdate {
    open spec fn is_empty(&self) -> bool {
        self.name is None && self.maintain_interval is None
    }

    open spec fn interval(&self) -> Option<i32> {
        self.maintain_interval
    }

    /// The row after the update: given fields replaced, the others kept.
    open spec fn applied(&self, row: SubsystemInfo, now: MyDatetime) -> SubsystemInfo {
        SubsystemInfo {
            id: row.id,
            name: patched_text(row.name, self.name),
            maintain_interval: patched(row.maintain_interval, self.maintain_interval),
            create_at: row.create_at,
            update_at: if self.is_empty() {
                row.update_at
            } else {
                now
            },
        }
    }

    fn apply(&self, row: &SubsystemInfo, now: MyDatetime) -> (r: SubsystemInfo) {
        let empty: bool = self.name.is_none() && self.maintain_interval.is_none();
        SubsystemInfo {
            id: row.id,
            name: patch_text(&row.name, &self.name),
            maintain_interval: match self.maintain_interval {
                Some(v) => v,
                None => row.maintain_interval,
            },
            create_at: row.create_at,
            update_at: if empty {
                row.update_at
            } else {
                now
            },
        }
    }

    fn new_interval(&self) -> (v: Option<i32>) {
        self.maintain_interval
    }

    proof fn lemma_applied(&self, row: SubsystemInfo, now: MyDatetime) {
    }
}

// ---------------------------------------------------------------- component template

/// A component template.
#[derive(Clone, Debug, PartialEq, Eq)]
pub struct ComponentInfo {
    pub id: i32,
    pub name: String,
    pub model: String,
    pub maintain_interval: i32,
    pub create_at: MyDatetime,
    pub update_at: MyDatetime,
}

/// The values of a new component template.
#[derive(Clone, Debug, PartialEq, Eq)]
pub struct ComponentInfoInsert {
    pub name: String,
    pub model: String,
    pub maintain_interval: i32,
}

/// A partial update of a component template.
#[derive(Clone, Debug, PartialEq, Eq)]
pub struct ComponentInfoUpdate {
    pub name: Option<String>,
    pub model: Option<String>,
    pub maintain_interval: Option<i32>,
}

/// A filter on component templates, with a page where both page and size are given.
#[derive(Clone, Debug, PartialEq, Eq)]
pub struct ComponentInfoQuery {
    pub name: Option<String>,
    pub model: Option<String>,
    pub maintain_interval_begin: Option<i32>,
    pub maintain_interval_end: Option<i32>,
    pub page: Option<i64>,
    pub size: Option<i64>,
}

impl Record for ComponentInfo {
    open spec fn key(&self) -> i32 {
        self.id
    }

    fn id(&self) -> (r: i32) {
        self.id
    }

    fn duplicate(&self) -> (r: Self) {
        ComponentInfo {
            id: self.id,
            name: self.name.clone(),
            model: self.model.clone(),
            maintain_interval: self.maintain_interval,
            create_at: self.create_at,
            update_at: self.update_at,
        }
    }
}

impl Entity for ComponentInfo {
    open spec fn interval(&self) -> i32 {
        self.maintain_interval
    }
}

impl Criterion<ComponentInfo> for ComponentInfoQuery {
    open spec fn admits(&self, row: &ComponentInfo) -> bool {
        &&& text_passes(row.name@, self.name)
        &&& text_passes(row.model@, self.model)
        &&& in_interval(row.maintain_interval, self.maintain_interval_begin, self.maintain_interval_end)
    }

    fn test(&self, row: &ComponentInfo) -> (b: bool) {
        passes(&row.name, &self.name) && passes(&row.model, &self.model) && interval_holds(
            row.maintain_interval,
            &self.maintain_interval_begin,
            &self.maintain_interval_end,
        )
    }
}

/// The filter of a bulk removal: the texts must be equal, not only contained.
pub struct ExactComponentInfo {
    pub name: Option<String>,
    pub model: Option<String>,
    pub maintain_interval_begin: Option<i32>,
    pub maintain_interval_end: Option<i32>,
}

impl Criterion<ComponentInfo> for ExactComponentInfo {
    open spec fn admits(&self, row: &ComponentInfo) -> bool {
        &&& text_equals(row.name@, self.name)
        &&& text_equals(row.model@, self.model)
        &&& in_interval(row.maintain_interval, self.maintain_interval_begin, self.maintain_interval_end)
    }

    fn test(&self, row: &ComponentInfo) -> (b: bool) {
        equals(&row.name, &self.name) && equals(&row.model, &self.model) && interval_holds(
            row.maintain_interval,
            &self.maintain_interval_begin,
            &self.maintain_interval_end,
        )
    }
}

impl Draft<ComponentInfo> for ComponentInfoInsert {
    open spec fn interval(&self) -> i32 {
        self.maintain_interval
    }

    /// The row that this value becomes under the key `id` at the time `now`.
    open spec fn row(&self, id: i32, now: MyDatetime) -> ComponentInfo {
        ComponentInfo { id, name: self.name, model: self.model, maintain_interval: self.maintain_interval, create_at: now, update_at: now }
    }

    fn to_row(&self, id: i32, now: MyDatetime) -> (r: ComponentInfo) {
        ComponentInfo {
            id,
            name: self.name.clone(),
            model: self.model.clone(),
            maintain_interval: self.maintain_interval,
            create_at: now,
            update_at: now,
        }
    }

    fn upkeep(&self) -> (v: i32) {
        self.maintain_interval
    }

    proof fn lemma_row(&self, id: i32, now: MyDatetime) {
    }
}

impl Amend<ComponentInfo> for ComponentInfoUpdate {
    open spec fn is_empty(&self) -> bool {
        self.name is None && self.model is None && self.maintain_interval is None
    }

    open spec fn interval(&self) -> Option<i32> {
        self.maintain_interval
    }

    /// The row after the update: given fields replaced, the others kept.
    open spec fn applied(&self, row: ComponentInfo, now: MyDatetime) -> ComponentInfo {
        ComponentInfo {
            id: row.id,
            name: patched_text(row.name, self.name),
            model: patched_text(row.model, self.model),
            maintain_interval: patched(row.maintain_interval, self.maintain_interval),
            create_at: row.create_at,
            update_at: if self.is_empty() {
                row.update_at
            } else {
                now
            },
        }
    }

    fn apply(&self, row: &ComponentInfo, now: MyDatetime) -> (r: ComponentInfo) {
        let empty: bool = self.name.is_none() && self.model.is_none() && self.maintain_interval.is_none();
        ComponentInfo {
            id: row.id,
            name: patch_text(&row.name, &self.name),
            model: patch_text(&row.model, &self.model),
            maintain_interval: match self.maintain_interval {
                Some(v) => v,
                None => row.maintain_interval,
            },
            create_at: row.create_at,
            update_at: if empty {
                row.update_at
            } else {
                now
            },
        }
    }

    fn new_interval(&self) -> (v: Option<i32>) {
        self.maintain_interval
    }

    proof fn lemma_applied(&self, row: ComponentInfo, now: MyDatetime) {
    }
}

// ---------------------------------------------------------------- device

/// The values of a new device.
#[derive(Clone, Debug, PartialEq, Eq)]
pub struct DeviceInsert {
    pub name: String,
    pub model: String,
    pub maintain_interval: i32,
    pub unicode: String,
    pub last_start_at: Option<MyDatetime>,
    pub last_stop_at: Option<MyDatetime>,
    pub total_duration: i32,
    pub status: DeviceStatus,
}

/// A device: a deployed unit with its serial (`unicode`), its timers and its state.
#[derive(Clone, Debug, PartialEq, Eq)]
pub struct Device {
    pub id: i32,
    pub name: String,
    pub model: String,
    pub maintain_interval: i32,
    pub unicode: String,
    pub last_start_at: Option<MyDatetime>,
    pub last_stop_at: Option<MyDatetime>,
    pub total_duration: i32,
    pub status: DeviceStatus,
    pub create_at: MyDatetime,
    pub update_at: MyDatetime,
}

/// A filter on devices, with a page where both page and size are given.
#[derive(Clone, Debug, PartialEq, Eq)]
pub struct DeviceQuery {
    pub name: Option<String>,
    pub model: Option<String>,
    pub maintain_interval_begin: Option<i32>,
    pub maintain_interval_end: Option<i32>,
    pub last_start_at_begin: Option<MyDatetime>,
    pub last_start_at_end: Option<MyDatetime>,
    pub last_stop_at_begin: Option<MyDatetime>,
    pub last_stop_at_end: Option<MyDatetime>,
    pub total_duration_begin: Option<i32>,
    pub total_duration_end: Option<i32>,
    pub status: Option<DeviceStatus>,
    pub page: Option<i64>,
    pub size: Option<i64>,
}

/// A partial update of a device.
#[derive(Clone, Debug, PartialEq, Eq)]
pub struct DeviceUpdate {
    pub name: Option<String>,
    pub model: Option<String>,
    pub unicode: Option<String>,
    pub last_start_at: Option<MyDatetime>,
    pub last_stop_at: Option<MyDatetime>,
    pub total_duration: Option<i32>,
    pub status: Option<DeviceStatus>,
}

impl Record for Device {
    open spec fn key(&self) -> i32 {
        self.id
    }

    fn id(&self) -> (r: i32) {
        self.id
    }

    fn duplicate(&self) -> (r: Self) {
        Device {
            id: self.id,
            name: self.name.clone(),
            model: self.model.clone(),
            maintain_interval: self.maintain_interval,
            unicode: self.unicode.clone(),
            last_start_at: self.last_start_at,
            last_stop_at: self.last_stop_at,
            total_duration: self.total_duration,
            status: self.status,
            create_at: self.create_at,
            update_at: self.update_at,
        }
    }
}

impl Entity for Device {
    open spec fn interval(&self) -> i32 {
        self.maintain_interval
    }
}

/// A status passes a status filter: an absent filter passes everything.
pub open spec fn status_passes(status: DeviceStatus, wanted: Option<DeviceStatus>) -> bool {
    wanted is Some ==> status == wanted->0
}

/// Decides `status_passes`.
pub fn status_holds(status: DeviceStatus, wanted: &Option<DeviceStatus>) -> (b: bool)
    ensures
        b == status_passes(status, *wanted),
{
    match wanted {
        Some(w) => status == *w,
        None => true,
    }
}

impl Criterion<Device> for DeviceQuery {
    open spec fn admits(&self, row: &Device) -> bool {
        &&& text_passes(row.name@, self.name)
        &&& text_passes(row.model@, self.model)
        &&& in_interval(row.maintain_interval, self.maintain_interval_begin, self.maintain_interval_end)
        &&& in_period(row.last_start_at, self.last_start_at_begin, self.last_start_at_end)
        &&& in_period(row.last_stop_at, self.last_stop_at_begin, self.last_stop_at_end)
        &&& in_interval(row.total_duration, self.total_duration_begin, self.total_duration_end)
        &&& status_passes(row.status, self.status)
    }

    fn test(&self, row: &Device) -> (b: bool) {
        passes(&row.name, &self.name) && passes(&row.model, &self.model) && interval_holds(
            row.maintain_interval,
            &self.maintain_interval_begin,
            &self.maintain_interval_end,
        ) && period_holds(&row.last_start_at, &self.last_start_at_begin, &self.last_start_at_end) && period_holds(
            &row.last_stop_at,
            &self.last_stop_at_begin,
            &self.last_stop_at_end,
        ) && interval_holds(row.total_duration, &self.total_duration_begin, &self.total_duration_end) && status_holds(
            row.status,
            &self.status,
        )
    }
}

impl Draft<Device> for DeviceInsert {
    open spec fn interval(&self) -> i32 {
        self.maintain_interval
    }

    /// The row that this value becomes under the key `id` at the time `now`.
    open spec fn row(&self, id: i32, now: MyDatetime) -> Device {
        Device {
            id,
            name: self.name,
            model: self.model,
            maintain_interval: self.maintain_interval,
            unicode: self.unicode,
            last_start_at: self.last_start_at,
            last_stop_at: self.last_stop_at,
            total_duration: self.total_duration,
            status: self.status,
            create_at: now,
            update_at: now,
        }
    }

    fn to_row(&self, id: i32, now: MyDatetime) -> (r: Device) {
        Device {
            id,
            name: self.name.clone(),
            model: self.model.clone(),
            maintain_interval: self.maintain_interval,
            unicode: self.unicode.clone(),
            last_start_at: self.last_start_at,
            last_stop_at: self.last_stop_at,
            total_duration: self.total_duration,
            status: self.status,
            create_at: now,
            update_at: now,
        }
    }

    fn upkeep(&self) -> (v: i32) {
        self.maintain_interval
    }

    proof fn lemma_row(&self, id: i32, now: MyDatetime) {
    }
}

impl Amend<Device> for DeviceUpdate {
    open spec fn is_empty(&self) -> bool {
        &&& self.name is None
        &&& self.model is None
        &&& self.unicode is None
        &&& self.last_start_at is None
        &&& self.last_stop_at is None
        &&& self.total_duration is None
        &&& self.status is None
    }

    /// A device update never sets the maintenance interval.
    open spec fn interval(&self) -> Option<i32> {
        None
    }

    /// The row after the update: given fields replaced, the others kept.
    open spec fn applied(&self, row: Device, now: MyDatetime) -> Device {
        Device {
            id: row.id,
            name: patched_text(row.name, self.name),
            model: patched_text(row.model, self.model),
            maintain_interval: row.maintain_interval,
            unicode: patched_text(row.unicode, self.unicode),
            last_start_at: if self.last_start_at is Some {
                self.last_start_at
            } else {
                row.last_start_at
            },
            last_stop_at: if self.last_stop_at is Some {
                self.last_stop_at
            } else {
                row.last_stop_at
            },
            total_duration: patched(row.total_duration, self.total_duration),
            status: patched(row.status, self.status),
            create_at: row.create_at,
            update_at: if self.is_empty() {
                row.update_at
            } else {
                now
            },
        }
    }

    fn apply(&self, row: &Device, now: MyDatetime) -> (r: Device) {
        let empty: bool = self.name.is_none() && self.model.is_none() && self.unicode.is_none() && self.last_start_at.is_none()
            && self.last_stop_at.is_none() && self.total_duration.is_none() && self.status.is_none();
        Device {
            id: row.id,
            name: patch_text(&row.name, &self.name),
            model: patch_text(&row.model, &self.model),
            maintain_interval: row.maintain_interval,
            unicode: patch_text(&row.unicode, &self.unicode),
            last_start_at: match self.last_start_at {
                Some(t) => Some(t),
                None => row.last_start_at,
            },
            last_stop_at: match self.last_stop_at {
                Some(t) => Some(t),
                None => row.last_stop_at,
            },
            total_duration: match self.total_duration {
                Some(v) => v,
                None => row.total_duration,
            },
            status: match self.status {
                Some(v) => v,
                None => row.status,
            },
            create_at: row.create_at,
            update_at: if empty {
                row.update_at
            } else {
                now
            },
        }
    }

    fn new_interval(&self) -> (v: Option<i32>) {
        None
    }

    proof fn lemma_applied(&self, row: Device, now: MyDatetime) {
    }
}

// ---------------------------------------------------------------- subsystem

/// The values of a new subsystem of the device `device_id`.
#[derive(Clone, Debug, PartialEq, Eq)]
pub struct SubsystemInsert {
    pub device_id: i32,
    pub name: String,
    pub maintain_interval: i32,
}

/// A partial update of a subsystem.
#[derive(Clone, Debug, PartialEq, Eq)]
pub struct SubsystemUpdate {
    pub name: Option<String>,
    pub maintain_interval: Option<i32>,
}

/// A filter on subsystems, with a page where both page and size are given.
#[derive(Clone, Debug, PartialEq, Eq)]
pub struct SubsystemQuery {
    pub subsystem_name: Option<String>,
    pub maintain_interval_begin: Option<i32>,
    pub maintain_interval_end: Option<i32>,
    pub page: Option<i64>,
    pub size: Option<i64>,
}

/// A subsystem of one device.
#[derive(Clone, Debug, PartialEq, Eq)]
pub struct Subsystem {
    pub id: i32,
    pub device_id: i32,
    pub name: String,
    pub maintain_interval: i32,
    pub create_at: MyDatetime,
    pub update_at: MyDatetime,
}

impl Record for Subsystem {
    open spec fn key(&self) -> i32 {
        self.id
    }

    fn id(&self) -> (r: i32) {
        self.id
    }

    fn duplicate(&self) -> (r: Self) {
        Subsystem {
            id: self.id,
            device_id: self.device_id,
            name: self.name.clone(),
            maintain_interval: self.maintain_interval,
            create_at: self.create_at,
            update_at: self.update_at,
        }
    }
}

impl Entity for Subsystem {
    open spec fn interval(&self) -> i32 {
        self.maintain_interval
    }
}

impl Owned for Subsystem {
    open spec fn owner(&self) -> i32 {
        self.device_id
    }

    fn owner_id(&self) -> (r: i32) {
        self.device_id
    }
}

impl Criterion<Subsystem> for SubsystemQuery {
    open spec fn admits(&self, row: &Subsystem) -> bool {
        &&& text_passes(row.name@, self.subsystem_name)
        &&& in_interval(row.maintain_interval, self.maintain_interval_begin, self.maintain_interval_end)
    }

    fn test(&self, row: &Subsystem) -> (b: bool) {
        passes(&row.name, &self.subsystem_name) && interval_holds(
            row.maintain_interval,
            &self.maintain_interval_begin,
            &self.maintain_interval_end,
        )
    }
}

impl Draft<Subsystem> for SubsystemInsert {
    open spec fn interval(&self) -> i32 {
        self.maintain_interval
    }

    /// The row that this value becomes under the key `id` at the time `now`.
    open spec fn row(&self, id: i32, now: MyDatetime) -> Subsystem {
        Subsystem {
            id,
            device_id: self.device_id,
            name: self.name,
            maintain_interval: self.maintain_interval,
            create_at: now,
            update_at: now,
        }
    }

    fn to_row(&self, id: i32, now: MyDatetime) -> (r: Subsystem) {
        Subsystem {
            id,
            device_id: self.device_id,
            name: self.name.clone(),
            maintain_interval: self.maintain_interval,
            create_at: now,
            update_at: now,
        }
    }

    fn upkeep(&self) -> (v: i32) {
        self.maintain_interval
    }

    proof fn lemma_row(&self, id: i32, now: MyDatetime) {
    }
}

impl Amend<Subsystem> for SubsystemUpdate {
    open spec fn is_empty(&self) -> bool {
        self.name is None && self.maintain_interval is None
    }

    open spec fn interval(&self) -> Option<i32> {
        self.maintain_interval
    }

    /// The row after the update: given fields replaced, the others kept.
    open spec fn applied(&self, row: Subsystem, now: MyDatetime) -> Subsystem {
        Subsystem {
            id: row.id,
            device_id: row.device_id,
            name: patched_text(row.name, self.name),
            maintain_interval: patched(row.maintain_interval, self.maintain_interval),
            create_at: row.create_at,
            update_at: if self.is_empty() {
                row.update_at
            } else {
                now
            },
        }
    }

    fn apply(&self, row: &Subsystem, now: MyDatetime) -> (r: Subsystem) {
        let empty: bool = self.name.is_none() && self.maintain_interval.is_none();
        Subsystem {
            id: row.id,
            device_id: row.device_id,
            name: patch_text(&row.name, &self.name),
            maintain_interval: match self.maintain_interval {
                Some(v) => v,
                None => row.maintain_interval,
            },
            create_at: row.create_at,
            update_at: if empty {
                row.update_at
            } else {
                now
            },
        }
    }

    fn new_interval(&self) -> (v: Option<i32>) {
        self.maintain_interval
    }

    proof fn lemma_applied(&self, row: Subsystem, now: MyDatetime) {
    }
}

// ---------------------------------------------------------------- component

/// A component of one subsystem.
#[derive(Clone, Debug, PartialEq, Eq)]
pub struct Component {
    pub id: i32,
    pub subsystem_id: i32,
    pub name: String,
    pub model: String,
    pub maintain_interval: i32,
    pub create_at: MyDatetime,
    pub update_at: MyDatetime,
}

/// The values of a new component of the subsystem `subsystem_id`.
#[derive(Clone, Debug, PartialEq, Eq)]
pub struct ComponentInsert {
    pub subsystem_id: i32,
    pub name: String,
    pub model: String,
    pub maintain_interval: i32,
}

/// A filter on components, with a page where both page and size are given.
#[derive(Clone, Debug, PartialEq, Eq)]
pub struct ComponentQuery {
    pub name: Option<String>,
    pub model: Option<String>,
    pub maintain_interval_begin: Option<i32>,
    pub maintain_interval_end: Option<i32>,
    pub page: Option<i64>,
    pub size: Option<i64>,
}

/// A partial update of a component.
#[derive(Clone, Debug, PartialEq, Eq)]
pub struct ComponentUpdate {
    pub name: Option<String>,
    pub model: Option<String>,
    pub maintain_interval: Option<i32>,
}

impl Record for Component {
    open spec fn key(&self) -> i32 {
        self.id
    }

    fn id(&self) -> (r: i32) {
        self.id
    }

    fn duplicate(&self) -> (r: Self) {
        Component {
            id: self.id,
            subsystem_id: self.subsystem_id,
            name: self.name.clone(),
            model: self.model.clone(),
            maintain_interval: self.maintain_interval,
            create_at: self.create_at,
            update_at: self.update_at,
        }
    }
}

impl Entity for Component {
    open spec fn interval(&self) -> i32 {
        self.maintain_interval
    }
}

impl Owned for Component {
    open spec fn owner(&self) -> i32 {
        self.subsystem_id
    }

    fn owner_id(&self) -> (r: i32) {
        self.subsystem_id
    }
}

impl Criterion<Component> for ComponentQuery {
    open spec fn admits(&self, row: &Component) -> bool {
        &&& text_passes(row.name@, self.name)
        &&& text_passes(row.model@, self.model)
        &&& in_interval(row.maintain_interval, self.maintain_interval_begin, self.maintain_interval_end)
    }

    fn test(&self, row: &Component) -> (b: bool) {
        passes(&row.name, &self.name) && passes(&row.model, &self.model) && interval_holds(
            row.maintain_interval,
            &self.maintain_interval_begin,
            &self.maintain_interval_end,
        )
    }
}

impl Draft<Component> for ComponentInsert {
    open spec fn interval(&self) -> i32 {
        self.maintain_interval
    }

    /// The row that this value becomes under the key `id` at the time `now`.
    open spec fn row(&self, id: i32, now: MyDatetime) -> Component {
        Component {
            id,
            subsystem_id: self.subsystem_id,
            name: self.name,
            model: self.model,
            maintain_interval: self.maintain_interval,
            create_at: now,
            update_at: now,
        }
    }

    fn to_row(&self, id: i32, now: MyDatetime) -> (r: Component) {
        Component {
            id,
            subsystem_id: self.subsystem_id,
            name: self.name.clone(),
            model: self.model.clone(),
            maintain_interval: self.maintain_interval,
            create_at: now,
            update_at: now,
        }
    }

    fn upkeep(&self) -> (v: i32) {
        self.maintain_interval
    }

    proof fn lemma_row(&self, id: i32, now: MyDatetime) {
    }
}

impl Amend<Component> for ComponentUpdate {
    open spec fn is_empty(&self) -> bool {
        self.name is None && self.model is None && self.maintain_interval is None
    }

    open spec fn interval(&self) -> Option<i32> {
        self.maintain_interval
    }

    /// The row after the update: given fields replaced, the others kept.
    open spec fn applied(&self, row: Component, now: MyDatetime) -> Component {
        Component {
            id: row.id,
            subsystem_id: row.subsystem_id,
            name: patched_text(row.name, self.name),
            model: patched_text(row.model, self.model),
            maintain_interval: patched(row.maintain_interval, self.maintain_interval),
            create_at: row.create_at,
            update_at: if self.is_empty() {
                row.update_at
            } else {
                now
            },
        }
    }

    fn apply(&self, row: &Component, now: MyDatetime) -> (r: Component) {
        let empty: bool = self.name.is_none() && self.model.is_none() && self.maintain_interval.is_none();
        Component {
            id: row.id,
            subsystem_id: row.subsystem_id,
            name: patch_text(&row.name, &self.name),
            model: patch_text(&row.model, &self.model),
            maintain_interval: match self.maintain_interval {
                Some(v) => v,
                None => row.maintain_interval,
            },
            create_at: row.create_at,
            update_at: if empty {
                row.update_at
            } else {
                now
            },
        }
    }

    fn new_interval(&self) -> (v: Option<i32>) {
        self.maintain_interval
    }

    proof fn lemma_applied(&self, row: Component, now: MyDatetime) {
    }
}

// ---------------------------------------------------------------- attachments

/// A subsystem template attached to a device template.
#[derive(Clone, Copy, Debug, PartialEq, Eq, Structural)]
pub struct DeviceinfoSubsysteminfo {
    pub id: i32,
    pub device_info_id: i32,
    pub subsystem_info_id: i32,
}

/// The pair to attach: a subsystem template to a device template.
#[derive(Clone, Copy, Debug, PartialEq, Eq, Structural)]
pub struct DevinfoSubinfoInsert {
    pub device_info_id: i32,
    pub subsystem_info_id: i32,
}

/// A component template attached, in some quantity, to a subsystem template
/// within one device template.
#[derive(Clone, Copy, Debug, PartialEq, Eq, Structural)]
pub struct SubsysteminfoComponentinfo {
    pub id: i32,
    pub device_info_id: i32,
    pub subsystem_info_id: i32,
    pub component_info_id: i32,
    pub quantity: i32,
}

/// The triple to attach, with its quantity.
#[derive(Clone, Copy, Debug, PartialEq, Eq, Structural)]
pub struct SubinfoCominfoInsert {
    pub device_info_id: i32,
    pub subsystem_info_id: i32,
    pub component_info_id: i32,
    pub quantity: i32,
}

impl Record for DeviceinfoSubsysteminfo {
    open spec fn key(&self) -> i32 {
        self.id
    }

    fn id(&self) -> (r: i32) {
        self.id
    }

    fn duplicate(&self) -> (r: Self) {
        *self
    }
}

impl Record for SubsysteminfoComponentinfo {
    open spec fn key(&self) -> i32 {
        self.id
    }

    fn id(&self) -> (r: i32) {
        self.id
    }

    fn duplicate(&self) -> (r: Self) {
        *self
    }
}

} // verus!
