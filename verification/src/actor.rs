//! Backend actor: the one place where requests meet the hardware provider.
//!
//! The actor owns the cache and decides, one request at a time, what the
//! provider has to do and what the caller is told. It never talks to the
//! provider itself. For each request `provider_call` names the one call the
//! request needs, the owner of the provider handle makes that call, and
//! `handle_request` takes what came back, brings the cache up to date and
//! forms the response. Because one actor handles one request after the
//! other, no reader ever sees a cache half rebuilt.

use crate::cache::{
    flat_hardware, flat_sensors, hardware_ids, last_index_of, lemma_last_index_of, resolve_parent,
    selected_hardware,
    selected_sensors, sensor_ids, with_reading, HardwareCache, HardwareEntry, HardwareInfo,
    HardwareNode, ParentIndex, SensorEntry, SensorInfo,
};
use crate::protocol::{
    hardware_views, sensor_views, ComputerOptions, Hardware, HardwareType, HardwareView,
    ParentFilter, PipeRequest, PipeResponse, PipeResponseView, Sensor, SensorType, SensorView,
};
use vstd::prelude::*;

verus! {

/// What the actor needs the provider to do for a request.
#[derive(Clone, Copy, Debug, PartialEq, Eq, Structural)]
pub enum ProviderCall {
    /// Nothing: the request is answered from the cache.
    Nothing,
    /// Pass the enable flags on. No reload follows.
    SetOptions { options: ComputerOptions },
    /// Update everything and report the whole hardware tree afresh.
    Reload,
    /// Refresh the hardware item at this index, then read its sensors.
    UpdateHardware { index: usize },
    /// Refresh the sensor at this index, then read it.
    UpdateSensor { index: usize },
}

/// A sensor value read back from the provider.
#[derive(Clone, Copy, Debug, PartialEq, Eq, Structural)]
pub struct SensorReading {
    /// Cache index of the sensor.
    pub index: usize,
    /// The reading as the bit pattern of a 32-bit IEEE 754 number.
    pub value: u32,
}

/// What came back from the provider.
#[derive(Debug, PartialEq, Eq)]
pub enum ProviderReply {
    /// The call is done and there is nothing to report.
    Done,
    /// The hardware tree after a reload.
    Snapshot { hardware: Vec<HardwareNode> },
    /// The values read after a refresh.
    Readings { readings: Vec<SensorReading> },
}

/// The provider call a request needs, given the current generation.
///
/// Reading a sensor value without `update` needs no call; with `update` it
/// needs exactly one refresh of that sensor. A request that names an unknown
/// entry needs none.
pub open spec fn planned_call(
    hardware: Seq<HardwareEntry>,
    sensors: Seq<SensorEntry>,
    request: PipeRequest,
) -> ProviderCall {
    match request {
        PipeRequest::SetOptions { options } => ProviderCall::SetOptions { options },
        PipeRequest::UpdateAll => ProviderCall::Reload,
        PipeRequest::UpdateHardwareById { id } => match last_index_of(hardware_ids(hardware), id@) {
            Some(index) => ProviderCall::UpdateHardware { index },
            None => ProviderCall::Nothing,
        },
        PipeRequest::UpdateHardwareByIndex { idx } => if idx < hardware.len() {
            ProviderCall::UpdateHardware { index: idx }
        } else {
            ProviderCall::Nothing
        },
        PipeRequest::UpdateSensorById { id } => match last_index_of(sensor_ids(sensors), id@) {
            Some(index) => ProviderCall::UpdateSensor { index },
            None => ProviderCall::Nothing,
        },
        PipeRequest::UpdateSensorByIndex { idx } => if idx < sensors.len() {
            ProviderCall::UpdateSensor { index: idx }
        } else {
            ProviderCall::Nothing
        },
        PipeRequest::GetSensorValueById { id, update } => if update {
            match last_index_of(sensor_ids(sensors), id@) {
                Some(index) => ProviderCall::UpdateSensor { index },
                None => ProviderCall::Nothing,
            }
        } else {
            ProviderCall::Nothing
        },
        PipeRequest::GetSensorValueByIndex { idx, update } => if update && idx < sensors.len() {
            ProviderCall::UpdateSensor { index: idx }
        } else {
            ProviderCall::Nothing
        },
        PipeRequest::GetHardwareById { .. } => ProviderCall::Nothing,
        PipeRequest::QueryHardware { .. } => ProviderCall::Nothing,
        PipeRequest::GetSensorById { .. } => ProviderCall::Nothing,
        PipeRequest::QuerySensors { .. } => ProviderCall::Nothing,
    }
}

/// The sensors whose values are read back after a provider call, by
/// ascending index: after the refresh of a hardware item the sensors that
/// belong to it, after the refresh of a sensor that sensor, otherwise none.
pub open spec fn readings_after(sensors: Seq<SensorEntry>, call: ProviderCall) -> Seq<int> {
    match call {
        ProviderCall::UpdateHardware { index } => selected_sensors(
            sensors,
            ParentIndex::Index(index),
            None,
        ),
        ProviderCall::UpdateSensor { index } => if index < sensors.len() {
            seq![index as int]
        } else {
            Seq::empty()
        },
        _ => Seq::empty(),
    }
}

/// The sensor entries once `readings` are stored, one after the other. A
/// reading for an index the generation does not have is dropped.
pub open spec fn apply_readings(sensors: Seq<SensorEntry>, readings: Seq<SensorReading>) -> Seq<
    SensorEntry,
>
    decreases readings.len(),
{
    if readings.len() == 0 {
        sensors
    } else {
        let before = apply_readings(sensors, readings.drop_last());
        let reading = readings.last();
        if reading.index < before.len() {
            with_reading(before, reading.index as int, reading.value)
        } else {
            before
        }
    }
}

/// The hardware entries after a request: a new generation when a reload
/// brought a snapshot, the same entries otherwise.
pub open spec fn hardware_after(
    hardware: Seq<HardwareEntry>,
    request: PipeRequest,
    reply: ProviderReply,
) -> Seq<HardwareEntry> {
    match (request, reply) {
        (PipeRequest::UpdateAll, ProviderReply::Snapshot { hardware: tree }) => flat_hardware(
            tree@,
            None,
            0,
        ),
        _ => hardware,
    }
}

/// The sensor entries after a request: a new generation when a reload
/// brought a snapshot, the old entries with the readings stored when
/// readings came back, the same entries otherwise.
pub open spec fn sensors_after(
    sensors: Seq<SensorEntry>,
    request: PipeRequest,
    reply: ProviderReply,
) -> Seq<SensorEntry> {
    match (request, reply) {
        (PipeRequest::UpdateAll, ProviderReply::Snapshot { hardware: tree }) => flat_sensors(
            tree@,
            0,
        ),
        (_, ProviderReply::Readings { readings }) => apply_readings(sensors, readings@),
        _ => sensors,
    }
}

/// A hardware entry as clients are told of it.
pub open spec fn hardware_reply(index: int, info: HardwareInfo) -> HardwareView {
    HardwareView {
        index: index as usize,
        identifier: info.identifier@,
        name: info.name@,
        ty: HardwareType::of_code(info.ty),
    }
}

/// A sensor entry as clients are told of it.
pub open spec fn sensor_reply(index: int, info: SensorInfo) -> SensorView {
    SensorView {
        index: index as usize,
        identifier: info.identifier@,
        name: info.name@,
        ty: SensorType::of_code(info.ty),
        value: info.value,
    }
}

/// The hardware entries with the indices `selected`, as clients are told of
/// them.
pub open spec fn hardware_replies(entries: Seq<HardwareEntry>, selected: Seq<int>) -> Seq<
    HardwareView,
> {
    Seq::new(selected.len(), |k: int| hardware_reply(selected[k], entries[selected[k]].hardware))
}

/// The sensor entries with the indices `selected`, as clients are told of
/// them.
pub open spec fn sensor_replies(entries: Seq<SensorEntry>, selected: Seq<int>) -> Seq<SensorView> {
    Seq::new(selected.len(), |k: int| sensor_reply(selected[k], entries[selected[k]].sensor))
}

/// Message of the error sent when a parent filter names unknown hardware.
pub open spec fn parent_not_found_message() -> Seq<char> {
    "parent hardware not found"@
}

/// Message of the error sent when a reload brought no snapshot.
pub open spec fn no_snapshot_message() -> Seq<char> {
    "hardware provider returned no snapshot"@
}

/// The response to `request`, read off the generation `hardware` and
/// `sensors` that the request leaves behind. `reloaded` says whether a
/// snapshot came back from the provider.
pub open spec fn response_to(
    hardware: Seq<HardwareEntry>,
    sensors: Seq<SensorEntry>,
    request: PipeRequest,
    reloaded: bool,
) -> PipeResponseView {
    match request {
        PipeRequest::SetOptions { .. } => PipeResponseView::Success,
        PipeRequest::UpdateAll => if reloaded {
            PipeResponseView::Success
        } else {
            PipeResponseView::Error { error: no_snapshot_message() }
        },
        PipeRequest::GetHardwareById { id } => PipeResponseView::Hardware {
            hardware: match last_index_of(hardware_ids(hardware), id@) {
                Some(index) => Some(hardware_reply(index as int, hardware[index as int].hardware)),
                None => None,
            },
        },
        PipeRequest::QueryHardware { parent_id, ty } => match resolve_parent(
            hardware_ids(hardware),
            parent_id,
        ) {
            Some(parent) => PipeResponseView::Hardwares {
                hardware: hardware_replies(hardware, selected_hardware(hardware, parent, ty)),
            },
            None => PipeResponseView::Error { error: parent_not_found_message() },
        },
        PipeRequest::UpdateHardwareById { .. } => PipeResponseView::Success,
        PipeRequest::UpdateHardwareByIndex { .. } => PipeResponseView::Success,
        PipeRequest::GetSensorById { id } => PipeResponseView::Sensor {
            sensor: match last_index_of(sensor_ids(sensors), id@) {
                Some(index) => Some(sensor_reply(index as int, sensors[index as int].sensor)),
                None => None,
            },
        },
        PipeRequest::GetSensorValueById { id, .. } => PipeResponseView::SensorValue {
            value: match last_index_of(sensor_ids(sensors), id@) {
                Some(index) => Some(sensors[index as int].sensor.value),
                None => None,
            },
        },
        PipeRequest::GetSensorValueByIndex { idx, .. } => PipeResponseView::SensorValue {
            value: if idx < sensors.len() {
                Some(sensors[idx as int].sensor.value)
            } else {
                None
            },
        },
        PipeRequest::QuerySensors { parent_id, ty } => match resolve_parent(
            hardware_ids(hardware),
            parent_id,
        ) {
            Some(parent) => PipeResponseView::Sensors {
                sensors: sensor_replies(sensors, selected_sensors(sensors, parent, ty)),
            },
            None => PipeResponseView::Error { error: parent_not_found_message() },
        },
        PipeRequest::UpdateSensorById { .. } => PipeResponseView::Success,
        PipeRequest::UpdateSensorByIndex { .. } => PipeResponseView::Success,
    }
}

/// The state of the backend actor: the current cache generation.
pub struct ComputerActor {
    cache: HardwareCache,
}

impl ComputerActor {
    /// The cache the actor owns.
    pub closed spec fn cache_state(&self) -> HardwareCache {
        self.cache
    }

    /// The hardware entries of the current generation.
    pub open spec fn hardware(&self) -> Seq<HardwareEntry> {
        self.cache_state().hardware_entries()
    }

    /// The sensor entries of the current generation.
    pub open spec fn sensors(&self) -> Seq<SensorEntry> {
        self.cache_state().sensor_entries()
    }

    /// The invariant of the actor: its cache is well formed.
    pub open spec fn wf(&self) -> bool {
        self.cache_state().wf()
    }

    /// An actor with an empty cache, as before the first reload.
    pub fn new() -> (actor: ComputerActor)
        ensures
            actor.wf(),
            actor.hardware().len() == 0,
            actor.sensors().len() == 0,
    {
        ComputerActor { cache: HardwareCache::new() }
    }

    /// The cache, for reading.
    pub fn cache(&self) -> (cache: &HardwareCache)
        ensures
            *cache == self.cache_state(),
    {
        &self.cache
    }

    /// Names the provider call that `request` needs before it is answered.
    pub fn provider_call(&self, request: &PipeRequest) -> (call: ProviderCall)
        requires
            self.wf(),
        ensures
            call == planned_call(self.hardware(), self.sensors(), *request),
            request matches PipeRequest::GetSensorValueById { update: false, .. } ==> call
                == ProviderCall::Nothing,
            request matches PipeRequest::GetSensorValueByIndex { update: false, .. } ==> call
                == ProviderCall::Nothing,
    {
        match request {
            PipeRequest::SetOptions { options } => ProviderCall::SetOptions { options: *options },
            PipeRequest::UpdateAll => ProviderCall::Reload,
            PipeRequest::UpdateHardwareById { id } => match self.cache.get_hardware_by_id(
                id.as_str(),
            ) {
                Some((index, _)) => ProviderCall::UpdateHardware { index },
                None => ProviderCall::Nothing,
            },
            PipeRequest::UpdateHardwareByIndex { idx } => if *idx < self.cache.hardware_len() {
                ProviderCall::UpdateHardware { index: *idx }
            } else {
                ProviderCall::Nothing
            },
            PipeRequest::UpdateSensorById { id } => self.sensor_refresh_by_id(id.as_str()),
            PipeRequest::UpdateSensorByIndex { idx } => self.sensor_refresh_by_idx(*idx),
            PipeRequest::GetSensorValueById { id, update } => if *update {
                self.sensor_refresh_by_id(id.as_str())
            } else {
                ProviderCall::Nothing
            },
            PipeRequest::GetSensorValueByIndex { idx, update } => if *update {
                self.sensor_refresh_by_idx(*idx)
            } else {
                ProviderCall::Nothing
            },
            PipeRequest::GetHardwareById { .. } => ProviderCall::Nothing,
            PipeRequest::QueryHardware { .. } => ProviderCall::Nothing,
            PipeRequest::GetSensorById { .. } => ProviderCall::Nothing,
            PipeRequest::QuerySensors { .. } => ProviderCall::Nothing,
        }
    }

    /// Names the sensors whose values are to be read back once `call` has
    /// been made, by ascending index.
    pub fn readings_wanted(&self, call: ProviderCall) -> (wanted: Vec<usize>)
        ensures
            wanted@.map_values(|index: usize| index as int) == readings_after(
                self.sensors(),
                call,
            ),
    {
        let mut wanted: Vec<usize> = Vec::new();
        match call {
            ProviderCall::UpdateHardware { index } => {
                let attached = self.cache.query_sensors_iter(ParentIndex::Index(index), None);
                let mut i: usize = 0;
                while i < attached.len()
                    invariant
                        i <= attached.len(),
                        wanted@.len() == i,
                        forall|k: int| 0 <= k < i ==> #[trigger] wanted@[k] == attached@[k].0,
                    decreases attached.len() - i,
                {
                    wanted.push(attached[i].0);
                    i += 1;
                }
                assert(wanted@.map_values(|index: usize| index as int) =~= readings_after(
                    self.sensors(),
                    call,
                ));
            },
            ProviderCall::UpdateSensor { index } => {
                if index < self.cache.sensor_len() {
                    wanted.push(index);
                }
                assert(wanted@.map_values(|index: usize| index as int) =~= readings_after(
                    self.sensors(),
                    call,
                ));
            },
            _ => {
                assert(wanted@.map_values(|index: usize| index as int) =~= readings_after(
                    self.sensors(),
                    call,
                ));
            },
        }
        wanted
    }

    /// The refresh of the sensor with this identifier, if the cache knows it.
    fn sensor_refresh_by_id(&self, identifier: &str) -> (call: ProviderCall)
        requires
            self.wf(),
        ensures
            call == match last_index_of(sensor_ids(self.sensors()), identifier@) {
                Some(index) => ProviderCall::UpdateSensor { index },
                None => ProviderCall::Nothing,
            },
    {
        match self.cache.get_sensor_by_id(identifier) {
            Some((index, _)) => ProviderCall::UpdateSensor { index },
            None => ProviderCall::Nothing,
        }
    }

    /// The refresh of the sensor at this index, if the cache has it.
    fn sensor_refresh_by_idx(&self, index: usize) -> (call: ProviderCall)
        ensures
            call == if index < self.sensors().len() {
                ProviderCall::UpdateSensor { index }
            } else {
                ProviderCall::Nothing
            },
    {
        if index < self.cache.sensor_len() {
            ProviderCall::UpdateSensor { index }
        } else {
            ProviderCall::Nothing
        }
    }

    /// Stores the readings in the cache, one after the other.
    fn store_readings(&mut self, readings: &Vec<SensorReading>)
        requires
            old(self).wf(),
        ensures
            final(self).wf(),
            final(self).hardware() == old(self).hardware(),
            final(self).sensors() == apply_readings(old(self).sensors(), readings@),
    {
        let ghost start = self.cache.sensor_entries();
        let ghost hardware = self.cache.hardware_entries();
        let mut i: usize = 0;
        while i < readings.len()
            invariant
                i <= readings.len(),
                self.cache.wf(),
                self.cache.hardware_entries() == hardware,
                self.cache.sensor_entries() == apply_readings(start, readings@.take(i as int)),
            decreases readings.len() - i,
        {
            let reading = readings[i];
            assert(readings@.take(i + 1).drop_last() == readings@.take(i as int));
            assert(readings@.take(i + 1).last() == reading);
            match self.cache.get_sensor_by_idx_mut(reading.index) {
                Some(slot) => {
                    *slot = reading.value;
                },
                None => {},
            }
            i += 1;
        }
        assert(readings@.take(i as int) == readings@);
    }

    /// The hardware found by a query, as clients are told of it.
    fn hardware_list(found: &Vec<(usize, &HardwareInfo)>) -> (list: Vec<Hardware>)
        ensures
            list@.len() == found@.len(),
            forall|k: int|
                0 <= k < list@.len() ==> (#[trigger] list@[k])@ == hardware_reply(
                    found@[k].0 as int,
                    *found@[k].1,
                ),
    {
        let mut list: Vec<Hardware> = Vec::new();
        let mut i: usize = 0;
        while i < found.len()
            invariant
                i <= found.len(),
                list@.len() == i,
                forall|k: int|
                    0 <= k < list@.len() ==> (#[trigger] list@[k])@ == hardware_reply(
                        found@[k].0 as int,
                        *found@[k].1,
                    ),
            decreases found.len() - i,
        {
            let (index, info) = found[i];
            list.push(ComputerActor::hardware_of(index, info));
            i += 1;
        }
        list
    }

    /// The sensors found by a query, as clients are told of them.
    fn sensor_list(found: &Vec<(usize, &SensorInfo)>) -> (list: Vec<Sensor>)
        ensures
            list@.len() == found@.len(),
            forall|k: int|
                0 <= k < list@.len() ==> (#[trigger] list@[k])@ == sensor_reply(
                    found@[k].0 as int,
                    *found@[k].1,
                ),
    {
        let mut list: Vec<Sensor> = Vec::new();
        let mut i: usize = 0;
        while i < found.len()
            invariant
                i <= found.len(),
                list@.len() == i,
                forall|k: int|
                    0 <= k < list@.len() ==> (#[trigger] list@[k])@ == sensor_reply(
                        found@[k].0 as int,
                        *found@[k].1,
                    ),
            decreases found.len() - i,
        {
            let (index, info) = found[i];
            list.push(ComputerActor::sensor_of(index, info));
            i += 1;
        }
        list
    }

    /// One hardware entry as clients are told of it.
    fn hardware_of(index: usize, info: &HardwareInfo) -> (hardware: Hardware)
        ensures
            hardware@ == hardware_reply(index as int, *info),
    {
        Hardware {
            index,
            identifier: info.identifier.clone(),
            name: info.name.clone(),
            ty: HardwareType::from(info.ty),
        }
    }

    /// One sensor entry as clients are told of it.
    fn sensor_of(index: usize, info: &SensorInfo) -> (sensor: Sensor)
        ensures
            sensor@ == sensor_reply(index as int, *info),
    {
        Sensor {
            index,
            identifier: info.identifier.clone(),
            name: info.name.clone(),
            ty: SensorType::from(info.ty),
            value: info.value,
        }
    }

    /// Answers `request`, given what the provider call named by
    /// `provider_call` brought back.
    ///
    /// Readings are stored first. A reload then replaces the whole
    /// generation by the snapshot; without a snapshot the reload fails and
    /// the cache stays. Every other request is answered from the cache as it
    /// then stands: an unknown identifier or index is an absent value, a
    /// parent filter naming unknown hardware is an error.
    pub fn handle_request(&mut self, request: PipeRequest, reply: ProviderReply) -> (response:
        PipeResponse)
        requires
            old(self).wf(),
        ensures
            final(self).wf(),
            final(self).hardware() == hardware_after(old(self).hardware(), request, reply),
            final(self).sensors() == sensors_after(old(self).sensors(), request, reply),
            response@ == response_to(
                final(self).hardware(),
                final(self).sensors(),
                request,
                reply is Snapshot,
            ),
    {
        let snapshot = match reply {
            ProviderReply::Done => None,
            ProviderReply::Snapshot { hardware } => Some(hardware),
            ProviderReply::Readings { readings } => {
                self.store_readings(&readings);
                None
            },
        };
        match request {
            PipeRequest::UpdateAll => match snapshot {
                Some(hardware) => {
                    // Discard the old generation and build the new one
                    self.cache.init(hardware);
                    PipeResponse::Success
                },
                None => PipeResponse::Error {
                    error: "hardware provider returned no snapshot".to_owned(),
                },
            },
            PipeRequest::SetOptions { .. } => PipeResponse::Success,
            PipeRequest::QueryHardware { parent_id, ty } => {
                match self.cache.query_hardware(&parent_id, ty) {
                    Ok(found) => {
                        let hardware = ComputerActor::hardware_list(&found);
                        assert(hardware_views(hardware@) =~= hardware_replies(
                            self.hardware(),
                            selected_hardware(
                                self.hardware(),
                                resolve_parent(hardware_ids(self.hardware()), parent_id)->0,
                                ty,
                            ),
                        ));
                        PipeResponse::Hardwares { hardware }
                    },
                    Err(reason) => PipeResponse::Error { error: reason.message() },
                }
            },
            PipeRequest::GetHardwareById { id } => {
                let hardware = match self.cache.get_hardware_by_id(id.as_str()) {
                    Some((index, hardware)) => Some(ComputerActor::hardware_of(index, hardware)),
                    None => None,
                };
                PipeResponse::Hardware { hardware }
            },
            PipeRequest::UpdateHardwareById { .. } => PipeResponse::Success,
            PipeRequest::UpdateHardwareByIndex { .. } => PipeResponse::Success,
            PipeRequest::GetSensorById { id } => {
                let sensor = match self.cache.get_sensor_by_id(id.as_str()) {
                    Some((index, sensor)) => Some(ComputerActor::sensor_of(index, sensor)),
                    None => None,
                };
                PipeResponse::Sensor { sensor }
            },
            PipeRequest::GetSensorValueById { id, .. } => {
                let value = match self.cache.get_sensor_by_id(id.as_str()) {
                    Some((_, sensor)) => Some(sensor.value),
                    None => None,
                };
                PipeResponse::SensorValue { value }
            },
            PipeRequest::GetSensorValueByIndex { idx, .. } => {
                let value = match self.cache.get_sensor_by_idx(idx) {
                    Some(entry) => Some(entry.sensor.value),
                    None => None,
                };
                PipeResponse::SensorValue { value }
            },
            PipeRequest::QuerySensors { parent_id, ty } => {
                match self.cache.query_sensors(&parent_id, ty) {
                    Ok(found) => {
                        let sensors = ComputerActor::sensor_list(&found);
                        assert(sensor_views(sensors@) =~= sensor_replies(
                            self.sensors(),
                            selected_sensors(
                                self.sensors(),
                                resolve_parent(hardware_ids(self.hardware()), parent_id)->0,
                                ty,
                            ),
                        ));
                        PipeResponse::Sensors { sensors }
                    },
                    Err(reason) => PipeResponse::Error { error: reason.message() },
                }
            },
            PipeRequest::UpdateSensorById { .. } => PipeResponse::Success,
            PipeRequest::UpdateSensorByIndex { .. } => PipeResponse::Success,
        }
    }
}

/// Reading a sensor value without `update` asks nothing of the provider.
/// With `update` it asks for exactly one refresh, of that very sensor, and
/// the value in the response is the one that the refresh read back.
pub proof fn lemma_sensor_value_refresh(
    hardware: Seq<HardwareEntry>,
    sensors: Seq<SensorEntry>,
    id: String,
    readings: Vec<SensorReading>,
)
    requires
        sensors.len() <= usize::MAX,
    ensures
        planned_call(hardware, sensors, PipeRequest::GetSensorValueById { id, update: false })
            == ProviderCall::Nothing,
        response_to(
            hardware,
            sensors_after(
                sensors,
                PipeRequest::GetSensorValueById { id, update: false },
                ProviderReply::Done,
            ),
            PipeRequest::GetSensorValueById { id, update: false },
            false,
        ) == (PipeResponseView::SensorValue {
            value: match last_index_of(sensor_ids(sensors), id@) {
                Some(index) => Some(sensors[index as int].sensor.value),
                None => None,
            },
        }),
        match last_index_of(sensor_ids(sensors), id@) {
            Some(index) => {
                &&& planned_call(
                    hardware,
                    sensors,
                    PipeRequest::GetSensorValueById { id, update: true },
                ) == (ProviderCall::UpdateSensor { index })
                &&& forall|value: u32|
                    readings@ == seq![SensorReading { index, value }] ==> response_to(
                        hardware,
                        sensors_after(
                            sensors,
                            PipeRequest::GetSensorValueById { id, update: true },
                            ProviderReply::Readings { readings },
                        ),
                        PipeRequest::GetSensorValueById { id, update: true },
                        false,
                    ) == (PipeResponseView::SensorValue { value: Some(value) })
            },
            None => planned_call(
                hardware,
                sensors,
                PipeRequest::GetSensorValueById { id, update: true },
            ) == ProviderCall::Nothing,
        },
{
    let ids = sensor_ids(sensors);
    lemma_last_index_of(ids, id@);
    match last_index_of(ids, id@) {
        Some(index) => {
            assert forall|value: u32|
                readings@ == seq![SensorReading { index, value }] implies response_to(
                hardware,
                sensors_after(
                    sensors,
                    PipeRequest::GetSensorValueById { id, update: true },
                    ProviderReply::Readings { readings },
                ),
                PipeRequest::GetSensorValueById { id, update: true },
                false,
            ) == (PipeResponseView::SensorValue { value: Some(value) }) by {
                let stored = with_reading(sensors, index as int, value);
                assert(readings@.drop_last() == Seq::<SensorReading>::empty());
                assert(apply_readings(sensors, readings@.drop_last()) == sensors);
                assert(apply_readings(sensors, readings@) == stored);
                assert(sensor_ids(stored) =~= ids);
            }
        },
        None => {},
    }
}

} // verus!
