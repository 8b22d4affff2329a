//! Hardware cache: a flat, indexed snapshot of the provider's hardware tree.
//!
//! A snapshot, called a generation, is built in one pass by walking the tree
//! depth first: a hardware item, then its sensors, then its sub-hardware.
//! Every entry gets the next free index of its kind, so a parent always has
//! a smaller index than its children. Entries are found by index or by their
//! stable identifier. A generation lasts until the next full reload; until
//! then only sensor readings change.

use crate::protocol::{HardwareType, ParentFilter, SensorType};
use vstd::hash_map::StringHashMap;
use vstd::prelude::*;

verus! {

/// What the provider says of one hardware item.
#[derive(Debug, PartialEq, Eq)]
pub struct HardwareInfo {
    /// Unique identifier of the hardware.
    pub identifier: String,
    /// Name of the hardware.
    pub name: String,
    /// Type of the hardware, as the provider numbers it.
    pub ty: i32,
}

/// What the provider says of one sensor.
#[derive(Debug, PartialEq, Eq)]
pub struct SensorInfo {
    /// Unique identifier of the sensor.
    pub identifier: String,
    /// Name of the sensor.
    pub name: String,
    /// Type of the sensor, as the provider numbers it.
    pub ty: i32,
    /// The reading as the bit pattern of a 32-bit IEEE 754 number.
    pub value: u32,
}

/// One hardware item of the provider's tree with all that hangs below it.
#[derive(Debug, PartialEq, Eq)]
pub struct HardwareNode {
    pub hardware: HardwareInfo,
    pub sensors: Vec<SensorInfo>,
    pub children: Vec<HardwareNode>,
}

/// Hardware entry within the cache.
#[derive(Debug, PartialEq, Eq)]
pub struct HardwareEntry {
    /// Index of the parent entry if this is sub-hardware.
    pub parent_index: Option<usize>,
    /// The hardware item itself.
    pub hardware: HardwareInfo,
}

/// Sensor entry within the cache.
#[derive(Debug, PartialEq, Eq)]
pub struct SensorEntry {
    /// Index of the hardware entry the sensor belongs to.
    pub parent_index: usize,
    /// The sensor itself.
    pub sensor: SensorInfo,
}

/// Number of hardware items in a forest, sub-hardware included.
pub open spec fn hardware_count(nodes: Seq<HardwareNode>) -> nat
    decreases nodes,
{
    if nodes.len() == 0 {
        0
    } else {
        hardware_count(nodes.drop_last()) + 1 + hardware_count(nodes.last().children@)
    }
}

/// Number of sensors in a forest.
pub open spec fn sensor_count(nodes: Seq<HardwareNode>) -> nat
    decreases nodes,
{
    if nodes.len() == 0 {
        0
    } else {
        sensor_count(nodes.drop_last()) + nodes.last().sensors@.len() + sensor_count(
            nodes.last().children@,
        )
    }
}

/// The sensors of one hardware item as cache entries.
pub open spec fn sensor_entries_of(sensors: Seq<SensorInfo>, parent: usize) -> Seq<SensorEntry> {
    sensors.map_values(|sensor: SensorInfo| SensorEntry { parent_index: parent, sensor })
}

/// The hardware entries of a forest in depth-first order, each item before
/// its sub-hardware. `base` is the index the first entry gets and `parent`
/// the parent of the forest's roots.
pub open spec fn flat_hardware(nodes: Seq<HardwareNode>, parent: Option<usize>, base: nat) -> Seq<
    HardwareEntry,
>
    decreases nodes,
{
    if nodes.len() == 0 {
        Seq::empty()
    } else {
        let index = base + hardware_count(nodes.drop_last());
        flat_hardware(nodes.drop_last(), parent, base).push(
            HardwareEntry { parent_index: parent, hardware: nodes.last().hardware },
        ) + flat_hardware(nodes.last().children@, Some(index as usize), index + 1)
    }
}

/// The sensor entries of a forest in depth-first order: the sensors of an
/// item come before those of its sub-hardware. `base` is the index of the
/// forest's first hardware entry.
pub open spec fn flat_sensors(nodes: Seq<HardwareNode>, base: nat) -> Seq<SensorEntry>
    decreases nodes,
{
    if nodes.len() == 0 {
        Seq::empty()
    } else {
        let index = base + hardware_count(nodes.drop_last());
        flat_sensors(nodes.drop_last(), base) + sensor_entries_of(
            nodes.last().sensors@,
            index as usize,
        ) + flat_sensors(nodes.last().children@, index + 1)
    }
}

/// Every hardware entry with a parent comes after that parent, and every
/// sensor belongs to a hardware entry that exists.
pub open spec fn parents_precede(hardware: Seq<HardwareEntry>, sensors: Seq<SensorEntry>) -> bool {
    &&& forall|i: int|
        0 <= i < hardware.len() ==> ((#[trigger] hardware[i]).parent_index matches Some(p) ==> p
            < i)
    &&& forall|i: int| 0 <= i < sensors.len() ==> (#[trigger] sensors[i]).parent_index < hardware.len()
}

/// The identifiers of hardware entries, in order.
pub open spec fn hardware_ids(entries: Seq<HardwareEntry>) -> Seq<Seq<char>> {
    entries.map_values(|entry: HardwareEntry| entry.hardware.identifier@)
}

/// The identifiers of sensor entries, in order.
pub open spec fn sensor_ids(entries: Seq<SensorEntry>) -> Seq<Seq<char>> {
    entries.map_values(|entry: SensorEntry| entry.sensor.identifier@)
}

/// `lookup` leads from every identifier in `ids` to the last place where it
/// occurs, and from nothing else.
pub open spec fn finds_last(lookup: Map<Seq<char>, usize>, ids: Seq<Seq<char>>) -> bool {
    &&& forall|id: Seq<char>| #[trigger]
        lookup.contains_key(id) ==> lookup[id] < ids.len() && ids[lookup[id] as int] == id
    &&& forall|i: int|
        0 <= i < ids.len() ==> lookup.contains_key(#[trigger] ids[i]) && i <= lookup[ids[i]]
}

/// Whether `index` is the last place in `ids` where `id` occurs.
pub open spec fn is_last_occurrence(ids: Seq<Seq<char>>, id: Seq<char>, index: int) -> bool {
    &&& 0 <= index < ids.len()
    &&& ids[index] == id
    &&& forall|j: int| index < j < ids.len() ==> ids[j] != id
}

/// The place where `id` is found in `ids`: the last one where it occurs.
/// Within a generation identifiers are unique, and the last place is the
/// only one.
pub open spec fn last_index_of(ids: Seq<Seq<char>>, id: Seq<char>) -> Option<usize> {
    if exists|i: int| is_last_occurrence(ids, id, i) {
        Some((choose|i: int| is_last_occurrence(ids, id, i)) as usize)
    } else {
        None
    }
}

/// An identifier that occurs at all has a last occurrence at or after any
/// given one.
pub proof fn lemma_last_occurrence_exists(ids: Seq<Seq<char>>, id: Seq<char>, index: int)
    requires
        0 <= index < ids.len(),
        ids[index] == id,
    ensures
        exists|i: int| index <= i && is_last_occurrence(ids, id, i),
    decreases ids.len() - index,
{
    if exists|j: int| index < j < ids.len() && ids[j] == id {
        let j = choose|j: int| index < j < ids.len() && ids[j] == id;
        lemma_last_occurrence_exists(ids, id, j);
    } else {
        assert(is_last_occurrence(ids, id, index));
    }
}

/// What `last_index_of` returns: the one last occurrence, or nothing when
/// the identifier does not occur.
pub proof fn lemma_last_index_of(ids: Seq<Seq<char>>, id: Seq<char>)
    requires
        ids.len() <= usize::MAX,
    ensures
        match last_index_of(ids, id) {
            Some(index) => is_last_occurrence(ids, id, index as int),
            None => forall|j: int| 0 <= j < ids.len() ==> ids[j] != id,
        },
{
    if last_index_of(ids, id) is None {
        assert forall|j: int| 0 <= j < ids.len() implies ids[j] != id by {
            if ids[j] == id {
                lemma_last_occurrence_exists(ids, id, j);
            }
        }
    }
}

/// A last occurrence is the place `last_index_of` returns.
pub proof fn lemma_last_occurrence_is_index(ids: Seq<Seq<char>>, id: Seq<char>, index: int)
    requires
        index <= usize::MAX,
        is_last_occurrence(ids, id, index),
    ensures
        last_index_of(ids, id) == Some(index as usize),
{
    let chosen = choose|i: int| is_last_occurrence(ids, id, i);
    assert(chosen == index) by {
        if chosen < index {
            assert(ids[index] == id);
        } else if index < chosen {
            assert(ids[chosen] == id);
        }
    }
}

/// Where no identifier occurs twice, every entry is found by its identifier,
/// at its own index.
pub proof fn lemma_unique_identifier_finds_entry(ids: Seq<Seq<char>>, index: int)
    requires
        ids.no_duplicates(),
        0 <= index < ids.len(),
        index <= usize::MAX,
    ensures
        last_index_of(ids, ids[index]) == Some(index as usize),
{
    assert(is_last_occurrence(ids, ids[index], index));
    lemma_last_occurrence_is_index(ids, ids[index], index);
}

/// Which parents a query by index accepts.
#[derive(Clone, Copy, Debug, PartialEq, Eq, Structural)]
pub enum ParentIndex {
    /// No constraint on the parent.
    Any,
    /// Only entries without a parent.
    Root,
    /// Only entries whose parent has this index.
    Index(usize),
}

/// Whether a hardware entry passes the filters of a query. A type filter
/// asks for exactly that type, compared by the provider's number.
pub open spec fn hardware_matches(
    entry: HardwareEntry,
    parent: ParentIndex,
    ty: Option<HardwareType>,
) -> bool {
    &&& ty matches Some(wanted) ==> entry.hardware.ty == wanted.code()
    &&& match parent {
        ParentIndex::Any => true,
        ParentIndex::Root => entry.parent_index is None,
        ParentIndex::Index(index) => entry.parent_index == Some(index),
    }
}

/// Whether a sensor entry passes the filters of a query. A sensor always
/// has a parent, so a query for roots accepts none.
pub open spec fn sensor_matches(entry: SensorEntry, parent: ParentIndex, ty: Option<SensorType>) -> bool {
    &&& ty matches Some(wanted) ==> entry.sensor.ty == wanted.code()
    &&& match parent {
        ParentIndex::Any => true,
        ParentIndex::Root => false,
        ParentIndex::Index(index) => entry.parent_index == index,
    }
}

/// The indices of the hardware entries that pass the filters, ascending.
pub open spec fn selected_hardware(
    entries: Seq<HardwareEntry>,
    parent: ParentIndex,
    ty: Option<HardwareType>,
) -> Seq<int>
    decreases entries.len(),
{
    if entries.len() == 0 {
        Seq::empty()
    } else {
        let rest = selected_hardware(entries.drop_last(), parent, ty);
        if hardware_matches(entries.last(), parent, ty) {
            rest.push(entries.len() - 1)
        } else {
            rest
        }
    }
}

/// The indices of the sensor entries that pass the filters, ascending.
pub open spec fn selected_sensors(
    entries: Seq<SensorEntry>,
    parent: ParentIndex,
    ty: Option<SensorType>,
) -> Seq<int>
    decreases entries.len(),
{
    if entries.len() == 0 {
        Seq::empty()
    } else {
        let rest = selected_sensors(entries.drop_last(), parent, ty);
        if sensor_matches(entries.last(), parent, ty) {
            rest.push(entries.len() - 1)
        } else {
            rest
        }
    }
}

/// The index filter that `parent` stands for among the hardware with the
/// identifiers `ids`. A filter that names unknown hardware stands for none.
pub open spec fn resolve_parent(ids: Seq<Seq<char>>, parent: ParentFilter) -> Option<ParentIndex> {
    match parent {
        ParentFilter::Any => Some(ParentIndex::Any),
        ParentFilter::Root => Some(ParentIndex::Root),
        ParentFilter::Id(id) => match last_index_of(ids, id@) {
            Some(index) => Some(ParentIndex::Index(index)),
            None => None,
        },
    }
}

/// `found` lists the hardware entries with the indices `selected`, in that
/// order, each with its index.
pub open spec fn lists_hardware(
    found: Seq<(usize, &HardwareInfo)>,
    entries: Seq<HardwareEntry>,
    selected: Seq<int>,
) -> bool {
    &&& found.len() == selected.len()
    &&& forall|k: int|
        0 <= k < found.len() ==> {
            &&& (#[trigger] found[k]).0 == selected[k]
            &&& found[k].0 < entries.len()
            &&& *found[k].1 == entries[found[k].0 as int].hardware
        }
}

/// `found` lists the sensor entries with the indices `selected`, in that
/// order, each with its index.
pub open spec fn lists_sensors(
    found: Seq<(usize, &SensorInfo)>,
    entries: Seq<SensorEntry>,
    selected: Seq<int>,
) -> bool {
    &&& found.len() == selected.len()
    &&& forall|k: int|
        0 <= k < found.len() ==> {
            &&& (#[trigger] found[k]).0 == selected[k]
            &&& found[k].0 < entries.len()
            &&& *found[k].1 == entries[found[k].0 as int].sensor
        }
}

/// The entries with the reading of the sensor at `index` replaced.
pub open spec fn with_reading(entries: Seq<SensorEntry>, index: int, value: u32) -> Seq<
    SensorEntry,
>
    recommends
        0 <= index < entries.len(),
{
    entries.update(
        index,
        SensorEntry {
            parent_index: entries[index].parent_index,
            sensor: SensorInfo {
                identifier: entries[index].sensor.identifier,
                name: entries[index].sensor.name,
                ty: entries[index].sensor.ty,
                value,
            },
        },
    )
}

/// Why a query could not be answered.
#[derive(Clone, Copy, Debug, PartialEq, Eq, Structural)]
pub enum QueryError {
    /// The parent filter names hardware that the cache does not hold.
    ParentNotFound,
}

impl QueryError {
    /// What went wrong, in words.
    pub fn message(&self) -> (text: String)
        ensures
            text@ == "parent hardware not found"@,
    {
        "parent hardware not found".to_owned()
    }
}

/// Replacing a reading moves no entry and changes no identifier or parent.
proof fn lemma_with_reading_keeps_shape(
    hardware: Seq<HardwareEntry>,
    entries: Seq<SensorEntry>,
    index: int,
    value: u32,
)
    requires
        0 <= index < entries.len(),
    ensures
        with_reading(entries, index, value).len() == entries.len(),
        sensor_ids(with_reading(entries, index, value)) == sensor_ids(entries),
        parents_precede(hardware, entries) ==> parents_precede(
            hardware,
            with_reading(entries, index, value),
        ),
{
    let updated = with_reading(entries, index, value);
    assert(sensor_ids(updated) =~= sensor_ids(entries));
    if parents_precede(hardware, entries) {
        assert forall|i: int| 0 <= i < updated.len() implies (#[trigger] updated[i]).parent_index
            < hardware.len() by {
            assert(entries[i].parent_index < hardware.len());
        }
    }
}

/// Appending an identifier and recording its place keeps a lookup exact.
proof fn lemma_finds_last_push(lookup: Map<Seq<char>, usize>, ids: Seq<Seq<char>>, id: Seq<char>)
    requires
        finds_last(lookup, ids),
        ids.len() <= usize::MAX,
    ensures
        finds_last(lookup.insert(id, ids.len() as usize), ids.push(id)),
{
    let lookup2 = lookup.insert(id, ids.len() as usize);
    let ids2 = ids.push(id);
    assert forall|key: Seq<char>| #[trigger] lookup2.contains_key(key) implies lookup2[key]
        < ids2.len() && ids2[lookup2[key] as int] == key by {
        if key != id {
            assert(lookup.contains_key(key));
        }
    }
    assert forall|i: int| 0 <= i < ids2.len() implies lookup2.contains_key(#[trigger] ids2[i]) && i
        <= lookup2[ids2[i]] by {
        if i < ids.len() {
            assert(lookup.contains_key(ids[i]));
        }
    }
}

/// Cache holding the currently loaded hardware and sensors in a form that is
/// cheap to query.
pub struct HardwareCache {
    /// Flat collection of hardware, sub-hardware included.
    hardware: Vec<HardwareEntry>,
    /// Collection of all sensors of all hardware.
    sensors: Vec<SensorEntry>,
    /// From hardware identifier to index.
    hardware_lookup: StringHashMap<usize>,
    /// From sensor identifier to index.
    sensor_lookup: StringHashMap<usize>,
}

impl HardwareCache {
    /// The hardware entries of the current generation, by index.
    pub closed spec fn hardware_entries(&self) -> Seq<HardwareEntry> {
        self.hardware@
    }

    /// The sensor entries of the current generation, by index.
    pub closed spec fn sensor_entries(&self) -> Seq<SensorEntry> {
        self.sensors@
    }

    /// The identifier lookups agree with the entries.
    pub closed spec fn lookups_agree(&self) -> bool {
        &&& finds_last(self.hardware_lookup@, hardware_ids(self.hardware@))
        &&& finds_last(self.sensor_lookup@, sensor_ids(self.sensors@))
    }

    /// The invariant of the cache.
    pub open spec fn wf(&self) -> bool {
        &&& parents_precede(self.hardware_entries(), self.sensor_entries())
        &&& self.lookups_agree()
    }

    /// An empty cache.
    pub fn new() -> (cache: HardwareCache)
        ensures
            cache.wf(),
            cache.hardware_entries().len() == 0,
            cache.sensor_entries().len() == 0,
    {
        HardwareCache {
            hardware: Vec::new(),
            sensors: Vec::new(),
            hardware_lookup: StringHashMap::new(),
            sensor_lookup: StringHashMap::new(),
        }
    }

    /// Empties the cache.
    pub fn clear(&mut self)
        ensures
            final(self).wf(),
            final(self).hardware_entries().len() == 0,
            final(self).sensor_entries().len() == 0,
    {
        self.hardware.clear();
        self.sensors.clear();
        self.hardware_lookup.clear();
        self.sensor_lookup.clear();
    }

    /// Appends one hardware entry and records its identifier.
    fn push_hardware(&mut self, parent_index: Option<usize>, info: &HardwareInfo) -> (index: usize)
        requires
            old(self).wf(),
            parent_index matches Some(p) ==> p < old(self).hardware_entries().len(),
        ensures
            final(self).wf(),
            index == old(self).hardware_entries().len(),
            final(self).hardware_entries() == old(self).hardware_entries().push(
                HardwareEntry { parent_index, hardware: *info },
            ),
            final(self).sensor_entries() == old(self).sensor_entries(),
    {
        let index = self.hardware.len();
        let entry = HardwareEntry {
            parent_index,
            hardware: HardwareInfo {
                identifier: info.identifier.clone(),
                name: info.name.clone(),
                ty: info.ty,
            },
        };
        proof {
            lemma_finds_last_push(
                self.hardware_lookup@,
                hardware_ids(self.hardware@),
                info.identifier@,
            );
            assert(hardware_ids(self.hardware@.push(entry)) == hardware_ids(self.hardware@).push(
                info.identifier@,
            ));
        }
        self.hardware.push(entry);
        self.hardware_lookup.insert(info.identifier.clone(), index);
        index
    }

    /// Appends one sensor entry and records its identifier.
    fn push_sensor(&mut self, parent_index: usize, info: &SensorInfo)
        requires
            old(self).wf(),
            parent_index < old(self).hardware_entries().len(),
        ensures
            final(self).wf(),
            final(self).hardware_entries() == old(self).hardware_entries(),
            final(self).sensor_entries() == old(self).sensor_entries().push(
                SensorEntry { parent_index, sensor: *info },
            ),
    {
        let index = self.sensors.len();
        let entry = SensorEntry {
            parent_index,
            sensor: SensorInfo {
                identifier: info.identifier.clone(),
                name: info.name.clone(),
                ty: info.ty,
                value: info.value,
            },
        };
        proof {
            lemma_finds_last_push(self.sensor_lookup@, sensor_ids(self.sensors@), info.identifier@);
            assert(sensor_ids(self.sensors@.push(entry)) == sensor_ids(self.sensors@).push(
                info.identifier@,
            ));
        }
        self.sensors.push(entry);
        self.sensor_lookup.insert(info.identifier.clone(), index);
    }

    /// Walks `hardware` depth first and appends what it finds.
    fn populate_nodes(&mut self, hardware: &Vec<HardwareNode>, parent_index: Option<usize>)
        requires
            old(self).wf(),
            parent_index matches Some(p) ==> p < old(self).hardware_entries().len(),
        ensures
            final(self).wf(),
            final(self).hardware_entries() == old(self).hardware_entries() + flat_hardware(
                hardware@,
                parent_index,
                old(self).hardware_entries().len(),
            ),
            final(self).sensor_entries() == old(self).sensor_entries() + flat_sensors(
                hardware@,
                old(self).hardware_entries().len(),
            ),
            final(self).hardware_entries().len() == old(self).hardware_entries().len()
                + hardware_count(hardware@),
            final(self).sensor_entries().len() == old(self).sensor_entries().len() + sensor_count(
                hardware@,
            ),
        decreases hardware,
    {
        let ghost start_hardware = self.hardware@;
        let ghost start_sensors = self.sensors@;
        let ghost base = start_hardware.len();
        let mut i: usize = 0;
        while i < hardware.len()
            invariant
                i <= hardware.len(),
                self.wf(),
                base == start_hardware.len(),
                parent_index matches Some(p) ==> p < base,
                self.hardware@ == start_hardware + flat_hardware(
                    hardware@.take(i as int),
                    parent_index,
                    base,
                ),
                self.sensors@ == start_sensors + flat_sensors(hardware@.take(i as int), base),
                self.hardware@.len() == base + hardware_count(hardware@.take(i as int)),
                self.sensors@.len() == start_sensors.len() + sensor_count(hardware@.take(i as int)),
            decreases hardware.len() - i,
        {
            let item = &hardware[i];
            let ghost prefix = hardware@.take(i as int);
            let ghost next = hardware@.take(i + 1);
            assert(next.drop_last() == prefix);
            assert(next.last() == *item);
            let ghost hardware_before = self.hardware@;
            let ghost sensors_before = self.sensors@;

            let hardware_index = self.push_hardware(parent_index, &item.hardware);

            // Populate the sensors
            let mut j: usize = 0;
            while j < item.sensors.len()
                invariant
                    j <= item.sensors.len(),
                    self.wf(),
                    hardware_index < self.hardware@.len(),
                    self.hardware@ == hardware_before.push(
                        HardwareEntry { parent_index, hardware: item.hardware },
                    ),
                    self.sensors@ == sensors_before + sensor_entries_of(
                        item.sensors@.take(j as int),
                        hardware_index,
                    ),
                decreases item.sensors.len() - j,
            {
                let ghost sensors_now = self.sensors@;
                self.push_sensor(hardware_index, &item.sensors[j]);
                assert(self.sensors@ == sensors_before + sensor_entries_of(
                    item.sensors@.take(j + 1),
                    hardware_index,
                )) by {
                    assert(item.sensors@.take(j + 1) == item.sensors@.take(j as int).push(
                        item.sensors@[j as int],
                    ));
                }
                j += 1;
            }
            assert(item.sensors@.take(j as int) == item.sensors@);

            // Populate the cache with children
            self.populate_nodes(&item.children, Some(hardware_index));

            assert(self.hardware@ == start_hardware + flat_hardware(next, parent_index, base));
            assert(self.sensors@ == start_sensors + flat_sensors(next, base));
            i += 1;
        }
        assert(hardware@.take(i as int) == hardware@);
    }

    /// Appends the forest `hardware` below `parent_index`, depth first: each
    /// item, then its sensors, then its sub-hardware.
    pub fn populate(&mut self, hardware: Vec<HardwareNode>, parent_index: Option<usize>)
        requires
            old(self).wf(),
            parent_index matches Some(p) ==> p < old(self).hardware_entries().len(),
        ensures
            final(self).wf(),
            final(self).hardware_entries() == old(self).hardware_entries() + flat_hardware(
                hardware@,
                parent_index,
                old(self).hardware_entries().len(),
            ),
            final(self).sensor_entries() == old(self).sensor_entries() + flat_sensors(
                hardware@,
                old(self).hardware_entries().len(),
            ),
            final(self).hardware_entries().len() == old(self).hardware_entries().len()
                + hardware_count(hardware@),
            final(self).sensor_entries().len() == old(self).sensor_entries().len() + sensor_count(
                hardware@,
            ),
    {
        self.populate_nodes(&hardware, parent_index);
    }

    /// Replaces the whole cache by a new generation built from `hardware`.
    pub fn init(&mut self, hardware: Vec<HardwareNode>)
        ensures
            final(self).wf(),
            final(self).hardware_entries() == flat_hardware(hardware@, None, 0),
            final(self).sensor_entries() == flat_sensors(hardware@, 0),
            final(self).hardware_entries().len() == hardware_count(hardware@),
            final(self).sensor_entries().len() == sensor_count(hardware@),
    {
        self.clear();
        self.populate(hardware, None);
    }

    /// The hardware entry at `index`, if there is one.
    pub fn get_hardware_by_idx(&self, index: usize) -> (found: Option<&HardwareEntry>)
        ensures
            match found {
                Some(entry) => index < self.hardware_entries().len() && *entry
                    == self.hardware_entries()[index as int],
                None => index >= self.hardware_entries().len(),
            },
    {
        if index < self.hardware.len() {
            Some(&self.hardware[index])
        } else {
            None
        }
    }

    /// The sensor entry at `index`, if there is one.
    pub fn get_sensor_by_idx(&self, index: usize) -> (found: Option<&SensorEntry>)
        ensures
            match found {
                Some(entry) => index < self.sensor_entries().len() && *entry
                    == self.sensor_entries()[index as int],
                None => index >= self.sensor_entries().len(),
            },
    {
        if index < self.sensors.len() {
            Some(&self.sensors[index])
        } else {
            None
        }
    }

    /// Looks a hardware item up by its identifier. An unknown identifier
    /// gives `None`.
    pub fn get_hardware_by_id(&self, identifier: &str) -> (found: Option<(usize, &HardwareInfo)>)
        requires
            self.wf(),
        ensures
            match found {
                Some((index, hardware)) => {
                    &&& last_index_of(hardware_ids(self.hardware_entries()), identifier@) == Some(
                        index,
                    )
                    &&& index < self.hardware_entries().len()
                    &&& *hardware == self.hardware_entries()[index as int].hardware
                },
                None => last_index_of(hardware_ids(self.hardware_entries()), identifier@) is None,
            },
    {
        let ghost ids = hardware_ids(self.hardware@);
        match self.hardware_lookup.get(identifier) {
            Some(index) => {
                proof {
                    assert(is_last_occurrence(ids, identifier@, *index as int)) by {
                        assert forall|j: int| *index < j < ids.len() implies ids[j]
                            != identifier@ by {
                            assert(self.hardware_lookup@.contains_key(ids[j]));
                        }
                    }
                    lemma_last_occurrence_is_index(ids, identifier@, *index as int);
                }
                Some((*index, &self.hardware[*index].hardware))
            },
            None => {
                proof {
                    assert forall|i: int| !is_last_occurrence(ids, identifier@, i) by {
                        if 0 <= i < ids.len() {
                            assert(self.hardware_lookup@.contains_key(ids[i]));
                        }
                    }
                }
                None
            },
        }
    }

    /// Looks a sensor up by its identifier. An unknown identifier gives
    /// `None`.
    pub fn get_sensor_by_id(&self, identifier: &str) -> (found: Option<(usize, &SensorInfo)>)
        requires
            self.wf(),
        ensures
            match found {
                Some((index, sensor)) => {
                    &&& last_index_of(sensor_ids(self.sensor_entries()), identifier@) == Some(index)
                    &&& index < self.sensor_entries().len()
                    &&& *sensor == self.sensor_entries()[index as int].sensor
                },
                None => last_index_of(sensor_ids(self.sensor_entries()), identifier@) is None,
            },
    {
        let ghost ids = sensor_ids(self.sensors@);
        match self.sensor_lookup.get(identifier) {
            Some(index) => {
                proof {
                    assert(is_last_occurrence(ids, identifier@, *index as int)) by {
                        assert forall|j: int| *index < j < ids.len() implies ids[j]
                            != identifier@ by {
                            assert(self.sensor_lookup@.contains_key(ids[j]));
                        }
                    }
                    lemma_last_occurrence_is_index(ids, identifier@, *index as int);
                }
                Some((*index, &self.sensors[*index].sensor))
            },
            None => {
                proof {
                    assert forall|i: int| !is_last_occurrence(ids, identifier@, i) by {
                        if 0 <= i < ids.len() {
                            assert(self.sensor_lookup@.contains_key(ids[i]));
                        }
                    }
                }
                None
            },
        }
    }

    /// Lists the hardware entries that pass both filters, by ascending
    /// index, each with its index.
    pub fn query_hardware_iter(&self, parent_index: ParentIndex, ty: Option<HardwareType>) -> (found:
        Vec<(usize, &HardwareInfo)>)
        ensures
            lists_hardware(
                found@,
                self.hardware_entries(),
                selected_hardware(self.hardware_entries(), parent_index, ty),
            ),
    {
        let ty_value: Option<i32> = match ty {
            Some(value) => Some(value.to_i32()),
            None => None,
        };
        let mut found: Vec<(usize, &HardwareInfo)> = Vec::new();
        let mut i: usize = 0;
        while i < self.hardware.len()
            invariant
                i <= self.hardware@.len(),
                ty_value == match ty {
                    Some(value) => Some(value.code()),
                    None => None,
                },
                found@.len() == selected_hardware(self.hardware@.take(i as int), parent_index, ty).len(),
                forall|k: int|
                    0 <= k < found@.len() ==> {
                        &&& (#[trigger] found@[k]).0 == selected_hardware(
                            self.hardware@.take(i as int),
                            parent_index,
                            ty,
                        )[k]
                        &&& found@[k].0 < i
                        &&& *found@[k].1 == self.hardware@[found@[k].0 as int].hardware
                    },
            decreases self.hardware@.len() - i,
        {
            let entry = &self.hardware[i];
            assert(self.hardware@.take(i + 1).drop_last() == self.hardware@.take(i as int));
            assert(self.hardware@.take(i + 1).last() == *entry);
            // Filter by type
            let type_passes = match ty_value {
                Some(wanted) => entry.hardware.ty == wanted,
                None => true,
            };
            // Filter by parent
            let parent_passes = match parent_index {
                ParentIndex::Any => true,
                ParentIndex::Root => entry.parent_index.is_none(),
                ParentIndex::Index(wanted) => match entry.parent_index {
                    Some(parent) => parent == wanted,
                    None => false,
                },
            };
            if type_passes && parent_passes {
                found.push((i, &entry.hardware));
            }
            i += 1;
        }
        assert(self.hardware@.take(i as int) == self.hardware@);
        found
    }

    /// Lists the sensor entries that pass both filters, by ascending index,
    /// each with its index.
    pub fn query_sensors_iter(&self, parent_index: ParentIndex, ty: Option<SensorType>) -> (found:
        Vec<(usize, &SensorInfo)>)
        ensures
            lists_sensors(
                found@,
                self.sensor_entries(),
                selected_sensors(self.sensor_entries(), parent_index, ty),
            ),
    {
        let ty_value: Option<i32> = match ty {
            Some(value) => Some(value.to_i32()),
            None => None,
        };
        let mut found: Vec<(usize, &SensorInfo)> = Vec::new();
        let mut i: usize = 0;
        while i < self.sensors.len()
            invariant
                i <= self.sensors@.len(),
                ty_value == match ty {
                    Some(value) => Some(value.code()),
                    None => None,
                },
                found@.len() == selected_sensors(self.sensors@.take(i as int), parent_index, ty).len(),
                forall|k: int|
                    0 <= k < found@.len() ==> {
                        &&& (#[trigger] found@[k]).0 == selected_sensors(
                            self.sensors@.take(i as int),
                            parent_index,
                            ty,
                        )[k]
                        &&& found@[k].0 < i
                        &&& *found@[k].1 == self.sensors@[found@[k].0 as int].sensor
                    },
            decreases self.sensors@.len() - i,
        {
            let entry = &self.sensors[i];
            assert(self.sensors@.take(i + 1).drop_last() == self.sensors@.take(i as int));
            assert(self.sensors@.take(i + 1).last() == *entry);
            // Filter by type
            let type_passes = match ty_value {
                Some(wanted) => entry.sensor.ty == wanted,
                None => true,
            };
            // Filter by parent
            let parent_passes = match parent_index {
                ParentIndex::Any => true,
                ParentIndex::Root => false,
                ParentIndex::Index(wanted) => entry.parent_index == wanted,
            };
            if type_passes && parent_passes {
                found.push((i, &entry.sensor));
            }
            i += 1;
        }
        assert(self.sensors@.take(i as int) == self.sensors@);
        found
    }

    /// Turns a parent filter by identifier into one by index. `None` means
    /// that the filter names hardware the cache does not hold.
    pub fn resolve_parent_filter(&self, parent: &ParentFilter) -> (resolved: Option<ParentIndex>)
        requires
            self.wf(),
        ensures
            resolved == resolve_parent(hardware_ids(self.hardware_entries()), *parent),
    {
        match parent {
            ParentFilter::Any => Some(ParentIndex::Any),
            ParentFilter::Root => Some(ParentIndex::Root),
            ParentFilter::Id(identifier) => match self.get_hardware_by_id(identifier.as_str()) {
                Some((index, _)) => Some(ParentIndex::Index(index)),
                None => None,
            },
        }
    }

    /// Lists the hardware that passes both filters. A parent filter that
    /// names unknown hardware is an error, not an empty list.
    pub fn query_hardware(&self, hardware_identifier: &ParentFilter, ty: Option<HardwareType>) -> (found:
        Result<Vec<(usize, &HardwareInfo)>, QueryError>)
        requires
            self.wf(),
        ensures
            match resolve_parent(hardware_ids(self.hardware_entries()), *hardware_identifier) {
                Some(parent_index) => found matches Ok(list) && lists_hardware(
                    list@,
                    self.hardware_entries(),
                    selected_hardware(self.hardware_entries(), parent_index, ty),
                ),
                None => found == Err::<Vec<(usize, &HardwareInfo)>, QueryError>(
                    QueryError::ParentNotFound,
                ),
            },
    {
        match self.resolve_parent_filter(hardware_identifier) {
            Some(parent_index) => Ok(self.query_hardware_iter(parent_index, ty)),
            None => Err(QueryError::ParentNotFound),
        }
    }

    /// Lists the sensors that pass both filters. A parent filter that names
    /// unknown hardware is an error, not an empty list.
    pub fn query_sensors(&self, hardware_identifier: &ParentFilter, ty: Option<SensorType>) -> (found:
        Result<Vec<(usize, &SensorInfo)>, QueryError>)
        requires
            self.wf(),
        ensures
            match resolve_parent(hardware_ids(self.hardware_entries()), *hardware_identifier) {
                Some(parent_index) => found matches Ok(list) && lists_sensors(
                    list@,
                    self.sensor_entries(),
                    selected_sensors(self.sensor_entries(), parent_index, ty),
                ),
                None => found == Err::<Vec<(usize, &SensorInfo)>, QueryError>(
                    QueryError::ParentNotFound,
                ),
            },
    {
        match self.resolve_parent_filter(hardware_identifier) {
            Some(parent_index) => Ok(self.query_sensors_iter(parent_index, ty)),
            None => Err(QueryError::ParentNotFound),
        }
    }

    /// Hands out the reading of the sensor at `index` for a refresh in
    /// place. Whatever is written, every index and every other entry stays
    /// as it is.
    pub fn get_sensor_by_idx_mut(&mut self, index: usize) -> (slot: Option<&mut u32>)
        requires
            old(self).wf(),
        ensures
            final(self).hardware_entries() == old(self).hardware_entries(),
            match slot {
                Some(value) => {
                    &&& index < old(self).sensor_entries().len()
                    &&& *value == old(self).sensor_entries()[index as int].sensor.value
                    &&& final(self).sensor_entries() == with_reading(
                        old(self).sensor_entries(),
                        index as int,
                        *final(value),
                    )
                    &&& final(self).wf()
                },
                None => {
                    &&& index >= old(self).sensor_entries().len()
                    &&& final(self).sensor_entries() == old(self).sensor_entries()
                    &&& final(self).wf()
                },
            },
    {
        if index < self.sensors.len() {
            proof {
                assert forall|value: u32|
                    sensor_ids(#[trigger] with_reading(self.sensors@, index as int, value))
                        == sensor_ids(self.sensors@) && parents_precede(
                        self.hardware@,
                        with_reading(self.sensors@, index as int, value),
                    ) by {
                    lemma_with_reading_keeps_shape(
                        self.hardware@,
                        self.sensors@,
                        index as int,
                        value,
                    );
                }
            }
            Some(&mut self.sensors[index].sensor.value)
        } else {
            None
        }
    }

    /// Hands out the reading of the sensor with the given identifier for a
    /// refresh in place. Whatever is written, every index and every other
    /// entry stays as it is. An unknown identifier gives `None`.
    pub fn get_sensor_by_id_mut(&mut self, identifier: &str) -> (slot: Option<&mut u32>)
        requires
            old(self).wf(),
        ensures
            final(self).hardware_entries() == old(self).hardware_entries(),
            match last_index_of(sensor_ids(old(self).sensor_entries()), identifier@) {
                Some(index) => {
                    &&& slot matches Some(value)
                    &&& index < old(self).sensor_entries().len()
                    &&& *value == old(self).sensor_entries()[index as int].sensor.value
                    &&& final(self).sensor_entries() == with_reading(
                        old(self).sensor_entries(),
                        index as int,
                        *final(value),
                    )
                    &&& final(self).wf()
                },
                None => {
                    &&& slot is None
                    &&& final(self).sensor_entries() == old(self).sensor_entries()
                    &&& final(self).wf()
                },
            },
    {
        let index = match self.get_sensor_by_id(identifier) {
            Some((index, _)) => index,
            None => {
                return None;
            },
        };
        self.get_sensor_by_idx_mut(index)
    }

    /// Number of hardware entries in the current generation.
    pub fn hardware_len(&self) -> (len: usize)
        ensures
            len == self.hardware_entries().len(),
    {
        self.hardware.len()
    }

    /// Number of sensor entries in the current generation.
    pub fn sensor_len(&self) -> (len: usize)
        ensures
            len == self.sensor_entries().len(),
    {
        self.sensors.len()
    }
}

impl Default for HardwareCache {
    /// An empty cache.
    fn default() -> (cache: HardwareCache)
        ensures
            cache.wf(),
            cache.hardware_entries().len() == 0,
            cache.sensor_entries().len() == 0,
    {
        HardwareCache::new()
    }
}

/// A forest flattens to as many hardware entries as it has hardware items.
pub proof fn lemma_flat_hardware_len(nodes: Seq<HardwareNode>, parent: Option<usize>, base: nat)
    ensures
        flat_hardware(nodes, parent, base).len() == hardware_count(nodes),
    decreases nodes,
{
    if nodes.len() > 0 {
        let index = base + hardware_count(nodes.drop_last());
        lemma_flat_hardware_len(nodes.drop_last(), parent, base);
        lemma_flat_hardware_len(nodes.last().children@, Some(index as usize), index + 1);
    }
}

/// In the flattening of a forest every hardware entry with a parent comes
/// after that parent.
pub proof fn lemma_flat_hardware_parents(
    nodes: Seq<HardwareNode>,
    parent: Option<usize>,
    base: nat,
)
    requires
        parent matches Some(p) ==> p < base,
        base + hardware_count(nodes) <= usize::MAX,
    ensures
        forall|i: int|
            0 <= i < flat_hardware(nodes, parent, base).len() ==> ((#[trigger] flat_hardware(
                nodes,
                parent,
                base,
            )[i]).parent_index matches Some(p) ==> p < base + i),
    decreases nodes,
{
    if nodes.len() > 0 {
        let front = nodes.drop_last();
        let index = base + hardware_count(front);
        let children = nodes.last().children@;
        let before = flat_hardware(front, parent, base);
        let below = flat_hardware(children, Some(index as usize), index + 1);
        let own = HardwareEntry { parent_index: parent, hardware: nodes.last().hardware };
        lemma_flat_hardware_len(front, parent, base);
        lemma_flat_hardware_len(children, Some(index as usize), index + 1);
        lemma_flat_hardware_parents(front, parent, base);
        lemma_flat_hardware_parents(children, Some(index as usize), index + 1);
        let all = flat_hardware(nodes, parent, base);
        assert(all == before.push(own) + below);
        assert forall|i: int| 0 <= i < all.len() implies ((#[trigger] all[i]).parent_index matches Some(
            p,
        ) ==> p < base + i) by {
            if i < before.len() {
                assert(all[i] == before[i]);
            } else if i == before.len() {
                assert(all[i] == own);
            } else {
                assert(all[i] == below[i - before.len() - 1]);
            }
        }
    }
}

/// In the flattening of a forest every sensor belongs to a hardware entry
/// of that forest.
pub proof fn lemma_flat_sensors_parents(nodes: Seq<HardwareNode>, base: nat)
    requires
        base + hardware_count(nodes) <= usize::MAX,
    ensures
        forall|i: int|
            0 <= i < flat_sensors(nodes, base).len() ==> base <= (#[trigger] flat_sensors(
                nodes,
                base,
            )[i]).parent_index < base + hardware_count(nodes),
    decreases nodes,
{
    if nodes.len() > 0 {
        let front = nodes.drop_last();
        let index = base + hardware_count(front);
        let children = nodes.last().children@;
        let before = flat_sensors(front, base);
        let own = sensor_entries_of(nodes.last().sensors@, index as usize);
        let below = flat_sensors(children, index + 1);
        lemma_flat_sensors_parents(front, base);
        lemma_flat_sensors_parents(children, index + 1);
        let all = flat_sensors(nodes, base);
        assert(all == before + own + below);
        assert forall|i: int| 0 <= i < all.len() implies base <= (#[trigger] all[i]).parent_index
            < base + hardware_count(nodes) by {
            if i < before.len() {
                assert(all[i] == before[i]);
            } else if i < before.len() + own.len() {
                assert(all[i] == own[i - before.len()]);
            } else {
                assert(all[i] == below[i - before.len() - own.len()]);
            }
        }
    }
}

/// In every generation a hardware entry that has a parent has a greater
/// index than the parent, and every sensor belongs to a hardware entry of
/// the generation.
pub proof fn lemma_generation_parents_precede(tree: Seq<HardwareNode>)
    requires
        hardware_count(tree) <= usize::MAX,
    ensures
        parents_precede(flat_hardware(tree, None, 0), flat_sensors(tree, 0)),
{
    lemma_flat_hardware_len(tree, None, 0);
    lemma_flat_hardware_parents(tree, None, 0);
    lemma_flat_sensors_parents(tree, 0);
}

/// What a hardware query selects: indices in range, ascending, each of an
/// entry that passes the filters, and none of those left out.
pub proof fn lemma_selected_hardware(
    entries: Seq<HardwareEntry>,
    parent: ParentIndex,
    ty: Option<HardwareType>,
)
    ensures
        selected_hardware(entries, parent, ty).len() <= entries.len(),
        forall|k: int|
            0 <= k < selected_hardware(entries, parent, ty).len() ==> {
                let index = #[trigger] selected_hardware(entries, parent, ty)[k];
                0 <= index < entries.len() && hardware_matches(entries[index], parent, ty)
            },
        forall|k: int, l: int|
            0 <= k < l < selected_hardware(entries, parent, ty).len() ==> selected_hardware(
                entries,
                parent,
                ty,
            )[k] < selected_hardware(entries, parent, ty)[l],
        forall|i: int|
            0 <= i < entries.len() && hardware_matches(#[trigger] entries[i], parent, ty)
                ==> selected_hardware(entries, parent, ty).contains(i),
    decreases entries.len(),
{
    let selected = selected_hardware(entries, parent, ty);
    if entries.len() > 0 {
        let front = entries.drop_last();
        let rest = selected_hardware(front, parent, ty);
        lemma_selected_hardware(front, parent, ty);
        assert forall|k: int| 0 <= k < selected.len() implies {
            let index = #[trigger] selected[k];
            0 <= index < entries.len() && hardware_matches(entries[index], parent, ty)
        } by {
            if k < rest.len() {
                assert(selected[k] == rest[k]);
                assert(front[rest[k]] == entries[rest[k]]);
            }
        }
        assert forall|k: int, l: int| 0 <= k < l < selected.len() implies selected[k]
            < selected[l] by {
            assert(selected[k] == rest[k]);
            if l < rest.len() {
                assert(selected[l] == rest[l]);
            }
        }
        assert forall|i: int|
            0 <= i < entries.len() && hardware_matches(
                #[trigger] entries[i],
                parent,
                ty,
            ) implies selected.contains(i) by {
            if i < front.len() {
                assert(front[i] == entries[i]);
                assert(rest.contains(i));
                let k = choose|k: int| 0 <= k < rest.len() && rest[k] == i;
                assert(selected[k] == i);
            } else {
                assert(selected[selected.len() - 1] == i);
            }
        }
    }
}

/// What a sensor query selects: indices in range, ascending, each of an
/// entry that passes the filters, and none of those left out.
pub proof fn lemma_selected_sensors(
    entries: Seq<SensorEntry>,
    parent: ParentIndex,
    ty: Option<SensorType>,
)
    ensures
        selected_sensors(entries, parent, ty).len() <= entries.len(),
        forall|k: int|
            0 <= k < selected_sensors(entries, parent, ty).len() ==> {
                let index = #[trigger] selected_sensors(entries, parent, ty)[k];
                0 <= index < entries.len() && sensor_matches(entries[index], parent, ty)
            },
        forall|k: int, l: int|
            0 <= k < l < selected_sensors(entries, parent, ty).len() ==> selected_sensors(
                entries,
                parent,
                ty,
            )[k] < selected_sensors(entries, parent, ty)[l],
        forall|i: int|
            0 <= i < entries.len() && sensor_matches(#[trigger] entries[i], parent, ty)
                ==> selected_sensors(entries, parent, ty).contains(i),
    decreases entries.len(),
{
    let selected = selected_sensors(entries, parent, ty);
    if entries.len() > 0 {
        let front = entries.drop_last();
        let rest = selected_sensors(front, parent, ty);
        lemma_selected_sensors(front, parent, ty);
        assert forall|k: int| 0 <= k < selected.len() implies {
            let index = #[trigger] selected[k];
            0 <= index < entries.len() && sensor_matches(entries[index], parent, ty)
        } by {
            if k < rest.len() {
                assert(selected[k] == rest[k]);
                assert(front[rest[k]] == entries[rest[k]]);
            }
        }
        assert forall|k: int, l: int| 0 <= k < l < selected.len() implies selected[k]
            < selected[l] by {
            assert(selected[k] == rest[k]);
            if l < rest.len() {
                assert(selected[l] == rest[l]);
            }
        }
        assert forall|i: int|
            0 <= i < entries.len() && sensor_matches(
                #[trigger] entries[i],
                parent,
                ty,
            ) implies selected.contains(i) by {
            if i < front.len() {
                assert(front[i] == entries[i]);
                assert(rest.contains(i));
                let k = choose|k: int| 0 <= k < rest.len() && rest[k] == i;
                assert(selected[k] == i);
            } else {
                assert(selected[selected.len() - 1] == i);
            }
        }
    }
}

/// A query without filters selects every hardware entry, in order.
pub proof fn lemma_unfiltered_selects_all(entries: Seq<HardwareEntry>)
    ensures
        selected_hardware(entries, ParentIndex::Any, None).len() == entries.len(),
        forall|k: int|
            0 <= k < entries.len() ==> #[trigger] selected_hardware(
                entries,
                ParentIndex::Any,
                None,
            )[k] == k,
    decreases entries.len(),
{
    if entries.len() > 0 {
        lemma_unfiltered_selects_all(entries.drop_last());
    }
}

/// In a cache every hardware entry that has a parent comes after that
/// parent, and every sensor belongs to hardware the cache holds.
pub proof fn lemma_parents_precede(cache: HardwareCache)
    requires
        cache.wf(),
    ensures
        forall|i: int|
            0 <= i < cache.hardware_entries().len() ==> ((#[trigger] cache.hardware_entries()[i]).parent_index matches Some(
                parent,
            ) ==> parent < i),
        forall|i: int|
            0 <= i < cache.sensor_entries().len() ==> (#[trigger] cache.sensor_entries()[i]).parent_index
                < cache.hardware_entries().len(),
{
}

/// Right after a full reload from `tree`, a hardware query without filters
/// lists exactly as many entries as the tree has hardware items, and a
/// query for roots lists only entries without a parent.
pub proof fn lemma_queries_after_reload(tree: Seq<HardwareNode>)
    ensures
        selected_hardware(flat_hardware(tree, None, 0), ParentIndex::Any, None).len()
            == hardware_count(tree),
        forall|k: int|
            0 <= k < selected_hardware(flat_hardware(tree, None, 0), ParentIndex::Root, None).len()
                ==> flat_hardware(tree, None, 0)[#[trigger] selected_hardware(
                flat_hardware(tree, None, 0),
                ParentIndex::Root,
                None,
            )[k]].parent_index is None,
{
    let entries = flat_hardware(tree, None, 0);
    lemma_flat_hardware_len(tree, None, 0);
    lemma_unfiltered_selects_all(entries);
    lemma_selected_hardware(entries, ParentIndex::Root, None);
}

} // verus!
