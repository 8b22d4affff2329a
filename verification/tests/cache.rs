use lhm::cache::{
    HardwareCache, HardwareInfo, HardwareNode, ParentIndex, QueryError, SensorInfo,
};
use lhm::protocol::{HardwareType, ParentFilter, SensorType};

fn sensor(identifier: &str, ty: i32, value: f32) -> SensorInfo {
    SensorInfo {
        identifier: identifier.to_string(),
        name: format!("{identifier} name"),
        ty,
        value: value.to_bits(),
    }
}

fn node(identifier: &str, ty: i32, sensors: Vec<SensorInfo>, children: Vec<HardwareNode>) -> HardwareNode {
    HardwareNode {
        hardware: HardwareInfo {
            identifier: identifier.to_string(),
            name: format!("{identifier} name"),
            ty,
        },
        sensors,
        children,
    }
}

/// board(0) { io(1) { fan sensors }, ec(2) }, cpu(3) { temp, load }, gpu(4)
fn tree() -> Vec<HardwareNode> {
    vec![
        node(
            "/board",
            0,
            vec![],
            vec![
                node(
                    "/board/io",
                    1,
                    vec![sensor("/board/io/fan/0", 7, 900.0), sensor("/board/io/temp/0", 4, 35.5)],
                    vec![],
                ),
                node("/board/ec", 10, vec![], vec![]),
            ],
        ),
        node(
            "/cpu/0",
            2,
            vec![sensor("/cpu/0/temp/0", 4, 61.0), sensor("/cpu/0/load/0", 5, 12.5)],
            vec![],
        ),
        node("/gpu/0", 4, vec![sensor("/gpu/0/temp/0", 4, 48.0)], vec![]),
    ]
}

fn loaded() -> HardwareCache {
    let mut cache = HardwareCache::new();
    cache.init(tree());
    cache
}

fn hardware_ids(found: &[(usize, &HardwareInfo)]) -> Vec<(usize, String)> {
    found.iter().map(|(index, info)| (*index, info.identifier.clone())).collect()
}

fn sensor_ids(found: &[(usize, &SensorInfo)]) -> Vec<(usize, String)> {
    found.iter().map(|(index, info)| (*index, info.identifier.clone())).collect()
}

fn pairs(expected: &[(usize, &str)]) -> Vec<(usize, String)> {
    expected.iter().map(|(index, id)| (*index, id.to_string())).collect()
}

#[test]
fn new_cache_is_empty() {
    let cache = HardwareCache::new();
    assert_eq!(cache.hardware_len(), 0);
    assert_eq!(cache.sensor_len(), 0);
    assert!(cache.get_hardware_by_id("/cpu/0").is_none());
    assert!(cache.query_hardware_iter(ParentIndex::Any, None).is_empty());
    let cache = HardwareCache::default();
    assert_eq!(cache.hardware_len(), 0);
}

#[test]
fn init_numbers_hardware_depth_first() {
    let cache = loaded();
    assert_eq!(cache.hardware_len(), 5);
    let all = cache.query_hardware_iter(ParentIndex::Any, None);
    assert_eq!(
        hardware_ids(&all),
        pairs(&[(0, "/board"), (1, "/board/io"), (2, "/board/ec"), (3, "/cpu/0"), (4, "/gpu/0")])
    );
}

#[test]
fn init_numbers_sensors_in_walk_order() {
    let cache = loaded();
    assert_eq!(cache.sensor_len(), 5);
    let all = cache.query_sensors_iter(ParentIndex::Any, None);
    assert_eq!(
        sensor_ids(&all),
        pairs(&[
            (0, "/board/io/fan/0"),
            (1, "/board/io/temp/0"),
            (2, "/cpu/0/temp/0"),
            (3, "/cpu/0/load/0"),
            (4, "/gpu/0/temp/0"),
        ])
    );
}

#[test]
fn parents_come_before_children() {
    let cache = loaded();
    let parents: Vec<Option<usize>> = (0..cache.hardware_len())
        .map(|index| cache.get_hardware_by_idx(index).unwrap().parent_index)
        .collect();
    assert_eq!(parents, vec![None, Some(0), Some(0), None, None]);
    for (index, parent) in parents.iter().enumerate() {
        if let Some(parent) = parent {
            assert!(*parent < index);
        }
    }
    let sensor_parents: Vec<usize> = (0..cache.sensor_len())
        .map(|index| cache.get_sensor_by_idx(index).unwrap().parent_index)
        .collect();
    assert_eq!(sensor_parents, vec![1, 1, 3, 3, 4]);
}

#[test]
fn deep_tree_keeps_parent_chain() {
    let deep = vec![node(
        "a",
        0,
        vec![],
        vec![node("b", 0, vec![], vec![node("c", 0, vec![sensor("c/s", 1, 1.0)], vec![])])],
    ), node("d", 0, vec![], vec![])];
    let mut cache = HardwareCache::new();
    cache.init(deep);
    let parents: Vec<Option<usize>> = (0..cache.hardware_len())
        .map(|index| cache.get_hardware_by_idx(index).unwrap().parent_index)
        .collect();
    assert_eq!(parents, vec![None, Some(0), Some(1), None]);
    assert_eq!(cache.get_sensor_by_idx(0).unwrap().parent_index, 2);
    assert_eq!(cache.get_hardware_by_id("d").unwrap().0, 3);
}

#[test]
fn init_replaces_the_generation() {
    let mut cache = loaded();
    cache.init(vec![node("/only", 2, vec![sensor("/only/s", 4, 1.0)], vec![])]);
    assert_eq!(cache.hardware_len(), 1);
    assert_eq!(cache.sensor_len(), 1);
    assert!(cache.get_hardware_by_id("/cpu/0").is_none());
    assert!(cache.get_sensor_by_id("/cpu/0/temp/0").is_none());
    assert_eq!(cache.get_hardware_by_id("/only").unwrap().0, 0);
    assert_eq!(cache.get_sensor_by_id("/only/s").unwrap().0, 0);
}

#[test]
fn clear_forgets_everything() {
    let mut cache = loaded();
    cache.clear();
    assert_eq!(cache.hardware_len(), 0);
    assert_eq!(cache.sensor_len(), 0);
    assert!(cache.get_hardware_by_id("/board").is_none());
    assert!(cache.get_sensor_by_id("/gpu/0/temp/0").is_none());
}

#[test]
fn populate_appends_below_a_parent() {
    let mut cache = loaded();
    cache.populate(vec![node("/gpu/0/fan", 9, vec![sensor("/gpu/0/fan/rpm", 7, 1200.0)], vec![])], Some(4));
    assert_eq!(cache.hardware_len(), 6);
    let (index, info) = cache.get_hardware_by_id("/gpu/0/fan").unwrap();
    assert_eq!(index, 5);
    assert_eq!(info.ty, 9);
    assert_eq!(cache.get_hardware_by_idx(5).unwrap().parent_index, Some(4));
    let entry = cache.get_sensor_by_idx(5).unwrap();
    assert_eq!(entry.parent_index, 5);
    assert_eq!(entry.sensor.identifier, "/gpu/0/fan/rpm");
    // the entries that were there stay where they were
    assert_eq!(cache.get_hardware_by_id("/cpu/0").unwrap().0, 3);
}

#[test]
fn hardware_is_found_by_identifier() {
    let cache = loaded();
    let (index, info) = cache.get_hardware_by_id("/cpu/0").unwrap();
    assert_eq!(index, 3);
    assert_eq!(info.identifier, "/cpu/0");
    assert_eq!(info.name, "/cpu/0 name");
    assert_eq!(info.ty, 2);
    assert!(cache.get_hardware_by_id("/cpu/1").is_none());
    assert!(cache.get_hardware_by_id("").is_none());
    // a sensor identifier is no hardware identifier
    assert!(cache.get_hardware_by_id("/cpu/0/temp/0").is_none());
}

#[test]
fn sensor_is_found_by_identifier() {
    let cache = loaded();
    let (index, info) = cache.get_sensor_by_id("/cpu/0/load/0").unwrap();
    assert_eq!(index, 3);
    assert_eq!(info.ty, 5);
    assert_eq!(f32::from_bits(info.value), 12.5);
    assert!(cache.get_sensor_by_id("/cpu/0").is_none());
}

#[test]
fn entries_are_found_by_index() {
    let cache = loaded();
    assert_eq!(cache.get_hardware_by_idx(4).unwrap().hardware.identifier, "/gpu/0");
    assert!(cache.get_hardware_by_idx(5).is_none());
    assert_eq!(cache.get_sensor_by_idx(0).unwrap().sensor.identifier, "/board/io/fan/0");
    assert!(cache.get_sensor_by_idx(5).is_none());
    assert!(cache.get_sensor_by_idx(usize::MAX).is_none());
}

#[test]
fn repeated_identifier_leads_to_the_last_entry() {
    let mut cache = HardwareCache::new();
    cache.init(vec![
        node("dup", 1, vec![sensor("s", 1, 1.0)], vec![]),
        node("other", 2, vec![], vec![]),
        node("dup", 3, vec![sensor("s", 2, 2.0)], vec![]),
    ]);
    let (index, info) = cache.get_hardware_by_id("dup").unwrap();
    assert_eq!((index, info.ty), (2, 3));
    let (index, info) = cache.get_sensor_by_id("s").unwrap();
    assert_eq!((index, info.ty), (1, 2));
    assert_eq!(cache.hardware_len(), 3);
}

#[test]
fn query_without_filters_lists_every_hardware_node() {
    let cache = loaded();
    assert_eq!(cache.query_hardware_iter(ParentIndex::Any, None).len(), 5);
    assert_eq!(cache.query_hardware(&ParentFilter::Any, None).unwrap().len(), 5);
}

#[test]
fn query_for_roots_lists_only_roots() {
    let cache = loaded();
    let roots = cache.query_hardware_iter(ParentIndex::Root, None);
    assert_eq!(hardware_ids(&roots), pairs(&[(0, "/board"), (3, "/cpu/0"), (4, "/gpu/0")]));
    for (index, _) in &roots {
        assert_eq!(cache.get_hardware_by_idx(*index).unwrap().parent_index, None);
    }
    let roots = cache.query_hardware(&ParentFilter::Root, None).unwrap();
    assert_eq!(roots.len(), 3);
}

#[test]
fn query_by_parent_lists_its_children() {
    let cache = loaded();
    let children = cache.query_hardware_iter(ParentIndex::Index(0), None);
    assert_eq!(hardware_ids(&children), pairs(&[(1, "/board/io"), (2, "/board/ec")]));
    assert!(cache.query_hardware_iter(ParentIndex::Index(3), None).is_empty());
    assert!(cache.query_hardware_iter(ParentIndex::Index(99), None).is_empty());
    let children = cache
        .query_hardware(&ParentFilter::Id("/board".to_string()), None)
        .unwrap();
    assert_eq!(hardware_ids(&children), pairs(&[(1, "/board/io"), (2, "/board/ec")]));
}

#[test]
fn query_by_type_asks_for_that_type() {
    let cache = loaded();
    let cpus = cache.query_hardware_iter(ParentIndex::Any, Some(HardwareType::Cpu));
    assert_eq!(hardware_ids(&cpus), pairs(&[(3, "/cpu/0")]));
    let none = cache.query_hardware_iter(ParentIndex::Any, Some(HardwareType::Battery));
    assert!(none.is_empty());
    let numbered = cache.query_hardware_iter(ParentIndex::Any, Some(HardwareType::Unknown(10)));
    assert_eq!(hardware_ids(&numbered), pairs(&[(2, "/board/ec")]));
}

#[test]
fn query_filters_combine() {
    let cache = loaded();
    let found = cache.query_hardware_iter(ParentIndex::Index(0), Some(HardwareType::SuperIO));
    assert_eq!(hardware_ids(&found), pairs(&[(1, "/board/io")]));
    let found = cache.query_hardware_iter(ParentIndex::Root, Some(HardwareType::SuperIO));
    assert!(found.is_empty());
}

#[test]
fn query_with_unknown_parent_is_an_error() {
    let cache = loaded();
    let found = cache.query_hardware(&ParentFilter::Id("/nowhere".to_string()), None);
    assert_eq!(found.unwrap_err(), QueryError::ParentNotFound);
    let found = cache.query_sensors(&ParentFilter::Id("/nowhere".to_string()), None);
    assert_eq!(found.unwrap_err(), QueryError::ParentNotFound);
    assert_eq!(QueryError::ParentNotFound.message(), "parent hardware not found");
}

#[test]
fn query_with_known_parent_and_no_match_is_empty() {
    let cache = loaded();
    let found = cache
        .query_hardware(&ParentFilter::Id("/cpu/0".to_string()), None)
        .unwrap();
    assert!(found.is_empty());
}

#[test]
fn parent_filter_resolves_to_an_index() {
    let cache = loaded();
    assert_eq!(cache.resolve_parent_filter(&ParentFilter::Any), Some(ParentIndex::Any));
    assert_eq!(cache.resolve_parent_filter(&ParentFilter::Root), Some(ParentIndex::Root));
    assert_eq!(
        cache.resolve_parent_filter(&ParentFilter::Id("/gpu/0".to_string())),
        Some(ParentIndex::Index(4))
    );
    assert_eq!(cache.resolve_parent_filter(&ParentFilter::Id("x".to_string())), None);
}

#[test]
fn sensor_queries_filter_by_parent_and_type() {
    let cache = loaded();
    let of_cpu = cache.query_sensors_iter(ParentIndex::Index(3), None);
    assert_eq!(sensor_ids(&of_cpu), pairs(&[(2, "/cpu/0/temp/0"), (3, "/cpu/0/load/0")]));
    let temps = cache.query_sensors_iter(ParentIndex::Any, Some(SensorType::Temperature));
    assert_eq!(
        sensor_ids(&temps),
        pairs(&[(1, "/board/io/temp/0"), (2, "/cpu/0/temp/0"), (4, "/gpu/0/temp/0")])
    );
    let cpu_temps = cache
        .query_sensors(&ParentFilter::Id("/cpu/0".to_string()), Some(SensorType::Temperature))
        .unwrap();
    assert_eq!(sensor_ids(&cpu_temps), pairs(&[(2, "/cpu/0/temp/0")]));
    // a sensor always has a parent
    assert!(cache.query_sensors_iter(ParentIndex::Root, None).is_empty());
    assert!(cache.query_sensors(&ParentFilter::Root, None).unwrap().is_empty());
}

#[test]
fn reading_is_refreshed_in_place_by_index() {
    let mut cache = loaded();
    {
        let slot = cache.get_sensor_by_idx_mut(2).unwrap();
        assert_eq!(f32::from_bits(*slot), 61.0);
        *slot = 70.25f32.to_bits();
    }
    let (index, info) = cache.get_sensor_by_id("/cpu/0/temp/0").unwrap();
    assert_eq!(index, 2);
    assert_eq!(f32::from_bits(info.value), 70.25);
    // nothing else moved
    assert_eq!(f32::from_bits(cache.get_sensor_by_idx(3).unwrap().sensor.value), 12.5);
    assert_eq!(cache.sensor_len(), 5);
    assert_eq!(cache.hardware_len(), 5);
    assert!(cache.get_sensor_by_idx_mut(5).is_none());
}

#[test]
fn reading_is_refreshed_in_place_by_identifier() {
    let mut cache = loaded();
    *cache.get_sensor_by_id_mut("/gpu/0/temp/0").unwrap() = f32::NAN.to_bits();
    let value = cache.get_sensor_by_idx(4).unwrap().sensor.value;
    assert!(f32::from_bits(value).is_nan());
    assert!(cache.get_sensor_by_id_mut("/gpu/1/temp/0").is_none());
    assert_eq!(cache.get_sensor_by_id("/gpu/0/temp/0").unwrap().0, 4);
}

#[test]
fn empty_forest_gives_empty_cache() {
    let mut cache = loaded();
    cache.init(vec![]);
    assert_eq!(cache.hardware_len(), 0);
    assert_eq!(cache.sensor_len(), 0);
    assert!(cache.query_hardware(&ParentFilter::Any, None).unwrap().is_empty());
}
