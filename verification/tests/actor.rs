use lhm::actor::{ComputerActor, ProviderCall, ProviderReply, SensorReading};
use lhm::cache::{HardwareInfo, HardwareNode, SensorInfo};
use lhm::protocol::{
    ComputerOptions, Hardware, HardwareType, ParentFilter, PipeRequest, PipeResponse, Sensor,
    SensorType,
};

fn probe(identifier: &str, ty: i32, value: f32) -> SensorInfo {
    SensorInfo {
        identifier: identifier.to_string(),
        name: format!("{identifier} name"),
        ty,
        value: value.to_bits(),
    }
}

fn item(identifier: &str, ty: i32, sensors: Vec<SensorInfo>, children: Vec<HardwareNode>) -> HardwareNode {
    HardwareNode {
        hardware: HardwareInfo {
            identifier: identifier.to_string(),
            name: format!("{identifier} name"),
            ty,
        },
        sensors,
        children,
    }
}

fn machine() -> Vec<HardwareNode> {
    vec![
        item(
            "/board",
            0,
            vec![],
            vec![item("/board/io", 1, vec![probe("/board/io/fan/0", 7, 900.0)], vec![])],
        ),
        item(
            "/cpu/0",
            2,
            vec![probe("/cpu/0/temp/0", 4, 61.0), probe("/cpu/0/load/0", 5, 12.5)],
            vec![],
        ),
    ]
}

fn reloaded() -> ComputerActor {
    let mut actor = ComputerActor::new();
    let response = actor.handle_request(
        PipeRequest::UpdateAll,
        ProviderReply::Snapshot { hardware: machine() },
    );
    assert_eq!(response, PipeResponse::Success);
    actor
}

fn by_id(id: &str, update: bool) -> PipeRequest {
    PipeRequest::GetSensorValueById { id: id.to_string(), update }
}

#[test]
fn fresh_actor_has_an_empty_cache() {
    let mut actor = ComputerActor::new();
    assert_eq!(actor.cache().hardware_len(), 0);
    let response = actor.handle_request(
        PipeRequest::QueryHardware { parent_id: ParentFilter::Any, ty: None },
        ProviderReply::Done,
    );
    assert_eq!(response, PipeResponse::Hardwares { hardware: vec![] });
}

#[test]
fn set_options_goes_to_the_provider_and_succeeds() {
    let mut actor = ComputerActor::new();
    let options = ComputerOptions { cpu_enabled: true, ..ComputerOptions::default() };
    let request = PipeRequest::SetOptions { options };
    assert_eq!(actor.provider_call(&request), ProviderCall::SetOptions { options });
    assert_eq!(actor.handle_request(request, ProviderReply::Done), PipeResponse::Success);
    // no reload follows
    assert_eq!(actor.cache().hardware_len(), 0);
}

#[test]
fn update_all_asks_for_a_reload_and_builds_a_generation() {
    let mut actor = ComputerActor::new();
    assert_eq!(actor.provider_call(&PipeRequest::UpdateAll), ProviderCall::Reload);
    let response = actor.handle_request(
        PipeRequest::UpdateAll,
        ProviderReply::Snapshot { hardware: machine() },
    );
    assert_eq!(response, PipeResponse::Success);
    assert_eq!(actor.cache().hardware_len(), 3);
    assert_eq!(actor.cache().sensor_len(), 3);
}

#[test]
fn update_all_without_snapshot_is_an_error_and_keeps_the_cache() {
    let mut actor = reloaded();
    let response = actor.handle_request(PipeRequest::UpdateAll, ProviderReply::Done);
    assert_eq!(
        response,
        PipeResponse::Error { error: "hardware provider returned no snapshot".to_string() }
    );
    assert_eq!(actor.cache().hardware_len(), 3);
}

#[test]
fn update_all_discards_the_old_generation() {
    let mut actor = reloaded();
    actor.handle_request(
        PipeRequest::UpdateAll,
        ProviderReply::Snapshot { hardware: vec![item("/new", 7, vec![], vec![])] },
    );
    assert_eq!(actor.cache().hardware_len(), 1);
    assert_eq!(actor.cache().sensor_len(), 0);
    let response = actor.handle_request(
        PipeRequest::GetHardwareById { id: "/cpu/0".to_string() },
        ProviderReply::Done,
    );
    assert_eq!(response, PipeResponse::Hardware { hardware: None });
}

#[test]
fn query_hardware_after_reload_counts_every_node() {
    let mut actor = reloaded();
    let response = actor.handle_request(
        PipeRequest::QueryHardware { parent_id: ParentFilter::Any, ty: None },
        ProviderReply::Done,
    );
    match response {
        PipeResponse::Hardwares { hardware } => {
            assert_eq!(hardware.len(), 3);
            let indices: Vec<usize> = hardware.iter().map(|entry| entry.index).collect();
            assert_eq!(indices, vec![0, 1, 2]);
        }
        other => panic!("unexpected response {other:?}"),
    }
}

#[test]
fn query_hardware_for_roots() {
    let mut actor = reloaded();
    let request = PipeRequest::QueryHardware { parent_id: ParentFilter::Root, ty: None };
    assert_eq!(actor.provider_call(&request), ProviderCall::Nothing);
    let response = actor.handle_request(request, ProviderReply::Done);
    assert_eq!(
        response,
        PipeResponse::Hardwares {
            hardware: vec![
                Hardware {
                    index: 0,
                    identifier: "/board".to_string(),
                    name: "/board name".to_string(),
                    ty: HardwareType::Motherboard,
                },
                Hardware {
                    index: 2,
                    identifier: "/cpu/0".to_string(),
                    name: "/cpu/0 name".to_string(),
                    ty: HardwareType::Cpu,
                },
            ]
        }
    );
}

#[test]
fn query_hardware_by_parent_and_type() {
    let mut actor = reloaded();
    let response = actor.handle_request(
        PipeRequest::QueryHardware {
            parent_id: ParentFilter::Id("/board".to_string()),
            ty: Some(HardwareType::SuperIO),
        },
        ProviderReply::Done,
    );
    assert_eq!(
        response,
        PipeResponse::Hardwares {
            hardware: vec![Hardware {
                index: 1,
                identifier: "/board/io".to_string(),
                name: "/board/io name".to_string(),
                ty: HardwareType::SuperIO,
            }]
        }
    );
}

#[test]
fn query_with_unknown_parent_is_answered_by_an_error() {
    let mut actor = reloaded();
    let response = actor.handle_request(
        PipeRequest::QueryHardware { parent_id: ParentFilter::Id("/gone".to_string()), ty: None },
        ProviderReply::Done,
    );
    assert_eq!(response, PipeResponse::Error { error: "parent hardware not found".to_string() });
    let response = actor.handle_request(
        PipeRequest::QuerySensors { parent_id: ParentFilter::Id("/gone".to_string()), ty: None },
        ProviderReply::Done,
    );
    assert_eq!(response, PipeResponse::Error { error: "parent hardware not found".to_string() });
}

#[test]
fn query_with_no_match_is_an_empty_list() {
    let mut actor = reloaded();
    let response = actor.handle_request(
        PipeRequest::QueryHardware { parent_id: ParentFilter::Any, ty: Some(HardwareType::Battery) },
        ProviderReply::Done,
    );
    assert_eq!(response, PipeResponse::Hardwares { hardware: vec![] });
}

#[test]
fn get_hardware_by_id_known_and_unknown() {
    let mut actor = reloaded();
    let request = PipeRequest::GetHardwareById { id: "/board/io".to_string() };
    assert_eq!(actor.provider_call(&request), ProviderCall::Nothing);
    assert_eq!(
        actor.handle_request(request, ProviderReply::Done),
        PipeResponse::Hardware {
            hardware: Some(Hardware {
                index: 1,
                identifier: "/board/io".to_string(),
                name: "/board/io name".to_string(),
                ty: HardwareType::SuperIO,
            })
        }
    );
    assert_eq!(
        actor.handle_request(
            PipeRequest::GetHardwareById { id: "/nope".to_string() },
            ProviderReply::Done
        ),
        PipeResponse::Hardware { hardware: None }
    );
}

#[test]
fn get_sensor_by_id_known_and_unknown() {
    let mut actor = reloaded();
    assert_eq!(
        actor.handle_request(
            PipeRequest::GetSensorById { id: "/cpu/0/load/0".to_string() },
            ProviderReply::Done
        ),
        PipeResponse::Sensor {
            sensor: Some(Sensor {
                index: 2,
                identifier: "/cpu/0/load/0".to_string(),
                name: "/cpu/0/load/0 name".to_string(),
                ty: SensorType::Load,
                value: 12.5f32.to_bits(),
            })
        }
    );
    assert_eq!(
        actor.handle_request(
            PipeRequest::GetSensorById { id: "/cpu/0".to_string() },
            ProviderReply::Done
        ),
        PipeResponse::Sensor { sensor: None }
    );
}

#[test]
fn query_sensors_by_parent() {
    let mut actor = reloaded();
    let response = actor.handle_request(
        PipeRequest::QuerySensors {
            parent_id: ParentFilter::Id("/cpu/0".to_string()),
            ty: Some(SensorType::Temperature),
        },
        ProviderReply::Done,
    );
    assert_eq!(
        response,
        PipeResponse::Sensors {
            sensors: vec![Sensor {
                index: 1,
                identifier: "/cpu/0/temp/0".to_string(),
                name: "/cpu/0/temp/0 name".to_string(),
                ty: SensorType::Temperature,
                value: 61.0f32.to_bits(),
            }]
        }
    );
}

#[test]
fn cached_value_needs_no_provider_call() {
    let mut actor = reloaded();
    let request = by_id("/cpu/0/temp/0", false);
    assert_eq!(actor.provider_call(&request), ProviderCall::Nothing);
    assert_eq!(
        actor.handle_request(request, ProviderReply::Done),
        PipeResponse::SensorValue { value: Some(61.0f32.to_bits()) }
    );
    let request = PipeRequest::GetSensorValueByIndex { idx: 2, update: false };
    assert_eq!(actor.provider_call(&request), ProviderCall::Nothing);
    assert_eq!(
        actor.handle_request(request, ProviderReply::Done),
        PipeResponse::SensorValue { value: Some(12.5f32.to_bits()) }
    );
}

#[test]
fn updated_value_takes_one_refresh_of_that_sensor() {
    let mut actor = reloaded();
    let request = by_id("/cpu/0/temp/0", true);
    assert_eq!(actor.provider_call(&request), ProviderCall::UpdateSensor { index: 1 });
    let reply = ProviderReply::Readings {
        readings: vec![SensorReading { index: 1, value: 64.5f32.to_bits() }],
    };
    assert_eq!(
        actor.handle_request(request, reply),
        PipeResponse::SensorValue { value: Some(64.5f32.to_bits()) }
    );
    // the new reading stays in the cache
    assert_eq!(
        actor.handle_request(by_id("/cpu/0/temp/0", false), ProviderReply::Done),
        PipeResponse::SensorValue { value: Some(64.5f32.to_bits()) }
    );
    // the neighbours keep their readings
    assert_eq!(
        actor.handle_request(by_id("/cpu/0/load/0", false), ProviderReply::Done),
        PipeResponse::SensorValue { value: Some(12.5f32.to_bits()) }
    );
}

#[test]
fn updated_value_by_index() {
    let mut actor = reloaded();
    let request = PipeRequest::GetSensorValueByIndex { idx: 0, update: true };
    assert_eq!(actor.provider_call(&request), ProviderCall::UpdateSensor { index: 0 });
    let reply = ProviderReply::Readings {
        readings: vec![SensorReading { index: 0, value: 1000.0f32.to_bits() }],
    };
    assert_eq!(
        actor.handle_request(request, reply),
        PipeResponse::SensorValue { value: Some(1000.0f32.to_bits()) }
    );
}

#[test]
fn unknown_sensor_is_absent_and_needs_no_call() {
    let mut actor = reloaded();
    let request = by_id("/cpu/9/temp/0", true);
    assert_eq!(actor.provider_call(&request), ProviderCall::Nothing);
    assert_eq!(
        actor.handle_request(request, ProviderReply::Done),
        PipeResponse::SensorValue { value: None }
    );
    let request = PipeRequest::GetSensorValueByIndex { idx: 3, update: true };
    assert_eq!(actor.provider_call(&request), ProviderCall::Nothing);
    assert_eq!(
        actor.handle_request(request, ProviderReply::Done),
        PipeResponse::SensorValue { value: None }
    );
}

#[test]
fn update_requests_name_the_entry_to_refresh() {
    let actor = reloaded();
    assert_eq!(
        actor.provider_call(&PipeRequest::UpdateHardwareById { id: "/cpu/0".to_string() }),
        ProviderCall::UpdateHardware { index: 2 }
    );
    assert_eq!(
        actor.provider_call(&PipeRequest::UpdateHardwareByIndex { idx: 1 }),
        ProviderCall::UpdateHardware { index: 1 }
    );
    assert_eq!(
        actor.provider_call(&PipeRequest::UpdateSensorById { id: "/board/io/fan/0".to_string() }),
        ProviderCall::UpdateSensor { index: 0 }
    );
    assert_eq!(
        actor.provider_call(&PipeRequest::UpdateSensorByIndex { idx: 2 }),
        ProviderCall::UpdateSensor { index: 2 }
    );
}

#[test]
fn update_of_unknown_entry_is_a_no_op() {
    let mut actor = reloaded();
    let requests = [
        PipeRequest::UpdateHardwareById { id: "/x".to_string() },
        PipeRequest::UpdateHardwareByIndex { idx: 3 },
        PipeRequest::UpdateSensorById { id: "/x".to_string() },
        PipeRequest::UpdateSensorByIndex { idx: 3 },
    ];
    for request in requests {
        assert_eq!(actor.provider_call(&request), ProviderCall::Nothing);
        assert_eq!(actor.handle_request(request, ProviderReply::Done), PipeResponse::Success);
    }
    assert_eq!(actor.cache().sensor_len(), 3);
}

#[test]
fn hardware_update_stores_the_readings_of_its_sensors() {
    let mut actor = reloaded();
    let request = PipeRequest::UpdateHardwareById { id: "/cpu/0".to_string() };
    let reply = ProviderReply::Readings {
        readings: vec![
            SensorReading { index: 1, value: 65.0f32.to_bits() },
            SensorReading { index: 2, value: 99.0f32.to_bits() },
            // a reading for a sensor that is not there is dropped
            SensorReading { index: 17, value: 1.0f32.to_bits() },
        ],
    };
    assert_eq!(actor.handle_request(request, reply), PipeResponse::Success);
    let values: Vec<f32> = (0..3)
        .map(|index| f32::from_bits(actor.cache().get_sensor_by_idx(index).unwrap().sensor.value))
        .collect();
    assert_eq!(values, vec![900.0, 65.0, 99.0]);
}

#[test]
fn later_reading_of_one_sensor_wins() {
    let mut actor = reloaded();
    let reply = ProviderReply::Readings {
        readings: vec![
            SensorReading { index: 0, value: 1.0f32.to_bits() },
            SensorReading { index: 0, value: 2.0f32.to_bits() },
        ],
    };
    actor.handle_request(PipeRequest::UpdateSensorByIndex { idx: 0 }, reply);
    assert_eq!(
        actor.handle_request(
            PipeRequest::GetSensorValueByIndex { idx: 0, update: false },
            ProviderReply::Done
        ),
        PipeResponse::SensorValue { value: Some(2.0f32.to_bits()) }
    );
}

#[test]
fn unavailable_value_stays_not_a_number() {
    let mut actor = reloaded();
    let reply = ProviderReply::Readings {
        readings: vec![SensorReading { index: 1, value: f32::NAN.to_bits() }],
    };
    let response = actor.handle_request(by_id("/cpu/0/temp/0", true), reply);
    match response {
        PipeResponse::SensorValue { value: Some(bits) } => assert!(f32::from_bits(bits).is_nan()),
        other => panic!("unexpected response {other:?}"),
    }
}

#[test]
fn unknown_type_number_is_reported_as_unknown() {
    let mut actor = ComputerActor::new();
    actor.handle_request(
        PipeRequest::UpdateAll,
        ProviderReply::Snapshot {
            hardware: vec![item("/odd", 40, vec![probe("/odd/s", 41, 0.0)], vec![])],
        },
    );
    let response = actor.handle_request(
        PipeRequest::GetHardwareById { id: "/odd".to_string() },
        ProviderReply::Done,
    );
    match response {
        PipeResponse::Hardware { hardware: Some(hardware) } => {
            assert_eq!(hardware.ty, HardwareType::Unknown(40))
        }
        other => panic!("unexpected response {other:?}"),
    }
    let response = actor.handle_request(
        PipeRequest::GetSensorById { id: "/odd/s".to_string() },
        ProviderReply::Done,
    );
    match response {
        PipeResponse::Sensor { sensor: Some(sensor) } => {
            assert_eq!(sensor.ty, SensorType::Unknown(41))
        }
        other => panic!("unexpected response {other:?}"),
    }
}

#[test]
fn readings_wanted_after_a_refresh() {
    let actor = reloaded();
    // the sensors of the hardware item, by ascending index
    assert_eq!(actor.readings_wanted(ProviderCall::UpdateHardware { index: 2 }), vec![1, 2]);
    assert_eq!(actor.readings_wanted(ProviderCall::UpdateHardware { index: 1 }), vec![0]);
    // hardware without sensors of its own
    assert_eq!(actor.readings_wanted(ProviderCall::UpdateHardware { index: 0 }), Vec::<usize>::new());
    assert_eq!(actor.readings_wanted(ProviderCall::UpdateHardware { index: 9 }), Vec::<usize>::new());
    // the one sensor
    assert_eq!(actor.readings_wanted(ProviderCall::UpdateSensor { index: 2 }), vec![2]);
    assert_eq!(actor.readings_wanted(ProviderCall::UpdateSensor { index: 3 }), Vec::<usize>::new());
    // nothing to read after the other calls
    assert_eq!(actor.readings_wanted(ProviderCall::Nothing), Vec::<usize>::new());
    assert_eq!(actor.readings_wanted(ProviderCall::Reload), Vec::<usize>::new());
    assert_eq!(
        actor.readings_wanted(ProviderCall::SetOptions { options: ComputerOptions::default() }),
        Vec::<usize>::new()
    );
}
