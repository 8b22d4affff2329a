use lhm::client::{
    expect_hardware, expect_hardwares, expect_sensor, expect_sensor_value, expect_sensors,
    expect_success, server_reply, Delivery, LHMClientError, Subscriptions,
};
use tokio::sync::oneshot;
use lhm::codec::LHMFrame;
use lhm::protocol::{Hardware, HardwareType, PipeResponse, Sensor, SensorType};

fn cpu() -> Hardware {
    Hardware {
        index: 0,
        identifier: "/cpu/0".to_string(),
        name: "CPU".to_string(),
        ty: HardwareType::Cpu,
    }
}

fn temp() -> Sensor {
    Sensor {
        index: 3,
        identifier: "/cpu/0/temp/0".to_string(),
        name: "CPU Package".to_string(),
        ty: SensorType::Temperature,
        value: 55.0f32.to_bits(),
    }
}

fn every_response() -> Vec<PipeResponse> {
    vec![
        PipeResponse::Hardware { hardware: Some(cpu()) },
        PipeResponse::Hardwares { hardware: vec![cpu()] },
        PipeResponse::Sensor { sensor: Some(temp()) },
        PipeResponse::SensorValue { value: Some(1) },
        PipeResponse::Sensors { sensors: vec![temp()] },
        PipeResponse::Success,
        PipeResponse::Error { error: "boom".to_string() },
    ]
}

#[test]
fn ids_count_up_from_zero() {
    let mut table: Subscriptions<&str> = Subscriptions::new();
    assert_eq!(table.insert("a"), 0);
    assert_eq!(table.insert("b"), 1);
    assert_eq!(table.insert("c"), 2);
    assert!(table.is_waiting(0) && table.is_waiting(1) && table.is_waiting(2));
    assert!(!table.is_waiting(3));
    let mut table: Subscriptions<&str> = Subscriptions::default();
    assert_eq!(table.insert("a"), 0);
}

#[test]
fn ids_wrap_around() {
    let mut table: Subscriptions<u8> = Subscriptions::with_first_id(u32::MAX - 1);
    assert_eq!(table.insert(1), u32::MAX - 1);
    assert_eq!(table.insert(2), u32::MAX);
    assert_eq!(table.insert(3), 0);
    assert_eq!(table.insert(4), 1);
    assert_eq!(table.take(u32::MAX).unwrap(), 2);
    assert_eq!(table.take(0).unwrap(), 3);
}

#[test]
fn each_waiter_gets_the_response_with_its_id() {
    let mut table: Subscriptions<String> = Subscriptions::new();
    let count = 50u32;
    for n in 0..count {
        assert_eq!(table.insert(format!("waiter {n}")), n);
    }
    // the server answers in an order of its own
    let mut order: Vec<u32> = (0..count).collect();
    order.reverse();
    order.rotate_left(17);
    order.swap(3, 40);
    for id in order {
        assert_eq!(table.take(id).unwrap(), format!("waiter {id}"));
        assert!(!table.is_waiting(id));
    }
    for id in 0..count {
        assert!(!table.is_waiting(id));
    }
}

#[test]
fn each_receiver_gets_the_response_with_its_id() {
    let mut table: Subscriptions<oneshot::Sender<LHMFrame>> = Subscriptions::new();
    let mut receivers = Vec::new();
    for n in 0..20u32 {
        let (tx, rx) = oneshot::channel();
        assert_eq!(table.insert(tx), n);
        receivers.push(rx);
    }
    // the server answers in an order of its own
    let mut order: Vec<u32> = (0..20).collect();
    order.rotate_left(7);
    order.swap(0, 19);
    order.swap(5, 11);
    for id in order {
        let delivery = table.invoke(id, LHMFrame::new(id, vec![id as u8, 0xEE]));
        assert_eq!(delivery, Delivery::Delivered);
        assert!(!table.is_waiting(id));
    }
    for (id, receiver) in receivers.iter_mut().enumerate() {
        let frame = receiver.try_recv().unwrap();
        assert_eq!(frame, LHMFrame::new(id as u32, vec![id as u8, 0xEE]));
    }
}

#[test]
fn response_for_unknown_id_reaches_nobody() {
    let mut table: Subscriptions<oneshot::Sender<LHMFrame>> = Subscriptions::new();
    let (tx, mut rx) = oneshot::channel();
    let id = table.insert(tx);
    assert_eq!(table.invoke(id + 1, LHMFrame::new(id + 1, vec![1])), Delivery::NoWaiter);
    assert!(table.is_waiting(id));
    assert!(rx.try_recv().is_err());
    assert_eq!(table.invoke(id, LHMFrame::new(id, vec![2])), Delivery::Delivered);
    assert_eq!(rx.try_recv().unwrap(), LHMFrame::new(id, vec![2]));
    // a second response under the same id finds no waiter
    assert_eq!(table.invoke(id, LHMFrame::new(id, vec![3])), Delivery::NoWaiter);
}

#[test]
fn response_for_a_caller_that_stopped_listening_comes_back() {
    let mut table: Subscriptions<oneshot::Sender<LHMFrame>> = Subscriptions::new();
    let (tx, rx) = oneshot::channel();
    let gone = table.insert(tx);
    let (tx, mut kept) = oneshot::channel();
    let waiting = table.insert(tx);
    drop(rx);
    assert_eq!(
        table.invoke(gone, LHMFrame::new(gone, vec![9])),
        Delivery::Abandoned(LHMFrame::new(gone, vec![9]))
    );
    assert!(!table.is_waiting(gone));
    assert_eq!(table.invoke(waiting, LHMFrame::new(waiting, vec![8])), Delivery::Delivered);
    assert_eq!(kept.try_recv().unwrap(), LHMFrame::new(waiting, vec![8]));
}

#[test]
fn closing_the_table_fails_every_receiver() {
    let mut table: Subscriptions<oneshot::Sender<LHMFrame>> = Subscriptions::new();
    let (tx, mut first) = oneshot::channel();
    table.insert(tx);
    let (tx, mut second) = oneshot::channel();
    table.insert(tx);
    table.close();
    assert_eq!(first.try_recv(), Err(oneshot::error::TryRecvError::Closed));
    assert_eq!(second.try_recv(), Err(oneshot::error::TryRecvError::Closed));
}

#[test]
fn response_without_waiter_is_dropped() {
    let mut table: Subscriptions<&str> = Subscriptions::new();
    table.insert("a");
    assert!(table.take(9).is_none());
    assert!(table.is_waiting(0));
    // a second response for an id that was answered is dropped too
    assert!(table.take(0).is_some());
    assert!(table.take(0).is_none());
}

#[test]
fn abandoned_waiter_does_not_disturb_the_others() {
    let mut table: Subscriptions<&str> = Subscriptions::new();
    let first = table.insert("first");
    let second = table.insert("second");
    let third = table.insert("third");
    table.remove(second);
    assert!(!table.is_waiting(second));
    // the response for the abandoned request still comes in
    assert!(table.take(second).is_none());
    assert_eq!(table.take(third).unwrap(), "third");
    assert_eq!(table.take(first).unwrap(), "first");
    // removing what is not there changes nothing
    table.remove(77);
    assert_eq!(table.insert("fourth"), 3);
}

#[test]
fn close_leaves_no_waiter_pending() {
    let mut table: Subscriptions<&str> = Subscriptions::new();
    table.insert("a");
    table.insert("b");
    table.close();
    assert!(!table.is_waiting(0));
    assert!(!table.is_waiting(1));
    assert!(table.take(0).is_none());
    // the counter goes on
    assert_eq!(table.insert("c"), 2);
}

#[test]
fn error_response_is_the_servers_failure() {
    assert_eq!(
        server_reply(PipeResponse::Error { error: "boom".to_string() }),
        Err(LHMClientError::Server("boom".to_string()))
    );
    assert_eq!(server_reply(PipeResponse::Success), Ok(PipeResponse::Success));
    assert_eq!(
        server_reply(PipeResponse::SensorValue { value: None }),
        Ok(PipeResponse::SensorValue { value: None })
    );
}

#[test]
fn success_is_expected() {
    for response in every_response() {
        let expected = match &response {
            PipeResponse::Success => Ok(()),
            PipeResponse::Error { error } => Err(LHMClientError::Server(error.clone())),
            _ => Err(LHMClientError::UnexpectedMessage),
        };
        assert_eq!(expect_success(response), expected);
    }
}

#[test]
fn hardware_is_expected() {
    for response in every_response() {
        let expected = match &response {
            PipeResponse::Hardware { hardware } => Ok(hardware.clone()),
            PipeResponse::Error { error } => Err(LHMClientError::Server(error.clone())),
            _ => Err(LHMClientError::UnexpectedMessage),
        };
        assert_eq!(expect_hardware(response), expected);
    }
    assert_eq!(expect_hardware(PipeResponse::Hardware { hardware: None }), Ok(None));
}

#[test]
fn hardware_list_is_expected() {
    for response in every_response() {
        let expected = match &response {
            PipeResponse::Hardwares { hardware } => Ok(hardware.clone()),
            PipeResponse::Error { error } => Err(LHMClientError::Server(error.clone())),
            _ => Err(LHMClientError::UnexpectedMessage),
        };
        assert_eq!(expect_hardwares(response), expected);
    }
}

#[test]
fn sensor_is_expected() {
    for response in every_response() {
        let expected = match &response {
            PipeResponse::Sensor { sensor } => Ok(sensor.clone()),
            PipeResponse::Error { error } => Err(LHMClientError::Server(error.clone())),
            _ => Err(LHMClientError::UnexpectedMessage),
        };
        assert_eq!(expect_sensor(response), expected);
    }
}

#[test]
fn sensor_value_is_expected() {
    for response in every_response() {
        let expected = match &response {
            PipeResponse::SensorValue { value } => Ok(*value),
            PipeResponse::Error { error } => Err(LHMClientError::Server(error.clone())),
            _ => Err(LHMClientError::UnexpectedMessage),
        };
        assert_eq!(expect_sensor_value(response), expected);
    }
    assert_eq!(expect_sensor_value(PipeResponse::SensorValue { value: None }), Ok(None));
}

#[test]
fn sensor_list_is_expected() {
    for response in every_response() {
        let expected = match &response {
            PipeResponse::Sensors { sensors } => Ok(sensors.clone()),
            PipeResponse::Error { error } => Err(LHMClientError::Server(error.clone())),
            _ => Err(LHMClientError::UnexpectedMessage),
        };
        assert_eq!(expect_sensors(response), expected);
    }
}

#[test]
fn client_errors_in_words() {
    assert_eq!(LHMClientError::Encode("bad value".to_string()).message(), "bad value");
    assert_eq!(LHMClientError::Decode("bad bytes".to_string()).message(), "bad bytes");
    assert_eq!(LHMClientError::SendError.message(), "client request handler has closed");
    assert_eq!(LHMClientError::RecvError.message(), "client response channel has closed");
    assert_eq!(
        LHMClientError::Server("parent hardware not found".to_string()).message(),
        "server error: parent hardware not found"
    );
    assert_eq!(LHMClientError::UnexpectedMessage.message(), "unexpected message");
}

#[test]
fn id_still_in_flight_is_skipped() {
    let mut table: Subscriptions<&str> = Subscriptions::with_first_id(5);
    assert_eq!(table.insert("a"), 5);
    assert_eq!(table.insert("b"), 6);
    assert_eq!(table.insert("c"), 7);
    assert_eq!(table.take(6), Some("b"));
    // the counter comes round to ids that are taken
    table.restart_at(5);
    assert_eq!(table.insert("d"), 6);
    assert_eq!(table.insert("e"), 8);
    assert_eq!(table.take(5), Some("a"));
    assert_eq!(table.take(6), Some("d"));
    assert_eq!(table.take(7), Some("c"));
    assert_eq!(table.take(8), Some("e"));
}

#[test]
fn skipping_wraps_around() {
    let mut table: Subscriptions<u8> = Subscriptions::with_first_id(u32::MAX);
    assert_eq!(table.insert(1), u32::MAX);
    assert_eq!(table.insert(2), 0);
    table.restart_at(u32::MAX);
    assert_eq!(table.insert(3), 1);
    assert_eq!(table.len(), 3);
    assert_eq!(table.take(u32::MAX), Some(1));
    assert_eq!(table.take(0), Some(2));
    assert_eq!(table.take(1), Some(3));
}

#[test]
fn try_insert_registers_while_ids_are_left() {
    let mut table: Subscriptions<&str> = Subscriptions::new();
    assert_eq!(table.try_insert("a"), Ok(0));
    assert_eq!(table.try_insert("b"), Ok(1));
    assert_eq!(table.len(), 2);
    assert_eq!(table.take(1), Some("b"));
    assert_eq!(table.len(), 1);
}

#[test]
fn registration_taken_back_leaves_the_table_as_it_was() {
    let mut table: Subscriptions<&str> = Subscriptions::new();
    let kept = table.insert("kept");
    let failed = table.insert("failed");
    table.remove(failed);
    assert_eq!(table.len(), 1);
    assert!(table.is_waiting(kept));
    assert!(!table.is_waiting(failed));
}

#[test]
fn many_callers_get_ids_of_their_own() {
    let mut table: Subscriptions<usize> = Subscriptions::with_first_id(u32::MAX - 100);
    let mut ids = Vec::new();
    for caller in 0..300usize {
        if caller % 7 == 0 {
            // now and then the counter falls back onto ids in flight
            table.restart_at(u32::MAX - 100);
        }
        ids.push(table.insert(caller));
    }
    let mut sorted = ids.clone();
    sorted.sort();
    sorted.dedup();
    assert_eq!(sorted.len(), ids.len());
    // the responses come in back to front
    for (caller, id) in ids.iter().enumerate().rev() {
        assert_eq!(table.take(*id), Some(caller));
    }
    assert_eq!(table.len(), 0);
}
