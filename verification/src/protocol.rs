//! The messages clients and server exchange, and the values they carry.

use vstd::prelude::*;
use vstd::std_specs::convert::FromSpecImpl;

verus! {

/// Well-known name of the local channel the service listens on.
pub const PIPE_NAME: &'static str = r"\\.\pipe\LHMLibreHardwareMonitorService";

/// Which hardware categories the provider should probe. The core passes
/// these flags on and never interprets them.
#[derive(Clone, Copy, Debug, PartialEq, Eq, Structural)]
pub struct ComputerOptions {
    pub battery_enabled: bool,
    pub controller_enabled: bool,
    pub cpu_enabled: bool,
    pub gpu_enabled: bool,
    pub memory_enabled: bool,
    pub motherboard_enabled: bool,
    pub network_enabled: bool,
    pub psu_enabled: bool,
    pub storage_enabled: bool,
}

impl Default for ComputerOptions {
    /// Every category switched off.
    fn default() -> (options: ComputerOptions)
        ensures
            options == (ComputerOptions {
                battery_enabled: false,
                controller_enabled: false,
                cpu_enabled: false,
                gpu_enabled: false,
                memory_enabled: false,
                motherboard_enabled: false,
                network_enabled: false,
                psu_enabled: false,
                storage_enabled: false,
            }),
    {
        ComputerOptions {
            battery_enabled: false,
            controller_enabled: false,
            cpu_enabled: false,
            gpu_enabled: false,
            memory_enabled: false,
            motherboard_enabled: false,
            network_enabled: false,
            psu_enabled: false,
            storage_enabled: false,
        }
    }
}

/// Types of hardware. The provider reports a type as a number; numbers
/// without a name of their own are kept in `Unknown`.
#[derive(Clone, Copy, Debug, PartialEq, Eq, Structural)]
pub enum HardwareType {
    Motherboard,
    SuperIO,
    Cpu,
    Memory,
    GpuNvidia,
    GpuAmd,
    GpuIntel,
    Storage,
    Network,
    Cooler,
    EmbeddedController,
    Psu,
    Battery,
    Unknown(i32),
}

impl HardwareType {
    /// The type a provider number stands for.
    pub open spec fn of_code(code: i32) -> HardwareType {
        if code == 0 {
            HardwareType::Motherboard
        } else if code == 1 {
            HardwareType::SuperIO
        } else if code == 2 {
            HardwareType::Cpu
        } else if code == 3 {
            HardwareType::Memory
        } else if code == 4 {
            HardwareType::GpuNvidia
        } else if code == 5 {
            HardwareType::GpuAmd
        } else if code == 6 {
            HardwareType::GpuIntel
        } else if code == 7 {
            HardwareType::Storage
        } else if code == 8 {
            HardwareType::Network
        } else if code == 9 {
            HardwareType::Cooler
        } else if code == 10 {
            HardwareType::EmbeddedController
        } else if code == 11 {
            HardwareType::Psu
        } else if code == 12 {
            HardwareType::Battery
        } else {
            HardwareType::Unknown(code)
        }
    }

    /// The provider number of this type.
    pub open spec fn code(self) -> i32 {
        match self {
            HardwareType::Motherboard => 0,
            HardwareType::SuperIO => 1,
            HardwareType::Cpu => 2,
            HardwareType::Memory => 3,
            HardwareType::GpuNvidia => 4,
            HardwareType::GpuAmd => 5,
            HardwareType::GpuIntel => 6,
            HardwareType::Storage => 7,
            HardwareType::Network => 8,
            HardwareType::Cooler => 9,
            HardwareType::EmbeddedController => 10,
            HardwareType::Psu => 11,
            HardwareType::Battery => 12,
            HardwareType::Unknown(code) => code,
        }
    }

    /// The provider number of this type.
    pub fn to_i32(self) -> (code: i32)
        ensures
            code == self.code(),
    {
        match self {
            HardwareType::Motherboard => 0,
            HardwareType::SuperIO => 1,
            HardwareType::Cpu => 2,
            HardwareType::Memory => 3,
            HardwareType::GpuNvidia => 4,
            HardwareType::GpuAmd => 5,
            HardwareType::GpuIntel => 6,
            HardwareType::Storage => 7,
            HardwareType::Network => 8,
            HardwareType::Cooler => 9,
            HardwareType::EmbeddedController => 10,
            HardwareType::Psu => 11,
            HardwareType::Battery => 12,
            HardwareType::Unknown(code) => code,
        }
    }
}

impl From<i32> for HardwareType {
    fn from(code: i32) -> (ty: HardwareType) {
        match code {
            0 => HardwareType::Motherboard,
            1 => HardwareType::SuperIO,
            2 => HardwareType::Cpu,
            3 => HardwareType::Memory,
            4 => HardwareType::GpuNvidia,
            5 => HardwareType::GpuAmd,
            6 => HardwareType::GpuIntel,
            7 => HardwareType::Storage,
            8 => HardwareType::Network,
            9 => HardwareType::Cooler,
            10 => HardwareType::EmbeddedController,
            11 => HardwareType::Psu,
            12 => HardwareType::Battery,
            _ => HardwareType::Unknown(code),
        }
    }
}

impl FromSpecImpl<i32> for HardwareType {
    open spec fn obeys_from_spec() -> bool {
        true
    }

    open spec fn from_spec(code: i32) -> HardwareType {
        HardwareType::of_code(code)
    }
}

impl From<HardwareType> for i32 {
    fn from(ty: HardwareType) -> (code: i32) {
        ty.to_i32()
    }
}

impl FromSpecImpl<HardwareType> for i32 {
    open spec fn obeys_from_spec() -> bool {
        true
    }

    open spec fn from_spec(ty: HardwareType) -> i32 {
        ty.code()
    }
}

/// Types of sensors. The provider reports a type as a number; numbers
/// without a name of their own are kept in `Unknown`.
#[derive(Clone, Copy, Debug, PartialEq, Eq, Structural)]
pub enum SensorType {
    Voltage,
    Current,
    Power,
    Clock,
    Temperature,
    Load,
    Frequency,
    Fan,
    Flow,
    Control,
    Level,
    Factor,
    Data,
    SmallData,
    Throughput,
    TimeSpan,
    Energy,
    Noise,
    Conductivity,
    Humidity,
    Unknown(i32),
}

impl SensorType {
    /// The type a provider number stands for.
    pub open spec fn of_code(code: i32) -> SensorType {
        if code == 0 {
            SensorType::Voltage
        } else if code == 1 {
            SensorType::Current
        } else if code == 2 {
            SensorType::Power
        } else if code == 3 {
            SensorType::Clock
        } else if code == 4 {
            SensorType::Temperature
        } else if code == 5 {
            SensorType::Load
        } else if code == 6 {
            SensorType::Frequency
        } else if code == 7 {
            SensorType::Fan
        } else if code == 8 {
            SensorType::Flow
        } else if code == 9 {
            SensorType::Control
        } else if code == 10 {
            SensorType::Level
        } else if code == 11 {
            SensorType::Factor
        } else if code == 12 {
            SensorType::Data
        } else if code == 13 {
            SensorType::SmallData
        } else if code == 14 {
            SensorType::Throughput
        } else if code == 15 {
            SensorType::TimeSpan
        } else if code == 16 {
            SensorType::Energy
        } else if code == 17 {
            SensorType::Noise
        } else if code == 18 {
            SensorType::Conductivity
        } else if code == 19 {
            SensorType::Humidity
        } else {
            SensorType::Unknown(code)
        }
    }

    /// The provider number of this type.
    pub open spec fn code(self) -> i32 {
        match self {
            SensorType::Voltage => 0,
            SensorType::Current => 1,
            SensorType::Power => 2,
            SensorType::Clock => 3,
            SensorType::Temperature => 4,
            SensorType::Load => 5,
            SensorType::Frequency => 6,
            SensorType::Fan => 7,
            SensorType::Flow => 8,
            SensorType::Control => 9,
            SensorType::Level => 10,
            SensorType::Factor => 11,
            SensorType::Data => 12,
            SensorType::SmallData => 13,
            SensorType::Throughput => 14,
            SensorType::TimeSpan => 15,
            SensorType::Energy => 16,
            SensorType::Noise => 17,
            SensorType::Conductivity => 18,
            SensorType::Humidity => 19,
            SensorType::Unknown(code) => code,
        }
    }

    /// The provider number of this type.
    pub fn to_i32(self) -> (code: i32)
        ensures
            code == self.code(),
    {
        match self {
            SensorType::Voltage => 0,
            SensorType::Current => 1,
            SensorType::Power => 2,
            SensorType::Clock => 3,
            SensorType::Temperature => 4,
            SensorType::Load => 5,
            SensorType::Frequency => 6,
            SensorType::Fan => 7,
            SensorType::Flow => 8,
            SensorType::Control => 9,
            SensorType::Level => 10,
            SensorType::Factor => 11,
            SensorType::Data => 12,
            SensorType::SmallData => 13,
            SensorType::Throughput => 14,
            SensorType::TimeSpan => 15,
            SensorType::Energy => 16,
            SensorType::Noise => 17,
            SensorType::Conductivity => 18,
            SensorType::Humidity => 19,
            SensorType::Unknown(code) => code,
        }
    }
}

impl From<i32> for SensorType {
    fn from(code: i32) -> (ty: SensorType) {
        match code {
            0 => SensorType::Voltage,
            1 => SensorType::Current,
            2 => SensorType::Power,
            3 => SensorType::Clock,
            4 => SensorType::Temperature,
            5 => SensorType::Load,
            6 => SensorType::Frequency,
            7 => SensorType::Fan,
            8 => SensorType::Flow,
            9 => SensorType::Control,
            10 => SensorType::Level,
            11 => SensorType::Factor,
            12 => SensorType::Data,
            13 => SensorType::SmallData,
            14 => SensorType::Throughput,
            15 => SensorType::TimeSpan,
            16 => SensorType::Energy,
            17 => SensorType::Noise,
            18 => SensorType::Conductivity,
            19 => SensorType::Humidity,
            _ => SensorType::Unknown(code),
        }
    }
}

impl FromSpecImpl<i32> for SensorType {
    open spec fn obeys_from_spec() -> bool {
        true
    }

    open spec fn from_spec(code: i32) -> SensorType {
        SensorType::of_code(code)
    }
}

impl From<SensorType> for i32 {
    fn from(ty: SensorType) -> (code: i32) {
        ty.to_i32()
    }
}

impl FromSpecImpl<SensorType> for i32 {
    open spec fn obeys_from_spec() -> bool {
        true
    }

    open spec fn from_spec(ty: SensorType) -> i32 {
        ty.code()
    }
}

/// A number survives the trip through its hardware type, and a type built
/// from a number is the only type with that number among those so built.
pub proof fn lemma_hardware_type_code(code: i32, other: i32)
    ensures
        HardwareType::of_code(code).code() == code,
        HardwareType::of_code(code) == HardwareType::of_code(other) <==> code == other,
{
}

/// A number survives the trip through its sensor type, and a type built
/// from a number is the only type with that number among those so built.
pub proof fn lemma_sensor_type_code(code: i32, other: i32)
    ensures
        SensorType::of_code(code).code() == code,
        SensorType::of_code(code) == SensorType::of_code(other) <==> code == other,
{
}

/// A hardware item as reported to clients.
#[derive(Clone, Debug, PartialEq, Eq)]
pub struct Hardware {
    /// Cache index of the hardware, valid until the next full reload.
    pub index: usize,
    /// Unique identifier of the hardware.
    pub identifier: String,
    /// Name of the hardware.
    pub name: String,
    /// Type of the hardware.
    pub ty: HardwareType,
}

/// What a `Hardware` value says, with its strings as character sequences.
pub struct HardwareView {
    pub index: usize,
    pub identifier: Seq<char>,
    pub name: Seq<char>,
    pub ty: HardwareType,
}

impl View for Hardware {
    type V = HardwareView;

    open spec fn view(&self) -> HardwareView {
        HardwareView {
            index: self.index,
            identifier: self.identifier@,
            name: self.name@,
            ty: self.ty,
        }
    }
}

/// A sensor as reported to clients.
#[derive(Clone, Debug, PartialEq, Eq)]
pub struct Sensor {
    /// Cache index of the sensor, valid until the next full reload.
    pub index: usize,
    /// Unique identifier of the sensor.
    pub identifier: String,
    /// Name of the sensor.
    pub name: String,
    /// Type of the sensor.
    pub ty: SensorType,
    /// The reading as the bit pattern of a 32-bit IEEE 754 number. A
    /// not-a-number pattern means that the sensor has no value.
    pub value: u32,
}

/// What a `Sensor` value says, with its strings as character sequences.
pub struct SensorView {
    pub index: usize,
    pub identifier: Seq<char>,
    pub name: Seq<char>,
    pub ty: SensorType,
    pub value: u32,
}

impl View for Sensor {
    type V = SensorView;

    open spec fn view(&self) -> SensorView {
        SensorView {
            index: self.index,
            identifier: self.identifier@,
            name: self.name@,
            ty: self.ty,
            value: self.value,
        }
    }
}

/// The views of a list of hardware items, in order.
pub open spec fn hardware_views(list: Seq<Hardware>) -> Seq<HardwareView> {
    list.map_values(|hardware: Hardware| hardware@)
}

/// The views of a list of sensors, in order.
pub open spec fn sensor_views(list: Seq<Sensor>) -> Seq<SensorView> {
    list.map_values(|sensor: Sensor| sensor@)
}

/// Which parents a query accepts. The three cases are kept apart: asking
/// for everything is not asking for the roots.
#[derive(Clone, Debug, PartialEq, Eq)]
pub enum ParentFilter {
    /// No constraint on the parent.
    Any,
    /// Only entries without a parent.
    Root,
    /// Only entries whose parent is the hardware with this identifier.
    Id(String),
}

/// A request, as decoded from the payload of a frame.
#[derive(Clone, Debug, PartialEq, Eq)]
#[allow(inconsistent_fields)]
pub enum PipeRequest {
    SetOptions { options: ComputerOptions },
    UpdateAll,
    GetHardwareById { id: String },
    QueryHardware { parent_id: ParentFilter, ty: Option<HardwareType> },
    UpdateHardwareById { id: String },
    UpdateHardwareByIndex { idx: usize },
    GetSensorById { id: String },
    GetSensorValueById { id: String, update: bool },
    GetSensorValueByIndex { idx: usize, update: bool },
    QuerySensors { parent_id: ParentFilter, ty: Option<SensorType> },
    UpdateSensorById { id: String },
    UpdateSensorByIndex { idx: usize },
}

/// A response, to be encoded into the payload of a frame.
#[derive(Clone, Debug, PartialEq, Eq)]
#[allow(inconsistent_fields)]
pub enum PipeResponse {
    Hardware { hardware: Option<Hardware> },
    Hardwares { hardware: Vec<Hardware> },
    Sensor { sensor: Option<Sensor> },
    SensorValue { value: Option<u32> },
    Sensors { sensors: Vec<Sensor> },
    Success,
    Error { error: String },
}

/// What a response says, with strings and lists as sequences.
#[allow(inconsistent_fields)]
pub enum PipeResponseView {
    Hardware { hardware: Option<HardwareView> },
    Hardwares { hardware: Seq<HardwareView> },
    Sensor { sensor: Option<SensorView> },
    SensorValue { value: Option<u32> },
    Sensors { sensors: Seq<SensorView> },
    Success,
    Error { error: Seq<char> },
}

impl View for PipeResponse {
    type V = PipeResponseView;

    open spec fn view(&self) -> PipeResponseView {
        match *self {
            PipeResponse::Hardware { hardware } => PipeResponseView::Hardware {
                hardware: match hardware {
                    Some(hardware) => Some(hardware@),
                    None => None,
                },
            },
            PipeResponse::Hardwares { hardware } => PipeResponseView::Hardwares {
                hardware: hardware_views(hardware@),
            },
            PipeResponse::Sensor { sensor } => PipeResponseView::Sensor {
                sensor: match sensor {
                    Some(sensor) => Some(sensor@),
                    None => None,
                },
            },
            PipeResponse::SensorValue { value } => PipeResponseView::SensorValue { value },
            PipeResponse::Sensors { sensors } => PipeResponseView::Sensors {
                sensors: sensor_views(sensors@),
            },
            PipeResponse::Success => PipeResponseView::Success,
            PipeResponse::Error { error } => PipeResponseView::Error { error: error@ },
        }
    }
}

} // verus!
