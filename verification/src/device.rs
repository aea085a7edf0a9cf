//! Finding the device on the bus, telling its mode, and claiming it.

use crate::aml::AmlogicSoC;
use crate::error::{invalid_operation, Error, ErrorView};
use crate::text::same_text;
use vstd::prelude::*;

verus! {

/// Vendor id of the SoC in its USB and burn modes.
pub const VENDOR_ID: u16 = 0x1b8e;

/// Product id of the SoC in its USB and burn modes.
pub const PRODUCT_ID: u16 = 0xc003;

/// Vendor id of the device when its product firmware runs.
pub const VENDOR_ID_NORMAL: u16 = 0x18d1;

/// Product id of the device when its product firmware runs.
pub const PRODUCT_ID_NORMAL: u16 = 0x4e40;

/// Timeout of reading the product string, in milliseconds.
pub const PRODUCT_STRING_TIMEOUT_MS: u64 = 100;

/// The configuration that is activated on the device.
pub const CONFIGURATION: u8 = 1;

/// The interface that is claimed on the device.
pub const INTERFACE_NUMBER: u8 = 0;

/// Time that the device is given to come back in burn mode, in milliseconds.
pub const RESET_SETTLE_MS: u64 = 5000;

/// How often connecting is tried, the first attempt included.
pub const CONNECT_RETRIES: usize = 3;

/// Pause after a failed connection, in milliseconds.
pub const CONNECT_PAUSE_MS: u64 = 1000;

/// The mode that the device is in.
#[derive(Debug, Clone, Copy, PartialEq, Eq, Structural)]
pub enum DeviceMode {
    /// Booted into its product firmware: the wrong mode for flashing.
    Normal,
    /// In the ROM stage, waiting for BL2.
    Usb,
    /// BL2 is running: ready for commands.
    UsbBurn,
    /// No device is attached.
    NotFound,
}

/// Vendor and product id of an attached USB device.
#[derive(Debug, Clone, Copy, PartialEq, Eq, Structural)]
pub struct DeviceId {
    pub vendor_id: u16,
    pub product_id: u16,
}

impl DeviceId {
    /// Whether these are the ids of the running product firmware.
    pub open spec fn is_normal(self) -> bool {
        self.vendor_id == VENDOR_ID_NORMAL && self.product_id == PRODUCT_ID_NORMAL
    }

    /// Whether these are the ids of the SoC in its USB or burn mode.
    pub open spec fn is_amlogic(self) -> bool {
        self.vendor_id == VENDOR_ID && self.product_id == PRODUCT_ID
    }
}

/// Whether the entry of a device list is one of the two devices looked for.
/// A device whose descriptor could not be read has no entry and is passed
/// over.
pub open spec fn is_candidate(entry: Option<DeviceId>) -> bool {
    entry is Some && (entry->Some_0.is_normal() || entry->Some_0.is_amlogic())
}

/// What a look through the attached devices has found.
#[derive(Debug, Clone, Copy, PartialEq, Eq, Structural)]
pub enum Sighting {
    /// The device, running its product firmware.
    Normal,
    /// The SoC in USB or burn mode, at this place of the list.
    Amlogic(usize),
    /// Neither.
    Nothing,
}

/// Looks through the attached devices in order and stops at the first that
/// is the device in one of its modes.
pub fn find_device(devices: &[Option<DeviceId>]) -> (found: Sighting)
    ensures
        match found {
            Sighting::Nothing => forall|i: int|
                0 <= i < devices@.len() ==> !is_candidate(#[trigger] devices@[i]),
            Sighting::Normal => exists|i: int|
                {
                    &&& 0 <= i < devices@.len()
                    &&& (#[trigger] devices@[i]) is Some
                    &&& devices@[i]->Some_0.is_normal()
                    &&& forall|j: int| 0 <= j < i ==> !is_candidate(#[trigger] devices@[j])
                },
            Sighting::Amlogic(i) => {
                &&& i < devices@.len()
                &&& devices@[i as int] is Some
                &&& devices@[i as int]->Some_0.is_amlogic()
                &&& forall|j: int| 0 <= j < i ==> !is_candidate(#[trigger] devices@[j])
            },
        },
{
    let mut i: usize = 0;
    while i < devices.len()
        invariant
            i <= devices@.len(),
            forall|j: int| 0 <= j < i ==> !is_candidate(#[trigger] devices@[j]),
        decreases devices@.len() - i,
    {
        match devices[i] {
            Some(id) => {
                if id.vendor_id == VENDOR_ID_NORMAL && id.product_id == PRODUCT_ID_NORMAL {
                    return Sighting::Normal;
                }
                if id.vendor_id == VENDOR_ID && id.product_id == PRODUCT_ID {
                    return Sighting::Amlogic(i);
                }
            },
            None => {},
        }
        i = i + 1;
    }
    Sighting::Nothing
}

/// Looks through the attached devices in order for the first that is the SoC
/// in its USB or burn mode, and gives its place in the list.
pub fn find_amlogic(devices: &[Option<DeviceId>]) -> (found: Option<usize>)
    ensures
        match found {
            Some(i) => {
                &&& i < devices@.len()
                &&& devices@[i as int] is Some
                &&& devices@[i as int]->Some_0.is_amlogic()
                &&& forall|j: int|
                    0 <= j < i ==> !((#[trigger] devices@[j]) is Some
                        && devices@[j]->Some_0.is_amlogic())
            },
            None => forall|j: int|
                0 <= j < devices@.len() ==> !((#[trigger] devices@[j]) is Some
                    && devices@[j]->Some_0.is_amlogic()),
        },
{
    let mut i: usize = 0;
    while i < devices.len()
        invariant
            i <= devices@.len(),
            forall|j: int|
                0 <= j < i ==> !((#[trigger] devices@[j]) is Some
                    && devices@[j]->Some_0.is_amlogic()),
        decreases devices@.len() - i,
    {
        match devices[i] {
            Some(id) => {
                if id.vendor_id == VENDOR_ID && id.product_id == PRODUCT_ID {
                    return Some(i);
                }
            },
            None => {},
        }
        i = i + 1;
    }
    None
}

/// The mode of the SoC, told by its product string: the ROM stage calls
/// itself `GX-CHIP`; with any other string, or none that could be read, BL2
/// is running.
pub fn mode_of_product(product: Option<&str>) -> (mode: DeviceMode)
    ensures
        mode == if product is Some && product->Some_0@ == "GX-CHIP"@ {
            DeviceMode::Usb
        } else {
            DeviceMode::UsbBurn
        },
{
    match product {
        Some(p) => {
            if same_text(p, "GX-CHIP") {
                DeviceMode::Usb
            } else {
                DeviceMode::UsbBurn
            }
        },
        None => DeviceMode::UsbBurn,
    }
}

/// What it takes to get a handle on a device in burn mode.
#[derive(Debug, Clone, Copy, PartialEq, Eq, Structural)]
pub enum InitPlan {
    /// The device is ready: connect.
    Connect,
    /// Connect, chain-load through BL2, let go, wait for the device to come
    /// back, and connect again.
    BootThenConnect,
}

/// Decides by the mode of the device how to get a handle on it.
pub fn init_plan(mode: DeviceMode) -> (r: Result<InitPlan, Error>)
    ensures
        match mode {
            DeviceMode::Usb => r == Ok::<InitPlan, Error>(InitPlan::BootThenConnect),
            DeviceMode::UsbBurn => r == Ok::<InitPlan, Error>(InitPlan::Connect),
            DeviceMode::Normal => r == Err::<InitPlan, Error>(Error::WrongMode),
            DeviceMode::NotFound => r == Err::<InitPlan, Error>(Error::NotFound),
        },
{
    match mode {
        DeviceMode::Usb => Ok(InitPlan::BootThenConnect),
        DeviceMode::UsbBurn => Ok(InitPlan::Connect),
        DeviceMode::Normal => Err(Error::WrongMode),
        DeviceMode::NotFound => Err(Error::NotFound),
    }
}

/// What to do after a connection failed.
#[derive(Debug)]
pub enum ConnectStep {
    /// Pause, then try again, with `failures` failed attempts behind.
    Retry { pause_ms: u64, failures: usize },
    /// Give up with the error of the last attempt.
    GiveUp(Error),
}

/// Takes the error of a connection attempt that came after `failures`
/// failed ones. Connecting is tried three times in all: the first two
/// failures are each followed by a pause and another attempt, the third is
/// final.
pub fn connect_failed(failures: usize, error: Error) -> (step: ConnectStep)
    ensures
        step == if failures + 1 < CONNECT_RETRIES {
            ConnectStep::Retry { pause_ms: CONNECT_PAUSE_MS, failures: (failures + 1) as usize }
        } else {
            ConnectStep::GiveUp(error)
        },
{
    if failures < CONNECT_RETRIES - 1 {
        ConnectStep::Retry { pause_ms: CONNECT_PAUSE_MS, failures: failures + 1 }
    } else {
        ConnectStep::GiveUp(error)
    }
}

/// An endpoint of an interface.
#[derive(Debug, Clone, Copy, PartialEq, Eq, Structural)]
pub struct EndpointInfo {
    pub address: u8,
    /// Whether the endpoint carries data to the host.
    pub is_in: bool,
}

/// An interface of the active configuration: its number and, for each
/// alternate setting in order, the endpoints.
#[derive(Debug)]
pub struct InterfaceInfo {
    pub number: u8,
    pub alt_settings: Vec<Vec<EndpointInfo>>,
}

/// The place of the first interface with the number `number`, if any.
pub open spec fn first_interface(interfaces: Seq<InterfaceInfo>, number: u8) -> Option<int>
    decreases interfaces.len(),
{
    if interfaces.len() == 0 {
        None
    } else if interfaces[0].number == number {
        Some(0)
    } else {
        match first_interface(interfaces.skip(1), number) {
            Some(i) => Some(i + 1),
            None => None,
        }
    }
}

/// The address of the first endpoint of the given direction, if any.
pub open spec fn first_endpoint(endpoints: Seq<EndpointInfo>, is_in: bool) -> Option<u8>
    decreases endpoints.len(),
{
    if endpoints.len() == 0 {
        None
    } else if endpoints[0].is_in == is_in {
        Some(endpoints[0].address)
    } else {
        first_endpoint(endpoints.skip(1), is_in)
    }
}

/// Finds the address of the first endpoint of the given direction.
pub fn find_endpoint(endpoints: &[EndpointInfo], is_in: bool) -> (found: Option<u8>)
    ensures
        found == first_endpoint(endpoints@, is_in),
{
    let mut i: usize = 0;
    assert(endpoints@.subrange(0, endpoints@.len() as int) =~= endpoints@);
    while i < endpoints.len()
        invariant
            i <= endpoints@.len(),
            first_endpoint(endpoints@, is_in) == first_endpoint(
                endpoints@.subrange(i as int, endpoints@.len() as int),
                is_in,
            ),
        decreases endpoints@.len() - i,
    {
        if endpoints[i].is_in == is_in {
            return Some(endpoints[i].address);
        }
        assert(endpoints@.subrange(i as int, endpoints@.len() as int).skip(1)
            =~= endpoints@.subrange(i + 1, endpoints@.len() as int));
        i = i + 1;
    }
    None
}

/// Finds the first interface with the number `number`.
pub fn find_interface(interfaces: &[InterfaceInfo], number: u8) -> (found: Option<usize>)
    ensures
        match first_interface(interfaces@, number) {
            Some(i) => found == Some(i as usize) && 0 <= i < interfaces@.len(),
            None => found is None,
        },
{
    let mut i: usize = 0;
    assert(interfaces@.subrange(0, interfaces@.len() as int) =~= interfaces@);
    proof {
        lemma_first_interface_bound(interfaces@, number);
    }
    while i < interfaces.len()
        invariant
            i <= interfaces@.len(),
            match first_interface(
                interfaces@.subrange(i as int, interfaces@.len() as int),
                number,
            ) {
                Some(k) => first_interface(interfaces@, number) == Some(k + i) && 0 <= k
                    < interfaces@.len() - i,
                None => first_interface(interfaces@, number) is None,
            },
        decreases interfaces@.len() - i,
    {
        if interfaces[i].number == number {
            return Some(i);
        }
        proof {
            let rest = interfaces@.subrange(i as int, interfaces@.len() as int);
            assert(rest.skip(1) =~= interfaces@.subrange(i + 1, interfaces@.len() as int));
            lemma_first_interface_bound(rest.skip(1), number);
        }
        i = i + 1;
    }
    None
}

/// An interface that is found lies within the list.
pub proof fn lemma_first_interface_bound(interfaces: Seq<InterfaceInfo>, number: u8)
    ensures
        match first_interface(interfaces, number) {
            Some(i) => 0 <= i < interfaces.len() && interfaces[i].number == number,
            None => true,
        },
    decreases interfaces.len(),
{
    if interfaces.len() > 0 && interfaces[0].number != number {
        lemma_first_interface_bound(interfaces.skip(1), number);
    }
}

/// What claiming the device yields, told from the interfaces of its active
/// configuration.
pub enum Claim {
    /// No interface has the number 0.
    NoInterface,
    /// The interface has no alternate setting.
    NoAltSetting,
    /// The first alternate setting has no endpoint to the host.
    NoEndpointIn,
    /// The first alternate setting has no endpoint to the device.
    NoEndpointOut,
    /// The interface with its first endpoint of either direction.
    Claimed(AmlogicSoC),
}

/// How the interfaces of a configuration are read: the first interface with
/// the number 0 counts, of it the first alternate setting, and of that the
/// first endpoint of either direction.
pub open spec fn claim(interfaces: Seq<InterfaceInfo>) -> Claim {
    match first_interface(interfaces, INTERFACE_NUMBER) {
        None => Claim::NoInterface,
        Some(i) => {
            let settings = interfaces[i].alt_settings@;
            if settings.len() == 0 {
                Claim::NoAltSetting
            } else {
                match (first_endpoint(settings[0]@, true), first_endpoint(settings[0]@, false)) {
                    (None, _) => Claim::NoEndpointIn,
                    (Some(_), None) => Claim::NoEndpointOut,
                    (Some(endpoint_in), Some(endpoint_out)) => Claim::Claimed(
                        AmlogicSoC { interface_number: INTERFACE_NUMBER, endpoint_in, endpoint_out },
                    ),
                }
            }
        },
    }
}

impl AmlogicSoC {
    /// Picks the interface and the endpoints of a device from the
    /// interfaces of its active configuration.
    pub fn connect(interfaces: &[InterfaceInfo]) -> (r: Result<AmlogicSoC, Error>)
        ensures
            match claim(interfaces@) {
                Claim::NoInterface => r is Err && r->Err_0@ == ErrorView::InvalidOperation(
                    "Interface not found"@,
                ),
                Claim::NoAltSetting => r is Err && r->Err_0@ == ErrorView::InvalidOperation(
                    "No alt setting"@,
                ),
                Claim::NoEndpointIn => r is Err && r->Err_0@ == ErrorView::InvalidOperation(
                    "IN endpoint not found"@,
                ),
                Claim::NoEndpointOut => r is Err && r->Err_0@ == ErrorView::InvalidOperation(
                    "OUT endpoint not found"@,
                ),
                Claim::Claimed(soc) => r == Ok::<AmlogicSoC, Error>(soc),
            },
    {
        let at = match find_interface(interfaces, INTERFACE_NUMBER) {
            Some(at) => at,
            None => {
                return Err(invalid_operation("Interface not found"));
            },
        };
        let settings = &interfaces[at].alt_settings;
        if settings.len() == 0 {
            return Err(invalid_operation("No alt setting"));
        }
        let endpoints = settings[0].as_slice();
        let endpoint_in = match find_endpoint(endpoints, true) {
            Some(a) => a,
            None => {
                return Err(invalid_operation("IN endpoint not found"));
            },
        };
        let endpoint_out = match find_endpoint(endpoints, false) {
            Some(a) => a,
            None => {
                return Err(invalid_operation("OUT endpoint not found"));
            },
        };
        Ok(AmlogicSoC { interface_number: INTERFACE_NUMBER, endpoint_in, endpoint_out })
    }
}

} // verus!
