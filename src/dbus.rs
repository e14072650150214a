use vstd::prelude::*;

use crate::state::{NetworkState, StateValueType};

verus! {

/// Which message bus a service lives on.
#[derive(Clone, Copy, Debug, PartialEq, Eq, Structural, Hash)]
pub enum BusType {
    Session,
    System,
}

/// A remote object: bus, destination and object path.
#[derive(Clone, Debug)]
pub struct DBusProxyAdress {
    pub bus: BusType,
    pub dest: String,
    pub path: String,
}

impl DBusProxyAdress {
    pub fn new(bus: BusType, dest: String, path: String) -> (r: DBusProxyAdress)
        ensures
            r.bus == bus,
            r.dest == dest,
            r.path == path,
    {
        DBusProxyAdress { bus, dest, path }
    }
}

/// A property of a remote object.
#[derive(Clone, Debug)]
pub struct DBusPropertyAdress {
    pub proxy: DBusProxyAdress,
    pub interface: String,
    pub property: String,
}

/// Two property addresses name the same property.
pub open spec fn same_address(a: DBusPropertyAdress, b: DBusPropertyAdress) -> bool {
    &&& a.proxy.bus == b.proxy.bus
    &&& a.proxy.dest@ == b.proxy.dest@
    &&& a.proxy.path@ == b.proxy.path@
    &&& a.interface@ == b.interface@
    &&& a.property@ == b.property@
}

impl DBusPropertyAdress {
    /// Creates a new property address.
    pub fn new(proxy: DBusProxyAdress, interface: String, property: String) -> (r:
        DBusPropertyAdress)
        ensures
            r.proxy == proxy,
            r.interface == interface,
            r.property == property,
    {
        DBusPropertyAdress { proxy, interface, property }
    }

    /// Whether both addresses name the same property.
    pub fn same_as(&self, other: &DBusPropertyAdress) -> (r: bool)
        ensures
            r == same_address(*self, *other),
    {
        let same_bus = match (self.proxy.bus, other.proxy.bus) {
            (BusType::Session, BusType::Session) => true,
            (BusType::System, BusType::System) => true,
            _ => false,
        };
        same_bus && self.proxy.dest == other.proxy.dest && self.proxy.path == other.proxy.path
            && self.interface == other.interface && self.property == other.property
    }
}

/// A change that the bus side reports to the application.
#[derive(Clone, Debug)]
pub enum DBusUpdate {
    /// A watched property took a new value, or lost it.
    PropertyUpdate(DBusPropertyAdress, Option<StateValueType>),
    /// A request to show a named image on a display.
    MethodShowImage(String, u32),
    /// The active workspace and the number of workspaces.
    MethodSetWorkspaces(u32, u32),
}

/// The device states of the network manager.
#[derive(Clone, Copy, Debug, PartialEq, Eq, Structural)]
pub enum NMDeviceState {
    Unknown,
    Unmanaged,
    Unavailable,
    Disconnected,
    Prepare,
    Config,
    NeedAuth,
    IpConfig,
    IpCheck,
    Secondaries,
    Activated,
    Deactivating,
    Failed,
}

/// The state that a numeric device-state code stands for; unlisted codes are `Unknown`.
pub open spec fn device_state_of(n: u32) -> NMDeviceState {
    if n == 10 {
        NMDeviceState::Unmanaged
    } else if n == 20 {
        NMDeviceState::Unavailable
    } else if n == 30 {
        NMDeviceState::Disconnected
    } else if n == 40 {
        NMDeviceState::Prepare
    } else if n == 50 {
        NMDeviceState::Config
    } else if n == 60 {
        NMDeviceState::NeedAuth
    } else if n == 70 {
        NMDeviceState::IpConfig
    } else if n == 80 {
        NMDeviceState::IpCheck
    } else if n == 90 {
        NMDeviceState::Secondaries
    } else if n == 100 {
        NMDeviceState::Activated
    } else if n == 110 {
        NMDeviceState::Deactivating
    } else if n == 120 {
        NMDeviceState::Failed
    } else {
        NMDeviceState::Unknown
    }
}

/// How the application sees a device state.
pub open spec fn network_state_of(s: NMDeviceState) -> NetworkState {
    match s {
        NMDeviceState::Unavailable | NMDeviceState::Unmanaged => NetworkState::Disabled,
        NMDeviceState::Prepare
        | NMDeviceState::Config
        | NMDeviceState::NeedAuth
        | NMDeviceState::Secondaries
        | NMDeviceState::IpConfig
        | NMDeviceState::IpCheck => NetworkState::Connecting,
        NMDeviceState::Activated => NetworkState::Connected,
        NMDeviceState::Disconnected
        | NMDeviceState::Deactivating
        | NMDeviceState::Failed => NetworkState::Disconnected,
        NMDeviceState::Unknown => NetworkState::Unknown,
    }
}

impl NMDeviceState {
    /// Reads a numeric device-state code.
    pub fn from_int(code: u32) -> (r: NMDeviceState)
        ensures
            r == device_state_of(code),
    {
        match code {
            10 => NMDeviceState::Unmanaged,
            20 => NMDeviceState::Unavailable,
            30 => NMDeviceState::Disconnected,
            40 => NMDeviceState::Prepare,
            50 => NMDeviceState::Config,
            60 => NMDeviceState::NeedAuth,
            70 => NMDeviceState::IpConfig,
            80 => NMDeviceState::IpCheck,
            90 => NMDeviceState::Secondaries,
            100 => NMDeviceState::Activated,
            110 => NMDeviceState::Deactivating,
            120 => NMDeviceState::Failed,
            _ => NMDeviceState::Unknown,
        }
    }

    /// The application's view of this device state.
    pub fn network_state(self) -> (r: NetworkState)
        ensures
            r == network_state_of(self),
    {
        match self {
            NMDeviceState::Unavailable | NMDeviceState::Unmanaged => NetworkState::Disabled,
            NMDeviceState::Prepare
            | NMDeviceState::Config
            | NMDeviceState::NeedAuth
            | NMDeviceState::Secondaries
            | NMDeviceState::IpConfig
            | NMDeviceState::IpCheck => NetworkState::Connecting,
            NMDeviceState::Activated => NetworkState::Connected,
            NMDeviceState::Disconnected
            | NMDeviceState::Deactivating
            | NMDeviceState::Failed => NetworkState::Disconnected,
            NMDeviceState::Unknown => NetworkState::Unknown,
        }
    }
}

} // verus!
