//! What the agent knows of the machine it runs on.

use vstd::prelude::*;

verus! {

/// The kind of a disk.
#[derive(Debug, Clone, Copy, PartialEq, Eq, Structural)]
pub enum DiskType {
    NVMe,
    SataSsd,
    Hdd,
    Unknown,
}

/// The health report of a disk.
#[derive(Debug, Clone, Copy, PartialEq, Eq, Structural)]
pub struct SmartData {
    pub passed: bool,
    pub temperature: Option<i64>,
    pub power_on_hours: Option<u64>,
}

/// A network interface and what it moved in the last second.
#[derive(Debug, Clone)]
pub struct NetworkInfo {
    pub interface: String,
    pub ip: String,
    pub mac: String,
    pub rx_bytes_per_sec: u64,
    pub tx_bytes_per_sec: u64,
}

/// A disk, its space, its health and what it moved in the last second.
#[derive(Debug, Clone)]
pub struct DiskInfo {
    pub name: String,
    pub mount_point: String,
    pub disk_type: DiskType,
    pub smart_data: Option<SmartData>,
    pub total_space: u64,
    pub available_space: u64,
    pub read_bytes_per_sec: u64,
    pub write_bytes_per_sec: u64,
}

/// A snapshot of memory, network and disks.
#[derive(Debug, Clone)]
pub struct SystemData {
    pub mem_total: u64,
    pub mem_used: u64,
    pub networks: Vec<NetworkInfo>,
    pub disks: Vec<DiskInfo>,
}

impl Default for SystemData {
    fn default() -> (data: SystemData)
        ensures
            data.mem_total == 0,
            data.mem_used == 0,
            data.networks@.len() == 0,
            data.disks@.len() == 0,
    {
        SystemData { mem_total: 0, mem_used: 0, networks: Vec::new(), disks: Vec::new() }
    }
}

/// A `NetworkInfo` with its texts as sequences of characters.
pub struct NetworkView {
    pub interface: Seq<char>,
    pub ip: Seq<char>,
    pub mac: Seq<char>,
    pub rx_bytes_per_sec: u64,
    pub tx_bytes_per_sec: u64,
}

impl View for NetworkInfo {
    type V = NetworkView;

    open spec fn view(&self) -> NetworkView {
        NetworkView {
            interface: self.interface@,
            ip: self.ip@,
            mac: self.mac@,
            rx_bytes_per_sec: self.rx_bytes_per_sec,
            tx_bytes_per_sec: self.tx_bytes_per_sec,
        }
    }
}

/// A `DiskInfo` with its texts as sequences of characters.
pub struct DiskView {
    pub name: Seq<char>,
    pub mount_point: Seq<char>,
    pub disk_type: DiskType,
    pub smart_data: Option<SmartData>,
    pub total_space: u64,
    pub available_space: u64,
    pub read_bytes_per_sec: u64,
    pub write_bytes_per_sec: u64,
}

impl View for DiskInfo {
    type V = DiskView;

    open spec fn view(&self) -> DiskView {
        DiskView {
            name: self.name@,
            mount_point: self.mount_point@,
            disk_type: self.disk_type,
            smart_data: self.smart_data,
            total_space: self.total_space,
            available_space: self.available_space,
            read_bytes_per_sec: self.read_bytes_per_sec,
            write_bytes_per_sec: self.write_bytes_per_sec,
        }
    }
}

/// The views of a sequence of interfaces.
pub open spec fn network_views(s: Seq<NetworkInfo>) -> Seq<NetworkView> {
    Seq::new(s.len(), |i: int| s[i]@)
}

/// The model of an interface has all that the interface has.
pub proof fn law_network_view(net: NetworkInfo)
    ensures
        net@.interface == net.interface@,
        net@.ip == net.ip@,
        net@.mac == net.mac@,
        net@.rx_bytes_per_sec == net.rx_bytes_per_sec,
        net@.tx_bytes_per_sec == net.tx_bytes_per_sec,
{
}

/// The model of a disk has all that the disk has.
pub proof fn law_disk_view(disk: DiskInfo)
    ensures
        disk@.name == disk.name@,
        disk@.mount_point == disk.mount_point@,
        disk@.disk_type == disk.disk_type,
        disk@.smart_data == disk.smart_data,
        disk@.total_space == disk.total_space,
        disk@.available_space == disk.available_space,
        disk@.read_bytes_per_sec == disk.read_bytes_per_sec,
        disk@.write_bytes_per_sec == disk.write_bytes_per_sec,
{
}

/// The model of a list of interfaces has each of them, in place.
pub proof fn law_network_views(s: Seq<NetworkInfo>)
    ensures
        network_views(s).len() == s.len(),
        forall|i: int| 0 <= i < s.len() ==> #[trigger] network_views(s)[i] == s[i]@,
{
}

} // verus!
