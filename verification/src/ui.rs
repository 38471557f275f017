//! What the terminal shows, and when it is drawn again.

use crate::data::{DiskInfo, DiskType, DiskView, NetworkInfo, NetworkView, SmartData};
use crate::text::{
    decimal, format_i64, format_u64, join, join3, law_decimal_reads_back, parsed_u64, signed_decimal,
    texts,
};
use vstd::prelude::*;
use vstd::string::*;

verus! {

/// How often the terminal is drawn: every 100 milliseconds, in nanoseconds.
pub const TICK_NANOS: u64 = 100_000_000;

/// The title above the processor gauge.
pub const CPU_TITLE: &'static str = "CPU Usage (press 'q' to quit) - Web UI at http://localhost:3000";

/// The title above the table of interfaces.
pub const NETWORK_TITLE: &'static str = "Network Auto-Discovery & Usage";

/// The title above the table of disks.
pub const DISK_TITLE: &'static str = "Disk I/O, Space & Health";

/// How long to wait for a key, given how much of the tick has gone by.
pub fn poll_timeout(elapsed: u64) -> (r: u64)
    ensures
        elapsed <= TICK_NANOS ==> r == TICK_NANOS - elapsed,
        elapsed > TICK_NANOS ==> r == 0,
{
    TICK_NANOS.saturating_sub(elapsed)
}

/// Whether a new tick begins, given how much of the current one has gone by.
pub fn tick_over(elapsed: u64) -> (r: bool)
    ensures
        r == (elapsed >= TICK_NANOS),
{
    elapsed >= TICK_NANOS
}

/// Whether a key ends the program.
pub fn quits(key: char) -> (r: bool)
    ensures
        r == (key == 'q'),
{
    key == 'q'
}

/// A number of bytes as whole mebibytes, rounded down.
pub open spec fn mebibytes(bytes: u64) -> nat {
    (bytes / 1048576) as nat
}

fn to_mebibytes(bytes: u64) -> (r: u64)
    ensures
        r == mebibytes(bytes),
{
    bytes / 1024 / 1024
}

/// A rate as it is shown.
pub open spec fn rate_text(bytes: u64) -> Seq<char> {
    decimal(bytes as nat) + " B/s"@
}

/// A size as it is shown.
pub open spec fn size_text(bytes: u64) -> Seq<char> {
    decimal(mebibytes(bytes)) + " MB"@
}

fn show_rate(bytes: u64) -> (r: String)
    ensures
        r@ == rate_text(bytes),
{
    let n = format_u64(bytes);
    join(n.as_str(), " B/s")
}

fn show_size(bytes: u64) -> (r: String)
    ensures
        r@ == size_text(bytes),
{
    let n = format_u64(to_mebibytes(bytes));
    join(n.as_str(), " MB")
}

/// The title above the memory gauge.
pub open spec fn memory_text(used: u64, total: u64) -> Seq<char> {
    "Memory Usage: "@ + size_text(used) + " / "@ + size_text(total)
}

/// The title above the memory gauge shows how much memory is used, then how much
/// there is.
pub proof fn law_memory_title(used: u64, total: u64)
    ensures
        memory_text(used, total) == "Memory Usage: "@ + (size_text(used) + (" / "@ + size_text(
            total,
        ))),
{
    assert(memory_text(used, total) =~= "Memory Usage: "@ + (size_text(used) + (" / "@ + size_text(
        total,
    ))));
}

/// The title above the memory gauge.
pub fn memory_title(used: u64, total: u64) -> (r: String)
    ensures
        r@ == memory_text(used, total),
{
    let used = show_size(used);
    let total = show_size(total);
    let head = join3("Memory Usage: ", used.as_str(), " / ");
    join(head.as_str(), total.as_str())
}

/// The cells of an interface.
pub open spec fn network_cells(net: NetworkView) -> Seq<Seq<char>> {
    seq![
        net.interface,
        net.ip,
        net.mac,
        rate_text(net.rx_bytes_per_sec),
        rate_text(net.tx_bytes_per_sec),
    ]
}

/// The cells of an interface: its name, its addresses and its rates.
pub fn network_row(net: &NetworkInfo) -> (r: Vec<String>)
    ensures
        texts(r@) == network_cells(net@),
{
    let mut r: Vec<String> = Vec::new();
    r.push(net.interface.clone());
    r.push(net.ip.clone());
    r.push(net.mac.clone());
    r.push(show_rate(net.rx_bytes_per_sec));
    r.push(show_rate(net.tx_bytes_per_sec));
    proof {
        assert(texts(r@) =~= network_cells(net@));
    }
    r
}

/// The kind of a disk as it is shown.
pub open spec fn type_text(disk_type: DiskType) -> Seq<char> {
    match disk_type {
        DiskType::NVMe => "NVMe"@,
        DiskType::SataSsd => "SSD"@,
        DiskType::Hdd => "HDD"@,
        DiskType::Unknown => "?"@,
    }
}

/// The health of a disk as it is shown: whether it passed and, if known, how
/// warm it is; a dash where there is no report.
pub open spec fn smart_text(smart: Option<SmartData>) -> Seq<char> {
    match smart {
        Some(report) => {
            let verdict = if report.passed {
                "OK "@
            } else {
                "FAIL "@
            };
            match report.temperature {
                Some(t) => verdict + (signed_decimal(t as int) + "C"@),
                None => verdict,
            }
        },
        None => "-"@,
    }
}

/// Shows the kind of a disk.
pub fn show_type(disk_type: DiskType) -> (r: &'static str)
    ensures
        r@ == type_text(disk_type),
{
    match disk_type {
        DiskType::NVMe => "NVMe",
        DiskType::SataSsd => "SSD",
        DiskType::Hdd => "HDD",
        DiskType::Unknown => "?",
    }
}

/// Shows the health of a disk.
pub fn show_smart(smart: Option<SmartData>) -> (r: String)
    ensures
        r@ == smart_text(smart),
{
    match smart {
        Some(report) => {
            let verdict = if report.passed {
                "OK "
            } else {
                "FAIL "
            };
            match report.temperature {
                Some(t) => {
                    let number = format_i64(t);
                    let warmth = join(number.as_str(), "C");
                    join(verdict, warmth.as_str())
                },
                None => verdict.to_owned(),
            }
        },
        None => "-".to_owned(),
    }
}

/// The cells of a disk.
pub open spec fn disk_cells(disk: DiskView) -> Seq<Seq<char>> {
    seq![
        disk.name + " ("@ + type_text(disk.disk_type) + ")"@,
        if disk.mount_point.len() == 0 {
            "-"@
        } else {
            disk.mount_point
        },
        size_text(disk.total_space),
        size_text(disk.available_space),
        rate_text(disk.read_bytes_per_sec),
        rate_text(disk.write_bytes_per_sec),
        smart_text(disk.smart_data),
    ]
}

/// The cells of a disk: its name and kind, where it is mounted, its space, its
/// rates and its health.
pub fn disk_row(disk: &DiskInfo) -> (r: Vec<String>)
    ensures
        texts(r@) == disk_cells(disk@),
{
    let mut r: Vec<String> = Vec::new();
    let head = join3(disk.name.as_str(), " (", show_type(disk.disk_type));
    r.push(join(head.as_str(), ")"));
    if disk.mount_point.as_str().is_empty() {
        r.push("-".to_owned());
    } else {
        r.push(disk.mount_point.clone());
    }
    r.push(show_size(disk.total_space));
    r.push(show_size(disk.available_space));
    r.push(show_rate(disk.read_bytes_per_sec));
    r.push(show_rate(disk.write_bytes_per_sec));
    r.push(show_smart(disk.smart_data));
    proof {
        assert(texts(r@) =~= disk_cells(disk@));
    }
    r
}

/// The rows of the interfaces, in order.
pub fn network_rows(networks: &Vec<NetworkInfo>) -> (r: Vec<Vec<String>>)
    ensures
        r@.len() == networks@.len(),
        forall|i: int| 0 <= i < r@.len() ==> texts((#[trigger] r@[i])@) == network_cells(networks@[i]@),
{
    let mut r: Vec<Vec<String>> = Vec::new();
    let mut i: usize = 0;
    while i < networks.len()
        invariant
            i <= networks.len(),
            r@.len() == i,
            forall|j: int|
                0 <= j < i ==> texts((#[trigger] r@[j])@) == network_cells(networks@[j]@),
        decreases networks.len() - i,
    {
        r.push(network_row(&networks[i]));
        i = i + 1;
    }
    r
}

/// The rows of the disks, in order.
pub fn disk_rows(disks: &Vec<DiskInfo>) -> (r: Vec<Vec<String>>)
    ensures
        r@.len() == disks@.len(),
        forall|i: int| 0 <= i < r@.len() ==> texts((#[trigger] r@[i])@) == disk_cells(disks@[i]@),
{
    let mut r: Vec<Vec<String>> = Vec::new();
    let mut i: usize = 0;
    while i < disks.len()
        invariant
            i <= disks.len(),
            r@.len() == i,
            forall|j: int| 0 <= j < i ==> texts((#[trigger] r@[j])@) == disk_cells(disks@[j]@),
        decreases disks.len() - i,
    {
        r.push(disk_row(&disks[i]));
        i = i + 1;
    }
    r
}

/// How often the terminal is drawn, and what stands above its parts.
pub proof fn law_titles()
    ensures
        TICK_NANOS == 100_000_000,
        CPU_TITLE@ == "CPU Usage (press 'q' to quit) - Web UI at http://localhost:3000"@,
        NETWORK_TITLE@ == "Network Auto-Discovery & Usage"@,
        DISK_TITLE@ == "Disk I/O, Space & Health"@,
{
}

/// A rate is shown as the number of bytes that reads back as it, a space and
/// `B/s`.
pub proof fn law_rate_reads_back(bytes: u64)
    ensures
        ({
            let text = rate_text(bytes);
            &&& text.len() > 4
            &&& parsed_u64(text.take(text.len() - 4)) == Some(bytes)
            &&& text.skip(text.len() - 4) == " B/s"@
        }),
{
    let text = rate_text(bytes);
    law_decimal_reads_back(bytes);
    reveal_strlit(" B/s");
    assert(decimal(bytes as nat).len() > 0);
    assert(text.take(text.len() - 4) =~= decimal(bytes as nat));
    assert(text.skip(text.len() - 4) =~= " B/s"@);
}

/// A size is shown as the number of whole mebibytes in it, a space and `MB`.
pub proof fn law_size_is_in_mebibytes(bytes: u64)
    ensures
        ({
            let text = size_text(bytes);
            let number = parsed_u64(text.take(text.len() - 3));
            &&& text.len() > 3
            &&& number is Some
            &&& number->0 * 1048576 <= bytes < (number->0 + 1) * 1048576
            &&& text.skip(text.len() - 3) == " MB"@
        }),
{
    let text = size_text(bytes);
    let n = (bytes / 1048576) as u64;
    law_decimal_reads_back(n);
    reveal_strlit(" MB");
    assert(decimal(n as nat).len() > 0);
    assert(text.take(text.len() - 3) =~= decimal(n as nat));
    assert(text.skip(text.len() - 3) =~= " MB"@);
}

/// Each kind of disk is shown by its own word.
pub proof fn law_kinds_are_shown(disk_type: DiskType)
    ensures
        disk_type == DiskType::NVMe ==> type_text(disk_type) == "NVMe"@,
        disk_type == DiskType::SataSsd ==> type_text(disk_type) == "SSD"@,
        disk_type == DiskType::Hdd ==> type_text(disk_type) == "HDD"@,
        disk_type == DiskType::Unknown ==> type_text(disk_type) == "?"@,
{
}

/// The health of a disk is shown as `OK` exactly if it passed and as `FAIL`
/// exactly if it did not, followed by its temperature in degrees where that is
/// known; without a report a dash is shown.
pub proof fn law_health_is_shown(report: SmartData)
    ensures
        ({
            let text = smart_text(Some(report));
            let head = if report.passed {
                seq!['O', 'K', ' ']
            } else {
                seq!['F', 'A', 'I', 'L', ' ']
            };
            &&& head.len() <= text.len()
            &&& text.take(head.len() as int) == head
            &&& report.temperature is None ==> text == head
            &&& report.temperature matches Some(t) ==> text.skip(head.len() as int)
                == signed_decimal(t as int) + seq!['C']
        }),
        smart_text(None) == "-"@,
{
    reveal_strlit("OK ");
    reveal_strlit("FAIL ");
    reveal_strlit("C");
    let text = smart_text(Some(report));
    let head = if report.passed {
        seq!['O', 'K', ' ']
    } else {
        seq!['F', 'A', 'I', 'L', ' ']
    };
    assert("OK "@ =~= seq!['O', 'K', ' ']);
    assert("FAIL "@ =~= seq!['F', 'A', 'I', 'L', ' ']);
    assert("C"@ =~= seq!['C']);
    assert(text.take(head.len() as int) =~= head);
    match report.temperature {
        Some(t) => {
            assert(text.skip(head.len() as int) =~= signed_decimal(t as int) + seq!['C']);
        },
        None => {},
    }
}

/// The row of an interface shows its name, its two addresses, and what it
/// received and sent, in this order.
pub proof fn law_row_of_interface(net: NetworkView)
    ensures
        network_cells(net).len() == 5,
        network_cells(net)[0] == net.interface,
        network_cells(net)[1] == net.ip,
        network_cells(net)[2] == net.mac,
        network_cells(net)[3] == rate_text(net.rx_bytes_per_sec),
        network_cells(net)[4] == rate_text(net.tx_bytes_per_sec),
{
}

/// The row of a disk shows its name and kind, where it is mounted, its space in
/// all and what is left of it, what is read and written, and its health, in this
/// order; a dash stands for no mount point.
pub proof fn law_row_of_disk(disk: DiskView)
    ensures
        disk_cells(disk).len() == 7,
        disk_cells(disk)[0] == disk.name + (" ("@ + (type_text(disk.disk_type) + ")"@)),
        disk.mount_point.len() > 0 ==> disk_cells(disk)[1] == disk.mount_point,
        disk.mount_point.len() == 0 ==> disk_cells(disk)[1] == "-"@,
        disk_cells(disk)[2] == size_text(disk.total_space),
        disk_cells(disk)[3] == size_text(disk.available_space),
        disk_cells(disk)[4] == rate_text(disk.read_bytes_per_sec),
        disk_cells(disk)[5] == rate_text(disk.write_bytes_per_sec),
        disk_cells(disk)[6] == smart_text(disk.smart_data),
{
    assert(disk_cells(disk)[0] =~= disk.name + (" ("@ + (type_text(disk.disk_type) + ")"@)));
}

} // verus!
