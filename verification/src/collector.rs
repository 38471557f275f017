//! One round of collecting: what the counters and lists of this second and of
//! the one before come to.

use crate::data::{network_views, DiskInfo, DiskType, DiskView, NetworkInfo, NetworkView, SmartData};
use crate::diskstats::{counters_fit, read_diskstats, reported, DiskStats, DiskTable};
use crate::smart::{
    checked_or_new, get_smart_data, is_due, last_report, report_in, smartctl_args, smartctl_words,
    Checked, SmartCache,
};
use crate::table::Entry;
use crate::text::{
    all_blank, contains, decimal, is_blank, join3, law_decimal_reads_back,
    law_only_digits_are_read, law_trim_takes_white_space, law_white_space, lines, occurs, occurs_at,
    parse_u64, parsed_u64, same, starts_with, text_in, texts, trim, trimmed,
};
use vstd::prelude::*;
use vstd::string::*;

verus! {

/// What the name and the `rotational` flag of a disk say of its kind.
pub open spec fn disk_type_of(name: Seq<char>, rotational: Option<Seq<char>>) -> DiskType {
    if "nvme"@.is_prefix_of(name) {
        DiskType::NVMe
    } else {
        match rotational {
            Some(flag) => if trimmed(flag) == "1"@ {
                DiskType::Hdd
            } else if trimmed(flag) == "0"@ {
                DiskType::SataSsd
            } else {
                DiskType::Unknown
            },
            None => DiskType::Unknown,
        }
    }
}

/// The file that says whether a disk rotates.
pub open spec fn rotational_path(name: Seq<char>) -> Seq<char> {
    "/sys/block/"@ + name + "/queue/rotational"@
}

/// The file that says whether a disk rotates; none is needed for an NVMe disk.
pub fn rotational_file(name: &str) -> (r: Option<String>)
    ensures
        r is Some <==> !"nvme"@.is_prefix_of(name@),
        r matches Some(path) ==> path@ == rotational_path(name@),
{
    if starts_with(name, "nvme") {
        None
    } else {
        Some(join3("/sys/block/", name, "/queue/rotational"))
    }
}

/// The kind of a disk, given the contents of the file above if it could be read.
pub fn get_disk_type(name: &str, rotational: Option<&str>) -> (r: DiskType)
    ensures
        r == disk_type_of(name@, text_in(rotational)),
{
    if starts_with(name, "nvme") {
        return DiskType::NVMe;
    }
    match rotational {
        Some(flag) => {
            let flag = trim(flag);
            proof {
                reveal_strlit("0");
                reveal_strlit("1");
            }
            if same(flag.as_str(), "1") {
                DiskType::Hdd
            } else if same(flag.as_str(), "0") {
                DiskType::SataSsd
            } else {
                DiskType::Unknown
            }
        },
        None => DiskType::Unknown,
    }
}

/// An address of a network interface.
#[derive(Debug, Clone)]
pub struct InterfaceAddress {
    pub interface: String,
    pub ip: String,
}

/// What a network interface moved in the last second.
#[derive(Debug, Clone)]
pub struct InterfaceCounters {
    pub interface: String,
    pub mac: String,
    pub received: u64,
    pub transmitted: u64,
}

/// The address of an interface: the last one that is listed for it.
pub open spec fn address_of(addresses: Seq<InterfaceAddress>, interface: Seq<char>) -> Seq<char>
    decreases addresses.len(),
{
    if addresses.len() == 0 {
        "Unknown"@
    } else if addresses.last().interface@ == interface {
        addresses.last().ip@
    } else {
        address_of(addresses.drop_last(), interface)
    }
}

/// An interface with its counters and its address.
pub open spec fn network_of(
    addresses: Seq<InterfaceAddress>,
    counters: InterfaceCounters,
) -> NetworkView {
    NetworkView {
        interface: counters.interface@,
        ip: address_of(addresses, counters.interface@),
        mac: counters.mac@,
        rx_bytes_per_sec: counters.received,
        tx_bytes_per_sec: counters.transmitted,
    }
}

fn find_address(addresses: &Vec<InterfaceAddress>, interface: &str) -> (r: String)
    ensures
        r@ == address_of(addresses@, interface@),
{
    let mut n: usize = addresses.len();
    proof {
        assert(addresses@.take(n as int) =~= addresses@);
    }
    while n > 0
        invariant
            n <= addresses.len(),
            address_of(addresses@.take(n as int), interface@) == address_of(
                addresses@,
                interface@,
            ),
        decreases n,
    {
        proof {
            assert(addresses@.take(n as int).drop_last() =~= addresses@.take(n - 1));
            assert(addresses@.take(n as int).last() == addresses@[n - 1]);
        }
        if same(addresses[n - 1].interface.as_str(), interface) {
            return addresses[n - 1].ip.clone();
        }
        n = n - 1;
    }
    "Unknown".to_owned()
}

/// Puts the counters of the interfaces and their addresses together.
pub fn collect_networks(
    addresses: &Vec<InterfaceAddress>,
    counters: &Vec<InterfaceCounters>,
) -> (r: Vec<NetworkInfo>)
    ensures
        network_views(r@) == Seq::new(
            counters@.len(),
            |i: int| network_of(addresses@, counters@[i]),
        ),
{
    let mut r: Vec<NetworkInfo> = Vec::new();
    let mut i: usize = 0;
    while i < counters.len()
        invariant
            i <= counters.len(),
            r@.len() == i,
            forall|j: int| 0 <= j < i ==> (#[trigger] r@[j])@ == network_of(addresses@, counters@[j]),
        decreases counters.len() - i,
    {
        let c = &counters[i];
        let info = NetworkInfo {
            interface: c.interface.clone(),
            ip: find_address(addresses, c.interface.as_str()),
            mac: c.mac.clone(),
            rx_bytes_per_sec: c.received,
            tx_bytes_per_sec: c.transmitted,
        };
        r.push(info);
        i = i + 1;
    }
    proof {
        assert(network_views(r@) =~= Seq::new(
            counters@.len(),
            |i: int| network_of(addresses@, counters@[i]),
        ));
    }
    r
}

/// A mounted file system.
#[derive(Debug, Clone)]
pub struct MountedDisk {
    pub name: String,
    pub mount_point: String,
    pub total_space: u64,
    pub available_space: u64,
}

/// What a round knows of a disk before its kind and health are asked for.
#[derive(Debug, Clone)]
pub struct DiskSurvey {
    pub name: String,
    pub mount_point: String,
    pub total_space: u64,
    pub available_space: u64,
    pub read_bytes_per_sec: u64,
    pub write_bytes_per_sec: u64,
}

/// A `DiskSurvey` with its texts as sequences of characters.
pub struct SurveyView {
    pub name: Seq<char>,
    pub mount_point: Seq<char>,
    pub total_space: u64,
    pub available_space: u64,
    pub read_bytes_per_sec: u64,
    pub write_bytes_per_sec: u64,
}

impl View for DiskSurvey {
    type V = SurveyView;

    open spec fn view(&self) -> SurveyView {
        SurveyView {
            name: self.name@,
            mount_point: self.mount_point@,
            total_space: self.total_space,
            available_space: self.available_space,
            read_bytes_per_sec: self.read_bytes_per_sec,
            write_bytes_per_sec: self.write_bytes_per_sec,
        }
    }
}

/// The views of a sequence of surveys.
pub open spec fn survey_views(s: Seq<DiskSurvey>) -> Seq<SurveyView> {
    Seq::new(s.len(), |i: int| s[i]@)
}

/// How much a counter has grown; nothing where it went back.
pub open spec fn growth(now: u64, before: u64) -> u64 {
    if now >= before {
        (now - before) as u64
    } else {
        0
    }
}

/// The first mounted file system whose device name holds the name.
pub open spec fn mount_of(mounts: Seq<MountedDisk>, name: Seq<char>) -> Option<MountedDisk>
    decreases mounts.len(),
{
    if mounts.len() == 0 {
        None
    } else if occurs(mounts[0].name@, name) {
        Some(mounts[0])
    } else {
        mount_of(mounts.skip(1), name)
    }
}

/// A block device: where it is mounted, and what it moved since the round
/// before. A device that was not there then has moved nothing.
pub open spec fn device_survey(
    entry: Entry<DiskStats>,
    before: Map<Seq<char>, DiskStats>,
    mounts: Seq<MountedDisk>,
) -> SurveyView {
    let name = entry.name@;
    let previous = if before.contains_key(name) {
        before[name]
    } else {
        entry.value
    };
    let mount = mount_of(mounts, name);
    SurveyView {
        name,
        mount_point: match mount {
            Some(m) => m.mount_point@,
            None => Seq::empty(),
        },
        total_space: match mount {
            Some(m) => m.total_space,
            None => 0,
        },
        available_space: match mount {
            Some(m) => m.available_space,
            None => 0,
        },
        read_bytes_per_sec: growth(entry.value.read_bytes, previous.read_bytes),
        write_bytes_per_sec: growth(entry.value.write_bytes, previous.write_bytes),
    }
}

/// The block devices of a table.
pub open spec fn device_surveys(
    entries: Seq<Entry<DiskStats>>,
    before: Map<Seq<char>, DiskStats>,
    mounts: Seq<MountedDisk>,
) -> Seq<SurveyView> {
    Seq::new(entries.len(), |i: int| device_survey(entries[i], before, mounts))
}

/// A mounted file system for which there are no counters.
pub open spec fn mount_survey(mount: MountedDisk) -> SurveyView {
    SurveyView {
        name: mount.name@,
        mount_point: mount.mount_point@,
        total_space: mount.total_space,
        available_space: mount.available_space,
        read_bytes_per_sec: 0,
        write_bytes_per_sec: 0,
    }
}

/// A disk whose name stands in the device name is already among the disks.
pub open spec fn is_covered(disks: Seq<SurveyView>, device: Seq<char>) -> bool {
    exists|i: int| 0 <= i < disks.len() && occurs(device, (#[trigger] disks[i]).name)
}

/// The disks with the mounted file systems added, one after the other, that none
/// of the disks so far covers.
pub open spec fn with_mounts(disks: Seq<SurveyView>, mounts: Seq<MountedDisk>) -> Seq<SurveyView>
    decreases mounts.len(),
{
    if mounts.len() == 0 {
        disks
    } else {
        let so_far = with_mounts(disks, mounts.drop_last());
        if is_covered(so_far, mounts.last().name@) {
            so_far
        } else {
            so_far.push(mount_survey(mounts.last()))
        }
    }
}

fn find_mount(mounts: &Vec<MountedDisk>, name: &str) -> (r: Option<usize>)
    ensures
        r is Some <==> mount_of(mounts@, name@) is Some,
        r matches Some(i) ==> i < mounts@.len() && mount_of(mounts@, name@) == Some(
            mounts@[i as int],
        ),
{
    let mut i: usize = 0;
    proof {
        assert(mounts@.skip(0) =~= mounts@);
    }
    while i < mounts.len()
        invariant
            i <= mounts.len(),
            mount_of(mounts@.skip(i as int), name@) == mount_of(mounts@, name@),
        decreases mounts.len() - i,
    {
        proof {
            assert(mounts@.skip(i as int).skip(1) =~= mounts@.skip(i + 1));
            assert(mounts@.skip(i as int)[0] == mounts@[i as int]);
        }
        if contains(mounts[i].name.as_str(), name) {
            return Some(i);
        }
        i = i + 1;
    }
    None
}

fn device(entry: &Entry<DiskStats>, before: &DiskTable, mounts: &Vec<MountedDisk>) -> (r: DiskSurvey)
    requires
        before.wf(),
    ensures
        r@ == device_survey(*entry, before@, mounts@),
{
    let previous = match before.get(entry.name.as_str()) {
        Some(stats) => stats,
        None => entry.value,
    };
    let read_bytes_per_sec = entry.value.read_bytes.saturating_sub(previous.read_bytes);
    let write_bytes_per_sec = entry.value.write_bytes.saturating_sub(previous.write_bytes);
    match find_mount(mounts, entry.name.as_str()) {
        Some(i) => DiskSurvey {
            name: entry.name.clone(),
            mount_point: mounts[i].mount_point.clone(),
            total_space: mounts[i].total_space,
            available_space: mounts[i].available_space,
            read_bytes_per_sec,
            write_bytes_per_sec,
        },
        None => DiskSurvey {
            name: entry.name.clone(),
            mount_point: String::new(),
            total_space: 0,
            available_space: 0,
            read_bytes_per_sec,
            write_bytes_per_sec,
        },
    }
}

fn covered(disks: &Vec<DiskSurvey>, device: &str) -> (r: bool)
    ensures
        r == is_covered(survey_views(disks@), device@),
{
    let mut i: usize = 0;
    while i < disks.len()
        invariant
            i <= disks.len(),
            forall|j: int|
                0 <= j < i ==> !occurs(device@, (#[trigger] survey_views(disks@)[j]).name),
        decreases disks.len() - i,
    {
        proof {
            assert(survey_views(disks@)[i as int].name == disks@[i as int].name@);
        }
        if contains(device, disks[i].name.as_str()) {
            return true;
        }
        i = i + 1;
    }
    false
}

/// Surveys the disks of a round: the block devices that have counters, then the
/// mounted file systems that belong to none of them.
pub fn survey_disks(current: &DiskTable, before: &DiskTable, mounts: &Vec<MountedDisk>) -> (r: Vec<
    DiskSurvey,
>)
    requires
        before.wf(),
    ensures
        survey_views(r@) == with_mounts(
            device_surveys(current.entries@, before@, mounts@),
            mounts@,
        ),
{
    let mut r: Vec<DiskSurvey> = Vec::new();
    let mut i: usize = 0;
    while i < current.entries.len()
        invariant
            i <= current.entries.len(),
            before.wf(),
            r@.len() == i,
            forall|j: int|
                0 <= j < i ==> (#[trigger] r@[j])@ == device_survey(
                    current.entries@[j],
                    before@,
                    mounts@,
                ),
        decreases current.entries.len() - i,
    {
        r.push(device(&current.entries[i], before, mounts));
        i = i + 1;
    }
    let ghost devices = device_surveys(current.entries@, before@, mounts@);
    let mut k: usize = 0;
    proof {
        assert(survey_views(r@) =~= devices);
        assert(mounts@.take(0) =~= Seq::<MountedDisk>::empty());
    }
    while k < mounts.len()
        invariant
            k <= mounts.len(),
            survey_views(r@) == with_mounts(devices, mounts@.take(k as int)),
        decreases mounts.len() - k,
    {
        let ghost so_far = survey_views(r@);
        let m = &mounts[k];
        proof {
            assert(mounts@.take(k + 1).drop_last() =~= mounts@.take(k as int));
            assert(mounts@.take(k + 1).last() == mounts@[k as int]);
        }
        if !covered(&r, m.name.as_str()) {
            let survey = DiskSurvey {
                name: m.name.clone(),
                mount_point: m.mount_point.clone(),
                total_space: m.total_space,
                available_space: m.available_space,
                read_bytes_per_sec: 0,
                write_bytes_per_sec: 0,
            };
            r.push(survey);
            proof {
                assert(survey_views(r@) =~= so_far.push(mount_survey(mounts@[k as int])));
            }
        }
        k = k + 1;
    }
    proof {
        assert(mounts@.take(mounts@.len() as int) =~= mounts@);
    }
    r
}

/// A surveyed disk with its kind and its health.
pub open spec fn described(
    survey: SurveyView,
    disk_type: DiskType,
    smart_data: Option<SmartData>,
) -> DiskView {
    DiskView {
        name: survey.name,
        mount_point: survey.mount_point,
        disk_type,
        smart_data,
        total_space: survey.total_space,
        available_space: survey.available_space,
        read_bytes_per_sec: survey.read_bytes_per_sec,
        write_bytes_per_sec: survey.write_bytes_per_sec,
    }
}

proof fn lemma_with_mounts_keeps(disks: Seq<SurveyView>, mounts: Seq<MountedDisk>)
    ensures
        disks.is_prefix_of(with_mounts(disks, mounts)),
        with_mounts(disks, mounts).len() <= disks.len() + mounts.len(),
    decreases mounts.len(),
{
    if mounts.len() == 0 {
        assert(disks.subrange(0, disks.len() as int) =~= disks);
    } else {
        lemma_with_mounts_keeps(disks, mounts.drop_last());
        let so_far = with_mounts(disks, mounts.drop_last());
        let all = with_mounts(disks, mounts);
        assert(all.subrange(0, disks.len() as int) =~= so_far.subrange(0, disks.len() as int));
    }
}

/// Every block device with counters is surveyed, in the order of the table and
/// before anything else.
pub proof fn law_every_device_is_surveyed(
    current: DiskTable,
    before: Map<Seq<char>, DiskStats>,
    mounts: Seq<MountedDisk>,
    i: int,
)
    requires
        0 <= i < current.entries@.len(),
    ensures
        ({
            let all = with_mounts(device_surveys(current.entries@, before, mounts), mounts);
            &&& i < all.len()
            &&& all[i] == device_survey(current.entries@[i], before, mounts)
        }),
{
    let devices = device_surveys(current.entries@, before, mounts);
    lemma_with_mounts_keeps(devices, mounts);
    let all = with_mounts(devices, mounts);
    assert(all.subrange(0, devices.len() as int)[i] == devices[i]);
}

proof fn lemma_occurs_in_itself(s: Seq<char>)
    ensures
        occurs(s, s),
{
    assert(s.subrange(0, s.len() as int) =~= s);
    assert(occurs_at(s, s, 0));
}

/// Every mounted file system is covered by a disk of the survey.
pub proof fn law_every_mount_is_covered(
    disks: Seq<SurveyView>,
    mounts: Seq<MountedDisk>,
    i: int,
)
    requires
        0 <= i < mounts.len(),
    ensures
        is_covered(with_mounts(disks, mounts), mounts[i].name@),
    decreases mounts.len(),
{
    let rest = mounts.drop_last();
    let so_far = with_mounts(disks, rest);
    let all = with_mounts(disks, mounts);
    let device = mounts[i].name@;
    if i < rest.len() {
        law_every_mount_is_covered(disks, rest, i);
        assert(rest[i] == mounts[i]);
        let j = choose|j: int| 0 <= j < so_far.len() && occurs(device, (#[trigger] so_far[j]).name);
        assert(all[j] == so_far[j]);
        assert(occurs(device, all[j].name));
    } else if !is_covered(so_far, device) {
        lemma_occurs_in_itself(device);
        assert(all[so_far.len() as int].name == device);
    }
}

/// No two disks of a survey have the same name.
pub proof fn law_no_disk_is_surveyed_twice(
    current: DiskTable,
    before: Map<Seq<char>, DiskStats>,
    mounts: Seq<MountedDisk>,
    i: int,
    j: int,
)
    requires
        current.wf(),
        0 <= i < j < with_mounts(device_surveys(current.entries@, before, mounts), mounts).len(),
    ensures
        ({
            let all = with_mounts(device_surveys(current.entries@, before, mounts), mounts);
            all[i].name != all[j].name
        }),
{
    lemma_names_stay_distinct(device_surveys(current.entries@, before, mounts), mounts, i, j);
}

proof fn lemma_names_stay_distinct(
    disks: Seq<SurveyView>,
    mounts: Seq<MountedDisk>,
    i: int,
    j: int,
)
    requires
        forall|a: int, b: int|
            0 <= a < b < disks.len() ==> (#[trigger] disks[a]).name != (#[trigger] disks[b]).name,
        0 <= i < j < with_mounts(disks, mounts).len(),
    ensures
        with_mounts(disks, mounts)[i].name != with_mounts(disks, mounts)[j].name,
    decreases mounts.len(),
{
    if mounts.len() > 0 {
        let so_far = with_mounts(disks, mounts.drop_last());
        if j < so_far.len() {
            lemma_names_stay_distinct(disks, mounts.drop_last(), i, j);
        } else {
            lemma_occurs_in_itself(mounts.last().name@);
            assert(!is_covered(so_far, mounts.last().name@));
            assert(!occurs(mounts.last().name@, so_far[i].name));
        }
    }
}

/// A device that was not there in the round before, and one whose counters went
/// back, has moved nothing.
pub proof fn law_no_rate_without_growth(
    entry: Entry<DiskStats>,
    before: Map<Seq<char>, DiskStats>,
    mounts: Seq<MountedDisk>,
)
    ensures
        !before.contains_key(entry.name@) ==> {
            &&& device_survey(entry, before, mounts).read_bytes_per_sec == 0
            &&& device_survey(entry, before, mounts).write_bytes_per_sec == 0
        },
        before.contains_key(entry.name@) && entry.value.read_bytes <= before[entry.name@].read_bytes
            ==> device_survey(entry, before, mounts).read_bytes_per_sec == 0,
        before.contains_key(entry.name@) && entry.value.write_bytes
            <= before[entry.name@].write_bytes ==> device_survey(
            entry,
            before,
            mounts,
        ).write_bytes_per_sec == 0,
{
}

/// Reads the energy counter of the processor, in microjoules.
pub fn parse_energy(content: Option<&str>) -> (r: Option<u64>)
    ensures
        r == energy_in(content),
{
    match content {
        Some(text) => {
            let number = trim(text);
            parse_u64(number.as_str())
        },
        None => None,
    }
}

/// The energy that was used between two readings, where there are two; nothing
/// where the counter went back.
pub fn energy_used(current: Option<u64>, previous: Option<u64>) -> (r: Option<u64>)
    ensures
        r == (match (current, previous) {
            (Some(now), Some(before)) => Some(growth(now, before)),
            _ => None,
        }),
{
    match (current, previous) {
        (Some(now), Some(before)) => Some(now.saturating_sub(before)),
        _ => None,
    }
}

/// The counters that a text reports; none where there is no text.
pub open spec fn counters_in(diskstats: Option<&str>) -> Map<Seq<char>, DiskStats> {
    match diskstats {
        Some(text) => reported(lines(text@)),
        None => Map::empty(),
    }
}

/// The number in a text.
pub open spec fn energy_in(energy: Option<&str>) -> Option<u64> {
    match energy {
        Some(text) => parsed_u64(trimmed(text@)),
        None => None,
    }
}

/// What one round leaves for the next: the counters of the block devices, the
/// energy counter, and the health reports that are still good.
#[derive(Debug, Clone)]
pub struct Collector {
    pub counters: DiskTable,
    pub energy: Option<u64>,
    pub smart: SmartCache,
}

/// What is to be found out about a disk before it can be described.
#[derive(Debug, Clone)]
pub struct Inquiry {
    /// The file to read for whether the disk rotates.
    pub rotational: Option<String>,
    /// The arguments for `sudo`, where the health report is to be asked for.
    pub smart: Option<Vec<String>>,
}

/// The answer to a request for a health report: what was printed, if the command
/// ran, and when that was.
#[derive(Debug, Clone)]
pub struct HealthAnswer {
    pub at: u64,
    pub stdout: Option<Vec<u8>>,
}

/// The report in an answer, as it is kept.
pub open spec fn checked_in(answer: HealthAnswer) -> Checked {
    Checked {
        at: answer.at,
        data: report_in(
            match answer.stdout {
                Some(text) => Some(text@),
                None => None,
            },
        ),
    }
}

impl Collector {
    /// No device occurs twice.
    pub open spec fn wf(self) -> bool {
        self.counters.wf() && self.smart.wf()
    }

    /// Starts collecting, given the texts of the counters.
    pub fn new(diskstats: Option<&str>, energy: Option<&str>) -> (r: Collector)
        requires
            diskstats matches Some(text) ==> counters_fit(text@),
        ensures
            r.wf(),
            r.counters@ == counters_in(diskstats),
            r.energy == energy_in(energy),
            r.smart@ == Map::<Seq<char>, Checked>::empty(),
    {
        Collector {
            counters: read_diskstats(diskstats),
            energy: parse_energy(energy),
            smart: SmartCache::new(),
        }
    }

    /// Surveys the disks, given the text of the counters and the mounted file
    /// systems. Rates are what the counters have grown by since the round before;
    /// the counters are kept for the next.
    pub fn disks(&mut self, diskstats: Option<&str>, mounts: &Vec<MountedDisk>) -> (r: Vec<DiskSurvey>)
        requires
            old(self).wf(),
            diskstats matches Some(text) ==> counters_fit(text@),
        ensures
            final(self).wf(),
            final(self).counters@ == counters_in(diskstats),
            final(self).energy == old(self).energy,
            final(self).smart == old(self).smart,
            survey_views(r@) == with_mounts(
                device_surveys(final(self).counters.entries@, old(self).counters@, mounts@),
                mounts@,
            ),
    {
        let current = read_diskstats(diskstats);
        let r = survey_disks(&current, &self.counters, mounts);
        self.counters = current;
        r
    }

    /// What is to be found out about a disk. A health report is asked for if the
    /// last one is a minute old; a disk not seen before is noted. Times are
    /// nanoseconds of a clock that never goes back, and `backdated` is a minute
    /// before now, where the clock reaches back that far.
    pub fn inquire(&mut self, name: &str, now: u64, backdated: Option<u64>) -> (r: Inquiry)
        requires
            old(self).wf(),
        ensures
            final(self).wf(),
            final(self).counters == old(self).counters,
            final(self).energy == old(self).energy,
            final(self).smart@ == old(self).smart@.insert(
                name@,
                checked_or_new(old(self).smart@, name@, now, backdated),
            ),
            r.rotational is Some <==> !"nvme"@.is_prefix_of(name@),
            r.rotational matches Some(path) ==> path@ == rotational_path(name@),
            r.smart is Some <==> is_due(
                checked_or_new(old(self).smart@, name@, now, backdated).at,
                now,
            ),
            r.smart matches Some(args) ==> texts(args@) == smartctl_words(name@),
    {
        let smart = if self.smart.due(name, now, backdated) {
            Some(smartctl_args(name))
        } else {
            None
        };
        Inquiry { rotational: rotational_file(name), smart }
    }

    /// Describes a disk that was surveyed, given what the file said and, where a
    /// health report was asked for, the answer. An answer is kept; without one,
    /// the last report is used.
    pub fn describe(
        &mut self,
        survey: DiskSurvey,
        rotational: Option<&str>,
        answer: Option<HealthAnswer>,
    ) -> (r: DiskInfo)
        requires
            old(self).wf(),
        ensures
            final(self).wf(),
            final(self).counters == old(self).counters,
            final(self).energy == old(self).energy,
            final(self).smart@ == (match answer {
                Some(a) => old(self).smart@.insert(survey.name@, checked_in(a)),
                None => old(self).smart@,
            }),
            r@ == described(
                survey@,
                disk_type_of(survey.name@, text_in(rotational)),
                last_report(final(self).smart@, survey.name@),
            ),
    {
        if let Some(a) = answer {
            let data = match &a.stdout {
                Some(text) => get_smart_data(Some(text.as_slice())),
                None => get_smart_data(None),
            };
            self.smart.record(survey.name.as_str(), a.at, data);
        }
        let disk_type = get_disk_type(survey.name.as_str(), rotational);
        let smart_data = self.smart.cached(survey.name.as_str());
        DiskInfo {
            name: survey.name,
            mount_point: survey.mount_point,
            disk_type,
            smart_data,
            total_space: survey.total_space,
            available_space: survey.available_space,
            read_bytes_per_sec: survey.read_bytes_per_sec,
            write_bytes_per_sec: survey.write_bytes_per_sec,
        }
    }

    /// The energy that was used since the round before, in microjoules, given the
    /// text of the energy counter, which is kept for the next round.
    pub fn energy_since(&mut self, energy: Option<&str>) -> (r: Option<u64>)
        ensures
            final(self).energy == energy_in(energy),
            final(self).counters == old(self).counters,
            final(self).smart == old(self).smart,
            r == (match (energy_in(energy), old(self).energy) {
                (Some(now), Some(before)) => Some(growth(now, before)),
                _ => None,
            }),
    {
        let current = parse_energy(energy);
        let r = energy_used(current, self.energy);
        self.energy = current;
        r
    }
}

/// The kind of a disk: NVMe exactly if its name begins so; otherwise the flag
/// decides, 1 for a disk that rotates and 0 for one that does not, and without
/// either the kind is unknown.
pub proof fn law_kind_follows_name_and_flag(name: Seq<char>, rotational: Option<Seq<char>>)
    ensures
        ({
            let nvme = name.len() >= 4 && name[0] == 'n' && name[1] == 'v' && name[2] == 'm'
                && name[3] == 'e';
            let flag = trimmed(rotational->0);
            let says_one = rotational is Some && flag.len() == 1 && flag[0] == '1';
            let says_zero = rotational is Some && flag.len() == 1 && flag[0] == '0';
            let kind = disk_type_of(name, rotational);
            &&& kind == DiskType::NVMe <==> nvme
            &&& kind == DiskType::Hdd <==> !nvme && says_one
            &&& kind == DiskType::SataSsd <==> !nvme && says_zero
            &&& kind == DiskType::Unknown <==> !nvme && !says_one && !says_zero
        }),
{
    reveal_strlit("nvme");
    reveal_strlit("0");
    reveal_strlit("1");
    if name.len() >= 4 && name[0] == 'n' && name[1] == 'v' && name[2] == 'm' && name[3] == 'e' {
        assert(name.subrange(0, 4) =~= "nvme"@);
    }
    if "nvme"@.is_prefix_of(name) {
        assert(name.subrange(0, 4)[0] == "nvme"@[0]);
        assert(name.subrange(0, 4)[1] == "nvme"@[1]);
        assert(name.subrange(0, 4)[2] == "nvme"@[2]);
        assert(name.subrange(0, 4)[3] == "nvme"@[3]);
    }
    let flag = trimmed(rotational->0);
    if flag.len() == 1 && flag[0] == '1' {
        assert(flag =~= "1"@);
    }
    if flag.len() == 1 && flag[0] == '0' {
        assert(flag =~= "0"@);
    }
    assert("0"@[0] == '0' && "1"@[0] == '1');
}

/// The file that is read for a disk holds the name of the disk between two parts
/// that are the same for all disks.
pub proof fn law_file_is_of_the_disk(name: Seq<char>, other: Seq<char>)
    ensures
        rotational_path(name) == "/sys/block/"@ + (name + "/queue/rotational"@),
        rotational_path(name) == rotational_path(other) <==> name == other,
{
    let a = "/sys/block/"@;
    let z = "/queue/rotational"@;
    assert(rotational_path(name) =~= a + (name + z));
    if rotational_path(name) == rotational_path(other) {
        assert(rotational_path(name).len() == a.len() + name.len() + z.len());
        assert(rotational_path(other).len() == a.len() + other.len() + z.len());
        let from = a.len() as int;
        assert(rotational_path(name).subrange(from, from + name.len()) =~= name);
        assert(rotational_path(other).subrange(from, from + other.len()) =~= other);
    }
}

/// An interface has the last address that is listed for it.
pub proof fn law_interface_has_its_last_address(
    addresses: Seq<InterfaceAddress>,
    interface: Seq<char>,
    i: int,
)
    requires
        0 <= i < addresses.len(),
        addresses[i].interface@ == interface,
        forall|j: int| i < j < addresses.len() ==> (#[trigger] addresses[j]).interface@ != interface,
    ensures
        address_of(addresses, interface) == addresses[i].ip@,
    decreases addresses.len(),
{
    if i < addresses.len() - 1 {
        let rest = addresses.drop_last();
        assert forall|j: int| i < j < rest.len() implies (#[trigger] rest[j]).interface@
            != interface by {
            assert(rest[j] == addresses[j]);
        }
        assert(addresses.last() == addresses[addresses.len() - 1]);
        law_interface_has_its_last_address(rest, interface, i);
    }
}

/// The address of an interface is unknown where none is listed for it.
pub proof fn law_unlisted_interface_is_unknown(
    addresses: Seq<InterfaceAddress>,
    interface: Seq<char>,
)
    requires
        forall|j: int| 0 <= j < addresses.len() ==> (#[trigger] addresses[j]).interface@ != interface,
    ensures
        address_of(addresses, interface) == "Unknown"@,
    decreases addresses.len(),
{
    if addresses.len() > 0 {
        let rest = addresses.drop_last();
        assert forall|j: int| 0 <= j < rest.len() implies (#[trigger] rest[j]).interface@
            != interface by {
            assert(rest[j] == addresses[j]);
        }
        assert(addresses.last() == addresses[addresses.len() - 1]);
        law_unlisted_interface_is_unknown(rest, interface);
    }
}

/// An interface is shown with its own name, hardware address and traffic, and
/// with its own address.
pub proof fn law_interface_is_shown_as_it_is(
    addresses: Seq<InterfaceAddress>,
    counters: InterfaceCounters,
)
    ensures
        ({
            let net = network_of(addresses, counters);
            &&& net.interface == counters.interface@
            &&& net.mac == counters.mac@
            &&& net.rx_bytes_per_sec == counters.received
            &&& net.tx_bytes_per_sec == counters.transmitted
            &&& net.ip == address_of(addresses, counters.interface@)
        }),
{
}

/// The model of a survey has all that the survey has.
pub proof fn law_survey_view(survey: DiskSurvey)
    ensures
        survey@.name == survey.name@,
        survey@.mount_point == survey.mount_point@,
        survey@.total_space == survey.total_space,
        survey@.available_space == survey.available_space,
        survey@.read_bytes_per_sec == survey.read_bytes_per_sec,
        survey@.write_bytes_per_sec == survey.write_bytes_per_sec,
{
}

/// The model of a list of surveys has each of them, in place.
pub proof fn law_survey_views(s: Seq<DiskSurvey>)
    ensures
        survey_views(s).len() == s.len(),
        forall|i: int| 0 <= i < s.len() ==> #[trigger] survey_views(s)[i] == s[i]@,
{
}

/// What a counter has grown by takes it from where it was to where it is; one
/// that went back has not grown.
pub proof fn law_growth(now: u64, before: u64)
    ensures
        now >= before ==> growth(now, before) + before == now,
        now < before ==> growth(now, before) == 0,
{
}

/// The rates of a device that was there in the round before take its counters
/// from where they were to where they are.
pub proof fn law_rates_are_the_growth_of_counters(
    current: DiskTable,
    before: Map<Seq<char>, DiskStats>,
    mounts: Seq<MountedDisk>,
    i: int,
)
    requires
        0 <= i < current.entries@.len(),
        before.contains_key(current.entries@[i].name@),
    ensures
        ({
            let all = with_mounts(device_surveys(current.entries@, before, mounts), mounts);
            let now = current.entries@[i].value;
            let then = before[current.entries@[i].name@];
            &&& i < all.len()
            &&& all[i].name == current.entries@[i].name@
            &&& now.read_bytes >= then.read_bytes ==> all[i].read_bytes_per_sec + then.read_bytes
                == now.read_bytes
            &&& now.read_bytes < then.read_bytes ==> all[i].read_bytes_per_sec == 0
            &&& now.write_bytes >= then.write_bytes ==> all[i].write_bytes_per_sec
                + then.write_bytes == now.write_bytes
            &&& now.write_bytes < then.write_bytes ==> all[i].write_bytes_per_sec == 0
        }),
{
    law_every_device_is_surveyed(current, before, mounts, i);
}

/// A device that was not there in the round before is surveyed under its name and
/// has moved nothing.
pub proof fn law_new_device_has_moved_nothing(
    current: DiskTable,
    before: Map<Seq<char>, DiskStats>,
    mounts: Seq<MountedDisk>,
    i: int,
)
    requires
        0 <= i < current.entries@.len(),
        !before.contains_key(current.entries@[i].name@),
    ensures
        ({
            let all = with_mounts(device_surveys(current.entries@, before, mounts), mounts);
            &&& i < all.len()
            &&& all[i].name == current.entries@[i].name@
            &&& all[i].read_bytes_per_sec == 0
            &&& all[i].write_bytes_per_sec == 0
        }),
{
    law_every_device_is_surveyed(current, before, mounts, i);
}

proof fn lemma_first_mount(mounts: Seq<MountedDisk>, name: Seq<char>, k: int)
    requires
        0 <= k < mounts.len(),
        occurs(mounts[k].name@, name),
        forall|j: int| 0 <= j < k ==> !occurs((#[trigger] mounts[j]).name@, name),
    ensures
        mount_of(mounts, name) == Some(mounts[k]),
    decreases k,
{
    if k > 0 {
        let rest = mounts.skip(1);
        assert forall|j: int| 0 <= j < k - 1 implies !occurs((#[trigger] rest[j]).name@, name) by {
            assert(rest[j] == mounts[j + 1]);
        }
        assert(!occurs(mounts[0].name@, name));
        assert(rest[k - 1] == mounts[k]);
        lemma_first_mount(rest, name, k - 1);
    }
}

proof fn lemma_no_mount(mounts: Seq<MountedDisk>, name: Seq<char>)
    requires
        forall|j: int| 0 <= j < mounts.len() ==> !occurs((#[trigger] mounts[j]).name@, name),
    ensures
        mount_of(mounts, name) is None,
    decreases mounts.len(),
{
    if mounts.len() > 0 {
        let rest = mounts.skip(1);
        assert forall|j: int| 0 <= j < rest.len() implies !occurs(
            (#[trigger] rest[j]).name@,
            name,
        ) by {
            assert(rest[j] == mounts[j + 1]);
        }
        assert(!occurs(mounts[0].name@, name));
        lemma_no_mount(rest, name);
    }
}

/// A device has the mount point and the space of the first file system whose
/// name holds its own.
pub proof fn law_device_has_its_first_mount(
    current: DiskTable,
    before: Map<Seq<char>, DiskStats>,
    mounts: Seq<MountedDisk>,
    i: int,
    k: int,
)
    requires
        0 <= i < current.entries@.len(),
        0 <= k < mounts.len(),
        occurs(mounts[k].name@, current.entries@[i].name@),
        forall|j: int|
            0 <= j < k ==> !occurs((#[trigger] mounts[j]).name@, current.entries@[i].name@),
    ensures
        ({
            let all = with_mounts(device_surveys(current.entries@, before, mounts), mounts);
            &&& i < all.len()
            &&& all[i].mount_point == mounts[k].mount_point@
            &&& all[i].total_space == mounts[k].total_space
            &&& all[i].available_space == mounts[k].available_space
        }),
{
    law_every_device_is_surveyed(current, before, mounts, i);
    lemma_first_mount(mounts, current.entries@[i].name@, k);
}

/// A device that no file system names has no mount point and no space.
pub proof fn law_device_without_mount(
    current: DiskTable,
    before: Map<Seq<char>, DiskStats>,
    mounts: Seq<MountedDisk>,
    i: int,
)
    requires
        0 <= i < current.entries@.len(),
        forall|j: int|
            0 <= j < mounts.len() ==> !occurs(
                (#[trigger] mounts[j]).name@,
                current.entries@[i].name@,
            ),
    ensures
        ({
            let all = with_mounts(device_surveys(current.entries@, before, mounts), mounts);
            &&& i < all.len()
            &&& all[i].mount_point.len() == 0
            &&& all[i].total_space == 0
            &&& all[i].available_space == 0
        }),
{
    law_every_device_is_surveyed(current, before, mounts, i);
    lemma_no_mount(mounts, current.entries@[i].name@);
}

proof fn lemma_added_disk_is_a_mount(disks: Seq<SurveyView>, mounts: Seq<MountedDisk>, k: int)
    requires
        disks.len() <= k < with_mounts(disks, mounts).len(),
    ensures
        exists|m: int|
            0 <= m < mounts.len() && with_mounts(disks, mounts)[k] == mount_survey(
                #[trigger] mounts[m],
            ) && forall|i: int|
                0 <= i < disks.len() ==> !occurs(mounts[m].name@, (#[trigger] disks[i]).name),
    decreases mounts.len(),
{
    if mounts.len() > 0 {
        let rest = mounts.drop_last();
        let so_far = with_mounts(disks, rest);
        if k < so_far.len() {
            lemma_added_disk_is_a_mount(disks, rest, k);
            let m = choose|m: int|
                0 <= m < rest.len() && so_far[k] == mount_survey(#[trigger] rest[m]) && forall|i: int|
                    0 <= i < disks.len() ==> !occurs(rest[m].name@, (#[trigger] disks[i]).name);
            assert(rest[m] == mounts[m]);
        } else {
            let m = mounts.len() - 1;
            lemma_with_mounts_keeps(disks, rest);
            assert(!is_covered(so_far, mounts[m].name@));
            assert forall|i: int| 0 <= i < disks.len() implies !occurs(
                mounts[m].name@,
                (#[trigger] disks[i]).name,
            ) by {
                assert(so_far.subrange(0, disks.len() as int)[i] == disks[i]);
                assert(!occurs(mounts[m].name@, so_far[i].name));
            }
            assert(mounts.last() == mounts[m]);
        }
    }
}

/// What stands behind the devices in a survey are file systems that hold the name
/// of no device, each as it is and with no rates.
pub proof fn law_rest_of_survey_are_other_mounts(
    current: DiskTable,
    before: Map<Seq<char>, DiskStats>,
    mounts: Seq<MountedDisk>,
    k: int,
)
    requires
        current.entries@.len() <= k < with_mounts(
            device_surveys(current.entries@, before, mounts),
            mounts,
        ).len(),
    ensures
        ({
            let all = with_mounts(device_surveys(current.entries@, before, mounts), mounts);
            exists|m: int|
                0 <= m < mounts.len() && all[k].name == (#[trigger] mounts[m]).name@
                    && all[k].mount_point == mounts[m].mount_point@ && all[k].total_space
                    == mounts[m].total_space && all[k].available_space == mounts[m].available_space
                    && all[k].read_bytes_per_sec == 0 && all[k].write_bytes_per_sec == 0
                    && forall|i: int|
                    0 <= i < current.entries@.len() ==> !occurs(
                        mounts[m].name@,
                        (#[trigger] current.entries@[i]).name@,
                    )
        }),
{
    let disks = device_surveys(current.entries@, before, mounts);
    let all = with_mounts(disks, mounts);
    lemma_added_disk_is_a_mount(disks, mounts, k);
    let m = choose|m: int|
        0 <= m < mounts.len() && all[k] == mount_survey(#[trigger] mounts[m]) && forall|i: int|
            0 <= i < disks.len() ==> !occurs(mounts[m].name@, (#[trigger] disks[i]).name);
    assert forall|i: int| 0 <= i < current.entries@.len() implies !occurs(
        mounts[m].name@,
        (#[trigger] current.entries@[i]).name@,
    ) by {
        assert(disks[i].name == current.entries@[i].name@);
    }
    assert(all[k].name == mounts[m].name@);
}

proof fn lemma_uncovered_mount_is_added(disks: Seq<SurveyView>, mounts: Seq<MountedDisk>, m: int)
    requires
        0 <= m < mounts.len(),
        forall|i: int|
            0 <= i < disks.len() ==> !occurs(mounts[m].name@, (#[trigger] disks[i]).name),
        forall|j: int| 0 <= j < m ==> !occurs(mounts[m].name@, (#[trigger] mounts[j]).name@),
    ensures
        exists|k: int|
            disks.len() <= k < with_mounts(disks, mounts).len() && #[trigger] with_mounts(
                disks,
                mounts,
            )[k] == mount_survey(mounts[m]),
    decreases mounts.len(),
{
    let rest = mounts.drop_last();
    let so_far = with_mounts(disks, rest);
    let all = with_mounts(disks, mounts);
    lemma_with_mounts_keeps(disks, rest);
    if m < rest.len() {
        assert(rest[m] == mounts[m]);
        assert forall|j: int| 0 <= j < m implies !occurs(
            rest[m].name@,
            (#[trigger] rest[j]).name@,
        ) by {
            assert(rest[j] == mounts[j]);
        }
        lemma_uncovered_mount_is_added(disks, rest, m);
        let k = choose|k: int|
            disks.len() <= k < so_far.len() && #[trigger] so_far[k] == mount_survey(rest[m]);
        assert(all[k] == so_far[k]);
    } else {
        assert(!is_covered(so_far, mounts[m].name@)) by {
            assert forall|i: int| 0 <= i < so_far.len() implies !occurs(
                mounts[m].name@,
                (#[trigger] so_far[i]).name,
            ) by {
                if i < disks.len() {
                    assert(so_far.subrange(0, disks.len() as int)[i] == disks[i]);
                } else {
                    lemma_added_disk_is_a_mount(disks, rest, i);
                    let j = choose|j: int|
                        0 <= j < rest.len() && so_far[i] == mount_survey(#[trigger] rest[j])
                            && forall|d: int|
                            0 <= d < disks.len() ==> !occurs(
                                rest[j].name@,
                                (#[trigger] disks[d]).name,
                            );
                    assert(rest[j] == mounts[j]);
                }
            }
        }
        assert(mounts.last() == mounts[m]);
        assert(all[so_far.len() as int] == mount_survey(mounts[m]));
    }
}

/// A file system whose name holds that of no device and of no file system before
/// it is in the survey, as it is.
pub proof fn law_other_mount_is_surveyed(
    current: DiskTable,
    before: Map<Seq<char>, DiskStats>,
    mounts: Seq<MountedDisk>,
    m: int,
)
    requires
        0 <= m < mounts.len(),
        forall|i: int|
            0 <= i < current.entries@.len() ==> !occurs(
                mounts[m].name@,
                (#[trigger] current.entries@[i]).name@,
            ),
        forall|j: int| 0 <= j < m ==> !occurs(mounts[m].name@, (#[trigger] mounts[j]).name@),
    ensures
        ({
            let all = with_mounts(device_surveys(current.entries@, before, mounts), mounts);
            exists|k: int|
                0 <= k < all.len() && (#[trigger] all[k]).name == mounts[m].name@
                    && all[k].mount_point == mounts[m].mount_point@ && all[k].total_space
                    == mounts[m].total_space && all[k].available_space == mounts[m].available_space
        }),
{
    let disks = device_surveys(current.entries@, before, mounts);
    let all = with_mounts(disks, mounts);
    assert forall|i: int| 0 <= i < disks.len() implies !occurs(
        mounts[m].name@,
        (#[trigger] disks[i]).name,
    ) by {
        assert(disks[i].name == current.entries@[i].name@);
    }
    lemma_uncovered_mount_is_added(disks, mounts, m);
    let k = choose|k: int|
        disks.len() <= k < all.len() && #[trigger] all[k] == mount_survey(mounts[m]);
    assert(all[k].name == mounts[m].name@);
}

/// A disk is described with everything that was surveyed of it, and with the kind
/// and the health that were found out.
pub proof fn law_description_keeps_the_survey(
    survey: SurveyView,
    disk_type: DiskType,
    smart_data: Option<SmartData>,
)
    ensures
        ({
            let disk = described(survey, disk_type, smart_data);
            &&& disk.name == survey.name
            &&& disk.mount_point == survey.mount_point
            &&& disk.disk_type == disk_type
            &&& disk.smart_data == smart_data
            &&& disk.total_space == survey.total_space
            &&& disk.available_space == survey.available_space
            &&& disk.read_bytes_per_sec == survey.read_bytes_per_sec
            &&& disk.write_bytes_per_sec == survey.write_bytes_per_sec
        }),
{
}

/// An answer is kept with its time and the report that its output holds.
pub proof fn law_answer_is_kept_as_it_came(answer: HealthAnswer)
    ensures
        checked_in(answer).at == answer.at,
        answer.stdout is None ==> checked_in(answer).data is None,
        answer.stdout matches Some(text) ==> checked_in(answer).data == report_in(Some(text@)),
{
}

/// The energy counter is the number in its text, whatever white space stands
/// around it; without a text there is none.
pub proof fn law_energy_is_the_number_in_the_text(
    text: &str,
    before: Seq<char>,
    n: u64,
    after: Seq<char>,
)
    requires
        all_blank(before),
        all_blank(after),
        text@ == before + decimal(n as nat) + after,
    ensures
        energy_in(Some(text)) == Some(n),
        energy_in(None) is None,
{
    let number = decimal(n as nat);
    law_decimal_reads_back(n);
    law_only_digits_are_read(number);
    lemma_number_is_not_blank(number);
    law_trim_takes_white_space(before, number, after);
}

proof fn lemma_number_is_not_blank(s: Seq<char>)
    requires
        parsed_u64(s) is Some,
    ensures
        s.len() > 0,
        !is_blank(s[0]),
        !is_blank(s[s.len() - 1]),
{
    law_only_digits_are_read(s);
    law_white_space(s[0]);
    law_white_space(s[s.len() - 1]);
}

/// The counters of a round are those that its text reports; without a text there
/// are none.
pub proof fn law_counters_of_a_text(text: &str, name: Seq<char>)
    ensures
        counters_in(Some(text)) == reported(lines(text@)),
        !counters_in(None).contains_key(name),
{
}

} // verus!
