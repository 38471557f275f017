//! Block-device counters in the format of `/proc/diskstats`.

use crate::table::NameTable;
use crate::text::{fields, lines, parse_u64, parsed_u64, split_fields, split_lines, starts_with, texts};
use vstd::prelude::*;

verus! {

/// Size of the sectors that the kernel counts in.
pub const SECTOR_BYTES: u64 = 512;

/// Bytes that a block device has moved since the machine started.
#[derive(Debug, Clone, Copy)]
pub struct DiskStats {
    pub read_bytes: u64,
    pub write_bytes: u64,
}

impl Default for DiskStats {
    fn default() -> (stats: DiskStats)
        ensures
            stats == (DiskStats { read_bytes: 0, write_bytes: 0 }),
    {
        DiskStats { read_bytes: 0, write_bytes: 0 }
    }
}

/// The counters of the block devices by device name.
pub type DiskTable = NameTable<DiskStats>;

/// The device name and the sectors read and written that a line reports.
///
/// A line counts if it has at least 14 fields, does not name a loop device or a
/// RAM disk, and its sixth and tenth fields are numbers.
pub open spec fn line_counters(line: Seq<char>) -> Option<(Seq<char>, u64, u64)> {
    let parts = fields(line);
    if parts.len() >= 14 && !"loop"@.is_prefix_of(parts[2]) && !"ram"@.is_prefix_of(parts[2])
        && parsed_u64(parts[5]) is Some && parsed_u64(parts[9]) is Some {
        Some((parts[2], parsed_u64(parts[5])->0, parsed_u64(parts[9])->0))
    } else {
        None
    }
}

/// The sectors that a line reports come to a number of bytes that a `u64` holds.
pub open spec fn line_fits(line: Seq<char>) -> bool {
    match line_counters(line) {
        Some((_, read, written)) => read * SECTOR_BYTES <= u64::MAX && written * SECTOR_BYTES
            <= u64::MAX,
        None => true,
    }
}

/// Every line of the text fits.
pub open spec fn counters_fit(content: Seq<char>) -> bool {
    forall|i: int| 0 <= i < lines(content).len() ==> line_fits(#[trigger] lines(content)[i])
}

/// The counters that a sequence of lines reports; a later line for a name
/// replaces an earlier one.
pub open spec fn reported(lines: Seq<Seq<char>>) -> Map<Seq<char>, DiskStats>
    decreases lines.len(),
{
    if lines.len() == 0 {
        Map::empty()
    } else {
        let before = reported(lines.drop_last());
        match line_counters(lines.last()) {
            Some((name, read, written)) => before.insert(
                name,
                DiskStats {
                    read_bytes: (read * SECTOR_BYTES) as u64,
                    write_bytes: (written * SECTOR_BYTES) as u64,
                },
            ),
            None => before,
        }
    }
}

/// Reads one line.
pub fn parse_line(line: &str) -> (r: Option<(String, u64, u64)>)
    ensures
        r is Some <==> line_counters(line@) is Some,
        r matches Some(c) ==> line_counters(line@) == Some((c.0@, c.1, c.2)),
{
    let parts = split_fields(line);
    proof {
        assert(texts(parts@).len() == parts@.len());
    }
    if parts.len() < 14 {
        return None;
    }
    proof {
        assert(texts(parts@)[2] == parts@[2]@);
        assert(texts(parts@)[5] == parts@[5]@);
        assert(texts(parts@)[9] == parts@[9]@);
    }
    if starts_with(parts[2].as_str(), "loop") || starts_with(parts[2].as_str(), "ram") {
        return None;
    }
    match (parse_u64(parts[5].as_str()), parse_u64(parts[9].as_str())) {
        (Some(read), Some(written)) => Some((parts[2].clone(), read, written)),
        _ => None,
    }
}

/// Whether all byte counts of the text fit a `u64`.
pub fn diskstats_fit(content: &str) -> (r: bool)
    ensures
        r == counters_fit(content@),
{
    let all = split_lines(content);
    let mut i: usize = 0;
    while i < all.len()
        invariant
            i <= all.len(),
            texts(all@) == lines(content@),
            forall|j: int| 0 <= j < i ==> line_fits(#[trigger] lines(content@)[j]),
        decreases all.len() - i,
    {
        proof {
            assert(texts(all@)[i as int] == all@[i as int]@);
        }
        if let Some((_, read, written)) = parse_line(all[i].as_str()) {
            if read > u64::MAX / SECTOR_BYTES || written > u64::MAX / SECTOR_BYTES {
                proof {
                    assert(!line_fits(lines(content@)[i as int]));
                }
                return false;
            }
        }
        i = i + 1;
    }
    proof {
        assert(texts(all@).len() == all@.len());
    }
    true
}

/// Reads the counters out of the text of `/proc/diskstats`; without a text the
/// table is empty.
pub fn read_diskstats(content: Option<&str>) -> (table: DiskTable)
    requires
        content matches Some(text) ==> counters_fit(text@),
    ensures
        table.wf(),
        content is None ==> table@ == Map::<Seq<char>, DiskStats>::empty(),
        content matches Some(text) ==> table@ == reported(lines(text@)),
{
    let mut table = DiskTable::new();
    let text = match content {
        Some(text) => text,
        None => return table,
    };
    let all = split_lines(text);
    let ghost ls = lines(text@);
    let mut i: usize = 0;
    proof {
        assert(ls.take(0) =~= Seq::<Seq<char>>::empty());
        assert(texts(all@).len() == all@.len());
    }
    while i < all.len()
        invariant
            i <= all.len(),
            texts(all@) == ls,
            ls == lines(text@),
            ls.len() == all@.len(),
            counters_fit(text@),
            table.wf(),
            table@ == reported(ls.take(i as int)),
        decreases all.len() - i,
    {
        proof {
            assert(texts(all@)[i as int] == all@[i as int]@);
            assert(line_fits(lines(text@)[i as int]));
            assert(ls.take(i + 1).drop_last() =~= ls.take(i as int));
            assert(ls.take(i + 1).last() == ls[i as int]);
        }
        if let Some((name, read, written)) = parse_line(all[i].as_str()) {
            table.insert(
                name,
                DiskStats {
                    read_bytes: read * SECTOR_BYTES,
                    write_bytes: written * SECTOR_BYTES,
                },
            );
        }
        i = i + 1;
    }
    proof {
        assert(ls.take(ls.len() as int) =~= ls);
    }
    table
}

/// Loop devices and RAM disks are never among the counters.
pub proof fn law_no_loop_devices_or_ram_disks(lines: Seq<Seq<char>>, name: Seq<char>)
    requires
        reported(lines).contains_key(name),
    ensures
        !"loop"@.is_prefix_of(name),
        !"ram"@.is_prefix_of(name),
    decreases lines.len(),
{
    if lines.len() > 0 {
        let rest = lines.drop_last();
        if reported(rest).contains_key(name) {
            law_no_loop_devices_or_ram_disks(rest, name);
        }
    }
}

/// Of several lines for one device, the last one counts.
pub proof fn law_last_line_counts(lines: Seq<Seq<char>>, line: Seq<char>)
    requires
        line_counters(line) is Some,
        line_fits(line),
    ensures
        ({
            let (name, read, written) = line_counters(line)->0;
            let found = reported(lines.push(line));
            &&& found.contains_key(name)
            &&& found[name].read_bytes == read * SECTOR_BYTES
            &&& found[name].write_bytes == written * SECTOR_BYTES
        }),
{
    assert(lines.push(line).drop_last() =~= lines);
    assert(lines.push(line).last() == line);
}

/// A line counts exactly if it has 14 fields or more, its third field does not
/// begin with `loop` or `ram`, and its sixth and tenth are numbers. It then
/// reports the third field as the name, the sixth as the sectors that were read
/// and the tenth as those that were written.
pub proof fn law_line_reports_its_fields(line: Seq<char>)
    ensures
        ({
            let parts = fields(line);
            let name = parts[2];
            let is_loop = name.len() >= 4 && name[0] == 'l' && name[1] == 'o' && name[2] == 'o'
                && name[3] == 'p';
            let is_ram = name.len() >= 3 && name[0] == 'r' && name[1] == 'a' && name[2] == 'm';
            &&& line_counters(line) is Some <==> {
                &&& parts.len() >= 14
                &&& !is_loop
                &&& !is_ram
                &&& parsed_u64(parts[5]) is Some
                &&& parsed_u64(parts[9]) is Some
            }
            &&& line_counters(line) matches Some(found) ==> {
                &&& found.0 == parts[2]
                &&& Some(found.1) == parsed_u64(parts[5])
                &&& Some(found.2) == parsed_u64(parts[9])
            }
        }),
{
    reveal_strlit("loop");
    reveal_strlit("ram");
    let name = fields(line)[2];
    if name.len() >= 4 && name[0] == 'l' && name[1] == 'o' && name[2] == 'o' && name[3] == 'p' {
        assert(name.subrange(0, 4) =~= "loop"@);
    }
    if "loop"@.is_prefix_of(name) {
        assert(name.subrange(0, 4)[0] == "loop"@[0]);
        assert(name.subrange(0, 4)[1] == "loop"@[1]);
        assert(name.subrange(0, 4)[2] == "loop"@[2]);
        assert(name.subrange(0, 4)[3] == "loop"@[3]);
    }
    if name.len() >= 3 && name[0] == 'r' && name[1] == 'a' && name[2] == 'm' {
        assert(name.subrange(0, 3) =~= "ram"@);
    }
    if "ram"@.is_prefix_of(name) {
        assert(name.subrange(0, 3)[0] == "ram"@[0]);
        assert(name.subrange(0, 3)[1] == "ram"@[1]);
        assert(name.subrange(0, 3)[2] == "ram"@[2]);
    }
}

/// A line fits exactly if 512 bytes for each sector it reports can be counted in
/// 64 bits; a line that reports nothing fits.
pub proof fn law_line_fits_if(line: Seq<char>)
    ensures
        line_counters(line) is None ==> line_fits(line),
        line_counters(line) matches Some(found) ==> (line_fits(line) <==> found.1 * 512
            <= 0xFFFF_FFFF_FFFF_FFFF && found.2 * 512 <= 0xFFFF_FFFF_FFFF_FFFF),
{
}

/// The counters of a device are those of the last line that reports it, at 512
/// bytes to the sector.
pub proof fn law_counters_of_last_report(lines: Seq<Seq<char>>, i: int)
    requires
        0 <= i < lines.len(),
        line_counters(lines[i]) is Some,
        line_fits(lines[i]),
        forall|j: int|
            i < j < lines.len() ==> (line_counters(#[trigger] lines[j]) matches Some(later)
                ==> later.0 != (line_counters(lines[i])->0).0),
    ensures
        ({
            let found = line_counters(lines[i])->0;
            &&& reported(lines).contains_key(found.0)
            &&& reported(lines)[found.0].read_bytes == found.1 * 512
            &&& reported(lines)[found.0].write_bytes == found.2 * 512
        }),
    decreases lines.len(),
{
    if i < lines.len() - 1 {
        let rest = lines.drop_last();
        assert forall|j: int| i < j < rest.len() implies (line_counters(
            #[trigger] rest[j],
        ) matches Some(later) ==> later.0 != (line_counters(rest[i])->0).0) by {
            assert(rest[j] == lines[j]);
        }
        law_counters_of_last_report(rest, i);
        assert(lines.last() == lines[lines.len() - 1]);
    }
}

/// Only a device that some line reports has counters.
pub proof fn law_only_reported_devices_count(lines: Seq<Seq<char>>, name: Seq<char>)
    requires
        reported(lines).contains_key(name),
    ensures
        exists|i: int|
            0 <= i < lines.len() && (line_counters(#[trigger] lines[i]) matches Some(found)
                && found.0 == name),
    decreases lines.len(),
{
    if lines.len() > 0 {
        let rest = lines.drop_last();
        if reported(rest).contains_key(name) {
            law_only_reported_devices_count(rest, name);
            let i = choose|i: int|
                0 <= i < rest.len() && (line_counters(#[trigger] rest[i]) matches Some(found)
                    && found.0 == name);
            assert(rest[i] == lines[i]);
        } else {
            assert(line_counters(lines[lines.len() - 1]) is Some);
        }
    }
}

} // verus!
