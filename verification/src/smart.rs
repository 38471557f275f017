//! Disk health: the reports of `smartctl` and how long they are kept.

use crate::data::SmartData;
use crate::json::{
    json_bool, json_document, json_i64, json_member, json_of, json_u64, member, parse_json, Json,
};
use crate::table::NameTable;
use crate::text::{join, texts};
use serde_json::Value;
use vstd::prelude::*;

verus! {

/// The arguments that `sudo` gets to print the health report of a disk as JSON.
pub open spec fn smartctl_words(name: Seq<char>) -> Seq<Seq<char>> {
    seq!["-n"@, "smartctl"@, "-j"@, "-a"@, "/dev/"@ + name]
}

/// The arguments that `sudo` gets to print the health report of a disk as JSON.
pub fn smartctl_args(name: &str) -> (r: Vec<String>)
    ensures
        texts(r@) == smartctl_words(name@),
{
    let mut r: Vec<String> = Vec::new();
    r.push("-n".to_owned());
    r.push("smartctl".to_owned());
    r.push("-j".to_owned());
    r.push("-a".to_owned());
    r.push(join("/dev/", name));
    proof {
        assert(texts(r@) =~= smartctl_words(name@));
    }
    r
}

/// The member of a member.
pub open spec fn json_at(json: Json, outer: Seq<char>, inner: Seq<char>) -> Option<Json> {
    match json_member(json, outer) {
        Some(found) => json_member(found, inner),
        None => None,
    }
}

/// A health report out of the three values that are looked at. A report that
/// does not say whether the disk passed counts as failed.
pub open spec fn smart_report(
    passed: Option<bool>,
    temperature: Option<i64>,
    power_on_hours: Option<u64>,
) -> SmartData {
    SmartData {
        passed: match passed {
            Some(b) => b,
            None => false,
        },
        temperature,
        power_on_hours,
    }
}

/// The health report that a JSON document of `smartctl` holds.
pub open spec fn smart_of(json: Json) -> SmartData {
    smart_report(
        match json_at(json, "smart_status"@, "passed"@) {
            Some(found) => json_bool(found),
            None => None,
        },
        match json_at(json, "temperature"@, "current"@) {
            Some(found) => json_i64(found),
            None => None,
        },
        match json_at(json, "power_on_time"@, "hours"@) {
            Some(found) => json_u64(found),
            None => None,
        },
    )
}

fn at<'a>(value: &'a Value, outer: &str, inner: &str) -> (r: Option<&'a Value>)
    ensures
        r is Some <==> json_at(json_of(*value), outer@, inner@) is Some,
        r matches Some(found) ==> json_at(json_of(*value), outer@, inner@) == Some(json_of(*found)),
{
    match member(value, outer) {
        Some(found) => member(found, inner),
        None => None,
    }
}

/// Puts a health report together.
pub fn smart_data(
    passed: Option<bool>,
    temperature: Option<i64>,
    power_on_hours: Option<u64>,
) -> (r: SmartData)
    ensures
        r == smart_report(passed, temperature, power_on_hours),
{
    SmartData {
        passed: match passed {
            Some(b) => b,
            None => false,
        },
        temperature,
        power_on_hours,
    }
}

/// Reads a health report out of a JSON document.
pub fn smart_data_of(value: &Value) -> (r: SmartData)
    ensures
        r == smart_of(json_of(*value)),
{
    let passed = match at(value, "smart_status", "passed") {
        Some(found) => found.as_bool(),
        None => None,
    };
    let temperature = match at(value, "temperature", "current") {
        Some(found) => found.as_i64(),
        None => None,
    };
    let power_on_hours = match at(value, "power_on_time", "hours") {
        Some(found) => found.as_u64(),
        None => None,
    };
    smart_data(passed, temperature, power_on_hours)
}

/// The health report in what `smartctl` printed; nothing where the command did
/// not run or did not print JSON.
pub open spec fn report_in(stdout: Option<Seq<u8>>) -> Option<SmartData> {
    match stdout {
        Some(text) => match json_document(text) {
            Some(json) => Some(smart_of(json)),
            None => None,
        },
        None => None,
    }
}

/// The health report of a disk, out of what `smartctl` printed; nothing where
/// the command did not run or did not print JSON.
pub fn get_smart_data(stdout: Option<&[u8]>) -> (r: Option<SmartData>)
    ensures
        r == report_in(
            match stdout {
                Some(text) => Some(text@),
                None => None,
            },
        ),
{
    let text = match stdout {
        Some(text) => text,
        None => return None,
    };
    match parse_json(text) {
        Some(value) => Some(smart_data_of(&value)),
        None => None,
    }
}

/// How long a health report is kept before it is asked for again: a minute, in
/// nanoseconds.
pub const KEEP_NANOS: u64 = 60_000_000_000;

/// A health report and when it was asked for.
#[derive(Debug, Clone, Copy, PartialEq, Eq, Structural)]
pub struct Checked {
    pub at: u64,
    pub data: Option<SmartData>,
}

/// The health reports by disk. Times are nanoseconds of a clock that never goes
/// back.
#[derive(Debug, Clone)]
pub struct SmartCache {
    pub checked: NameTable<Checked>,
}

/// A report that was asked for at `at` is to be asked for again at `now`.
pub open spec fn is_due(at: u64, now: u64) -> bool {
    now - at >= KEEP_NANOS
}

/// What is known of a disk; of one not seen before, that it has no report yet,
/// as of `backdated` where the clock reaches back that far, else as of now.
pub open spec fn checked_or_new(
    checked: Map<Seq<char>, Checked>,
    name: Seq<char>,
    now: u64,
    backdated: Option<u64>,
) -> Checked {
    if checked.contains_key(name) {
        checked[name]
    } else {
        Checked {
            at: match backdated {
                Some(earlier) => earlier,
                None => now,
            },
            data: None,
        }
    }
}

/// The last report of a disk, if there is one.
pub open spec fn last_report(checked: Map<Seq<char>, Checked>, name: Seq<char>) -> Option<SmartData> {
    if checked.contains_key(name) {
        checked[name].data
    } else {
        None
    }
}

impl View for SmartCache {
    type V = Map<Seq<char>, Checked>;

    open spec fn view(&self) -> Map<Seq<char>, Checked> {
        self.checked@
    }
}

impl SmartCache {
    /// No disk occurs twice.
    pub open spec fn wf(self) -> bool {
        self.checked.wf()
    }

    /// A cache without reports.
    pub fn new() -> (r: SmartCache)
        ensures
            r.wf(),
            r@ == Map::<Seq<char>, Checked>::empty(),
    {
        SmartCache { checked: NameTable::new() }
    }

    /// Whether the report of a disk is to be asked for now. A disk not seen before
    /// is noted.
    pub fn due(&mut self, name: &str, now: u64, backdated: Option<u64>) -> (r: bool)
        requires
            old(self).wf(),
        ensures
            final(self).wf(),
            final(self)@ == old(self)@.insert(
                name@,
                checked_or_new(old(self)@, name@, now, backdated),
            ),
            r == is_due(checked_or_new(old(self)@, name@, now, backdated).at, now),
    {
        let entry = match self.checked.get(name) {
            Some(entry) => {
                proof {
                    assert(self@ =~= self@.insert(name@, entry));
                }
                entry
            },
            None => {
                let at: u64 = match backdated {
                    Some(earlier) => earlier,
                    None => now,
                };
                let entry = Checked { at, data: None };
                self.checked.insert(name.to_owned(), entry);
                entry
            },
        };
        now >= entry.at && now - entry.at >= KEEP_NANOS
    }

    /// Takes note of a report that was asked for now.
    pub fn record(&mut self, name: &str, now: u64, data: Option<SmartData>)
        requires
            old(self).wf(),
        ensures
            final(self).wf(),
            final(self)@ == old(self)@.insert(name@, Checked { at: now, data }),
    {
        self.checked.insert(name.to_owned(), Checked { at: now, data });
    }

    /// The last report of a disk.
    pub fn cached(&self, name: &str) -> (r: Option<SmartData>)
        requires
            self.wf(),
        ensures
            r == last_report(self@, name@),
    {
        match self.checked.get(name) {
            Some(entry) => entry.data,
            None => None,
        }
    }
}

/// A disk not seen before is asked for its report at once, where the clock
/// reaches back a minute.
pub proof fn law_new_disk_is_due(
    checked: Map<Seq<char>, Checked>,
    name: Seq<char>,
    earlier: u64,
    now: u64,
)
    requires
        !checked.contains_key(name),
        earlier + KEEP_NANOS <= now,
    ensures
        is_due(checked_or_new(checked, name, now, Some(earlier)).at, now),
{
}

/// A report that was recorded is used as it is for a minute, and is asked for
/// again from then on.
pub proof fn law_report_is_kept_for_a_minute(
    checked: Map<Seq<char>, Checked>,
    name: Seq<char>,
    at: u64,
    data: Option<SmartData>,
    now: u64,
    backdated: Option<u64>,
)
    ensures
        ({
            let found = checked_or_new(
                checked.insert(name, Checked { at, data }),
                name,
                now,
                backdated,
            );
            &&& found.data == data
            &&& last_report(checked.insert(name, Checked { at, data }), name) == data
            &&& is_due(found.at, now) <==> now >= at + KEEP_NANOS
        }),
{
}

/// A report says that the disk passed exactly if the document has a member
/// `smart_status` whose member `passed` is true.
pub proof fn law_passed_only_if_the_document_says_so(json: Json)
    ensures
        smart_of(json).passed <==> (json matches Json::Object(outer) && outer.contains_key(
            "smart_status"@,
        ) && (outer["smart_status"@] matches Json::Object(inner) && inner.contains_key("passed"@)
            && inner["passed"@] == Json::Bool(true))),
{
}

/// The temperature of a report is the whole number `current` in the member
/// `temperature` of the document, and is missing where there is none.
pub proof fn law_temperature_is_the_documents(json: Json, degrees: i64)
    ensures
        smart_of(json).temperature == Some(degrees) <==> (json matches Json::Object(outer)
            && outer.contains_key("temperature"@) && (outer["temperature"@] matches Json::Object(
            inner,
        ) && inner.contains_key("current"@) && inner["current"@] == Json::Integer(degrees as int))),
{
}

/// The hours of a report are the whole number `hours` in the member
/// `power_on_time` of the document, and are missing where there is none.
pub proof fn law_hours_are_the_documents(json: Json, hours: u64)
    ensures
        smart_of(json).power_on_hours == Some(hours) <==> (json matches Json::Object(outer)
            && outer.contains_key("power_on_time"@) && (outer["power_on_time"@] matches Json::Object(
            inner,
        ) && inner.contains_key("hours"@) && inner["hours"@] == Json::Integer(hours as int))),
{
}

/// A report keeps the values it is put together from; only a clear yes counts as
/// passed.
pub proof fn law_report_keeps_its_values(
    passed: Option<bool>,
    temperature: Option<i64>,
    hours: Option<u64>,
)
    ensures
        smart_report(passed, temperature, hours).passed == (passed == Some(true)),
        smart_report(passed, temperature, hours).temperature == temperature,
        smart_report(passed, temperature, hours).power_on_hours == hours,
{
}

/// There is a report exactly if the command ran and printed JSON, and it is the
/// one of that document.
pub proof fn law_report_needs_json(stdout: Option<Seq<u8>>)
    ensures
        stdout is None ==> report_in(stdout) is None,
        stdout matches Some(text) ==> (report_in(stdout) is Some <==> json_document(text) is Some),
        stdout matches Some(text) ==> (json_document(text) matches Some(json) ==> report_in(stdout)
            == Some(smart_of(json))),
{
}

/// The command asks for the disk by its name under `/dev/`: the last argument
/// ends in the name, and other disks give other arguments.
pub proof fn law_command_names_the_disk(name: Seq<char>, other: Seq<char>)
    ensures
        smartctl_words(name).len() == 5,
        smartctl_words(name)[0] == "-n"@,
        smartctl_words(name)[1] == "smartctl"@,
        smartctl_words(name)[2] == "-j"@,
        smartctl_words(name)[3] == "-a"@,
        smartctl_words(name)[4].take(5) == seq!['/', 'd', 'e', 'v', '/'],
        smartctl_words(name)[4].skip(5) == name,
        smartctl_words(name) == smartctl_words(other) <==> name == other,
{
    reveal_strlit("/dev/");
    assert(smartctl_words(name)[4].take(5) =~= seq!['/', 'd', 'e', 'v', '/']);
    assert(smartctl_words(name)[4].skip(5) =~= name);
    assert(smartctl_words(other)[4].skip(5) =~= other);
}

/// A report is to be asked for again exactly from a minute after it was.
pub proof fn law_due_after_a_minute(at: u64, now: u64)
    ensures
        is_due(at, now) <==> now >= at + 60_000_000_000,
        KEEP_NANOS == 60_000_000_000,
{
}

/// What is known of a disk stays as it is when it is looked at; a disk not seen
/// before has no report, as of a minute ago where that is a time.
pub proof fn law_known_disks_stay_as_they_are(
    checked: Map<Seq<char>, Checked>,
    name: Seq<char>,
    now: u64,
    backdated: Option<u64>,
)
    ensures
        ({
            let found = checked_or_new(checked, name, now, backdated);
            &&& checked.contains_key(name) ==> found == checked[name]
            &&& !checked.contains_key(name) ==> found.data is None
            &&& !checked.contains_key(name) && backdated is None ==> found.at == now
            &&& !checked.contains_key(name) && backdated is Some ==> Some(found.at) == backdated
        }),
{
}

/// The last report of a disk is the one that is kept for it, if one is.
pub proof fn law_last_report(checked: Map<Seq<char>, Checked>, name: Seq<char>)
    ensures
        checked.contains_key(name) ==> last_report(checked, name) == checked[name].data,
        !checked.contains_key(name) ==> last_report(checked, name) is None,
{
}

/// The model of a cache is its table of reports.
pub proof fn law_cache_view(cache: SmartCache)
    ensures
        cache@ == cache.checked@,
{
}

} // verus!
