//! What snapper lists: its configurations and the snapshots of one, read
//! from records that hold the listed fields as plain values.

use vstd::prelude::*;
use chrono::{Datelike, Timelike};
use serde_json::Value;
use crate::date::{CalendarDate, Timestamp};
use crate::nextcloud::{trim, trimmed};
use crate::snapshot::{
    Snapshot, SnapperConfig, SnapperCleanupAlgorithm, pairs_view, tags_from, SYNCED_KEY, FALSE_VALUE,
};
use crate::text::{same_path, same_path_text, parse_u64, is_decimal, digits_value, unsigned_digits, views};

verus! {

/// The format of snapper's snapshot dates.
pub const SNAPPER_DATE_FORMAT: &'static str = "%Y-%m-%d %H:%M:%S";

/// Year, month, day, hour, minute and second that `text` gives in `format`.
pub uninterp spec fn parsed_datetime(text: Seq<char>, format: Seq<char>) -> Option<(i32, u32, u32, u32, u32, u32)>;

/// Relies on chrono's `NaiveDateTime::parse_from_str`, whose values are valid
/// dates from `MIN_YEAR` to `MAX_YEAR` with hours 0 to 23, minutes 0 to 59 and
/// seconds (through `Timelike::second`) 0 to 59.
#[verifier::external_body]
fn parse_datetime(text: &str, format: &str) -> (r: Option<Timestamp>)
    ensures
        r is Some <==> parsed_datetime(text@, format@) is Some,
        r matches Some(t) ==> parsed_datetime(text@, format@) == Some(
            (t.date.year, t.date.month, t.date.day, t.hour, t.minute, t.second),
        ),
        r matches Some(t) ==> t.wf(),
{
    chrono::NaiveDateTime::parse_from_str(text, format).ok().map(|d| Timestamp {
        date: CalendarDate { year: d.year(), month: d.month(), day: d.day() },
        hour: d.hour(),
        minute: d.minute(),
        second: d.second(),
    })
}

/// A listed snapper configuration: its name and subvolume, where listed as
/// text.
#[derive(Clone, Debug)]
pub struct ConfigRecord {
    pub config: Option<String>,
    pub subvolume: Option<String>,
}

/// A listed snapshot: its number, user data (each value where it is text),
/// cleanup algorithm and date, where listed.
#[derive(Clone, Debug)]
pub struct SnapshotRecord {
    pub number: Option<u64>,
    pub userdata: Option<Vec<(String, Option<String>)>>,
    pub cleanup: Option<String>,
    pub date: Option<String>,
}

/// The text of an optional string.
pub open spec fn opt_view(o: Option<String>) -> Option<Seq<char>> {
    match o {
        Some(s) => Some(s@),
        None => None,
    }
}

/// A configuration record as plain values: name and subvolume.
pub open spec fn config_record_view(r: ConfigRecord) -> (Option<Seq<char>>, Option<Seq<char>>) {
    (opt_view(r.config), opt_view(r.subvolume))
}

/// A snapshot record as plain values: number, user data, cleanup, date.
pub open spec fn snapshot_record_view(r: SnapshotRecord) -> (
    Option<u64>,
    Option<Seq<(Seq<char>, Option<Seq<char>>)>>,
    Option<Seq<char>>,
    Option<Seq<char>>,
) {
    (
        r.number,
        match r.userdata {
            Some(d) => Some(d@.map_values(|p: (String, Option<String>)| (p.0@, opt_view(p.1)))),
            None => None,
        },
        opt_view(r.cleanup),
        opt_view(r.date),
    )
}

/// The records as plain values.
pub open spec fn config_views(records: Seq<ConfigRecord>) -> Seq<(Option<Seq<char>>, Option<Seq<char>>)> {
    records.map_values(|c: ConfigRecord| config_record_view(c))
}

/// The records as plain values.
pub open spec fn snapshot_views(records: Seq<SnapshotRecord>) -> Seq<
    (Option<u64>, Option<Seq<(Seq<char>, Option<Seq<char>>)>>, Option<Seq<char>>, Option<Seq<char>>),
> {
    records.map_values(|s: SnapshotRecord| snapshot_record_view(s))
}

/// `found` is the first configuration of `dir` among `records`, or `None`
/// if there is none.
pub open spec fn first_of_dir(records: Seq<ConfigRecord>, dir: Seq<char>, found: Option<SnapperConfig>) -> bool {
    &&& found is None ==> forall|k: int| 0 <= k < records.len() ==> !config_of_dir(#[trigger] records[k], dir)
    &&& found matches Some(c) ==> exists|k: int|
        0 <= k < records.len() && config_of_dir(#[trigger] records[k], dir) && c.config_id@
            == records[k].config->0@ && c.subvolume@ == records[k].subvolume->0@ && forall|j: int|
            0 <= j < k ==> !config_of_dir(#[trigger] records[j], dir)
}

/// `snaps` are the snapshots of `config` that `records` describe, in order.
pub open spec fn made_from_all(snaps: Seq<Snapshot>, config: SnapperConfig, records: Seq<SnapshotRecord>) -> bool {
    &&& snaps.len() == usable_records(records).len()
    &&& forall|k: int| 0 <= k < snaps.len() ==> made_from(#[trigger] snaps[k], config, usable_records(records)[k])
}

/// The configurations that snapper's JSON listing `json` holds, if it can
/// be read: the name and subvolume of each, where given as text.
pub uninterp spec fn listed_configs(json: Seq<char>) -> Option<Seq<(Option<Seq<char>>, Option<Seq<char>>)>>;

/// The snapshots of `config_id` that snapper's JSON listing `json` holds, if
/// it can be read: number, user data, cleanup algorithm and date of each,
/// where given.
pub uninterp spec fn listed_snapshots(json: Seq<char>, config_id: Seq<char>) -> Option<
    Seq<(Option<u64>, Option<Seq<(Seq<char>, Option<Seq<char>>)>>, Option<Seq<char>>, Option<Seq<char>>)>,
>;

/// The subvolume that snapper's JSON reply `json` to `get-config` names, if
/// it can be read and names one as text.
pub uninterp spec fn listed_subvolume(json: Seq<char>) -> Option<Seq<char>>;

/// Relies on `serde_json::from_str` into a `Value`, and on `Value::get` and
/// `as_str`: the subvolume depends on the text alone.
#[verifier::external_body]
fn read_subvolume(json: &str) -> (r: Option<String>)
    ensures
        r is Some <==> listed_subvolume(json@) is Some,
        r matches Some(s) ==> s@ == listed_subvolume(json@)->0,
{
    let value: Value = serde_json::from_str(json).ok()?;
    value.get("SUBVOLUME").and_then(Value::as_str).map(String::from)
}

/// Relies on `serde_json::from_str` into a `Value`, and on `Value::get`,
/// `as_array` and `as_str`: the listing depends on the text alone.
#[verifier::external_body]
fn read_config_listing(json: &str) -> (r: Option<Vec<ConfigRecord>>)
    ensures
        r is Some <==> listed_configs(json@) is Some,
        r matches Some(v) ==> config_views(v@) == listed_configs(json@)->0,
{
    let value: Value = serde_json::from_str(json).ok()?;
    let configs = value.get("configs")?.as_array()?;
    Some(configs.iter().map(|c| ConfigRecord {
        config: c.get("config").and_then(Value::as_str).map(String::from),
        subvolume: c.get("subvolume").and_then(Value::as_str).map(String::from),
    }).collect())
}

/// Relies on `serde_json::from_str` into a `Value`, and on `Value::get`,
/// `as_array`, `as_object`, `as_u64` and `as_str`: the listing depends on the
/// text and the configuration name alone.
#[verifier::external_body]
fn read_snapshot_listing(json: &str, config_id: &str) -> (r: Option<Vec<SnapshotRecord>>)
    ensures
        r is Some <==> listed_snapshots(json@, config_id@) is Some,
        r matches Some(v) ==> snapshot_views(v@) == listed_snapshots(json@, config_id@)->0,
{
    let value: Value = serde_json::from_str(json).ok()?;
    let listed = value.get(config_id)?.as_array()?;
    Some(listed.iter().map(|s| SnapshotRecord {
        number: s.get("number").and_then(Value::as_u64),
        userdata: s.get("userdata").and_then(Value::as_object).map(|m| {
            m.iter().map(|(k, v)| (k.clone(), v.as_str().map(String::from))).collect()
        }),
        cleanup: s.get("cleanup").and_then(Value::as_str).map(String::from),
        date: s.get("date").and_then(Value::as_str).map(String::from),
    }).collect())
}

/// The record lists a configuration whose subvolume is the path `dir`,
/// compared component by component.
pub open spec fn config_of_dir(rec: ConfigRecord, dir: Seq<char>) -> bool {
    rec.config is Some && rec.subvolume is Some && same_path(rec.subvolume->0@, dir)
}

/// The user data of a record: its pairs with a text value.
pub open spec fn text_pairs(data: Seq<(String, Option<String>)>) -> Seq<(Seq<char>, Seq<char>)>
    decreases data.len(),
{
    if data.len() == 0 {
        Seq::empty()
    } else {
        let rest = text_pairs(data.drop_last());
        match data.last().1 {
            Some(v) => rest.push((data.last().0@, v@)),
            None => rest,
        }
    }
}

/// The record's date, if it has one in snapper's format.
pub open spec fn record_date(rec: SnapshotRecord) -> Option<(i32, u32, u32, u32, u32, u32)> {
    match rec.date {
        Some(d) => parsed_datetime(d@, SNAPPER_DATE_FORMAT@),
        None => None,
    }
}

/// A snapshot is made of the record: it has a number and a date.
pub open spec fn usable(rec: SnapshotRecord) -> bool {
    rec.number is Some && record_date(rec) is Some
}

/// The cleanup algorithm that the record names, if it names a known one.
pub open spec fn record_cleanup(rec: SnapshotRecord) -> Option<SnapperCleanupAlgorithm> {
    match rec.cleanup {
        Some(c) => if c@ == "number"@ {
            Some(SnapperCleanupAlgorithm::Number)
        } else if c@ == "timeline"@ {
            Some(SnapperCleanupAlgorithm::Timeline)
        } else {
            None
        },
        None => None,
    }
}

/// The records that give a snapshot, in order.
pub open spec fn usable_records(records: Seq<SnapshotRecord>) -> Seq<SnapshotRecord>
    decreases records.len(),
{
    if records.len() == 0 {
        Seq::empty()
    } else if usable(records.last()) {
        usable_records(records.drop_last()).push(records.last())
    } else {
        usable_records(records.drop_last())
    }
}

/// `s` is the snapshot of `config` that the record `rec` describes.
pub open spec fn made_from(s: Snapshot, config: SnapperConfig, rec: SnapshotRecord) -> bool {
    &&& s.config == config
    &&& Some(s.id) == rec.number
    &&& record_date(rec) == Some(
        (s.date.date.year, s.date.date.month, s.date.date.day, s.date.hour, s.date.minute, s.date.second),
    )
    &&& s.date.wf()
    &&& s.cleanup == record_cleanup(rec)
    &&& s.tags() == tags_from(
        text_pairs(
            match rec.userdata {
                Some(d) => d@,
                None => Seq::empty(),
            },
        ),
    )
}

/// The command line of snapper that creates a snapshot marked as unsynced.
pub open spec fn create_line(config_id: Seq<char>, cleanup: Option<SnapperCleanupAlgorithm>) -> Seq<Seq<char>> {
    seq![
        "snapper"@,
        "-c"@,
        config_id,
        "create"@,
        "-p"@,
        "-u"@,
        SYNCED_KEY@ + "="@ + FALSE_VALUE@,
        "--description"@,
        "Full Nextcloud Backup"@,
    ] + match cleanup {
        Some(c) => seq!["-c"@, c.name_spec()],
        None => Seq::empty(),
    }
}

fn text_values(data: &Vec<(String, Option<String>)>) -> (r: Vec<(String, String)>)
    ensures
        pairs_view(r@) == text_pairs(data@),
{
    let mut out: Vec<(String, String)> = Vec::new();
    let mut i: usize = 0;
    while i < data.len()
        invariant
            i <= data@.len(),
            pairs_view(out@) == text_pairs(data@.subrange(0, i as int)),
        decreases data.len() - i,
    {
        assert(data@.subrange(0, i + 1).drop_last() =~= data@.subrange(0, i as int));
        let ghost before = out@;
        match &data[i].1 {
            Some(v) => {
                out.push((data[i].0.clone(), v.clone()));
                assert(pairs_view(out@) =~= pairs_view(before).push((data@[i as int].0@, v@)));
            },
            None => {},
        }
        i += 1;
    }
    assert(data@.subrange(0, data@.len() as int) =~= data@);
    out
}

fn copy_config(c: &SnapperConfig) -> (r: SnapperConfig)
    ensures
        r == *c,
{
    SnapperConfig { subvolume: c.subvolume.clone(), config_id: c.config_id.clone() }
}

fn cleanup_of(name: &Option<String>) -> (r: Option<SnapperCleanupAlgorithm>)
    ensures
        r == record_cleanup(SnapshotRecord { number: None, userdata: None, cleanup: *name, date: None }),
{
    match name {
        Some(c) => match SnapperCleanupAlgorithm::parse_name(c.as_str()) {
            Ok(a) => Some(a),
            Err(_) => None,
        },
        None => None,
    }
}

impl SnapperConfig {
    /// The first listed configuration whose subvolume is the path `dir`.
    pub fn by_dir(records: &Vec<ConfigRecord>, dir: &str) -> (r: Option<SnapperConfig>)
        ensures
            first_of_dir(records@, dir@, r),
    {
        let mut i: usize = 0;
        while i < records.len()
            invariant
                i <= records@.len(),
                forall|k: int| 0 <= k < i ==> !config_of_dir(#[trigger] records@[k], dir@),
            decreases records.len() - i,
        {
            let rec = &records[i];
            if let (Some(config), Some(subvolume)) = (&rec.config, &rec.subvolume) {
                if same_path_text(subvolume.as_str(), dir) {
                    let found = SnapperConfig { subvolume: subvolume.clone(), config_id: config.clone() };
                    assert(config_of_dir(records@[i as int], dir@));
                    return Some(found);
                }
            }
            i += 1;
        }
        None
    }

    /// The first configuration of the subvolume `dir` in snapper's JSON
    /// listing `json`; `None` if the listing cannot be read.
    pub fn by_dir_in_listing(json: &str, dir: &str) -> (r: Option<Option<SnapperConfig>>)
        ensures
            r is None <==> listed_configs(json@) is None,
            r matches Some(found) ==> exists|records: Seq<ConfigRecord>|
                #[trigger] config_views(records) == listed_configs(json@)->0 && first_of_dir(records, dir@, found),
    {
        match read_config_listing(json) {
            None => None,
            Some(records) => {
                let found = SnapperConfig::by_dir(&records, dir);
                assert(first_of_dir(records@, dir@, found));
                assert(config_views(records@) == listed_configs(json@)->0);
                Some(found)
            },
        }
    }

    /// The snapshots of this configuration in snapper's JSON listing `json`,
    /// as `snapshots` makes them from its records; `None` if the listing
    /// cannot be read.
    pub fn snapshots_in_listing(&self, json: &str) -> (r: Option<Vec<Snapshot>>)
        ensures
            r is None <==> listed_snapshots(json@, self.config_id@) is None,
            r matches Some(v) ==> exists|records: Seq<SnapshotRecord>|
                #[trigger] snapshot_views(records) == listed_snapshots(json@, self.config_id@)->0 && made_from_all(
                    v@,
                    *self,
                    records,
                ),
    {
        match read_snapshot_listing(json, self.config_id.as_str()) {
            None => None,
            Some(records) => {
                let snaps = self.snapshots(&records);
                assert(made_from_all(snaps@, *self, records@));
                assert(snapshot_views(records@) == listed_snapshots(json@, self.config_id@)->0);
                Some(snaps)
            },
        }
    }

    /// The command line that asks snapper for the configuration `config_id`
    /// as JSON.
    pub fn get_config_command(config_id: &str) -> (r: Vec<String>)
        ensures
            views(r@) == seq!["snapper"@, "--jsonout"@, "-c"@, config_id@, "get-config"@],
    {
        let line: Vec<String> = vec![
            String::from_str("snapper"),
            String::from_str("--jsonout"),
            String::from_str("-c"),
            String::from_str(config_id),
            String::from_str("get-config"),
        ];
        assert(views(line@) =~= seq!["snapper"@, "--jsonout"@, "-c"@, config_id@, "get-config"@]);
        line
    }

    /// The configuration named `config_id`, from snapper's JSON `reply` to
    /// `get_config_command`; `reply` is `None` when that command failed.
    pub fn config_by_id(config_id: &str, reply: Option<&str>) -> (r: Option<SnapperConfig>)
        ensures
            reply is None ==> r is None,
            reply is Some && listed_subvolume(reply->0@) is None ==> r is None,
            reply is Some && listed_subvolume(reply->0@) is Some ==> (r matches Some(c) && c.config_id@
                == config_id@ && c.subvolume@ == listed_subvolume(reply->0@)->0),
    {
        match reply {
            None => None,
            Some(json) => match read_subvolume(json) {
                None => None,
                Some(s) => Some(SnapperConfig { subvolume: s, config_id: String::from_str(config_id) }),
            },
        }
    }

    /// The snapshots that the listed records describe; a record without a
    /// number or a valid date is left out.
    pub fn snapshots(&self, records: &Vec<SnapshotRecord>) -> (r: Vec<Snapshot>)
        ensures
            r@.len() == usable_records(records@).len(),
            forall|k: int|
                0 <= k < r@.len() ==> made_from(#[trigger] r@[k], *self, usable_records(records@)[k]),
    {
        let mut out: Vec<Snapshot> = Vec::new();
        let mut i: usize = 0;
        while i < records.len()
            invariant
                i <= records@.len(),
                out@.len() == usable_records(records@.subrange(0, i as int)).len(),
                forall|k: int|
                    0 <= k < out@.len() ==> made_from(
                        #[trigger] out@[k],
                        *self,
                        usable_records(records@.subrange(0, i as int))[k],
                    ),
            decreases records.len() - i,
        {
            assert(records@.subrange(0, i + 1).drop_last() =~= records@.subrange(0, i as int));
            let rec = &records[i];
            let date = match &rec.date {
                Some(d) => parse_datetime(d.as_str(), SNAPPER_DATE_FORMAT),
                None => None,
            };
            match (rec.number, date) {
                (Some(id), Some(date)) => {
                    let pairs = match &rec.userdata {
                        Some(d) => text_values(d),
                        None => {
                            let empty: Vec<(String, String)> = Vec::new();
                            assert(pairs_view(empty@) =~= text_pairs(Seq::<(String, Option<String>)>::empty()));
                            empty
                        },
                    };
                    let cleanup = cleanup_of(&rec.cleanup);
                    let snap = Snapshot::new(copy_config(self), id, pairs, cleanup, date);
                    assert(usable(records@[i as int]));
                    assert(made_from(snap, *self, records@[i as int]));
                    out.push(snap);
                    assert(usable_records(records@.subrange(0, i + 1)) == usable_records(
                        records@.subrange(0, i as int),
                    ).push(records@[i as int]));
                },
                _ => {
                    assert(!usable(records@[i as int]));
                },
            }
            i += 1;
        }
        assert(records@.subrange(0, records@.len() as int) =~= records@);
        out
    }

    /// The command line that creates a snapshot marked as not yet synced,
    /// with the cleanup algorithm `cleanup`.
    pub fn create_snapshot(&self, cleanup: Option<SnapperCleanupAlgorithm>) -> (r: Vec<String>)
        ensures
            views(r@) == create_line(self.config_id@, cleanup),
    {
        proof {
            reveal_strlit("=");
        }
        let mut marker = String::from_str(SYNCED_KEY);
        marker.append("=");
        marker.append(FALSE_VALUE);
        let mut line: Vec<String> = vec![
            String::from_str("snapper"),
            String::from_str("-c"),
            self.config_id.clone(),
            String::from_str("create"),
            String::from_str("-p"),
            String::from_str("-u"),
            marker,
            String::from_str("--description"),
            String::from_str("Full Nextcloud Backup"),
        ];
        if let Some(c) = cleanup {
            line.push(String::from_str("-c"));
            line.push(String::from_str(c.name()));
        }
        assert(views(line@) =~= create_line(self.config_id@, cleanup));
        line
    }

    /// The command line that lists snapper's configurations as JSON.
    pub fn list_configs_command() -> (r: Vec<String>)
        ensures
            views(r@) == seq!["snapper"@, "--jsonout"@, "list-configs"@],
    {
        let line: Vec<String> = vec![
            String::from_str("snapper"),
            String::from_str("--jsonout"),
            String::from_str("list-configs"),
        ];
        assert(views(line@) =~= seq!["snapper"@, "--jsonout"@, "list-configs"@]);
        line
    }

    /// The command line that lists the snapshots of this configuration as
    /// JSON, with number, user data, cleanup algorithm and date.
    pub fn list_snapshots_command(&self) -> (r: Vec<String>)
        ensures
            views(r@) == seq![
                "snapper"@,
                "--jsonout"@,
                "-c"@,
                self.config_id@,
                "list"@,
                "--columns"@,
                "number,userdata,cleanup,date"@,
            ],
    {
        let line: Vec<String> = vec![
            String::from_str("snapper"),
            String::from_str("--jsonout"),
            String::from_str("-c"),
            self.config_id.clone(),
            String::from_str("list"),
            String::from_str("--columns"),
            String::from_str("number,userdata,cleanup,date"),
        ];
        assert(views(line@) =~= seq![
            "snapper"@,
            "--jsonout"@,
            "-c"@,
            self.config_id@,
            "list"@,
            "--columns"@,
            "number,userdata,cleanup,date"@,
        ]);
        line
    }

    /// The number of the snapshot that snapper reports to have created.
    pub fn created_id(stdout: &str) -> (r: Option<u64>)
        ensures
            r is Some <==> is_decimal(trimmed(stdout@)) && digits_value(unsigned_digits(trimmed(stdout@))) <= u64::MAX,
            r matches Some(v) ==> v as int == digits_value(unsigned_digits(trimmed(stdout@))),
    {
        let text = trim(stdout);
        parse_u64(text.as_str())
    }
}

} // verus!
