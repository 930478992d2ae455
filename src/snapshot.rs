//! Snapshots of the snapper tool and the user-data tags that record their
//! sync state.

use vstd::prelude::*;
use crate::date::Timestamp;
use crate::text::{same_text, joined, join_path, decimal, push_decimal, decimal_text, views};

verus! {

/// User-data key that marks the anchor of incremental syncs.
pub const ANCHOR_KEY: &'static str = "anchor";

/// User-data key that records whether a snapshot was synced.
pub const SYNCED_KEY: &'static str = "synced";

/// Tag value for a set flag.
pub const TRUE_VALUE: &'static str = "true";

/// Tag value for a cleared flag.
pub const FALSE_VALUE: &'static str = "false";

/// Algorithms with which snapper deletes old snapshots.
#[derive(Clone, Copy, Debug, PartialEq, Eq, Structural, PartialOrd, Ord)]
pub enum SnapperCleanupAlgorithm {
    /// Deletes old snapshots once a number of snapshots is reached.
    Number,
    /// Keeps a number of hourly, daily, weekly, monthly and yearly snapshots.
    Timeline,
}

/// A cleanup algorithm name that snapper does not know.
#[derive(Clone, Debug)]
pub struct UnkownCleanupAlgorithm(pub String);

impl SnapperCleanupAlgorithm {
    /// The name snapper uses for the algorithm.
    pub open spec fn name_spec(self) -> Seq<char> {
        match self {
            SnapperCleanupAlgorithm::Number => "number"@,
            SnapperCleanupAlgorithm::Timeline => "timeline"@,
        }
    }

    /// The name snapper uses for the algorithm.
    pub fn name(&self) -> (r: &'static str)
        ensures
            r@ == self.name_spec(),
    {
        match self {
            SnapperCleanupAlgorithm::Number => "number",
            SnapperCleanupAlgorithm::Timeline => "timeline",
        }
    }

    /// The algorithm that snapper calls `s`.
    pub fn parse_name(s: &str) -> (r: Result<SnapperCleanupAlgorithm, UnkownCleanupAlgorithm>)
        ensures
            s@ == "number"@ ==> r == Ok::<_, UnkownCleanupAlgorithm>(SnapperCleanupAlgorithm::Number),
            s@ == "timeline"@ ==> r == Ok::<_, UnkownCleanupAlgorithm>(SnapperCleanupAlgorithm::Timeline),
            s@ != "number"@ && s@ != "timeline"@ ==> (r matches Err(e) && e.0@ == s@),
    {
        proof {
            reveal_strlit("number");
            reveal_strlit("timeline");
            assert("number"@[0] != "timeline"@[0]);
        }
        if same_text(s, "number") {
            Ok(SnapperCleanupAlgorithm::Number)
        } else if same_text(s, "timeline") {
            Ok(SnapperCleanupAlgorithm::Timeline)
        } else {
            Err(UnkownCleanupAlgorithm(String::from_str(s)))
        }
    }
}

impl std::str::FromStr for SnapperCleanupAlgorithm {
    type Err = UnkownCleanupAlgorithm;

    fn from_str(s: &str) -> Result<SnapperCleanupAlgorithm, UnkownCleanupAlgorithm> {
        SnapperCleanupAlgorithm::parse_name(s)
    }
}

/// The views of key/value pairs.
pub open spec fn pairs_view(pairs: Seq<(String, String)>) -> Seq<(Seq<char>, Seq<char>)> {
    pairs.map_values(|p: (String, String)| (p.0@, p.1@))
}

/// The value of the first pair of `tags` with `key`.
pub open spec fn lookup(tags: Seq<(Seq<char>, Seq<char>)>, key: Seq<char>) -> Option<Seq<char>>
    decreases tags.len(),
{
    if tags.len() == 0 {
        None
    } else if tags[0].0 == key {
        Some(tags[0].1)
    } else {
        lookup(tags.drop_first(), key)
    }
}

/// `tags` with the first pair with `key` set to `value`, or with that pair
/// appended if there is none.
pub open spec fn with_tag(tags: Seq<(Seq<char>, Seq<char>)>, key: Seq<char>, value: Seq<char>) -> Seq<
    (Seq<char>, Seq<char>),
>
    decreases tags.len(),
{
    if tags.len() == 0 {
        seq![(key, value)]
    } else if tags[0].0 == key {
        tags.update(0, (key, value))
    } else {
        seq![tags[0]] + with_tag(tags.drop_first(), key, value)
    }
}

/// The pairs given, one after the other, set into an empty tag list.
pub open spec fn tags_from(pairs: Seq<(Seq<char>, Seq<char>)>) -> Seq<(Seq<char>, Seq<char>)>
    decreases pairs.len(),
{
    if pairs.len() == 0 {
        Seq::empty()
    } else {
        with_tag(tags_from(pairs.drop_last()), pairs.last().0, pairs.last().1)
    }
}

/// `key=value`.
pub open spec fn pair_text(pair: (Seq<char>, Seq<char>)) -> Seq<char> {
    pair.0 + "="@ + pair.1
}

/// The pairs as `key=value`, separated by commas.
pub open spec fn tags_text(tags: Seq<(Seq<char>, Seq<char>)>) -> Seq<char>
    decreases tags.len(),
{
    if tags.len() == 0 {
        Seq::empty()
    } else if tags.len() == 1 {
        pair_text(tags[0])
    } else {
        tags_text(tags.drop_last()) + ","@ + pair_text(tags.last())
    }
}

proof fn lemma_lookup_first(tags: Seq<(Seq<char>, Seq<char>)>, key: Seq<char>, i: int)
    requires
        0 <= i < tags.len(),
        tags[i].0 == key,
        forall|j: int| 0 <= j < i ==> tags[j].0 != key,
    ensures
        lookup(tags, key) == Some(tags[i].1),
        with_tag(tags, key, tags[i].1) == tags,
    decreases i,
{
    if i > 0 {
        lemma_lookup_first(tags.drop_first(), key, i - 1);
        assert(seq![tags[0]] + tags.drop_first() =~= tags);
    } else {
        assert(tags.update(0, (key, tags[0].1)) =~= tags);
    }
}

proof fn lemma_set_first(tags: Seq<(Seq<char>, Seq<char>)>, key: Seq<char>, value: Seq<char>, i: int)
    requires
        0 <= i < tags.len(),
        tags[i].0 == key,
        forall|j: int| 0 <= j < i ==> tags[j].0 != key,
    ensures
        with_tag(tags, key, value) == tags.update(i, (key, value)),
    decreases i,
{
    if i > 0 {
        lemma_set_first(tags.drop_first(), key, value, i - 1);
        assert(seq![tags[0]] + tags.drop_first().update(i - 1, (key, value)) =~= tags.update(
            i,
            (key, value),
        ));
    }
}

proof fn lemma_absent(tags: Seq<(Seq<char>, Seq<char>)>, key: Seq<char>, value: Seq<char>)
    requires
        forall|j: int| 0 <= j < tags.len() ==> tags[j].0 != key,
    ensures
        lookup(tags, key) is None,
        with_tag(tags, key, value) == tags.push((key, value)),
    decreases tags.len(),
{
    if tags.len() > 0 {
        lemma_absent(tags.drop_first(), key, value);
        assert(seq![tags[0]] + tags.drop_first().push((key, value)) =~= tags.push((key, value)));
    } else {
        assert(seq![(key, value)] =~= tags.push((key, value)));
    }
}

/// Setting a key makes the key read back as the value and leaves every other
/// key as it was.
pub proof fn lemma_with_tag_lookup(
    tags: Seq<(Seq<char>, Seq<char>)>,
    key: Seq<char>,
    value: Seq<char>,
    other: Seq<char>,
)
    ensures
        lookup(with_tag(tags, key, value), key) == Some(value),
        other != key ==> lookup(with_tag(tags, key, value), other) == lookup(tags, other),
    decreases tags.len(),
{
    let w = with_tag(tags, key, value);
    if tags.len() > 0 && tags[0].0 != key {
        lemma_with_tag_lookup(tags.drop_first(), key, value, other);
        assert(w.drop_first() =~= with_tag(tags.drop_first(), key, value));
        assert(w[0] == tags[0]);
        if other != key && tags[0].0 != other {
            assert(lookup(w, other) == lookup(w.drop_first(), other));
            assert(lookup(tags, other) == lookup(tags.drop_first(), other));
        }
    } else if tags.len() > 0 {
        assert(w.drop_first() =~= tags.drop_first());
        assert(w[0] == (key, value));
        if other != key {
            assert(lookup(w, other) == lookup(w.drop_first(), other));
            assert(lookup(tags, other) == lookup(tags.drop_first(), other));
        }
    } else {
        assert(w.drop_first() =~= Seq::<(Seq<char>, Seq<char>)>::empty());
        assert(w[0] == (key, value));
        if other != key {
            assert(lookup(w, other) == lookup(w.drop_first(), other));
        }
    }
}

fn find_tag(data: &Vec<(String, String)>, key: &str) -> (r: Option<usize>)
    ensures
        r matches Some(i) ==> i < data@.len() && pairs_view(data@)[i as int].0 == key@ && forall|
            j: int,
        | 0 <= j < i ==> pairs_view(data@)[j].0 != key@,
        r is None ==> forall|j: int| 0 <= j < data@.len() ==> pairs_view(data@)[j].0 != key@,
{
    let mut i: usize = 0;
    while i < data.len()
        invariant
            i <= data@.len(),
            forall|j: int| 0 <= j < i ==> pairs_view(data@)[j].0 != key@,
        decreases data.len() - i,
    {
        if same_text(data[i].0.as_str(), key) {
            return Some(i);
        }
        i += 1;
    }
    None
}

/// Sets `key` to `value` in the list `data`.
fn set_pair(data: &mut Vec<(String, String)>, key: &str, value: &str)
    ensures
        pairs_view(final(data)@) == with_tag(pairs_view(old(data)@), key@, value@),
{
    let ghost before = pairs_view(data@);
    match find_tag(data, key) {
        Some(i) => {
            proof {
                lemma_set_first(before, key@, value@, i as int);
            }
            data.set(i, (String::from_str(key), String::from_str(value)));
            assert(pairs_view(data@) =~= before.update(i as int, (key@, value@)));
        },
        None => {
            proof {
                lemma_absent(before, key@, value@);
            }
            data.push((String::from_str(key), String::from_str(value)));
            assert(pairs_view(data@) =~= before.push((key@, value@)));
        },
    }
}

/// A snapper configuration: the subvolume it snapshots, by its name.
#[derive(Clone, Debug)]
pub struct SnapperConfig {
    pub subvolume: String,
    pub config_id: String,
}

impl PartialEq for SnapperConfig {
    fn eq(&self, other: &SnapperConfig) -> (r: bool) {
        self.config_id == other.config_id
    }
}

impl vstd::std_specs::cmp::PartialEqSpecImpl for SnapperConfig {
    open spec fn obeys_eq_spec() -> bool {
        true
    }

    open spec fn eq_spec(&self, other: &SnapperConfig) -> bool {
        self.config_id@ == other.config_id@
    }
}

/// The changes to write back for a snapshot: its full user data and its
/// cleanup algorithm (empty for none).
#[derive(Clone, Debug)]
pub struct SnapshotUpdate {
    pub config_id: String,
    pub id: u64,
    pub user_data: String,
    pub cleanup: String,
}

impl SnapshotUpdate {
    /// The command line of snapper that writes the update back.
    pub fn command_line(&self) -> (r: Vec<String>)
        ensures
            views(r@) == seq![
                "snapper"@,
                "--jsonout"@,
                "-c"@,
                self.config_id@,
                "modify"@,
                "-u"@,
                self.user_data@,
                "-c"@,
                self.cleanup@,
                decimal(self.id as nat),
            ],
    {
        let line: Vec<String> = vec![
            String::from_str("snapper"),
            String::from_str("--jsonout"),
            String::from_str("-c"),
            self.config_id.clone(),
            String::from_str("modify"),
            String::from_str("-u"),
            self.user_data.clone(),
            String::from_str("-c"),
            self.cleanup.clone(),
            decimal_text(self.id),
        ];
        assert(views(line@) =~= seq![
            "snapper"@,
            "--jsonout"@,
            "-c"@,
            self.config_id@,
            "modify"@,
            "-u"@,
            self.user_data@,
            "-c"@,
            self.cleanup@,
            decimal(self.id as nat),
        ]);
        line
    }
}

/// A snapshot created by snapper.
#[derive(Clone, Debug)]
pub struct Snapshot {
    pub config: SnapperConfig,
    pub id: u64,
    pub user_data: Vec<(String, String)>,
    pub cleanup: Option<SnapperCleanupAlgorithm>,
    pub date: Timestamp,
}

impl PartialEq for Snapshot {
    fn eq(&self, other: &Snapshot) -> (r: bool) {
        self.id == other.id
    }
}

impl vstd::std_specs::cmp::PartialEqSpecImpl for Snapshot {
    open spec fn obeys_eq_spec() -> bool {
        true
    }

    open spec fn eq_spec(&self, other: &Snapshot) -> bool {
        self.id == other.id
    }
}

impl Eq for Snapshot {
}

impl Snapshot {
    /// The user-data tags, in the order in which they were first set.
    pub open spec fn tags(&self) -> Seq<(Seq<char>, Seq<char>)> {
        pairs_view(self.user_data@)
    }

    /// The snapshot carries the anchor flag.
    pub open spec fn anchored(&self) -> bool {
        lookup(self.tags(), ANCHOR_KEY@) == Some(TRUE_VALUE@)
    }

    /// The snapshot is marked as synced.
    pub open spec fn synced_spec(&self) -> bool {
        lookup(self.tags(), SYNCED_KEY@) == Some(TRUE_VALUE@)
    }

    /// The snapshot is marked as not yet synced.
    pub open spec fn unsynced(&self) -> bool {
        lookup(self.tags(), SYNCED_KEY@) == Some(FALSE_VALUE@)
    }

    /// Where snapper keeps the snapshot's files.
    pub open spec fn path_spec(&self) -> Seq<char> {
        joined(self.config.subvolume@, ".snapshots/"@ + decimal(self.id as nat) + "/snapshot"@)
    }

    /// Everything but the tags is the same in `self` and `other`.
    pub open spec fn same_but_tags(&self, other: &Snapshot) -> bool {
        &&& self.config == other.config
        &&& self.id == other.id
        &&& self.cleanup == other.cleanup
        &&& self.date == other.date
    }

    /// A snapshot with the given user data; a key given twice keeps the last value.
    pub fn new(
        config: SnapperConfig,
        id: u64,
        user_data: Vec<(String, String)>,
        cleanup: Option<SnapperCleanupAlgorithm>,
        date: Timestamp,
    ) -> (r: Snapshot)
        ensures
            r.config == config,
            r.id == id,
            r.cleanup == cleanup,
            r.date == date,
            r.tags() == tags_from(pairs_view(user_data@)),
    {
        let mut data: Vec<(String, String)> = Vec::new();
        let mut i: usize = 0;
        while i < user_data.len()
            invariant
                i <= user_data@.len(),
                pairs_view(data@) == tags_from(pairs_view(user_data@.subrange(0, i as int))),
            decreases user_data.len() - i,
        {
            set_pair(&mut data, user_data[i].0.as_str(), user_data[i].1.as_str());
            proof {
                let next = pairs_view(user_data@.subrange(0, i + 1));
                assert(next.drop_last() =~= pairs_view(user_data@.subrange(0, i as int)));
            }
            i += 1;
        }
        assert(user_data@.subrange(0, user_data@.len() as int) =~= user_data@);
        Snapshot { config, id, user_data: data, cleanup, date }
    }

    /// The user-data tags.
    pub fn user_data(&self) -> (r: &Vec<(String, String)>)
        ensures
            pairs_view(r@) == self.tags(),
    {
        &self.user_data
    }

    /// Whether the tag `key` holds `value`.
    pub fn tag_is(&self, key: &str, value: &str) -> (r: bool)
        ensures
            r == (lookup(self.tags(), key@) == Some(value@)),
    {
        match find_tag(&self.user_data, key) {
            Some(i) => {
                proof {
                    lemma_lookup_first(self.tags(), key@, i as int);
                }
                same_text(self.user_data[i].1.as_str(), value)
            },
            None => {
                proof {
                    lemma_absent(self.tags(), key@, value@);
                }
                false
            },
        }
    }

    /// Whether the snapshot carries the anchor flag.
    pub fn is_anchored(&self) -> (r: bool)
        ensures
            r == self.anchored(),
    {
        self.tag_is(ANCHOR_KEY, TRUE_VALUE)
    }

    /// Whether the snapshot is marked as synced.
    pub fn is_synced(&self) -> (r: bool)
        ensures
            r == self.synced_spec(),
    {
        self.tag_is(SYNCED_KEY, TRUE_VALUE)
    }

    /// Whether the snapshot is marked as not yet synced.
    pub fn is_unsynced(&self) -> (r: bool)
        ensures
            r == self.unsynced(),
    {
        self.tag_is(SYNCED_KEY, FALSE_VALUE)
    }

    /// The snapshot's number.
    pub fn id(&self) -> (r: u64)
        ensures
            r == self.id,
    {
        self.id
    }

    /// Creation date of the snapshot.
    pub fn date(&self) -> (r: &Timestamp)
        ensures
            *r == self.date,
    {
        &self.date
    }

    /// Where snapper keeps the snapshot's files.
    pub fn snapshot_path(&self) -> (r: String)
        ensures
            r@ == self.path_spec(),
    {
        proof {
            reveal_strlit(".snapshots/");
            reveal_strlit("/snapshot");
        }
        let mut rel = String::from_str(".snapshots/");
        push_decimal(&mut rel, self.id);
        rel.append("/snapshot");
        join_path(self.config.subvolume.as_str(), rel.as_str())
    }

    /// Sets the tag `key` to `value`.
    pub fn set_tag(&mut self, key: &str, value: &str)
        ensures
            final(self).tags() == with_tag(old(self).tags(), key@, value@),
            final(self).same_but_tags(old(self)),
    {
        set_pair(&mut self.user_data, key, value);
    }

    /// Sets the cleanup algorithm.
    pub fn set_cleanup(&mut self, cleanup_algorithm: Option<SnapperCleanupAlgorithm>)
        ensures
            final(self).cleanup == cleanup_algorithm,
            final(self).tags() == old(self).tags(),
            final(self).config == old(self).config,
            final(self).id == old(self).id,
            final(self).date == old(self).date,
    {
        self.cleanup = cleanup_algorithm;
    }

    /// Sets the anchor flag; only a synced snapshot can anchor.
    pub fn anchor(&mut self)
        requires
            old(self).synced_spec(),
        ensures
            final(self).tags() == with_tag(old(self).tags(), ANCHOR_KEY@, TRUE_VALUE@),
            final(self).same_but_tags(old(self)),
            final(self).anchored(),
    {
        self.set_tag(ANCHOR_KEY, TRUE_VALUE);
        proof {
            lemma_with_tag_lookup(old(self).tags(), ANCHOR_KEY@, TRUE_VALUE@, ANCHOR_KEY@);
        }
    }

    /// Clears the anchor flag; the tag stays, set to `false`.
    pub fn release(&mut self)
        ensures
            final(self).tags() == with_tag(old(self).tags(), ANCHOR_KEY@, FALSE_VALUE@),
            final(self).same_but_tags(old(self)),
            !final(self).anchored(),
    {
        self.set_tag(ANCHOR_KEY, FALSE_VALUE);
        proof {
            lemma_with_tag_lookup(old(self).tags(), ANCHOR_KEY@, FALSE_VALUE@, ANCHOR_KEY@);
            reveal_strlit("true");
            reveal_strlit("false");
            assert(TRUE_VALUE@.len() != FALSE_VALUE@.len());
        }
    }

    /// Marks the snapshot as synced.
    pub fn synced(&mut self)
        ensures
            final(self).tags() == with_tag(old(self).tags(), SYNCED_KEY@, TRUE_VALUE@),
            final(self).same_but_tags(old(self)),
            final(self).synced_spec(),
    {
        self.set_tag(SYNCED_KEY, TRUE_VALUE);
        proof {
            lemma_with_tag_lookup(old(self).tags(), SYNCED_KEY@, TRUE_VALUE@, SYNCED_KEY@);
        }
    }

    /// The user data as snapper takes it: `key=value` pairs separated by commas.
    pub fn user_data_text(&self) -> (r: String)
        ensures
            r@ == tags_text(self.tags()),
    {
        proof {
            reveal_strlit("=");
            reveal_strlit(",");
        }
        let mut text = String::new();
        let mut i: usize = 0;
        while i < self.user_data.len()
            invariant
                i <= self.user_data@.len(),
                text@ == tags_text(self.tags().subrange(0, i as int)),
            decreases self.user_data.len() - i,
        {
            if i > 0 {
                text.append(",");
            }
            text.append(self.user_data[i].0.as_str());
            text.append("=");
            text.append(self.user_data[i].1.as_str());
            proof {
                let next = self.tags().subrange(0, i + 1);
                assert(next.drop_last() =~= self.tags().subrange(0, i as int));
                if i == 0 {
                    assert(text@ =~= pair_text(next[0]));
                } else {
                    assert(text@ =~= tags_text(next.drop_last()) + ","@ + pair_text(next.last()));
                }
            }
            i += 1;
        }
        assert(self.tags().subrange(0, self.user_data@.len() as int) =~= self.tags());
        text
    }

    /// What to write back to snapper after the tags or the cleanup algorithm
    /// changed.
    pub fn update_request(&self) -> (r: SnapshotUpdate)
        ensures
            r.config_id@ == self.config.config_id@,
            r.id == self.id,
            r.user_data@ == tags_text(self.tags()),
            r.cleanup@ == (match self.cleanup {
                Some(c) => c.name_spec(),
                None => Seq::empty(),
            }),
    {
        let cleanup = match self.cleanup {
            Some(c) => String::from_str(c.name()),
            None => String::new(),
        };
        SnapshotUpdate {
            config_id: self.config.config_id.clone(),
            id: self.id,
            user_data: self.user_data_text(),
            cleanup,
        }
    }
}

} // verus!
