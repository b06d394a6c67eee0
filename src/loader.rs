//! Persistence of the registry: the registry as plain records, and those
//! records as JSON text. Reading and writing the file is the caller's part.

use vstd::prelude::*;
use crate::alert::{Alert, AlertView};
use crate::alerts_map::{AlertsMap, added_all, alert_views, group_of};

verus! {

#[verifier::external_type_specification]
#[verifier::external_body]
pub struct ExJsonError(serde_json::Error);

/// One alert as a record: room, player, user, notified flag, delay, URL.
pub type AlertRecord = (String, String, String, bool, u64, String);

/// The alerts of one game as a record: the game and its alerts.
pub type GroupRecord = (String, Vec<AlertRecord>);

/// Model of an [`AlertRecord`].
pub type AlertRecordView = (Seq<char>, Seq<char>, Seq<char>, bool, u64, Seq<char>);

/// Model of a [`GroupRecord`].
pub type GroupRecordView = (Seq<char>, Seq<AlertRecordView>);

/// The JSON text that serde_json writes for the records.
pub uninterp spec fn alerts_json(records: Seq<GroupRecordView>) -> Seq<char>;

/// The records that serde_json reads from a text, or `None` when the text is
/// not the JSON of such records.
pub uninterp spec fn alerts_from_json(text: Seq<char>) -> Option<Seq<GroupRecordView>>;

/// Relies on `serde_json::to_string`: the JSON text of the records. It fails
/// only when a `Serialize` impl fails or a map has non-string keys; records of
/// strings, booleans and integers in vectors and tuples have neither.
#[verifier::external_body]
fn records_to_json(records: &Vec<GroupRecord>) -> (r: Result<String, serde_json::Error>)
    ensures
        r is Ok,
        r matches Ok(t) ==> t@ == alerts_json(records.deep_view()),
{
    serde_json::to_string(records)
}

/// Relies on `serde_json::from_str`: the records that the text holds, or an
/// error when it holds none.
#[verifier::external_body]
fn records_from_json(text: &str) -> (r: Result<Vec<GroupRecord>, serde_json::Error>)
    ensures
        match r {
            Ok(v) => alerts_from_json(text@) == Some(v.deep_view()),
            Err(_) => alerts_from_json(text@) is None,
        },
{
    serde_json::from_str(text)
}

/// The record of an alert.
pub open spec fn record_of(a: AlertView) -> AlertRecordView {
    (a.room_id, a.player_id, a.user_id, a.notified, a.delay, a.player_url)
}

/// The alert of a record.
pub open spec fn alert_of(r: AlertRecordView) -> AlertView {
    AlertView {
        room_id: r.0,
        player_id: r.1,
        user_id: r.2,
        notified: r.3,
        delay: r.4,
        player_url: r.5,
    }
}

/// The records of a registry, one per game in the order of `game_seq`.
pub open spec fn records_of(m: AlertsMap) -> Seq<GroupRecordView> {
    m.game_seq().map_values(
        |g: Seq<char>| (g, m@[g].map_values(|a: AlertView| record_of(a))),
    )
}

/// The registry that the records describe: each record adds its alerts to
/// its game, a subscription already present keeping its first alert.
pub open spec fn load_records(rs: Seq<GroupRecordView>) -> Map<Seq<char>, Seq<AlertView>>
    decreases rs.len(),
{
    if rs.len() == 0 {
        Map::empty()
    } else {
        let m = load_records(rs.drop_last());
        let g = rs.last().0;
        m.insert(g, added_all(group_of(m, g), rs.last().1.map_values(|r| alert_of(r))))
    }
}

/// The alert of a record.
fn alert_from_record(r: &AlertRecord) -> (a: Alert)
    ensures
        a@ == alert_of(r.deep_view()),
{
    Alert {
        room_id: r.0.clone(),
        player_id: r.1.clone(),
        user_id: r.2.clone(),
        notified: r.3,
        delay: r.4,
        player_url: r.5.clone(),
    }
}

/// The record of an alert.
fn record_from_alert(a: &Alert) -> (r: AlertRecord)
    ensures
        r.deep_view() == record_of(a@),
{
    (a.room_id.clone(), a.player_id.clone(), a.user_id.clone(), a.notified, a.delay, a.player_url.clone())
}

/// The records of a registry.
pub fn to_records(map: &AlertsMap) -> (r: Vec<GroupRecord>)
    requires
        map.wf(),
    ensures
        r.deep_view() == records_of(*map),
{
    let ids = map.game_ids();
    let mut r: Vec<GroupRecord> = Vec::new();
    let mut i: usize = 0;
    proof {
        map.lemma_game_seq();
    }
    while i < ids.len()
        invariant
            map.wf(),
            ids@.map_values(|s: String| s@) == map.game_seq(),
            forall|g: Seq<char>| map@.contains_key(g) <==> map.game_seq().contains(g),
            i <= ids.len(),
            r.len() == i,
            forall|j: int| 0 <= j < i ==> #[trigger] r@[j].deep_view() == records_of(*map)[j],
        decreases ids.len() - i,
    {
        let g = &ids[i];
        assert(g@ == map.game_seq()[i as int]);
        assert(map.game_seq().contains(g@));
        let alerts = match map.get(g.as_str()) {
            Some(v) => v,
            None => {
                assert(false);
                return r;
            },
        };
        let mut recs: Vec<AlertRecord> = Vec::new();
        let mut j: usize = 0;
        while j < alerts.len()
            invariant
                j <= alerts.len(),
                recs.len() == j,
                forall|x: int| 0 <= x < j ==> #[trigger] recs@[x].deep_view() == record_of(alerts@[x]@),
            decreases alerts.len() - j,
        {
            recs.push(record_from_alert(&alerts[j]));
            j += 1;
        }
        proof {
            assert(recs.deep_view() =~= map@[g@].map_values(|a: AlertView| record_of(a)));
        }
        r.push((g.clone(), recs));
        i += 1;
    }
    proof {
        assert(r.deep_view() =~= records_of(*map));
    }
    r
}

/// The registry that the records describe.
pub fn from_records(records: &Vec<GroupRecord>) -> (r: AlertsMap)
    ensures
        r.wf(),
        r@ == load_records(records.deep_view()),
{
    let mut r = AlertsMap::new();
    let mut i: usize = 0;
    while i < records.len()
        invariant
            i <= records.len(),
            r.wf(),
            r@ == load_records(records.deep_view().take(i as int)),
        decreases records.len() - i,
    {
        let rec = &records[i];
        let mut alerts: Vec<Alert> = Vec::new();
        let mut j: usize = 0;
        while j < rec.1.len()
            invariant
                j <= rec.1.len(),
                alerts.len() == j,
                forall|x: int| 0 <= x < j ==> #[trigger] alerts@[x]@ == alert_of(rec.1@[x].deep_view()),
            decreases rec.1.len() - j,
        {
            alerts.push(alert_from_record(&rec.1[j]));
            j += 1;
        }
        r.merge_group(rec.0.as_str(), &alerts);
        proof {
            let t = records.deep_view().take(i + 1);
            assert(t.drop_last() =~= records.deep_view().take(i as int));
            assert(t.last() == rec.deep_view());
            assert(alert_views(alerts@) =~= rec.deep_view().1.map_values(|x| alert_of(x)));
        }
        i += 1;
    }
    proof {
        assert(records.deep_view().take(i as int) =~= records.deep_view());
    }
    r
}

/// Loading the first `i` records of a registry gives the registry restricted
/// to its first `i` games.
proof fn lemma_records_prefix(m: AlertsMap, i: int)
    requires
        m.wf(),
        0 <= i <= m.game_seq().len(),
    ensures
        load_records(records_of(m).take(i)) == m@.restrict(m.game_seq().take(i).to_set()),
    decreases i,
{
    m.lemma_game_seq();
    let gs = m.game_seq();
    let rs = records_of(m);
    if i == 0 {
        assert(rs.take(0) =~= Seq::<GroupRecordView>::empty());
        assert(m@.restrict(gs.take(0).to_set()) =~= Map::empty());
    } else {
        lemma_records_prefix(m, i - 1);
        let g = gs[i - 1];
        let before = load_records(rs.take(i - 1));
        assert(rs.take(i).drop_last() =~= rs.take(i - 1));
        assert(!gs.take(i - 1).to_set().contains(g)) by {
            if gs.take(i - 1).contains(g) {
                let j = choose|j: int| 0 <= j < i - 1 && #[trigger] gs.take(i - 1)[j] == g;
                assert(gs[j] == gs[i - 1]);
            }
        }
        assert(!before.contains_key(g));
        assert(group_of(before, g) == Seq::<AlertView>::empty());
        assert(gs.contains(g));
        m.lemma_distinct(g);
        assert(m@[g].map_values(|a: AlertView| record_of(a)).map_values(|r| alert_of(r)) =~= m@[g]);
        crate::alerts_map::lemma_added_all_distinct(m@[g]);
        assert(gs.take(i).to_set() =~= gs.take(i - 1).to_set().insert(g)) by {
            assert(gs.take(i) =~= gs.take(i - 1).push(g));
            gs.take(i - 1).lemma_push_to_set_commute(g);
        }
        assert(load_records(rs.take(i)) =~= m@.restrict(gs.take(i).to_set()));
    }
}

/// Storing a registry as records and loading those records gives the same
/// registry back: the same games, and in each the same alerts with the same
/// notified flags, delays and URLs.
pub proof fn lemma_records_round_trip(m: AlertsMap)
    requires
        m.wf(),
    ensures
        load_records(records_of(m)) == m@,
{
    m.lemma_game_seq();
    let gs = m.game_seq();
    let rs = records_of(m);
    lemma_records_prefix(m, gs.len() as int);
    assert(rs.take(gs.len() as int) =~= rs);
    assert(gs.take(gs.len() as int) =~= gs);
    assert(m@.restrict(gs.to_set()) =~= m@);
}

/// Where the registry is stored, and how it is encoded there.
#[derive(Clone, Debug)]
pub struct AlertLoader {
    path: String,
}

impl AlertLoader {
    /// A loader for the file at `path`.
    pub fn new(path: String) -> (r: AlertLoader)
        ensures
            r.spec_path() == path@,
    {
        AlertLoader { path }
    }

    pub closed spec fn spec_path(&self) -> Seq<char> {
        self.path@
    }

    /// The file where the registry is stored.
    pub fn path(&self) -> (r: &str)
        ensures
            r@ == self.spec_path(),
    {
        self.path.as_str()
    }

    /// The registry that the stored text describes: empty when nothing is
    /// stored or when the text does not decode.
    pub fn decode_alerts_map(&self, stored: Option<&str>) -> (r: AlertsMap)
        ensures
            r.wf(),
            r@ == match stored {
                None => Map::empty(),
                Some(text) => match alerts_from_json(text@) {
                    Some(rs) => load_records(rs),
                    None => Map::empty(),
                },
            },
    {
        match stored {
            None => AlertsMap::new(),
            Some(text) => match records_from_json(text) {
                Ok(records) => from_records(&records),
                Err(_) => AlertsMap::new(),
            },
        }
    }

    /// The text to store for the registry.
    pub fn encode_alerts_map(&self, alerts_map: &AlertsMap) -> (r: Option<String>)
        requires
            alerts_map.wf(),
        ensures
            r is Some,
            r matches Some(t) ==> t@ == alerts_json(records_of(*alerts_map)),
    {
        let records = to_records(alerts_map);
        match records_to_json(&records) {
            Ok(text) => Some(text),
            Err(_) => None,
        }
    }
}

} // verus!
