//! The alert registry: for each game, the set of alert subscriptions.

use vstd::prelude::*;
use crate::alert::{Alert, AlertView, same_subscription};
use crate::id_map::IdMap;
use crate::text::str_eq;

verus! {

/// The alerts of a vector, as a sequence of models.
pub open spec fn alert_views(v: Seq<Alert>) -> Seq<AlertView> {
    v.map_values(|a: Alert| a@)
}

/// No two alerts of `s` are the same subscription.
pub open spec fn distinct_subscriptions(s: Seq<AlertView>) -> bool {
    forall|i: int, j: int|
        0 <= i < s.len() && 0 <= j < s.len() && i != j ==> !same_subscription(s[i], s[j])
}

/// Whether `s` holds an alert that is the same subscription as `a`.
pub open spec fn has_subscription(s: Seq<AlertView>, a: AlertView) -> bool {
    exists|i: int| 0 <= i < s.len() && same_subscription(s[i], a)
}

/// The group `s` after adding `a`: an alert that is already subscribed is kept
/// as it is, with its own notified flag and delay.
pub open spec fn added(s: Seq<AlertView>, a: AlertView) -> Seq<AlertView> {
    if has_subscription(s, a) {
        s
    } else {
        s.push(a)
    }
}

/// Whether an alert survives the removal of `user_id`'s alerts in `room_id`.
pub open spec fn survives_removal(a: AlertView, room_id: Seq<char>, user_id: Seq<char>) -> bool {
    !(a.room_id == room_id && a.user_id == user_id)
}

/// The group `s` after the removal of `user_id`'s alerts in `room_id`.
pub open spec fn removed_for(s: Seq<AlertView>, room_id: Seq<char>, user_id: Seq<char>) -> Seq<
    AlertView,
> {
    s.filter(|a: AlertView| survives_removal(a, room_id, user_id))
}

/// The group `s` with the subscription of `a` replaced by `a`.
pub open spec fn replaced(s: Seq<AlertView>, a: AlertView) -> Seq<AlertView> {
    s.map_values(|b: AlertView| if same_subscription(b, a) { a } else { b })
}

/// The alerts of game `g`, or none.
pub open spec fn group_of(m: Map<Seq<char>, Seq<AlertView>>, g: Seq<char>) -> Seq<AlertView> {
    if m.contains_key(g) {
        m[g]
    } else {
        Seq::empty()
    }
}

/// `s` after adding each alert of `more` in turn.
pub open spec fn added_all(s: Seq<AlertView>, more: Seq<AlertView>) -> Seq<AlertView>
    decreases more.len(),
{
    if more.len() == 0 {
        s
    } else {
        added(added_all(s, more.drop_last()), more.last())
    }
}

/// Adding alerts that are distinct subscriptions, one by one, to an empty
/// group gives them back in order.
pub proof fn lemma_added_all_distinct(more: Seq<AlertView>)
    requires
        distinct_subscriptions(more),
    ensures
        added_all(Seq::empty(), more) == more,
    decreases more.len(),
{
    if more.len() > 0 {
        let init = more.drop_last();
        assert(distinct_subscriptions(init)) by {
            assert forall|i: int, j: int|
                0 <= i < init.len() && 0 <= j < init.len() && i != j implies !same_subscription(
                init[i],
                init[j],
            ) by {
                assert(init[i] == more[i] && init[j] == more[j]);
            }
        }
        lemma_added_all_distinct(init);
        assert(!has_subscription(init, more.last())) by {
            if has_subscription(init, more.last()) {
                let i = choose|i: int| 0 <= i < init.len() && same_subscription(init[i], more.last());
                assert(more[i] == init[i]);
            }
        }
        assert(init.push(more.last()) =~= more);
    }
}

/// A copy of a vector of alerts.
pub fn copy_alerts(v: &Vec<Alert>) -> (r: Vec<Alert>)
    ensures
        alert_views(r@) == alert_views(v@),
{
    let mut r: Vec<Alert> = Vec::new();
    let mut i: usize = 0;
    while i < v.len()
        invariant
            i <= v.len(),
            r.len() == i,
            forall|j: int| 0 <= j < i ==> #[trigger] r@[j]@ == v@[j]@,
        decreases v.len() - i,
    {
        r.push(v[i].duplicate());
        i += 1;
    }
    proof {
        assert(alert_views(r@) =~= alert_views(v@));
    }
    r
}

/// Whether `v` holds the subscription of `a`.
fn find_subscription(v: &Vec<Alert>, a: &Alert) -> (r: bool)
    ensures
        r == has_subscription(alert_views(v@), a@),
{
    let mut i: usize = 0;
    while i < v.len()
        invariant
            i <= v.len(),
            forall|j: int| 0 <= j < i ==> !same_subscription(#[trigger] v@[j]@, a@),
        decreases v.len() - i,
    {
        if v[i].same_subscription(a) {
            proof {
                assert(same_subscription(alert_views(v@)[i as int], a@));
            }
            return true;
        }
        i += 1;
    }
    proof {
        if has_subscription(alert_views(v@), a@) {
            let j = choose|j: int|
                0 <= j < alert_views(v@).len() && same_subscription(alert_views(v@)[j], a@);
            assert(same_subscription(v@[j]@, a@));
        }
    }
    false
}

/// The alerts of `v` that survive the removal of `user_id`'s alerts in `room_id`.
fn without_subscriber(v: &Vec<Alert>, room_id: &str, user_id: &str) -> (r: Vec<Alert>)
    requires
        distinct_subscriptions(alert_views(v@)),
    ensures
        alert_views(r@) == removed_for(alert_views(v@), room_id@, user_id@),
        distinct_subscriptions(alert_views(r@)),
{
    let ghost s = alert_views(v@);
    let ghost pred = |a: AlertView| survives_removal(a, room_id@, user_id@);
    let mut r: Vec<Alert> = Vec::new();
    let mut i: usize = 0;
    proof {
        assert(s.take(0) =~= Seq::<AlertView>::empty());
        reveal(Seq::filter);
    }
    while i < v.len()
        invariant
            i <= v.len(),
            s == alert_views(v@),
            pred == (|a: AlertView| survives_removal(a, room_id@, user_id@)),
            distinct_subscriptions(s),
            alert_views(r@) == s.take(i as int).filter(pred),
            forall|k: int|
                0 <= k < r.len() ==> exists|j: int| 0 <= j < i && #[trigger] r@[k]@ == s[j],
            distinct_subscriptions(alert_views(r@)),
        decreases v.len() - i,
    {
        let a = &v[i];
        let keep = !(str_eq(a.room_id.as_str(), room_id) && str_eq(a.user_id.as_str(), user_id));
        let ghost prev = r@;
        proof {
            assert(s.take(i + 1) =~= s.take(i as int).push(s[i as int]));
            s.take(i as int).lemma_filter_push(s[i as int], pred);
        }
        if keep {
            r.push(a.duplicate());
            proof {
                assert(alert_views(r@) =~= alert_views(prev).push(s[i as int]));
                assert forall|k: int| 0 <= k < r.len() implies exists|j: int|
                    0 <= j < i + 1 && #[trigger] r@[k]@ == s[j] by {
                    if k == prev.len() {
                        assert(r@[k]@ == s[i as int]);
                    } else {
                        assert(r@[k] == prev[k]);
                    }
                }
                assert forall|p: int, q: int|
                    0 <= p < alert_views(r@).len() && 0 <= q < alert_views(r@).len() && p
                        != q implies !same_subscription(alert_views(r@)[p], alert_views(r@)[q]) by {
                    if p == prev.len() {
                        let j = choose|j: int| 0 <= j < i && #[trigger] prev[q]@ == s[j];
                        assert(r@[q] == prev[q]);
                    } else if q == prev.len() {
                        let j = choose|j: int| 0 <= j < i && #[trigger] prev[p]@ == s[j];
                        assert(r@[p] == prev[p]);
                    } else {
                        assert(r@[p] == prev[p]);
                        assert(r@[q] == prev[q]);
                    }
                }
            }
        }
        i += 1;
    }
    proof {
        assert(s.take(i as int) =~= s);
    }
    r
}

/// The alerts of `v`, with the subscription of `a` replaced by `a`.
fn with_replaced(v: &Vec<Alert>, a: &Alert) -> (r: Vec<Alert>)
    requires
        distinct_subscriptions(alert_views(v@)),
    ensures
        alert_views(r@) == replaced(alert_views(v@), a@),
        distinct_subscriptions(alert_views(r@)),
{
    let ghost s = alert_views(v@);
    let mut r: Vec<Alert> = Vec::new();
    let mut i: usize = 0;
    while i < v.len()
        invariant
            i <= v.len(),
            s == alert_views(v@),
            r.len() == i,
            forall|j: int|
                0 <= j < i ==> #[trigger] r@[j]@ == (if same_subscription(s[j], a@) {
                    a@
                } else {
                    s[j]
                }),
        decreases v.len() - i,
    {
        if v[i].same_subscription(a) {
            r.push(a.duplicate());
        } else {
            r.push(v[i].duplicate());
        }
        i += 1;
    }
    proof {
        assert(alert_views(r@) =~= replaced(s, a@));
        assert forall|p: int, q: int|
            0 <= p < alert_views(r@).len() && 0 <= q < alert_views(r@).len() && p
                != q implies !same_subscription(alert_views(r@)[p], alert_views(r@)[q]) by {
            assert(r@[p]@ == alert_views(r@)[p]);
            assert(r@[q]@ == alert_views(r@)[q]);
            assert(!same_subscription(s[p], s[q]));
        }
    }
    r
}

/// For each game, the set of its alert subscriptions.
#[derive(Debug)]
pub struct AlertsMap {
    groups: IdMap<String, Vec<Alert>>,
}

impl View for AlertsMap {
    type V = Map<Seq<char>, Seq<AlertView>>;

    closed spec fn view(&self) -> Map<Seq<char>, Seq<AlertView>> {
        self.groups@.map_values(|v: Vec<Alert>| alert_views(v@))
    }
}

impl AlertsMap {
    /// Keys are distinct and no game holds the same subscription twice.
    pub closed spec fn wf(&self) -> bool {
        &&& self.groups.wf()
        &&& forall|g: Seq<char>|
            #[trigger] self.groups@.contains_key(g) ==> distinct_subscriptions(
                alert_views(self.groups@[g]@),
            )
    }

    /// The games, in the registry's order.
    pub closed spec fn game_seq(&self) -> Seq<Seq<char>> {
        self.groups.key_seq()
    }

    /// Each group of a well-formed registry holds distinct subscriptions.
    pub proof fn lemma_distinct(&self, g: Seq<char>)
        requires
            self.wf(),
            self@.contains_key(g),
        ensures
            distinct_subscriptions(self@[g]),
    {
    }

    /// `game_seq` lists each game of the registry once.
    pub proof fn lemma_game_seq(&self)
        requires
            self.wf(),
        ensures
            self.game_seq().no_duplicates(),
            forall|g: Seq<char>| self@.contains_key(g) <==> self.game_seq().contains(g),
    {
        self.groups.lemma_key_seq();
    }

    /// The empty registry.
    pub fn new() -> (r: AlertsMap)
        ensures
            r.wf(),
            r@ == Map::<Seq<char>, Seq<AlertView>>::empty(),
    {
        let r = AlertsMap { groups: IdMap::new() };
        assert(r@ =~= Map::<Seq<char>, Seq<AlertView>>::empty());
        r
    }

    /// Number of games with an entry.
    pub fn len(&self) -> (r: usize)
        requires
            self.wf(),
        ensures
            r == self.game_seq().len(),
    {
        self.groups.len()
    }

    /// Whether no game has an entry.
    pub fn is_empty(&self) -> (r: bool)
        requires
            self.wf(),
        ensures
            r == (self@ == Map::<Seq<char>, Seq<AlertView>>::empty()),
    {
        proof {
            self.lemma_game_seq();
            if self.game_seq().len() > 0 {
                assert(self.game_seq().contains(self.game_seq()[0]));
                assert(self@.contains_key(self.game_seq()[0]));
            } else {
                assert forall|g: Seq<char>| !self@.contains_key(g) by {
                    if self@.contains_key(g) {
                        assert(self.game_seq().contains(g));
                    }
                }
                assert(self@ =~= Map::<Seq<char>, Seq<AlertView>>::empty());
            }
        }
        self.groups.len() == 0
    }

    /// Whether game `game_id` has an entry.
    pub fn contains_key(&self, game_id: &str) -> (r: bool)
        requires
            self.wf(),
        ensures
            r == self@.contains_key(game_id@),
    {
        self.groups.contains_key(&game_id.to_owned())
    }

    /// The alerts of game `game_id`.
    pub fn get(&self, game_id: &str) -> (r: Option<&Vec<Alert>>)
        requires
            self.wf(),
        ensures
            match r {
                Some(v) => self@.contains_key(game_id@) && alert_views(v@) == self@[game_id@],
                None => !self@.contains_key(game_id@),
            },
    {
        self.groups.get(&game_id.to_owned())
    }

    /// The games that have an entry, in the order of `game_seq`.
    pub fn game_ids(&self) -> (r: Vec<String>)
        requires
            self.wf(),
        ensures
            r@.map_values(|s: String| s@) == self.game_seq(),
    {
        self.groups.keys()
    }

    /// Adds `alert` to the set of game `game_id`, creating the set if needed.
    /// An alert that is already subscribed stays as it is.
    pub fn add(&mut self, game_id: &str, alert: &Alert)
        requires
            old(self).wf(),
        ensures
            final(self).wf(),
            final(self)@ == old(self)@.insert(
                game_id@,
                added(group_of(old(self)@, game_id@), alert@),
            ),
    {
        let key = game_id.to_owned();
        let ghost before = self.groups@;
        let mut group = match self.groups.get(&key) {
            Some(v) => copy_alerts(v),
            None => Vec::new(),
        };
        proof {
            if !before.contains_key(game_id@) {
                assert(alert_views(group@) =~= Seq::<AlertView>::empty());
            }
        }
        if !find_subscription(&group, alert) {
            let ghost prev = group@;
            group.push(alert.duplicate());
            proof {
                assert(alert_views(group@) =~= alert_views(prev).push(alert@));
                assert forall|p: int, q: int|
                    0 <= p < alert_views(group@).len() && 0 <= q < alert_views(group@).len() && p
                        != q implies !same_subscription(
                    alert_views(group@)[p],
                    alert_views(group@)[q],
                ) by {
                    if p == prev.len() {
                        assert(alert_views(group@)[q] == alert_views(prev)[q]);
                    } else if q == prev.len() {
                        assert(alert_views(group@)[p] == alert_views(prev)[p]);
                    } else {
                        assert(alert_views(group@)[p] == alert_views(prev)[p]);
                        assert(alert_views(group@)[q] == alert_views(prev)[q]);
                    }
                }
            }
        }
        self.groups.insert(key, group);
        proof {
            assert(self@ =~= old(self)@.insert(
                game_id@,
                added(group_of(old(self)@, game_id@), alert@),
            ));
        }
    }

    /// Removes, from game `game_id`, every alert of `user_id` in `room_id`.
    /// Nothing happens when the game has no entry.
    pub fn remove_matching(&mut self, game_id: &str, room_id: &str, user_id: &str)
        requires
            old(self).wf(),
        ensures
            final(self).wf(),
            final(self)@ == if old(self)@.contains_key(game_id@) {
                old(self)@.insert(game_id@, removed_for(old(self)@[game_id@], room_id@, user_id@))
            } else {
                old(self)@
            },
    {
        let key = game_id.to_owned();
        let kept = match self.groups.get(&key) {
            Some(v) => without_subscriber(v, room_id, user_id),
            None => {
                return ;
            },
        };
        self.groups.insert(key, kept);
        proof {
            assert(self@ =~= old(self)@.insert(
                game_id@,
                removed_for(old(self)@[game_id@], room_id@, user_id@),
            ));
        }
    }

    /// Removes the whole entry of game `game_id` and returns its alerts.
    pub fn remove_group(&mut self, game_id: &str) -> (r: Option<Vec<Alert>>)
        requires
            old(self).wf(),
        ensures
            final(self).wf(),
            final(self)@ == old(self)@.remove(game_id@),
            match r {
                Some(v) => old(self)@.contains_key(game_id@) && alert_views(v@) == old(
                    self,
                )@[game_id@],
                None => !old(self)@.contains_key(game_id@),
            },
    {
        let r = self.groups.remove(&game_id.to_owned());
        proof {
            assert(self@ =~= old(self)@.remove(game_id@));
        }
        r
    }

    /// Replaces, in game `game_id`, the alert with the subscription of `alert`
    /// by `alert`. Nothing happens when there is no such alert.
    pub fn replace_alert(&mut self, game_id: &str, alert: &Alert)
        requires
            old(self).wf(),
        ensures
            final(self).wf(),
            final(self)@ == if old(self)@.contains_key(game_id@) {
                old(self)@.insert(game_id@, replaced(old(self)@[game_id@], alert@))
            } else {
                old(self)@
            },
    {
        let key = game_id.to_owned();
        let group = match self.groups.get(&key) {
            Some(v) => with_replaced(v, alert),
            None => {
                return ;
            },
        };
        self.groups.insert(key, group);
        proof {
            assert(self@ =~= old(self)@.insert(game_id@, replaced(old(self)@[game_id@], alert@)));
        }
    }

    /// Adds each alert of `alerts` in turn to game `game_id`, creating the
    /// entry even when `alerts` is empty.
    pub fn merge_group(&mut self, game_id: &str, alerts: &Vec<Alert>)
        requires
            old(self).wf(),
        ensures
            final(self).wf(),
            final(self)@ == old(self)@.insert(
                game_id@,
                added_all(group_of(old(self)@, game_id@), alert_views(alerts@)),
            ),
    {
        let key = game_id.to_owned();
        let mut group = match self.groups.get(&key) {
            Some(v) => copy_alerts(v),
            None => Vec::new(),
        };
        let ghost start = group_of(old(self)@, game_id@);
        proof {
            if !old(self)@.contains_key(game_id@) {
                assert(alert_views(group@) =~= Seq::<AlertView>::empty());
            }
        }
        let mut i: usize = 0;
        while i < alerts.len()
            invariant
                i <= alerts.len(),
                distinct_subscriptions(alert_views(group@)),
                alert_views(group@) == added_all(start, alert_views(alerts@).take(i as int)),
            decreases alerts.len() - i,
        {
            let ghost prev = group@;
            proof {
                let t = alert_views(alerts@).take(i + 1);
                assert(t.drop_last() =~= alert_views(alerts@).take(i as int));
                assert(t.last() == alerts@[i as int]@);
            }
            if !find_subscription(&group, &alerts[i]) {
                group.push(alerts[i].duplicate());
                proof {
                    assert(alert_views(group@) =~= alert_views(prev).push(alerts@[i as int]@));
                    assert forall|p: int, q: int|
                        0 <= p < alert_views(group@).len() && 0 <= q < alert_views(group@).len()
                            && p != q implies !same_subscription(
                        alert_views(group@)[p],
                        alert_views(group@)[q],
                    ) by {
                        if p == prev.len() {
                            assert(alert_views(group@)[q] == alert_views(prev)[q]);
                        } else if q == prev.len() {
                            assert(alert_views(group@)[p] == alert_views(prev)[p]);
                        } else {
                            assert(alert_views(group@)[p] == alert_views(prev)[p]);
                            assert(alert_views(group@)[q] == alert_views(prev)[q]);
                        }
                    }
                }
            }
            i += 1;
        }
        proof {
            assert(alert_views(alerts@).take(i as int) =~= alert_views(alerts@));
        }
        self.groups.insert(key, group);
        proof {
            assert(self@ =~= old(self)@.insert(
                game_id@,
                added_all(group_of(old(self)@, game_id@), alert_views(alerts@)),
            ));
        }
    }

    /// Replaces the alerts of game `game_id` by `alerts`.
    pub fn set_group(&mut self, game_id: &str, alerts: Vec<Alert>)
        requires
            old(self).wf(),
            distinct_subscriptions(alert_views(alerts@)),
        ensures
            final(self).wf(),
            final(self)@ == old(self)@.insert(game_id@, alert_views(alerts@)),
    {
        self.groups.insert(game_id.to_owned(), alerts);
        proof {
            assert(self@ =~= old(self)@.insert(game_id@, alert_views(alerts@)));
        }
    }

    /// A deep, independent copy of the registry.
    pub fn snapshot(&self) -> (r: AlertsMap)
        requires
            self.wf(),
        ensures
            r.wf(),
            r@ == self@,
    {
        let mut r = AlertsMap::new();
        let n = self.groups.len();
        let mut i: usize = 0;
        proof {
            self.groups.lemma_key_seq();
        }
        while i < n
            invariant
                self.wf(),
                n == self.game_seq().len(),
                i <= n,
                r.wf(),
                forall|g: Seq<char>|
                    #[trigger] r@.contains_key(g) <==> self.game_seq().take(i as int).contains(g),
                forall|g: Seq<char>| #[trigger] r@.contains_key(g) ==> r@[g] == self@[g],
                self.game_seq().no_duplicates(),
                forall|g: Seq<char>| self@.contains_key(g) <==> self.game_seq().contains(g),
            decreases n - i,
        {
            let k = self.groups.key_at(i);
            let v = self.groups.value_at(i);
            let ghost before = r@;
            let ghost before_groups = r.groups@;
            let copied = copy_alerts(v);
            r.groups.insert(k.clone(), copied);
            proof {
                let gs = self.game_seq();
                assert(r@[k@] == alert_views(copied@));
                assert(self@[k@] == alert_views(v@));
                assert forall|g: Seq<char>| #[trigger] r@.contains_key(g) implies r@[g] == self@[g] by {
                    if g != k@ {
                        assert(before.contains_key(g));
                    }
                }
                assert(gs.take(i + 1) =~= gs.take(i as int).push(gs[i as int]));
                assert forall|g: Seq<char>| #[trigger]
                    r.groups@.contains_key(g) implies distinct_subscriptions(
                    alert_views(r.groups@[g]@),
                ) by {
                    if g != gs[i as int] {
                        assert(before.contains_key(g));
                        assert(r@[g] == before[g]);
                    }
                }
                assert(r.groups@ == before_groups.insert(k@, copied));
                assert forall|g: Seq<char>| #[trigger]
                    r@.contains_key(g) <==> gs.take(i + 1).contains(g) by {
                    assert(r@.contains_key(g) <==> r.groups@.contains_key(g));
                    assert(before.contains_key(g) <==> before_groups.contains_key(g));
                    if gs.take(i + 1).contains(g) && g != gs[i as int] {
                        let j = choose|j: int| 0 <= j < i + 1 && #[trigger] gs.take(i + 1)[j] == g;
                        assert(gs.take(i as int)[j] == g);
                    }
                    if r@.contains_key(g) {
                        if g == k@ {
                            assert(gs.take(i + 1)[i as int] == g);
                        } else {
                            assert(before.contains_key(g));
                            assert(gs.take(i as int).contains(g));
                            let j = choose|j: int| 0 <= j < i && #[trigger] gs.take(i as int)[j] == g;
                            assert(gs.take(i + 1)[j] == g);
                        }
                    }
                }
            }
            i += 1;
        }
        proof {
            assert(self.game_seq().take(n as int) =~= self.game_seq());
            assert(r@ =~= self@);
        }
        r
    }
}

} // verus!
