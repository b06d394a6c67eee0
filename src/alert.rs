//! One alert subscription: an observer in a chat room watching a player.

use vstd::prelude::*;
use vstd::std_specs::cmp::PartialEqSpec;

verus! {

/// Mathematical model of an [`Alert`].
pub struct AlertView {
    pub room_id: Seq<char>,
    pub player_id: Seq<char>,
    pub user_id: Seq<char>,
    pub notified: bool,
    pub delay: u64,
    pub player_url: Seq<char>,
}

/// Two alerts are the same subscription when room, player and user agree,
/// whatever their notified flag, delay or player URL.
pub open spec fn same_subscription(a: AlertView, b: AlertView) -> bool {
    &&& a.room_id == b.room_id
    &&& a.player_id == b.player_id
    &&& a.user_id == b.user_id
}

/// The alert `a` with its notified flag set to `notified`.
pub open spec fn with_notified(a: AlertView, notified: bool) -> AlertView {
    AlertView { notified, ..a }
}

/// An alert registered by a chat user for a player of a game.
///
/// The game the alert belongs to is the key under which the registry keeps it.
#[derive(Clone, Debug)]
pub struct Alert {
    /// Chat room where the alert was registered and where the mention is sent.
    pub room_id: String,
    /// Player whose turn is watched.
    pub player_id: String,
    /// Chat user that is mentioned.
    pub user_id: String,
    /// Whether the player's current turn has already armed a notification.
    pub notified: bool,
    /// Minutes to wait before the mention is sent.
    pub delay: u64,
    /// Link to the player's page on the game server.
    pub player_url: String,
}

impl View for Alert {
    type V = AlertView;

    open spec fn view(&self) -> AlertView {
        AlertView {
            room_id: self.room_id@,
            player_id: self.player_id@,
            user_id: self.user_id@,
            notified: self.notified,
            delay: self.delay,
            player_url: self.player_url@,
        }
    }
}

impl Alert {
    /// Whether `self` and `other` are the same subscription.
    pub fn same_subscription(&self, other: &Alert) -> (r: bool)
        ensures
            r == same_subscription(self@, other@),
    {
        self.room_id == other.room_id && self.player_id == other.player_id && self.user_id
            == other.user_id
    }

    /// A field-by-field copy.
    pub fn duplicate(&self) -> (r: Alert)
        ensures
            r@ == self@,
    {
        Alert {
            room_id: self.room_id.clone(),
            player_id: self.player_id.clone(),
            user_id: self.user_id.clone(),
            notified: self.notified,
            delay: self.delay,
            player_url: self.player_url.clone(),
        }
    }

    /// A copy with the notified flag replaced.
    pub fn with_notified(&self, notified: bool) -> (r: Alert)
        ensures
            r@ == with_notified(self@, notified),
    {
        Alert {
            room_id: self.room_id.clone(),
            player_id: self.player_id.clone(),
            user_id: self.user_id.clone(),
            notified,
            delay: self.delay,
            player_url: self.player_url.clone(),
        }
    }
}

impl PartialEq for Alert {
    fn eq(&self, other: &Alert) -> (r: bool) {
        self.same_subscription(other)
    }
}

impl vstd::std_specs::cmp::PartialEqSpecImpl for Alert {
    open spec fn obeys_eq_spec() -> bool {
        true
    }

    open spec fn eq_spec(&self, other: &Alert) -> bool {
        same_subscription(self@, other@)
    }
}

impl Eq for Alert {

}

impl core::hash::Hash for Alert {
    /// Relies on the std `Hash` of a tuple of string references: only room,
    /// player and user are fed to the hasher, as equality compares only them.
    #[verifier::external_body]
    fn hash<S: core::hash::Hasher>(&self, state: &mut S) {
        (&self.room_id, &self.player_id, &self.user_id).hash(state)
    }
}

/// Equality of alerts is equality of subscriptions: alerts that differ only in
/// their notified flag, delay or URL are equal.
pub proof fn lemma_equality_is_identity(a: Alert, b: Alert)
    requires
        a.room_id@ == b.room_id@,
        a.player_id@ == b.player_id@,
        a.user_id@ == b.user_id@,
    ensures
        a.eq_spec(&b),
        b.eq_spec(&a),
{
}

} // verus!
