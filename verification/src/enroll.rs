//! The configuration service: it keeps the latest registration of every id and
//! pushes it to the listeners of that id.
use dashmap::DashMap;
use std::sync::Arc;
use tokio::sync::broadcast::{Receiver, Sender};
use vstd::prelude::*;

use crate::registration::{FieldMap, Registration, RegistrationView};
use crate::text::{self, begins_with, chars_of, decimal_text, parse_digits, same_text};

verus! {

/// The concurrent map of the crate dashmap.
#[verifier::external_type_specification]
#[verifier::external_body]
#[verifier::reject_recursive_types(K)]
#[verifier::reject_recursive_types(V)]
#[verifier::reject_recursive_types(S)]
pub struct ExDashMap<K, V, S>(dashmap::DashMap<K, V, S>);

/// The sending half of tokio's broadcast channel. Two handles of one channel are
/// one value.
#[verifier::external_type_specification]
#[verifier::external_body]
#[verifier::reject_recursive_types(T)]
pub struct ExSender<T>(tokio::sync::broadcast::Sender<T>);

/// The receiving half of tokio's broadcast channel.
#[verifier::external_type_specification]
#[verifier::external_body]
#[verifier::reject_recursive_types(T)]
pub struct ExReceiver<T>(tokio::sync::broadcast::Receiver<T>);

/// A channel that is held under an id: which one it is, and how often it has been
/// sent a notification under that id.
#[verifier::ext_equal]
pub struct ChannelView {
    pub sender: Sender<()>,
    pub sent: nat,
}

/// A subscription to a channel that is held under an id: which channel it is, and
/// how many of the notifications under that id came before. It gets all those
/// that come after.
#[verifier::ext_equal]
pub struct SubscriptionView {
    pub sender: Sender<()>,
    pub from: nat,
}

/// The registrations that a map holds, by id.
pub uninterp spec fn stored(
    map: DashMap<String, Registration>,
) -> Map<Seq<char>, RegistrationView>;

/// The channels that a map holds, by id.
pub uninterp spec fn channels(map: DashMap<String, Sender<()>>) -> Map<Seq<char>, ChannelView>;

/// The keys that a map of listeners holds.
pub uninterp spec fn listener_keys(map: DashMap<String, Arc<()>>) -> Set<Seq<char>>;

/// How many messages a channel keeps for a receiver that falls behind.
pub uninterp spec fn backlog(sender: Sender<()>) -> nat;

/// What a receiver is subscribed to.
pub uninterp spec fn subscription(receiver: Receiver<()>) -> SubscriptionView;

/// Calls `DashMap::new`. Trusted: the map is empty.
#[verifier::external_body]
fn no_registrations() -> (r: DashMap<String, Registration>)
    ensures
        stored(r).is_empty(),
{
    DashMap::new()
}

/// Calls `DashMap::new`. Trusted: the map is empty.
#[verifier::external_body]
fn no_channels() -> (r: DashMap<String, Sender<()>>)
    ensures
        channels(r).is_empty(),
{
    DashMap::new()
}

/// Calls `DashMap::new`. Trusted: the map is empty.
#[verifier::external_body]
fn no_listeners() -> (r: DashMap<String, Arc<()>>)
    ensures
        listener_keys(r).is_empty(),
{
    DashMap::new()
}

/// Calls `DashMap::insert`. Trusted: the registration is held under the id, in
/// place of any that was, and nothing else changes.
#[verifier::external_body]
fn store(map: &mut DashMap<String, Registration>, id: String, registration: Registration)
    ensures
        stored(*final(map)) == stored(*old(map)).insert(id@, registration@),
{
    map.insert(id, registration);
}

/// Calls `DashMap::get`, and copies what it finds. Trusted: it finds what the
/// map holds under the id.
#[verifier::external_body]
fn load(map: &DashMap<String, Registration>, id: &str) -> (r: Option<Registration>)
    ensures
        r is Some <==> stored(*map).contains_key(id@),
        r matches Some(registration) ==> registration@ == stored(*map)[id@],
{
    map.get(id).map(|entry| entry.value().clone())
}

/// Calls `DashMap::iter`, and copies every key and value. Trusted: it meets
/// every entry of the map once, and nothing else. In which order it does so is
/// left open.
#[verifier::external_body]
fn all_registrations(map: &DashMap<String, Registration>) -> (r: Vec<(String, Registration)>)
    ensures
        forall|i: int|
            0 <= i < r@.len() ==> stored(*map).contains_key((#[trigger] r@[i]).0@)
                && stored(*map)[r@[i].0@] == r@[i].1@,
        forall|i: int, j: int|
            0 <= i < j < r@.len() ==> (#[trigger] r@[i]).0@ != (#[trigger] r@[j]).0@,
        forall|id: Seq<char>| #[trigger]
            stored(*map).contains_key(id) ==> exists|i: int|
                0 <= i < r@.len() && (#[trigger] r@[i]).0@ == id,
{
    map.iter().map(|entry| (entry.key().clone(), entry.value().clone())).collect()
}

/// Calls `DashMap::insert` on a map of listeners. Trusted: the key is held, and
/// nothing else changes.
#[verifier::external_body]
fn add_listener(map: &mut DashMap<String, Arc<()>>, key: String)
    ensures
        listener_keys(*final(map)) == listener_keys(*old(map)).insert(key@),
{
    map.insert(key, Arc::new(()));
}

/// Calls `DashMap::remove` on a map of listeners. Trusted: the key is no longer
/// held, and nothing else changes.
#[verifier::external_body]
fn remove_listener(map: &mut DashMap<String, Arc<()>>, key: &str)
    ensures
        listener_keys(*final(map)) == listener_keys(*old(map)).remove(key@),
{
    map.remove(key);
}

/// Calls `DashMap::iter` on a map of listeners, and copies every key. Trusted:
/// it meets every key of the map once, and nothing else. In which order it does
/// so is left open.
#[verifier::external_body]
fn all_listeners(map: &DashMap<String, Arc<()>>) -> (r: Vec<String>)
    ensures
        forall|i: int| 0 <= i < r@.len() ==> listener_keys(*map).contains((#[trigger] r@[i])@),
        forall|i: int, j: int| 0 <= i < j < r@.len() ==> (#[trigger] r@[i])@ != (#[trigger] r@[j])@,
        forall|key: Seq<char>| #[trigger]
            listener_keys(*map).contains(key) ==> exists|i: int|
                0 <= i < r@.len() && (#[trigger] r@[i])@ == key,
{
    map.iter().map(|entry| entry.key().clone()).collect()
}

/// Whether `n` is a power of two.
pub open spec fn is_power_of_two(n: nat) -> bool {
    exists|k: nat| n == #[trigger] vstd::arithmetic::power2::pow2(k)
}

/// Calls tokio's `broadcast::channel`, and lets go of the receiver. Trusted: the
/// channel keeps as many messages as the smallest power of two that is no less
/// than `capacity`. The call panics on a capacity of zero and on one above half
/// the range of `usize`.
#[verifier::external_body]
fn open_channel(capacity: usize) -> (r: Sender<()>)
    requires
        0 < capacity <= usize::MAX / 2,
    ensures
        is_power_of_two(backlog(r)),
        capacity <= backlog(r) < 2 * capacity,
{
    tokio::sync::broadcast::channel(capacity).0
}

/// Calls `DashMap::entry` and `Entry::or_insert_with`. Trusted: where no channel
/// was held under the id, a new one is held, which is none of those held before
/// and has been sent nothing; nothing else changes.
#[verifier::external_body]
fn make_channel(map: &mut DashMap<String, Sender<()>>, id: String)
    ensures
        channels(*final(map)).dom() == channels(*old(map)).dom().insert(id@),
        forall|other: Seq<char>| #[trigger]
            channels(*old(map)).contains_key(other) ==> channels(*final(map))[other] == channels(
                *old(map),
            )[other],
        !channels(*old(map)).contains_key(id@) ==> channels(*final(map))[id@].sent == 0 && backlog(
            channels(*final(map))[id@].sender,
        ) == NOTIFIER_BACKLOG,
        !channels(*old(map)).contains_key(id@) ==> forall|other: Seq<char>| #[trigger]
            channels(*old(map)).contains_key(other) ==> channels(*old(map))[other].sender
                != channels(*final(map))[id@].sender,
{
    map.entry(id).or_insert_with(|| new_notifier());
}

/// Calls `DashMap::get`, and `Sender::send` on the channel that it finds. Trusted:
/// the channel under the id is sent one more notification, and nothing else
/// changes. That nobody may be subscribed to it is no failure.
#[verifier::external_body]
fn notify(map: &mut DashMap<String, Sender<()>>, id: &str)
    requires
        channels(*old(map)).contains_key(id@),
    ensures
        channels(*final(map)) == channels(*old(map)).insert(id@, notified_once(
            channels(*old(map))[id@],
        )),
{
    let _ = map.get(id).unwrap().send(());
}

/// Calls `DashMap::get`, and `Sender::subscribe` on the channel that it finds.
/// Trusted: the receiver is subscribed to the channel under the id, from the next
/// notification on. The call panics where a quarter of the range of `usize` are
/// subscribed, which is more than memory holds.
#[verifier::external_body]
fn subscribe(map: &DashMap<String, Sender<()>>, id: &str) -> (r: Receiver<()>)
    requires
        channels(*map).contains_key(id@),
    ensures
        subscription(r) == subscribed_now(channels(*map)[id@]),
{
    map.get(id).unwrap().subscribe()
}

/// A channel after one more notification.
pub open spec fn notified_once(channel: ChannelView) -> ChannelView {
    ChannelView { sent: channel.sent + 1, ..channel }
}

/// A subscription to a channel from the next notification on.
pub open spec fn subscribed_now(channel: ChannelView) -> SubscriptionView {
    SubscriptionView { sender: channel.sender, from: channel.sent }
}

/// How many notifications a channel keeps for a listener that falls behind.
pub const NOTIFIER_BACKLOG: usize = 16;

/// A channel that tells listeners of a new registration.
fn new_notifier() -> (r: Sender<()>)
    ensures
        backlog(r) == NOTIFIER_BACKLOG,
{
    let r = open_channel(NOTIFIER_BACKLOG);
    proof {
        let k = choose|k: nat| backlog(r) == #[trigger] vstd::arithmetic::power2::pow2(k);
        vstd::arithmetic::power2::lemma2_to64();
        if k < 4 {
            vstd::arithmetic::power2::lemma_pow2_strictly_increases(k, 4);
        } else if k > 4 {
            if k > 5 {
                vstd::arithmetic::power2::lemma_pow2_strictly_increases(5, k);
            }
        }
    }
    r
}

/// The parameters of a `/set` request.
pub struct SetParams {
    pub id: String,
    pub extra: FieldMap,
}

/// The parameters of a `/get` request.
pub struct GetParams {
    pub id: String,
}

/// Where listeners get their numbers from. All the services of a process draw on
/// one of these.
pub struct ConnectionIds {
    next: u64,
}

impl View for ConnectionIds {
    type V = u64;

    closed spec fn view(&self) -> u64 {
        self.next
    }
}

/// The number that is drawn after `number`.
pub open spec fn next_number(number: u64) -> u64 {
    if number == u64::MAX {
        0
    } else {
        (number + 1) as u64
    }
}

impl ConnectionIds {
    /// The numbers from zero on.
    pub fn new() -> (r: ConnectionIds)
        ensures
            r@ == 0,
    {
        ConnectionIds { next: 0 }
    }

    /// Draws a number.
    fn draw(&mut self) -> (r: u64)
        ensures
            r == old(self)@,
            final(self)@ == next_number(old(self)@),
    {
        let number = self.next;
        self.next = number.wrapping_add(1);
        number
    }
}

/// What the service keeps.
pub struct AppState {
    registrations: DashMap<String, Registration>,
    notifiers: DashMap<String, Sender<()>>,
    listener_counts: DashMap<String, Arc<()>>,
}

/// What the service keeps: the registrations and the channels by id, and the keys
/// of the open listeners.
#[verifier::ext_equal]
pub struct AppStateView {
    pub registrations: Map<Seq<char>, RegistrationView>,
    pub notifiers: Map<Seq<char>, ChannelView>,
    pub listeners: Set<Seq<char>>,
}

impl View for AppState {
    type V = AppStateView;

    closed spec fn view(&self) -> AppStateView {
        AppStateView {
            registrations: stored(self.registrations),
            notifiers: channels(self.notifiers),
            listeners: listener_keys(self.listener_counts),
        }
    }
}

/// The key of the listener that is number `connection`, on `id`.
pub open spec fn listener_key(id: Seq<char>, connection: u64) -> Seq<char> {
    id + ":"@ + text::decimal(connection as nat)
}

/// What the service tells of `id`: its registration, or one without parameters
/// where it has none.
pub open spec fn current(state: AppStateView, id: Seq<char>) -> RegistrationView {
    if state.registrations.contains_key(id) {
        state.registrations[id]
    } else {
        RegistrationView { id, fields: Map::empty() }
    }
}

/// The fields of the registration that a worker finds before any is set.
pub open spec fn default_fields() -> Map<Seq<char>, Seq<char>> {
    Map::<Seq<char>, Seq<char>>::empty().insert("connection"@, "0"@).insert(
        "expire"@,
        "2000.1.1-00:00"@,
    )
}

/// What the service keeps at first.
pub open spec fn initial_state() -> AppStateView {
    AppStateView {
        registrations: Map::<Seq<char>, RegistrationView>::empty().insert(
            "rwrk"@,
            RegistrationView { id: "rwrk"@, fields: default_fields() },
        ),
        notifiers: Map::empty(),
        listeners: Set::empty(),
    }
}

/// The channel that `id` has once it is sure to have one: the one that it had, or
/// else the new one `sender`.
pub open spec fn channel_for(state: AppStateView, id: Seq<char>, sender: Sender<()>) -> ChannelView {
    if state.notifiers.contains_key(id) {
        state.notifiers[id]
    } else {
        ChannelView { sender, sent: 0 }
    }
}

/// What the service keeps after `id` has been set to `fields`, where `sender` is
/// the channel of `id`: the registration, and one notification more.
pub open spec fn after_set(
    state: AppStateView,
    id: Seq<char>,
    fields: Map<Seq<char>, Seq<char>>,
    sender: Sender<()>,
) -> AppStateView {
    AppStateView {
        registrations: state.registrations.insert(id, RegistrationView { id, fields }),
        notifiers: state.notifiers.insert(id, notified_once(channel_for(state, id, sender))),
        ..state
    }
}

/// What the service keeps after listener `number` has come to `id`, where `sender`
/// is the channel of `id`.
pub open spec fn after_get(
    state: AppStateView,
    id: Seq<char>,
    number: u64,
    sender: Sender<()>,
) -> AppStateView {
    AppStateView {
        notifiers: state.notifiers.insert(id, channel_for(state, id, sender)),
        listeners: state.listeners.insert(listener_key(id, number)),
        ..state
    }
}

/// What the service keeps after the listener with this key has gone.
pub open spec fn after_gone(state: AppStateView, key: Seq<char>) -> AppStateView {
    AppStateView { listeners: state.listeners.remove(key), ..state }
}

/// Whether `sender` is the channel of `id` from now on: the one that it has, or a
/// new one, which no other id has.
pub open spec fn is_channel(state: AppStateView, id: Seq<char>, sender: Sender<()>) -> bool {
    if state.notifiers.contains_key(id) {
        sender == state.notifiers[id].sender
    } else {
        &&& backlog(sender) == NOTIFIER_BACKLOG
        &&& forall|other: Seq<char>| #[trigger]
            state.notifiers.contains_key(other) ==> state.notifiers[other].sender != sender
    }
}

/// Whether `key` is that of a listener on an id that has a channel.
pub open spec fn known_listener(state: AppStateView, key: Seq<char>) -> bool {
    exists|id: Seq<char>, n: u64|
        key == #[trigger] listener_key(id, n) && state.notifiers.contains_key(id)
}

/// What every operation keeps: a registration is kept under its own id, every
/// channel has the same backlog, no two ids share a channel, and every listener
/// is on an id that has a channel to hear from.
pub open spec fn sound(state: AppStateView) -> bool {
    &&& forall|id: Seq<char>| #[trigger]
        state.registrations.contains_key(id) ==> state.registrations[id].id == id
    &&& forall|id: Seq<char>| #[trigger]
        state.notifiers.contains_key(id) ==> backlog(state.notifiers[id].sender)
            == NOTIFIER_BACKLOG
    &&& forall|a: Seq<char>, b: Seq<char>|
        #![trigger state.notifiers.contains_key(a), state.notifiers.contains_key(b)]
        state.notifiers.contains_key(a) && state.notifiers.contains_key(b) && a != b
            ==> state.notifiers[a].sender != state.notifiers[b].sender
    &&& state.listeners.finite()
    &&& forall|key: Seq<char>| #[trigger] state.listeners.contains(key) ==> known_listener(state, key)
}

/// The channels of the ids are of one backlog, and no two are one.
proof fn lemma_channels_stay_apart(
    state: AppStateView,
    id: Seq<char>,
    sender: Sender<()>,
    after: AppStateView,
)
    requires
        sound(state),
        is_channel(state, id, sender),
        after.notifiers.dom() == state.notifiers.dom().insert(id),
        after.notifiers[id].sender == sender,
        forall|other: Seq<char>| #[trigger]
            state.notifiers.contains_key(other) ==> after.notifiers[other].sender
                == state.notifiers[other].sender,
    ensures
        forall|a: Seq<char>| #[trigger]
            after.notifiers.contains_key(a) ==> backlog(after.notifiers[a].sender)
                == NOTIFIER_BACKLOG,
        forall|a: Seq<char>, b: Seq<char>|
            #![trigger after.notifiers.contains_key(a), after.notifiers.contains_key(b)]
            after.notifiers.contains_key(a) && after.notifiers.contains_key(b) && a != b
                ==> after.notifiers[a].sender != after.notifiers[b].sender,
{
    assert forall|a: Seq<char>| #[trigger] after.notifiers.contains_key(a) implies backlog(
        after.notifiers[a].sender,
    ) == NOTIFIER_BACKLOG by {
        if a != id {
            assert(state.notifiers.contains_key(a));
        }
    }
    assert forall|a: Seq<char>, b: Seq<char>|
        #![trigger after.notifiers.contains_key(a), after.notifiers.contains_key(b)]
        after.notifiers.contains_key(a) && after.notifiers.contains_key(b) && a != b implies
    after.notifiers[a].sender != after.notifiers[b].sender by {
        assert(a != id ==> state.notifiers.contains_key(a));
        assert(b != id ==> state.notifiers.contains_key(b));
    }
}

/// Every set keeps the service sound.
pub proof fn set_keeps_sound(
    state: AppStateView,
    id: Seq<char>,
    fields: Map<Seq<char>, Seq<char>>,
    sender: Sender<()>,
)
    requires
        sound(state),
        is_channel(state, id, sender),
    ensures
        sound(after_set(state, id, fields, sender)),
{
    let after = after_set(state, id, fields, sender);
    lemma_channels_stay_apart(state, id, sender, after);
    assert forall|key: Seq<char>| #[trigger] after.listeners.contains(key) implies known_listener(
        after,
        key,
    ) by {
        assert(known_listener(state, key));
        let (i, n) = choose|i: Seq<char>, n: u64|
            key == #[trigger] listener_key(i, n) && state.notifiers.contains_key(i);
        assert(key == listener_key(i, n));
    }
}

/// Every listener that comes keeps the service sound.
pub proof fn get_keeps_sound(
    state: AppStateView,
    id: Seq<char>,
    number: u64,
    sender: Sender<()>,
)
    requires
        sound(state),
        is_channel(state, id, sender),
    ensures
        sound(after_get(state, id, number, sender)),
{
    let after = after_get(state, id, number, sender);
    lemma_channels_stay_apart(state, id, sender, after);
    assert forall|key: Seq<char>| #[trigger] after.listeners.contains(key) implies known_listener(
        after,
        key,
    ) by {
        if key == listener_key(id, number) {
            assert(after.notifiers.contains_key(id));
        } else {
            assert(known_listener(state, key));
            let (i, n) = choose|i: Seq<char>, n: u64|
                key == #[trigger] listener_key(i, n) && state.notifiers.contains_key(i);
            assert(key == listener_key(i, n));
        }
    }
}

/// Every listener that goes leaves the service sound.
pub proof fn going_keeps_sound(state: AppStateView, key: Seq<char>)
    requires
        sound(state),
    ensures
        sound(after_gone(state, key)),
{
    let after = after_gone(state, key);
    assert forall|k: Seq<char>| #[trigger] after.listeners.contains(k) implies known_listener(
        after,
        k,
    ) by {
        assert(known_listener(state, k));
        let (i, n) = choose|i: Seq<char>, n: u64|
            k == #[trigger] listener_key(i, n) && state.notifiers.contains_key(i);
        assert(k == listener_key(i, n));
    }
}

/// A listener, as a `/get` request opens it.
pub struct Subscription {
    /// The key under which it is counted until it goes.
    pub key: String,
    /// What it is sent first.
    pub initial: Registration,
    /// What it hears of new registrations by. It misses none that is set after
    /// the request.
    pub receiver: Receiver<()>,
}

/// What a listener heard from its channel.
pub enum Notification {
    /// A new registration has come.
    Message,
    /// It fell behind, and missed some.
    Lagged,
    /// The channel is closed.
    Closed,
}

/// What to do for a listener.
pub enum StreamAction {
    /// Send it this registration.
    Push(Registration),
    /// Wait for the next notification.
    Wait,
    /// End its stream.
    End,
}

/// What is done for a listener.
pub enum StreamActionView {
    Push(RegistrationView),
    Wait,
    End,
}

impl View for StreamAction {
    type V = StreamActionView;

    open spec fn view(&self) -> StreamActionView {
        match *self {
            StreamAction::Push(registration) => StreamActionView::Push(registration@),
            StreamAction::Wait => StreamActionView::Wait,
            StreamAction::End => StreamActionView::End,
        }
    }
}

/// What is done for a listener on `id` that has heard from its channel.
pub open spec fn stream_step(
    state: AppStateView,
    id: Seq<char>,
    notification: Notification,
) -> StreamActionView {
    match notification {
        Notification::Message => if state.registrations.contains_key(id) {
            StreamActionView::Push(state.registrations[id])
        } else {
            StreamActionView::Wait
        },
        Notification::Lagged => StreamActionView::Wait,
        Notification::Closed => StreamActionView::End,
    }
}

/// How many listeners an id has.
pub struct ListenerCount {
    pub id: String,
    pub listeners: usize,
}

/// The answer to an `/info` request.
pub struct Info {
    pub registrations: Vec<Registration>,
    pub listeners: Vec<ListenerCount>,
}

/// Whether `key` is that of a listener on `id`.
pub open spec fn is_key_of(key: Seq<char>, id: Seq<char>) -> bool {
    exists|n: u64| key == #[trigger] listener_key(id, n)
}

/// The keys of the listeners on `id`.
pub open spec fn own_keys(listeners: Set<Seq<char>>, id: Seq<char>) -> Set<Seq<char>> {
    listeners.filter(|key: Seq<char>| is_key_of(key, id))
}

/// Whether `info` is an account of `state`: every id that has a registration
/// occurs once, with that registration and with the number of its listeners.
pub open spec fn accounts_for(info: Info, state: AppStateView) -> bool {
    &&& info.registrations@.len() == info.listeners@.len()
    &&& forall|i: int|
        0 <= i < info.listeners@.len() ==> {
            let id = (#[trigger] info.listeners@[i]).id@;
            &&& state.registrations.contains_key(id)
            &&& info.registrations@[i]@ == state.registrations[id]
            &&& info.listeners@[i].listeners == own_keys(state.listeners, id).len()
        }
    &&& forall|i: int, j: int|
        0 <= i < j < info.listeners@.len() ==> (#[trigger] info.listeners@[i]).id@ != (
        #[trigger] info.listeners@[j]).id@
    &&& forall|id: Seq<char>| #[trigger]
        state.registrations.contains_key(id) ==> exists|i: int|
            0 <= i < info.listeners@.len() && (#[trigger] info.listeners@[i]).id@ == id
}

/// The key of the listener that is number `connection`, on `id`.
fn key_of(id: &str, connection: u64) -> (r: String)
    ensures
        r@ == listener_key(id@, connection),
{
    id.to_owned().concat(":").concat(decimal_text(connection).as_str())
}

/// Whether `key` is that of a listener on `id`.
fn is_own_key(key: &str, id: &str) -> (r: bool)
    ensures
        r == is_key_of(key@, id@),
{
    let prefix = id.to_owned().concat(":");
    let head = chars_of(prefix.as_str());
    let chars = chars_of(key);
    let ghost digits = key@.skip(head@.len() as int);
    proof {
        if is_key_of(key@, id@) {
            let n = choose|n: u64| key@ == #[trigger] listener_key(id@, n);
            assert(key@.take(prefix@.len() as int) =~= prefix@);
            assert(digits =~= text::decimal(n as nat));
            text::lemma_decimal(n as nat);
        }
    }
    if !begins_with(key, prefix.as_str()) {
        return false;
    }
    match parse_digits(&chars, head.len(), u64::MAX) {
        Some(n) => same_text(key, key_of(id, n).as_str()),
        None => false,
    }
}

/// How many of `keys`, which list `listeners`, are of listeners on `id`.
fn count_listeners(keys: &Vec<String>, id: &str, Ghost(listeners): Ghost<Set<Seq<char>>>) -> (r:
    usize)
    requires
        forall|i: int| 0 <= i < keys@.len() ==> listeners.contains((#[trigger] keys@[i])@),
        forall|i: int, j: int|
            0 <= i < j < keys@.len() ==> (#[trigger] keys@[i])@ != (#[trigger] keys@[j])@,
        forall|key: Seq<char>| #[trigger]
            listeners.contains(key) ==> exists|i: int|
                0 <= i < keys@.len() && (#[trigger] keys@[i])@ == key,
    ensures
        r == own_keys(listeners, id@).len(),
{
    let ghost mut found: Set<Seq<char>> = Set::empty();
    let mut count: usize = 0;
    let mut i: usize = 0;
    while i < keys.len()
        invariant
            i <= keys.len(),
            forall|k: int, j: int|
                0 <= k < j < keys@.len() ==> (#[trigger] keys@[k])@ != (#[trigger] keys@[j])@,
            found.finite(),
            count == found.len(),
            count <= i,
            forall|key: Seq<char>| #[trigger]
                found.contains(key) ==> is_key_of(key, id@) && exists|k: int|
                    0 <= k < i && (#[trigger] keys@[k])@ == key,
            forall|k: int|
                0 <= k < i && is_key_of((#[trigger] keys@[k])@, id@) ==> found.contains(keys@[k]@),
        decreases keys.len() - i,
    {
        if is_own_key(keys[i].as_str(), id) {
            proof {
                let key = keys@[i as int]@;
                if found.contains(key) {
                    let k = choose|k: int| 0 <= k < i && (#[trigger] keys@[k])@ == key;
                    assert(keys@[k]@ != keys@[i as int]@);
                }
                found = found.insert(key);
            }
            count = count + 1;
        }
        i = i + 1;
    }
    assert(found =~= own_keys(listeners, id@)) by {
        assert forall|key: Seq<char>| own_keys(listeners, id@).contains(key) implies found.contains(
            key,
        ) by {
            let k = choose|k: int| 0 <= k < keys@.len() && (#[trigger] keys@[k])@ == key;
            assert(is_key_of(keys@[k]@, id@));
        }
    }
    count
}

impl AppState {
    /// A service that knows the registration of the idle worker, and nothing
    /// else.
    pub fn new() -> (r: AppState)
        ensures
            r@ == initial_state(),
            sound(r@),
    {
        let mut registrations = no_registrations();
        let mut fields = FieldMap::new();
        fields.insert("connection".to_owned(), "0".to_owned());
        fields.insert("expire".to_owned(), "2000.1.1-00:00".to_owned());
        let registration = Registration { id: "rwrk".to_owned(), fields };
        store(&mut registrations, "rwrk".to_owned(), registration);
        let r = AppState {
            registrations,
            notifiers: no_channels(),
            listener_counts: no_listeners(),
        };
        assert(r@ =~= initial_state());
        r
    }

    /// Answers `/set`: keeps the parameters as the registration of their id, in
    /// place of the one that it had, and then notifies the listeners on the id.
    pub fn set_handler(&mut self, params: SetParams) -> (r: Registration)
        ensures
            r@ == (RegistrationView { id: params.id@, fields: params.extra@ }),
            ({
                let sender = final(self)@.notifiers[params.id@].sender;
                &&& is_channel(old(self)@, params.id@, sender)
                &&& final(self)@ == after_set(old(self)@, params.id@, params.extra@, sender)
            }),
            sound(old(self)@) ==> sound(final(self)@),
    {
        let ghost before = self@;
        let ghost (id_text, fields) = (params.id@, params.extra@);
        let id = params.id.clone();
        let registration = Registration { id: params.id, fields: params.extra };
        let answer = registration.clone();
        store(&mut self.registrations, id.clone(), registration);
        make_channel(&mut self.notifiers, id.clone());
        notify(&mut self.notifiers, id.as_str());
        proof {
            let sender = self@.notifiers[id_text].sender;
            assert(self@ =~= after_set(before, id_text, fields, sender));
            if sound(before) {
                set_keeps_sound(before, id_text, fields, sender);
            }
        }
        answer
    }

    /// Answers `/get`: opens a listener on an id, counts it under a number that is
    /// drawn from `ids`, subscribes it to the notifications of the id, and says
    /// what to send it first.
    pub fn get_handler(&mut self, ids: &mut ConnectionIds, params: GetParams) -> (r: Subscription)
        ensures
            final(ids)@ == next_number(old(ids)@),
            r.key@ == listener_key(params.id@, old(ids)@),
            r.initial@ == current(old(self)@, params.id@),
            subscription(r.receiver) == subscribed_now(final(self)@.notifiers[params.id@]),
            ({
                let sender = final(self)@.notifiers[params.id@].sender;
                &&& is_channel(old(self)@, params.id@, sender)
                &&& final(self)@ == after_get(old(self)@, params.id@, old(ids)@, sender)
            }),
            sound(old(self)@) ==> sound(final(self)@),
    {
        let ghost before = self@;
        let ghost id_text = params.id@;
        make_channel(&mut self.notifiers, params.id.clone());
        let receiver = subscribe(&self.notifiers, params.id.as_str());
        let connection = ids.draw();
        let key = key_of(params.id.as_str(), connection);
        add_listener(&mut self.listener_counts, key.clone());
        let initial = match load(&self.registrations, params.id.as_str()) {
            Some(registration) => registration,
            None => Registration { id: params.id, fields: FieldMap::new() },
        };
        proof {
            let sender = self@.notifiers[id_text].sender;
            assert(self@ =~= after_get(before, id_text, connection, sender));
            if sound(before) {
                get_keeps_sound(before, id_text, connection, sender);
            }
        }
        Subscription { key, initial, receiver }
    }

    /// Says what to do for a listener on `id` that has heard from its channel.
    pub fn notified(&self, id: &str, notification: Notification) -> (r: StreamAction)
        ensures
            r@ == stream_step(self@, id@, notification),
    {
        match notification {
            Notification::Message => match load(&self.registrations, id) {
                Some(registration) => StreamAction::Push(registration),
                None => StreamAction::Wait,
            },
            Notification::Lagged => StreamAction::Wait,
            Notification::Closed => StreamAction::End,
        }
    }

    /// Forgets the listener with this key.
    pub fn listener_gone(&mut self, key: &str)
        ensures
            final(self)@ == after_gone(old(self)@, key@),
            sound(old(self)@) ==> sound(final(self)@),
    {
        proof {
            if sound(self@) {
                going_keeps_sound(self@, key@);
            }
        }
        remove_listener(&mut self.listener_counts, key);
    }

    /// Answers `/info`: every registration, and how many listeners its id has.
    pub fn info_handler(&self) -> (r: Info)
        ensures
            accounts_for(r, self@),
    {
        let entries = all_registrations(&self.registrations);
        let keys = all_listeners(&self.listener_counts);
        let mut registrations: Vec<Registration> = Vec::new();
        let mut listeners: Vec<ListenerCount> = Vec::new();
        let mut i: usize = 0;
        while i < entries.len()
            invariant
                i <= entries.len(),
                forall|k: int|
                    0 <= k < entries@.len() ==> self@.registrations.contains_key(
                        (#[trigger] entries@[k]).0@,
                    ) && self@.registrations[entries@[k].0@] == entries@[k].1@,
                forall|k: int| 0 <= k < keys@.len() ==> self@.listeners.contains(
                    (#[trigger] keys@[k])@,
                ),
                forall|k: int, j: int|
                    0 <= k < j < keys@.len() ==> (#[trigger] keys@[k])@ != (#[trigger] keys@[j])@,
                forall|key: Seq<char>| #[trigger]
                    self@.listeners.contains(key) ==> exists|k: int|
                        0 <= k < keys@.len() && (#[trigger] keys@[k])@ == key,
                registrations@.len() == i,
                listeners@.len() == i,
                forall|k: int|
                    0 <= k < i ==> {
                        &&& (#[trigger] listeners@[k]).id@ == entries@[k].0@
                        &&& registrations@[k]@ == entries@[k].1@
                        &&& listeners@[k].listeners == own_keys(
                            self@.listeners,
                            entries@[k].0@,
                        ).len()
                    },
            decreases entries.len() - i,
        {
            let id = entries[i].0.clone();
            let count = count_listeners(&keys, id.as_str(), Ghost(self@.listeners));
            registrations.push(entries[i].1.clone());
            listeners.push(ListenerCount { id, listeners: count });
            i = i + 1;
        }
        proof {
            assert forall|a: int, b: int| 0 <= a < b < listeners@.len() implies (
            #[trigger] listeners@[a]).id@ != (#[trigger] listeners@[b]).id@ by {
                assert(entries@[a].0@ != entries@[b].0@);
            }
            assert forall|id: Seq<char>| #[trigger]
                self@.registrations.contains_key(id) implies exists|k: int|
                0 <= k < listeners@.len() && (#[trigger] listeners@[k]).id@ == id by {
                let k = choose|k: int| 0 <= k < entries@.len() && (#[trigger] entries@[k]).0@ == id;
                assert(listeners@[k].id@ == id);
            }
        }
        Info { registrations, listeners }
    }
}

} // verus!
