//! What holds of the configuration service as a whole.
use tokio::sync::broadcast::Sender;
use vstd::prelude::*;

use crate::enroll::{
    self, AppState, AppStateView, ConnectionIds, GetParams, Info, Notification, SetParams,
    StreamAction, StreamActionView, Subscription, SubscriptionView,
};
use crate::registration::{Registration, RegistrationView};
use crate::text;

verus! {

/// The service is sound at first.
pub proof fn initial_state_is_sound()
    ensures
        enroll::sound(enroll::initial_state()),
        numbers_are_fresh(enroll::initial_state(), 0),
{
}

/// What is set is what is read, until the next set of that id: the service
/// tells of an id what was set last, and of every other id what it told before.
pub proof fn set_reads_back(
    state: AppStateView,
    id: Seq<char>,
    fields: Map<Seq<char>, Seq<char>>,
    sender: Sender<()>,
    other: Seq<char>,
)
    ensures
        ({
            let after = enroll::after_set(state, id, fields, sender);
            let set = RegistrationView { id, fields };
            &&& after.registrations.contains_key(id)
            &&& enroll::current(after, id) == set
            &&& other != id ==> enroll::current(after, other) == enroll::current(
                state,
                other,
            )
            &&& other != id ==> (after.registrations.contains_key(other)
                <==> state.registrations.contains_key(other))
        }),
{
}

/// Listeners come and go without a trace on what the service tells of any id.
pub proof fn listeners_change_no_registration(
    state: AppStateView,
    id: Seq<char>,
    number: u64,
    sender: Sender<()>,
    key: Seq<char>,
    other: Seq<char>,
)
    ensures
        enroll::current(enroll::after_get(state, id, number, sender), other) == enroll::current(
            state,
            other,
        ),
        enroll::current(enroll::after_gone(state, key), other) == enroll::current(state, other),
{
}

/// Listeners come and go unheard: neither sends a notification.
pub proof fn listeners_send_nothing(
    state: AppStateView,
    id: Seq<char>,
    number: u64,
    sender: Sender<()>,
    key: Seq<char>,
    other: Seq<char>,
)
    requires
        state.notifiers.contains_key(other),
    ensures
        enroll::after_get(state, id, number, sender).notifiers[other] == state.notifiers[other],
        enroll::after_gone(state, key).notifiers[other] == state.notifiers[other],
{
}

/// A set sends one notification on the channel of its id, which stays the channel
/// that it was, and none on the channel of any other id, which is another one.
pub proof fn sets_notify_their_own_id(
    state: AppStateView,
    id: Seq<char>,
    fields: Map<Seq<char>, Seq<char>>,
    sender: Sender<()>,
    other: Seq<char>,
)
    requires
        enroll::sound(state),
        enroll::is_channel(state, id, sender),
        state.notifiers.contains_key(other),
    ensures
        ({
            let after = enroll::after_set(state, id, fields, sender);
            &&& other == id ==> after.notifiers[other] == enroll::notified_once(
                state.notifiers[other],
            )
            &&& other != id ==> after.notifiers[other] == state.notifiers[other]
            &&& other != id ==> after.notifiers[other].sender != after.notifiers[id].sender
        }),
{
}

/// A `/set` request: its id and parameters, and the channel of the id.
pub struct SetCall {
    pub id: Seq<char>,
    pub fields: Map<Seq<char>, Seq<char>>,
    pub sender: Sender<()>,
}

/// What the service keeps after a run of `/set` requests.
pub open spec fn after_sets(state: AppStateView, sets: Seq<SetCall>) -> AppStateView
    decreases sets.len(),
{
    if sets.len() == 0 {
        state
    } else {
        let before = after_sets(state, sets.drop_last());
        enroll::after_set(before, sets.last().id, sets.last().fields, sets.last().sender)
    }
}

/// Whether each request of a run finds the channel of its id.
pub open spec fn channels_found(state: AppStateView, sets: Seq<SetCall>) -> bool {
    forall|i: int|
        0 <= i < sets.len() ==> enroll::is_channel(
            after_sets(state, sets.take(i)),
            (#[trigger] sets[i]).id,
            sets[i].sender,
        )
}

/// How many requests of a run set `id`.
pub open spec fn sets_of(sets: Seq<SetCall>, id: Seq<char>) -> nat
    decreases sets.len(),
{
    if sets.len() == 0 {
        0
    } else {
        sets_of(sets.drop_last(), id) + if sets.last().id == id {
            1nat
        } else {
            0nat
        }
    }
}

/// The parameters that the last request of a run to set `id` sets it to.
pub open spec fn last_fields(sets: Seq<SetCall>, id: Seq<char>) -> Map<Seq<char>, Seq<char>>
    recommends
        sets_of(sets, id) > 0,
    decreases sets.len(),
{
    if sets.len() == 0 {
        Map::empty()
    } else if sets.last().id == id {
        sets.last().fields
    } else {
        last_fields(sets.drop_last(), id)
    }
}

/// What a receiver gives, when it is asked until it has no more: each
/// notification that it has not given yet; or, where it has more of them than
/// the channel keeps, word that it fell behind, and those that were kept. This
/// describes `Receiver::recv` of tokio's broadcast channel, which the programs
/// around the library await. Nothing in the library calls it or checks that it
/// does so.
pub open spec fn heard(pending: nat) -> Seq<Notification> {
    let backlog = enroll::NOTIFIER_BACKLOG as nat;
    if pending > backlog {
        seq![Notification::Lagged] + Seq::new(backlog, |i: int| Notification::Message)
    } else {
        Seq::new(pending, |i: int| Notification::Message)
    }
}

/// What is done for a listener on `id` that hears `notifications`.
pub open spec fn stream_run(
    state: AppStateView,
    id: Seq<char>,
    notifications: Seq<Notification>,
) -> Seq<StreamActionView> {
    notifications.map_values(|n: Notification| enroll::stream_step(state, id, n))
}

/// How the channel and the registration of a listened id fare in a run of sets.
proof fn lemma_sets(state: AppStateView, sets: Seq<SetCall>, id: Seq<char>)
    requires
        state.notifiers.contains_key(id),
        channels_found(state, sets),
    ensures
        ({
            let after = after_sets(state, sets);
            &&& after.notifiers.contains_key(id)
            &&& after.notifiers[id].sender == state.notifiers[id].sender
            &&& after.notifiers[id].sent == state.notifiers[id].sent + sets_of(sets, id)
            &&& sets_of(sets, id) > 0 ==> after.registrations.contains_key(id)
                && after.registrations[id] == (RegistrationView {
                id,
                fields: last_fields(sets, id),
            })
        }),
    decreases sets.len(),
{
    if sets.len() > 0 {
        let rest = sets.drop_last();
        assert(channels_found(state, rest)) by {
            assert forall|i: int| 0 <= i < rest.len() implies enroll::is_channel(
                after_sets(state, rest.take(i)),
                (#[trigger] rest[i]).id,
                rest[i].sender,
            ) by {
                assert(rest.take(i) =~= sets.take(i));
                assert(rest[i] == sets[i]);
            }
        }
        lemma_sets(state, rest, id);
        assert(rest =~= sets.take(sets.len() - 1));
        assert(sets[sets.len() - 1] == sets.last());
    }
}

/// A listener gets every set that comes after it was opened, and the last one
/// last: after any number of sets of its id, more than its channel keeps too, it
/// is sent at least one registration, the last thing that it is sent is what was
/// set last, and its stream goes on. Sets of other ids send it nothing. This holds
/// of a receiver that gives what `heard` says.
pub proof fn the_last_set_is_pushed_last(
    state: AppStateView,
    id: Seq<char>,
    subscription: SubscriptionView,
    sets: Seq<SetCall>,
)
    requires
        state.notifiers.contains_key(id),
        subscription == enroll::subscribed_now(state.notifiers[id]),
        channels_found(state, sets),
    ensures
        ({
            let after = after_sets(state, sets);
            let pending = (after.notifiers[id].sent - subscription.from) as nat;
            let sent = stream_run(after, id, heard(pending));
            &&& after.notifiers.contains_key(id)
            &&& after.notifiers[id].sender == subscription.sender
            &&& pending == sets_of(sets, id)
            &&& pending == 0 ==> sent.len() == 0
            &&& pending > 0 ==> sent.len() > 0 && sent.last() == StreamActionView::Push(
                RegistrationView { id, fields: last_fields(sets, id) },
            )
            &&& forall|i: int| 0 <= i < sent.len() ==> !(#[trigger] sent[i] is End)
        }),
{
    lemma_sets(state, sets, id);
    let after = after_sets(state, sets);
    let pending = (after.notifiers[id].sent - subscription.from) as nat;
    let sent = stream_run(after, id, heard(pending));
    if pending > 0 {
        assert(heard(pending).last() is Message);
        assert(sent.last() == enroll::stream_step(after, id, heard(pending).last()));
    }
}

/// The colon of a listener's key is its last one.
proof fn lemma_last_colon(id: Seq<char>, n: u64, i: int)
    requires
        id.len() < i < enroll::listener_key(id, n).len(),
    ensures
        enroll::listener_key(id, n)[id.len() as int] == ':',
        enroll::listener_key(id, n)[i] != ':',
{
    reveal_strlit(":");
    let digits = text::decimal(n as nat);
    text::lemma_decimal(n as nat);
    assert(enroll::listener_key(id, n)[i] == digits[i - id.len() - 1]);
    assert(text::is_digit(digits[i - id.len() - 1]));
}

/// Two listeners with one key are on one id and have one number.
pub proof fn keys_are_unique(id1: Seq<char>, n1: u64, id2: Seq<char>, n2: u64)
    requires
        enroll::listener_key(id1, n1) == enroll::listener_key(id2, n2),
    ensures
        id1 == id2,
        n1 == n2,
{
    reveal_strlit(":");
    let key = enroll::listener_key(id1, n1);
    text::lemma_decimal(n1 as nat);
    text::lemma_decimal(n2 as nat);
    assert(key[id1.len() as int] == ':');
    assert(key[id2.len() as int] == ':');
    if id1.len() < id2.len() {
        lemma_last_colon(id1, n1, id2.len() as int);
    }
    if id2.len() < id1.len() {
        lemma_last_colon(id2, n2, id1.len() as int);
    }
    assert(id1 =~= key.take(id1.len() as int));
    assert(id2 =~= key.take(id2.len() as int));
    assert(text::decimal(n1 as nat) =~= key.skip(id1.len() as int + 1));
    assert(text::decimal(n2 as nat) =~= key.skip(id2.len() as int + 1));
    text::decimal_is_injective(n1 as nat, n2 as nat);
}

/// A listener counts for no id but its own.
pub proof fn listeners_count_for_one_id(key: Seq<char>, a: Seq<char>, b: Seq<char>)
    requires
        enroll::is_key_of(key, a),
        enroll::is_key_of(key, b),
    ensures
        a == b,
{
    let n = choose|n: u64| key == #[trigger] enroll::listener_key(a, n);
    let m = choose|m: u64| key == #[trigger] enroll::listener_key(b, m);
    keys_are_unique(a, n, b, m);
}

/// Whether `key` is that of a listener whose number is below `next`.
pub open spec fn numbered_below(key: Seq<char>, next: u64) -> bool {
    exists|id: Seq<char>, n: u64| key == #[trigger] enroll::listener_key(id, n) && n < next
}

/// Whether no open listener has the number `next`, or one that is drawn after it.
pub open spec fn numbers_are_fresh(state: AppStateView, next: u64) -> bool {
    forall|key: Seq<char>| #[trigger] state.listeners.contains(key) ==> numbered_below(key, next)
}

/// The number after a fresh one is fresh.
proof fn lemma_later_number(state: AppStateView, next: u64)
    requires
        numbers_are_fresh(state, next),
        next < u64::MAX,
    ensures
        numbers_are_fresh(state, enroll::next_number(next)),
{
    assert forall|key: Seq<char>| #[trigger] state.listeners.contains(key) implies numbered_below(
        key,
        enroll::next_number(next),
    ) by {
        assert(numbered_below(key, next));
        let (i, n) = choose|i: Seq<char>, n: u64|
            key == #[trigger] enroll::listener_key(i, n) && n < next;
        assert(key == enroll::listener_key(i, n));
    }
}

/// The key of the next number is none that an open listener has.
proof fn lemma_fresh_key(state: AppStateView, id: Seq<char>, next: u64)
    requires
        numbers_are_fresh(state, next),
    ensures
        !state.listeners.contains(enroll::listener_key(id, next)),
{
    let key = enroll::listener_key(id, next);
    if state.listeners.contains(key) {
        assert(numbered_below(key, next));
        let (i, n) = choose|i: Seq<char>, n: u64|
            key == #[trigger] enroll::listener_key(i, n) && n < next;
        keys_are_unique(i, n, id, next);
    }
}

/// Sets, and listeners that go, leave the next number fresh; and so does a
/// listener that comes, to this service or another, until the numbers run out.
pub proof fn numbers_stay_fresh(
    state: AppStateView,
    next: u64,
    id: Seq<char>,
    fields: Map<Seq<char>, Seq<char>>,
    sender: Sender<()>,
    key: Seq<char>,
)
    requires
        numbers_are_fresh(state, next),
    ensures
        numbers_are_fresh(enroll::after_set(state, id, fields, sender), next),
        numbers_are_fresh(enroll::after_gone(state, key), next),
        next < u64::MAX ==> numbers_are_fresh(
            enroll::after_get(state, id, next, sender),
            enroll::next_number(next),
        ),
        next < u64::MAX ==> numbers_are_fresh(state, enroll::next_number(next)),
{
    if next < u64::MAX {
        let later = enroll::next_number(next);
        let own = enroll::listener_key(id, next);
        let after = enroll::after_get(state, id, next, sender);
        lemma_later_number(state, next);
        assert forall|k: Seq<char>| #[trigger] after.listeners.contains(k) implies numbered_below(
            k,
            later,
        ) by {
            if k == own {
                assert(k == enroll::listener_key(id, next));
            } else {
                assert(state.listeners.contains(k));
            }
        }
    }
}

/// A listener that comes adds one to the count of its own id and nothing to that
/// of any other, and once it has gone the listeners are what they were.
pub proof fn listeners_are_counted(
    state: AppStateView,
    id: Seq<char>,
    next: u64,
    sender: Sender<()>,
    other: Seq<char>,
)
    requires
        enroll::sound(state),
        numbers_are_fresh(state, next),
    ensures
        ({
            let key = enroll::listener_key(id, next);
            let after = enroll::after_get(state, id, next, sender);
            &&& !state.listeners.contains(key)
            &&& enroll::own_keys(after.listeners, id).len() == enroll::own_keys(
                state.listeners,
                id,
            ).len() + 1
            &&& other != id ==> enroll::own_keys(after.listeners, other) == enroll::own_keys(
                state.listeners,
                other,
            )
            &&& enroll::after_gone(after, key).listeners == state.listeners
        }),
{
    let key = enroll::listener_key(id, next);
    let after = enroll::after_get(state, id, next, sender);
    lemma_fresh_key(state, id, next);
    let before_keys = enroll::own_keys(state.listeners, id);
    assert(enroll::is_key_of(key, id));
    assert(enroll::own_keys(after.listeners, id) =~= before_keys.insert(key));
    assert(before_keys.subset_of(state.listeners));
    vstd::set_lib::lemma_len_subset(before_keys, state.listeners);
    if other != id {
        if enroll::is_key_of(key, other) {
            listeners_count_for_one_id(key, id, other);
        }
        assert(enroll::own_keys(after.listeners, other) =~= enroll::own_keys(
            state.listeners,
            other,
        ));
    }
    assert(enroll::after_gone(after, key).listeners =~= state.listeners);
}

/// What befalls a service.
pub enum Call {
    /// A registration is set.
    Sets(SetCall),
    /// A listener comes to this id, which has this channel.
    Comes(Seq<char>, Sender<()>),
    /// The listener with this key goes.
    Goes(Seq<char>),
    /// A listener comes to another service of the process.
    ComesElsewhere,
}

/// What the service keeps and which number is next after a run of calls.
pub open spec fn after_calls(
    state: AppStateView,
    next: u64,
    calls: Seq<Call>,
) -> (AppStateView, u64)
    decreases calls.len(),
{
    if calls.len() == 0 {
        (state, next)
    } else {
        let (before, number) = after_calls(state, next, calls.drop_last());
        match calls.last() {
            Call::Sets(set) => (
                enroll::after_set(before, set.id, set.fields, set.sender),
                number,
            ),
            Call::Comes(id, sender) => (
                enroll::after_get(before, id, number, sender),
                enroll::next_number(number),
            ),
            Call::Goes(key) => (enroll::after_gone(before, key), number),
            Call::ComesElsewhere => (before, enroll::next_number(number)),
        }
    }
}

/// The key that call `i` of a run gets, if it is one of a listener that comes.
pub open spec fn key_in_run(state: AppStateView, next: u64, calls: Seq<Call>, i: int) -> Seq<char> {
    enroll::listener_key(calls[i]->Comes_0, after_calls(state, next, calls.take(i)).1)
}

/// How many listeners come to the service in a run of calls.
pub open spec fn arrivals(calls: Seq<Call>) -> nat
    decreases calls.len(),
{
    if calls.len() == 0 {
        0
    } else {
        arrivals(calls.drop_last()) + if calls.last() is Comes {
            1nat
        } else {
            0nat
        }
    }
}

/// What holds before a call of a run holds of the calls before it.
proof fn lemma_calls(state: AppStateView, next: u64, calls: Seq<Call>)
    requires
        state.listeners.finite(),
        numbers_are_fresh(state, next),
        next + calls.len() <= u64::MAX,
    ensures
        ({
            let (after, number) = after_calls(state, next, calls);
            &&& next <= number <= next + calls.len()
            &&& numbers_are_fresh(after, number)
            &&& after.listeners.finite()
            &&& (forall|i: int| 0 <= i < calls.len() ==> !(#[trigger] calls[i] is Goes))
                ==> after.listeners.len() == state.listeners.len() + arrivals(calls)
        }),
    decreases calls.len(),
{
    if calls.len() > 0 {
        let rest = calls.drop_last();
        lemma_calls(state, next, rest);
        let (before, number) = after_calls(state, next, rest);
        let last = calls.last();
        assert(calls[calls.len() - 1] == last);
        match last {
            Call::Sets(set) => {
                numbers_stay_fresh(before, number, set.id, set.fields, set.sender, Seq::empty());
            },
            Call::Comes(id, sender) => {
                numbers_stay_fresh(before, number, id, Map::empty(), sender, Seq::empty());
                lemma_fresh_key(before, id, number);
            },
            Call::Goes(_) => {},
            Call::ComesElsewhere => {
                lemma_later_number(before, number);
            },
        }
        if forall|i: int| 0 <= i < calls.len() ==> !(#[trigger] calls[i] is Goes) {
            assert forall|i: int| 0 <= i < rest.len() implies !(#[trigger] rest[i] is Goes) by {
                assert(rest[i] == calls[i]);
            }
        }
    }
}

/// Numbers only grow in a run of calls.
proof fn lemma_numbers_grow(state: AppStateView, next: u64, calls: Seq<Call>, i: int, j: int)
    requires
        state.listeners.finite(),
        numbers_are_fresh(state, next),
        next + calls.len() <= u64::MAX,
        0 <= i < j <= calls.len(),
        calls[i] is Comes,
    ensures
        after_calls(state, next, calls.take(i)).1 < after_calls(state, next, calls.take(j)).1,
    decreases j,
{
    let before = calls.take(j - 1);
    assert(calls.take(j).drop_last() =~= before);
    assert(calls.take(j).last() == calls[j - 1]);
    lemma_calls(state, next, before);
    if i < j - 1 {
        lemma_numbers_grow(state, next, calls, i, j - 1);
    }
}

/// In a run of sets, of listeners that come to this service and to others, and of
/// listeners that go, every listener that comes gets a key of its own: one that no
/// open listener has, and that no other listener of the run gets. Where none goes,
/// the keys are more by as many as have come. This holds as long as the numbers do
/// not run out.
pub proof fn every_listener_has_its_own_key(state: AppStateView, next: u64, calls: Seq<Call>)
    requires
        enroll::sound(state),
        numbers_are_fresh(state, next),
        next + calls.len() <= u64::MAX,
    ensures
        ({
            let (after, number) = after_calls(state, next, calls);
            &&& numbers_are_fresh(after, number)
            &&& (forall|i: int| 0 <= i < calls.len() ==> !(#[trigger] calls[i] is Goes))
                ==> after.listeners.len() == state.listeners.len() + arrivals(calls)
        }),
        forall|i: int|
            0 <= i < calls.len() && (#[trigger] calls[i]) is Comes ==> !after_calls(
                state,
                next,
                calls.take(i),
            ).0.listeners.contains(key_in_run(state, next, calls, i)) && after_calls(
                state,
                next,
                calls.take(i + 1),
            ).0.listeners.contains(key_in_run(state, next, calls, i)),
        forall|i: int, j: int|
            0 <= i < j < calls.len() && (#[trigger] calls[i]) is Comes && (#[trigger] calls[j]) is Comes
                ==> key_in_run(state, next, calls, i) != key_in_run(state, next, calls, j),
{
    lemma_calls(state, next, calls);
    assert forall|i: int| 0 <= i < calls.len() && (#[trigger] calls[i]) is Comes implies !after_calls(
        state,
        next,
        calls.take(i),
    ).0.listeners.contains(key_in_run(state, next, calls, i)) && after_calls(
        state,
        next,
        calls.take(i + 1),
    ).0.listeners.contains(key_in_run(state, next, calls, i)) by {
        lemma_calls(state, next, calls.take(i));
        let (before, number) = after_calls(state, next, calls.take(i));
        lemma_fresh_key(before, calls[i]->Comes_0, number);
        assert(calls.take(i + 1).drop_last() =~= calls.take(i));
        assert(calls.take(i + 1).last() == calls[i]);
    }
    assert forall|i: int, j: int|
        0 <= i < j < calls.len() && (#[trigger] calls[i]) is Comes && (
        #[trigger] calls[j]) is Comes implies key_in_run(state, next, calls, i) != key_in_run(
        state,
        next,
        calls,
        j,
    ) by {
        lemma_numbers_grow(state, next, calls, i, j);
        if key_in_run(state, next, calls, i) == key_in_run(state, next, calls, j) {
            keys_are_unique(
                calls[i]->Comes_0,
                after_calls(state, next, calls.take(i)).1,
                calls[j]->Comes_0,
                after_calls(state, next, calls.take(j)).1,
            );
        }
    }
}

/// A new service knows the registration `rwrk`, with no connections and an end in
/// the past, and no other; it has no channels and no listeners.
pub proof fn new_services_know_one_registration(state: AppState)
    requires
        call_ensures(AppState::new, (), state),
    ensures
        forall|id: Seq<char>| #[trigger]
            state@.registrations.contains_key(id) <==> id == "rwrk"@,
        state@.registrations["rwrk"@].id == "rwrk"@,
        forall|name: Seq<char>| #[trigger]
            state@.registrations["rwrk"@].fields.contains_key(name) <==> name == "connection"@
                || name == "expire"@,
        state@.registrations["rwrk"@].fields["connection"@] == "0"@,
        state@.registrations["rwrk"@].fields["expire"@] == "2000.1.1-00:00"@,
        forall|id: Seq<char>| !(#[trigger] state@.notifiers.contains_key(id)),
        forall|key: Seq<char>| !(#[trigger] state@.listeners.contains(key)),
{
    reveal_strlit("connection");
    reveal_strlit("expire");
    assert("connection"@.len() != "expire"@.len());
}

/// A set keeps exactly the parameters that came, under their id, answers with
/// them, and sends one notification on the channel of the id: the one that it had,
/// or a new one that no other id has. Other ids, and the listeners, stay what they
/// are.
pub proof fn sets_keep_what_they_are_given(
    state: &mut AppState,
    params: SetParams,
    answer: Registration,
)
    requires
        call_ensures(AppState::set_handler, (state, params), answer),
    ensures
        ({
            let before = old(state)@;
            let after = final(state)@;
            let id = params.id@;
            &&& answer@.id == id
            &&& answer@.fields == params.extra@
            &&& after.registrations.contains_key(id)
            &&& after.registrations[id].id == id
            &&& after.registrations[id].fields == params.extra@
            &&& after.listeners == before.listeners
            &&& after.notifiers.contains_key(id)
            &&& before.notifiers.contains_key(id) ==> after.notifiers[id].sender
                == before.notifiers[id].sender && after.notifiers[id].sent
                == before.notifiers[id].sent + 1
            &&& !before.notifiers.contains_key(id) ==> after.notifiers[id].sent == 1
                && enroll::backlog(after.notifiers[id].sender) == 16
            &&& forall|other: Seq<char>|
                #![trigger after.registrations.contains_key(other)]
                #![trigger before.registrations.contains_key(other)]
                other != id ==> {
                    &&& after.registrations.contains_key(other)
                        <==> before.registrations.contains_key(other)
                    &&& after.registrations[other] == before.registrations[other]
                }
            &&& forall|other: Seq<char>|
                #![trigger after.notifiers.contains_key(other)]
                #![trigger before.notifiers.contains_key(other)]
                other != id ==> {
                    &&& after.notifiers.contains_key(other)
                        <==> before.notifiers.contains_key(other)
                    &&& after.notifiers[other] == before.notifiers[other]
                    &&& before.notifiers.contains_key(other) && !before.notifiers.contains_key(id)
                        ==> before.notifiers[other].sender != after.notifiers[id].sender
                }
        }),
{
}

/// A listener is counted under its id, a colon and the number that it draws; is
/// sent the registration of its id first, or the id without any field where there
/// is none; and is subscribed to the channel of the id from the next notification
/// on. Registrations stay what they are, and so does all that others have.
pub proof fn listeners_are_sent_what_is_kept(
    state: &mut AppState,
    ids: &mut ConnectionIds,
    params: GetParams,
    r: Subscription,
)
    requires
        call_ensures(AppState::get_handler, (state, ids, params), r),
    ensures
        ({
            let before = old(state)@;
            let after = final(state)@;
            let id = params.id@;
            let number = old(ids)@;
            &&& number < 18446744073709551615 ==> final(ids)@ == number + 1
            &&& number == 18446744073709551615 ==> final(ids)@ == 0
            &&& r.key@ == id + seq![':'] + text::decimal(number as nat)
            &&& before.registrations.contains_key(id) ==> r.initial@ == before.registrations[id]
            &&& !before.registrations.contains_key(id) ==> r.initial@.id == id && forall|
                name: Seq<char>,
            |
                !(#[trigger] r.initial@.fields.contains_key(name))
            &&& after.registrations == before.registrations
            &&& after.listeners == before.listeners.insert(r.key@)
            &&& after.notifiers.contains_key(id)
            &&& before.notifiers.contains_key(id) ==> after.notifiers[id] == before.notifiers[id]
            &&& !before.notifiers.contains_key(id) ==> after.notifiers[id].sent == 0
                && enroll::backlog(after.notifiers[id].sender) == 16
            &&& enroll::subscription(r.receiver).sender == after.notifiers[id].sender
            &&& enroll::subscription(r.receiver).from == after.notifiers[id].sent
            &&& forall|other: Seq<char>|
                #![trigger after.notifiers.contains_key(other)]
                #![trigger before.notifiers.contains_key(other)]
                other != id ==> {
                    &&& after.notifiers.contains_key(other)
                        <==> before.notifiers.contains_key(other)
                    &&& after.notifiers[other] == before.notifiers[other]
                    &&& before.notifiers.contains_key(other) && !before.notifiers.contains_key(id)
                        ==> before.notifiers[other].sender != after.notifiers[id].sender
                }
        }),
{
    reveal_strlit(":");
    assert(":"@ =~= seq![':']);
}

/// A listener that hears of a new registration is sent the one that its id has
/// then, if it has one; one that fell behind waits for the next; and the stream
/// ends only with the channel.
pub proof fn notifications_push_what_is_kept(
    state: &AppState,
    id: &str,
    notification: Notification,
    r: StreamAction,
)
    requires
        call_ensures(AppState::notified, (state, id, notification), r),
    ensures
        r is End <==> notification is Closed,
        r is Push <==> notification is Message && state@.registrations.contains_key(id@),
        r is Push ==> r->0@ == state@.registrations[id@],
{
}

/// A listener that goes is no longer counted; nothing else changes.
pub proof fn listeners_that_go_are_forgotten(state: &mut AppState, key: &str)
    requires
        call_ensures(AppState::listener_gone, (state, key), ()),
    ensures
        ({
            let before = old(state)@;
            let after = final(state)@;
            &&& !after.listeners.contains(key@)
            &&& forall|other: Seq<char>|
                #![trigger after.listeners.contains(other)]
                other != key@ ==> (after.listeners.contains(other)
                    <==> before.listeners.contains(other))
            &&& after.registrations == before.registrations
            &&& after.notifiers == before.notifiers
        }),
{
}

/// An account of a service has every id that has a registration once, with that
/// registration, and with as many listeners as have a key of that id, a colon and
/// a number; and no other id.
pub proof fn accounts_are_complete(state: &AppState, info: Info, id: Seq<char>)
    requires
        call_ensures(AppState::info_handler, (state,), info),
    ensures
        info.registrations@.len() == info.listeners@.len(),
        state@.registrations.contains_key(id) <==> exists|i: int|
            0 <= i < info.listeners@.len() && (#[trigger] info.listeners@[i]).id@ == id,
        forall|i: int|
            0 <= i < info.listeners@.len() && (#[trigger] info.listeners@[i]).id@ == id ==> {
                &&& info.registrations@[i]@ == state@.registrations[id]
                &&& info.listeners@[i].listeners == state@.listeners.filter(
                    |key: Seq<char>|
                        exists|n: u64| key == id + seq![':'] + #[trigger] text::decimal(n as nat),
                ).len()
            },
        forall|i: int, j: int|
            0 <= i < j < info.listeners@.len() ==> (#[trigger] info.listeners@[i]).id@ != (
            #[trigger] info.listeners@[j]).id@,
{
    reveal_strlit(":");
    assert(":"@ =~= seq![':']);
    let own = |key: Seq<char>|
        exists|n: u64| key == id + seq![':'] + #[trigger] text::decimal(n as nat);
    assert forall|key: Seq<char>| enroll::is_key_of(key, id) <==> own(key) by {
        if enroll::is_key_of(key, id) {
            let n = choose|n: u64| key == #[trigger] enroll::listener_key(id, n);
            assert(key == id + seq![':'] + text::decimal(n as nat));
        }
        if own(key) {
            let n = choose|n: u64| key == id + seq![':'] + #[trigger] text::decimal(n as nat);
            assert(key == enroll::listener_key(id, n));
        }
    }
    assert(state@.listeners.filter(own) =~= enroll::own_keys(state@.listeners, id));
}

/// Numbers are drawn from zero on.
pub proof fn numbers_begin_at_zero(ids: ConnectionIds)
    requires
        call_ensures(ConnectionIds::new, (), ids),
    ensures
        ids@ == 0,
{
}

/// Whether a call of a run sets this field of this id to this value.
pub open spec fn sets_field(call: Call, id: Seq<char>, name: Seq<char>, value: Seq<char>) -> bool {
    call is Sets && call->Sets_0.id == id && call->Sets_0.fields.contains_key(name)
        && call->Sets_0.fields[name] == value
}

/// What is kept under an id after a run of calls was set in the run, or was kept
/// before it.
proof fn lemma_kept(state: AppStateView, next: u64, calls: Seq<Call>, id: Seq<char>)
    ensures
        ({
            let after = after_calls(state, next, calls).0;
            let none = forall|i: int|
                0 <= i < calls.len() ==> !((#[trigger] calls[i]) is Sets
                    && calls[i]->Sets_0.id == id);
            &&& none ==> (after.registrations.contains_key(id)
                <==> state.registrations.contains_key(id)) && after.registrations[id]
                == state.registrations[id]
            &&& !none ==> after.registrations.contains_key(id) && after.registrations[id].id == id
                && exists|i: int|
                0 <= i < calls.len() && (#[trigger] calls[i]) is Sets && calls[i]->Sets_0.id == id
                    && calls[i]->Sets_0.fields == after.registrations[id].fields
        }),
    decreases calls.len(),
{
    if calls.len() > 0 {
        let rest = calls.drop_last();
        let last = calls.last();
        lemma_kept(state, next, rest, id);
        assert(calls[calls.len() - 1] == last);
        assert(forall|i: int| 0 <= i < rest.len() ==> rest[i] == calls[i]);
        let none_before = forall|i: int|
            0 <= i < rest.len() ==> !((#[trigger] rest[i]) is Sets && rest[i]->Sets_0.id == id);
        if none_before {
            assert forall|i: int| 0 <= i < calls.len() - 1 implies !((
            #[trigger] calls[i]) is Sets && calls[i]->Sets_0.id == id) by {
                assert(rest[i] == calls[i]);
            }
        } else {
            let i = choose|i: int|
                0 <= i < rest.len() && (#[trigger] rest[i]) is Sets && rest[i]->Sets_0.id == id;
            assert(calls[i] is Sets && calls[i]->Sets_0.id == id);
            let after = after_calls(state, next, rest).0;
            let k = choose|k: int|
                0 <= k < rest.len() && (#[trigger] rest[k]) is Sets && rest[k]->Sets_0.id == id
                    && rest[k]->Sets_0.fields == after.registrations[id].fields;
            assert(calls[k] == rest[k]);
        }
    }
}

/// Nothing is made up: every field that a listener is sent first was set for its
/// id, with that value, by a request to the service since it was new; or is one of
/// those that `rwrk` has from the start. On an id that was never set, but for
/// `rwrk`, a listener is sent no field at all.
pub proof fn listeners_are_sent_what_was_set(
    fresh: AppState,
    next: u64,
    calls: Seq<Call>,
    state: &mut AppState,
    ids: &mut ConnectionIds,
    params: GetParams,
    r: Subscription,
    name: Seq<char>,
)
    requires
        call_ensures(AppState::new, (), fresh),
        old(state)@ == after_calls(fresh@, next, calls).0,
        call_ensures(AppState::get_handler, (state, ids, params), r),
    ensures
        r.initial@.id == params.id@,
        r.initial@.fields.contains_key(name) ==> {
            ||| exists|i: int|
                0 <= i < calls.len() && sets_field(
                    #[trigger] calls[i],
                    params.id@,
                    name,
                    r.initial@.fields[name],
                )
            ||| params.id@ == "rwrk"@ && name == "connection"@ && r.initial@.fields[name] == "0"@
            ||| params.id@ == "rwrk"@ && name == "expire"@ && r.initial@.fields[name]
                == "2000.1.1-00:00"@
        },
        (forall|i: int|
            0 <= i < calls.len() ==> !((#[trigger] calls[i]) is Sets && calls[i]->Sets_0.id
                == params.id@)) && params.id@ != "rwrk"@ ==> !r.initial@.fields.contains_key(name),
{
    let id = params.id@;
    new_services_know_one_registration(fresh);
    lemma_kept(fresh@, next, calls, id);
    let none = forall|i: int|
        0 <= i < calls.len() ==> !((#[trigger] calls[i]) is Sets && calls[i]->Sets_0.id == id);
    let before = old(state)@;
    if !none && r.initial@.fields.contains_key(name) {
        let k = choose|k: int|
            0 <= k < calls.len() && (#[trigger] calls[k]) is Sets && calls[k]->Sets_0.id == id
                && calls[k]->Sets_0.fields == before.registrations[id].fields;
        assert(sets_field(calls[k], id, name, r.initial@.fields[name]));
    }
}

} // verus!
