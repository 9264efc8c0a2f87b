//! The aggregate world state and its single reducer. Every mutation of the
//! world is one event applied through the reducer, whether produced by the
//! periodic order tick, a join or leave, or an inbound client message; a
//! replica applying the same events in the same order reaches the same
//! world.

use vstd::prelude::*;
use vstd::pervasive::VecAdditionalExecFns;
use rand::Rng;
use crate::entities::{Id, IdGen, Ingredient, IngredientSet, KitchenThing, KitchenThingType,
    Order, Player, Table, PLAYER_RADIUS};
use crate::math::{Vec2i, MILLI};

verus! {

/// Simulation steps per second a world is created with.
pub const TICKS_PER_SECOND: u64 = 20;

/// Milliseconds between two order replenishments.
pub const ORDER_INTERVAL: i64 = 5000;

/// One state change of the world: the unit of replication between the
/// server and its clients. `Order` addresses a table by its index in the
/// fixed table sequence; players are addressed by identifier. The protocol
/// is meant to grow by new kinds here (an order being fulfilled, say), with
/// older reducers ignoring what they do not know rather than rejecting it.
#[derive(Clone, Copy, Debug, PartialEq)]
pub enum Event {
    PlayerJoined(Player),
    PlayerUpdated(Player),
    PlayerLeft(Id),
    Order(usize, Option<Order>),
}

/// An inbound client intent: the one defined kind wraps an event the
/// client asserts, which the reducer trusts and echoes.
#[derive(Clone, Copy, Debug)]
pub enum ClientMessage {
    Event(Event),
}

/// The reply to a newly joined participant: a full snapshot of the world
/// plus the identifier of the player the participant now controls.
pub struct WelcomeMessage {
    pub player_id: Id,
    pub model: Model,
}

/// The aggregate world: the identifier allocator, the simulation clock
/// state, and all entities. Players are keyed by identifier; tables and
/// kitchen fixtures are fixed sequences addressed by position.
#[derive(Debug)]
pub struct Model {
    pub id_gen: IdGen,
    pub ticks_per_second: u64,
    pub next_order: i64,
    pub players: Vec<Player>,
    pub tables: Vec<Table>,
    pub kitchen: Vec<KitchenThing>,
}

/// The effect of upserting player `p` into the player list `pre`: the
/// entry carrying `p`'s identifier is replaced, or `p` is appended when
/// that identifier is absent.
pub open spec fn upserted(pre: Seq<Player>, post: Seq<Player>, p: Player) -> bool {
    if exists|i: int| 0 <= i < pre.len() && (#[trigger] pre[i]).id@ == p.id@ {
        exists|i: int|
            0 <= i < pre.len() && (#[trigger] pre[i]).id@ == p.id@ && post == pre.update(i, p)
    } else {
        post == pre.push(p)
    }
}

/// The effect of removing the player with identifier `k` from `pre`: its
/// entry leaves the list and all others keep their order; removing an
/// absent identifier changes nothing.
pub open spec fn removed(pre: Seq<Player>, post: Seq<Player>, k: usize) -> bool {
    if exists|i: int| 0 <= i < pre.len() && (#[trigger] pre[i]).id@ == k {
        exists|i: int| 0 <= i < pre.len() && (#[trigger] pre[i]).id@ == k && post == pre.remove(i)
    } else {
        post == pre
    }
}

/// The player a join creates: a fresh identifier, at rest at the origin,
/// carrying nothing.
pub open spec fn fresh_player(p: Player, id_val: usize) -> bool {
    &&& p.id@ == id_val
    &&& p.radius == PLAYER_RADIUS
    &&& p.position == (Vec2i { x: 0, y: 0 })
    &&& p.velocity == (Vec2i { x: 0, y: 0 })
    &&& p.target_velocity == (Vec2i { x: 0, y: 0 })
    &&& p.pizza is None
}

/// Every table currently holds an active order.
pub open spec fn all_tables_ordered(tables: Seq<Table>) -> bool {
    forall|i: int| 0 <= i < tables.len() ==> (#[trigger] tables[i]).order is Some
}

/// The table sequence `pre` with the order of table `idx` set to `o`.
pub open spec fn order_set(pre: Seq<Table>, idx: int, o: IngredientSet) -> Seq<Table> {
    pre.update(idx, Table { order: Some(o), ..pre[idx] })
}

/// Exactly one replenishment happened: some table that had no order was
/// given one, everything else stands, and the one emitted event records it.
pub open spec fn one_order_emitted(pre: Seq<Table>, post: Seq<Table>, events: Seq<Event>) -> bool {
    exists|idx: int, o: IngredientSet|
        #![trigger order_set(pre, idx, o)]
        0 <= idx < pre.len() && pre[idx].order is None && events == seq![
            Event::Order(idx as usize, Some(o)),
        ] && post == order_set(pre, idx, o)
}

/// The reducer's effect: how applying one event takes the world from
/// `pre` to `post`.
pub open spec fn applied(pre: Model, post: Model, event: Event) -> bool {
    &&& post.next_id() == pre.next_id()
    &&& post.ticks_per_second == pre.ticks_per_second
    &&& post.next_order == pre.next_order
    &&& post.kitchen@ == pre.kitchen@
    &&& match event {
        Event::PlayerJoined(p) => upserted(pre.players@, post.players@, p) && post.tables@
            == pre.tables@,
        Event::PlayerUpdated(p) => upserted(pre.players@, post.players@, p) && post.tables@
            == pre.tables@,
        Event::PlayerLeft(id) => removed(pre.players@, post.players@, id@) && post.tables@
            == pre.tables@,
        Event::Order(idx, order) => post.players@ == pre.players@ && post.tables@
            == pre.tables@.update(idx as int, Table { order, ..pre.tables@[idx as int] }),
    }
}

/// Relies on rand's `Rng::gen_range` over `0..n`: a uniform draw strictly
/// below `n`. The call panics only on an empty range, which `n >= 1` rules
/// out; nothing is promised about which value comes back.
#[verifier::external_body]
fn rand_index(n: usize) -> (r: usize)
    requires
        n >= 1,
    ensures
        r < n,
{
    rand::thread_rng().gen_range(0..n)
}

/// Relies on rand's `random::<bool>()`: one fair random bit. Nothing can
/// be promised of its outcome.
#[verifier::external_body]
fn rand_flag() -> (r: bool) {
    rand::random::<bool>()
}

/// A fresh vector with the same contents, for taking snapshots.
fn copy_vec<T: Copy>(v: &Vec<T>) -> (r: Vec<T>)
    ensures
        r@ == v@,
{
    let mut r: Vec<T> = Vec::new();
    let mut i: usize = 0;
    while i < v.len()
        invariant
            i <= v@.len(),
            r@ == v@.subrange(0, i as int),
        decreases v@.len() - i,
    {
        r.push(v[i]);
        proof {
            assert(v@.subrange(0, i as int).push(v@[i as int]) =~= v@.subrange(0, i + 1 as int));
        }
        i += 1;
    }
    proof {
        assert(v@.subrange(0, v@.len() as int) =~= v@);
    }
    r
}

impl Model {
    /// The counter value of the next identifier the world will issue.
    pub open spec fn next_id(&self) -> usize {
        self.id_gen.next()
    }

    /// The player list is sound: player identifiers are unique, so the
    /// list is a mapping from identifier to player.
    pub open spec fn players_wf(&self) -> bool {
        forall|i: int, j: int|
            0 <= i < j < self.players@.len() ==> (#[trigger] self.players@[i]).id@ != (
            #[trigger] self.players@[j]).id@
    }

    /// Well-formedness of the whole world: a sound player list, a positive
    /// tick rate, and an order timer inside one replenishment interval —
    /// in particular the timer is never negative between ticks.
    pub open spec fn wf(&self) -> bool {
        &&& self.players_wf()
        &&& self.ticks_per_second >= 1
        &&& 0 <= self.next_order <= ORDER_INTERVAL
    }

    /// Whether an event may reach the reducer: an order event must address
    /// an existing table — an out-of-range index is a protocol violation
    /// and fatal, never tolerated. Every other event is admissible, so a
    /// replica can apply a received log without further knowledge.
    pub open spec fn event_admissible(&self, event: Event) -> bool {
        match event {
            Event::Order(idx, _) => idx < self.tables@.len(),
            _ => true,
        }
    }

    /// Replaces the entry with `p`'s identifier, or appends `p`.
    fn upsert_player(&mut self, p: Player)
        requires
            old(self).players_wf(),
        ensures
            final(self).players_wf(),
            upserted(old(self).players@, final(self).players@, p),
            final(self).tables@ == old(self).tables@,
            final(self).kitchen@ == old(self).kitchen@,
            final(self).next_id() == old(self).next_id(),
            final(self).next_order == old(self).next_order,
            final(self).ticks_per_second == old(self).ticks_per_second,
    {
        let pid = p.id.raw();
        let n = self.players.len();
        let mut i: usize = 0;
        while i < n
            invariant
                old(self).players_wf(),
                pid == p.id@,
                n == self.players@.len(),
                i <= n,
                self.players@ == old(self).players@,
                self.tables@ == old(self).tables@,
                self.kitchen@ == old(self).kitchen@,
                self.next_id() == old(self).next_id(),
                self.next_order == old(self).next_order,
                self.ticks_per_second == old(self).ticks_per_second,
                forall|j: int| 0 <= j < i ==> (#[trigger] old(self).players@[j]).id@ != p.id@,
            decreases n - i,
        {
            if self.players[i].id.raw() == pid {
                self.players.set(i, p);
                proof {
                    assert forall|x: int| 0 <= x < self.players@.len() implies (
                    #[trigger] self.players@[x]).id@ == old(self).players@[x].id@ by {
                        if x != i as int {
                            assert(self.players@[x] == old(self).players@[x]);
                        }
                    }
                    assert(upserted(old(self).players@, self.players@, p));
                }
                return ;
            }
            i += 1;
        }
        self.players.push(p);
    }

    /// Removes the entry with identifier `player_id`; absent is a no-op.
    fn remove_player(&mut self, player_id: Id)
        requires
            old(self).players_wf(),
        ensures
            final(self).players_wf(),
            removed(old(self).players@, final(self).players@, player_id@),
            final(self).tables@ == old(self).tables@,
            final(self).kitchen@ == old(self).kitchen@,
            final(self).next_id() == old(self).next_id(),
            final(self).next_order == old(self).next_order,
            final(self).ticks_per_second == old(self).ticks_per_second,
    {
        let pid = player_id.raw();
        let n = self.players.len();
        let mut i: usize = 0;
        while i < n
            invariant
                old(self).players_wf(),
                pid == player_id@,
                n == self.players@.len(),
                i <= n,
                self.players@ == old(self).players@,
                self.tables@ == old(self).tables@,
                self.kitchen@ == old(self).kitchen@,
                self.next_id() == old(self).next_id(),
                self.next_order == old(self).next_order,
                self.ticks_per_second == old(self).ticks_per_second,
                forall|j: int| 0 <= j < i ==> (#[trigger] old(self).players@[j]).id@ != player_id@,
            decreases n - i,
        {
            if self.players[i].id.raw() == pid {
                self.players.remove(i);
                proof {
                    assert forall|a: int, b: int|
                        0 <= a < b < self.players@.len() implies (
                    #[trigger] self.players@[a]).id@ != (#[trigger] self.players@[b]).id@ by {
                        let a0: int = if a < i as int {
                            a
                        } else {
                            a + 1
                        };
                        let b0: int = if b < i as int {
                            b
                        } else {
                            b + 1
                        };
                        assert(self.players@[a] == old(self).players@[a0]);
                        assert(self.players@[b] == old(self).players@[b0]);
                    }
                    assert(removed(old(self).players@, self.players@, player_id@));
                }
                return ;
            }
            i += 1;
        }
    }

    /// Applies one event to the world. The sole writer of world state: the
    /// tick engine, the join and leave protocol and the message handler
    /// all funnel their events through here, on the server and on every
    /// replica alike.
    pub fn handle_impl(&mut self, event: Event)
        requires
            old(self).wf(),
            old(self).event_admissible(event),
        ensures
            final(self).wf(),
            applied(*old(self), *final(self), event),
            // Removing an already-absent identifier changes no state at all.
            match event {
                Event::PlayerLeft(id) => (forall|i: int|
                    0 <= i < old(self).players@.len() ==> (#[trigger] old(self).players@[i]).id@
                        != id@) ==> final(self).players@ == old(self).players@,
                _ => true,
            },
    {
        match event {
            Event::PlayerJoined(player) => self.upsert_player(player),
            Event::PlayerUpdated(player) => self.upsert_player(player),
            Event::PlayerLeft(player_id) => self.remove_player(player_id),
            Event::Order(table_index, order) => {
                let mut t = self.tables[table_index];
                t.order = order;
                self.tables.set(table_index, t);
            },
        }
    }

    /// Applies one replicated event; see `handle_impl`.
    pub fn handle(&mut self, event: Event)
        requires
            old(self).wf(),
            old(self).event_admissible(event),
        ensures
            final(self).wf(),
            applied(*old(self), *final(self), event),
    {
        self.handle_impl(event);
    }

    /// A new world: a fresh allocator, the timer about to replenish, no
    /// players, and the fixed table grid and kitchen layout.
    pub fn new() -> (m: Model)
        ensures
            m.wf(),
            m.next_id() == 0,
            m.ticks_per_second == TICKS_PER_SECOND,
            m.next_order == 0,
            m.players@ == Seq::<Player>::empty(),
            m.tables@ == initial_tables(),
            m.kitchen@ == initial_kitchen(),
    {
        let mut tables: Vec<Table> = Vec::new();
        push_table(&mut tables, -10000, -10000);
        push_table(&mut tables, -10000, -5000);
        push_table(&mut tables, -5000, -10000);
        push_table(&mut tables, -5000, -5000);
        push_table(&mut tables, 0, -10000);
        push_table(&mut tables, 0, -5000);
        push_table(&mut tables, 5000, -10000);
        push_table(&mut tables, 5000, -5000);
        push_table(&mut tables, 10000, -10000);
        push_table(&mut tables, 10000, -5000);
        let mut kitchen: Vec<KitchenThing> = Vec::new();
        push_fixture(&mut kitchen, -2000, 2000, 800, KitchenThingType::Dough);
        push_fixture(&mut kitchen, 7000, 5000, 700, KitchenThingType::TrashCan);
        push_fixture(&mut kitchen, 7000, 2000, 1000, KitchenThingType::Oven);
        push_fixture(&mut kitchen, 0, 5000, 700, KitchenThingType::IngredientBox(Ingredient::Cheese));
        push_fixture(
            &mut kitchen,
            1500,
            5000,
            700,
            KitchenThingType::IngredientBox(Ingredient::Tomato),
        );
        push_fixture(
            &mut kitchen,
            3000,
            5000,
            700,
            KitchenThingType::IngredientBox(Ingredient::Cucumber),
        );
        push_fixture(
            &mut kitchen,
            4500,
            5000,
            700,
            KitchenThingType::IngredientBox(Ingredient::Pepperoni),
        );
        proof {
            assert(tables@ =~= initial_tables());
            assert(kitchen@ =~= initial_kitchen());
        }
        Model {
            id_gen: IdGen::new(),
            ticks_per_second: TICKS_PER_SECOND,
            next_order: 0,
            players: Vec::new(),
            tables,
            kitchen,
        }
    }

    /// A full copy of the world as it stands, for a join response.
    fn snapshot(&self) -> (m: Model)
        ensures
            m.players@ == self.players@,
            m.tables@ == self.tables@,
            m.kitchen@ == self.kitchen@,
            m.next_order == self.next_order,
            m.ticks_per_second == self.ticks_per_second,
            m.next_id() == self.next_id(),
    {
        Model {
            id_gen: self.id_gen,
            ticks_per_second: self.ticks_per_second,
            next_order: self.next_order,
            players: copy_vec(&self.players),
            tables: copy_vec(&self.tables),
            kitchen: copy_vec(&self.kitchen),
        }
    }

    /// Creates a fresh player, applies its join event, and returns the new
    /// identifier and the event for broadcast.
    #[must_use]
    fn spawn_player(&mut self) -> (r: (Id, Vec<Event>))
        requires
            old(self).wf(),
            old(self).next_id() < usize::MAX,
        ensures
            final(self).wf(),
            final(self).next_id() == old(self).next_id() + 1,
            r.1@.len() == 1,
            match r.1@[0] {
                Event::PlayerJoined(p) => fresh_player(p, old(self).next_id()) && upserted(
                    old(self).players@,
                    final(self).players@,
                    p,
                ) && r.0 == p.id,
                _ => false,
            },
            final(self).tables@ == old(self).tables@,
            final(self).kitchen@ == old(self).kitchen@,
            final(self).next_order == old(self).next_order,
            final(self).ticks_per_second == old(self).ticks_per_second,
    {
        let player = Player::new(&mut self.id_gen);
        let mut events: Vec<Event> = Vec::new();
        events.push(Event::PlayerJoined(player));
        let player_id = player.id;
        proof {
            assert(events@ =~= seq![Event::PlayerJoined(player)]);
        }
        self.handle_impl(Event::PlayerJoined(player));
        (player_id, events)
    }

    /// Serves a joining participant: spawns its player and returns the full
    /// snapshot, the assigned identifier, and the join event for broadcast
    /// to all other observers. The only player-creation point.
    #[must_use]
    pub fn welcome(&mut self) -> (r: (WelcomeMessage, Vec<Event>))
        requires
            old(self).wf(),
            old(self).next_id() < usize::MAX,
        ensures
            final(self).wf(),
            final(self).next_id() == old(self).next_id() + 1,
            r.1@.len() == 1,
            match r.1@[0] {
                Event::PlayerJoined(p) => fresh_player(p, old(self).next_id()) && upserted(
                    old(self).players@,
                    final(self).players@,
                    p,
                ) && r.0.player_id == p.id,
                _ => false,
            },
            final(self).tables@ == old(self).tables@,
            final(self).kitchen@ == old(self).kitchen@,
            final(self).next_order == old(self).next_order,
            final(self).ticks_per_second == old(self).ticks_per_second,
            // the snapshot is the world exactly as it stands after the join
            r.0.model.players@ == final(self).players@,
            r.0.model.tables@ == final(self).tables@,
            r.0.model.kitchen@ == final(self).kitchen@,
            r.0.model.next_order == final(self).next_order,
            r.0.model.ticks_per_second == final(self).ticks_per_second,
            r.0.model.next_id() == final(self).next_id(),
    {
        let (player_id, events) = self.spawn_player();
        let snapshot = self.snapshot();
        (WelcomeMessage { player_id, model: snapshot }, events)
    }

    /// Serves a leaving participant: removes its player — an identifier
    /// already absent is a no-op — and returns the leave event for
    /// broadcast. The only player-destruction point.
    #[must_use]
    pub fn drop_player(&mut self, player_id: Id) -> (events: Vec<Event>)
        requires
            old(self).wf(),
        ensures
            final(self).wf(),
            applied(*old(self), *final(self), Event::PlayerLeft(player_id)),
            events@ == seq![Event::PlayerLeft(player_id)],
            (forall|i: int|
                0 <= i < old(self).players@.len() ==> (#[trigger] old(self).players@[i]).id@
                    != player_id@) ==> final(self).players@ == old(self).players@,
    {
        self.handle_impl(Event::PlayerLeft(player_id));
        let mut events: Vec<Event> = Vec::new();
        events.push(Event::PlayerLeft(player_id));
        proof {
            assert(events@ =~= seq![Event::PlayerLeft(player_id)]);
        }
        events
    }

    /// Handles one inbound intent from the client with `player_id`: the
    /// asserted event is applied through the reducer and also returned, for
    /// replication to all other observers. The client is deliberately
    /// trusted: its event is echoed as it stands.
    #[must_use]
    pub fn handle_message(&mut self, player_id: Id, message: ClientMessage) -> (events: Vec<
        Event,
    >)
        requires
            old(self).wf(),
            match message {
                ClientMessage::Event(e) => old(self).event_admissible(e),
            },
        ensures
            final(self).wf(),
            match message {
                ClientMessage::Event(e) => applied(*old(self), *final(self), e) && events@
                    == seq![e],
            },
    {
        let mut events: Vec<Event> = Vec::new();
        match message {
            ClientMessage::Event(event) => {
                self.handle_impl(event);
                events.push(event);
                proof {
                    assert(events@ =~= seq![event]);
                }
            },
        }
        events
    }

    /// The indices of the tables that currently have no active order.
    fn eligible_tables(&self) -> (v: Vec<usize>)
        ensures
            forall|k: int|
                0 <= k < v@.len() ==> (#[trigger] v@[k]) < self.tables@.len()
                    && self.tables@[v@[k] as int].order is None,
            (v@.len() == 0) <==> all_tables_ordered(self.tables@),
    {
        let mut v: Vec<usize> = Vec::new();
        let n = self.tables.len();
        let mut i: usize = 0;
        while i < n
            invariant
                n == self.tables@.len(),
                i <= n,
                forall|k: int|
                    0 <= k < v@.len() ==> (#[trigger] v@[k]) < self.tables@.len()
                        && self.tables@[v@[k] as int].order is None,
                v@.len() == 0 ==> (forall|j: int|
                    0 <= j < i ==> (#[trigger] self.tables@[j]).order is Some),
            decreases n - i,
        {
            if self.tables[i].order.is_none() {
                v.push(i);
            }
            i += 1;
        }
        proof {
            if v@.len() > 0 && all_tables_ordered(self.tables@) {
                assert(self.tables@[v@[0] as int].order is None);
                assert(self.tables@[v@[0] as int].order is Some);
            }
        }
        v
    }

    /// One discrete simulation step: the order timer falls by the step
    /// length, and whenever it expires it is replenished by a full interval
    /// and one table without an order — picked at random among them — is
    /// given a freshly rolled order, each ingredient included on a fair
    /// coin. Every emitted event is applied here and returned for
    /// broadcast; with all tables already ordering, a cycle emits nothing.
    #[must_use]
    pub fn tick(&mut self) -> (events: Vec<Event>)
        requires
            old(self).wf(),
        ensures
            final(self).wf(),
            final(self).players@ == old(self).players@,
            final(self).kitchen@ == old(self).kitchen@,
            final(self).next_id() == old(self).next_id(),
            final(self).ticks_per_second == old(self).ticks_per_second,
            ({
                let due = old(self).next_order - tick_dt(old(self).ticks_per_second);
                &&& (due >= 0 ==> final(self).next_order == due && events@ == Seq::<Event>::empty()
                    && final(self).tables@ == old(self).tables@)
                &&& (due < 0 ==> final(self).next_order == due + ORDER_INTERVAL && (
                if all_tables_ordered(old(self).tables@) {
                    events@ == Seq::<Event>::empty() && final(self).tables@ == old(self).tables@
                } else {
                    one_order_emitted(old(self).tables@, final(self).tables@, events@)
                }))
            }),
    {
        let mut events: Vec<Event> = Vec::new();
        let tps = self.ticks_per_second;
        let dt = (MILLI as u64) / tps;
        proof {
            assert(dt <= 1000) by (nonlinear_arith)
                requires
                    dt == 1000u64 / tps,
                    tps >= 1u64,
            ;
        }
        self.next_order = self.next_order - (dt as i64);
        let ghost due = self.next_order as int;
        while self.next_order < 0
            invariant
                self.players_wf(),
                self.players@ == old(self).players@,
                self.kitchen@ == old(self).kitchen@,
                self.next_id() == old(self).next_id(),
                self.ticks_per_second == old(self).ticks_per_second,
                self.ticks_per_second >= 1,
                due == old(self).next_order - tick_dt(old(self).ticks_per_second),
                -1000 <= due <= ORDER_INTERVAL,
                (self.next_order == due && events@ == Seq::<Event>::empty() && self.tables@ == old(
                self).tables@) || (due < 0 && self.next_order == due + ORDER_INTERVAL && (
                if all_tables_ordered(old(self).tables@) {
                    events@ == Seq::<Event>::empty() && self.tables@ == old(self).tables@
                } else {
                    one_order_emitted(old(self).tables@, self.tables@, events@)
                })),
            decreases ORDER_INTERVAL - self.next_order,
        {
            self.next_order = self.next_order + ORDER_INTERVAL;
            let eligible = self.eligible_tables();
            if eligible.len() > 0 {
                let pick = rand_index(eligible.len());
                let table_index = eligible[pick];
                let mut order = IngredientSet::empty();
                if rand_flag() {
                    order.insert(Ingredient::Cheese);
                }
                if rand_flag() {
                    order.insert(Ingredient::Tomato);
                }
                if rand_flag() {
                    order.insert(Ingredient::Cucumber);
                }
                if rand_flag() {
                    order.insert(Ingredient::Pepperoni);
                }
                let event = Event::Order(table_index, Some(order));
                self.handle_impl(event);
                events.push(event);
                proof {
                    assert(events@ =~= seq![Event::Order(table_index, Some(order))]);
                    assert(self.tables@ == order_set(
                        old(self).tables@,
                        table_index as int,
                        order,
                    ));
                    assert(one_order_emitted(old(self).tables@, self.tables@, events@));
                }
            }
        }
        events
    }
}

/// The fixed-point step length of one tick, in milliseconds.
pub open spec fn tick_dt(tps: u64) -> int {
    (MILLI as int) / (tps as int)
}

/// Radius of every table circle, in milli-units.
pub const TABLE_RADIUS: i64 = 1000;

/// A table of the initial grid: free, orderless, at the given position.
pub open spec fn start_table(x: i64, y: i64) -> Table {
    Table { position: Vec2i { x, y }, radius: TABLE_RADIUS, person: None, order: None }
}

/// A fixture of the initial kitchen.
pub open spec fn start_fixture(x: i64, y: i64, radius: i64, typ: KitchenThingType) -> KitchenThing {
    KitchenThing { position: Vec2i { x, y }, radius, typ }
}

/// The fixed table grid a world starts with: five columns by two rows,
/// five units apart, one unit radius, unoccupied and without orders.
pub open spec fn initial_tables() -> Seq<Table> {
    seq![
        start_table(-10000i64, -10000i64),
        start_table(-10000i64, -5000i64),
        start_table(-5000i64, -10000i64),
        start_table(-5000i64, -5000i64),
        start_table(0i64, -10000i64),
        start_table(0i64, -5000i64),
        start_table(5000i64, -10000i64),
        start_table(5000i64, -5000i64),
        start_table(10000i64, -10000i64),
        start_table(10000i64, -5000i64),
    ]
}

/// The fixed kitchen a world starts with: dough, trash can, oven, and one
/// box per ingredient.
pub open spec fn initial_kitchen() -> Seq<KitchenThing> {
    seq![
        start_fixture(-2000i64, 2000i64, 800i64, KitchenThingType::Dough),
        start_fixture(7000i64, 5000i64, 700i64, KitchenThingType::TrashCan),
        start_fixture(7000i64, 2000i64, 1000i64, KitchenThingType::Oven),
        start_fixture(0i64, 5000i64, 700i64, KitchenThingType::IngredientBox(Ingredient::Cheese)),
        start_fixture(1500i64, 5000i64, 700i64, KitchenThingType::IngredientBox(Ingredient::Tomato)),
        start_fixture(3000i64, 5000i64, 700i64, KitchenThingType::IngredientBox(Ingredient::Cucumber)),
        start_fixture(4500i64, 5000i64, 700i64, KitchenThingType::IngredientBox(Ingredient::Pepperoni)),
    ]
}

/// Appends one fresh table of the initial grid.
fn push_table(tables: &mut Vec<Table>, x: i64, y: i64)
    ensures
        final(tables)@ == old(tables)@.push(start_table(x, y)),
{
    tables.push(Table { position: Vec2i { x, y }, radius: TABLE_RADIUS, person: None, order: None });
}

/// Appends one fixture of the initial kitchen.
fn push_fixture(kitchen: &mut Vec<KitchenThing>, x: i64, y: i64, radius: i64, typ: KitchenThingType)
    ensures
        final(kitchen)@ == old(kitchen)@.push(start_fixture(x, y, radius, typ)),
{
    kitchen.push(KitchenThing { position: Vec2i { x, y }, radius, typ });
}

/// Law: joining `a`, then joining `b`, then `a` leaving — the same whether
/// the three events are applied one at a time or as one batch in that
/// order — leaves exactly player `b` in an initially empty world, whatever
/// worlds were passed through in between.
pub proof fn lemma_join_join_leave(
    w0: Model,
    w1: Model,
    w2: Model,
    w3: Model,
    a: Player,
    b: Player,
)
    requires
        w0.players@ == Seq::<Player>::empty(),
        a.id@ != b.id@,
        applied(w0, w1, Event::PlayerJoined(a)),
        applied(w1, w2, Event::PlayerJoined(b)),
        applied(w2, w3, Event::PlayerLeft(a.id)),
    ensures
        w3.players@ == seq![b],
        w3.tables@ == w0.tables@,
        w3.kitchen@ == w0.kitchen@,
        w3.next_id() == w0.next_id(),
{
    // joining `a`: the empty list has no entry with `a`'s identifier
    assert(w1.players@ == w0.players@.push(a));
    assert(w1.players@ =~= seq![a]);
    // joining `b`: the only entry carries `a`'s identifier, not `b`'s
    assert forall|i: int| 0 <= i < w1.players@.len() implies (#[trigger] w1.players@[i]).id@
        != b.id@ by {
        assert(w1.players@[i] == a);
    }
    assert(w2.players@ == w1.players@.push(b));
    assert(w2.players@ =~= seq![a, b]);
    // `a` leaves: its entry is the front one, and removing it leaves `b`
    assert(w2.players@[0].id@ == a.id@);
    assert(w2.players@[1].id@ != a.id@);
    assert(w3.players@ == w2.players@.remove(0));
    assert(w2.players@.remove(0) =~= seq![b]);
}

} // verus!
