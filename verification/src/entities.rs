//! Value types of the world: identifiers, ingredients, pizzas, players,
//! tables and kitchen fixtures. All geometry is milli-unit fixed point.

use vstd::prelude::*;
use crate::math::Vec2i;

verus! {

/// Top speed a player steers toward, in milli-units per second.
pub const SPEED: i64 = 6000;

/// Bound on the per-second change of velocity, in milli-units per second.
pub const ACCELERATION: i64 = 50000;

/// Radius of every player circle, in milli-units.
pub const PLAYER_RADIUS: i64 = 500;

/// Unique handle of a player, never reused for the life of the world.
#[derive(Clone, Copy, Debug, PartialEq, Eq, Hash)]
pub struct Id(usize);

impl View for Id {
    type V = usize;

    closed spec fn view(&self) -> usize {
        self.0
    }
}

impl Id {
    /// The identifier as its underlying counter value.
    pub fn raw(&self) -> (r: usize)
        ensures
            r == self@,
    {
        self.0
    }
}

/// Issues unique, monotonically increasing identifiers; the sole source
/// of `Id` values.
#[derive(Clone, Copy, Debug)]
pub struct IdGen {
    next_id: usize,
}

impl IdGen {
    /// The counter value the next issued identifier will carry.
    pub closed spec fn next(&self) -> usize {
        self.next_id
    }

    /// A fresh allocator whose first identifier is the zero counter value.
    pub fn new() -> (g: Self)
        ensures
            g.next() == 0,
    {
        IdGen { next_id: 0 }
    }

    /// Issues the next identifier: strictly greater than every one issued
    /// before, so never a repeat.
    pub fn gen(&mut self) -> (id: Id)
        requires
            old(self).next() < usize::MAX,
        ensures
            id@ == old(self).next(),
            final(self).next() == old(self).next() + 1,
    {
        let id = Id(self.next_id);
        self.next_id += 1;
        id
    }
}

/// One of the four things a pizza can carry and a table can ask for.
#[derive(Clone, Copy, Debug, PartialEq, Eq, Hash)]
pub enum Ingredient {
    Cheese,
    Tomato,
    Cucumber,
    Pepperoni,
}

/// An RGB colour with milli-scaled channels (1000 is full intensity).
#[derive(Clone, Copy, Debug, PartialEq, Eq)]
pub struct Color {
    pub r: i64,
    pub g: i64,
    pub b: i64,
}

/// The colour each ingredient is drawn with.
pub open spec fn ingredient_color(i: Ingredient) -> Color {
    match i {
        Ingredient::Cheese => Color { r: 1000, g: 1000, b: 0 },
        Ingredient::Tomato => Color { r: 1000, g: 0, b: 0 },
        Ingredient::Cucumber => Color { r: 0, g: 1000, b: 0 },
        Ingredient::Pepperoni => Color { r: 1000, g: 500, b: 0 },
    }
}

impl Ingredient {
    /// Every ingredient, once each, in a fixed order.
    pub fn all() -> (v: Vec<Ingredient>)
        ensures
            v@ == seq![
                Ingredient::Cheese,
                Ingredient::Tomato,
                Ingredient::Cucumber,
                Ingredient::Pepperoni,
            ],
    {
        let mut v: Vec<Ingredient> = Vec::new();
        v.push(Ingredient::Cheese);
        v.push(Ingredient::Tomato);
        v.push(Ingredient::Cucumber);
        v.push(Ingredient::Pepperoni);
        proof {
            assert(v@ =~= seq![
                Ingredient::Cheese,
                Ingredient::Tomato,
                Ingredient::Cucumber,
                Ingredient::Pepperoni,
            ]);
        }
        v
    }

    /// The colour the ingredient is drawn with.
    pub fn color(self) -> (c: Color)
        ensures
            c == ingredient_color(self),
    {
        match self {
            Ingredient::Cheese => Color { r: 1000, g: 1000, b: 0 },
            Ingredient::Tomato => Color { r: 1000, g: 0, b: 0 },
            Ingredient::Cucumber => Color { r: 0, g: 1000, b: 0 },
            Ingredient::Pepperoni => Color { r: 1000, g: 500, b: 0 },
        }
    }
}

/// An unordered set of distinct ingredients: a table's order, or a
/// pizza's toppings. Viewed as a mathematical set of ingredients.
#[derive(Clone, Copy, Debug, PartialEq, Eq)]
pub struct IngredientSet {
    pub cheese: bool,
    pub tomato: bool,
    pub cucumber: bool,
    pub pepperoni: bool,
}

/// The set of ingredients a table currently requests.
pub type Order = IngredientSet;

impl View for IngredientSet {
    type V = Set<Ingredient>;

    open spec fn view(&self) -> Set<Ingredient> {
        Set::new(|i: Ingredient| self.spec_contains(i))
    }
}

impl IngredientSet {
    /// Whether the given ingredient is in the set.
    pub open spec fn spec_contains(&self, i: Ingredient) -> bool {
        match i {
            Ingredient::Cheese => self.cheese,
            Ingredient::Tomato => self.tomato,
            Ingredient::Cucumber => self.cucumber,
            Ingredient::Pepperoni => self.pepperoni,
        }
    }

    /// The empty set of ingredients.
    pub fn empty() -> (s: Self)
        ensures
            s@ == Set::<Ingredient>::empty(),
    {
        let s = IngredientSet { cheese: false, tomato: false, cucumber: false, pepperoni: false };
        proof {
            assert(s@ =~= Set::<Ingredient>::empty());
        }
        s
    }

    /// Whether the given ingredient is in the set.
    pub fn contains(&self, i: Ingredient) -> (r: bool)
        ensures
            r == self.spec_contains(i),
    {
        match i {
            Ingredient::Cheese => self.cheese,
            Ingredient::Tomato => self.tomato,
            Ingredient::Cucumber => self.cucumber,
            Ingredient::Pepperoni => self.pepperoni,
        }
    }

    /// Adds the given ingredient; adding one already present changes
    /// nothing, as in any set.
    pub fn insert(&mut self, i: Ingredient)
        ensures
            final(self)@ == old(self)@.insert(i),
    {
        match i {
            Ingredient::Cheese => self.cheese = true,
            Ingredient::Tomato => self.tomato = true,
            Ingredient::Cucumber => self.cucumber = true,
            Ingredient::Pepperoni => self.pepperoni = true,
        }
        proof {
            assert(self@ =~= old(self)@.insert(i));
        }
    }
}

/// Whether a pizza has been through the oven yet.
#[derive(Clone, Copy, Debug, PartialEq, Eq, Hash)]
pub enum PizzaState {
    Raw,
    Cooked,
}

/// A pizza carried by exactly one player.
#[derive(Clone, Copy, Debug, PartialEq, Eq)]
pub struct Pizza {
    pub ingredients: IngredientSet,
    pub state: PizzaState,
}

/// A movable circle steered by its owner's input.
#[derive(Clone, Copy, Debug, PartialEq, Eq)]
pub struct Player {
    pub id: Id,
    pub radius: i64,
    pub position: Vec2i,
    pub velocity: Vec2i,
    pub target_velocity: Vec2i,
    pub pizza: Option<Pizza>,
}

impl Player {
    /// A freshly spawned player: a new identifier, at rest at the origin,
    /// carrying nothing.
    pub fn new(id_gen: &mut IdGen) -> (p: Self)
        requires
            old(id_gen).next() < usize::MAX,
        ensures
            final(id_gen).next() == old(id_gen).next() + 1,
            p.id@ == old(id_gen).next(),
            p.radius == PLAYER_RADIUS,
            p.position == (Vec2i { x: 0, y: 0 }),
            p.velocity == (Vec2i { x: 0, y: 0 }),
            p.target_velocity == (Vec2i { x: 0, y: 0 }),
            p.pizza is None,
    {
        Player {
            id: id_gen.gen(),
            radius: PLAYER_RADIUS,
            position: Vec2i { x: 0, y: 0 },
            velocity: Vec2i { x: 0, y: 0 },
            target_velocity: Vec2i { x: 0, y: 0 },
            pizza: None,
        }
    }
}

/// A table: a fixed circle that may seat a player and may hold one
/// active order.
#[derive(Clone, Copy, Debug, PartialEq, Eq)]
pub struct Table {
    pub position: Vec2i,
    pub radius: i64,
    pub person: Option<Id>,
    pub order: Option<Order>,
}

/// What a kitchen fixture is.
#[derive(Clone, Copy, Debug, PartialEq, Eq)]
pub enum KitchenThingType {
    Oven,
    Dough,
    TrashCan,
    IngredientBox(Ingredient),
}

/// A kitchen fixture: a fixed circle, static for the life of the world.
#[derive(Clone, Copy, Debug, PartialEq, Eq)]
pub struct KitchenThing {
    pub position: Vec2i,
    pub radius: i64,
    pub typ: KitchenThingType,
}

} // verus!
