use vstd::prelude::*;

verus! {

/// An item as carried by assets, markets and bills of material. A plain
/// item has `runs == 0`, `me == 0`, `te == 0`. A blueprint original has
/// `runs == -1`; a blueprint copy has `runs > 0`. For blueprints, `me` and
/// `te` are the researched efficiency levels, and the remaining run count
/// is part of the item's identity.
#[derive(Debug, Clone, Copy, PartialEq, Eq, Hash, Structural)]
pub struct Item {
    pub type_id: u32,
    pub runs: i16,
    pub me: i8,
    pub te: i8,
}

impl Item {
    /// A plain, non-blueprint item.
    pub fn new(type_id: u32) -> (r: Item)
        ensures
            r == (Item { type_id, runs: 0i16, me: 0i8, te: 0i8 }),
    {
        Item { type_id, runs: 0, me: 0, te: 0 }
    }

    pub fn new_blueprint(type_id: u32, runs: i16, me: i8, te: i8) -> (r: Item)
        ensures
            r == (Item { type_id, runs, me, te }),
    {
        Item { type_id, runs, me, te }
    }

    /// The placeholder item: no real item has type id zero.
    pub fn null() -> (r: Item)
        ensures
            r == (Item { type_id: 0u32, runs: 0i16, me: 0i8, te: 0i8 }),
    {
        Item { type_id: 0, runs: 0, me: 0, te: 0 }
    }

    /// The same type id, stripped of any blueprint identity.
    pub fn into_non_blueprint(self) -> (r: Item)
        ensures
            r == (Item { type_id: self.type_id, runs: 0i16, me: 0i8, te: 0i8 }),
    {
        Item { type_id: self.type_id, runs: 0, me: 0, te: 0 }
    }

    pub fn is_null(&self) -> (r: bool)
        ensures
            r == (self.type_id == 0),
    {
        self.type_id == 0
    }

    pub open spec fn spec_is_blueprint(self) -> bool {
        self.runs != 0
    }

    pub fn is_blueprint(&self) -> (r: bool)
        ensures
            r == self.spec_is_blueprint(),
    {
        self.runs != 0
    }

    /// A consumable blueprint copy.
    pub fn is_bpc(&self) -> (r: bool)
        ensures
            r == (self.runs > 0),
    {
        self.runs > 0
    }

    /// A reusable blueprint original.
    pub fn is_bpo(&self) -> (r: bool)
        ensures
            r == (self.runs == -1),
    {
        self.runs == -1
    }

    pub open spec fn spec_is_marketable(self) -> bool {
        self.runs == 0 || (self.runs == -1 && self.me == 0 && self.te == 0)
    }

    /// Plain items and unresearched blueprint originals trade on the
    /// market; researched blueprints and copies do not.
    pub fn is_marketable(&self) -> (r: bool)
        ensures
            r == self.spec_is_marketable(),
    {
        self.runs == 0 || self.runs == -1 && self.me == 0 && self.te == 0
    }
}

/// What a production line turns into what: the blueprint it consumes or
/// uses, and the product it emits.
#[derive(Debug, Clone, Copy, PartialEq, Eq, Hash, Structural)]
pub struct Transput {
    pub blueprint: Item,
    pub product: Item,
}

impl Transput {
    pub fn new(blueprint: Item, product: Item) -> (r: Transput)
        ensures
            r == (Transput { blueprint, product }),
    {
        Transput { blueprint, product }
    }

    pub fn null() -> (r: Transput)
        ensures
            r.blueprint.type_id == 0 && r.product.type_id == 0,
    {
        Transput { blueprint: Item::null(), product: Item::null() }
    }
}

} // verus!
