//! Item registry: the item types of the game, by id and by name.

use vstd::prelude::*;

use crate::config::text::str_eq;

verus! {

/// Information about an item type.
#[derive(Debug, Clone)]
pub struct ItemInfo {
    /// Item id.
    pub id: u32,
    /// Item name, such as "minecraft:diamond_sword".
    pub name: String,
    /// Maximum stack size.
    pub max_stack_size: u32,
    /// Whether the item takes damage.
    pub damageable: bool,
    /// Maximum durability, for items that take damage.
    pub max_durability: Option<u32>,
}

/// Item registry. It holds at most one item for each id.
pub struct ItemRegistry {
    items: Vec<ItemInfo>,
}

/// Whether no two items have the same id.
pub open spec fn distinct_ids(items: Seq<ItemInfo>) -> bool {
    forall|i: int, j: int|
        0 <= i < items.len() && 0 <= j < items.len() && i != j ==> (#[trigger] items[i]).id != (
        #[trigger] items[j]).id
}

impl ItemRegistry {
    #[verifier::type_invariant]
    spec fn ids_are_distinct(self) -> bool {
        distinct_ids(self.items@)
    }

    /// The registered items, in the order in which their ids were first
    /// registered.
    pub closed spec fn view(&self) -> Seq<ItemInfo> {
        self.items@
    }

    /// Whether an item with the given id is registered.
    pub open spec fn has_id(&self, id: u32) -> bool {
        exists|i: int| 0 <= i < self.view().len() && (#[trigger] self.view()[i]).id == id
    }

    /// Whether an item with the given name is registered.
    pub open spec fn has_name(&self, name: Seq<char>) -> bool {
        exists|i: int| 0 <= i < self.view().len() && (#[trigger] self.view()[i]).name@ == name
    }

    /// A registry without items.
    pub fn empty() -> (r: Self)
        ensures
            r.view().len() == 0,
    {
        Self { items: Vec::new() }
    }

    /// A registry with the default items: stone, diamond sword and bread.
    pub fn new() -> (r: Self)
        ensures
            r.view().len() == 3,
            r.view()[0].id == 1 && r.view()[0].name@ == "minecraft:stone"@,
            r.view()[1].id == 276 && r.view()[1].name@ == "minecraft:diamond_sword"@,
            r.view()[2].id == 364 && r.view()[2].name@ == "minecraft:bread"@,
    {
        let mut registry = Self::empty();
        registry.register_default_items();
        registry
    }

    /// The place of the item with the given id.
    fn find_id(&self, id: u32) -> (r: Option<usize>)
        ensures
            match r {
                Some(i) => i < self.view().len() && self.view()[i as int].id == id,
                None => !self.has_id(id),
            },
    {
        let mut i: usize = 0;
        while i < self.items.len()
            invariant
                i <= self.items@.len(),
                forall|j: int| 0 <= j < i ==> (#[trigger] self.items@[j]).id != id,
            decreases self.items@.len() - i,
        {
            if self.items[i].id == id {
                return Some(i);
            }
            i = i + 1;
        }
        None
    }

    /// Registers an item. An item with the same id is replaced.
    pub fn register_item(&mut self, info: ItemInfo)
        ensures
            old(self).has_id(info.id) ==> final(self).view().len() == old(self).view().len()
                && exists|i: int|
                0 <= i < old(self).view().len() && (#[trigger] old(self).view()[i]).id == info.id
                    && final(self).view() == old(self).view().update(i, info),
            !old(self).has_id(info.id) ==> final(self).view() == old(self).view().push(info),
            final(self).has_id(info.id),
            forall|id: u32| old(self).has_id(id) ==> final(self).has_id(id),
    {
        proof {
            use_type_invariant(&*self);
        }
        let found = self.find_id(info.id);
        let mut items: Vec<ItemInfo> = Vec::new();
        core::mem::swap(&mut self.items, &mut items);
        let ghost before = items@;
        match found {
            Some(i) => {
                items[i] = info;
                proof {
                    let after = items@;
                    assert forall|a: int, b: int|
                        0 <= a < after.len() && 0 <= b < after.len() && a != b implies (
                    #[trigger] after[a]).id != (#[trigger] after[b]).id by {
                        assert(after[a].id == before[a].id && after[b].id == before[b].id);
                    }
                    assert(after[i as int].id == info.id);
                    assert forall|id: u32| old(self).has_id(id) implies exists|k: int|
                        0 <= k < after.len() && (#[trigger] after[k]).id == id by {
                        let k = choose|k: int| 0 <= k < before.len() && (#[trigger] before[k]).id == id;
                        assert(after[k].id == id);
                    }
                }
            },
            None => {
                items.push(info);
                proof {
                    let after = items@;
                    let last = after.len() - 1;
                    assert forall|a: int, b: int|
                        0 <= a < after.len() && 0 <= b < after.len() && a != b implies (
                    #[trigger] after[a]).id != (#[trigger] after[b]).id by {
                        if a < last {
                            assert(after[a] == before[a]);
                        }
                        if b < last {
                            assert(after[b] == before[b]);
                        }
                    }
                    assert(after[last].id == info.id);
                    assert forall|id: u32| old(self).has_id(id) implies exists|k: int|
                        0 <= k < after.len() && (#[trigger] after[k]).id == id by {
                        let k = choose|k: int| 0 <= k < before.len() && (#[trigger] before[k]).id == id;
                        assert(after[k] == before[k]);
                    }
                }
            },
        }
        self.items = items;
    }

    /// The item with the given id.
    pub fn get_item(&self, id: u32) -> (r: Option<&ItemInfo>)
        ensures
            match r {
                Some(info) => info.id == id && exists|i: int|
                    0 <= i < self.view().len() && #[trigger] self.view()[i] == *info,
                None => !self.has_id(id),
            },
    {
        match self.find_id(id) {
            Some(i) => Some(&self.items[i]),
            None => None,
        }
    }

    /// The id of the item that was registered last under the given name.
    pub fn get_item_id(&self, name: &str) -> (r: Option<u32>)
        ensures
            match r {
                Some(id) => exists|i: int|
                    0 <= i < self.view().len() && (#[trigger] self.view()[i]).name@ == name@
                        && self.view()[i].id == id && forall|j: int|
                        i < j < self.view().len() ==> (#[trigger] self.view()[j]).name@ != name@,
                None => !self.has_name(name@),
            },
    {
        let mut i: usize = self.items.len();
        while i > 0
            invariant
                i <= self.items@.len(),
                forall|j: int| i <= j < self.items@.len() ==> (#[trigger] self.items@[j]).name@
                    != name@,
            decreases i,
        {
            i = i - 1;
            if str_eq(self.items[i].name.as_str(), name) {
                assert(self.view()[i as int].name@ == name@);
                return Some(self.items[i].id);
            }
        }
        None
    }

    /// All registered items.
    pub fn all_items(&self) -> (items: &Vec<ItemInfo>)
        ensures
            items@ == self.view(),
    {
        &self.items
    }

    /// The number of registered items.
    pub fn item_count(&self) -> (n: usize)
        ensures
            n == self.view().len(),
    {
        self.items.len()
    }

    /// Registers the default items: stone, diamond sword and bread.
    pub fn register_default_items(&mut self)
        ensures
            old(self).view().len() == 0 ==> {
                &&& final(self).view().len() == 3
                &&& final(self).view()[0].id == 1 && final(self).view()[0].name@
                    == "minecraft:stone"@
                &&& final(self).view()[1].id == 276 && final(self).view()[1].name@
                    == "minecraft:diamond_sword"@
                &&& final(self).view()[2].id == 364 && final(self).view()[2].name@
                    == "minecraft:bread"@
            },
            final(self).has_id(1) && final(self).has_id(276) && final(self).has_id(364),
    {
        self.register_item(
            ItemInfo {
                id: 1,
                name: "minecraft:stone".to_string(),
                max_stack_size: 64,
                damageable: false,
                max_durability: None,
            },
        );
        self.register_item(
            ItemInfo {
                id: 276,
                name: "minecraft:diamond_sword".to_string(),
                max_stack_size: 1,
                damageable: true,
                max_durability: Some(1561),
            },
        );
        proof {
            let v = self.view();
            assert(old(self).view().len() == 0 ==> v.len() == 2 && v[0].id == 1 && v[1].id == 276);
        }
        self.register_item(
            ItemInfo {
                id: 364,
                name: "minecraft:bread".to_string(),
                max_stack_size: 64,
                damageable: false,
                max_durability: None,
            },
        );
    }
}

impl Default for ItemRegistry {
    fn default() -> (r: Self)
        ensures
            r.view().len() == 3,
    {
        Self::new()
    }
}

} // verus!
