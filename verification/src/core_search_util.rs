//! The read-only item catalog and its category queries. The catalog is an
//! explicitly constructed value handed into every engine call; the
//! queries return the matching entries in catalog order.

use vstd::prelude::*;

use crate::content::Slot;
use crate::generic_item::{full_name, spec_can_dual_wield, GenericItem, ItemView, UsageType};

verus! {

/// The views of a sequence of items.
pub open spec fn items_view(s: Seq<GenericItem>) -> Seq<ItemView> {
    s.map_values(|i: GenericItem| i@)
}

/// Whether some entry of a collection carries exactly this base name.
pub open spec fn has_item_named(s: Seq<ItemView>, name: Seq<char>) -> bool {
    exists|k: int| 0 <= k < s.len() && (#[trigger] s[k]).name == name
}

/// The three fixed item collections, loaded once and treated as immutable.
pub struct CoreSearchUtil {
    pub tools: Vec<GenericItem>,
    pub consumables: Vec<GenericItem>,
    pub weapons: Vec<GenericItem>,
}

/// What the randomizer observes of the catalog.
pub struct CatalogView {
    pub tools: Seq<ItemView>,
    pub consumables: Seq<ItemView>,
    pub weapons: Seq<ItemView>,
}

impl View for CoreSearchUtil {
    type V = CatalogView;

    open spec fn view(&self) -> CatalogView {
        CatalogView {
            tools: items_view(self.tools@),
            consumables: items_view(self.consumables@),
            weapons: items_view(self.weapons@),
        }
    }
}

/// A catalog entry carries no equipped state: the dual-wield flag is off
/// and no ammunition is attached.
pub open spec fn catalog_item_wf(v: ItemView) -> bool {
    !v.dual_wield && v.ammo_equipped.len() == 0
}

/// A catalog weapon also has a slot size, and a cost whose dual-wield
/// doubling still fits the ledger's range.
pub open spec fn weapon_item_wf(v: ItemView) -> bool {
    catalog_item_wf(v) && v.slot is Some && 2 * v.cost <= 65535
}

impl CatalogView {
    /// A well-formed catalog: every entry is unequipped, and every weapon
    /// has a slot size and a doubling-safe cost.
    pub open spec fn wf(self) -> bool {
        &&& forall|k: int| 0 <= k < self.weapons.len() ==> weapon_item_wf(#[trigger] self.weapons[k])
        &&& forall|k: int| 0 <= k < self.tools.len() ==> catalog_item_wf(#[trigger] self.tools[k])
        &&& forall|k: int|
            0 <= k < self.consumables.len() ==> catalog_item_wf(#[trigger] self.consumables[k])
    }
}

/// The display names of the decoy tools, which cannot be told apart from
/// throwables by their usage types.
pub open spec fn is_decoy_name(s: Seq<char>) -> bool {
    ||| s == "Decoys"@
    ||| s == "Blank Fire Decoys"@
    ||| s == "Decoy Fuses"@
}

/// The display names of the tools in the fixed "others" category.
pub open spec fn is_other_tool_name(s: Seq<char>) -> bool {
    ||| s == "Electric Lamp"@
    ||| s == "Spyglass"@
    ||| s == "Flare Pistol"@
    ||| s == "Quad Derringer"@
}

/// Whether any usage of the item is placeable.
pub open spec fn has_placeable_usage(v: ItemView) -> bool {
    exists|k: int| 0 <= k < v.usage_types.len() && (#[trigger] v.usage_types[k]) is Placeable
}

/// Whether any usage of the item is a throw.
pub open spec fn has_throw_usage(v: ItemView) -> bool {
    exists|k: int| 0 <= k < v.usage_types.len() && (#[trigger] v.usage_types[k]) is Throw
}

/// Whether every usage of the item is a melee strike.
pub open spec fn melee_only_usages(v: ItemView) -> bool {
    forall|k: int|
        0 <= k < v.usage_types.len() ==> ((#[trigger] v.usage_types[k]) is BasicMelee
            || v.usage_types[k] is HeavyMelee)
}

/// A decoy tool: named on the decoy allow-list.
pub open spec fn is_decoy_tool(v: ItemView) -> bool {
    is_decoy_name(full_name(v))
}

/// A trip mine: some usage is placeable.
pub open spec fn is_trip_mine(v: ItemView) -> bool {
    has_placeable_usage(v)
}

/// A melee tool: melee-only usages, and not on the "others" allow-list.
pub open spec fn is_melee_tool(v: ItemView) -> bool {
    melee_only_usages(v) && !is_other_tool_name(full_name(v))
}

/// A throwable: some usage is a throw, and not a decoy.
pub open spec fn is_throwable_tool(v: ItemView) -> bool {
    has_throw_usage(v) && !is_decoy_name(full_name(v))
}

/// An "others" tool: named on the fixed allow-list.
pub open spec fn is_other_tool(v: ItemView) -> bool {
    is_other_tool_name(full_name(v))
}

/// The medkit: the tool named exactly "First Aid Kit".
pub open spec fn is_medkit(v: ItemView) -> bool {
    full_name(v) == "First Aid Kit"@
}

/// The medkit entries of a collection, in order.
pub open spec fn medkits_of(s: Seq<ItemView>) -> Seq<ItemView> {
    s.filter(|v: ItemView| is_medkit(v))
}

/// Whether the item's slot size is one of the given sizes.
pub open spec fn slot_matches(v: ItemView, sizes: Seq<Slot>) -> bool {
    v.slot is Some && sizes.contains(v.slot->Some_0)
}

/// The catalog weapons whose slot size is one of `sizes`, in order.
pub open spec fn weapons_of_sizes(s: Seq<ItemView>, sizes: Seq<Slot>) -> Seq<ItemView> {
    s.filter(|v: ItemView| slot_matches(v, sizes))
}

/// The decoy tools of a collection, in order.
pub open spec fn decoy_tools_of(s: Seq<ItemView>) -> Seq<ItemView> {
    s.filter(|v: ItemView| is_decoy_tool(v))
}

/// The trip mines of a collection, in order.
pub open spec fn trip_mines_of(s: Seq<ItemView>) -> Seq<ItemView> {
    s.filter(|v: ItemView| is_trip_mine(v))
}

/// The melee tools of a collection, in order.
pub open spec fn melee_tools_of(s: Seq<ItemView>) -> Seq<ItemView> {
    s.filter(|v: ItemView| is_melee_tool(v))
}

/// The throwables of a collection, in order.
pub open spec fn throwables_of(s: Seq<ItemView>) -> Seq<ItemView> {
    s.filter(|v: ItemView| is_throwable_tool(v))
}

/// The "others" tools of a collection, in order.
pub open spec fn other_tools_of(s: Seq<ItemView>) -> Seq<ItemView> {
    s.filter(|v: ItemView| is_other_tool(v))
}

/// The dual-wieldable weapons of a collection, in order.
pub open spec fn dual_wieldable_of(s: Seq<ItemView>) -> Seq<ItemView> {
    s.filter(|v: ItemView| spec_can_dual_wield(v))
}

proof fn lemma_weapons_of_sizes_step(s: Seq<ItemView>, sizes: Seq<Slot>, i: int)
    requires
        0 <= i < s.len(),
    ensures
        weapons_of_sizes(s.take(i + 1), sizes) == (if slot_matches(s[i], sizes) {
            weapons_of_sizes(s.take(i), sizes).push(s[i])
        } else {
            weapons_of_sizes(s.take(i), sizes)
        }),
        weapons_of_sizes(s.take(0), sizes) == Seq::<ItemView>::empty(),
{
    reveal(Seq::filter);
    assert(s.take(i + 1).drop_last() =~= s.take(i));
    assert(s.take(i + 1).last() == s[i]);
    assert(s.take(0) =~= Seq::<ItemView>::empty());
    assert(weapons_of_sizes(s.take(0), sizes) =~= Seq::<ItemView>::empty());
}

proof fn lemma_decoy_tools_step(s: Seq<ItemView>, i: int)
    requires
        0 <= i < s.len(),
    ensures
        decoy_tools_of(s.take(i + 1)) == (if is_decoy_tool(s[i]) {
            decoy_tools_of(s.take(i)).push(s[i])
        } else {
            decoy_tools_of(s.take(i))
        }),
        decoy_tools_of(s.take(0)) == Seq::<ItemView>::empty(),
{
    reveal(Seq::filter);
    assert(s.take(i + 1).drop_last() =~= s.take(i));
    assert(s.take(i + 1).last() == s[i]);
    assert(s.take(0) =~= Seq::<ItemView>::empty());
    assert(decoy_tools_of(s.take(0)) =~= Seq::<ItemView>::empty());
}

proof fn lemma_trip_mines_step(s: Seq<ItemView>, i: int)
    requires
        0 <= i < s.len(),
    ensures
        trip_mines_of(s.take(i + 1)) == (if is_trip_mine(s[i]) {
            trip_mines_of(s.take(i)).push(s[i])
        } else {
            trip_mines_of(s.take(i))
        }),
        trip_mines_of(s.take(0)) == Seq::<ItemView>::empty(),
{
    reveal(Seq::filter);
    assert(s.take(i + 1).drop_last() =~= s.take(i));
    assert(s.take(i + 1).last() == s[i]);
    assert(s.take(0) =~= Seq::<ItemView>::empty());
    assert(trip_mines_of(s.take(0)) =~= Seq::<ItemView>::empty());
}

proof fn lemma_melee_tools_step(s: Seq<ItemView>, i: int)
    requires
        0 <= i < s.len(),
    ensures
        melee_tools_of(s.take(i + 1)) == (if is_melee_tool(s[i]) {
            melee_tools_of(s.take(i)).push(s[i])
        } else {
            melee_tools_of(s.take(i))
        }),
        melee_tools_of(s.take(0)) == Seq::<ItemView>::empty(),
{
    reveal(Seq::filter);
    assert(s.take(i + 1).drop_last() =~= s.take(i));
    assert(s.take(i + 1).last() == s[i]);
    assert(s.take(0) =~= Seq::<ItemView>::empty());
    assert(melee_tools_of(s.take(0)) =~= Seq::<ItemView>::empty());
}

proof fn lemma_throwables_step(s: Seq<ItemView>, i: int)
    requires
        0 <= i < s.len(),
    ensures
        throwables_of(s.take(i + 1)) == (if is_throwable_tool(s[i]) {
            throwables_of(s.take(i)).push(s[i])
        } else {
            throwables_of(s.take(i))
        }),
        throwables_of(s.take(0)) == Seq::<ItemView>::empty(),
{
    reveal(Seq::filter);
    assert(s.take(i + 1).drop_last() =~= s.take(i));
    assert(s.take(i + 1).last() == s[i]);
    assert(s.take(0) =~= Seq::<ItemView>::empty());
    assert(throwables_of(s.take(0)) =~= Seq::<ItemView>::empty());
}

proof fn lemma_other_tools_step(s: Seq<ItemView>, i: int)
    requires
        0 <= i < s.len(),
    ensures
        other_tools_of(s.take(i + 1)) == (if is_other_tool(s[i]) {
            other_tools_of(s.take(i)).push(s[i])
        } else {
            other_tools_of(s.take(i))
        }),
        other_tools_of(s.take(0)) == Seq::<ItemView>::empty(),
{
    reveal(Seq::filter);
    assert(s.take(i + 1).drop_last() =~= s.take(i));
    assert(s.take(i + 1).last() == s[i]);
    assert(s.take(0) =~= Seq::<ItemView>::empty());
    assert(other_tools_of(s.take(0)) =~= Seq::<ItemView>::empty());
}

proof fn lemma_dual_wieldable_step(s: Seq<ItemView>, i: int)
    requires
        0 <= i < s.len(),
    ensures
        dual_wieldable_of(s.take(i + 1)) == (if spec_can_dual_wield(s[i]) {
            dual_wieldable_of(s.take(i)).push(s[i])
        } else {
            dual_wieldable_of(s.take(i))
        }),
        dual_wieldable_of(s.take(0)) == Seq::<ItemView>::empty(),
{
    reveal(Seq::filter);
    assert(s.take(i + 1).drop_last() =~= s.take(i));
    assert(s.take(i + 1).last() == s[i]);
    assert(s.take(0) =~= Seq::<ItemView>::empty());
    assert(dual_wieldable_of(s.take(0)) =~= Seq::<ItemView>::empty());
}

proof fn lemma_medkits_step(s: Seq<ItemView>, i: int)
    requires
        0 <= i < s.len(),
    ensures
        medkits_of(s.take(i + 1)) == (if is_medkit(s[i]) {
            medkits_of(s.take(i)).push(s[i])
        } else {
            medkits_of(s.take(i))
        }),
        medkits_of(s.take(0)) == Seq::<ItemView>::empty(),
{
    reveal(Seq::filter);
    assert(s.take(i + 1).drop_last() =~= s.take(i));
    assert(s.take(i + 1).last() == s[i]);
    assert(s.take(0) =~= Seq::<ItemView>::empty());
    assert(medkits_of(s.take(0)) =~= Seq::<ItemView>::empty());
}

fn slot_in(sizes: &Vec<Slot>, s: Slot) -> (r: bool)
    ensures
        r == sizes@.contains(s),
{
    let mut i: usize = 0;
    while i < sizes.len()
        invariant
            i <= sizes@.len(),
            forall|k: int| 0 <= k < i ==> sizes@[k] != s,
        decreases sizes@.len() - i,
    {
        if sizes[i] == s {
            return true;
        }
        i = i + 1;
    }
    false
}

fn item_has_placeable(item: &GenericItem) -> (r: bool)
    ensures
        r == has_placeable_usage(item@),
{
    let mut k: usize = 0;
    while k < item.usage_types.len()
        invariant
            k <= item.usage_types@.len(),
            forall|j: int| 0 <= j < k ==> !((#[trigger] item@.usage_types[j]) is Placeable),
        decreases item.usage_types@.len() - k,
    {
        match &item.usage_types[k] {
            UsageType::Placeable { .. } => {
                proof {
                    assert(item@.usage_types[k as int] is Placeable);
                }
                return true;
            },
            _ => {},
        }
        k = k + 1;
    }
    false
}

fn item_has_throw(item: &GenericItem) -> (r: bool)
    ensures
        r == has_throw_usage(item@),
{
    let mut k: usize = 0;
    while k < item.usage_types.len()
        invariant
            k <= item.usage_types@.len(),
            forall|j: int| 0 <= j < k ==> !((#[trigger] item@.usage_types[j]) is Throw),
        decreases item.usage_types@.len() - k,
    {
        match &item.usage_types[k] {
            UsageType::Throw { .. } => {
                proof {
                    assert(item@.usage_types[k as int] is Throw);
                }
                return true;
            },
            _ => {},
        }
        k = k + 1;
    }
    false
}

fn item_melee_only(item: &GenericItem) -> (r: bool)
    ensures
        r == melee_only_usages(item@),
{
    let mut k: usize = 0;
    while k < item.usage_types.len()
        invariant
            k <= item.usage_types@.len(),
            forall|j: int|
                0 <= j < k ==> ((#[trigger] item@.usage_types[j]) is BasicMelee
                    || item@.usage_types[j] is HeavyMelee),
        decreases item.usage_types@.len() - k,
    {
        match &item.usage_types[k] {
            UsageType::BasicMelee { .. } | UsageType::HeavyMelee { .. } => {},
            _ => {
                proof {
                    let u = item@.usage_types[k as int];
                    assert(!(u is BasicMelee) && !(u is HeavyMelee));
                }
                return false;
            },
        }
        k = k + 1;
    }
    true
}

fn name_in_decoys(item: &GenericItem) -> (r: bool)
    ensures
        r == is_decoy_name(full_name(item@)),
{
    let name = item.to_full_name();
    name == "Decoys".to_owned() || name == "Blank Fire Decoys".to_owned() || name
        == "Decoy Fuses".to_owned()
}

fn name_in_other_tools(item: &GenericItem) -> (r: bool)
    ensures
        r == is_other_tool_name(full_name(item@)),
{
    let name = item.to_full_name();
    name == "Electric Lamp".to_owned() || name == "Spyglass".to_owned() || name
        == "Flare Pistol".to_owned() || name == "Quad Derringer".to_owned()
}

impl CoreSearchUtil {
    /// The weapons whose slot size is one of `sizes`, in catalog order.
    pub fn get_weapons_by_sizes(&self, sizes: &Vec<Slot>) -> (r: Vec<GenericItem>)
        ensures
            items_view(r@) == weapons_of_sizes(self@.weapons, sizes@),
            forall|j: int| 0 <= j < r@.len() ==> self@.weapons.contains(#[trigger] items_view(r@)[j]),
    {
        let ghost s = items_view(self.weapons@);
        let mut r: Vec<GenericItem> = Vec::new();
        let mut i: usize = 0;
        proof {
            if s.len() > 0 {
                lemma_weapons_of_sizes_step(s, sizes@, 0);
            } else {
                reveal(Seq::filter);
                assert(s.take(0) =~= s);
            }
            assert(items_view(r@) =~= weapons_of_sizes(s.take(0), sizes@));
        }
        while i < self.weapons.len()
            invariant
                i <= self.weapons@.len(),
                s == items_view(self.weapons@),
                items_view(r@) == weapons_of_sizes(s.take(i as int), sizes@),
                forall|j: int| 0 <= j < r@.len() ==> s.contains(#[trigger] items_view(r@)[j]),
            decreases self.weapons@.len() - i,
        {
            let matched = match &self.weapons[i].slot {
                Some(slot) => slot_in(sizes, *slot),
                None => false,
            };
            proof {
                lemma_weapons_of_sizes_step(s, sizes@, i as int);
                assert(s[i as int] == self.weapons@[i as int]@);
            }
            if matched {
                r.push(self.weapons[i].clone());
                proof {
                    assert(items_view(r@) =~= weapons_of_sizes(s.take(i as int + 1), sizes@));
                    assert(items_view(r@)[r@.len() - 1] == s[i as int]);
                    assert(s.contains(items_view(r@)[r@.len() - 1]));
                }
            }
            i = i + 1;
        }
        proof {
            assert(s.take(s.len() as int) =~= s);
        }
        r
    }

    /// The decoy tools, in catalog order.
    pub fn get_decoy_tools(&self) -> (r: Vec<GenericItem>)
        ensures
            items_view(r@) == decoy_tools_of(self@.tools),
            forall|j: int| 0 <= j < r@.len() ==> self@.tools.contains(#[trigger] items_view(r@)[j]),
    {
        let ghost s = items_view(self.tools@);
        let mut r: Vec<GenericItem> = Vec::new();
        let mut i: usize = 0;
        proof {
            reveal(Seq::filter);
            assert(s.take(0) =~= Seq::<ItemView>::empty());
            assert(items_view(r@) =~= decoy_tools_of(s.take(0)));
        }
        while i < self.tools.len()
            invariant
                i <= self.tools@.len(),
                s == items_view(self.tools@),
                items_view(r@) == decoy_tools_of(s.take(i as int)),
                forall|j: int| 0 <= j < r@.len() ==> s.contains(#[trigger] items_view(r@)[j]),
            decreases self.tools@.len() - i,
        {
            let matched = name_in_decoys(&self.tools[i]);
            proof {
                lemma_decoy_tools_step(s, i as int);
                assert(s[i as int] == self.tools@[i as int]@);
            }
            if matched {
                r.push(self.tools[i].clone());
                proof {
                    assert(items_view(r@) =~= decoy_tools_of(s.take(i as int + 1)));
                    assert(items_view(r@)[r@.len() - 1] == s[i as int]);
                    assert(s.contains(items_view(r@)[r@.len() - 1]));
                }
            }
            i = i + 1;
        }
        proof {
            assert(s.take(s.len() as int) =~= s);
        }
        r
    }

    /// The trip mines, in catalog order.
    pub fn get_trip_mines(&self) -> (r: Vec<GenericItem>)
        ensures
            items_view(r@) == trip_mines_of(self@.tools),
            forall|j: int| 0 <= j < r@.len() ==> self@.tools.contains(#[trigger] items_view(r@)[j]),
    {
        let ghost s = items_view(self.tools@);
        let mut r: Vec<GenericItem> = Vec::new();
        let mut i: usize = 0;
        proof {
            reveal(Seq::filter);
            assert(s.take(0) =~= Seq::<ItemView>::empty());
            assert(items_view(r@) =~= trip_mines_of(s.take(0)));
        }
        while i < self.tools.len()
            invariant
                i <= self.tools@.len(),
                s == items_view(self.tools@),
                items_view(r@) == trip_mines_of(s.take(i as int)),
                forall|j: int| 0 <= j < r@.len() ==> s.contains(#[trigger] items_view(r@)[j]),
            decreases self.tools@.len() - i,
        {
            let matched = item_has_placeable(&self.tools[i]);
            proof {
                lemma_trip_mines_step(s, i as int);
                assert(s[i as int] == self.tools@[i as int]@);
            }
            if matched {
                r.push(self.tools[i].clone());
                proof {
                    assert(items_view(r@) =~= trip_mines_of(s.take(i as int + 1)));
                    assert(items_view(r@)[r@.len() - 1] == s[i as int]);
                    assert(s.contains(items_view(r@)[r@.len() - 1]));
                }
            }
            i = i + 1;
        }
        proof {
            assert(s.take(s.len() as int) =~= s);
        }
        r
    }

    /// The melee tools, in catalog order.
    pub fn get_melee_tools(&self) -> (r: Vec<GenericItem>)
        ensures
            items_view(r@) == melee_tools_of(self@.tools),
            forall|j: int| 0 <= j < r@.len() ==> self@.tools.contains(#[trigger] items_view(r@)[j]),
    {
        let ghost s = items_view(self.tools@);
        let mut r: Vec<GenericItem> = Vec::new();
        let mut i: usize = 0;
        proof {
            reveal(Seq::filter);
            assert(s.take(0) =~= Seq::<ItemView>::empty());
            assert(items_view(r@) =~= melee_tools_of(s.take(0)));
        }
        while i < self.tools.len()
            invariant
                i <= self.tools@.len(),
                s == items_view(self.tools@),
                items_view(r@) == melee_tools_of(s.take(i as int)),
                forall|j: int| 0 <= j < r@.len() ==> s.contains(#[trigger] items_view(r@)[j]),
            decreases self.tools@.len() - i,
        {
            let matched = item_melee_only(&self.tools[i]) && !name_in_other_tools(&self.tools[i]);
            proof {
                lemma_melee_tools_step(s, i as int);
                assert(s[i as int] == self.tools@[i as int]@);
            }
            if matched {
                r.push(self.tools[i].clone());
                proof {
                    assert(items_view(r@) =~= melee_tools_of(s.take(i as int + 1)));
                    assert(items_view(r@)[r@.len() - 1] == s[i as int]);
                    assert(s.contains(items_view(r@)[r@.len() - 1]));
                }
            }
            i = i + 1;
        }
        proof {
            assert(s.take(s.len() as int) =~= s);
        }
        r
    }

    /// The throwables, in catalog order.
    pub fn get_throwables(&self) -> (r: Vec<GenericItem>)
        ensures
            items_view(r@) == throwables_of(self@.tools),
            forall|j: int| 0 <= j < r@.len() ==> self@.tools.contains(#[trigger] items_view(r@)[j]),
    {
        let ghost s = items_view(self.tools@);
        let mut r: Vec<GenericItem> = Vec::new();
        let mut i: usize = 0;
        proof {
            reveal(Seq::filter);
            assert(s.take(0) =~= Seq::<ItemView>::empty());
            assert(items_view(r@) =~= throwables_of(s.take(0)));
        }
        while i < self.tools.len()
            invariant
                i <= self.tools@.len(),
                s == items_view(self.tools@),
                items_view(r@) == throwables_of(s.take(i as int)),
                forall|j: int| 0 <= j < r@.len() ==> s.contains(#[trigger] items_view(r@)[j]),
            decreases self.tools@.len() - i,
        {
            let matched = item_has_throw(&self.tools[i]) && !name_in_decoys(&self.tools[i]);
            proof {
                lemma_throwables_step(s, i as int);
                assert(s[i as int] == self.tools@[i as int]@);
            }
            if matched {
                r.push(self.tools[i].clone());
                proof {
                    assert(items_view(r@) =~= throwables_of(s.take(i as int + 1)));
                    assert(items_view(r@)[r@.len() - 1] == s[i as int]);
                    assert(s.contains(items_view(r@)[r@.len() - 1]));
                }
            }
            i = i + 1;
        }
        proof {
            assert(s.take(s.len() as int) =~= s);
        }
        r
    }

    /// The "others" tools, in catalog order.
    pub fn get_other_tools(&self) -> (r: Vec<GenericItem>)
        ensures
            items_view(r@) == other_tools_of(self@.tools),
            forall|j: int| 0 <= j < r@.len() ==> self@.tools.contains(#[trigger] items_view(r@)[j]),
    {
        let ghost s = items_view(self.tools@);
        let mut r: Vec<GenericItem> = Vec::new();
        let mut i: usize = 0;
        proof {
            reveal(Seq::filter);
            assert(s.take(0) =~= Seq::<ItemView>::empty());
            assert(items_view(r@) =~= other_tools_of(s.take(0)));
        }
        while i < self.tools.len()
            invariant
                i <= self.tools@.len(),
                s == items_view(self.tools@),
                items_view(r@) == other_tools_of(s.take(i as int)),
                forall|j: int| 0 <= j < r@.len() ==> s.contains(#[trigger] items_view(r@)[j]),
            decreases self.tools@.len() - i,
        {
            let matched = name_in_other_tools(&self.tools[i]);
            proof {
                lemma_other_tools_step(s, i as int);
                assert(s[i as int] == self.tools@[i as int]@);
            }
            if matched {
                r.push(self.tools[i].clone());
                proof {
                    assert(items_view(r@) =~= other_tools_of(s.take(i as int + 1)));
                    assert(items_view(r@)[r@.len() - 1] == s[i as int]);
                    assert(s.contains(items_view(r@)[r@.len() - 1]));
                }
            }
            i = i + 1;
        }
        proof {
            assert(s.take(s.len() as int) =~= s);
        }
        r
    }

    /// The dual-wieldable weapons, in catalog order.
    pub fn get_dual_wield_weapons(&self) -> (r: Vec<GenericItem>)
        ensures
            items_view(r@) == dual_wieldable_of(self@.weapons),
            forall|j: int| 0 <= j < r@.len() ==> self@.weapons.contains(#[trigger] items_view(r@)[j]),
    {
        let ghost s = items_view(self.weapons@);
        let mut r: Vec<GenericItem> = Vec::new();
        let mut i: usize = 0;
        proof {
            reveal(Seq::filter);
            assert(s.take(0) =~= Seq::<ItemView>::empty());
            assert(items_view(r@) =~= dual_wieldable_of(s.take(0)));
        }
        while i < self.weapons.len()
            invariant
                i <= self.weapons@.len(),
                s == items_view(self.weapons@),
                items_view(r@) == dual_wieldable_of(s.take(i as int)),
                forall|j: int| 0 <= j < r@.len() ==> s.contains(#[trigger] items_view(r@)[j]),
            decreases self.weapons@.len() - i,
        {
            let matched = self.weapons[i].can_dual_wield();
            proof {
                lemma_dual_wieldable_step(s, i as int);
                assert(s[i as int] == self.weapons@[i as int]@);
            }
            if matched {
                r.push(self.weapons[i].clone());
                proof {
                    assert(items_view(r@) =~= dual_wieldable_of(s.take(i as int + 1)));
                    assert(items_view(r@)[r@.len() - 1] == s[i as int]);
                    assert(s.contains(items_view(r@)[r@.len() - 1]));
                }
            }
            i = i + 1;
        }
        proof {
            assert(s.take(s.len() as int) =~= s);
        }
        r
    }

    /// The medkit entries, in catalog order.
    pub fn get_medkits(&self) -> (r: Vec<GenericItem>)
        ensures
            items_view(r@) == medkits_of(self@.tools),
            forall|j: int| 0 <= j < r@.len() ==> self@.tools.contains(#[trigger] items_view(r@)[j]),
    {
        let ghost s = items_view(self.tools@);
        let mut r: Vec<GenericItem> = Vec::new();
        let mut i: usize = 0;
        proof {
            reveal(Seq::filter);
            assert(s.take(0) =~= Seq::<ItemView>::empty());
            assert(items_view(r@) =~= medkits_of(s.take(0)));
        }
        while i < self.tools.len()
            invariant
                i <= self.tools@.len(),
                s == items_view(self.tools@),
                items_view(r@) == medkits_of(s.take(i as int)),
                forall|j: int| 0 <= j < r@.len() ==> s.contains(#[trigger] items_view(r@)[j]),
            decreases self.tools@.len() - i,
        {
            let name = self.tools[i].to_full_name();
            let matched = name == "First Aid Kit".to_owned();
            proof {
                lemma_medkits_step(s, i as int);
                assert(s[i as int] == self.tools@[i as int]@);
            }
            if matched {
                r.push(self.tools[i].clone());
                proof {
                    assert(items_view(r@) =~= medkits_of(s.take(i as int + 1)));
                    assert(items_view(r@)[r@.len() - 1] == s[i as int]);
                    assert(s.contains(items_view(r@)[r@.len() - 1]));
                }
            }
            i = i + 1;
        }
        proof {
            assert(s.take(s.len() as int) =~= s);
        }
        r
    }

    /// Whether some tool carries exactly this base name.
    pub fn name_is_tool(&self, name: &str) -> (r: bool)
        ensures
            r == has_item_named(self@.tools, name@),
    {
        let mut i: usize = 0;
        while i < self.tools.len()
            invariant
                i <= self.tools@.len(),
                forall|k: int| 0 <= k < i ==> (#[trigger] items_view(self.tools@)[k]).name != name@,
            decreases self.tools@.len() - i,
        {
            if self.tools[i].name == name.to_owned() {
                proof {
                    assert(items_view(self.tools@)[i as int].name == name@);
                }
                return true;
            }
            i = i + 1;
        }
        false
    }

    /// Whether some consumable carries exactly this base name.
    pub fn name_is_consumable(&self, name: &str) -> (r: bool)
        ensures
            r == has_item_named(self@.consumables, name@),
    {
        let mut i: usize = 0;
        while i < self.consumables.len()
            invariant
                i <= self.consumables@.len(),
                forall|k: int|
                    0 <= k < i ==> (#[trigger] items_view(self.consumables@)[k]).name != name@,
            decreases self.consumables@.len() - i,
        {
            if self.consumables[i].name == name.to_owned() {
                proof {
                    assert(items_view(self.consumables@)[i as int].name == name@);
                }
                return true;
            }
            i = i + 1;
        }
        false
    }
}


impl GenericItem {
    /// The image path of this item, resolved by which collection carries
    /// its base name: tools first, then consumables, else weapons.
    pub fn to_image_path(&self, catalog: &CoreSearchUtil) -> (r: String)
        ensures
            r@ == (if has_item_named(catalog@.tools, self@.name) {
                crate::generic_item::tool_image_path(self@)
            } else if has_item_named(catalog@.consumables, self@.name) {
                crate::generic_item::consumable_image_path(self@)
            } else {
                crate::generic_item::weapon_image_path(self@)
            }),
    {
        if catalog.name_is_tool(self.name.as_str()) {
            self.to_tool_path()
        } else if catalog.name_is_consumable(self.name.as_str()) {
            self.to_consumable_path()
        } else {
            self.to_weapon_path()
        }
    }
}

} // verus!
