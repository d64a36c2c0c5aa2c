//! The catalog item record, its mathematical view, and the item operations
//! the randomizer relies on: effective cost, occupied slot size, bullet
//! variant enumeration, dual-wield eligibility, display names and image
//! paths.

use vstd::prelude::*;

use crate::content::{BulletSize, BulletVariant, ExtractCategory, Intensity, Slot, UtilityType,
    WeaponVariant};
use crate::text::without_chars;
use crate::util::copy_vec;

verus! {

/// One equipped round choice: bullet size, the custom variant if any
/// (`None` is the free default round), and the cost paid at selection.
pub type CustomAmmo = (BulletSize, Option<BulletVariant>, u16);

/// A bullet entry of a weapon's shoot usage.
pub struct Bullet {
    pub name: Option<BulletVariant>,
    pub cost: Option<u16>,
    pub types: Option<Vec<UtilityType>>,
    pub ammo: Vec<u8>,
    pub damage: u16,
    pub effective_range: u16,
    pub handling: u8,
    pub muzzle_velocity: u16,
    pub requirements: Option<Vec<Requirement>>,
}

/// What the randomizer observes of a bullet entry: its variant name and
/// its price.
pub struct BulletView {
    pub variant: Option<BulletVariant>,
    pub cost: Option<u16>,
}

impl View for Bullet {
    type V = BulletView;

    open spec fn view(&self) -> BulletView {
        BulletView { variant: self.name, cost: self.cost }
    }
}

/// A requirement that refers to an earlier unlock.
pub enum PreviousRequirement {
    Ammo { weapon: String, ammo: BulletVariant },
    Consumable { consumable: String },
    Tool { tool: String },
    Weapon { weapon: String, variant: Option<WeaponVariant> },
}

/// An unlock requirement of a catalog entry; carried for display only.
#[allow(inconsistent_fields)]
pub enum Requirement {
    Rank(u8),
    Experience { amount: u16, variant: String },
    Extract { category: ExtractCategory, times: u8 },
    Use { category: UtilityType, times: u8 },
    PreviousRequirements(PreviousRequirement),
}

impl Clone for PreviousRequirement {
    fn clone(&self) -> (r: Self) {
        match self {
            PreviousRequirement::Ammo { weapon, ammo } => PreviousRequirement::Ammo {
                weapon: weapon.clone(),
                ammo: *ammo,
            },
            PreviousRequirement::Consumable { consumable } => PreviousRequirement::Consumable {
                consumable: consumable.clone(),
            },
            PreviousRequirement::Tool { tool } => PreviousRequirement::Tool { tool: tool.clone() },
            PreviousRequirement::Weapon { weapon, variant } => PreviousRequirement::Weapon {
                weapon: weapon.clone(),
                variant: *variant,
            },
        }
    }
}

impl Clone for Requirement {
    fn clone(&self) -> (r: Self) {
        match self {
            Requirement::Rank(n) => Requirement::Rank(*n),
            Requirement::Experience { amount, variant } => Requirement::Experience {
                amount: *amount,
                variant: variant.clone(),
            },
            Requirement::Extract { category, times } => Requirement::Extract {
                category: *category,
                times: *times,
            },
            Requirement::Use { category, times } => Requirement::Use {
                category: *category,
                times: *times,
            },
            Requirement::PreviousRequirements(p) => Requirement::PreviousRequirements(p.clone()),
        }
    }
}

fn clone_requirements(v: &Vec<Requirement>) -> Vec<Requirement> {
    let mut r: Vec<Requirement> = Vec::new();
    let mut i: usize = 0;
    while i < v.len()
        decreases v.len() - i,
    {
        r.push(v[i].clone());
        i = i + 1;
    }
    r
}

impl Clone for Bullet {
    fn clone(&self) -> (r: Self)
        ensures
            r@ == self@,
    {
        Bullet {
            name: self.name,
            cost: self.cost,
            types: match &self.types {
                Some(t) => Some(copy_vec(t)),
                None => None,
            },
            ammo: copy_vec(&self.ammo),
            damage: self.damage,
            effective_range: self.effective_range,
            handling: self.handling,
            muzzle_velocity: self.muzzle_velocity,
            requirements: match &self.requirements {
                Some(rs) => Some(clone_requirements(rs)),
                None => None,
            },
        }
    }
}

/// The views of a sequence of bullet entries.
pub open spec fn bullets_view(s: Seq<Bullet>) -> Seq<BulletView> {
    s.map_values(|b: Bullet| b@)
}

fn clone_bullets(v: &Vec<Bullet>) -> (r: Vec<Bullet>)
    ensures
        bullets_view(r@) == bullets_view(v@),
{
    let mut r: Vec<Bullet> = Vec::new();
    let mut i: usize = 0;
    while i < v.len()
        invariant
            i <= v.len(),
            r@.len() == i,
            forall|k: int| 0 <= k < i ==> (#[trigger] r@[k])@ == v@[k]@,
        decreases v.len() - i,
    {
        r.push(v[i].clone());
        i = i + 1;
    }
    proof {
        assert forall|k: int| 0 <= k < v@.len() implies bullets_view(r@)[k] == bullets_view(v@)[k]
        by {
            assert(r@[k]@ == v@[k]@);
        }
        assert(bullets_view(r@) =~= bullets_view(v@));
    }
    r
}

/// One way a catalog entry can be used, with its display statistics.
#[allow(inconsistent_fields)]
pub enum UsageType {
    BasicMelee {
        types: Vec<UtilityType>,
        intensity: Option<Intensity>,
        damage: u16,
    },
    HeavyMelee {
        types: Vec<UtilityType>,
        intensity: Option<Intensity>,
        damage: u16,
    },
    Placeable {
        types: Vec<UtilityType>,
        intensity: Option<Intensity>,
        damage: Option<u16>,
        damage_per_tick: Option<u8>,
        duration: Option<u16>,
        effect_radius: Option<u8>,
    },
    Shoot {
        bullet_types: Vec<Bullet>,
        bullet_size: BulletSize,
        rate_of_fire: u16,
        reload_speed: u8,
    },
    ShootSecondary {
        bullet_types: Vec<Bullet>,
        bullet_size: BulletSize,
        rate_of_fire: u16,
        reload_speed: u8,
    },
    Throw {
        types: Vec<UtilityType>,
        intensity: Option<Intensity>,
        damage: Option<u16>,
        damage_per_tick: Option<u8>,
        effective_range: u16,
        rate_of_fire: Option<u16>,
        reload_speed: Option<u8>,
        muzzle_velocity: Option<u16>,
        effective_radius: Option<u8>,
        effect_duration: Option<u16>,
        effect_radius: Option<u8>,
        control_range: Option<u8>,
    },
    ThrowLight {
        types: Vec<UtilityType>,
        intensity: Option<Intensity>,
        damage: u16,
        duration: u16,
    },
    Use {
        types: Vec<UtilityType>,
        heal_amount: Option<u8>,
        effect_duration: Option<u16>,
    },
}

/// What the randomizer observes of a usage: its kind, and for a shoot
/// usage the bullet size and the bullet entries.
pub enum UsageView {
    BasicMelee,
    HeavyMelee,
    Placeable,
    Shoot { bullet_size: BulletSize, bullets: Seq<BulletView> },
    ShootSecondary { bullet_size: BulletSize, bullets: Seq<BulletView> },
    Throw,
    ThrowLight,
    Use,
}

impl View for UsageType {
    type V = UsageView;

    open spec fn view(&self) -> UsageView {
        match self {
            UsageType::BasicMelee { .. } => UsageView::BasicMelee,
            UsageType::HeavyMelee { .. } => UsageView::HeavyMelee,
            UsageType::Placeable { .. } => UsageView::Placeable,
            UsageType::Shoot { bullet_types, bullet_size, .. } => UsageView::Shoot {
                bullet_size: *bullet_size,
                bullets: bullets_view(bullet_types@),
            },
            UsageType::ShootSecondary { bullet_types, bullet_size, .. } =>
                UsageView::ShootSecondary {
                    bullet_size: *bullet_size,
                    bullets: bullets_view(bullet_types@),
                },
            UsageType::Throw { .. } => UsageView::Throw,
            UsageType::ThrowLight { .. } => UsageView::ThrowLight,
            UsageType::Use { .. } => UsageView::Use,
        }
    }
}

impl Clone for UsageType {
    fn clone(&self) -> (r: Self)
        ensures
            r@ == self@,
    {
        match self {
            UsageType::BasicMelee { types, intensity, damage } => UsageType::BasicMelee {
                types: copy_vec(types),
                intensity: *intensity,
                damage: *damage,
            },
            UsageType::HeavyMelee { types, intensity, damage } => UsageType::HeavyMelee {
                types: copy_vec(types),
                intensity: *intensity,
                damage: *damage,
            },
            UsageType::Placeable { types, intensity, damage, damage_per_tick, duration,
                effect_radius } => UsageType::Placeable {
                types: copy_vec(types),
                intensity: *intensity,
                damage: *damage,
                damage_per_tick: *damage_per_tick,
                duration: *duration,
                effect_radius: *effect_radius,
            },
            UsageType::Shoot { bullet_types, bullet_size, rate_of_fire, reload_speed } =>
                UsageType::Shoot {
                    bullet_types: clone_bullets(bullet_types),
                    bullet_size: *bullet_size,
                    rate_of_fire: *rate_of_fire,
                    reload_speed: *reload_speed,
                },
            UsageType::ShootSecondary { bullet_types, bullet_size, rate_of_fire, reload_speed } =>
                UsageType::ShootSecondary {
                    bullet_types: clone_bullets(bullet_types),
                    bullet_size: *bullet_size,
                    rate_of_fire: *rate_of_fire,
                    reload_speed: *reload_speed,
                },
            UsageType::Throw { types, intensity, damage, damage_per_tick, effective_range,
                rate_of_fire, reload_speed, muzzle_velocity, effective_radius, effect_duration,
                effect_radius, control_range } => UsageType::Throw {
                types: copy_vec(types),
                intensity: *intensity,
                damage: *damage,
                damage_per_tick: *damage_per_tick,
                effective_range: *effective_range,
                rate_of_fire: *rate_of_fire,
                reload_speed: *reload_speed,
                muzzle_velocity: *muzzle_velocity,
                effective_radius: *effective_radius,
                effect_duration: *effect_duration,
                effect_radius: *effect_radius,
                control_range: *control_range,
            },
            UsageType::ThrowLight { types, intensity, damage, duration } => UsageType::ThrowLight {
                types: copy_vec(types),
                intensity: *intensity,
                damage: *damage,
                duration: *duration,
            },
            UsageType::Use { types, heal_amount, effect_duration } => UsageType::Use {
                types: copy_vec(types),
                heal_amount: *heal_amount,
                effect_duration: *effect_duration,
            },
        }
    }
}

/// The views of a sequence of usages.
pub open spec fn usages_view(s: Seq<UsageType>) -> Seq<UsageView> {
    s.map_values(|u: UsageType| u@)
}

fn clone_usages(v: &Vec<UsageType>) -> (r: Vec<UsageType>)
    ensures
        usages_view(r@) == usages_view(v@),
{
    let mut r: Vec<UsageType> = Vec::new();
    let mut i: usize = 0;
    while i < v.len()
        invariant
            i <= v.len(),
            r@.len() == i,
            forall|k: int| 0 <= k < i ==> (#[trigger] r@[k])@ == v@[k]@,
        decreases v.len() - i,
    {
        r.push(v[i].clone());
        i = i + 1;
    }
    proof {
        assert forall|k: int| 0 <= k < v@.len() implies usages_view(r@)[k] == usages_view(v@)[k]
        by {
            assert(r@[k]@ == v@[k]@);
        }
        assert(usages_view(r@) =~= usages_view(v@));
    }
    r
}

/// A catalog entry, together with the two instance-only fields attached
/// when it is equipped: the dual-wield flag and the equipped ammunition.
pub struct GenericItem {
    pub name: String,
    pub postfix: Option<String>,
    pub variant: Option<WeaponVariant>,
    pub slot: Option<Slot>,
    pub additional_ammo_slots: Option<bool>,
    pub handling: Option<u8>,
    pub cost: u16,
    pub requirements: Vec<Requirement>,
    pub usage_types: Vec<UsageType>,
    pub variants: Option<Vec<WeaponVariant>>,
    pub dual_wield: bool,
    pub ammo_equipped: Vec<CustomAmmo>,
}

/// What the randomizer observes of an item: everything its behaviour
/// depends on. Display-only fields (handling, requirements, the variant
/// list) stay out of the view.
pub struct ItemView {
    pub name: Seq<char>,
    pub postfix: Option<Seq<char>>,
    pub variant: Option<WeaponVariant>,
    pub slot: Option<Slot>,
    pub additional_ammo_slots: Option<bool>,
    pub cost: u16,
    pub usage_types: Seq<UsageView>,
    pub dual_wield: bool,
    pub ammo_equipped: Seq<CustomAmmo>,
}

impl View for GenericItem {
    type V = ItemView;

    open spec fn view(&self) -> ItemView {
        ItemView {
            name: self.name@,
            postfix: match self.postfix {
                Some(p) => Some(p@),
                None => None,
            },
            variant: self.variant,
            slot: self.slot,
            additional_ammo_slots: self.additional_ammo_slots,
            cost: self.cost,
            usage_types: usages_view(self.usage_types@),
            dual_wield: self.dual_wield,
            ammo_equipped: self.ammo_equipped@,
        }
    }
}

impl Clone for GenericItem {
    fn clone(&self) -> (r: Self)
        ensures
            r@ == self@,
    {
        let r = GenericItem {
            name: self.name.clone(),
            postfix: match &self.postfix {
                Some(p) => Some(p.clone()),
                None => None,
            },
            variant: self.variant,
            slot: self.slot,
            additional_ammo_slots: self.additional_ammo_slots,
            handling: self.handling,
            cost: self.cost,
            requirements: clone_requirements(&self.requirements),
            usage_types: clone_usages(&self.usage_types),
            variants: match &self.variants {
                Some(v) => Some(copy_vec(v)),
                None => None,
            },
            dual_wield: self.dual_wield,
            ammo_equipped: copy_vec(&self.ammo_equipped),
        };
        r
    }
}

/// A loadout slot: the item it holds, if any, and whether the slot is
/// locked against randomized replacement.
pub struct GenericItemLockable {
    pub item: Option<GenericItem>,
    pub locked: bool,
}

/// The view of an optional item.
pub open spec fn opt_item_view(o: Option<GenericItem>) -> Option<ItemView> {
    match o {
        Some(item) => Some(item@),
        None => None,
    }
}

/// What the randomizer observes of a lockable slot.
pub struct LockableItemView {
    pub item: Option<ItemView>,
    pub locked: bool,
}

impl View for GenericItemLockable {
    type V = LockableItemView;

    open spec fn view(&self) -> LockableItemView {
        LockableItemView { item: opt_item_view(self.item), locked: self.locked }
    }
}

impl Clone for GenericItemLockable {
    fn clone(&self) -> (r: Self)
        ensures
            r@ == self@,
    {
        GenericItemLockable {
            item: match &self.item {
                Some(item) => Some(item.clone()),
                None => None,
            },
            locked: self.locked,
        }
    }
}

impl Default for GenericItemLockable {
    /// An empty, unlocked slot.
    fn default() -> (r: Self)
        ensures
            r@.item is None,
            !r@.locked,
    {
        GenericItemLockable { item: None, locked: false }
    }
}

/// Structural item identity: name, variant, postfix and the two
/// instance-only fields. Two slots holding the same catalog entry with the
/// same equipped state are duplicates.
pub open spec fn same_item_spec(a: ItemView, b: ItemView) -> bool {
    &&& a.name == b.name
    &&& a.variant == b.variant
    &&& a.postfix == b.postfix
    &&& a.dual_wield == b.dual_wield
    &&& a.ammo_equipped == b.ammo_equipped
}

fn same_ammo(a: &Vec<CustomAmmo>, b: &Vec<CustomAmmo>) -> (r: bool)
    ensures
        r == (a@ == b@),
{
    if a.len() != b.len() {
        proof {
            assert(a@.len() != b@.len());
        }
        return false;
    }
    let mut i: usize = 0;
    while i < a.len()
        invariant
            i <= a.len(),
            a@.len() == b@.len(),
            forall|k: int| 0 <= k < i ==> a@[k] == b@[k],
        decreases a.len() - i,
    {
        let (asize, avar, acost) = a[i];
        let (bsize, bvar, bcost) = b[i];
        let vars_equal = match (avar, bvar) {
            (Some(x), Some(y)) => x == y,
            (None, None) => true,
            _ => false,
        };
        if !(asize == bsize && vars_equal && acost == bcost) {
            return false;
        }
        i = i + 1;
    }
    proof {
        assert(a@ =~= b@);
    }
    true
}

fn same_opt_string(a: &Option<String>, b: &Option<String>) -> (r: bool)
    ensures
        r == (match (a, b) {
            (Some(x), Some(y)) => x@ == y@,
            (None, None) => true,
            _ => false,
        }),
{
    match (a, b) {
        (Some(x), Some(y)) => *x == *y,
        (None, None) => true,
        _ => false,
    }
}

impl GenericItem {
    /// Whether this item and `other` are the same equipped item, under the
    /// structural identity of `same_item_spec`.
    pub fn same_item(&self, other: &GenericItem) -> (r: bool)
        ensures
            r == same_item_spec(self@, other@),
    {
        let vars_equal = match (&self.variant, &other.variant) {
            (Some(x), Some(y)) => *x == *y,
            (None, None) => true,
            _ => false,
        };
        self.name == other.name && vars_equal && same_opt_string(&self.postfix, &other.postfix)
            && self.dual_wield == other.dual_wield && same_ammo(
            &self.ammo_equipped,
            &other.ammo_equipped,
        )
    }
}

/// Whether two optional items hold the same item, or are both empty.
pub open spec fn same_opt_item_spec(a: Option<ItemView>, b: Option<ItemView>) -> bool {
    match (a, b) {
        (Some(x), Some(y)) => same_item_spec(x, y),
        (None, None) => true,
        _ => false,
    }
}

/// Compares two optional items under the structural item identity.
pub fn same_opt_item(a: &Option<GenericItem>, b: &Option<GenericItem>) -> (r: bool)
    ensures
        r == same_opt_item_spec(opt_item_view(*a), opt_item_view(*b)),
{
    match (a, b) {
        (Some(x), Some(y)) => x.same_item(y),
        (None, None) => true,
        _ => false,
    }
}

/// Effective cost of an item: doubled when dual-wielded.
pub open spec fn effective_cost(v: ItemView) -> int {
    if v.dual_wield {
        2 * v.cost
    } else {
        v.cost as int
    }
}

/// The slot size an item occupies: a dual-wield pair fills a medium slot;
/// otherwise the catalog's size class.
pub open spec fn occupied_slot(v: ItemView) -> Slot {
    if v.dual_wield {
        Slot::Medium
    } else {
        v.slot->Some_0
    }
}

/// The names excluded from dual wielding even though they are small-slot
/// weapons.
pub open spec fn is_invalid_dualwield_name(s: Seq<char>) -> bool {
    ||| s == "Cavalry Saber"@
    ||| s == "Hand Crossbow"@
    ||| s == "Combat Axe"@
    ||| s == "Machete"@
}

/// Whether an item may be dual-wielded: a small-slot weapon not on the
/// exclusion list.
pub open spec fn spec_can_dual_wield(v: ItemView) -> bool {
    v.slot == Some(Slot::Small) && !is_invalid_dualwield_name(v.name)
}

/// The full display name: base name, then the variant name set off by
/// spaces, then the postfix.
pub open spec fn full_name(v: ItemView) -> Seq<char> {
    v.name + (match v.variant {
        Some(w) => " "@ + w.spec_name() + " "@,
        None => Seq::<char>::empty(),
    }) + (match v.postfix {
        Some(p) => " "@ + p,
        None => Seq::<char>::empty(),
    })
}

/// The price of one bullet entry as offered: missing prices count as free,
/// and a weapon with additional ammo slots offers each round at half
/// price.
pub open spec fn offered_bullet_cost(c: Option<u16>, halved: bool) -> u16 {
    match c {
        Some(cost) => if halved {
            (cost / 2) as u16
        } else {
            cost
        },
        None => 0u16,
    }
}

/// The priced round choices offered by a sequence of bullet entries:
/// one per named variant, in order.
pub open spec fn choices_of_bullets(bs: Seq<BulletView>, size: BulletSize, halved: bool) -> Seq<
    CustomAmmo,
>
    decreases bs.len(),
{
    if bs.len() == 0 {
        Seq::empty()
    } else {
        choices_of_bullets(bs.drop_last(), size, halved) + (match bs.last().variant {
            Some(var) => seq![(size, Some(var), offered_bullet_cost(bs.last().cost, halved))],
            None => Seq::<CustomAmmo>::empty(),
        })
    }
}

/// The priced round choices offered by a sequence of usages: those of each
/// shoot usage, in order.
pub open spec fn choices_of_usages(us: Seq<UsageView>, halved: bool) -> Seq<CustomAmmo>
    decreases us.len(),
{
    if us.len() == 0 {
        Seq::empty()
    } else {
        choices_of_usages(us.drop_last(), halved) + (match us.last() {
            UsageView::Shoot { bullet_size, bullets } => choices_of_bullets(
                bullets,
                bullet_size,
                halved,
            ),
            _ => Seq::<CustomAmmo>::empty(),
        })
    }
}

/// All priced round choices an item offers.
pub open spec fn bullet_variant_choices(v: ItemView) -> Seq<CustomAmmo> {
    choices_of_usages(v.usage_types, v.additional_ammo_slots == Some(true))
}

/// The bullet size of the first shoot usage, if any.
pub open spec fn first_bullet_size(us: Seq<UsageView>) -> Option<BulletSize>
    decreases us.len(),
{
    if us.len() == 0 {
        None
    } else {
        match us[0] {
            UsageView::Shoot { bullet_size, .. } => Some(bullet_size),
            _ => first_bullet_size(us.drop_first()),
        }
    }
}

impl GenericItem {
    /// Effective cost: base cost, doubled when dual-wielded.
    pub fn get_cost(&self) -> (r: u16)
        requires
            effective_cost(self@) <= u16::MAX,
        ensures
            r == effective_cost(self@),
    {
        if self.dual_wield {
            self.cost * 2
        } else {
            self.cost
        }
    }

    /// The slot size this item occupies.
    pub fn get_slot(&self) -> (r: Slot)
        requires
            self@.dual_wield || self@.slot is Some,
        ensures
            r == occupied_slot(self@),
    {
        if self.dual_wield {
            Slot::Medium
        } else {
            match &self.slot {
                Some(s) => *s,
                None => unreached(),
            }
        }
    }

    /// All priced round choices this item offers, in catalog order.
    pub fn get_bullet_variants(&self) -> (r: Vec<CustomAmmo>)
        ensures
            r@ == bullet_variant_choices(self@),
    {
        let halved = match self.additional_ammo_slots {
            Some(b) => b,
            None => false,
        };
        let mut r: Vec<CustomAmmo> = Vec::new();
        let mut i: usize = 0;
        while i < self.usage_types.len()
            invariant
                i <= self.usage_types@.len(),
                halved == (self@.additional_ammo_slots == Some(true)),
                r@ == choices_of_usages(usages_view(self.usage_types@).take(i as int), halved),
            decreases self.usage_types@.len() - i,
        {
            proof {
                assert(usages_view(self.usage_types@).take(i as int + 1).drop_last()
                    =~= usages_view(self.usage_types@).take(i as int));
                assert(usages_view(self.usage_types@).take(i as int + 1).last()
                    == self.usage_types@[i as int]@);
            }
            match &self.usage_types[i] {
                UsageType::Shoot { bullet_types, bullet_size, .. } => {
                    let mut j: usize = 0;
                    while j < bullet_types.len()
                        invariant
                            j <= bullet_types@.len(),
                            halved == (self@.additional_ammo_slots == Some(true)),
                            r@ == choices_of_usages(
                                usages_view(self.usage_types@).take(i as int),
                                halved,
                            ) + choices_of_bullets(
                                bullets_view(bullet_types@).take(j as int),
                                *bullet_size,
                                halved,
                            ),
                        decreases bullet_types@.len() - j,
                    {
                        proof {
                            assert(bullets_view(bullet_types@).take(j as int + 1).drop_last()
                                =~= bullets_view(bullet_types@).take(j as int));
                            assert(bullets_view(bullet_types@).take(j as int + 1).last()
                                == bullet_types@[j as int]@);
                        }
                        let bullet = &bullet_types[j];
                        match bullet.name {
                            Some(var) => {
                                let base = match bullet.cost {
                                    Some(c) => if halved {
                                        c / 2
                                    } else {
                                        c
                                    },
                                    None => 0,
                                };
                                r.push((*bullet_size, Some(var), base));
                            },
                            None => {},
                        }
                        j = j + 1;
                    }
                    proof {
                        assert(bullets_view(bullet_types@).take(bullets_view(bullet_types@).len()
                            as int) =~= bullets_view(bullet_types@));
                    }
                },
                _ => {},
            }
            i = i + 1;
        }
        proof {
            assert(usages_view(self.usage_types@).take(usages_view(self.usage_types@).len() as int)
                =~= usages_view(self.usage_types@));
        }
        r
    }

    /// The bullet size of this item's first shoot usage, if it has one.
    pub fn get_bullet_size(&self) -> (r: Option<BulletSize>)
        ensures
            r == first_bullet_size(self@.usage_types),
    {
        let mut i: usize = 0;
        proof {
            assert(usages_view(self.usage_types@).skip(0) =~= usages_view(self.usage_types@));
        }
        while i < self.usage_types.len()
            invariant
                i <= self.usage_types@.len(),
                first_bullet_size(self@.usage_types) == first_bullet_size(
                    usages_view(self.usage_types@).skip(i as int),
                ),
            decreases self.usage_types@.len() - i,
        {
            proof {
                assert(usages_view(self.usage_types@).skip(i as int)[0]
                    == self.usage_types@[i as int]@);
                assert(usages_view(self.usage_types@).skip(i as int).drop_first()
                    =~= usages_view(self.usage_types@).skip(i as int + 1));
            }
            match &self.usage_types[i] {
                UsageType::Shoot { bullet_size, .. } => {
                    return Some(*bullet_size);
                },
                _ => {},
            }
            i = i + 1;
        }
        None
    }

    /// Whether this item may be dual-wielded.
    pub fn can_dual_wield(&self) -> (r: bool)
        ensures
            r == spec_can_dual_wield(self@),
    {
        match &self.slot {
            Some(slot) => {
                if *slot == Slot::Small {
                    !(self.name == "Cavalry Saber".to_owned() || self.name
                        == "Hand Crossbow".to_owned() || self.name == "Combat Axe".to_owned()
                        || self.name == "Machete".to_owned())
                } else {
                    false
                }
            },
            None => false,
        }
    }

    /// The full display name of this item.
    pub fn to_full_name(&self) -> (r: String)
        ensures
            r@ == full_name(self@),
    {
        let mut r = self.name.clone();
        match &self.variant {
            Some(variant) => {
                r.push_str(" ");
                let vname = variant.name();
                r.push_str(vname.as_str());
                r.push_str(" ");
            },
            None => {},
        }
        match &self.postfix {
            Some(postfix) => {
                r.push_str(" ");
                r.push_str(postfix.as_str());
            },
            None => {},
        }
        r
    }
}


/// The characters stripped from names in image paths.
pub open spec fn path_strip_chars() -> Seq<char> {
    seq![' ', '.']
}

/// The characters stripped from postfixes and consumable names in image
/// paths.
pub open spec fn path_strip_chars_full() -> Seq<char> {
    seq![' ', '.', '(', ')']
}

/// The weapon image path: the stripped name, the variant name without
/// spaces, and the stripped postfix.
pub open spec fn weapon_image_path(v: ItemView) -> Seq<char> {
    "/images/weapons/"@ + without_chars(v.name, path_strip_chars()) + (match v.variant {
        Some(w) => without_chars(w.spec_name(), seq![' ']),
        None => Seq::<char>::empty(),
    }) + (match v.postfix {
        Some(p) => without_chars(p, path_strip_chars_full()),
        None => Seq::<char>::empty(),
    }) + ".webp"@
}

/// The tool image path.
pub open spec fn tool_image_path(v: ItemView) -> Seq<char> {
    "/images/tools/"@ + without_chars(v.name, path_strip_chars()) + ".webp"@
}

/// The consumable image path.
pub open spec fn consumable_image_path(v: ItemView) -> Seq<char> {
    "/images/consumables/"@ + without_chars(v.name, path_strip_chars_full()) + ".webp"@
}

fn strip_chars_vec() -> (r: Vec<char>)
    ensures
        r@ == path_strip_chars(),
{
    let mut r: Vec<char> = Vec::new();
    r.push(' ');
    r.push('.');
    proof {
        assert(r@ =~= path_strip_chars());
    }
    r
}

fn strip_chars_full_vec() -> (r: Vec<char>)
    ensures
        r@ == path_strip_chars_full(),
{
    let mut r: Vec<char> = Vec::new();
    r.push(' ');
    r.push('.');
    r.push('(');
    r.push(')');
    proof {
        assert(r@ =~= path_strip_chars_full());
    }
    r
}

fn space_vec() -> (r: Vec<char>)
    ensures
        r@ == seq![' '],
{
    let mut r: Vec<char> = Vec::new();
    r.push(' ');
    proof {
        assert(r@ =~= seq![' ']);
    }
    r
}

impl GenericItem {
    /// The image path of this item as a weapon.
    pub fn to_weapon_path(&self) -> (r: String)
        ensures
            r@ == weapon_image_path(self@),
    {
        let mut r = "/images/weapons/".to_owned();
        let strip = strip_chars_vec();
        let stripped_name = crate::text::remove_chars(self.name.as_str(), &strip);
        r.push_str(stripped_name.as_str());
        match &self.variant {
            Some(variant) => {
                let vname = variant.name();
                let spaces = space_vec();
                let stripped = crate::text::remove_chars(vname.as_str(), &spaces);
                r.push_str(stripped.as_str());
            },
            None => {},
        }
        match &self.postfix {
            Some(postfix) => {
                let strip_full = strip_chars_full_vec();
                let stripped = crate::text::remove_chars(postfix.as_str(), &strip_full);
                r.push_str(stripped.as_str());
            },
            None => {},
        }
        r.push_str(".webp");
        r
    }

    /// The image path of this item as a tool.
    pub fn to_tool_path(&self) -> (r: String)
        ensures
            r@ == tool_image_path(self@),
    {
        let mut r = "/images/tools/".to_owned();
        let strip = strip_chars_vec();
        let stripped_name = crate::text::remove_chars(self.name.as_str(), &strip);
        r.push_str(stripped_name.as_str());
        r.push_str(".webp");
        r
    }

    /// The image path of this item as a consumable.
    pub fn to_consumable_path(&self) -> (r: String)
        ensures
            r@ == consumable_image_path(self@),
    {
        let mut r = "/images/consumables/".to_owned();
        let strip_full = strip_chars_full_vec();
        let stripped_name = crate::text::remove_chars(self.name.as_str(), &strip_full);
        r.push_str(stripped_name.as_str());
        r.push_str(".webp");
        r
    }
}


/// A variant's display name without spaces.
pub open spec fn compact_variant_name(v: BulletVariant) -> Seq<char> {
    without_chars(v.spec_name(), seq![' '])
}

/// A variant's compact name with a trailing "Bolt" dropped, as crossbow
/// round images are named.
pub open spec fn bolt_stripped_name(v: BulletVariant) -> Seq<char> {
    match v {
        BulletVariant::ChaosBolt => "Chaos"@,
        BulletVariant::ChokeBolt => "Choke"@,
        BulletVariant::ExplosiveBolt => "Explosive"@,
        BulletVariant::PoisonBolt => "Poison"@,
        _ => compact_variant_name(v),
    }
}

/// A variant's compact name with a trailing "Arrow" dropped, as bow round
/// images are named.
pub open spec fn arrow_stripped_name(v: BulletVariant) -> Seq<char> {
    match v {
        BulletVariant::ConcertinaArrow => "Concertina"@,
        BulletVariant::FragArrow => "Frag"@,
        BulletVariant::PoisonArrow => "Poison"@,
        _ => compact_variant_name(v),
    }
}

fn compact_variant(v: &BulletVariant) -> (r: String)
    ensures
        r@ == compact_variant_name(*v),
{
    let name = v.name();
    let spaces = space_vec();
    crate::text::remove_chars(name.as_str(), &spaces)
}

fn bolt_stripped(v: &BulletVariant) -> (r: String)
    ensures
        r@ == bolt_stripped_name(*v),
{
    match v {
        BulletVariant::ChaosBolt => "Chaos".to_owned(),
        BulletVariant::ChokeBolt => "Choke".to_owned(),
        BulletVariant::ExplosiveBolt => "Explosive".to_owned(),
        BulletVariant::PoisonBolt => "Poison".to_owned(),
        _ => compact_variant(v),
    }
}

fn arrow_stripped(v: &BulletVariant) -> (r: String)
    ensures
        r@ == arrow_stripped_name(*v),
{
    match v {
        BulletVariant::ConcertinaArrow => "Concertina".to_owned(),
        BulletVariant::FragArrow => "Frag".to_owned(),
        BulletVariant::PoisonArrow => "Poison".to_owned(),
        _ => compact_variant(v),
    }
}

/// The generic bullet image path for a size, spaces stripped.
pub open spec fn plain_size_svg(size: BulletSize) -> Seq<char> {
    without_chars("/images/bullets/"@ + size.spec_name() + ".svg"@, seq![' '])
}

/// The bullet-size image path, with the special cases for weapons whose
/// rounds carry their own images.
pub open spec fn bullet_size_svg_path(size: BulletSize, weapon: Option<ItemView>) -> Seq<char> {
    match weapon {
        Some(w) => if w.name == "Crossbow"@ || w.name == "Bomb Lance"@ {
            "/images/bullets/CrossbowBolt.svg"@
        } else if w.name == "Hand Crossbow"@ {
            "/images/bullets/Bolt.svg"@
        } else if w.name == "Hunting Bow"@ {
            "/images/bullets/Arrow.svg"@
        } else if w.name == "Dolch 96"@ {
            "/images/bullets/Dolch96.svg"@
        } else if w.name == "Nitro Express Rifle"@ {
            "/images/bullets/Nitro.svg"@
        } else {
            plain_size_svg(size)
        },
        None => plain_size_svg(size),
    }
}

/// The custom-round image path, with the same special cases.
pub open spec fn bullet_variant_svg_path(
    variant: BulletVariant,
    weapon: Option<ItemView>,
    size: BulletSize,
) -> Seq<char> {
    match weapon {
        Some(w) => if w.name == "Crossbow"@ {
            "/images/bullets/Crossbow"@ + bolt_stripped_name(variant) + ".svg"@
        } else if w.name == "Hand Crossbow"@ {
            "/images/bullets/Bolt"@ + bolt_stripped_name(variant) + ".svg"@
        } else if w.name == "Hunting Bow"@ {
            "/images/bullets/Arrow"@ + arrow_stripped_name(variant) + ".svg"@
        } else if w.name == "Nitro Express Rifle"@ {
            "/images/bullets/Nitro"@ + compact_variant_name(variant) + ".svg"@
        } else {
            "/images/bullets/"@ + size.spec_name() + compact_variant_name(variant) + ".svg"@
        },
        None => "/images/bullets/"@ + size.spec_name() + compact_variant_name(variant) + ".svg"@,
    }
}

impl BulletSize {
    /// The image path of this bullet size, for display beside a weapon.
    pub fn to_svg_path(&self, weapon: Option<&GenericItem>) -> (r: String)
        ensures
            r@ == bullet_size_svg_path(*self, match weapon {
                Some(w) => Some(w@),
                None => None,
            }),
    {
        match weapon {
            Some(w) => {
                if w.name == "Crossbow".to_owned() || w.name == "Bomb Lance".to_owned() {
                    "/images/bullets/CrossbowBolt.svg".to_owned()
                } else if w.name == "Hand Crossbow".to_owned() {
                    "/images/bullets/Bolt.svg".to_owned()
                } else if w.name == "Hunting Bow".to_owned() {
                    "/images/bullets/Arrow.svg".to_owned()
                } else if w.name == "Dolch 96".to_owned() {
                    "/images/bullets/Dolch96.svg".to_owned()
                } else if w.name == "Nitro Express Rifle".to_owned() {
                    "/images/bullets/Nitro.svg".to_owned()
                } else {
                    self.plain_svg_path()
                }
            },
            None => self.plain_svg_path(),
        }
    }

    fn plain_svg_path(&self) -> (r: String)
        ensures
            r@ == plain_size_svg(*self),
    {
        let mut full = "/images/bullets/".to_owned();
        let name = self.name();
        full.push_str(name.as_str());
        full.push_str(".svg");
        let spaces = space_vec();
        crate::text::remove_chars(full.as_str(), &spaces)
    }
}

impl BulletVariant {
    /// The image path of this custom round, for display beside a weapon.
    pub fn to_svg_path(&self, weapon: Option<&GenericItem>, size: &BulletSize) -> (r: String)
        ensures
            r@ == bullet_variant_svg_path(*self, match weapon {
                Some(w) => Some(w@),
                None => None,
            }, *size),
    {
        match weapon {
            Some(w) => {
                if w.name == "Crossbow".to_owned() {
                    let mut r = "/images/bullets/Crossbow".to_owned();
                    let stem = bolt_stripped(self);
                    r.push_str(stem.as_str());
                    r.push_str(".svg");
                    r
                } else if w.name == "Hand Crossbow".to_owned() {
                    let mut r = "/images/bullets/Bolt".to_owned();
                    let stem = bolt_stripped(self);
                    r.push_str(stem.as_str());
                    r.push_str(".svg");
                    r
                } else if w.name == "Hunting Bow".to_owned() {
                    let mut r = "/images/bullets/Arrow".to_owned();
                    let stem = arrow_stripped(self);
                    r.push_str(stem.as_str());
                    r.push_str(".svg");
                    r
                } else if w.name == "Nitro Express Rifle".to_owned() {
                    let mut r = "/images/bullets/Nitro".to_owned();
                    let stem = compact_variant(self);
                    r.push_str(stem.as_str());
                    r.push_str(".svg");
                    r
                } else {
                    self.sized_svg_path(size)
                }
            },
            None => self.sized_svg_path(size),
        }
    }

    fn sized_svg_path(&self, size: &BulletSize) -> (r: String)
        ensures
            r@ == "/images/bullets/"@ + size.spec_name() + compact_variant_name(*self) + ".svg"@,
    {
        let mut r = "/images/bullets/".to_owned();
        let sname = size.name();
        r.push_str(sname.as_str());
        let stem = compact_variant(self);
        r.push_str(stem.as_str());
        r.push_str(".svg");
        r
    }
}

} // verus!
