//! The user-tunable rule set: toggle options, an optional cost ceiling,
//! and a per-tool-slot preference. An "always" option depends on its base
//! option, and the three slot-shape "always" options exclude one another.

use vstd::prelude::*;

use crate::content::ToolSlotPreference;

verus! {

/// A rule the user can switch on.
#[derive(Clone, Copy, PartialEq, Eq, Structural, Debug)]
pub enum ToggleOption {
    DualWield,
    DuplicateWeapons,
    CustomAmmo,
    Quartermaster,
    AlwaysDualWield,
    AlwaysDuplicateWeapons,
    AlwaysCustomAmmo,
    AlwaysQuartermaster,
}

/// The "always" option that depends on a base option, if the option is a
/// base option.
pub open spec fn dependent_option(base: ToggleOption) -> Option<ToggleOption> {
    match base {
        ToggleOption::DualWield => Some(ToggleOption::AlwaysDualWield),
        ToggleOption::DuplicateWeapons => Some(ToggleOption::AlwaysDuplicateWeapons),
        ToggleOption::CustomAmmo => Some(ToggleOption::AlwaysCustomAmmo),
        ToggleOption::Quartermaster => Some(ToggleOption::AlwaysQuartermaster),
        _ => None,
    }
}

/// The rule set: enabled options, a rank ceiling (reserved), an optional
/// total-cost ceiling, and one preference per tool slot.
pub struct Config {
    pub toggled_options: Vec<ToggleOption>,
    pub max_rank: u8,
    pub max_cost: Option<u16>,
    pub tool_preferences: Vec<ToolSlotPreference>,
}

/// What the randomizer observes of a rule set.
pub struct ConfigView {
    pub options: Seq<ToggleOption>,
    pub max_rank: u8,
    pub max_cost: Option<u16>,
    pub tool_preferences: Seq<ToolSlotPreference>,
}

impl ConfigView {
    /// A well-formed rule set lists each enabled option once and carries
    /// exactly one preference per tool slot.
    pub open spec fn wf(self) -> bool {
        self.options.no_duplicates() && self.tool_preferences.len() == 4
    }

    /// Whether an option is enabled.
    pub open spec fn has(self, option: ToggleOption) -> bool {
        self.options.contains(option)
    }
}

impl View for Config {
    type V = ConfigView;

    open spec fn view(&self) -> ConfigView {
        ConfigView {
            options: self.toggled_options@,
            max_rank: self.max_rank,
            max_cost: self.max_cost,
            tool_preferences: self.tool_preferences@,
        }
    }
}

impl Clone for Config {
    fn clone(&self) -> (r: Self)
        ensures
            r@ == self@,
    {
        Config {
            toggled_options: crate::util::copy_vec(&self.toggled_options),
            max_rank: self.max_rank,
            max_cost: self.max_cost,
            tool_preferences: crate::util::copy_vec(&self.tool_preferences),
        }
    }
}

impl Default for Config {
    /// The session defaults: dual wield, duplicate weapons and custom ammo
    /// allowed; no cost ceiling; no tool preferences.
    fn default() -> (r: Self)
        ensures
            r@.wf(),
            r@.options == seq![
                ToggleOption::DualWield,
                ToggleOption::DuplicateWeapons,
                ToggleOption::CustomAmmo,
            ],
            r@.max_rank == 100,
            r@.max_cost is None,
            r@.tool_preferences == seq![
                ToolSlotPreference::NoPreference,
                ToolSlotPreference::NoPreference,
                ToolSlotPreference::NoPreference,
                ToolSlotPreference::NoPreference,
            ],
    {
        let mut toggled_options: Vec<ToggleOption> = Vec::new();
        toggled_options.push(ToggleOption::DualWield);
        toggled_options.push(ToggleOption::DuplicateWeapons);
        toggled_options.push(ToggleOption::CustomAmmo);
        let mut tool_preferences: Vec<ToolSlotPreference> = Vec::new();
        tool_preferences.push(ToolSlotPreference::NoPreference);
        tool_preferences.push(ToolSlotPreference::NoPreference);
        tool_preferences.push(ToolSlotPreference::NoPreference);
        tool_preferences.push(ToolSlotPreference::NoPreference);
        proof {
            assert(toggled_options@ =~= seq![
                ToggleOption::DualWield,
                ToggleOption::DuplicateWeapons,
                ToggleOption::CustomAmmo,
            ]);
            assert(tool_preferences@ =~= seq![
                ToolSlotPreference::NoPreference,
                ToolSlotPreference::NoPreference,
                ToolSlotPreference::NoPreference,
                ToolSlotPreference::NoPreference,
            ]);
            assert(toggled_options@.no_duplicates());
        }
        Config { toggled_options, max_rank: 100, max_cost: None, tool_preferences }
    }
}

fn option_position(v: &Vec<ToggleOption>, option: ToggleOption) -> (r: Option<usize>)
    ensures
        match r {
            Some(i) => i < v@.len() && v@[i as int] == option,
            None => !v@.contains(option),
        },
{
    let mut i: usize = 0;
    while i < v.len()
        invariant
            i <= v.len(),
            forall|k: int| 0 <= k < i ==> v@[k] != option,
        decreases v.len() - i,
    {
        if v[i] == option {
            return Some(i);
        }
        i = i + 1;
    }
    None
}

impl Config {
    /// Whether an option is currently enabled.
    pub fn option_exists(&self, option: ToggleOption) -> (r: bool)
        ensures
            r == self@.has(option),
    {
        match option_position(&self.toggled_options, option) {
            Some(_) => true,
            None => false,
        }
    }

    /// Disables an option; enabling state of every other option is kept.
    pub fn remove_option(&mut self, option: ToggleOption)
        requires
            old(self)@.wf(),
        ensures
            final(self)@.wf(),
            !final(self)@.has(option),
            forall|o: ToggleOption| o != option ==> final(self)@.has(o) == old(self)@.has(o),
            final(self)@.max_rank == old(self)@.max_rank,
            final(self)@.max_cost == old(self)@.max_cost,
            final(self)@.tool_preferences == old(self)@.tool_preferences,
    {
        match option_position(&self.toggled_options, option) {
            Some(option_pos) => {
                let ghost before = self.toggled_options@;
                self.toggled_options.remove(option_pos);
                proof {
                    lemma_remove_occurrence(before, option_pos as int);
                }
            },
            None => {},
        }
    }

    /// Flips an option: disables it when enabled, enables it when
    /// disabled. Every other option keeps its state.
    pub fn toggle_option(&mut self, option: ToggleOption)
        requires
            old(self)@.wf(),
        ensures
            final(self)@.wf(),
            final(self)@.has(option) == !old(self)@.has(option),
            forall|o: ToggleOption| o != option ==> final(self)@.has(o) == old(self)@.has(o),
            final(self)@.max_rank == old(self)@.max_rank,
            final(self)@.max_cost == old(self)@.max_cost,
            final(self)@.tool_preferences == old(self)@.tool_preferences,
    {
        match option_position(&self.toggled_options, option) {
            Some(option_pos) => {
                let ghost before = self.toggled_options@;
                self.toggled_options.remove(option_pos);
                proof {
                    lemma_remove_occurrence(before, option_pos as int);
                }
            },
            None => {
                self.toggled_options.push(option);
                proof {
                    lemma_push_new(old(self).toggled_options@, option);
                }
            },
        }
    }

    /// Flips a base option; when it turns off, its dependent "always"
    /// option is cleared with it.
    pub fn toggle_base_option(&mut self, base: ToggleOption)
        requires
            old(self)@.wf(),
            dependent_option(base) is Some,
        ensures
            final(self)@.wf(),
            final(self)@.has(base) == !old(self)@.has(base),
            !final(self)@.has(base) ==> !final(self)@.has(dependent_option(base)->Some_0),
            forall|o: ToggleOption|
                o != base && (final(self)@.has(base) || o != dependent_option(base)->Some_0)
                    ==> final(self)@.has(o) == old(self)@.has(o),
            final(self)@.tool_preferences == old(self)@.tool_preferences,
            final(self)@.max_cost == old(self)@.max_cost,
    {
        self.toggle_option(base);
        if !self.option_exists(base) {
            match base {
                ToggleOption::DualWield => self.remove_option(ToggleOption::AlwaysDualWield),
                ToggleOption::DuplicateWeapons => self.remove_option(
                    ToggleOption::AlwaysDuplicateWeapons,
                ),
                ToggleOption::CustomAmmo => self.remove_option(ToggleOption::AlwaysCustomAmmo),
                ToggleOption::Quartermaster => self.remove_option(
                    ToggleOption::AlwaysQuartermaster,
                ),
                _ => unreached(),
            }
        }
    }

    /// Flips an "always" option; enabling one of the three mutually
    /// exclusive slot-shape options clears the other two.
    pub fn toggle_always_option(&mut self, always: ToggleOption)
        requires
            old(self)@.wf(),
            always is AlwaysDualWield || always is AlwaysDuplicateWeapons || always
                is AlwaysCustomAmmo || always is AlwaysQuartermaster,
        ensures
            final(self)@.wf(),
            final(self)@.has(always) == !old(self)@.has(always),
            always is AlwaysDualWield || always is AlwaysDuplicateWeapons ==> !final(self)@.has(
                ToggleOption::AlwaysQuartermaster,
            ) || always is AlwaysQuartermaster,
            always is AlwaysQuartermaster ==> !final(self)@.has(ToggleOption::AlwaysDualWield)
                && !final(self)@.has(ToggleOption::AlwaysDuplicateWeapons),
            final(self)@.tool_preferences == old(self)@.tool_preferences,
            final(self)@.max_cost == old(self)@.max_cost,
    {
        self.toggle_option(always);
        match always {
            ToggleOption::AlwaysDualWield => self.remove_option(ToggleOption::AlwaysQuartermaster),
            ToggleOption::AlwaysDuplicateWeapons => self.remove_option(
                ToggleOption::AlwaysQuartermaster,
            ),
            ToggleOption::AlwaysQuartermaster => {
                self.remove_option(ToggleOption::AlwaysDualWield);
                self.remove_option(ToggleOption::AlwaysDuplicateWeapons);
            },
            ToggleOption::AlwaysCustomAmmo => {},
            _ => unreached(),
        }
    }
}

/// Removing the index of an occurrence from a duplicate-free sequence
/// removes the element, keeps every other element, and keeps the sequence
/// duplicate-free.
proof fn lemma_remove_occurrence(s: Seq<ToggleOption>, i: int)
    requires
        s.no_duplicates(),
        0 <= i < s.len(),
    ensures
        !s.remove(i).contains(s[i]),
        forall|o: ToggleOption| o != s[i] ==> (s.remove(i).contains(o) == s.contains(o)),
        s.remove(i).no_duplicates(),
{
    let r = s.remove(i);
    assert forall|o: ToggleOption| o != s[i] implies (r.contains(o) == s.contains(o)) by {
        if s.contains(o) {
            let k = choose|k: int| 0 <= k < s.len() && s[k] == o;
            if k < i {
                assert(r[k] == o);
            } else {
                assert(r[k - 1] == o);
            }
        }
        if r.contains(o) {
            let k = choose|k: int| 0 <= k < r.len() && r[k] == o;
            if k < i {
                assert(s[k] == o);
            } else {
                assert(s[k + 1] == o);
            }
        }
    }
    assert forall|k: int| 0 <= k < r.len() implies r[k] != s[i] by {
        if k < i {
            assert(r[k] == s[k]);
        } else {
            assert(r[k] == s[k + 1]);
        }
    }
    if r.contains(s[i]) {
        let k = choose|k: int| 0 <= k < r.len() && r[k] == s[i];
        assert(r[k] != s[i]);
    }
}

/// Appending an element that does not occur keeps a sequence
/// duplicate-free, and changes containment for that element alone.
proof fn lemma_push_new(s: Seq<ToggleOption>, o: ToggleOption)
    requires
        s.no_duplicates(),
        !s.contains(o),
    ensures
        s.push(o).no_duplicates(),
        s.push(o).contains(o),
        forall|x: ToggleOption| x != o ==> (s.push(o).contains(x) == s.contains(x)),
{
    let r = s.push(o);
    assert(r[r.len() - 1] == o);
    assert forall|x: ToggleOption| x != o implies (r.contains(x) == s.contains(x)) by {
        if s.contains(x) {
            let k = choose|k: int| 0 <= k < s.len() && s[k] == x;
            assert(r[k] == x);
        }
        if r.contains(x) {
            let k = choose|k: int| 0 <= k < r.len() && r[k] == x;
            assert(k < s.len());
            assert(s[k] == x);
        }
    }
}

} // verus!
