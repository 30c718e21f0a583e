use vstd::prelude::*;

use crate::container::{count_of, Container};
use crate::data::ItemType;

verus! {

/// The number of hotbar slots.
pub const HOTBAR_SLOTS: usize = 10;

/// The player's quick-access bar: each slot names an item kind, one slot is selected.
pub struct Hotbar {
    pub slots: [Option<ItemType>; 10],
    pub selected: usize,
}

/// The selected slot after one scroll step up or down, wrapping around the slots.
pub open spec fn spec_scroll(selected: usize, up: bool) -> usize {
    if up {
        ((selected + 1) % (HOTBAR_SLOTS as int)) as usize
    } else if selected == 0 {
        (HOTBAR_SLOTS - 1) as usize
    } else {
        (selected - 1) as usize
    }
}

/// The item in the selected slot, with how many of it `counts` holds.
pub open spec fn spec_held_item(counts: Seq<usize>, slots: Seq<Option<ItemType>>, selected: usize) -> Option<(ItemType, usize)> {
    match slots[selected as int] {
        Some(item) => Some((item, count_of(counts, item))),
        None => None,
    }
}

/// How hard a block the holder of `held` can break: the held tool's strength when at
/// least one is held, else 0.
pub open spec fn spec_breaking_strength(held: Option<(ItemType, usize)>) -> u32 {
    match held {
        Some((item, count)) => if count > 0 {
            match item.spec_breaking_strength() {
                Some(s) => s,
                None => 0,
            }
        } else {
            0
        },
        None => 0,
    }
}

impl Hotbar {
    /// An empty hotbar with the first slot selected.
    pub fn new() -> (h: Self)
        ensures
            h.selected == 0,
            forall|i: int| 0 <= i < HOTBAR_SLOTS ==> h.slots@[i] is None,
    {
        Hotbar { slots: [None, None, None, None, None, None, None, None, None, None], selected: 0 }
    }

    /// Move the selected slot up or down by one, wrapping around.
    pub fn scroll(&mut self, up: bool)
        requires
            old(self).selected < usize::MAX,
        ensures
            final(self).selected == spec_scroll(old(self).selected, up),
            final(self).slots == old(self).slots,
    {
        if up {
            self.selected = self.selected + 1;
            self.selected = self.selected % HOTBAR_SLOTS;
        } else {
            if self.selected == 0 {
                self.selected = self.selected + HOTBAR_SLOTS;
            }
            self.selected = self.selected - 1;
        }
    }

    /// Put `item` in slot `slot`, which must exist.
    pub fn set_favourite(&mut self, slot: usize, item: ItemType)
        requires
            slot < HOTBAR_SLOTS,
        ensures
            final(self).slots@ == old(self).slots@.update(slot as int, Some(item)),
            final(self).selected == old(self).selected,
    {
        self.slots[slot] = Some(item);
    }
}

impl Default for Hotbar {
    fn default() -> (h: Self)
        ensures
            h.selected == 0,
            forall|i: int| 0 <= i < HOTBAR_SLOTS ==> h.slots@[i] is None,
    {
        Hotbar::new()
    }
}

/// The item in the selected hotbar slot and how many of it the inventory holds.
pub fn get_held_item(inventory: &Container, hotbar: &Hotbar) -> (held: Option<(ItemType, usize)>)
    requires
        inventory.wf(),
        hotbar.selected < HOTBAR_SLOTS,
    ensures
        held == spec_held_item(inventory@, hotbar.slots@, hotbar.selected),
{
    match hotbar.slots[hotbar.selected] {
        Some(item) => Some((item, inventory.count(item))),
        None => None,
    }
}

/// Each slot's item with how many of it the inventory holds, for display.
pub fn hotbar_contents(inventory: &Container, hotbar: &Hotbar) -> (v: Vec<Option<(ItemType, usize)>>)
    requires
        inventory.wf(),
    ensures
        v.len() == HOTBAR_SLOTS,
        forall|i: int| 0 <= i < HOTBAR_SLOTS ==> #[trigger] v[i] == spec_held_item(inventory@, hotbar.slots@, i as usize),
{
    let mut v: Vec<Option<(ItemType, usize)>> = Vec::new();
    let mut i: usize = 0;
    while i < HOTBAR_SLOTS
        invariant
            inventory.wf(),
            i <= HOTBAR_SLOTS,
            v.len() == i,
            forall|j: int| 0 <= j < i ==> #[trigger] v[j] == spec_held_item(inventory@, hotbar.slots@, j as usize),
        decreases HOTBAR_SLOTS - i,
    {
        let entry = match hotbar.slots[i] {
            Some(item) => Some((item, inventory.count(item))),
            None => None,
        };
        v.push(entry);
        i = i + 1;
    }
    v
}

/// How hard a block the player can break with what the selected slot holds.
pub fn get_breaking_strength(inventory: &Container, hotbar: &Hotbar) -> (s: u32)
    requires
        inventory.wf(),
        hotbar.selected < HOTBAR_SLOTS,
    ensures
        s == spec_breaking_strength(spec_held_item(inventory@, hotbar.slots@, hotbar.selected)),
{
    match get_held_item(inventory, hotbar) {
        Some((item, count)) => {
            if count > 0 {
                match item.breaking_strength() {
                    Some(s) => s,
                    None => 0,
                }
            } else {
                0
            }
        },
        None => 0,
    }
}

/// Scrolling keeps the selection on an existing slot.
pub proof fn lemma_scroll_stays_in_range(selected: usize, up: bool)
    requires
        selected < HOTBAR_SLOTS,
    ensures
        spec_scroll(selected, up) < HOTBAR_SLOTS,
{
}

/// Scrolling up then down, or down then up, returns to the slot one started from.
pub proof fn lemma_scroll_inverse(selected: usize)
    requires
        selected < HOTBAR_SLOTS,
    ensures
        spec_scroll(spec_scroll(selected, true), false) == selected,
        spec_scroll(spec_scroll(selected, false), true) == selected,
{
}

/// The selected slot after `n` scroll steps in the same direction.
pub open spec fn scroll_times(selected: usize, up: bool, n: nat) -> usize
    decreases n,
{
    if n == 0 {
        selected
    } else {
        spec_scroll(scroll_times(selected, up, (n - 1) as nat), up)
    }
}

/// Closed form of repeated scrolling from an existing slot.
proof fn lemma_scroll_times(selected: usize, up: bool, n: nat)
    requires
        selected < HOTBAR_SLOTS,
    ensures
        up ==> scroll_times(selected, up, n) == (selected + n) % 10,
        !up ==> scroll_times(selected, up, n) == (selected + 9 * n) % 10,
    decreases n,
{
    if n > 0 {
        let m = (n - 1) as nat;
        lemma_scroll_times(selected, up, m);
        if up {
            vstd::arithmetic::div_mod::lemma_add_mod_noop(selected + m, 1, 10);
        } else {
            vstd::arithmetic::div_mod::lemma_add_mod_noop(selected + 9 * m, 9, 10);
        }
    }
}

/// Scrolling once per slot in the same direction comes back to the same slot.
pub proof fn lemma_scroll_full_turn(selected: usize, up: bool)
    requires
        selected < HOTBAR_SLOTS,
    ensures
        scroll_times(selected, up, HOTBAR_SLOTS as nat) == selected,
{
    lemma_scroll_times(selected, up, HOTBAR_SLOTS as nat);
}

} // verus!
