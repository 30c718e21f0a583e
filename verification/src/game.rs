use vstd::prelude::*;

use crate::container::{count_of, Container};
use crate::data::{BlockType, ItemType};
use crate::enum_array::EnumDiscriminant;
use crate::geometry::{offset_fits, spec_offset, Block, BlockPos, Vector3};
use crate::hotbar::{get_held_item, spec_held_item, Hotbar, HOTBAR_SLOTS};
use crate::messages::PlaceBlockMessage;

verus! {

/// A block of this type can be broken with this strength: it is not unbreakable and its
/// hardness is at most the strength.
pub open spec fn spec_can_break(block_type: BlockType, strength: u32) -> bool {
    match block_type.spec_hardness() {
        Some(h) => h <= strength,
        None => false,
    }
}

/// Whether a block of this type can be broken with this strength.
pub fn can_break(block_type: BlockType, strength: u32) -> (b: bool)
    ensures
        b == spec_can_break(block_type, strength),
{
    match block_type.hardness() {
        Some(h) => h <= strength,
        None => false,
    }
}

/// Break the targeted block if the player is strong enough: the player gets the block's
/// item, and the position to clear is returned. Without a target, or against a block too
/// hard to break, nothing happens.
pub fn break_block(target: Option<Block>, strength: u32, inventory: &mut Container) -> (broken: Option<BlockPos>)
    requires
        old(inventory).wf(),
        target matches Some(b) && b.block_type.spec_item_on_break() matches Some(item)
            ==> count_of(old(inventory)@, item) < usize::MAX,
    ensures
        final(inventory).wf(),
        match target {
            Some(b) => if spec_can_break(b.block_type, strength) {
                &&& broken == Some(b.block_pos)
                &&& match b.block_type.spec_item_on_break() {
                    Some(item) => final(inventory)@ == old(inventory)@.update(
                        item.index_of() as int,
                        (count_of(old(inventory)@, item) + 1) as usize,
                    ),
                    None => final(inventory)@ == old(inventory)@,
                }
            } else {
                broken is None && final(inventory)@ == old(inventory)@
            },
            None => broken is None && final(inventory)@ == old(inventory)@,
        },
{
    let b = match target {
        Some(b) => b,
        None => return None,
    };
    if !can_break(b.block_type, strength) {
        return None;
    }
    match b.block_type.item_on_break() {
        Some(item) => inventory.add_item(item, 1),
        None => {},
    }
    Some(b.block_pos)
}

/// The position next to the target block across the face with normal `normal`.
pub fn adjacent_position(target: &Block, normal: &Vector3) -> (p: BlockPos)
    requires
        offset_fits(target.block_pos.0, *normal),
    ensures
        p.0 == spec_offset(target.block_pos.0, *normal),
{
    target.block_pos.offset(normal)
}

/// What placing gives: the block the held item places, when at least one is held and
/// the spot is air.
pub open spec fn spec_place(held: Option<(ItemType, usize)>, pos: BlockPos, current: BlockType) -> Option<PlaceBlockMessage> {
    match held {
        Some((item, count)) => if count > 0 && current == BlockType::Air {
            match item.spec_block() {
                Some(block) => Some(PlaceBlockMessage { pos, block }),
                None => None,
            }
        } else {
            None
        },
        None => None,
    }
}

/// Place the held item as a block at `pos`, whose block is currently `current`.
/// The item must be held (at least one), must be a block, and the spot must be air;
/// then one item leaves the inventory and the placement is returned.
pub fn place_block(
    inventory: &mut Container,
    hotbar: &Hotbar,
    pos: BlockPos,
    current: BlockType,
) -> (placed: Option<PlaceBlockMessage>)
    requires
        old(inventory).wf(),
        hotbar.selected < HOTBAR_SLOTS,
    ensures
        final(inventory).wf(),
        placed == spec_place(spec_held_item(old(inventory)@, hotbar.slots@, hotbar.selected), pos, current),
        match (placed, hotbar.slots@[hotbar.selected as int]) {
            (Some(_), Some(item)) => final(inventory)@ == old(inventory)@.update(
                item.index_of() as int,
                (count_of(old(inventory)@, item) - 1) as usize,
            ),
            _ => final(inventory)@ == old(inventory)@,
        },
{
    let (item, count) = match get_held_item(inventory, hotbar) {
        Some(h) => h,
        None => return None,
    };
    if count == 0 {
        return None;
    }
    let new_block_type = match item.block() {
        Some(b) => b,
        None => return None,
    };
    if current != BlockType::Air {
        return None;
    }
    inventory.remove_item(item, 1);
    Some(PlaceBlockMessage { pos, block: new_block_type })
}

/// Move `count` of `item` from one store to another; the source must hold that many.
pub fn transfer_item(source: &mut Container, dest: &mut Container, item: ItemType, count: usize)
    requires
        old(source).wf(),
        old(dest).wf(),
        count_of(old(source)@, item) >= count,
        count_of(old(dest)@, item) + count <= usize::MAX,
    ensures
        final(source).wf(),
        final(dest).wf(),
        final(source)@ == old(source)@.update(
            item.index_of() as int,
            (count_of(old(source)@, item) - count) as usize,
        ),
        final(dest)@ == old(dest)@.update(
            item.index_of() as int,
            (count_of(old(dest)@, item) + count) as usize,
        ),
{
    source.remove_item(item, count);
    dest.add_item(item, count);
}

/// The blocks worth drawing, in order: those that are not air and are exposed, where
/// `exposed[i]` tells whether `blocks[i]` is.
pub open spec fn spec_visible(blocks: Seq<Block>, exposed: Seq<bool>) -> Seq<Block>
    decreases blocks.len(),
{
    if blocks.len() == 0 {
        Seq::empty()
    } else {
        let rest = spec_visible(blocks.drop_last(), exposed);
        let b = blocks.last();
        if b.block_type.spec_renderable() && exposed[blocks.len() - 1] {
            rest.push(b)
        } else {
            rest
        }
    }
}

/// The blocks to draw: those that are not air and are exposed, in order.
pub fn visible_blocks(blocks: &Vec<Block>, exposed: &Vec<bool>) -> (v: Vec<Block>)
    requires
        exposed.len() == blocks.len(),
    ensures
        v@ == spec_visible(blocks@, exposed@),
{
    let mut v: Vec<Block> = Vec::new();
    let mut i: usize = 0;
    while i < blocks.len()
        invariant
            i <= blocks.len(),
            exposed.len() == blocks.len(),
            v@ == spec_visible(blocks@.take(i as int), exposed@),
        decreases blocks.len() - i,
    {
        let b = blocks[i];
        proof {
            assert(blocks@.take(i + 1).drop_last() == blocks@.take(i as int));
        }
        if b.block_type.renderable() && exposed[i] {
            v.push(b);
        }
        i += 1;
    }
    proof {
        assert(blocks@.take(blocks.len() as int) == blocks@);
    }
    v
}

/// Every block drawn is one of the blocks, is not air, and is exposed.
pub proof fn lemma_visible_blocks_drawable(blocks: Seq<Block>, exposed: Seq<bool>, k: int)
    requires
        exposed.len() == blocks.len(),
        0 <= k < spec_visible(blocks, exposed).len(),
    ensures
        exists|i: int|
            0 <= i < blocks.len() && #[trigger] blocks[i] == spec_visible(blocks, exposed)[k]
                && exposed[i],
        spec_visible(blocks, exposed)[k].block_type != BlockType::Air,
    decreases blocks.len(),
{
    let rest = spec_visible(blocks.drop_last(), exposed.drop_last());
    assert(spec_visible(blocks.drop_last(), exposed) == spec_visible(blocks.drop_last(), exposed.drop_last())) by {
        lemma_visible_prefix_of_flags(blocks.drop_last(), exposed);
    }
    if k < rest.len() {
        lemma_visible_blocks_drawable(blocks.drop_last(), exposed.drop_last(), k);
        let i = choose|i: int|
            0 <= i < blocks.drop_last().len() && #[trigger] blocks.drop_last()[i] == rest[k]
                && exposed.drop_last()[i];
        assert(blocks[i] == blocks.drop_last()[i]);
    } else {
        assert(blocks[blocks.len() - 1] == spec_visible(blocks, exposed)[k]);
    }
}

/// Only the flags of the listed blocks matter.
proof fn lemma_visible_prefix_of_flags(blocks: Seq<Block>, exposed: Seq<bool>)
    requires
        blocks.len() <= exposed.len(),
    ensures
        spec_visible(blocks, exposed) == spec_visible(blocks, exposed.take(blocks.len() as int)),
    decreases blocks.len(),
{
    if blocks.len() > 0 {
        lemma_visible_prefix_of_flags(blocks.drop_last(), exposed);
        lemma_visible_prefix_of_flags(blocks.drop_last(), exposed.take(blocks.len() as int));
        assert(exposed.take(blocks.len() as int).take(blocks.len() - 1) == exposed.take(
            blocks.len() - 1,
        ));
    }
}

/// A transfer keeps the total of the moved item across the two stores, and leaves every
/// other item alone.
pub proof fn lemma_transfer_conserves(
    source: Seq<usize>,
    dest: Seq<usize>,
    item: ItemType,
    count: usize,
    other: ItemType,
)
    requires
        source.len() == ItemType::COUNT,
        dest.len() == ItemType::COUNT,
        count_of(source, item) >= count,
        count_of(dest, item) + count <= usize::MAX,
    ensures
        ({
            let s2 = source.update(item.index_of() as int, (count_of(source, item) - count) as usize);
            let d2 = dest.update(item.index_of() as int, (count_of(dest, item) + count) as usize);
            &&& count_of(s2, item) + count_of(d2, item) == count_of(source, item) + count_of(dest, item)
            &&& other != item ==> count_of(s2, other) == count_of(source, other) && count_of(d2, other) == count_of(dest, other)
        }),
{
    crate::data::lemma_item_index_injective(item, other);
    crate::data::lemma_item_index_injective(other, item);
}

/// How strong a tool breaks each block: air never breaks; dirt, chests and crafters break
/// bare-handed; stone and mossy stone need 10; dark stone and copper 100; void stone,
/// radioactive stone and tin 200; iron and coal 300; magic metal 400.
pub proof fn lemma_breaking_needs(strength: u32)
    ensures
        !spec_can_break(BlockType::Air, strength),
        spec_can_break(BlockType::Dirt, strength),
        spec_can_break(BlockType::Chest, strength),
        spec_can_break(BlockType::Crafter, strength),
        spec_can_break(BlockType::Stone, strength) <==> strength >= 10,
        spec_can_break(BlockType::MossyStone, strength) <==> strength >= 10,
        spec_can_break(BlockType::DarkStone, strength) <==> strength >= 100,
        spec_can_break(BlockType::Copper, strength) <==> strength >= 100,
        spec_can_break(BlockType::VoidStone, strength) <==> strength >= 200,
        spec_can_break(BlockType::RadioactiveStone, strength) <==> strength >= 200,
        spec_can_break(BlockType::Tin, strength) <==> strength >= 200,
        spec_can_break(BlockType::Iron, strength) <==> strength >= 300,
        spec_can_break(BlockType::Coal, strength) <==> strength >= 300,
        spec_can_break(BlockType::MagicMetal, strength) <==> strength >= 400,
{
}

/// Breaking needs strength at least the hardness: a stronger tool breaks whatever a
/// weaker one breaks.
pub proof fn lemma_can_break_monotone(block_type: BlockType, weak: u32, strong: u32)
    requires
        weak <= strong,
        spec_can_break(block_type, weak),
    ensures
        spec_can_break(block_type, strong),
{
}

/// Air can never be broken, and dirt can be broken bare-handed.
pub proof fn lemma_break_extremes(strength: u32)
    ensures
        !spec_can_break(BlockType::Air, strength),
        spec_can_break(BlockType::Dirt, 0),
{
}

} // verus!
