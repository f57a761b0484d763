use vstd::prelude::*;

use crate::catalog::{AccessoryData, Catalog, in_catalog, is_entry_of};

verus! {

/// The reference an empty slot holds.
pub const EMPTY: i32 = 0;

/// Number of slots of a table in the current configuration.
pub const CAPACITY: usize = 16;

/// Number of slots of a table in the legacy configuration.
pub const LEGACY_CAPACITY: usize = 4;

/// Whether slot reference `r` designates a definition of `cat`.
pub open spec fn resolves(cat: Seq<AccessoryData>, r: i32) -> bool {
    r != EMPTY && in_catalog(cat, r)
}

/// Whether slot reference `r` designates a definition of `cat` with mask `mask`.
pub open spec fn has_mask(cat: Seq<AccessoryData>, r: i32, mask: i32) -> bool {
    resolves(cat, r) && cat[r as int].mask == mask
}

/// `slots` with every reference to a definition of mask `mask` emptied.
pub open spec fn clear_mask(slots: Seq<i32>, cat: Seq<AccessoryData>, mask: i32) -> Seq<i32> {
    Seq::new(slots.len(), |i: int| if has_mask(cat, slots[i], mask) { EMPTY } else { slots[i] })
}

/// Whether `i` is the first empty position of `slots`.
pub open spec fn is_first_empty(slots: Seq<i32>, i: int) -> bool {
    0 <= i < slots.len() && slots[i] == EMPTY && forall|j: int| 0 <= j < i ==> slots[j] != EMPTY
}

/// `slots` with `r` placed at `slot`, or, where `slot` lies past the end, at
/// the first empty position if there is one.
pub open spec fn place(slots: Seq<i32>, slot: usize, r: i32) -> Seq<i32> {
    if slot < slots.len() {
        slots.update(slot as int, r)
    } else if exists|i: int| is_first_empty(slots, i) {
        slots.update(choose|i: int| is_first_empty(slots, i), r)
    } else {
        slots
    }
}

/// The slots after equipping `target` at `slot`.
pub open spec fn equipped(
    slots: Seq<i32>,
    cat: Seq<AccessoryData>,
    target: AccessoryData,
    slot: usize,
) -> Seq<i32> {
    place(clear_mask(slots, cat, target.mask), slot, target.index)
}

/// Whether some slot designates a definition with identifier `id`.
pub open spec fn holds_id(slots: Seq<i32>, cat: Seq<AccessoryData>, id: Seq<char>) -> bool {
    exists|i: int| 0 <= i < slots.len() && resolves(cat, slots[i]) && cat[slots[i] as int].id@ == id
}

/// `dest` with each position that `src` also has taken from `src`.
pub open spec fn copy_prefix(dest: Seq<i32>, src: Seq<i32>) -> Seq<i32> {
    Seq::new(dest.len(), |i: int| if i < src.len() { src[i] } else { dest[i] })
}

/// After equipping a catalog entry, at most one slot designates a definition
/// with that entry's mask.
proof fn lemma_equip_leaves_one(slots: Seq<i32>, cat: Seq<AccessoryData>, target: AccessoryData, slot: usize)
    requires
        is_entry_of(cat, target),
    ensures
        forall|i: int, j: int|
            0 <= i < slots.len() && 0 <= j < slots.len()
                && has_mask(cat, #[trigger] equipped(slots, cat, target, slot)[i], target.mask)
                && has_mask(cat, #[trigger] equipped(slots, cat, target, slot)[j], target.mask)
                ==> i == j,
{
    let cleared = clear_mask(slots, cat, target.mask);
    assert forall|i: int| 0 <= i < cleared.len() implies !has_mask(cat, #[trigger] cleared[i], target.mask) by {
        if has_mask(cat, slots[i], target.mask) {
            assert(cleared[i] == EMPTY);
        }
    }
    let res = equipped(slots, cat, target, slot);
    if slot >= cleared.len() && exists|i: int| is_first_empty(cleared, i) {
        let c = choose|i: int| is_first_empty(cleared, i);
        assert(res == cleared.update(c, target.index));
    }
}

/// Exclusivity: after two equips of definitions of the catalog that share a
/// mask, at most one slot designates a definition with that mask.
pub proof fn lemma_equip_exclusive(
    slots: Seq<i32>,
    cat: Seq<AccessoryData>,
    a: AccessoryData,
    slot_a: usize,
    b: AccessoryData,
    slot_b: usize,
)
    requires
        is_entry_of(cat, a),
        is_entry_of(cat, b),
        a.mask == b.mask,
    ensures
        ({
            let res = equipped(equipped(slots, cat, a, slot_a), cat, b, slot_b);
            forall|i: int, j: int|
                0 <= i < res.len() && 0 <= j < res.len() && has_mask(cat, #[trigger] res[i], b.mask)
                    && has_mask(cat, #[trigger] res[j], b.mask) ==> i == j
        }),
{
    let mid = equipped(slots, cat, a, slot_a);
    lemma_equip_leaves_one(mid, cat, b, slot_b);
}

/// A fixed-capacity table of equip slots, each holding a catalog reference.
pub struct SlotTable {
    slots: Vec<i32>,
}

impl SlotTable {
    pub closed spec fn view(&self) -> Seq<i32> {
        self.slots@
    }

    /// Whether the table's capacity is within the configured bound.
    pub open spec fn wf(&self) -> bool {
        self@.len() <= CAPACITY
    }

    /// An empty table with `capacity` slots.
    pub fn new(capacity: usize) -> (r: SlotTable)
        requires
            capacity <= CAPACITY,
        ensures
            r@ == Seq::new(capacity as nat, |i: int| EMPTY),
            r.wf(),
    {
        let mut slots: Vec<i32> = Vec::new();
        while slots.len() < capacity
            invariant
                slots.len() <= capacity,
                forall|i: int| 0 <= i < slots.len() ==> slots@[i] == EMPTY,
            decreases capacity - slots.len(),
        {
            slots.push(EMPTY);
        }
        let r = SlotTable { slots };
        assert(r@ =~= Seq::new(capacity as nat, |i: int| EMPTY));
        r
    }

    /// Number of slots.
    pub fn len(&self) -> (r: usize)
        ensures
            r == self@.len(),
    {
        self.slots.len()
    }

    /// Puts reference `r` at position `i`.
    pub fn set(&mut self, i: usize, r: i32)
        requires
            i < old(self)@.len(),
        ensures
            final(self)@ == old(self)@.update(i as int, r),
    {
        self.slots.set(i, r);
    }

    /// The reference held at position `i`.
    pub fn get(&self, i: usize) -> (r: i32)
        requires
            i < self@.len(),
        ensures
            r == self@[i as int],
    {
        self.slots[i]
    }
}

/// A new table of the current capacity, all slots empty.
pub fn unitaccessorylist_ctor_hook() -> (r: SlotTable)
    ensures
        r@ == Seq::new(CAPACITY as nat, |i: int| EMPTY),
        r.wf(),
{
    SlotTable::new(CAPACITY)
}

/// The slot count reported for every table: the current capacity.
pub fn unitaccessorylist_get_count(this: &SlotTable) -> (r: i32)
    ensures
        r == CAPACITY as i32,
{
    CAPACITY as i32
}

/// Empties every slot.
pub fn unitaccessorylist_clear_hook(this: &mut SlotTable)
    ensures
        final(this)@ == Seq::new(old(this)@.len(), |i: int| EMPTY),
{
    let n = this.slots.len();
    let mut i: usize = 0;
    while i < n
        invariant
            n == old(this)@.len(),
            this@.len() == n,
            i <= n,
            forall|j: int| 0 <= j < i ==> this@[j] == EMPTY,
        decreases n - i,
    {
        this.slots.set(i, EMPTY);
        i = i + 1;
    }
    assert(this@ =~= Seq::new(n as nat, |i: int| EMPTY));
}

/// Copies `list`'s references position by position into the positions that
/// both tables have; the other positions of `this` stay as they were.
pub fn unitaccessorylist_copyfrom_hook(this: &mut SlotTable, list: &SlotTable)
    ensures
        final(this)@ == copy_prefix(old(this)@, list@),
{
    let n = if this.slots.len() < list.slots.len() { this.slots.len() } else { list.slots.len() };
    let mut i: usize = 0;
    while i < n
        invariant
            n <= old(this)@.len(),
            n <= list@.len(),
            this@.len() == old(this)@.len(),
            i <= n,
            forall|j: int| 0 <= j < i ==> this@[j] == list@[j],
            forall|j: int| i <= j < this@.len() ==> this@[j] == old(this)@[j],
        decreases n - i,
    {
        this.slots.set(i, list.slots[i]);
        i = i + 1;
    }
    assert(this@ =~= copy_prefix(old(this)@, list@));
}

/// Equips `accessory` at position `index`. Every slot that designates a
/// definition with the same mask is emptied first. Where `index` lies past
/// the end the accessory goes to the first empty slot, if any. Returns
/// whether an accessory was supplied; with none the table is unchanged.
/// An `index` equal to the slot count is neither a slot nor past the end,
/// and is not accepted.
pub fn unitaccessorylist_add_hook(
    this: &mut SlotTable,
    catalog: &Catalog,
    accessory: Option<&AccessoryData>,
    index: usize,
) -> (r: bool)
    requires
        index != old(this)@.len(),
    ensures
        r == accessory.is_some(),
        accessory matches Some(a) ==> final(this)@ == equipped(old(this)@, catalog@, *a, index),
        accessory.is_none() ==> final(this)@ == old(this)@,
{
    match accessory {
        None => false,
        Some(acc) => {
            let n = this.slots.len();
            let ghost cleared = clear_mask(old(this)@, catalog@, acc.mask);
            let mut i: usize = 0;
            while i < n
                invariant
                    accessory == Some(acc),
                    n == old(this)@.len(),
                    this@.len() == n,
                    i <= n,
                    cleared == clear_mask(old(this)@, catalog@, acc.mask),
                    forall|j: int| 0 <= j < i ==> this@[j] == cleared[j],
                    forall|j: int| i <= j < n ==> this@[j] == old(this)@[j],
                decreases n - i,
            {
                let r = this.slots[i];
                if r != EMPTY {
                    match catalog.get(r) {
                        Some(found) => {
                            if found.mask == acc.mask {
                                this.slots.set(i, EMPTY);
                            }
                        },
                        None => {},
                    }
                }
                i = i + 1;
            }
            assert(this@ =~= cleared);
            if index < n {
                this.slots.set(index, acc.index);
            } else {
                let mut k: usize = 0;
                while k < n
                    invariant
                        accessory == Some(acc),
                        n <= index,
                        n == old(this)@.len(),
                        cleared == clear_mask(old(this)@, catalog@, acc.mask),
                        this@ == cleared,
                        n == cleared.len(),
                        k <= n,
                        forall|j: int| 0 <= j < k ==> cleared[j] != EMPTY,
                    decreases n - k,
                {
                    if this.slots[k] == EMPTY {
                        proof {
                            assert(is_first_empty(cleared, k as int));
                            let c = choose|c: int| is_first_empty(cleared, c);
                            assert(c == k as int);
                        }
                        this.slots.set(k, acc.index);
                        return true;
                    }
                    k = k + 1;
                }
            }
            true
        },
    }
}

/// Whether some slot designates a definition with `accessory`'s identifier;
/// false when no accessory is supplied.
pub fn unitaccessorylist_is_exist_hook(
    this: &SlotTable,
    catalog: &Catalog,
    accessory: Option<&AccessoryData>,
) -> (r: bool)
    ensures
        r == (accessory matches Some(a) && holds_id(this@, catalog@, a.id@)),
{
    match accessory {
        None => false,
        Some(acc) => {
            let mut i: usize = 0;
            while i < this.slots.len()
                invariant
                    accessory == Some(acc),
                    i <= this@.len(),
                    forall|j: int|
                        0 <= j < i ==> !(resolves(catalog@, #[trigger] this@[j]) && catalog@[this@[j] as int].id@
                            == acc.id@),
                decreases this@.len() - i,
            {
                let r = this.slots[i];
                if r != EMPTY {
                    match catalog.get(r) {
                        Some(found) => {
                            if found.id == acc.id {
                                assert(resolves(catalog@, this@[i as int]));
                                return true;
                            }
                        },
                        None => {},
                    }
                }
                i = i + 1;
            }
            false
        },
    }
}

} // verus!
