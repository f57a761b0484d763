use vstd::prelude::*;

use crate::kind::{kind_of, derive_kind};

verus! {

/// An accessory definition of the catalog.
pub struct AccessoryData {
    /// Identifier, unique per definition.
    pub id: String,
    /// Category bit flags; definitions with the same mask exclude each other.
    pub mask: i32,
    /// Display/slot category, derived from `mask`.
    pub kind: i32,
    /// Position of this definition in the catalog.
    pub index: i32,
}

impl AccessoryData {
    /// Builds a definition; its kind is derived from `mask`, with `base_kind`
    /// as the category index of the four legacy masks.
    pub fn new(id: String, mask: i32, base_kind: i32, index: i32) -> (r: AccessoryData)
        ensures
            r.id@ == id@,
            r.mask == mask,
            r.kind == kind_of(mask, base_kind),
            r.index == index,
    {
        let mut d = AccessoryData { id, mask, kind: base_kind, index };
        accessorydata_on_build_hook(&mut d);
        d
    }
}

/// Completes a definition once it is built: sets its kind from its mask,
/// taking the kind it had as the base category index.
pub fn accessorydata_on_build_hook(this: &mut AccessoryData)
    ensures
        final(this).kind == kind_of(old(this).mask, old(this).kind),
        final(this).mask == old(this).mask,
        final(this).index == old(this).index,
        final(this).id@ == old(this).id@,
{
    this.kind = derive_kind(this.mask, this.kind);
}

/// Whether `i` is a position of the catalog `cat`.
pub open spec fn in_catalog(cat: Seq<AccessoryData>, i: i32) -> bool {
    0 <= i < cat.len()
}

/// Whether `d` is the catalog's entry at its own index.
pub open spec fn is_entry_of(cat: Seq<AccessoryData>, d: AccessoryData) -> bool {
    in_catalog(cat, d.index) && cat[d.index as int].mask == d.mask && cat[d.index as int].id@
        == d.id@
}

/// The read-only registry of accessory definitions.
pub struct Catalog {
    entries: Vec<AccessoryData>,
}

impl Catalog {
    pub closed spec fn view(&self) -> Seq<AccessoryData> {
        self.entries@
    }

    /// An empty catalog.
    pub fn new() -> (r: Catalog)
        ensures
            r@ == Seq::<AccessoryData>::empty(),
    {
        Catalog { entries: Vec::new() }
    }

    /// Appends a definition.
    pub fn push(&mut self, d: AccessoryData)
        ensures
            final(self)@ == old(self)@.push(d),
    {
        self.entries.push(d);
    }

    pub fn len(&self) -> (r: usize)
        ensures
            r == self@.len(),
    {
        self.entries.len()
    }

    /// The definition at zero-based position `index`, if there is one.
    pub fn get(&self, index: i32) -> (r: Option<&AccessoryData>)
        ensures
            r.is_some() == in_catalog(self@, index),
            r matches Some(d) ==> *d == self@[index as int],
    {
        if index >= 0 && (index as usize) < self.entries.len() {
            Some(&self.entries[index as usize])
        } else {
            None
        }
    }

    /// The first definition whose identifier is `id`, if there is one.
    pub fn find_by_id(&self, id: &String) -> (r: Option<&AccessoryData>)
        ensures
            r.is_some() == (exists|i: int| 0 <= i < self@.len() && self@[i].id@ == id@),
            r matches Some(d) ==> exists|i: int|
                0 <= i < self@.len() && *d == self@[i] && d.id@ == id@ && (forall|j: int|
                    0 <= j < i ==> self@[j].id@ != id@),
    {
        let mut i: usize = 0;
        while i < self.entries.len()
            invariant
                i <= self@.len(),
                forall|j: int| 0 <= j < i ==> self@[j].id@ != id@,
            decreases self@.len() - i,
        {
            if self.entries[i].id == *id {
                return Some(&self.entries[i]);
            }
            i = i + 1;
        }
        None
    }
}

} // verus!
