use vstd::prelude::*;
use vstd::arithmetic::power2::{pow2, lemma2_to64, lemma_pow2_strictly_increases};

verus! {

/// Whether `mask` is one of the four legacy single-bit category masks.
pub open spec fn is_legacy_mask(mask: i32) -> bool {
    mask == 1 || mask == 2 || mask == 4 || mask == 8
}

/// Whether `mask` is `2^k` for some `k` in `4..=16`.
pub open spec fn is_high_mask(mask: i32) -> bool {
    exists|k: nat| 4 <= k <= 16 && mask as int == pow2(k)
}

/// The category kind of a definition with category mask `mask`, whose
/// externally supplied base category index is `base`.
pub open spec fn kind_of(mask: i32, base: i32) -> i32 {
    if is_legacy_mask(mask) {
        base
    } else if is_high_mask(mask) {
        (choose|k: nat| 4 <= k <= 16 && mask as int == pow2(k)) as i32
    } else {
        1
    }
}

/// A high single-bit mask `2^k` has kind `k`.
pub proof fn lemma_high_kind(mask: i32, base: i32, k: nat)
    requires
        4 <= k <= 16,
        mask as int == pow2(k),
    ensures
        kind_of(mask, base) == k as i32,
{
    lemma2_to64();
    if k > 4 {
        lemma_pow2_strictly_increases(4, k);
    }
    assert(is_high_mask(mask));
    let c = choose|c: nat| 4 <= c <= 16 && mask as int == pow2(c);
    if c < k {
        lemma_pow2_strictly_increases(c, k);
    } else if c > k {
        lemma_pow2_strictly_increases(k, c);
    }
}

/// Derives the category kind from a category mask.
pub fn derive_kind(mask: i32, base: i32) -> (r: i32)
    ensures
        r == kind_of(mask, base),
{
    proof { lemma2_to64(); }
    if mask == 1 || mask == 2 || mask == 4 || mask == 8 {
        return base;
    }
    let mut k: i32 = 4;
    let mut p: i32 = 16;
    while k <= 16
        invariant
            4 <= k <= 17,
            p as int == pow2(k as nat),
            forall|j: nat| 4 <= j < k ==> mask as int != pow2(j),
        decreases 17 - k,
    {
        if mask == p {
            proof { lemma_high_kind(mask, base, k as nat); }
            return k;
        }
        proof { lemma2_to64(); }
        p = p * 2;
        k = k + 1;
    }
    proof {
        if is_high_mask(mask) {
            let c = choose|c: nat| 4 <= c <= 16 && mask as int == pow2(c);
            assert(mask as int != pow2(c));
        }
    }
    1
}

/// A mask that is neither a legacy mask nor `2^k` for `k` in `4..=16` has kind 1.
pub proof fn lemma_other_kind(mask: i32, base: i32)
    requires
        !is_legacy_mask(mask),
        forall|k: nat| 4 <= k <= 16 ==> mask as int != pow2(k),
    ensures
        kind_of(mask, base) == 1,
{
}

/// The four legacy category masks.
#[derive(Debug, PartialEq, Eq, Structural, Clone, Copy)]
pub enum AccessoryDataMasks {
    Body,
    Head,
    Face,
    Back,
}

impl AccessoryDataMasks {
    /// The mask's bit value.
    pub fn value(self) -> (r: i32)
        ensures
            r == match self {
                AccessoryDataMasks::Body => 1i32,
                AccessoryDataMasks::Head => 2i32,
                AccessoryDataMasks::Face => 4i32,
                AccessoryDataMasks::Back => 8i32,
            },
            is_legacy_mask(r),
    {
        match self {
            AccessoryDataMasks::Body => 1,
            AccessoryDataMasks::Head => 2,
            AccessoryDataMasks::Face => 4,
            AccessoryDataMasks::Back => 8,
        }
    }
}

/// The four legacy category kinds.
#[derive(Debug, PartialEq, Eq, Structural, Clone, Copy)]
pub enum AccessoryDataKinds {
    Body,
    Head,
    Face,
    Back,
}

impl AccessoryDataKinds {
    /// The kind's category index.
    pub fn value(self) -> (r: i32)
        ensures
            r == match self {
                AccessoryDataKinds::Body => 0i32,
                AccessoryDataKinds::Head => 1i32,
                AccessoryDataKinds::Face => 2i32,
                AccessoryDataKinds::Back => 3i32,
            },
    {
        match self {
            AccessoryDataKinds::Body => 0,
            AccessoryDataKinds::Head => 1,
            AccessoryDataKinds::Face => 2,
            AccessoryDataKinds::Back => 3,
        }
    }
}

/// Where the icon of a category kind comes from.
#[derive(Debug, Clone, Copy)]
pub enum KindIcon {
    /// A sprite that the host's system icon set holds, by name.
    System(&'static str),
    /// A bundled PNG image, by file name.
    Bundled(&'static str),
}

/// The icon of category kind `kind`. Kind 4 is reserved by the host and
/// has no icon of its own.
pub open spec fn icon_of(kind: i32) -> KindIcon {
    if kind == 0 {
        KindIcon::System("Clothes")
    } else if kind == 1 {
        KindIcon::Bundled("Hat.png")
    } else if kind == 2 {
        KindIcon::System("Face")
    } else if kind == 3 {
        KindIcon::Bundled("Pose.png")
    } else if kind == 5 {
        KindIcon::Bundled("BattleOutfit.png")
    } else if kind == 6 {
        KindIcon::Bundled("Dye.png")
    } else if kind == 7 {
        KindIcon::Bundled("Style.png")
    } else if kind == 8 {
        KindIcon::Bundled("Head.png")
    } else if kind == 9 {
        KindIcon::Bundled("Hair.png")
    } else if kind == 10 {
        KindIcon::Bundled("Scaling.png")
    } else if kind == 11 {
        KindIcon::Bundled("SkinColor.png")
    } else if kind == 12 {
        KindIcon::Bundled("Voice.png")
    } else if kind == 13 {
        KindIcon::Bundled("MaskColor.png")
    } else if kind == 14 {
        KindIcon::Bundled("Accessory2.png")
    } else if kind == 15 {
        KindIcon::Bundled("NoEngage.png")
    } else {
        KindIcon::Bundled("Placeholder.png")
    }
}

/// The icon to show for category kind `accessory_kinds`.
pub fn gameicon_try_get_accessory_kinds_hook(accessory_kinds: i32) -> (r: KindIcon)
    ensures
        r == icon_of(accessory_kinds),
{
    match accessory_kinds {
        0 => KindIcon::System("Clothes"),
        1 => KindIcon::Bundled("Hat.png"),
        2 => KindIcon::System("Face"),
        3 => KindIcon::Bundled("Pose.png"),
        5 => KindIcon::Bundled("BattleOutfit.png"),
        6 => KindIcon::Bundled("Dye.png"),
        7 => KindIcon::Bundled("Style.png"),
        8 => KindIcon::Bundled("Head.png"),
        9 => KindIcon::Bundled("Hair.png"),
        10 => KindIcon::Bundled("Scaling.png"),
        11 => KindIcon::Bundled("SkinColor.png"),
        12 => KindIcon::Bundled("Voice.png"),
        13 => KindIcon::Bundled("MaskColor.png"),
        14 => KindIcon::Bundled("Accessory2.png"),
        15 => KindIcon::Bundled("NoEngage.png"),
        _ => KindIcon::Bundled("Placeholder.png"),
    }
}

/// The label identifier of the shop part for category kind `kind`.
pub open spec fn label_of(kind: usize) -> &'static str {
    if kind == 5 {
        "MID_MENU_ACCESSORY_SHOP_PART_OUTFIT_BATTLE"
    } else if kind == 6 {
        "MID_MENU_ACCESSORY_SHOP_PART_DYE"
    } else if kind == 7 {
        "MID_MENU_ACCESSORY_SHOP_PART_STYLE"
    } else if kind == 8 {
        "MID_MENU_ACCESSORY_SHOP_PART_HEAD"
    } else if kind == 9 {
        "MID_MENU_ACCESSORY_SHOP_PART_HAIR"
    } else if kind == 10 {
        "MID_MENU_ACCESSORY_SHOP_PART_SCALING"
    } else if kind == 11 {
        "MID_MENU_ACCESSORY_SHOP_PART_SKINCOLOR"
    } else if kind == 12 {
        "MID_MENU_ACCESSORY_SHOP_PART_VOICE"
    } else if kind == 13 {
        "MID_MENU_ACCESSORY_SHOP_PART_MASKCOLOR"
    } else if kind == 14 {
        "MID_MENU_ACCESSORY_SHOP_PART_ACCESSORY2"
    } else if kind == 15 {
        "MID_MENU_ACCESSORY_SHOP_PART_NOENGAGE"
    } else {
        "MID_MENU_ACCESSORY_SHOP_PART_PLACEHOLDER"
    }
}

/// The label identifier of the shop part for category kind `kind`.
pub fn part_label_id(kind: usize) -> (r: &'static str)
    ensures
        r == label_of(kind),
{
    match kind {
        5 => "MID_MENU_ACCESSORY_SHOP_PART_OUTFIT_BATTLE",
        6 => "MID_MENU_ACCESSORY_SHOP_PART_DYE",
        7 => "MID_MENU_ACCESSORY_SHOP_PART_STYLE",
        8 => "MID_MENU_ACCESSORY_SHOP_PART_HEAD",
        9 => "MID_MENU_ACCESSORY_SHOP_PART_HAIR",
        10 => "MID_MENU_ACCESSORY_SHOP_PART_SCALING",
        11 => "MID_MENU_ACCESSORY_SHOP_PART_SKINCOLOR",
        12 => "MID_MENU_ACCESSORY_SHOP_PART_VOICE",
        13 => "MID_MENU_ACCESSORY_SHOP_PART_MASKCOLOR",
        14 => "MID_MENU_ACCESSORY_SHOP_PART_ACCESSORY2",
        15 => "MID_MENU_ACCESSORY_SHOP_PART_NOENGAGE",
        _ => "MID_MENU_ACCESSORY_SHOP_PART_PLACEHOLDER",
    }
}

} // verus!
