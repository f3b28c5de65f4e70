//! The known chips: which one a brand string names, and its nominal figures.

use crate::text::chars_of;
use crate::text::contains;
use crate::text::has_substring;
use crate::text::occurs_at;
use vstd::prelude::*;

verus! {

/// Power, in watts.
pub type Watts = u32;

/// Memory bandwidth, in gigabytes per second.
pub type Bandwidth = u32;

/// One chip of the family, or `Unknown`.
#[derive(Clone, Copy, Debug, PartialEq, Eq, Structural)]
pub enum AppleChip {
    M1,
    M1Pro,
    M1Max,
    M1Ultra,
    M2,
    M2Pro,
    M2Max,
    M2Ultra,
    M3,
    M3Pro,
    M3Max,
    Unknown,
}

/// Nominal figures of a chip. A zero stands for a figure that is not known.
#[derive(Clone, Copy, Debug, PartialEq, Eq, Structural)]
pub struct ChipSpecs {
    pub cpu_tdp: Watts,
    pub gpu_tdp: Watts,
    pub cpu_bw: Bandwidth,
    pub gpu_bw: Bandwidth,
}

/// The chip that a brand string names. The labels are looked for in a fixed
/// order, within a generation the longer ones first, and the first label
/// that occurs in the brand string decides.
pub open spec fn classify(brand: Seq<char>) -> AppleChip {
    if has_substring(brand, "M1 Pro"@) {
        AppleChip::M1Pro
    } else if has_substring(brand, "M1 Max"@) {
        AppleChip::M1Max
    } else if has_substring(brand, "M1 Ultra"@) {
        AppleChip::M1Ultra
    } else if has_substring(brand, "M1"@) {
        AppleChip::M1
    } else if has_substring(brand, "M2 Pro"@) {
        AppleChip::M2Pro
    } else if has_substring(brand, "M2 Max"@) {
        AppleChip::M2Max
    } else if has_substring(brand, "M2 Ultra"@) {
        AppleChip::M2Ultra
    } else if has_substring(brand, "M2"@) {
        AppleChip::M2
    } else if has_substring(brand, "M3 Pro"@) {
        AppleChip::M3Pro
    } else if has_substring(brand, "M3 Max"@) {
        AppleChip::M3Max
    } else if has_substring(brand, "M3"@) {
        AppleChip::M3
    } else {
        AppleChip::Unknown
    }
}

/// The figures that go with no chip in particular.
pub open spec fn no_specs() -> ChipSpecs {
    ChipSpecs { cpu_tdp: 0, gpu_tdp: 0, cpu_bw: 0, gpu_bw: 0 }
}

/// The table of nominal figures.
pub open spec fn specs_of(chip: AppleChip) -> ChipSpecs {
    match chip {
        AppleChip::M1 => ChipSpecs { cpu_tdp: 20, gpu_tdp: 20, cpu_bw: 70, gpu_bw: 70 },
        AppleChip::M1Pro => ChipSpecs { cpu_tdp: 30, gpu_tdp: 30, cpu_bw: 200, gpu_bw: 200 },
        AppleChip::M1Max => ChipSpecs { cpu_tdp: 30, gpu_tdp: 60, cpu_bw: 250, gpu_bw: 400 },
        AppleChip::M1Ultra => ChipSpecs { cpu_tdp: 60, gpu_tdp: 120, cpu_bw: 500, gpu_bw: 800 },
        AppleChip::M2 => ChipSpecs { cpu_tdp: 25, gpu_tdp: 15, cpu_bw: 100, gpu_bw: 100 },
        AppleChip::M2Pro => ChipSpecs { cpu_tdp: 30, gpu_tdp: 35, cpu_bw: 0, gpu_bw: 0 },
        AppleChip::M2Max => ChipSpecs { cpu_tdp: 30, gpu_tdp: 40, cpu_bw: 0, gpu_bw: 0 },
        _ => no_specs(),
    }
}

/// The table has an entry for this chip.
pub open spec fn is_modeled(chip: AppleChip) -> bool {
    match chip {
        AppleChip::M1
        | AppleChip::M1Pro
        | AppleChip::M1Max
        | AppleChip::M1Ultra
        | AppleChip::M2
        | AppleChip::M2Pro
        | AppleChip::M2Max => true,
        _ => false,
    }
}

impl AppleChip {
    /// The chip that `brand` names.
    pub fn from_brand_string(brand: &str) -> (chip: AppleChip)
        ensures
            chip == classify(brand@),
    {
        let text = chars_of(brand);
        if contains(&text, &chars_of("M1 Pro")) {
            AppleChip::M1Pro
        } else if contains(&text, &chars_of("M1 Max")) {
            AppleChip::M1Max
        } else if contains(&text, &chars_of("M1 Ultra")) {
            AppleChip::M1Ultra
        } else if contains(&text, &chars_of("M1")) {
            AppleChip::M1
        } else if contains(&text, &chars_of("M2 Pro")) {
            AppleChip::M2Pro
        } else if contains(&text, &chars_of("M2 Max")) {
            AppleChip::M2Max
        } else if contains(&text, &chars_of("M2 Ultra")) {
            AppleChip::M2Ultra
        } else if contains(&text, &chars_of("M2")) {
            AppleChip::M2
        } else if contains(&text, &chars_of("M3 Pro")) {
            AppleChip::M3Pro
        } else if contains(&text, &chars_of("M3 Max")) {
            AppleChip::M3Max
        } else if contains(&text, &chars_of("M3")) {
            AppleChip::M3
        } else {
            AppleChip::Unknown
        }
    }

    /// The nominal figures of this chip.
    pub fn get_specs(&self) -> (specs: ChipSpecs)
        ensures
            specs == specs_of(*self),
    {
        match self {
            AppleChip::M1 => ChipSpecs { cpu_tdp: 20, gpu_tdp: 20, cpu_bw: 70, gpu_bw: 70 },
            AppleChip::M1Pro => ChipSpecs { cpu_tdp: 30, gpu_tdp: 30, cpu_bw: 200, gpu_bw: 200 },
            AppleChip::M1Max => ChipSpecs { cpu_tdp: 30, gpu_tdp: 60, cpu_bw: 250, gpu_bw: 400 },
            AppleChip::M1Ultra => ChipSpecs {
                cpu_tdp: 60,
                gpu_tdp: 120,
                cpu_bw: 500,
                gpu_bw: 800,
            },
            AppleChip::M2 => ChipSpecs { cpu_tdp: 25, gpu_tdp: 15, cpu_bw: 100, gpu_bw: 100 },
            AppleChip::M2Pro => ChipSpecs { cpu_tdp: 30, gpu_tdp: 35, cpu_bw: 0, gpu_bw: 0 },
            AppleChip::M2Max => ChipSpecs { cpu_tdp: 30, gpu_tdp: 40, cpu_bw: 0, gpu_bw: 0 },
            _ => ChipSpecs { cpu_tdp: 0, gpu_tdp: 0, cpu_bw: 0, gpu_bw: 0 },
        }
    }
}

/// A text that occurs in a part of `hay` occurs in `hay`.
pub proof fn lemma_substring_of_substring(hay: Seq<char>, part: Seq<char>, needle: Seq<char>)
    requires
        has_substring(hay, part),
        has_substring(part, needle),
    ensures
        has_substring(hay, needle),
{
    let i = choose|i: int| occurs_at(hay, part, i);
    let j = choose|j: int| occurs_at(part, needle, j);
    assert(hay.subrange(i + j, i + j + needle.len()) =~= hay.subrange(i, i + part.len()).subrange(
        j,
        j + needle.len(),
    ));
    assert(occurs_at(hay, needle, i + j));
}

/// A text that begins with `needle` holds it.
pub proof fn lemma_prefix_is_substring(whole: Seq<char>, needle: Seq<char>)
    requires
        needle.is_prefix_of(whole),
    ensures
        has_substring(whole, needle),
{
    assert(occurs_at(whole, needle, 0));
}

/// A brand string that holds "M1 Pro" names the M1 Pro, never the plain M1,
/// whatever else it holds.
pub proof fn lemma_m1_pro_wins(brand: Seq<char>)
    requires
        has_substring(brand, "M1 Pro"@),
    ensures
        classify(brand) == AppleChip::M1Pro,
{
}

/// A brand string is taken for the base chip of a generation only if it
/// holds none of the longer labels of that generation.
pub proof fn lemma_base_excludes_tiers(brand: Seq<char>)
    ensures
        classify(brand) == AppleChip::M1 ==> !has_substring(brand, "M1 Pro"@) && !has_substring(
            brand,
            "M1 Max"@,
        ) && !has_substring(brand, "M1 Ultra"@),
        classify(brand) == AppleChip::M2 ==> !has_substring(brand, "M2 Pro"@) && !has_substring(
            brand,
            "M2 Max"@,
        ) && !has_substring(brand, "M2 Ultra"@),
        classify(brand) == AppleChip::M3 ==> !has_substring(brand, "M3 Pro"@) && !has_substring(
            brand,
            "M3 Max"@,
        ),
{
}

/// A brand string names no known chip exactly when it holds none of the
/// generations' labels.
pub proof fn lemma_unknown_iff_no_label(brand: Seq<char>)
    ensures
        classify(brand) == AppleChip::Unknown <==> !has_substring(brand, "M1"@) && !has_substring(
            brand,
            "M2"@,
        ) && !has_substring(brand, "M3"@),
{
    reveal_strlit("M1");
    reveal_strlit("M2");
    reveal_strlit("M3");
    reveal_strlit("M1 Pro");
    reveal_strlit("M1 Max");
    reveal_strlit("M1 Ultra");
    reveal_strlit("M2 Pro");
    reveal_strlit("M2 Max");
    reveal_strlit("M2 Ultra");
    reveal_strlit("M3 Pro");
    reveal_strlit("M3 Max");
    lemma_holds_generation(brand, "M1 Pro"@, "M1"@);
    lemma_holds_generation(brand, "M1 Max"@, "M1"@);
    lemma_holds_generation(brand, "M1 Ultra"@, "M1"@);
    lemma_holds_generation(brand, "M2 Pro"@, "M2"@);
    lemma_holds_generation(brand, "M2 Max"@, "M2"@);
    lemma_holds_generation(brand, "M2 Ultra"@, "M2"@);
    lemma_holds_generation(brand, "M3 Pro"@, "M3"@);
    lemma_holds_generation(brand, "M3 Max"@, "M3"@);
}

/// A brand string that holds a label holds what the label begins with.
proof fn lemma_holds_generation(brand: Seq<char>, label: Seq<char>, generation: Seq<char>)
    requires
        generation.len() == 2,
        label.len() >= 2,
        label[0] == generation[0],
        label[1] == generation[1],
    ensures
        has_substring(brand, label) ==> has_substring(brand, generation),
{
    if has_substring(brand, label) {
        assert(label.subrange(0, 2) =~= generation);
        lemma_prefix_is_substring(label, generation);
        lemma_substring_of_substring(brand, label, generation);
    }
}

/// Every chip has figures; a chip without an entry in the table, known or
/// not, has zeros.
pub proof fn lemma_unmodeled_is_zero(chip: AppleChip)
    ensures
        !is_modeled(chip) ==> specs_of(chip) == no_specs(),
        specs_of(AppleChip::Unknown) == no_specs(),
{
}

} // verus!
