use vstd::prelude::*;

use crate::random::random_below;

verus! {

/// The colour trait. Its variants are listed in dominance order: an earlier
/// variant dominates a later one.
#[derive(Clone, Copy, Debug, PartialEq, Eq, Hash, Structural)]
pub enum ColourGene {
    Orange,
    Red,
    LBlue,
    DBlue,
    Black,
    Yellow,
    Purple,
}

/// The speed trait. `Slow` and `Medium` carry a flag that only breaks ties
/// between those two tiers.
#[derive(Clone, Copy, Debug, PartialEq, Eq, Hash, Structural)]
pub enum Speed {
    Slow(bool),
    Medium(bool),
    Fast,
}

/// The rank of a colour in the dominance order (lower dominates).
pub open spec fn colour_rank(c: ColourGene) -> nat {
    match c {
        ColourGene::Orange => 0,
        ColourGene::Red => 1,
        ColourGene::LBlue => 2,
        ColourGene::DBlue => 3,
        ColourGene::Black => 4,
        ColourGene::Yellow => 5,
        ColourGene::Purple => 6,
    }
}

/// The colour of rank `i`, for `i < 7`.
pub open spec fn colour_of_rank(i: nat) -> ColourGene {
    if i == 0 { ColourGene::Orange }
    else if i == 1 { ColourGene::Red }
    else if i == 2 { ColourGene::LBlue }
    else if i == 3 { ColourGene::DBlue }
    else if i == 4 { ColourGene::Black }
    else if i == 5 { ColourGene::Yellow }
    else { ColourGene::Purple }
}

/// The expressed colour of an allele pair: the allele of lower rank.
pub open spec fn colour_phenotype(first: ColourGene, second: ColourGene) -> ColourGene {
    if colour_rank(first) < colour_rank(second) { first } else { second }
}

/// The expressed speed of an allele pair. `Fast` dominates everything; two
/// alleles of one tier give the first; `Slow` against `Medium` gives `Slow`
/// when their flags agree, and otherwise the allele whose flag is set.
pub open spec fn speed_phenotype(first: Speed, second: Speed) -> Speed {
    match (first, second) {
        (Speed::Fast, _) => Speed::Fast,
        (_, Speed::Fast) => Speed::Fast,
        (Speed::Slow(_), Speed::Slow(_)) => first,
        (Speed::Medium(_), Speed::Medium(_)) => first,
        (Speed::Slow(a), Speed::Medium(b)) => if a == b || a { first } else { second },
        (Speed::Medium(a), Speed::Slow(b)) => if a != b && a { first } else { second },
    }
}

/// Both alleles are of one tier, `Slow` or `Medium`.
pub open spec fn same_tier(a: Speed, b: Speed) -> bool {
    (a is Slow && b is Slow) || (a is Medium && b is Medium)
}

/// Colour dominance does not depend on the order of the alleles.
pub proof fn lemma_colour_order_independent(a: ColourGene, b: ColourGene)
    ensures
        colour_phenotype(a, b) == colour_phenotype(b, a),
{
}

/// Speed dominance depends on the order of the alleles only for two alleles
/// of one tier, where the first is expressed; the result is always one of the
/// two alleles.
pub proof fn lemma_speed_order(a: Speed, b: Speed)
    ensures
        !same_tier(a, b) ==> speed_phenotype(a, b) == speed_phenotype(b, a),
        same_tier(a, b) ==> speed_phenotype(a, b) == a,
        speed_phenotype(a, b) == a || speed_phenotype(a, b) == b,
{
}

impl ColourGene {
    /// The rank of this colour in the dominance order.
    pub fn rank(&self) -> (r: u8)
        ensures
            r as nat == colour_rank(*self),
    {
        match self {
            ColourGene::Orange => 0,
            ColourGene::Red => 1,
            ColourGene::LBlue => 2,
            ColourGene::DBlue => 3,
            ColourGene::Black => 4,
            ColourGene::Yellow => 5,
            ColourGene::Purple => 6,
        }
    }

    /// The colour of rank `i`.
    pub fn from_rank(i: u8) -> (r: ColourGene)
        requires
            i < 7,
        ensures
            r == colour_of_rank(i as nat),
            colour_rank(r) == i,
    {
        if i == 0 { ColourGene::Orange }
        else if i == 1 { ColourGene::Red }
        else if i == 2 { ColourGene::LBlue }
        else if i == 3 { ColourGene::DBlue }
        else if i == 4 { ColourGene::Black }
        else if i == 5 { ColourGene::Yellow }
        else { ColourGene::Purple }
    }

    /// A colour allele drawn uniformly at random.
    pub fn new_random() -> (r: ColourGene)
        ensures
            colour_rank(r) < 7,
    {
        let x = random_below(7);
        ColourGene::from_rank(x as u8)
    }

    /// The expressed colour of the allele pair `(first, second)`.
    pub fn colour(first: ColourGene, second: ColourGene) -> (r: ColourGene)
        ensures
            r == colour_phenotype(first, second),
    {
        if first.rank() < second.rank() {
            first
        } else {
            second
        }
    }
}

impl Speed {
    /// The speed allele with tier index `tier` (0 slow, 1 medium, 2 fast)
    /// and tie-break flag `flag`.
    pub fn from_parts(tier: u8, flag: bool) -> (r: Speed)
        requires
            tier < 3,
        ensures
            tier == 0 ==> r == Speed::Slow(flag),
            tier == 1 ==> r == Speed::Medium(flag),
            tier == 2 ==> r == Speed::Fast,
    {
        if tier == 0 {
            Speed::Slow(flag)
        } else if tier == 1 {
            Speed::Medium(flag)
        } else {
            Speed::Fast
        }
    }

    /// A speed allele with its tier and flag drawn uniformly at random.
    pub fn new_random() -> (r: Speed) {
        let x = random_below(3);
        let y = random_below(2);
        Speed::from_parts(x as u8, y == 1)
    }

    /// The expressed speed of the allele pair `(first, second)`.
    pub fn speed(first: Speed, second: Speed) -> (r: Speed)
        ensures
            r == speed_phenotype(first, second),
    {
        match (first, second) {
            (Speed::Fast, Speed::Fast) => Speed::Fast,
            (Speed::Fast, _) => first,
            (_, Speed::Fast) => second,
            (Speed::Slow(_), Speed::Slow(_)) => first,
            (Speed::Medium(_), Speed::Medium(_)) => first,
            (Speed::Slow(a), Speed::Medium(b)) => {
                if a == b {
                    first
                } else if a {
                    first
                } else {
                    second
                }
            },
            (Speed::Medium(a), Speed::Slow(b)) => {
                if a == b {
                    second
                } else if a {
                    first
                } else {
                    second
                }
            },
        }
    }
}

} // verus!
