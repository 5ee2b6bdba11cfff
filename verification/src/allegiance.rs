//! Group identities (factions) and the symmetric relationship matrix.
//!
//! Eight factions carry a one-hot 8-bit encoding. A relationship between two
//! distinct factions is one of three values, stored in a 2-bit slot of a
//! single 64-bit word; the slot is found by a closed-form triangular index
//! over the pair's group numbers.

use vstd::prelude::*;

verus! {

/// One of exactly eight group identities. Its encoding is one-hot: exactly
/// one bit of an 8-bit field is set.
#[derive(Debug, Clone, Copy, PartialEq, Eq, Structural)]
pub enum Faction {
    A,
    B,
    C,
    D,
    E,
    F,
    G,
    H,
}

impl Faction {
    /// The one-hot bit pattern of this faction.
    pub open spec fn spec_bits(self) -> u8 {
        match self {
            Faction::A => 0x01,
            Faction::B => 0x02,
            Faction::C => 0x04,
            Faction::D => 0x08,
            Faction::E => 0x10,
            Faction::F => 0x20,
            Faction::G => 0x40,
            Faction::H => 0x80,
        }
    }

    /// The group number: the position of the one set bit, in 0..8.
    pub open spec fn spec_num(self) -> u8 {
        match self {
            Faction::A => 0,
            Faction::B => 1,
            Faction::C => 2,
            Faction::D => 3,
            Faction::E => 4,
            Faction::F => 5,
            Faction::G => 6,
            Faction::H => 7,
        }
    }

    /// The one-hot bit pattern of this faction.
    pub fn bits(self) -> (r: u8)
        ensures
            r == self.spec_bits(),
    {
        match self {
            Faction::A => 0x01,
            Faction::B => 0x02,
            Faction::C => 0x04,
            Faction::D => 0x08,
            Faction::E => 0x10,
            Faction::F => 0x20,
            Faction::G => 0x40,
            Faction::H => 0x80,
        }
    }

    /// The group number: the position of the one set bit, in 0..8.
    pub fn num(self) -> (r: u8)
        ensures
            r == self.spec_num(),
            r < 8,
    {
        match self {
            Faction::A => 0,
            Faction::B => 1,
            Faction::C => 2,
            Faction::D => 3,
            Faction::E => 4,
            Faction::F => 5,
            Faction::G => 6,
            Faction::H => 7,
        }
    }

    /// The faction whose one-hot pattern is `v`, if `v` is such a pattern.
    pub open spec fn spec_from_u8(v: u8) -> Option<Faction> {
        if v == 0x01 {
            Some(Faction::A)
        } else if v == 0x02 {
            Some(Faction::B)
        } else if v == 0x04 {
            Some(Faction::C)
        } else if v == 0x08 {
            Some(Faction::D)
        } else if v == 0x10 {
            Some(Faction::E)
        } else if v == 0x20 {
            Some(Faction::F)
        } else if v == 0x40 {
            Some(Faction::G)
        } else if v == 0x80 {
            Some(Faction::H)
        } else {
            None
        }
    }

    /// Decode a one-hot bit pattern; any other byte yields `None`.
    pub fn from_u8(v: u8) -> (r: Option<Faction>)
        ensures
            r == Faction::spec_from_u8(v),
            r is Some ==> r->0.spec_bits() == v,
    {
        if v == 0x01 {
            Some(Faction::A)
        } else if v == 0x02 {
            Some(Faction::B)
        } else if v == 0x04 {
            Some(Faction::C)
        } else if v == 0x08 {
            Some(Faction::D)
        } else if v == 0x10 {
            Some(Faction::E)
        } else if v == 0x20 {
            Some(Faction::F)
        } else if v == 0x40 {
            Some(Faction::G)
        } else if v == 0x80 {
            Some(Faction::H)
        } else {
            None
        }
    }

    /// The faction with group number `n`.
    pub fn from_num(n: u8) -> (r: Faction)
        requires
            n < 8,
        ensures
            r.spec_num() == n,
    {
        if n == 0 {
            Faction::A
        } else if n == 1 {
            Faction::B
        } else if n == 2 {
            Faction::C
        } else if n == 3 {
            Faction::D
        } else if n == 4 {
            Faction::E
        } else if n == 5 {
            Faction::F
        } else if n == 6 {
            Faction::G
        } else {
            Faction::H
        }
    }

    /// An endless iterator over the factions: all eight in order, then again
    /// from the first.
    pub fn iter_cycle() -> (r: FactionCycle)
        ensures
            r.wf(),
            r.value == 1,
    {
        FactionCycle { value: 1 }
    }

    /// An iterator over the factions: all eight in order, then exhaustion.
    pub fn iter_once() -> (r: FactionOnce)
        ensures
            r.wf(),
            r.value == 1,
    {
        FactionOnce { value: 1 }
    }
}

/// Cycling faction iterator: yields the faction of its current one-hot
/// pattern, then rotates the pattern left by one bit, wrapping around.
#[derive(Debug, Clone, Copy, PartialEq, Eq, Structural)]
pub struct FactionCycle {
    pub value: u8,
}

impl FactionCycle {
    /// The cursor is always a one-hot pattern, so the iterator never ends.
    pub open spec fn wf(self) -> bool {
        Faction::spec_from_u8(self.value) is Some
    }

    /// Yield the current faction and advance, wrapping from the last faction
    /// back to the first.
    pub fn next(&mut self) -> (r: Option<Faction>)
        requires
            old(self).wf(),
        ensures
            final(self).wf(),
            r == Faction::spec_from_u8(old(self).value),
            r is Some,
            final(self).value == if old(self).value == 0x80 {
                1u8
            } else {
                (old(self).value * 2) as u8
            },
    {
        let result = Faction::from_u8(self.value);
        self.value = if self.value == 0x80 {
            1
        } else {
            self.value * 2
        };
        result
    }
}

/// Terminating faction iterator: yields the faction of its current one-hot
/// pattern, then shifts the pattern left; after the last faction the pattern
/// becomes zero and every further call yields `None`.
#[derive(Debug, Clone, Copy, PartialEq, Eq, Structural)]
pub struct FactionOnce {
    pub value: u8,
}

impl FactionOnce {
    /// The cursor is a one-hot pattern, or zero once the iterator is spent.
    pub open spec fn wf(self) -> bool {
        self.value == 0 || Faction::spec_from_u8(self.value) is Some
    }

    /// Yield the current faction and advance; yield `None` forever once all
    /// eight factions are spent.
    pub fn next(&mut self) -> (r: Option<Faction>)
        requires
            old(self).wf(),
        ensures
            final(self).wf(),
            r == Faction::spec_from_u8(old(self).value),
            old(self).value == 0 ==> r is None && final(self).value == 0,
            old(self).value != 0 ==> r is Some && final(self).value == if old(self).value
                == 0x80 {
                0u8
            } else {
                (old(self).value * 2) as u8
            },
    {
        let result = Faction::from_u8(self.value);
        self.value = if self.value >= 0x80 {
            0
        } else {
            self.value * 2
        };
        result
    }
}

/// A reciprocal standing between two distinct factions.
#[derive(Debug, Clone, Copy, PartialEq, Eq, Structural)]
pub enum Relationship {
    Neutral,
    Allied,
    Hostile,
}

impl Relationship {
    /// The 2-bit encoding of this value. The fourth pattern, 3, is reserved
    /// and never produced.
    pub open spec fn spec_code(self) -> u64 {
        match self {
            Relationship::Neutral => 0,
            Relationship::Allied => 1,
            Relationship::Hostile => 2,
        }
    }

    /// The 2-bit encoding of this value.
    pub fn code(self) -> (r: u64)
        ensures
            r == self.spec_code(),
            r <= 2,
    {
        match self {
            Relationship::Neutral => 0,
            Relationship::Allied => 1,
            Relationship::Hostile => 2,
        }
    }

    /// The value a 2-bit slot decodes to; the reserved pattern 3 never
    /// arises in a well-formed matrix.
    pub open spec fn spec_decode(v: u64) -> Relationship {
        if v == 0 {
            Relationship::Neutral
        } else if v == 1 {
            Relationship::Allied
        } else {
            Relationship::Hostile
        }
    }
}

/// The slot of the unordered pair of group numbers `{n1, n2}` in a strictly
/// lower triangular 8-by-8 matrix flattened row-major, skipping the diagonal:
/// with `lo < hi`, the slot is `lo*7 + hi - 1 - lo*(lo+1)/2`, in 0..28.
pub open spec fn pair_index(n1: int, n2: int) -> int {
    let lo = if n1 <= n2 {
        n1
    } else {
        n2
    };
    let hi = if n1 <= n2 {
        n2
    } else {
        n1
    };
    lo * 7 + hi - 1 - lo * (lo + 1) / 2
}

/// The products behind the first eight triangular numbers.
proof fn lemma_triangular(lo: int)
    by (nonlinear_arith)
    requires
        0 <= lo < 8,
    ensures
        lo == 0 ==> lo * (lo + 1) == 0,
        lo == 1 ==> lo * (lo + 1) == 2,
        lo == 2 ==> lo * (lo + 1) == 6,
        lo == 3 ==> lo * (lo + 1) == 12,
        lo == 4 ==> lo * (lo + 1) == 20,
        lo == 5 ==> lo * (lo + 1) == 30,
        lo == 6 ==> lo * (lo + 1) == 42,
        lo == 7 ==> lo * (lo + 1) == 56,
{
}

/// Each row of the triangular index covers a known run of slots.
proof fn lemma_row_bounds(lo: int, hi: int)
    requires
        0 <= lo < hi < 8,
    ensures
        pair_index(lo, hi) == pair_index(lo, lo + 1) + (hi - lo - 1),
        lo == 0 ==> 0 <= pair_index(lo, hi) <= 6,
        lo == 1 ==> 7 <= pair_index(lo, hi) <= 12,
        lo == 2 ==> 13 <= pair_index(lo, hi) <= 17,
        lo == 3 ==> 18 <= pair_index(lo, hi) <= 21,
        lo == 4 ==> 22 <= pair_index(lo, hi) <= 24,
        lo == 5 ==> 25 <= pair_index(lo, hi) <= 26,
        lo == 6 ==> pair_index(lo, hi) == 27,
{
    lemma_triangular(lo);
}

/// The triangular index of every unordered pair of distinct group numbers
/// lies in 0..28, and swapping the pair does not change it.
pub proof fn lemma_pair_index_range(n1: int, n2: int)
    requires
        0 <= n1 < 8,
        0 <= n2 < 8,
        n1 != n2,
    ensures
        0 <= pair_index(n1, n2) < 28,
        pair_index(n1, n2) == pair_index(n2, n1),
{
    if n1 <= n2 {
        lemma_row_bounds(n1, n2);
    } else {
        lemma_row_bounds(n2, n1);
    }
}

/// Distinct unordered pairs of group numbers get distinct slots.
pub proof fn lemma_pair_index_injective(a1: int, a2: int, b1: int, b2: int)
    requires
        0 <= a1 < a2 < 8,
        0 <= b1 < b2 < 8,
        !(a1 == b1 && a2 == b2),
    ensures
        pair_index(a1, a2) != pair_index(b1, b2),
{
    lemma_row_bounds(a1, a2);
    lemma_row_bounds(b1, b2);
    if a1 == b1 {
        lemma_row_bounds(a1, a1 + 1);
    }
}

/// Two factions are the same unordered pair as two others.
pub open spec fn spec_same_pair(a1: Faction, a2: Faction, b1: Faction, b2: Faction) -> bool {
    (a1 == b1 && a2 == b2) || (a1 == b2 && a2 == b1)
}

/// Distinct factions carry distinct group numbers.
pub proof fn lemma_num_injective(a: Faction, b: Faction)
    ensures
        a != b ==> a.spec_num() != b.spec_num(),
{
}

/// Every slot in 0..28 is the triangular index of some unordered pair: the
/// 28 pairs cover the 28 slots exactly.
pub proof fn lemma_pair_index_onto(k: int)
    requires
        0 <= k < 28,
    ensures
        exists|lo: int, hi: int| 0 <= lo < hi < 8 && #[trigger] pair_index(lo, hi) == k,
{
    if k <= 6 {
        lemma_triangular(0);
        assert(pair_index(0, k + 1) == k);
    } else if k <= 12 {
        lemma_triangular(1);
        assert(pair_index(1, k - 5) == k);
    } else if k <= 17 {
        lemma_triangular(2);
        assert(pair_index(2, k - 10) == k);
    } else if k <= 21 {
        lemma_triangular(3);
        assert(pair_index(3, k - 14) == k);
    } else if k <= 24 {
        lemma_triangular(4);
        assert(pair_index(4, k - 17) == k);
    } else if k <= 26 {
        lemma_triangular(5);
        assert(pair_index(5, k - 19) == k);
    } else {
        lemma_triangular(6);
        assert(pair_index(6, 7) == 27);
    }
}

/// The 2-bit field of `w` at slot `i`.
pub open spec fn word_slot(w: u64, i: int) -> u64 {
    (w >> ((2 * i) as u64)) & 3
}

/// Every 2-bit field of the zero word is zero.
proof fn lemma_zero_word()
    by (bit_vector)
    ensures
        forall|t: u64| t <= 54 ==> ((0u64 >> t) & 3) == 0,
{
}

/// Clearing a 2-bit field and or-ing a new value writes exactly that field.
proof fn lemma_slot_write_same(w: u64, s: u64, v: u64)
    by (bit_vector)
    requires
        s <= 54,
        v <= 3,
    ensures
        ((((w & !(3u64 << s)) | (v << s)) >> s) & 3) == v,
{
}

/// Clearing and writing one 2-bit field leaves a non-overlapping field
/// unchanged.
proof fn lemma_slot_write_other(w: u64, s: u64, t: u64, v: u64)
    by (bit_vector)
    requires
        s <= 54,
        t <= 54,
        v <= 3,
        s + 2 <= t || t + 2 <= s,
    ensures
        ((((w & !(3u64 << s)) | (v << s)) >> t) & 3) == ((w >> t) & 3),
{
}

/// Or-ing a value into a clear 2-bit field writes exactly that field.
proof fn lemma_slot_or_same(w: u64, s: u64, v: u64)
    by (bit_vector)
    requires
        s <= 54,
        v <= 3,
        ((w >> s) & 3) == 0,
    ensures
        (((w | (v << s)) >> s) & 3) == v,
{
}

/// Or-ing a value into one 2-bit field leaves a non-overlapping field
/// unchanged.
proof fn lemma_slot_or_other(w: u64, s: u64, t: u64, v: u64)
    by (bit_vector)
    requires
        s <= 54,
        t <= 54,
        v <= 3,
        s + 2 <= t || t + 2 <= s,
    ensures
        (((w | (v << s)) >> t) & 3) == ((w >> t) & 3),
{
}

/// The fallback value of a relationship taken from an explicit list of
/// unordered-pair overrides applied in order over an all-neutral base: the
/// last entry naming the pair wins; a pair no entry names stays neutral.
pub open spec fn mapping_rel(
    entries: Seq<((Faction, Faction), Relationship)>,
    a: Faction,
    b: Faction,
) -> Relationship
    decreases entries.len(),
{
    if entries.len() == 0 {
        Relationship::Neutral
    } else {
        let last = entries.last();
        if spec_same_pair(last.0.0, last.0.1, a, b) {
            last.1
        } else {
            mapping_rel(entries.drop_last(), a, b)
        }
    }
}

/// All 28 reciprocal standings of the eight factions, each in a 2-bit slot
/// of one 64-bit word.
#[derive(Debug, Clone, Copy, PartialEq, Eq, Structural)]
pub struct FactionRelationships {
    relationships: u64,
}

impl FactionRelationships {
    /// The raw 2-bit field for slot `i`.
    pub closed spec fn spec_slot(self, i: int) -> u64 {
        word_slot(self.relationships, i)
    }

    /// Every slot holds one of the three valid encodings; the reserved 2-bit
    /// pattern never occurs.
    pub open spec fn wf(self) -> bool {
        forall|i: int| 0 <= i < 28 ==> #[trigger] self.spec_slot(i) != 3
    }

    /// The standing stored for the unordered pair `{a, b}`.
    pub open spec fn spec_rel(self, a: Faction, b: Faction) -> Relationship {
        Relationship::spec_decode(
            self.spec_slot(pair_index(a.spec_num() as int, b.spec_num() as int)),
        )
    }

    /// An all-neutral matrix.
    pub fn new() -> (r: FactionRelationships)
        ensures
            r.wf(),
            forall|a: Faction, b: Faction| a != b ==> r.spec_rel(a, b) == Relationship::Neutral,
    {
        let r = FactionRelationships { relationships: 0 };
        proof {
            lemma_zero_word();
            assert forall|i: int| 0 <= i < 28 implies #[trigger] r.spec_slot(i) == 0 by {
                assert(((0u64 >> ((2 * i) as u64)) & 3) == 0);
            }
            assert forall|a: Faction, b: Faction| a != b implies r.spec_rel(a, b)
                == Relationship::Neutral by {
                lemma_pair_index_range(a.spec_num() as int, b.spec_num() as int);
            }
        }
        r
    }

    /// A matrix holding the same standing for every unordered pair.
    pub fn with_default(default: Relationship) -> (r: FactionRelationships)
        ensures
            r.wf(),
            forall|a: Faction, b: Faction| a != b ==> r.spec_rel(a, b) == default,
    {
        let value = default.code();
        let mut relationships: u64 = 0;
        proof {
            lemma_zero_word();
            assert forall|t: int| 0 <= t < 28 implies #[trigger] word_slot(relationships, t)
                == 0 by {
                assert(((0u64 >> ((2 * t) as u64)) & 3) == 0);
            }
        }
        let mut i: usize = 0;
        while i < 28
            invariant
                i <= 28,
                value <= 2,
                value == default.spec_code(),
                forall|t: int| 0 <= t < i ==> #[trigger] word_slot(relationships, t) == value,
                forall|t: int| i <= t < 28 ==> #[trigger] word_slot(relationships, t) == 0,
            decreases 28 - i,
        {
            let shift = (2 * i) as u64;
            let updated = relationships | (value << shift);
            proof {
                assert(shift == (2 * (i as int)) as u64);
                assert forall|t: int| 0 <= t < 28 && t != i implies #[trigger] word_slot(
                    updated,
                    t,
                ) == word_slot(relationships, t) by {
                    let tt = (2 * t) as u64;
                    lemma_slot_or_other(relationships, shift, tt, value);
                }
                assert(word_slot(relationships, i as int) == 0);
                lemma_slot_or_same(relationships, shift, value);
                assert(word_slot(updated, i as int) == value);
            }
            relationships = updated;
            i += 1;
        }
        let r = FactionRelationships { relationships };
        proof {
            assert forall|a: Faction, b: Faction| a != b implies r.spec_rel(a, b) == default by {
                lemma_pair_index_range(a.spec_num() as int, b.spec_num() as int);
            }
        }
        r
    }

    /// A matrix built from an explicit list of pair-to-standing overrides
    /// applied in order over an all-neutral base.
    pub fn from_mapping(map: &Vec<((Faction, Faction), Relationship)>) -> (r: FactionRelationships)
        requires
            forall|j: int| 0 <= j < map@.len() ==> (#[trigger] map@[j]).0.0 != map@[j].0.1,
        ensures
            r.wf(),
            forall|a: Faction, b: Faction| a != b ==> r.spec_rel(a, b) == mapping_rel(map@, a, b),
    {
        let mut fr = Self::new();
        let mut i: usize = 0;
        while i < map.len()
            invariant
                i <= map@.len(),
                fr.wf(),
                forall|j: int| 0 <= j < map@.len() ==> (#[trigger] map@[j]).0.0 != map@[j].0.1,
                forall|a: Faction, b: Faction|
                    a != b ==> #[trigger] fr.spec_rel(a, b) == mapping_rel(
                        map@.take(i as int),
                        a,
                        b,
                    ),
            decreases map@.len() - i,
        {
            let ((faction1, faction2), relationship) = map[i];
            let ghost prev = fr;
            fr.set_relationship(faction1, faction2, relationship);
            proof {
                let entries = map@.take(i as int + 1);
                assert(entries.drop_last() =~= map@.take(i as int));
                assert(entries.last() == map@[i as int]);
                assert forall|a: Faction, b: Faction| a != b implies #[trigger] fr.spec_rel(a, b)
                    == mapping_rel(entries, a, b) by {
                    if !spec_same_pair(faction1, faction2, a, b) {
                        assert(fr.spec_rel(a, b) == prev.spec_rel(a, b));
                    }
                }
            }
            i += 1;
        }
        proof {
            assert(map@.take(map@.len() as int) =~= map@);
        }
        fr
    }

    /// A matrix built by asking a caller-supplied function for the standing
    /// of every unordered pair, each pair visited once, in group order.
    pub fn from_closure<F: Fn(Faction, Faction) -> Relationship>(f: F) -> (r: FactionRelationships)
        requires
            forall|a: Faction, b: Faction|
                a.spec_num() < b.spec_num() ==> #[trigger] call_requires(f, (a, b)),
        ensures
            r.wf(),
            forall|a: Faction, b: Faction|
                a.spec_num() < b.spec_num() ==> #[trigger] call_ensures(f, (a, b), r.spec_rel(a, b)),
    {
        let mut fr = Self::new();
        let mut n1: u8 = 0;
        while n1 < 8
            invariant
                n1 <= 8,
                fr.wf(),
                forall|a: Faction, b: Faction|
                    a.spec_num() < b.spec_num() ==> #[trigger] call_requires(f, (a, b)),
                forall|a: Faction, b: Faction|
                    a.spec_num() < b.spec_num() && a.spec_num() < n1 ==> #[trigger] call_ensures(
                        f,
                        (a, b),
                        fr.spec_rel(a, b),
                    ),
            decreases 8 - n1,
        {
            let faction1 = Faction::from_num(n1);
            let mut n2: u8 = n1 + 1;
            while n2 < 8
                invariant
                    n1 < 8,
                    n1 < n2 <= 8,
                    faction1.spec_num() == n1,
                    fr.wf(),
                    forall|a: Faction, b: Faction|
                        a.spec_num() < b.spec_num() ==> #[trigger] call_requires(f, (a, b)),
                    forall|a: Faction, b: Faction|
                        a.spec_num() < b.spec_num() && a.spec_num() < n1 ==> #[trigger] call_ensures(
                            f,
                            (a, b),
                            fr.spec_rel(a, b),
                        ),
                    forall|b: Faction|
                        n1 < b.spec_num() < n2 ==> #[trigger] call_ensures(
                            f,
                            (faction1, b),
                            fr.spec_rel(faction1, b),
                        ),
                decreases 8 - n2,
            {
                let faction2 = Faction::from_num(n2);
                let ghost prev = fr;
                let relationship = f(faction1, faction2);
                fr.set_relationship(faction1, faction2, relationship);
                proof {
                    assert forall|a: Faction, b: Faction|
                        a.spec_num() < b.spec_num() && a.spec_num() < n1 implies #[trigger] call_ensures(
                        f,
                        (a, b),
                        fr.spec_rel(a, b),
                    ) by {
                        assert(!spec_same_pair(faction1, faction2, a, b));
                        assert(fr.spec_rel(a, b) == prev.spec_rel(a, b));
                    }
                    assert forall|b: Faction| n1 < b.spec_num() < n2 + 1 implies #[trigger] call_ensures(
                        f,
                        (faction1, b),
                        fr.spec_rel(faction1, b),
                    ) by {
                        if b.spec_num() < n2 {
                            assert(!spec_same_pair(faction1, faction2, faction1, b));
                            assert(fr.spec_rel(faction1, b) == prev.spec_rel(faction1, b));
                        }
                    }
                }
                n2 += 1;
            }
            n1 += 1;
        }
        fr
    }

    /// Store `relationship` for the unordered pair `{faction1, faction2}`:
    /// the slot is cleared and the new encoding written; every other pair
    /// keeps its standing.
    pub fn set_relationship(
        &mut self,
        faction1: Faction,
        faction2: Faction,
        relationship: Relationship,
    )
        requires
            faction1 != faction2,
            old(self).wf(),
        ensures
            final(self).wf(),
            final(self).spec_rel(faction1, faction2) == relationship,
            final(self).spec_rel(faction2, faction1) == relationship,
            forall|c: Faction, d: Faction|
                c != d && !spec_same_pair(c, d, faction1, faction2)
                    ==> #[trigger] final(self).spec_rel(c, d) == old(self).spec_rel(c, d),
    {
        let (index, shift_usize) = self.get_index_and_shift(faction1, faction2);
        let value = relationship.code();
        let shift = shift_usize as u64;
        let ghost w = self.relationships;
        self.relationships = (self.relationships & !(3u64 << shift)) | (value << shift);
        proof {
            let updated = self.relationships;
            let n1 = faction1.spec_num() as int;
            let n2 = faction2.spec_num() as int;
            lemma_num_injective(faction1, faction2);
            lemma_pair_index_range(n1, n2);
            assert(shift == (2 * (index as int)) as u64);
            lemma_slot_write_same(w, shift, value);
            assert(self.spec_slot(index as int) == value);
            assert forall|t: int| 0 <= t < 28 && t != index implies #[trigger] self.spec_slot(t)
                == old(self).spec_slot(t) by {
                let tt = (2 * t) as u64;
                lemma_slot_write_other(w, shift, tt, value);
            }
            assert forall|c: Faction, d: Faction|
                c != d && !spec_same_pair(c, d, faction1, faction2) implies #[trigger] self.spec_rel(
                c,
                d,
            ) == old(self).spec_rel(c, d) by {
                let m1 = c.spec_num() as int;
                let m2 = d.spec_num() as int;
                lemma_num_injective(c, d);
                lemma_pair_index_range(m1, m2);
                let lo = if m1 <= m2 {
                    m1
                } else {
                    m2
                };
                let hi = if m1 <= m2 {
                    m2
                } else {
                    m1
                };
                let alo = if n1 <= n2 {
                    n1
                } else {
                    n2
                };
                let ahi = if n1 <= n2 {
                    n2
                } else {
                    n1
                };
                lemma_pair_index_injective(lo, hi, alo, ahi);
            }
        }
    }

    /// The standing of the unordered pair `{faction1, faction2}`; a pair
    /// never written reads as neutral.
    pub fn get_relationship(&self, faction1: Faction, faction2: Faction) -> (r: Relationship)
        requires
            faction1 != faction2,
            self.wf(),
        ensures
            r == self.spec_rel(faction1, faction2),
            r == self.spec_rel(faction2, faction1),
    {
        let (index, shift_usize) = self.get_index_and_shift(faction1, faction2);
        let shift = shift_usize as u64;
        let v = (self.relationships >> shift) & 3;
        proof {
            assert(v == self.spec_slot(index as int));
            lemma_pair_index_range(faction1.spec_num() as int, faction2.spec_num() as int);
        }
        if v == 0 {
            Relationship::Neutral
        } else if v == 1 {
            Relationship::Allied
        } else {
            Relationship::Hostile
        }
    }

    /// The slot and bit shift of the unordered pair `{faction1, faction2}`
    /// in the packed word: the triangular index and twice it.
    pub fn get_index_and_shift(&self, faction1: Faction, faction2: Faction) -> (r: (usize, usize))
        requires
            faction1 != faction2,
        ensures
            r.0 == pair_index(faction1.spec_num() as int, faction2.spec_num() as int),
            r.1 == 2 * r.0,
            r.0 < 28,
    {
        let n1 = faction1.num();
        let n2 = faction2.num();
        let (f1, f2) = if n1 > n2 {
            (n2 as usize, n1 as usize)
        } else {
            (n1 as usize, n2 as usize)
        };
        proof {
            lemma_num_injective(faction1, faction2);
            lemma_triangular(f1 as int);
            lemma_row_bounds(f1 as int, f2 as int);
        }
        let index = f1 * 7 + f2 - 1 - f1 * (f1 + 1) / 2;
        (index, index * 2)
    }
}

impl Default for FactionRelationships {
    /// The default matrix is all-neutral.
    fn default() -> (r: FactionRelationships)
        ensures
            r.wf(),
            forall|a: Faction, b: Faction| a != b ==> r.spec_rel(a, b) == Relationship::Neutral,
    {
        FactionRelationships::new()
    }
}

/// The stored standing of every unordered pair is reciprocal: reading the
/// pair in either order gives the same value.
pub proof fn lemma_rel_symmetric(m: FactionRelationships, a: Faction, b: Faction)
    ensures
        m.spec_rel(a, b) == m.spec_rel(b, a),
{
}

/// Membership distributes over a union of bit masks.
proof fn lemma_mask_union(a: u8, b: u8, c: u8)
    by (bit_vector)
    ensures
        (((a | b) & c) != 0) == ((a & c) != 0 || (b & c) != 0),
{
}

/// For a one-hot probe, membership distributes over an intersection of bit
/// masks.
proof fn lemma_mask_intersection(a: u8, b: u8, c: u8)
    by (bit_vector)
    requires
        c == 1 || c == 2 || c == 4 || c == 8 || c == 16 || c == 32 || c == 64 || c == 128,
    ensures
        (((a & b) & c) != 0) == ((a & c) != 0 && (b & c) != 0),
{
}

/// A set of factions: the union of one-hot faction patterns in an 8-bit
/// mask.
#[derive(Debug, Clone, Copy, PartialEq, Eq, Structural)]
pub struct Factions {
    pub mask: u8,
}

impl Factions {
    /// Whether `f` is in the set.
    pub open spec fn spec_contains(self, f: Faction) -> bool {
        self.mask & f.spec_bits() != 0
    }

    /// The empty set.
    pub fn none() -> (r: Factions)
        ensures
            forall|f: Faction| !r.spec_contains(f),
    {
        let r = Factions { mask: 0 };
        proof {
            assert forall|f: Faction| !r.spec_contains(f) by {
                let c = f.spec_bits();
                assert(0u8 & c == 0) by (bit_vector);
            }
        }
        r
    }

    /// The set of all eight factions.
    pub fn all() -> (r: Factions)
        ensures
            forall|f: Faction| r.spec_contains(f),
    {
        let r = Factions { mask: 0xff };
        proof {
            assert forall|f: Faction| r.spec_contains(f) by {
                let c = f.spec_bits();
                assert(c == 1 || c == 2 || c == 4 || c == 8 || c == 16 || c == 32 || c == 64
                    || c == 128);
                assert((0xffu8 & c != 0)) by (bit_vector)
                    requires
                        c == 1 || c == 2 || c == 4 || c == 8 || c == 16 || c == 32 || c == 64
                            || c == 128,
                ;
            }
        }
        r
    }

    /// The set holding exactly one faction.
    pub fn just(f: Faction) -> (r: Factions)
        ensures
            forall|g: Faction| r.spec_contains(g) <==> g == f,
    {
        let r = Factions { mask: f.bits() };
        proof {
            assert forall|g: Faction| r.spec_contains(g) <==> g == f by {
                let c = g.spec_bits();
                let m = f.spec_bits();
                assert((m & c != 0) == (m == c)) by (bit_vector)
                    requires
                        (c == 1 || c == 2 || c == 4 || c == 8 || c == 16 || c == 32 || c == 64
                            || c == 128) && (m == 1 || m == 2 || m == 4 || m == 8 || m == 16 || m
                            == 32 || m == 64 || m == 128),
                ;
            }
        }
        r
    }

    /// The union of two sets.
    pub fn union(self, other: Factions) -> (r: Factions)
        ensures
            forall|f: Faction|
                #[trigger] r.spec_contains(f) <==> self.spec_contains(f) || other.spec_contains(f),
    {
        let r = Factions { mask: self.mask | other.mask };
        proof {
            assert forall|f: Faction|
                #[trigger] r.spec_contains(f) <==> self.spec_contains(f) || other.spec_contains(
                    f,
                ) by {
                lemma_mask_union(self.mask, other.mask, f.spec_bits());
            }
        }
        r
    }

    /// The intersection of two sets.
    pub fn intersection(self, other: Factions) -> (r: Factions)
        ensures
            forall|f: Faction|
                #[trigger] r.spec_contains(f) <==> self.spec_contains(f) && other.spec_contains(f),
    {
        let r = Factions { mask: self.mask & other.mask };
        proof {
            assert forall|f: Faction|
                #[trigger] r.spec_contains(f) <==> self.spec_contains(f) && other.spec_contains(
                    f,
                ) by {
                lemma_mask_intersection(self.mask, other.mask, f.spec_bits());
            }
        }
        r
    }

    /// Whether `f` is in the set.
    pub fn contains(self, f: Faction) -> (r: bool)
        ensures
            r == self.spec_contains(f),
    {
        self.mask & f.bits() != 0
    }
}

} // verus!
