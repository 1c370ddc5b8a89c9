//! The bit-packed flag set carried by a compiled property.
//!
//! A value is modelled as the mathematical set of the flags it holds. Every
//! operation is specified over that set; how the set is laid out in sixteen
//! bits is fixed by [`PropertyFlag::mask`] and [`packed`].

use vstd::prelude::*;

verus! {

/// One of the independent boolean facts recorded about a property.
#[derive(Clone, Copy, Debug, PartialEq, Eq, Structural)]
pub enum PropertyFlag {
    IsAbstract,
    IsStatic,
    IsDeepInit,
    IsConst,
    IsLsb,
    IsNoBadRedeclare,
    HasSystemInitial,
    NoImplicitNull,
    InitialSatisfiesTc,
    IsLateInit,
    IsReadonly,
}

impl PropertyFlag {
    /// The bit that stands for this flag in the packed form.
    pub open spec fn mask(self) -> u16 {
        match self {
            PropertyFlag::IsAbstract => 0x001,
            PropertyFlag::IsStatic => 0x002,
            PropertyFlag::IsDeepInit => 0x004,
            PropertyFlag::IsConst => 0x008,
            PropertyFlag::IsLsb => 0x010,
            PropertyFlag::IsNoBadRedeclare => 0x020,
            PropertyFlag::HasSystemInitial => 0x040,
            PropertyFlag::NoImplicitNull => 0x080,
            PropertyFlag::InitialSatisfiesTc => 0x100,
            PropertyFlag::IsLateInit => 0x200,
            PropertyFlag::IsReadonly => 0x400,
        }
    }

    /// The bit that stands for this flag in the packed form.
    pub fn bit(self) -> (bit: u16)
        ensures
            bit == self.mask(),
    {
        match self {
            PropertyFlag::IsAbstract => 0x001,
            PropertyFlag::IsStatic => 0x002,
            PropertyFlag::IsDeepInit => 0x004,
            PropertyFlag::IsConst => 0x008,
            PropertyFlag::IsLsb => 0x010,
            PropertyFlag::IsNoBadRedeclare => 0x020,
            PropertyFlag::HasSystemInitial => 0x040,
            PropertyFlag::NoImplicitNull => 0x080,
            PropertyFlag::InitialSatisfiesTc => 0x100,
            PropertyFlag::IsLateInit => 0x200,
            PropertyFlag::IsReadonly => 0x400,
        }
    }
}

/// The contribution of `flag` to the packed form of `flags`.
pub open spec fn weight(flags: Set<PropertyFlag>, flag: PropertyFlag) -> int {
    if flags.contains(flag) {
        flag.mask() as int
    } else {
        0
    }
}

/// The packed form of a set of flags: the sum of the bits of its members.
pub open spec fn packed(flags: Set<PropertyFlag>) -> int {
    weight(flags, PropertyFlag::IsAbstract) + weight(flags, PropertyFlag::IsStatic) + weight(
        flags,
        PropertyFlag::IsDeepInit,
    ) + weight(flags, PropertyFlag::IsConst) + weight(flags, PropertyFlag::IsLsb) + weight(
        flags,
        PropertyFlag::IsNoBadRedeclare,
    ) + weight(flags, PropertyFlag::HasSystemInitial) + weight(flags, PropertyFlag::NoImplicitNull)
        + weight(flags, PropertyFlag::InitialSatisfiesTc) + weight(flags, PropertyFlag::IsLateInit)
        + weight(flags, PropertyFlag::IsReadonly)
}

/// The flags whose bit is set in `bits`; bits that stand for no flag are ignored.
pub open spec fn unpacked(bits: u16) -> Set<PropertyFlag> {
    Set::new(|flag: PropertyFlag| bits & flag.mask() == flag.mask())
}

/// The packed form with every defined bit set.
pub const ALL_BITS: u16 = 0x7ff;

proof fn lemma_flag_bit(a: u16, b: u16, m: u16)
    by (bit_vector)
    requires
        m == 0x001 || m == 0x002 || m == 0x004 || m == 0x008 || m == 0x010 || m == 0x020 || m
            == 0x040 || m == 0x080 || m == 0x100 || m == 0x200 || m == 0x400,
    ensures
        ((a | b) & m == m) <==> (a & m == m || b & m == m),
        ((a & !b) & m == m) <==> (a & m == m && !(b & m == m)),
        ((a & 0x7ff) & m == m) <==> (a & m == m),
        a & m == m || a & m == 0,
        0x7ffu16 & m == m,
        0u16 & m != m,
{
}

proof fn lemma_distinct_bits(m: u16, n: u16)
    by (bit_vector)
    requires
        m == 0x001 || m == 0x002 || m == 0x004 || m == 0x008 || m == 0x010 || m == 0x020 || m
            == 0x040 || m == 0x080 || m == 0x100 || m == 0x200 || m == 0x400,
        n == 0x001 || n == 0x002 || n == 0x004 || n == 0x008 || n == 0x010 || n == 0x020 || n
            == 0x040 || n == 0x080 || n == 0x100 || n == 0x200 || n == 0x400,
    ensures
        (m & n == n) <==> m == n,
        m <= 0x7ff,
{
}

proof fn lemma_in_range(a: u16, b: u16)
    by (bit_vector)
    ensures
        a & 0x7ff <= 0x7ff,
        (a & !0x7ffu16 == 0) <==> a <= 0x7ff,
        a <= 0x7ff && b <= 0x7ff ==> a | b <= 0x7ff,
        a <= 0x7ff ==> a & !b <= 0x7ff,
{
}

proof fn lemma_subset_from_bits(a: u16, b: u16)
    by (bit_vector)
    requires
        b <= 0x7ff,
        b & 0x001 == 0x001 ==> a & 0x001 == 0x001,
        b & 0x002 == 0x002 ==> a & 0x002 == 0x002,
        b & 0x004 == 0x004 ==> a & 0x004 == 0x004,
        b & 0x008 == 0x008 ==> a & 0x008 == 0x008,
        b & 0x010 == 0x010 ==> a & 0x010 == 0x010,
        b & 0x020 == 0x020 ==> a & 0x020 == 0x020,
        b & 0x040 == 0x040 ==> a & 0x040 == 0x040,
        b & 0x080 == 0x080 ==> a & 0x080 == 0x080,
        b & 0x100 == 0x100 ==> a & 0x100 == 0x100,
        b & 0x200 == 0x200 ==> a & 0x200 == 0x200,
        b & 0x400 == 0x400 ==> a & 0x400 == 0x400,
    ensures
        a & b == b,
{
}

proof fn lemma_bit_of_superset(a: u16, b: u16, m: u16)
    by (bit_vector)
    requires
        a & b == b,
        b & m == m,
    ensures
        a & m == m,
{
}

proof fn lemma_sum_of_bits(a: u16)
    by (bit_vector)
    requires
        a <= 0x7ff,
    ensures
        a == (a & 0x001) + (a & 0x002) + (a & 0x004) + (a & 0x008) + (a & 0x010) + (a & 0x020) + (a
            & 0x040) + (a & 0x080) + (a & 0x100) + (a & 0x200) + (a & 0x400),
{
}

/// Packing the flags found in `bits` gives `bits` back, as long as `bits`
/// sets no bit that stands for no flag; and no flag is found in no bits.
pub proof fn lemma_packed_of_unpacked(bits: u16)
    requires
        bits <= ALL_BITS,
    ensures
        packed(unpacked(bits)) == bits,
        bits == 0 <==> unpacked(bits) == Set::<PropertyFlag>::empty(),
{
    lemma_sum_of_bits(bits);
    let found = unpacked(bits);
    assert forall|flag: PropertyFlag|
        weight(found, flag) == bits & #[trigger] flag.mask() && (bits == 0 ==> !found.contains(
            flag,
        )) by {
        lemma_flag_bit(bits, 0, flag.mask());
    }
    assert(weight(found, PropertyFlag::IsAbstract) == bits & 0x001);
    assert(weight(found, PropertyFlag::IsStatic) == bits & 0x002);
    assert(weight(found, PropertyFlag::IsDeepInit) == bits & 0x004);
    assert(weight(found, PropertyFlag::IsConst) == bits & 0x008);
    assert(weight(found, PropertyFlag::IsLsb) == bits & 0x010);
    assert(weight(found, PropertyFlag::IsNoBadRedeclare) == bits & 0x020);
    assert(weight(found, PropertyFlag::HasSystemInitial) == bits & 0x040);
    assert(weight(found, PropertyFlag::NoImplicitNull) == bits & 0x080);
    assert(weight(found, PropertyFlag::InitialSatisfiesTc) == bits & 0x100);
    assert(weight(found, PropertyFlag::IsLateInit) == bits & 0x200);
    assert(weight(found, PropertyFlag::IsReadonly) == bits & 0x400);
    if bits == 0 {
        assert(found =~= Set::<PropertyFlag>::empty());
    }
}

/// A set of [`PropertyFlag`]s packed into sixteen bits.
#[derive(Clone, Copy, Debug, PartialEq, Eq, Structural)]
pub struct HhasPropertyFlags(u16);

impl View for HhasPropertyFlags {
    type V = Set<PropertyFlag>;

    closed spec fn view(&self) -> Set<PropertyFlag> {
        unpacked(self.0)
    }
}

impl HhasPropertyFlags {
    /// No bit is set that stands for no flag.
    #[verifier::type_invariant]
    spec fn well_formed(self) -> bool {
        self.0 <= 0x7ff
    }

    /// The set that holds no flag.
    pub fn empty() -> (flags: HhasPropertyFlags)
        ensures
            flags@ == Set::<PropertyFlag>::empty(),
    {
        proof {
            lemma_packed_of_unpacked(0);
        }
        HhasPropertyFlags(0)
    }

    /// The set that holds every flag.
    pub fn all() -> (flags: HhasPropertyFlags)
        ensures
            flags@ == Set::<PropertyFlag>::full(),
    {
        let flags = HhasPropertyFlags(ALL_BITS);
        proof {
            assert forall|flag: PropertyFlag| #[trigger] flags@.contains(flag) by {
                lemma_flag_bit(0, 0, flag.mask());
            }
            assert(flags@ =~= Set::<PropertyFlag>::full());
        }
        flags
    }

    /// The set that holds `flag` and nothing else.
    pub fn from_flag(flag: PropertyFlag) -> (flags: HhasPropertyFlags)
        ensures
            flags@ == set![flag],
    {
        let flags = HhasPropertyFlags(flag.bit());
        proof {
            lemma_distinct_bits(flag.mask(), flag.mask());
            assert forall|other: PropertyFlag| flags@.contains(other) <==> other == flag by {
                lemma_distinct_bits(flag.mask(), other.mask());
            }
            assert(flags@ =~= set![flag]);
        }
        flags
    }

    /// The packed form: the sum of the bits of the flags held.
    pub fn bits(&self) -> (bits: u16)
        ensures
            bits == packed(self@),
            unpacked(bits) == self@,
            bits <= ALL_BITS,
    {
        proof {
            use_type_invariant(self);
            lemma_packed_of_unpacked(self.0);
        }
        self.0
    }

    /// The set whose packed form is `bits`, if `bits` sets no bit that stands
    /// for no flag.
    pub fn from_bits(bits: u16) -> (flags: Option<HhasPropertyFlags>)
        ensures
            flags is Some <==> bits <= ALL_BITS,
            flags matches Some(f) ==> f@ == unpacked(bits) && packed(f@) == bits,
    {
        proof {
            lemma_in_range(bits, 0);
        }
        if (bits & !ALL_BITS) == 0 {
            proof {
                lemma_packed_of_unpacked(bits);
            }
            Some(HhasPropertyFlags(bits))
        } else {
            None
        }
    }

    /// The flags whose bit is set in `bits`; bits that stand for no flag are
    /// dropped.
    pub fn from_bits_truncate(bits: u16) -> (flags: HhasPropertyFlags)
        ensures
            flags@ == unpacked(bits),
    {
        proof {
            lemma_in_range(bits, 0);
        }
        let flags = HhasPropertyFlags(bits & ALL_BITS);
        proof {
            assert forall|flag: PropertyFlag|
                flags@.contains(flag) <==> unpacked(bits).contains(flag) by {
                lemma_flag_bit(bits, 0, flag.mask());
            }
            assert(flags@ =~= unpacked(bits));
        }
        flags
    }

    /// Whether no flag is held.
    pub fn is_empty(&self) -> (empty: bool)
        ensures
            empty <==> self@ == Set::<PropertyFlag>::empty(),
    {
        proof {
            use_type_invariant(self);
            lemma_packed_of_unpacked(self.0);
        }
        self.0 == 0
    }

    /// Whether every flag of `other` is held.
    pub fn contains(&self, other: HhasPropertyFlags) -> (held: bool)
        ensures
            held <==> other@.subset_of(self@),
    {
        proof {
            use_type_invariant(self);
            use_type_invariant(other);
            let a = self.0;
            let b = other.0;
            if a & b == b {
                assert forall|flag: PropertyFlag| other@.contains(flag) implies self@.contains(
                    flag,
                ) by {
                    lemma_bit_of_superset(a, b, flag.mask());
                }
            }
            if other@.subset_of(self@) {
                assert(other@.contains(PropertyFlag::IsAbstract) ==> self@.contains(
                    PropertyFlag::IsAbstract,
                ));
                assert(other@.contains(PropertyFlag::IsStatic) ==> self@.contains(
                    PropertyFlag::IsStatic,
                ));
                assert(other@.contains(PropertyFlag::IsDeepInit) ==> self@.contains(
                    PropertyFlag::IsDeepInit,
                ));
                assert(other@.contains(PropertyFlag::IsConst) ==> self@.contains(
                    PropertyFlag::IsConst,
                ));
                assert(other@.contains(PropertyFlag::IsLsb) ==> self@.contains(
                    PropertyFlag::IsLsb,
                ));
                assert(other@.contains(PropertyFlag::IsNoBadRedeclare) ==> self@.contains(
                    PropertyFlag::IsNoBadRedeclare,
                ));
                assert(other@.contains(PropertyFlag::HasSystemInitial) ==> self@.contains(
                    PropertyFlag::HasSystemInitial,
                ));
                assert(other@.contains(PropertyFlag::NoImplicitNull) ==> self@.contains(
                    PropertyFlag::NoImplicitNull,
                ));
                assert(other@.contains(PropertyFlag::InitialSatisfiesTc) ==> self@.contains(
                    PropertyFlag::InitialSatisfiesTc,
                ));
                assert(other@.contains(PropertyFlag::IsLateInit) ==> self@.contains(
                    PropertyFlag::IsLateInit,
                ));
                assert(other@.contains(PropertyFlag::IsReadonly) ==> self@.contains(
                    PropertyFlag::IsReadonly,
                ));
                lemma_subset_from_bits(a, b);
            }
        }
        (self.0 & other.0) == other.0
    }

    /// Adds every flag of `other`.
    pub fn insert(&mut self, other: HhasPropertyFlags)
        ensures
            final(self)@ == old(self)@.union(other@),
    {
        let ghost before = *self;
        proof {
            use_type_invariant(&*self);
            use_type_invariant(other);
            lemma_in_range(self.0, other.0);
        }
        self.0 = self.0 | other.0;
        proof {
            assert forall|flag: PropertyFlag|
                self@.contains(flag) <==> before@.union(other@).contains(flag) by {
                lemma_flag_bit(before.0, other.0, flag.mask());
            }
            assert(self@ =~= before@.union(other@));
        }
    }

    /// Takes away every flag of `other`.
    pub fn remove(&mut self, other: HhasPropertyFlags)
        ensures
            final(self)@ == old(self)@.difference(other@),
    {
        let ghost before = *self;
        proof {
            use_type_invariant(&*self);
            use_type_invariant(other);
            lemma_in_range(self.0, other.0);
        }
        self.0 = self.0 & !other.0;
        proof {
            assert forall|flag: PropertyFlag|
                self@.contains(flag) <==> before@.difference(other@).contains(flag) by {
                lemma_flag_bit(before.0, other.0, flag.mask());
            }
            assert(self@ =~= before@.difference(other@));
        }
    }

    /// Adds the flags of `other` when `value` holds, and takes them away
    /// when it does not.
    pub fn set(&mut self, other: HhasPropertyFlags, value: bool)
        ensures
            final(self)@ == with_flags(old(self)@, other@, value),
    {
        if value {
            self.insert(other);
        } else {
            self.remove(other);
        }
    }
}

/// What a set of flags becomes when the flags of `other` are switched on
/// (`value` holds) or off.
pub open spec fn with_flags(
    flags: Set<PropertyFlag>,
    other: Set<PropertyFlag>,
    value: bool,
) -> Set<PropertyFlag> {
    if value {
        flags.union(other)
    } else {
        flags.difference(other)
    }
}

/// Switching one flag on makes a query for it answer yes, switching it off
/// makes the query answer no, and either way the answer for every other flag
/// stays what it was.
pub proof fn lemma_flag_round_trip(
    flags: Set<PropertyFlag>,
    flag: PropertyFlag,
    other: PropertyFlag,
    value: bool,
)
    ensures
        set![flag].subset_of(with_flags(flags, set![flag], value)) <==> value,
        other != flag ==> (set![other].subset_of(with_flags(flags, set![flag], value))
            <==> set![other].subset_of(flags)),
        other != flag ==> weight(with_flags(flags, set![flag], value), other) == weight(
            flags,
            other,
        ),
{
    let after = with_flags(flags, set![flag], value);
    assert(set![flag].contains(flag));
    assert(set![other].contains(other));
    assert(after.contains(flag) <==> value);
    if other != flag {
        assert(!set![flag].contains(other));
        assert(after.contains(other) <==> flags.contains(other));
    }
}

} // verus!
