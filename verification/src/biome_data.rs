//! A biome: its name, the value (brightness) of its colour, by which map
//! pixels are matched to it, and the voxel type that its columns are made of.
use vstd::prelude::*;

verus! {

/// The HSV value of a colour, the largest of its red, green and blue channels,
/// held as the key by which two values are compared: `Value(bits)` holds the
/// bit pattern of a value that is a number (with `-0.0` written as `0.0`, so
/// that two such values are equal exactly when their bits are), and
/// `NotANumber` one that equals nothing.
#[derive(PartialEq, Eq, Structural, Debug, Clone, Copy)]
pub enum ColorValue {
    Value(u32),
    NotANumber,
}

/// Whether two colour values compare equal.
pub open spec fn same_value(a: ColorValue, b: ColorValue) -> bool {
    a is Value && a == b
}

impl ColorValue {
    /// Whether this colour value compares equal to `other`.
    pub fn matches(&self, other: &ColorValue) -> (r: bool)
        ensures
            r == same_value(*self, *other),
    {
        match (self, other) {
            (ColorValue::Value(a), ColorValue::Value(b)) => *a == *b,
            _ => false,
        }
    }
}

/// One biome of the dictionary.
pub struct BiomeData {
    pub name: String,
    /// The value of the biome's colour.
    pub color_value: ColorValue,
    pub voxel_type: i64,
}

/// A biome as it is freshly made: no name, black, voxel type 0.
pub open spec fn is_default_biome(b: BiomeData) -> bool {
    &&& b.name@ == Seq::<char>::empty()
    &&& b.color_value == ColorValue::Value(0)
    &&& b.voxel_type == 0
}

/// The number of `true` entries of `flags`.
pub open spec fn count_true(flags: Seq<bool>) -> nat
    decreases flags.len(),
{
    if flags.len() == 0 {
        0
    } else {
        count_true(flags.drop_last()) + if flags.last() { 1nat } else { 0nat }
    }
}

impl BiomeData {
    /// A new biome: empty name, black colour (value 0), voxel type 0.
    pub fn new() -> (b: BiomeData)
        ensures
            is_default_biome(b),
    {
        BiomeData { name: String::new(), color_value: ColorValue::Value(0), voxel_type: 0 }
    }

    /// The lookup table that map generation matches pixels against: one fresh
    /// biome for each dictionary entry that holds a resource (`resource_flags[i]`
    /// says whether entry `i` does), in dictionary order.
    pub fn lookup_for(resource_flags: &Vec<bool>) -> (lookup: Vec<BiomeData>)
        ensures
            lookup@.len() == count_true(resource_flags@),
            forall|i: int| 0 <= i < lookup@.len() ==> is_default_biome(#[trigger] lookup@[i]),
    {
        let mut lookup: Vec<BiomeData> = Vec::new();
        let mut k: usize = 0;
        while k < resource_flags.len()
            invariant
                k <= resource_flags@.len(),
                lookup@.len() == count_true(resource_flags@.take(k as int)),
                forall|i: int| 0 <= i < lookup@.len() ==> is_default_biome(#[trigger] lookup@[i]),
            decreases resource_flags@.len() - k,
        {
            assert(resource_flags@.take(k + 1).drop_last() =~= resource_flags@.take(k as int));
            if resource_flags[k] {
                lookup.push(BiomeData::new());
            }
            k = k + 1;
        }
        assert(resource_flags@.take(k as int) =~= resource_flags@);
        lookup
    }
}

/// The voxel type of a pixel whose biome colour has value `value`: that of the
/// first biome of `lookup` whose colour value equals it, or 1 when none does.
pub open spec fn voxel_type_for(lookup: Seq<BiomeData>, value: ColorValue) -> i64
    decreases lookup.len(),
{
    if lookup.len() == 0 {
        1
    } else if same_value(lookup[0].color_value, value) {
        lookup[0].voxel_type
    } else {
        voxel_type_for(lookup.drop_first(), value)
    }
}

/// The voxel type of a pixel is that of the first biome, in table order,
/// whose colour value is the pixel's (a number), whatever the values of the
/// biomes before it.
pub proof fn lemma_first_match_wins(lookup: Seq<BiomeData>, value: ColorValue, j: int)
    requires
        0 <= j < lookup.len(),
        value is Value,
        lookup[j].color_value == value,
        forall|k: int| 0 <= k < j ==> #[trigger] lookup[k].color_value != value,
    ensures
        voxel_type_for(lookup, value) == lookup[j].voxel_type,
    decreases j,
{
    if j > 0 {
        let rest = lookup.drop_first();
        assert forall|k: int| 0 <= k < j - 1 implies #[trigger] rest[k].color_value != value by {
            assert(rest[k] == lookup[k + 1]);
        }
        assert(lookup[0].color_value != value);
        lemma_first_match_wins(rest, value, j - 1);
    }
}

/// A pixel whose colour value equals no biome's, or is not a number, gets
/// voxel type 1.
pub proof fn lemma_no_match_is_one(lookup: Seq<BiomeData>, value: ColorValue)
    requires
        value is NotANumber || forall|k: int| 0 <= k < lookup.len() ==> #[trigger] lookup[k].color_value
            != value,
    ensures
        voxel_type_for(lookup, value) == 1,
    decreases lookup.len(),
{
    if lookup.len() > 0 {
        let rest = lookup.drop_first();
        assert forall|k: int| 0 <= k < rest.len() implies #[trigger] rest[k].color_value != value
            || value is NotANumber by {
            assert(rest[k] == lookup[k + 1]);
        }
        if !(value is NotANumber) {
            assert(lookup[0].color_value != value);
        }
        lemma_no_match_is_one(rest, value);
    }
}

/// Finds the voxel type of a pixel by the value of its biome colour.
pub fn find_voxel_type(lookup: &Vec<BiomeData>, value: &ColorValue) -> (t: i64)
    ensures
        t == voxel_type_for(lookup@, *value),
{
    let mut k: usize = 0;
    assert(lookup@.skip(0) =~= lookup@);
    while k < lookup.len()
        invariant
            k <= lookup@.len(),
            voxel_type_for(lookup@, *value) == voxel_type_for(lookup@.skip(k as int), *value),
        decreases lookup@.len() - k,
    {
        assert(lookup@.skip(k as int)[0] == lookup@[k as int]);
        assert(lookup@.skip(k as int).drop_first() =~= lookup@.skip(k + 1));
        if lookup[k].color_value.matches(value) {
            return lookup[k].voxel_type;
        }
        k = k + 1;
    }
    1
}

} // verus!
