//! The voxel generator: a biome dictionary edited through `biome_data/<i>`
//! properties, height and voxel-type maps laid out from an elevation image and
//! a biome image, and the per-column fill of the blocks it generates.
use vstd::prelude::*;
use vstd::arithmetic::div_mod::{
    lemma_div_multiples_vanish,
    lemma_fundamental_div_mod_converse_mod,
    lemma_fundamental_div_mod,
    lemma_mod_multiples_basic,
};
use crate::biome_data::{
    BiomeData,
    ColorValue,
    count_true,
    find_voxel_type,
    is_default_biome,
    same_value,
    voxel_type_for,
};
use crate::biome_dictionary::{
    BiomeProperty,
    biome_property,
    lemma_property_name_round_trip,
    parse_biome_property,
    property_name,
    property_name_of,
};

verus! {

/// The generator. `T` is what a dictionary entry holds; an entry is `None`
/// where it holds nothing.
pub struct VoxelGeneratorDF<T> {
    max_height: i64,
    map_height_data: Vec<i64>,
    map_type_data: Vec<i64>,
    size_x: usize,
    size_y: usize,
    data_calculated: bool,
    biome_dictionary: Vec<Option<T>>,
}

/// What a column of a generated block is filled with: voxels of `voxel_type`
/// at heights `0..count` of the block.
#[derive(PartialEq, Eq, Structural, Debug, Clone, Copy)]
pub struct ColumnFill {
    pub voxel_type: i64,
    pub count: i64,
}

/// Whether `r` refers to the value that `s` holds, or is empty where `s` is.
pub open spec fn refers_to<T>(r: Option<&T>, s: Option<T>) -> bool {
    match r {
        Some(v) => s == Some(*v),
        None => s is None,
    }
}

/// The entry that property `name` reads: the entry at its index, or nothing
/// when the name is not a biome property or its index is past the end.
pub open spec fn read_entry<T>(slots: Seq<Option<T>>, name: Seq<char>) -> Option<T> {
    match biome_property(name) {
        BiomeProperty::Index(i) => if 0 <= i < slots.len() {
            slots[i as int]
        } else {
            None
        },
        _ => None,
    }
}

/// `s`, grown with empty entries to length `n` where it is shorter.
pub open spec fn padded<T>(s: Seq<Option<T>>, n: int) -> Seq<Option<T>> {
    if s.len() >= n {
        s
    } else {
        s + Seq::new((n - s.len()) as nat, |j: int| None::<T>)
    }
}

/// The dictionary after `value` is written through property `name`: for a
/// non-negative index `i`, the dictionary grown with empty entries to length
/// `i + 1` where it is shorter, then `value` inserted before position `i`
/// (the entries from `i` on move up by one). A negative index changes nothing.
pub open spec fn written_entries<T>(slots: Seq<Option<T>>, name: Seq<char>, value: Option<T>) -> Seq<
    Option<T>,
> {
    match biome_property(name) {
        BiomeProperty::Index(i) => if i >= 0 {
            padded(slots, i + 1).insert(i as int, value)
        } else {
            slots
        },
        _ => slots,
    }
}

/// Whether a write through property `name` is one that the generator carries
/// out: the name is no malformed biome property, and a non-negative index
/// leaves the dictionary's length within `i32`.
pub open spec fn writable(len: int, name: Seq<char>) -> bool {
    match biome_property(name) {
        BiomeProperty::Index(i) => i < 0 || (i < i32::MAX && len < i32::MAX && i + 1 < i32::MAX),
        BiomeProperty::Malformed => false,
        BiomeProperty::Other => true,
    }
}

/// Whether a read through property `name` is one that the generator carries
/// out: the name is no malformed biome property and its index is not negative.
pub open spec fn readable(name: Seq<char>) -> bool {
    match biome_property(name) {
        BiomeProperty::Index(i) => i >= 0,
        BiomeProperty::Malformed => false,
        BiomeProperty::Other => true,
    }
}

/// The map is walked column by column (`x` in `0..w`), each column row by row
/// (`z` in `0..h`), and pixel `(x, z)` is written to cell `z * h + x`.
/// Whether column `x`, for a row below `rows`, writes cell `i`.
pub open spec fn column_writes(i: int, x: int, rows: int, h: int) -> bool {
    &&& x <= i
    &&& (i - x) % h == 0
    &&& 0 <= (i - x) / h < rows
}

/// The last column among `0..w` whose pixels write cell `i`, if any: later
/// columns overwrite what earlier ones wrote.
pub open spec fn last_writer(i: int, w: int, h: int) -> Option<int>
    decreases w,
{
    if w <= 0 || h <= 0 {
        None
    } else if column_writes(i, w - 1, h, h) {
        Some(w - 1)
    } else {
        last_writer(i, w - 1, h)
    }
}

/// Whether every cell `z * h + x` that a `w` by `h` map writes lies below `cells`.
pub open spec fn map_fits(w: int, h: int, cells: int) -> bool {
    w == 0 || h == 0 || (h - 1) * h + (w - 1) < cells
}

/// The voxel type of pixel `(x, z)`: where there is a biome image, a pixel
/// whose colour value is 0 gets the type 0 of the fresh biomes in the lookup
/// table when that table is not empty; every other pixel gets type 1.
pub open spec fn pixel_type(biome: Option<Vec<Vec<ColorValue>>>, has_biomes: bool, x: int, z: int) -> i64 {
    match biome {
        Some(b) => if has_biomes && b@[x]@[z] == ColorValue::Value(0) {
            0
        } else {
            1
        },
        None => 1,
    }
}

/// Cell `i` of the height map: the elevation of the pixel written there last, or 0.
pub open spec fn laid_out_height(elevation: Seq<Vec<i64>>, i: int, w: int, h: int) -> i64 {
    match last_writer(i, w, h) {
        Some(x) => elevation[x]@[(i - x) / h],
        None => 0,
    }
}

/// Cell `i` of the voxel-type map: the type of the pixel written there last, or 0.
pub open spec fn laid_out_type(
    biome: Option<Vec<Vec<ColorValue>>>,
    has_biomes: bool,
    i: int,
    w: int,
    h: int,
) -> i64 {
    match last_writer(i, w, h) {
        Some(x) => pixel_type(biome, has_biomes, x, (i - x) / h),
        None => 0,
    }
}

/// How many voxels, from the bottom of a block, a column is filled with: the
/// whole block height `size` when the top `origin_y + size` lies below the
/// column's height; else, when the block starts below `max_height` and below
/// the column's height, `origin_y + size - height`; else none.
pub open spec fn fill_count_of(height: int, origin_y: int, size: int, max_height: int) -> int {
    let top_y = origin_y + size;
    if top_y < height {
        size
    } else if origin_y < max_height && height > origin_y {
        top_y - height
    } else {
        0
    }
}

pub open spec fn grid_shape<A>(grid: Seq<Vec<A>>, w: int, h: int) -> bool {
    &&& grid.len() == w
    &&& forall|x: int| 0 <= x < w ==> (#[trigger] grid[x])@.len() == h
}

/// A lookup table of fresh biomes gives type 0 to a colour value of 0, when
/// it is not empty, and type 1 to everything else.
proof fn lemma_default_lookup(lookup: Seq<BiomeData>, value: ColorValue)
    requires
        forall|i: int| 0 <= i < lookup.len() ==> is_default_biome(#[trigger] lookup[i]),
    ensures
        voxel_type_for(lookup, value) == (if lookup.len() > 0 && value == ColorValue::Value(0) {
            0i64
        } else {
            1i64
        }),
    decreases lookup.len(),
{
    if lookup.len() > 0 {
        assert(is_default_biome(lookup[0]));
        if !same_value(lookup[0].color_value, value) {
            let rest = lookup.drop_first();
            assert forall|i: int| 0 <= i < rest.len() implies is_default_biome(#[trigger] rest[i]) by {
                assert(rest[i] == lookup[i + 1]);
            }
            lemma_default_lookup(rest, value);
        }
    }
}

/// Writing pixel `(x, z)` to cell `z * h + x` makes column `x` with rows
/// below `z + 1` write exactly the cells that it wrote with rows below `z`,
/// and that cell.
proof fn lemma_write_step(i: int, x: int, z: int, h: int)
    requires
        0 <= x,
        0 <= z,
        h > 0,
    ensures
        column_writes(i, x, z + 1, h) == (column_writes(i, x, z, h) || i == z * h + x),
        i == z * h + x ==> (i - x) / h == z,
{
    if i == z * h + x {
        lemma_mod_multiples_basic(z, h);
        lemma_div_multiples_vanish(z, h);
        assert(h * z == z * h) by (nonlinear_arith);
    }
    if x <= i && (i - x) % h == 0 && (i - x) / h == z {
        lemma_fundamental_div_mod(i - x, h);
        assert(h * z == z * h) by (nonlinear_arith);
    }
}

/// What a write through a `biome_data/<i>` property with `i >= 0` stores is
/// what a read through the same property then gives: such a name may be
/// read, and where the write was one that `_set` carries out, the dictionary
/// it leaves stays within the `i32` length that `_set` keeps.
pub proof fn lemma_read_after_write<T>(slots: Seq<Option<T>>, name: Seq<char>, value: Option<T>)
    requires
        biome_property(name) matches BiomeProperty::Index(i) && i >= 0,
    ensures
        readable(name),
        read_entry(written_entries(slots, name, value), name) == value,
        writable(slots.len() as int, name) ==> written_entries(slots, name, value).len() <= i32::MAX,
{
    let i = biome_property(name)->Index_0;
    let grown = padded(slots, i + 1);
    assert(grown.len() >= i + 1);
    assert(grown.insert(i as int, value)[i as int] == value);
}

/// A write through `biome_data/<i>` with `i >= 0` leaves the dictionary one
/// entry longer than it is once grown to `i + 1` entries: the entries before
/// `i` stay (empty where the dictionary was shorter), the value stands at `i`,
/// and every entry from `i` on, empty or not, moves up by one.
pub proof fn lemma_write_inserts<T>(slots: Seq<Option<T>>, name: Seq<char>, value: Option<T>, i: i32)
    requires
        biome_property(name) == BiomeProperty::Index(i),
        i >= 0,
    ensures
        written_entries(slots, name, value).len() == (if slots.len() > i {
            slots.len() as int
        } else {
            i + 1
        }) + 1,
        written_entries(slots, name, value)[i as int] == value,
        forall|j: int|
            0 <= j < i ==> #[trigger] written_entries(slots, name, value)[j] == (if j < slots.len() {
                slots[j]
            } else {
                None
            }),
        forall|j: int|
            i < j < written_entries(slots, name, value).len() ==> #[trigger] written_entries(
                slots,
                name,
                value,
            )[j] == (if j - 1 < slots.len() {
                slots[j - 1]
            } else {
                None
            }),
{
    let grown = padded(slots, i + 1);
    assert forall|j: int| 0 <= j < grown.len() implies #[trigger] grown[j] == (if j < slots.len() {
        slots[j]
    } else {
        None
    }) by {}
}

/// A write through a name that is no biome index, or whose index is
/// negative, leaves the dictionary as it was.
pub proof fn lemma_write_elsewhere_keeps<T>(slots: Seq<Option<T>>, name: Seq<char>, value: Option<T>)
    requires
        forall|i: i32| biome_property(name) == BiomeProperty::Index(i) ==> i < 0,
    ensures
        written_entries(slots, name, value) == slots,
{
}

/// A read through `biome_data/<i>` gives entry `i` when `0 <= i` is below the
/// dictionary's length, and nothing when `i` is at or past the end, or
/// negative; a name that is no biome index reads nothing.
pub proof fn lemma_read_bounds<T>(slots: Seq<Option<T>>, name: Seq<char>)
    ensures
        forall|i: i32|
            biome_property(name) == BiomeProperty::Index(i) && 0 <= i < slots.len() ==> read_entry(
                slots,
                name,
            ) == slots[i as int],
        forall|i: i32|
            biome_property(name) == BiomeProperty::Index(i) && (i < 0 || i >= slots.len())
                ==> read_entry(slots, name) is None,
        !(biome_property(name) is Index) ==> read_entry(slots, name) is None,
{
}

/// Each property of the list that `_get_property_list` gives reads the
/// dictionary entry it was listed for.
pub proof fn lemma_listed_property_reads_entry<T>(slots: Seq<Option<T>>, k: int)
    requires
        0 <= k < slots.len(),
        slots.len() <= i32::MAX,
    ensures
        read_entry(slots, property_name_of(k as nat)) == slots[k],
{
    lemma_property_name_round_trip(k as nat);
}

/// On a map that is no wider than it is tall, no pixel overwrites another:
/// the last (and only) column that writes cell `z * h + x` is `x`.
pub proof fn lemma_narrow_map_writer(x: int, z: int, w: int, h: int)
    requires
        0 <= x < w <= h,
        0 <= z < h,
    ensures
        last_writer(z * h + x, w, h) == Some(x),
    decreases w,
{
    let i = z * h + x;
    let c = w - 1;
    if c == x {
        lemma_write_step(i, x, z, h);
    } else {
        if c <= i && (i - c) % h == 0 {
            let d = c - x;
            assert(z >= 1) by (nonlinear_arith)
                requires
                    c <= z * h + x,
                    x < c,
                    c < h,
                    0 <= z,
            ;
            assert(i - c == (z - 1) * h + (h - d)) by (nonlinear_arith)
                requires
                    i == z * h + x,
                    d == c - x,
            ;
            lemma_fundamental_div_mod_converse_mod(i - c, h, z - 1, h - d);
        }
        lemma_narrow_map_writer(x, z, w - 1, h);
    }
}

/// When the map is no wider than it is tall, the height and voxel-type maps
/// hold at cell `z * size_y + x` the height and type of pixel `(x, z)`.
pub proof fn lemma_narrow_map_layout(
    elevation: Seq<Vec<i64>>,
    biome: Option<Vec<Vec<ColorValue>>>,
    has_biomes: bool,
    x: int,
    z: int,
    w: int,
    h: int,
)
    requires
        0 <= x < w <= h,
        0 <= z < h,
    ensures
        laid_out_height(elevation, z * h + x, w, h) == elevation[x]@[z],
        laid_out_type(biome, has_biomes, z * h + x, w, h) == pixel_type(biome, has_biomes, x, z),
{
    lemma_narrow_map_writer(x, z, w, h);
    lemma_write_step(z * h + x, x, z, h);
}

impl<T> VoxelGeneratorDF<T> {
    /// The entries of the biome dictionary.
    pub closed spec fn slots(&self) -> Seq<Option<T>> {
        self.biome_dictionary@
    }

    /// The height map.
    pub closed spec fn heights(&self) -> Seq<i64> {
        self.map_height_data@
    }

    /// The voxel-type map.
    pub closed spec fn types(&self) -> Seq<i64> {
        self.map_type_data@
    }

    /// The size of the elevation image the maps were laid out from.
    pub closed spec fn size(&self) -> (usize, usize) {
        (self.size_x, self.size_y)
    }

    /// Whether the maps have been laid out.
    pub closed spec fn calculated(&self) -> bool {
        self.data_calculated
    }

    /// The dictionary's length fits in an `i32`, and the two maps are equally long.
    pub open spec fn wf(&self) -> bool {
        &&& self.slots().len() <= i32::MAX
        &&& self.heights().len() == self.types().len()
    }

    /// The height that a fully bright elevation pixel stands for.
    pub closed spec fn max_height_of(&self) -> i64 {
        self.max_height
    }

    /// Whether two generators hold the same maps, size, state and maximum height.
    pub open spec fn same_maps(&self, other: &Self) -> bool {
        &&& self.heights() == other.heights()
        &&& self.types() == other.types()
        &&& self.size() == other.size()
        &&& self.calculated() == other.calculated()
        &&& self.max_height_of() == other.max_height_of()
    }

    /// A generator with a maximum height of 100, empty maps of size 0 by 0
    /// that are not laid out yet, and an empty biome dictionary.
    pub fn new() -> (g: Self)
        ensures
            g.wf(),
            g.max_height_of() == 100,
            g.heights() == Seq::<i64>::empty(),
            g.types() == Seq::<i64>::empty(),
            g.size() == (0usize, 0usize),
            !g.calculated(),
            g.slots() == Seq::<Option<T>>::empty(),
    {
        VoxelGeneratorDF {
            max_height: 100,
            map_height_data: Vec::new(),
            map_type_data: Vec::new(),
            size_x: 0,
            size_y: 0,
            data_calculated: false,
            biome_dictionary: Vec::new(),
        }
    }

    /// The `max_height` property: the height that a fully bright elevation
    /// pixel stands for.
    pub fn max_height(&self) -> (h: i64)
        ensures
            h == self.max_height_of(),
    {
        self.max_height
    }

    /// Sets the `max_height` property.
    pub fn set_max_height(&mut self, max_height: i64)
        ensures
            final(self).max_height_of() == max_height,
            final(self).slots() == old(self).slots(),
            final(self).heights() == old(self).heights(),
            final(self).types() == old(self).types(),
            final(self).size() == old(self).size(),
            final(self).calculated() == old(self).calculated(),
            final(self).wf() == old(self).wf(),
    {
        self.max_height = max_height;
    }

    /// The dictionary's entries.
    pub fn biome_slots(&self) -> (r: &Vec<Option<T>>)
        ensures
            r@ == self.slots(),
    {
        &self.biome_dictionary
    }

    /// The height map.
    pub fn map_height_data(&self) -> (r: &Vec<i64>)
        ensures
            r@ == self.heights(),
    {
        &self.map_height_data
    }

    /// The voxel-type map.
    pub fn map_type_data(&self) -> (r: &Vec<i64>)
        ensures
            r@ == self.types(),
    {
        &self.map_type_data
    }

    /// The size of the elevation image the maps were laid out from.
    pub fn map_size(&self) -> (r: (usize, usize))
        ensures
            r == self.size(),
    {
        (self.size_x, self.size_y)
    }

    /// Whether the maps have been laid out; until they are, a generator that
    /// becomes ready lays them out.
    pub fn is_data_calculated(&self) -> (r: bool)
        ensures
            r == self.calculated(),
    {
        self.data_calculated
    }

    /// The `BiomeCount` property: the number of dictionary entries.
    pub fn biome_count(&self) -> (n: i32)
        requires
            self.wf(),
        ensures
            n == self.slots().len(),
    {
        self.biome_dictionary.len() as i32
    }

    /// Sets the `BiomeCount` property: entries made by `create` are added at
    /// the end until there are `value` of them, or entries are removed from
    /// the end until there are `value` (none, for a negative `value`).
    pub fn set_biome_count<F: Fn() -> T>(&mut self, value: i32, create: F)
        requires
            old(self).wf(),
            value <= old(self).slots().len() ==> old(self).slots().len() - value <= i32::MAX,
            create.requires(()),
        ensures
            final(self).wf(),
            final(self).same_maps(old(self)),
            final(self).slots().len() == (if value > 0 {
                value as int
            } else {
                0
            }),
            forall|i: int|
                0 <= i < final(self).slots().len() && i < old(self).slots().len() ==> #[trigger] final(self).slots()[i] == old(self).slots()[i],
            forall|i: int|
                old(self).slots().len() <= i < final(self).slots().len() ==> (#[trigger] final(self).slots()[i] matches Some(v) && create.ensures((), v)),
    {
        let mut slots: Vec<Option<T>> = Vec::new();
        std::mem::swap(&mut slots, &mut self.biome_dictionary);
        let len = slots.len() as i32;
        let ghost old_slots = slots@;
        if value > len {
            let mut k: i32 = len;
            while k < value
                invariant
                    len <= k <= value,
                    len == old_slots.len(),
                    slots@.len() == k,
                    create.requires(()),
                    forall|i: int| 0 <= i < len ==> #[trigger] slots@[i] == old_slots[i],
                    forall|i: int|
                        len <= i < k ==> (#[trigger] slots@[i] matches Some(v) && create.ensures((), v)),
                decreases value - k,
            {
                let v = create();
                slots.push(Some(v));
                k = k + 1;
            }
        } else {
            let count: i32 = len - value;
            let mut k: i32 = 0;
            while k < count
                invariant
                    0 <= k <= count,
                    count == len - value,
                    len == old_slots.len(),
                    slots@ == old_slots.take(if len - k > 0 {
                        len - k
                    } else {
                        0
                    }),
                decreases count - k,
            {
                slots.pop();
                k = k + 1;
            }
        }
        self.biome_dictionary = slots;
    }

    /// Reads property `property`: the entry at the index that a
    /// `biome_data/<index>` name gives, or nothing for any other name and for
    /// an index past the end.
    pub fn _get(&self, property: &str) -> (r: Option<&T>)
        requires
            readable(property@),
        ensures
            refers_to(r, read_entry(self.slots(), property@)),
    {
        match parse_biome_property(property) {
            BiomeProperty::Index(i) => {
                if i >= 0 && (i as usize) < self.biome_dictionary.len() {
                    self.biome_dictionary[i as usize].as_ref()
                } else {
                    None
                }
            },
            _ => None,
        }
    }

    /// Writes property `property`: for a `biome_data/<index>` name, grows the
    /// dictionary with empty entries to `index + 1` entries where it is
    /// shorter and inserts `value` before position `index`, then answers
    /// `true`; a negative index changes nothing and is answered `true`; any
    /// other name changes nothing and is answered `false`.
    pub fn _set(&mut self, property: &str, value: Option<T>) -> (handled: bool)
        requires
            old(self).wf(),
            writable(old(self).slots().len() as int, property@),
        ensures
            final(self).wf(),
            final(self).same_maps(old(self)),
            final(self).slots() == written_entries(old(self).slots(), property@, value),
            handled == (biome_property(property@) is Index),
    {
        match parse_biome_property(property) {
            BiomeProperty::Index(i) => {
                if i >= 0 {
                    let index = i as usize;
                    let mut slots: Vec<Option<T>> = Vec::new();
                    std::mem::swap(&mut slots, &mut self.biome_dictionary);
                    let ghost old_slots = slots@;
                    if slots.len() <= index {
                        while slots.len() < index + 1
                            invariant
                                old_slots.len() <= index,
                                index < i32::MAX,
                                slots@.len() <= index + 1,
                                slots@.len() >= old_slots.len(),
                                slots@ =~= old_slots + Seq::new(
                                    (slots@.len() - old_slots.len()) as nat,
                                    |j: int| None::<T>,
                                ),
                            decreases index + 1 - slots@.len(),
                        {
                            slots.push(None);
                        }
                    }
                    assert(slots@ =~= padded(old_slots, i + 1));
                    slots.insert(index, value);
                    self.biome_dictionary = slots;
                }
                true
            },
            BiomeProperty::Malformed => {
                assert(false);
                false
            },
            BiomeProperty::Other => false,
        }
    }

    /// The properties through which the dictionary is edited: one
    /// object-typed property `biome_data/<i>` for each entry `i`, in order.
    pub fn _get_property_list(&self) -> (names: Vec<String>)
        ensures
            names@.len() == self.slots().len(),
            forall|k: int| 0 <= k < names@.len() ==> (#[trigger] names@[k])@ == property_name_of(k as nat),
    {
        let mut names: Vec<String> = Vec::new();
        let mut k: usize = 0;
        while k < self.biome_dictionary.len()
            invariant
                k <= self.biome_dictionary@.len(),
                names@.len() == k,
                forall|j: int| 0 <= j < k ==> (#[trigger] names@[j])@ == property_name_of(j as nat),
            decreases self.biome_dictionary@.len() - k,
        {
            names.push(property_name(k));
            k = k + 1;
        }
        names
    }

    /// Lays out the height and voxel-type maps from an elevation image and an
    /// optional biome image of `size_x` columns and `size_y` rows:
    /// `elevation[x][z]` is the height of pixel `(x, z)`, `biome[x][z]` the
    /// value of its biome colour, and `resource_flags[i]` says whether
    /// dictionary entry `i` holds a resource, each of which stands for a fresh
    /// biome in the lookup table. Both maps become `cells` long and zeroed,
    /// then the pixels are visited column by column, row by row, and pixel
    /// `(x, z)` is written to cell `z * size_y + x`.
    pub fn update_map_data(
        &mut self,
        size_x: usize,
        size_y: usize,
        cells: usize,
        elevation: &Vec<Vec<i64>>,
        biome: &Option<Vec<Vec<ColorValue>>>,
        resource_flags: &Vec<bool>,
    )
        requires
            old(self).wf(),
            grid_shape(elevation@, size_x as int, size_y as int),
            biome matches Some(b) ==> grid_shape(b@, size_x as int, size_y as int),
            resource_flags@.len() == old(self).slots().len(),
            map_fits(size_x as int, size_y as int, cells as int),
        ensures
            final(self).wf(),
            final(self).slots() == old(self).slots(),
            final(self).max_height_of() == old(self).max_height_of(),
            final(self).size() == (size_x, size_y),
            final(self).calculated(),
            final(self).heights().len() == cells,
            final(self).types().len() == cells,
            forall|i: int|
                0 <= i < cells ==> #[trigger] final(self).heights()[i] == laid_out_height(
                    elevation@,
                    i,
                    size_x as int,
                    size_y as int,
                ),
            forall|i: int|
                0 <= i < cells ==> #[trigger] final(self).types()[i] == laid_out_type(
                    *biome,
                    count_true(resource_flags@) > 0,
                    i,
                    size_x as int,
                    size_y as int,
                ),
    {
        let lookup = BiomeData::lookup_for(resource_flags);
        let ghost has_biomes = count_true(resource_flags@) > 0;
        let mut heights: Vec<i64> = Vec::with_capacity(cells);
        let mut types: Vec<i64> = Vec::with_capacity(cells);
        while heights.len() < cells
            invariant
                heights@.len() <= cells,
                heights@.len() == types@.len(),
                forall|i: int| 0 <= i < heights@.len() ==> #[trigger] heights@[i] == 0,
                forall|i: int| 0 <= i < types@.len() ==> #[trigger] types@[i] == 0,
            decreases cells - heights@.len(),
        {
            heights.push(0);
            types.push(0);
        }
        self.size_x = size_x;
        self.size_y = size_y;
        let mut x: usize = 0;
        while x < size_x
            invariant
                x <= size_x,
                heights@.len() == cells,
                types@.len() == cells,
                grid_shape(elevation@, size_x as int, size_y as int),
                biome matches Some(b) ==> grid_shape(b@, size_x as int, size_y as int),
                map_fits(size_x as int, size_y as int, cells as int),
                lookup@.len() == count_true(resource_flags@),
                has_biomes == (count_true(resource_flags@) > 0),
                forall|i: int| 0 <= i < lookup@.len() ==> is_default_biome(#[trigger] lookup@[i]),
                forall|i: int|
                    0 <= i < cells ==> #[trigger] heights@[i] == laid_out_height(
                        elevation@,
                        i,
                        x as int,
                        size_y as int,
                    ),
                forall|i: int|
                    0 <= i < cells ==> #[trigger] types@[i] == laid_out_type(
                        *biome,
                        has_biomes,
                        i,
                        x as int,
                        size_y as int,
                    ),
            decreases size_x - x,
        {
            let mut z: usize = 0;
            while z < size_y
                invariant
                    x < size_x,
                    z <= size_y,
                    heights@.len() == cells,
                    types@.len() == cells,
                    grid_shape(elevation@, size_x as int, size_y as int),
                    biome matches Some(b) ==> grid_shape(b@, size_x as int, size_y as int),
                    map_fits(size_x as int, size_y as int, cells as int),
                    lookup@.len() == count_true(resource_flags@),
                    has_biomes == (count_true(resource_flags@) > 0),
                    forall|i: int| 0 <= i < lookup@.len() ==> is_default_biome(#[trigger] lookup@[i]),
                    forall|i: int|
                        0 <= i < cells ==> #[trigger] heights@[i] == (if column_writes(
                            i,
                            x as int,
                            z as int,
                            size_y as int,
                        ) {
                            elevation@[x as int]@[(i - x) / (size_y as int)]
                        } else {
                            laid_out_height(elevation@, i, x as int, size_y as int)
                        }),
                    forall|i: int|
                        0 <= i < cells ==> #[trigger] types@[i] == (if column_writes(
                            i,
                            x as int,
                            z as int,
                            size_y as int,
                        ) {
                            pixel_type(*biome, has_biomes, x as int, (i - x) / (size_y as int))
                        } else {
                            laid_out_type(*biome, has_biomes, i, x as int, size_y as int)
                        }),
                decreases size_y - z,
            {
                let voxel_type = match biome {
                    Some(b) => {
                        let t = find_voxel_type(&lookup, &b[x][z]);
                        proof {
                            lemma_default_lookup(lookup@, b@[x as int]@[z as int]);
                        }
                        t
                    },
                    None => 1,
                };
                let height = elevation[x][z];
                assert(z * size_y + x <= (size_y - 1) * size_y + (size_x - 1)) by (nonlinear_arith)
                    requires
                        z < size_y,
                        x < size_x,
                ;
                let index = z * size_y + x;
                proof {
                    assert forall|i: int| 0 <= i < cells implies column_writes(
                        i,
                        x as int,
                        z + 1,
                        size_y as int,
                    ) == (column_writes(i, x as int, z as int, size_y as int) || i == index) by {
                        lemma_write_step(i, x as int, z as int, size_y as int);
                    }
                    lemma_write_step(index as int, x as int, z as int, size_y as int);
                }
                heights.set(index, height);
                types.set(index, voxel_type);
                z = z + 1;
            }
            proof {
                assert forall|i: int| 0 <= i < cells implies last_writer(i, x + 1, size_y as int) == (
                if column_writes(i, x as int, size_y as int, size_y as int) {
                    Some(x as int)
                } else {
                    last_writer(i, x as int, size_y as int)
                }) by {}
            }
            x = x + 1;
        }
        self.map_height_data = heights;
        self.map_type_data = types;
        self.data_calculated = true;
    }

    /// The mask of the voxel channels that generation writes: only the type
    /// channel, numbered `type_channel`.
    pub fn get_used_channels_mask(&self, type_channel: u32) -> (mask: i64)
        requires
            type_channel < 63,
        ensures
            mask == 1i64 << type_channel,
    {
        1i64 << type_channel
    }

    /// The fill of each column of a block whose bottom lies at height
    /// `origin_y` and whose height is `size`: `columns[x][z]` is the map cell
    /// that column `(x, z)` stands over, or `None` for a column outside the
    /// map, which is left alone. A column over cell `i` is filled with voxels
    /// of the cell's type, as many as `fill_count_of` gives for its height.
    pub fn generate_block(&self, size: i64, origin_y: i64, columns: &Vec<Vec<Option<usize>>>) -> (fills:
        Vec<Vec<Option<ColumnFill>>>)
        requires
            self.wf(),
            forall|x: int, z: int|
                0 <= x < columns@.len() && 0 <= z < columns@[x]@.len() && #[trigger] columns@[x]@[z]
                    is Some ==> columns@[x]@[z]->0 < self.heights().len() && i64::MIN <= origin_y
                    + size <= i64::MAX,
        ensures
            fills@.len() == columns@.len(),
            forall|x: int| 0 <= x < columns@.len() ==> (#[trigger] fills@[x])@.len() == columns@[x]@.len(),
            forall|x: int, z: int|
                0 <= x < columns@.len() && 0 <= z < columns@[x]@.len() ==> (match #[trigger] columns@[x]@[z] {
                    None => fills@[x]@[z] is None,
                    Some(i) => fills@[x]@[z] == Some(
                        ColumnFill {
                            voxel_type: self.types()[i as int],
                            count: fill_count_of(
                                self.heights()[i as int] as int,
                                origin_y as int,
                                size as int,
                                self.max_height_of() as int,
                            ) as i64,
                        },
                    ),
                }),
    {
        let mut fills: Vec<Vec<Option<ColumnFill>>> = Vec::new();
        let mut x: usize = 0;
        while x < columns.len()
            invariant
                x <= columns@.len(),
                fills@.len() == x,
                self.wf(),
                forall|x: int, z: int|
                    0 <= x < columns@.len() && 0 <= z < columns@[x]@.len() && #[trigger] columns@[x]@[z]
                        is Some ==> columns@[x]@[z]->0 < self.heights().len() && i64::MIN <= origin_y
                        + size <= i64::MAX,
                forall|k: int| 0 <= k < x ==> (#[trigger] fills@[k])@.len() == columns@[k]@.len(),
                forall|k: int, z: int|
                    0 <= k < x && 0 <= z < columns@[k]@.len() ==> (match #[trigger] columns@[k]@[z] {
                        None => fills@[k]@[z] is None,
                        Some(i) => fills@[k]@[z] == Some(
                            ColumnFill {
                                voxel_type: self.types()[i as int],
                                count: fill_count_of(
                                    self.heights()[i as int] as int,
                                    origin_y as int,
                                    size as int,
                                    self.max_height_of() as int,
                                ) as i64,
                            },
                        ),
                    }),
            decreases columns@.len() - x,
        {
            let column = &columns[x];
            let mut row: Vec<Option<ColumnFill>> = Vec::new();
            let mut z: usize = 0;
            while z < column.len()
                invariant
                    x < columns@.len(),
                    column@ == columns@[x as int]@,
                    z <= column@.len(),
                    row@.len() == z,
                    self.wf(),
                    forall|x: int, z: int|
                        0 <= x < columns@.len() && 0 <= z < columns@[x]@.len()
                            && #[trigger] columns@[x]@[z] is Some ==> columns@[x]@[z]->0
                            < self.heights().len() && i64::MIN <= origin_y + size <= i64::MAX,
                    forall|j: int|
                        0 <= j < z ==> (match #[trigger] column@[j] {
                            None => row@[j] is None,
                            Some(i) => row@[j] == Some(
                                ColumnFill {
                                    voxel_type: self.types()[i as int],
                                    count: fill_count_of(
                                        self.heights()[i as int] as int,
                                        origin_y as int,
                                        size as int,
                                        self.max_height_of() as int,
                                    ) as i64,
                                },
                            ),
                        }),
                decreases column@.len() - z,
            {
                match column[z] {
                    None => row.push(None),
                    Some(index) => {
                        assert(columns@[x as int]@[z as int] is Some);
                        let height = self.map_height_data[index];
                        let voxel_type = self.map_type_data[index];
                        let count = fill_count(height, origin_y, size, self.max_height);
                        row.push(Some(ColumnFill { voxel_type, count }));
                    },
                }
                z = z + 1;
            }
            fills.push(row);
            x = x + 1;
        }
        fills
    }
}

/// The three ways a column meets a block of height `size` whose bottom is at
/// `origin_y`: a column reaching above the block's top fills the whole block;
/// a column whose top lies inside the block (above its bottom, at or below its
/// top), under a block that starts below `max_height`, fills
/// `origin_y + size - height` voxels, however high the block's top reaches;
/// any other column, not reaching above the top, fills none.
pub proof fn lemma_fill_count_cases(height: int, origin_y: int, size: int, max_height: int)
    ensures
        height > origin_y + size ==> fill_count_of(height, origin_y, size, max_height) == size,
        origin_y < max_height && origin_y < height <= origin_y + size ==> fill_count_of(
            height,
            origin_y,
            size,
            max_height,
        ) == origin_y + size - height,
        height <= origin_y + size && (max_height <= origin_y || height <= origin_y) ==> fill_count_of(
            height,
            origin_y,
            size,
            max_height,
        ) == 0,
{
}

/// How many voxels, from the bottom of a block at height `origin_y` that is
/// `size` high, a column of height `height` is filled with, under a maximum
/// height of `max_height`. Never more than the block is high.
pub fn fill_count(height: i64, origin_y: i64, size: i64, max_height: i64) -> (n: i64)
    requires
        i64::MIN <= origin_y + size <= i64::MAX,
    ensures
        n == fill_count_of(height as int, origin_y as int, size as int, max_height as int),
        size >= 0 ==> 0 <= n <= size,
{
    let top_y = origin_y + size;
    if top_y < height {
        size
    } else if origin_y < max_height && height > origin_y {
        top_y - height
    } else {
        0
    }
}

} // verus!
