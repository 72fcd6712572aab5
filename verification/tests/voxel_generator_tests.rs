use voxel_terrain::biome_data::{find_voxel_type, BiomeData, ColorValue};
use voxel_terrain::voxel_generator_df::{fill_count, ColumnFill, VoxelGeneratorDF};

fn names(g: &VoxelGeneratorDF<&'static str>) -> Vec<Option<&'static str>> {
    g.biome_slots().clone()
}

#[test]
fn new_generator_defaults() {
    let g: VoxelGeneratorDF<u32> = VoxelGeneratorDF::new();
    assert_eq!(g.max_height(), 100);
    assert_eq!(g.biome_count(), 0);
    assert!(!g.is_data_calculated());
    assert_eq!(g.map_size(), (0, 0));
    assert!(g.map_height_data().is_empty());
    assert!(g.map_type_data().is_empty());
}

#[test]
fn max_height_property() {
    let mut g: VoxelGeneratorDF<u32> = VoxelGeneratorDF::new();
    g.set_max_height(64);
    assert_eq!(g.max_height(), 64);
}

#[test]
fn biome_count_grows_and_shrinks() {
    let mut g: VoxelGeneratorDF<&'static str> = VoxelGeneratorDF::new();
    g.set_biome_count(3, || "fresh");
    assert_eq!(g.biome_count(), 3);
    assert_eq!(names(&g), vec![Some("fresh"); 3]);
    g._set("biome_data/0", Some("first"));
    // entry 0 is now "first", the old entry 0 moved to 1
    g.set_biome_count(2, || "again");
    assert_eq!(names(&g), vec![Some("first"), Some("fresh")]);
    g.set_biome_count(4, || "again");
    assert_eq!(
        names(&g),
        vec![Some("first"), Some("fresh"), Some("again"), Some("again")]
    );
    g.set_biome_count(4, || "unused");
    assert_eq!(g.biome_count(), 4);
    g.set_biome_count(0, || "unused");
    assert_eq!(g.biome_count(), 0);
}

#[test]
fn negative_biome_count_empties_the_dictionary() {
    let mut g: VoxelGeneratorDF<u8> = VoxelGeneratorDF::new();
    g.set_biome_count(5, || 1);
    g.set_biome_count(-3, || 2);
    assert_eq!(g.biome_count(), 0);
    g.set_biome_count(-1, || 2);
    assert_eq!(g.biome_count(), 0);
}

#[test]
fn set_pads_then_inserts() {
    let mut g: VoxelGeneratorDF<&'static str> = VoxelGeneratorDF::new();
    assert!(g._set("biome_data/2", Some("v")));
    assert_eq!(names(&g), vec![None, None, Some("v"), None]);
    assert_eq!(g._get("biome_data/2"), Some(&"v"));
    assert_eq!(g._get("biome_data/3"), None);
    assert_eq!(g._get("biome_data/0"), None);
    assert_eq!(g._get("biome_data/4"), None);
}

#[test]
fn set_inside_shifts_later_entries() {
    let mut g: VoxelGeneratorDF<&'static str> = VoxelGeneratorDF::new();
    g.set_biome_count(3, || "old");
    g._set("biome_data/0", Some("a"));
    g._set("biome_data/1", Some("b"));
    assert_eq!(
        names(&g),
        vec![Some("a"), Some("b"), Some("old"), Some("old"), Some("old")]
    );
    assert!(g._set("biome_data/1", Some("x")));
    assert_eq!(
        names(&g),
        vec![Some("a"), Some("x"), Some("b"), Some("old"), Some("old"), Some("old")]
    );
    assert_eq!(g._get("biome_data/1"), Some(&"x"));
    assert_eq!(g._get("biome_data/2"), Some(&"b"));
}

#[test]
fn set_at_the_end_appends() {
    let mut g: VoxelGeneratorDF<&'static str> = VoxelGeneratorDF::new();
    g.set_biome_count(2, || "old");
    assert!(g._set("biome_data/2", Some("end")));
    assert_eq!(names(&g), vec![Some("old"), Some("old"), Some("end"), None]);
}

#[test]
fn set_with_negative_index_changes_nothing() {
    let mut g: VoxelGeneratorDF<&'static str> = VoxelGeneratorDF::new();
    g.set_biome_count(1, || "old");
    assert!(g._set("biome_data/-1", Some("x")));
    assert_eq!(names(&g), vec![Some("old")]);
}

#[test]
fn set_and_get_of_other_properties() {
    let mut g: VoxelGeneratorDF<&'static str> = VoxelGeneratorDF::new();
    g.set_biome_count(1, || "old");
    assert!(!g._set("max_height", Some("x")));
    assert_eq!(names(&g), vec![Some("old")]);
    assert_eq!(g._get("max_height"), None);
    assert_eq!(g._get("biome_data/0"), Some(&"old"));
}

#[test]
fn nil_entries_read_as_nothing() {
    let mut g: VoxelGeneratorDF<&'static str> = VoxelGeneratorDF::new();
    g._set("biome_data/0", None);
    assert_eq!(names(&g), vec![None, None]);
    assert_eq!(g._get("biome_data/0"), None);
}

#[test]
fn read_after_write() {
    let mut g: VoxelGeneratorDF<u32> = VoxelGeneratorDF::new();
    g.set_biome_count(4, || 0);
    for (name, value) in [("biome_data/0", 10u32), ("biome_data/3", 13), ("biome_data/9", 19)] {
        g._set(name, Some(value));
        assert_eq!(g._get(name), Some(&value));
    }
}

#[test]
fn property_list_names_every_entry() {
    let mut g: VoxelGeneratorDF<u32> = VoxelGeneratorDF::new();
    assert!(g._get_property_list().is_empty());
    g.set_biome_count(3, || 5);
    let list = g._get_property_list();
    assert_eq!(list, vec!["biome_data/0", "biome_data/1", "biome_data/2"]);
    for name in &list {
        assert_eq!(g._get(name), Some(&5));
    }
}

#[test]
fn square_map_layout() {
    let mut g: VoxelGeneratorDF<u32> = VoxelGeneratorDF::new();
    let elevation = vec![vec![1, 2], vec![3, 4]];
    g.update_map_data(2, 2, 4, &elevation, &None, &vec![]);
    assert!(g.is_data_calculated());
    assert_eq!(g.map_size(), (2, 2));
    // pixel (x, z) goes to cell z * 2 + x
    assert_eq!(g.map_height_data(), &vec![1, 3, 2, 4]);
    assert_eq!(g.map_type_data(), &vec![1, 1, 1, 1]);
}

#[test]
fn wide_map_later_columns_overwrite() {
    let mut g: VoxelGeneratorDF<u32> = VoxelGeneratorDF::new();
    // 3 columns of 2 rows: cell = z * 2 + x
    let elevation = vec![vec![10, 11], vec![20, 21], vec![30, 31]];
    g.update_map_data(3, 2, 6, &elevation, &None, &vec![]);
    assert_eq!(g.map_height_data(), &vec![10, 20, 30, 21, 31, 0]);
    assert_eq!(g.map_type_data(), &vec![1, 1, 1, 1, 1, 0]);
}

#[test]
fn single_row_map() {
    let mut g: VoxelGeneratorDF<u32> = VoxelGeneratorDF::new();
    let elevation = vec![vec![5], vec![6], vec![7]];
    g.update_map_data(3, 1, 3, &elevation, &None, &vec![]);
    assert_eq!(g.map_height_data(), &vec![5, 6, 7]);
}

#[test]
fn empty_map() {
    let mut g: VoxelGeneratorDF<u32> = VoxelGeneratorDF::new();
    g.update_map_data(0, 0, 0, &vec![], &None, &vec![]);
    assert!(g.is_data_calculated());
    assert!(g.map_height_data().is_empty());
}

#[test]
fn biome_types_come_from_the_fresh_lookup() {
    let mut g: VoxelGeneratorDF<u32> = VoxelGeneratorDF::new();
    g.set_biome_count(2, || 0);
    let elevation = vec![vec![1, 2], vec![3, 4]];
    let black = ColorValue::Value(0);
    let grey = ColorValue::Value(0x3f00_0000);
    let biome = Some(vec![vec![black, grey], vec![ColorValue::NotANumber, black]]);
    // only entry 1 holds a resource: the lookup has one fresh biome (black, type 0)
    g.update_map_data(2, 2, 4, &elevation, &biome, &vec![false, true]);
    assert_eq!(g.map_type_data(), &vec![0, 1, 1, 0]);
    // without any resource the lookup is empty and every pixel gets type 1
    g.update_map_data(2, 2, 4, &elevation, &biome, &vec![false, false]);
    assert_eq!(g.map_type_data(), &vec![1, 1, 1, 1]);
}

#[test]
fn fill_count_cases() {
    // the block lies wholly below the column's top
    assert_eq!(fill_count(50, 0, 16, 100), 16);
    // the column's top is inside the block
    assert_eq!(fill_count(10, 0, 16, 100), 6);
    assert_eq!(fill_count(1, 0, 16, 100), 15);
    // the column's top is at or below the block's bottom
    assert_eq!(fill_count(0, 0, 16, 100), 0);
    assert_eq!(fill_count(-5, 0, 16, 100), 0);
    // the block starts at or above the maximum height: only a column that
    // reaches over its top is filled
    assert_eq!(fill_count(150, 100, 16, 100), 16);
    assert_eq!(fill_count(110, 100, 16, 100), 0);
    // top exactly at the height
    assert_eq!(fill_count(16, 0, 16, 100), 0);
    assert_eq!(fill_count(17, 0, 16, 100), 16);
}

#[test]
fn generate_block_fills_columns() {
    let mut g: VoxelGeneratorDF<u32> = VoxelGeneratorDF::new();
    let elevation = vec![vec![40, 5], vec![20, 0]];
    g.update_map_data(2, 2, 4, &elevation, &None, &vec![]);
    // heights by cell: [40, 20, 5, 0]
    let columns = vec![vec![Some(0), None], vec![Some(1), Some(2)]];
    let fills = g.generate_block(16, 16, &columns);
    assert_eq!(
        fills,
        vec![
            vec![Some(ColumnFill { voxel_type: 1, count: 16 }), None],
            vec![Some(ColumnFill { voxel_type: 1, count: 12 }), Some(ColumnFill { voxel_type: 1, count: 0 })],
        ]
    );
    let empty: Vec<Vec<Option<usize>>> = vec![];
    assert!(g.generate_block(16, 0, &empty).is_empty());
}

#[test]
fn used_channels_mask() {
    let g: VoxelGeneratorDF<u32> = VoxelGeneratorDF::new();
    assert_eq!(g.get_used_channels_mask(0), 1);
    assert_eq!(g.get_used_channels_mask(3), 8);
}

#[test]
fn biome_defaults_and_lookup() {
    let b = BiomeData::new();
    assert_eq!(b.name, "");
    assert_eq!(b.color_value, ColorValue::Value(0));
    assert_eq!(b.voxel_type, 0);
    let lookup = BiomeData::lookup_for(&vec![true, false, true]);
    assert_eq!(lookup.len(), 2);
    assert!(BiomeData::lookup_for(&vec![false]).is_empty());
}

#[test]
fn first_matching_biome_wins() {
    let lookup = vec![
        BiomeData { name: "sand".to_string(), color_value: ColorValue::Value(7), voxel_type: 3 },
        BiomeData { name: "rock".to_string(), color_value: ColorValue::Value(9), voxel_type: 4 },
        BiomeData { name: "more sand".to_string(), color_value: ColorValue::Value(7), voxel_type: 5 },
        BiomeData { name: "odd".to_string(), color_value: ColorValue::NotANumber, voxel_type: 6 },
    ];
    assert_eq!(find_voxel_type(&lookup, &ColorValue::Value(7)), 3);
    assert_eq!(find_voxel_type(&lookup, &ColorValue::Value(9)), 4);
    assert_eq!(find_voxel_type(&lookup, &ColorValue::Value(8)), 1);
    assert_eq!(find_voxel_type(&lookup, &ColorValue::NotANumber), 1);
    assert_eq!(find_voxel_type(&vec![], &ColorValue::Value(0)), 1);
    assert!(ColorValue::Value(2).matches(&ColorValue::Value(2)));
    assert!(!ColorValue::NotANumber.matches(&ColorValue::NotANumber));
}
