use voxel_terrain::cube_terrain_definition::{BlockProbe, CubeTerrainDefinition};

fn probe(id: &str, voxel_id: i64, has_material: bool) -> BlockProbe {
    BlockProbe { cube_id: id.to_string(), voxel_id, has_material }
}

#[test]
fn new_footprint_is_empty() {
    let d = CubeTerrainDefinition::new();
    assert!(d.valid_voxels.is_empty());
    assert!(d.invalid_voxels.is_empty());
    assert!(d.invalid_blocks.is_empty());
    assert!(!d.is_valid);
}

#[test]
fn without_rules_every_block_is_valid() {
    let mut d = CubeTerrainDefinition::new();
    assert!(d.block_is_valid(0));
    assert!(d.block_is_valid(-7));
    let check = d.check_terrain_and_update_blocks(&vec![probe("0,0,0", 3, true), probe("1,0,0", 0, false)]);
    assert!(check.is_valid);
    assert_eq!(check.block_valid, vec![true, true]);
    assert!(d.invalid_blocks.is_empty());
}

#[test]
fn valid_list_admits_only_its_types() {
    let mut d = CubeTerrainDefinition::new();
    d.valid_voxels = vec![1, 2];
    assert!(d.block_is_valid(2));
    assert!(!d.block_is_valid(3));
    let probes = vec![probe("a", 1, true), probe("b", 3, true), probe("c", 4, false), probe("d", 2, true)];
    let check = d.check_terrain_and_update_blocks(&probes);
    assert!(!check.is_valid);
    assert_eq!(check.block_valid, vec![true, false, false, true]);
    // only invalid cubes that have a material are listed
    assert_eq!(d.invalid_blocks, vec!["b".to_string()]);
    assert!(!d.is_valid);
}

#[test]
fn invalid_list_overrides_valid_list() {
    let mut d = CubeTerrainDefinition::new();
    d.valid_voxels = vec![1];
    d.invalid_voxels = vec![5];
    assert!(d.block_is_valid(2));
    assert!(!d.block_is_valid(5));
    let check = d.check_terrain_and_update_blocks(&vec![probe("x", 2, true), probe("y", 5, true)]);
    assert!(!check.is_valid);
    assert_eq!(d.invalid_blocks, vec!["y".to_string()]);
}

#[test]
fn a_new_check_replaces_the_invalid_blocks() {
    let mut d = CubeTerrainDefinition::new();
    d.invalid_voxels = vec![9];
    d.check_terrain_and_update_blocks(&vec![probe("p", 9, true)]);
    assert_eq!(d.invalid_blocks, vec!["p".to_string()]);
    let check = d.check_terrain_and_update_blocks(&vec![probe("q", 1, true)]);
    assert!(check.is_valid);
    assert!(d.invalid_blocks.is_empty());
    let empty = d.check_terrain_and_update_blocks(&vec![]);
    assert!(empty.is_valid);
    assert!(empty.block_valid.is_empty());
}
