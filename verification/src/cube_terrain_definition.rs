//! The footprint of a building as a box of cubes, and the check of the terrain
//! voxels under it against the voxel types the building may or may not stand on.
use vstd::prelude::*;

verus! {

/// The rules of a building footprint and the outcome of its last check.
pub struct CubeTerrainDefinition {
    /// The voxel types the footprint may stand on; empty for any.
    pub valid_voxels: Vec<i64>,
    /// The voxel types the footprint may not stand on; when not empty, these
    /// decide alone and `valid_voxels` is not looked at.
    pub invalid_voxels: Vec<i64>,
    /// The names of the cubes that the last check found on invalid voxels.
    pub invalid_blocks: Vec<String>,
    pub is_valid: bool,
}

/// What the check learns of one cube of the footprint: its name, the type of
/// the terrain voxel under it, and whether its mesh has a spatial material
/// that the check can colour.
pub struct BlockProbe {
    pub cube_id: String,
    pub voxel_id: i64,
    pub has_material: bool,
}

/// The outcome of a check: whether every cube stands on a valid voxel, and
/// for each probed cube, in order, whether it does.
pub struct TerrainCheck {
    pub is_valid: bool,
    pub block_valid: Vec<bool>,
}

/// Whether a cube may stand on a voxel of type `id`: when `invalid` is not
/// empty, exactly when `id` is not in it; else, when `valid` is not empty,
/// exactly when `id` is in it; else always.
pub open spec fn block_valid(valid: Seq<i64>, invalid: Seq<i64>, id: i64) -> bool {
    if invalid.len() > 0 {
        !invalid.contains(id)
    } else if valid.len() > 0 {
        valid.contains(id)
    } else {
        true
    }
}

/// The names, in order, of the probed cubes that stand on invalid voxels and
/// have a material.
pub open spec fn invalid_ids(valid: Seq<i64>, invalid: Seq<i64>, probes: Seq<BlockProbe>) -> Seq<
    Seq<char>,
>
    decreases probes.len(),
{
    if probes.len() == 0 {
        Seq::empty()
    } else {
        let p = probes.last();
        let rest = invalid_ids(valid, invalid, probes.drop_last());
        if !block_valid(valid, invalid, p.voxel_id) && p.has_material {
            rest.push(p.cube_id@)
        } else {
            rest
        }
    }
}

/// When the list of invalid types is not empty, a voxel is valid exactly
/// when no entry of that list, at any position, is its type; else, when the
/// list of valid types is not empty, exactly when some entry of it is; else
/// every voxel is valid.
pub proof fn lemma_block_validity(valid: Seq<i64>, invalid: Seq<i64>, id: i64)
    ensures
        invalid.len() > 0 ==> (block_valid(valid, invalid, id) <==> forall|k: int|
            0 <= k < invalid.len() ==> #[trigger] invalid[k] != id),
        invalid.len() == 0 && valid.len() > 0 ==> (block_valid(valid, invalid, id) <==> exists|k: int|
            0 <= k < valid.len() && #[trigger] valid[k] == id),
        invalid.len() == 0 && valid.len() == 0 ==> block_valid(valid, invalid, id),
{
    if invalid.len() > 0 {
        if block_valid(valid, invalid, id) {
            assert forall|k: int| 0 <= k < invalid.len() implies #[trigger] invalid[k] != id by {
                if invalid[k] == id {
                    assert(invalid.contains(id));
                }
            }
        }
    } else if valid.len() > 0 {
        if block_valid(valid, invalid, id) {
            let k = choose|k: int| 0 <= k < valid.len() && valid[k] == id;
            assert(valid[k] == id);
        }
    }
}

fn contains_voxel(list: &Vec<i64>, id: i64) -> (r: bool)
    ensures
        r == list@.contains(id),
{
    let mut k: usize = 0;
    while k < list.len()
        invariant
            k <= list@.len(),
            forall|j: int| 0 <= j < k ==> list@[j] != id,
        decreases list@.len() - k,
    {
        if list[k] == id {
            assert(list@[k as int] == id);
            return true;
        }
        k = k + 1;
    }
    false
}

impl CubeTerrainDefinition {
    /// A footprint with no voxel rules, no invalid blocks, not valid.
    pub fn new() -> (d: CubeTerrainDefinition)
        ensures
            d.valid_voxels@ == Seq::<i64>::empty(),
            d.invalid_voxels@ == Seq::<i64>::empty(),
            d.invalid_blocks@ == Seq::<String>::empty(),
            !d.is_valid,
    {
        CubeTerrainDefinition {
            valid_voxels: Vec::new(),
            invalid_voxels: Vec::new(),
            invalid_blocks: Vec::new(),
            is_valid: false,
        }
    }

    /// Whether a cube may stand on a voxel of type `voxel_id`.
    pub fn block_is_valid(&self, voxel_id: i64) -> (r: bool)
        ensures
            r == block_valid(self.valid_voxels@, self.invalid_voxels@, voxel_id),
    {
        let mut valid = true;
        if self.valid_voxels.len() > 0 {
            valid = contains_voxel(&self.valid_voxels, voxel_id);
        }
        if self.invalid_voxels.len() > 0 {
            valid = !contains_voxel(&self.invalid_voxels, voxel_id);
        }
        valid
    }

    /// Checks the cubes of the footprint, given in the order they are
    /// visited (those that exist): each is valid or not by the voxel under it,
    /// the footprint is valid when all are, and `invalid_blocks` becomes the
    /// names of the invalid ones that have a material.
    pub fn check_terrain_and_update_blocks(&mut self, probes: &Vec<BlockProbe>) -> (r: TerrainCheck)
        ensures
            final(self).valid_voxels@ == old(self).valid_voxels@,
            final(self).invalid_voxels@ == old(self).invalid_voxels@,
            final(self).is_valid == old(self).is_valid,
            final(self).invalid_blocks@.map_values(|s: String| s@) == invalid_ids(
                old(self).valid_voxels@,
                old(self).invalid_voxels@,
                probes@,
            ),
            r.block_valid@.len() == probes@.len(),
            forall|k: int|
                0 <= k < probes@.len() ==> #[trigger] r.block_valid@[k] == block_valid(
                    old(self).valid_voxels@,
                    old(self).invalid_voxels@,
                    probes@[k].voxel_id,
                ),
            r.is_valid == (forall|k: int|
                0 <= k < probes@.len() ==> block_valid(
                    old(self).valid_voxels@,
                    old(self).invalid_voxels@,
                    #[trigger] probes@[k].voxel_id,
                )),
    {
        self.invalid_blocks.clear();
        let mut is_valid = true;
        let mut verdicts: Vec<bool> = Vec::new();
        let mut k: usize = 0;
        while k < probes.len()
            invariant
                k <= probes@.len(),
                self.valid_voxels@ == old(self).valid_voxels@,
                self.invalid_voxels@ == old(self).invalid_voxels@,
                self.is_valid == old(self).is_valid,
                verdicts@.len() == k,
                forall|j: int|
                    0 <= j < k ==> #[trigger] verdicts@[j] == block_valid(
                        self.valid_voxels@,
                        self.invalid_voxels@,
                        probes@[j].voxel_id,
                    ),
                is_valid == (forall|j: int|
                    0 <= j < k ==> block_valid(
                        self.valid_voxels@,
                        self.invalid_voxels@,
                        #[trigger] probes@[j].voxel_id,
                    )),
                self.invalid_blocks@.map_values(|s: String| s@) == invalid_ids(
                    self.valid_voxels@,
                    self.invalid_voxels@,
                    probes@.take(k as int),
                ),
            decreases probes@.len() - k,
        {
            let probe = &probes[k];
            let valid = self.block_is_valid(probe.voxel_id);
            assert(probes@.take(k + 1).drop_last() =~= probes@.take(k as int));
            assert(probes@.take(k + 1).last() == probes@[k as int]);
            let ghost before = self.invalid_blocks@;
            if !valid && probe.has_material {
                self.invalid_blocks.push(probe.cube_id.clone());
                assert(self.invalid_blocks@.map_values(|s: String| s@) =~= before.map_values(
                    |s: String| s@,
                ).push(probe.cube_id@));
            }
            verdicts.push(valid);
            is_valid = is_valid && valid;
            k = k + 1;
        }
        assert(probes@.take(k as int) =~= probes@);
        TerrainCheck { is_valid, block_valid: verdicts }
    }
}

} // verus!
