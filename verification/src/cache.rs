//! The in-memory index over the decoded object set: point lookup by
//! object path and full iteration, over one consistent snapshot of the
//! raw graph. The snapshot is replaced wholesale on each refresh by the
//! caller that owns the connection.

use vstd::prelude::*;

use crate::block::{spec_parse_block, Block, BlockModel};
use crate::drive::{spec_parse_drive, Drive, DriveModel};
use crate::graph::ManagedObject;
use crate::utils::str_eq;

verus! {

/// One snapshot of the raw object graph, as fetched from the bus.
pub struct DiskCache {
    pub objects: Vec<ManagedObject>,
}

/// The drives decoded from the first `n` managed objects, in graph
/// order; objects that expose no drive interface contribute nothing.
pub open spec fn spec_drives_of(objects: Seq<ManagedObject>, n: int) -> Seq<DriveModel>
    decreases n,
{
    if n <= 0 {
        Seq::empty()
    } else {
        let prev = spec_drives_of(objects, n - 1);
        match spec_parse_drive(objects[n - 1].path@, objects[n - 1].interfaces@) {
            Some(d) => prev.push(d),
            None => prev,
        }
    }
}

/// The blocks decoded from the first `n` managed objects, in graph
/// order; loop devices and objects that expose no block interface
/// contribute nothing.
pub open spec fn spec_blocks_of(objects: Seq<ManagedObject>, n: int) -> Seq<BlockModel>
    decreases n,
{
    if n <= 0 {
        Seq::empty()
    } else {
        let prev = spec_blocks_of(objects, n - 1);
        match spec_parse_block(objects[n - 1].path@, objects[n - 1].interfaces@) {
            Some(b) => prev.push(b),
            None => prev,
        }
    }
}

/// The drive decoded from the first object with the given path that
/// decodes to a drive at all.
pub open spec fn spec_lookup_drive(objects: Seq<ManagedObject>, path: Seq<char>) -> Option<
    DriveModel,
>
    decreases objects.len(),
{
    if objects.len() == 0 {
        None
    } else {
        if objects[0].path@ == path && spec_parse_drive(
            objects[0].path@,
            objects[0].interfaces@,
        ) is Some {
            spec_parse_drive(objects[0].path@, objects[0].interfaces@)
        } else {
            spec_lookup_drive(objects.drop_first(), path)
        }
    }
}

/// The block decoded from the first object with the given path that
/// decodes to a block at all.
pub open spec fn spec_lookup_block(objects: Seq<ManagedObject>, path: Seq<char>) -> Option<
    BlockModel,
>
    decreases objects.len(),
{
    if objects.len() == 0 {
        None
    } else {
        if objects[0].path@ == path && spec_parse_block(
            objects[0].path@,
            objects[0].interfaces@,
        ) is Some {
            spec_parse_block(objects[0].path@, objects[0].interfaces@)
        } else {
            spec_lookup_block(objects.drop_first(), path)
        }
    }
}

impl DiskCache {
    /// The cache over an empty graph.
    pub fn new() -> (r: DiskCache)
        ensures
            r.objects@.len() == 0,
    {
        DiskCache { objects: Vec::new() }
    }

    /// Every drive decoded from the cached graph, in graph order.
    pub fn get_drives(&self) -> (r: Vec<Drive>)
        ensures
            r.deep_view() == spec_drives_of(self.objects@, self.objects@.len() as int),
    {
        let mut drives: Vec<Drive> = Vec::new();
        let mut i: usize = 0;
        proof {
            assert(drives.deep_view() =~= spec_drives_of(self.objects@, 0));
        }
        while i < self.objects.len()
            invariant
                i <= self.objects@.len(),
                drives.deep_view() == spec_drives_of(self.objects@, i as int),
            decreases self.objects@.len() - i,
        {
            let ghost before = drives.deep_view();
            let object = &self.objects[i];
            match Drive::parse_from(object.path.as_str(), &object.interfaces) {
                Some(drive) => {
                    let ghost dm = drive@;
                    drives.push(drive);
                    assert(drives.deep_view() =~= before.push(dm));
                },
                None => {},
            }
            i = i + 1;
        }
        drives
    }

    /// Every block decoded from the cached graph, in graph order.
    pub fn get_blocks(&self) -> (r: Vec<Block>)
        ensures
            r.deep_view() == spec_blocks_of(self.objects@, self.objects@.len() as int),
    {
        let mut blocks: Vec<Block> = Vec::new();
        let mut i: usize = 0;
        proof {
            assert(blocks.deep_view() =~= spec_blocks_of(self.objects@, 0));
        }
        while i < self.objects.len()
            invariant
                i <= self.objects@.len(),
                blocks.deep_view() == spec_blocks_of(self.objects@, i as int),
            decreases self.objects@.len() - i,
        {
            let ghost before = blocks.deep_view();
            let object = &self.objects[i];
            match Block::parse_from(object.path.as_str(), &object.interfaces) {
                Some(block) => {
                    let ghost bm = block@;
                    blocks.push(block);
                    assert(blocks.deep_view() =~= before.push(bm));
                },
                None => {},
            }
            i = i + 1;
        }
        blocks
    }

    /// Find the drive decoded from the object with the given path.
    pub fn get_drive(&self, path: &str) -> (r: Option<Drive>)
        ensures
            r matches Some(d) ==> spec_lookup_drive(self.objects@, path@) == Some(d@),
            r is None ==> spec_lookup_drive(self.objects@, path@) is None,
    {
        let mut i: usize = 0;
        proof {
            assert(self.objects@.skip(0) =~= self.objects@);
        }
        while i < self.objects.len()
            invariant
                i <= self.objects@.len(),
                spec_lookup_drive(self.objects@, path@) == spec_lookup_drive(
                    self.objects@.skip(i as int),
                    path@,
                ),
            decreases self.objects@.len() - i,
        {
            let object = &self.objects[i];
            if str_eq(object.path.as_str(), path) {
                match Drive::parse_from(object.path.as_str(), &object.interfaces) {
                    Some(drive) => {
                        return Some(drive);
                    },
                    None => {},
                }
            }
            i = i + 1;
            assert(self.objects@.skip(i - 1).drop_first() =~= self.objects@.skip(i as int));
        }
        None
    }

    /// Find the block decoded from the object with the given path.
    pub fn get_block(&self, path: &str) -> (r: Option<Block>)
        ensures
            r matches Some(b) ==> spec_lookup_block(self.objects@, path@) == Some(b@),
            r is None ==> spec_lookup_block(self.objects@, path@) is None,
    {
        let mut i: usize = 0;
        proof {
            assert(self.objects@.skip(0) =~= self.objects@);
        }
        while i < self.objects.len()
            invariant
                i <= self.objects@.len(),
                spec_lookup_block(self.objects@, path@) == spec_lookup_block(
                    self.objects@.skip(i as int),
                    path@,
                ),
            decreases self.objects@.len() - i,
        {
            let object = &self.objects[i];
            if str_eq(object.path.as_str(), path) {
                match Block::parse_from(object.path.as_str(), &object.interfaces) {
                    Some(block) => {
                        return Some(block);
                    },
                    None => {},
                }
            }
            i = i + 1;
            assert(self.objects@.skip(i - 1).drop_first() =~= self.objects@.skip(i as int));
        }
        None
    }
}

} // verus!
