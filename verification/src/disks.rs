//! The assembled Disks view: drives grouped with their blocks.

use vstd::prelude::*;

use crate::block::{Block, BlockModel};
use crate::cache::{spec_blocks_of, spec_drives_of, DiskCache};
use crate::drive::{Drive, DriveModel};

verus! {

/// One drive beside its table-bearing parent block and its child
/// partitions, sorted ascending by partition offset. Offsets are not
/// required to be contiguous or non-overlapping; they are not validated.
#[derive(Debug, PartialEq, Eq)]
pub struct DiskDevice {
    pub drive: Drive,
    pub parent: Block,
    pub partitions: Vec<Block>,
}

/// The model of one assembled device.
#[verifier::ext_equal]
pub struct DiskDeviceModel {
    pub drive: DriveModel,
    pub parent: BlockModel,
    pub partitions: Seq<BlockModel>,
}

impl View for DiskDevice {
    type V = DiskDeviceModel;

    open spec fn view(&self) -> DiskDeviceModel {
        DiskDeviceModel {
            drive: self.drive@,
            parent: self.parent@,
            partitions: self.partitions.deep_view(),
        }
    }
}

impl DeepView for DiskDevice {
    type V = DiskDeviceModel;

    open spec fn deep_view(&self) -> DiskDeviceModel {
        self.view()
    }
}

/// The whole disk inventory: every assembled device.
#[derive(Debug, PartialEq, Eq)]
pub struct Disks {
    pub devices: Vec<DiskDevice>,
}

impl View for Disks {
    type V = Seq<DiskDeviceModel>;

    open spec fn view(&self) -> Seq<DiskDeviceModel> {
        self.devices.deep_view()
    }
}

/// The sort key of a child block: its partition facet's byte offset.
/// Total for the sake of the definition; the assembler only sorts blocks
/// whose partition facet is present.
pub open spec fn spec_offset(b: BlockModel) -> u64 {
    match b.partition {
        Some(p) => p.offset,
        None => 0u64,
    }
}

/// A block inserted into a sequence sorted by offset: it lands after
/// every block whose offset is at or below its own.
pub open spec fn spec_insert_by_offset(x: BlockModel, s: Seq<BlockModel>) -> Seq<BlockModel>
    decreases s.len(),
{
    if s.len() == 0 {
        seq![x]
    } else if spec_offset(s[0]) <= spec_offset(x) {
        seq![s[0]] + spec_insert_by_offset(x, s.drop_first())
    } else {
        seq![x] + s
    }
}

/// A sequence of blocks sorted ascending by offset, by insertion.
pub open spec fn spec_sort_by_offset(s: Seq<BlockModel>) -> Seq<BlockModel>
    decreases s.len(),
{
    if s.len() == 0 {
        s
    } else {
        spec_insert_by_offset(s.last(), spec_sort_by_offset(s.drop_last()))
    }
}

/// Whether a sequence of blocks is sorted ascending by offset.
pub open spec fn spec_sorted_by_offset(s: Seq<BlockModel>) -> bool {
    forall|i: int, j: int|
        0 <= i < j < s.len() ==> spec_offset(#[trigger] s[i]) <= spec_offset(#[trigger] s[j])
}

/// The parent block of a drive among the first `n` blocks: the last
/// block owned by the drive that carries a partition-table facet.
pub open spec fn spec_parent_block(
    blocks: Seq<BlockModel>,
    drive_path: Seq<char>,
    n: int,
) -> Option<BlockModel>
    decreases n,
{
    if n <= 0 {
        None
    } else {
        let b = blocks[n - 1];
        if b.drive == drive_path && b.table is Some {
            Some(b)
        } else {
            spec_parent_block(blocks, drive_path, n - 1)
        }
    }
}

/// The child blocks of a drive among the first `n` blocks: those owned
/// by the drive that carry no partition-table facet, in input order.
pub open spec fn spec_child_blocks(
    blocks: Seq<BlockModel>,
    drive_path: Seq<char>,
    n: int,
) -> Seq<BlockModel>
    decreases n,
{
    if n <= 0 {
        Seq::empty()
    } else {
        let prev = spec_child_blocks(blocks, drive_path, n - 1);
        let b = blocks[n - 1];
        if b.drive == drive_path && b.table is None {
            prev.push(b)
        } else {
            prev
        }
    }
}

/// The device assembled for one drive, if any: absent when no block of
/// the drive carries a partition-table facet, and when some child block
/// lacks its partition facet, a structural violation of the decode that
/// skips this one device rather than failing the rest of the view.
pub open spec fn spec_device_for(drive: DriveModel, blocks: Seq<BlockModel>) -> Option<
    DiskDeviceModel,
> {
    match spec_parent_block(blocks, drive.path, blocks.len() as int) {
        None => None,
        Some(parent) => {
            let children = spec_child_blocks(blocks, drive.path, blocks.len() as int);
            if exists|i: int| 0 <= i < children.len() && (#[trigger] children[i]).partition is None {
                None
            } else {
                Some(
                    DiskDeviceModel {
                        drive,
                        parent,
                        partitions: spec_sort_by_offset(children),
                    },
                )
            }
        },
    }
}

/// The devices assembled for the first `n` drives, in drive order.
pub open spec fn spec_assemble(
    drives: Seq<DriveModel>,
    blocks: Seq<BlockModel>,
    n: int,
) -> Seq<DiskDeviceModel>
    decreases n,
{
    if n <= 0 {
        Seq::empty()
    } else {
        let prev = spec_assemble(drives, blocks, n - 1);
        match spec_device_for(drives[n - 1], blocks) {
            Some(d) => prev.push(d),
            None => prev,
        }
    }
}

/// Insertion keeps an offset-sorted sequence sorted and adds exactly the
/// new block.
proof fn lemma_insert_by_offset_sorted(x: BlockModel, s: Seq<BlockModel>)
    requires
        spec_sorted_by_offset(s),
    ensures
        spec_sorted_by_offset(spec_insert_by_offset(x, s)),
        spec_insert_by_offset(x, s).to_multiset() == s.to_multiset().insert(x),
        spec_insert_by_offset(x, s).len() == s.len() + 1,
    decreases s.len(),
{
    broadcast use vstd::seq_lib::group_to_multiset_ensures;

    if s.len() == 0 {
        assert(spec_insert_by_offset(x, s) =~= seq![x]);
        assert(seq![x] =~= Seq::<BlockModel>::empty().push(x));
        assert(s =~= Seq::<BlockModel>::empty());
        assert(seq![x].to_multiset() =~= s.to_multiset().insert(x));
    } else if spec_offset(s[0]) <= spec_offset(x) {
        let rest = spec_insert_by_offset(x, s.drop_first());
        assert(spec_sorted_by_offset(s.drop_first())) by {
            assert(forall|i: int, j: int|
                0 <= i < j < s.drop_first().len() ==> spec_offset(
                    #[trigger] s.drop_first()[i],
                ) <= spec_offset(#[trigger] s.drop_first()[j]));
        }
        lemma_insert_by_offset_sorted(x, s.drop_first());
        let out = seq![s[0]] + rest;
        assert forall|i: int, j: int| 0 <= i < j < out.len() implies spec_offset(
            #[trigger] out[i],
        ) <= spec_offset(#[trigger] out[j]) by {
            if i == 0 {
                assert(rest.to_multiset().contains(out[j]));
                assert(rest.contains(out[j]));
                if out[j] != x {
                    assert(s.drop_first().to_multiset().contains(out[j])) by {
                        assert(rest.to_multiset() == s.drop_first().to_multiset().insert(x));
                    }
                    assert(s.drop_first().contains(out[j]));
                    let m = choose|m: int|
                        0 <= m < s.drop_first().len() && s.drop_first()[m] == out[j];
                    assert(spec_offset(s[0]) <= spec_offset(s[m + 1]));
                }
            } else {
                assert(spec_offset(rest[i - 1]) <= spec_offset(rest[j - 1]));
            }
        }
        assert(out.drop_first() =~= rest);
        assert(out[0] == s[0]);
        assert(out.to_multiset() == s.to_multiset().insert(x)) by {
            crate::order::lemma_multiset_drop_first(out);
            crate::order::lemma_multiset_drop_first(s);
            assert(s.drop_first().to_multiset().insert(x).insert(s[0]) =~= s.drop_first()
                .to_multiset().insert(s[0]).insert(x));
        }
    } else {
        let out = seq![x] + s;
        assert forall|i: int, j: int| 0 <= i < j < out.len() implies spec_offset(
            #[trigger] out[i],
        ) <= spec_offset(#[trigger] out[j]) by {
            if i == 0 {
                assert(spec_offset(x) <= spec_offset(s[0]));
                if j > 1 {
                    assert(spec_offset(s[0]) <= spec_offset(s[j - 1]));
                }
            } else {
                assert(spec_offset(s[i - 1]) <= spec_offset(s[j - 1]));
            }
        }
        assert(out.drop_first() =~= s);
        assert(out[0] == x);
        assert(out.to_multiset() == s.to_multiset().insert(x)) by {
            crate::order::lemma_multiset_drop_first(out);
        }
    }
}

/// The offset sort yields an ascending permutation of its input.
pub proof fn lemma_sort_by_offset_sorted(s: Seq<BlockModel>)
    ensures
        spec_sorted_by_offset(spec_sort_by_offset(s)),
        spec_sort_by_offset(s).to_multiset() == s.to_multiset(),
        spec_sort_by_offset(s).len() == s.len(),
    decreases s.len(),
{
    if s.len() > 0 {
        lemma_sort_by_offset_sorted(s.drop_last());
        lemma_insert_by_offset_sorted(s.last(), spec_sort_by_offset(s.drop_last()));
        crate::order::lemma_multiset_drop_last(s);
    }
}

/// Inserting before the first block with a strictly greater offset is
/// what [`spec_insert_by_offset`] does.
proof fn lemma_insert_offset_at_index(x: BlockModel, s: Seq<BlockModel>, j: int)
    requires
        0 <= j <= s.len(),
        forall|k: int| 0 <= k < j ==> spec_offset(#[trigger] s[k]) <= spec_offset(x),
        j < s.len() ==> !(spec_offset(s[j]) <= spec_offset(x)),
    ensures
        spec_insert_by_offset(x, s) == s.insert(j, x),
    decreases j,
{
    if j == 0 {
        assert(spec_insert_by_offset(x, s) =~= s.insert(0, x));
    } else {
        assert(spec_offset(s[0]) <= spec_offset(x));
        lemma_insert_offset_at_index(x, s.drop_first(), j - 1);
        assert(spec_insert_by_offset(x, s) == seq![s[0]] + spec_insert_by_offset(
            x,
            s.drop_first(),
        ));
        assert(seq![s[0]] + s.drop_first().insert(j - 1, x) =~= s.insert(j, x));
    }
}

/// The byte offset of a block's partition facet, or 0 without one.
fn block_offset(b: &Block) -> (r: u64)
    ensures
        r == spec_offset(b@),
{
    match &b.partition {
        Some(p) => p.offset,
        None => 0,
    }
}

/// The index at which a block belongs in an offset-sorted list: just
/// after the last block whose offset is at or below its own.
fn find_offset_pos(x: &Block, sorted: &Vec<Block>) -> (j: usize)
    ensures
        j <= sorted.len(),
        forall|k: int|
            0 <= k < j ==> spec_offset(#[trigger] sorted.deep_view()[k]) <= spec_offset(x@),
        j < sorted.len() ==> !(spec_offset(sorted.deep_view()[j as int]) <= spec_offset(x@)),
{
    let mut j: usize = 0;
    let x_offset = block_offset(x);
    while j < sorted.len()
        invariant
            j <= sorted.len(),
            x_offset == spec_offset(x@),
            forall|k: int|
                0 <= k < j ==> spec_offset(#[trigger] sorted.deep_view()[k]) <= spec_offset(x@),
        decreases sorted.len() - j,
    {
        if block_offset(&sorted[j]) > x_offset {
            return j;
        }
        j = j + 1;
    }
    j
}

/// Sort a list of blocks ascending by partition offset.
fn sort_by_offset(input: Vec<Block>) -> (r: Vec<Block>)
    ensures
        r.deep_view() == spec_sort_by_offset(input.deep_view()),
{
    let ghost orig = input.deep_view();
    let mut remaining = input;
    let mut out: Vec<Block> = Vec::new();
    let ghost mut n: int = 0;
    proof {
        assert(remaining.deep_view() =~= orig.skip(0));
        assert(orig.take(0) =~= Seq::<BlockModel>::empty());
        assert(out.deep_view() =~= spec_sort_by_offset(orig.take(0)));
    }
    while remaining.len() > 0
        invariant
            0 <= n,
            n + remaining.deep_view().len() == orig.len(),
            remaining.deep_view() == orig.skip(n),
            out.deep_view() == spec_sort_by_offset(orig.take(n)),
            spec_sorted_by_offset(out.deep_view()),
        decreases remaining.len(),
    {
        let ghost out_before = out.deep_view();
        let ghost rem_before = remaining@;
        let ghost rem_dv_before = remaining.deep_view();
        let x = remaining.remove(0);
        proof {
            assert(x == rem_before[0]);
            assert(rem_dv_before[0] == rem_before[0].deep_view());
            assert(x@ == orig[n]);
            assert forall|i: int| 0 <= i < remaining@.len() implies remaining.deep_view()[i]
                == orig.skip(n + 1)[i] by {
                assert(remaining@[i] == rem_before[i + 1]);
                assert(remaining.deep_view()[i] == remaining@[i].deep_view());
                assert(rem_dv_before[i + 1] == rem_before[i + 1].deep_view());
            }
            assert(remaining.deep_view() =~= orig.skip(n + 1));
        }
        let j = find_offset_pos(&x, &out);
        proof {
            lemma_insert_offset_at_index(x@, out_before, j as int);
            lemma_insert_by_offset_sorted(x@, out_before);
        }
        out.insert(j, x);
        proof {
            n = n + 1;
            assert(out.deep_view() =~= out_before.insert(j as int, x@));
            assert(orig.take(n).drop_last() =~= orig.take(n - 1));
            assert(orig.take(n).last() == orig[n - 1]);
        }
    }
    proof {
        assert(orig.take(n) =~= orig);
    }
    out
}

impl Disks {
    /// Assemble the device view for one drive: collect the blocks owned
    /// by it, take the last table-bearing one as the parent, and sort
    /// the rest by partition offset as its partitions. `None` when no
    /// owned block bears a table, and when some child block lacks its
    /// partition facet, a structural violation that skips this one
    /// device.
    fn device_for(drive: Drive, blocks: &Vec<Block>) -> (r: Option<DiskDevice>)
        ensures
            r matches Some(d) ==> spec_device_for(drive@, blocks.deep_view()) == Some(d@),
            r is None ==> spec_device_for(drive@, blocks.deep_view()) is None,
    {
        let ghost bm = blocks.deep_view();
        let ghost drive_path = drive@.path;
        let mut parent: Option<Block> = None;
        let mut children: Vec<Block> = Vec::new();
        let mut i: usize = 0;
        while i < blocks.len()
            invariant
                i <= blocks.len(),
                bm == blocks.deep_view(),
                drive_path == drive@.path,
                match parent {
                    Some(p) => spec_parent_block(bm, drive_path, i as int) == Some(p@),
                    None => spec_parent_block(bm, drive_path, i as int) is None,
                },
                children.deep_view() == spec_child_blocks(bm, drive_path, i as int),
            decreases blocks.len() - i,
        {
            let ghost children_before = children.deep_view();
            let b = &blocks[i];
            if crate::utils::str_eq(b.drive.as_str(), drive.path.as_str()) {
                if b.table.is_some() {
                    parent = Some(b.clone());
                } else {
                    children.push(b.clone());
                    assert(children.deep_view() =~= children_before.push(bm[i as int]));
                }
            }
            i = i + 1;
        }
        let parent = match parent {
            Some(p) => p,
            None => {
                return None;
            },
        };
        let mut k: usize = 0;
        while k < children.len()
            invariant
                k <= children.len(),
                bm == blocks.deep_view(),
                drive_path == drive@.path,
                spec_parent_block(bm, drive_path, bm.len() as int) == Some(parent@),
                children.deep_view() == spec_child_blocks(bm, drive_path, bm.len() as int),
                forall|m: int|
                    0 <= m < k ==> (#[trigger] children.deep_view()[m]).partition is Some,
            decreases children.len() - k,
        {
            if children[k].partition.is_none() {
                proof {
                    assert(children.deep_view()[k as int] == children@[k as int]@);
                    assert((children.deep_view()[k as int]).partition is None);
                }
                return None;
            }
            k = k + 1;
        }
        let partitions = sort_by_offset(children);
        Some(DiskDevice { drive, parent, partitions })
    }

    /// Build the device view from one cache snapshot: every decoded
    /// drive assembled against every decoded block.
    pub fn new(cache: &DiskCache) -> (r: Disks)
        ensures
            r@ == spec_assemble(
                spec_drives_of(cache.objects@, cache.objects@.len() as int),
                spec_blocks_of(cache.objects@, cache.objects@.len() as int),
                spec_drives_of(cache.objects@, cache.objects@.len() as int).len() as int,
            ),
    {
        let drives = cache.get_drives();
        let blocks = cache.get_blocks();
        Disks::assemble(drives, &blocks)
    }

    /// Assemble the full device view: one device per drive that has a
    /// table-bearing block, in drive order.
    pub fn assemble(drives: Vec<Drive>, blocks: &Vec<Block>) -> (r: Disks)
        ensures
            r@ == spec_assemble(drives.deep_view(), blocks.deep_view(), drives@.len() as int),
    {
        let ghost dm = drives.deep_view();
        let ghost bm = blocks.deep_view();
        let mut remaining = drives;
        let mut devices: Vec<DiskDevice> = Vec::new();
        let ghost mut n: int = 0;
        proof {
            assert(remaining.deep_view() =~= dm.skip(0));
            assert(devices.deep_view() =~= spec_assemble(dm, bm, 0));
        }
        while remaining.len() > 0
            invariant
                0 <= n,
                n + remaining.deep_view().len() == dm.len(),
                remaining.deep_view() == dm.skip(n),
                devices.deep_view() == spec_assemble(dm, bm, n),
                bm == blocks.deep_view(),
            decreases remaining.len(),
        {
            let ghost devices_before = devices.deep_view();
            let ghost rem_before = remaining@;
            let ghost rem_dv_before = remaining.deep_view();
            let drive = remaining.remove(0);
            proof {
                assert(drive == rem_before[0]);
                assert(rem_dv_before[0] == rem_before[0].deep_view());
                assert(drive@ == dm[n]);
                assert forall|i: int| 0 <= i < remaining@.len() implies remaining.deep_view()[i]
                    == dm.skip(n + 1)[i] by {
                    assert(remaining@[i] == rem_before[i + 1]);
                    assert(remaining.deep_view()[i] == remaining@[i].deep_view());
                    assert(rem_dv_before[i + 1] == rem_before[i + 1].deep_view());
                }
                assert(remaining.deep_view() =~= dm.skip(n + 1));
            }
            match Disks::device_for(drive, blocks) {
                Some(device) => {
                    devices.push(device);
                    assert(devices.deep_view() =~= devices_before.push(
                        spec_device_for(dm[n], bm)->Some_0,
                    ));
                },
                None => {},
            }
            proof {
                n = n + 1;
            }
        }
        proof {
            assert(spec_assemble(dm, bm, n) == spec_assemble(dm, bm, dm.len() as int));
        }
        Disks { devices }
    }
}

} // verus!
