//! Laws of the decoder and the assembler, stated and proved once, where
//! a reader can find them: what every decoded value satisfies, and what
//! input the decode is insensitive to.

use vstd::prelude::*;

use crate::block::{
    spec_apply_block_prop, spec_apply_config_record, spec_apply_encrypted_prop,
    spec_apply_partition_prop, spec_apply_table_prop, spec_fold_block_props, spec_fold_config,
    spec_fold_encrypted_props, spec_fold_facets, spec_fold_partition_props, spec_fold_table_props,
    spec_parse_block, BlockModel, ConfigurationModel, EncryptedModel, PartitionModel,
    PartitionTableModel,
};
use crate::utils::spec_strings_or_empty;
use crate::cache::{spec_blocks_of, spec_drives_of};
use crate::disks::{
    spec_assemble, spec_child_blocks, spec_device_for, spec_parent_block, spec_sorted_by_offset,
};
use crate::drive::{spec_apply_drive_prop, spec_fold_drive_props, spec_parse_drive, DriveModel};
use crate::graph::{spec_find_interface, spec_has_interface, Interface, ManagedObject, Prop};
use crate::order::{lemma_sort_strings_sorted, spec_strings_sorted};
use crate::value::Value;

verus! {

// ------------------------------------------------------------------
// Decoding is a pure function of the snapshot
// ------------------------------------------------------------------
/// Decoding is idempotent: any two decodes of one snapshot of the raw
/// graph model the same drive and block sets, because each decoded set
/// is pinned to one spec-level function of the snapshot.
pub proof fn lemma_decode_idempotent(
    objects: Seq<ManagedObject>,
    drives1: Seq<DriveModel>,
    drives2: Seq<DriveModel>,
    blocks1: Seq<BlockModel>,
    blocks2: Seq<BlockModel>,
)
    requires
        drives1 == spec_drives_of(objects, objects.len() as int),
        drives2 == spec_drives_of(objects, objects.len() as int),
        blocks1 == spec_blocks_of(objects, objects.len() as int),
        blocks2 == spec_blocks_of(objects, objects.len() as int),
    ensures
        drives1 == drives2,
        blocks1 == blocks2,
{
}

// ------------------------------------------------------------------
// Loop devices are excluded
// ------------------------------------------------------------------
/// An object carrying the loop-device facet decodes to no block,
/// whatever other facets it carries.
pub proof fn lemma_loop_device_excluded(path: Seq<char>, interfaces: Seq<Interface>)
    requires
        spec_has_interface(interfaces, "org.freedesktop.UDisks2.Loop"@),
    ensures
        spec_parse_block(path, interfaces) is None,
{
}

/// Whether a block is the decoding of one of the first `n` objects that
/// does not carry the loop-device facet.
pub open spec fn block_from_loop_free_object(
    objects: Seq<ManagedObject>,
    n: int,
    b: BlockModel,
) -> bool {
    exists|i: int|
        0 <= i < n && !spec_has_interface(
            #[trigger] objects[i].interfaces@,
            "org.freedesktop.UDisks2.Loop"@,
        ) && spec_parse_block(objects[i].path@, objects[i].interfaces@) == Some(b)
}

/// Every block of the decoded set comes from an object free of the
/// loop-device facet: no loop device ever appears in the set.
pub proof fn lemma_decoded_blocks_loop_free(objects: Seq<ManagedObject>, n: int)
    ensures
        forall|k: int|
            0 <= k < spec_blocks_of(objects, n).len() ==> block_from_loop_free_object(
                objects,
                n,
                #[trigger] spec_blocks_of(objects, n)[k],
            ),
    decreases n,
{
    if n > 0 {
        lemma_decoded_blocks_loop_free(objects, n - 1);
        let prev = spec_blocks_of(objects, n - 1);
        let cur = spec_blocks_of(objects, n);
        assert forall|k: int| 0 <= k < cur.len() implies block_from_loop_free_object(
            objects,
            n,
            #[trigger] cur[k],
        ) by {
            match spec_parse_block(objects[n - 1].path@, objects[n - 1].interfaces@) {
                Some(b) => {
                    if k < prev.len() {
                        assert(cur[k] == prev[k]);
                        assert(block_from_loop_free_object(objects, n - 1, prev[k]));
                        let i = choose|i: int|
                            0 <= i < n - 1 && !spec_has_interface(
                                #[trigger] objects[i].interfaces@,
                                "org.freedesktop.UDisks2.Loop"@,
                            ) && spec_parse_block(objects[i].path@, objects[i].interfaces@)
                                == Some(prev[k]);
                        assert(0 <= i < n && !spec_has_interface(
                            objects[i].interfaces@,
                            "org.freedesktop.UDisks2.Loop"@,
                        ) && spec_parse_block(objects[i].path@, objects[i].interfaces@) == Some(
                            cur[k],
                        ));
                    } else {
                        assert(cur[k] == b);
                        assert(!spec_has_interface(
                            objects[n - 1].interfaces@,
                            "org.freedesktop.UDisks2.Loop"@,
                        ));
                    }
                },
                None => {
                    assert(cur[k] == prev[k]);
                    assert(block_from_loop_free_object(objects, n - 1, prev[k]));
                    let i = choose|i: int|
                        0 <= i < n - 1 && !spec_has_interface(
                            #[trigger] objects[i].interfaces@,
                            "org.freedesktop.UDisks2.Loop"@,
                        ) && spec_parse_block(objects[i].path@, objects[i].interfaces@) == Some(
                            prev[k],
                        );
                    assert(0 <= i < n && !spec_has_interface(
                        objects[i].interfaces@,
                        "org.freedesktop.UDisks2.Loop"@,
                    ) && spec_parse_block(objects[i].path@, objects[i].interfaces@) == Some(
                        cur[k],
                    ));
                },
            }
        }
    }
}

// ------------------------------------------------------------------
// Partition-table paths are sorted
// ------------------------------------------------------------------
/// The partition-path list of a decoded table facet is sorted, whatever
/// its properties were.
proof fn lemma_fold_table_sorted(t: PartitionTableModel, props: Seq<Prop>, n: int)
    requires
        spec_strings_sorted(t.partitions),
    ensures
        spec_strings_sorted(spec_fold_table_props(t, props, n).partitions),
    decreases n,
{
    if n > 0 {
        lemma_fold_table_sorted(t, props, n - 1);
        let name = props[n - 1].name@;
        let v = props[n - 1].value;
        if name == "Partitions"@ {
            lemma_sort_strings_sorted(spec_strings_or_empty(v));
        }
    }
}

/// The first pass over the block interface's properties never sets the
/// table facet.
proof fn lemma_fold_block_props_table(b: BlockModel, props: Seq<Prop>, n: int)
    ensures
        spec_fold_block_props(b, props, n).table == b.table,
    decreases n,
{
    if n > 0 {
        lemma_fold_block_props_table(b, props, n - 1);
    }
}

/// The facet pass leaves the table facet absent or sorted.
proof fn lemma_fold_facets_table_sorted(b: BlockModel, interfaces: Seq<Interface>, n: int)
    requires
        match b.table {
            Some(t) => spec_strings_sorted(t.partitions),
            None => true,
        },
    ensures
        match spec_fold_facets(b, interfaces, n).table {
            Some(t) => spec_strings_sorted(t.partitions),
            None => true,
        },
    decreases n,
{
    if n > 0 {
        lemma_fold_facets_table_sorted(b, interfaces, n - 1);
        let iface = interfaces[n - 1];
        if iface.name@ == "org.freedesktop.UDisks2.PartitionTable"@ {
            lemma_fold_table_sorted(
                crate::block::spec_default_table(),
                iface.props@,
                iface.props@.len() as int,
            );
        }
    }
}

/// A decoded block's partition-table facet, when present, lists its
/// child partition paths sorted ascending lexicographically.
pub proof fn lemma_table_partitions_sorted(path: Seq<char>, interfaces: Seq<Interface>)
    ensures
        match spec_parse_block(path, interfaces) {
            Some(b) => match b.table {
                Some(t) => spec_strings_sorted(t.partitions),
                None => true,
            },
            None => true,
        },
{
    if !spec_has_interface(interfaces, "org.freedesktop.UDisks2.Loop"@) {
        match spec_find_interface(interfaces, "org.freedesktop.UDisks2.Block"@) {
            Some(props) => {
                let base = crate::block::spec_default_block(path);
                lemma_fold_block_props_table(base, props, props.len() as int);
                lemma_fold_facets_table_sorted(
                    spec_fold_block_props(base, props, props.len() as int),
                    interfaces,
                    interfaces.len() as int,
                );
            },
            None => {},
        }
    }
}

// ------------------------------------------------------------------
// Assembled partitions are sorted by offset
// ------------------------------------------------------------------
/// The partitions of an assembled device are sorted ascending by their
/// partition facet's byte offset. Offsets need not be contiguous or
/// non-overlapping; nothing validates them.
pub proof fn lemma_device_partitions_sorted(drive: DriveModel, blocks: Seq<BlockModel>)
    ensures
        match spec_device_for(drive, blocks) {
            Some(d) => spec_sorted_by_offset(d.partitions),
            None => true,
        },
{
    crate::disks::lemma_sort_by_offset_sorted(
        spec_child_blocks(blocks, drive.path, blocks.len() as int),
    );
}

/// Every device of the assembled view has its partitions sorted
/// ascending by offset.
pub proof fn lemma_assembled_partitions_sorted(
    drives: Seq<DriveModel>,
    blocks: Seq<BlockModel>,
    n: int,
)
    ensures
        forall|k: int|
            0 <= k < spec_assemble(drives, blocks, n).len() ==> spec_sorted_by_offset(
                (#[trigger] spec_assemble(drives, blocks, n)[k]).partitions,
            ),
    decreases n,
{
    if n > 0 {
        lemma_assembled_partitions_sorted(drives, blocks, n - 1);
        lemma_device_partitions_sorted(drives[n - 1], blocks);
        let prev = spec_assemble(drives, blocks, n - 1);
        let cur = spec_assemble(drives, blocks, n);
        assert forall|k: int| 0 <= k < cur.len() implies spec_sorted_by_offset(
            (#[trigger] cur[k]).partitions,
        ) by {
            if k < prev.len() {
                assert(cur[k] == prev[k]);
            }
        }
    }
}

// ------------------------------------------------------------------
// A drive without a table-bearing block yields no device
// ------------------------------------------------------------------
/// Among blocks none of which both belongs to the drive and bears a
/// table, no parent block is found.
proof fn lemma_no_parent_block(blocks: Seq<BlockModel>, drive_path: Seq<char>, n: int)
    requires
        forall|i: int|
            0 <= i < blocks.len() && (#[trigger] blocks[i]).drive == drive_path ==> blocks[i].table
                is None,
        n <= blocks.len(),
    ensures
        spec_parent_block(blocks, drive_path, n) is None,
    decreases n,
{
    if n > 0 {
        lemma_no_parent_block(blocks, drive_path, n - 1);
    }
}

/// A drive with no associated table-bearing block produces no device in
/// the assembled view.
pub proof fn lemma_drive_without_table_skipped(drive: DriveModel, blocks: Seq<BlockModel>)
    requires
        forall|i: int|
            0 <= i < blocks.len() && (#[trigger] blocks[i]).drive == drive.path ==> blocks[i].table
                is None,
    ensures
        spec_device_for(drive, blocks) is None,
{
    lemma_no_parent_block(blocks, drive.path, blocks.len() as int);
}

// ------------------------------------------------------------------
// Unrecognized keys and interfaces are isolated
// ------------------------------------------------------------------
/// The property names the block decoder recognizes.
pub open spec fn block_prop_recognized(name: Seq<char>) -> bool {
    ||| name == "CryptoBackingDevice"@
    ||| name == "Device"@
    ||| name == "DeviceNumber"@
    ||| name == "Drive"@
    ||| name == "HintAuto"@
    ||| name == "HintIconName"@
    ||| name == "HintIgnore"@
    ||| name == "HintName"@
    ||| name == "HintPartitionable"@
    ||| name == "HintSymbolicIconName"@
    ||| name == "HintSystem"@
    ||| name == "Id"@
    ||| name == "IdLabel"@
    ||| name == "IdType"@
    ||| name == "IdUsage"@
    ||| name == "IdUUID"@
    ||| name == "IdVersion"@
    ||| name == "MDRaid"@
    ||| name == "MDRaidMember"@
    ||| name == "PreferredDevice"@
    ||| name == "ReadOnly"@
    ||| name == "Size"@
    ||| name == "Symlinks"@
    ||| name == "UserspaceMountOptions"@
    ||| name == "Configuration"@
}

/// The property names the drive decoder recognizes.
pub open spec fn drive_prop_recognized(name: Seq<char>) -> bool {
    ||| name == "CanPowerOff"@
    ||| name == "ConnectionBus"@
    ||| name == "Ejectable"@
    ||| name == "Id"@
    ||| name == "Media"@
    ||| name == "MediaAvailable"@
    ||| name == "MediaChangeDetected"@
    ||| name == "MediaCompatibility"@
    ||| name == "MediaRemovable"@
    ||| name == "Model"@
    ||| name == "Optical"@
    ||| name == "OpticalBlank"@
    ||| name == "OpticalNumTracks"@
    ||| name == "OpticalNumAudioTracks"@
    ||| name == "OpticalNumDataTracks"@
    ||| name == "OpticalNumSessions"@
    ||| name == "Removable"@
    ||| name == "Revision"@
    ||| name == "RotationRate"@
    ||| name == "Seat"@
    ||| name == "Serial"@
    ||| name == "SiblingId"@
    ||| name == "Size"@
    ||| name == "SortKey"@
    ||| name == "TimeDetected"@
    ||| name == "TimeMediaDetected"@
    ||| name == "Vendor"@
    ||| name == "WWN"@
}

/// The interface names the block decoder reads at all.
pub open spec fn block_interface_recognized(name: Seq<char>) -> bool {
    ||| name == "org.freedesktop.UDisks2.Loop"@
    ||| name == "org.freedesktop.UDisks2.Block"@
    ||| name == "org.freedesktop.UDisks2.Swapspace"@
    ||| name == "org.freedesktop.UDisks2.PartitionTable"@
    ||| name == "org.freedesktop.UDisks2.Partition"@
    ||| name == "org.freedesktop.UDisks2.Filesystem"@
    ||| name == "org.freedesktop.UDisks2.Encrypted"@
}

/// A property with an unrecognized name changes no field of a block.
pub proof fn lemma_unknown_block_prop_ignored(b: BlockModel, name: Seq<char>, v: Value)
    requires
        !block_prop_recognized(name),
    ensures
        spec_apply_block_prop(b, name, v) == b,
{
}

/// A property with an unrecognized name changes no field of a drive.
pub proof fn lemma_unknown_drive_prop_ignored(d: DriveModel, name: Seq<char>, v: Value)
    requires
        !drive_prop_recognized(name),
    ensures
        spec_apply_drive_prop(d, name, v) == d,
{
}

/// Folds over equal prefixes agree.
proof fn lemma_fold_block_props_prefix(b: BlockModel, s1: Seq<Prop>, s2: Seq<Prop>, n: int)
    requires
        n <= s1.len(),
        n <= s2.len(),
        forall|j: int| 0 <= j < n ==> s1[j] == s2[j],
    ensures
        spec_fold_block_props(b, s1, n) == spec_fold_block_props(b, s2, n),
    decreases n,
{
    if n > 0 {
        lemma_fold_block_props_prefix(b, s1, s2, n - 1);
    }
}

/// Inserting a property with an unrecognized name anywhere in the block
/// interface leaves the decoded block unchanged: the fold over the
/// lengthened list equals the fold over the list itself.
pub proof fn lemma_unknown_block_prop_inserted(b: BlockModel, props: Seq<Prop>, k: int, p: Prop)
    requires
        0 <= k <= props.len(),
        !block_prop_recognized(p.name@),
    ensures
        spec_fold_block_props(b, props.insert(k, p), props.len() as int + 1) == spec_fold_block_props(
            b,
            props,
            props.len() as int,
        ),
{
    lemma_unknown_block_prop_inserted_upto(b, props, k, p, props.len() as int);
}

/// The insertion lemma, for every prefix length at or past the insertion
/// point.
proof fn lemma_unknown_block_prop_inserted_upto(
    b: BlockModel,
    props: Seq<Prop>,
    k: int,
    p: Prop,
    n: int,
)
    requires
        0 <= k <= props.len(),
        k <= n <= props.len(),
        !block_prop_recognized(p.name@),
    ensures
        spec_fold_block_props(b, props.insert(k, p), n + 1) == spec_fold_block_props(b, props, n),
    decreases n,
{
    let ins = props.insert(k, p);
    if n == k {
        assert(ins[k] == p);
        lemma_fold_block_props_prefix(b, ins, props, k);
        lemma_unknown_block_prop_ignored(spec_fold_block_props(b, ins, k), p.name@, p.value);
    } else {
        lemma_unknown_block_prop_inserted_upto(b, props, k, p, n - 1);
        assert(ins[n] == props[n - 1]);
    }
}

/// Folds over equal prefixes agree.
proof fn lemma_fold_drive_props_prefix(d: DriveModel, s1: Seq<Prop>, s2: Seq<Prop>, n: int)
    requires
        n <= s1.len(),
        n <= s2.len(),
        forall|j: int| 0 <= j < n ==> s1[j] == s2[j],
    ensures
        spec_fold_drive_props(d, s1, n) == spec_fold_drive_props(d, s2, n),
    decreases n,
{
    if n > 0 {
        lemma_fold_drive_props_prefix(d, s1, s2, n - 1);
    }
}

/// Inserting a property with an unrecognized name anywhere in the drive
/// interface leaves the decoded drive unchanged.
pub proof fn lemma_unknown_drive_prop_inserted(d: DriveModel, props: Seq<Prop>, k: int, p: Prop)
    requires
        0 <= k <= props.len(),
        !drive_prop_recognized(p.name@),
    ensures
        spec_fold_drive_props(d, props.insert(k, p), props.len() as int + 1) == spec_fold_drive_props(
            d,
            props,
            props.len() as int,
        ),
{
    lemma_unknown_drive_prop_inserted_upto(d, props, k, p, props.len() as int);
}

/// The insertion lemma, for every prefix length at or past the insertion
/// point.
proof fn lemma_unknown_drive_prop_inserted_upto(
    d: DriveModel,
    props: Seq<Prop>,
    k: int,
    p: Prop,
    n: int,
)
    requires
        0 <= k <= props.len(),
        k <= n <= props.len(),
        !drive_prop_recognized(p.name@),
    ensures
        spec_fold_drive_props(d, props.insert(k, p), n + 1) == spec_fold_drive_props(d, props, n),
    decreases n,
{
    let ins = props.insert(k, p);
    if n == k {
        assert(ins[k] == p);
        lemma_fold_drive_props_prefix(d, ins, props, k);
        lemma_unknown_drive_prop_ignored(spec_fold_drive_props(d, ins, k), p.name@, p.value);
    } else {
        lemma_unknown_drive_prop_inserted_upto(d, props, k, p, n - 1);
        assert(ins[n] == props[n - 1]);
    }
}

/// Looking an interface up by name sees through the insertion of an
/// interface bearing another name.
proof fn lemma_find_interface_insert(
    interfaces: Seq<Interface>,
    k: int,
    iface: Interface,
    name: Seq<char>,
)
    requires
        0 <= k <= interfaces.len(),
        iface.name@ != name,
    ensures
        spec_find_interface(interfaces.insert(k, iface), name) == spec_find_interface(
            interfaces,
            name,
        ),
    decreases k,
{
    let ins = interfaces.insert(k, iface);
    if k == 0 {
        assert(ins[0] == iface);
        assert(ins.drop_first() =~= interfaces);
    } else {
        assert(ins[0] == interfaces[0]);
        if interfaces[0].name@ == name {
        } else {
            assert(ins.drop_first() =~= interfaces.drop_first().insert(k - 1, iface));
            lemma_find_interface_insert(interfaces.drop_first(), k - 1, iface, name);
        }
    }
}

/// Folds over equal prefixes agree.
proof fn lemma_fold_facets_prefix(b: BlockModel, s1: Seq<Interface>, s2: Seq<Interface>, n: int)
    requires
        n <= s1.len(),
        n <= s2.len(),
        forall|j: int| 0 <= j < n ==> s1[j] == s2[j],
    ensures
        spec_fold_facets(b, s1, n) == spec_fold_facets(b, s2, n),
    decreases n,
{
    if n > 0 {
        lemma_fold_facets_prefix(b, s1, s2, n - 1);
    }
}

/// The facet pass skips an interface with an unrecognized name.
proof fn lemma_unknown_facet_inserted_upto(
    b: BlockModel,
    interfaces: Seq<Interface>,
    k: int,
    iface: Interface,
    n: int,
)
    requires
        0 <= k <= interfaces.len(),
        k <= n <= interfaces.len(),
        !block_interface_recognized(iface.name@),
    ensures
        spec_fold_facets(b, interfaces.insert(k, iface), n + 1) == spec_fold_facets(
            b,
            interfaces,
            n,
        ),
    decreases n,
{
    let ins = interfaces.insert(k, iface);
    if n == k {
        assert(ins[k] == iface);
        lemma_fold_facets_prefix(b, ins, interfaces, k);
    } else {
        lemma_unknown_facet_inserted_upto(b, interfaces, k, iface, n - 1);
        assert(ins[n] == interfaces[n - 1]);
    }
}

/// Inserting an interface with an unrecognized name anywhere among an
/// object's interfaces leaves the decoded block unchanged.
pub proof fn lemma_unknown_interface_block_isolated(
    path: Seq<char>,
    interfaces: Seq<Interface>,
    k: int,
    iface: Interface,
)
    requires
        0 <= k <= interfaces.len(),
        !block_interface_recognized(iface.name@),
    ensures
        spec_parse_block(path, interfaces.insert(k, iface)) == spec_parse_block(path, interfaces),
{
    let ins = interfaces.insert(k, iface);
    lemma_find_interface_insert(interfaces, k, iface, "org.freedesktop.UDisks2.Loop"@);
    lemma_find_interface_insert(interfaces, k, iface, "org.freedesktop.UDisks2.Block"@);
    if !spec_has_interface(interfaces, "org.freedesktop.UDisks2.Loop"@) {
        match spec_find_interface(interfaces, "org.freedesktop.UDisks2.Block"@) {
            Some(props) => {
                let base = spec_fold_block_props(
                    crate::block::spec_default_block(path),
                    props,
                    props.len() as int,
                );
                lemma_unknown_facet_inserted_upto(
                    base,
                    interfaces,
                    k,
                    iface,
                    interfaces.len() as int,
                );
            },
            None => {},
        }
    }
}

/// Inserting an interface that is no drive interface anywhere among an
/// object's interfaces leaves the decoded drive unchanged.
pub proof fn lemma_unknown_interface_drive_isolated(
    path: Seq<char>,
    interfaces: Seq<Interface>,
    k: int,
    iface: Interface,
)
    requires
        0 <= k <= interfaces.len(),
        iface.name@ != "org.freedesktop.UDisks2.Drive"@,
    ensures
        spec_parse_drive(path, interfaces.insert(k, iface)) == spec_parse_drive(path, interfaces),
{
    lemma_find_interface_insert(interfaces, k, iface, "org.freedesktop.UDisks2.Drive"@);
}

/// Two interface lists that differ only in the properties of one
/// interface agree on every lookup by a name that interface does not
/// bear.
proof fn lemma_find_interface_update_other(
    interfaces1: Seq<Interface>,
    interfaces2: Seq<Interface>,
    j: int,
    name: Seq<char>,
)
    requires
        interfaces1.len() == interfaces2.len(),
        0 <= j < interfaces1.len(),
        forall|m: int|
            0 <= m < interfaces1.len() && m != j ==> #[trigger] interfaces1[m] == interfaces2[m],
        interfaces1[j].name@ == interfaces2[j].name@,
        interfaces1[j].name@ != name,
    ensures
        spec_find_interface(interfaces1, name) == spec_find_interface(interfaces2, name),
    decreases interfaces1.len(),
{
    if interfaces1.len() > 0 {
        assert(interfaces1[0].name@ == interfaces2[0].name@);
        if interfaces1[0].name@ == name {
            assert(interfaces1[0] == interfaces2[0]);
        } else {
            if j == 0 {
                assert forall|m: int|
                    0 <= m < interfaces1.drop_first().len() implies #[trigger] interfaces1
                    .drop_first()[m] == interfaces2.drop_first()[m] by {
                    assert(interfaces1[m + 1] == interfaces2[m + 1]);
                }
                assert(interfaces1.drop_first() =~= interfaces2.drop_first());
            } else {
                lemma_find_interface_update_other(
                    interfaces1.drop_first(),
                    interfaces2.drop_first(),
                    j - 1,
                    name,
                );
            }
        }
    }
}

/// Looking up a name finds the first interface bearing it, in two lists
/// that agree up to that interface.
proof fn lemma_find_interface_first_match(
    interfaces: Seq<Interface>,
    j: int,
    name: Seq<char>,
)
    requires
        0 <= j < interfaces.len(),
        interfaces[j].name@ == name,
        forall|m: int| 0 <= m < j ==> (#[trigger] interfaces[m]).name@ != name,
    ensures
        spec_find_interface(interfaces, name) == Some(interfaces[j].props@),
    decreases j,
{
    if j > 0 {
        lemma_find_interface_first_match(interfaces.drop_first(), j - 1, name);
    }
}

/// The facet pass agrees on two interface lists that differ only in the
/// properties of one block interface, which it skips.
proof fn lemma_fold_facets_update_block(
    b: BlockModel,
    interfaces1: Seq<Interface>,
    interfaces2: Seq<Interface>,
    j: int,
    n: int,
)
    requires
        interfaces1.len() == interfaces2.len(),
        0 <= j < interfaces1.len(),
        n <= interfaces1.len(),
        forall|m: int|
            0 <= m < interfaces1.len() && m != j ==> #[trigger] interfaces1[m] == interfaces2[m],
        interfaces1[j].name@ == "org.freedesktop.UDisks2.Block"@,
        interfaces2[j].name@ == "org.freedesktop.UDisks2.Block"@,
    ensures
        spec_fold_facets(b, interfaces1, n) == spec_fold_facets(b, interfaces2, n),
    decreases n,
{
    if n > 0 {
        lemma_fold_facets_update_block(b, interfaces1, interfaces2, j, n - 1);
    }
}

/// An unrecognized property key in the block interface changes nothing:
/// two graphs that differ only by one inserted unrecognized property in
/// the first block interface of one object decode that object to the
/// same block.
pub proof fn lemma_unknown_block_prop_isolated(
    path: Seq<char>,
    interfaces1: Seq<Interface>,
    interfaces2: Seq<Interface>,
    j: int,
    k: int,
    p: Prop,
)
    requires
        interfaces1.len() == interfaces2.len(),
        0 <= j < interfaces1.len(),
        forall|m: int|
            0 <= m < interfaces1.len() && m != j ==> #[trigger] interfaces1[m] == interfaces2[m],
        interfaces1[j].name@ == "org.freedesktop.UDisks2.Block"@,
        interfaces2[j].name@ == "org.freedesktop.UDisks2.Block"@,
        forall|m: int|
            0 <= m < j ==> (#[trigger] interfaces1[m]).name@
                != "org.freedesktop.UDisks2.Block"@,
        0 <= k <= interfaces1[j].props@.len(),
        interfaces2[j].props@ == interfaces1[j].props@.insert(k, p),
        !block_prop_recognized(p.name@),
    ensures
        spec_parse_block(path, interfaces1) == spec_parse_block(path, interfaces2),
{
    reveal_strlit("org.freedesktop.UDisks2.Block");
    reveal_strlit("org.freedesktop.UDisks2.Loop");
    assert("org.freedesktop.UDisks2.Block"@.len() != "org.freedesktop.UDisks2.Loop"@.len());
    lemma_find_interface_update_other(
        interfaces1,
        interfaces2,
        j,
        "org.freedesktop.UDisks2.Loop"@,
    );
    if !spec_has_interface(interfaces1, "org.freedesktop.UDisks2.Loop"@) {
        lemma_find_interface_first_match(interfaces1, j, "org.freedesktop.UDisks2.Block"@);
        assert forall|m: int| 0 <= m < j implies (#[trigger] interfaces2[m]).name@
            != "org.freedesktop.UDisks2.Block"@ by {
            assert(interfaces1[m] == interfaces2[m]);
        }
        lemma_find_interface_first_match(interfaces2, j, "org.freedesktop.UDisks2.Block"@);
        let props1 = interfaces1[j].props@;
        let base = crate::block::spec_default_block(path);
        lemma_unknown_block_prop_inserted(base, props1, k, p);
        lemma_fold_facets_update_block(
            spec_fold_block_props(base, props1, props1.len() as int),
            interfaces1,
            interfaces2,
            j,
            interfaces1.len() as int,
        );
    }
}

/// An unrecognized property key in the drive interface changes nothing:
/// two graphs that differ only by one inserted unrecognized property in
/// the first drive interface of one object decode that object to the
/// same drive.
pub proof fn lemma_unknown_drive_prop_isolated(
    path: Seq<char>,
    interfaces1: Seq<Interface>,
    interfaces2: Seq<Interface>,
    j: int,
    k: int,
    p: Prop,
)
    requires
        interfaces1.len() == interfaces2.len(),
        0 <= j < interfaces1.len(),
        forall|m: int|
            0 <= m < interfaces1.len() && m != j ==> #[trigger] interfaces1[m] == interfaces2[m],
        interfaces1[j].name@ == "org.freedesktop.UDisks2.Drive"@,
        interfaces2[j].name@ == "org.freedesktop.UDisks2.Drive"@,
        forall|m: int|
            0 <= m < j ==> (#[trigger] interfaces1[m]).name@
                != "org.freedesktop.UDisks2.Drive"@,
        0 <= k <= interfaces1[j].props@.len(),
        interfaces2[j].props@ == interfaces1[j].props@.insert(k, p),
        !drive_prop_recognized(p.name@),
    ensures
        spec_parse_drive(path, interfaces1) == spec_parse_drive(path, interfaces2),
{
    lemma_find_interface_first_match(interfaces1, j, "org.freedesktop.UDisks2.Drive"@);
    assert forall|m: int| 0 <= m < j implies (#[trigger] interfaces2[m]).name@
        != "org.freedesktop.UDisks2.Drive"@ by {
        assert(interfaces1[m] == interfaces2[m]);
    }
    lemma_find_interface_first_match(interfaces2, j, "org.freedesktop.UDisks2.Drive"@);
    lemma_unknown_drive_prop_inserted(
        crate::drive::spec_default_drive(path),
        interfaces1[j].props@,
        k,
        p,
    );
}

/// Sibling objects decode independently: two graphs whose objects decode
/// pairwise to the same drives and blocks decode to the same sets, so a
/// change confined to one object never touches what its siblings decode
/// to.
pub proof fn lemma_sibling_objects_isolated(
    objects1: Seq<ManagedObject>,
    objects2: Seq<ManagedObject>,
    n: int,
)
    requires
        objects1.len() == objects2.len(),
        n <= objects1.len(),
        forall|i: int|
            0 <= i < n ==> spec_parse_block(
                (#[trigger] objects1[i]).path@,
                objects1[i].interfaces@,
            ) == spec_parse_block(objects2[i].path@, objects2[i].interfaces@),
        forall|i: int|
            0 <= i < n ==> spec_parse_drive(
                (#[trigger] objects1[i]).path@,
                objects1[i].interfaces@,
            ) == spec_parse_drive(objects2[i].path@, objects2[i].interfaces@),
    ensures
        spec_blocks_of(objects1, n) == spec_blocks_of(objects2, n),
        spec_drives_of(objects1, n) == spec_drives_of(objects2, n),
    decreases n,
{
    if n > 0 {
        lemma_sibling_objects_isolated(objects1, objects2, n - 1);
    }
}

/// The property names the partition facet decoder recognizes.
pub open spec fn partition_prop_recognized(name: Seq<char>) -> bool {
    ||| name == "Type"@
    ||| name == "Name"@
    ||| name == "UUID"@
    ||| name == "Table"@
    ||| name == "Flags"@
    ||| name == "Offset"@
    ||| name == "Size"@
    ||| name == "Number"@
    ||| name == "IsContained"@
    ||| name == "IsContainer"@
}

/// The property names the partition-table facet decoder recognizes.
pub open spec fn table_prop_recognized(name: Seq<char>) -> bool {
    ||| name == "Type"@
    ||| name == "Partitions"@
}

/// The property names the encrypted-volume facet decoder recognizes.
pub open spec fn encrypted_prop_recognized(name: Seq<char>) -> bool {
    ||| name == "HintEncryptionType"@
    ||| name == "MetadataSize"@
    ||| name == "CleartextDevice"@
}

/// A property with an unrecognized name changes no field of a partition.
pub proof fn lemma_unknown_partition_prop_ignored(p: PartitionModel, name: Seq<char>, v: Value)
    requires
        !partition_prop_recognized(name),
    ensures
        spec_apply_partition_prop(p, name, v) == p,
{
}

/// A property with an unrecognized name changes no field of a table.
pub proof fn lemma_unknown_table_prop_ignored(t: PartitionTableModel, name: Seq<char>, v: Value)
    requires
        !table_prop_recognized(name),
    ensures
        spec_apply_table_prop(t, name, v) == t,
{
}

/// A property with an unrecognized name changes no field of an
/// encrypted-volume facet.
pub proof fn lemma_unknown_encrypted_prop_ignored(e: EncryptedModel, name: Seq<char>, v: Value)
    requires
        !encrypted_prop_recognized(name),
    ensures
        spec_apply_encrypted_prop(e, name, v) == e,
{
}

/// Folds over equal prefixes agree.
proof fn lemma_fold_partition_props_prefix(p: PartitionModel, s1: Seq<Prop>, s2: Seq<Prop>, n: int)
    requires
        n <= s1.len(),
        n <= s2.len(),
        forall|j: int| 0 <= j < n ==> s1[j] == s2[j],
    ensures
        spec_fold_partition_props(p, s1, n) == spec_fold_partition_props(p, s2, n),
    decreases n,
{
    if n > 0 {
        lemma_fold_partition_props_prefix(p, s1, s2, n - 1);
    }
}

/// Inserting a property with an unrecognized name anywhere in the
/// partition interface leaves the decoded partition unchanged.
pub proof fn lemma_unknown_partition_prop_inserted(
    base: PartitionModel,
    props: Seq<Prop>,
    k: int,
    p: Prop,
)
    requires
        0 <= k <= props.len(),
        !partition_prop_recognized(p.name@),
    ensures
        spec_fold_partition_props(base, props.insert(k, p), props.len() as int + 1)
            == spec_fold_partition_props(base, props, props.len() as int),
{
    lemma_unknown_partition_prop_inserted_upto(base, props, k, p, props.len() as int);
}

/// The insertion lemma, for every prefix length at or past the insertion
/// point.
proof fn lemma_unknown_partition_prop_inserted_upto(
    base: PartitionModel,
    props: Seq<Prop>,
    k: int,
    p: Prop,
    n: int,
)
    requires
        0 <= k <= props.len(),
        k <= n <= props.len(),
        !partition_prop_recognized(p.name@),
    ensures
        spec_fold_partition_props(base, props.insert(k, p), n + 1) == spec_fold_partition_props(
            base,
            props,
            n,
        ),
    decreases n,
{
    let ins = props.insert(k, p);
    if n == k {
        assert(ins[k] == p);
        lemma_fold_partition_props_prefix(base, ins, props, k);
    } else {
        lemma_unknown_partition_prop_inserted_upto(base, props, k, p, n - 1);
        assert(ins[n] == props[n - 1]);
    }
}

/// Folds over equal prefixes agree.
proof fn lemma_fold_table_props_prefix(t: PartitionTableModel, s1: Seq<Prop>, s2: Seq<Prop>, n: int)
    requires
        n <= s1.len(),
        n <= s2.len(),
        forall|j: int| 0 <= j < n ==> s1[j] == s2[j],
    ensures
        spec_fold_table_props(t, s1, n) == spec_fold_table_props(t, s2, n),
    decreases n,
{
    if n > 0 {
        lemma_fold_table_props_prefix(t, s1, s2, n - 1);
    }
}

/// Inserting a property with an unrecognized name anywhere in the table
/// interface leaves the decoded table unchanged.
pub proof fn lemma_unknown_table_prop_inserted(
    base: PartitionTableModel,
    props: Seq<Prop>,
    k: int,
    p: Prop,
)
    requires
        0 <= k <= props.len(),
        !table_prop_recognized(p.name@),
    ensures
        spec_fold_table_props(base, props.insert(k, p), props.len() as int + 1)
            == spec_fold_table_props(base, props, props.len() as int),
{
    lemma_unknown_table_prop_inserted_upto(base, props, k, p, props.len() as int);
}

/// The insertion lemma, for every prefix length at or past the insertion
/// point.
proof fn lemma_unknown_table_prop_inserted_upto(
    base: PartitionTableModel,
    props: Seq<Prop>,
    k: int,
    p: Prop,
    n: int,
)
    requires
        0 <= k <= props.len(),
        k <= n <= props.len(),
        !table_prop_recognized(p.name@),
    ensures
        spec_fold_table_props(base, props.insert(k, p), n + 1) == spec_fold_table_props(
            base,
            props,
            n,
        ),
    decreases n,
{
    let ins = props.insert(k, p);
    if n == k {
        assert(ins[k] == p);
        lemma_fold_table_props_prefix(base, ins, props, k);
    } else {
        lemma_unknown_table_prop_inserted_upto(base, props, k, p, n - 1);
        assert(ins[n] == props[n - 1]);
    }
}

/// Folds over equal prefixes agree.
proof fn lemma_fold_encrypted_props_prefix(e: EncryptedModel, s1: Seq<Prop>, s2: Seq<Prop>, n: int)
    requires
        n <= s1.len(),
        n <= s2.len(),
        forall|j: int| 0 <= j < n ==> s1[j] == s2[j],
    ensures
        spec_fold_encrypted_props(e, s1, n) == spec_fold_encrypted_props(e, s2, n),
    decreases n,
{
    if n > 0 {
        lemma_fold_encrypted_props_prefix(e, s1, s2, n - 1);
    }
}

/// Inserting a property with an unrecognized name anywhere in the
/// encrypted-volume interface leaves the decoded facet unchanged.
pub proof fn lemma_unknown_encrypted_prop_inserted(
    base: EncryptedModel,
    props: Seq<Prop>,
    k: int,
    p: Prop,
)
    requires
        0 <= k <= props.len(),
        !encrypted_prop_recognized(p.name@),
    ensures
        spec_fold_encrypted_props(base, props.insert(k, p), props.len() as int + 1)
            == spec_fold_encrypted_props(base, props, props.len() as int),
{
    lemma_unknown_encrypted_prop_inserted_upto(base, props, k, p, props.len() as int);
}

/// The insertion lemma, for every prefix length at or past the insertion
/// point.
proof fn lemma_unknown_encrypted_prop_inserted_upto(
    base: EncryptedModel,
    props: Seq<Prop>,
    k: int,
    p: Prop,
    n: int,
)
    requires
        0 <= k <= props.len(),
        k <= n <= props.len(),
        !encrypted_prop_recognized(p.name@),
    ensures
        spec_fold_encrypted_props(base, props.insert(k, p), n + 1) == spec_fold_encrypted_props(
            base,
            props,
            n,
        ),
    decreases n,
{
    let ins = props.insert(k, p);
    if n == k {
        assert(ins[k] == p);
        lemma_fold_encrypted_props_prefix(base, ins, props, k);
    } else {
        lemma_unknown_encrypted_prop_inserted_upto(base, props, k, p, n - 1);
        assert(ins[n] == props[n - 1]);
    }
}

/// Whether a configuration record names neither the fstab nor the
/// crypttab table: the shapes the nested table decoder skips.
pub open spec fn config_record_unrecognized(record: Value) -> bool {
    match crate::value::spec_elems(record) {
        Some(outer) => if outer.len() == 0 {
            true
        } else {
            match crate::value::spec_elems(outer[0]) {
                Some(pair) => if pair.len() < 2 {
                    true
                } else {
                    match crate::value::spec_elems(pair[1]) {
                        Some(_) => match crate::value::spec_as_str(pair[0]) {
                            Some(key) => key != "fstab"@ && key != "crypttab"@,
                            None => true,
                        },
                        None => true,
                    }
                },
                None => true,
            }
        },
        None => true,
    }
}

/// A configuration record with an unrecognized key changes nothing.
pub proof fn lemma_unknown_config_record_ignored(c: ConfigurationModel, record: Value)
    requires
        config_record_unrecognized(record),
    ensures
        spec_apply_config_record(c, record) == c,
{
}

/// Folds over equal prefixes agree.
proof fn lemma_fold_config_prefix(c: ConfigurationModel, s1: Seq<Value>, s2: Seq<Value>, n: int)
    requires
        n <= s1.len(),
        n <= s2.len(),
        forall|j: int| 0 <= j < n ==> s1[j] == s2[j],
    ensures
        spec_fold_config(c, s1, n) == spec_fold_config(c, s2, n),
    decreases n,
{
    if n > 0 {
        lemma_fold_config_prefix(c, s1, s2, n - 1);
    }
}

/// Inserting a record with an unrecognized key anywhere among the
/// configuration records leaves the decoded configuration unchanged.
pub proof fn lemma_unknown_config_record_inserted(
    base: ConfigurationModel,
    records: Seq<Value>,
    k: int,
    record: Value,
)
    requires
        0 <= k <= records.len(),
        config_record_unrecognized(record),
    ensures
        spec_fold_config(base, records.insert(k, record), records.len() as int + 1)
            == spec_fold_config(base, records, records.len() as int),
{
    lemma_unknown_config_record_inserted_upto(base, records, k, record, records.len() as int);
}

/// The insertion lemma, for every prefix length at or past the insertion
/// point.
proof fn lemma_unknown_config_record_inserted_upto(
    base: ConfigurationModel,
    records: Seq<Value>,
    k: int,
    record: Value,
    n: int,
)
    requires
        0 <= k <= records.len(),
        k <= n <= records.len(),
        config_record_unrecognized(record),
    ensures
        spec_fold_config(base, records.insert(k, record), n + 1) == spec_fold_config(
            base,
            records,
            n,
        ),
    decreases n,
{
    let ins = records.insert(k, record);
    if n == k {
        assert(ins[k] == record);
        lemma_fold_config_prefix(base, ins, records, k);
    } else {
        lemma_unknown_config_record_inserted_upto(base, records, k, record, n - 1);
        assert(ins[n] == records[n - 1]);
    }
}

/// Every block of the decoded set has its table facet, when present,
/// sorted ascending by object path.
pub proof fn lemma_decoded_tables_sorted(objects: Seq<ManagedObject>, n: int)
    ensures
        forall|k: int|
            0 <= k < spec_blocks_of(objects, n).len() ==> match (#[trigger] spec_blocks_of(
                objects,
                n,
            )[k]).table {
                Some(t) => spec_strings_sorted(t.partitions),
                None => true,
            },
    decreases n,
{
    if n > 0 {
        lemma_decoded_tables_sorted(objects, n - 1);
        lemma_table_partitions_sorted(objects[n - 1].path@, objects[n - 1].interfaces@);
        let prev = spec_blocks_of(objects, n - 1);
        let cur = spec_blocks_of(objects, n);
        assert forall|k: int| 0 <= k < cur.len() implies match (#[trigger] cur[k]).table {
            Some(t) => spec_strings_sorted(t.partitions),
            None => true,
        } by {
            if k < prev.len() {
                assert(cur[k] == prev[k]);
            }
        }
    }
}

} // verus!
