//! Decoding the raw property graph into typed entities.

use dbus_udisks2::block::Block;
use dbus_udisks2::cache::DiskCache;
use dbus_udisks2::disks::Disks;
use dbus_udisks2::drive::Drive;
use dbus_udisks2::graph::{Interface, ManagedObject, Prop};
use dbus_udisks2::utils::{
    get_bool, get_byte_array, get_string, get_string_array, get_u64, vva,
};
use dbus_udisks2::value::Value;

fn prop(name: &str, value: Value) -> Prop {
    Prop {
        name: name.to_string(),
        value,
    }
}

fn iface(name: &str, props: Vec<Prop>) -> Interface {
    Interface {
        name: name.to_string(),
        props,
    }
}

fn s(text: &str) -> Value {
    Value::Str(text.to_string())
}

fn byte_array(bytes: &[u8]) -> Value {
    Value::Array(bytes.iter().map(|b| Value::U64(*b as u64)).collect())
}

/// The doubly variant-wrapped leaf shape that configuration values
/// arrive in: each variant layer iterates as a one-element sequence.
fn nested_leaf(bytes: &[u8]) -> Value {
    Value::Variant(Box::new(Value::Variant(Box::new(byte_array(bytes)))))
}

#[test]
fn byte_array_decodes_nul_terminated_path() {
    let v = byte_array(&[0x2F, 0x64, 0x65, 0x76, 0x00]);
    assert_eq!(get_byte_array(&v), Some("/dev".to_string()));
}

#[test]
fn byte_array_pops_only_one_trailing_nul() {
    assert_eq!(get_byte_array(&byte_array(&[0x41, 0x00])), Some("A".to_string()));
    assert_eq!(get_byte_array(&byte_array(&[0x41])), Some("A".to_string()));
    assert_eq!(
        get_byte_array(&byte_array(&[0x41, 0x00, 0x00])),
        Some("A\u{0}".to_string())
    );
}

#[test]
fn byte_array_rejects_invalid_utf8() {
    assert_eq!(get_byte_array(&byte_array(&[0xFF, 0xFE])), None);
    assert_eq!(get_byte_array(&Value::U64(7)), None);
}

#[test]
fn string_extractor_unifies_empty_and_missing() {
    assert_eq!(get_string(&s("")), None);
    assert_eq!(get_string(&Value::U64(3)), None);
    assert_eq!(get_string(&s("sda")), Some("sda".to_string()));
}

#[test]
fn unsigned_extractor_defaults_to_zero() {
    assert_eq!(get_u64(&Value::U64(42)), 42);
    assert_eq!(get_u64(&s("42")), 0);
    assert_eq!(get_u64(&Value::I64(-3)), 0);
    assert_eq!(get_u64(&Value::Bool(true)), 1);
}

#[test]
fn boolean_extractor_reads_nonzero_integers() {
    assert!(get_bool(&Value::U64(2)));
    assert!(get_bool(&Value::Bool(true)));
    assert!(!get_bool(&Value::U64(0)));
    assert!(!get_bool(&s("true")));
}

#[test]
fn string_list_keeps_only_nonempty_strings() {
    let v = Value::Array(vec![s("a"), s(""), Value::U64(3), s("b")]);
    assert_eq!(
        get_string_array(&v),
        Some(vec!["a".to_string(), "b".to_string()])
    );
    let empty = Value::Array(vec![s(""), Value::U64(3)]);
    assert_eq!(get_string_array(&empty), None);
}

#[test]
fn extractors_look_through_variant_wrappers() {
    let v = Value::Variant(Box::new(Value::Variant(Box::new(Value::U64(7)))));
    assert_eq!(get_u64(&v), 7);
    let w = Value::Variant(Box::new(s("x")));
    assert_eq!(get_string(&w), Some("x".to_string()));
}

#[test]
fn nested_leaf_decodes_to_flat_string() {
    let v = nested_leaf(b"/dev/sda1\0");
    assert_eq!(vva(&v), Some("/dev/sda1".to_string()));
    // plain array nesting walks the same way
    let a = Value::Array(vec![Value::Array(vec![byte_array(b"/x\0")])]);
    assert_eq!(vva(&a), Some("/x".to_string()));
    assert_eq!(vva(&Value::U64(1)), None);
    assert_eq!(vva(&Value::Array(vec![])), None);
}

#[test]
fn loop_device_is_excluded_from_block_set() {
    let interfaces = vec![
        iface(
            "org.freedesktop.UDisks2.Block",
            vec![prop("Size", Value::U64(512))],
        ),
        iface("org.freedesktop.UDisks2.Loop", vec![]),
    ];
    assert!(Block::parse_from("/org/freedesktop/UDisks2/block_devices/loop0", &interfaces).is_none());
}

#[test]
fn block_decodes_recognized_properties() {
    let interfaces = vec![iface(
        "org.freedesktop.UDisks2.Block",
        vec![
            prop("Drive", s("/org/freedesktop/UDisks2/drives/disk0")),
            prop("Device", byte_array(b"/dev/sda\0")),
            prop("Size", Value::U64(1000)),
            prop("ReadOnly", Value::Bool(true)),
            prop("IdLabel", s("root")),
            prop("Id", s("by-id-1")),
            prop("CryptoBackingDevice", s("/")),
        ],
    )];
    let block = Block::parse_from("/org/freedesktop/UDisks2/block_devices/sda", &interfaces)
        .expect("block interface present");
    assert_eq!(block.path, "/org/freedesktop/UDisks2/block_devices/sda");
    assert_eq!(block.drive, "/org/freedesktop/UDisks2/drives/disk0");
    assert_eq!(block.device, "/dev/sda");
    assert_eq!(block.size, 1000);
    assert!(block.read_only);
    assert_eq!(block.id_label, Some("root".to_string()));
    assert_eq!(block.id, "by-id-1");
    assert_eq!(block.crypto_backing_device, "/");
    assert!(block.table.is_none());
    assert!(block.partition.is_none());
    assert!(block.swapspace.is_none());
}

#[test]
fn block_requires_block_interface() {
    let interfaces = vec![iface("org.freedesktop.UDisks2.Drive", vec![])];
    assert!(Block::parse_from("/p", &interfaces).is_none());
}

#[test]
fn partition_table_paths_are_sorted() {
    let interfaces = vec![
        iface("org.freedesktop.UDisks2.Block", vec![]),
        iface(
            "org.freedesktop.UDisks2.PartitionTable",
            vec![
                prop("Type", s("gpt")),
                prop(
                    "Partitions",
                    Value::Array(vec![s("/path/b2"), s("/path/a10"), s("/path/a1")]),
                ),
            ],
        ),
    ];
    let block = Block::parse_from("/p", &interfaces).unwrap();
    let table = block.table.expect("table facet present");
    assert_eq!(table.type_, "gpt");
    assert_eq!(
        table.partitions,
        vec![
            "/path/a1".to_string(),
            "/path/a10".to_string(),
            "/path/b2".to_string()
        ]
    );
}

#[test]
fn optional_facets_decode_independently() {
    let interfaces = vec![
        iface("org.freedesktop.UDisks2.Block", vec![]),
        iface("org.freedesktop.UDisks2.Swapspace", vec![]),
        iface(
            "org.freedesktop.UDisks2.Partition",
            vec![
                prop("Offset", Value::U64(2048)),
                prop("Number", Value::U64(1)),
                prop("Table", s("/parent")),
            ],
        ),
        iface(
            "org.freedesktop.UDisks2.Filesystem",
            vec![prop(
                "MountPoints",
                Value::Array(vec![byte_array(b"/mnt/data\0"), byte_array(b"/mnt/more\0")]),
            )],
        ),
        iface(
            "org.freedesktop.UDisks2.Encrypted",
            vec![
                prop("HintEncryptionType", s("LUKS")),
                prop("MetadataSize", Value::U64(4096)),
                prop("CleartextDevice", s("/cleartext")),
            ],
        ),
    ];
    let block = Block::parse_from("/p", &interfaces).unwrap();
    // swapspace facet present but without the Active key: default false
    assert_eq!(block.swapspace, Some(false));
    let partition = block.partition.expect("partition facet present");
    assert_eq!(partition.offset, 2048);
    assert_eq!(partition.number, 1);
    assert_eq!(partition.table, "/parent");
    assert_eq!(
        block.mount_points,
        vec!["/mnt/data".to_string(), "/mnt/more".to_string()]
    );
    let encrypted = block.encrypted.expect("encrypted facet present");
    assert_eq!(encrypted.hint_encryption_type, "LUKS");
    assert_eq!(encrypted.metadata_size, 4096);
    assert_eq!(encrypted.cleartext_device, "/cleartext");
}

#[test]
fn configuration_facet_decodes_fstab_and_crypttab() {
    let fstab_items = Value::Array(vec![
        s("fsname"),
        nested_leaf(b"/dev/sda1\0"),
        s("dir"),
        nested_leaf(b"/boot\0"),
        s("type"),
        nested_leaf(b"ext4\0"),
        s("opts"),
        nested_leaf(b"defaults\0"),
        s("freq"),
        Value::U64(1),
        s("passno"),
        Value::U64(2),
        s("mystery"),
        Value::U64(9),
    ]);
    let crypttab_items = Value::Array(vec![
        s("name"),
        nested_leaf(b"cryptroot\0"),
        s("device"),
        nested_leaf(b"/dev/sda2\0"),
        s("passphrase-path"),
        nested_leaf(b"/etc/key\0"),
        s("options"),
        nested_leaf(b"luks\0"),
    ]);
    let records = Value::Array(vec![
        Value::Array(vec![Value::Array(vec![s("fstab"), fstab_items])]),
        Value::Array(vec![Value::Array(vec![s("crypttab"), crypttab_items])]),
        Value::Array(vec![Value::Array(vec![s("unknown"), Value::Array(vec![])])]),
    ]);
    let interfaces = vec![iface(
        "org.freedesktop.UDisks2.Block",
        vec![prop("Configuration", records)],
    )];
    let block = Block::parse_from("/p", &interfaces).unwrap();
    let configuration = block.configuration.expect("configuration facet present");
    assert_eq!(configuration.fstab.fsname, "/dev/sda1");
    assert_eq!(configuration.fstab.dir, "/boot");
    assert_eq!(configuration.fstab.type_, "ext4");
    assert_eq!(configuration.fstab.opts, "defaults");
    assert_eq!(configuration.fstab.freq, 1);
    assert_eq!(configuration.fstab.passno, 2);
    assert_eq!(configuration.crypttab.name, "cryptroot");
    assert_eq!(configuration.crypttab.device, "/dev/sda2");
    assert_eq!(configuration.crypttab.passphrase_path, "/etc/key");
    assert_eq!(configuration.crypttab.options, "luks");
}

#[test]
fn drive_decodes_recognized_properties() {
    let interfaces = vec![iface(
        "org.freedesktop.UDisks2.Drive",
        vec![
            prop("Vendor", s("ACME")),
            prop("Model", s("Disk 3000")),
            prop("Serial", s("SN1")),
            prop("Size", Value::U64(5000)),
            prop("Ejectable", Value::Bool(true)),
            prop("RotationRate", Value::U64(7200)),
            prop("Media", s("")),
            prop("MediaCompatibility", Value::Array(vec![s("optical_cd")])),
        ],
    )];
    let drive = Drive::parse_from("/org/freedesktop/UDisks2/drives/disk0", &interfaces)
        .expect("drive interface present");
    assert_eq!(drive.path, "/org/freedesktop/UDisks2/drives/disk0");
    assert_eq!(drive.vendor, "ACME");
    assert_eq!(drive.model, "Disk 3000");
    assert_eq!(drive.serial, "SN1");
    assert_eq!(drive.size, 5000);
    assert!(drive.ejectable);
    assert_eq!(drive.rotation_rate, 7200);
    // an empty media string is absent, not present-and-empty
    assert_eq!(drive.media, None);
    assert_eq!(drive.media_compatibility, vec!["optical_cd".to_string()]);
    assert!(Drive::parse_from("/p", &vec![]).is_none());
}

#[test]
fn unknown_keys_do_not_change_other_keys() {
    let plain = vec![iface(
        "org.freedesktop.UDisks2.Block",
        vec![prop("Size", Value::U64(77)), prop("IdType", s("ext4"))],
    )];
    let noisy = vec![
        iface(
            "org.freedesktop.UDisks2.Block",
            vec![
                prop("SomethingNew", s("surprise")),
                prop("Size", Value::U64(77)),
                prop("AnotherUnknown", Value::U64(1)),
                prop("IdType", s("ext4")),
            ],
        ),
        iface("org.freedesktop.UDisks2.NewFacet", vec![prop("X", s("y"))]),
    ];
    let b1 = Block::parse_from("/p", &plain).unwrap();
    let b2 = Block::parse_from("/p", &noisy).unwrap();
    assert_eq!(b1, b2);

    let plain_drive = vec![iface(
        "org.freedesktop.UDisks2.Drive",
        vec![prop("Vendor", s("ACME"))],
    )];
    let noisy_drive = vec![iface(
        "org.freedesktop.UDisks2.Drive",
        vec![prop("Vendor", s("ACME")), prop("FutureKey", s("z"))],
    )];
    assert_eq!(
        Drive::parse_from("/d", &plain_drive),
        Drive::parse_from("/d", &noisy_drive)
    );
}

#[test]
fn decoding_twice_yields_equal_entity_sets() {
    let cache = DiskCache {
        objects: vec![
            ManagedObject {
                path: "/org/freedesktop/UDisks2/drives/disk0".to_string(),
                interfaces: vec![iface(
                    "org.freedesktop.UDisks2.Drive",
                    vec![prop("Vendor", s("ACME"))],
                )],
            },
            ManagedObject {
                path: "/org/freedesktop/UDisks2/block_devices/sda".to_string(),
                interfaces: vec![iface(
                    "org.freedesktop.UDisks2.Block",
                    vec![prop("Size", Value::U64(9))],
                )],
            },
            ManagedObject {
                path: "/org/freedesktop/UDisks2/block_devices/loop0".to_string(),
                interfaces: vec![
                    iface("org.freedesktop.UDisks2.Block", vec![]),
                    iface("org.freedesktop.UDisks2.Loop", vec![]),
                ],
            },
        ],
    };
    assert_eq!(cache.get_blocks(), cache.get_blocks());
    assert_eq!(cache.get_drives(), cache.get_drives());
    // the loop device contributed nothing
    assert_eq!(cache.get_blocks().len(), 1);
    assert_eq!(cache.get_drives().len(), 1);
}

#[test]
fn assembling_twice_yields_equal_views() {
    let cache = DiskCache {
        objects: vec![
            ManagedObject {
                path: "/d0".to_string(),
                interfaces: vec![iface(
                    "org.freedesktop.UDisks2.Drive",
                    vec![prop("Vendor", s("ACME"))],
                )],
            },
            ManagedObject {
                path: "/p0".to_string(),
                interfaces: vec![
                    iface(
                        "org.freedesktop.UDisks2.Block",
                        vec![prop("Drive", s("/d0"))],
                    ),
                    iface("org.freedesktop.UDisks2.PartitionTable", vec![]),
                ],
            },
            ManagedObject {
                path: "/q0".to_string(),
                interfaces: vec![
                    iface(
                        "org.freedesktop.UDisks2.Block",
                        vec![prop("Drive", s("/d0"))],
                    ),
                    iface(
                        "org.freedesktop.UDisks2.Partition",
                        vec![prop("Offset", Value::U64(17))],
                    ),
                ],
            },
        ],
    };
    let once = Disks::new(&cache);
    let twice = Disks::new(&cache);
    assert_eq!(once, twice);
    assert_eq!(once.devices.len(), 1);
    assert_eq!(once.devices[0].drive.vendor, "ACME");
    assert_eq!(once.devices[0].parent.path, "/p0");
    assert_eq!(once.devices[0].partitions.len(), 1);
}

#[test]
fn cache_lookup_finds_by_path() {
    let cache = DiskCache {
        objects: vec![
            ManagedObject {
                path: "/d0".to_string(),
                interfaces: vec![iface(
                    "org.freedesktop.UDisks2.Drive",
                    vec![prop("Vendor", s("ACME"))],
                )],
            },
            ManagedObject {
                path: "/b0".to_string(),
                interfaces: vec![iface(
                    "org.freedesktop.UDisks2.Block",
                    vec![prop("Size", Value::U64(3))],
                )],
            },
        ],
    };
    assert_eq!(cache.get_drive("/d0").map(|d| d.vendor), Some("ACME".to_string()));
    assert!(cache.get_drive("/b0").is_none());
    assert!(cache.get_drive("/nowhere").is_none());
    assert_eq!(cache.get_block("/b0").map(|b| b.size), Some(3));
    assert!(cache.get_block("/d0").is_none());
}
