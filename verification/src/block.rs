//! The Block entity, its facets, and their decoders.
//!
//! A block decodes from the block interface of one managed object, then
//! picks up optional facets (swapspace, partition table, partition,
//! filesystem, encrypted volume, configuration) from the object's other
//! interfaces. Every facet is independent: the absence or malformedness
//! of one never blocks decoding of another, and unrecognized interfaces
//! and property keys are skipped without effect. An object carrying the
//! loop-device facet is excluded from the decoded set entirely.

use vstd::prelude::*;

use crate::graph::{
    find_interface, find_prop, has_interface, spec_find_interface, spec_find_prop,
    spec_has_interface, Interface, Prop,
};
use crate::order::{sort_strings, spec_sort_strings};
use crate::utils::{
    byte_array_or_empty, byte_arrays_or_empty, get_bool, get_u64, get_string,
    spec_byte_array_or_empty, spec_byte_arrays_or_empty, spec_get_bool, spec_get_string,
    spec_get_u64, spec_string_or_empty, spec_strings_or_empty, spec_vva, str_eq,
    string_or_empty, strings_or_empty, vva,
};
use crate::value::{spec_as_str, spec_as_u64, spec_elems, Value};

verus! {

/// The flat string at a nested configuration leaf, or the empty string
/// when any level of the nesting is missing.
pub open spec fn spec_vva_or_empty(v: Value) -> Seq<char> {
    match spec_vva(v) {
        Some(s) => s,
        None => Seq::empty(),
    }
}

/// An unsigned integer read from a raw value and truncated to a signed
/// 32-bit integer; 0 when the value cannot be read as an integer.
pub open spec fn spec_u64_as_i32(v: Value) -> i32 {
    (match spec_as_u64(v) {
        Some(u) => u,
        None => 0u64,
    }) as i32
}

/// Extract a nested configuration leaf string, reverting to the empty
/// string when the nesting is missing.
fn vva_or_empty(v: &Value) -> (r: String)
    ensures
        r@ == spec_vva_or_empty(*v),
{
    match vva(v) {
        Some(s) => s,
        None => String::new(),
    }
}

/// The fstab record of a block's configuration facet. Fields default to
/// the empty string or zero when the corresponding wire key is missing.
#[derive(Debug, PartialEq, Eq)]
pub struct BlockConfigurationFstab {
    pub fsname: String,
    pub dir: String,
    pub type_: String,
    pub opts: String,
    pub freq: i32,
    pub passno: i32,
}

/// The model of an fstab record.
#[verifier::ext_equal]
pub struct FstabModel {
    pub fsname: Seq<char>,
    pub dir: Seq<char>,
    pub type_: Seq<char>,
    pub opts: Seq<char>,
    pub freq: i32,
    pub passno: i32,
}

impl View for BlockConfigurationFstab {
    type V = FstabModel;

    open spec fn view(&self) -> FstabModel {
        FstabModel {
            fsname: self.fsname@,
            dir: self.dir@,
            type_: self.type_@,
            opts: self.opts@,
            freq: self.freq,
            passno: self.passno,
        }
    }
}

/// The fstab record with every field at its type default.
pub open spec fn spec_default_fstab() -> FstabModel {
    FstabModel {
        fsname: Seq::empty(),
        dir: Seq::empty(),
        type_: Seq::empty(),
        opts: Seq::empty(),
        freq: 0,
        passno: 0,
    }
}

impl Default for BlockConfigurationFstab {
    /// The fstab record with every field at its type default.
    fn default() -> (r: BlockConfigurationFstab)
        ensures
            r@ == spec_default_fstab(),
    {
        let r = BlockConfigurationFstab {
            fsname: String::new(),
            dir: String::new(),
            type_: String::new(),
            opts: String::new(),
            freq: 0,
            passno: 0,
        };
        proof {
            assert(r@ =~= spec_default_fstab());
        }
        r
    }
}

/// The crypttab record of a block's configuration facet.
#[derive(Debug, PartialEq, Eq)]
pub struct BlockConfigurationCrypttab {
    pub name: String,
    pub device: String,
    pub passphrase_path: String,
    pub options: String,
}

/// The model of a crypttab record.
#[verifier::ext_equal]
pub struct CrypttabModel {
    pub name: Seq<char>,
    pub device: Seq<char>,
    pub passphrase_path: Seq<char>,
    pub options: Seq<char>,
}

impl View for BlockConfigurationCrypttab {
    type V = CrypttabModel;

    open spec fn view(&self) -> CrypttabModel {
        CrypttabModel {
            name: self.name@,
            device: self.device@,
            passphrase_path: self.passphrase_path@,
            options: self.options@,
        }
    }
}

/// The crypttab record with every field at its type default.
pub open spec fn spec_default_crypttab() -> CrypttabModel {
    CrypttabModel {
        name: Seq::empty(),
        device: Seq::empty(),
        passphrase_path: Seq::empty(),
        options: Seq::empty(),
    }
}

impl Default for BlockConfigurationCrypttab {
    /// The crypttab record with every field at its type default.
    fn default() -> (r: BlockConfigurationCrypttab)
        ensures
            r@ == spec_default_crypttab(),
    {
        let r = BlockConfigurationCrypttab {
            name: String::new(),
            device: String::new(),
            passphrase_path: String::new(),
            options: String::new(),
        };
        proof {
            assert(r@ =~= spec_default_crypttab());
        }
        r
    }
}

/// The configuration facet of a block: its fstab and crypttab records.
#[derive(Debug, PartialEq, Eq)]
pub struct BlockConfiguration {
    pub fstab: BlockConfigurationFstab,
    pub crypttab: BlockConfigurationCrypttab,
}

/// The model of a configuration facet.
#[verifier::ext_equal]
pub struct ConfigurationModel {
    pub fstab: FstabModel,
    pub crypttab: CrypttabModel,
}

impl View for BlockConfiguration {
    type V = ConfigurationModel;

    open spec fn view(&self) -> ConfigurationModel {
        ConfigurationModel { fstab: self.fstab@, crypttab: self.crypttab@ }
    }
}

/// The configuration facet with both records at their defaults.
pub open spec fn spec_default_configuration() -> ConfigurationModel {
    ConfigurationModel { fstab: spec_default_fstab(), crypttab: spec_default_crypttab() }
}

impl Default for BlockConfiguration {
    /// The configuration facet with both records at their defaults.
    fn default() -> (r: BlockConfiguration)
        ensures
            r@ == spec_default_configuration(),
    {
        BlockConfiguration {
            fstab: BlockConfigurationFstab::default(),
            crypttab: BlockConfigurationCrypttab::default(),
        }
    }
}

/// The fstab record updated by one key/value pair of the facet's
/// alternating key-value walk. A pair whose key is no string, or names
/// no known field, changes nothing.
pub open spec fn spec_apply_fstab_pair(f: FstabModel, k: Value, v: Value) -> FstabModel {
    match spec_as_str(k) {
        Some(key) => if key == "fsname"@ {
            FstabModel { fsname: spec_vva_or_empty(v), ..f }
        } else if key == "dir"@ {
            FstabModel { dir: spec_vva_or_empty(v), ..f }
        } else if key == "type"@ {
            FstabModel { type_: spec_vva_or_empty(v), ..f }
        } else if key == "opts"@ {
            FstabModel { opts: spec_vva_or_empty(v), ..f }
        } else if key == "freq"@ {
            FstabModel { freq: spec_u64_as_i32(v), ..f }
        } else if key == "passno"@ {
            FstabModel { passno: spec_u64_as_i32(v), ..f }
        } else {
            f
        },
        None => f,
    }
}

/// The fstab record after the first `k` key/value pairs have been
/// applied in order.
pub open spec fn spec_fold_fstab(f: FstabModel, items: Seq<Value>, k: int) -> FstabModel
    decreases k,
{
    if k <= 0 {
        f
    } else {
        spec_apply_fstab_pair(
            spec_fold_fstab(f, items, k - 1),
            items[2 * (k - 1)],
            items[2 * (k - 1) + 1],
        )
    }
}

/// The crypttab record updated by one key/value pair.
pub open spec fn spec_apply_crypttab_pair(c: CrypttabModel, k: Value, v: Value) -> CrypttabModel {
    match spec_as_str(k) {
        Some(key) => if key == "name"@ {
            CrypttabModel { name: spec_vva_or_empty(v), ..c }
        } else if key == "device"@ {
            CrypttabModel { device: spec_vva_or_empty(v), ..c }
        } else if key == "passphrase-path"@ {
            CrypttabModel { passphrase_path: spec_vva_or_empty(v), ..c }
        } else if key == "options"@ {
            CrypttabModel { options: spec_vva_or_empty(v), ..c }
        } else {
            c
        },
        None => c,
    }
}

/// The crypttab record after the first `k` key/value pairs have been
/// applied in order.
pub open spec fn spec_fold_crypttab(c: CrypttabModel, items: Seq<Value>, k: int) -> CrypttabModel
    decreases k,
{
    if k <= 0 {
        c
    } else {
        spec_apply_crypttab_pair(
            spec_fold_crypttab(c, items, k - 1),
            items[2 * (k - 1)],
            items[2 * (k - 1) + 1],
        )
    }
}

/// The configuration updated by one outer record of the facet's array:
/// unwrap one level to the `(key, items)` pair, then walk the items as
/// alternating key/value pairs into the record the key names. A record
/// of any other shape, or with an unrecognized key, changes nothing.
pub open spec fn spec_apply_config_record(c: ConfigurationModel, record: Value) -> ConfigurationModel {
    match spec_elems(record) {
        Some(outer) => if outer.len() == 0 {
            c
        } else {
            match spec_elems(outer[0]) {
                Some(pair) => if pair.len() < 2 {
                    c
                } else {
                    match spec_elems(pair[1]) {
                        Some(items) => match spec_as_str(pair[0]) {
                            Some(key) => if key == "fstab"@ {
                                ConfigurationModel {
                                    fstab: spec_fold_fstab(
                                        c.fstab,
                                        items,
                                        items.len() as int / 2,
                                    ),
                                    ..c
                                }
                            } else if key == "crypttab"@ {
                                ConfigurationModel {
                                    crypttab: spec_fold_crypttab(
                                        c.crypttab,
                                        items,
                                        items.len() as int / 2,
                                    ),
                                    ..c
                                }
                            } else {
                                c
                            },
                            None => c,
                        },
                        None => c,
                    }
                },
                None => c,
            }
        },
        None => c,
    }
}

/// The configuration after the first `n` outer records have been applied
/// in order.
pub open spec fn spec_fold_config(
    c: ConfigurationModel,
    records: Seq<Value>,
    n: int,
) -> ConfigurationModel
    decreases n,
{
    if n <= 0 {
        c
    } else {
        spec_apply_config_record(spec_fold_config(c, records, n - 1), records[n - 1])
    }
}

/// The configuration facet decoded from the raw property value: the
/// default configuration updated by every record of the value's array;
/// a value that is no array yields the default configuration.
pub open spec fn spec_configuration_of(v: Value) -> ConfigurationModel {
    match spec_elems(v) {
        Some(records) => spec_fold_config(
            spec_default_configuration(),
            records,
            records.len() as int,
        ),
        None => spec_default_configuration(),
    }
}

impl BlockConfigurationFstab {
    /// Apply one key/value pair of the alternating walk to this record.
    fn apply_pair(&mut self, k: &Value, v: &Value)
        ensures
            final(self)@ == spec_apply_fstab_pair(old(self)@, *k, *v),
    {
        match k.as_str() {
            Some(key) => {
                if str_eq(key, "fsname") {
                    self.fsname = vva_or_empty(v);
                } else if str_eq(key, "dir") {
                    self.dir = vva_or_empty(v);
                } else if str_eq(key, "type") {
                    self.type_ = vva_or_empty(v);
                } else if str_eq(key, "opts") {
                    self.opts = vva_or_empty(v);
                } else if str_eq(key, "freq") {
                    self.freq = #[verifier::truncate] (get_u64(v) as i32);
                } else if str_eq(key, "passno") {
                    self.passno = #[verifier::truncate] (get_u64(v) as i32);
                }
            },
            None => {},
        }
    }

    /// Walk the facet items as alternating key/value pairs into this
    /// record; a trailing lone key is ignored.
    fn walk(&mut self, items: &[Value])
        ensures
            final(self)@ == spec_fold_fstab(old(self)@, items@, items@.len() as int / 2),
    {
        let ghost initial = *self;
        let len = items.len();
        let pairs = len / 2;
        let mut k: usize = 0;
        while k < pairs
            invariant
                k <= pairs,
                len == items@.len(),
                pairs == items@.len() as int / 2,
                2 * pairs <= len,
                self@ == spec_fold_fstab(initial@, items@, k as int),
            decreases pairs - k,
        {
            self.apply_pair(&items[2 * k], &items[2 * k + 1]);
            k = k + 1;
        }
    }
}

impl BlockConfigurationCrypttab {
    /// Apply one key/value pair of the alternating walk to this record.
    fn apply_pair(&mut self, k: &Value, v: &Value)
        ensures
            final(self)@ == spec_apply_crypttab_pair(old(self)@, *k, *v),
    {
        match k.as_str() {
            Some(key) => {
                if str_eq(key, "name") {
                    self.name = vva_or_empty(v);
                } else if str_eq(key, "device") {
                    self.device = vva_or_empty(v);
                } else if str_eq(key, "passphrase-path") {
                    self.passphrase_path = vva_or_empty(v);
                } else if str_eq(key, "options") {
                    self.options = vva_or_empty(v);
                }
            },
            None => {},
        }
    }

    /// Walk the facet items as alternating key/value pairs into this
    /// record; a trailing lone key is ignored.
    fn walk(&mut self, items: &[Value])
        ensures
            final(self)@ == spec_fold_crypttab(old(self)@, items@, items@.len() as int / 2),
    {
        let ghost initial = *self;
        let len = items.len();
        let pairs = len / 2;
        let mut k: usize = 0;
        while k < pairs
            invariant
                k <= pairs,
                len == items@.len(),
                pairs == items@.len() as int / 2,
                2 * pairs <= len,
                self@ == spec_fold_crypttab(initial@, items@, k as int),
            decreases pairs - k,
        {
            self.apply_pair(&items[2 * k], &items[2 * k + 1]);
            k = k + 1;
        }
    }
}

impl BlockConfiguration {
    /// Apply one outer record of the facet's array to this
    /// configuration.
    fn apply_record(&mut self, record: &Value)
        ensures
            final(self)@ == spec_apply_config_record(old(self)@, *record),
    {
        let outer = match record.elems() {
            Some(outer) => outer,
            None => {
                return ;
            },
        };
        if outer.len() == 0 {
            return ;
        }
        let pair = match outer[0].elems() {
            Some(pair) => pair,
            None => {
                return ;
            },
        };
        if pair.len() < 2 {
            return ;
        }
        let items = match pair[1].elems() {
            Some(items) => items,
            None => {
                return ;
            },
        };
        let key = match pair[0].as_str() {
            Some(key) => key,
            None => {
                return ;
            },
        };
        if str_eq(key, "fstab") {
            self.fstab.walk(items);
        } else if str_eq(key, "crypttab") {
            self.crypttab.walk(items);
        }
    }

    /// Decode the configuration facet from its raw property value.
    pub fn parse_from(v: &Value) -> (r: BlockConfiguration)
        ensures
            r@ == spec_configuration_of(*v),
    {
        let mut configuration = BlockConfiguration::default();
        match v.elems() {
            Some(records) => {
                let mut i: usize = 0;
                while i < records.len()
                    invariant
                        i <= records.len(),
                        configuration@ == spec_fold_config(
                            spec_default_configuration(),
                            records@,
                            i as int,
                        ),
                    decreases records.len() - i,
                {
                    configuration.apply_record(&records[i]);
                    i = i + 1;
                }
                configuration
            },
            None => configuration,
        }
    }
}

/// The encrypted-volume facet of a block. `cleartext_device` is the
/// empty string while the volume is locked.
#[derive(Debug, PartialEq, Eq)]
pub struct Encrypted {
    pub hint_encryption_type: String,
    pub metadata_size: u64,
    pub cleartext_device: String,
}

/// The model of an encrypted-volume facet.
#[verifier::ext_equal]
pub struct EncryptedModel {
    pub hint_encryption_type: Seq<char>,
    pub metadata_size: u64,
    pub cleartext_device: Seq<char>,
}

impl View for Encrypted {
    type V = EncryptedModel;

    open spec fn view(&self) -> EncryptedModel {
        EncryptedModel {
            hint_encryption_type: self.hint_encryption_type@,
            metadata_size: self.metadata_size,
            cleartext_device: self.cleartext_device@,
        }
    }
}

/// The encrypted-volume facet with every field at its type default.
pub open spec fn spec_default_encrypted() -> EncryptedModel {
    EncryptedModel {
        hint_encryption_type: Seq::empty(),
        metadata_size: 0,
        cleartext_device: Seq::empty(),
    }
}

impl Default for Encrypted {
    /// The encrypted-volume facet with every field at its type default.
    fn default() -> (r: Encrypted)
        ensures
            r@ == spec_default_encrypted(),
    {
        let r = Encrypted {
            hint_encryption_type: String::new(),
            metadata_size: 0,
            cleartext_device: String::new(),
        };
        proof {
            assert(r@ =~= spec_default_encrypted());
        }
        r
    }
}

/// The encrypted-volume facet updated by one named property.
pub open spec fn spec_apply_encrypted_prop(
    e: EncryptedModel,
    name: Seq<char>,
    v: Value,
) -> EncryptedModel {
    if name == "HintEncryptionType"@ {
        EncryptedModel { hint_encryption_type: spec_string_or_empty(v), ..e }
    } else if name == "MetadataSize"@ {
        EncryptedModel { metadata_size: spec_get_u64(v), ..e }
    } else if name == "CleartextDevice"@ {
        EncryptedModel { cleartext_device: spec_string_or_empty(v), ..e }
    } else {
        e
    }
}

/// The encrypted-volume facet after the first `n` properties.
pub open spec fn spec_fold_encrypted_props(
    e: EncryptedModel,
    props: Seq<Prop>,
    n: int,
) -> EncryptedModel
    decreases n,
{
    if n <= 0 {
        e
    } else {
        spec_apply_encrypted_prop(
            spec_fold_encrypted_props(e, props, n - 1),
            props[n - 1].name@,
            props[n - 1].value,
        )
    }
}

impl Encrypted {
    /// Decode the encrypted-volume facet from its interface properties.
    pub fn parse_from(props: &Vec<Prop>) -> (r: Encrypted)
        ensures
            r@ == spec_fold_encrypted_props(spec_default_encrypted(), props@, props@.len() as int),
    {
        let mut encrypted = Encrypted::default();
        let mut i: usize = 0;
        while i < props.len()
            invariant
                i <= props.len(),
                encrypted@ == spec_fold_encrypted_props(
                    spec_default_encrypted(),
                    props@,
                    i as int,
                ),
            decreases props.len() - i,
        {
            let name = props[i].name.as_str();
            let v = &props[i].value;
            if str_eq(name, "HintEncryptionType") {
                encrypted.hint_encryption_type = string_or_empty(v);
            } else if str_eq(name, "MetadataSize") {
                encrypted.metadata_size = get_u64(v);
            } else if str_eq(name, "CleartextDevice") {
                encrypted.cleartext_device = string_or_empty(v);
            }
            i = i + 1;
        }
        encrypted
    }
}

/// The partition facet of a block: one child partition of a table.
#[derive(Debug, PartialEq, Eq)]
pub struct Partition {
    /// The partition type, as a type UUID.
    pub type_: String,
    /// An optional label.
    pub name: String,
    /// The object path of the table this partition belongs to.
    pub table: String,
    pub flags: u64,
    pub number: u32,
    pub offset: u64,
    pub size: u64,
    pub uuid: String,
    pub is_container: bool,
    pub is_contained: bool,
}

/// The model of a partition facet.
#[verifier::ext_equal]
pub struct PartitionModel {
    pub type_: Seq<char>,
    pub name: Seq<char>,
    pub table: Seq<char>,
    pub flags: u64,
    pub number: u32,
    pub offset: u64,
    pub size: u64,
    pub uuid: Seq<char>,
    pub is_container: bool,
    pub is_contained: bool,
}

impl View for Partition {
    type V = PartitionModel;

    open spec fn view(&self) -> PartitionModel {
        PartitionModel {
            type_: self.type_@,
            name: self.name@,
            table: self.table@,
            flags: self.flags,
            number: self.number,
            offset: self.offset,
            size: self.size,
            uuid: self.uuid@,
            is_container: self.is_container,
            is_contained: self.is_contained,
        }
    }
}

/// The partition facet with every field at its type default.
pub open spec fn spec_default_partition() -> PartitionModel {
    PartitionModel {
        type_: Seq::empty(),
        name: Seq::empty(),
        table: Seq::empty(),
        flags: 0,
        number: 0,
        offset: 0,
        size: 0,
        uuid: Seq::empty(),
        is_container: false,
        is_contained: false,
    }
}

impl Default for Partition {
    /// The partition facet with every field at its type default.
    fn default() -> (r: Partition)
        ensures
            r@ == spec_default_partition(),
    {
        let r = Partition {
            type_: String::new(),
            name: String::new(),
            table: String::new(),
            flags: 0,
            number: 0,
            offset: 0,
            size: 0,
            uuid: String::new(),
            is_container: false,
            is_contained: false,
        };
        proof {
            assert(r@ =~= spec_default_partition());
        }
        r
    }
}

/// The partition facet updated by one named property.
pub open spec fn spec_apply_partition_prop(
    p: PartitionModel,
    name: Seq<char>,
    v: Value,
) -> PartitionModel {
    if name == "Type"@ {
        PartitionModel { type_: spec_string_or_empty(v), ..p }
    } else if name == "Name"@ {
        PartitionModel { name: spec_string_or_empty(v), ..p }
    } else if name == "UUID"@ {
        PartitionModel { uuid: spec_string_or_empty(v), ..p }
    } else if name == "Table"@ {
        PartitionModel { table: spec_string_or_empty(v), ..p }
    } else if name == "Flags"@ {
        PartitionModel { flags: spec_get_u64(v), ..p }
    } else if name == "Offset"@ {
        PartitionModel { offset: spec_get_u64(v), ..p }
    } else if name == "Size"@ {
        PartitionModel { size: spec_get_u64(v), ..p }
    } else if name == "Number"@ {
        PartitionModel { number: spec_get_u64(v) as u32, ..p }
    } else if name == "IsContained"@ {
        PartitionModel { is_contained: spec_get_bool(v), ..p }
    } else if name == "IsContainer"@ {
        PartitionModel { is_container: spec_get_bool(v), ..p }
    } else {
        p
    }
}

/// The partition facet after the first `n` properties.
pub open spec fn spec_fold_partition_props(
    p: PartitionModel,
    props: Seq<Prop>,
    n: int,
) -> PartitionModel
    decreases n,
{
    if n <= 0 {
        p
    } else {
        spec_apply_partition_prop(
            spec_fold_partition_props(p, props, n - 1),
            props[n - 1].name@,
            props[n - 1].value,
        )
    }
}

impl Partition {
    /// Apply one named property to this partition; an unrecognized name
    /// changes nothing.
    fn apply_prop(&mut self, name: &str, v: &Value)
        ensures
            final(self)@ == spec_apply_partition_prop(old(self)@, name@, *v),
    {
        if str_eq(name, "Type") {
            self.type_ = string_or_empty(v);
        } else if str_eq(name, "Name") {
            self.name = string_or_empty(v);
        } else if str_eq(name, "UUID") {
            self.uuid = string_or_empty(v);
        } else if str_eq(name, "Table") {
            self.table = string_or_empty(v);
        } else if str_eq(name, "Flags") {
            self.flags = get_u64(v);
        } else if str_eq(name, "Offset") {
            self.offset = get_u64(v);
        } else if str_eq(name, "Size") {
            self.size = get_u64(v);
        } else if str_eq(name, "Number") {
            self.number = #[verifier::truncate] (get_u64(v) as u32);
        } else if str_eq(name, "IsContained") {
            self.is_contained = get_bool(v);
        } else if str_eq(name, "IsContainer") {
            self.is_container = get_bool(v);
        }
    }

    /// Decode the partition facet from its interface properties.
    pub fn parse_from(props: &Vec<Prop>) -> (r: Partition)
        ensures
            r@ == spec_fold_partition_props(spec_default_partition(), props@, props@.len() as int),
    {
        let mut partition = Partition::default();
        let mut i: usize = 0;
        while i < props.len()
            invariant
                i <= props.len(),
                partition@ == spec_fold_partition_props(
                    spec_default_partition(),
                    props@,
                    i as int,
                ),
            decreases props.len() - i,
        {
            partition.apply_prop(props[i].name.as_str(), &props[i].value);
            i = i + 1;
        }
        partition
    }
}

/// The partition-table facet of a block: the table type and the object
/// paths of the child partitions, sorted ascending for determinism.
#[derive(Debug, PartialEq, Eq)]
pub struct PartitionTable {
    pub type_: String,
    /// Child partitions, by their object paths, sorted ascending.
    pub partitions: Vec<String>,
}

/// The model of a partition-table facet.
#[verifier::ext_equal]
pub struct PartitionTableModel {
    pub type_: Seq<char>,
    pub partitions: Seq<Seq<char>>,
}

impl View for PartitionTable {
    type V = PartitionTableModel;

    open spec fn view(&self) -> PartitionTableModel {
        PartitionTableModel { type_: self.type_@, partitions: self.partitions.deep_view() }
    }
}

/// The partition-table facet with every field at its type default.
pub open spec fn spec_default_table() -> PartitionTableModel {
    PartitionTableModel { type_: Seq::empty(), partitions: Seq::empty() }
}

impl Default for PartitionTable {
    /// The partition-table facet with every field at its type default.
    fn default() -> (r: PartitionTable)
        ensures
            r@ == spec_default_table(),
    {
        let r = PartitionTable { type_: String::new(), partitions: Vec::new() };
        proof {
            assert(r@ =~= spec_default_table());
        }
        r
    }
}

/// The partition-table facet updated by one named property: the
/// partition-path list is sorted as it is decoded.
pub open spec fn spec_apply_table_prop(
    t: PartitionTableModel,
    name: Seq<char>,
    v: Value,
) -> PartitionTableModel {
    if name == "Type"@ {
        PartitionTableModel { type_: spec_string_or_empty(v), ..t }
    } else if name == "Partitions"@ {
        PartitionTableModel { partitions: spec_sort_strings(spec_strings_or_empty(v)), ..t }
    } else {
        t
    }
}

/// The partition-table facet after the first `n` properties.
pub open spec fn spec_fold_table_props(
    t: PartitionTableModel,
    props: Seq<Prop>,
    n: int,
) -> PartitionTableModel
    decreases n,
{
    if n <= 0 {
        t
    } else {
        spec_apply_table_prop(
            spec_fold_table_props(t, props, n - 1),
            props[n - 1].name@,
            props[n - 1].value,
        )
    }
}

impl PartitionTable {
    /// Decode the partition-table facet from its interface properties.
    pub fn parse_from(props: &Vec<Prop>) -> (r: PartitionTable)
        ensures
            r@ == spec_fold_table_props(spec_default_table(), props@, props@.len() as int),
    {
        let mut table = PartitionTable::default();
        let mut i: usize = 0;
        while i < props.len()
            invariant
                i <= props.len(),
                table@ == spec_fold_table_props(spec_default_table(), props@, i as int),
            decreases props.len() - i,
        {
            let name = props[i].name.as_str();
            let v = &props[i].value;
            if str_eq(name, "Type") {
                table.type_ = string_or_empty(v);
            } else if str_eq(name, "Partitions") {
                table.partitions = sort_strings(strings_or_empty(v));
            }
            i = i + 1;
        }
        table
    }
}

/// One block device, identified by its object path. Optional facets are
/// present exactly when the object exposes the corresponding interface;
/// `drive` is the owning drive's object path, or the empty string for a
/// block owned by no drive.
#[derive(Debug, PartialEq, Eq)]
pub struct Block {
    pub crypto_backing_device: String,
    pub device_number: u64,
    pub device: String,
    pub drive: String,
    pub encrypted: Option<Encrypted>,
    pub hint_auto: bool,
    pub hint_icon_name: Option<String>,
    pub hint_ignore: bool,
    pub hint_name: Option<String>,
    pub hint_partitionable: bool,
    pub hint_symbolic_icon_name: Option<String>,
    pub hint_system: bool,
    pub id_label: Option<String>,
    pub id_type: Option<String>,
    pub id_usage: Option<String>,
    pub id_uuid: Option<String>,
    pub id_version: Option<String>,
    pub id: String,
    pub loopback: bool,
    pub mdraid: String,
    pub mdraid_member: String,
    pub mount_points: Vec<String>,
    pub partition: Option<Partition>,
    pub path: String,
    pub preferred_device: String,
    pub read_only: bool,
    pub size: u64,
    pub swapspace: Option<bool>,
    pub symlinks: Vec<String>,
    pub table: Option<PartitionTable>,
    pub userspace_mount_options: Vec<String>,
    pub configuration: Option<BlockConfiguration>,
}

/// The mathematical model of a block.
#[verifier::ext_equal]
pub struct BlockModel {
    pub crypto_backing_device: Seq<char>,
    pub device_number: u64,
    pub device: Seq<char>,
    pub drive: Seq<char>,
    pub encrypted: Option<EncryptedModel>,
    pub hint_auto: bool,
    pub hint_icon_name: Option<Seq<char>>,
    pub hint_ignore: bool,
    pub hint_name: Option<Seq<char>>,
    pub hint_partitionable: bool,
    pub hint_symbolic_icon_name: Option<Seq<char>>,
    pub hint_system: bool,
    pub id_label: Option<Seq<char>>,
    pub id_type: Option<Seq<char>>,
    pub id_usage: Option<Seq<char>>,
    pub id_uuid: Option<Seq<char>>,
    pub id_version: Option<Seq<char>>,
    pub id: Seq<char>,
    pub loopback: bool,
    pub mdraid: Seq<char>,
    pub mdraid_member: Seq<char>,
    pub mount_points: Seq<Seq<char>>,
    pub partition: Option<PartitionModel>,
    pub path: Seq<char>,
    pub preferred_device: Seq<char>,
    pub read_only: bool,
    pub size: u64,
    pub swapspace: Option<bool>,
    pub symlinks: Seq<Seq<char>>,
    pub table: Option<PartitionTableModel>,
    pub userspace_mount_options: Seq<Seq<char>>,
    pub configuration: Option<ConfigurationModel>,
}

/// The view of an optional string.
pub open spec fn opt_view(o: Option<String>) -> Option<Seq<char>> {
    match o {
        Some(s) => Some(s@),
        None => None,
    }
}

impl View for Block {
    type V = BlockModel;

    open spec fn view(&self) -> BlockModel {
        BlockModel {
            crypto_backing_device: self.crypto_backing_device@,
            device_number: self.device_number,
            device: self.device@,
            drive: self.drive@,
            encrypted: match self.encrypted {
                Some(e) => Some(e@),
                None => None,
            },
            hint_auto: self.hint_auto,
            hint_icon_name: opt_view(self.hint_icon_name),
            hint_ignore: self.hint_ignore,
            hint_name: opt_view(self.hint_name),
            hint_partitionable: self.hint_partitionable,
            hint_symbolic_icon_name: opt_view(self.hint_symbolic_icon_name),
            hint_system: self.hint_system,
            id_label: opt_view(self.id_label),
            id_type: opt_view(self.id_type),
            id_usage: opt_view(self.id_usage),
            id_uuid: opt_view(self.id_uuid),
            id_version: opt_view(self.id_version),
            id: self.id@,
            loopback: self.loopback,
            mdraid: self.mdraid@,
            mdraid_member: self.mdraid_member@,
            mount_points: self.mount_points.deep_view(),
            partition: match self.partition {
                Some(p) => Some(p@),
                None => None,
            },
            path: self.path@,
            preferred_device: self.preferred_device@,
            read_only: self.read_only,
            size: self.size,
            swapspace: self.swapspace,
            symlinks: self.symlinks.deep_view(),
            table: match self.table {
                Some(t) => Some(t@),
                None => None,
            },
            userspace_mount_options: self.userspace_mount_options.deep_view(),
            configuration: match self.configuration {
                Some(c) => Some(c@),
                None => None,
            },
        }
    }
}

impl DeepView for Block {
    type V = BlockModel;

    open spec fn deep_view(&self) -> BlockModel {
        self.view()
    }
}

/// The default block model: every field at its type default, under the
/// given object path.
pub open spec fn spec_default_block(path: Seq<char>) -> BlockModel {
    BlockModel {
        crypto_backing_device: Seq::empty(),
        device_number: 0,
        device: Seq::empty(),
        drive: Seq::empty(),
        encrypted: None,
        hint_auto: false,
        hint_icon_name: None,
        hint_ignore: false,
        hint_name: None,
        hint_partitionable: false,
        hint_symbolic_icon_name: None,
        hint_system: false,
        id_label: None,
        id_type: None,
        id_usage: None,
        id_uuid: None,
        id_version: None,
        id: Seq::empty(),
        loopback: false,
        mdraid: Seq::empty(),
        mdraid_member: Seq::empty(),
        mount_points: Seq::empty(),
        partition: None,
        path: path,
        preferred_device: Seq::empty(),
        read_only: false,
        size: 0,
        swapspace: None,
        symlinks: Seq::empty(),
        table: None,
        userspace_mount_options: Seq::empty(),
        configuration: None,
    }
}

impl Default for Block {
    /// The block with every field at its type default.
    fn default() -> (b: Block)
        ensures
            b@ == spec_default_block(Seq::<char>::empty()),
    {
        let b = Block {
            crypto_backing_device: String::new(),
            device_number: 0,
            device: String::new(),
            drive: String::new(),
            encrypted: None,
            hint_auto: false,
            hint_icon_name: None,
            hint_ignore: false,
            hint_name: None,
            hint_partitionable: false,
            hint_symbolic_icon_name: None,
            hint_system: false,
            id_label: None,
            id_type: None,
            id_usage: None,
            id_uuid: None,
            id_version: None,
            id: String::new(),
            loopback: false,
            mdraid: String::new(),
            mdraid_member: String::new(),
            mount_points: Vec::new(),
            partition: None,
            path: String::new(),
            preferred_device: String::new(),
            read_only: false,
            size: 0,
            swapspace: None,
            symlinks: Vec::new(),
            table: None,
            userspace_mount_options: Vec::new(),
            configuration: None,
        };
        proof {
            assert(b@ =~= spec_default_block(Seq::<char>::empty()));
        }
        b
    }
}

/// The block updated by one named property of the block interface. A
/// property with an unrecognized name leaves the block untouched.
pub open spec fn spec_apply_block_prop(b: BlockModel, name: Seq<char>, v: Value) -> BlockModel {
    if name == "CryptoBackingDevice"@ {
        BlockModel { crypto_backing_device: spec_string_or_empty(v), ..b }
    } else if name == "Device"@ {
        BlockModel { device: spec_byte_array_or_empty(v), ..b }
    } else if name == "DeviceNumber"@ {
        BlockModel { device_number: spec_get_u64(v), ..b }
    } else if name == "Drive"@ {
        BlockModel { drive: spec_string_or_empty(v), ..b }
    } else if name == "HintAuto"@ {
        BlockModel { hint_auto: spec_get_bool(v), ..b }
    } else if name == "HintIconName"@ {
        BlockModel { hint_icon_name: spec_get_string(v), ..b }
    } else if name == "HintIgnore"@ {
        BlockModel { hint_ignore: spec_get_bool(v), ..b }
    } else if name == "HintName"@ {
        BlockModel { hint_name: spec_get_string(v), ..b }
    } else if name == "HintPartitionable"@ {
        BlockModel { hint_partitionable: spec_get_bool(v), ..b }
    } else if name == "HintSymbolicIconName"@ {
        BlockModel { hint_symbolic_icon_name: spec_get_string(v), ..b }
    } else if name == "HintSystem"@ {
        BlockModel { hint_system: spec_get_bool(v), ..b }
    } else if name == "Id"@ {
        BlockModel { id: spec_string_or_empty(v), ..b }
    } else if name == "IdLabel"@ {
        BlockModel { id_label: spec_get_string(v), ..b }
    } else if name == "IdType"@ {
        BlockModel { id_type: spec_get_string(v), ..b }
    } else if name == "IdUsage"@ {
        BlockModel { id_usage: spec_get_string(v), ..b }
    } else if name == "IdUUID"@ {
        BlockModel { id_uuid: spec_get_string(v), ..b }
    } else if name == "IdVersion"@ {
        BlockModel { id_version: spec_get_string(v), ..b }
    } else if name == "MDRaid"@ {
        BlockModel { mdraid: spec_string_or_empty(v), ..b }
    } else if name == "MDRaidMember"@ {
        BlockModel { mdraid_member: spec_string_or_empty(v), ..b }
    } else if name == "PreferredDevice"@ {
        BlockModel { preferred_device: spec_byte_array_or_empty(v), ..b }
    } else if name == "ReadOnly"@ {
        BlockModel { read_only: spec_get_bool(v), ..b }
    } else if name == "Size"@ {
        BlockModel { size: spec_get_u64(v), ..b }
    } else if name == "Symlinks"@ {
        BlockModel { symlinks: spec_byte_arrays_or_empty(v), ..b }
    } else if name == "UserspaceMountOptions"@ {
        BlockModel { userspace_mount_options: spec_strings_or_empty(v), ..b }
    } else if name == "Configuration"@ {
        BlockModel { configuration: Some(spec_configuration_of(v)), ..b }
    } else {
        b
    }
}

/// The block after the first `n` properties of the block interface.
pub open spec fn spec_fold_block_props(b: BlockModel, props: Seq<Prop>, n: int) -> BlockModel
    decreases n,
{
    if n <= 0 {
        b
    } else {
        spec_apply_block_prop(
            spec_fold_block_props(b, props, n - 1),
            props[n - 1].name@,
            props[n - 1].value,
        )
    }
}

/// The block updated by one interface of the object's second pass: the
/// optional facets. An unrecognized interface name leaves the block
/// untouched, as does the block interface itself, which the first pass
/// already consumed.
pub open spec fn spec_apply_facet(b: BlockModel, iface: Interface) -> BlockModel {
    let name = iface.name@;
    let props = iface.props@;
    if name == "org.freedesktop.UDisks2.Block"@ {
        b
    } else if name == "org.freedesktop.UDisks2.Swapspace"@ {
        BlockModel {
            swapspace: Some(
                match spec_find_prop(props, "Active"@) {
                    Some(v) => spec_get_bool(v),
                    None => false,
                },
            ),
            ..b
        }
    } else if name == "org.freedesktop.UDisks2.PartitionTable"@ {
        BlockModel {
            table: Some(spec_fold_table_props(spec_default_table(), props, props.len() as int)),
            ..b
        }
    } else if name == "org.freedesktop.UDisks2.Partition"@ {
        BlockModel {
            partition: Some(
                spec_fold_partition_props(spec_default_partition(), props, props.len() as int),
            ),
            ..b
        }
    } else if name == "org.freedesktop.UDisks2.Filesystem"@ {
        BlockModel {
            mount_points: match spec_find_prop(props, "MountPoints"@) {
                Some(v) => spec_byte_arrays_or_empty(v),
                None => Seq::empty(),
            },
            ..b
        }
    } else if name == "org.freedesktop.UDisks2.Encrypted"@ {
        BlockModel {
            encrypted: Some(
                spec_fold_encrypted_props(spec_default_encrypted(), props, props.len() as int),
            ),
            ..b
        }
    } else {
        b
    }
}

/// The block after the first `n` interfaces of the second pass.
pub open spec fn spec_fold_facets(b: BlockModel, interfaces: Seq<Interface>, n: int) -> BlockModel
    decreases n,
{
    if n <= 0 {
        b
    } else {
        spec_apply_facet(spec_fold_facets(b, interfaces, n - 1), interfaces[n - 1])
    }
}

/// The block decoded from one managed object: absent when the object
/// carries the loop-device facet, whatever else it carries, and when it
/// exposes no block interface; otherwise the default block under the
/// object's path, updated by the block interface's properties and then
/// by every facet interface in order.
pub open spec fn spec_parse_block(path: Seq<char>, interfaces: Seq<Interface>) -> Option<
    BlockModel,
> {
    if spec_has_interface(interfaces, "org.freedesktop.UDisks2.Loop"@) {
        None
    } else {
        match spec_find_interface(interfaces, "org.freedesktop.UDisks2.Block"@) {
            Some(props) => Some(
                spec_fold_facets(
                    spec_fold_block_props(
                        spec_default_block(path),
                        props,
                        props.len() as int,
                    ),
                    interfaces,
                    interfaces.len() as int,
                ),
            ),
            None => None,
        }
    }
}

/// The first block whose crypto backing device is the given path.
pub open spec fn spec_find_backed(blocks: Seq<Block>, path: Seq<char>) -> Option<Block>
    decreases blocks.len(),
{
    if blocks.len() == 0 {
        None
    } else if blocks[0].crypto_backing_device@ == path {
        Some(blocks[0])
    } else {
        spec_find_backed(blocks.drop_first(), path)
    }
}

impl Block {
    /// Apply one named property of the block interface to this block; an
    /// unrecognized name changes nothing.
    #[verifier::rlimit(50)]
    fn apply_prop(&mut self, name: &str, v: &Value)
        ensures
            final(self)@ == spec_apply_block_prop(old(self)@, name@, *v),
    {
        if str_eq(name, "CryptoBackingDevice") {
            self.crypto_backing_device = string_or_empty(v);
        } else if str_eq(name, "Device") {
            self.device = byte_array_or_empty(v);
        } else if str_eq(name, "DeviceNumber") {
            self.device_number = get_u64(v);
        } else if str_eq(name, "Drive") {
            self.drive = string_or_empty(v);
        } else if str_eq(name, "HintAuto") {
            self.hint_auto = get_bool(v);
        } else if str_eq(name, "HintIconName") {
            self.hint_icon_name = get_string(v);
        } else if str_eq(name, "HintIgnore") {
            self.hint_ignore = get_bool(v);
        } else if str_eq(name, "HintName") {
            self.hint_name = get_string(v);
        } else if str_eq(name, "HintPartitionable") {
            self.hint_partitionable = get_bool(v);
        } else if str_eq(name, "HintSymbolicIconName") {
            self.hint_symbolic_icon_name = get_string(v);
        } else if str_eq(name, "HintSystem") {
            self.hint_system = get_bool(v);
        } else if str_eq(name, "Id") {
            self.id = string_or_empty(v);
        } else if str_eq(name, "IdLabel") {
            self.id_label = get_string(v);
        } else if str_eq(name, "IdType") {
            self.id_type = get_string(v);
        } else if str_eq(name, "IdUsage") {
            self.id_usage = get_string(v);
        } else if str_eq(name, "IdUUID") {
            self.id_uuid = get_string(v);
        } else if str_eq(name, "IdVersion") {
            self.id_version = get_string(v);
        } else if str_eq(name, "MDRaid") {
            self.mdraid = string_or_empty(v);
        } else if str_eq(name, "MDRaidMember") {
            self.mdraid_member = string_or_empty(v);
        } else if str_eq(name, "PreferredDevice") {
            self.preferred_device = byte_array_or_empty(v);
        } else if str_eq(name, "ReadOnly") {
            self.read_only = get_bool(v);
        } else if str_eq(name, "Size") {
            self.size = get_u64(v);
        } else if str_eq(name, "Symlinks") {
            self.symlinks = byte_arrays_or_empty(v);
        } else if str_eq(name, "UserspaceMountOptions") {
            self.userspace_mount_options = strings_or_empty(v);
        } else if str_eq(name, "Configuration") {
            self.configuration = Some(BlockConfiguration::parse_from(v));
        }
    }

    /// Apply one interface of the second pass to this block, picking up
    /// the facet it carries, if any.
    fn apply_facet(&mut self, iface: &Interface)
        ensures
            final(self)@ == spec_apply_facet(old(self)@, *iface),
    {
        let name = iface.name.as_str();
        if str_eq(name, "org.freedesktop.UDisks2.Block") {
            // consumed by the first pass
        } else if str_eq(name, "org.freedesktop.UDisks2.Swapspace") {
            let active = match find_prop(&iface.props, "Active") {
                Some(v) => get_bool(v),
                None => false,
            };
            self.swapspace = Some(active);
        } else if str_eq(name, "org.freedesktop.UDisks2.PartitionTable") {
            self.table = Some(PartitionTable::parse_from(&iface.props));
        } else if str_eq(name, "org.freedesktop.UDisks2.Partition") {
            self.partition = Some(Partition::parse_from(&iface.props));
        } else if str_eq(name, "org.freedesktop.UDisks2.Filesystem") {
            self.mount_points = match find_prop(&iface.props, "MountPoints") {
                Some(v) => byte_arrays_or_empty(v),
                None => Vec::new(),
            };
            assert(self.mount_points.deep_view() =~= spec_apply_facet(
                old(self)@,
                *iface,
            ).mount_points);
        } else if str_eq(name, "org.freedesktop.UDisks2.Encrypted") {
            self.encrypted = Some(Encrypted::parse_from(&iface.props));
        }
    }

    /// Decode the block exposed by one managed object: `None` for an
    /// object carrying the loop-device facet or exposing no block
    /// interface.
    pub fn parse_from(path: &str, interfaces: &Vec<Interface>) -> (r: Option<Block>)
        ensures
            r matches Some(b) ==> spec_parse_block(path@, interfaces@) == Some(b@),
            r is None ==> spec_parse_block(path@, interfaces@) is None,
    {
        if has_interface(interfaces, "org.freedesktop.UDisks2.Loop") {
            return None;
        }
        let props = match find_interface(interfaces, "org.freedesktop.UDisks2.Block") {
            Some(props) => props,
            None => {
                return None;
            },
        };
        let mut block = Block::default();
        block.path = path.to_owned();
        let ghost with_path = block@;
        let mut i: usize = 0;
        while i < props.len()
            invariant
                i <= props.len(),
                block@ == spec_fold_block_props(with_path, props@, i as int),
            decreases props.len() - i,
        {
            block.apply_prop(props[i].name.as_str(), &props[i].value);
            i = i + 1;
        }
        let ghost after_props = block@;
        let mut j: usize = 0;
        while j < interfaces.len()
            invariant
                j <= interfaces.len(),
                block@ == spec_fold_facets(after_props, interfaces@, j as int),
            decreases interfaces.len() - j,
        {
            block.apply_facet(&interfaces[j]);
            j = j + 1;
        }
        proof {
            assert(with_path =~= spec_default_block(path@));
        }
        Some(block)
    }

    /// True exactly when this block contains an encrypted volume.
    pub fn is_encrypted(&self) -> (r: bool)
        ensures
            r == (self.encrypted is Some),
    {
        self.encrypted.is_some()
    }

    /// If this block contains an encrypted volume, find the first block
    /// in `within` that names this block as its crypto backing device:
    /// its cleartext counterpart.
    pub fn get_encrypted_block<'a>(&self, within: &'a [Block]) -> (r: Option<&'a Block>)
        ensures
            self.encrypted is None ==> r is None,
            self.encrypted is Some ==> match r {
                Some(b) => spec_find_backed(within@, self.path@) == Some(*b),
                None => spec_find_backed(within@, self.path@) is None,
            },
    {
        if self.encrypted.is_some() {
            let mut i: usize = 0;
            assert(within@.skip(0) =~= within@);
            while i < within.len()
                invariant
                    self.encrypted is Some,
                    i <= within@.len(),
                    spec_find_backed(within@, self.path@) == spec_find_backed(
                        within@.skip(i as int),
                        self.path@,
                    ),
                decreases within@.len() - i,
            {
                if str_eq(within[i].crypto_backing_device.as_str(), self.path.as_str()) {
                    return Some(&within[i]);
                }
                i = i + 1;
                assert(within@.skip(i - 1).drop_first() =~= within@.skip(i as int));
            }
            None
        } else {
            None
        }
    }
}

impl Clone for BlockConfigurationFstab {
    /// A clone carries the same field values.
    fn clone(&self) -> (r: BlockConfigurationFstab)
        ensures
            r == *self,
    {
        BlockConfigurationFstab {
            fsname: self.fsname.clone(),
            dir: self.dir.clone(),
            type_: self.type_.clone(),
            opts: self.opts.clone(),
            freq: self.freq,
            passno: self.passno,
        }
    }
}

impl Clone for BlockConfigurationCrypttab {
    /// A clone carries the same field values.
    fn clone(&self) -> (r: BlockConfigurationCrypttab)
        ensures
            r == *self,
    {
        BlockConfigurationCrypttab {
            name: self.name.clone(),
            device: self.device.clone(),
            passphrase_path: self.passphrase_path.clone(),
            options: self.options.clone(),
        }
    }
}

impl Clone for BlockConfiguration {
    /// A clone carries the same field values.
    fn clone(&self) -> (r: BlockConfiguration)
        ensures
            r == *self,
    {
        BlockConfiguration { fstab: self.fstab.clone(), crypttab: self.crypttab.clone() }
    }
}

impl Clone for Encrypted {
    /// A clone carries the same field values.
    fn clone(&self) -> (r: Encrypted)
        ensures
            r == *self,
    {
        Encrypted {
            hint_encryption_type: self.hint_encryption_type.clone(),
            metadata_size: self.metadata_size,
            cleartext_device: self.cleartext_device.clone(),
        }
    }
}

impl Clone for Partition {
    /// A clone carries the same field values.
    fn clone(&self) -> (r: Partition)
        ensures
            r == *self,
    {
        Partition {
            type_: self.type_.clone(),
            name: self.name.clone(),
            table: self.table.clone(),
            flags: self.flags,
            number: self.number,
            offset: self.offset,
            size: self.size,
            uuid: self.uuid.clone(),
            is_container: self.is_container,
            is_contained: self.is_contained,
        }
    }
}

/// Clone a list of strings; the clone carries the same strings.
fn clone_string_vec(v: &Vec<String>) -> (r: Vec<String>)
    ensures
        r@ == v@,
{
    let r = v.clone();
    proof {
        assert forall|i: int| 0 <= i < v@.len() implies v@[i] == r@[i] by {
            assert(vstd::pervasive::cloned::<String>(v[i], r[i]));
        }
        assert(v@ =~= r@);
    }
    r
}

impl Clone for PartitionTable {
    /// A clone models the same table.
    fn clone(&self) -> (r: PartitionTable)
        ensures
            r@ == self@,
    {
        let r = PartitionTable {
            type_: self.type_.clone(),
            partitions: clone_string_vec(&self.partitions),
        };
        proof {
            assert(r@ =~= self@);
        }
        r
    }
}

impl Clone for Block {
    /// A clone models the same block.
    fn clone(&self) -> (r: Block)
        ensures
            r@ == self@,
    {
        let r = Block {
            crypto_backing_device: self.crypto_backing_device.clone(),
            device_number: self.device_number,
            device: self.device.clone(),
            drive: self.drive.clone(),
            encrypted: match &self.encrypted {
                Some(e) => Some(e.clone()),
                None => None,
            },
            hint_auto: self.hint_auto,
            hint_icon_name: clone_opt_string(&self.hint_icon_name),
            hint_ignore: self.hint_ignore,
            hint_name: clone_opt_string(&self.hint_name),
            hint_partitionable: self.hint_partitionable,
            hint_symbolic_icon_name: clone_opt_string(&self.hint_symbolic_icon_name),
            hint_system: self.hint_system,
            id_label: clone_opt_string(&self.id_label),
            id_type: clone_opt_string(&self.id_type),
            id_usage: clone_opt_string(&self.id_usage),
            id_uuid: clone_opt_string(&self.id_uuid),
            id_version: clone_opt_string(&self.id_version),
            id: self.id.clone(),
            loopback: self.loopback,
            mdraid: self.mdraid.clone(),
            mdraid_member: self.mdraid_member.clone(),
            mount_points: clone_string_vec(&self.mount_points),
            partition: match &self.partition {
                Some(p) => Some(p.clone()),
                None => None,
            },
            path: self.path.clone(),
            preferred_device: self.preferred_device.clone(),
            read_only: self.read_only,
            size: self.size,
            swapspace: self.swapspace,
            symlinks: clone_string_vec(&self.symlinks),
            table: match &self.table {
                Some(t) => Some(t.clone()),
                None => None,
            },
            userspace_mount_options: clone_string_vec(&self.userspace_mount_options),
            configuration: match &self.configuration {
                Some(c) => Some(c.clone()),
                None => None,
            },
        };
        proof {
            assert(r@ =~= self@);
        }
        r
    }
}

/// Clone an optional string; the clone carries the same string.
fn clone_opt_string(o: &Option<String>) -> (r: Option<String>)
    ensures
        r == *o,
{
    match o {
        Some(s) => Some(s.clone()),
        None => None,
    }
}

} // verus!
