//! A typed model of the UDisks2 object graph.
//!
//! The system management bus hands back a dynamically typed property graph:
//! a map from object path to interface name to property name to variant
//! value. This crate decodes that graph into strongly typed entities
//! ([`Drive`], [`Block`] and their facets), assembles the relational
//! [`Disks`] view over them, and interprets S.M.A.R.T. health records.
//! Every decoder is total: a value of an unexpected shape decodes to an
//! absent or default field, never to a panic or an error.

pub mod block;
pub mod cache;
pub mod disks;
pub mod drive;
pub mod graph;
pub mod laws;
pub mod order;
pub mod smart;
pub mod utils;
pub mod value;

pub use block::{
    Block, BlockConfiguration, BlockConfigurationCrypttab, BlockConfigurationFstab, Encrypted,
    Partition, PartitionTable,
};
pub use cache::DiskCache;
pub use disks::{DiskDevice, Disks};
pub use drive::Drive;
pub use graph::{Interface, ManagedObject, Prop};
pub use value::Value;
