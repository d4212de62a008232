pub mod checksum;
pub mod dex_pool;
pub mod dex_writer;
pub mod index_set;
pub mod memory_data_store;
pub mod pools;
pub mod round_trip;

pub use dex_writer::DexWriter;
pub use memory_data_store::{DataStore, MemoryDataStore};
pub use pools::{ClassEntry, ClassPool, FieldEntry, FieldKey, MethodEntry, MethodImplEntry, MethodKey, ProtoKey};
