pub mod base;
pub mod builder;
pub mod dexbacked;
pub mod iface;
pub mod immutable;
pub mod writer;
pub mod smali;
pub mod rewriter;
