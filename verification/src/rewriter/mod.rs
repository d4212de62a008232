pub mod dex_rewriter;
pub mod rewriter_module;
