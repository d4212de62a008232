pub mod builder_instruction;
pub mod mutable_method_impl;

pub use mutable_method_impl::MutableMethodImplementation;

pub use builder_instruction::{
    make_const_string, make_goto, make_invoke_static, make_move_result, make_nop,
    make_return_void, BuilderInstruction, BuilderInstruction10t, BuilderInstruction10x,
    BuilderInstruction11n, BuilderInstruction11x, BuilderInstruction12x, BuilderInstruction20t,
    BuilderInstruction21c, BuilderInstruction21s, BuilderInstruction21t, BuilderInstruction22b,
    BuilderInstruction22c, BuilderInstruction22s, BuilderInstruction22t, BuilderInstruction23x,
    BuilderInstruction30t, BuilderInstruction31c, BuilderInstruction31i, BuilderInstruction31t,
    BuilderInstruction35c, BuilderInstruction3rc, BuilderInstruction51l,
};
