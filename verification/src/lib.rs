//! A small Lisp runtime: a bump-allocated heap of tagged values, a compiler
//! from s-expressions to register bytecode, and the virtual machine that
//! runs it.
//!
//! `memory` holds the arena and its handles, `heap` the heap that is made of
//! arenas, and `taggedptr`, `pair`, `symbol`, `text`, `list`, `dict` and
//! `bytecode` the objects that live in it. `compiler` turns an expression on
//! the heap into bytecode, and `vm` runs bytecode one instruction or one
//! budget at a time. `layout`, `flow` and `depth` hold what is proved of the
//! two together: how the code of a `cond` is shaped, which clause of it
//! runs, that every program ends, and which expressions compile.
pub mod array;
pub mod bytecode;
pub mod compiler;
pub mod depth;
pub mod dict;
pub mod error;
pub mod flow;
pub mod heap;
pub mod layout;
pub mod list;
pub mod memory;
pub mod pair;
pub mod symbol;
pub mod taggedptr;
pub mod text;
pub mod vm;
