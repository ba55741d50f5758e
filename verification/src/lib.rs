//! Tools for taking a console game's ROM image apart: address arithmetic,
//! colour and texture formats, the asset decompressor, the processor's
//! instruction words, and a decompiler that turns the game's scripting
//! bytecode back into structured source text.

pub mod area;
pub mod arg;
pub mod asset;
pub mod assoc;
pub mod ast;
pub mod brackets;
pub mod bytecode;
pub mod capture;
pub mod color;
pub mod datatype;
pub mod infer;
pub mod listing;
pub mod listing_laws;
pub mod loc;
pub mod mips;
pub mod mips_laws;
pub mod opcode;
pub mod priomap;
pub mod rom;
pub mod scope;
pub mod script;
pub mod shape;
pub mod symbol;
pub mod text;
pub mod texture;
pub mod types;
pub mod unparse;
pub mod yay0;
