//! A WebAssembly binary decoder, validator and interpreter, with their
//! behaviour stated as Verus contracts.
pub mod error;
pub mod decodable;
pub mod isa;
pub mod value_type;
pub mod memory;
pub mod instruction;
pub mod byte;
pub mod indice;
pub mod function;
pub mod global;
pub mod label;
pub mod sec_type;
pub mod module;
pub mod sec_table;
pub mod sec_function;
pub mod sec_global;
pub mod sec_data;
pub mod sec_element;
pub mod sec_code;
pub mod sec_custom;
pub mod section;
pub mod embedder;
pub mod value;
pub mod limit_order;
pub mod context;
pub mod code;
pub mod stack;
pub mod vm_spec;
pub mod vm;
pub mod instance;
pub mod table;
pub mod link;
pub mod spectest;
