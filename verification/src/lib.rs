//! A verified implementation of a length-framed, stateful binary network
//! protocol: a typed wire codec (variable-length integers, length-prefixed
//! strings and arrays, packed positions, structured tags), packet framing
//! with optional zlib compression and AES-CFB8 stream encryption, the
//! chunk-section palette/bit-packing codec, and the per-connection protocol
//! state machine.

pub mod arr;
pub mod chunk;
pub mod chunk_section;
pub mod cipher;
pub mod crypto;
pub mod frame;
pub mod heightmap;
pub mod login;
pub mod packet;
pub mod opt;
pub mod pair;
pub mod play;
pub mod position;
pub mod primitive;
pub mod protocol;
pub mod slot;
pub mod slp;
pub mod state;
pub mod string;
pub mod uuid;
pub mod var;
pub mod world;
