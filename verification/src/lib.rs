pub mod bytes;
pub mod err;
pub mod text;
pub mod crc32;
pub mod time;
pub mod guid;
pub mod sid;
pub mod model;
pub mod values;
pub mod name_cache;
pub mod binxml;
pub mod template_cache;
pub mod ansi;
pub mod settings;
pub mod chunk;
pub mod xml_output;
pub mod evtx_structure;
pub mod json_output;
pub mod parser;
