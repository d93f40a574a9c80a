//! A strongly-typed in-memory representation of a computational-notebook
//! document, with a verified codec between the typed representation and the
//! structured-text primitives (objects, arrays, strings, integers, booleans,
//! null) it is layered on.
use vstd::prelude::*;

pub mod decode;
pub mod encode;
pub mod laws;
pub mod model;
pub mod value;

pub use value::{JsonModel, JsonValue, Shape};

pub use model::{
    Author, CellParseError, CellType, DecodeError, ErrorModel, FieldId, InterruptMode,
    KernelSpecification, LanguageInfo, Metadata, Notebook, NotebookCell, NotebookMetadata,
};

pub use decode::{
    decode_cell, decode_cell_metadata, decode_cells, decode_kernel_spec, decode_notebook,
    decode_notebook_metadata,
};

pub use encode::{
    encode_cell, encode_cell_metadata, encode_kernel_spec, encode_language_info, encode_notebook,
    encode_notebook_metadata,
};

verus! {

} // verus!
