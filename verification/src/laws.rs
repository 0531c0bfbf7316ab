//! Laws of the library, proved from the models its functions are specified
//! by.

pub mod assembly;
pub mod parsing;
pub mod stepping;
