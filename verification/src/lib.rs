pub mod laws;
pub mod numbering;
pub mod options;
pub mod text;
pub mod transform;
