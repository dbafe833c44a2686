//! Publishing a disk image as a machine image across cloud regions: the rules
//! that decide where the image goes, how it is registered, and what is reported.

pub mod discovery;
pub mod metadata;
pub mod pipeline;
pub mod publish;
pub mod region;
pub mod report;
pub mod selector;
pub mod size;
pub mod text;
