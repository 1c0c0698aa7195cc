//! The Linux side: what the platform answers for a capture configuration, its
//! audio devices, its GPU, its processes and its recorder.

pub mod binary;
pub mod devices;
pub mod engine;
pub mod gsr;
pub mod machine_laws;
pub mod obs;
pub mod scan;
pub mod video;
