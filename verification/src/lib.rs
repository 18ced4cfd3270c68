//! A verified core for running Windows programs through Wine inside a
//! bubblewrap sandbox: configuration layering, target resolution, the
//! mounts of a sandbox and the bubblewrap command line.
pub mod text;
pub mod host_path;
pub mod host_snapshot;
pub mod core_data_structures;
pub mod file_system_utilities;
pub mod configuration_management;
pub mod target_resolution_engine;
pub mod sandbox_mount_pipeline;
pub mod process_execution_builder;
