//! Host diagnostics: parsing of the pseudo-files and kernel identification
//! that describe a Linux machine, the decisions of the graphics driver probe,
//! and the fixed-layout report built from what was collected.
pub mod error;
pub mod graphics;
pub mod host;
pub mod kernel;
pub mod number;
pub mod report;
pub mod text;

pub use error::InfoError;
pub use graphics::{next_context_api, GlApi, GraphicsInfo, Probe, ProbeStep};
pub use host::{read_cpu_model, read_memory_total_mb, read_os_description};
pub use kernel::{architecture_label, Uname};
pub use report::{host_info, report, HostInfo};
pub use text::find_value;
