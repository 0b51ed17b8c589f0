//! The collected host facts and the fixed-layout report built from them.
use vstd::prelude::*;
use vstd::string::StringExecFns;
use crate::error::InfoError;
use crate::graphics::GraphicsInfo;
use crate::host::{cpu_model_of, mem_total_of, os_description_of, read_cpu_model,
    read_memory_total_mb, read_os_description};
use crate::kernel::{arch_label, architecture_label, field_text, Uname};
use crate::number::{decimal, push_decimal};

verus! {

/// The host facts of one run.
pub struct HostInfo {
    pub cpu_model: String,
    pub ram_total_mb: u64,
    pub os_description: String,
    pub kernel_name: String,
    pub kernel_release: String,
    pub architecture_label: String,
}

/// The first failure among the host lookups, taken in the order CPU model,
/// kernel identification, OS description, memory total; `None` when all
/// succeed.
pub open spec fn first_failure(
    cpuinfo: Seq<char>,
    meminfo: Seq<char>,
    lsb_release: Seq<char>,
    sys_name: Seq<u8>,
    release: Seq<u8>,
    machine: Seq<u8>,
) -> Option<InfoError> {
    if cpu_model_of(cpuinfo) is None {
        Some(InfoError::MissingKey)
    } else if field_text(sys_name) is None || field_text(release) is None || field_text(
        machine,
    ) is None {
        Some(InfoError::Encoding)
    } else if os_description_of(lsb_release) is None {
        Some(InfoError::MissingKey)
    } else {
        match mem_total_of(meminfo) {
            Ok(_) => None,
            Err(e) => Some(e),
        }
    }
}

/// Gathers the host facts from the texts of `/proc/cpuinfo`,
/// `/proc/meminfo` and `/etc/lsb-release` and from the kernel's
/// NUL-terminated identification buffers. Any lookup that fails makes the
/// whole gathering fail, with the first failure.
pub fn host_info(
    cpuinfo: &str,
    meminfo: &str,
    lsb_release: &str,
    sys_name: &[u8],
    release: &[u8],
    machine: &[u8],
) -> (r: Result<HostInfo, InfoError>)
    ensures
        match first_failure(cpuinfo@, meminfo@, lsb_release@, sys_name@, release@, machine@) {
            Some(e) => r == Err::<HostInfo, InfoError>(e),
            None => r is Ok,
        },
        match r {
            Ok(h) => {
                &&& cpu_model_of(cpuinfo@) == Some(h.cpu_model@)
                &&& mem_total_of(meminfo@) == Ok::<u64, InfoError>(h.ram_total_mb)
                &&& os_description_of(lsb_release@) == Some(h.os_description@)
                &&& field_text(sys_name@) == Some(h.kernel_name@)
                &&& field_text(release@) == Some(h.kernel_release@)
                &&& field_text(machine@) matches Some(m) && h.architecture_label@ == arch_label(m)
            },
            Err(_) => true,
        },
{
    let cpu_model = read_cpu_model(cpuinfo)?;
    let uname = Uname::from_raw(sys_name, release, machine)?;
    let os_description = read_os_description(lsb_release)?;
    let ram_total_mb = read_memory_total_mb(meminfo)?;
    Ok(HostInfo {
        cpu_model,
        ram_total_mb,
        os_description,
        kernel_name: uname.sys_name().to_owned(),
        kernel_release: uname.release().to_owned(),
        architecture_label: architecture_label(uname.machine()),
    })
}

/// The report text for `h` and `g`.
pub open spec fn report_text(h: HostInfo, g: GraphicsInfo) -> Seq<char> {
    "System Info:\n\n\nProcessor Information:\n    CPU Brand:  "@ + h.cpu_model@
        + "\n\nOperating System Version:\n    "@ + h.os_description@ + " ("@
        + h.architecture_label@ + ")\n    Kernel Name:  "@ + h.kernel_name@
        + "\n    Kernel Version:  "@ + h.kernel_release@ + "\n\nVideo Card:\n    Driver:  "@
        + g.driver_description@ + "\n    Driver Version:  "@ + g.driver_version@
        + "\n\n\n\nMemory:\n    RAM:  "@ + decimal(h.ram_total_mb as nat) + " MB\n"@
}

/// The report: one fixed block of labelled lines, ending with a newline.
pub fn report(h: &HostInfo, g: &GraphicsInfo) -> (r: String)
    ensures
        r@ == report_text(*h, *g),
{
    let mut s = "System Info:\n\n\nProcessor Information:\n    CPU Brand:  ".to_owned();
    s.append(h.cpu_model.as_str());
    s.append("\n\nOperating System Version:\n    ");
    s.append(h.os_description.as_str());
    s.append(" (");
    s.append(h.architecture_label.as_str());
    s.append(")\n    Kernel Name:  ");
    s.append(h.kernel_name.as_str());
    s.append("\n    Kernel Version:  ");
    s.append(h.kernel_release.as_str());
    s.append("\n\nVideo Card:\n    Driver:  ");
    s.append(g.driver_description.as_str());
    s.append("\n    Driver Version:  ");
    s.append(g.driver_version.as_str());
    s.append("\n\n\n\nMemory:\n    RAM:  ");
    push_decimal(&mut s, h.ram_total_mb);
    s.append(" MB\n");
    s
}

} // verus!
