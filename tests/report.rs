use hostinfo::{host_info, report, GraphicsInfo, InfoError};

const CPUINFO: &str = "processor\t: 0\nmodel name\t: AMD Ryzen 7 5800X 8-Core Processor\n";
const MEMINFO: &str = "MemTotal:       32768000 kB\nMemFree:        1000 kB\n";
const LSB: &str = "DISTRIB_ID=Ubuntu\nDISTRIB_DESCRIPTION=\"Ubuntu 22.04.3 LTS\"\n";

#[test]
fn host_info_collects_every_field() {
    let h = host_info(CPUINFO, MEMINFO, LSB, b"Linux\0", b"6.5.0\0", b"x86_64\0").unwrap();
    assert_eq!(h.cpu_model, "AMD Ryzen 7 5800X 8-Core Processor");
    assert_eq!(h.ram_total_mb, 32000);
    assert_eq!(h.os_description, "\"Ubuntu 22.04.3 LTS\"");
    assert_eq!(h.kernel_name, "Linux");
    assert_eq!(h.kernel_release, "6.5.0");
    assert_eq!(h.architecture_label, "64 bit");
}

#[test]
fn host_info_fails_when_any_lookup_fails() {
    let k = (&b"Linux\0"[..], &b"6.5.0\0"[..], &b"aarch64\0"[..]);
    assert!(matches!(host_info("", MEMINFO, LSB, k.0, k.1, k.2), Err(InfoError::MissingKey)));
    assert!(matches!(
        host_info(CPUINFO, "MemTotal: 1 MB", LSB, k.0, k.1, k.2),
        Err(InfoError::UnsupportedUnit)
    ));
    assert!(matches!(host_info(CPUINFO, MEMINFO, "", k.0, k.1, k.2), Err(InfoError::MissingKey)));
    assert!(matches!(
        host_info(CPUINFO, MEMINFO, LSB, k.0, &[0xc3, 0x28], k.2),
        Err(InfoError::Encoding)
    ));
}

#[test]
fn host_info_reports_first_failure() {
    assert!(matches!(
        host_info("", "MemTotal: 1 MB", "", b"\xff", b"", b""),
        Err(InfoError::MissingKey)
    ));
    assert!(matches!(
        host_info(CPUINFO, "MemTotal: 1 MB", "", b"\xff", b"", b""),
        Err(InfoError::Encoding)
    ));
}

#[test]
fn report_layout() {
    let h = host_info(CPUINFO, MEMINFO, LSB, b"Linux\0", b"6.5.0\0", b"aarch64\0").unwrap();
    let g = GraphicsInfo {
        driver_description: "Mesa llvmpipe".to_string(),
        driver_version: "4.5 Mesa 23.2.1".to_string(),
    };
    let expected = "System Info:\n\n\nProcessor Information:\n    CPU Brand:  AMD Ryzen 7 5800X 8-Core Processor\n\n\
Operating System Version:\n    \"Ubuntu 22.04.3 LTS\" (aarch64)\n    Kernel Name:  Linux\n    Kernel Version:  6.5.0\n\n\
Video Card:\n    Driver:  Mesa llvmpipe\n    Driver Version:  4.5 Mesa 23.2.1\n\n\n\n\
Memory:\n    RAM:  32000 MB\n";
    assert_eq!(report(&h, &g), expected);
}
