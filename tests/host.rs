use hostinfo::{find_value, read_cpu_model, read_memory_total_mb, read_os_description, InfoError};

#[test]
fn mem_total_sixteen_gigabytes() {
    let data = "MemTotal:       16384000 kB\nMemFree:         1234567 kB\n";
    assert_eq!(read_memory_total_mb(data), Ok(16000));
}

#[test]
fn mem_total_rounds_down() {
    assert_eq!(read_memory_total_mb("MemTotal: 1023 kB\n"), Ok(0));
    assert_eq!(read_memory_total_mb("MemTotal: 2047 kB"), Ok(1));
    assert_eq!(read_memory_total_mb("MemTotal: 2048 kB"), Ok(2));
}

#[test]
fn mem_total_after_other_lines() {
    let data = "MemFree: 5 kB\nMemTotal: 10240 kB\nMemTotal: 20480 kB\n";
    assert_eq!(read_memory_total_mb(data), Ok(10));
}

#[test]
fn mem_total_other_unit_fails() {
    assert_eq!(read_memory_total_mb("MemTotal: 16000 MB\n"), Err(InfoError::UnsupportedUnit));
    assert_eq!(read_memory_total_mb("MemTotal: 16000 KB\n"), Err(InfoError::UnsupportedUnit));
}

#[test]
fn mem_total_missing() {
    assert_eq!(read_memory_total_mb("MemFree: 1 kB\n"), Err(InfoError::MissingKey));
    assert_eq!(read_memory_total_mb(""), Err(InfoError::MissingKey));
}

#[test]
fn mem_total_malformed() {
    assert_eq!(read_memory_total_mb("MemTotal: 16384000kB\n"), Err(InfoError::Malformed));
    assert_eq!(read_memory_total_mb("MemTotal: 12a4 kB\n"), Err(InfoError::Malformed));
    assert_eq!(read_memory_total_mb("MemTotal: -5 kB\n"), Err(InfoError::Malformed));
    assert_eq!(
        read_memory_total_mb("MemTotal: 18446744073709551616 kB\n"),
        Err(InfoError::Malformed)
    );
}

#[test]
fn mem_total_largest_and_plus_sign() {
    assert_eq!(
        read_memory_total_mb("MemTotal: 18446744073709551615 kB\n"),
        Ok(18446744073709551615 / 1024)
    );
    assert_eq!(read_memory_total_mb("MemTotal: +2048 kB\n"), Ok(2));
}

#[test]
fn cpu_model_first_occurrence() {
    let data = "processor\t: 0\nmodel name\t: Intel(R) Core(TM) i7-8700 CPU @ 3.20GHz  \n\
                processor\t: 1\nmodel name\t: Other CPU\n";
    assert_eq!(
        read_cpu_model(data).unwrap(),
        "Intel(R) Core(TM) i7-8700 CPU @ 3.20GHz"
    );
}

#[test]
fn cpu_model_crlf_and_missing() {
    assert_eq!(read_cpu_model("model name : AMD Ryzen\r\n").unwrap(), "AMD Ryzen");
    assert_eq!(read_cpu_model("vendor_id : x\n"), Err(InfoError::MissingKey));
    assert_eq!(read_cpu_model("model name\n"), Err(InfoError::MissingKey));
}

#[test]
fn os_description_keeps_quotes() {
    let data = "DISTRIB_ID=Ubuntu\nDISTRIB_RELEASE=22.04\nDISTRIB_DESCRIPTION=\"Ubuntu 22.04.3 LTS\"\n";
    assert_eq!(read_os_description(data).unwrap(), "\"Ubuntu 22.04.3 LTS\"");
}

#[test]
fn os_description_missing() {
    assert_eq!(read_os_description("DISTRIB_ID=Ubuntu\n"), Err(InfoError::MissingKey));
}

#[test]
fn find_value_splits_at_first_separator() {
    assert_eq!(find_value("a: b: c\n", "a", ':').unwrap(), "b: c");
    assert_eq!(find_value("  key  =  v w  \nkey=x", "key", '=').unwrap(), "v w");
    assert_eq!(find_value("keyx=1\n", "key", '='), None);
    assert_eq!(find_value("k:\n", "k", ':').unwrap(), "");
}
