use hostinfo::{next_context_api, GlApi, InfoError, Probe, ProbeStep};

#[test]
fn context_api_fallback_order() {
    assert_eq!(next_context_api(None), Some(GlApi::Desktop));
    assert_eq!(next_context_api(Some(GlApi::Desktop)), Some(GlApi::Embedded));
    assert_eq!(next_context_api(Some(GlApi::Embedded)), None);
}

#[test]
fn probe_acts_on_first_resume_only() {
    let mut p = Probe::new();
    assert_eq!(p.on_event(false), ProbeStep::Wait);
    assert_eq!(p.on_event(true), ProbeStep::Capture);
    assert_eq!(p.on_event(true), ProbeStep::Wait);
    assert_eq!(p.on_event(false), ProbeStep::Wait);
}

#[test]
fn probe_with_both_strings_succeeds() {
    let mut p = Probe::new();
    p.on_event(true);
    p.record(Some("Mesa"), Some("llvmpipe (LLVM 15.0.7, 256 bits)"), Some("4.5 (Compatibility Profile) Mesa 23.2.1"));
    let g = p.finish().unwrap();
    assert_eq!(g.driver_description, "Mesa llvmpipe (LLVM 15.0.7, 256 bits)");
    assert_eq!(g.driver_version, "4.5 (Compatibility Profile) Mesa 23.2.1");
}

#[test]
fn probe_with_one_string_fails() {
    let mut p = Probe::new();
    p.record(Some("Mesa"), Some("llvmpipe"), None);
    assert!(matches!(p.finish(), Err(InfoError::NoDriverInfo)));

    let mut q = Probe::new();
    q.record(Some("Mesa"), None, Some("4.5"));
    assert!(matches!(q.finish(), Err(InfoError::NoDriverInfo)));

    assert!(matches!(Probe::new().finish(), Err(InfoError::NoDriverInfo)));
}
