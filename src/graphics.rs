//! Decisions of the graphics driver probe: which context API to try next,
//! which event of the windowing loop to act on, and whether the driver
//! strings that were captured make a result.
use vstd::prelude::*;
use vstd::string::StringExecFns;
use crate::error::InfoError;

verus! {

/// The driver identity and version that a live graphics context reported.
pub struct GraphicsInfo {
    /// Vendor and renderer, separated by one space.
    pub driver_description: String,
    pub driver_version: String,
}

/// The graphics API that a rendering context is requested for.
#[derive(Debug, Clone, Copy, PartialEq, Eq, Structural)]
pub enum GlApi {
    /// The platform's default (desktop) API, compatibility profile.
    Desktop,
    /// The embedded variant, compatibility profile.
    Embedded,
}

/// The API to request after the attempt with `failed` did not give a
/// context (`None`: no attempt yet). The desktop API is tried first and the
/// embedded one once after it; `None` means the probe has failed.
pub fn next_context_api(failed: Option<GlApi>) -> (r: Option<GlApi>)
    ensures
        failed is None ==> r == Some(GlApi::Desktop),
        failed == Some(GlApi::Desktop) ==> r == Some(GlApi::Embedded),
        failed == Some(GlApi::Embedded) ==> r is None,
{
    match failed {
        None => Some(GlApi::Desktop),
        Some(GlApi::Desktop) => Some(GlApi::Embedded),
        Some(GlApi::Embedded) => None,
    }
}

/// What the windowing loop is to do with an event.
#[derive(Debug, Clone, Copy, PartialEq, Eq, Structural)]
pub enum ProbeStep {
    /// Pass over the event and keep waiting.
    Wait,
    /// Stop the loop after this event, and query the driver strings now.
    Capture,
}

/// The text of an optional string.
pub open spec fn opt_text(s: Option<String>) -> Option<Seq<char>> {
    match s {
        Some(t) => Some(t@),
        None => None,
    }
}

/// What a `Probe` holds.
pub struct ProbeView {
    pub driver: Option<Seq<char>>,
    pub version: Option<Seq<char>>,
    pub resumed: bool,
}

/// The state of one run of the graphics probe.
pub struct Probe {
    driver: Option<String>,
    version: Option<String>,
    resumed: bool,
}

impl View for Probe {
    type V = ProbeView;

    closed spec fn view(&self) -> ProbeView {
        ProbeView {
            driver: opt_text(self.driver),
            version: opt_text(self.version),
            resumed: self.resumed,
        }
    }
}

impl Probe {
    /// A probe that has seen no event and captured nothing.
    pub fn new() -> (r: Probe)
        ensures
            r@.driver is None,
            r@.version is None,
            !r@.resumed,
    {
        Probe { driver: None, version: None, resumed: false }
    }

    /// Decides on an event of the windowing loop: only the first "resumed"
    /// event is acted on; every other event is passed over.
    pub fn on_event(&mut self, resumed: bool) -> (r: ProbeStep)
        ensures
            r == (if resumed && !old(self)@.resumed { ProbeStep::Capture } else { ProbeStep::Wait }),
            final(self)@.resumed == (old(self)@.resumed || resumed),
            final(self)@.driver == old(self)@.driver,
            final(self)@.version == old(self)@.version,
    {
        if resumed && !self.resumed {
            self.resumed = true;
            ProbeStep::Capture
        } else {
            ProbeStep::Wait
        }
    }

    /// Keeps the strings that the current context answered (`None` where a
    /// query gave nothing): the driver identity is vendor and renderer
    /// joined by a space, and is set only when both are there.
    pub fn record(&mut self, vendor: Option<&str>, renderer: Option<&str>, version: Option<&str>)
        ensures
            final(self)@.driver == (match (vendor, renderer) {
                (Some(v), Some(r)) => Some(v@ + " "@ + r@),
                _ => old(self)@.driver,
            }),
            final(self)@.version == (match version {
                Some(v) => Some(v@),
                None => old(self)@.version,
            }),
            final(self)@.resumed == old(self)@.resumed,
    {
        match (vendor, renderer) {
            (Some(v), Some(r)) => {
                let mut d = v.to_owned();
                d.append(" ");
                d.append(r);
                self.driver = Some(d);
            },
            _ => {},
        }
        match version {
            Some(v) => {
                self.version = Some(v.to_owned());
            },
            None => {},
        }
    }

    /// The probe's result: the driver identity and version when both were
    /// captured, a failure otherwise.
    pub fn finish(self) -> (r: Result<GraphicsInfo, InfoError>)
        ensures
            r is Ok <==> (self@.driver is Some && self@.version is Some),
            match r {
                Ok(g) => {
                    &&& self@.driver == Some(g.driver_description@)
                    &&& self@.version == Some(g.driver_version@)
                },
                Err(e) => e == InfoError::NoDriverInfo,
            },
    {
        match (self.driver, self.version) {
            (Some(d), Some(v)) => Ok(GraphicsInfo { driver_description: d, driver_version: v }),
            _ => Err(InfoError::NoDriverInfo),
        }
    }
}

} // verus!
