//! Recognition of the running Wayland compositor from names, environment
//! values and process probes.
use vstd::prelude::*;
use crate::error::AppError;
use crate::error::join_text;
use crate::text::lines;
use crate::text::lines_of;
use crate::text::same_text;

verus! {

/// A Wayland compositor the editor knows about.
#[derive(Debug, Clone, Copy, PartialEq, Eq, Structural)]
pub enum Compositor {
    Hyprland,
    Sway,
    River,
    Dwl,
    Niri,
    Unknown,
}

/// What is known of the compositor: its name, its version when one could be
/// read, and the session type.
#[derive(Debug, Clone)]
pub struct CompositorInfo {
    pub name: String,
    pub version: Option<String>,
    pub session_type: String,
}

/// The lowercase name of a compositor.
pub open spec fn compositor_name(c: Compositor) -> Seq<char> {
    match c {
        Compositor::Hyprland => "hyprland"@,
        Compositor::Sway => "sway"@,
        Compositor::River => "river"@,
        Compositor::Dwl => "dwl"@,
        Compositor::Niri => "niri"@,
        Compositor::Unknown => "unknown"@,
    }
}

/// The compositor that a lowercase name stands for.
pub open spec fn compositor_named(lower: Seq<char>) -> Compositor {
    if lower == "hyprland"@ {
        Compositor::Hyprland
    } else if lower == "sway"@ {
        Compositor::Sway
    } else if lower == "river"@ {
        Compositor::River
    } else if lower == "dwl"@ {
        Compositor::Dwl
    } else if lower == "niri"@ {
        Compositor::Niri
    } else {
        Compositor::Unknown
    }
}

/// The lowercase form of `s`, as `str::to_lowercase` gives it.
pub uninterp spec fn lower_of(s: Seq<char>) -> Seq<char>;

/// Relies on `str::to_lowercase`: the result depends on the characters alone.
#[verifier::external_body]
fn lowercase(s: &str) -> (r: String)
    ensures
        r@ == lower_of(s@),
{
    s.to_lowercase()
}

/// The process names probed for, in order, with their compositors.
pub open spec fn probe_order() -> Seq<Compositor> {
    seq![Compositor::Hyprland, Compositor::Sway, Compositor::River, Compositor::Dwl, Compositor::Niri]
}

/// The executable name of a known compositor.
pub open spec fn process_name_of(c: Compositor) -> Option<Seq<char>> {
    match c {
        Compositor::Hyprland => Some("Hyprland"@),
        Compositor::Sway => Some("sway"@),
        Compositor::River => Some("river"@),
        Compositor::Dwl => Some("dwl"@),
        Compositor::Niri => Some("niri"@),
        Compositor::Unknown => None,
    }
}

/// The result of probing `probes` in order: the first compositor found
/// running; `Unknown` when none is or when a probe could not be made first.
pub open spec fn first_running(probes: Seq<Option<bool>>, i: int) -> Compositor
    decreases probes.len() - i,
{
    if i < 0 || i >= probes.len() || i >= probe_order().len() {
        Compositor::Unknown
    } else {
        match probes[i] {
            None => Compositor::Unknown,
            Some(true) => probe_order()[i],
            Some(false) => first_running(probes, i + 1),
        }
    }
}

/// The compositor read from the environment: `Some(Unknown)` outside a Wayland
/// session, the first known name among the two variables, or `None` when the
/// process list must be probed.
pub open spec fn from_environment(
    wayland: bool,
    desktop: Option<Seq<char>>,
    wayland_compositor: Option<Seq<char>>,
) -> Option<Compositor> {
    if !wayland {
        Some(Compositor::Unknown)
    } else if desktop is Some && compositor_named(lower_of(desktop->0)) != Compositor::Unknown {
        Some(compositor_named(lower_of(desktop->0)))
    } else if wayland_compositor is Some && compositor_named(lower_of(wayland_compositor->0))
        != Compositor::Unknown {
        Some(compositor_named(lower_of(wayland_compositor->0)))
    } else {
        None
    }
}

/// The first line of `s` as `str::lines` yields it, if `s` has one.
pub open spec fn first_line(s: Seq<char>) -> Option<Seq<char>> {
    if lines(s).len() == 0 {
        None
    } else {
        Some(lines(s)[0])
    }
}

impl Compositor {
    /// The lowercase name.
    pub fn as_str(&self) -> (r: &'static str)
        ensures
            r@ == compositor_name(*self),
    {
        match self {
            Compositor::Hyprland => "hyprland",
            Compositor::Sway => "sway",
            Compositor::River => "river",
            Compositor::Dwl => "dwl",
            Compositor::Niri => "niri",
            Compositor::Unknown => "unknown",
        }
    }

    /// The lowercase name, as an owned string.
    pub fn to_string(&self) -> (r: String)
        ensures
            r@ == compositor_name(*self),
    {
        String::from_str(self.as_str())
    }

    /// Whether this is one of the named compositors.
    pub fn is_known(&self) -> (r: bool)
        ensures
            r == (*self != Compositor::Unknown),
    {
        !matches!(self, Compositor::Unknown)
    }

    /// The compositor named by `lower`, which is compared as it stands.
    pub fn from_lowercase(lower: &str) -> (r: Compositor)
        ensures
            r == compositor_named(lower@),
    {
        if same_text(lower, "hyprland") {
            Compositor::Hyprland
        } else if same_text(lower, "sway") {
            Compositor::Sway
        } else if same_text(lower, "river") {
            Compositor::River
        } else if same_text(lower, "dwl") {
            Compositor::Dwl
        } else if same_text(lower, "niri") {
            Compositor::Niri
        } else {
            Compositor::Unknown
        }
    }

    /// The compositor named by `s`, in any letter case.
    pub fn from(s: &str) -> (r: Compositor)
        ensures
            r == compositor_named(lower_of(s@)),
    {
        let lower = lowercase(s);
        Compositor::from_lowercase(lower.as_str())
    }

    /// The executable that a known compositor runs as.
    pub fn process_name(&self) -> (r: Option<&'static str>)
        ensures
            r is Some <==> process_name_of(*self) is Some,
            r is Some ==> r->0@ == process_name_of(*self)->0,
    {
        match self {
            Compositor::Hyprland => Some("Hyprland"),
            Compositor::Sway => Some("sway"),
            Compositor::River => Some("river"),
            Compositor::Dwl => Some("dwl"),
            Compositor::Niri => Some("niri"),
            Compositor::Unknown => None,
        }
    }
}

/// The compositors whose processes are probed for, in order.
pub fn probe_candidates() -> (r: Vec<Compositor>)
    ensures
        r@ == probe_order(),
{
    let r = vec![Compositor::Hyprland, Compositor::Sway, Compositor::River, Compositor::Dwl, Compositor::Niri];
    assert(r@ =~= probe_order());
    r
}

/// Picks the compositor from process probes: `probes[i]` tells whether the
/// `i`-th candidate runs, or is `None` when the probe could not be made.
pub fn detect_from_processes(probes: &Vec<Option<bool>>) -> (r: Compositor)
    ensures
        r == first_running(probes@, 0),
{
    let candidates = probe_candidates();
    let mut i: usize = 0;
    while i < probes.len() && i < candidates.len()
        invariant
            candidates@ == probe_order(),
            i <= probes.len(),
            first_running(probes@, i as int) == first_running(probes@, 0),
        decreases probes.len() - i,
    {
        match probes[i] {
            None => {
                return Compositor::Unknown;
            },
            Some(true) => {
                return candidates[i];
            },
            Some(false) => {},
        }
        i = i + 1;
    }
    Compositor::Unknown
}

/// Reads the compositor from the environment (see `from_environment`):
/// `wayland` tells whether a Wayland display is set, `desktop` and
/// `wayland_compositor` are the two variables when set.
pub fn detect_from_environment(
    wayland: bool,
    desktop: Option<&str>,
    wayland_compositor: Option<&str>,
) -> (r: Option<Compositor>)
    ensures
        r == from_environment(
            wayland,
            match desktop { Some(d) => Some(d@), None => None },
            match wayland_compositor { Some(w) => Some(w@), None => None },
        ),
{
    if !wayland {
        return Some(Compositor::Unknown);
    }
    if let Some(d) = desktop {
        let c = Compositor::from(d);
        if c.is_known() {
            return Some(c);
        }
    }
    if let Some(w) = wayland_compositor {
        let c = Compositor::from(w);
        if c.is_known() {
            return Some(c);
        }
    }
    None
}

/// The compositor decided from the environment, else from process probes.
pub fn resolve_compositor(environment: Option<Compositor>, probes: &Vec<Option<bool>>) -> (r: Compositor)
    ensures
        environment is Some ==> r == environment->0,
        environment is None ==> r == first_running(probes@, 0),
{
    match environment {
        Some(c) => c,
        None => detect_from_processes(probes),
    }
}

/// The session type's name.
pub fn session_type(wayland: bool) -> (r: String)
    ensures
        r@ == (if wayland { "wayland"@ } else { "x11"@ }),
{
    if wayland {
        String::from_str("wayland")
    } else {
        String::from_str("x11")
    }
}

/// Describes the compositor `c` with the version read for it, if any.
pub fn compositor_info(c: Compositor, version: Option<String>, wayland: bool) -> (r: CompositorInfo)
    ensures
        r.name@ == compositor_name(c),
        r.version == version,
        r.session_type@ == (if wayland { "wayland"@ } else { "x11"@ }),
{
    CompositorInfo { name: c.to_string(), version, session_type: session_type(wayland) }
}

/// Whether the compositor named `name` (in any letter case) is `current`.
pub fn is_compositor_running(name: &str, current: Compositor) -> (r: bool)
    ensures
        r == (compositor_named(lower_of(name@)) == current),
{
    Compositor::from(name) == current
}

/// The first line of `s` as `str::lines` yields it, if any.
pub fn first_line_of(s: &str) -> (r: Option<String>)
    ensures
        r is Some <==> first_line(s@) is Some,
        r is Some ==> r->0@ == first_line(s@)->0,
{
    let ls = lines_of(s);
    if ls.len() == 0 {
        None
    } else {
        assert(ls@.map_values(|l: String| l@)[0] == ls@[0]@);
        Some(ls[0].clone())
    }
}

/// The version reported by running `command --version`: its first output
/// line, `"unknown"` when there is none, or an error when the run failed.
pub fn version_from_output(command: &str, success: bool, stdout: &str) -> (r: Result<String, AppError>)
    ensures
        success ==> r is Ok,
        success && first_line(stdout@) is Some ==> r->Ok_0@ == first_line(stdout@)->0,
        success && first_line(stdout@) is None ==> r->Ok_0@ == "unknown"@,
        !success ==> r is Err && r->Err_0 is Internal && r->Err_0->Internal_0@ == "Failed to get "@
            + command@ + " version"@,
{
    if success {
        match first_line_of(stdout) {
            Some(l) => Ok(l),
            None => Ok(String::from_str("unknown")),
        }
    } else {
        let head = join_text("Failed to get ", command);
        let m = join_text(head.as_str(), " version");
        Err(AppError::Internal(m))
    }
}

} // verus!
