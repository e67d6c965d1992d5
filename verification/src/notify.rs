use vstd::prelude::*;
use vstd::string::StrSliceExecFns;

verus! {

/// The kind of one system-wide signal of the broadcast.
#[derive(Clone, Copy, Debug, PartialEq, Eq, Structural)]
pub enum SignalKind {
    /// The generic "settings changed" signal, parameterized with the
    /// well-known settings area identifier.
    SettingsChanged,
    /// The "visual theme changed" signal; it carries no payload.
    ThemeChanged,
}

/// One dispatch of the broadcast: which signal to send, the wide-string
/// payload handed to every top-level surface, and the bound in milliseconds
/// on the wait per notified surface. A slow or hung listener costs the
/// sender at most that bound; there is no acknowledgement channel.
pub struct Signal {
    /// Which signal this dispatch sends.
    pub kind: SignalKind,
    /// The NUL-terminated wide form of the settings area identifier for the
    /// generic signal; empty for the theme signal.
    pub payload: Vec<u16>,
    /// The bound on the wait per notified surface, in milliseconds.
    pub timeout_ms: u32,
}

/// The wide (UTF-16 code unit) form of an ASCII identifier, with a
/// terminating NUL.
pub open spec fn wide_of(s: Seq<char>) -> Seq<u16> {
    s.map_values(|c: char| c as u16).push(0)
}

/// Builds the NUL-terminated wide form of the settings area identifier that
/// the generic signal carries.
pub fn area_identifier_wide() -> (w: Vec<u16>)
    ensures
        w@ == wide_of("ImmersiveColorSet"@),
{
    let s = "ImmersiveColorSet";
    let n = s.unicode_len();
    let mut w: Vec<u16> = Vec::new();
    for i in 0..n
        invariant
            n == s@.len(),
            w@.len() == i,
            forall|j: int| 0 <= j < i ==> w@[j] == s@[j] as u16,
    {
        let c = s.get_char(i);
        w.push(c as u16);
    }
    w.push(0);
    proof {
        assert(w@ =~= wide_of(s@));
    }
    w
}

/// Plans one shell broadcast: first the generic settings-changed signal,
/// parameterized with the fixed area identifier, then the theme-changed
/// signal with no payload — in that order, so a listener that needs both
/// cues never observes the theme change before the settings change. Each
/// dispatch waits at most 100 ms per notified surface.
pub fn broadcast_plan() -> (plan: Vec<Signal>)
    ensures
        plan@.len() == 2,
        plan@[0].kind == SignalKind::SettingsChanged,
        plan@[0].payload@ == wide_of("ImmersiveColorSet"@),
        plan@[0].timeout_ms == 100,
        plan@[1].kind == SignalKind::ThemeChanged,
        plan@[1].payload@.len() == 0,
        plan@[1].timeout_ms == 100,
{
    let mut plan: Vec<Signal> = Vec::new();
    plan.push(
        Signal {
            kind: SignalKind::SettingsChanged,
            payload: area_identifier_wide(),
            timeout_ms: 100,
        },
    );
    plan.push(Signal { kind: SignalKind::ThemeChanged, payload: Vec::new(), timeout_ms: 100 });
    plan
}

} // verus!
