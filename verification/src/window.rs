//! The window kinds the host can open, and the fixed label, title and
//! bridge flavor each one carries.  Window creation itself is UI work; the
//! naming rules live here so no two kinds can collide on a label.

use vstd::prelude::*;

verus! {

/// The kind of window being opened.
#[derive(Clone, Copy, PartialEq, Eq, Structural, Debug)]
pub enum WindowType {
    Primary,
    Hud,
    Secondary,
    Overlay,
}

impl WindowType {
    /// The unique label a window of this kind is registered under.
    pub fn label(&self) -> (r: &'static str)
        ensures
            r@ == match self {
                WindowType::Primary => "main"@,
                WindowType::Hud => "hud"@,
                WindowType::Secondary => "secondary"@,
                WindowType::Overlay => "overlay"@,
            },
    {
        match self {
            WindowType::Primary => "main",
            WindowType::Hud => "hud",
            WindowType::Secondary => "secondary",
            WindowType::Overlay => "overlay",
        }
    }

    /// The window title.
    pub fn title(&self) -> (r: &'static str)
        ensures
            r@ == match self {
                WindowType::Primary => "Codex"@,
                WindowType::Hud => "Codex HUD"@,
                WindowType::Secondary => "Codex Secondary"@,
                WindowType::Overlay => "Codex Overlay"@,
            },
    {
        match self {
            WindowType::Primary => "Codex",
            WindowType::Hud => "Codex HUD",
            WindowType::Secondary => "Codex Secondary",
            WindowType::Overlay => "Codex Overlay",
        }
    }

    /// The bridge flavor the view is initialized with: the HUD has its own;
    /// every other window presents as the standard embedding.
    pub fn bridge_kind(&self) -> (r: &'static str)
        ensures
            r@ == match self {
                WindowType::Hud => "hud"@,
                _ => "electron"@,
            },
    {
        match self {
            WindowType::Hud => "hud",
            _ => "electron",
        }
    }
}

/// Distinct window kinds never share a label, so opening one kind can never
/// reuse another kind's window.
pub proof fn lemma_labels_distinct(a: WindowType, b: WindowType)
    requires
        a != b,
    ensures
        (match a {
            WindowType::Primary => "main"@,
            WindowType::Hud => "hud"@,
            WindowType::Secondary => "secondary"@,
            WindowType::Overlay => "overlay"@,
        }) != (match b {
            WindowType::Primary => "main"@,
            WindowType::Hud => "hud"@,
            WindowType::Secondary => "secondary"@,
            WindowType::Overlay => "overlay"@,
        }),
{
    reveal_strlit("main");
    reveal_strlit("hud");
    reveal_strlit("secondary");
    reveal_strlit("overlay");
    assert("main"@.len() == 4);
    assert("hud"@.len() == 3);
    assert("secondary"@.len() == 9);
    assert("overlay"@.len() == 7);
}

} // verus!
