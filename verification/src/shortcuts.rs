//! The browser's global keyboard shortcuts and what each asks the tab bar
//! to do.
use vstd::prelude::*;

verus! {

/// The keys the browser's shortcuts use.
#[derive(Clone, Copy, PartialEq, Eq, Structural)]
pub enum ShortcutKey {
    KeyT,
    KeyW,
    KeyN,
    KeyL,
    KeyD,
    KeyH,
    KeyF,
    KeyR,
    Equal,
    Minus,
    /// A digit key, `0` to `9`.
    Digit(u8),
    Tab,
    ArrowLeft,
    ArrowRight,
    Home,
}

/// Which modifier keys are held, exactly.
#[derive(Clone, Copy, PartialEq, Eq, Structural)]
pub struct ShortcutMods {
    pub control: bool,
    pub shift: bool,
    pub alt: bool,
    pub meta: bool,
}

/// Control alone.
pub open spec fn ctrl() -> ShortcutMods {
    ShortcutMods { control: true, shift: false, alt: false, meta: false }
}

/// Control and Shift.
pub open spec fn ctrl_shift() -> ShortcutMods {
    ShortcutMods { control: true, shift: true, alt: false, meta: false }
}

/// Alt alone.
pub open spec fn alt() -> ShortcutMods {
    ShortcutMods { control: false, shift: false, alt: true, meta: false }
}

/// The action a key combination names, as the tab bar's script knows it.
pub open spec fn action_spec(m: ShortcutMods, k: ShortcutKey) -> Option<Seq<char>> {
    if m == ctrl() {
        match k {
            ShortcutKey::KeyT => Some("new_tab"@),
            ShortcutKey::KeyW => Some("close_tab"@),
            ShortcutKey::KeyL => Some("focus_address"@),
            ShortcutKey::KeyD => Some("toggle_bookmark"@),
            ShortcutKey::KeyH => Some("open_history"@),
            ShortcutKey::KeyF => Some("find_in_page"@),
            ShortcutKey::KeyR => Some("reload"@),
            ShortcutKey::Equal => Some("zoom_in"@),
            ShortcutKey::Minus => Some("zoom_out"@),
            ShortcutKey::Digit(d) => if d == 0 {
                Some("zoom_reset"@)
            } else if d == 1 {
                Some("switch_tab_1"@)
            } else if d == 2 {
                Some("switch_tab_2"@)
            } else if d == 3 {
                Some("switch_tab_3"@)
            } else if d == 4 {
                Some("switch_tab_4"@)
            } else if d == 5 {
                Some("switch_tab_5"@)
            } else if d == 6 {
                Some("switch_tab_6"@)
            } else if d == 7 {
                Some("switch_tab_7"@)
            } else if d == 8 {
                Some("switch_tab_8"@)
            } else if d == 9 {
                Some("switch_tab_last"@)
            } else {
                None
            },
            ShortcutKey::Tab => Some("switch_tab_next"@),
            _ => None,
        }
    } else if m == ctrl_shift() {
        match k {
            ShortcutKey::KeyT => Some("reopen_closed_tab"@),
            ShortcutKey::KeyN => Some("new_private_tab"@),
            ShortcutKey::Tab => Some("switch_tab_prev"@),
            _ => None,
        }
    } else if m == alt() {
        match k {
            ShortcutKey::ArrowLeft => Some("go_back"@),
            ShortcutKey::ArrowRight => Some("go_forward"@),
            ShortcutKey::Home => Some("go_home"@),
            _ => None,
        }
    } else {
        None
    }
}

/// The action a key combination names: Ctrl+T new tab, Ctrl+W close,
/// Ctrl+Shift+T reopen, Ctrl+Shift+N private tab, Ctrl+L address bar,
/// Ctrl+D bookmark, Ctrl+H history, Ctrl+F find, Ctrl+= / Ctrl+- / Ctrl+0
/// zoom, Ctrl+1..8 that tab, Ctrl+9 the last tab, Ctrl+(Shift+)Tab next
/// (previous) tab, Alt+Left / Alt+Right back and forward, Ctrl+R reload,
/// Alt+Home home.
pub fn shortcut_action(m: ShortcutMods, k: ShortcutKey) -> (r: Option<&'static str>)
    ensures
        match r {
            Some(a) => action_spec(m, k) == Some(a@),
            None => action_spec(m, k) is None,
        },
{
    let is_ctrl = m.control && !m.shift && !m.alt && !m.meta;
    let is_ctrl_shift = m.control && m.shift && !m.alt && !m.meta;
    let is_alt = !m.control && !m.shift && m.alt && !m.meta;
    if is_ctrl {
        match k {
            ShortcutKey::KeyT => Some("new_tab"),
            ShortcutKey::KeyW => Some("close_tab"),
            ShortcutKey::KeyL => Some("focus_address"),
            ShortcutKey::KeyD => Some("toggle_bookmark"),
            ShortcutKey::KeyH => Some("open_history"),
            ShortcutKey::KeyF => Some("find_in_page"),
            ShortcutKey::KeyR => Some("reload"),
            ShortcutKey::Equal => Some("zoom_in"),
            ShortcutKey::Minus => Some("zoom_out"),
            ShortcutKey::Digit(d) => {
                if d == 0 {
                    Some("zoom_reset")
                } else if d == 1 {
                    Some("switch_tab_1")
                } else if d == 2 {
                    Some("switch_tab_2")
                } else if d == 3 {
                    Some("switch_tab_3")
                } else if d == 4 {
                    Some("switch_tab_4")
                } else if d == 5 {
                    Some("switch_tab_5")
                } else if d == 6 {
                    Some("switch_tab_6")
                } else if d == 7 {
                    Some("switch_tab_7")
                } else if d == 8 {
                    Some("switch_tab_8")
                } else if d == 9 {
                    Some("switch_tab_last")
                } else {
                    None
                }
            },
            ShortcutKey::Tab => Some("switch_tab_next"),
            _ => None,
        }
    } else if is_ctrl_shift {
        match k {
            ShortcutKey::KeyT => Some("reopen_closed_tab"),
            ShortcutKey::KeyN => Some("new_private_tab"),
            ShortcutKey::Tab => Some("switch_tab_prev"),
            _ => None,
        }
    } else if is_alt {
        match k {
            ShortcutKey::ArrowLeft => Some("go_back"),
            ShortcutKey::ArrowRight => Some("go_forward"),
            ShortcutKey::Home => Some("go_home"),
            _ => None,
        }
    } else {
        None
    }
}

/// What a global shortcut event asks for: nothing on key release, nothing
/// while another application is in front (`foreground`), else the action
/// the combination names.
pub fn shortcut_event(pressed: bool, foreground: bool, m: ShortcutMods, k: ShortcutKey) -> (r: Option<&'static str>)
    ensures
        !pressed || !foreground ==> r is None,
        pressed && foreground ==> match r {
            Some(a) => action_spec(m, k) == Some(a@),
            None => action_spec(m, k) is None,
        },
{
    if !pressed || !foreground {
        return None;
    }
    shortcut_action(m, k)
}

/// The combinations registered with the system at startup, in order:
/// Ctrl+T, Ctrl+W, Ctrl+Shift+T, Ctrl+Shift+N, Ctrl+L, Ctrl+D, Ctrl+H,
/// Ctrl+F, Ctrl+=, Ctrl+-, Ctrl+0 to Ctrl+9, Ctrl+Tab, Ctrl+Shift+Tab,
/// Alt+Left, Alt+Right, Ctrl+R, Alt+Home.
pub open spec fn registered_list() -> Seq<(ShortcutMods, ShortcutKey)> {
    seq![
        (ctrl(), ShortcutKey::KeyT),
        (ctrl(), ShortcutKey::KeyW),
        (ctrl_shift(), ShortcutKey::KeyT),
        (ctrl_shift(), ShortcutKey::KeyN),
        (ctrl(), ShortcutKey::KeyL),
        (ctrl(), ShortcutKey::KeyD),
        (ctrl(), ShortcutKey::KeyH),
        (ctrl(), ShortcutKey::KeyF),
        (ctrl(), ShortcutKey::Equal),
        (ctrl(), ShortcutKey::Minus),
        (ctrl(), ShortcutKey::Digit(0)),
        (ctrl(), ShortcutKey::Digit(1)),
        (ctrl(), ShortcutKey::Digit(2)),
        (ctrl(), ShortcutKey::Digit(3)),
        (ctrl(), ShortcutKey::Digit(4)),
        (ctrl(), ShortcutKey::Digit(5)),
        (ctrl(), ShortcutKey::Digit(6)),
        (ctrl(), ShortcutKey::Digit(7)),
        (ctrl(), ShortcutKey::Digit(8)),
        (ctrl(), ShortcutKey::Digit(9)),
        (ctrl(), ShortcutKey::Tab),
        (ctrl_shift(), ShortcutKey::Tab),
        (alt(), ShortcutKey::ArrowLeft),
        (alt(), ShortcutKey::ArrowRight),
        (ctrl(), ShortcutKey::KeyR),
        (alt(), ShortcutKey::Home),
    ]
}

/// The combinations registered with the system at startup (see
/// `registered_list`).
pub fn registered_shortcuts() -> (r: Vec<(ShortcutMods, ShortcutKey)>)
    ensures
        r@ == registered_list(),
        r@.len() == 26,
        forall|i: int| 0 <= i < r@.len() ==> (#[trigger] action_spec(r@[i].0, r@[i].1)) is Some,
{
    let c = ShortcutMods { control: true, shift: false, alt: false, meta: false };
    let cs = ShortcutMods { control: true, shift: true, alt: false, meta: false };
    let a = ShortcutMods { control: false, shift: false, alt: true, meta: false };
    let mut v: Vec<(ShortcutMods, ShortcutKey)> = Vec::new();
    v.push((c, ShortcutKey::KeyT));
    v.push((c, ShortcutKey::KeyW));
    v.push((cs, ShortcutKey::KeyT));
    v.push((cs, ShortcutKey::KeyN));
    v.push((c, ShortcutKey::KeyL));
    v.push((c, ShortcutKey::KeyD));
    v.push((c, ShortcutKey::KeyH));
    v.push((c, ShortcutKey::KeyF));
    v.push((c, ShortcutKey::Equal));
    v.push((c, ShortcutKey::Minus));
    v.push((c, ShortcutKey::Digit(0)));
    v.push((c, ShortcutKey::Digit(1)));
    v.push((c, ShortcutKey::Digit(2)));
    v.push((c, ShortcutKey::Digit(3)));
    v.push((c, ShortcutKey::Digit(4)));
    v.push((c, ShortcutKey::Digit(5)));
    v.push((c, ShortcutKey::Digit(6)));
    v.push((c, ShortcutKey::Digit(7)));
    v.push((c, ShortcutKey::Digit(8)));
    v.push((c, ShortcutKey::Digit(9)));
    v.push((c, ShortcutKey::Tab));
    v.push((cs, ShortcutKey::Tab));
    v.push((a, ShortcutKey::ArrowLeft));
    v.push((a, ShortcutKey::ArrowRight));
    v.push((c, ShortcutKey::KeyR));
    v.push((a, ShortcutKey::Home));
    assert(v@ =~= registered_list());
    proof {
        lemma_registered_list_named();
    }
    v
}

/// Every registered combination names an action.
pub proof fn lemma_registered_list_named()
    ensures
        forall|i: int|
            0 <= i < registered_list().len() ==> (#[trigger] action_spec(
                registered_list()[i].0,
                registered_list()[i].1,
            )) is Some,
{
    let l = registered_list();
    assert forall|i: int| 0 <= i < l.len() implies (#[trigger] action_spec(l[i].0, l[i].1)) is Some by {
        assert(l[i] == registered_list()[i]);
    }
}

} // verus!
