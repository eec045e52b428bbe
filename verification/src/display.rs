//! What the screen shows, decided from the interface state: the marks and
//! labels of states and screens, the colour class of log lines, which log
//! lines fit in the panel, and the texts of the confirmation dialog and the
//! status bar.
use vstd::prelude::*;

use crate::state::{App, AppView, PendingAction, UiMode, VpnState, VpnStateView};
use crate::actions::is_live;
use crate::text::{
    concat3, contains_str, decimal, from_chars, has_sub, owned, string_push, to_chars, u64_to_decimal,
};

verus! {

// ─── States and screens ───────────────────────────────────────────────────────

/// The colour family of a connection state.
#[derive(Debug, Clone, Copy, PartialEq, Eq, Structural)]
pub enum Tone {
    Dim,
    Busy,
    Attention,
    Good,
    Bad,
}

/// The colour family of a connection state.
pub open spec fn state_tone(s: VpnStateView) -> Tone {
    match s {
        VpnStateView::Disconnected => Tone::Dim,
        VpnStateView::Connecting | VpnStateView::Disconnecting => Tone::Busy,
        VpnStateView::WaitingToken | VpnStateView::WaitingCert => Tone::Attention,
        VpnStateView::Connected => Tone::Good,
        VpnStateView::Error(_) => Tone::Bad,
    }
}

/// The colour family of a connection state.
pub fn tone_of_state(s: &VpnState) -> (r: Tone)
    ensures
        r == state_tone(s@),
{
    match s {
        VpnState::Disconnected => Tone::Dim,
        VpnState::Connecting | VpnState::Disconnecting => Tone::Busy,
        VpnState::WaitingToken | VpnState::WaitingCert => Tone::Attention,
        VpnState::Connected => Tone::Good,
        VpnState::Error(_) => Tone::Bad,
    }
}

/// The icon of a connection state in the title bar.
pub open spec fn title_icon(s: VpnStateView) -> Seq<char> {
    match s {
        VpnStateView::Disconnected | VpnStateView::Connected => "● "@,
        VpnStateView::Connecting | VpnStateView::Disconnecting => "◌ "@,
        VpnStateView::WaitingToken | VpnStateView::WaitingCert => "◎ "@,
        VpnStateView::Error(_) => "✖ "@,
    }
}

/// The icon of a connection state in the title bar.
pub fn state_icon(s: &VpnState) -> (r: &'static str)
    ensures
        r@ == title_icon(s@),
{
    match s {
        VpnState::Disconnected | VpnState::Connected => "● ",
        VpnState::Connecting | VpnState::Disconnecting => "◌ ",
        VpnState::WaitingToken | VpnState::WaitingCert => "◎ ",
        VpnState::Error(_) => "✖ ",
    }
}

/// The mark of a connection state on its session tab.
pub open spec fn tab_mark_of(s: VpnStateView) -> Seq<char> {
    match s {
        VpnStateView::Connected => "●"@,
        VpnStateView::Connecting | VpnStateView::Disconnecting => "◌"@,
        VpnStateView::WaitingToken | VpnStateView::WaitingCert => "◎"@,
        VpnStateView::Error(_) => "✖"@,
        VpnStateView::Disconnected => "○"@,
    }
}

/// The mark of a connection state on its session tab.
pub fn tab_mark(s: &VpnState) -> (r: &'static str)
    ensures
        r@ == tab_mark_of(s@),
{
    match s {
        VpnState::Connected => "●",
        VpnState::Connecting | VpnState::Disconnecting => "◌",
        VpnState::WaitingToken | VpnState::WaitingCert => "◎",
        VpnState::Error(_) => "✖",
        VpnState::Disconnected => "○",
    }
}

/// The name of a screen in the title bar.
pub open spec fn mode_name(m: UiMode) -> Seq<char> {
    match m {
        UiMode::ProfileList => "📋 PROFILES"@,
        UiMode::NewProfile => "✨ NEW PROFILE"@,
        UiMode::EditProfile => "✏️ EDIT PROFILE"@,
        UiMode::Connect => "🔌 CONNECT"@,
        UiMode::Help => "🛈 HELP"@,
    }
}

/// The name of a screen in the title bar.
pub fn mode_label(m: UiMode) -> (r: &'static str)
    ensures
        r@ == mode_name(m),
{
    match m {
        UiMode::ProfileList => "📋 PROFILES",
        UiMode::NewProfile => "✨ NEW PROFILE",
        UiMode::EditProfile => "✏️ EDIT PROFILE",
        UiMode::Connect => "🔌 CONNECT",
        UiMode::Help => "🛈 HELP",
    }
}

// ─── The log panel ────────────────────────────────────────────────────────────

/// The colour class of a log line.
#[derive(Debug, Clone, Copy, PartialEq, Eq, Structural)]
pub enum LogTone {
    Error,
    Warning,
    Token,
    Success,
    Info,
}

/// The colour class of a log line: errors first, then warnings, token
/// lines, connection successes, and everything else.
pub open spec fn line_tone(line: Seq<char>) -> LogTone {
    if has_sub(line, "[ERR]"@) || has_sub(line, "ERROR"@) {
        LogTone::Error
    } else if has_sub(line, "[WARN]"@) {
        LogTone::Warning
    } else if has_sub(line, "[TOKEN]"@) {
        LogTone::Token
    } else if has_sub(line, "Connected"@) || has_sub(line, "tunnel is up"@) {
        LogTone::Success
    } else {
        LogTone::Info
    }
}

/// The colour class of a log line (see [`line_tone`]).
pub fn log_tone(line: &str) -> (r: LogTone)
    ensures
        r == line_tone(line@),
{
    let l = to_chars(line);
    if contains_str(&l, "[ERR]") || contains_str(&l, "ERROR") {
        LogTone::Error
    } else if contains_str(&l, "[WARN]") {
        LogTone::Warning
    } else if contains_str(&l, "[TOKEN]") {
        LogTone::Token
    } else if contains_str(&l, "Connected") || contains_str(&l, "tunnel is up") {
        LogTone::Success
    } else {
        LogTone::Info
    }
}

/// The lines `start..end` of a log of `total` lines that a panel of
/// `visible` rows shows when scrolled to `scroll`: the panel starts at the
/// scroll position but never leaves rows empty below the last line.
pub open spec fn window(total: int, scroll: int, visible: int) -> (int, int) {
    let start = if total > visible {
        if scroll < total - visible {
            scroll
        } else {
            total - visible
        }
    } else {
        0
    };
    (start, if start + visible < total {
        start + visible
    } else {
        total
    })
}

/// The lines of the log that the panel shows (see [`window`]).
pub fn log_window(total: usize, scroll: usize, visible: usize) -> (r: (usize, usize))
    ensures
        (r.0 as int, r.1 as int) == window(total as int, scroll as int, visible as int),
        r.0 <= r.1 <= total,
{
    let start = if total > visible {
        if scroll < total - visible {
            scroll
        } else {
            total - visible
        }
    } else {
        0
    };
    let end = if visible < total - start {
        start + visible
    } else {
        total
    };
    (start, end)
}

// ─── Dialog and status bar texts ──────────────────────────────────────────────

/// What the confirmation dialog says the action applies to.
pub open spec fn confirm_target_text(a: AppView, action: PendingAction) -> Seq<char> {
    match action {
        PendingAction::DisconnectActive | PendingAction::CloseActive => match a.active() {
            Some(s) => "Session '"@ + s.profile_name + "'"@,
            None => "Session aktif"@,
        },
        PendingAction::DisconnectAll => "Semua session aktif ("@ + decimal(a.sessions.len())
            + ")"@,
        PendingAction::CloseAllIdle => "Semua tab session idle"@,
    }
}

impl App {
    /// What the confirmation dialog says the action applies to.
    pub fn confirm_target(&self, action: PendingAction) -> (r: String)
        ensures
            r@ == confirm_target_text(self@, action),
    {
        match action {
            PendingAction::DisconnectActive | PendingAction::CloseActive => match self.active_session() {
                Some(s) => concat3("Session '", s.profile_name.as_str(), "'"),
                None => owned("Session aktif"),
            },
            PendingAction::DisconnectAll => {
                let n = u64_to_decimal(self.sessions.len() as u64);
                concat3("Semua session aktif (", n.as_str(), ")")
            },
            PendingAction::CloseAllIdle => owned("Semua tab session idle"),
        }
    }
}

/// The key hints of the status bar on each screen.
pub open spec fn hints_of(m: UiMode) -> Seq<(Seq<char>, Seq<char>)> {
    match m {
        UiMode::Help => seq![("ESC / F1"@, "Tutup Help"@)],
        UiMode::ProfileList => seq![
            ("↑/↓"@, "Pilih"@),
            ("Enter/F5"@, "Connect"@),
            ("F2/N"@, "New"@),
            ("F3/E"@, "Edit"@),
            ("F4/D"@, "Delete"@),
            ("ESC/Ctrl+B"@, "Back"@),
            ("F1"@, "Help"@),
            ("Ctrl+Q"@, "Quit"@),
        ],
        UiMode::NewProfile | UiMode::EditProfile => seq![
            ("Tab"@, "Next"@),
            ("Shift+Tab"@, "Prev"@),
            ("Space"@, "Toggle"@),
            ("Enter"@, "Save"@),
            ("ESC/Ctrl+B"@, "Cancel"@),
            ("F1"@, "Help"@),
        ],
        UiMode::Connect => seq![
            ("←/→"@, "Tab"@),
            ("Tab"@, "Focus"@),
            ("Enter"@, "Action"@),
            ("Ctrl+K"@, "Disc 1"@),
            ("Ctrl+Shift+K"@, "Disc all"@),
            ("Ctrl+W"@, "Close"@),
            ("Ctrl+Shift+W"@, "Close idle"@),
            ("Ctrl+P"@, "Show/Hide"@),
            ("Ctrl+S"@, "Save"@),
            ("ESC/Ctrl+B"@, "Back"@),
            ("F1"@, "Help"@),
            ("Ctrl+Q"@, "Quit"@),
        ],
    }
}

/// The key hints of the status bar on a screen, key then meaning.
pub fn status_hints(m: UiMode) -> (r: Vec<(&'static str, &'static str)>)
    ensures
        r@.len() == hints_of(m).len(),
        forall|i: int|
            0 <= i < r@.len() ==> (#[trigger] r@[i]).0@ == hints_of(m)[i].0 && r@[i].1@ == hints_of(
                m,
            )[i].1,
{
    let r = match m {
        UiMode::Help => vec![("ESC / F1", "Tutup Help")],
        UiMode::ProfileList => vec![
            ("↑/↓", "Pilih"),
            ("Enter/F5", "Connect"),
            ("F2/N", "New"),
            ("F3/E", "Edit"),
            ("F4/D", "Delete"),
            ("ESC/Ctrl+B", "Back"),
            ("F1", "Help"),
            ("Ctrl+Q", "Quit"),
        ],
        UiMode::NewProfile | UiMode::EditProfile => vec![
            ("Tab", "Next"),
            ("Shift+Tab", "Prev"),
            ("Space", "Toggle"),
            ("Enter", "Save"),
            ("ESC/Ctrl+B", "Cancel"),
            ("F1", "Help"),
        ],
        UiMode::Connect => vec![
            ("←/→", "Tab"),
            ("Tab", "Focus"),
            ("Enter", "Action"),
            ("Ctrl+K", "Disc 1"),
            ("Ctrl+Shift+K", "Disc all"),
            ("Ctrl+W", "Close"),
            ("Ctrl+Shift+W", "Close idle"),
            ("Ctrl+P", "Show/Hide"),
            ("Ctrl+S", "Save"),
            ("ESC/Ctrl+B", "Back"),
            ("F1", "Help"),
            ("Ctrl+Q", "Quit"),
        ],
    };
    r
}

// ─── The token prompt, the certificate digest and the buttons ─────────────────

/// What the token field shows of a typed token: one bullet per character,
/// never the token itself.
pub open spec fn bullets(n: nat) -> Seq<char> {
    Seq::new(n, |_i: int| '•')
}

/// What the token field shows: nothing typed yet gives `None` (the
/// placeholder is drawn), otherwise one bullet per typed character.
pub fn token_field_text(token: &str) -> (r: Option<String>)
    ensures
        token@.len() == 0 <==> r is None,
        r matches Some(t) ==> t@ == bullets(token@.len()),
{
    let cs = to_chars(token);
    if cs.len() == 0 {
        return None;
    }
    let mut t = String::new();
    let mut i: usize = 0;
    while i < cs.len()
        invariant
            i <= cs@.len(),
            t@ == bullets(i as nat),
        decreases cs@.len() - i,
    {
        string_push(&mut t, '•');
        i += 1;
        assert(t@ =~= bullets(i as nat));
    }
    Some(t)
}

/// The certificate digest as the popup shows it in a row `width` wide: in
/// full when it fits in `width - 4` columns, else its first `width - 8`
/// characters followed by an ellipsis (widths below those give zero).
pub open spec fn digest_shown(hash: Seq<char>, width: u16) -> Seq<char> {
    let room: int = if width >= 4 { width - 4 } else { 0 };
    let keep: int = if width >= 8 { width - 8 } else { 0 };
    if hash.len() > room {
        "  "@ + hash.take(keep) + "... "@
    } else {
        "  "@ + hash + " "@
    }
}

/// The certificate digest as the popup shows it (see [`digest_shown`]).
pub fn digest_text(hash: &str, width: u16) -> (r: String)
    ensures
        r@ == digest_shown(hash@, width),
{
    let cs = to_chars(hash);
    let room: usize = if width >= 4 { (width - 4) as usize } else { 0 };
    let keep: usize = if width >= 8 { (width - 8) as usize } else { 0 };
    if cs.len() > room {
        let mut kept: Vec<char> = Vec::new();
        let mut i: usize = 0;
        while i < keep
            invariant
                keep <= room < cs@.len(),
                i <= keep,
                kept@ == cs@.take(i as int),
            decreases keep - i,
        {
            kept.push(cs[i]);
            i += 1;
            assert(kept@ =~= cs@.take(i as int));
        }
        let k = from_chars(&kept);
        concat3("  ", k.as_str(), "... ")
    } else {
        concat3("  ", hash, " ")
    }
}

/// Which of the two buttons of the connection panel can be used: connect
/// for a session that is disconnected or failed, disconnect for one that is
/// up or being set up.
pub fn buttons_enabled(s: &VpnState) -> (r: (bool, bool))
    ensures
        r == (s@.is_idle(), is_live(s@)),
{
    let live = match s {
        VpnState::Connected | VpnState::Connecting | VpnState::WaitingToken | VpnState::WaitingCert => true,
        _ => false,
    };
    (s.is_idle(), live)
}

} // verus!
