//! The interface's main steps: starting from the stored configuration,
//! routing a key to the screen or dialog that takes it, and taking the
//! events that the connection tasks report.
use vstd::prelude::*;

use crate::actions::{
    Key, KeyCode, action_confirm, cert_dialog, connect_mode, form_mode, list_mode, token_popup,
};
use crate::config::{Config, ConfigView, ProfileView, find_named, profiles_view};
use crate::state::{
    App, AppEvent, AppEventView, AppView, CertView, Effect, EffectView, Focus, NotifLevel,
    SessionView, UiMode, VpnState, VpnStateView, effects_view, lemma_log_room, update_session,
};
use crate::text::{concat2, concat3, concat4, owned, str_eq};

verus! {

// ─── Start ────────────────────────────────────────────────────────────────────

/// Whether the command line asks for debug logging (`-d` or `--debug`).
pub open spec fn debug_requested(args: Seq<Seq<char>>) -> bool {
    exists|i: int| 0 <= i < args.len() && (args[i] == "-d"@ || args[i] == "--debug"@)
}

/// Whether the command line asks for debug logging.
pub fn debug_flag(args: &Vec<String>) -> (r: bool)
    ensures
        r == debug_requested(args.deep_view()),
{
    let mut i: usize = 0;
    while i < args.len()
        invariant
            i <= args@.len(),
            forall|j: int| 0 <= j < i ==> !(args.deep_view()[j] == "-d"@ || args.deep_view()[j] == "--debug"@),
        decreases args@.len() - i,
    {
        if str_eq(args[i].as_str(), "-d") || str_eq(args[i].as_str(), "--debug") {
            assert(args.deep_view()[i as int] == args@[i as int]@);
            return true;
        }
        assert(args.deep_view()[i as int] == args@[i as int]@);
        i += 1;
    }
    false
}

/// The interface as it starts from the stored configuration: its profiles
/// are loaded, the profile it names is selected, and the form for a new
/// profile is opened when there is none.
pub open spec fn started(debug_enabled: bool, cfg: ConfigView) -> AppView {
    let a0 = AppView { profiles: cfg.profiles, ..AppView::initial(debug_enabled) };
    let a1 = match cfg.selected_profile {
        Some(name) => match find_named(cfg.profiles, name) {
            Some(i) => AppView {
                selected_profile_index: i as usize,
                focus: Focus::ProfileItem(i as usize),
                ..a0
            },
            None => a0,
        },
        None => a0,
    };
    if cfg.profiles.len() == 0 {
        AppView { ui_mode: UiMode::NewProfile, focus: Focus::ProfileName, ..a1 }
    } else {
        a1
    }
}

impl App {
    /// The interface as it starts from the stored configuration (see [`started`]).
    pub fn from_config(debug_enabled: bool, cfg: &Config) -> (r: App)
        ensures
            r@ == started(debug_enabled, cfg@),
    {
        let mut app = App::new(debug_enabled);
        app.load_profiles(crate::config::clone_profiles(&cfg.profiles));
        match &cfg.selected_profile {
            Some(selected) => match crate::config::position_of_name(&app.profiles, selected.as_str()) {
                Some(idx) => {
                    app.selected_profile_index = idx;
                    app.select_profile(idx);
                },
                None => {},
            },
            None => {},
        }
        if app.profiles.len() == 0 {
            app.ui_mode = UiMode::NewProfile;
            app.focus = Focus::ProfileName;
        }
        app
    }
}

// ─── Keys ─────────────────────────────────────────────────────────────────────

/// Control-C or Control-Q.
pub open spec fn is_quit_key(key: Key) -> bool {
    key.modifiers.only_control() && (key.code == KeyCode::Char('c') || key.code == KeyCode::Char(
        'q',
    ))
}

/// Where a key goes: on the help screen Esc, Control-B and F1 close it,
/// Control-C and Control-Q quit, and other keys are ignored; F1 opens help;
/// Control-C and Control-Q quit; an open dialog takes the
/// key (confirmation, then token prompt, then certificate prompt); Esc and
/// Control-B go back to the profile list; otherwise the current screen
/// takes it.
pub open spec fn key_handled(a: AppView, key: Key) -> (AppView, Seq<EffectView>) {
    if a.ui_mode == UiMode::Help {
        if is_quit_key(key) {
            (AppView { should_quit: true, ..a }, seq![])
        } else if key.code == KeyCode::Esc || key.code == KeyCode::F(1) || (
        key.modifiers.only_control() && key.code == KeyCode::Char('b')) {
            (a.help_hidden(), seq![])
        } else {
            (a, seq![])
        }
    } else if key.code == KeyCode::F(1) {
        (a.help_shown(), seq![])
    } else if is_quit_key(key) {
        (AppView { should_quit: true, ..a }, seq![])
    } else if a.pending_action is Some {
        action_confirm(a, key)
    } else if a.active_state() is WaitingToken {
        token_popup(a, key)
    } else if a.active_state() is WaitingCert {
        cert_dialog(a, key)
    } else if key.code == KeyCode::Esc || (key.modifiers.only_control() && key.code
        == KeyCode::Char('b')) {
        (a.back_to_list(), seq![])
    } else {
        match a.ui_mode {
            UiMode::ProfileList => list_mode(a, key),
            UiMode::NewProfile | UiMode::EditProfile => form_mode(a, key),
            UiMode::Connect => connect_mode(a, key),
            UiMode::Help => (a, seq![]),
        }
    }
}

impl App {
    /// Routes a key (see [`key_handled`]).
    pub fn handle_key(&mut self, key: Key) -> (r: Vec<Effect>)
        requires
            old(self)@.log_room(3),
            old(self).next_session_id < u64::MAX,
        ensures
            (final(self)@, effects_view(r@)) == key_handled(old(self)@, key),
    {
        if self.ui_mode == UiMode::Help {
            if key.modifiers.is_only_control() && (key.code == KeyCode::Char('c') || key.code
                == KeyCode::Char('q')) {
                self.should_quit = true;
            } else if key.code == KeyCode::Esc || key.code == KeyCode::F(1) || (
            key.modifiers.is_only_control() && key.code == KeyCode::Char('b')) {
                self.hide_help();
            }
            return Vec::new();
        }
        if key.code == KeyCode::F(1) {
            self.show_help();
            return Vec::new();
        }
        if key.modifiers.is_only_control() && (key.code == KeyCode::Char('c') || key.code
            == KeyCode::Char('q')) {
            self.should_quit = true;
            return Vec::new();
        }
        if self.pending_action.is_some() {
            return self.handle_action_confirm_popup(key);
        }
        let st = self.active_session_state();
        if let VpnState::WaitingToken = st {
            return self.handle_token_popup(key);
        }
        if let VpnState::WaitingCert = st {
            return self.handle_cert_dialog(key);
        }
        if key.code == KeyCode::Esc || (key.modifiers.is_only_control() && key.code
            == KeyCode::Char('b')) {
            self.back_to_profile_list();
            return Vec::new();
        }
        match self.ui_mode {
            UiMode::ProfileList => self.handle_profile_list_mode(key),
            UiMode::NewProfile | UiMode::EditProfile => self.handle_profile_form_mode(key),
            UiMode::Connect => self.handle_connect_mode(key),
            UiMode::Help => Vec::new(),
        }
    }
}

// ─── Events ───────────────────────────────────────────────────────────────────

/// A session's state changed to `new` (from `old`): a connection is
/// announced, a drop is announced unless the session was idle or refusing a
/// certificate, an error is announced; the waiting flag is cleared in all
/// three cases.
pub open spec fn state_changed(a: AppView, i: int, new: VpnStateView) -> (AppView, Seq<EffectView>) {
    let old_state = a.sessions[i].vpn_state;
    let a1 = update_session(a, i, SessionView { vpn_state: new, ..a.sessions[i] });
    let s = a1.sessions[i];
    let is_active = a.active_session_index == Some(i as usize);
    let clear = seq![EffectView::SetWaitingFlag { session_id: s.id, waiting: false }];
    match new {
        VpnStateView::Connected => {
            let a2 = a1.notified(
                "✔ VPN '"@ + s.profile_name + "' terhubung!"@,
                NotifLevel::Success,
            );
            let a3 = update_session(a2, i, a2.sessions[i].with_log("[APP] ✔ Koneksi VPN berhasil"@));
            (if is_active {
                AppView { focus: Focus::Disconnect, ..a3 }
            } else {
                a3
            }, clear)
        },
        VpnStateView::Disconnected => {
            let a2 = if !(old_state is Disconnected || old_state is WaitingCert) {
                let b = a1.notified("VPN '"@ + s.profile_name + "' terputus"@, NotifLevel::Warning);
                update_session(b, i, b.sessions[i].with_log("[APP] VPN terputus"@))
            } else {
                a1
            };
            (if is_active && a2.has_modal() {
                AppView { focus: Focus::Connect, ..a2 }
            } else {
                a2
            }, clear)
        },
        VpnStateView::Error(e) => {
            let a2 = a1.notified(
                "Error '"@ + s.profile_name + "': "@ + e,
                NotifLevel::Error,
            );
            (update_session(a2, i, a2.sessions[i].with_log("[APP] Error: "@ + e)), clear)
        },
        _ => (a1, seq![]),
    }
}

/// How the interface takes an event from a connection task. Events for a
/// session that is gone are dropped (a log line then goes to the
/// application log, never to a session's); debug lines and rate samples do
/// not change the interface.
pub open spec fn event_applied(a: AppView, ev: AppEventView) -> (AppView, Seq<EffectView>) {
    match ev {
        AppEventView::LogLine { session_id, line } => match a.session_with_id(session_id) {
            Some(i) => {
                let a1 = update_session(a, i, a.sessions[i].with_log(line));
                (if a.active_session_index == Some(i as usize) && a.focus == Focus::ProfileList {
                    AppView { focus: Focus::Connect, ..a1 }
                } else {
                    a1
                }, seq![])
            },
            None => (AppView { logs: a.logs.push(line), log_scroll: a.logs.len() as usize, ..a }, seq![]),
        },
        AppEventView::DebugLog(_) => (a, seq![]),
        AppEventView::StateChanged { session_id, state } => match a.session_with_id(session_id) {
            Some(i) => state_changed(a, i, state),
            None => (a, seq![]),
        },
        AppEventView::NeedToken(session_id) => match a.session_with_id(session_id) {
            Some(i) => if a.sessions[i].vpn_state is WaitingToken {
                (a, seq![])
            } else {
                let s = a.sessions[i];
                let s1 = SessionView {
                    vpn_state: VpnStateView::WaitingToken,
                    token_input: seq![],
                    ..s
                }.with_log("[APP] ⚡ Token OTP diminta — masukkan token dari email"@);
                let a1 = update_session(a, i, s1).notified(
                    "Masukkan token OTP untuk '"@ + s.profile_name + "'"@,
                    NotifLevel::Info,
                );
                (
                    AppView { focus: Focus::TokenInput, ..a1.activated(i) },
                    seq![EffectView::SetWaitingFlag { session_id: s.id, waiting: true }],
                )
            },
            None => (a, seq![]),
        },
        AppEventView::CertError { session_id, cert } => match a.session_with_id(session_id) {
            Some(i) => {
                let s = a.sessions[i];
                let s1 = SessionView {
                    pending_cert: Some(cert),
                    vpn_state: VpnStateView::WaitingCert,
                    ..s.with_log("[CERT] ⚠ Certificate tidak dipercaya: CN="@ + cert.subject_cn)
                };
                (AppView { focus: Focus::CertAccept, ..update_session(a, i, s1).activated(i) }, seq![])
            },
            None => (a, seq![]),
        },
        AppEventView::SpeedUpdate { .. } => (a, seq![]),
    }
}

impl App {
    /// Takes a state change of session `idx` (see [`state_changed`]).
    fn apply_state_change(&mut self, idx: usize, state: VpnState) -> (r: Vec<Effect>)
        requires
            idx < old(self).sessions@.len(),
            old(self)@.log_room(1),
        ensures
            (final(self)@, effects_view(r@)) == state_changed(old(self)@, idx as int, state@),
    {
        let ghost a = self@;
        proof {
            assert(a.sessions[idx as int] == self.sessions@[idx as int]@);
        }
        let old_idle_like = match self.sessions[idx].vpn_state {
            VpnState::Disconnected | VpnState::WaitingCert => true,
            _ => false,
        };
        let is_active = self.active_session_index == Some(idx);
        let session_id = self.sessions[idx].id;
        let name = self.sessions[idx].profile_name.clone();
        let mut effects: Vec<Effect> = Vec::new();
        match state {
            VpnState::Connected => {
                self.sessions[idx].vpn_state = VpnState::Connected;
                assert(self@.sessions =~= update_session(
                    a,
                    idx as int,
                    SessionView { vpn_state: VpnStateView::Connected, ..a.sessions[idx as int] },
                ).sessions);
                self.notify(concat3("✔ VPN '", name.as_str(), "' terhubung!"), NotifLevel::Success);
                let ghost a2 = self@;
                proof {
                    assert(a2.sessions[idx as int] == self.sessions@[idx as int]@);
                    assert(self.sessions@[idx as int].logs.deep_view().len() + 1 <= usize::MAX);
                }
                self.sessions[idx].push_log(owned("[APP] ✔ Koneksi VPN berhasil"));
                assert(self@.sessions =~= a2.sessions.update(
                    idx as int,
                    a2.sessions[idx as int].with_log("[APP] ✔ Koneksi VPN berhasil"@),
                ));
                if is_active {
                    self.focus = Focus::Disconnect;
                }
                effects.push(Effect::SetWaitingFlag { session_id, waiting: false });
            },
            VpnState::Disconnected => {
                self.sessions[idx].vpn_state = VpnState::Disconnected;
                assert(self@.sessions =~= update_session(
                    a,
                    idx as int,
                    SessionView { vpn_state: VpnStateView::Disconnected, ..a.sessions[idx as int] },
                ).sessions);
                if !old_idle_like {
                    self.notify(concat3("VPN '", name.as_str(), "' terputus"), NotifLevel::Warning);
                    let ghost b = self@;
                    proof {
                        assert(b.sessions[idx as int] == self.sessions@[idx as int]@);
                        assert(self.sessions@[idx as int].logs.deep_view().len() + 1 <= usize::MAX);
                    }
                    self.sessions[idx].push_log(owned("[APP] VPN terputus"));
                    assert(self@.sessions =~= b.sessions.update(
                        idx as int,
                        b.sessions[idx as int].with_log("[APP] VPN terputus"@),
                    ));
                }
                if is_active && self.has_modal() {
                    self.focus = Focus::Connect;
                }
                effects.push(Effect::SetWaitingFlag { session_id, waiting: false });
            },
            VpnState::Error(e) => {
                let msg = concat4("Error '", name.as_str(), "': ", e.as_str());
                let line = concat2("[APP] Error: ", e.as_str());
                self.sessions[idx].vpn_state = VpnState::Error(e);
                assert(self@.sessions =~= update_session(
                    a,
                    idx as int,
                    SessionView { vpn_state: state@, ..a.sessions[idx as int] },
                ).sessions);
                self.notify(msg, NotifLevel::Error);
                let ghost a2 = self@;
                proof {
                    assert(a2.sessions[idx as int] == self.sessions@[idx as int]@);
                    assert(self.sessions@[idx as int].logs.deep_view().len() + 1 <= usize::MAX);
                }
                self.sessions[idx].push_log(line);
                assert(self@.sessions =~= a2.sessions.update(
                    idx as int,
                    a2.sessions[idx as int].with_log(line@),
                ));
                effects.push(Effect::SetWaitingFlag { session_id, waiting: false });
            },
            other => {
                self.sessions[idx].vpn_state = other;
                assert(self@.sessions =~= update_session(
                    a,
                    idx as int,
                    SessionView { vpn_state: state@, ..a.sessions[idx as int] },
                ).sessions);
            },
        }
        assert(effects_view(effects@) =~= state_changed(a, idx as int, state@).1);
        effects
    }

    /// Takes an event from a connection task (see [`event_applied`]).
    pub fn apply_event(&mut self, event: AppEvent) -> (r: Vec<Effect>)
        requires
            old(self)@.log_room(1),
        ensures
            (final(self)@, effects_view(r@)) == event_applied(old(self)@, event@),
    {
        let ghost a = self@;
        match event {
            AppEvent::LogLine { session_id, line } => {
                match self.find_session_index_by_id(session_id) {
                    Some(idx) => {
                        proof {
                            assert(a.sessions[idx as int] == self.sessions@[idx as int]@);
                            assert(self.sessions@[idx as int].logs.deep_view().len() + 1 <= usize::MAX);
                        }
                        let is_active = self.active_session_index == Some(idx);
                        let ghost lv = line@;
                        self.sessions[idx].push_log(line);
                        assert(self@.sessions =~= a.sessions.update(
                            idx as int,
                            a.sessions[idx as int].with_log(lv),
                        ));
                        if is_active && self.focus == Focus::ProfileList {
                            self.focus = Focus::Connect;
                        }
                    },
                    None => {
                        self.logs.push(line);
                        self.log_scroll = self.logs.len() - 1;
                        assert(self@.logs =~= a.logs.push(event@->LogLine_line));
                    },
                }
                Vec::new()
            },
            AppEvent::DebugLog(_) => Vec::new(),
            AppEvent::StateChanged { session_id, state } => {
                match self.find_session_index_by_id(session_id) {
                    Some(idx) => self.apply_state_change(idx, state),
                    None => Vec::new(),
                }
            },
            AppEvent::NeedToken(session_id) => {
                let idx = match self.find_session_index_by_id(session_id) {
                    Some(i) => i,
                    None => {
                        return Vec::new();
                    },
                };
                proof {
                    assert(a.sessions[idx as int] == self.sessions@[idx as int]@);
                }
                if let VpnState::WaitingToken = self.sessions[idx].vpn_state {
                    return Vec::new();
                }
                let name = self.sessions[idx].profile_name.clone();
                let id = self.sessions[idx].id;
                self.sessions[idx].vpn_state = VpnState::WaitingToken;
                self.sessions[idx].token_input = String::new();
                proof {
                    assert(self.sessions@[idx as int].logs.deep_view().len() + 1 <= usize::MAX);
                }
                self.sessions[idx].push_log(
                    owned("[APP] ⚡ Token OTP diminta — masukkan token dari email"),
                );
                assert(self@.sessions =~= event_applied(a, event@).0.sessions.update(
                    idx as int,
                    self@.sessions[idx as int],
                ));
                self.notify(concat3("Masukkan token OTP untuk '", name.as_str(), "'"), NotifLevel::Info);
                let mut effects: Vec<Effect> = Vec::new();
                effects.push(Effect::SetWaitingFlag { session_id: id, waiting: true });
                self.activate_session(idx);
                self.focus = Focus::TokenInput;
                assert(self@.sessions =~= event_applied(a, event@).0.sessions);
                assert(effects_view(effects@) =~= event_applied(a, event@).1);
                effects
            },
            AppEvent::CertError { session_id, cert } => {
                let idx = match self.find_session_index_by_id(session_id) {
                    Some(i) => i,
                    None => {
                        return Vec::new();
                    },
                };
                proof {
                    assert(a.sessions[idx as int] == self.sessions@[idx as int]@);
                    assert(self.sessions@[idx as int].logs.deep_view().len() + 1 <= usize::MAX);
                }
                let line = concat2("[CERT] ⚠ Certificate tidak dipercaya: CN=", cert.subject_cn.as_str());
                self.sessions[idx].push_log(line);
                self.sessions[idx].pending_cert = Some(cert);
                self.sessions[idx].vpn_state = VpnState::WaitingCert;
                self.activate_session(idx);
                self.focus = Focus::CertAccept;
                assert(self@.sessions =~= event_applied(a, event@).0.sessions);
                Vec::new()
            },
            AppEvent::SpeedUpdate { .. } => Vec::new(),
        }
    }
}

} // verus!
