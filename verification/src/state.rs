//! Application state: VPN connection states, sessions (one per profile that
//! was opened), focus and modal tracking, notifications and the profile form.
use vstd::prelude::*;

use crate::config::{ProfileView, VpnProfile, opt_view, profiles_view, Config, ConfigView};
use crate::text::{clone_opt_string, clone_strings, owned, str_eq};

verus! {

// ─── VPN connection state ─────────────────────────────────────────────────────

/// Where one VPN connection stands.
#[derive(Debug, PartialEq)]
pub enum VpnState {
    Disconnected,
    Connecting,
    WaitingCert,
    WaitingToken,
    Connected,
    Disconnecting,
    Error(String),
}

/// The mathematical value of a [`VpnState`].
pub enum VpnStateView {
    Disconnected,
    Connecting,
    WaitingCert,
    WaitingToken,
    Connected,
    Disconnecting,
    Error(Seq<char>),
}

impl View for VpnState {
    type V = VpnStateView;

    open spec fn view(&self) -> VpnStateView {
        match self {
            VpnState::Disconnected => VpnStateView::Disconnected,
            VpnState::Connecting => VpnStateView::Connecting,
            VpnState::WaitingCert => VpnStateView::WaitingCert,
            VpnState::WaitingToken => VpnStateView::WaitingToken,
            VpnState::Connected => VpnStateView::Connected,
            VpnState::Disconnecting => VpnStateView::Disconnecting,
            VpnState::Error(e) => VpnStateView::Error(e@),
        }
    }
}

impl Clone for VpnState {
    fn clone(&self) -> (r: Self)
        ensures
            r == *self,
    {
        match self {
            VpnState::Disconnected => VpnState::Disconnected,
            VpnState::Connecting => VpnState::Connecting,
            VpnState::WaitingCert => VpnState::WaitingCert,
            VpnState::WaitingToken => VpnState::WaitingToken,
            VpnState::Connected => VpnState::Connected,
            VpnState::Disconnecting => VpnState::Disconnecting,
            VpnState::Error(e) => VpnState::Error(e.clone()),
        }
    }
}

/// The label shown for each connection state.
pub open spec fn state_label(s: VpnStateView) -> Seq<char> {
    match s {
        VpnStateView::Disconnected => "DISCONNECTED"@,
        VpnStateView::Connecting => "CONNECTING..."@,
        VpnStateView::WaitingCert => "CERT UNTRUSTED"@,
        VpnStateView::WaitingToken => "WAITING TOKEN"@,
        VpnStateView::Connected => "CONNECTED"@,
        VpnStateView::Disconnecting => "DISCONNECTING..."@,
        VpnStateView::Error(_) => "ERROR"@,
    }
}

impl VpnStateView {
    /// No connection is up or being set up: disconnected, or failed.
    pub open spec fn is_idle(self) -> bool {
        self is Disconnected || self is Error
    }
}

impl VpnState {
    /// The label shown for this state.
    pub fn label(&self) -> (r: &'static str)
        ensures
            r@ == state_label(self@),
    {
        match self {
            VpnState::Disconnected => "DISCONNECTED",
            VpnState::Connecting => "CONNECTING...",
            VpnState::WaitingCert => "CERT UNTRUSTED",
            VpnState::WaitingToken => "WAITING TOKEN",
            VpnState::Connected => "CONNECTED",
            VpnState::Disconnecting => "DISCONNECTING...",
            VpnState::Error(_) => "ERROR",
        }
    }

    /// Disconnected, or failed.
    pub fn is_idle(&self) -> (r: bool)
        ensures
            r == self@.is_idle(),
    {
        match self {
            VpnState::Disconnected | VpnState::Error(_) => true,
            _ => false,
        }
    }
}

// ─── Certificate info ─────────────────────────────────────────────────────────

/// What the gateway reported of a certificate it could not validate.
#[derive(Debug)]
pub struct CertInfo {
    pub hash: String,
    pub subject_cn: String,
    pub subject_org: String,
    pub issuer_cn: String,
}

/// The mathematical value of a [`CertInfo`].
pub struct CertView {
    pub hash: Seq<char>,
    pub subject_cn: Seq<char>,
    pub subject_org: Seq<char>,
    pub issuer_cn: Seq<char>,
}

impl View for CertInfo {
    type V = CertView;

    open spec fn view(&self) -> CertView {
        CertView {
            hash: self.hash@,
            subject_cn: self.subject_cn@,
            subject_org: self.subject_org@,
            issuer_cn: self.issuer_cn@,
        }
    }
}

impl Clone for CertInfo {
    fn clone(&self) -> (r: Self)
        ensures
            r == *self,
    {
        CertInfo {
            hash: self.hash.clone(),
            subject_cn: self.subject_cn.clone(),
            subject_org: self.subject_org.clone(),
            issuer_cn: self.issuer_cn.clone(),
        }
    }
}

/// An optional certificate taken by its value.
pub open spec fn opt_cert_view(c: Option<CertInfo>) -> Option<CertView> {
    match c {
        Some(v) => Some(v@),
        None => None,
    }
}

// ─── UI mode, focus, pending actions, notifications ───────────────────────────

/// Which screen is shown.
#[derive(Debug, Clone, Copy, PartialEq, Eq, Structural)]
pub enum UiMode {
    ProfileList,
    NewProfile,
    EditProfile,
    Connect,
    Help,
}

/// Which widget has the keyboard focus.
#[derive(Debug, Clone, Copy, PartialEq, Eq, Structural)]
pub enum Focus {
    ProfileList,
    ProfileItem(usize),
    ProfileName,
    Host,
    Port,
    Username,
    Password,
    SudoPassword,
    SavePassword,
    UseSudoPassword,
    Connect,
    Disconnect,
    Logs,
    CertAccept,
    CertDeny,
    ActionConfirmAccept,
    ActionConfirmDeny,
    TokenInput,
    HelpPopup,
}

/// An action that waits for the user's confirmation.
#[derive(Debug, Clone, Copy, PartialEq, Eq, Structural)]
pub enum PendingAction {
    DisconnectActive,
    DisconnectAll,
    CloseActive,
    CloseAllIdle,
}

/// The title of each confirmation dialog.
pub open spec fn action_title(a: PendingAction) -> Seq<char> {
    match a {
        PendingAction::DisconnectActive => "DISCONNECT SESSION"@,
        PendingAction::DisconnectAll => "DISCONNECT ALL SESSIONS"@,
        PendingAction::CloseActive => "CLOSE SESSION TAB"@,
        PendingAction::CloseAllIdle => "CLOSE IDLE TABS"@,
    }
}

impl PendingAction {
    /// The title of the confirmation dialog for this action.
    pub fn title(&self) -> (r: &'static str)
        ensures
            r@ == action_title(*self),
    {
        match self {
            PendingAction::DisconnectActive => "DISCONNECT SESSION",
            PendingAction::DisconnectAll => "DISCONNECT ALL SESSIONS",
            PendingAction::CloseActive => "CLOSE SESSION TAB",
            PendingAction::CloseAllIdle => "CLOSE IDLE TABS",
        }
    }
}

/// Severity of a notification.
#[derive(Debug, Clone, Copy, PartialEq, Eq, Structural)]
pub enum NotifLevel {
    Info,
    Success,
    Warning,
    Error,
}

/// How many ticks a notification stays on screen.
pub const NOTIFICATION_TICKS: u8 = 60;

// ─── Events from the connection tasks ─────────────────────────────────────────

/// What the connection tasks report back to the interface.
#[derive(Debug)]
pub enum AppEvent {
    LogLine { session_id: u64, line: String },
    DebugLog(String),
    StateChanged { session_id: u64, state: VpnState },
    NeedToken(u64),
    CertError { session_id: u64, cert: CertInfo },
    SpeedUpdate {
        session_id: u64,
        interface: String,
        rx_bps: u64,
        tx_bps: u64,
        rx_total: u64,
        tx_total: u64,
    },
}

/// The mathematical value of an [`AppEvent`].
pub enum AppEventView {
    LogLine { session_id: u64, line: Seq<char> },
    DebugLog(Seq<char>),
    StateChanged { session_id: u64, state: VpnStateView },
    NeedToken(u64),
    CertError { session_id: u64, cert: CertView },
    SpeedUpdate {
        session_id: u64,
        interface: Seq<char>,
        rx_bps: u64,
        tx_bps: u64,
        rx_total: u64,
        tx_total: u64,
    },
}

impl View for AppEvent {
    type V = AppEventView;

    open spec fn view(&self) -> AppEventView {
        match self {
            AppEvent::LogLine { session_id, line } => AppEventView::LogLine {
                session_id: *session_id,
                line: line@,
            },
            AppEvent::DebugLog(l) => AppEventView::DebugLog(l@),
            AppEvent::StateChanged { session_id, state } => AppEventView::StateChanged {
                session_id: *session_id,
                state: state@,
            },
            AppEvent::NeedToken(id) => AppEventView::NeedToken(*id),
            AppEvent::CertError { session_id, cert } => AppEventView::CertError {
                session_id: *session_id,
                cert: cert@,
            },
            AppEvent::SpeedUpdate { session_id, interface, rx_bps, tx_bps, rx_total, tx_total } =>
            AppEventView::SpeedUpdate {
                session_id: *session_id,
                interface: interface@,
                rx_bps: *rx_bps,
                tx_bps: *tx_bps,
                rx_total: *rx_total,
                tx_total: *tx_total,
            },
        }
    }
}

/// A list of events taken by their values.
pub open spec fn events_view(v: Seq<AppEvent>) -> Seq<AppEventView> {
    v.map_values(|e: AppEvent| e@)
}

// ─── Work for the runtime ─────────────────────────────────────────────────────

/// The parameters of one connection attempt.
#[derive(Debug)]
pub struct ConnectRequest {
    pub session_id: u64,
    pub host: String,
    pub port: u16,
    pub username: String,
    pub password: String,
    pub sudo_password: Option<String>,
    pub trusted_cert: Option<String>,
}

/// The mathematical value of a [`ConnectRequest`].
pub struct ConnectRequestView {
    pub session_id: u64,
    pub host: Seq<char>,
    pub port: u16,
    pub username: Seq<char>,
    pub password: Seq<char>,
    pub sudo_password: Option<Seq<char>>,
    pub trusted_cert: Option<Seq<char>>,
}

impl View for ConnectRequest {
    type V = ConnectRequestView;

    open spec fn view(&self) -> ConnectRequestView {
        ConnectRequestView {
            session_id: self.session_id,
            host: self.host@,
            port: self.port,
            username: self.username@,
            password: self.password@,
            sudo_password: opt_view(self.sudo_password),
            trusted_cert: opt_view(self.trusted_cert),
        }
    }
}

/// Work that a state change asks the runtime to carry out: shared flags to
/// set, connection tasks to start, configuration to write.
#[derive(Debug)]
pub enum Effect {
    /// Set the session's "waiting for user input" flag, which the connection
    /// tasks read.
    SetWaitingFlag { session_id: u64, waiting: bool },
    /// Start a connection; `reconnect` tells which failure message to log.
    Connect { request: ConnectRequest, reconnect: bool },
    /// Send an OTP token to the session's VPN process.
    SendToken { session_id: u64, token: String },
    /// Stop the session's VPN process.
    Disconnect { session_id: u64 },
    /// Write this configuration; `report` asks for the outcome to be traced.
    SaveConfig { config: Config, report: bool },
    /// Delete the named profile from the stored configuration.
    DeleteProfile { name: String },
    /// Store a profile, replacing the stored one called `replace`.
    SaveProfile { profile: VpnProfile, replace: Option<String> },
}

/// The mathematical value of an [`Effect`].
pub enum EffectView {
    SetWaitingFlag { session_id: u64, waiting: bool },
    Connect { request: ConnectRequestView, reconnect: bool },
    SendToken { session_id: u64, token: Seq<char> },
    Disconnect { session_id: u64 },
    SaveConfig { config: ConfigView, report: bool },
    DeleteProfile { name: Seq<char> },
    SaveProfile { profile: ProfileView, replace: Option<Seq<char>> },
}

impl View for Effect {
    type V = EffectView;

    open spec fn view(&self) -> EffectView {
        match self {
            Effect::SetWaitingFlag { session_id, waiting } => EffectView::SetWaitingFlag {
                session_id: *session_id,
                waiting: *waiting,
            },
            Effect::Connect { request, reconnect } => EffectView::Connect {
                request: request@,
                reconnect: *reconnect,
            },
            Effect::SendToken { session_id, token } => EffectView::SendToken {
                session_id: *session_id,
                token: token@,
            },
            Effect::Disconnect { session_id } => EffectView::Disconnect { session_id: *session_id },
            Effect::SaveConfig { config, report } => EffectView::SaveConfig {
                config: config@,
                report: *report,
            },
            Effect::DeleteProfile { name } => EffectView::DeleteProfile { name: name@ },
            Effect::SaveProfile { profile, replace } => EffectView::SaveProfile {
                profile: profile@,
                replace: opt_view(*replace),
            },
        }
    }
}

/// A list of effects taken by their values.
pub open spec fn effects_view(v: Seq<Effect>) -> Seq<EffectView> {
    v.map_values(|e: Effect| e@)
}

/// How reading and writing the stored configuration went.
#[derive(Debug)]
pub enum ConfigOutcome {
    /// Reading the configuration failed, with this error text.
    LoadFailed(String),
    /// Writing the configuration failed, with this error text.
    SaveFailed(String),
    /// The configuration was written; these are its profiles.
    Saved(Vec<VpnProfile>),
}

/// The mathematical value of a [`ConfigOutcome`].
pub enum ConfigOutcomeView {
    LoadFailed(Seq<char>),
    SaveFailed(Seq<char>),
    Saved(Seq<ProfileView>),
}

impl View for ConfigOutcome {
    type V = ConfigOutcomeView;

    open spec fn view(&self) -> ConfigOutcomeView {
        match self {
            ConfigOutcome::LoadFailed(e) => ConfigOutcomeView::LoadFailed(e@),
            ConfigOutcome::SaveFailed(e) => ConfigOutcomeView::SaveFailed(e@),
            ConfigOutcome::Saved(ps) => ConfigOutcomeView::Saved(profiles_view(ps@)),
        }
    }
}

// ─── Connection session ───────────────────────────────────────────────────────

/// One open connection tab, made from a profile.
#[derive(Debug)]
pub struct ConnectionSession {
    pub id: u64,
    pub profile_name: String,
    pub host: String,
    pub port: u16,
    pub username: String,
    pub password: String,
    pub sudo_password: String,
    pub token_input: String,
    pub vpn_state: VpnState,
    pub logs: Vec<String>,
    pub log_scroll: usize,
    pub pending_cert: Option<CertInfo>,
    pub trusted_cert: Option<String>,
}

/// The mathematical value of a [`ConnectionSession`].
pub struct SessionView {
    pub id: u64,
    pub profile_name: Seq<char>,
    pub host: Seq<char>,
    pub port: u16,
    pub username: Seq<char>,
    pub password: Seq<char>,
    pub sudo_password: Seq<char>,
    pub token_input: Seq<char>,
    pub vpn_state: VpnStateView,
    pub logs: Seq<Seq<char>>,
    pub log_scroll: usize,
    pub pending_cert: Option<CertView>,
    pub trusted_cert: Option<Seq<char>>,
}

impl View for ConnectionSession {
    type V = SessionView;

    open spec fn view(&self) -> SessionView {
        SessionView {
            id: self.id,
            profile_name: self.profile_name@,
            host: self.host@,
            port: self.port,
            username: self.username@,
            password: self.password@,
            sudo_password: self.sudo_password@,
            token_input: self.token_input@,
            vpn_state: self.vpn_state@,
            logs: self.logs.deep_view(),
            log_scroll: self.log_scroll,
            pending_cert: opt_cert_view(self.pending_cert),
            trusted_cert: opt_view(self.trusted_cert),
        }
    }
}

impl SessionView {
    /// A fresh session for a profile.
    pub open spec fn from_profile(id: u64, p: ProfileView) -> SessionView {
        SessionView {
            id,
            profile_name: p.name,
            host: p.host,
            port: p.port,
            username: p.username,
            password: p.password,
            sudo_password: p.sudo_password,
            token_input: seq![],
            vpn_state: VpnStateView::Disconnected,
            logs: seq![],
            log_scroll: 0,
            pending_cert: None,
            trusted_cert: p.trusted_cert,
        }
    }

    /// The session with `line` appended to its log, scrolled to that line.
    pub open spec fn with_log(self, line: Seq<char>) -> SessionView {
        SessionView { logs: self.logs.push(line), log_scroll: self.logs.len() as usize, ..self }
    }
}

impl ConnectionSession {
    /// A disconnected session with the connection fields of `profile`.
    pub fn new(id: u64, profile: &VpnProfile) -> (r: Self)
        ensures
            r@ == SessionView::from_profile(id, profile@),
    {
        let r = ConnectionSession {
            id,
            profile_name: profile.name.clone(),
            host: profile.host.clone(),
            port: profile.port,
            username: profile.username.clone(),
            password: profile.password.clone(),
            sudo_password: profile.sudo_password.clone(),
            token_input: String::new(),
            vpn_state: VpnState::Disconnected,
            logs: Vec::new(),
            log_scroll: 0,
            pending_cert: None,
            trusted_cert: clone_opt_string(&profile.trusted_cert),
        };
        assert(r.logs.deep_view() =~= Seq::<Seq<char>>::empty());
        r
    }

    /// Appends a line to the session log and scrolls to it.
    pub fn push_log(&mut self, line: String)
        requires
            old(self).logs@.len() < usize::MAX,
        ensures
            final(self)@ == old(self)@.with_log(line@),
    {
        self.logs.push(line);
        self.log_scroll = self.logs.len() - 1;
        assert(self.logs.deep_view() =~= old(self).logs.deep_view().push(line@));
    }
}

// ─── Application state ────────────────────────────────────────────────────────

/// The whole interface state.
#[derive(Debug)]
pub struct App {
    pub ui_mode: UiMode,
    pub previous_ui_mode: Option<UiMode>,
    pub focus: Focus,
    pub show_password: bool,
    pub logs: Vec<String>,
    pub log_scroll: usize,
    pub notification: Option<(String, NotifLevel)>,
    pub notification_ttl: u8,
    pub pending_action: Option<PendingAction>,
    pub sessions: Vec<ConnectionSession>,
    pub active_session_index: Option<usize>,
    pub next_session_id: u64,
    pub profiles: Vec<VpnProfile>,
    pub selected_profile_index: usize,
    pub delete_confirmation: Option<String>,
    pub profile_name: String,
    pub profile_host: String,
    pub profile_port: String,
    pub profile_username: String,
    pub profile_password: String,
    pub profile_sudo_password: String,
    pub profile_save_password: bool,
    pub profile_use_sudo_password: bool,
    pub editing_profile_name: Option<String>,
    pub debug_enabled: bool,
    pub should_quit: bool,
}

/// The mathematical value of an [`App`].
pub struct AppView {
    pub ui_mode: UiMode,
    pub previous_ui_mode: Option<UiMode>,
    pub focus: Focus,
    pub show_password: bool,
    pub logs: Seq<Seq<char>>,
    pub log_scroll: usize,
    pub notification: Option<(Seq<char>, NotifLevel)>,
    pub notification_ttl: u8,
    pub pending_action: Option<PendingAction>,
    pub sessions: Seq<SessionView>,
    pub active_session_index: Option<usize>,
    pub next_session_id: u64,
    pub profiles: Seq<ProfileView>,
    pub selected_profile_index: usize,
    pub delete_confirmation: Option<Seq<char>>,
    pub profile_name: Seq<char>,
    pub profile_host: Seq<char>,
    pub profile_port: Seq<char>,
    pub profile_username: Seq<char>,
    pub profile_password: Seq<char>,
    pub profile_sudo_password: Seq<char>,
    pub profile_save_password: bool,
    pub profile_use_sudo_password: bool,
    pub editing_profile_name: Option<Seq<char>>,
    pub debug_enabled: bool,
    pub should_quit: bool,
}

/// The sessions of `v`, each taken by its value.
pub open spec fn sessions_view(v: Seq<ConnectionSession>) -> Seq<SessionView> {
    v.map_values(|s: ConnectionSession| s@)
}

/// A notification taken by its value.
pub open spec fn notif_view(n: Option<(String, NotifLevel)>) -> Option<(Seq<char>, NotifLevel)> {
    match n {
        Some((m, l)) => Some((m@, l)),
        None => None,
    }
}

impl View for App {
    type V = AppView;

    open spec fn view(&self) -> AppView {
        AppView {
            ui_mode: self.ui_mode,
            previous_ui_mode: self.previous_ui_mode,
            focus: self.focus,
            show_password: self.show_password,
            logs: self.logs.deep_view(),
            log_scroll: self.log_scroll,
            notification: notif_view(self.notification),
            notification_ttl: self.notification_ttl,
            pending_action: self.pending_action,
            sessions: sessions_view(self.sessions@),
            active_session_index: self.active_session_index,
            next_session_id: self.next_session_id,
            profiles: profiles_view(self.profiles@),
            selected_profile_index: self.selected_profile_index,
            delete_confirmation: opt_view(self.delete_confirmation),
            profile_name: self.profile_name@,
            profile_host: self.profile_host@,
            profile_port: self.profile_port@,
            profile_username: self.profile_username@,
            profile_password: self.profile_password@,
            profile_sudo_password: self.profile_sudo_password@,
            profile_save_password: self.profile_save_password,
            profile_use_sudo_password: self.profile_use_sudo_password,
            editing_profile_name: opt_view(self.editing_profile_name),
            debug_enabled: self.debug_enabled,
            should_quit: self.should_quit,
        }
    }
}

/// A session replaced.
pub open spec fn update_session(a: AppView, i: int, s: SessionView) -> AppView {
    AppView { sessions: a.sessions.update(i, s), ..a }
}

/// The configuration that the interface state describes: its profiles and
/// the name of the selected one.
pub open spec fn current_config(a: AppView) -> ConfigView {
    ConfigView {
        profiles: a.profiles,
        selected_profile: match a.current_profile() {
            Some(p) => Some(p.name),
            None => None,
        },
    }
}

/// The log line written when the user goes back to the profile list.
pub open spec fn back_to_list_line() -> Seq<char> {
    "[APP] Kembali ke daftar profile"@
}

impl AppView {
    /// The interface as it starts.
    pub open spec fn initial(debug_enabled: bool) -> AppView {
        AppView {
            ui_mode: UiMode::ProfileList,
            previous_ui_mode: None,
            focus: Focus::ProfileList,
            show_password: false,
            logs: seq![],
            log_scroll: 0,
            notification: None,
            notification_ttl: 0,
            pending_action: None,
            sessions: seq![],
            active_session_index: None,
            next_session_id: 1,
            profiles: seq![],
            selected_profile_index: 0,
            delete_confirmation: None,
            profile_name: seq![],
            profile_host: seq![],
            profile_port: "443"@,
            profile_username: seq![],
            profile_password: seq![],
            profile_sudo_password: seq![],
            profile_save_password: false,
            profile_use_sudo_password: false,
            editing_profile_name: None,
            debug_enabled,
            should_quit: false,
        }
    }

    /// The index of the active session, when it names an existing session.
    pub open spec fn active_index(self) -> Option<int> {
        match self.active_session_index {
            Some(i) => if i < self.sessions.len() {
                Some(i as int)
            } else {
                None
            },
            None => None,
        }
    }

    /// The active session.
    pub open spec fn active(self) -> Option<SessionView> {
        match self.active_index() {
            Some(i) => Some(self.sessions[i]),
            None => None,
        }
    }

    /// The connection state of the active session (disconnected when none).
    pub open spec fn active_state(self) -> VpnStateView {
        match self.active() {
            Some(s) => s.vpn_state,
            None => VpnStateView::Disconnected,
        }
    }

    /// A dialog covers the screen: the token prompt, the certificate prompt,
    /// the help screen, or a confirmation.
    pub open spec fn has_modal(self) -> bool {
        self.active_state() is WaitingToken || self.active_state() is WaitingCert || self.ui_mode
            == UiMode::Help || self.pending_action is Some
    }

    /// `line` appended to the active session's log, or to the application
    /// log when no session is active.
    pub open spec fn with_log(self, line: Seq<char>) -> AppView {
        match self.active_index() {
            Some(i) => AppView {
                sessions: self.sessions.update(i, self.sessions[i].with_log(line)),
                ..self
            },
            None => AppView {
                logs: self.logs.push(line),
                log_scroll: self.logs.len() as usize,
                ..self
            },
        }
    }

    /// A notification shown for the full time.
    pub open spec fn notified(self, msg: Seq<char>, level: NotifLevel) -> AppView {
        AppView {
            notification: Some((msg, level)),
            notification_ttl: NOTIFICATION_TICKS,
            ..self
        }
    }

    /// One tick of the notification timer.
    pub open spec fn ticked(self) -> AppView {
        if self.notification_ttl > 0 {
            let ttl = (self.notification_ttl - 1) as u8;
            AppView {
                notification_ttl: ttl,
                notification: if ttl == 0 {
                    None
                } else {
                    self.notification
                },
                ..self
            }
        } else {
            self
        }
    }

    /// Session `index` made active, when it exists.
    pub open spec fn activated(self, index: int) -> AppView {
        if 0 <= index < self.sessions.len() {
            AppView {
                active_session_index: Some(index as usize),
                ui_mode: UiMode::Connect,
                focus: Focus::Connect,
                ..self
            }
        } else {
            self
        }
    }

    /// The next session (wrapping around) made active.
    pub open spec fn next_activated(self) -> AppView {
        if self.sessions.len() == 0 {
            self
        } else {
            let next = match self.active_session_index {
                Some(i) => (i + 1) % (self.sessions.len() as int),
                None => 0,
            };
            self.activated(next)
        }
    }

    /// The previous session (wrapping around) made active.
    pub open spec fn prev_activated(self) -> AppView {
        if self.sessions.len() == 0 {
            self
        } else {
            let prev = match self.active_session_index {
                Some(i) => if i == 0 {
                    self.sessions.len() - 1
                } else {
                    i - 1
                },
                None => self.sessions.len() - 1,
            };
            self.activated(prev)
        }
    }

    /// Position of the first session with id `id`.
    pub open spec fn session_with_id(self, id: u64) -> Option<int> {
        if exists|i: int| is_first_id(self.sessions, id, i) {
            Some(choose|i: int| is_first_id(self.sessions, id, i))
        } else {
            None
        }
    }

    /// Position of the first session opened for profile `name`.
    pub open spec fn session_for_profile(self, name: Seq<char>) -> Option<int> {
        if exists|i: int| is_first_profile(self.sessions, name, i) {
            Some(choose|i: int| is_first_profile(self.sessions, name, i))
        } else {
            None
        }
    }

    /// The selected profile, when the selection names one.
    pub open spec fn current_profile(self) -> Option<ProfileView> {
        if self.selected_profile_index < self.profiles.len() {
            Some(self.profiles[self.selected_profile_index as int])
        } else {
            None
        }
    }

    /// Opens (or re-opens) the session for the selected profile.
    pub open spec fn session_ensured(self) -> (AppView, Option<u64>) {
        match self.current_profile() {
            None => (self, None),
            Some(p) => match self.session_for_profile(p.name) {
                Some(i) => (self.activated(i), Some(self.sessions[i].id)),
                None => {
                    let id = self.next_session_id;
                    let grown = AppView {
                        next_session_id: (id + 1) as u64,
                        sessions: self.sessions.push(SessionView::from_profile(id, p)),
                        ..self
                    };
                    (grown.activated(self.sessions.len() as int), Some(id))
                },
            },
        }
    }

    /// The active session closed; the neighbour that takes its place becomes
    /// active, or the profile list is shown when no session is left.
    pub open spec fn active_closed(self) -> AppView {
        match self.active_session_index {
            None => self,
            Some(i) => {
                let rest = self.sessions.remove(i as int);
                if rest.len() == 0 {
                    AppView {
                        sessions: rest,
                        active_session_index: None,
                        ui_mode: UiMode::ProfileList,
                        focus: Focus::ProfileList,
                        ..self
                    }
                } else {
                    let new_idx = if i < rest.len() {
                        i as int
                    } else {
                        rest.len() - 1
                    };
                    AppView { sessions: rest, ..self }.activated(new_idx)
                }
            },
        }
    }

    /// Focus moved forward in the current dialog or screen.
    pub open spec fn focus_forward(self) -> AppView {
        if self.active_state() is WaitingCert {
            AppView {
                focus: if self.focus == Focus::CertAccept {
                    Focus::CertDeny
                } else {
                    Focus::CertAccept
                },
                ..self
            }
        } else if self.pending_action is Some {
            AppView {
                focus: if self.focus == Focus::ActionConfirmAccept {
                    Focus::ActionConfirmDeny
                } else {
                    Focus::ActionConfirmAccept
                },
                ..self
            }
        } else if self.active_state() is WaitingToken {
            self
        } else if self.ui_mode == UiMode::Connect {
            AppView { focus: connect_focus_next(self.focus), ..self }
        } else {
            self
        }
    }

    /// Focus moved backward in the current dialog or screen.
    pub open spec fn focus_backward(self) -> AppView {
        if self.active_state() is WaitingCert {
            AppView {
                focus: if self.focus == Focus::CertDeny {
                    Focus::CertAccept
                } else {
                    Focus::CertDeny
                },
                ..self
            }
        } else if self.pending_action is Some {
            AppView {
                focus: if self.focus == Focus::ActionConfirmDeny {
                    Focus::ActionConfirmAccept
                } else {
                    Focus::ActionConfirmDeny
                },
                ..self
            }
        } else if self.active_state() is WaitingToken {
            self
        } else if self.ui_mode == UiMode::Connect {
            AppView { focus: connect_focus_prev(self.focus), ..self }
        } else {
            self
        }
    }

    /// The help screen shown.
    pub open spec fn help_shown(self) -> AppView {
        if self.ui_mode != UiMode::Help {
            AppView {
                previous_ui_mode: Some(self.ui_mode),
                ui_mode: UiMode::Help,
                focus: Focus::HelpPopup,
                ..self
            }
        } else {
            self
        }
    }

    /// The help screen closed, back to the screen it was opened from.
    pub open spec fn help_hidden(self) -> AppView {
        match self.previous_ui_mode {
            Some(m) => AppView {
                ui_mode: m,
                previous_ui_mode: None,
                focus: Focus::ProfileList,
                ..self
            },
            None => AppView { ui_mode: UiMode::ProfileList, focus: Focus::ProfileList, ..self },
        }
    }

    /// A trusted certificate recorded for the first profile called `name`
    /// and for every session opened from a profile of that name.
    pub open spec fn cert_trusted(self, name: Seq<char>, hash: Seq<char>) -> AppView {
        AppView {
            profiles: match crate::config::find_named(self.profiles, name) {
                Some(i) => self.profiles.update(
                    i,
                    ProfileView { trusted_cert: Some(hash), ..self.profiles[i] },
                ),
                None => self.profiles,
            },
            sessions: Seq::new(
                self.sessions.len(),
                |k: int|
                    if self.sessions[k].profile_name == name {
                        SessionView { trusted_cert: Some(hash), ..self.sessions[k] }
                    } else {
                        self.sessions[k]
                    },
            ),
            ..self
        }
    }

    /// The active session's log scrolled one line up.
    pub open spec fn scrolled_up(self) -> AppView {
        match self.active_index() {
            Some(i) => AppView {
                sessions: self.sessions.update(
                    i,
                    SessionView {
                        log_scroll: if self.sessions[i].log_scroll > 0 {
                            (self.sessions[i].log_scroll - 1) as usize
                        } else {
                            0
                        },
                        ..self.sessions[i]
                    },
                ),
                ..self
            },
            None => self,
        }
    }

    /// The active session's log scrolled one line down, not past its last line.
    pub open spec fn scrolled_down(self) -> AppView {
        match self.active_index() {
            Some(i) => if self.sessions[i].logs.len() > 0 && self.sessions[i].log_scroll
                < self.sessions[i].logs.len() - 1 {
                AppView {
                    sessions: self.sessions.update(
                        i,
                        SessionView {
                            log_scroll: (self.sessions[i].log_scroll + 1) as usize,
                            ..self.sessions[i]
                        },
                    ),
                    ..self
                }
            } else {
                self
            },
            None => self,
        }
    }

    /// Back from the connection screen or the profile form to the profile list.
    pub open spec fn back_to_list(self) -> AppView {
        if self.ui_mode == UiMode::Connect && !self.has_modal() {
            AppView { ui_mode: UiMode::ProfileList, focus: Focus::ProfileList, ..self }.with_log(
                back_to_list_line(),
            )
        } else if self.ui_mode == UiMode::NewProfile || self.ui_mode == UiMode::EditProfile {
            AppView {
                ui_mode: UiMode::ProfileList,
                focus: Focus::ProfileList,
                delete_confirmation: None,
                ..self
            }.with_log(back_to_list_line())
        } else {
            self
        }
    }

    /// Logs are short enough to take one more line.
    pub open spec fn logs_have_room(self) -> bool {
        self.log_room(1)
    }

    /// Every log (the application's and each session's) can take `k` more
    /// lines.
    pub open spec fn log_room(self, k: nat) -> bool {
        &&& self.logs.len() + k <= usize::MAX
        &&& forall|i: int|
            0 <= i < self.sessions.len() ==> #[trigger] self.sessions[i].logs.len() + k <= usize::MAX
    }

    /// The active index, when set, names an existing session.
    pub open spec fn active_in_range(self) -> bool {
        self.active_session_index matches Some(i) ==> i < self.sessions.len()
    }

    /// Session ids are distinct and below the next id to hand out; no two
    /// sessions belong to the same profile; the active index is in range.
    pub open spec fn sessions_wf(self) -> bool {
        &&& self.active_in_range()
        &&& self.session_ids_wf()
    }

    /// Session ids are distinct and below the next id to hand out; no two
    /// sessions belong to the same profile.
    pub open spec fn session_ids_wf(self) -> bool {
        &&& forall|i: int| 0 <= i < self.sessions.len() ==> #[trigger] self.sessions[i].id < self.next_session_id
        &&& forall|i: int, j: int|
            0 <= i < j < self.sessions.len() ==> #[trigger] self.sessions[i].id != #[trigger] self.sessions[j].id
        &&& forall|i: int, j: int|
            0 <= i < j < self.sessions.len() ==> #[trigger] self.sessions[i].profile_name
                != #[trigger] self.sessions[j].profile_name
    }
}


impl App {
    /// The interface as it starts: the profile list, no session, no profile.
    pub fn new(debug_enabled: bool) -> (r: App)
        ensures
            r@ == AppView::initial(debug_enabled),
    {
        let r = App {
            ui_mode: UiMode::ProfileList,
            previous_ui_mode: None,
            focus: Focus::ProfileList,
            show_password: false,
            logs: Vec::new(),
            log_scroll: 0,
            notification: None,
            notification_ttl: 0,
            pending_action: None,
            sessions: Vec::new(),
            active_session_index: None,
            next_session_id: 1,
            profiles: Vec::new(),
            selected_profile_index: 0,
            delete_confirmation: None,
            profile_name: String::new(),
            profile_host: String::new(),
            profile_port: owned("443"),
            profile_username: String::new(),
            profile_password: String::new(),
            profile_sudo_password: String::new(),
            profile_save_password: false,
            profile_use_sudo_password: false,
            editing_profile_name: None,
            debug_enabled,
            should_quit: false,
        };
        assert(r@.logs =~= Seq::<Seq<char>>::empty());
        assert(r@.sessions =~= Seq::<SessionView>::empty());
        assert(r@.profiles =~= Seq::<ProfileView>::empty());
        r
    }

    /// Appends a line to the active session's log, or to the application
    /// log when no session is active, and scrolls to it.
    pub fn push_log(&mut self, line: String)
        requires
            old(self)@.logs_have_room(),
        ensures
            final(self)@ == old(self)@.with_log(line@),
    {
        match self.active_session_index {
            Some(idx) if idx < self.sessions.len() => {
                proof {
                    assert(old(self)@.sessions[idx as int] == old(self).sessions@[idx as int]@);
                }
                self.sessions[idx].push_log(line);
                assert(sessions_view(self.sessions@) =~= old(self)@.sessions.update(
                    idx as int,
                    old(self)@.sessions[idx as int].with_log(line@),
                ));
            },
            _ => {
                self.logs.push(line);
                self.log_scroll = self.logs.len() - 1;
                assert(self.logs.deep_view() =~= old(self).logs.deep_view().push(line@));
            },
        }
    }

    /// Shows a notification for the full time.
    pub fn notify(&mut self, msg: String, level: NotifLevel)
        ensures
            final(self)@ == old(self)@.notified(msg@, level),
    {
        self.notification = Some((msg, level));
        self.notification_ttl = NOTIFICATION_TICKS;
    }

    /// One tick of the notification timer; the notification goes when the
    /// timer runs out.
    pub fn tick_notification(&mut self)
        ensures
            final(self)@ == old(self)@.ticked(),
    {
        if self.notification_ttl > 0 {
            self.notification_ttl -= 1;
            if self.notification_ttl == 0 {
                self.notification = None;
            }
        }
    }

    /// Whether a dialog covers the screen.
    pub fn has_modal(&self) -> (r: bool)
        ensures
            r == self@.has_modal(),
    {
        let st = self.active_session_state();
        let waiting = match st {
            VpnState::WaitingToken | VpnState::WaitingCert => true,
            _ => false,
        };
        waiting || self.ui_mode == UiMode::Help || self.pending_action.is_some()
    }

    /// Asks the user to confirm `action`.
    pub fn request_action_confirmation(&mut self, action: PendingAction)
        ensures
            final(self)@ == (AppView {
                pending_action: Some(action),
                focus: Focus::ActionConfirmAccept,
                ..old(self)@
            }),
    {
        self.pending_action = Some(action);
        self.focus = Focus::ActionConfirmAccept;
    }

    /// Drops the pending confirmation.
    pub fn clear_action_confirmation(&mut self)
        ensures
            final(self)@ == (AppView { pending_action: None, focus: Focus::Connect, ..old(self)@ }),
    {
        self.pending_action = None;
        self.focus = Focus::Connect;
    }

    /// The active session.
    pub fn active_session(&self) -> (r: Option<&ConnectionSession>)
        ensures
            match self@.active_index() {
                Some(i) => r == Some(&self.sessions@[i]),
                None => r is None,
            },
    {
        match self.active_session_index {
            Some(idx) => if idx < self.sessions.len() {
                Some(&self.sessions[idx])
            } else {
                None
            },
            None => None,
        }
    }

    /// The active session, to change in place.
    pub fn active_session_mut(&mut self) -> (r: Option<&mut ConnectionSession>)
        ensures
            match old(self)@.active_index() {
                Some(i) => r matches Some(s) && *s == old(self).sessions@[i] && final(self).sessions@
                    == old(self).sessions@.update(i, *final(s)) && (AppView {
                    sessions: old(self)@.sessions,
                    ..final(self)@
                }) == old(self)@,
                None => r is None && *final(self) == *old(self),
            },
    {
        match self.active_session_index {
            Some(idx) => if idx < self.sessions.len() {
                Some(&mut self.sessions[idx])
            } else {
                None
            },
            None => None,
        }
    }

    /// The connection state of the active session (disconnected when none).
    pub fn active_session_state(&self) -> (r: VpnState)
        ensures
            r@ == self@.active_state(),
    {
        match self.active_session() {
            Some(s) => s.vpn_state.clone(),
            None => VpnState::Disconnected,
        }
    }

    /// The profile name of the active session, or `NO SESSION`.
    pub fn active_session_label(&self) -> (r: String)
        ensures
            r@ == match self@.active() {
                Some(s) => s.profile_name,
                None => "NO SESSION"@,
            },
    {
        match self.active_session() {
            Some(s) => s.profile_name.clone(),
            None => owned("NO SESSION"),
        }
    }

    /// Position of the session with id `session_id`.
    pub fn find_session_index_by_id(&self, session_id: u64) -> (r: Option<usize>)
        ensures
            match r {
                Some(i) => self@.session_with_id(session_id) == Some(i as int),
                None => self@.session_with_id(session_id) is None,
            },
    {
        let ghost sv = self@.sessions;
        let mut i: usize = 0;
        while i < self.sessions.len()
            invariant
                i <= self.sessions@.len(),
                sv == self@.sessions,
                forall|j: int| 0 <= j < i ==> sv[j].id != session_id,
            decreases self.sessions@.len() - i,
        {
            if self.sessions[i].id == session_id {
                proof {
                    assert(is_first_id(sv, session_id, i as int));
                    let k = choose|k: int| is_first_id(sv, session_id, k);
                    assert(is_first_id(sv, session_id, k));
                    if k < i {
                        assert(sv[k].id == session_id);
                    }
                    if i < k {
                        assert(sv[i as int].id == session_id);
                    }
                }
                return Some(i);
            }
            i += 1;
        }
        None
    }

    /// Position of the session opened for profile `profile_name`.
    pub fn find_session_by_profile_name(&self, profile_name: &str) -> (r: Option<usize>)
        ensures
            match r {
                Some(i) => self@.session_for_profile(profile_name@) == Some(i as int),
                None => self@.session_for_profile(profile_name@) is None,
            },
    {
        let ghost sv = self@.sessions;
        let mut i: usize = 0;
        while i < self.sessions.len()
            invariant
                i <= self.sessions@.len(),
                sv == self@.sessions,
                forall|j: int| 0 <= j < i ==> sv[j].profile_name != profile_name@,
            decreases self.sessions@.len() - i,
        {
            if str_eq(self.sessions[i].profile_name.as_str(), profile_name) {
                proof {
                    let name = profile_name@;
                    assert(is_first_profile(sv, name, i as int));
                    let k = choose|k: int| is_first_profile(sv, name, k);
                    assert(is_first_profile(sv, name, k));
                    if k < i {
                        assert(sv[k].profile_name == name);
                    }
                    if i < k {
                        assert(sv[i as int].profile_name == name);
                    }
                }
                return Some(i);
            }
            i += 1;
        }
        None
    }

    /// Makes session `index` active and shows the connection screen.
    pub fn activate_session(&mut self, index: usize)
        ensures
            final(self)@ == old(self)@.activated(index as int),
    {
        if index < self.sessions.len() {
            self.active_session_index = Some(index);
            self.ui_mode = UiMode::Connect;
            self.focus = Focus::Connect;
        }
    }

    /// Makes the next session active, wrapping around.
    pub fn activate_next_session(&mut self)
        ensures
            final(self)@ == old(self)@.next_activated(),
    {
        if self.sessions.len() == 0 {
            return;
        }
        let next = match self.active_session_index {
            Some(idx) => if idx < usize::MAX {
                (idx + 1) % self.sessions.len()
            } else {
                // idx + 1 == usize::MAX + 1, whose remainder is
                // ((usize::MAX % len) + 1) % len
                ((idx % self.sessions.len()) + 1) % self.sessions.len()
            },
            None => 0,
        };
        proof {
            if let Some(idx) = self.active_session_index {
                if idx == usize::MAX {
                    let n = self.sessions.len() as int;
                    let x = idx as int;
                    assert(((x % n) + 1) % n == (x + 1) % n) by (nonlinear_arith)
                        requires
                            n > 0,
                    ;
                }
            }
        }
        self.activate_session(next);
    }

    /// Makes the previous session active, wrapping around.
    pub fn activate_prev_session(&mut self)
        ensures
            final(self)@ == old(self)@.prev_activated(),
    {
        if self.sessions.len() == 0 {
            return;
        }
        let prev = match self.active_session_index {
            Some(0) | None => self.sessions.len() - 1,
            Some(idx) => idx - 1,
        };
        self.activate_session(prev);
    }

    /// Opens the session for the selected profile, or re-opens the one that
    /// is already there, and gives its id; `None` when no profile is selected.
    pub fn ensure_session_for_selected_profile(&mut self) -> (r: Option<u64>)
        requires
            (old(self)@.current_profile() matches Some(p) && old(self)@.session_for_profile(p.name)
                is None) ==> old(self).next_session_id < u64::MAX,
        ensures
            (final(self)@, r) == old(self)@.session_ensured(),
    {
        if self.selected_profile_index >= self.profiles.len() {
            return None;
        }
        let profile = self.profiles[self.selected_profile_index].clone();
        proof {
            assert(old(self)@.current_profile() == Some(profile@));
        }
        match self.find_session_by_profile_name(profile.name.as_str()) {
            Some(idx) => {
                self.activate_session(idx);
                Some(self.sessions[idx].id)
            },
            None => {
                let session_id = self.next_session_id;
                self.next_session_id = self.next_session_id + 1;
                let ghost before = self@;
                self.sessions.push(ConnectionSession::new(session_id, &profile));
                assert(sessions_view(self.sessions@) =~= before.sessions.push(
                    SessionView::from_profile(session_id, profile@),
                ));
                let idx = self.sessions.len() - 1;
                self.activate_session(idx);
                Some(session_id)
            },
        }
    }

    /// Closes the active session; the neighbour that takes its place becomes
    /// active, or the profile list is shown when no session is left.
    pub fn close_active_session(&mut self)
        requires
            old(self)@.active_in_range(),
        ensures
            final(self)@ == old(self)@.active_closed(),
    {
        let idx = match self.active_session_index {
            Some(idx) => idx,
            None => {
                return;
            },
        };
        self.sessions.remove(idx);
        assert(sessions_view(self.sessions@) =~= old(self)@.sessions.remove(idx as int));
        if self.sessions.len() == 0 {
            self.active_session_index = None;
            self.ui_mode = UiMode::ProfileList;
            self.focus = Focus::ProfileList;
        } else {
            let last = self.sessions.len() - 1;
            let new_idx = if idx < last {
                idx
            } else {
                last
            };
            self.activate_session(new_idx);
        }
    }

    /// Moves the focus forward in the current dialog or screen.
    pub fn cycle_focus_forward(&mut self)
        ensures
            final(self)@ == old(self)@.focus_forward(),
    {
        let st = self.active_session_state();
        if let VpnState::WaitingCert = st {
            self.focus = match self.focus {
                Focus::CertAccept => Focus::CertDeny,
                _ => Focus::CertAccept,
            };
            return;
        }
        if self.pending_action.is_some() {
            self.focus = match self.focus {
                Focus::ActionConfirmAccept => Focus::ActionConfirmDeny,
                _ => Focus::ActionConfirmAccept,
            };
            return;
        }
        if let VpnState::WaitingToken = st {
            return;
        }
        if self.ui_mode == UiMode::Connect {
            self.focus = match self.focus {
                Focus::Host => Focus::Username,
                Focus::Username => Focus::Password,
                Focus::Password => Focus::SudoPassword,
                Focus::SudoPassword => Focus::Connect,
                Focus::Connect => Focus::Disconnect,
                Focus::Disconnect => Focus::Logs,
                Focus::Logs => Focus::Host,
                _ => Focus::Host,
            };
        }
    }

    /// Moves the focus backward in the current dialog or screen.
    pub fn cycle_focus_backward(&mut self)
        ensures
            final(self)@ == old(self)@.focus_backward(),
    {
        let st = self.active_session_state();
        if let VpnState::WaitingCert = st {
            self.focus = match self.focus {
                Focus::CertDeny => Focus::CertAccept,
                _ => Focus::CertDeny,
            };
            return;
        }
        if self.pending_action.is_some() {
            self.focus = match self.focus {
                Focus::ActionConfirmDeny => Focus::ActionConfirmAccept,
                _ => Focus::ActionConfirmDeny,
            };
            return;
        }
        if let VpnState::WaitingToken = st {
            return;
        }
        if self.ui_mode == UiMode::Connect {
            self.focus = match self.focus {
                Focus::Host => Focus::Logs,
                Focus::Username => Focus::Host,
                Focus::Password => Focus::Username,
                Focus::SudoPassword => Focus::Password,
                Focus::Connect => Focus::SudoPassword,
                Focus::Disconnect => Focus::Connect,
                Focus::Logs => Focus::Disconnect,
                _ => Focus::Host,
            };
        }
    }

    /// Shows the help screen.
    pub fn show_help(&mut self)
        ensures
            final(self)@ == old(self)@.help_shown(),
    {
        if self.ui_mode != UiMode::Help {
            self.previous_ui_mode = Some(self.ui_mode);
            self.ui_mode = UiMode::Help;
            self.focus = Focus::HelpPopup;
        }
    }

    /// Closes the help screen.
    pub fn hide_help(&mut self)
        ensures
            final(self)@ == old(self)@.help_hidden(),
    {
        match self.previous_ui_mode.take() {
            Some(prev_mode) => {
                self.ui_mode = prev_mode;
                self.focus = Focus::ProfileList;
            },
            None => {
                self.ui_mode = UiMode::ProfileList;
                self.focus = Focus::ProfileList;
            },
        }
    }

    /// The configuration to write: the profiles and the selected one's name.
    pub fn current_config(&self) -> (r: Config)
        ensures
            r@ == current_config(self@),
    {
        Config {
            profiles: crate::config::clone_profiles(&self.profiles),
            selected_profile: match self.get_current_profile() {
                Some(p) => Some(p.name.clone()),
                None => None,
            },
        }
    }

    /// Replaces the profile list.
    pub fn load_profiles(&mut self, profiles: Vec<VpnProfile>)
        ensures
            final(self)@ == (AppView { profiles: profiles_view(profiles@), ..old(self)@ }),
    {
        self.profiles = profiles;
    }

    /// Selects profile `index`, when it exists, and focuses it.
    pub fn select_profile(&mut self, index: usize)
        ensures
            final(self)@ == if index < old(self)@.profiles.len() {
                AppView {
                    selected_profile_index: index,
                    focus: Focus::ProfileItem(index),
                    ..old(self)@
                }
            } else {
                old(self)@
            },
    {
        if index < self.profiles.len() {
            self.selected_profile_index = index;
            self.focus = Focus::ProfileItem(index);
        }
    }

    /// The selected profile.
    pub fn get_current_profile(&self) -> (r: Option<&VpnProfile>)
        ensures
            match self@.current_profile() {
                Some(_) => r == Some(&self.profiles@[self.selected_profile_index as int]),
                None => r is None,
            },
    {
        if self.selected_profile_index < self.profiles.len() {
            Some(&self.profiles[self.selected_profile_index])
        } else {
            None
        }
    }

    /// Opens the session for the selected profile.
    pub fn apply_current_profile(&mut self)
        requires
            (old(self)@.current_profile() matches Some(p) && old(self)@.session_for_profile(p.name)
                is None) ==> old(self).next_session_id < u64::MAX,
        ensures
            final(self)@ == old(self)@.session_ensured().0,
    {
        let _ = self.ensure_session_for_selected_profile();
    }

    /// Records a trusted certificate for the first profile called
    /// `profile_name` and for every session opened from such a profile.
    pub fn update_profile_trusted_cert(&mut self, profile_name: &str, cert_hash: &str)
        ensures
            final(self)@ == old(self)@.cert_trusted(profile_name@, cert_hash@),
    {
        let ghost pre = self@;
        match crate::config::position_of_name(&self.profiles, profile_name) {
            Some(i) => {
                self.profiles[i].trusted_cert = Some(owned(cert_hash));
                assert(profiles_view(self.profiles@) =~= pre.profiles.update(
                    i as int,
                    ProfileView { trusted_cert: Some(cert_hash@), ..pre.profiles[i as int] },
                ));
            },
            None => {},
        }
        let ghost mid = self@;
        let n = self.sessions.len();
        let mut k: usize = 0;
        while k < n
            invariant
                n == self.sessions@.len(),
                n == pre.sessions.len(),
                k <= n,
                self@ == (AppView { sessions: self@.sessions, ..mid }),
                forall|j: int|
                    0 <= j < k ==> #[trigger] self@.sessions[j] == if pre.sessions[j].profile_name
                        == profile_name@ {
                        SessionView { trusted_cert: Some(cert_hash@), ..pre.sessions[j] }
                    } else {
                        pre.sessions[j]
                    },
                forall|j: int| k <= j < n ==> #[trigger] self@.sessions[j] == pre.sessions[j],
            decreases n - k,
        {
            let ghost before = sessions_view(self.sessions@);
            proof {
                assert(before[k as int] == pre.sessions[k as int]);
                assert(before[k as int] == self.sessions@[k as int]@);
            }
            if str_eq(self.sessions[k].profile_name.as_str(), profile_name) {
                self.sessions[k].trusted_cert = Some(owned(cert_hash));
                assert(sessions_view(self.sessions@)[k as int] == (SessionView {
                    trusted_cert: Some(cert_hash@),
                    ..pre.sessions[k as int]
                }));
            }
            assert forall|j: int| 0 <= j < n && j != k implies #[trigger] sessions_view(
                self.sessions@,
            )[j] == before[j] by {}
            k += 1;
        }
        assert(self@.sessions =~= old(self)@.cert_trusted(profile_name@, cert_hash@).sessions);
    }

    /// Scrolls the active session's log one line up.
    pub fn scroll_logs_up(&mut self)
        ensures
            final(self)@ == old(self)@.scrolled_up(),
    {
        let active = match self.active_session_index {
            Some(idx) => if idx < self.sessions.len() {
                Some(idx)
            } else {
                None
            },
            None => None,
        };
        match active {
            Some(idx) => {
                let ghost before = self@;
                let cur = self.sessions[idx].log_scroll;
                proof {
                    assert(before.sessions[idx as int] == self.sessions@[idx as int]@);
                }
                self.sessions[idx].log_scroll = if cur > 0 {
                    cur - 1
                } else {
                    0
                };
                assert(self@.sessions =~= before.scrolled_up().sessions);
                assert(self@ == before.scrolled_up());
            },
            None => {},
        }
    }

    /// Scrolls the active session's log one line down, not past the last line.
    pub fn scroll_logs_down(&mut self)
        ensures
            final(self)@ == old(self)@.scrolled_down(),
    {
        let active = match self.active_session_index {
            Some(idx) => if idx < self.sessions.len() {
                Some(idx)
            } else {
                None
            },
            None => None,
        };
        match active {
            Some(idx) => {
                let ghost before = self@;
                let len = self.sessions[idx].logs.len();
                proof {
                    assert(before.sessions[idx as int] == self.sessions@[idx as int]@);
                }
                if len > 0 && self.sessions[idx].log_scroll < len - 1 {
                    self.sessions[idx].log_scroll = self.sessions[idx].log_scroll + 1;
                    assert(self@.sessions =~= before.scrolled_down().sessions);
                    assert(self@ == before.scrolled_down());
                }
            },
            None => {},
        }
    }

    /// Goes back to the profile list from the connection screen (when no
    /// dialog is open) or from the profile form.
    pub fn back_to_profile_list(&mut self)
        requires
            old(self)@.logs_have_room(),
        ensures
            final(self)@ == old(self)@.back_to_list(),
    {
        if self.ui_mode == UiMode::Connect && !self.has_modal() {
            self.ui_mode = UiMode::ProfileList;
            self.focus = Focus::ProfileList;
            self.push_log(owned("[APP] Kembali ke daftar profile"));
        } else if self.ui_mode == UiMode::NewProfile || self.ui_mode == UiMode::EditProfile {
            self.ui_mode = UiMode::ProfileList;
            self.focus = Focus::ProfileList;
            self.delete_confirmation = None;
            self.push_log(owned("[APP] Kembali ke daftar profile"));
        }
    }
}

/// One more log line leaves room for one line less.
pub proof fn lemma_log_room(a: AppView, line: Seq<char>, k: nat)
    requires
        a.log_room(k + 1),
    ensures
        a.with_log(line).log_room(k),
        a.log_room(k),
{
    let b = a.with_log(line);
    assert forall|i: int| 0 <= i < b.sessions.len() implies #[trigger] b.sessions[i].logs.len() + k
        <= usize::MAX by {
        assert(a.sessions[i].logs.len() + k + 1 <= usize::MAX);
    }
}

/// Whether `i` is the first position of a session with id `id`.
pub open spec fn is_first_id(ss: Seq<SessionView>, id: u64, i: int) -> bool {
    &&& 0 <= i < ss.len()
    &&& ss[i].id == id
    &&& forall|j: int| 0 <= j < i ==> ss[j].id != id
}

/// Whether `i` is the first position of a session opened for profile `name`.
pub open spec fn is_first_profile(ss: Seq<SessionView>, name: Seq<char>, i: int) -> bool {
    &&& 0 <= i < ss.len()
    &&& ss[i].profile_name == name
    &&& forall|j: int| 0 <= j < i ==> ss[j].profile_name != name
}

/// The focus ring of the connection screen, forward.
pub open spec fn connect_focus_next(f: Focus) -> Focus {
    match f {
        Focus::Host => Focus::Username,
        Focus::Username => Focus::Password,
        Focus::Password => Focus::SudoPassword,
        Focus::SudoPassword => Focus::Connect,
        Focus::Connect => Focus::Disconnect,
        Focus::Disconnect => Focus::Logs,
        Focus::Logs => Focus::Host,
        _ => Focus::Host,
    }
}

/// The focus ring of the connection screen, backward.
pub open spec fn connect_focus_prev(f: Focus) -> Focus {
    match f {
        Focus::Host => Focus::Logs,
        Focus::Username => Focus::Host,
        Focus::Password => Focus::Username,
        Focus::SudoPassword => Focus::Password,
        Focus::Connect => Focus::SudoPassword,
        Focus::Disconnect => Focus::Connect,
        Focus::Logs => Focus::Disconnect,
        _ => Focus::Host,
    }
}

} // verus!
