//! What each key does on each screen and dialog, and how the interface
//! takes the outcome of configuration reads and writes.
use vstd::prelude::*;

use crate::config::{ProfileView, VpnProfile, find_named, opt_view, profiles_view, Config, ConfigView};
use crate::state::{
    ConfigOutcome, ConfigOutcomeView, current_config, update_session,
    App, AppEvent, AppEventView, AppView, CertInfo, CertView, ConnectRequest, ConnectRequestView,
    ConnectionSession, Effect, EffectView, Focus, NotifLevel, PendingAction, SessionView, UiMode,
    VpnState, VpnStateView, effects_view, lemma_log_room, sessions_view,
};
use crate::text::{
    concat2, concat3, decimal, has_sub, owned, parse_unsigned, parse_unsigned_chars, string_pop,
    string_push, to_chars, from_chars, trim, trim_chars, u64_to_decimal,
};

verus! {

// ─── Keys ─────────────────────────────────────────────────────────────────────

/// A key, as the terminal reports it.
#[derive(Debug, Clone, Copy, PartialEq, Eq, Structural)]
pub enum KeyCode {
    Char(char),
    Backspace,
    Delete,
    Enter,
    Esc,
    Tab,
    BackTab,
    Up,
    Down,
    Left,
    Right,
    PageUp,
    PageDown,
    F(u8),
    Other,
}

/// The modifier keys held with a key.
#[derive(Debug, Clone, Copy, PartialEq, Eq, Structural)]
pub struct Modifiers {
    pub shift: bool,
    pub control: bool,
    pub alt: bool,
    pub super_key: bool,
    pub hyper: bool,
    pub meta: bool,
}

/// A key press with its modifiers.
#[derive(Debug, Clone, Copy, PartialEq, Eq, Structural)]
pub struct Key {
    pub code: KeyCode,
    pub modifiers: Modifiers,
}

impl Modifiers {
    /// Exactly Control held.
    pub open spec fn only_control(self) -> bool {
        self.control && !self.shift && !self.alt && !self.super_key && !self.hyper && !self.meta
    }

    /// Exactly Shift held.
    pub open spec fn only_shift(self) -> bool {
        self.shift && !self.control && !self.alt && !self.super_key && !self.hyper && !self.meta
    }

    /// Whether exactly Control is held.
    pub fn is_only_control(&self) -> (r: bool)
        ensures
            r == self.only_control(),
    {
        self.control && !self.shift && !self.alt && !self.super_key && !self.hyper && !self.meta
    }

    /// Whether exactly Shift is held.
    pub fn is_only_shift(&self) -> (r: bool)
        ensures
            r == self.only_shift(),
    {
        self.shift && !self.control && !self.alt && !self.super_key && !self.hyper && !self.meta
    }
}

// ─── Text fields ──────────────────────────────────────────────────────────────

/// A text field after a key: a character is appended, Backspace removes the
/// last character, Delete empties the field; other keys change nothing.
pub open spec fn text_edited(s: Seq<char>, code: KeyCode) -> Seq<char> {
    match code {
        KeyCode::Char(c) => s.push(c),
        KeyCode::Backspace => if s.len() > 0 {
            s.drop_last()
        } else {
            s
        },
        KeyCode::Delete => seq![],
        _ => s,
    }
}

/// Edits a text field with a key (see [`text_edited`]).
pub fn handle_text_input(field: &mut String, key: Key)
    ensures
        final(field)@ == text_edited(old(field)@, key.code),
{
    match key.code {
        KeyCode::Char(c) => string_push(field, c),
        KeyCode::Backspace => {
            let _ = string_pop(field);
        },
        KeyCode::Delete => {
            *field = String::new();
        },
        _ => {},
    }
}

/// Position of the last `c` in `s`.
pub open spec fn last_index_of(s: Seq<char>, c: char) -> Option<int>
    decreases s.len(),
{
    if s.len() == 0 {
        None
    } else if s.last() == c {
        Some(s.len() - 1)
    } else {
        last_index_of(s.drop_last(), c)
    }
}

proof fn lemma_last_index_of(s: Seq<char>, c: char, i: int)
    requires
        -1 <= i < s.len(),
        forall|j: int| i < j < s.len() ==> s[j] != c,
    ensures
        i >= 0 && s[i] == c ==> last_index_of(s, c) == Some(i),
        i == -1 ==> last_index_of(s, c) is None,
    decreases s.len(),
{
    if s.len() > 0 && i < s.len() - 1 {
        let t = s.drop_last();
        assert forall|j: int| i < j < t.len() implies t[j] != c by {
            assert(t[j] == s[j]);
        }
        lemma_last_index_of(t, c, i);
    }
}

/// A `host:port` text split at its last `:`; the port is 443 when it is
/// missing or not a `u16`.
pub open spec fn host_port(s: Seq<char>) -> (Seq<char>, u16) {
    match last_index_of(s, ':') {
        Some(i) => (
            s.subrange(0, i),
            match parse_unsigned(s.subrange(i + 1, s.len() as int), u16::MAX as nat) {
                Some(p) => p as u16,
                None => 443,
            },
        ),
        None => (s, 443),
    }
}

/// Splits a `host:port` text (see [`host_port`]).
pub fn parse_host_port(host_port_text: &str) -> (r: (String, u16))
    ensures
        (r.0@, r.1) == host_port(host_port_text@),
{
    let s = to_chars(host_port_text);
    let mut i = s.len();
    while i > 0
        invariant
            i <= s@.len(),
            s@ == host_port_text@,
            forall|j: int| i <= j < s@.len() ==> s@[j] != ':',
        decreases i,
    {
        if s[i - 1] == ':' {
            proof {
                lemma_last_index_of(s@, ':', i - 1);
            }
            let host = slice(&s, 0, i - 1);
            let rest = slice(&s, i, s.len());
            let port: u16 = match parse_unsigned_chars(&rest, 65535) {
                Some(p) => {
                    assert(p <= 65535);
                    p as u16
                },
                None => 443,
            };
            assert((port as int) == match parse_unsigned(s@.subrange(i as int, s@.len() as int), u16::MAX as nat) {
                Some(p) => p as u16 as int,
                None => 443,
            });
            return (from_chars(&host), port);
        }
        i -= 1;
    }
    proof {
        lemma_last_index_of(s@, ':', -1);
    }
    (owned(host_port_text), 443)
}

/// The characters `s[from..to]`.
fn slice(s: &[char], from: usize, to: usize) -> (r: Vec<char>)
    requires
        from <= to <= s@.len(),
    ensures
        r@ == s@.subrange(from as int, to as int),
{
    let mut r: Vec<char> = Vec::new();
    let mut i = from;
    while i < to
        invariant
            from <= i <= to <= s@.len(),
            r@ == s@.subrange(from as int, i as int),
        decreases to - i,
    {
        r.push(s[i]);
        i += 1;
        assert(r@ =~= s@.subrange(from as int, i as int));
    }
    r
}

/// A host and port written back to back, as the connection screen edits them.
pub fn host_port_text(host: &str, port: u16) -> (r: String)
    ensures
        r@ == host@ + ":"@ + decimal(port as nat),
{
    let p = u64_to_decimal(port as u64);
    concat3(host, ":", p.as_str())
}

/// Splitting `host:port` gives the host and the port back, whatever colons
/// the host holds.
pub proof fn law_host_port_roundtrip(host: Seq<char>, port: u16)
    ensures
        host_port(host + ":"@ + decimal(port as nat)) == (host, port),
{
    let s = host + ":"@ + decimal(port as nat);
    crate::text::lemma_parse_decimal(port as nat, u16::MAX as nat);
    assert(":"@ == seq![':']) by {
        reveal_strlit(":");
    }
    let d = decimal(port as nat);
    let i = host.len() as int;
    crate::text::lemma_decimal_no_colon(port as nat);
    assert forall|j: int| i < j < s.len() implies s[j] != ':' by {
        assert(s[j] == d[j - i - 1]);
    }
    assert(s[i] == ':');
    lemma_last_index_of(s, ':', i);
    assert(s.subrange(0, i) =~= host);
    assert(s.subrange(i + 1, s.len() as int) =~= d);
}

// ─── Connecting and disconnecting the active session ──────────────────────────

/// The active session's connection state set to `st`.
pub open spec fn with_active_state(a: AppView, i: int, st: VpnStateView) -> AppView {
    AppView { sessions: a.sessions.update(i, SessionView { vpn_state: st, ..a.sessions[i] }), ..a }
}

/// The connection request made from session `s`; an empty sudo password is
/// not passed on.
pub open spec fn request_of(s: SessionView, trusted_cert: Option<Seq<char>>) -> ConnectRequestView {
    ConnectRequestView {
        session_id: s.id,
        host: s.host,
        port: s.port,
        username: s.username,
        password: s.password,
        sudo_password: if s.sudo_password.len() == 0 {
            None
        } else {
            Some(s.sudo_password)
        },
        trusted_cert,
    }
}

/// The log line that announces a connection; it shows host and port, never
/// a password.
pub open spec fn connecting_log(host: Seq<char>, port: u16) -> Seq<char> {
    "[APP] Menghubungkan ke "@ + host + ":"@ + decimal(port as nat) + "..."@
}

/// Starting a connection for the active session, which exists.
pub open spec fn connect_active(a: AppView) -> (AppView, Seq<EffectView>) {
    match a.active_index() {
        None => (a, seq![]),
        Some(i) => {
            let s = a.sessions[i];
            if !s.vpn_state.is_idle() {
                (a.notified("Sudah terhubung atau sedang menghubungkan"@, NotifLevel::Warning), seq![])
            } else if s.host.len() == 0 || s.username.len() == 0 || s.password.len() == 0 {
                (a.notified("Host, Username, dan Password harus diisi"@, NotifLevel::Error), seq![])
            } else {
                let a3 = with_active_state(a, i, VpnStateView::Connecting).with_log(
                    connecting_log(s.host, s.port),
                );
                let a4 = if s.trusted_cert is Some {
                    a3.with_log("[APP] Menggunakan trusted cert yang tersimpan"@)
                } else {
                    a3
                };
                (
                    a4.notified("Menghubungkan ke VPN..."@, NotifLevel::Info),
                    seq![
                        EffectView::Connect {
                            request: request_of(s, s.trusted_cert),
                            reconnect: false,
                        },
                    ],
                )
            }
        },
    }
}

/// Connect: opens the session for the selected profile when none is
/// active, then starts the active session's connection when it is idle and
/// has a host, a user name and a password.
pub open spec fn connect(a: AppView) -> (AppView, Seq<EffectView>) {
    if a.active_session_index is None {
        let (a2, id) = a.session_ensured();
        match id {
            None => (a.notified("Pilih profile terlebih dahulu"@, NotifLevel::Warning), seq![]),
            Some(id) => {
                let a3 = match a2.session_with_id(id) {
                    Some(idx) => a2.activated(idx),
                    None => a2,
                };
                connect_active(a3)
            },
        }
    } else {
        connect_active(a)
    }
}

/// Disconnect: stops the active session's connection unless it is already
/// disconnected; its token input and pending certificate are dropped.
pub open spec fn disconnect(a: AppView) -> (AppView, Seq<EffectView>) {
    match a.active_index() {
        None => (a.notified("Tidak ada session aktif"@, NotifLevel::Info), seq![]),
        Some(i) => {
            let s = a.sessions[i];
            if s.vpn_state is Disconnected {
                (a.notified("Tidak ada koneksi aktif"@, NotifLevel::Info), seq![])
            } else {
                let a2 = AppView {
                    sessions: a.sessions.update(
                        i,
                        SessionView {
                            token_input: seq![],
                            pending_cert: None,
                            vpn_state: VpnStateView::Disconnecting,
                            ..s
                        },
                    ),
                    focus: Focus::Connect,
                    ..a
                };
                (
                    a2.with_log("[APP] Memutuskan koneksi VPN..."@).notified(
                        "Memutuskan koneksi..."@,
                        NotifLevel::Warning,
                    ),
                    seq![
                        EffectView::SetWaitingFlag { session_id: s.id, waiting: false },
                        EffectView::Disconnect { session_id: s.id },
                    ],
                )
            }
        },
    }
}

/// The connection request for a session.
fn request_for(s: &ConnectionSession, trusted_cert: Option<String>) -> (r: ConnectRequest)
    ensures
        r@ == request_of(s@, opt_view(trusted_cert)),
{
    ConnectRequest {
        session_id: s.id,
        host: s.host.clone(),
        port: s.port,
        username: s.username.clone(),
        password: s.password.clone(),
        sudo_password: if s.sudo_password.as_str().is_empty() {
            None
        } else {
            Some(s.sudo_password.clone())
        },
        trusted_cert,
    }
}

impl App {
    /// Starts the active session's connection (see [`connect_active`]).
    fn connect_active_session(&mut self) -> (r: Vec<Effect>)
        requires
            old(self)@.log_room(2),
        ensures
            (final(self)@, effects_view(r@)) == connect_active(old(self)@),
    {
        let ghost a = self@;
        let idx = match self.active_session_index {
            Some(i) => if i < self.sessions.len() {
                i
            } else {
                return Vec::new();
            },
            None => {
                return Vec::new();
            },
        };
        proof {
            assert(a.sessions[idx as int] == self.sessions@[idx as int]@);
        }
        if !self.sessions[idx].vpn_state.is_idle() {
            self.notify(owned("Sudah terhubung atau sedang menghubungkan"), NotifLevel::Warning);
            return Vec::new();
        }
        if self.sessions[idx].host.as_str().is_empty() || self.sessions[idx].username.as_str().is_empty()
            || self.sessions[idx].password.as_str().is_empty() {
            self.notify(owned("Host, Username, dan Password harus diisi"), NotifLevel::Error);
            return Vec::new();
        }
        let request = request_for(
            &self.sessions[idx],
            crate::text::clone_opt_string(&self.sessions[idx].trusted_cert),
        );
        let has_cert = self.sessions[idx].trusted_cert.is_some();
        let line = {
            let hp = host_port_text(self.sessions[idx].host.as_str(), self.sessions[idx].port);
            concat3("[APP] Menghubungkan ke ", hp.as_str(), "...")
        };
        assert(line@ =~= connecting_log(a.sessions[idx as int].host, a.sessions[idx as int].port));
        assert(request@ == request_of(a.sessions[idx as int], a.sessions[idx as int].trusted_cert));
        self.sessions[idx].vpn_state = VpnState::Connecting;
        assert(self@ == with_active_state(a, idx as int, VpnStateView::Connecting)) by {
            assert(self@.sessions =~= with_active_state(a, idx as int, VpnStateView::Connecting).sessions);
        }
        proof {
            lemma_log_room(self@, line@, 1);
        }
        self.push_log(line);
        if has_cert {
            proof {
                lemma_log_room(self@, "[APP] Menggunakan trusted cert yang tersimpan"@, 0);
            }
            self.push_log(owned("[APP] Menggunakan trusted cert yang tersimpan"));
        }
        self.notify(owned("Menghubungkan ke VPN..."), NotifLevel::Info);
        let mut effects: Vec<Effect> = Vec::new();
        effects.push(Effect::Connect { request, reconnect: false });
        assert(effects_view(effects@) =~= connect_active(a).1);
        effects
    }

    /// Connects (see [`connect`]).
    pub fn do_connect(&mut self) -> (r: Vec<Effect>)
        requires
            old(self)@.log_room(2),
            old(self).active_session_index is None ==> old(self).next_session_id < u64::MAX,
        ensures
            (final(self)@, effects_view(r@)) == connect(old(self)@),
    {
        if self.active_session_index.is_none() {
            match self.ensure_session_for_selected_profile() {
                None => {
                    self.notify(owned("Pilih profile terlebih dahulu"), NotifLevel::Warning);
                    return Vec::new();
                },
                Some(session_id) => {
                    match self.find_session_index_by_id(session_id) {
                        Some(idx) => self.activate_session(idx),
                        None => {},
                    }
                },
            }
            proof {
                let a = old(self)@;
                let a2 = a.session_ensured().0;
                assert(a2.log_room(2)) by {
                    assert forall|i: int| 0 <= i < a2.sessions.len() implies #[trigger] a2.sessions[i].logs.len()
                        + 2 <= usize::MAX by {
                        if i < a.sessions.len() {
                            assert(a2.sessions[i] == a.sessions[i]);
                        }
                    }
                }
            }
        }
        self.connect_active_session()
    }

    /// Disconnects (see [`disconnect`]).
    pub fn do_disconnect(&mut self) -> (r: Vec<Effect>)
        requires
            old(self)@.log_room(1),
        ensures
            (final(self)@, effects_view(r@)) == disconnect(old(self)@),
    {
        let ghost a = self@;
        let idx = match self.active_session_index {
            Some(i) => if i < self.sessions.len() {
                i
            } else {
                self.notify(owned("Tidak ada session aktif"), NotifLevel::Info);
                return Vec::new();
            },
            None => {
                self.notify(owned("Tidak ada session aktif"), NotifLevel::Info);
                return Vec::new();
            },
        };
        proof {
            assert(a.sessions[idx as int] == self.sessions@[idx as int]@);
        }
        if let VpnState::Disconnected = self.sessions[idx].vpn_state {
            self.notify(owned("Tidak ada koneksi aktif"), NotifLevel::Info);
            return Vec::new();
        }
        let session_id = self.sessions[idx].id;
        self.sessions[idx].token_input = String::new();
        self.sessions[idx].pending_cert = None;
        self.sessions[idx].vpn_state = VpnState::Disconnecting;
        self.focus = Focus::Connect;
        proof {
            let s = a.sessions[idx as int];
            assert(self@.sessions =~= a.sessions.update(
                idx as int,
                SessionView {
                    token_input: seq![],
                    pending_cert: None,
                    vpn_state: VpnStateView::Disconnecting,
                    ..s
                },
            ));
            lemma_log_room(self@, "[APP] Memutuskan koneksi VPN..."@, 0);
        }
        self.push_log(owned("[APP] Memutuskan koneksi VPN..."));
        self.notify(owned("Memutuskan koneksi..."), NotifLevel::Warning);
        let mut effects: Vec<Effect> = Vec::new();
        effects.push(Effect::SetWaitingFlag { session_id, waiting: false });
        effects.push(Effect::Disconnect { session_id });
        assert(effects_view(effects@) =~= disconnect(a).1);
        effects
    }
}

// ─── The OTP token prompt ─────────────────────────────────────────────────────

/// The active session's token input after a key.
pub open spec fn token_edited(a: AppView, code: KeyCode) -> AppView {
    match a.active_index() {
        Some(i) => update_session(
            a,
            i,
            SessionView { token_input: text_edited(a.sessions[i].token_input, code), ..a.sessions[i] },
        ),
        None => a,
    }
}

/// A key in the token prompt: typing edits the token; Enter sends the
/// trimmed token (never logged) unless it is empty; Esc drops it and
/// disconnects.
pub open spec fn token_popup(a: AppView, key: Key) -> (AppView, Seq<EffectView>) {
    match key.code {
        KeyCode::Char(_) | KeyCode::Backspace | KeyCode::Delete => (token_edited(a, key.code), seq![]),
        KeyCode::Enter => match a.active_index() {
            None => (a, seq![]),
            Some(i) => {
                let s = a.sessions[i];
                let token = trim(s.token_input);
                if token.len() == 0 {
                    (a.notified("Token tidak boleh kosong!"@, NotifLevel::Error), seq![])
                } else {
                    let a1 = a.with_log("[TOKEN] Mengirim token OTP..."@);
                    let a2 = update_session(
                        a1,
                        i,
                        SessionView {
                            token_input: seq![],
                            vpn_state: VpnStateView::Connecting,
                            ..a1.sessions[i]
                        },
                    );
                    (
                        AppView { focus: Focus::Disconnect, ..a2 },
                        seq![EffectView::SendToken { session_id: s.id, token }],
                    )
                }
            },
        },
        KeyCode::Esc => {
            let a1 = token_edited(a, KeyCode::Delete).with_log("[TOKEN] ❌ Token dibatalkan"@);
            let e1 = match a.active() {
                Some(s) => seq![EffectView::SetWaitingFlag { session_id: s.id, waiting: false }],
                None => seq![],
            };
            let (a2, e2) = disconnect(a1);
            (a2, e1 + e2)
        },
        _ => (a, seq![]),
    }
}

impl App {
    /// Edits the active session's token input.
    fn edit_token(&mut self, key: Key)
        ensures
            final(self)@ == token_edited(old(self)@, key.code),
    {
        let ghost a = self@;
        match self.active_session_index {
            Some(i) => {
                if i < self.sessions.len() {
                    proof {
                        assert(a.sessions[i as int] == self.sessions@[i as int]@);
                    }
                    handle_text_input(&mut self.sessions[i].token_input, key);
                    assert(self@.sessions =~= token_edited(a, key.code).sessions);
                }
            },
            None => {},
        }
    }

    /// A key in the token prompt (see [`token_popup`]).
    pub fn handle_token_popup(&mut self, key: Key) -> (r: Vec<Effect>)
        requires
            old(self)@.log_room(2),
        ensures
            (final(self)@, effects_view(r@)) == token_popup(old(self)@, key),
    {
        let ghost a = self@;
        match key.code {
            KeyCode::Char(_) | KeyCode::Backspace | KeyCode::Delete => {
                self.edit_token(key);
                Vec::new()
            },
            KeyCode::Enter => {
                let idx = match self.active_session_index {
                    Some(i) => if i < self.sessions.len() {
                        i
                    } else {
                        return Vec::new();
                    },
                    None => {
                        return Vec::new();
                    },
                };
                proof {
                    assert(a.sessions[idx as int] == self.sessions@[idx as int]@);
                }
                let session_id = self.sessions[idx].id;
                let token = crate::text::trim_str(self.sessions[idx].token_input.as_str());
                if token.as_str().is_empty() {
                    self.notify(owned("Token tidak boleh kosong!"), NotifLevel::Error);
                    return Vec::new();
                }
                proof {
                    lemma_log_room(self@, "[TOKEN] Mengirim token OTP..."@, 1);
                }
                self.push_log(owned("[TOKEN] Mengirim token OTP..."));
                let ghost a1 = self@;
                assert(self@.sessions.len() == a.sessions.len());
                proof {
                    assert(a1.sessions[idx as int] == self.sessions@[idx as int]@);
                }
                self.sessions[idx].token_input = String::new();
                self.sessions[idx].vpn_state = VpnState::Connecting;
                self.focus = Focus::Disconnect;
                assert(self@.sessions =~= token_popup(a, key).0.sessions);
                let mut effects: Vec<Effect> = Vec::new();
                effects.push(Effect::SendToken { session_id, token });
                assert(effects_view(effects@) =~= token_popup(a, key).1);
                effects
            },
            KeyCode::Esc => {
                let delete = Key { code: KeyCode::Delete, modifiers: key.modifiers };
                self.edit_token(delete);
                proof {
                    lemma_log_room(self@, "[TOKEN] ❌ Token dibatalkan"@, 1);
                }
                self.push_log(owned("[TOKEN] ❌ Token dibatalkan"));
                let mut effects: Vec<Effect> = Vec::new();
                match self.active_session() {
                    Some(s) => effects.push(Effect::SetWaitingFlag { session_id: s.id, waiting: false }),
                    None => {},
                }
                let mut more = self.do_disconnect();
                let ghost e1 = effects@;
                let ghost e2 = more@;
                effects.append(&mut more);
                assert(effects_view(effects@) =~= effects_view(e1) + effects_view(e2));
                effects
            },
            _ => Vec::new(),
        }
    }
}

// ─── The untrusted-certificate prompt ─────────────────────────────────────────

/// Accepting the pending certificate: it becomes the session's and the
/// profile's trusted certificate, the configuration is written, and the
/// session reconnects with it.
pub open spec fn accept_cert(a: AppView) -> (AppView, Seq<EffectView>) {
    match a.active_index() {
        None => (a, seq![]),
        Some(i) => {
            let s = a.sessions[i];
            match s.pending_cert {
                None => (a, seq![]),
                Some(cert) => {
                    let s1 = SessionView { pending_cert: None, ..s }.with_log(
                        "[CERT] ✔ Certificate diterima: "@ + cert.subject_cn,
                    );
                    let s2 = SessionView {
                        trusted_cert: Some(cert.hash),
                        vpn_state: VpnStateView::Connecting,
                        ..s1
                    };
                    let a1 = update_session(a, i, s2);
                    let a2 = a1.cert_trusted(s.profile_name, cert.hash);
                    let a3 = AppView { focus: Focus::Disconnect, ..a2 }.with_log(
                        "[APP] Menghubungkan ulang dengan cert trusted..."@,
                    );
                    (
                        a3,
                        seq![
                            EffectView::SaveConfig { config: current_config(a2), report: false },
                            EffectView::Connect {
                                request: request_of(s2, Some(cert.hash)),
                                reconnect: true,
                            },
                        ],
                    )
                },
            }
        },
    }
}

/// Refusing the pending certificate: the session gives up and disconnects.
pub open spec fn deny_cert(a: AppView) -> (AppView, Seq<EffectView>) {
    let cn = match a.active() {
        Some(s) => match s.pending_cert {
            Some(c) => c.subject_cn,
            None => seq![],
        },
        None => seq![],
    };
    let a1 = a.with_log("[CERT] ✖ Certificate ditolak: "@ + cn);
    let (a2, e) = match a1.active_index() {
        Some(i) => (
            update_session(
                a1,
                i,
                SessionView {
                    pending_cert: None,
                    vpn_state: VpnStateView::Disconnected,
                    ..a1.sessions[i]
                },
            ),
            seq![EffectView::SetWaitingFlag { session_id: a1.sessions[i].id, waiting: false }],
        ),
        None => (a1, seq![]),
    };
    (
        AppView { focus: Focus::Connect, ..a2 }.notified(
            "Certificate ditolak. Koneksi dibatalkan."@,
            NotifLevel::Warning,
        ),
        e,
    )
}

/// A key in the certificate prompt: Tab and the arrows move between the
/// buttons, `y` accepts, `n` and Esc refuse, Enter presses the focused button.
pub open spec fn cert_dialog(a: AppView, key: Key) -> (AppView, Seq<EffectView>) {
    match key.code {
        KeyCode::Tab | KeyCode::Right | KeyCode::Left => (
            AppView {
                focus: if a.focus == Focus::CertAccept {
                    Focus::CertDeny
                } else {
                    Focus::CertAccept
                },
                ..a
            },
            seq![],
        ),
        KeyCode::Char(c) => if c == 'y' || c == 'Y' {
            accept_cert(a)
        } else if c == 'n' || c == 'N' {
            deny_cert(a)
        } else {
            (a, seq![])
        },
        KeyCode::Esc => deny_cert(a),
        KeyCode::Enter => if a.focus == Focus::CertAccept {
            accept_cert(a)
        } else {
            deny_cert(a)
        },
        _ => (a, seq![]),
    }
}

impl App {
    /// Accepts the pending certificate (see [`accept_cert`]).
    fn accept_cert_and_reconnect(&mut self) -> (r: Vec<Effect>)
        requires
            old(self)@.log_room(2),
        ensures
            (final(self)@, effects_view(r@)) == accept_cert(old(self)@),
    {
        let ghost a = self@;
        let idx = match self.active_session_index {
            Some(i) => if i < self.sessions.len() {
                i
            } else {
                return Vec::new();
            },
            None => {
                return Vec::new();
            },
        };
        proof {
            assert(a.sessions[idx as int] == self.sessions@[idx as int]@);
        }
        let cert = match self.sessions[idx].pending_cert.take() {
            Some(c) => c,
            None => {
                assert(self@.sessions =~= a.sessions);
                return Vec::new();
            },
        };
        let profile_name = self.sessions[idx].profile_name.clone();
        proof {
            assert(self.sessions@[idx as int].logs.deep_view().len() + 2 <= usize::MAX);
        }
        self.sessions[idx].push_log(concat2("[CERT] ✔ Certificate diterima: ", cert.subject_cn.as_str()));
        self.sessions[idx].trusted_cert = Some(cert.hash.clone());
        self.sessions[idx].vpn_state = VpnState::Connecting;
        let ghost s2 = self.sessions@[idx as int]@;
        assert(self@ == accept_a1(a)) by {
            assert(self@.sessions =~= accept_a1(a).sessions);
        }
        let request = request_for(&self.sessions[idx], Some(cert.hash.clone()));
        self.update_profile_trusted_cert(profile_name.as_str(), cert.hash.as_str());
        let ghost a2 = self@;
        let config = self.current_config();
        self.focus = Focus::Disconnect;
        proof {
            lemma_cert_trusted_room(accept_a1(a), profile_name@, cert.hash@);
            lemma_log_room(self@, "[APP] Menghubungkan ulang dengan cert trusted..."@, 0);
        }
        self.push_log(owned("[APP] Menghubungkan ulang dengan cert trusted..."));
        let mut effects: Vec<Effect> = Vec::new();
        effects.push(Effect::SaveConfig { config, report: false });
        effects.push(Effect::Connect { request, reconnect: true });
        assert(effects_view(effects@) =~= accept_cert(a).1);
        effects
    }

    /// Refuses the pending certificate (see [`deny_cert`]).
    fn deny_cert(&mut self) -> (r: Vec<Effect>)
        requires
            old(self)@.log_room(1),
        ensures
            (final(self)@, effects_view(r@)) == deny_cert(old(self)@),
    {
        let ghost a = self@;
        let cn = match self.active_session() {
            Some(s) => match &s.pending_cert {
                Some(c) => c.subject_cn.clone(),
                None => String::new(),
            },
            None => String::new(),
        };
        proof {
            lemma_log_room(self@, ("[CERT] ✖ Certificate ditolak: "@ + cn@), 0);
        }
        self.push_log(concat2("[CERT] ✖ Certificate ditolak: ", cn.as_str()));
        let ghost a1 = self@;
        let mut effects: Vec<Effect> = Vec::new();
        match self.active_session_index {
            Some(i) => {
                if i < self.sessions.len() {
                    proof {
                        assert(a1.sessions[i as int] == self.sessions@[i as int]@);
                    }
                    self.sessions[i].pending_cert = None;
                    effects.push(Effect::SetWaitingFlag { session_id: self.sessions[i].id, waiting: false });
                    self.sessions[i].vpn_state = VpnState::Disconnected;
                    assert(self@.sessions =~= deny_cert(a).0.sessions);
                }
            },
            None => {},
        }
        self.focus = Focus::Connect;
        self.notify(owned("Certificate ditolak. Koneksi dibatalkan."), NotifLevel::Warning);
        assert(effects_view(effects@) =~= deny_cert(a).1);
        effects
    }

    /// A key in the certificate prompt (see [`cert_dialog`]).
    pub fn handle_cert_dialog(&mut self, key: Key) -> (r: Vec<Effect>)
        requires
            old(self)@.log_room(2),
        ensures
            (final(self)@, effects_view(r@)) == cert_dialog(old(self)@, key),
    {
        match key.code {
            KeyCode::Tab | KeyCode::Right | KeyCode::Left => {
                self.focus = match self.focus {
                    Focus::CertAccept => Focus::CertDeny,
                    _ => Focus::CertAccept,
                };
                Vec::new()
            },
            KeyCode::Char(c) => {
                if c == 'y' || c == 'Y' {
                    self.accept_cert_and_reconnect()
                } else if c == 'n' || c == 'N' {
                    self.deny_cert()
                } else {
                    Vec::new()
                }
            },
            KeyCode::Esc => self.deny_cert(),
            KeyCode::Enter => {
                if self.focus == Focus::CertAccept {
                    self.accept_cert_and_reconnect()
                } else {
                    self.deny_cert()
                }
            },
            _ => Vec::new(),
        }
    }
}

/// The interface right after the certificate was taken into the session.
pub open spec fn accept_a1(a: AppView) -> AppView {
    let i = a.active_index()->0;
    let s = a.sessions[i];
    let cert = s.pending_cert->0;
    let s1 = SessionView { pending_cert: None, ..s }.with_log(
        "[CERT] ✔ Certificate diterima: "@ + cert.subject_cn,
    );
    update_session(
        a,
        i,
        SessionView { trusted_cert: Some(cert.hash), vpn_state: VpnStateView::Connecting, ..s1 },
    )
}

/// Recording a trusted certificate leaves the logs alone.
proof fn lemma_cert_trusted_room(a: AppView, name: Seq<char>, hash: Seq<char>)
    ensures
        forall|k: nat| a.log_room(k) ==> #[trigger] a.cert_trusted(name, hash).log_room(k),
{
    assert forall|k: nat| a.log_room(k) implies #[trigger] a.cert_trusted(name, hash).log_room(k) by {
        let b = a.cert_trusted(name, hash);
        assert forall|i: int| 0 <= i < b.sessions.len() implies #[trigger] b.sessions[i].logs.len() + k
            <= usize::MAX by {
            assert(b.sessions[i].logs == a.sessions[i].logs);
        }
    }
}

// ─── Confirmed actions ────────────────────────────────────────────────────────

/// A connection that is up or being set up.
pub open spec fn is_live(st: VpnStateView) -> bool {
    st is Connected || st is Connecting || st is WaitingToken || st is WaitingCert
}

/// A live session being stopped: token input and pending certificate
/// dropped, state disconnecting.
pub open spec fn stopping(s: SessionView) -> SessionView {
    SessionView {
        token_input: seq![],
        pending_cert: None,
        vpn_state: VpnStateView::Disconnecting,
        ..s
    }
}

/// The sessions after every live one is told to stop.
pub open spec fn all_stopping(ss: Seq<SessionView>) -> Seq<SessionView> {
    Seq::new(ss.len(), |k: int| if is_live(ss[k].vpn_state) { stopping(ss[k]) } else { ss[k] })
}

/// The work to stop every live session, in order: clear its waiting flag,
/// then stop its process.
pub open spec fn stop_effects(ss: Seq<SessionView>) -> Seq<EffectView>
    decreases ss.len(),
{
    if ss.len() == 0 {
        seq![]
    } else {
        let e = stop_effects(ss.drop_last());
        let s = ss.last();
        if is_live(s.vpn_state) {
            e + seq![
                EffectView::SetWaitingFlag { session_id: s.id, waiting: false },
                EffectView::Disconnect { session_id: s.id },
            ]
        } else {
            e
        }
    }
}

/// How many sessions are live.
pub open spec fn live_count(ss: Seq<SessionView>) -> nat
    decreases ss.len(),
{
    if ss.len() == 0 {
        0
    } else {
        live_count(ss.drop_last()) + if is_live(ss.last().vpn_state) {
            1nat
        } else {
            0nat
        }
    }
}

/// Disconnecting every live session.
pub open spec fn disconnect_all(a: AppView) -> (AppView, Seq<EffectView>) {
    let n = live_count(a.sessions);
    let a1 = AppView { sessions: all_stopping(a.sessions), ..a };
    if n > 0 {
        (
            AppView { focus: Focus::Connect, ..a1 }.notified(
                "Memutuskan "@ + decimal(n) + " session..."@,
                NotifLevel::Warning,
            ).with_log("[APP] Memutuskan "@ + decimal(n) + " session aktif..."@),
            stop_effects(a.sessions),
        )
    } else {
        (a1.notified("Tidak ada session aktif untuk diputus"@, NotifLevel::Info), stop_effects(a.sessions))
    }
}

/// Closing the active tab, which is allowed only when its session is idle.
pub open spec fn close_active_tab(a: AppView) -> AppView {
    match a.active() {
        None => a,
        Some(s) => if s.vpn_state.is_idle() {
            a.active_closed().notified("Session '"@ + s.profile_name + "' ditutup"@, NotifLevel::Info)
        } else {
            a.notified("Disconnect session aktif dulu sebelum close tab"@, NotifLevel::Warning)
        },
    }
}

/// The test "is not idle".
pub open spec fn busy() -> spec_fn(SessionView) -> bool {
    |s: SessionView| !s.vpn_state.is_idle()
}

/// Closing every idle tab.
pub open spec fn close_idle(a: AppView) -> AppView {
    let kept = a.sessions.filter(busy());
    let removed = a.sessions.len() - kept.len();
    let a1 = AppView { sessions: kept, ..a };
    let a2 = if kept.len() == 0 {
        AppView {
            active_session_index: None,
            ui_mode: UiMode::ProfileList,
            focus: Focus::ProfileList,
            ..a1
        }
    } else if a1.active_session_index matches Some(idx) && idx >= kept.len() {
        a1.activated(kept.len() - 1)
    } else {
        a1
    };
    if removed > 0 {
        a2.notified(decimal(removed as nat) + " session ditutup"@, NotifLevel::Info)
    } else {
        a2.notified("Tidak ada session yang bisa ditutup"@, NotifLevel::Warning)
    }
}

/// Carrying out the confirmed action.
pub open spec fn execute_pending(a: AppView) -> (AppView, Seq<EffectView>) {
    match a.pending_action {
        None => (a, seq![]),
        Some(act) => {
            let a1 = AppView { pending_action: None, ..a };
            match act {
                PendingAction::DisconnectActive => disconnect(a1),
                PendingAction::DisconnectAll => disconnect_all(a1),
                PendingAction::CloseActive => (close_active_tab(a1), seq![]),
                PendingAction::CloseAllIdle => (close_idle(a1), seq![]),
            }
        },
    }
}

/// Dropping the pending action.
pub open spec fn cancel_pending(a: AppView) -> AppView {
    AppView { pending_action: None, focus: Focus::Connect, ..a }.notified(
        "Aksi dibatalkan"@,
        NotifLevel::Info,
    )
}

/// A key in the confirmation dialog: Tab and the arrows move between the
/// buttons, `y` confirms, `n` and Esc cancel, Enter presses the focused one.
pub open spec fn action_confirm(a: AppView, key: Key) -> (AppView, Seq<EffectView>) {
    match key.code {
        KeyCode::Tab | KeyCode::Left | KeyCode::Right => (a.focus_forward(), seq![]),
        KeyCode::Char(c) => if c == 'y' || c == 'Y' {
            execute_pending(a)
        } else if c == 'n' || c == 'N' {
            (cancel_pending(a), seq![])
        } else {
            (a, seq![])
        },
        KeyCode::Esc => (cancel_pending(a), seq![]),
        KeyCode::Enter => if a.focus == Focus::ActionConfirmAccept {
            execute_pending(a)
        } else {
            (cancel_pending(a), seq![])
        },
        _ => (a, seq![]),
    }
}

impl App {
    /// Stops every live session (see [`disconnect_all`]).
    pub fn disconnect_all_sessions(&mut self) -> (r: Vec<Effect>)
        requires
            old(self)@.log_room(1),
        ensures
            (final(self)@, effects_view(r@)) == disconnect_all(old(self)@),
    {
        let ghost a = self@;
        let mut effects: Vec<Effect> = Vec::new();
        let mut count: u64 = 0;
        let n = self.sessions.len();
        let mut k: usize = 0;
        while k < n
            invariant
                n == self.sessions@.len(),
                n == a.sessions.len(),
                k <= n,
                self@ == (AppView { sessions: self@.sessions, ..a }),
                forall|j: int| 0 <= j < k ==> #[trigger] self@.sessions[j] == all_stopping(a.sessions)[j],
                forall|j: int| k <= j < n ==> #[trigger] self@.sessions[j] == a.sessions[j],
                effects_view(effects@) == stop_effects(a.sessions.take(k as int)),
                count == live_count(a.sessions.take(k as int)),
                count <= k,
            decreases n - k,
        {
            let ghost before = self@.sessions;
            let ghost ev = effects_view(effects@);
            proof {
                assert(before[k as int] == self.sessions@[k as int]@);
                assert(a.sessions.take(k + 1).drop_last() =~= a.sessions.take(k as int));
                assert(a.sessions.take(k + 1).last() == a.sessions[k as int]);
            }
            let live = match self.sessions[k].vpn_state {
                VpnState::Connected | VpnState::Connecting | VpnState::WaitingToken
                | VpnState::WaitingCert => true,
                _ => false,
            };
            if live {
                let session_id = self.sessions[k].id;
                self.sessions[k].token_input = String::new();
                self.sessions[k].pending_cert = None;
                effects.push(Effect::SetWaitingFlag { session_id, waiting: false });
                self.sessions[k].vpn_state = VpnState::Disconnecting;
                count = count + 1;
                effects.push(Effect::Disconnect { session_id });
                assert(effects_view(effects@) =~= ev + seq![
                    EffectView::SetWaitingFlag { session_id, waiting: false },
                    EffectView::Disconnect { session_id },
                ]);
            }
            assert forall|j: int| 0 <= j < n && j != k implies #[trigger] self@.sessions[j]
                == before[j] by {}
            k += 1;
        }
        assert(a.sessions.take(n as int) =~= a.sessions);
        assert(self@.sessions =~= all_stopping(a.sessions));
        assert(effects_view(effects@) == disconnect_all(a).1);
        assert(self@ == (AppView { sessions: all_stopping(a.sessions), ..a }));
        if count > 0 {
            self.focus = Focus::Connect;
            let c = u64_to_decimal(count);
            self.notify(concat3("Memutuskan ", c.as_str(), " session..."), NotifLevel::Warning);
            proof {
                assert(self@.log_room(1)) by {
                    assert forall|i: int| 0 <= i < self@.sessions.len() implies #[trigger] self@.sessions[i].logs.len()
                        + 1 <= usize::MAX by {
                        assert(self@.sessions[i].logs == a.sessions[i].logs);
                    }
                }
            }
            self.push_log(concat3("[APP] Memutuskan ", c.as_str(), " session aktif..."));
        } else {
            self.notify(owned("Tidak ada session aktif untuk diputus"), NotifLevel::Info);
        }
        effects
    }

    /// Closes the active tab when its session is idle (see [`close_active_tab`]).
    pub fn close_active_tab(&mut self)
        ensures
            final(self)@ == close_active_tab(old(self)@),
    {
        let (idle, name) = match self.active_session() {
            Some(s) => (s.vpn_state.is_idle(), s.profile_name.clone()),
            None => {
                return;
            },
        };
        if idle {
            self.close_active_session();
            self.notify(concat3("Session '", name.as_str(), "' ditutup"), NotifLevel::Info);
        } else {
            self.notify(owned("Disconnect session aktif dulu sebelum close tab"), NotifLevel::Warning);
        }
    }

    /// Closes every idle tab (see [`close_idle`]).
    pub fn close_all_sessions(&mut self)
        ensures
            final(self)@ == close_idle(old(self)@),
    {
        let ghost a = self@;
        let ghost p = busy();
        let before = self.sessions.len();
        let mut old_sessions: Vec<ConnectionSession> = Vec::new();
        std::mem::swap(&mut old_sessions, &mut self.sessions);
        let mut kept: Vec<ConnectionSession> = Vec::new();
        let mut old_sessions = old_sessions;
        // move the busy sessions over, keeping their order
        let mut rev: Vec<ConnectionSession> = Vec::new();
        while old_sessions.len() > 0
            invariant
                sessions_view(old_sessions@) + sessions_view(rev@).reverse() == a.sessions,
            decreases old_sessions@.len(),
        {
            let ghost ob = sessions_view(old_sessions@);
            let ghost rb = sessions_view(rev@);
            let s = old_sessions.pop().unwrap();
            rev.push(s);
            assert(sessions_view(old_sessions@) =~= ob.drop_last());
            assert(sessions_view(rev@) =~= rb.push(ob.last()));
            assert(sessions_view(rev@).reverse() =~= seq![ob.last()] + rb.reverse());
            assert(sessions_view(old_sessions@) + sessions_view(rev@).reverse() =~= ob + rb.reverse());
        }
        assert(sessions_view(rev@).reverse() =~= a.sessions);
        let ghost mut done: Seq<SessionView> = Seq::empty();
        while rev.len() > 0
            invariant
                done + sessions_view(rev@).reverse() == a.sessions,
                p == busy(),
                sessions_view(kept@) == done.filter(p),
            decreases rev@.len(),
        {
            let ghost rb = sessions_view(rev@);
            let s = rev.pop().unwrap();
            proof {
                assert(sessions_view(rev@) =~= rb.drop_last());
                assert(s@ == rb.last());
                assert(rb.reverse() =~= seq![rb.last()] + rb.drop_last().reverse());
                done.lemma_filter_push(s@, p);
                assert(done.push(s@) + sessions_view(rev@).reverse() =~= done + rb.reverse());
            }
            let ghost kb = sessions_view(kept@);
            if !s.vpn_state.is_idle() {
                kept.push(s);
                assert(sessions_view(kept@) =~= kb.push(s@));
            }
            proof {
                done = done.push(s@);
            }
        }
        assert(done =~= a.sessions);
        self.sessions = kept;
        assert(self@ == (AppView { sessions: a.sessions.filter(busy()), ..a }));
        proof {
            a.sessions.lemma_filter_len(busy());
        }
        let removed = before - self.sessions.len();
        if self.sessions.len() == 0 {
            self.active_session_index = None;
            self.ui_mode = UiMode::ProfileList;
            self.focus = Focus::ProfileList;
        } else {
            match self.active_session_index {
                Some(active_idx) => {
                    if active_idx >= self.sessions.len() {
                        let last = self.sessions.len() - 1;
                        self.activate_session(last);
                    }
                },
                None => {},
            }
        }
        if removed > 0 {
            let r = u64_to_decimal(removed as u64);
            self.notify(concat2(r.as_str(), " session ditutup"), NotifLevel::Info);
        } else {
            self.notify(owned("Tidak ada session yang bisa ditutup"), NotifLevel::Warning);
        }
    }

    /// Carries out the confirmed action (see [`execute_pending`]).
    pub fn execute_pending_action(&mut self) -> (r: Vec<Effect>)
        requires
            old(self)@.log_room(1),
        ensures
            (final(self)@, effects_view(r@)) == execute_pending(old(self)@),
    {
        let action = match self.pending_action {
            Some(a) => a,
            None => {
                return Vec::new();
            },
        };
        self.pending_action = None;
        match action {
            PendingAction::DisconnectActive => self.do_disconnect(),
            PendingAction::DisconnectAll => self.disconnect_all_sessions(),
            PendingAction::CloseActive => {
                self.close_active_tab();
                Vec::new()
            },
            PendingAction::CloseAllIdle => {
                self.close_all_sessions();
                Vec::new()
            },
        }
    }

    /// A key in the confirmation dialog (see [`action_confirm`]).
    pub fn handle_action_confirm_popup(&mut self, key: Key) -> (r: Vec<Effect>)
        requires
            old(self)@.log_room(1),
        ensures
            (final(self)@, effects_view(r@)) == action_confirm(old(self)@, key),
    {
        match key.code {
            KeyCode::Tab | KeyCode::Left | KeyCode::Right => {
                self.cycle_focus_forward();
                Vec::new()
            },
            KeyCode::Char(c) => {
                if c == 'y' || c == 'Y' {
                    self.execute_pending_action()
                } else if c == 'n' || c == 'N' {
                    self.cancel_pending_action();
                    Vec::new()
                } else {
                    Vec::new()
                }
            },
            KeyCode::Esc => {
                self.cancel_pending_action();
                Vec::new()
            },
            KeyCode::Enter => {
                if self.focus == Focus::ActionConfirmAccept {
                    self.execute_pending_action()
                } else {
                    self.cancel_pending_action();
                    Vec::new()
                }
            },
            _ => Vec::new(),
        }
    }

    /// Drops the pending action (see [`cancel_pending`]).
    fn cancel_pending_action(&mut self)
        ensures
            final(self)@ == cancel_pending(old(self)@),
    {
        self.clear_action_confirmation();
        self.notify(owned("Aksi dibatalkan"), NotifLevel::Info);
    }
}

// ─── The connection screen ────────────────────────────────────────────────────

/// The active session's log scrolled up `n` times.
pub open spec fn scrolled_up_times(a: AppView, n: nat) -> AppView
    decreases n,
{
    if n == 0 {
        a
    } else {
        scrolled_up_times(a, (n - 1) as nat).scrolled_up()
    }
}

/// The active session's log scrolled down `n` times.
pub open spec fn scrolled_down_times(a: AppView, n: nat) -> AppView
    decreases n,
{
    if n == 0 {
        a
    } else {
        scrolled_down_times(a, (n - 1) as nat).scrolled_down()
    }
}

/// A typing key on the connection screen: it edits the focused field of the
/// active session (host and port are edited as one `host:port` text), and
/// Enter on the Connect or Disconnect button presses it.
pub open spec fn connect_typing(a: AppView, key: Key) -> (AppView, Seq<EffectView>) {
    if a.focus == Focus::Host {
        match a.active_index() {
            None => (a, seq![]),
            Some(i) => {
                let s = a.sessions[i];
                let (h, p) = host_port(
                    text_edited(s.host + ":"@ + decimal(s.port as nat), key.code),
                );
                (update_session(a, i, SessionView { host: h, port: p, ..s }), seq![])
            },
        }
    } else if a.focus == Focus::Username || a.focus == Focus::Password || a.focus
        == Focus::SudoPassword {
        match a.active_index() {
            None => (a, seq![]),
            Some(i) => {
                let s = a.sessions[i];
                let s2 = if a.focus == Focus::Username {
                    SessionView { username: text_edited(s.username, key.code), ..s }
                } else if a.focus == Focus::Password {
                    SessionView { password: text_edited(s.password, key.code), ..s }
                } else {
                    SessionView { sudo_password: text_edited(s.sudo_password, key.code), ..s }
                };
                (update_session(a, i, s2), seq![])
            },
        }
    } else if a.focus == Focus::Connect && key.code == KeyCode::Enter {
        connect(a)
    } else if a.focus == Focus::Disconnect && key.code == KeyCode::Enter {
        disconnect(a)
    } else {
        (a, seq![])
    }
}

/// A key on the connection screen.
pub open spec fn connect_mode(a: AppView, key: Key) -> (AppView, Seq<EffectView>) {
    let m = key.modifiers;
    let c = key.code;
    if m.only_control() && c == KeyCode::Char('p') {
        (AppView { show_password: !a.show_password, ..a }, seq![])
    } else if m.only_control() && c == KeyCode::Char('s') {
        (a, seq![EffectView::SaveConfig { config: current_config(a), report: true }])
    } else if m.only_control() && c == KeyCode::Char('k') {
        (
            AppView {
                pending_action: Some(PendingAction::DisconnectActive),
                focus: Focus::ActionConfirmAccept,
                ..a
            },
            seq![],
        )
    } else if m.control && m.shift && c == KeyCode::Char('K') {
        (
            AppView {
                pending_action: Some(PendingAction::DisconnectAll),
                focus: Focus::ActionConfirmAccept,
                ..a
            },
            seq![],
        )
    } else if c == KeyCode::Left {
        (a.prev_activated(), seq![])
    } else if c == KeyCode::Right {
        (a.next_activated(), seq![])
    } else if m.only_control() && c == KeyCode::Char('w') {
        (
            AppView {
                pending_action: Some(PendingAction::CloseActive),
                focus: Focus::ActionConfirmAccept,
                ..a
            },
            seq![],
        )
    } else if m.control && m.shift && c == KeyCode::Char('W') {
        (
            AppView {
                pending_action: Some(PendingAction::CloseAllIdle),
                focus: Focus::ActionConfirmAccept,
                ..a
            },
            seq![],
        )
    } else if c == KeyCode::Tab {
        (a.focus_forward(), seq![])
    } else if m.only_shift() && c == KeyCode::BackTab {
        (a.focus_backward(), seq![])
    } else if c == KeyCode::Up {
        (if a.focus == Focus::Logs {
            a.scrolled_up()
        } else {
            a
        }, seq![])
    } else if c == KeyCode::Down {
        (if a.focus == Focus::Logs {
            a.scrolled_down()
        } else {
            a
        }, seq![])
    } else if c == KeyCode::PageUp {
        (scrolled_up_times(a, 10), seq![])
    } else if c == KeyCode::PageDown {
        (scrolled_down_times(a, 10), seq![])
    } else if c == KeyCode::F(5) {
        (
            match a.active_index() {
                Some(i) => if a.sessions[i].logs.len() > 0 {
                    update_session(
                        a,
                        i,
                        SessionView {
                            log_scroll: (a.sessions[i].logs.len() - 1) as usize,
                            ..a.sessions[i]
                        },
                    )
                } else {
                    a
                },
                None => a,
            },
            seq![],
        )
    } else {
        connect_typing(a, key)
    }
}

impl App {
    /// A typing key on the connection screen (see [`connect_typing`]).
    fn connect_typing(&mut self, key: Key) -> (r: Vec<Effect>)
        requires
            old(self)@.log_room(2),
            old(self).active_session_index is None ==> old(self).next_session_id < u64::MAX,
        ensures
            (final(self)@, effects_view(r@)) == connect_typing(old(self)@, key),
    {
        let ghost a = self@;
        if self.focus == Focus::Host || self.focus == Focus::Username || self.focus == Focus::Password
            || self.focus == Focus::SudoPassword {
            let idx = match self.active_session_index {
                Some(i) => if i < self.sessions.len() {
                    i
                } else {
                    return Vec::new();
                },
                None => {
                    return Vec::new();
                },
            };
            proof {
                assert(a.sessions[idx as int] == self.sessions@[idx as int]@);
            }
            if self.focus == Focus::Host {
                let mut combined = host_port_text(
                    self.sessions[idx].host.as_str(),
                    self.sessions[idx].port,
                );
                handle_text_input(&mut combined, key);
                let (host, port) = parse_host_port(combined.as_str());
                self.sessions[idx].host = host;
                self.sessions[idx].port = port;
            } else if self.focus == Focus::Username {
                handle_text_input(&mut self.sessions[idx].username, key);
            } else if self.focus == Focus::Password {
                handle_text_input(&mut self.sessions[idx].password, key);
            } else {
                handle_text_input(&mut self.sessions[idx].sudo_password, key);
            }
            assert(self@.sessions =~= connect_typing(a, key).0.sessions);
            return Vec::new();
        }
        if self.focus == Focus::Connect && key.code == KeyCode::Enter {
            return self.do_connect();
        }
        if self.focus == Focus::Disconnect && key.code == KeyCode::Enter {
            return self.do_disconnect();
        }
        Vec::new()
    }

    /// Scrolls the active session's log up `n` times.
    fn scroll_up_times(&mut self, n: u64)
        ensures
            final(self)@ == scrolled_up_times(old(self)@, n as nat),
    {
        let mut k: u64 = 0;
        while k < n
            invariant
                k <= n,
                self@ == scrolled_up_times(old(self)@, k as nat),
            decreases n - k,
        {
            self.scroll_logs_up();
            k += 1;
        }
    }

    /// Scrolls the active session's log down `n` times.
    fn scroll_down_times(&mut self, n: u64)
        ensures
            final(self)@ == scrolled_down_times(old(self)@, n as nat),
    {
        let mut k: u64 = 0;
        while k < n
            invariant
                k <= n,
                self@ == scrolled_down_times(old(self)@, k as nat),
            decreases n - k,
        {
            self.scroll_logs_down();
            k += 1;
        }
    }

    /// A key on the connection screen (see [`connect_mode`]).
    pub fn handle_connect_mode(&mut self, key: Key) -> (r: Vec<Effect>)
        requires
            old(self)@.log_room(2),
            old(self).active_session_index is None ==> old(self).next_session_id < u64::MAX,
        ensures
            (final(self)@, effects_view(r@)) == connect_mode(old(self)@, key),
    {
        let ghost a = self@;
        let m = key.modifiers;
        let c = key.code;
        if m.is_only_control() && c == KeyCode::Char('p') {
            self.show_password = !self.show_password;
            return Vec::new();
        }
        if m.is_only_control() && c == KeyCode::Char('s') {
            let mut effects: Vec<Effect> = Vec::new();
            effects.push(Effect::SaveConfig { config: self.current_config(), report: true });
            assert(effects_view(effects@) =~= connect_mode(a, key).1);
            return effects;
        }
        if m.is_only_control() && c == KeyCode::Char('k') {
            self.request_action_confirmation(PendingAction::DisconnectActive);
            return Vec::new();
        }
        if m.control && m.shift && c == KeyCode::Char('K') {
            self.request_action_confirmation(PendingAction::DisconnectAll);
            return Vec::new();
        }
        if c == KeyCode::Left {
            self.activate_prev_session();
            return Vec::new();
        }
        if c == KeyCode::Right {
            self.activate_next_session();
            return Vec::new();
        }
        if m.is_only_control() && c == KeyCode::Char('w') {
            self.request_action_confirmation(PendingAction::CloseActive);
            return Vec::new();
        }
        if m.control && m.shift && c == KeyCode::Char('W') {
            self.request_action_confirmation(PendingAction::CloseAllIdle);
            return Vec::new();
        }
        if c == KeyCode::Tab {
            self.cycle_focus_forward();
            return Vec::new();
        }
        if m.is_only_shift() && c == KeyCode::BackTab {
            self.cycle_focus_backward();
            return Vec::new();
        }
        if c == KeyCode::Up {
            if self.focus == Focus::Logs {
                self.scroll_logs_up();
            }
            return Vec::new();
        }
        if c == KeyCode::Down {
            if self.focus == Focus::Logs {
                self.scroll_logs_down();
            }
            return Vec::new();
        }
        if c == KeyCode::PageUp {
            self.scroll_up_times(10);
            return Vec::new();
        }
        if c == KeyCode::PageDown {
            self.scroll_down_times(10);
            return Vec::new();
        }
        if c == KeyCode::F(5) {
            match self.active_session_index {
                Some(i) => {
                    if i < self.sessions.len() && self.sessions[i].logs.len() > 0 {
                        proof {
                            assert(a.sessions[i as int] == self.sessions@[i as int]@);
                        }
                        self.sessions[i].log_scroll = self.sessions[i].logs.len() - 1;
                        assert(self@.sessions =~= connect_mode(a, key).0.sessions);
                    }
                },
                None => {},
            }
            return Vec::new();
        }
        self.connect_typing(key)
    }
}

// ─── The profile list ─────────────────────────────────────────────────────────

/// Selecting profile `index` and focusing it, when it exists.
pub open spec fn selected(a: AppView, index: int) -> AppView {
    if 0 <= index < a.profiles.len() {
        AppView {
            selected_profile_index: index as usize,
            focus: Focus::ProfileItem(index as usize),
            ..a
        }
    } else {
        a
    }
}

/// Enter on the profile list: re-opens the profile's session when there is
/// one, otherwise opens one and connects it.
pub open spec fn open_selected(a: AppView) -> (AppView, Seq<EffectView>) {
    match a.current_profile() {
        None => (a, seq![]),
        Some(p) => match a.session_for_profile(p.name) {
            Some(i) => (
                a.activated(i).notified(
                    "Membuka session '"@ + p.name + "'"@,
                    NotifLevel::Info,
                ).with_log("[APP] Membuka session existing: "@ + p.name),
                seq![],
            ),
            None => connect(
                AppView { ui_mode: UiMode::Connect, ..a }.session_ensured().0.with_log(
                    "[APP] Menggunakan profile: "@ + p.name,
                ),
            ),
        },
    }
}

/// The delete key on the profile list: the first press asks for
/// confirmation, a second press on the same profile deletes it (through
/// the stored configuration), a press on another profile forgets the
/// request.
pub open spec fn delete_pressed(a: AppView) -> (AppView, Seq<EffectView>) {
    match a.current_profile() {
        None => (a, seq![]),
        Some(p) => match a.delete_confirmation {
            Some(n) => if n == p.name {
                (a, seq![EffectView::DeleteProfile { name: p.name }])
            } else {
                (AppView { delete_confirmation: None, ..a }, seq![])
            },
            None => (
                AppView { delete_confirmation: Some(p.name), ..a }.notified(
                    "Tekan F4 atau D lagi untuk hapus '"@ + p.name + "'"@,
                    NotifLevel::Warning,
                ),
                seq![],
            ),
        },
    }
}

/// A key on the profile list.
pub open spec fn list_mode(a: AppView, key: Key) -> (AppView, Seq<EffectView>) {
    let c = key.code;
    if c == KeyCode::Up && a.selected_profile_index > 0 {
        let i = (a.selected_profile_index - 1) as usize;
        (selected(AppView { selected_profile_index: i, ..a }, i as int), seq![])
    } else if c == KeyCode::Down && a.selected_profile_index + 1 < a.profiles.len() {
        let i = (a.selected_profile_index + 1) as usize;
        (selected(AppView { selected_profile_index: i, ..a }, i as int), seq![])
    } else if c == KeyCode::Enter || c == KeyCode::F(5) {
        open_selected(a)
    } else if c == KeyCode::F(2) || c == KeyCode::Char('n') || c == KeyCode::Char('N') {
        (crate::profile_form::new_form(a).with_log("[APP] Mode: New Profile (F2/N)"@), seq![])
    } else if c == KeyCode::F(3) || c == KeyCode::Char('e') || c == KeyCode::Char('E') {
        match a.current_profile() {
            Some(p) => (
                crate::profile_form::edit_form(a, p).with_log(
                    "[APP] Mode: Edit Profile '"@ + p.name + "' (F3/E)"@,
                ),
                seq![],
            ),
            None => (a, seq![]),
        }
    } else if c == KeyCode::F(4) || c == KeyCode::Char('d') || c == KeyCode::Char('D') {
        delete_pressed(a)
    } else {
        (a, seq![])
    }
}

/// How the interface takes the outcome of deleting profile `name`: the
/// profiles as stored, the selection kept in range; an error message
/// otherwise. The delete request is forgotten either way.
pub open spec fn profile_deleted(a: AppView, name: Seq<char>, outcome: ConfigOutcomeView) -> AppView {
    match outcome {
        ConfigOutcomeView::LoadFailed(e) => {
            let msg = "Hapus profile dibatalkan: "@ + e;
            AppView {
                delete_confirmation: None,
                ..a.notified(msg, NotifLevel::Error).with_log("[APP] "@ + msg)
            }
        },
        ConfigOutcomeView::SaveFailed(e) => AppView {
            delete_confirmation: None,
            ..a.notified("Gagal hapus: "@ + e, NotifLevel::Error)
        },
        ConfigOutcomeView::Saved(ps) => {
            let last = if ps.len() > 0 {
                ps.len() - 1
            } else {
                0
            };
            let a1 = AppView {
                profiles: ps,
                selected_profile_index: if a.selected_profile_index < last {
                    a.selected_profile_index
                } else {
                    last as usize
                },
                ..a
            };
            AppView {
                delete_confirmation: None,
                ..a1.notified("Profile '"@ + name + "' dihapus"@, NotifLevel::Success).with_log(
                    "[APP] Profile '"@ + name + "' dihapus (F4/D)"@,
                )
            }
        },
    }
}

impl App {
    /// Enter on the profile list (see [`open_selected`]).
    fn open_selected_profile(&mut self) -> (r: Vec<Effect>)
        requires
            old(self)@.log_room(3),
            old(self).next_session_id < u64::MAX,
        ensures
            (final(self)@, effects_view(r@)) == open_selected(old(self)@),
    {
        let ghost a = self@;
        let name = match self.get_current_profile() {
            Some(p) => p.name.clone(),
            None => {
                return Vec::new();
            },
        };
        match self.find_session_by_profile_name(name.as_str()) {
            Some(idx) => {
                self.activate_session(idx);
                self.notify(concat3("Membuka session '", name.as_str(), "'"), NotifLevel::Info);
                proof {
                    lemma_log_room(self@, "[APP] Membuka session existing: "@ + name@, 2);
                }
                self.push_log(concat2("[APP] Membuka session existing: ", name.as_str()));
                Vec::new()
            },
            None => {
                self.ui_mode = UiMode::Connect;
                self.apply_current_profile();
                proof {
                    let b = (AppView { ui_mode: UiMode::Connect, ..a }).session_ensured().0;
                    assert(b.log_room(3)) by {
                        assert forall|i: int| 0 <= i < b.sessions.len() implies #[trigger] b.sessions[i].logs.len()
                            + 3 <= usize::MAX by {
                            if i < a.sessions.len() {
                                assert(b.sessions[i] == a.sessions[i]);
                            }
                        }
                    }
                    lemma_log_room(self@, "[APP] Menggunakan profile: "@ + name@, 2);
                }
                self.push_log(concat2("[APP] Menggunakan profile: ", name.as_str()));
                self.do_connect()
            },
        }
    }

    /// The delete key on the profile list (see [`delete_pressed`]).
    fn delete_pressed(&mut self) -> (r: Vec<Effect>)
        ensures
            (final(self)@, effects_view(r@)) == delete_pressed(old(self)@),
    {
        let ghost a = self@;
        let name = match self.get_current_profile() {
            Some(p) => p.name.clone(),
            None => {
                return Vec::new();
            },
        };
        let same = match &self.delete_confirmation {
            Some(n) => Some(crate::text::str_eq(n.as_str(), name.as_str())),
            None => None,
        };
        match same {
            Some(true) => {
                let mut effects: Vec<Effect> = Vec::new();
                effects.push(Effect::DeleteProfile { name });
                assert(effects_view(effects@) =~= delete_pressed(a).1);
                effects
            },
            Some(false) => {
                self.delete_confirmation = None;
                Vec::new()
            },
            None => {
                let msg = concat3("Tekan F4 atau D lagi untuk hapus '", name.as_str(), "'");
                self.delete_confirmation = Some(name);
                self.notify(msg, NotifLevel::Warning);
                Vec::new()
            },
        }
    }

    /// A key on the profile list (see [`list_mode`]).
    pub fn handle_profile_list_mode(&mut self, key: Key) -> (r: Vec<Effect>)
        requires
            old(self)@.log_room(3),
            old(self).next_session_id < u64::MAX,
        ensures
            (final(self)@, effects_view(r@)) == list_mode(old(self)@, key),
    {
        let c = key.code;
        if c == KeyCode::Up && self.selected_profile_index > 0 {
            self.selected_profile_index = self.selected_profile_index - 1;
            let i = self.selected_profile_index;
            self.select_profile(i);
            return Vec::new();
        }
        if c == KeyCode::Down && self.profiles.len() > 0 && self.selected_profile_index
            < self.profiles.len() - 1 {
            self.selected_profile_index = self.selected_profile_index + 1;
            let i = self.selected_profile_index;
            self.select_profile(i);
            return Vec::new();
        }
        if c == KeyCode::Enter || c == KeyCode::F(5) {
            return self.open_selected_profile();
        }
        if c == KeyCode::F(2) || c == KeyCode::Char('n') || c == KeyCode::Char('N') {
            crate::profile_form::start_new(self);
            proof {
                lemma_log_room(self@, "[APP] Mode: New Profile (F2/N)"@, 2);
            }
            self.push_log(owned("[APP] Mode: New Profile (F2/N)"));
            return Vec::new();
        }
        if c == KeyCode::F(3) || c == KeyCode::Char('e') || c == KeyCode::Char('E') {
            let profile = match self.get_current_profile() {
                Some(p) => p.clone(),
                None => {
                    return Vec::new();
                },
            };
            crate::profile_form::start_edit(self, &profile);
            proof {
                lemma_log_room(self@, "[APP] Mode: Edit Profile '"@ + profile.name@ + "' (F3/E)"@, 2);
            }
            self.push_log(concat3("[APP] Mode: Edit Profile '", profile.name.as_str(), "' (F3/E)"));
            return Vec::new();
        }
        if c == KeyCode::F(4) || c == KeyCode::Char('d') || c == KeyCode::Char('D') {
            return self.delete_pressed();
        }
        Vec::new()
    }

    /// Takes the outcome of deleting profile `name` (see [`profile_deleted`]).
    pub fn finish_profile_delete(&mut self, name: &str, outcome: ConfigOutcome)
        requires
            old(self)@.log_room(1),
        ensures
            final(self)@ == profile_deleted(old(self)@, name@, outcome@),
    {
        match outcome {
            ConfigOutcome::LoadFailed(e) => {
                let msg = concat2("Hapus profile dibatalkan: ", e.as_str());
                let line = concat2("[APP] ", msg.as_str());
                self.notify(msg, NotifLevel::Error);
                self.push_log(line);
            },
            ConfigOutcome::SaveFailed(e) => {
                self.notify(concat2("Gagal hapus: ", e.as_str()), NotifLevel::Error);
            },
            ConfigOutcome::Saved(ps) => {
                self.profiles = ps;
                let last = if self.profiles.len() > 0 {
                    self.profiles.len() - 1
                } else {
                    0
                };
                if self.selected_profile_index >= last {
                    self.selected_profile_index = last;
                }
                self.notify(concat3("Profile '", name, "' dihapus"), NotifLevel::Success);
                self.push_log(concat3("[APP] Profile '", name, "' dihapus (F4/D)"));
            },
        }
        self.delete_confirmation = None;
    }
}

// ─── The profile form ─────────────────────────────────────────────────────────

/// The form's focus ring, forward.
pub open spec fn form_focus_next(f: Focus) -> Focus {
    match f {
        Focus::ProfileName => Focus::Host,
        Focus::Host => Focus::Port,
        Focus::Port => Focus::Username,
        Focus::Username => Focus::Password,
        Focus::Password => Focus::SudoPassword,
        Focus::SudoPassword => Focus::SavePassword,
        Focus::SavePassword => Focus::UseSudoPassword,
        Focus::UseSudoPassword => Focus::ProfileName,
        _ => Focus::ProfileName,
    }
}

/// The form's focus ring, backward.
pub open spec fn form_focus_prev(f: Focus) -> Focus {
    match f {
        Focus::ProfileName => Focus::UseSudoPassword,
        Focus::Host => Focus::ProfileName,
        Focus::Port => Focus::Host,
        Focus::Username => Focus::Port,
        Focus::Password => Focus::Username,
        Focus::SudoPassword => Focus::Password,
        Focus::SavePassword => Focus::SudoPassword,
        Focus::UseSudoPassword => Focus::SavePassword,
        _ => Focus::ProfileName,
    }
}

/// The profile the form describes: the port is 443 when it is not a `u16`;
/// the passwords are kept only when the form asks to save them; no
/// certificate is trusted yet.
pub open spec fn form_profile(a: AppView) -> ProfileView {
    ProfileView {
        name: a.profile_name,
        host: a.profile_host,
        port: match parse_unsigned(a.profile_port, u16::MAX as nat) {
            Some(p) => p as u16,
            None => 443,
        },
        username: a.profile_username,
        save_password: a.profile_save_password,
        password: if a.profile_save_password {
            a.profile_password
        } else {
            seq![]
        },
        trusted_cert: None,
        use_sudo_password: a.profile_use_sudo_password,
        sudo_password: if a.profile_use_sudo_password {
            a.profile_sudo_password
        } else {
            seq![]
        },
    }
}

/// Enter on the form: the name and the host must not be blank; the profile
/// is then stored, replacing the edited one.
pub open spec fn form_submitted(a: AppView) -> (AppView, Seq<EffectView>) {
    if trim(a.profile_name).len() == 0 {
        (a.notified("Nama profile tidak boleh kosong!"@, NotifLevel::Error), seq![])
    } else if trim(a.profile_host).len() == 0 {
        (a.notified("Host tidak boleh kosong!"@, NotifLevel::Error), seq![])
    } else {
        (
            a,
            seq![
                EffectView::SaveProfile {
                    profile: form_profile(a),
                    replace: if a.ui_mode == UiMode::EditProfile {
                        a.editing_profile_name
                    } else {
                        None
                    },
                },
            ],
        )
    }
}

/// A typing key on the form: it edits the focused text field.
pub open spec fn form_typing(a: AppView, code: KeyCode) -> AppView {
    match a.focus {
        Focus::ProfileName => AppView { profile_name: text_edited(a.profile_name, code), ..a },
        Focus::Host => AppView { profile_host: text_edited(a.profile_host, code), ..a },
        Focus::Port => AppView { profile_port: text_edited(a.profile_port, code), ..a },
        Focus::Username => AppView { profile_username: text_edited(a.profile_username, code), ..a },
        Focus::Password => AppView { profile_password: text_edited(a.profile_password, code), ..a },
        Focus::SudoPassword => AppView {
            profile_sudo_password: text_edited(a.profile_sudo_password, code),
            ..a
        },
        _ => a,
    }
}

/// A key on the form. Space toggles the focused check box (clearing the
/// password it guards when it is turned off) and types nothing.
pub open spec fn form_mode(a: AppView, key: Key) -> (AppView, Seq<EffectView>) {
    match key.code {
        KeyCode::Tab => (AppView { focus: form_focus_next(a.focus), ..a }, seq![]),
        KeyCode::BackTab => (AppView { focus: form_focus_prev(a.focus), ..a }, seq![]),
        KeyCode::Char(' ') => (
            if a.focus == Focus::SavePassword {
                AppView {
                    profile_save_password: !a.profile_save_password,
                    profile_password: if a.profile_save_password {
                        seq![]
                    } else {
                        a.profile_password
                    },
                    ..a
                }
            } else if a.focus == Focus::UseSudoPassword {
                AppView {
                    profile_use_sudo_password: !a.profile_use_sudo_password,
                    profile_sudo_password: if a.profile_use_sudo_password {
                        seq![]
                    } else {
                        a.profile_sudo_password
                    },
                    ..a
                }
            } else {
                a
            },
            seq![],
        ),
        KeyCode::Enter => form_submitted(a),
        KeyCode::Esc => (
            AppView {
                ui_mode: UiMode::ProfileList,
                focus: Focus::ProfileList,
                delete_confirmation: None,
                ..a
            }.with_log(crate::state::back_to_list_line()),
            seq![],
        ),
        _ => (form_typing(a, key.code), seq![]),
    }
}

/// How the interface takes the outcome of storing the form's profile: the
/// profiles as stored, the saved one selected, back to the list; an error
/// message otherwise.
pub open spec fn profile_saved(a: AppView, outcome: ConfigOutcomeView) -> AppView {
    match outcome {
        ConfigOutcomeView::LoadFailed(e) => {
            let msg = "Simpan profile dibatalkan: "@ + e;
            a.notified(msg, NotifLevel::Error).with_log("[APP] "@ + msg)
        },
        ConfigOutcomeView::SaveFailed(e) => a.notified("Gagal simpan: "@ + e, NotifLevel::Error),
        ConfigOutcomeView::Saved(ps) => AppView {
            profiles: ps,
            selected_profile_index: match find_named(ps, a.profile_name) {
                Some(i) => i as usize,
                None => 0,
            },
            ui_mode: UiMode::ProfileList,
            focus: Focus::ProfileList,
            delete_confirmation: None,
            ..a
        }.notified("Profile '"@ + a.profile_name + "' tersimpan!"@, NotifLevel::Success).with_log(
            "[APP] Profile '"@ + a.profile_name + "' tersimpan"@,
        ),
    }
}

impl App {
    /// The profile the form describes (see [`form_profile`]).
    pub fn form_profile(&self) -> (r: VpnProfile)
        ensures
            r@ == form_profile(self@),
    {
        let port_chars = to_chars(self.profile_port.as_str());
        let port: u16 = match parse_unsigned_chars(&port_chars, 65535) {
            Some(p) => p as u16,
            None => 443,
        };
        VpnProfile {
            name: self.profile_name.clone(),
            host: self.profile_host.clone(),
            port,
            username: self.profile_username.clone(),
            save_password: self.profile_save_password,
            password: if self.profile_save_password {
                self.profile_password.clone()
            } else {
                String::new()
            },
            trusted_cert: None,
            use_sudo_password: self.profile_use_sudo_password,
            sudo_password: if self.profile_use_sudo_password {
                self.profile_sudo_password.clone()
            } else {
                String::new()
            },
        }
    }

    /// Enter on the form (see [`form_submitted`]).
    fn submit_profile_form(&mut self) -> (r: Vec<Effect>)
        ensures
            (final(self)@, effects_view(r@)) == form_submitted(old(self)@),
    {
        let ghost a = self@;
        let name = crate::text::trim_str(self.profile_name.as_str());
        if name.as_str().is_empty() {
            self.notify(owned("Nama profile tidak boleh kosong!"), NotifLevel::Error);
            return Vec::new();
        }
        let host = crate::text::trim_str(self.profile_host.as_str());
        if host.as_str().is_empty() {
            self.notify(owned("Host tidak boleh kosong!"), NotifLevel::Error);
            return Vec::new();
        }
        let profile = self.form_profile();
        let replace = if self.ui_mode == UiMode::EditProfile {
            crate::text::clone_opt_string(&self.editing_profile_name)
        } else {
            None
        };
        let mut effects: Vec<Effect> = Vec::new();
        effects.push(Effect::SaveProfile { profile, replace });
        assert(effects_view(effects@) =~= form_submitted(a).1);
        effects
    }

    /// A key on the profile form (see [`form_mode`]).
    pub fn handle_profile_form_mode(&mut self, key: Key) -> (r: Vec<Effect>)
        requires
            old(self)@.log_room(1),
        ensures
            (final(self)@, effects_view(r@)) == form_mode(old(self)@, key),
    {
        match key.code {
            KeyCode::Tab => {
                self.focus = match self.focus {
                    Focus::ProfileName => Focus::Host,
                    Focus::Host => Focus::Port,
                    Focus::Port => Focus::Username,
                    Focus::Username => Focus::Password,
                    Focus::Password => Focus::SudoPassword,
                    Focus::SudoPassword => Focus::SavePassword,
                    Focus::SavePassword => Focus::UseSudoPassword,
                    Focus::UseSudoPassword => Focus::ProfileName,
                    _ => Focus::ProfileName,
                };
                Vec::new()
            },
            KeyCode::BackTab => {
                self.focus = match self.focus {
                    Focus::ProfileName => Focus::UseSudoPassword,
                    Focus::Host => Focus::ProfileName,
                    Focus::Port => Focus::Host,
                    Focus::Username => Focus::Port,
                    Focus::Password => Focus::Username,
                    Focus::SudoPassword => Focus::Password,
                    Focus::SavePassword => Focus::SudoPassword,
                    Focus::UseSudoPassword => Focus::SavePassword,
                    _ => Focus::ProfileName,
                };
                Vec::new()
            },
            KeyCode::Char(' ') => {
                if self.focus == Focus::SavePassword {
                    self.profile_save_password = !self.profile_save_password;
                    if !self.profile_save_password {
                        self.profile_password = String::new();
                    }
                } else if self.focus == Focus::UseSudoPassword {
                    self.profile_use_sudo_password = !self.profile_use_sudo_password;
                    if !self.profile_use_sudo_password {
                        self.profile_sudo_password = String::new();
                    }
                }
                Vec::new()
            },
            KeyCode::Enter => self.submit_profile_form(),
            KeyCode::Esc => {
                self.ui_mode = UiMode::ProfileList;
                self.focus = Focus::ProfileList;
                self.delete_confirmation = None;
                self.push_log(owned("[APP] Kembali ke daftar profile"));
                Vec::new()
            },
            _ => {
                match self.focus {
                    Focus::ProfileName => handle_text_input(&mut self.profile_name, key),
                    Focus::Host => handle_text_input(&mut self.profile_host, key),
                    Focus::Port => handle_text_input(&mut self.profile_port, key),
                    Focus::Username => handle_text_input(&mut self.profile_username, key),
                    Focus::Password => handle_text_input(&mut self.profile_password, key),
                    Focus::SudoPassword => handle_text_input(&mut self.profile_sudo_password, key),
                    _ => {},
                }
                Vec::new()
            },
        }
    }

    /// Takes the outcome of storing the form's profile (see [`profile_saved`]).
    pub fn finish_profile_save(&mut self, outcome: ConfigOutcome)
        requires
            old(self)@.log_room(1),
        ensures
            final(self)@ == profile_saved(old(self)@, outcome@),
    {
        match outcome {
            ConfigOutcome::LoadFailed(e) => {
                let msg = concat2("Simpan profile dibatalkan: ", e.as_str());
                let line = concat2("[APP] ", msg.as_str());
                self.notify(msg, NotifLevel::Error);
                self.push_log(line);
            },
            ConfigOutcome::SaveFailed(e) => {
                self.notify(concat2("Gagal simpan: ", e.as_str()), NotifLevel::Error);
            },
            ConfigOutcome::Saved(ps) => {
                self.profiles = ps;
                self.selected_profile_index = match crate::config::position_of_name(
                    &self.profiles,
                    self.profile_name.as_str(),
                ) {
                    Some(i) => i,
                    None => 0,
                };
                self.ui_mode = UiMode::ProfileList;
                self.focus = Focus::ProfileList;
                self.delete_confirmation = None;
                let msg = concat3("Profile '", self.profile_name.as_str(), "' tersimpan!");
                self.notify(msg, NotifLevel::Success);
                let line = concat3("[APP] Profile '", self.profile_name.as_str(), "' tersimpan");
                self.push_log(line);
            },
        }
    }
}

impl Config {
    /// Stores a profile from the form: the edited profile (`replace`) is
    /// removed first, then the new one is added at the end.
    pub fn store_profile(&mut self, profile: VpnProfile, replace: Option<&str>)
        ensures
            final(self)@ == (ConfigView {
                profiles: match replace {
                    Some(n) => ConfigView::without(old(self)@.profiles, n@),
                    None => old(self)@.profiles,
                }.push(profile@),
                selected_profile: match replace {
                    Some(n) => if old(self)@.selected_profile == Some(n@) {
                        None
                    } else {
                        old(self)@.selected_profile
                    },
                    None => old(self)@.selected_profile,
                },
            }),
    {
        match replace {
            Some(n) => self.delete_profile(n),
            None => {},
        }
        self.add_profile(profile);
    }
}

} // verus!
