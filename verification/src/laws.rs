//! Properties that span several operations of the interface: what one call
//! undoes of another, what every event keeps, and what never reaches a log.
use vstd::prelude::*;

use crate::actions::{
    accept_cert, all_stopping, busy, cert_dialog, close_idle, connect_active, connecting_log,
    action_confirm, connect, connect_mode, deny_cert, disconnect, execute_pending, form_mode,
    list_mode, open_selected, profile_deleted, profile_saved,
    scrolled_down_times, scrolled_up_times, with_active_state, disconnect_all, is_live, live_count, stop_effects, text_edited,
    token_popup, form_focus_next, Key, KeyCode, Modifiers,
};
use crate::config::{
    find_named, law_add_then_get, law_delete_removes, lemma_none_named, lemma_some_first, ConfigView,
    ProfileView,
};
use crate::text::{decimal, has_sub, trim};
use crate::vpn::{
    command_args, command_program, connect_next, connecting_text, empty_fields_text,
    install_hint_for, line_reaction, method_from_probes, missing_binary_text,
    missing_sudo_password_text, resolved_binary, stdin_plan_of, unavailable_text, CertBufferView,
    ConnectActionView, ConnectInputView, ConnectStateView, PrivilegeMethod, ReaderFlags,
    stop_next, StopAction, StopInput, StopState,
};
use crate::runtime::{event_applied, is_quit_key, key_handled, started};
use crate::state::{
    update_session, ConfigOutcomeView, ConnectRequestView, connect_focus_next, connect_focus_prev, is_first_id, is_first_profile, AppEventView, AppView,
    EffectView, Focus, NotifLevel, SessionView, UiMode, VpnStateView, NOTIFICATION_TICKS,
};

verus! {

// ─── Text fields ──────────────────────────────────────────────────────────────

/// Typing a character and then Backspace leaves a text field as it was.
pub proof fn law_type_then_backspace(s: Seq<char>, c: char)
    ensures
        text_edited(text_edited(s, KeyCode::Char(c)), KeyCode::Backspace) == s,
{
    assert(s.push(c).drop_last() =~= s);
}

// ─── The help screen ──────────────────────────────────────────────────────────

/// Opening the help screen and closing it again brings back the screen it
/// was opened from; only the focus goes back to the profile list.
pub proof fn law_help_roundtrip(a: AppView)
    requires
        a.ui_mode != UiMode::Help,
    ensures
        a.help_shown().help_hidden() == (AppView {
            focus: Focus::ProfileList,
            previous_ui_mode: None,
            ..a
        }),
{
}

/// Control-C and Control-Q quit from every screen and dialog, the help
/// screen included, and change nothing else.
pub proof fn law_quit_keys_quit_everywhere(a: AppView, key: Key)
    requires
        is_quit_key(key),
    ensures
        key_handled(a, key) == (AppView { should_quit: true, ..a }, Seq::<EffectView>::empty()),
{
}

/// On the help screen Esc, Control-B and F1 close it, back to the screen it
/// was opened from.
pub proof fn law_help_keys_close_help(a: AppView, key: Key)
    requires
        a.ui_mode == UiMode::Help,
        key.code == KeyCode::Esc || key.code == KeyCode::F(1) || (key.modifiers.only_control()
            && key.code == KeyCode::Char('b')),
    ensures
        key_handled(a, key) == (a.help_hidden(), Seq::<EffectView>::empty()),
{
}

// ─── Moving between sessions ──────────────────────────────────────────────────

/// Moving to the next session and back to the previous one returns to the
/// session that was active.
pub proof fn law_next_then_prev(a: AppView)
    requires
        a.active_session_index matches Some(i) && i < a.sessions.len(),
        a.sessions.len() <= usize::MAX,
    ensures
        a.next_activated().prev_activated() == a.activated(a.active_session_index->0 as int),
{
    let n = a.sessions.len() as int;
    let i = a.active_session_index->0 as int;
    assert(0 <= i < n);
    let next = (i + 1) % n;
    let b = a.next_activated();
    assert(b == a.activated(next));
    assert(b.active_session_index == Some(next as usize));
    if i + 1 < n {
        assert((i + 1) % n == i + 1) by (nonlinear_arith)
            requires
                0 <= i + 1 < n,
        ;
    } else {
        assert((i + 1) % n == 0) by (nonlinear_arith)
            requires
                i + 1 == n,
                n > 0,
        ;
    }
    assert(b.prev_activated() == b.activated(i));
    assert(b.activated(i) == a.activated(i));
}

/// Moving to the previous session and then to the next one returns to the
/// session that was active.
pub proof fn law_prev_then_next(a: AppView)
    requires
        a.active_session_index matches Some(i) && i < a.sessions.len(),
        a.sessions.len() <= usize::MAX,
    ensures
        a.prev_activated().next_activated() == a.activated(a.active_session_index->0 as int),
{
    let n = a.sessions.len() as int;
    let i = a.active_session_index->0 as int;
    let p = if i == 0 {
        n - 1
    } else {
        i - 1
    };
    assert(0 <= p < n);
    if p + 1 < n {
        assert((p + 1) % n == p + 1) by (nonlinear_arith)
            requires
                0 <= p + 1 < n,
        ;
    } else {
        assert((p + 1) % n == 0) by (nonlinear_arith)
            requires
                p + 1 == n,
                n > 0,
        ;
    }
    let b = a.prev_activated();
    assert(b == a.activated(p));
    assert(b.next_activated() == b.activated(i));
    assert(b.activated(i) == a.activated(i));
}

// ─── Focus ────────────────────────────────────────────────────────────────────

/// A focus on the connection screen's ring.
pub open spec fn in_connect_ring(f: Focus) -> bool {
    f == Focus::Host || f == Focus::Username || f == Focus::Password || f == Focus::SudoPassword
        || f == Focus::Connect || f == Focus::Disconnect || f == Focus::Logs
}

/// On the connection screen with no dialog open, moving the focus forward
/// and then backward (or backward, then forward) returns it to where it was.
pub proof fn law_focus_ring_roundtrip(a: AppView)
    requires
        a.ui_mode == UiMode::Connect,
        a.pending_action is None,
        !(a.active_state() is WaitingCert),
        !(a.active_state() is WaitingToken),
        in_connect_ring(a.focus),
    ensures
        a.focus_forward().focus_backward() == a,
        a.focus_backward().focus_forward() == a,
{
    assert(connect_focus_prev(connect_focus_next(a.focus)) == a.focus);
    assert(connect_focus_next(connect_focus_prev(a.focus)) == a.focus);
}

/// In the certificate prompt the focus moves between its two buttons, and
/// two moves in either direction bring it back.
pub proof fn law_cert_buttons_toggle(a: AppView)
    requires
        a.active_state() is WaitingCert,
        a.focus == Focus::CertAccept || a.focus == Focus::CertDeny,
    ensures
        a.focus_forward() == a.focus_backward(),
        a.focus_forward().focus != a.focus,
        a.focus_forward().focus_forward() == a,
{
}

/// A focus on the profile form's ring.
pub open spec fn in_form_ring(f: Focus) -> bool {
    f == Focus::ProfileName || f == Focus::Host || f == Focus::Port || f == Focus::Username || f
        == Focus::Password || f == Focus::SudoPassword || f == Focus::SavePassword || f
        == Focus::UseSudoPassword
}

/// The form's focus moved forward `n` times.
pub open spec fn form_focus_forward_times(f: Focus, n: nat) -> Focus
    decreases n,
{
    if n == 0 {
        f
    } else {
        form_focus_next(form_focus_forward_times(f, (n - 1) as nat))
    }
}

/// The profile form after `n` presses of Tab.
pub open spec fn tabbed_times(a: AppView, m: Modifiers, n: nat) -> AppView
    decreases n,
{
    if n == 0 {
        a
    } else {
        form_mode(tabbed_times(a, m, (n - 1) as nat), Key { code: KeyCode::Tab, modifiers: m }).0
    }
}

proof fn lemma_tabbed_times(a: AppView, m: Modifiers, n: nat)
    requires
        in_form_ring(a.focus),
    ensures
        tabbed_times(a, m, n) == (AppView { focus: form_focus_forward_times(a.focus, n), ..a }),
        in_form_ring(form_focus_forward_times(a.focus, n)),
    decreases n,
{
    if n > 0 {
        lemma_tabbed_times(a, m, (n - 1) as nat);
    }
}

/// On the profile form, Tab then Shift-Tab (or Shift-Tab then Tab) leaves
/// the form as it was, text and check boxes included, and eight presses of
/// Tab in a row do too: the focus goes once around the ring.
pub proof fn law_form_focus_roundtrip(a: AppView, m: Modifiers)
    requires
        in_form_ring(a.focus),
    ensures
        form_mode(form_mode(a, Key { code: KeyCode::Tab, modifiers: m }).0, Key {
            code: KeyCode::BackTab,
            modifiers: m,
        }).0 == a,
        form_mode(form_mode(a, Key { code: KeyCode::BackTab, modifiers: m }).0, Key {
            code: KeyCode::Tab,
            modifiers: m,
        }).0 == a,
        form_focus_forward_times(a.focus, 8) == a.focus,
        tabbed_times(a, m, 8) == a,
{
    reveal_with_fuel(form_focus_forward_times, 9);
    lemma_tabbed_times(a, m, 8);
}

// ─── Notifications ────────────────────────────────────────────────────────────

/// The interface after `n` ticks of the notification timer.
pub open spec fn ticked_times(a: AppView, n: nat) -> AppView
    decreases n,
{
    if n == 0 {
        a
    } else {
        ticked_times(a, (n - 1) as nat).ticked()
    }
}

proof fn lemma_ticks_left(a: AppView, n: nat)
    requires
        n <= a.notification_ttl,
        a.notification_ttl > 0,
        a.notification is Some,
    ensures
        ticked_times(a, n) == (AppView {
            notification_ttl: (a.notification_ttl - n) as u8,
            notification: if n == a.notification_ttl {
                None
            } else {
                a.notification
            },
            ..a
        }),
    decreases n,
{
    if n > 0 {
        lemma_ticks_left(a, (n - 1) as nat);
        let b = ticked_times(a, (n - 1) as nat);
        assert(b.notification_ttl == a.notification_ttl - (n - 1));
        assert(b.notification_ttl > 0);
        assert(ticked_times(a, n) == b.ticked());
        assert(b.ticked().notification_ttl == a.notification_ttl - n);
    }
}

/// A notification stays on screen for exactly [`NOTIFICATION_TICKS`] ticks
/// and is gone after them.
pub proof fn law_notification_expires(a: AppView, msg: Seq<char>, level: NotifLevel, k: nat)
    ensures
        k < NOTIFICATION_TICKS ==> ticked_times(a.notified(msg, level), k).notification == Some(
            (msg, level),
        ),
        ticked_times(a.notified(msg, level), NOTIFICATION_TICKS as nat).notification is None,
{
    let b = a.notified(msg, level);
    if k < NOTIFICATION_TICKS {
        lemma_ticks_left(b, k);
    }
    lemma_ticks_left(b, NOTIFICATION_TICKS as nat);
}

// ─── Log scrolling ────────────────────────────────────────────────────────────

/// Scrolling never leaves the log: a scroll position on a line of the active
/// session's log stays on a line, and a new line scrolls to itself.
pub proof fn law_scroll_stays_in_log(a: AppView, line: Seq<char>)
    requires
        a.active() matches Some(s) && s.log_scroll < s.logs.len(),
        a.active()->0.logs.len() < usize::MAX,
    ensures
        a.scrolled_up().active()->0.log_scroll < a.scrolled_up().active()->0.logs.len(),
        a.scrolled_down().active()->0.log_scroll < a.scrolled_down().active()->0.logs.len(),
        a.scrolled_up().active()->0.log_scroll <= a.active()->0.log_scroll,
        a.scrolled_down().active()->0.log_scroll >= a.active()->0.log_scroll,
        a.with_log(line).active()->0.log_scroll == a.active()->0.logs.len(),
        a.with_log(line).active()->0.logs.len() == a.active()->0.logs.len() + 1,
{
}

// ─── Opening and closing sessions ─────────────────────────────────────────────

/// A profile name that some session carries has a first session carrying it.
proof fn lemma_some_first_profile(ss: Seq<SessionView>, name: Seq<char>, j: int)
    requires
        0 <= j < ss.len(),
        ss[j].profile_name == name,
    ensures
        exists|i: int| is_first_profile(ss, name, i),
    decreases j,
{
    if exists|k: int| 0 <= k < j && ss[k].profile_name == name {
        let k = choose|k: int| 0 <= k < j && ss[k].profile_name == name;
        lemma_some_first_profile(ss, name, k);
    } else {
        assert(is_first_profile(ss, name, j));
    }
}

/// The first session for a profile is unique.
proof fn lemma_first_profile_unique(ss: Seq<SessionView>, name: Seq<char>, i: int)
    requires
        is_first_profile(ss, name, i),
    ensures
        forall|k: int| is_first_profile(ss, name, k) ==> k == i,
{
    assert forall|k: int| is_first_profile(ss, name, k) implies k == i by {
        if k < i {
            assert(ss[k].profile_name == name);
        } else if i < k {
            assert(ss[i].profile_name == name);
        }
    }
}

/// Opening the selected profile a second time reuses the session that the
/// first time opened or found, and changes nothing.
pub proof fn law_open_twice_reuses(a: AppView)
    requires
        a.sessions.len() < usize::MAX,
    ensures
        a.session_ensured().0.session_ensured() == a.session_ensured(),
{
    let (b, id) = a.session_ensured();
    match a.current_profile() {
        None => {},
        Some(p) => {
            assert(b.current_profile() == Some(p));
            match a.session_for_profile(p.name) {
                Some(i) => {
                    assert(is_first_profile(a.sessions, p.name, i));
                    lemma_first_profile_unique(a.sessions, p.name, i);
                    assert(b.sessions == a.sessions);
                    assert(b.session_for_profile(p.name) == Some(i));
                    assert(b.activated(i) == b);
                },
                None => {
                    let n = a.sessions.len() as int;
                    assert forall|j: int| 0 <= j < n implies a.sessions[j].profile_name
                        != p.name by {
                        if a.sessions[j].profile_name == p.name {
                            lemma_some_first_profile(a.sessions, p.name, j);
                        }
                    }
                    assert(b.sessions[n] == SessionView::from_profile(a.next_session_id, p));
                    assert(is_first_profile(b.sessions, p.name, n));
                    lemma_first_profile_unique(b.sessions, p.name, n);
                    assert(b.session_for_profile(p.name) == Some(n));
                    assert(b.activated(n) == b);
                },
            }
        },
    }
}

/// Opening the selected profile keeps every session id distinct and below
/// the next id to hand out and keeps one session per profile (the id
/// counter must not be at its largest value, else the next id wraps); it
/// also keeps the active index in range.
pub proof fn law_open_keeps_sessions_wf(a: AppView)
    requires
        a.session_ids_wf(),
        a.next_session_id < u64::MAX,
        a.sessions.len() <= usize::MAX,
    ensures
        a.session_ensured().0.session_ids_wf(),
        a.sessions_wf() ==> a.session_ensured().0.sessions_wf(),
{
    let (b, id) = a.session_ensured();
    match a.current_profile() {
        None => {},
        Some(p) => {
            match a.session_for_profile(p.name) {
                Some(i) => {
                    assert(is_first_profile(a.sessions, p.name, i));
                },
                None => {
                    let n = a.sessions.len() as int;
                    assert forall|j: int| 0 <= j < n implies a.sessions[j].profile_name
                        != p.name by {
                        if a.sessions[j].profile_name == p.name {
                            lemma_some_first_profile(a.sessions, p.name, j);
                        }
                    }
                    assert(b.sessions == a.sessions.push(
                        SessionView::from_profile(a.next_session_id, p),
                    ));
                    assert forall|i: int, j: int| 0 <= i < j < b.sessions.len() implies #[trigger] b.sessions[i].id
                        != #[trigger] b.sessions[j].id by {
                        if j == n {
                            assert(a.sessions[i].id < a.next_session_id);
                        }
                    }
                    assert forall|i: int, j: int| 0 <= i < j < b.sessions.len() implies #[trigger] b.sessions[i].profile_name
                        != #[trigger] b.sessions[j].profile_name by {
                        if j == n {
                            assert(a.sessions[i].profile_name != p.name);
                        }
                    }
                    assert forall|i: int| 0 <= i < b.sessions.len() implies #[trigger] b.sessions[i].id
                        < b.next_session_id by {
                        if i < n {
                            assert(a.sessions[i].id < a.next_session_id);
                        }
                    }
                },
            }
        },
    }
}

/// Closing the active session keeps every session id distinct and below
/// the next id to hand out, keeps one session per profile, and keeps the
/// active index in range.
pub proof fn law_close_keeps_sessions_wf(a: AppView)
    requires
        a.sessions_wf(),
        a.sessions.len() <= usize::MAX,
    ensures
        a.active_closed().sessions_wf(),
{
    match a.active_session_index {
        None => {},
        Some(i) => {
            let i = i as int;
            let rest = a.sessions.remove(i);
            let b = a.active_closed();
            assert(b.sessions == rest);
            assert(forall|k: int|
                0 <= k < rest.len() ==> #[trigger] rest[k] == a.sessions[if k < i {
                    k
                } else {
                    k + 1
                }]);
            assert forall|k: int, l: int| 0 <= k < l < rest.len() implies #[trigger] rest[k].id
                != #[trigger] rest[l].id && rest[k].profile_name != rest[l].profile_name by {
                let k2 = if k < i {
                    k
                } else {
                    k + 1
                };
                let l2 = if l < i {
                    l
                } else {
                    l + 1
                };
                assert(a.sessions[k2].id != a.sessions[l2].id);
                assert(a.sessions[k2].profile_name != a.sessions[l2].profile_name);
            }
            assert forall|k: int| 0 <= k < rest.len() implies #[trigger] rest[k].id
                < a.next_session_id by {
                let k2 = if k < i {
                    k
                } else {
                    k + 1
                };
                assert(a.sessions[k2].id < a.next_session_id);
            }
        },
    }
}

// ─── Events from the connection tasks ─────────────────────────────────────────

/// The session an event is about; debug lines are about none.
pub open spec fn event_session(ev: AppEventView) -> Option<u64> {
    match ev {
        AppEventView::LogLine { session_id, .. } => Some(session_id),
        AppEventView::DebugLog(_) => None,
        AppEventView::StateChanged { session_id, .. } => Some(session_id),
        AppEventView::NeedToken(session_id) => Some(session_id),
        AppEventView::CertError { session_id, .. } => Some(session_id),
        AppEventView::SpeedUpdate { session_id, .. } => Some(session_id),
    }
}

proof fn lemma_first_id(a: AppView, id: u64)
    ensures
        a.session_with_id(id) matches Some(i) ==> 0 <= i < a.sessions.len() && a.sessions[i].id
            == id,
{
    if exists|i: int| is_first_id(a.sessions, id, i) {
        let i = choose|i: int| is_first_id(a.sessions, id, i);
        assert(is_first_id(a.sessions, id, i));
    }
}

/// Sessions are isolated: an event about one session leaves every other
/// session as it was and keeps the profiles, the number of sessions and the
/// next id; all the work it asks for concerns that session. An event about
/// a session that is gone changes no session at all.
pub proof fn law_event_isolation(a: AppView, ev: AppEventView)
    ensures
        event_session(ev) matches Some(id) && a.session_with_id(id) is None ==> event_applied(
            a,
            ev,
        ).0.sessions == a.sessions,
        event_applied(a, ev).0.sessions.len() == a.sessions.len(),
        event_applied(a, ev).0.profiles == a.profiles,
        event_applied(a, ev).0.next_session_id == a.next_session_id,
        forall|j: int|
            0 <= j < a.sessions.len() && event_session(ev) != Some(a.sessions[j].id) ==> (
            #[trigger] event_applied(a, ev).0.sessions[j]) == a.sessions[j],
        forall|k: int|
            0 <= k < event_applied(a, ev).1.len() ==> ((#[trigger] event_applied(a, ev).1[k]) matches EffectView::SetWaitingFlag { session_id, .. } && event_session(ev) == Some(session_id)),
{
    match event_session(ev) {
        Some(id) => lemma_first_id(a, id),
        None => {},
    }
}

/// Debug lines and rate samples change nothing in the interface.
pub proof fn law_quiet_events(a: AppView, ev: AppEventView)
    requires
        ev is DebugLog || ev is SpeedUpdate,
    ensures
        event_applied(a, ev) == (a, Seq::<EffectView>::empty()),
{
}

/// What an event keeps of the sessions: their number, each one's id and
/// profile, the next id, and an active index in range.
#[verifier::spinoff_prover]
#[verifier::rlimit(40)]
proof fn lemma_event_keeps_shape(a: AppView, ev: AppEventView)
    requires
        a.active_in_range(),
    ensures
        event_applied(a, ev).0.sessions.len() == a.sessions.len(),
        event_applied(a, ev).0.next_session_id == a.next_session_id,
        event_applied(a, ev).0.active_in_range(),
        forall|j: int|
            0 <= j < a.sessions.len() ==> (#[trigger] event_applied(a, ev).0.sessions[j]).id
                == a.sessions[j].id && event_applied(a, ev).0.sessions[j].profile_name
                == a.sessions[j].profile_name,
{
    match event_session(ev) {
        Some(id) => lemma_first_id(a, id),
        None => {},
    }
}

/// No event breaks the session invariant: ids stay distinct and below the
/// next id, one session per profile, the active index in range.
pub proof fn law_events_keep_sessions_wf(a: AppView, ev: AppEventView)
    requires
        a.sessions_wf(),
    ensures
        event_applied(a, ev).0.sessions_wf(),
{
    lemma_event_keeps_shape(a, ev);
    let b = event_applied(a, ev).0;
    assert forall|i: int, j: int| 0 <= i < j < b.sessions.len() implies #[trigger] b.sessions[i].id
        != #[trigger] b.sessions[j].id by {
        assert(a.sessions[i].id != a.sessions[j].id);
    }
    assert forall|i: int, j: int| 0 <= i < j < b.sessions.len() implies #[trigger] b.sessions[i].profile_name
        != #[trigger] b.sessions[j].profile_name by {
        assert(a.sessions[i].profile_name != a.sessions[j].profile_name);
    }
    assert forall|i: int| 0 <= i < b.sessions.len() implies #[trigger] b.sessions[i].id
        < b.next_session_id by {
        assert(a.sessions[i].id < a.next_session_id);
    }
}

// ─── The OTP token ────────────────────────────────────────────────────────────

/// What the user sees of the interface: the application log, each session's
/// log, and the notification.
pub open spec fn visible(a: AppView) -> (
    Seq<Seq<char>>,
    Seq<Seq<Seq<char>>>,
    Option<(Seq<char>, NotifLevel)>,
) {
    (a.logs, Seq::new(a.sessions.len(), |k: int| a.sessions[k].logs), a.notification)
}

/// Two interface states alike but for what was typed into the token
/// prompts.
pub open spec fn differ_in_tokens(a: AppView, b: AppView) -> bool {
    &&& a.sessions.len() == b.sessions.len()
    &&& b == AppView { sessions: b.sessions, ..a }
    &&& forall|k: int|
        0 <= k < a.sessions.len() ==> #[trigger] b.sessions[k] == SessionView {
            token_input: b.sessions[k].token_input,
            ..a.sessions[k]
        }
}

/// States alike but for typed tokens agree on everything the interface
/// decides by, and stay alike through the common steps.
proof fn lemma_tokens_alike(a: AppView, b: AppView, line: Seq<char>, msg: Seq<char>, level: NotifLevel)
    requires
        differ_in_tokens(a, b),
    ensures
        visible(a) == visible(b),
        a.active_index() == b.active_index(),
        a.active_state() == b.active_state(),
        a.has_modal() == b.has_modal(),
        a.current_profile() == b.current_profile(),
        differ_in_tokens(a.with_log(line), b.with_log(line)),
        differ_in_tokens(a.notified(msg, level), b.notified(msg, level)),
        differ_in_tokens(a.ticked(), b.ticked()),
        differ_in_tokens(a.next_activated(), b.next_activated()),
        differ_in_tokens(a.prev_activated(), b.prev_activated()),
        differ_in_tokens(a.scrolled_up(), b.scrolled_up()),
        differ_in_tokens(a.scrolled_down(), b.scrolled_down()),
        differ_in_tokens(a.focus_forward(), b.focus_forward()),
        differ_in_tokens(a.focus_backward(), b.focus_backward()),
        differ_in_tokens(a.help_shown(), b.help_shown()),
        differ_in_tokens(a.help_hidden(), b.help_hidden()),
        differ_in_tokens(a.back_to_list(), b.back_to_list()),
        forall|i: int| differ_in_tokens(#[trigger] a.activated(i), b.activated(i)),
        forall|i: int|
            0 <= i < a.sessions.len() ==> (#[trigger] a.sessions[i]).logs == b.sessions[i].logs
                && a.sessions[i].vpn_state == b.sessions[i].vpn_state && a.sessions[i].id
                == b.sessions[i].id && a.sessions[i].profile_name == b.sessions[i].profile_name,
{
    assert forall|k: int| 0 <= k < a.sessions.len() implies (#[trigger] a.sessions[k]).logs
        == b.sessions[k].logs && a.sessions[k].vpn_state == b.sessions[k].vpn_state && a.sessions[k].id
        == b.sessions[k].id && a.sessions[k].profile_name == b.sessions[k].profile_name by {
        assert(b.sessions[k] == SessionView { token_input: b.sessions[k].token_input, ..a.sessions[k] });
    }
    assert(Seq::new(a.sessions.len(), |k: int| a.sessions[k].logs) =~= Seq::new(
        b.sessions.len(),
        |k: int| b.sessions[k].logs,
    ));
    match a.active_index() {
        Some(i) => {
            let wa = a.with_log(line);
            let wb = b.with_log(line);
            assert forall|k: int| 0 <= k < wa.sessions.len() implies #[trigger] wb.sessions[k]
                == SessionView { token_input: wb.sessions[k].token_input, ..wa.sessions[k] } by {
                assert(b.sessions[k] == SessionView { token_input: b.sessions[k].token_input, ..a.sessions[k] });
            }
            let ua = a.scrolled_up();
            let ub = b.scrolled_up();
            assert forall|k: int| 0 <= k < ua.sessions.len() implies #[trigger] ub.sessions[k]
                == SessionView { token_input: ub.sessions[k].token_input, ..ua.sessions[k] } by {
                assert(b.sessions[k] == SessionView { token_input: b.sessions[k].token_input, ..a.sessions[k] });
            }
            let da = a.scrolled_down();
            let db = b.scrolled_down();
            assert forall|k: int| 0 <= k < da.sessions.len() implies #[trigger] db.sessions[k]
                == SessionView { token_input: db.sessions[k].token_input, ..da.sessions[k] } by {
                assert(b.sessions[k] == SessionView { token_input: b.sessions[k].token_input, ..a.sessions[k] });
            }
        },
        None => {},
    }
    let ba = a.back_to_list();
    let bb = b.back_to_list();
    assert forall|k: int| 0 <= k < ba.sessions.len() implies #[trigger] bb.sessions[k]
        == SessionView { token_input: bb.sessions[k].token_input, ..ba.sessions[k] } by {
        assert(b.sessions[k] == SessionView { token_input: b.sessions[k].token_input, ..a.sessions[k] });
    }
}

/// Replacing a session by sessions alike but for their tokens keeps the
/// states alike.
proof fn lemma_tokens_update(a: AppView, b: AppView, i: int, sa: SessionView, sb: SessionView)
    requires
        differ_in_tokens(a, b),
        0 <= i < a.sessions.len(),
        sb == (SessionView { token_input: sb.token_input, ..sa }),
    ensures
        differ_in_tokens(update_session(a, i, sa), update_session(b, i, sb)),
{
    let ua = update_session(a, i, sa);
    let ub = update_session(b, i, sb);
    assert forall|k: int| 0 <= k < ua.sessions.len() implies #[trigger] ub.sessions[k]
        == SessionView { token_input: ub.sessions[k].token_input, ..ua.sessions[k] } by {
        assert(b.sessions[k] == SessionView { token_input: b.sessions[k].token_input, ..a.sessions[k] });
    }
}

/// States alike but for their tokens find the same sessions.
proof fn lemma_tokens_find(a: AppView, b: AppView, name: Seq<char>, id: u64)
    requires
        differ_in_tokens(a, b),
    ensures
        a.session_for_profile(name) == b.session_for_profile(name),
        a.session_with_id(id) == b.session_with_id(id),
{
    lemma_tokens_alike(a, b, seq![], seq![], NotifLevel::Info);
    assert forall|i: int| is_first_profile(a.sessions, name, i) == is_first_profile(b.sessions, name, i) by {}
    assert forall|i: int| is_first_id(a.sessions, id, i) == is_first_id(b.sessions, id, i) by {}
    if exists|i: int| is_first_profile(a.sessions, name, i) {
        let i = choose|i: int| is_first_profile(a.sessions, name, i);
        lemma_first_profile_unique(a.sessions, name, i);
        lemma_first_profile_unique(b.sessions, name, i);
    }
    if exists|i: int| is_first_id(a.sessions, id, i) {
        let i = choose|i: int| is_first_id(a.sessions, id, i);
        let j = choose|j: int| is_first_id(b.sessions, id, j);
        assert(is_first_id(b.sessions, id, i));
        assert(is_first_id(b.sessions, id, j));
        if i < j {
            assert(b.sessions[i].id == id);
        } else if j < i {
            assert(b.sessions[j].id == id);
        }
    }
}

/// Opening the selected profile keeps states alike but for their tokens
/// alike, and opens the same session.
proof fn lemma_tokens_ensured(a: AppView, b: AppView)
    requires
        differ_in_tokens(a, b),
    ensures
        differ_in_tokens(a.session_ensured().0, b.session_ensured().0),
        a.session_ensured().1 == b.session_ensured().1,
{
    lemma_tokens_alike(a, b, seq![], seq![], NotifLevel::Info);
    match a.current_profile() {
        None => {},
        Some(p) => {
            lemma_tokens_find(a, b, p.name, 0);
            match a.session_for_profile(p.name) {
                Some(i) => {
                    assert(is_first_profile(a.sessions, p.name, i));
                },
                None => {
                    let ga = a.session_ensured().0;
                    let gb = b.session_ensured().0;
                    let n = a.sessions.len() as int;
                    assert forall|k: int| 0 <= k < ga.sessions.len() implies #[trigger] gb.sessions[k]
                        == SessionView { token_input: gb.sessions[k].token_input, ..ga.sessions[k] } by {
                        if k < n {
                            assert(b.sessions[k] == SessionView {
                                token_input: b.sessions[k].token_input,
                                ..a.sessions[k]
                            });
                        }
                    }
                },
            }
        },
    }
}

proof fn lemma_tokens_connect(a: AppView, b: AppView)
    requires
        differ_in_tokens(a, b),
    ensures
        differ_in_tokens(connect_active(a).0, connect_active(b).0),
        differ_in_tokens(connect(a).0, connect(b).0),
        differ_in_tokens(disconnect(a).0, disconnect(b).0),
{
    lemma_connect_active_tokens(a, b);
    lemma_disconnect_tokens(a, b);
    if a.active_session_index is None {
        lemma_tokens_ensured(a, b);
        let (a2, id) = a.session_ensured();
        let b2 = b.session_ensured().0;
        lemma_tokens_alike(a, b, seq![], "Pilih profile terlebih dahulu"@, NotifLevel::Warning);
        match id {
            None => {},
            Some(id) => {
                lemma_tokens_find(a2, b2, seq![], id);
                lemma_tokens_alike(a2, b2, seq![], seq![], NotifLevel::Info);
                let a3 = match a2.session_with_id(id) {
                    Some(idx) => a2.activated(idx),
                    None => a2,
                };
                let b3 = match b2.session_with_id(id) {
                    Some(idx) => b2.activated(idx),
                    None => b2,
                };
                lemma_connect_active_tokens(a3, b3);
            },
        }
    }
}

proof fn lemma_connect_active_tokens(a: AppView, b: AppView)
    requires
        differ_in_tokens(a, b),
    ensures
        differ_in_tokens(connect_active(a).0, connect_active(b).0),
{
    lemma_tokens_alike(a, b, seq![], "Sudah terhubung atau sedang menghubungkan"@, NotifLevel::Warning);
    lemma_tokens_alike(a, b, seq![], "Host, Username, dan Password harus diisi"@, NotifLevel::Error);
    match a.active_index() {
        None => {},
        Some(i) => {
            let s = a.sessions[i];
            let t = b.sessions[i];
            assert(t == SessionView { token_input: t.token_input, ..s });
            let a2 = with_active_state(a, i, VpnStateView::Connecting);
            let b2 = with_active_state(b, i, VpnStateView::Connecting);
            lemma_tokens_update(a, b, i, SessionView { vpn_state: VpnStateView::Connecting, ..s }, SessionView { vpn_state: VpnStateView::Connecting, ..t });
            let l1 = connecting_log(s.host, s.port);
            lemma_tokens_alike(a2, b2, l1, seq![], NotifLevel::Info);
            let a3 = a2.with_log(l1);
            let b3 = b2.with_log(l1);
            let l2 = "[APP] Menggunakan trusted cert yang tersimpan"@;
            lemma_tokens_alike(a3, b3, l2, seq![], NotifLevel::Info);
            let a4 = if s.trusted_cert is Some { a3.with_log(l2) } else { a3 };
            let b4 = if t.trusted_cert is Some { b3.with_log(l2) } else { b3 };
            lemma_tokens_alike(a4, b4, seq![], "Menghubungkan ke VPN..."@, NotifLevel::Info);
        },
    }
}

proof fn lemma_disconnect_tokens(a: AppView, b: AppView)
    requires
        differ_in_tokens(a, b),
    ensures
        differ_in_tokens(disconnect(a).0, disconnect(b).0),
{
    lemma_tokens_alike(a, b, seq![], "Tidak ada session aktif"@, NotifLevel::Info);
    lemma_tokens_alike(a, b, seq![], "Tidak ada koneksi aktif"@, NotifLevel::Info);
    match a.active_index() {
        None => {},
        Some(i) => {
            let s = a.sessions[i];
            let t = b.sessions[i];
            assert(t == SessionView { token_input: t.token_input, ..s });
            let ns = SessionView { token_input: seq![], pending_cert: None, vpn_state: VpnStateView::Disconnecting, ..s };
            let nt = SessionView { token_input: seq![], pending_cert: None, vpn_state: VpnStateView::Disconnecting, ..t };
            assert(ns == nt);
            let a2 = AppView { sessions: a.sessions.update(i, ns), focus: Focus::Connect, ..a };
            let b2 = AppView { sessions: b.sessions.update(i, nt), focus: Focus::Connect, ..b };
            lemma_tokens_update(AppView { focus: Focus::Connect, ..a }, AppView { focus: Focus::Connect, ..b }, i, ns, nt);
            assert(a2 == update_session(AppView { focus: Focus::Connect, ..a }, i, ns));
            assert(b2 == update_session(AppView { focus: Focus::Connect, ..b }, i, nt));
            let l = "[APP] Memutuskan koneksi VPN..."@;
            lemma_tokens_alike(a2, b2, l, seq![], NotifLevel::Info);
            lemma_tokens_alike(a2.with_log(l), b2.with_log(l), seq![], "Memutuskan koneksi..."@, NotifLevel::Warning);
        },
    }
}

/// Sessions alike but for their tokens, one by one.
pub open spec fn sessions_alike(sa: Seq<SessionView>, sb: Seq<SessionView>) -> bool {
    &&& sa.len() == sb.len()
    &&& forall|k: int|
        0 <= k < sa.len() ==> #[trigger] sb[k] == SessionView { token_input: sb[k].token_input, ..sa[k] }
}

proof fn lemma_filter_busy_alike(sa: Seq<SessionView>, sb: Seq<SessionView>)
    requires
        sessions_alike(sa, sb),
    ensures
        sessions_alike(sa.filter(busy()), sb.filter(busy())),
    decreases sa.len(),
{
    reveal(Seq::filter);
    if sa.len() > 0 {
        let ia = sa.drop_last();
        let ib = sb.drop_last();
        assert forall|k: int| 0 <= k < ia.len() implies #[trigger] ib[k] == SessionView {
            token_input: ib[k].token_input,
            ..ia[k]
        } by {
            assert(sb[k] == SessionView { token_input: sb[k].token_input, ..sa[k] });
        }
        lemma_filter_busy_alike(ia, ib);
        assert(sa =~= ia.push(sa.last()));
        assert(sb =~= ib.push(sb.last()));
        ia.lemma_filter_push(sa.last(), busy());
        ib.lemma_filter_push(sb.last(), busy());
        assert(sb[sb.len() - 1] == SessionView { token_input: sb[sb.len() - 1].token_input, ..sa[sa.len() - 1] });
        assert(busy()(sa.last()) == busy()(sb.last()));
        let fa = sa.filter(busy());
        let fb = sb.filter(busy());
        if busy()(sa.last()) {
            assert forall|k: int| 0 <= k < fa.len() implies #[trigger] fb[k] == SessionView {
                token_input: fb[k].token_input,
                ..fa[k]
            } by {
                if k < ia.filter(busy()).len() {
                    assert(fa[k] == ia.filter(busy())[k]);
                    assert(fb[k] == ib.filter(busy())[k]);
                }
            }
        }
    }
}

proof fn lemma_tokens_disconnect_all(a1: AppView, b1: AppView)
    requires
        differ_in_tokens(a1, b1),
    ensures
        differ_in_tokens(disconnect_all(a1).0, disconnect_all(b1).0),
{
    let sa = crate::actions::all_stopping(a1.sessions);
    let sb = crate::actions::all_stopping(b1.sessions);
    assert forall|k: int| 0 <= k < sa.len() implies #[trigger] sb[k] == SessionView {
        token_input: sb[k].token_input,
        ..sa[k]
    } by {
        assert(b1.sessions[k] == SessionView { token_input: b1.sessions[k].token_input, ..a1.sessions[k] });
    }
    let na = live_count(a1.sessions);
    assert(live_count(a1.sessions) == live_count(b1.sessions)) by {
        lemma_live_count_alike(a1.sessions, b1.sessions);
    }
    let da = AppView { sessions: sa, ..a1 };
    let db = AppView { sessions: sb, ..b1 };
    assert(differ_in_tokens(da, db));
    let fa = AppView { focus: Focus::Connect, ..da };
    let fb = AppView { focus: Focus::Connect, ..db };
    let m1 = "Memutuskan "@ + decimal(na) + " session..."@;
    lemma_tokens_alike(fa, fb, seq![], m1, NotifLevel::Warning);
    let l1 = "[APP] Memutuskan "@ + decimal(na) + " session aktif..."@;
    lemma_tokens_alike(fa.notified(m1, NotifLevel::Warning), fb.notified(m1, NotifLevel::Warning), l1, seq![], NotifLevel::Info);
    lemma_tokens_alike(da, db, seq![], "Tidak ada session aktif untuk diputus"@, NotifLevel::Info);
}

proof fn lemma_tokens_close_active(a1: AppView, b1: AppView)
    requires
        differ_in_tokens(a1, b1),
    ensures
        differ_in_tokens(crate::actions::close_active_tab(a1), crate::actions::close_active_tab(b1)),
{
    lemma_tokens_alike(a1, b1, seq![], seq![], NotifLevel::Info);
    lemma_tokens_alike(a1, b1, seq![], "Disconnect session aktif dulu sebelum close tab"@, NotifLevel::Warning);
    match a1.active_session_index {
        None => {},
        Some(i) => {
            let ra = a1.sessions.remove(i as int);
            let rb = b1.sessions.remove(i as int);
            if i < a1.sessions.len() {
                assert forall|k: int| 0 <= k < ra.len() implies #[trigger] rb[k] == SessionView {
                    token_input: rb[k].token_input,
                    ..ra[k]
                } by {
                    if k < i {
                        assert(b1.sessions[k] == SessionView { token_input: b1.sessions[k].token_input, ..a1.sessions[k] });
                    } else {
                        assert(b1.sessions[k + 1] == SessionView { token_input: b1.sessions[k + 1].token_input, ..a1.sessions[k + 1] });
                    }
                }
                let xa = AppView { sessions: ra, ..a1 };
                let xb = AppView { sessions: rb, ..b1 };
                assert(differ_in_tokens(xa, xb));
                lemma_tokens_alike(xa, xb, seq![], seq![], NotifLevel::Info);
                let ya = a1.active_closed();
                let yb = b1.active_closed();
                assert(differ_in_tokens(ya, yb));
                match a1.active() {
                    Some(s) => {
                        lemma_tokens_alike(ya, yb, seq![], "Session '"@ + s.profile_name + "' ditutup"@, NotifLevel::Info);
                    },
                    None => {},
                }
            }
        },
    }
}

proof fn lemma_tokens_close_idle(a1: AppView, b1: AppView)
    requires
        differ_in_tokens(a1, b1),
    ensures
        differ_in_tokens(close_idle(a1), close_idle(b1)),
{
    assert(sessions_alike(a1.sessions, b1.sessions));
    lemma_filter_busy_alike(a1.sessions, b1.sessions);
    let ka = a1.sessions.filter(busy());
    let kb = b1.sessions.filter(busy());
    let ga = AppView { sessions: ka, ..a1 };
    let gb = AppView { sessions: kb, ..b1 };
    assert(differ_in_tokens(ga, gb));
    lemma_tokens_alike(ga, gb, seq![], seq![], NotifLevel::Info);
    let ha = AppView { active_session_index: None, ui_mode: UiMode::ProfileList, focus: Focus::ProfileList, ..ga };
    let hb = AppView { active_session_index: None, ui_mode: UiMode::ProfileList, focus: Focus::ProfileList, ..gb };
    let removed = (a1.sessions.len() - ka.len()) as nat;
    lemma_tokens_alike(ha, hb, seq![], decimal(removed) + " session ditutup"@, NotifLevel::Info);
    lemma_tokens_alike(ha, hb, seq![], "Tidak ada session yang bisa ditutup"@, NotifLevel::Warning);
    let ia = ga.activated(ka.len() - 1);
    let ib = gb.activated(kb.len() - 1);
    lemma_tokens_alike(ia, ib, seq![], decimal(removed) + " session ditutup"@, NotifLevel::Info);
    lemma_tokens_alike(ia, ib, seq![], "Tidak ada session yang bisa ditutup"@, NotifLevel::Warning);
    lemma_tokens_alike(ga, gb, seq![], decimal(removed) + " session ditutup"@, NotifLevel::Info);
    lemma_tokens_alike(ga, gb, seq![], "Tidak ada session yang bisa ditutup"@, NotifLevel::Warning);
}

proof fn lemma_tokens_confirm(a: AppView, b: AppView, key: Key)
    requires
        differ_in_tokens(a, b),
    ensures
        differ_in_tokens(action_confirm(a, key).0, action_confirm(b, key).0),
{
    lemma_tokens_alike(a, b, seq![], seq![], NotifLevel::Info);
    let ca = AppView { pending_action: None, focus: Focus::Connect, ..a };
    let cb = AppView { pending_action: None, focus: Focus::Connect, ..b };
    lemma_tokens_alike(ca, cb, seq![], "Aksi dibatalkan"@, NotifLevel::Info);
    match a.pending_action {
        None => {},
        Some(act) => {
            let a1 = AppView { pending_action: None, ..a };
            let b1 = AppView { pending_action: None, ..b };
            assert(differ_in_tokens(a1, b1));
            lemma_tokens_connect(a1, b1);
            lemma_tokens_disconnect_all(a1, b1);
            lemma_tokens_close_active(a1, b1);
            lemma_tokens_close_idle(a1, b1);
        },
    }
}

proof fn lemma_live_count_alike(sa: Seq<SessionView>, sb: Seq<SessionView>)
    requires
        sessions_alike(sa, sb),
    ensures
        live_count(sa) == live_count(sb),
    decreases sa.len(),
{
    if sa.len() > 0 {
        let ia = sa.drop_last();
        let ib = sb.drop_last();
        assert forall|k: int| 0 <= k < ia.len() implies #[trigger] ib[k] == SessionView {
            token_input: ib[k].token_input,
            ..ia[k]
        } by {
            assert(sb[k] == SessionView { token_input: sb[k].token_input, ..sa[k] });
        }
        lemma_live_count_alike(ia, ib);
        assert(sb[sb.len() - 1] == SessionView { token_input: sb[sb.len() - 1].token_input, ..sa[sa.len() - 1] });
    }
}

/// Both states' tokens are blank, or both are not, session by session.
pub open spec fn same_blankness(a: AppView, b: AppView) -> bool {
    forall|k: int|
        0 <= k < a.sessions.len() ==> (trim(#[trigger] a.sessions[k].token_input).len() == 0) == (trim(
            b.sessions[k].token_input,
        ).len() == 0)
}

proof fn lemma_tokens_edited(a: AppView, b: AppView, code: KeyCode)
    requires
        differ_in_tokens(a, b),
    ensures
        differ_in_tokens(crate::actions::token_edited(a, code), crate::actions::token_edited(b, code)),
{
    lemma_tokens_alike(a, b, seq![], seq![], NotifLevel::Info);
    match a.active_index() {
        Some(i) => {
            let s = a.sessions[i];
            let t = b.sessions[i];
            assert(t == SessionView { token_input: t.token_input, ..s });
            lemma_tokens_update(
                a,
                b,
                i,
                SessionView { token_input: text_edited(s.token_input, code), ..s },
                SessionView { token_input: text_edited(t.token_input, code), ..t },
            );
        },
        None => {},
    }
}

proof fn lemma_tokens_popup(a: AppView, b: AppView, key: Key)
    requires
        differ_in_tokens(a, b),
        same_blankness(a, b),
    ensures
        differ_in_tokens(token_popup(a, key).0, token_popup(b, key).0),
{
    lemma_tokens_alike(a, b, seq![], "Token tidak boleh kosong!"@, NotifLevel::Error);
    lemma_tokens_edited(a, b, key.code);
    match key.code {
        KeyCode::Enter => match a.active_index() {
            None => {},
            Some(i) => {
                let line = "[TOKEN] Mengirim token OTP..."@;
                lemma_tokens_alike(a, b, line, seq![], NotifLevel::Info);
                let a1 = a.with_log(line);
                let b1 = b.with_log(line);
                lemma_tokens_alike(a1, b1, seq![], seq![], NotifLevel::Info);
                let sa = SessionView { token_input: seq![], vpn_state: VpnStateView::Connecting, ..a1.sessions[i] };
                let sb = SessionView { token_input: seq![], vpn_state: VpnStateView::Connecting, ..b1.sessions[i] };
                assert(b1.sessions[i] == SessionView { token_input: b1.sessions[i].token_input, ..a1.sessions[i] });
                lemma_tokens_update(a1, b1, i, sa, sb);
            },
        },
        KeyCode::Esc => {
            let a0 = crate::actions::token_edited(a, KeyCode::Delete);
            let b0 = crate::actions::token_edited(b, KeyCode::Delete);
            lemma_tokens_edited(a, b, KeyCode::Delete);
            let line = "[TOKEN] ❌ Token dibatalkan"@;
            lemma_tokens_alike(a0, b0, line, seq![], NotifLevel::Info);
            lemma_disconnect_tokens(a0.with_log(line), b0.with_log(line));
        },
        _ => {},
    }
}

proof fn lemma_tokens_accept(a: AppView, b: AppView)
    requires
        differ_in_tokens(a, b),
    ensures
        differ_in_tokens(accept_cert(a).0, accept_cert(b).0),
{
    lemma_tokens_alike(a, b, seq![], seq![], NotifLevel::Info);
    match a.active_index() {
        None => {},
        Some(i) => {
            let s = a.sessions[i];
            let t = b.sessions[i];
            assert(t == SessionView { token_input: t.token_input, ..s });
            match s.pending_cert {
                None => {},
                Some(cert) => {
                    let s1 = SessionView { pending_cert: None, ..s }.with_log(
                        "[CERT] ✔ Certificate diterima: "@ + cert.subject_cn,
                    );
                    let t1 = SessionView { pending_cert: None, ..t }.with_log(
                        "[CERT] ✔ Certificate diterima: "@ + cert.subject_cn,
                    );
                    let s2 = SessionView { trusted_cert: Some(cert.hash), vpn_state: VpnStateView::Connecting, ..s1 };
                    let t2 = SessionView { trusted_cert: Some(cert.hash), vpn_state: VpnStateView::Connecting, ..t1 };
                    lemma_tokens_update(a, b, i, s2, t2);
                    let a1 = update_session(a, i, s2);
                    let b1 = update_session(b, i, t2);
                    let a2 = a1.cert_trusted(s.profile_name, cert.hash);
                    let b2 = b1.cert_trusted(t.profile_name, cert.hash);
                    assert forall|k: int| 0 <= k < a2.sessions.len() implies #[trigger] b2.sessions[k]
                        == SessionView { token_input: b2.sessions[k].token_input, ..a2.sessions[k] } by {
                        assert(b1.sessions[k] == SessionView { token_input: b1.sessions[k].token_input, ..a1.sessions[k] });
                    }
                    assert(differ_in_tokens(a2, b2));
                    let a3 = AppView { focus: Focus::Disconnect, ..a2 };
                    let b3 = AppView { focus: Focus::Disconnect, ..b2 };
                    lemma_tokens_alike(a3, b3, "[APP] Menghubungkan ulang dengan cert trusted..."@, seq![], NotifLevel::Info);
                },
            }
        },
    }
}

proof fn lemma_tokens_deny(a: AppView, b: AppView)
    requires
        differ_in_tokens(a, b),
    ensures
        differ_in_tokens(deny_cert(a).0, deny_cert(b).0),
{
    lemma_tokens_alike(a, b, seq![], seq![], NotifLevel::Info);
    let cn = match a.active() {
        Some(s) => match s.pending_cert {
            Some(c) => c.subject_cn,
            None => seq![],
        },
        None => seq![],
    };
    let line = "[CERT] ✖ Certificate ditolak: "@ + cn;
    lemma_tokens_alike(a, b, line, seq![], NotifLevel::Info);
    let d1 = a.with_log(line);
    let e1 = b.with_log(line);
    lemma_tokens_alike(d1, e1, seq![], seq![], NotifLevel::Info);
    match d1.active_index() {
        Some(i) => {
            assert(e1.sessions[i] == SessionView { token_input: e1.sessions[i].token_input, ..d1.sessions[i] });
            let ta = SessionView { pending_cert: None, vpn_state: VpnStateView::Disconnected, ..d1.sessions[i] };
            let tb = SessionView { pending_cert: None, vpn_state: VpnStateView::Disconnected, ..e1.sessions[i] };
            lemma_tokens_update(d1, e1, i, ta, tb);
            let fa = AppView { focus: Focus::Connect, ..update_session(d1, i, ta) };
            let fb = AppView { focus: Focus::Connect, ..update_session(e1, i, tb) };
            lemma_tokens_alike(fa, fb, seq![], "Certificate ditolak. Koneksi dibatalkan."@, NotifLevel::Warning);
        },
        None => {
            let fa = AppView { focus: Focus::Connect, ..d1 };
            let fb = AppView { focus: Focus::Connect, ..e1 };
            lemma_tokens_alike(fa, fb, seq![], "Certificate ditolak. Koneksi dibatalkan."@, NotifLevel::Warning);
        },
    }
}

proof fn lemma_tokens_cert(a: AppView, b: AppView, key: Key)
    requires
        differ_in_tokens(a, b),
    ensures
        differ_in_tokens(cert_dialog(a, key).0, cert_dialog(b, key).0),
{
    lemma_tokens_accept(a, b);
    lemma_tokens_deny(a, b);
}

proof fn lemma_tokens_scrolls(a: AppView, b: AppView, n: nat)
    requires
        differ_in_tokens(a, b),
    ensures
        differ_in_tokens(scrolled_up_times(a, n), scrolled_up_times(b, n)),
        differ_in_tokens(scrolled_down_times(a, n), scrolled_down_times(b, n)),
    decreases n,
{
    if n > 0 {
        lemma_tokens_scrolls(a, b, (n - 1) as nat);
        lemma_tokens_alike(
            scrolled_up_times(a, (n - 1) as nat),
            scrolled_up_times(b, (n - 1) as nat),
            seq![],
            seq![],
            NotifLevel::Info,
        );
        lemma_tokens_alike(
            scrolled_down_times(a, (n - 1) as nat),
            scrolled_down_times(b, (n - 1) as nat),
            seq![],
            seq![],
            NotifLevel::Info,
        );
    }
}

proof fn lemma_tokens_open_selected(a: AppView, b: AppView)
    requires
        differ_in_tokens(a, b),
    ensures
        differ_in_tokens(open_selected(a).0, open_selected(b).0),
{
    lemma_tokens_alike(a, b, seq![], seq![], NotifLevel::Info);
    match a.current_profile() {
        None => {},
        Some(p) => {
            lemma_tokens_find(a, b, p.name, 0);
            match a.session_for_profile(p.name) {
                Some(i) => {
                    let msg = "Membuka session '"@ + p.name + "'"@;
                    let line = "[APP] Membuka session existing: "@ + p.name;
                    lemma_tokens_alike(a.activated(i), b.activated(i), seq![], msg, NotifLevel::Info);
                    lemma_tokens_alike(
                        a.activated(i).notified(msg, NotifLevel::Info),
                        b.activated(i).notified(msg, NotifLevel::Info),
                        line,
                        seq![],
                        NotifLevel::Info,
                    );
                },
                None => {
                    let ca = AppView { ui_mode: UiMode::Connect, ..a };
                    let cb = AppView { ui_mode: UiMode::Connect, ..b };
                    lemma_tokens_ensured(ca, cb);
                    let line = "[APP] Menggunakan profile: "@ + p.name;
                    lemma_tokens_alike(ca.session_ensured().0, cb.session_ensured().0, line, seq![], NotifLevel::Info);
                    lemma_tokens_connect(
                        ca.session_ensured().0.with_log(line),
                        cb.session_ensured().0.with_log(line),
                    );
                },
            }
        },
    }
}

#[verifier::rlimit(30)]
proof fn lemma_tokens_list(a: AppView, b: AppView, key: Key)
    requires
        differ_in_tokens(a, b),
    ensures
        differ_in_tokens(list_mode(a, key).0, list_mode(b, key).0),
{
    lemma_tokens_alike(a, b, seq![], seq![], NotifLevel::Info);
    let c = key.code;
    if c == KeyCode::Up && a.selected_profile_index > 0 {
    } else if c == KeyCode::Down && a.selected_profile_index + 1 < a.profiles.len() {
    } else if c == KeyCode::Enter || c == KeyCode::F(5) {
        lemma_tokens_open_selected(a, b);
    } else if c == KeyCode::F(2) || c == KeyCode::Char('n') || c == KeyCode::Char('N') {
        let na = crate::profile_form::new_form(a);
        let nb = crate::profile_form::new_form(b);
        lemma_tokens_alike(na, nb, "[APP] Mode: New Profile (F2/N)"@, seq![], NotifLevel::Info);
    } else if c == KeyCode::F(3) || c == KeyCode::Char('e') || c == KeyCode::Char('E') {
        match a.current_profile() {
            Some(p) => {
                let ea = crate::profile_form::edit_form(a, p);
                let eb = crate::profile_form::edit_form(b, p);
                lemma_tokens_alike(ea, eb, "[APP] Mode: Edit Profile '"@ + p.name + "' (F3/E)"@, seq![], NotifLevel::Info);
            },
            None => {},
        }
    } else if c == KeyCode::F(4) || c == KeyCode::Char('d') || c == KeyCode::Char('D') {
        match a.current_profile() {
            Some(p) => {
                let da = AppView { delete_confirmation: Some(p.name), ..a };
                let db = AppView { delete_confirmation: Some(p.name), ..b };
                lemma_tokens_alike(da, db, seq![], "Tekan F4 atau D lagi untuk hapus '"@ + p.name + "'"@, NotifLevel::Warning);
            },
            None => {},
        }
    }
}

#[verifier::rlimit(30)]
proof fn lemma_tokens_form(a: AppView, b: AppView, key: Key)
    requires
        differ_in_tokens(a, b),
    ensures
        differ_in_tokens(form_mode(a, key).0, form_mode(b, key).0),
{
    lemma_tokens_alike(a, b, seq![], seq![], NotifLevel::Info);
    match key.code {
        KeyCode::Tab | KeyCode::BackTab => {},
        KeyCode::Char(' ') => {},
        KeyCode::Enter => {
            lemma_tokens_alike(a, b, seq![], "Nama profile tidak boleh kosong!"@, NotifLevel::Error);
            lemma_tokens_alike(a, b, seq![], "Host tidak boleh kosong!"@, NotifLevel::Error);
        },
        KeyCode::Esc => {
            let ea = AppView { ui_mode: UiMode::ProfileList, focus: Focus::ProfileList, delete_confirmation: None, ..a };
            let eb = AppView { ui_mode: UiMode::ProfileList, focus: Focus::ProfileList, delete_confirmation: None, ..b };
            lemma_tokens_alike(ea, eb, crate::state::back_to_list_line(), seq![], NotifLevel::Info);
        },
        _ => {
            assert(differ_in_tokens(crate::actions::form_typing(a, key.code), crate::actions::form_typing(b, key.code)));
        },
    }
}

proof fn lemma_tokens_typing(a: AppView, b: AppView, key: Key)
    requires
        differ_in_tokens(a, b),
    ensures
        differ_in_tokens(crate::actions::connect_typing(a, key).0, crate::actions::connect_typing(b, key).0),
{
    lemma_tokens_alike(a, b, seq![], seq![], NotifLevel::Info);
    if a.focus == Focus::Host || a.focus == Focus::Username || a.focus == Focus::Password || a.focus
        == Focus::SudoPassword {
        match a.active_index() {
            Some(i) => {
                let s = a.sessions[i];
                let t = b.sessions[i];
                assert(t == SessionView { token_input: t.token_input, ..s });
                if a.focus == Focus::Host {
                    let (h, p) = crate::actions::host_port(
                        text_edited(s.host + ":"@ + decimal(s.port as nat), key.code),
                    );
                    lemma_tokens_update(a, b, i, SessionView { host: h, port: p, ..s }, SessionView { host: h, port: p, ..t });
                } else if a.focus == Focus::Username {
                    lemma_tokens_update(
                        a,
                        b,
                        i,
                        SessionView { username: text_edited(s.username, key.code), ..s },
                        SessionView { username: text_edited(t.username, key.code), ..t },
                    );
                } else if a.focus == Focus::Password {
                    lemma_tokens_update(
                        a,
                        b,
                        i,
                        SessionView { password: text_edited(s.password, key.code), ..s },
                        SessionView { password: text_edited(t.password, key.code), ..t },
                    );
                } else {
                    lemma_tokens_update(
                        a,
                        b,
                        i,
                        SessionView { sudo_password: text_edited(s.sudo_password, key.code), ..s },
                        SessionView { sudo_password: text_edited(t.sudo_password, key.code), ..t },
                    );
                }
            },
            None => {},
        }
    } else {
        lemma_tokens_connect(a, b);
    }
}

#[verifier::rlimit(40)]
proof fn lemma_tokens_connect_mode(a: AppView, b: AppView, key: Key)
    requires
        differ_in_tokens(a, b),
    ensures
        differ_in_tokens(connect_mode(a, key).0, connect_mode(b, key).0),
{
    lemma_tokens_alike(a, b, seq![], seq![], NotifLevel::Info);
    let m = key.modifiers;
    let c = key.code;
    if m.only_control() && c == KeyCode::Char('p') {
    } else if m.only_control() && c == KeyCode::Char('s') {
    } else if m.only_control() && c == KeyCode::Char('k') {
    } else if m.control && m.shift && c == KeyCode::Char('K') {
    } else if c == KeyCode::Left {
    } else if c == KeyCode::Right {
    } else if m.only_control() && c == KeyCode::Char('w') {
    } else if m.control && m.shift && c == KeyCode::Char('W') {
    } else if c == KeyCode::Tab {
    } else if m.only_shift() && c == KeyCode::BackTab {
    } else if c == KeyCode::Up {
    } else if c == KeyCode::Down {
    } else if c == KeyCode::PageUp {
        lemma_tokens_scrolls(a, b, 10);
    } else if c == KeyCode::PageDown {
        lemma_tokens_scrolls(a, b, 10);
    } else if c == KeyCode::F(5) {
        match a.active_index() {
            Some(i) => {
                let s = a.sessions[i];
                let t = b.sessions[i];
                assert(t == SessionView { token_input: t.token_input, ..s });
                lemma_tokens_update(
                    a,
                    b,
                    i,
                    SessionView { log_scroll: (s.logs.len() - 1) as usize, ..s },
                    SessionView { log_scroll: (t.logs.len() - 1) as usize, ..t },
                );
            },
            None => {},
        }
    } else {
        lemma_tokens_typing(a, b, key);
    }
}

#[verifier::rlimit(40)]
proof fn lemma_tokens_keys(a: AppView, b: AppView, key: Key)
    requires
        differ_in_tokens(a, b),
        same_blankness(a, b),
    ensures
        differ_in_tokens(key_handled(a, key).0, key_handled(b, key).0),
{
    lemma_tokens_alike(a, b, seq![], seq![], NotifLevel::Info);
    if a.ui_mode == UiMode::Help {
    } else if key.code == KeyCode::F(1) {
    } else if crate::runtime::is_quit_key(key) {
    } else if a.pending_action is Some {
        lemma_tokens_confirm(a, b, key);
    } else if a.active_state() is WaitingToken {
        lemma_tokens_popup(a, b, key);
    } else if a.active_state() is WaitingCert {
        lemma_tokens_cert(a, b, key);
    } else if key.code == KeyCode::Esc || (key.modifiers.only_control() && key.code == KeyCode::Char(
        'b',
    )) {
    } else {
        match a.ui_mode {
            UiMode::ProfileList => lemma_tokens_list(a, b, key),
            UiMode::NewProfile | UiMode::EditProfile => lemma_tokens_form(a, b, key),
            UiMode::Connect => lemma_tokens_connect_mode(a, b, key),
            UiMode::Help => {},
        }
    }
}

#[verifier::rlimit(40)]
proof fn lemma_tokens_events(a: AppView, b: AppView, ev: AppEventView)
    requires
        differ_in_tokens(a, b),
    ensures
        differ_in_tokens(event_applied(a, ev).0, event_applied(b, ev).0),
{
    lemma_tokens_alike(a, b, seq![], seq![], NotifLevel::Info);
    match ev {
        AppEventView::LogLine { session_id, line } => {
            lemma_tokens_find(a, b, seq![], session_id);
            lemma_tokens_alike(a, b, line, seq![], NotifLevel::Info);
            match a.session_with_id(session_id) {
                Some(i) => {
                    lemma_first_id(a, session_id);
                    let s = a.sessions[i];
                    let t = b.sessions[i];
                    assert(t == SessionView { token_input: t.token_input, ..s });
                    lemma_tokens_update(a, b, i, s.with_log(line), t.with_log(line));
                },
                None => {},
            }
        },
        AppEventView::StateChanged { session_id, state } => {
            lemma_tokens_find(a, b, seq![], session_id);
            match a.session_with_id(session_id) {
                Some(i) => {
                    lemma_first_id(a, session_id);
                    lemma_tokens_state_changed(a, b, i, state);
                },
                None => {},
            }
        },
        AppEventView::NeedToken(session_id) => {
            lemma_tokens_find(a, b, seq![], session_id);
            match a.session_with_id(session_id) {
                Some(i) => {
                    lemma_first_id(a, session_id);
                    let s = a.sessions[i];
                    let t = b.sessions[i];
                    assert(t == SessionView { token_input: t.token_input, ..s });
                    let line = "[APP] ⚡ Token OTP diminta — masukkan token dari email"@;
                    let s1 = SessionView { vpn_state: VpnStateView::WaitingToken, token_input: seq![], ..s }.with_log(line);
                    let t1 = SessionView { vpn_state: VpnStateView::WaitingToken, token_input: seq![], ..t }.with_log(line);
                    assert(s1 == t1);
                    lemma_tokens_update(a, b, i, s1, t1);
                    let msg = "Masukkan token OTP untuk '"@ + s.profile_name + "'"@;
                    lemma_tokens_alike(update_session(a, i, s1), update_session(b, i, t1), seq![], msg, NotifLevel::Info);
                    lemma_tokens_alike(
                        update_session(a, i, s1).notified(msg, NotifLevel::Info),
                        update_session(b, i, t1).notified(msg, NotifLevel::Info),
                        seq![],
                        seq![],
                        NotifLevel::Info,
                    );
                },
                None => {},
            }
        },
        AppEventView::CertError { session_id, cert } => {
            lemma_tokens_find(a, b, seq![], session_id);
            match a.session_with_id(session_id) {
                Some(i) => {
                    lemma_first_id(a, session_id);
                    let s = a.sessions[i];
                    let t = b.sessions[i];
                    assert(t == SessionView { token_input: t.token_input, ..s });
                    let line = "[CERT] ⚠ Certificate tidak dipercaya: CN="@ + cert.subject_cn;
                    let s1 = SessionView { pending_cert: Some(cert), vpn_state: VpnStateView::WaitingCert, ..s.with_log(line) };
                    let t1 = SessionView { pending_cert: Some(cert), vpn_state: VpnStateView::WaitingCert, ..t.with_log(line) };
                    lemma_tokens_update(a, b, i, s1, t1);
                    lemma_tokens_alike(update_session(a, i, s1), update_session(b, i, t1), seq![], seq![], NotifLevel::Info);
                },
                None => {},
            }
        },
        _ => {},
    }
}

proof fn lemma_tokens_state_changed(a: AppView, b: AppView, i: int, new: VpnStateView)
    requires
        differ_in_tokens(a, b),
        0 <= i < a.sessions.len(),
    ensures
        differ_in_tokens(crate::runtime::state_changed(a, i, new).0, crate::runtime::state_changed(b, i, new).0),
{
    let s = a.sessions[i];
    let t = b.sessions[i];
    assert(t == SessionView { token_input: t.token_input, ..s });
    let a1 = update_session(a, i, SessionView { vpn_state: new, ..s });
    let b1 = update_session(b, i, SessionView { vpn_state: new, ..t });
    lemma_tokens_update(a, b, i, SessionView { vpn_state: new, ..s }, SessionView { vpn_state: new, ..t });
    let m1 = "✔ VPN '"@ + s.profile_name + "' terhubung!"@;
    let m2 = "VPN '"@ + s.profile_name + "' terputus"@;
    let m3 = match new {
        VpnStateView::Error(e) => "Error '"@ + s.profile_name + "': "@ + e,
        _ => seq![],
    };
    let l3 = match new {
        VpnStateView::Error(e) => "[APP] Error: "@ + e,
        _ => seq![],
    };
    lemma_tokens_alike(a1, b1, seq![], m1, NotifLevel::Success);
    lemma_tokens_alike(a1, b1, seq![], m2, NotifLevel::Warning);
    lemma_tokens_alike(a1, b1, seq![], m3, NotifLevel::Error);
    let c1 = a1.notified(m1, NotifLevel::Success);
    let d1 = b1.notified(m1, NotifLevel::Success);
    assert(d1.sessions[i] == SessionView { token_input: d1.sessions[i].token_input, ..c1.sessions[i] });
    lemma_tokens_update(c1, d1, i, c1.sessions[i].with_log("[APP] ✔ Koneksi VPN berhasil"@), d1.sessions[i].with_log("[APP] ✔ Koneksi VPN berhasil"@));
    let c2 = a1.notified(m2, NotifLevel::Warning);
    let d2 = b1.notified(m2, NotifLevel::Warning);
    assert(d2.sessions[i] == SessionView { token_input: d2.sessions[i].token_input, ..c2.sessions[i] });
    lemma_tokens_update(c2, d2, i, c2.sessions[i].with_log("[APP] VPN terputus"@), d2.sessions[i].with_log("[APP] VPN terputus"@));
    let u2a = update_session(c2, i, c2.sessions[i].with_log("[APP] VPN terputus"@));
    let u2b = update_session(d2, i, d2.sessions[i].with_log("[APP] VPN terputus"@));
    lemma_tokens_alike(u2a, u2b, seq![], seq![], NotifLevel::Info);
    let c3 = a1.notified(m3, NotifLevel::Error);
    let d3 = b1.notified(m3, NotifLevel::Error);
    assert(d3.sessions[i] == SessionView { token_input: d3.sessions[i].token_input, ..c3.sessions[i] });
    lemma_tokens_update(c3, d3, i, c3.sessions[i].with_log(l3), d3.sessions[i].with_log(l3));
}

/// The token is never shown, whatever happens: for two interface states
/// alike but for what was typed into the token prompts (equally blank),
/// every key and every event leaves the logs and the notification the same,
/// and the states alike.
pub proof fn law_tokens_never_shown(a: AppView, b: AppView, key: Key, ev: AppEventView)
    requires
        differ_in_tokens(a, b),
        same_blankness(a, b),
    ensures
        visible(key_handled(a, key).0) == visible(key_handled(b, key).0),
        differ_in_tokens(key_handled(a, key).0, key_handled(b, key).0),
        visible(event_applied(a, ev).0) == visible(event_applied(b, ev).0),
        differ_in_tokens(event_applied(a, ev).0, event_applied(b, ev).0),
{
    lemma_tokens_keys(a, b, key);
    lemma_tokens_alike(key_handled(a, key).0, key_handled(b, key).0, seq![], seq![], NotifLevel::Info);
    lemma_tokens_events(a, b, ev);
    lemma_tokens_alike(event_applied(a, ev).0, event_applied(b, ev).0, seq![], seq![], NotifLevel::Info);
}

// ─── A connection attempt ─────────────────────────────────────────────────────

/// What a run of connection steps does, input after input: the state it
/// ends in, the events sent, the process ids recorded and the work asked
/// for, each in order.
pub open spec fn run_connect(req: ConnectRequestView, st: ConnectStateView, inputs: Seq<ConnectInputView>) -> (
    ConnectStateView,
    Seq<AppEventView>,
    Seq<u32>,
    Seq<ConnectActionView>,
)
    decreases inputs.len(),
{
    if inputs.len() == 0 {
        (st, seq![], seq![], seq![])
    } else {
        let (s1, e1, p1, a1) = connect_next(req, st, inputs[0]);
        let (s2, e2, p2, a2) = run_connect(req, s1, inputs.drop_first());
        (
            s2,
            e1 + e2,
            match p1 {
                Some(p) => seq![p] + p2,
                None => p2,
            },
            seq![a1] + a2,
        )
    }
}

/// The fields come first: with an empty host, user name or password the
/// attempt ends at once with that error, sending nothing, recording no
/// process and starting none; otherwise it never ends with that error, and
/// its first event announces the connection.
pub proof fn law_connect_checks_fields_first(req: ConnectRequestView)
    ensures
        ({
            let (s, e, p, a) = connect_next(req, ConnectStateView::Begin, ConnectInputView::Start);
            if req.host.len() == 0 || req.username.len() == 0 || req.password.len() == 0 {
                &&& s is Done
                &&& e.len() == 0
                &&& p is None
                &&& a == ConnectActionView::Finish(Err(empty_fields_text()))
            } else {
                &&& e == seq![
                    AppEventView::LogLine {
                        session_id: req.session_id,
                        line: connecting_text(req.host, req.port, req.username, req.trusted_cert is Some),
                    },
                ]
                &&& p is None
                &&& a == ConnectActionView::Locate
            }
        }),
{
}

/// A missing binary ends the attempt with the message that names both
/// usual places and the install hint, before any process starts.
pub proof fn law_connect_missing_binary(
    req: ConnectRequestView,
    found: Seq<bool>,
    is_file: Seq<bool>,
    from_path: Option<Seq<char>>,
)
    requires
        resolved_binary(is_file, from_path) is None,
    ensures
        ({
            let (s, e, p, a) = connect_next(
                req,
                ConnectStateView::Locating,
                ConnectInputView::Located { managers_found: found, common_is_file: is_file, from_path },
            );
            &&& s is Done
            &&& p is None
            &&& a == ConnectActionView::Finish(Err(missing_binary_text(install_hint_for(found))))
        }),
{
}

/// Without a way to get root the attempt ends with the sudoers hint, before
/// any process starts.
pub proof fn law_connect_no_privilege(req: ConnectRequestView, binary: Seq<char>, is_root: bool, sudo_nopass: bool, has_sudo: bool)
    requires
        method_from_probes(is_root, sudo_nopass, has_sudo) == PrivilegeMethod::Unavailable,
    ensures
        ({
            let (s, e, p, a) = connect_next(
                req,
                ConnectStateView::Probing { binary },
                ConnectInputView::Probed { is_root, sudo_nopass, has_sudo },
            );
            &&& s is Done
            &&& p is None
            &&& a == ConnectActionView::Finish(Err(unavailable_text(binary)))
        }),
{
}

/// `sudo -S` without a sudo password ends the attempt before any process
/// starts, so none is left running.
pub proof fn law_connect_sudo_password_before_spawn(
    req: ConnectRequestView,
    binary: Seq<char>,
    is_root: bool,
    sudo_nopass: bool,
    has_sudo: bool,
)
    requires
        method_from_probes(is_root, sudo_nopass, has_sudo) == PrivilegeMethod::SudoWithPassword,
        match req.sudo_password {
            Some(sp) => sp.len() == 0,
            None => true,
        },
    ensures
        ({
            let (s, e, p, a) = connect_next(
                req,
                ConnectStateView::Probing { binary },
                ConnectInputView::Probed { is_root, sudo_nopass, has_sudo },
            );
            &&& s is Done
            &&& p is None
            &&& a == ConnectActionView::Finish(Err(missing_sudo_password_text()))
        }),
{
}

/// A process id is recorded only when a process has just started, and a
/// process is started only once the writes to its input are planned.
pub proof fn law_connect_spawns_only_when_planned(req: ConnectRequestView, st: ConnectStateView, inp: ConnectInputView)
    ensures
        ({
            let (s, e, p, a) = connect_next(req, st, inp);
            &&& p matches Some(pid) ==> st is Spawning && inp == ConnectInputView::Spawned(Ok(Some(pid)))
            &&& a is Spawn ==> (st matches ConnectStateView::Probing { .. } && inp matches ConnectInputView::Probed {
                is_root,
                sudo_nopass,
                has_sudo,
            } && stdin_plan_of(method_from_probes(is_root, sudo_nopass, has_sudo), req.sudo_password, req.password) is Ok)
        }),
{
}

/// Stopping a session's process: with no process recorded nothing is sent,
/// signalled or forgotten. Otherwise the stop is announced and `SIGTERM`
/// comes first; `SIGKILL` follows only when the process is still there
/// afterwards, the outcome is logged, and the recorded id is always
/// forgotten.
pub proof fn law_stop_terminates_before_killing(session_id: u64, pid: Option<u32>, alive: bool)
    ensures
        pid is None ==> stop_next(session_id, StopState::Begin, StopInput::Start { pid }) == (
            StopState::Done,
            Seq::<AppEventView>::empty(),
            StopAction::Finish { kill: None, clear_pid: false },
        ),
        pid matches Some(p) ==> {
            let (s1, e1, a1) = stop_next(session_id, StopState::Begin, StopInput::Start { pid });
            let (s2, e2, a2) = stop_next(session_id, s1, StopInput::Checked { alive });
            &&& a1 == StopAction::Terminate { pid: p }
            &&& e1 == seq![
                AppEventView::LogLine {
                    session_id,
                    line: "[VPN] Menghentikan PID "@ + decimal(p as nat) + "..."@,
                },
            ]
            &&& s2 == StopState::Done
            &&& a2 == StopAction::Finish { kill: if alive { Some(p) } else { None }, clear_pid: true }
            &&& e2.len() == 1
        },
{
}

/// A successful attempt, in order: the connection is announced first; the
/// binary is looked up, its privilege probed, the process started with the
/// command line for the method and its id recorded; the sudo password line
/// (for `sudo -S`) is written before the VPN password line; then it is done.
pub proof fn law_connect_success_order(
    req: ConnectRequestView,
    found: Seq<bool>,
    is_file: Seq<bool>,
    from_path: Option<Seq<char>>,
    is_root: bool,
    sudo_nopass: bool,
    has_sudo: bool,
    pid: u32,
)
    requires
        req.host.len() > 0,
        req.username.len() > 0,
        req.password.len() > 0,
        resolved_binary(is_file, from_path) is Some,
        method_from_probes(is_root, sudo_nopass, has_sudo) != PrivilegeMethod::Unavailable,
        stdin_plan_of(method_from_probes(is_root, sudo_nopass, has_sudo), req.sudo_password, req.password) is Ok,
    ensures
        ({
            let m = method_from_probes(is_root, sudo_nopass, has_sudo);
            let b = resolved_binary(is_file, from_path)->0;
            let plan = stdin_plan_of(m, req.sudo_password, req.password)->Ok_0;
            let spawn = ConnectActionView::Spawn {
                program: command_program(b, m),
                args: command_args(b, req.host, req.port, req.username, req.trusted_cert, m),
            };
            let start = seq![
                ConnectInputView::Start,
                ConnectInputView::Located { managers_found: found, common_is_file: is_file, from_path },
                ConnectInputView::Probed { is_root, sudo_nopass, has_sudo },
                ConnectInputView::Spawned(Ok(Some(pid))),
            ];
            let announce = AppEventView::LogLine {
                session_id: req.session_id,
                line: connecting_text(req.host, req.port, req.username, req.trusted_cert is Some),
            };
            match plan.sudo_line {
                Some(l) => {
                    let (s, e, p, a) = run_connect(
                        req,
                        ConnectStateView::Begin,
                        start + seq![ConnectInputView::Written(Ok(())), ConnectInputView::Written(Ok(()))],
                    );
                    &&& e[0] == announce
                    &&& p == seq![pid]
                    &&& a == seq![
                        ConnectActionView::Locate,
                        ConnectActionView::Probe { binary: b },
                        spawn,
                        ConnectActionView::WriteSudo { line: l },
                        ConnectActionView::WritePassword { line: req.password + "\n"@ },
                        ConnectActionView::Finish(Ok(())),
                    ]
                    &&& s is Done
                },
                None => {
                    let (s, e, p, a) = run_connect(
                        req,
                        ConnectStateView::Begin,
                        start + seq![ConnectInputView::Written(Ok(()))],
                    );
                    &&& e[0] == announce
                    &&& p == seq![pid]
                    &&& a == seq![
                        ConnectActionView::Locate,
                        ConnectActionView::Probe { binary: b },
                        spawn,
                        ConnectActionView::WritePassword { line: req.password + "\n"@ },
                        ConnectActionView::Finish(Ok(())),
                    ]
                    &&& s is Done
                },
            }
        }),
{
    reveal_with_fuel(run_connect, 7);
    let m = method_from_probes(is_root, sudo_nopass, has_sudo);
    let plan = stdin_plan_of(m, req.sudo_password, req.password)->Ok_0;
    let start = seq![
        ConnectInputView::Start,
        ConnectInputView::Located { managers_found: found, common_is_file: is_file, from_path },
        ConnectInputView::Probed { is_root, sudo_nopass, has_sudo },
        ConnectInputView::Spawned(Ok(Some(pid))),
    ];
    let w = ConnectInputView::Written(Ok(()));
    let i2 = start + seq![w, w];
    let i1 = start + seq![w];
    assert(i2.drop_first() =~= seq![start[1], start[2], start[3], w, w]);
    assert(i2.drop_first().drop_first() =~= seq![start[2], start[3], w, w]);
    assert(i2.drop_first().drop_first().drop_first() =~= seq![start[3], w, w]);
    assert(i2.drop_first().drop_first().drop_first().drop_first() =~= seq![w, w]);
    assert(seq![w, w].drop_first() =~= seq![w]);
    assert(seq![w].drop_first() =~= Seq::<ConnectInputView>::empty());
    assert(i1.drop_first() =~= seq![start[1], start[2], start[3], w]);
    assert(i1.drop_first().drop_first() =~= seq![start[2], start[3], w]);
    assert(i1.drop_first().drop_first().drop_first() =~= seq![start[3], w]);
    assert(i1.drop_first().drop_first().drop_first().drop_first() =~= seq![w]);
}

// ─── Reading the process output ───────────────────────────────────────────────

/// Raw process output never reaches the dashboard: the only log line an
/// output line can send is the fixed "waiting for the token" line; the rest
/// goes to the debug log, which the interface does not show.
pub proof fn law_raw_output_only_in_debug_log(
    flags: ReaderFlags,
    session_id: u64,
    line: Seq<char>,
    lower: Seq<char>,
)
    ensures
        forall|k: int|
            0 <= k < line_reaction(flags, session_id, line, lower).1.events.len() ==> (
            #[trigger] line_reaction(flags, session_id, line, lower).1.events[k] matches AppEventView::LogLine { line: l, .. } ==> l == "[VPN] 🔐 Menunggu token OTP..."@),
{
}

/// The token is asked for at most once per process: once asked, the flag
/// stays set, and no later line asks again. Likewise the rate monitor is
/// started at most once.
pub proof fn law_token_asked_once(flags: ReaderFlags, session_id: u64, line: Seq<char>, lower: Seq<char>)
    ensures
        ({
            let (f, r) = line_reaction(flags, session_id, line, lower);
            &&& flags.token_requested ==> f.token_requested
            &&& flags.speed_monitor_started ==> f.speed_monitor_started
            &&& flags.token_requested ==> forall|k: int|
                0 <= k < r.events.len() ==> !(#[trigger] r.events[k] is NeedToken)
            &&& (exists|k: int| 0 <= k < r.events.len() && #[trigger] r.events[k] is NeedToken)
                ==> f.token_requested
            &&& r.start_speed_monitor ==> !flags.speed_monitor_started && f.speed_monitor_started
        }),
{
}

/// How many token requests a run of events holds.
pub open spec fn token_requests(es: Seq<AppEventView>) -> nat
    decreases es.len(),
{
    if es.len() == 0 {
        0
    } else {
        token_requests(es.drop_last()) + if es.last() is NeedToken {
            1nat
        } else {
            0nat
        }
    }
}

proof fn lemma_token_requests_concat(a: Seq<AppEventView>, b: Seq<AppEventView>)
    ensures
        token_requests(a + b) == token_requests(a) + token_requests(b),
    decreases b.len(),
{
    if b.len() == 0 {
        assert(a + b =~= a);
    } else {
        lemma_token_requests_concat(a, b.drop_last());
        assert((a + b).drop_last() =~= a + b.drop_last());
    }
}

/// The readers' flags and the events sent after a run of output lines of
/// one process, each line given with its lower-case form; the two readers
/// share the flags, so their lines count as one run.
pub open spec fn reacted_all(
    flags: ReaderFlags,
    session_id: u64,
    lines: Seq<(Seq<char>, Seq<char>)>,
) -> (ReaderFlags, Seq<AppEventView>)
    decreases lines.len(),
{
    if lines.len() == 0 {
        (flags, seq![])
    } else {
        let (f1, e1) = reacted_all(flags, session_id, lines.drop_last());
        let (f2, r) = line_reaction(f1, session_id, lines.last().0, lines.last().1);
        (f2, e1 + r.events)
    }
}

proof fn lemma_line_token_requests(flags: ReaderFlags, session_id: u64, line: Seq<char>, lower: Seq<char>)
    ensures
        ({
            let (f, r) = line_reaction(flags, session_id, line, lower);
            &&& flags.token_requested ==> f.token_requested
            &&& token_requests(r.events) == if !flags.token_requested && f.token_requested {
                1nat
            } else {
                0nat
            }
            &&& !flags.token_requested && f.token_requested ==> has_sub(lower, "connected to gateway"@)
        }),
{
    let (f, r) = line_reaction(flags, session_id, line, lower);
    let es = r.events;
    reveal_with_fuel(token_requests, 5);
    if es.len() == 4 {
        assert(es.drop_last().drop_last().drop_last().drop_last() =~= Seq::<AppEventView>::empty());
    } else if es.len() == 2 {
        assert(es.drop_last().drop_last() =~= Seq::<AppEventView>::empty());
    } else if es.len() == 1 {
        assert(es.drop_last() =~= Seq::<AppEventView>::empty());
    }
}

proof fn lemma_reacted_all(flags: ReaderFlags, session_id: u64, lines: Seq<(Seq<char>, Seq<char>)>)
    ensures
        ({
            let (f, es) = reacted_all(flags, session_id, lines);
            &&& flags.token_requested ==> f.token_requested && token_requests(es) == 0
            &&& !flags.token_requested ==> token_requests(es) <= 1 && (token_requests(es) == 1
                <==> f.token_requested)
            &&& !flags.token_requested && f.token_requested ==> exists|j: int|
                0 <= j < lines.len() && has_sub(#[trigger] lines[j].1, "connected to gateway"@)
        }),
    decreases lines.len(),
{
    if lines.len() > 0 {
        let init = lines.drop_last();
        lemma_reacted_all(flags, session_id, init);
        let (f1, e1) = reacted_all(flags, session_id, init);
        let (f2, r) = line_reaction(f1, session_id, lines.last().0, lines.last().1);
        lemma_line_token_requests(f1, session_id, lines.last().0, lines.last().1);
        lemma_token_requests_concat(e1, r.events);
        if !flags.token_requested && f2.token_requested {
            if f1.token_requested {
                let j = choose|j: int| 0 <= j < init.len() && has_sub(#[trigger] init[j].1, "connected to gateway"@);
                assert(lines[j] == init[j]);
            } else {
                assert(has_sub(lines[lines.len() - 1].1, "connected to gateway"@));
            }
        }
    }
}

/// Over a whole run of output lines of one process, starting before any
/// token was asked for, the token is asked for at most once; it has been
/// asked for exactly when the flag is set at the end, and only if some
/// line's lower-case form contains "connected to gateway".
pub proof fn law_token_asked_once_per_run(flags: ReaderFlags, session_id: u64, lines: Seq<(Seq<char>, Seq<char>)>)
    requires
        !flags.token_requested,
    ensures
        ({
            let (f, es) = reacted_all(flags, session_id, lines);
            &&& token_requests(es) <= 1
            &&& token_requests(es) == 1 <==> f.token_requested
            &&& f.token_requested ==> exists|j: int|
                0 <= j < lines.len() && has_sub(#[trigger] lines[j].1, "connected to gateway"@)
        }),
{
    lemma_reacted_all(flags, session_id, lines);
}

/// The certificate buffer after a run of output lines.
pub open spec fn fed_all(b: CertBufferView, lines: Seq<Seq<char>>) -> CertBufferView
    decreases lines.len(),
{
    if lines.len() == 0 {
        b
    } else {
        fed_all(b, lines.drop_last()).fed(lines.last())
    }
}

proof fn lemma_fed_keeps_emitted(b: CertBufferView, lines: Seq<Seq<char>>)
    requires
        b.emitted,
    ensures
        fed_all(b, lines).emitted,
    decreases lines.len(),
{
    if lines.len() > 0 {
        lemma_fed_keeps_emitted(b, lines.drop_last());
    }
}

/// An untrusted certificate is handed out at most once: after it has been,
/// no further output makes the buffer hand one out again.
pub proof fn law_cert_handed_out_once(b: CertBufferView, lines: Seq<Seq<char>>)
    requires
        b.emit().1 is Some,
    ensures
        fed_all(b.emit().0, lines).emit().1 is None,
{
    lemma_fed_keeps_emitted(b.emit().0, lines);
}

// ─── Stopping and closing many sessions ───────────────────────────────────────

/// The stop work for the sessions: two items for each live session.
proof fn lemma_stop_effects_len(ss: Seq<SessionView>)
    ensures
        stop_effects(ss).len() == 2 * live_count(ss),
    decreases ss.len(),
{
    if ss.len() > 0 {
        lemma_stop_effects_len(ss.drop_last());
    }
}

/// Disconnecting everything leaves no session live: each live one is being
/// stopped, the state of the others is kept, and exactly two pieces of work
/// (clear the waiting flag, stop the process) are asked for per live
/// session: none when nothing was live.
pub proof fn law_disconnect_all(a: AppView)
    ensures
        disconnect_all(a).0.sessions.len() == a.sessions.len(),
        forall|k: int|
            0 <= k < a.sessions.len() ==> !is_live(
                (#[trigger] disconnect_all(a).0.sessions[k]).vpn_state,
            ),
        forall|k: int|
            0 <= k < a.sessions.len() ==> (#[trigger] disconnect_all(a).0.sessions[k]).vpn_state == (
            if is_live(a.sessions[k].vpn_state) {
                VpnStateView::Disconnecting
            } else {
                a.sessions[k].vpn_state
            }),
        disconnect_all(a).1.len() == 2 * live_count(a.sessions),
{
    lemma_stop_effects_len(a.sessions);
    let b = disconnect_all(a).0;
    let st = all_stopping(a.sessions);
    assert forall|k: int| 0 <= k < a.sessions.len() implies #[trigger] b.sessions[k].vpn_state
        == st[k].vpn_state by {
        assert(b.sessions.len() == st.len());
    }
}

/// Closing all idle tabs keeps exactly the sessions that are not idle, in
/// their order.
pub proof fn law_close_idle_keeps_busy(a: AppView)
    ensures
        close_idle(a).sessions == a.sessions.filter(busy()),
        forall|k: int|
            0 <= k < close_idle(a).sessions.len() ==> !(
            #[trigger] close_idle(a).sessions[k]).vpn_state.is_idle(),
        forall|k: int|
            0 <= k < a.sessions.len() && !a.sessions[k].vpn_state.is_idle() ==> close_idle(
                a,
            ).sessions.contains(#[trigger] a.sessions[k]),
{
    broadcast use vstd::seq_lib::group_filter_ensures;

    let kept = a.sessions.filter(busy());
    assert forall|k: int| 0 <= k < kept.len() implies !(#[trigger] kept[k]).vpn_state.is_idle() by {
        assert(busy()(kept[k]));
    }
    assert forall|k: int| 0 <= k < a.sessions.len() && !a.sessions[k].vpn_state.is_idle() implies kept.contains(
        #[trigger] a.sessions[k],
    ) by {
        a.sessions.lemma_filter_contains(busy(), k);
    }
}

/// Filtering sessions keeps ids and profile names distinct, and keeps only
/// sessions that were there.
proof fn lemma_filter_keeps_distinct(ss: Seq<SessionView>, p: spec_fn(SessionView) -> bool)
    requires
        forall|i: int, j: int|
            0 <= i < j < ss.len() ==> #[trigger] ss[i].id != #[trigger] ss[j].id
                && ss[i].profile_name != ss[j].profile_name,
    ensures
        forall|i: int, j: int|
            0 <= i < j < ss.filter(p).len() ==> #[trigger] ss.filter(p)[i].id != #[trigger] ss.filter(
                p,
            )[j].id && ss.filter(p)[i].profile_name != ss.filter(p)[j].profile_name,
        forall|i: int| 0 <= i < ss.filter(p).len() ==> ss.contains(#[trigger] ss.filter(p)[i]),
    decreases ss.len(),
{
    reveal(Seq::filter);
    if ss.len() > 0 {
        let init = ss.drop_last();
        let x = ss.last();
        assert forall|i: int, j: int| 0 <= i < j < init.len() implies #[trigger] init[i].id
            != #[trigger] init[j].id && init[i].profile_name != init[j].profile_name by {
            assert(init[i] == ss[i] && init[j] == ss[j]);
        }
        lemma_filter_keeps_distinct(init, p);
        assert(ss =~= init.push(x));
        init.lemma_filter_push(x, p);
        let fi = init.filter(p);
        let f = ss.filter(p);
        assert forall|i: int| 0 <= i < fi.len() implies ss.contains(#[trigger] fi[i]) && fi[i].id
            != x.id && fi[i].profile_name != x.profile_name by {
            assert(init.contains(fi[i]));
            let k = choose|k: int| 0 <= k < init.len() && init[k] == fi[i];
            assert(ss[k] == fi[i]);
            assert(ss[ss.len() - 1] == x);
        }
        if p(x) {
            assert(f == fi.push(x));
            assert forall|i: int| 0 <= i < f.len() implies ss.contains(#[trigger] f[i]) by {
                if i < fi.len() {
                    assert(f[i] == fi[i]);
                } else {
                    assert(ss[ss.len() - 1] == f[i]);
                }
            }
            assert forall|i: int, j: int| 0 <= i < j < f.len() implies #[trigger] f[i].id
                != #[trigger] f[j].id && f[i].profile_name != f[j].profile_name by {
                assert(f[i] == fi[i]);
                if j < fi.len() {
                    assert(f[j] == fi[j]);
                } else {
                    assert(f[j] == x);
                }
            }
        } else {
            assert(f == fi);
        }
    }
}

/// Closing the idle tabs keeps every session id distinct and below the next
/// id to hand out, keeps one session per profile, and keeps the active
/// index in range.
pub proof fn law_close_idle_keeps_sessions_wf(a: AppView)
    requires
        a.sessions_wf(),
    ensures
        close_idle(a).sessions_wf(),
{
    lemma_filter_keeps_distinct(a.sessions, busy());
    let kept = a.sessions.filter(busy());
    let b = close_idle(a);
    assert(b.sessions == kept);
    assert forall|i: int| 0 <= i < kept.len() implies #[trigger] kept[i].id < a.next_session_id by {
        assert(a.sessions.contains(kept[i]));
        let k = choose|k: int| 0 <= k < a.sessions.len() && a.sessions[k] == kept[i];
        assert(a.sessions[k].id < a.next_session_id);
    }
    assert forall|i: int, j: int| 0 <= i < j < b.sessions.len() implies #[trigger] b.sessions[i].profile_name
        != #[trigger] b.sessions[j].profile_name by {
        assert(kept[i].id != kept[j].id);
    }
}

// ─── Every key keeps the session invariant ────────────────────────────────────

/// `b` keeps the sessions of `a` as they are identified: as many, with the
/// same ids and profiles in the same places, the same next id, and an
/// active index in range.
pub open spec fn same_session_shape(a: AppView, b: AppView) -> bool {
    &&& b.sessions.len() == a.sessions.len()
    &&& b.next_session_id == a.next_session_id
    &&& b.active_in_range()
    &&& forall|i: int|
        0 <= i < a.sessions.len() ==> (#[trigger] b.sessions[i]).id == a.sessions[i].id
            && b.sessions[i].profile_name == a.sessions[i].profile_name
}

proof fn lemma_shape_trans(a: AppView, b: AppView, c: AppView)
    requires
        same_session_shape(a, b),
        same_session_shape(b, c),
    ensures
        same_session_shape(a, c),
{
    assert forall|i: int| 0 <= i < a.sessions.len() implies (#[trigger] c.sessions[i]).id
        == a.sessions[i].id && c.sessions[i].profile_name == a.sessions[i].profile_name by {
        assert(b.sessions[i].id == a.sessions[i].id);
    }
}

proof fn lemma_shape_keeps_wf(a: AppView, b: AppView)
    requires
        a.sessions_wf(),
        same_session_shape(a, b),
    ensures
        b.sessions_wf(),
{
    assert forall|i: int, j: int| 0 <= i < j < b.sessions.len() implies #[trigger] b.sessions[i].id
        != #[trigger] b.sessions[j].id by {
        assert(a.sessions[i].id != a.sessions[j].id);
    }
    assert forall|i: int, j: int| 0 <= i < j < b.sessions.len() implies #[trigger] b.sessions[i].profile_name
        != #[trigger] b.sessions[j].profile_name by {
        assert(a.sessions[i].profile_name != a.sessions[j].profile_name);
        assert(b.sessions[i].id == a.sessions[i].id);
    }
    assert forall|i: int| 0 <= i < b.sessions.len() implies #[trigger] b.sessions[i].id
        < b.next_session_id by {
        assert(a.sessions[i].id < a.next_session_id);
    }
}

/// The steps that keep the sessions' shape: logging, notifying, moving
/// between sessions, focus, help, scrolling, going back to the list.
proof fn lemma_shape_steps(a: AppView, line: Seq<char>, msg: Seq<char>, level: NotifLevel, i: int)
    requires
        a.active_in_range(),
        a.sessions.len() <= usize::MAX,
    ensures
        same_session_shape(a, a),
        same_session_shape(a, a.with_log(line)),
        same_session_shape(a, a.notified(msg, level)),
        0 <= i < a.sessions.len() ==> same_session_shape(a, a.activated(i)),
        same_session_shape(a, a.next_activated()),
        same_session_shape(a, a.prev_activated()),
        same_session_shape(a, a.scrolled_up()),
        same_session_shape(a, a.scrolled_down()),
        same_session_shape(a, a.focus_forward()),
        same_session_shape(a, a.focus_backward()),
        same_session_shape(a, a.help_shown()),
        same_session_shape(a, a.help_hidden()),
        same_session_shape(a, a.back_to_list()),
{
    let n = a.sessions.len() as int;
    if n > 0 {
        match a.active_session_index {
            Some(k) => {
                assert(0 <= (k + 1) % n < n) by (nonlinear_arith)
                    requires
                        n > 0,
                        k >= 0,
                ;
            },
            None => {},
        }
    }
}

/// Replacing a session by one with the same id and profile keeps the shape.
proof fn lemma_shape_update(a: AppView, i: int, s: SessionView)
    requires
        a.active_in_range(),
        a.sessions.len() <= usize::MAX,
        0 <= i < a.sessions.len(),
        s.id == a.sessions[i].id,
        s.profile_name == a.sessions[i].profile_name,
    ensures
        same_session_shape(a, update_session(a, i, s)),
{
}

proof fn lemma_shape_scrolls(a: AppView, n: nat)
    requires
        a.active_in_range(),
        a.sessions.len() <= usize::MAX,
    ensures
        same_session_shape(a, scrolled_up_times(a, n)),
        same_session_shape(a, scrolled_down_times(a, n)),
    decreases n,
{
    lemma_shape_steps(a, seq![], seq![], NotifLevel::Info, 0);
    if n > 0 {
        lemma_shape_scrolls(a, (n - 1) as nat);
        let u = scrolled_up_times(a, (n - 1) as nat);
        let d = scrolled_down_times(a, (n - 1) as nat);
        lemma_shape_steps(u, seq![], seq![], NotifLevel::Info, 0);
        lemma_shape_steps(d, seq![], seq![], NotifLevel::Info, 0);
        lemma_shape_trans(a, u, u.scrolled_up());
        lemma_shape_trans(a, d, d.scrolled_down());
    }
}

proof fn lemma_shape_disconnect(a: AppView)
    requires
        a.active_in_range(),
        a.sessions.len() <= usize::MAX,
    ensures
        same_session_shape(a, disconnect(a).0),
{
}

proof fn lemma_shape_disconnect_all(a: AppView)
    requires
        a.active_in_range(),
        a.sessions.len() <= usize::MAX,
    ensures
        same_session_shape(a, disconnect_all(a).0),
{
    let st = all_stopping(a.sessions);
    let a1 = AppView { sessions: st, ..a };
    assert(same_session_shape(a, a1));
    let n = live_count(a.sessions);
    if n > 0 {
        let b = AppView { focus: Focus::Connect, ..a1 }.notified(
            "Memutuskan "@ + decimal(n) + " session..."@,
            NotifLevel::Warning,
        );
        assert(same_session_shape(a, b));
        lemma_shape_steps(b, "[APP] Memutuskan "@ + decimal(n) + " session aktif..."@, seq![], NotifLevel::Info, 0);
        lemma_shape_trans(a, b, disconnect_all(a).0);
    }
}

proof fn lemma_shape_connect_active(a: AppView)
    requires
        a.active_in_range(),
        a.sessions.len() <= usize::MAX,
    ensures
        same_session_shape(a, connect_active(a).0),
{
    match a.active_index() {
        None => {},
        Some(i) => {
            let s = a.sessions[i];
            if s.vpn_state.is_idle() && !(s.host.len() == 0 || s.username.len() == 0 || s.password.len() == 0) {
                let a2 = with_active_state(a, i, VpnStateView::Connecting);
                assert(same_session_shape(a, a2));
                let a3 = a2.with_log(connecting_log(s.host, s.port));
                lemma_shape_steps(a2, connecting_log(s.host, s.port), seq![], NotifLevel::Info, 0);
                lemma_shape_trans(a, a2, a3);
                let a4 = if s.trusted_cert is Some {
                    a3.with_log("[APP] Menggunakan trusted cert yang tersimpan"@)
                } else {
                    a3
                };
                lemma_shape_steps(a3, "[APP] Menggunakan trusted cert yang tersimpan"@, seq![], NotifLevel::Info, 0);
                lemma_shape_trans(a, a3, a4);
                lemma_shape_steps(a4, seq![], "Menghubungkan ke VPN..."@, NotifLevel::Info, 0);
                lemma_shape_trans(a, a4, a4.notified("Menghubungkan ke VPN..."@, NotifLevel::Info));
            }
        },
    }
}

proof fn lemma_shape_token_popup(a: AppView, key: Key)
    requires
        a.active_in_range(),
        a.sessions.len() <= usize::MAX,
    ensures
        same_session_shape(a, token_popup(a, key).0),
{
    lemma_shape_steps(a, seq![], seq![], NotifLevel::Info, 0);
    match key.code {
        KeyCode::Enter => match a.active_index() {
            None => {},
            Some(i) => {
                let line = "[TOKEN] Mengirim token OTP..."@;
                lemma_shape_steps(a, line, "Token tidak boleh kosong!"@, NotifLevel::Error, 0);
                let a1 = a.with_log(line);
                let s1 = SessionView {
                    token_input: seq![],
                    vpn_state: VpnStateView::Connecting,
                    ..a1.sessions[i]
                };
                lemma_shape_update(a1, i, s1);
                lemma_shape_trans(a, a1, update_session(a1, i, s1));
            },
        },
        KeyCode::Esc => {
            let a0 = crate::actions::token_edited(a, KeyCode::Delete);
            let line = "[TOKEN] ❌ Token dibatalkan"@;
            lemma_shape_steps(a0, line, seq![], NotifLevel::Info, 0);
            let a1 = a0.with_log(line);
            lemma_shape_trans(a, a0, a1);
            lemma_shape_disconnect(a1);
            lemma_shape_trans(a, a1, disconnect(a1).0);
        },
        _ => {},
    }
}

proof fn lemma_shape_cert_dialog(a: AppView, key: Key)
    requires
        a.active_in_range(),
        a.sessions.len() <= usize::MAX,
    ensures
        same_session_shape(a, cert_dialog(a, key).0),
        same_session_shape(a, accept_cert(a).0),
        same_session_shape(a, deny_cert(a).0),
{
    match a.active_index() {
        None => {},
        Some(i) => {
            let s = a.sessions[i];
            match s.pending_cert {
                None => {},
                Some(cert) => {
                    let s1 = SessionView { pending_cert: None, ..s }.with_log(
                        "[CERT] ✔ Certificate diterima: "@ + cert.subject_cn,
                    );
                    let s2 = SessionView {
                        trusted_cert: Some(cert.hash),
                        vpn_state: VpnStateView::Connecting,
                        ..s1
                    };
                    let a1 = update_session(a, i, s2);
                    lemma_shape_update(a, i, s2);
                    let a2 = a1.cert_trusted(s.profile_name, cert.hash);
                    assert(same_session_shape(a1, a2));
                    lemma_shape_trans(a, a1, a2);
                    let a3 = AppView { focus: Focus::Disconnect, ..a2 };
                    lemma_shape_steps(a3, "[APP] Menghubungkan ulang dengan cert trusted..."@, seq![], NotifLevel::Info, 0);
                    lemma_shape_trans(a, a3, a3.with_log("[APP] Menghubungkan ulang dengan cert trusted..."@));
                },
            }
        },
    }
    let cn = match a.active() {
        Some(s) => match s.pending_cert {
            Some(c) => c.subject_cn,
            None => seq![],
        },
        None => seq![],
    };
    let d1 = a.with_log("[CERT] ✖ Certificate ditolak: "@ + cn);
    lemma_shape_steps(a, "[CERT] ✖ Certificate ditolak: "@ + cn, seq![], NotifLevel::Info, 0);
    match d1.active_index() {
        Some(i) => {
            let t = SessionView {
                pending_cert: None,
                vpn_state: VpnStateView::Disconnected,
                ..d1.sessions[i]
            };
            lemma_shape_update(d1, i, t);
            lemma_shape_trans(a, d1, update_session(d1, i, t));
        },
        None => {},
    }
}

proof fn lemma_connect_keeps_wf(a: AppView)
    requires
        a.sessions_wf(),
        a.sessions.len() <= usize::MAX,
        a.active_session_index is None ==> a.next_session_id < u64::MAX && a.sessions.len()
            < usize::MAX,
    ensures
        connect(a).0.sessions_wf(),
{
    if a.active_session_index is None {
        law_open_keeps_sessions_wf(a);
        let (a2, id) = a.session_ensured();
        lemma_shape_steps(a, seq![], "Pilih profile terlebih dahulu"@, NotifLevel::Warning, 0);
        lemma_shape_keeps_wf(a, a.notified("Pilih profile terlebih dahulu"@, NotifLevel::Warning));
        match id {
            None => {},
            Some(id) => {
                lemma_first_id(a2, id);
                assert(a2.sessions.len() <= usize::MAX);
                let a3 = match a2.session_with_id(id) {
                    Some(idx) => a2.activated(idx),
                    None => a2,
                };
                match a2.session_with_id(id) {
                    Some(idx) => lemma_shape_steps(a2, seq![], seq![], NotifLevel::Info, idx),
                    None => lemma_shape_steps(a2, seq![], seq![], NotifLevel::Info, 0),
                }
                lemma_shape_keeps_wf(a2, a3);
                lemma_shape_connect_active(a3);
                lemma_shape_keeps_wf(a3, connect_active(a3).0);
            },
        }
    } else {
        lemma_shape_connect_active(a);
        lemma_shape_keeps_wf(a, connect_active(a).0);
    }
}

proof fn lemma_open_selected_keeps_wf(a: AppView)
    requires
        a.sessions_wf(),
        a.sessions.len() < usize::MAX,
        a.next_session_id < u64::MAX,
    ensures
        open_selected(a).0.sessions_wf(),
{
    lemma_shape_steps(a, seq![], seq![], NotifLevel::Info, 0);
    match a.current_profile() {
        None => {},
        Some(p) => match a.session_for_profile(p.name) {
            Some(i) => {
                assert(is_first_profile(a.sessions, p.name, i));
                let msg = "Membuka session '"@ + p.name + "'"@;
                let line = "[APP] Membuka session existing: "@ + p.name;
                lemma_shape_steps(a, seq![], seq![], NotifLevel::Info, i);
                let b = a.activated(i);
                lemma_shape_steps(b, seq![], msg, NotifLevel::Info, 0);
                let c1 = b.notified(msg, NotifLevel::Info);
                lemma_shape_steps(c1, line, seq![], NotifLevel::Info, 0);
                lemma_shape_trans(a, b, c1);
                lemma_shape_trans(a, c1, c1.with_log(line));
                lemma_shape_keeps_wf(a, c1.with_log(line));
            },
            None => {
                let b = AppView { ui_mode: UiMode::Connect, ..a };
                law_open_keeps_sessions_wf(b);
                let c1 = b.session_ensured().0;
                assert(c1.active_session_index is Some);
                let line = "[APP] Menggunakan profile: "@ + p.name;
                lemma_shape_steps(c1, line, seq![], NotifLevel::Info, 0);
                lemma_shape_keeps_wf(c1, c1.with_log(line));
                lemma_connect_keeps_wf(c1.with_log(line));
            },
        },
    }
}

proof fn lemma_list_mode_keeps_wf(a: AppView, key: Key)
    requires
        a.sessions_wf(),
        a.sessions.len() < usize::MAX,
        a.next_session_id < u64::MAX,
    ensures
        list_mode(a, key).0.sessions_wf(),
{
    lemma_shape_steps(a, seq![], seq![], NotifLevel::Info, 0);
    let c = key.code;
    if c == KeyCode::Up && a.selected_profile_index > 0 {
    } else if c == KeyCode::Down && a.selected_profile_index + 1 < a.profiles.len() {
    } else if c == KeyCode::Enter || c == KeyCode::F(5) {
        lemma_open_selected_keeps_wf(a);
    } else if c == KeyCode::F(2) || c == KeyCode::Char('n') || c == KeyCode::Char('N') {
        let b = crate::profile_form::new_form(a);
        lemma_shape_steps(b, "[APP] Mode: New Profile (F2/N)"@, seq![], NotifLevel::Info, 0);
        lemma_shape_keeps_wf(b, b.with_log("[APP] Mode: New Profile (F2/N)"@));
    } else if c == KeyCode::F(3) || c == KeyCode::Char('e') || c == KeyCode::Char('E') {
        match a.current_profile() {
            Some(p) => {
                let b = crate::profile_form::edit_form(a, p);
                let line = "[APP] Mode: Edit Profile '"@ + p.name + "' (F3/E)"@;
                lemma_shape_steps(b, line, seq![], NotifLevel::Info, 0);
                lemma_shape_keeps_wf(b, b.with_log(line));
            },
            None => {},
        }
    } else if c == KeyCode::F(4) || c == KeyCode::Char('d') || c == KeyCode::Char('D') {
        match a.current_profile() {
            Some(p) => {
                let msg = "Tekan F4 atau D lagi untuk hapus '"@ + p.name + "'"@;
                let b = AppView { delete_confirmation: Some(p.name), ..a };
                lemma_shape_steps(b, seq![], msg, NotifLevel::Warning, 0);
                lemma_shape_keeps_wf(b, b.notified(msg, NotifLevel::Warning));
            },
            None => {},
        }
    }
}

proof fn lemma_form_mode_keeps_shape(a: AppView, key: Key)
    requires
        a.active_in_range(),
        a.sessions.len() <= usize::MAX,
    ensures
        same_session_shape(a, form_mode(a, key).0),
{
    lemma_shape_steps(a, seq![], seq![], NotifLevel::Info, 0);
    if key.code == KeyCode::Enter {
        lemma_shape_steps(a, seq![], "Nama profile tidak boleh kosong!"@, NotifLevel::Error, 0);
        lemma_shape_steps(a, seq![], "Host tidak boleh kosong!"@, NotifLevel::Error, 0);
    } else if key.code == KeyCode::Esc {
        let b = AppView {
            ui_mode: UiMode::ProfileList,
            focus: Focus::ProfileList,
            delete_confirmation: None,
            ..a
        };
        lemma_shape_steps(b, crate::state::back_to_list_line(), seq![], NotifLevel::Info, 0);
    }
}

proof fn lemma_connect_mode_keeps_wf(a: AppView, key: Key)
    requires
        a.sessions_wf(),
        a.sessions.len() < usize::MAX,
        a.next_session_id < u64::MAX,
    ensures
        connect_mode(a, key).0.sessions_wf(),
{
    lemma_shape_steps(a, seq![], seq![], NotifLevel::Info, 0);
    lemma_shape_scrolls(a, 10);
    let r = connect_mode(a, key).0;
    let c = key.code;
    let m = key.modifiers;
    if c == KeyCode::F(5) && !(m.only_control() && (c == KeyCode::Char('p') || c == KeyCode::Char(
        's',
    ) || c == KeyCode::Char('k') || c == KeyCode::Char('w'))) {
        match a.active_index() {
            Some(i) => {
                let t = SessionView {
                    log_scroll: (a.sessions[i].logs.len() - 1) as usize,
                    ..a.sessions[i]
                };
                lemma_shape_update(a, i, t);
            },
            None => {},
        }
    }
    if a.focus == Focus::Host || a.focus == Focus::Username || a.focus == Focus::Password || a.focus
        == Focus::SudoPassword {
        match a.active_index() {
            Some(i) => {
                let s = a.sessions[i];
                let (h, p) = crate::actions::host_port(
                    text_edited(s.host + ":"@ + decimal(s.port as nat), key.code),
                );
                lemma_shape_update(a, i, SessionView { host: h, port: p, ..s });
                lemma_shape_update(a, i, SessionView { username: text_edited(s.username, key.code), ..s });
                lemma_shape_update(a, i, SessionView { password: text_edited(s.password, key.code), ..s });
                lemma_shape_update(
                    a,
                    i,
                    SessionView { sudo_password: text_edited(s.sudo_password, key.code), ..s },
                );
            },
            None => {},
        }
    }
    lemma_connect_keeps_wf(a);
    lemma_shape_disconnect(a);
    if same_session_shape(a, r) {
        lemma_shape_keeps_wf(a, r);
    }
}

proof fn lemma_action_confirm_keeps_wf(a: AppView, key: Key)
    requires
        a.sessions_wf(),
        a.sessions.len() <= usize::MAX,
    ensures
        action_confirm(a, key).0.sessions_wf(),
{
    lemma_shape_steps(a, seq![], seq![], NotifLevel::Info, 0);
    let cancel = AppView { pending_action: None, focus: Focus::Connect, ..a };
    lemma_shape_steps(cancel, seq![], "Aksi dibatalkan"@, NotifLevel::Info, 0);
    lemma_shape_keeps_wf(a, cancel);
    lemma_shape_keeps_wf(cancel, crate::actions::cancel_pending(a));
    lemma_shape_keeps_wf(a, a.focus_forward());
    match a.pending_action {
        None => {},
        Some(act) => {
            let a1 = AppView { pending_action: None, ..a };
            lemma_shape_steps(a1, seq![], seq![], NotifLevel::Info, 0);
            lemma_shape_keeps_wf(a, a1);
            lemma_shape_disconnect(a1);
            lemma_shape_keeps_wf(a1, disconnect(a1).0);
            lemma_shape_disconnect_all(a1);
            lemma_shape_keeps_wf(a1, disconnect_all(a1).0);
            law_close_idle_keeps_sessions_wf(a1);
            law_close_keeps_sessions_wf(a1);
            let closed = a1.active_closed();
            match a1.active() {
                Some(s) => {
                    let msg = "Session '"@ + s.profile_name + "' ditutup"@;
                    let warn = "Disconnect session aktif dulu sebelum close tab"@;
                    lemma_shape_steps(closed, seq![], msg, NotifLevel::Info, 0);
                    lemma_shape_keeps_wf(closed, closed.notified(msg, NotifLevel::Info));
                    lemma_shape_steps(a1, seq![], warn, NotifLevel::Warning, 0);
                    lemma_shape_keeps_wf(a1, a1.notified(warn, NotifLevel::Warning));
                },
                None => {},
            }
            assert(execute_pending(a).0.sessions_wf());
        },
    }
}

/// Every key keeps the session invariant: session ids stay distinct and
/// below the next id to hand out, there is one session per profile, and the
/// active index names a session when it is set.
pub proof fn law_keys_keep_sessions_wf(a: AppView, key: Key)
    requires
        a.sessions_wf(),
        a.sessions.len() < usize::MAX,
        a.next_session_id < u64::MAX,
    ensures
        key_handled(a, key).0.sessions_wf(),
{
    lemma_shape_steps(a, seq![], seq![], NotifLevel::Info, 0);
    lemma_shape_keeps_wf(a, a.help_hidden());
    lemma_shape_keeps_wf(a, a.help_shown());
    lemma_shape_keeps_wf(a, a.back_to_list());
    lemma_action_confirm_keeps_wf(a, key);
    lemma_shape_token_popup(a, key);
    lemma_shape_keeps_wf(a, token_popup(a, key).0);
    lemma_shape_cert_dialog(a, key);
    lemma_shape_keeps_wf(a, cert_dialog(a, key).0);
    lemma_list_mode_keeps_wf(a, key);
    lemma_form_mode_keeps_shape(a, key);
    lemma_shape_keeps_wf(a, form_mode(a, key).0);
    lemma_connect_mode_keeps_wf(a, key);
}

/// The interface starts with the session invariant, and the notification
/// timer and the outcomes of configuration writes keep it.
pub proof fn law_start_and_outcomes_keep_sessions_wf(
    debug_enabled: bool,
    cfg: ConfigView,
    a: AppView,
    name: Seq<char>,
    outcome: ConfigOutcomeView,
)
    requires
        a.sessions_wf(),
        a.sessions.len() <= usize::MAX,
    ensures
        started(debug_enabled, cfg).sessions_wf(),
        a.ticked().sessions_wf(),
        profile_deleted(a, name, outcome).sessions_wf(),
        profile_saved(a, outcome).sessions_wf(),
{
    lemma_shape_steps(a, seq![], seq![], NotifLevel::Info, 0);
    lemma_shape_keeps_wf(a, a.ticked());
    match outcome {
        ConfigOutcomeView::LoadFailed(e) => {
            let m1 = "Hapus profile dibatalkan: "@ + e;
            let b = a.notified(m1, NotifLevel::Error);
            lemma_shape_steps(a, seq![], m1, NotifLevel::Error, 0);
            lemma_shape_steps(b, "[APP] "@ + m1, seq![], NotifLevel::Info, 0);
            lemma_shape_trans(a, b, b.with_log("[APP] "@ + m1));
            lemma_shape_keeps_wf(a, profile_deleted(a, name, outcome));
            let m2 = "Simpan profile dibatalkan: "@ + e;
            let c = a.notified(m2, NotifLevel::Error);
            lemma_shape_steps(a, seq![], m2, NotifLevel::Error, 0);
            lemma_shape_steps(c, "[APP] "@ + m2, seq![], NotifLevel::Info, 0);
            lemma_shape_trans(a, c, c.with_log("[APP] "@ + m2));
            lemma_shape_keeps_wf(a, profile_saved(a, outcome));
        },
        ConfigOutcomeView::SaveFailed(e) => {
            lemma_shape_steps(a, seq![], "Gagal hapus: "@ + e, NotifLevel::Error, 0);
            lemma_shape_keeps_wf(a, profile_deleted(a, name, outcome));
            lemma_shape_steps(a, seq![], "Gagal simpan: "@ + e, NotifLevel::Error, 0);
            lemma_shape_keeps_wf(a, profile_saved(a, outcome));
        },
        ConfigOutcomeView::Saved(ps) => {
            let last = if ps.len() > 0 {
                ps.len() - 1
            } else {
                0
            };
            let d1 = AppView {
                profiles: ps,
                selected_profile_index: if a.selected_profile_index < last {
                    a.selected_profile_index
                } else {
                    last as usize
                },
                ..a
            };
            let dm = "Profile '"@ + name + "' dihapus"@;
            lemma_shape_steps(d1, seq![], dm, NotifLevel::Success, 0);
            let d2 = d1.notified(dm, NotifLevel::Success);
            lemma_shape_steps(d2, "[APP] Profile '"@ + name + "' dihapus (F4/D)"@, seq![], NotifLevel::Info, 0);
            lemma_shape_trans(d1, d2, d2.with_log("[APP] Profile '"@ + name + "' dihapus (F4/D)"@));
            lemma_shape_keeps_wf(a, d1);
            lemma_shape_keeps_wf(d1, profile_deleted(a, name, outcome));
            let s1 = AppView {
                profiles: ps,
                selected_profile_index: match find_named(ps, a.profile_name) {
                    Some(i) => i as usize,
                    None => 0,
                },
                ui_mode: UiMode::ProfileList,
                focus: Focus::ProfileList,
                delete_confirmation: None,
                ..a
            };
            let sm = "Profile '"@ + a.profile_name + "' tersimpan!"@;
            lemma_shape_steps(s1, seq![], sm, NotifLevel::Success, 0);
            let s2 = s1.notified(sm, NotifLevel::Success);
            lemma_shape_steps(s2, "[APP] Profile '"@ + a.profile_name + "' tersimpan"@, seq![], NotifLevel::Info, 0);
            lemma_shape_trans(s1, s2, s2.with_log("[APP] Profile '"@ + a.profile_name + "' tersimpan"@));
            lemma_shape_keeps_wf(a, s1);
            lemma_shape_keeps_wf(s1, profile_saved(a, outcome));
        },
    }
}

// ─── Saving a profile ─────────────────────────────────────────────────────────

/// The profiles after the form is saved: the edited profile (`replace`)
/// removed, the new one added at the end.
pub open spec fn stored(ps: Seq<ProfileView>, p: ProfileView, replace: Option<Seq<char>>) -> Seq<
    ProfileView,
> {
    match replace {
        Some(n) => ConfigView::without(ps, n),
        None => ps,
    }.push(p)
}

/// Saving a profile over the one it was edited from, or under a name no
/// profile has, and then looking its name up finds exactly the saved
/// profile.
pub proof fn law_save_then_get(ps: Seq<ProfileView>, p: ProfileView, replace: Option<Seq<char>>)
    requires
        replace == Some(p.name) || find_named(ps, p.name) is None,
    ensures
        find_named(stored(ps, p, replace), p.name) == Some(stored(ps, p, replace).len() - 1),
{
    let base = match replace {
        Some(n) => ConfigView::without(ps, n),
        None => ps,
    };
    if replace == Some(p.name) {
        law_delete_removes(ConfigView { profiles: ps, selected_profile: None }, p.name);
    } else if replace is Some {
        let n = replace->0;
        assert forall|j: int| 0 <= j < ps.len() implies ps[j].name != p.name by {
            if ps[j].name == p.name {
                lemma_some_first(ps, p.name, j);
            }
        }
        law_delete_removes(ConfigView { profiles: ps, selected_profile: None }, n);
        assert forall|j: int| 0 <= j < base.len() implies base[j].name != p.name by {
            assert(ps.contains(base[j]));
        }
        lemma_none_named(base, p.name);
    }
    law_add_then_get(ConfigView { profiles: base, selected_profile: None }, p);
}

// ─── An accepted certificate ──────────────────────────────────────────────────

/// An accepted certificate is remembered: the session and the first profile
/// of its name trust its hash, the configuration written holds that
/// profile, and the session reconnects trusting that hash.
pub proof fn law_accepted_cert_remembered(a: AppView)
    requires
        a.active() matches Some(s) && s.pending_cert is Some,
    ensures
        ({
            let i = a.active_index()->0;
            let s = a.sessions[i];
            let hash = s.pending_cert->0.hash;
            let (b, e) = accept_cert(a);
            &&& b.sessions.len() == a.sessions.len()
            &&& b.sessions[i].trusted_cert == Some(hash)
            &&& b.sessions[i].pending_cert is None
            &&& b.sessions[i].vpn_state is Connecting
            &&& (find_named(a.profiles, s.profile_name) matches Some(j) ==> b.profiles[j].trusted_cert
                == Some(hash))
            &&& e.len() == 2
            &&& e[0] matches EffectView::SaveConfig { config, .. } && config.profiles == b.profiles
            &&& e[1] matches EffectView::Connect { request, reconnect } && reconnect
                && request.session_id == s.id && request.trusted_cert == Some(hash)
        }),
{
    let i = a.active_index()->0;
    let s = a.sessions[i];
    match find_named(a.profiles, s.profile_name) {
        Some(j) => {
            assert(crate::config::is_first_named(a.profiles, s.profile_name, j));
        },
        None => {},
    }
}

// ─── Certificate fields, tunnel names, token prompts, editing ─────────────────

/// In the subject block of a certificate report a `KEY=value` line sets the
/// organisation exactly when its (trimmed, upper-cased) key is `O`, and the
/// common name exactly when it is `CN`; any other key, such as `OU`, leaves
/// both alone. In the issuer block only `CN` sets the issuer's name. Outside
/// both blocks nothing changes, and no line touches the hash, the kept lines
/// or the progress flags.
pub proof fn law_cert_fields_by_exact_key(b: CertBufferView, key: Seq<char>, value: Seq<char>)
    ensures
        ({
            let r = b.with_field(key, value);
            &&& r.subject_org == (if b.in_subject && key == seq!['O'] {
                value
            } else {
                b.subject_org
            })
            &&& r.subject_cn == (if b.in_subject && key == seq!['C', 'N'] {
                value
            } else {
                b.subject_cn
            })
            &&& r.issuer_cn == (if !b.in_subject && b.in_issuer && key == seq!['C', 'N'] {
                value
            } else {
                b.issuer_cn
            })
            &&& r.hash == b.hash
            &&& r.raw_lines == b.raw_lines
            &&& r.collecting == b.collecting
            &&& r.emitted == b.emitted
            &&& r.in_subject == b.in_subject
            &&& r.in_issuer == b.in_issuer
        }),
{
    reveal_strlit("O");
    reveal_strlit("CN");
    assert("O"@ =~= seq!['O']);
    assert("CN"@ =~= seq!['C', 'N']);
}

/// A name that starts with `ppp`, `tun`, `tap`, `utun` or `vpn`.
pub open spec fn tunnel_named(n: Seq<char>) -> bool {
    ||| n.len() >= 3 && n[0] == 'p' && n[1] == 'p' && n[2] == 'p'
    ||| n.len() >= 3 && n[0] == 't' && n[1] == 'u' && n[2] == 'n'
    ||| n.len() >= 3 && n[0] == 't' && n[1] == 'a' && n[2] == 'p'
    ||| n.len() >= 4 && n[0] == 'u' && n[1] == 't' && n[2] == 'u' && n[3] == 'n'
    ||| n.len() >= 3 && n[0] == 'v' && n[1] == 'p' && n[2] == 'n'
}

proof fn lemma_prefix_chars(n: Seq<char>, p: Seq<char>)
    ensures
        crate::text::has_prefix(n, p) <==> (p.len() <= n.len() && forall|k: int|
            0 <= k < p.len() ==> n[k] == p[k]),
{
    if p.len() <= n.len() && forall|k: int| 0 <= k < p.len() ==> n[k] == p[k] {
        assert(n.subrange(0, p.len() as int) =~= p);
    }
    if crate::text::has_prefix(n, p) {
        assert forall|k: int| 0 <= k < p.len() implies n[k] == p[k] by {
            assert(n.subrange(0, p.len() as int)[k] == n[k]);
        }
    }
}

/// An interface counts as a tunnel exactly when its name starts with `ppp`,
/// `tun`, `tap`, `utun` or `vpn`: a name such as `enp3s0` or `eth0` never
/// does.
pub proof fn law_tunnel_names(name: Seq<char>)
    ensures
        crate::netstats::is_vpn_name(name) == tunnel_named(name),
{
    reveal_strlit("ppp");
    reveal_strlit("tun");
    reveal_strlit("tap");
    reveal_strlit("utun");
    reveal_strlit("vpn");
    lemma_prefix_chars(name, "ppp"@);
    lemma_prefix_chars(name, "tun"@);
    lemma_prefix_chars(name, "tap"@);
    lemma_prefix_chars(name, "utun"@);
    lemma_prefix_chars(name, "vpn"@);
    assert("ppp"@ =~= seq!['p', 'p', 'p']);
    assert("tun"@ =~= seq!['t', 'u', 'n']);
    assert("tap"@ =~= seq!['t', 'a', 'p']);
    assert("utun"@ =~= seq!['u', 't', 'u', 'n']);
    assert("vpn"@ =~= seq!['v', 'p', 'n']);
}

/// Traffic of the `k`-th current interface since the start.
pub open spec fn moved_since_start(
    cur: Seq<(Seq<char>, crate::netstats::NetStats)>,
    init: Seq<(Seq<char>, crate::netstats::NetStats)>,
    k: int,
) -> int {
    crate::netstats::sat_add(
        crate::netstats::sat_sub(
            cur[k].1.rx_bytes,
            crate::netstats::lookup_or_zero(init, cur[k].0).rx_bytes,
        ),
        crate::netstats::sat_sub(
            cur[k].1.tx_bytes,
            crate::netstats::lookup_or_zero(init, cur[k].0).tx_bytes,
        ),
    ) as int
}

proof fn lemma_busiest_is_tunnel(
    cur: Seq<(Seq<char>, crate::netstats::NetStats)>,
    init: Seq<(Seq<char>, crate::netstats::NetStats)>,
    k: int,
)
    requires
        k <= cur.len(),
    ensures
        crate::netstats::busiest_upto(cur, init, k) matches Some(j) ==> 0 <= j < k
            && tunnel_named(cur[j].0) && forall|m: int|
            0 <= m < k && tunnel_named(#[trigger] cur[m].0) ==> moved_since_start(cur, init, m)
                <= moved_since_start(cur, init, j),
        crate::netstats::busiest_upto(cur, init, k) is None ==> forall|m: int|
            0 <= m < k ==> !tunnel_named(#[trigger] cur[m].0),
    decreases k,
{
    if k > 0 {
        lemma_busiest_is_tunnel(cur, init, k - 1);
        law_tunnel_names(cur[k - 1].0);
    }
}

/// The interface taken for the tunnel is always one of the current
/// interfaces, and its name starts with `ppp`, `tun`, `tap`, `utun` or
/// `vpn`: however busy another interface is, it is never chosen. Among the
/// tunnel-named interfaces it has moved the most bytes since the start;
/// with no tunnel-named interface listed, none is chosen.
pub proof fn law_vpn_interface_is_a_tunnel(
    init: Seq<(Seq<char>, crate::netstats::NetStats)>,
    prev: Seq<(Seq<char>, crate::netstats::NetStats)>,
    cur: Seq<(Seq<char>, crate::netstats::NetStats)>,
)
    ensures
        crate::netstats::vpn_interface(init, prev, cur) matches Some(n) ==> tunnel_named(n) && exists|j: int|
            0 <= j < cur.len() && #[trigger] cur[j].0 == n && forall|m: int|
                0 <= m < cur.len() && tunnel_named(#[trigger] cur[m].0) ==> moved_since_start(
                    cur,
                    init,
                    m,
                ) <= moved_since_start(cur, init, j),
        (forall|m: int| 0 <= m < cur.len() ==> !tunnel_named(#[trigger] cur[m].0))
            ==> crate::netstats::vpn_interface(init, prev, cur) is None,
{
    lemma_busiest_is_tunnel(cur, init, cur.len() as int);
    match crate::netstats::busiest_upto(cur, init, cur.len() as int) {
        Some(j) => {
            assert(tunnel_named(cur[j].0));
        },
        None => {},
    }
}

/// A token request for a session that is not already waiting for one makes
/// that session the active tab on the connection screen, puts it in the
/// waiting-for-token state with an empty token and the focus on the token
/// input (so the prompt is shown for it), and leaves every other session as
/// it was.
pub proof fn law_token_request_shows_its_session(a: AppView, i: int)
    requires
        a.session_ids_wf(),
        0 <= i < a.sessions.len(),
        a.sessions.len() <= usize::MAX,
        !(a.sessions[i].vpn_state is WaitingToken),
    ensures
        ({
            let b = event_applied(a, AppEventView::NeedToken(a.sessions[i].id)).0;
            &&& b.active_session_index == Some(i as usize)
            &&& b.ui_mode == UiMode::Connect
            &&& b.focus == Focus::TokenInput
            &&& b.sessions.len() == a.sessions.len()
            &&& b.sessions[i].vpn_state is WaitingToken
            &&& b.sessions[i].token_input.len() == 0
            &&& b.active_state() is WaitingToken
            &&& forall|j: int| 0 <= j < a.sessions.len() && j != i ==> b.sessions[j] == a.sessions[j]
            &&& event_applied(a, AppEventView::NeedToken(a.sessions[i].id)).1 == seq![
                EffectView::SetWaitingFlag { session_id: a.sessions[i].id, waiting: true },
            ]
        }),
{
    let id = a.sessions[i].id;
    assert(is_first_id(a.sessions, id, i));
    let k = choose|k: int| is_first_id(a.sessions, id, k);
    assert(k == i) by {
        if k < i {
            assert(a.sessions[k].id != id);
        } else if k > i {
            assert(a.sessions[i].id != id);
        }
    }
    assert(a.session_with_id(id) == Some(i));
    let b = event_applied(a, AppEventView::NeedToken(id)).0;
    assert(b.active_index() == Some(i));
    assert(b.active() == Some(b.sessions[i]));
}

/// A token request changes nothing when its session is already waiting for
/// a token, or when no session has its id.
pub proof fn law_token_request_ignored(a: AppView, id: u64)
    requires
        a.session_ids_wf(),
        forall|j: int| 0 <= j < a.sessions.len() && (#[trigger] a.sessions[j]).id == id
            ==> a.sessions[j].vpn_state is WaitingToken,
    ensures
        event_applied(a, AppEventView::NeedToken(id)) == (a, Seq::<EffectView>::empty()),
{
    if exists|k: int| is_first_id(a.sessions, id, k) {
        let k = choose|k: int| is_first_id(a.sessions, id, k);
        assert(a.sessions[k].id == id);
    }
}

/// Opening a profile to edit it fills the form so that submitting it
/// unchanged stores the same profile again (in place of the one edited):
/// same name, host, port and user, the same save-password choice with the
/// password kept when it is saved, and the same sudo-password choice with
/// the sudo password kept when it is used.
pub proof fn law_edit_then_submit_keeps_profile(a: AppView, p: ProfileView)
    requires
        trim(p.name).len() > 0,
        trim(p.host).len() > 0,
    ensures
        ({
            let (b, effects) = crate::actions::form_submitted(crate::profile_form::edit_form(a, p));
            &&& effects.len() == 1
            &&& effects[0] matches EffectView::SaveProfile { profile: q, replace }
                && replace == Some(p.name) && q.name == p.name && q.host == p.host && q.port
                == p.port && q.username == p.username && q.save_password == p.save_password
                && (p.save_password ==> q.password == p.password) && q.use_sudo_password
                == p.use_sudo_password && (p.use_sudo_password ==> q.sudo_password
                == p.sudo_password)
        }),
{
    crate::text::lemma_parse_decimal(p.port as nat, u16::MAX as nat);
}

} // verus!
