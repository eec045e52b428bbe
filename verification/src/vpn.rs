//! Decisions around the `openfortivpn` process: how to gain root, which
//! command line to run, what to write to its input, how to read its output
//! (including the untrusted-certificate report) and what its exit means.
use vstd::prelude::*;

use crate::config::opt_view;
use crate::netstats::first_index_of;
use crate::state::{
    AppEvent, AppEventView, CertInfo, CertView, ConnectRequest, ConnectRequestView, VpnState,
    VpnStateView, events_view,
};
use crate::text::{
    concat2, concat3, contains_str, from_chars, has_sub, lowercase, owned, str_lowercase,
    str_uppercase, to_chars, trim, trim_chars, u64_to_decimal, decimal, uppercase, words,
    split_words, str_eq,
};

verus! {

// ─── Privilege ────────────────────────────────────────────────────────────────

/// How `openfortivpn` gets root.
#[derive(Debug, Clone, Copy, PartialEq, Eq, Structural)]
pub enum PrivilegeMethod {
    AlreadyRoot,
    SudoNoPassword,
    SudoWithPassword,
    Unavailable,
}

/// The label shown for each privilege method.
pub open spec fn method_label(m: PrivilegeMethod) -> Seq<char> {
    match m {
        PrivilegeMethod::AlreadyRoot => "root (langsung)"@,
        PrivilegeMethod::SudoNoPassword => "sudo NOPASSWD"@,
        PrivilegeMethod::SudoWithPassword => "sudo -S (dengan password)"@,
        PrivilegeMethod::Unavailable => "tidak tersedia"@,
    }
}

impl PrivilegeMethod {
    /// The label shown for this method.
    pub fn label(&self) -> (r: &'static str)
        ensures
            r@ == method_label(*self),
    {
        match self {
            PrivilegeMethod::AlreadyRoot => "root (langsung)",
            PrivilegeMethod::SudoNoPassword => "sudo NOPASSWD",
            PrivilegeMethod::SudoWithPassword => "sudo -S (dengan password)",
            PrivilegeMethod::Unavailable => "tidak tersedia",
        }
    }
}

/// The method the probes point to: root first, then password-less sudo for
/// the binary, then sudo with a password.
pub open spec fn method_from_probes(is_root: bool, sudo_nopass: bool, has_sudo: bool) -> PrivilegeMethod {
    if is_root {
        PrivilegeMethod::AlreadyRoot
    } else if sudo_nopass {
        PrivilegeMethod::SudoNoPassword
    } else if has_sudo {
        PrivilegeMethod::SudoWithPassword
    } else {
        PrivilegeMethod::Unavailable
    }
}

/// Chooses the privilege method from the probes: running as root,
/// `sudo -n <binary> --help` succeeding, and `sudo -V` succeeding. A probe
/// after the first that succeeds is not looked at.
pub fn privilege_method(is_root: bool, sudo_nopass: bool, has_sudo: bool) -> (r: PrivilegeMethod)
    ensures
        r == method_from_probes(is_root, sudo_nopass, has_sudo),
{
    if is_root {
        PrivilegeMethod::AlreadyRoot
    } else if sudo_nopass {
        PrivilegeMethod::SudoNoPassword
    } else if has_sudo {
        PrivilegeMethod::SudoWithPassword
    } else {
        PrivilegeMethod::Unavailable
    }
}

/// The debug line that reports the chosen method.
pub open spec fn probe_line(m: PrivilegeMethod, binary: Seq<char>) -> Seq<char> {
    match m {
        PrivilegeMethod::AlreadyRoot => "[PRIV] Berjalan sebagai root ✔"@,
        PrivilegeMethod::SudoNoPassword => "[PRIV] sudo NOPASSWD tersedia untuk "@ + binary + " ✔"@,
        PrivilegeMethod::SudoWithPassword => "[PRIV] sudo tersedia (butuh password)"@,
        PrivilegeMethod::Unavailable => "[PRIV] ✖ Tidak ada metode privilege."@,
    }
}

/// The debug line that reports the chosen method.
pub fn privilege_probe_line(m: PrivilegeMethod, binary_path: &str) -> (r: String)
    ensures
        r@ == probe_line(m, binary_path@),
{
    match m {
        PrivilegeMethod::AlreadyRoot => owned("[PRIV] Berjalan sebagai root ✔"),
        PrivilegeMethod::SudoNoPassword => concat3(
            "[PRIV] sudo NOPASSWD tersedia untuk ",
            binary_path,
            " ✔",
        ),
        PrivilegeMethod::SudoWithPassword => owned("[PRIV] sudo tersedia (butuh password)"),
        PrivilegeMethod::Unavailable => owned("[PRIV] ✖ Tidak ada metode privilege."),
    }
}

/// The debug line naming the method in use.
pub fn method_line(m: PrivilegeMethod) -> (r: String)
    ensures
        r@ == "[PRIV] Metode: "@ + method_label(m),
{
    concat2("[PRIV] Metode: ", m.label())
}

// ─── Messages ─────────────────────────────────────────────────────────────────

/// The hint for sudoers that lets the binary run without a password.
pub fn sudoers_hint(binary_path: &str) -> (r: String)
    ensures
        r@ == "Tambahkan via visudo: <username> ALL=(root) NOPASSWD: "@ + binary_path@,
{
    concat2("Tambahkan via visudo: <username> ALL=(root) NOPASSWD: ", binary_path)
}

/// Why a connection cannot start when no privilege method is available.
pub fn unavailable_message(binary_path: &str) -> (r: String)
    ensures
        r@ == "openfortivpn memerlukan root, tapi akses sudo tidak tersedia. "@
            + "Tambahkan via visudo: <username> ALL=(root) NOPASSWD: "@ + binary_path@,
{
    let hint = sudoers_hint(binary_path);
    concat2("openfortivpn memerlukan root, tapi akses sudo tidak tersedia. ", hint.as_str())
}

/// The places where distributions install the binary, in the order they
/// are tried.
pub open spec fn common_binary_paths() -> Seq<Seq<char>> {
    seq!["/usr/bin/openfortivpn"@, "/usr/sbin/openfortivpn"@]
}

/// The places where distributions install the binary: `/usr/bin` first,
/// then `/usr/sbin`.
pub fn common_binary_path_list() -> (r: Vec<&'static str>)
    ensures
        r@.len() == 2,
        forall|i: int| 0 <= i < 2 ==> #[trigger] r@[i]@ == common_binary_paths()[i],
{
    let r = vec!["/usr/bin/openfortivpn", "/usr/sbin/openfortivpn"];
    r
}

/// The binary to run: the first common place that holds a file, else what
/// the `PATH` search found.
pub open spec fn resolved_binary(is_file: Seq<bool>, from_path: Option<Seq<char>>) -> Option<
    Seq<char>,
> {
    if is_file[0] {
        Some(common_binary_paths()[0])
    } else if is_file[1] {
        Some(common_binary_paths()[1])
    } else {
        from_path
    }
}

/// Chooses the binary to run; `is_file[i]` tells whether place `i` of
/// [`common_binary_paths`] holds a file, `from_path` is what a search of
/// the `PATH` found.
pub fn resolve_openfortivpn_path(is_file: &[bool], from_path: Option<String>) -> (r: Option<
    String,
>)
    requires
        is_file@.len() == 2,
    ensures
        opt_view(r) == resolved_binary(is_file@, opt_view(from_path)),
{
    if is_file[0] {
        Some(owned("/usr/bin/openfortivpn"))
    } else if is_file[1] {
        Some(owned("/usr/sbin/openfortivpn"))
    } else {
        from_path
    }
}

/// The package managers looked for, in order.
pub open spec fn package_managers() -> Seq<Seq<char>> {
    seq!["apt"@, "dnf"@, "pacman"@, "zypper"@, "apk"@]
}

/// The install hint for package manager `i` of [`package_managers`].
pub open spec fn install_hint_of(i: int) -> Seq<char> {
    if i == 0 {
        "Install contoh: sudo apt update && sudo apt install openfortivpn"@
    } else if i == 1 {
        "Install contoh: sudo dnf install openfortivpn"@
    } else if i == 2 {
        "Install contoh: sudo pacman -S openfortivpn"@
    } else if i == 3 {
        "Install contoh: sudo zypper install openfortivpn"@
    } else {
        "Install contoh: sudo apk add openfortivpn"@
    }
}

/// The package managers looked for, in order: `apt`, `dnf`, `pacman`,
/// `zypper`, `apk`.
pub fn package_manager_names() -> (r: Vec<&'static str>)
    ensures
        r@.len() == 5,
        forall|i: int| 0 <= i < 5 ==> #[trigger] r@[i]@ == package_managers()[i],
{
    let r = vec!["apt", "dnf", "pacman", "zypper", "apk"];
    r
}

/// The install hint for the first package manager found.
pub open spec fn install_hint_for(found: Seq<bool>) -> Option<Seq<char>> {
    if found[0] {
        Some(install_hint_of(0))
    } else if found[1] {
        Some(install_hint_of(1))
    } else if found[2] {
        Some(install_hint_of(2))
    } else if found[3] {
        Some(install_hint_of(3))
    } else if found[4] {
        Some(install_hint_of(4))
    } else {
        None
    }
}

/// The install hint for the first package manager found; `found[i]` tells
/// whether manager `i` of [`package_managers`] is on the `PATH`.
pub fn detect_install_hint(found: &[bool]) -> (r: Option<&'static str>)
    requires
        found@.len() == 5,
    ensures
        match r {
            Some(h) => install_hint_for(found@) == Some(h@),
            None => install_hint_for(found@) is None,
        },
{
    if found[0] {
        Some("Install contoh: sudo apt update && sudo apt install openfortivpn")
    } else if found[1] {
        Some("Install contoh: sudo dnf install openfortivpn")
    } else if found[2] {
        Some("Install contoh: sudo pacman -S openfortivpn")
    } else if found[3] {
        Some("Install contoh: sudo zypper install openfortivpn")
    } else if found[4] {
        Some("Install contoh: sudo apk add openfortivpn")
    } else {
        None
    }
}

/// Why a connection cannot start when the binary is not installed.
pub open spec fn missing_binary_text(hint: Option<Seq<char>>) -> Seq<char> {
    let base =
        "Binary openfortivpn tidak ditemukan. Install openfortivpn terlebih dahulu (contoh path: /usr/bin/openfortivpn atau /usr/sbin/openfortivpn)."@;
    match hint {
        Some(h) => base + " "@ + h,
        None => base,
    }
}

/// Why a connection cannot start when the binary is not installed, with the
/// install hint when there is one.
pub fn missing_binary_message(hint: Option<&str>) -> (r: String)
    ensures
        r@ == missing_binary_text(match hint {
            Some(h) => Some(h@),
            None => None,
        }),
{
    let base = "Binary openfortivpn tidak ditemukan. Install openfortivpn terlebih dahulu (contoh path: /usr/bin/openfortivpn atau /usr/sbin/openfortivpn).";
    match hint {
        Some(h) => concat3(base, " ", h),
        None => owned(base),
    }
}

/// The error for a connection without host, user name or password.
pub open spec fn empty_fields_text() -> Seq<char> {
    "Host, username, dan password tidak boleh kosong"@
}

/// Checks the fields a connection needs: an error when the host, the user
/// name or the password is empty.
pub fn check_connect_fields(host: &str, username: &str, password: &str) -> (r: Result<(), String>)
    ensures
        r is Err <==> host@.len() == 0 || username@.len() == 0 || password@.len() == 0,
        r matches Err(e) ==> e@ == empty_fields_text(),
{
    if host.is_empty() || username.is_empty() || password.is_empty() {
        Err(owned("Host, username, dan password tidak boleh kosong"))
    } else {
        Ok(())
    }
}

/// The log line that opens a connection attempt; it names the user but
/// never the password.
pub open spec fn connecting_text(host: Seq<char>, port: u16, username: Seq<char>, trusted: bool) -> Seq<char> {
    "[VPN] Menghubungkan ke "@ + host + ":"@ + decimal(port as nat) + " sebagai "@ + username + if trusted {
        " (cert trusted)"@
    } else {
        ""@
    }
}

/// The log line that opens a connection attempt.
pub fn connecting_line(host: &str, port: u16, username: &str, trusted: bool) -> (r: String)
    ensures
        r@ == connecting_text(host@, port, username@, trusted),
{
    let mut r = concat3("[VPN] Menghubungkan ke ", host, ":");
    let p = u64_to_decimal(port as u64);
    r.append(p.as_str());
    r.append(" sebagai ");
    r.append(username);
    r.append(if trusted {
        " (cert trusted)"
    } else {
        ""
    });
    r
}

// ─── Command line ─────────────────────────────────────────────────────────────

/// A program and its arguments.
#[derive(Debug)]
pub struct CommandLine {
    pub program: String,
    pub args: Vec<String>,
}

/// The program that runs for a privilege method.
pub open spec fn command_program(binary: Seq<char>, m: PrivilegeMethod) -> Seq<char> {
    if m == PrivilegeMethod::AlreadyRoot {
        binary
    } else {
        "sudo"@
    }
}

/// The arguments: sudo's own (`-n` or `-S`, then the binary) unless running
/// as root, then `host:port -u user`, then `--trusted-cert hash` when a
/// certificate is trusted.
pub open spec fn command_args(
    binary: Seq<char>,
    host: Seq<char>,
    port: u16,
    username: Seq<char>,
    trusted_cert: Option<Seq<char>>,
    m: PrivilegeMethod,
) -> Seq<Seq<char>> {
    let sudo_args = match m {
        PrivilegeMethod::AlreadyRoot => seq![],
        PrivilegeMethod::SudoWithPassword => seq!["-S"@, binary],
        _ => seq!["-n"@, binary],
    };
    let vpn = seq![host + ":"@ + decimal(port as nat), "-u"@, username];
    let cert = match trusted_cert {
        Some(h) => seq!["--trusted-cert"@, h],
        None => seq![],
    };
    sudo_args + vpn + cert
}

/// Builds the command line that starts `openfortivpn`.
pub fn build_command(
    binary_path: &str,
    host: &str,
    port: u16,
    username: &str,
    trusted_cert: Option<&str>,
    method: PrivilegeMethod,
) -> (r: CommandLine)
    ensures
        r.program@ == command_program(binary_path@, method),
        r.args.deep_view() == command_args(
            binary_path@,
            host@,
            port,
            username@,
            match trusted_cert {
                Some(h) => Some(h@),
                None => None,
            },
            method,
        ),
{
    let mut args: Vec<String> = Vec::new();
    match method {
        PrivilegeMethod::AlreadyRoot => {},
        PrivilegeMethod::SudoWithPassword => {
            args.push(owned("-S"));
            args.push(owned(binary_path));
        },
        _ => {
            args.push(owned("-n"));
            args.push(owned(binary_path));
        },
    }
    let p = u64_to_decimal(port as u64);
    args.push(concat3(host, ":", p.as_str()));
    args.push(owned("-u"));
    args.push(owned(username));
    match trusted_cert {
        Some(h) => {
            args.push(owned("--trusted-cert"));
            args.push(owned(h));
        },
        None => {},
    }
    let program = if method == PrivilegeMethod::AlreadyRoot {
        owned(binary_path)
    } else {
        owned("sudo")
    };
    let r = CommandLine { program, args };
    assert(r.args.deep_view() =~= command_args(
        binary_path@,
        host@,
        port,
        username@,
        match trusted_cert {
            Some(h) => Some(h@),
            None => None,
        },
        method,
    ));
    r
}

// ─── Standard input ───────────────────────────────────────────────────────────

/// What to write to the process's standard input: the sudo password line
/// first (for `sudo -S`), then the VPN password line.
#[derive(Debug)]
pub struct StdinPlan {
    pub sudo_line: Option<String>,
    pub password_line: String,
}

/// The error when `sudo -S` has no password to read.
pub open spec fn missing_sudo_password_text() -> Seq<char> {
    "Sudo password diperlukan untuk metode sudo -S"@
}

/// Plans the writes to standard input. `sudo -S` needs a non-empty sudo
/// password; every line ends with a newline.
pub fn plan_stdin(method: PrivilegeMethod, sudo_password: Option<&str>, password: &str) -> (r: Result<
    StdinPlan,
    String,
>)
    ensures
        match r {
            Ok(plan) => {
                &&& plan.password_line@ == password@ + "\n"@
                &&& method != PrivilegeMethod::SudoWithPassword ==> plan.sudo_line is None
                &&& method == PrivilegeMethod::SudoWithPassword ==> match (sudo_password, plan.sudo_line) {
                    (Some(sp), Some(l)) => sp@.len() > 0 && l@ == sp@ + "\n"@,
                    _ => false,
                }
            },
            Err(e) => {
                &&& e@ == missing_sudo_password_text()
                &&& method == PrivilegeMethod::SudoWithPassword
                &&& match sudo_password {
                    Some(sp) => sp@.len() == 0,
                    None => true,
                }
            },
        },
{
    let sudo_line = if method == PrivilegeMethod::SudoWithPassword {
        match sudo_password {
            Some(sp) => {
                if sp.is_empty() {
                    return Err(owned("Sudo password diperlukan untuk metode sudo -S"));
                }
                Some(concat2(sp, "\n"))
            },
            None => {
                return Err(owned("Sudo password diperlukan untuk metode sudo -S"));
            },
        }
    } else {
        None
    };
    Ok(StdinPlan { sudo_line, password_line: concat2(password, "\n") })
}

/// The planned writes taken by their characters.
pub struct StdinPlanView {
    pub sudo_line: Option<Seq<char>>,
    pub password_line: Seq<char>,
}

impl View for StdinPlan {
    type V = StdinPlanView;

    open spec fn view(&self) -> StdinPlanView {
        StdinPlanView { sudo_line: opt_view(self.sudo_line), password_line: self.password_line@ }
    }
}

/// The writes to standard input for a privilege method, or why there are
/// none (see [`plan_stdin`]).
pub open spec fn stdin_plan_of(m: PrivilegeMethod, sudo: Option<Seq<char>>, password: Seq<char>) -> Result<
    StdinPlanView,
    Seq<char>,
> {
    if m == PrivilegeMethod::SudoWithPassword {
        match sudo {
            Some(sp) => if sp.len() > 0 {
                Ok(StdinPlanView { sudo_line: Some(sp + "\n"@), password_line: password + "\n"@ })
            } else {
                Err(missing_sudo_password_text())
            },
            None => Err(missing_sudo_password_text()),
        }
    } else {
        Ok(StdinPlanView { sudo_line: None, password_line: password + "\n"@ })
    }
}

// ─── A connection attempt, step by step ───────────────────────────────────────

/// Where a connection attempt stands.
#[derive(Debug)]
pub enum ConnectState {
    /// Nothing done yet.
    Begin,
    /// Waiting for the look-up of the binary and the package managers.
    Locating,
    /// Waiting for the privilege probes of the binary found.
    Probing { binary: String },
    /// Waiting for the process to start; the writes are planned.
    Spawning { plan: StdinPlan },
    /// The sudo password line is being written; the VPN password follows.
    FeedingSudo { password_line: String },
    /// The VPN password line is being written.
    FeedingPassword,
    /// The attempt is over.
    Done,
}

/// The value of a [`ConnectState`].
pub enum ConnectStateView {
    Begin,
    Locating,
    Probing { binary: Seq<char> },
    Spawning { plan: StdinPlanView },
    FeedingSudo { password_line: Seq<char> },
    FeedingPassword,
    Done,
}

impl View for ConnectState {
    type V = ConnectStateView;

    open spec fn view(&self) -> ConnectStateView {
        match self {
            ConnectState::Begin => ConnectStateView::Begin,
            ConnectState::Locating => ConnectStateView::Locating,
            ConnectState::Probing { binary } => ConnectStateView::Probing { binary: binary@ },
            ConnectState::Spawning { plan } => ConnectStateView::Spawning { plan: plan@ },
            ConnectState::FeedingSudo { password_line } => ConnectStateView::FeedingSudo {
                password_line: password_line@,
            },
            ConnectState::FeedingPassword => ConnectStateView::FeedingPassword,
            ConnectState::Done => ConnectStateView::Done,
        }
    }
}

/// What the outside work asked for by the last step found.
#[derive(Debug)]
pub enum ConnectInput {
    /// The attempt starts.
    Start,
    /// Which package managers of [`package_manager_names`] are on the `PATH`,
    /// which places of [`common_binary_path_list`] hold a file, and what a
    /// search of the `PATH` for the binary found.
    Located { managers_found: Vec<bool>, common_is_file: Vec<bool>, from_path: Option<String> },
    /// The privilege probes: running as root, password-less sudo for the
    /// binary, sudo at all.
    Probed { is_root: bool, sudo_nopass: bool, has_sudo: bool },
    /// The process started (with its id when it has one), or why not.
    Spawned(Result<Option<u32>, String>),
    /// The planned line was written, or why not.
    Written(Result<(), String>),
}

/// The value of a [`ConnectInput`].
pub enum ConnectInputView {
    Start,
    Located { managers_found: Seq<bool>, common_is_file: Seq<bool>, from_path: Option<Seq<char>> },
    Probed { is_root: bool, sudo_nopass: bool, has_sudo: bool },
    Spawned(Result<Option<u32>, Seq<char>>),
    Written(Result<(), Seq<char>>),
}

impl View for ConnectInput {
    type V = ConnectInputView;

    open spec fn view(&self) -> ConnectInputView {
        match self {
            ConnectInput::Start => ConnectInputView::Start,
            ConnectInput::Located { managers_found, common_is_file, from_path } =>
            ConnectInputView::Located {
                managers_found: managers_found@,
                common_is_file: common_is_file@,
                from_path: opt_view(*from_path),
            },
            ConnectInput::Probed { is_root, sudo_nopass, has_sudo } => ConnectInputView::Probed {
                is_root: *is_root,
                sudo_nopass: *sudo_nopass,
                has_sudo: *has_sudo,
            },
            ConnectInput::Spawned(r) => ConnectInputView::Spawned(
                match r {
                    Ok(p) => Ok(*p),
                    Err(e) => Err(e@),
                },
            ),
            ConnectInput::Written(r) => ConnectInputView::Written(
                match r {
                    Ok(()) => Ok(()),
                    Err(e) => Err(e@),
                },
            ),
        }
    }
}

/// The outside work a step asks for.
#[derive(Debug)]
pub enum ConnectAction {
    /// Look for the binary and for the package managers.
    Locate,
    /// Probe how `binary` can get root.
    Probe { binary: String },
    /// Start the process with this command line.
    Spawn { command: CommandLine },
    /// Write the sudo password line, then pause for sudo to read it.
    WriteSudo { line: String },
    /// Write the VPN password line.
    WritePassword { line: String },
    /// The attempt is over: on success the output readers start.
    Finish(Result<(), String>),
}

/// The value of a [`ConnectAction`].
pub enum ConnectActionView {
    Locate,
    Probe { binary: Seq<char> },
    Spawn { program: Seq<char>, args: Seq<Seq<char>> },
    WriteSudo { line: Seq<char> },
    WritePassword { line: Seq<char> },
    Finish(Result<(), Seq<char>>),
}

impl View for ConnectAction {
    type V = ConnectActionView;

    open spec fn view(&self) -> ConnectActionView {
        match self {
            ConnectAction::Locate => ConnectActionView::Locate,
            ConnectAction::Probe { binary } => ConnectActionView::Probe { binary: binary@ },
            ConnectAction::Spawn { command } => ConnectActionView::Spawn {
                program: command.program@,
                args: command.args.deep_view(),
            },
            ConnectAction::WriteSudo { line } => ConnectActionView::WriteSudo { line: line@ },
            ConnectAction::WritePassword { line } => ConnectActionView::WritePassword { line: line@ },
            ConnectAction::Finish(r) => ConnectActionView::Finish(
                match r {
                    Ok(()) => Ok(()),
                    Err(e) => Err(e@),
                },
            ),
        }
    }
}

/// One step of a connection attempt: the next state, the events to send
/// (in order), the process id to record when the process has just started,
/// and the outside work to do next.
#[derive(Debug)]
pub struct ConnectStep {
    pub state: ConnectState,
    pub events: Vec<AppEvent>,
    pub record_pid: Option<u32>,
    pub action: ConnectAction,
}

/// Whether an input answers the work that the state waits for.
pub open spec fn input_fits(st: ConnectStateView, inp: ConnectInputView) -> bool {
    match (st, inp) {
        (ConnectStateView::Begin, ConnectInputView::Start) => true,
        (
            ConnectStateView::Locating,
            ConnectInputView::Located { managers_found, common_is_file, .. },
        ) => managers_found.len() == 5 && common_is_file.len() == 2,
        (ConnectStateView::Probing { .. }, ConnectInputView::Probed { .. }) => true,
        (ConnectStateView::Spawning { .. }, ConnectInputView::Spawned(_)) => true,
        (ConnectStateView::FeedingSudo { .. }, ConnectInputView::Written(_)) => true,
        (ConnectStateView::FeedingPassword, ConnectInputView::Written(_)) => true,
        _ => false,
    }
}

/// The error when `openfortivpn` cannot get root.
pub open spec fn unavailable_text(binary: Seq<char>) -> Seq<char> {
    "openfortivpn memerlukan root, tapi akses sudo tidak tersedia. "@
        + "Tambahkan via visudo: <username> ALL=(root) NOPASSWD: "@ + binary
}

/// A connection attempt step by step: the fields are checked before
/// anything happens; the attempt is announced; the install hint and the
/// binary found are logged, and a missing binary ends it; the privilege
/// method is probed and logged, and none ends it; the writes to standard
/// input are planned before the process starts, so a missing sudo password
/// ends the attempt with no process; the process starts and its id is
/// recorded; the sudo password line is written before the VPN password
/// line; then the attempt is done. (An input that does not answer the
/// state's work is refused by the `requires` of [`connect`].)
pub open spec fn connect_next(req: ConnectRequestView, st: ConnectStateView, inp: ConnectInputView) -> (
    ConnectStateView,
    Seq<AppEventView>,
    Option<u32>,
    ConnectActionView,
) {
    let id = req.session_id;
    match st {
        ConnectStateView::Begin => if req.host.len() == 0 || req.username.len() == 0
            || req.password.len() == 0 {
            (
                ConnectStateView::Done,
                seq![],
                None,
                ConnectActionView::Finish(Err(empty_fields_text())),
            )
        } else {
            (
                ConnectStateView::Locating,
                seq![
                    AppEventView::LogLine {
                        session_id: id,
                        line: connecting_text(
                            req.host,
                            req.port,
                            req.username,
                            req.trusted_cert is Some,
                        ),
                    },
                ],
                None,
                ConnectActionView::Locate,
            )
        },
        ConnectStateView::Locating => match inp {
            ConnectInputView::Located { managers_found, common_is_file, from_path } => {
                let hint = install_hint_for(managers_found);
                let hint_events = match hint {
                    Some(h) => seq![AppEventView::DebugLog("[VPN] Hint install openfortivpn: "@ + h)],
                    None => seq![],
                };
                match resolved_binary(common_is_file, from_path) {
                    None => (
                        ConnectStateView::Done,
                        hint_events,
                        None,
                        ConnectActionView::Finish(Err(missing_binary_text(hint))),
                    ),
                    Some(b) => (
                        ConnectStateView::Probing { binary: b },
                        hint_events.push(
                            AppEventView::DebugLog("[VPN] Binary openfortivpn terdeteksi di "@ + b),
                        ),
                        None,
                        ConnectActionView::Probe { binary: b },
                    ),
                }
            },
            _ => (ConnectStateView::Done, seq![], None, ConnectActionView::Finish(Ok(()))),
        },
        ConnectStateView::Probing { binary } => match inp {
            ConnectInputView::Probed { is_root, sudo_nopass, has_sudo } => {
                let m = method_from_probes(is_root, sudo_nopass, has_sudo);
                let e1 = seq![AppEventView::DebugLog(probe_line(m, binary))];
                if m == PrivilegeMethod::Unavailable {
                    (
                        ConnectStateView::Done,
                        e1,
                        None,
                        ConnectActionView::Finish(Err(unavailable_text(binary))),
                    )
                } else {
                    let e2 = e1.push(AppEventView::DebugLog("[PRIV] Metode: "@ + method_label(m)));
                    match stdin_plan_of(m, req.sudo_password, req.password) {
                        Err(e) => (ConnectStateView::Done, e2, None, ConnectActionView::Finish(Err(e))),
                        Ok(plan) => (
                            ConnectStateView::Spawning { plan },
                            e2,
                            None,
                            ConnectActionView::Spawn {
                                program: command_program(binary, m),
                                args: command_args(
                                    binary,
                                    req.host,
                                    req.port,
                                    req.username,
                                    req.trusted_cert,
                                    m,
                                ),
                            },
                        ),
                    }
                }
            },
            _ => (ConnectStateView::Done, seq![], None, ConnectActionView::Finish(Ok(()))),
        },
        ConnectStateView::Spawning { plan } => match inp {
            ConnectInputView::Spawned(Err(e)) => (
                ConnectStateView::Done,
                seq![],
                None,
                ConnectActionView::Finish(Err(e)),
            ),
            ConnectInputView::Spawned(Ok(pid)) => {
                let ev = match pid {
                    Some(p) => seq![AppEventView::DebugLog("[VPN] PID: "@ + decimal(p as nat))],
                    None => seq![],
                };
                match plan.sudo_line {
                    Some(l) => (
                        ConnectStateView::FeedingSudo { password_line: plan.password_line },
                        ev,
                        pid,
                        ConnectActionView::WriteSudo { line: l },
                    ),
                    None => (
                        ConnectStateView::FeedingPassword,
                        ev,
                        pid,
                        ConnectActionView::WritePassword { line: plan.password_line },
                    ),
                }
            },
            _ => (ConnectStateView::Done, seq![], None, ConnectActionView::Finish(Ok(()))),
        },
        ConnectStateView::FeedingSudo { password_line } => match inp {
            ConnectInputView::Written(Ok(())) => (
                ConnectStateView::FeedingPassword,
                seq![],
                None,
                ConnectActionView::WritePassword { line: password_line },
            ),
            ConnectInputView::Written(Err(e)) => (
                ConnectStateView::Done,
                seq![],
                None,
                ConnectActionView::Finish(Err(e)),
            ),
            _ => (ConnectStateView::Done, seq![], None, ConnectActionView::Finish(Ok(()))),
        },
        ConnectStateView::FeedingPassword => match inp {
            ConnectInputView::Written(Ok(())) => (
                ConnectStateView::Done,
                seq![],
                None,
                ConnectActionView::Finish(Ok(())),
            ),
            ConnectInputView::Written(Err(e)) => (
                ConnectStateView::Done,
                seq![],
                None,
                ConnectActionView::Finish(Err(e)),
            ),
            _ => (ConnectStateView::Done, seq![], None, ConnectActionView::Finish(Ok(()))),
        },
        ConnectStateView::Done => (ConnectStateView::Done, seq![], None, ConnectActionView::Finish(Ok(()))),
    }
}

/// One step of a connection attempt for `request` (see [`connect_next`]).
pub fn connect(request: &ConnectRequest, state: ConnectState, input: ConnectInput) -> (r: ConnectStep)
    requires
        input_fits(state@, input@),
    ensures
        (r.state@, events_view(r.events@), r.record_pid, r.action@) == connect_next(
            request@,
            state@,
            input@,
        ),
{
    let id = request.session_id;
    let mut events: Vec<AppEvent> = Vec::new();
    match state {
        ConnectState::Begin => {
            match check_connect_fields(
                request.host.as_str(),
                request.username.as_str(),
                request.password.as_str(),
            ) {
                Err(e) => {
                    assert(events_view(events@) =~= Seq::<AppEventView>::empty());
                    return ConnectStep {
                        state: ConnectState::Done,
                        events,
                        record_pid: None,
                        action: ConnectAction::Finish(Err(e)),
                    };
                },
                Ok(()) => {},
            }
            let line = connecting_line(
                request.host.as_str(),
                request.port,
                request.username.as_str(),
                request.trusted_cert.is_some(),
            );
            events.push(AppEvent::LogLine { session_id: id, line });
            assert(events_view(events@) =~= connect_next(request@, state@, input@).1);
            ConnectStep { state: ConnectState::Locating, events, record_pid: None, action: ConnectAction::Locate }
        },
        ConnectState::Locating => match input {
            ConnectInput::Located { managers_found, common_is_file, from_path } => {
                let hint = detect_install_hint(&managers_found);
                match hint {
                    Some(h) => events.push(
                        AppEvent::DebugLog(concat2("[VPN] Hint install openfortivpn: ", h)),
                    ),
                    None => {},
                }
                let ghost hint_events = events_view(events@);
                assert(hint_events =~= match install_hint_for(managers_found@) {
                    Some(h) => seq![AppEventView::DebugLog("[VPN] Hint install openfortivpn: "@ + h)],
                    None => Seq::<AppEventView>::empty(),
                });
                match resolve_openfortivpn_path(&common_is_file, from_path) {
                    None => ConnectStep {
                        state: ConnectState::Done,
                        events,
                        record_pid: None,
                        action: ConnectAction::Finish(Err(missing_binary_message(hint))),
                    },
                    Some(b) => {
                        events.push(
                            AppEvent::DebugLog(
                                concat2("[VPN] Binary openfortivpn terdeteksi di ", b.as_str()),
                            ),
                        );
                        assert(events_view(events@) =~= hint_events.push(
                            AppEventView::DebugLog("[VPN] Binary openfortivpn terdeteksi di "@ + b@),
                        ));
                        let binary = b.clone();
                        ConnectStep {
                            state: ConnectState::Probing { binary: b },
                            events,
                            record_pid: None,
                            action: ConnectAction::Probe { binary },
                        }
                    },
                }
            },
            _ => ConnectStep {
                state: ConnectState::Done,
                events,
                record_pid: None,
                action: ConnectAction::Finish(Ok(())),
            },
        },
        ConnectState::Probing { binary } => match input {
            ConnectInput::Probed { is_root, sudo_nopass, has_sudo } => {
                let m = privilege_method(is_root, sudo_nopass, has_sudo);
                events.push(AppEvent::DebugLog(privilege_probe_line(m, binary.as_str())));
                if m == PrivilegeMethod::Unavailable {
                    assert(events_view(events@) =~= connect_next(request@, state@, input@).1);
                    return ConnectStep {
                        state: ConnectState::Done,
                        events,
                        record_pid: None,
                        action: ConnectAction::Finish(Err(unavailable_message(binary.as_str()))),
                    };
                }
                events.push(AppEvent::DebugLog(method_line(m)));
                assert(events_view(events@) =~= connect_next(request@, state@, input@).1);
                let sudo: Option<&str> = match &request.sudo_password {
                    Some(sp) => Some(sp.as_str()),
                    None => None,
                };
                match plan_stdin(m, sudo, request.password.as_str()) {
                    Err(e) => ConnectStep {
                        state: ConnectState::Done,
                        events,
                        record_pid: None,
                        action: ConnectAction::Finish(Err(e)),
                    },
                    Ok(plan) => {
                        let trusted: Option<&str> = match &request.trusted_cert {
                            Some(h) => Some(h.as_str()),
                            None => None,
                        };
                        let command = build_command(
                            binary.as_str(),
                            request.host.as_str(),
                            request.port,
                            request.username.as_str(),
                            trusted,
                            m,
                        );
                        ConnectStep {
                            state: ConnectState::Spawning { plan },
                            events,
                            record_pid: None,
                            action: ConnectAction::Spawn { command },
                        }
                    },
                }
            },
            _ => ConnectStep {
                state: ConnectState::Done,
                events,
                record_pid: None,
                action: ConnectAction::Finish(Ok(())),
            },
        },
        ConnectState::Spawning { plan } => match input {
            ConnectInput::Spawned(Err(e)) => ConnectStep {
                state: ConnectState::Done,
                events,
                record_pid: None,
                action: ConnectAction::Finish(Err(e)),
            },
            ConnectInput::Spawned(Ok(pid)) => {
                match pid {
                    Some(p) => {
                        let d = u64_to_decimal(p as u64);
                        events.push(AppEvent::DebugLog(concat2("[VPN] PID: ", d.as_str())));
                    },
                    None => {},
                }
                assert(events_view(events@) =~= connect_next(request@, state@, input@).1);
                match plan.sudo_line {
                    Some(l) => ConnectStep {
                        state: ConnectState::FeedingSudo { password_line: plan.password_line },
                        events,
                        record_pid: pid,
                        action: ConnectAction::WriteSudo { line: l },
                    },
                    None => ConnectStep {
                        state: ConnectState::FeedingPassword,
                        events,
                        record_pid: pid,
                        action: ConnectAction::WritePassword { line: plan.password_line },
                    },
                }
            },
            _ => ConnectStep {
                state: ConnectState::Done,
                events,
                record_pid: None,
                action: ConnectAction::Finish(Ok(())),
            },
        },
        ConnectState::FeedingSudo { password_line } => match input {
            ConnectInput::Written(Ok(())) => ConnectStep {
                state: ConnectState::FeedingPassword,
                events,
                record_pid: None,
                action: ConnectAction::WritePassword { line: password_line },
            },
            ConnectInput::Written(Err(e)) => ConnectStep {
                state: ConnectState::Done,
                events,
                record_pid: None,
                action: ConnectAction::Finish(Err(e)),
            },
            _ => ConnectStep {
                state: ConnectState::Done,
                events,
                record_pid: None,
                action: ConnectAction::Finish(Ok(())),
            },
        },
        ConnectState::FeedingPassword => match input {
            ConnectInput::Written(Ok(())) => ConnectStep {
                state: ConnectState::Done,
                events,
                record_pid: None,
                action: ConnectAction::Finish(Ok(())),
            },
            ConnectInput::Written(Err(e)) => ConnectStep {
                state: ConnectState::Done,
                events,
                record_pid: None,
                action: ConnectAction::Finish(Err(e)),
            },
            _ => ConnectStep {
                state: ConnectState::Done,
                events,
                record_pid: None,
                action: ConnectAction::Finish(Ok(())),
            },
        },
        ConnectState::Done => ConnectStep {
            state: ConnectState::Done,
            events,
            record_pid: None,
            action: ConnectAction::Finish(Ok(())),
        },
    }
}

// ─── Stopping the process, step by step ───────────────────────────────────────

/// Where stopping a session's process stands.
#[derive(Debug, Clone, Copy, PartialEq, Eq, Structural)]
pub enum StopState {
    /// Nothing done yet.
    Begin,
    /// `SIGTERM` went to `pid`; waiting to learn whether it is still there.
    Terminating { pid: u32 },
    /// Stopping is over.
    Done,
}

/// What the outside work found.
#[derive(Debug, Clone, Copy, PartialEq, Eq, Structural)]
pub enum StopInput {
    /// Stopping starts; the process id recorded for the session, if any.
    Start { pid: Option<u32> },
    /// Whether the process still exists a second after `SIGTERM`.
    Checked { alive: bool },
}

/// The outside work a step asks for.
#[derive(Debug, Clone, Copy, PartialEq, Eq, Structural)]
pub enum StopAction {
    /// Send `SIGTERM` to `pid`, wait a second, and check whether it is still there.
    Terminate { pid: u32 },
    /// Stopping is over: send `SIGKILL` to `kill` when there is one, and
    /// forget the recorded process id when `clear_pid` holds.
    Finish { kill: Option<u32>, clear_pid: bool },
}

/// One step of stopping: the next state, the events to send (in order), and
/// the outside work to do next.
#[derive(Debug)]
pub struct StopStep {
    pub state: StopState,
    pub events: Vec<AppEvent>,
    pub action: StopAction,
}

/// Whether an input answers the work that the state waits for.
pub open spec fn stop_input_fits(st: StopState, inp: StopInput) -> bool {
    match (st, inp) {
        (StopState::Begin, StopInput::Start { .. }) => true,
        (StopState::Terminating { .. }, StopInput::Checked { .. }) => true,
        _ => false,
    }
}

/// Stopping step by step: with no process recorded nothing is done; else
/// the stop is announced and `SIGTERM` sent; a process still there a second
/// later gets `SIGKILL`; either way the outcome is logged and the recorded
/// process id is forgotten.
pub open spec fn stop_next(session_id: u64, st: StopState, inp: StopInput) -> (
    StopState,
    Seq<AppEventView>,
    StopAction,
) {
    match (st, inp) {
        (StopState::Begin, StopInput::Start { pid: None }) => (
            StopState::Done,
            seq![],
            StopAction::Finish { kill: None, clear_pid: false },
        ),
        (StopState::Begin, StopInput::Start { pid: Some(p) }) => (
            StopState::Terminating { pid: p },
            seq![
                AppEventView::LogLine {
                    session_id,
                    line: "[VPN] Menghentikan PID "@ + decimal(p as nat) + "..."@,
                },
            ],
            StopAction::Terminate { pid: p },
        ),
        (StopState::Terminating { pid }, StopInput::Checked { alive }) => (
            StopState::Done,
            seq![
                AppEventView::LogLine {
                    session_id,
                    line: if alive {
                        "[VPN] Force kill dengan SIGKILL"@
                    } else {
                        "[VPN] Proses berhenti"@
                    },
                },
            ],
            StopAction::Finish { kill: if alive { Some(pid) } else { None }, clear_pid: true },
        ),
        _ => (StopState::Done, seq![], StopAction::Finish { kill: None, clear_pid: false }),
    }
}

/// One step of stopping the process of session `session_id` (see [`stop_next`]).
pub fn stop(session_id: u64, state: StopState, input: StopInput) -> (r: StopStep)
    requires
        stop_input_fits(state, input),
    ensures
        (r.state, events_view(r.events@), r.action) == stop_next(session_id, state, input),
{
    let mut events: Vec<AppEvent> = Vec::new();
    match (state, input) {
        (StopState::Begin, StopInput::Start { pid: None }) => {
            assert(events_view(events@) =~= Seq::<AppEventView>::empty());
            StopStep {
                state: StopState::Done,
                events,
                action: StopAction::Finish { kill: None, clear_pid: false },
            }
        },
        (StopState::Begin, StopInput::Start { pid: Some(p) }) => {
            let d = u64_to_decimal(p as u64);
            events.push(AppEvent::LogLine { session_id, line: concat3("[VPN] Menghentikan PID ", d.as_str(), "...") });
            assert(events_view(events@) =~= stop_next(session_id, state, input).1);
            StopStep { state: StopState::Terminating { pid: p }, events, action: StopAction::Terminate { pid: p } }
        },
        (StopState::Terminating { pid }, StopInput::Checked { alive }) => {
            let line = if alive {
                owned("[VPN] Force kill dengan SIGKILL")
            } else {
                owned("[VPN] Proses berhenti")
            };
            events.push(AppEvent::LogLine { session_id, line });
            assert(events_view(events@) =~= stop_next(session_id, state, input).1);
            StopStep {
                state: StopState::Done,
                events,
                action: StopAction::Finish { kill: if alive { Some(pid) } else { None }, clear_pid: true },
            }
        },
        _ => {
            assert(events_view(events@) =~= Seq::<AppEventView>::empty());
            StopStep {
                state: StopState::Done,
                events,
                action: StopAction::Finish { kill: None, clear_pid: false },
            }
        },
    }
}

// ─── UTF-8 length ─────────────────────────────────────────────────────────────

/// Bytes that UTF-8 takes for `c`.
pub open spec fn char_utf8_len(c: char) -> nat {
    let n = c as u32;
    if n < 0x80 {
        1
    } else if n < 0x800 {
        2
    } else if n < 0x10000 {
        3
    } else {
        4
    }
}

/// Bytes that UTF-8 takes for `s` (what `str::len` gives).
pub open spec fn utf8_len(s: Seq<char>) -> nat
    decreases s.len(),
{
    if s.len() == 0 {
        0
    } else {
        utf8_len(s.drop_last()) + char_utf8_len(s.last())
    }
}

proof fn lemma_utf8_len_prefix(s: Seq<char>, i: int)
    requires
        0 <= i <= s.len(),
    ensures
        utf8_len(s.take(i)) <= utf8_len(s),
    decreases s.len() - i,
{
    if i < s.len() {
        lemma_utf8_len_prefix(s, i + 1);
        assert(s.take(i + 1).drop_last() =~= s.take(i));
    } else {
        assert(s.take(i) =~= s);
    }
}

/// Whether `s` takes at least `n` bytes in UTF-8.
pub fn utf8_len_at_least(s: &[char], n: u64) -> (r: bool)
    ensures
        r == (utf8_len(s@) >= n),
{
    if n == 0 {
        return true;
    }
    let mut total: u64 = 0;
    let mut i: usize = 0;
    while i < s.len()
        invariant
            i <= s@.len(),
            total == utf8_len(s@.take(i as int)),
            total < n,
        decreases s@.len() - i,
    {
        let c = s[i] as u32;
        let w: u64 = if c < 0x80 {
            1
        } else if c < 0x800 {
            2
        } else if c < 0x10000 {
            3
        } else {
            4
        };
        assert(s@.take(i + 1).drop_last() =~= s@.take(i as int));
        if w >= n - total {
            proof {
                lemma_utf8_len_prefix(s@, i + 1);
            }
            return true;
        }
        total = total + w;
        i += 1;
    }
    assert(s@.take(i as int) =~= s@);
    false
}

// ─── The untrusted-certificate report ─────────────────────────────────────────

/// Collects what `openfortivpn` prints after it fails to validate the
/// gateway's certificate: the hash to trust, and the subject's and issuer's
/// names.
#[derive(Debug)]
pub struct CertBuffer {
    pub collecting: bool,
    pub hash: String,
    pub subject_cn: String,
    pub subject_org: String,
    pub issuer_cn: String,
    pub raw_lines: Vec<String>,
    pub emitted: bool,
    pub in_subject: bool,
    pub in_issuer: bool,
}

/// The mathematical value of a [`CertBuffer`].
pub struct CertBufferView {
    pub collecting: bool,
    pub hash: Seq<char>,
    pub subject_cn: Seq<char>,
    pub subject_org: Seq<char>,
    pub issuer_cn: Seq<char>,
    pub raw_lines: Seq<Seq<char>>,
    pub emitted: bool,
    pub in_subject: bool,
    pub in_issuer: bool,
}

impl View for CertBuffer {
    type V = CertBufferView;

    open spec fn view(&self) -> CertBufferView {
        CertBufferView {
            collecting: self.collecting,
            hash: self.hash@,
            subject_cn: self.subject_cn@,
            subject_org: self.subject_org@,
            issuer_cn: self.issuer_cn@,
            raw_lines: self.raw_lines.deep_view(),
            emitted: self.emitted,
            in_subject: self.in_subject,
            in_issuer: self.in_issuer,
        }
    }
}

impl CertBufferView {
    /// A buffer that has seen nothing.
    pub open spec fn empty() -> CertBufferView {
        CertBufferView {
            collecting: false,
            hash: seq![],
            subject_cn: seq![],
            subject_org: seq![],
            issuer_cn: seq![],
            raw_lines: seq![],
            emitted: false,
            in_subject: false,
            in_issuer: false,
        }
    }

    /// A `KEY = value` line read: `key_upper` is the key, trimmed and in
    /// upper case. In the subject block `CN` and `O` are kept; in the issuer
    /// block `CN` is.
    pub open spec fn with_field(self, key_upper: Seq<char>, value: Seq<char>) -> CertBufferView {
        if self.in_subject {
            if key_upper == "CN"@ {
                CertBufferView { subject_cn: value, ..self }
            } else if key_upper == "O"@ {
                CertBufferView { subject_org: value, ..self }
            } else {
                self
            }
        } else if self.in_issuer && key_upper == "CN"@ {
            CertBufferView { issuer_cn: value, ..self }
        } else {
            self
        }
    }

    /// One output line read, given its lower-case form.
    pub open spec fn fed_lowered(self, line: Seq<char>, lower: Seq<char>) -> CertBufferView {
        let t = trim(line);
        if has_sub(lower, "gateway certificate validation failed"@) {
            CertBufferView { collecting: true, raw_lines: self.raw_lines.push(t), ..self }
        } else if !self.collecting {
            self
        } else {
            let s1 = CertBufferView { raw_lines: self.raw_lines.push(t), ..self };
            if has_sub(lower, "--trusted-cert"@) {
                let ws = words(t);
                if ws.len() > 0 && utf8_len(ws.last()) >= 32 {
                    CertBufferView { hash: ws.last(), ..s1 }
                } else {
                    s1
                }
            } else if has_sub(lower, "subject:"@) {
                CertBufferView { in_subject: true, in_issuer: false, ..s1 }
            } else if has_sub(lower, "issuer:"@) {
                CertBufferView { in_issuer: true, in_subject: false, ..s1 }
            } else {
                let s2 = match first_index_of(t, '=') {
                    Some(e) => s1.with_field(
                        str_uppercase(trim(t.subrange(0, e))),
                        trim(t.subrange(e + 1, t.len() as int)),
                    ),
                    None => s1,
                };
                if has_sub(lower, "closed connection"@) || has_sub(lower, "could not log out"@) {
                    CertBufferView { in_subject: false, in_issuer: false, ..s2 }
                } else {
                    s2
                }
            }
        }
    }

    /// One output line read.
    pub open spec fn fed(self, line: Seq<char>) -> CertBufferView {
        self.fed_lowered(line, str_lowercase(line))
    }

    /// The certificate, once: there is one when a hash was read and it was not
    /// handed out before.
    pub open spec fn emit(self) -> (CertBufferView, Option<CertView>) {
        if self.emitted || self.hash.len() == 0 {
            (self, None)
        } else {
            (
                CertBufferView { emitted: true, ..self },
                Some(
                    CertView {
                        hash: self.hash,
                        subject_cn: self.subject_cn,
                        subject_org: self.subject_org,
                        issuer_cn: self.issuer_cn,
                    },
                ),
            )
        }
    }
}

impl CertBuffer {
    /// A buffer that has seen nothing.
    pub fn new() -> (r: CertBuffer)
        ensures
            r@ == CertBufferView::empty(),
    {
        let r = CertBuffer {
            collecting: false,
            hash: String::new(),
            subject_cn: String::new(),
            subject_org: String::new(),
            issuer_cn: String::new(),
            raw_lines: Vec::new(),
            emitted: false,
            in_subject: false,
            in_issuer: false,
        };
        assert(r@.raw_lines =~= Seq::<Seq<char>>::empty());
        r
    }

    /// Hands out the certificate once a hash was read, and only once.
    pub fn try_emit(&mut self) -> (r: Option<CertInfo>)
        ensures
            (final(self)@, match r {
                Some(c) => Some(c@),
                None => None,
            }) == old(self)@.emit(),
    {
        if self.emitted || self.hash.as_str().is_empty() {
            return None;
        }
        self.emitted = true;
        Some(
            CertInfo {
                hash: self.hash.clone(),
                subject_cn: self.subject_cn.clone(),
                subject_org: self.subject_org.clone(),
                issuer_cn: self.issuer_cn.clone(),
            },
        )
    }

    /// Stores the value of a `KEY = value` line (see [`CertBufferView::with_field`]).
    pub fn record_field(&mut self, key_upper: &str, value: &[char])
        ensures
            final(self)@ == old(self)@.with_field(key_upper@, value@),
    {
        if self.in_subject {
            if str_eq(key_upper, "CN") {
                self.subject_cn = from_chars(value);
            } else if str_eq(key_upper, "O") {
                self.subject_org = from_chars(value);
            }
        } else if self.in_issuer && str_eq(key_upper, "CN") {
            self.issuer_cn = from_chars(value);
        }
    }

    /// Reads one output line, given its lower-case form `lower`.
    pub fn feed_lowered(&mut self, line: &str, lower: &str)
        requires
            old(self).raw_lines@.len() < usize::MAX,
        ensures
            final(self)@ == old(self)@.fed_lowered(line@, lower@),
    {
        let lv = to_chars(lower);
        let lc = to_chars(line);
        let t = trim_chars(&lc);
        let ts = from_chars(&t);
        let ghost pre = self@;
        if contains_str(&lv, "gateway certificate validation failed") {
            self.collecting = true;
            self.raw_lines.push(ts);
            assert(self@.raw_lines =~= pre.raw_lines.push(t@));
            return;
        }
        if !self.collecting {
            return;
        }
        self.raw_lines.push(ts);
        assert(self@.raw_lines =~= pre.raw_lines.push(t@));
        if contains_str(&lv, "--trusted-cert") {
            let parts = split_words(&t);
            if parts.len() > 0 {
                let last_chars = &parts[parts.len() - 1];
                proof {
                    assert(parts.deep_view()[parts@.len() - 1] == parts@[parts@.len() - 1]@);
                }
                if utf8_len_at_least(last_chars, 32) {
                    self.hash = from_chars(last_chars);
                }
            }
            return;
        }
        if contains_str(&lv, "subject:") {
            self.in_subject = true;
            self.in_issuer = false;
            return;
        }
        if contains_str(&lv, "issuer:") {
            self.in_issuer = true;
            self.in_subject = false;
            return;
        }
        match crate::netstats::find_char(&t, '=') {
            Some(e) => {
                let key_part = slice(&t, 0, e);
                assert(t@.len() == t.len());
                let val_part = slice(&t, e + 1, t.len());
                let key = trim_chars(&key_part);
                let val = trim_chars(&val_part);
                let key_s = from_chars(&key);
                let key_upper = uppercase(key_s.as_str());
                self.record_field(key_upper.as_str(), &val);
            },
            None => {},
        }
        if contains_str(&lv, "closed connection") || contains_str(&lv, "could not log out") {
            self.in_subject = false;
            self.in_issuer = false;
        }
    }

    /// Reads one output line.
    pub fn feed(&mut self, line: &str)
        requires
            old(self).raw_lines@.len() < usize::MAX,
        ensures
            final(self)@ == old(self)@.fed(line@),
    {
        let lower = lowercase(line);
        self.feed_lowered(line, lower.as_str());
    }
}

/// The characters `s[from..to]`.
fn slice(s: &[char], from: usize, to: usize) -> (r: Vec<char>)
    requires
        from <= to <= s@.len(),
    ensures
        r@ == s@.subrange(from as int, to as int),
{
    let mut r: Vec<char> = Vec::new();
    let mut i = from;
    while i < to
        invariant
            from <= i <= to <= s@.len(),
            r@ == s@.subrange(from as int, i as int),
        decreases to - i,
    {
        r.push(s[i]);
        i += 1;
        assert(r@ =~= s@.subrange(from as int, i as int));
    }
    r
}

// ─── Reading the process output ───────────────────────────────────────────────

/// What the two output readers of one process share.
#[derive(Debug, Clone, Copy, PartialEq, Eq, Structural)]
pub struct ReaderFlags {
    pub gateway_connected: bool,
    pub token_requested: bool,
    pub speed_monitor_started: bool,
}

impl ReaderFlags {
    /// Nothing seen yet.
    pub fn new() -> (r: ReaderFlags)
        ensures
            !r.gateway_connected && !r.token_requested && !r.speed_monitor_started,
    {
        ReaderFlags { gateway_connected: false, token_requested: false, speed_monitor_started: false }
    }
}

/// What one output line asks for: events to send, then a new value for the
/// "waiting for user input" flag, then whether to start the rate monitor.
#[derive(Debug)]
pub struct LineReaction {
    pub events: Vec<AppEvent>,
    pub waiting: Option<bool>,
    pub start_speed_monitor: bool,
}

/// The mathematical value of a [`LineReaction`].
pub struct LineReactionView {
    pub events: Seq<AppEventView>,
    pub waiting: Option<bool>,
    pub start_speed_monitor: bool,
}

impl View for LineReaction {
    type V = LineReactionView;

    open spec fn view(&self) -> LineReactionView {
        LineReactionView {
            events: events_view(self.events@),
            waiting: self.waiting,
            start_speed_monitor: self.start_speed_monitor,
        }
    }
}

/// The prefix of a plain output line in the debug log.
pub open spec fn output_prefix(lower: Seq<char>) -> Seq<char> {
    if has_sub(lower, "error"@) {
        "[ERR] "@
    } else if has_sub(lower, "warn"@) {
        "[WARN] "@
    } else {
        "[VPN] "@
    }
}

/// How the readers react to one output line, given its lower-case form:
/// the first "connected to gateway" asks for the OTP token (once), "tunnel
/// is up" reports the connection (and starts the rate monitor once), the
/// password prompt is ignored, and any other non-blank line that is not
/// about two-factor authentication goes to the debug log.
pub open spec fn line_reaction(
    flags: ReaderFlags,
    session_id: u64,
    line: Seq<char>,
    lower: Seq<char>,
) -> (ReaderFlags, LineReactionView) {
    let t = trim(line);
    if has_sub(lower, "connected to gateway"@) && !flags.gateway_connected {
        let f1 = ReaderFlags { gateway_connected: true, ..flags };
        let first = seq![AppEventView::DebugLog("[VPN] "@ + t)];
        if !flags.token_requested {
            (
                ReaderFlags { token_requested: true, ..f1 },
                LineReactionView {
                    events: first + seq![
                        AppEventView::LogLine {
                            session_id,
                            line: "[VPN] 🔐 Menunggu token OTP..."@,
                        },
                        AppEventView::NeedToken(session_id),
                        AppEventView::StateChanged {
                            session_id,
                            state: VpnStateView::WaitingToken,
                        },
                    ],
                    waiting: Some(true),
                    start_speed_monitor: false,
                },
            )
        } else {
            (f1, LineReactionView { events: first, waiting: None, start_speed_monitor: false })
        }
    } else if has_sub(lower, "tunnel is up"@) {
        (
            ReaderFlags { speed_monitor_started: true, ..flags },
            LineReactionView {
                events: seq![
                    AppEventView::DebugLog("[VPN] ✅ "@ + t),
                    AppEventView::StateChanged { session_id, state: VpnStateView::Connected },
                ],
                waiting: Some(false),
                start_speed_monitor: !flags.speed_monitor_started,
            },
        )
    } else if has_sub(lower, "password:"@) && has_sub(lower, "vpn account"@) {
        (flags, LineReactionView { events: seq![], waiting: None, start_speed_monitor: false })
    } else if t.len() > 0 && !has_sub(lower, "two-factor"@) {
        (
            flags,
            LineReactionView {
                events: seq![AppEventView::DebugLog(output_prefix(lower) + t)],
                waiting: None,
                start_speed_monitor: false,
            },
        )
    } else {
        (flags, LineReactionView { events: seq![], waiting: None, start_speed_monitor: false })
    }
}

/// Reacts to one output line, given its lower-case form (see [`line_reaction`]).
pub fn react_to_lowered(flags: &mut ReaderFlags, session_id: u64, line: &str, lower: &str) -> (r:
    LineReaction)
    ensures
        (*final(flags), r@) == line_reaction(*old(flags), session_id, line@, lower@),
{
    let lv = to_chars(lower);
    let lc = to_chars(line);
    let t = trim_chars(&lc);
    let ts = from_chars(&t);
    let mut events: Vec<AppEvent> = Vec::new();
    if contains_str(&lv, "connected to gateway") && !flags.gateway_connected {
        flags.gateway_connected = true;
        events.push(AppEvent::DebugLog(concat2("[VPN] ", ts.as_str())));
        if !flags.token_requested {
            flags.token_requested = true;
            events.push(
                AppEvent::LogLine { session_id, line: owned("[VPN] 🔐 Menunggu token OTP...") },
            );
            events.push(AppEvent::NeedToken(session_id));
            events.push(AppEvent::StateChanged { session_id, state: VpnState::WaitingToken });
            let r = LineReaction { events, waiting: Some(true), start_speed_monitor: false };
            assert(r@.events =~= line_reaction(*old(flags), session_id, line@, lower@).1.events);
            return r;
        }
        let r = LineReaction { events, waiting: None, start_speed_monitor: false };
        assert(r@.events =~= line_reaction(*old(flags), session_id, line@, lower@).1.events);
        return r;
    }
    if contains_str(&lv, "tunnel is up") {
        events.push(AppEvent::DebugLog(concat2("[VPN] ✅ ", ts.as_str())));
        events.push(AppEvent::StateChanged { session_id, state: VpnState::Connected });
        let start = !flags.speed_monitor_started;
        flags.speed_monitor_started = true;
        let r = LineReaction { events, waiting: Some(false), start_speed_monitor: start };
        assert(r@.events =~= line_reaction(*old(flags), session_id, line@, lower@).1.events);
        return r;
    }
    if contains_str(&lv, "password:") && contains_str(&lv, "vpn account") {
        let r = LineReaction { events, waiting: None, start_speed_monitor: false };
        assert(r@.events =~= Seq::<AppEventView>::empty());
        return r;
    }
    if t.len() > 0 && !contains_str(&lv, "two-factor") {
        let prefix = if contains_str(&lv, "error") {
            "[ERR] "
        } else if contains_str(&lv, "warn") {
            "[WARN] "
        } else {
            "[VPN] "
        };
        events.push(AppEvent::DebugLog(concat2(prefix, ts.as_str())));
        let r = LineReaction { events, waiting: None, start_speed_monitor: false };
        assert(r@.events =~= line_reaction(*old(flags), session_id, line@, lower@).1.events);
        return r;
    }
    let r = LineReaction { events, waiting: None, start_speed_monitor: false };
    assert(r@.events =~= Seq::<AppEventView>::empty());
    r
}

/// Reacts to one output line (see [`line_reaction`]).
pub fn react_to_line(flags: &mut ReaderFlags, session_id: u64, line: &str) -> (r: LineReaction)
    ensures
        (*final(flags), r@) == line_reaction(*old(flags), session_id, line@, str_lowercase(line@)),
{
    let lower = lowercase(line);
    react_to_lowered(flags, session_id, line, lower.as_str())
}

// ─── Sending the OTP token ────────────────────────────────────────────────────

/// How the OTP token reaches the process: the log line that announces it
/// (which names the process, never the token), the input file of the
/// process that `sudo tee` writes to, the line written, and the temporary
/// file and shell command of the second delivery path.
#[derive(Debug)]
pub struct TokenDelivery {
    pub announce: String,
    pub tee_target: String,
    pub token_line: String,
    pub temp_file: String,
    pub shell_command: String,
}

/// The error when there is no process to send the token to.
pub open spec fn no_process_text() -> Seq<char> {
    "Tidak ada proses VPN aktif"@
}

/// Plans the delivery of `token` to process `pid`; an error when there is
/// no process.
pub fn token_delivery(pid: Option<u32>, token: &str) -> (r: Result<TokenDelivery, String>)
    ensures
        match r {
            Ok(d) => pid matches Some(p) && {
                let n = decimal(p as nat);
                let temp = "/tmp/fortivpn_token_"@ + n + ".txt"@;
                &&& d.announce@ == "[TOKEN] Mengirim token ke PID "@ + n + "..."@
                &&& d.tee_target@ == "/proc/"@ + n + "/fd/0"@
                &&& d.token_line@ == token@ + "\n"@
                &&& d.temp_file@ == temp
                &&& d.shell_command@ == "sudo cat "@ + temp + " > /proc/"@ + n
                    + "/fd/0 2>/dev/null"@
            },
            Err(e) => pid is None && e@ == no_process_text(),
        },
{
    let p = match pid {
        Some(p) => p,
        None => {
            return Err(owned("Tidak ada proses VPN aktif"));
        },
    };
    let n = u64_to_decimal(p as u64);
    let announce = concat3("[TOKEN] Mengirim token ke PID ", n.as_str(), "...");
    let tee_target = concat3("/proc/", n.as_str(), "/fd/0");
    let token_line = concat2(token, "\n");
    let temp_file = concat3("/tmp/fortivpn_token_", n.as_str(), ".txt");
    let mut shell_command = concat2("sudo cat ", temp_file.as_str());
    shell_command.append(" > /proc/");
    shell_command.append(n.as_str());
    shell_command.append("/fd/0 2>/dev/null");
    Ok(TokenDelivery { announce, tee_target, token_line, temp_file, shell_command })
}

// ─── The process's exit ───────────────────────────────────────────────────────

/// How waiting for the process ended.
#[derive(Debug)]
pub enum ProcessExit {
    /// The process exited; `code` is its exit code when it has one.
    Exited { success: bool, code: Option<i32> },
    /// Waiting failed, with this error text.
    WaitFailed(String),
}

/// The mathematical value of a [`ProcessExit`].
pub enum ProcessExitView {
    Exited { success: bool, code: Option<i32> },
    WaitFailed(Seq<char>),
}

impl View for ProcessExit {
    type V = ProcessExitView;

    open spec fn view(&self) -> ProcessExitView {
        match self {
            ProcessExit::Exited { success, code } => ProcessExitView::Exited {
                success: *success,
                code: *code,
            },
            ProcessExit::WaitFailed(e) => ProcessExitView::WaitFailed(e@),
        }
    }
}

/// The decimal rendering of a signed integer.
pub open spec fn signed_decimal(i: int) -> Seq<char> {
    if i < 0 {
        "-"@ + decimal((-i) as nat)
    } else {
        decimal(i as nat)
    }
}

/// The decimal rendering of `i`, with a minus sign when negative.
pub fn i32_to_decimal(i: i32) -> (r: String)
    ensures
        r@ == signed_decimal(i as int),
{
    let w = i as i64;
    if w < 0 {
        let m = (-w) as u64;
        let d = u64_to_decimal(m);
        concat2("-", d.as_str())
    } else {
        u64_to_decimal(w as u64)
    }
}

/// What the end of the process reports: an untrusted certificate when one
/// was read (nothing else then); otherwise a debug line saying why it
/// ended and the session disconnected. The flag tells whether the
/// "waiting for user input" flag is to be cleared first.
pub open spec fn exit_events(
    session_id: u64,
    cert: Option<CertView>,
    was_waiting: bool,
    exit: ProcessExitView,
) -> (Seq<AppEventView>, bool) {
    match cert {
        Some(c) => (
            seq![
                AppEventView::DebugLog("[CERT] Untrusted: CN="@ + c.subject_cn),
                AppEventView::CertError { session_id, cert: c },
            ],
            false,
        ),
        None => {
            let down = AppEventView::StateChanged { session_id, state: VpnStateView::Disconnected };
            match exit {
                ProcessExitView::Exited { success, code } => if was_waiting {
                    (
                        seq![
                            AppEventView::DebugLog(
                                "[VPN] ⚠️ Koneksi terputus saat menunggu token"@,
                            ),
                            down,
                        ],
                        true,
                    )
                } else if success {
                    (seq![AppEventView::DebugLog("[VPN] Koneksi ditutup"@), down], false)
                } else {
                    let c = match code {
                        Some(c) => c as int,
                        None => -1,
                    };
                    (
                        seq![AppEventView::DebugLog("[VPN] Exit code: "@ + signed_decimal(c)), down],
                        false,
                    )
                },
                ProcessExitView::WaitFailed(e) => (
                    seq![AppEventView::DebugLog("[VPN] Error: "@ + e), down],
                    false,
                ),
            }
        },
    }
}

/// Decides what the end of the process reports (see [`exit_events`]).
pub fn exit_reaction(session_id: u64, cert: Option<CertInfo>, was_waiting: bool, exit: ProcessExit) -> (r:
    (Vec<AppEvent>, bool))
    ensures
        (events_view(r.0@), r.1) == exit_events(
            session_id,
            crate::state::opt_cert_view(cert),
            was_waiting,
            exit@,
        ),
{
    let mut events: Vec<AppEvent> = Vec::new();
    let ghost cv = crate::state::opt_cert_view(cert);
    let ghost ev = exit@;
    match cert {
        Some(c) => {
            events.push(AppEvent::DebugLog(concat2("[CERT] Untrusted: CN=", c.subject_cn.as_str())));
            events.push(AppEvent::CertError { session_id, cert: c });
            assert(events_view(events@) =~= exit_events(session_id, cv, was_waiting, ev).0);
            return (events, false);
        },
        None => {},
    }
    let mut clear = false;
    match exit {
        ProcessExit::Exited { success, code } => {
            if was_waiting {
                events.push(AppEvent::DebugLog(owned("[VPN] ⚠️ Koneksi terputus saat menunggu token")));
                clear = true;
            } else if success {
                events.push(AppEvent::DebugLog(owned("[VPN] Koneksi ditutup")));
            } else {
                let c: i32 = match code {
                    Some(c) => c,
                    None => -1,
                };
                let d = i32_to_decimal(c);
                events.push(AppEvent::DebugLog(concat2("[VPN] Exit code: ", d.as_str())));
            }
        },
        ProcessExit::WaitFailed(e) => {
            events.push(AppEvent::DebugLog(concat2("[VPN] Error: ", e.as_str())));
        },
    }
    events.push(AppEvent::StateChanged { session_id, state: VpnState::Disconnected });
    assert(events_view(events@) =~= exit_events(session_id, cv, was_waiting, ev).0);
    (events, clear)
}

} // verus!
