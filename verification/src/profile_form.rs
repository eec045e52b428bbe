//! Opening the profile form, empty or filled from a profile.
use vstd::prelude::*;

use crate::config::{opt_view, ProfileView, VpnProfile};
use crate::state::{App, AppView, Focus, UiMode};
use crate::text::{decimal, owned, u64_to_decimal};

verus! {

/// The form opened for a new profile.
pub open spec fn new_form(a: AppView) -> AppView {
    AppView {
        ui_mode: UiMode::NewProfile,
        profile_name: seq![],
        profile_host: seq![],
        profile_port: "443"@,
        profile_username: seq![],
        profile_password: seq![],
        profile_sudo_password: seq![],
        profile_save_password: false,
        profile_use_sudo_password: false,
        editing_profile_name: None,
        focus: Focus::ProfileName,
        ..a
    }
}

/// The form opened to edit profile `p`.
pub open spec fn edit_form(a: AppView, p: ProfileView) -> AppView {
    AppView {
        ui_mode: UiMode::EditProfile,
        editing_profile_name: Some(p.name),
        profile_name: p.name,
        profile_host: p.host,
        profile_port: decimal(p.port as nat),
        profile_username: p.username,
        profile_password: p.password,
        profile_sudo_password: p.sudo_password,
        profile_save_password: p.save_password,
        profile_use_sudo_password: p.use_sudo_password,
        focus: Focus::ProfileName,
        ..a
    }
}

/// Opens an empty form for a new profile (port 443).
pub fn start_new(app: &mut App)
    ensures
        final(app)@ == new_form(old(app)@),
{
    app.ui_mode = UiMode::NewProfile;
    app.profile_name = String::new();
    app.profile_host = String::new();
    app.profile_port = owned("443");
    app.profile_username = String::new();
    app.profile_password = String::new();
    app.profile_sudo_password = String::new();
    app.profile_save_password = false;
    app.profile_use_sudo_password = false;
    app.editing_profile_name = None;
    app.focus = Focus::ProfileName;
}

/// Opens the form filled from `profile`, to edit it.
pub fn start_edit(app: &mut App, profile: &VpnProfile)
    ensures
        final(app)@ == edit_form(old(app)@, profile@),
{
    app.ui_mode = UiMode::EditProfile;
    app.editing_profile_name = Some(profile.name.clone());
    app.profile_name = profile.name.clone();
    app.profile_host = profile.host.clone();
    app.profile_port = u64_to_decimal(profile.port as u64);
    app.profile_username = profile.username.clone();
    app.profile_password = profile.password.clone();
    app.profile_sudo_password = profile.sudo_password.clone();
    app.profile_save_password = profile.save_password;
    app.profile_use_sudo_password = profile.use_sudo_password;
    app.focus = Focus::ProfileName;
}

} // verus!
