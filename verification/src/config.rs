//! Saved VPN profiles and the configuration that holds them.
use vstd::prelude::*;

use crate::text::{owned, str_eq};

verus! {

/// One saved VPN connection profile.
#[derive(Debug)]
pub struct VpnProfile {
    pub name: String,
    pub host: String,
    pub port: u16,
    pub username: String,
    pub save_password: bool,
    pub password: String,
    pub trusted_cert: Option<String>,
    pub use_sudo_password: bool,
    pub sudo_password: String,
}

/// The mathematical value of a [`VpnProfile`].
pub struct ProfileView {
    pub name: Seq<char>,
    pub host: Seq<char>,
    pub port: u16,
    pub username: Seq<char>,
    pub save_password: bool,
    pub password: Seq<char>,
    pub trusted_cert: Option<Seq<char>>,
    pub use_sudo_password: bool,
    pub sudo_password: Seq<char>,
}

/// An optional string taken by its characters.
pub open spec fn opt_view(s: Option<String>) -> Option<Seq<char>> {
    match s {
        Some(v) => Some(v@),
        None => None,
    }
}

impl View for VpnProfile {
    type V = ProfileView;

    open spec fn view(&self) -> ProfileView {
        ProfileView {
            name: self.name@,
            host: self.host@,
            port: self.port,
            username: self.username@,
            save_password: self.save_password,
            password: self.password@,
            trusted_cert: opt_view(self.trusted_cert),
            use_sudo_password: self.use_sudo_password,
            sudo_password: self.sudo_password@,
        }
    }
}

impl Clone for VpnProfile {
    fn clone(&self) -> (r: Self)
        ensures
            r == *self,
    {
        VpnProfile {
            name: self.name.clone(),
            host: self.host.clone(),
            port: self.port,
            username: self.username.clone(),
            save_password: self.save_password,
            password: self.password.clone(),
            trusted_cert: crate::text::clone_opt_string(&self.trusted_cert),
            use_sudo_password: self.use_sudo_password,
            sudo_password: self.sudo_password.clone(),
        }
    }
}

impl Default for VpnProfile {
    fn default() -> (r: Self)
        ensures
            r@ == (ProfileView {
                name: seq![],
                host: seq![],
                port: 0,
                username: seq![],
                save_password: false,
                password: seq![],
                trusted_cert: None,
                use_sudo_password: false,
                sudo_password: seq![],
            }),
    {
        VpnProfile {
            name: String::new(),
            host: String::new(),
            port: 0,
            username: String::new(),
            save_password: false,
            password: String::new(),
            trusted_cert: None,
            use_sudo_password: false,
            sudo_password: String::new(),
        }
    }
}

impl ProfileView {
    /// The profile as it is written to disk: the login password and the sudo
    /// password are kept only when the profile asks to save passwords.
    pub open spec fn for_disk(self) -> ProfileView {
        if self.save_password {
            self
        } else {
            ProfileView { password: seq![], sudo_password: seq![], ..self }
        }
    }
}

/// The profiles of `ps`, each taken by its value.
pub open spec fn profiles_view(ps: Seq<VpnProfile>) -> Seq<ProfileView> {
    ps.map_values(|p: VpnProfile| p@)
}

/// Whether `i` is the first position in `ps` of a profile called `name`.
pub open spec fn is_first_named(ps: Seq<ProfileView>, name: Seq<char>, i: int) -> bool {
    &&& 0 <= i < ps.len()
    &&& ps[i].name == name
    &&& forall|j: int| 0 <= j < i ==> ps[j].name != name
}

/// Position of the first profile in `ps` called `name`, if there is one.
pub open spec fn find_named(ps: Seq<ProfileView>, name: Seq<char>) -> Option<int> {
    if exists|i: int| is_first_named(ps, name, i) {
        Some(choose|i: int| is_first_named(ps, name, i))
    } else {
        None
    }
}

/// There is at most one first position of a name.
pub proof fn lemma_first_named_unique(ps: Seq<ProfileView>, name: Seq<char>, i: int)
    requires
        is_first_named(ps, name, i),
    ensures
        find_named(ps, name) == Some(i),
{
    let k = choose|k: int| is_first_named(ps, name, k);
    assert(is_first_named(ps, name, k));
    if k < i {
        assert(ps[k].name == name);
    } else if i < k {
        assert(ps[i].name == name);
    }
}

/// No profile of `ps` is called `name`.
pub proof fn lemma_none_named(ps: Seq<ProfileView>, name: Seq<char>)
    requires
        forall|j: int| 0 <= j < ps.len() ==> ps[j].name != name,
    ensures
        find_named(ps, name) is None,
{
    if exists|i: int| is_first_named(ps, name, i) {
        let i = choose|i: int| is_first_named(ps, name, i);
        assert(ps[i].name == name);
    }
}

/// Position of the first profile in `ps` called `name`.
pub fn position_of_name(ps: &Vec<VpnProfile>, name: &str) -> (r: Option<usize>)
    ensures
        match r {
            Some(i) => find_named(profiles_view(ps@), name@) == Some(i as int),
            None => find_named(profiles_view(ps@), name@) is None,
        },
{
    let ghost pv = profiles_view(ps@);
    let mut i: usize = 0;
    while i < ps.len()
        invariant
            i <= ps@.len(),
            pv == profiles_view(ps@),
            forall|j: int| 0 <= j < i ==> pv[j].name != name@,
        decreases ps@.len() - i,
    {
        if str_eq(ps[i].name.as_str(), name) {
            proof {
                assert(is_first_named(pv, name@, i as int));
                lemma_first_named_unique(pv, name@, i as int);
            }
            return Some(i);
        }
        i += 1;
    }
    proof {
        lemma_none_named(pv, name@);
    }
    None
}

/// The saved configuration: all profiles and the name of the one last used.
#[derive(Debug)]
pub struct Config {
    pub profiles: Vec<VpnProfile>,
    pub selected_profile: Option<String>,
}

/// The mathematical value of a [`Config`].
pub struct ConfigView {
    pub profiles: Seq<ProfileView>,
    pub selected_profile: Option<Seq<char>>,
}

impl View for Config {
    type V = ConfigView;

    open spec fn view(&self) -> ConfigView {
        ConfigView {
            profiles: profiles_view(self.profiles@),
            selected_profile: opt_view(self.selected_profile),
        }
    }
}

impl Default for Config {
    fn default() -> (r: Self)
        ensures
            r@.profiles == Seq::<ProfileView>::empty(),
            r@.selected_profile is None,
    {
        let r = Config { profiles: Vec::new(), selected_profile: None };
        assert(r@.profiles =~= Seq::<ProfileView>::empty());
        r
    }
}

/// A clone of a list of profiles.
pub fn clone_profiles(ps: &Vec<VpnProfile>) -> (r: Vec<VpnProfile>)
    ensures
        r@ == ps@,
{
    let mut r: Vec<VpnProfile> = Vec::new();
    let mut i: usize = 0;
    while i < ps.len()
        invariant
            i <= ps@.len(),
            r@ == ps@.take(i as int),
        decreases ps@.len() - i,
    {
        r.push(ps[i].clone());
        i += 1;
        assert(r@ =~= ps@.take(i as int));
    }
    assert(ps@.take(ps@.len() as int) =~= ps@);
    r
}

/// The test "is not called `name`".
pub open spec fn named_other_than(name: Seq<char>) -> spec_fn(ProfileView) -> bool {
    |p: ProfileView| p.name != name
}

/// Every profile of `ps` as it is written to disk.
pub open spec fn disk_profiles(ps: Seq<ProfileView>) -> Seq<ProfileView> {
    ps.map_values(|p: ProfileView| p.for_disk())
}

impl ConfigView {
    /// The profiles without those called `name`.
    pub open spec fn without(profiles: Seq<ProfileView>, name: Seq<char>) -> Seq<ProfileView> {
        profiles.filter(named_other_than(name))
    }

    /// The configuration as it is written to disk (see [`ProfileView::for_disk`]).
    pub open spec fn for_disk(self) -> ConfigView {
        ConfigView { profiles: disk_profiles(self.profiles), selected_profile: self.selected_profile }
    }
}

impl Config {
    /// Appends a profile.
    pub fn add_profile(&mut self, profile: VpnProfile)
        ensures
            final(self)@ == (ConfigView {
                profiles: old(self)@.profiles.push(profile@),
                ..old(self)@
            }),
    {
        self.profiles.push(profile);
        assert(profiles_view(self.profiles@) =~= old(self)@.profiles.push(profile@));
    }

    /// Replaces the first profile called `name`; does nothing when there is none.
    pub fn update_profile(&mut self, name: &str, profile: VpnProfile)
        ensures
            final(self)@ == (match find_named(old(self)@.profiles, name@) {
                Some(i) => ConfigView {
                    profiles: old(self)@.profiles.update(i, profile@),
                    ..old(self)@
                },
                None => old(self)@,
            }),
    {
        match position_of_name(&self.profiles, name) {
            Some(idx) => {
                self.profiles.set(idx, profile);
                assert(profiles_view(self.profiles@) =~= old(self)@.profiles.update(
                    idx as int,
                    profile@,
                ));
            },
            None => {},
        }
    }

    /// Removes every profile called `name`, and forgets the selection when it
    /// named that profile.
    pub fn delete_profile(&mut self, name: &str)
        ensures
            final(self)@ == (ConfigView {
                profiles: ConfigView::without(old(self)@.profiles, name@),
                selected_profile: if old(self)@.selected_profile == Some(name@) {
                    None
                } else {
                    old(self)@.selected_profile
                },
            }),
    {
        let ghost keep = named_other_than(name@);
        let ghost pv = old(self)@.profiles;
        let mut kept: Vec<VpnProfile> = Vec::new();
        let mut old_profiles: Vec<VpnProfile> = Vec::new();
        std::mem::swap(&mut old_profiles, &mut self.profiles);
        assert(profiles_view(old_profiles@) == pv);
        let n = old_profiles.len();
        let mut i: usize = 0;
        while i < n
            invariant
                n == old_profiles@.len(),
                i <= n,
                profiles_view(old_profiles@) == pv,
                keep == named_other_than(name@),
                profiles_view(kept@) == pv.take(i as int).filter(keep),
            decreases n - i,
        {
            let p = &old_profiles[i];
            proof {
                assert(pv.take(i + 1) =~= pv.take(i as int).push(pv[i as int]));
                pv.take(i as int).lemma_filter_push(pv[i as int], keep);
                assert(pv[i as int] == p@);
            }
            if !str_eq(p.name.as_str(), name) {
                kept.push(p.clone());
                assert(profiles_view(kept@) =~= pv.take(i as int).filter(keep).push(pv[i as int]));
            }
            i += 1;
        }
        assert(pv.take(n as int) =~= pv);
        self.profiles = kept;
        let clear = match &self.selected_profile {
            Some(sel) => str_eq(sel.as_str(), name),
            None => false,
        };
        if clear {
            self.selected_profile = None;
        }
    }

    /// The first profile called `name`.
    pub fn get_profile(&self, name: &str) -> (r: Option<&VpnProfile>)
        ensures
            match find_named(self@.profiles, name@) {
                Some(i) => r == Some(&self.profiles@[i]),
                None => r is None,
            },
    {
        match position_of_name(&self.profiles, name) {
            Some(i) => Some(&self.profiles[i]),
            None => None,
        }
    }

    /// The configuration as it is written to disk: a profile that does not
    /// save passwords is written with empty login and sudo passwords.
    pub fn for_disk(&self) -> (r: Config)
        ensures
            r@ == self@.for_disk(),
    {
        let mut out: Vec<VpnProfile> = Vec::new();
        let mut i: usize = 0;
        while i < self.profiles.len()
            invariant
                i <= self.profiles@.len(),
                profiles_view(out@) == disk_profiles(self@.profiles.take(i as int)),
            decreases self.profiles@.len() - i,
        {
            let p = &self.profiles[i];
            let q = if p.save_password {
                p.clone()
            } else {
                VpnProfile {
                    name: p.name.clone(),
                    host: p.host.clone(),
                    port: p.port,
                    username: p.username.clone(),
                    save_password: p.save_password,
                    password: String::new(),
                    trusted_cert: crate::text::clone_opt_string(&p.trusted_cert),
                    use_sudo_password: p.use_sudo_password,
                    sudo_password: String::new(),
                }
            };
            assert(q@ == p@.for_disk());
            assert(self@.profiles[i as int] == p@);
            let ghost before = profiles_view(out@);
            out.push(q);
            i += 1;
            assert(profiles_view(out@) =~= before.push(q@));
            assert(disk_profiles(self@.profiles.take(i as int)) =~= disk_profiles(
                self@.profiles.take(i - 1),
            ).push(q@));
        }
        assert(self@.profiles.take(self.profiles@.len() as int) =~= self@.profiles);
        let r = Config {
            profiles: out,
            selected_profile: crate::text::clone_opt_string(&self.selected_profile),
        };
        r
    }
}

/// A profile written to disk and read back keeps everything, passwords
/// included, when it saves passwords; otherwise only the passwords are lost.
pub proof fn law_for_disk_idempotent(c: ConfigView)
    ensures
        c.for_disk().for_disk() == c.for_disk(),
        forall|i: int|
            0 <= i < c.profiles.len() ==> {
                let d = #[trigger] c.for_disk().profiles[i];
                &&& d.name == c.profiles[i].name
                &&& d.host == c.profiles[i].host
                &&& d.port == c.profiles[i].port
                &&& d.username == c.profiles[i].username
                &&& d.trusted_cert == c.profiles[i].trusted_cert
                &&& (c.profiles[i].save_password ==> d.password == c.profiles[i].password
                    && d.sudo_password == c.profiles[i].sudo_password)
                &&& (!c.profiles[i].save_password ==> d.password.len() == 0
                    && d.sudo_password.len() == 0)
            },
{
    assert(c.for_disk().for_disk().profiles =~= c.for_disk().profiles);
}

/// After adding a profile whose name no earlier profile has, looking the name
/// up finds exactly that profile.
pub proof fn law_add_then_get(c: ConfigView, p: ProfileView)
    requires
        find_named(c.profiles, p.name) is None,
    ensures
        find_named(c.profiles.push(p), p.name) == Some(c.profiles.len() as int),
{
    let ps = c.profiles.push(p);
    assert forall|j: int| 0 <= j < c.profiles.len() implies ps[j].name != p.name by {
        if ps[j].name == p.name {
            assert(c.profiles[j].name == p.name);
            lemma_some_first(c.profiles, p.name, j);
        }
    }
    assert(is_first_named(ps, p.name, c.profiles.len() as int));
    lemma_first_named_unique(ps, p.name, c.profiles.len() as int);
}

/// A name that occurs has a first occurrence.
pub proof fn lemma_some_first(ps: Seq<ProfileView>, name: Seq<char>, j: int)
    requires
        0 <= j < ps.len(),
        ps[j].name == name,
    ensures
        find_named(ps, name) is Some,
    decreases j,
{
    if exists|k: int| 0 <= k < j && ps[k].name == name {
        let k = choose|k: int| 0 <= k < j && ps[k].name == name;
        lemma_some_first(ps, name, k);
    } else {
        assert(is_first_named(ps, name, j));
    }
}

/// After deleting a name no profile of that name is left, every other
/// profile is kept in order, and the selection no longer names it.
pub proof fn law_delete_removes(c: ConfigView, name: Seq<char>)
    ensures
        find_named(ConfigView::without(c.profiles, name), name) is None,
        forall|i: int|
            0 <= i < ConfigView::without(c.profiles, name).len() ==> c.profiles.contains(
                #[trigger] ConfigView::without(c.profiles, name)[i],
            ),
        forall|i: int|
            0 <= i < c.profiles.len() && c.profiles[i].name != name ==> ConfigView::without(
                c.profiles,
                name,
            ).contains(#[trigger] c.profiles[i]),
{
    broadcast use vstd::seq_lib::group_filter_ensures;

    let keep = named_other_than(name);
    let w = ConfigView::without(c.profiles, name);
    assert forall|j: int| 0 <= j < w.len() implies w[j].name != name by {
        assert(keep(w[j]));
    }
    lemma_none_named(w, name);
    assert forall|i: int| 0 <= i < w.len() implies c.profiles.contains(#[trigger] w[i]) by {
        assert(w.contains(w[i]));
        c.profiles.lemma_filter_contains_rev(keep, w[i]);
    }
    assert forall|i: int| 0 <= i < c.profiles.len() && c.profiles[i].name != name implies w.contains(
        #[trigger] c.profiles[i],
    ) by {
        c.profiles.lemma_filter_contains(keep, i);
    }
}

} // verus!
