//! The settings form of the desktop window, its profiles and its status line.
use vstd::prelude::*;
use crate::config::{in_language, repo_form, tr, validate, Action, Config, Language};
use crate::paths::{join, joined};
use crate::profiles::{
    effective_channel_of, remove, upsert, upserted, without_name, Profile,
};
use crate::text::{chars_of, copy_range, has_prefix, has_suffix, lower, string_of, trim, trim_chars, trim_str};
use vstd::string::StringExecFns;

verus! {

/// The text after its first `/` (all of it when there is none).
pub open spec fn after_slash(s: Seq<char>) -> Seq<char>
    decreases s.len(),
{
    if s.len() == 0 {
        s
    } else if s[0] == '/' {
        s.drop_first()
    } else {
        after_slash(s.drop_first())
    }
}

/// `s` starts with `p`, ignoring ASCII case.
pub open spec fn has_prefix_ci(s: Seq<char>, p: Seq<char>) -> bool {
    has_prefix(lower(s), lower(p))
}

/// The repository path written in a repository field: the trimmed text without a leading
/// `https://github.com/`, `http://github.com/` or `github.com/` (in any case), without trailing
/// slashes and without a final `.git`.
pub open spec fn repo_path(input: Seq<char>) -> Seq<char> {
    let t = trim(input);
    let u = if has_prefix_ci(t, "https://github.com/"@) {
        t.skip(19)
    } else if has_prefix_ci(t, "http://github.com/"@) {
        t.skip(18)
    } else if has_prefix_ci(t, "github.com/"@) {
        t.skip(11)
    } else {
        t
    };
    let v = crate::release::trim_slashes_end(u);
    if has_suffix(v, ".git"@) {
        v.take(v.len() - 4)
    } else {
        v
    }
}

fn starts_with_ci(s: &[char], p: &str) -> (r: bool)
    ensures
        r == has_prefix_ci(s@, p@),
{
    let ls = crate::text::lower_vec(s);
    let lp = crate::text::lower_vec(chars_of(p).as_slice());
    crate::text::matches_at(ls.as_slice(), 0, lp.as_slice())
}

fn repo_path_of(input: &str) -> (r: Vec<char>)
    ensures
        r@ == repo_path(input@),
{
    let t = trim_chars(chars_of(input).as_slice());
    let u = if starts_with_ci(t.as_slice(), "https://github.com/") {
        proof {
            reveal_strlit("https://github.com/");
        }
        copy_range(t.as_slice(), 19, t.len())
    } else if starts_with_ci(t.as_slice(), "http://github.com/") {
        proof {
            reveal_strlit("http://github.com/");
        }
        copy_range(t.as_slice(), 18, t.len())
    } else if starts_with_ci(t.as_slice(), "github.com/") {
        proof {
            reveal_strlit("github.com/");
        }
        copy_range(t.as_slice(), 11, t.len())
    } else {
        t
    };
    let mut b = u.len();
    assert(u@.subrange(0, b as int) == u@);
    while b > 0 && u[b - 1] == '/'
        invariant
            b <= u@.len(),
            crate::release::trim_slashes_end(u@) == crate::release::trim_slashes_end(
                u@.subrange(0, b as int),
            ),
        decreases b,
    {
        proof {
            assert(u@.subrange(0, b as int).drop_last() == u@.subrange(0, b - 1));
        }
        b = b - 1;
    }
    let v = copy_range(u.as_slice(), 0, b);
    if crate::text::ends_with(v.as_slice(), ".git") {
        proof {
            reveal_strlit(".git");
        }
        copy_range(v.as_slice(), 0, v.len() - 4)
    } else {
        v
    }
}

/// Reads a repository field written as `owner/repository` or as a GitHub address.
pub fn normalize_repo(input: &str) -> (r: Result<String, String>)
    ensures
        repo_form(repo_path(input@)) ==> (r matches Ok(s) && s@ == repo_path(input@)),
        !repo_form(repo_path(input@)) ==> (r matches Err(e) && e@ == "Invalid GitHub repository: "@
            + input@),
{
    let p = repo_path_of(input);
    let s = string_of(p.as_slice());
    if crate::config::is_repo_form(s.as_str()) {
        Ok(s)
    } else {
        let mut e = String::from_str("Invalid GitHub repository: ");
        e.append(input);
        Err(e)
    }
}

/// The local application name from the form: a repository pasted by mistake gives its
/// repository name; a blank name takes the name of the repository `repo`.
pub open spec fn app_name_of(app: Seq<char>, repo: Seq<char>) -> Seq<char> {
    let a = trim(app);
    if repo_form(repo_path(a)) {
        after_slash(repo_path(a))
    } else if a.len() == 0 && repo_form(repo_path(repo)) {
        after_slash(repo_path(repo))
    } else {
        a
    }
}

fn after_slash_of(v: &[char]) -> (r: Vec<char>)
    ensures
        r@ == after_slash(v@),
{
    let mut i: usize = 0;
    assert(v@.skip(0) == v@);
    while i < v.len() && v[i] != '/'
        invariant
            i <= v@.len(),
            after_slash(v@) == after_slash(v@.skip(i as int)),
        decreases v.len() - i,
    {
        proof {
            assert(v@.skip(i as int).drop_first() == v@.skip(i + 1));
        }
        i = i + 1;
    }
    if i == v.len() {
        assert(v@.skip(i as int).len() == 0);
        copy_range(v, i, i)
    } else {
        proof {
            assert(v@.skip(i as int).drop_first() == v@.skip(i + 1));
        }
        copy_range(v, i + 1, v.len())
    }
}

/// Cleans the application name of the form.
pub fn normalize_app_name(app: &str, repo: &str) -> (r: String)
    ensures
        r@ == app_name_of(app@, repo@),
{
    let a = trim_str(app);
    let pa = repo_path_of(a.as_str());
    let sa = string_of(pa.as_slice());
    if crate::config::is_repo_form(sa.as_str()) {
        let n = after_slash_of(pa.as_slice());
        return string_of(n.as_slice());
    }
    if a.as_str().unicode_len() == 0 {
        let pr = repo_path_of(repo);
        let sr = string_of(pr.as_slice());
        if crate::config::is_repo_form(sr.as_str()) {
            let n = after_slash_of(pr.as_slice());
            return string_of(n.as_slice());
        }
    }
    a
}

/// The state of the desktop window: the settings form, the saved profiles and the status line.
pub struct DesktopApp {
    pub language: Language,
    pub dark_mode: bool,
    pub base: String,
    pub profiles: Vec<Profile>,
    pub selected_profile: String,
    pub profile_name: String,
    pub app_name: String,
    pub repo: String,
    pub asset_pattern: String,
    pub checksum_pattern: String,
    pub install_root: String,
    pub state_root: String,
    pub github_host: String,
    pub github_token: String,
    pub skip_verification: bool,
    pub retain: usize,
    pub restart_command: String,
    pub health_check_command: String,
    pub pinned_version: String,
    pub auto_mode: String,
    pub interval_minutes: u32,
    pub channel: String,
    pub architecture: String,
    pub backup_paths: String,
    pub verify_authenticode: bool,
    pub max_disk_mb: u64,
    pub retention_days: u64,
    pub allow_downgrade: bool,
    pub notifications: bool,
    pub settings_open: bool,
    pub log_open: bool,
    pub status: String,
}

/// The repository the form stands for: the normalized repository, else the trimmed field.
pub open spec fn form_repo(repo: Seq<char>) -> Seq<char> {
    if repo_form(repo_path(trim(repo))) {
        repo_path(trim(repo))
    } else {
        trim(repo)
    }
}

/// A text, or a default when it is empty.
pub open spec fn or_default(s: Seq<char>, default: Seq<char>) -> Seq<char> {
    if s.len() == 0 {
        default
    } else {
        s
    }
}

fn or_default_exec(s: &String, default: String) -> (r: String)
    ensures
        r@ == or_default(s@, default@),
{
    if s.as_str().unicode_len() == 0 {
        default
    } else {
        s.clone()
    }
}

/// `b` is `a` with at most its status line changed.
pub open spec fn only_status(a: DesktopApp, b: DesktopApp) -> bool {
    b == (DesktopApp { status: b.status, ..a })
}

/// `b` is `a` with at most its list of profiles changed.
pub open spec fn only_profiles(a: DesktopApp, b: DesktopApp) -> bool {
    b == (DesktopApp { profiles: b.profiles, ..a })
}

impl DesktopApp {
    /// A fresh window for a portable installation in `base`, with the saved `profiles`.
    pub fn new(base: &str, profiles: Vec<Profile>) -> (app: DesktopApp)
        ensures
            app.language == Language::PtBr,
            app.profiles@ == profiles@,
            app.base@ == base@,
            app.app_name@ == "meu-app"@,
            app.repo@ == "owner/repository"@,
            app.install_root@ == joined(base@, "managed"@),
            app.state_root@ == joined(base@, ".distronomicon"@),
            app.github_host@ == "https://api.github.com"@,
            app.retain == 3,
            app.interval_minutes == 60,
            app.channel@ == "stable"@,
            app.architecture@ == "auto"@,
            app.verify_authenticode && app.notifications && app.dark_mode,
            !app.allow_downgrade && !app.skip_verification,
            !app.settings_open && !app.log_open,
            app.selected_profile@.len() == 0 && app.profile_name@.len() == 0,
            app.asset_pattern@ == "(?i).*\\.(zip|exe|tgz|tbz2|txz)$|.*\\.tar\\.(gz|bz2|xz|zst)$"@,
            app.checksum_pattern@ == "(?i)^(SHA256SUMS|checksums?(\\.txt)?|.*sha256.*)$"@,
            app.github_token@.len() == 0 && app.restart_command@.len() == 0,
            app.health_check_command@.len() == 0 && app.pinned_version@.len() == 0,
            app.backup_paths@.len() == 0,
            app.auto_mode@ == "check"@,
            app.max_disk_mb == 0 && app.retention_days == 0,
            app.status@ == "Pronto. Configure a aplicação e o repositório."@,
    {
        DesktopApp {
            language: Language::PtBr,
            dark_mode: true,
            base: String::from_str(base),
            profiles,
            selected_profile: String::new(),
            profile_name: String::new(),
            app_name: String::from_str("meu-app"),
            repo: String::from_str("owner/repository"),
            asset_pattern: String::from_str(
                "(?i).*\\.(zip|exe|tgz|tbz2|txz)$|.*\\.tar\\.(gz|bz2|xz|zst)$",
            ),
            checksum_pattern: String::from_str("(?i)^(SHA256SUMS|checksums?(\\.txt)?|.*sha256.*)$"),
            install_root: join(base, "managed"),
            state_root: join(base, ".distronomicon"),
            github_host: String::from_str("https://api.github.com"),
            github_token: String::new(),
            skip_verification: false,
            retain: 3,
            restart_command: String::new(),
            health_check_command: String::new(),
            pinned_version: String::new(),
            auto_mode: String::from_str("check"),
            interval_minutes: 60,
            channel: String::from_str("stable"),
            architecture: String::from_str("auto"),
            backup_paths: String::new(),
            verify_authenticode: true,
            max_disk_mb: 0,
            retention_days: 0,
            allow_downgrade: false,
            notifications: true,
            settings_open: false,
            log_open: false,
            status: String::from_str("Pronto. Configure a aplicação e o repositório."),
        }
    }

        /// `c` holds the settings this form describes.
    pub open spec fn describes(&self, c: Config) -> bool {
        &&& c.language == self.language
        &&& c.repo@ == form_repo(self.repo@)
        &&& c.app_name@ == app_name_of(self.app_name@, form_repo(self.repo@))
        &&& c.asset_pattern@ == trim(self.asset_pattern@)
        &&& c.checksum_pattern@ == trim(self.checksum_pattern@)
        &&& c.install_root@ == trim(self.install_root@)
        &&& c.state_root@ == trim(self.state_root@)
        &&& c.github_host@ == trim(self.github_host@)
        &&& c.github_token@ == self.github_token@
        &&& c.allow_prerelease == (self.channel@ != "stable"@)
        &&& c.skip_verification == self.skip_verification
        &&& c.retain == self.retain
        &&& c.restart_command@ == trim(self.restart_command@)
        &&& c.health_check_command@ == trim(self.health_check_command@)
        &&& c.pinned_version@ == trim(self.pinned_version@)
        &&& c.channel@ == self.channel@
        &&& c.architecture@ == self.architecture@
        &&& c.backup_paths@ == self.backup_paths@
        &&& c.verify_authenticode == self.verify_authenticode
        &&& c.max_disk_mb == self.max_disk_mb
        &&& c.retention_days == self.retention_days
        &&& c.allow_downgrade == self.allow_downgrade
        &&& c.notifications == self.notifications
    }

    /// The error that keeps the form's settings from serving `action`, if any.
    pub open spec fn form_error(&self, action: Action) -> Option<Seq<char>> {
        crate::config::settings_error(
            self.language,
            app_name_of(self.app_name@, form_repo(self.repo@)),
            form_repo(self.repo@),
            trim(self.github_host@),
            trim(self.checksum_pattern@),
            self.skip_verification,
            action,
        )
    }

    /// The settings the form describes, with trimmed fields, the normalized repository and
    /// application name, and prereleases allowed on every channel but `stable`.
    pub fn config(&self) -> (c: Config)
        ensures
            self.describes(c),
    {
        let repo_input = trim_str(self.repo.as_str());
        let repo = match normalize_repo(repo_input.as_str()) {
            Ok(r) => r,
            Err(_) => repo_input,
        };
        Config {
            language: self.language,
            app_name: normalize_app_name(self.app_name.as_str(), repo.as_str()),
            repo,
            asset_pattern: trim_str(self.asset_pattern.as_str()),
            checksum_pattern: trim_str(self.checksum_pattern.as_str()),
            install_root: trim_str(self.install_root.as_str()),
            state_root: trim_str(self.state_root.as_str()),
            github_host: trim_str(self.github_host.as_str()),
            github_token: self.github_token.clone(),
            allow_prerelease: !crate::text::same_text(self.channel.as_str(), "stable"),
            skip_verification: self.skip_verification,
            retain: self.retain,
            restart_command: trim_str(self.restart_command.as_str()),
            health_check_command: trim_str(self.health_check_command.as_str()),
            pinned_version: trim_str(self.pinned_version.as_str()),
            channel: self.channel.clone(),
            architecture: self.architecture.clone(),
            backup_paths: self.backup_paths.clone(),
            verify_authenticode: self.verify_authenticode,
            max_disk_mb: self.max_disk_mb,
            retention_days: self.retention_days,
            allow_downgrade: self.allow_downgrade,
            notifications: self.notifications,
        }
    }

    /// `p` is the profile this form describes.
    pub open spec fn profile_of(&self, p: Profile) -> bool {
        &&& p.name@ == trim(self.profile_name@)
        &&& p.app_name@ == app_name_of(self.app_name@, self.repo@)
        &&& p.repo@ == trim(self.repo@)
        &&& p.asset_pattern@ == self.asset_pattern@
        &&& p.checksum_pattern@ == self.checksum_pattern@
        &&& p.install_root@ == self.install_root@
        &&& p.state_root@ == self.state_root@
        &&& p.github_host@ == self.github_host@
        &&& p.allow_prerelease == (self.channel@ != "stable"@)
        &&& p.skip_verification == self.skip_verification
        &&& p.retain == self.retain
        &&& p.restart_command@ == self.restart_command@
        &&& p.health_check_command@ == self.health_check_command@
        &&& p.pinned_version@ == self.pinned_version@
        &&& p.auto_mode@ == self.auto_mode@
        &&& p.interval_minutes == self.interval_minutes
        &&& p.channel@ == self.channel@
        &&& p.architecture@ == self.architecture@
        &&& p.backup_paths@ == self.backup_paths@
        &&& p.verify_authenticode == self.verify_authenticode
        &&& p.max_disk_mb == self.max_disk_mb
        &&& p.retention_days == self.retention_days
        &&& p.allow_downgrade == self.allow_downgrade
        &&& p.notifications == self.notifications
    }

    /// The profile the form describes.
    pub fn profile(&self) -> (p: Profile)
        ensures
            self.profile_of(p),
    {
        Profile {
            name: trim_str(self.profile_name.as_str()),
            app_name: normalize_app_name(self.app_name.as_str(), self.repo.as_str()),
            repo: trim_str(self.repo.as_str()),
            asset_pattern: self.asset_pattern.clone(),
            checksum_pattern: self.checksum_pattern.clone(),
            install_root: self.install_root.clone(),
            state_root: self.state_root.clone(),
            github_host: self.github_host.clone(),
            allow_prerelease: !crate::text::same_text(self.channel.as_str(), "stable"),
            skip_verification: self.skip_verification,
            retain: self.retain,
            restart_command: self.restart_command.clone(),
            health_check_command: self.health_check_command.clone(),
            pinned_version: self.pinned_version.clone(),
            auto_mode: self.auto_mode.clone(),
            interval_minutes: self.interval_minutes,
            channel: self.channel.clone(),
            architecture: self.architecture.clone(),
            backup_paths: self.backup_paths.clone(),
            verify_authenticode: self.verify_authenticode,
            max_disk_mb: self.max_disk_mb,
            retention_days: self.retention_days,
            allow_downgrade: self.allow_downgrade,
            notifications: self.notifications,
        }
    }

    /// Fills the form from a saved profile; empty folders, host, mode and architecture take
    /// their defaults, the interval is at least one minute, and the channel is the profile's
    /// effective channel.
    pub fn apply_profile(&mut self, p: &Profile)
        ensures
            final(self).profile_name@ == p.name@,
            final(self).app_name@ == p.app_name@,
            final(self).repo@ == p.repo@,
            final(self).asset_pattern@ == p.asset_pattern@,
            final(self).checksum_pattern@ == p.checksum_pattern@,
            final(self).install_root@ == or_default(p.install_root@, joined(old(self).base@, "managed"@)),
            final(self).state_root@ == or_default(
                p.state_root@,
                joined(old(self).base@, ".distronomicon"@),
            ),
            final(self).github_host@ == or_default(p.github_host@, "https://api.github.com"@),
            final(self).skip_verification == p.skip_verification,
            final(self).retain == p.retain,
            final(self).restart_command@ == p.restart_command@,
            final(self).health_check_command@ == p.health_check_command@,
            final(self).pinned_version@ == p.pinned_version@,
            final(self).auto_mode@ == or_default(p.auto_mode@, "check"@),
            final(self).interval_minutes == (if p.interval_minutes < 1 {
                1
            } else {
                p.interval_minutes
            }),
            final(self).channel@ == effective_channel_of(p.allow_prerelease, p.channel@),
            final(self).architecture@ == or_default(p.architecture@, "auto"@),
            final(self).backup_paths@ == p.backup_paths@,
            final(self).verify_authenticode == p.verify_authenticode,
            final(self).max_disk_mb == p.max_disk_mb,
            final(self).retention_days == p.retention_days,
            final(self).allow_downgrade == p.allow_downgrade,
            final(self).notifications == p.notifications,
            *final(self) == (DesktopApp {
                profile_name: final(self).profile_name,
                app_name: final(self).app_name,
                repo: final(self).repo,
                asset_pattern: final(self).asset_pattern,
                checksum_pattern: final(self).checksum_pattern,
                install_root: final(self).install_root,
                state_root: final(self).state_root,
                github_host: final(self).github_host,
                skip_verification: final(self).skip_verification,
                retain: final(self).retain,
                restart_command: final(self).restart_command,
                health_check_command: final(self).health_check_command,
                pinned_version: final(self).pinned_version,
                auto_mode: final(self).auto_mode,
                interval_minutes: final(self).interval_minutes,
                channel: final(self).channel,
                architecture: final(self).architecture,
                backup_paths: final(self).backup_paths,
                verify_authenticode: final(self).verify_authenticode,
                max_disk_mb: final(self).max_disk_mb,
                retention_days: final(self).retention_days,
                allow_downgrade: final(self).allow_downgrade,
                notifications: final(self).notifications,
                ..*old(self)
            }),
    {
        self.profile_name = p.name.clone();
        self.app_name = p.app_name.clone();
        self.repo = p.repo.clone();
        self.asset_pattern = p.asset_pattern.clone();
        self.checksum_pattern = p.checksum_pattern.clone();
        self.install_root = or_default_exec(&p.install_root, join(self.base.as_str(), "managed"));
        self.state_root = or_default_exec(&p.state_root, join(self.base.as_str(), ".distronomicon"));
        self.github_host = or_default_exec(&p.github_host, String::from_str("https://api.github.com"));
        self.skip_verification = p.skip_verification;
        self.retain = p.retain;
        self.restart_command = p.restart_command.clone();
        self.health_check_command = p.health_check_command.clone();
        self.pinned_version = p.pinned_version.clone();
        self.auto_mode = or_default_exec(&p.auto_mode, String::from_str("check"));
        self.interval_minutes = if p.interval_minutes < 1 {
            1
        } else {
            p.interval_minutes
        };
        self.channel = p.effective_channel();
        self.architecture = or_default_exec(&p.architecture, String::from_str("auto"));
        self.backup_paths = p.backup_paths.clone();
        self.verify_authenticode = p.verify_authenticode;
        self.max_disk_mb = p.max_disk_mb;
        self.retention_days = p.retention_days;
        self.allow_downgrade = p.allow_downgrade;
        self.notifications = p.notifications;
    }

    /// Replaces the status line.
    pub fn set_status(&mut self, text: &str)
        ensures
            final(self).status@ == text@,
            only_status(*old(self), *final(self)),
    {
        self.status = String::from_str(text);
    }

    /// Saves the form as a profile into the list; the list is then to be written out (the
    /// profile is returned for [`DesktopApp::profile_saved`]). A blank profile name only asks
    /// for a name.
    pub fn save_profile(&mut self) -> (r: Option<Profile>)
        ensures
            trim(old(self).profile_name@).len() == 0 ==> r is None && only_status(*old(self), *final(self))
                && final(self).status@ == in_language(
                old(self).language,
                "Informe um nome para o perfil."@,
                "Enter a profile name."@,
            ),
            trim(old(self).profile_name@).len() > 0 ==> (r matches Some(p) && p.name@ == trim(
                old(self).profile_name@,
            ) && old(self).profile_of(p) && final(self).profiles@ == upserted(old(self).profiles@, p)
                && only_profiles(*old(self), *final(self))),
    {
        let name = trim_str(self.profile_name.as_str());
        if name.as_str().unicode_len() == 0 {
            let l = self.language;
            self.set_status(tr(l, "Informe um nome para o perfil.", "Enter a profile name."));
            return None;
        }
        let p = self.profile();
        let copy = p.duplicate();
        upsert(&mut self.profiles, copy);
        Some(p)
    }

    /// Reports the outcome of writing the profiles after [`DesktopApp::save_profile`]: on
    /// success the saved profile becomes the selected one.
    pub fn profile_saved(&mut self, saved: Profile, written: Result<(), String>)
        ensures
            written is Ok ==> final(self).selected_profile@ == saved.name@ && final(self).app_name@
                == saved.app_name@ && final(self).status@ == in_language(
                old(self).language,
                "Perfil salvo."@,
                "Profile saved."@,
            ),
            written matches Err(e) ==> final(self).status@ == in_language(
                old(self).language,
                "Erro ao salvar perfil"@,
                "Failed to save profile"@,
            ) + ": "@ + e@,
            written is Ok ==> *final(self) == (DesktopApp {
                selected_profile: final(self).selected_profile,
                app_name: final(self).app_name,
                status: final(self).status,
                ..*old(self)
            }),
            written is Err ==> only_status(*old(self), *final(self)),
    {
        let l = self.language;
        match written {
            Ok(()) => {
                self.selected_profile = saved.name;
                self.app_name = saved.app_name;
                self.status = String::from_str(tr(l, "Perfil salvo.", "Profile saved."));
            },
            Err(e) => {
                let mut m = String::from_str(tr(l, "Erro ao salvar perfil", "Failed to save profile"));
                m.append(": ");
                m.append(e.as_str());
                self.status = m;
            },
        }
    }

    /// Removes the selected profile (or, with none selected, the one named in the form); the
    /// list is then to be written out.
    pub fn delete_profile(&mut self)
        ensures
            final(self).profiles@ == without_name(
                old(self).profiles@,
                if old(self).selected_profile@.len() == 0 {
                    old(self).profile_name@
                } else {
                    old(self).selected_profile@
                },
            ),
            only_profiles(*old(self), *final(self)),
    {
        let name = if self.selected_profile.as_str().unicode_len() == 0 {
            self.profile_name.clone()
        } else {
            self.selected_profile.clone()
        };
        remove(&mut self.profiles, name.as_str());
    }

    /// Reports the outcome of writing the profiles after [`DesktopApp::delete_profile`].
    pub fn profile_deleted(&mut self, written: Result<(), String>)
        ensures
            written is Ok ==> final(self).selected_profile@.len() == 0 && final(self).status@
                == in_language(old(self).language, "Perfil removido."@, "Profile removed."@),
            written matches Err(e) ==> final(self).status@ == in_language(
                old(self).language,
                "Erro ao remover perfil"@,
                "Failed to delete profile"@,
            ) + ": "@ + e@,
            written is Ok ==> *final(self) == (DesktopApp {
                selected_profile: final(self).selected_profile,
                status: final(self).status,
                ..*old(self)
            }),
            written is Err ==> only_status(*old(self), *final(self)),
    {
        let l = self.language;
        match written {
            Ok(()) => {
                self.selected_profile = String::new();
                self.set_status(tr(l, "Perfil removido.", "Profile removed."));
            },
            Err(e) => {
                let mut m = String::from_str(tr(l, "Erro ao remover perfil", "Failed to delete profile"));
                m.append(": ");
                m.append(e.as_str());
                self.status = m;
            },
        }
    }

    fn report(&mut self, pt: &'static str, en: &'static str, detail: &str)
        ensures
            final(self).status@ == in_language(old(self).language, pt@, en@) + ": "@ + detail@,
            only_status(*old(self), *final(self)),
    {
        let mut m = String::from_str(tr(self.language, pt, en));
        m.append(": ");
        m.append(detail);
        self.status = m;
    }

    /// Reports the outcome of exporting the profiles (to the given file).
    pub fn export_profiles(&mut self, exported: Result<String, String>)
        ensures
            exported matches Ok(p) ==> final(self).status@ == in_language(
                old(self).language,
                "Perfis exportados"@,
                "Profiles exported"@,
            ) + ": "@ + p@,
            exported matches Err(e) ==> final(self).status@ == in_language(
                old(self).language,
                "Falha ao exportar perfis"@,
                "Failed to export profiles"@,
            ) + ": "@ + e@,
            only_status(*old(self), *final(self)),
    {
        match exported {
            Ok(p) => self.report("Perfis exportados", "Profiles exported", p.as_str()),
            Err(e) => self.report("Falha ao exportar perfis", "Failed to export profiles", e.as_str()),
        }
    }

    /// Merges imported profiles into the list, each as a save; answers whether the list is to
    /// be written out (reading the import failed otherwise, which the status reports).
    pub fn import_profiles(&mut self, imported: Result<Vec<Profile>, String>) -> (r: bool)
        ensures
            imported matches Err(e) ==> !r && only_status(*old(self), *final(self))
                && final(self).status@ == in_language(
                old(self).language,
                "Falha ao importar perfis"@,
                "Failed to import profiles"@,
            ) + ": "@ + e@,
            imported matches Ok(v) ==> r && final(self).profiles@ == v@.fold_left(
                old(self).profiles@,
                |acc: Seq<Profile>, p: Profile| upserted(acc, p),
            ) && only_profiles(*old(self), *final(self)),
    {
        match imported {
            Err(e) => {
                self.report("Falha ao importar perfis", "Failed to import profiles", e.as_str());
                false
            },
            Ok(v) => {
                let ghost start = self.profiles@;
                let ghost pre = *self;
                let ghost all = v@;
                let mut rest = v;
                let total: usize = rest.len();
                let mut done: usize = 0;
                assert(all.skip(0) == all);
                assert(all.take(0).fold_left(start, |acc: Seq<Profile>, p: Profile| upserted(acc, p))
                    == start);
                while rest.len() > 0
                    invariant
                        done <= all.len(),
                        all.len() == total,
                        only_profiles(pre, *self),
                        rest@ == all.skip(done as int),
                        self.profiles@ == all.take(done as int).fold_left(
                            start,
                            |acc: Seq<Profile>, p: Profile| upserted(acc, p),
                        ),
                    decreases rest@.len(),
                {
                    let p = rest.remove(0);
                    proof {
                        assert(all.take(done + 1).drop_last() == all.take(done as int));
                        assert(all.take(done + 1).last() == p);
                        assert(all.skip(done as int).drop_first() == all.skip(done + 1));
                    }
                    upsert(&mut self.profiles, p);
                    done = done + 1;
                }
                assert(all.take(done as int) == all);
                true
            },
        }
    }

    /// Reports the outcome of writing the profiles after [`DesktopApp::import_profiles`].
    pub fn profiles_imported(&mut self, written: Result<(), String>)
        ensures
            written is Ok ==> final(self).status@ == in_language(
                old(self).language,
                "Perfis importados com sucesso."@,
                "Profiles imported successfully."@,
            ),
            written matches Err(e) ==> final(self).status@ == in_language(
                old(self).language,
                "Falha ao salvar perfis importados"@,
                "Failed to save imported profiles"@,
            ) + ": "@ + e@,
            only_status(*old(self), *final(self)),
    {
        match written {
            Ok(()) => {
                let l = self.language;
                self.set_status(tr(l, "Perfis importados com sucesso.",
                    "Profiles imported successfully."));
            },
            Err(e) => self.report("Falha ao salvar perfis importados",
                "Failed to save imported profiles", e.as_str()),
        }
    }

    /// Whether a task can be scheduled: the profile must have a name; otherwise the status
    /// asks to save it first.
    pub fn schedule(&mut self) -> (r: bool)
        ensures
            r == (trim(old(self).profile_name@).len() > 0),
            !r ==> final(self).status@ == in_language(
                old(self).language,
                "Salve o perfil antes de agendar."@,
                "Save the profile before scheduling."@,
            ),
            r ==> *final(self) == *old(self),
            !r ==> only_status(*old(self), *final(self)),
    {
        let name = trim_str(self.profile_name.as_str());
        if name.as_str().unicode_len() == 0 {
            let l = self.language;
            self.set_status(tr(l, "Salve o perfil antes de agendar.",
                "Save the profile before scheduling."));
            false
        } else {
            true
        }
    }

    /// Reports the outcome of creating the scheduled task.
    pub fn scheduled(&mut self, created: Result<(), String>)
        ensures
            created is Ok ==> final(self).status@ == in_language(
                old(self).language,
                "Automação do Windows ativada."@,
                "Windows automation enabled."@,
            ),
            created matches Err(e) ==> final(self).status@ == in_language(
                old(self).language,
                "Falha ao criar agendamento"@,
                "Failed to create schedule"@,
            ) + ": "@ + e@,
            only_status(*old(self), *final(self)),
    {
        match created {
            Ok(()) => {
                let l = self.language;
                self.set_status(tr(l, "Automação do Windows ativada.", "Windows automation enabled."));
            },
            Err(e) => self.report("Falha ao criar agendamento", "Failed to create schedule", e.as_str()),
        }
    }

    /// Reports the outcome of removing the scheduled task.
    pub fn unschedule(&mut self, removed: Result<(), String>)
        ensures
            removed is Ok ==> final(self).status@ == in_language(
                old(self).language,
                "Automação removida."@,
                "Automation removed."@,
            ),
            removed matches Err(e) ==> final(self).status@ == in_language(
                old(self).language,
                "Falha ao remover agendamento"@,
                "Failed to remove schedule"@,
            ) + ": "@ + e@,
            only_status(*old(self), *final(self)),
    {
        match removed {
            Ok(()) => {
                let l = self.language;
                self.set_status(tr(l, "Automação removida.", "Automation removed."));
            },
            Err(e) => self.report("Falha ao remover agendamento", "Failed to remove schedule",
                e.as_str()),
        }
    }

    /// Reports a failure to open the active release folder (success leaves the status).
    pub fn open_current_folder(&mut self, opened: Result<(), String>)
        ensures
            opened is Ok ==> *final(self) == *old(self),
            opened matches Err(e) ==> final(self).status@ == in_language(
                old(self).language,
                "Não foi possível abrir a pasta"@,
                "Could not open folder"@,
            ) + ": "@ + e@,
            only_status(*old(self), *final(self)),
    {
        match opened {
            Ok(()) => {},
            Err(e) => self.report("Não foi possível abrir a pasta", "Could not open folder",
                e.as_str()),
        }
    }

    /// The releases page of the form's repository, when the repository is valid.
    pub fn open_release_page(&self) -> (r: Result<String, String>)
        ensures
            repo_form(repo_path(form_repo(self.repo@))) ==> (r matches Ok(u) && u@
                == "https://github.com/"@ + repo_path(form_repo(self.repo@)) + "/releases"@),
            !repo_form(repo_path(form_repo(self.repo@))) ==> (r matches Err(e) && e@
                == "Invalid GitHub repository: "@ + form_repo(self.repo@)),
    {
        let c = self.config();
        match normalize_repo(c.repo.as_str()) {
            Ok(repo) => {
                let mut u = String::from_str("https://github.com/");
                u.append(repo.as_str());
                u.append("/releases");
                Ok(u)
            },
            Err(e) => Err(e),
        }
    }

    /// Reports a failure to open the releases page (success leaves the status).
    pub fn release_page_opened(&mut self, opened: Result<(), String>)
        ensures
            opened is Ok ==> *final(self) == *old(self),
            opened matches Err(e) ==> final(self).status@ == in_language(
                old(self).language,
                "Não foi possível abrir a página"@,
                "Could not open page"@,
            ) + ": "@ + e@,
            only_status(*old(self), *final(self)),
    {
        match opened {
            Ok(()) => {},
            Err(e) => self.report("Não foi possível abrir a página", "Could not open page",
                e.as_str()),
        }
    }

    /// The status shown when an action ends: its message, or the error after `Erro`/`Error`.
    pub fn finish_action(&mut self, result: Result<String, String>)
        ensures
            final(self).status@ == outcome_of(old(self).language, result),
            only_status(*old(self), *final(self)),
    {
        self.status = outcome_text(self.language, result);
    }

    /// Corrects the application field when a repository was pasted into it: it then holds the
    /// repository's name.
    pub fn correct_app_name(&mut self)
        ensures
            repo_form(repo_path(old(self).app_name@)) ==> final(self).app_name@ == app_name_of(
                old(self).app_name@,
                old(self).repo@,
            ),
            *final(self) == (DesktopApp { app_name: final(self).app_name, ..*old(self) }),
            !repo_form(repo_path(old(self).app_name@)) ==> *final(self) == *old(self),
    {
        if normalize_repo(self.app_name.as_str()).is_ok() {
            self.app_name = normalize_app_name(self.app_name.as_str(), self.repo.as_str());
        }
    }

    /// The settings an action is to run with: refused, with the reason in the status, when they
    /// do not suit the action (the self-update and the recovery run with any settings).
    pub fn prepare_action(&mut self, action: Action) -> (r: Option<Config>)
        ensures
            (action == Action::SelfUpdate || action == Action::Recovery) ==> (r matches Some(c)
                && old(self).describes(c)),
            !(action == Action::SelfUpdate || action == Action::Recovery) ==> match old(
                self,
            ).form_error(action) {
                None => r matches Some(c) && old(self).describes(c),
                Some(m) => r is None && final(self).status@ == m,
            },
            only_status(*old(self), *final(self)),
            r is Some ==> *final(self) == *old(self),
    {
        let c = self.config();
        if action == Action::SelfUpdate || action == Action::Recovery {
            return Some(c);
        }
        match validate(&c, action) {
            Ok(()) => Some(c),
            Err(m) => {
                self.status = m;
                None
            },
        }
    }
}

/// The status text of a finished action: its message, or the error after `Erro`/`Error`.
pub open spec fn outcome_of(language: Language, result: Result<String, String>) -> Seq<char> {
    match result {
        Ok(m) => m@,
        Err(e) => in_language(language, "Erro"@, "Error"@) + ": "@ + e@,
    }
}

/// The status text of a finished action.
pub fn outcome_text(language: Language, result: Result<String, String>) -> (r: String)
    ensures
        r@ == outcome_of(language, result),
{
    match result {
        Ok(m) => m,
        Err(e) => {
            let mut m = String::from_str(tr(language, "Erro", "Error"));
            m.append(": ");
            m.append(e.as_str());
            m
        },
    }
}

} // verus!
