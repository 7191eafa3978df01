//! Interface language, user actions and the settings of one managed application.
use vstd::prelude::*;
use crate::text::{chars_of, has_infix, trim, trim_str};
use vstd::string::StringExecFns;

verus! {

/// Language of the messages shown to the user.
#[derive(Clone, Copy, PartialEq, Eq, Structural, Debug)]
pub enum Language {
    PtBr,
    En,
}

impl Language {
    /// Short label of the language, as shown in the language selector.
    pub fn label(self) -> (r: &'static str)
        ensures
            r@ == (match self {
                Language::PtBr => "PT-BR"@,
                Language::En => "EN"@,
            }),
    {
        match self {
            Language::PtBr => "PT-BR",
            Language::En => "EN",
        }
    }
}

/// The text of the given language.
pub open spec fn in_language(language: Language, pt: Seq<char>, en: Seq<char>) -> Seq<char> {
    match language {
        Language::PtBr => pt,
        Language::En => en,
    }
}

/// Picks the text of the given language.
pub fn tr(language: Language, pt: &'static str, en: &'static str) -> (r: &'static str)
    ensures
        r@ == (match language {
            Language::PtBr => pt@,
            Language::En => en@,
        }),
{
    match language {
        Language::PtBr => pt,
        Language::En => en,
    }
}

/// What the user asked the program to do.
#[derive(Clone, Copy, PartialEq, Eq, Structural, Debug)]
pub enum Action {
    Check,
    Update,
    DryRun,
    Version,
    Rollback,
    Doctor,
    History,
    Unlock,
    SelfUpdate,
    ReleaseNotes,
    Recovery,
}

/// Everything needed to manage one application from one GitHub repository.
pub struct Config {
    pub language: Language,
    pub app_name: String,
    pub repo: String,
    pub asset_pattern: String,
    pub checksum_pattern: String,
    pub install_root: String,
    pub state_root: String,
    pub github_host: String,
    pub github_token: String,
    pub allow_prerelease: bool,
    pub skip_verification: bool,
    pub retain: usize,
    pub restart_command: String,
    pub health_check_command: String,
    pub pinned_version: String,
    pub channel: String,
    pub architecture: String,
    pub backup_paths: String,
    pub verify_authenticode: bool,
    pub max_disk_mb: u64,
    pub retention_days: u64,
    pub allow_downgrade: bool,
    pub notifications: bool,
}

/// An application name that could leave its own folder or that is empty.
pub open spec fn bad_app_name(app: Seq<char>) -> bool {
    app.len() == 0 || app.contains('/') || app.contains('\\') || has_infix(app, ".."@)
        || app.contains('\0')
}

/// Number of `/` characters.
pub open spec fn slash_count(s: Seq<char>) -> nat
    decreases s.len(),
{
    if s.len() == 0 {
        0
    } else {
        slash_count(s.drop_last()) + if s.last() == '/' {
            1nat
        } else {
            0
        }
    }
}

/// `owner/repository`: exactly one `/`, with text on both sides.
pub open spec fn repo_form(repo: Seq<char>) -> bool {
    slash_count(repo) == 1 && repo.len() > 0 && repo[0] != '/' && repo.last() != '/'
}

fn has_char(v: &[char], c: char) -> (r: bool)
    ensures
        r == v@.contains(c),
{
    let mut i: usize = 0;
    while i < v.len()
        invariant
            i <= v@.len(),
            forall|j: int| 0 <= j < i ==> v@[j] != c,
        decreases v.len() - i,
    {
        if v[i] == c {
            return true;
        }
        i = i + 1;
    }
    false
}

pub fn is_repo_form(repo: &str) -> (r: bool)
    ensures
        r == repo_form(repo@),
{
    let v = chars_of(repo);
    let mut count: usize = 0;
    let mut i: usize = 0;
    while i < v.len()
        invariant
            i <= v@.len(),
            count == slash_count(v@.take(i as int)),
            count <= i,
        decreases v.len() - i,
    {
        proof {
            assert(v@.take(i + 1).drop_last() == v@.take(i as int));
        }
        if v[i] == '/' {
            count = count + 1;
        }
        i = i + 1;
    }
    assert(v@.take(v@.len() as int) == v@);
    count == 1 && v.len() > 0 && v[0] != '/' && v[v.len() - 1] != '/'
}

/// The error message of settings unfit for `action`, if any, from the values that matter.
pub open spec fn settings_error(
    l: Language,
    app_name: Seq<char>,
    repo: Seq<char>,
    github_host: Seq<char>,
    checksum_pattern: Seq<char>,
    skip_verification: bool,
    action: Action,
) -> Option<Seq<char>> {
    if bad_app_name(app_name) {
        Some(in_language(l, "Nome da aplicação inválido. Não use /, \\, .. ou caracteres nulos."@,
            "Invalid application name. Do not use /, \\, .., or null characters."@))
    } else if (action == Action::Check || action == Action::Update) && !repo_form(repo) {
        Some(in_language(l, "Use o repositório no formato owner/repository."@,
            "Use the repository format owner/repository."@))
    } else if (action == Action::Check || action == Action::Update) && github_host.len() == 0 {
        Some(in_language(l, "Informe o host da API do GitHub."@, "Enter the GitHub API host."@))
    } else if action == Action::Update && !skip_verification && checksum_pattern.len() == 0 {
        Some(in_language(l, "Informe o padrão do checksum ou habilite 'Pular verificação'."@,
            "Enter a checksum pattern or enable 'Skip verification'."@))
    } else {
        None
    }
}

/// The error message of an invalid configuration for `action`, if any.
pub open spec fn validation_error(config: Config, action: Action) -> Option<Seq<char>> {
    settings_error(
        config.language,
        config.app_name@,
        config.repo@,
        config.github_host@,
        config.checksum_pattern@,
        config.skip_verification,
        action,
    )
}

/// Checks that `config` can serve `action`: a safe application name always; for checks and
/// updates an `owner/repository` repository and an API host; for updates a checksum pattern
/// unless verification is skipped.
pub fn validate(config: &Config, action: Action) -> (r: Result<(), String>)
    ensures
        match validation_error(*config, action) {
            None => r is Ok,
            Some(m) => r matches Err(e) && e@ == m,
        },
{
    let app = chars_of(config.app_name.as_str());
    if app.len() == 0 || has_char(app.as_slice(), '/') || has_char(app.as_slice(), '\\')
        || crate::text::contains(app.as_slice(), "..") || has_char(app.as_slice(), '\0') {
        return Err(String::from_str(tr(config.language,
            "Nome da aplicação inválido. Não use /, \\, .. ou caracteres nulos.",
            "Invalid application name. Do not use /, \\, .., or null characters.")));
    }
    if action == Action::Check || action == Action::Update {
        if !is_repo_form(config.repo.as_str()) {
            return Err(String::from_str(tr(config.language,
                "Use o repositório no formato owner/repository.",
                "Use the repository format owner/repository.")));
        }
        if config.github_host.as_str().unicode_len() == 0 {
            return Err(String::from_str(tr(config.language, "Informe o host da API do GitHub.",
                "Enter the GitHub API host.")));
        }
    }
    if action == Action::Update && !config.skip_verification
        && config.checksum_pattern.as_str().unicode_len() == 0 {
        return Err(String::from_str(tr(config.language,
            "Informe o padrão do checksum ou habilite 'Pular verificação'.",
            "Enter a checksum pattern or enable 'Skip verification'.")));
    }
    Ok(())
}

/// The GitHub token to send: the trimmed token, unless it is blank.
pub fn token(config: &Config) -> (r: Option<String>)
    ensures
        if trim(config.github_token@).len() == 0 {
            r is None
        } else {
            r matches Some(t) && t@ == trim(config.github_token@)
        },
{
    let t = trim_str(config.github_token.as_str());
    if t.as_str().unicode_len() == 0 {
        None
    } else {
        Some(t)
    }
}

} // verus!
