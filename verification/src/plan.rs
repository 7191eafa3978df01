//! The update plan: which release and assets an update would install, and its previews.
use vstd::prelude::*;
use crate::assets::{
    describe, effective_arch, is_best, is_first_match, pattern_compiles, pattern_matches, regex_error,
    select_asset, select_for_arch, some_match, AssetError,
};
use crate::config::{in_language, tr, Config, Language};
use crate::release::{Asset, FetchResult, Release, Validators};
use crate::state::State;
use crate::text::{join_strings, join_with, trim, trim_str, views};
use vstd::string::StringExecFns;

verus! {

/// What an update would do.
pub struct UpdatePlan {
    /// The active tag, if any.
    pub current: Option<String>,
    /// The release to install.
    pub release: Release,
    /// Its asset to download.
    pub asset: Asset,
    /// The checksum file to verify it with, unless verification is skipped.
    pub checksum: Option<Asset>,
    /// The cache validators of the lookup.
    pub validators: Validators,
}

/// The active tag: the one in `current.txt`, else the one the saved state names.
pub open spec fn resolved_current(tag: Option<String>, existing: Option<State>) -> Option<Seq<char>> {
    match tag {
        Some(t) => Some(t@),
        None => match existing {
            Some(s) => if s.latest_tag@.len() > 0 {
                Some(s.latest_tag@)
            } else {
                None
            },
            None => None,
        },
    }
}

pub open spec fn view_opt(o: Option<String>) -> Option<Seq<char>> {
    match o {
        Some(s) => Some(s@),
        None => None,
    }
}

/// Whether the release's assets allow a plan under `config`.
pub open spec fn assets_selectable(config: Config, assets: Seq<Asset>) -> bool {
    &&& pattern_compiles(config.asset_pattern@)
    &&& some_match(assets, config.asset_pattern@)
    &&& config.skip_verification || (pattern_compiles(config.checksum_pattern@) && some_match(
        assets,
        config.checksum_pattern@,
    ))
}

fn resolve_current(tag: Option<String>, existing: &Option<State>) -> (r: Option<String>)
    ensures
        view_opt(r) == resolved_current(tag, *existing),
{
    match tag {
        Some(t) => Some(t),
        None => match existing {
            Some(s) => if s.latest_tag.as_str().unicode_len() > 0 {
                Some(s.latest_tag.clone())
            } else {
                None
            },
            None => None,
        },
    }
}

/// Builds the plan from the release lookup `fetched`: the release must be there, the asset is
/// chosen by pattern and architecture (`auto` being `target_arch`), the checksum file by its
/// pattern unless verification is skipped, and the active tag comes from `current_tag` (the
/// reading of `current.txt`) or else the saved state.
pub fn build(
    config: &Config,
    fetched: FetchResult,
    current_tag: Result<Option<String>, String>,
    existing: &Option<State>,
    target_arch: &str,
) -> (r: Result<UpdatePlan, String>)
    ensures
        match fetched.release {
            None => r matches Err(e) && e@ == in_language(
                config.language,
                "Nenhuma release disponível."@,
                "No release available."@,
            ),
            Some(rel) => {
                &&& r is Ok <==> (assets_selectable(*config, rel.assets@) && current_tag is Ok)
                &&& regex_error(config.asset_pattern@) matches Some(m) ==> (r matches Err(e) && e@
                    == "Invalid asset pattern: "@ + m)
                &&& pattern_compiles(config.asset_pattern@) && some_match(
                    rel.assets@,
                    config.asset_pattern@,
                ) && !config.skip_verification && !pattern_compiles(config.checksum_pattern@) ==> (
                r matches Err(e) && e@ == "Invalid asset pattern: "@ + regex_error(
                    config.checksum_pattern@,
                )->Some_0)
                &&& pattern_compiles(config.asset_pattern@) && !some_match(
                    rel.assets@,
                    config.asset_pattern@,
                ) ==> (r matches Err(e) && e@ == "No release asset matches pattern: "@
                    + config.asset_pattern@)
                &&& pattern_compiles(config.asset_pattern@) && some_match(
                    rel.assets@,
                    config.asset_pattern@,
                ) && !config.skip_verification && pattern_compiles(config.checksum_pattern@)
                    && !some_match(rel.assets@, config.checksum_pattern@) ==> (r matches Err(e)
                    && e@ == "No release asset matches pattern: "@ + config.checksum_pattern@)
                &&& assets_selectable(*config, rel.assets@) && current_tag is Err ==> r
                    == Err::<UpdatePlan, String>(current_tag->Err_0)
                &&& r matches Ok(plan) ==> {
                    &&& plan.release == rel
                    &&& plan.validators == fetched.validators
                    &&& exists|i: int|
                        is_best(
                            rel.assets@,
                            config.asset_pattern@,
                            effective_arch(config.architecture@, target_arch@),
                            i,
                        ) && plan.asset == rel.assets@[i]
                    &&& config.skip_verification ==> plan.checksum is None
                    &&& !config.skip_verification ==> (plan.checksum matches Some(c) && exists|
                        i: int,
                    | is_first_match(rel.assets@, config.checksum_pattern@, i) && c
                        == rel.assets@[i])
                    &&& current_tag matches Ok(t) && view_opt(plan.current) == resolved_current(
                        t,
                        *existing,
                    )
                }
            },
        },
{
    let validators = fetched.validators;
    let release = match fetched.release {
        Some(r) => r,
        None => return Err(String::from_str(tr(config.language, "Nenhuma release disponível.",
            "No release available."))),
    };
    let asset = match select_for_arch(
        release.assets.as_slice(),
        config.asset_pattern.as_str(),
        config.architecture.as_str(),
        target_arch,
    ) {
        Ok(a) => a.duplicate(),
        Err(e) => return Err(describe(&e)),
    };
    let checksum = if config.skip_verification {
        None
    } else {
        match select_asset(release.assets.as_slice(), config.checksum_pattern.as_str()) {
            Ok(a) => Some(a.duplicate()),
            Err(e) => return Err(describe(&e)),
        }
    };
    let tag = match current_tag {
        Ok(t) => t,
        Err(e) => return Err(e),
    };
    let current = resolve_current(tag, existing);
    Ok(UpdatePlan { current, release, asset, checksum, validators })
}

/// One labelled line of a preview.
pub open spec fn field(language: Language, pt: Seq<char>, en: Seq<char>, value: Seq<char>) -> Seq<
    char,
> {
    "\n"@ + in_language(language, pt, en) + ": "@ + value
}

fn push_field(out: &mut String, language: Language, pt: &'static str, en: &'static str, value: &str)
    ensures
        final(out)@ == old(out)@ + field(language, pt@, en@, value@),
{
    out.append("\n");
    out.append(tr(language, pt, en));
    out.append(": ");
    out.append(value);
}

/// The preview of an update, as text.
pub open spec fn dry_run_text(
    config: Config,
    plan: UpdatePlan,
    arch: Seq<char>,
    size_text: Seq<char>,
    prune: Seq<Seq<char>>,
    downgrade: bool,
) -> Seq<char> {
    let l = config.language;
    let none = in_language(l, "nenhuma"@, "none"@);
    let current = match plan.current {
        Some(c) => c@,
        None => none,
    };
    let checksum = match plan.checksum {
        Some(a) => a.name@,
        None => in_language(l, "ignorado"@, "skipped"@),
    };
    let pin = if trim(config.pinned_version@).len() == 0 {
        in_language(l, "mais recente"@, "latest"@)
    } else {
        trim(config.pinned_version@)
    };
    let prune_text = if prune.len() == 0 {
        none
    } else {
        join_with(prune, ", "@)
    };
    let active = match plan.current {
        Some(c) => c@ == plan.release.tag_name@,
        None => false,
    };
    in_language(l, "PRÉVIA — nenhuma alteração foi feita."@, "DRY RUN — no changes were made."@)
        + field(l, "Versão atual"@, "Current version"@, current) + field(
        l,
        "Versão alvo"@,
        "Target version"@,
        plan.release.tag_name@,
    ) + field(l, "Canal"@, "Channel"@, config.channel@) + field(
        l,
        "Arquitetura"@,
        "Architecture"@,
        arch,
    ) + field(l, "Versão fixada"@, "Pinned version"@, pin) + field(
        l,
        "Asset selecionado"@,
        "Selected asset"@,
        plan.asset.name@,
    ) + field(l, "Tamanho estimado necessário"@, "Estimated required size"@, size_text) + field(
        l,
        "Checksum"@,
        "Checksum"@,
        checksum,
    ) + field(
        l,
        "Possível downgrade"@,
        "Possible downgrade"@,
        if downgrade {
            in_language(l, "sim"@, "yes"@)
        } else {
            in_language(l, "não"@, "no"@)
        },
    ) + field(
        l,
        "Versões que serão removidas pela retenção por quantidade"@,
        "Releases that count retention will remove"@,
        prune_text,
    ) + "\n"@ + if active {
        in_language(
            l,
            "Nenhuma instalação necessária; a versão alvo já está ativa."@,
            "No installation is required; the target version is already active."@,
        )
    } else {
        in_language(
            l,
            "A atualização só acontecerá ao clicar em Atualizar."@,
            "The update will only happen when you click Update."@,
        )
    }
}

/// Describes, without changing anything, what an update would do: current and target
/// versions, channel, architecture (`auto` being `target_arch`), pinned version, asset, the
/// estimated size (`size_text`), the checksum file, whether it is a downgrade, and the
/// releases that count retention would remove (`prune`).
pub fn dry_run(
    config: &Config,
    plan: &UpdatePlan,
    target_arch: &str,
    size_text: &str,
    prune: &[String],
) -> (r: String)
    ensures
        r@ == dry_run_text(
            *config,
            *plan,
            effective_arch(config.architecture@, target_arch@),
            size_text@,
            views(prune@),
            match plan.current {
                Some(c) => crate::versions::version_order(plan.release.tag_name@, c@) < 0,
                None => false,
            },
        ),
{
    let l = config.language;
    let mut out = String::from_str(tr(l, "PRÉVIA — nenhuma alteração foi feita.",
        "DRY RUN — no changes were made."));
    let current = match &plan.current {
        Some(c) => c.clone(),
        None => String::from_str(tr(l, "nenhuma", "none")),
    };
    push_field(&mut out, l, "Versão atual", "Current version", current.as_str());
    push_field(&mut out, l, "Versão alvo", "Target version", plan.release.tag_name.as_str());
    push_field(&mut out, l, "Canal", "Channel", config.channel.as_str());
    let arch: &str = if crate::text::same_text(config.architecture.as_str(), "auto") {
        crate::assets::detect_architecture(target_arch)
    } else {
        config.architecture.as_str()
    };
    push_field(&mut out, l, "Arquitetura", "Architecture", arch);
    let pin = trim_str(config.pinned_version.as_str());
    let pin_text = if pin.as_str().unicode_len() == 0 {
        String::from_str(tr(l, "mais recente", "latest"))
    } else {
        pin
    };
    push_field(&mut out, l, "Versão fixada", "Pinned version", pin_text.as_str());
    push_field(&mut out, l, "Asset selecionado", "Selected asset", plan.asset.name.as_str());
    push_field(&mut out, l, "Tamanho estimado necessário", "Estimated required size", size_text);
    let checksum = match &plan.checksum {
        Some(a) => a.name.clone(),
        None => String::from_str(tr(l, "ignorado", "skipped")),
    };
    push_field(&mut out, l, "Checksum", "Checksum", checksum.as_str());
    let downgrade = match &plan.current {
        Some(c) => crate::versions::is_downgrade(c.as_str(), plan.release.tag_name.as_str()),
        None => false,
    };
    push_field(&mut out, l, "Possível downgrade", "Possible downgrade", if downgrade {
        tr(l, "sim", "yes")
    } else {
        tr(l, "não", "no")
    });
    let prune_text = if prune.len() == 0 {
        String::from_str(tr(l, "nenhuma", "none"))
    } else {
        join_strings(prune, ", ")
    };
    push_field(
        &mut out,
        l,
        "Versões que serão removidas pela retenção por quantidade",
        "Releases that count retention will remove",
        prune_text.as_str(),
    );
    let active = match &plan.current {
        Some(c) => crate::text::same_text(c.as_str(), plan.release.tag_name.as_str()),
        None => false,
    };
    out.append("\n");
    out.append(if active {
        tr(l, "Nenhuma instalação necessária; a versão alvo já está ativa.",
            "No installation is required; the target version is already active.")
    } else {
        tr(l, "A atualização só acontecerá ao clicar em Atualizar.",
            "The update will only happen when you click Update.")
    });
    out
}

/// The release notes of the planned release: `<tag> — <url>`, a blank line, and the trimmed
/// notes (or a placeholder when there are none).
pub fn release_notes(language: Language, plan: &UpdatePlan) -> (r: String)
    ensures
        r@ == plan.release.tag_name@ + " — "@ + plan.release.html_url@ + "\n\n"@ + if trim(
            plan.release.body@,
        ).len() == 0 {
            in_language(language, "Sem notas de release."@, "No release notes."@)
        } else {
            trim(plan.release.body@)
        },
{
    let mut out = plan.release.tag_name.clone();
    out.append(" — ");
    out.append(plan.release.html_url.as_str());
    out.append("\n\n");
    let body = trim_str(plan.release.body.as_str());
    if body.as_str().unicode_len() == 0 {
        out.append(tr(language, "Sem notas de release.", "No release notes."));
    } else {
        out.append(body.as_str());
    }
    out
}

} // verus!
