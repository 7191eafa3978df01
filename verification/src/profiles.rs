//! Saved profiles: named settings of a managed application, kept sorted by name.
use vstd::prelude::*;
use crate::config::{Config, Language};
use crate::paths::{join, joined};
use crate::text::{chars_of, lower, lower_vec};
use crate::store::{recover, recovered, Stored};
use crate::versions::{codes, lex_order};
use vstd::string::StringExecFns;

verus! {

/// The saved settings of one managed application.
pub struct Profile {
    pub name: String,
    pub app_name: String,
    pub repo: String,
    pub asset_pattern: String,
    pub checksum_pattern: String,
    pub install_root: String,
    pub state_root: String,
    pub github_host: String,
    pub allow_prerelease: bool,
    pub skip_verification: bool,
    pub retain: usize,
    pub restart_command: String,
    pub health_check_command: String,
    pub pinned_version: String,
    pub auto_mode: String,
    pub interval_minutes: u32,
    pub channel: String,
    pub architecture: String,
    pub backup_paths: String,
    pub verify_authenticode: bool,
    pub max_disk_mb: u64,
    pub retention_days: u64,
    pub allow_downgrade: bool,
    pub notifications: bool,
}

impl Default for Profile {
    fn default() -> (p: Profile)
        ensures
            p.name@.len() == 0,
            p.app_name@.len() == 0,
            p.repo@.len() == 0,
            p.asset_pattern@ == "(?i).*\\.(zip|exe|tgz|tbz2|txz)$|.*\\.tar\\.(gz|bz2|xz|zst)$"@,
            p.checksum_pattern@ == "(?i)^(SHA256SUMS|checksums?(\\.txt)?|.*sha256.*)$"@,
            p.install_root@.len() == 0,
            p.state_root@.len() == 0,
            p.github_host@ == "https://api.github.com"@,
            !p.allow_prerelease,
            !p.skip_verification,
            p.retain == 3,
            p.restart_command@.len() == 0,
            p.health_check_command@.len() == 0,
            p.pinned_version@.len() == 0,
            p.auto_mode@ == "check"@,
            p.interval_minutes == 60,
            p.channel@ == "stable"@,
            p.architecture@ == "auto"@,
            p.backup_paths@.len() == 0,
            p.verify_authenticode,
            p.max_disk_mb == 0,
            p.retention_days == 0,
            !p.allow_downgrade,
            p.notifications,
    {
        Profile {
            name: String::new(),
            app_name: String::new(),
            repo: String::new(),
            asset_pattern: String::from_str(
                "(?i).*\\.(zip|exe|tgz|tbz2|txz)$|.*\\.tar\\.(gz|bz2|xz|zst)$",
            ),
            checksum_pattern: String::from_str("(?i)^(SHA256SUMS|checksums?(\\.txt)?|.*sha256.*)$"),
            install_root: String::new(),
            state_root: String::new(),
            github_host: String::from_str("https://api.github.com"),
            allow_prerelease: false,
            skip_verification: false,
            retain: 3,
            restart_command: String::new(),
            health_check_command: String::new(),
            pinned_version: String::new(),
            auto_mode: String::from_str("check"),
            interval_minutes: 60,
            channel: String::from_str("stable"),
            architecture: String::from_str("auto"),
            backup_paths: String::new(),
            verify_authenticode: true,
            max_disk_mb: 0,
            retention_days: 0,
            allow_downgrade: false,
            notifications: true,
        }
    }
}

/// The release channel a profile stands for; the old prerelease switch turns an unset or
/// `stable` channel into `nightly`, and an unset channel is `stable`.
pub open spec fn effective_channel_of(allow_prerelease: bool, channel: Seq<char>) -> Seq<char> {
    if allow_prerelease && (channel.len() == 0 || channel == "stable"@) {
        "nightly"@
    } else if channel.len() == 0 {
        "stable"@
    } else {
        channel
    }
}

/// The architecture setting with `auto` for an unset one.
pub open spec fn architecture_or_auto(architecture: Seq<char>) -> Seq<char> {
    if architecture.len() == 0 {
        "auto"@
    } else {
        architecture
    }
}

fn copy_string(s: &String) -> (r: String)
    ensures
        r@ == s@,
{
    s.clone()
}

impl Profile {
    /// A field-by-field copy of this profile.
    pub fn duplicate(&self) -> (r: Profile)
        ensures
            r == *self,
    {
        Profile {
            name: self.name.clone(),
            app_name: self.app_name.clone(),
            repo: self.repo.clone(),
            asset_pattern: self.asset_pattern.clone(),
            checksum_pattern: self.checksum_pattern.clone(),
            install_root: self.install_root.clone(),
            state_root: self.state_root.clone(),
            github_host: self.github_host.clone(),
            allow_prerelease: self.allow_prerelease,
            skip_verification: self.skip_verification,
            retain: self.retain,
            restart_command: self.restart_command.clone(),
            health_check_command: self.health_check_command.clone(),
            pinned_version: self.pinned_version.clone(),
            auto_mode: self.auto_mode.clone(),
            interval_minutes: self.interval_minutes,
            channel: self.channel.clone(),
            architecture: self.architecture.clone(),
            backup_paths: self.backup_paths.clone(),
            verify_authenticode: self.verify_authenticode,
            max_disk_mb: self.max_disk_mb,
            retention_days: self.retention_days,
            allow_downgrade: self.allow_downgrade,
            notifications: self.notifications,
        }
    }

    /// The channel this profile follows.
    pub fn effective_channel(&self) -> (r: String)
        ensures
            r@ == effective_channel_of(self.allow_prerelease, self.channel@),
    {
        let empty = self.channel.as_str().unicode_len() == 0;
        if self.allow_prerelease && (empty || crate::text::same_text(self.channel.as_str(), "stable")) {
            String::from_str("nightly")
        } else if empty {
            String::from_str("stable")
        } else {
            copy_string(&self.channel)
        }
    }

    /// The settings this profile gives, in the given language and with the given token.
    pub fn to_config(&self, language: Language, github_token: String) -> (c: Config)
        ensures
            c.language == language,
            c.app_name@ == self.app_name@,
            c.repo@ == self.repo@,
            c.asset_pattern@ == self.asset_pattern@,
            c.checksum_pattern@ == self.checksum_pattern@,
            c.install_root@ == self.install_root@,
            c.state_root@ == self.state_root@,
            c.github_host@ == self.github_host@,
            c.github_token@ == github_token@,
            c.allow_prerelease == self.allow_prerelease,
            c.skip_verification == self.skip_verification,
            c.retain == self.retain,
            c.restart_command@ == self.restart_command@,
            c.health_check_command@ == self.health_check_command@,
            c.pinned_version@ == self.pinned_version@,
            c.channel@ == effective_channel_of(self.allow_prerelease, self.channel@),
            c.architecture@ == architecture_or_auto(self.architecture@),
            c.backup_paths@ == self.backup_paths@,
            c.verify_authenticode == self.verify_authenticode,
            c.max_disk_mb == self.max_disk_mb,
            c.retention_days == self.retention_days,
            c.allow_downgrade == self.allow_downgrade,
            c.notifications == self.notifications,
    {
        Config {
            language,
            app_name: copy_string(&self.app_name),
            repo: copy_string(&self.repo),
            asset_pattern: copy_string(&self.asset_pattern),
            checksum_pattern: copy_string(&self.checksum_pattern),
            install_root: copy_string(&self.install_root),
            state_root: copy_string(&self.state_root),
            github_host: copy_string(&self.github_host),
            github_token,
            allow_prerelease: self.allow_prerelease,
            skip_verification: self.skip_verification,
            retain: self.retain,
            restart_command: copy_string(&self.restart_command),
            health_check_command: copy_string(&self.health_check_command),
            pinned_version: copy_string(&self.pinned_version),
            channel: self.effective_channel(),
            architecture: if self.architecture.as_str().unicode_len() == 0 {
                String::from_str("auto")
            } else {
                copy_string(&self.architecture)
            },
            backup_paths: copy_string(&self.backup_paths),
            verify_authenticode: self.verify_authenticode,
            max_disk_mb: self.max_disk_mb,
            retention_days: self.retention_days,
            allow_downgrade: self.allow_downgrade,
            notifications: self.notifications,
        }
    }
}

/// Where the profiles of a portable installation in `base` are kept.
pub fn default_path(base: &str) -> (r: String)
    ensures
        r@ == joined(joined(base@, ".distronomicon"@), "profiles.json"@),
{
    let d = join(base, ".distronomicon");
    join(d.as_str(), "profiles.json")
}

/// The profiles from the profiles file and its backup copy; none at all is an empty list.
pub fn load(primary: Stored<Vec<Profile>>, backup: Stored<Vec<Profile>>) -> (r: Result<
    Vec<Profile>,
    String,
>)
    ensures
        match recovered(primary, backup) {
            Ok(Some(v)) => r == Ok::<Vec<Profile>, String>(v),
            Ok(None) => r matches Ok(v) && v@.len() == 0,
            Err(e) => r == Err::<Vec<Profile>, String>(e),
        },
{
    match recover(primary, backup) {
        Ok(Some(v)) => Ok(v),
        Ok(None) => Ok(Vec::new()),
        Err(e) => Err(e),
    }
}

/// Where profiles are exported to and imported from.
pub fn export_path(base: &str) -> (r: String)
    ensures
        r@ == joined(base@, "DistronomiconProfiles.json"@),
{
    join(base, "DistronomiconProfiles.json")
}

/// The sort key of a profile: its name, ASCII lower-cased, by code point.
pub open spec fn name_key(p: Profile) -> Seq<int> {
    codes(lower(p.name@))
}

/// `a` sorts no later than `b`.
pub open spec fn key_le(a: Profile, b: Profile) -> bool {
    lex_order(name_key(a), name_key(b)) <= 0
}

/// Two profile names are the same name, ignoring ASCII case.
pub open spec fn same_name(a: Seq<char>, b: Seq<char>) -> bool {
    lower(a) == lower(b)
}

/// `x` inserted into `s` after every element that sorts no later than it.
pub open spec fn insert_sorted(s: Seq<Profile>, x: Profile) -> Seq<Profile>
    decreases s.len(),
{
    if s.len() == 0 {
        seq![x]
    } else if key_le(s.last(), x) {
        s.push(x)
    } else {
        insert_sorted(s.drop_last(), x).push(s.last())
    }
}

/// The profiles sorted by name; profiles with the same key keep their order.
pub open spec fn sorted_by_name(s: Seq<Profile>) -> Seq<Profile>
    decreases s.len(),
{
    if s.len() == 0 {
        s
    } else {
        insert_sorted(sorted_by_name(s.drop_last()), s.last())
    }
}

/// The position of the first profile named `name` (ignoring ASCII case), if any.
pub open spec fn first_named(ps: Seq<Profile>, name: Seq<char>) -> Option<int>
    decreases ps.len(),
{
    if ps.len() == 0 {
        None
    } else {
        match first_named(ps.drop_last(), name) {
            Some(i) => Some(i),
            None => if same_name(ps.last().name@, name) {
                Some(ps.len() - 1)
            } else {
                None
            },
        }
    }
}

/// The profiles not named `name` (ignoring ASCII case), in order.
pub open spec fn without_name(ps: Seq<Profile>, name: Seq<char>) -> Seq<Profile>
    decreases ps.len(),
{
    if ps.len() == 0 {
        ps
    } else {
        let rest = without_name(ps.drop_last(), name);
        if same_name(ps.last().name@, name) {
            rest
        } else {
            rest.push(ps.last())
        }
    }
}

/// The list after saving `p`: a profile of the same name is replaced in place, otherwise
/// `p` is added and the list sorted by name.
pub open spec fn upserted(ps: Seq<Profile>, p: Profile) -> Seq<Profile> {
    match first_named(ps, p.name@) {
        Some(i) => ps.update(i, p),
        None => sorted_by_name(ps.push(p)),
    }
}

/// Every profile sorts no later than the ones after it.
pub open spec fn is_sorted(s: Seq<Profile>) -> bool {
    forall|i: int, j: int| 0 <= i < j < s.len() ==> key_le(#[trigger] s[i], #[trigger] s[j])
}

fn name_key_chars(p: &Profile) -> (r: Vec<char>)
    ensures
        r@ == lower(p.name@),
{
    lower_vec(chars_of(p.name.as_str()).as_slice())
}

proof fn lemma_insert_at(s: Seq<Profile>, x: Profile, k: int)
    requires
        0 <= k <= s.len(),
        k == 0 || key_le(s[k - 1], x),
        forall|j: int| k <= j < s.len() ==> !key_le(#[trigger] s[j], x),
    ensures
        insert_sorted(s, x) == s.insert(k, x),
    decreases s.len(),
{
    if s.len() == 0 {
        assert(seq![x] == s.insert(0, x));
    } else if k == s.len() {
        assert(s.push(x) == s.insert(k, x));
    } else {
        assert(!key_le(s.last(), x));
        let d = s.drop_last();
        lemma_insert_at(d, x, k);
        assert(d.insert(k, x).push(s.last()) == s.insert(k, x));
    }
}

/// Inserts `x` at its sorted place, after every profile that sorts no later than it.
fn insert_by_name(v: &mut Vec<Profile>, x: Profile)
    ensures
        final(v)@ == insert_sorted(old(v)@, x),
{
    let kx = name_key_chars(&x);
    let mut k = v.len();
    while k > 0 && crate::versions::compare_text(name_key_chars(&v[k - 1]).as_slice(), kx.as_slice()) > 0
        invariant
            k <= v@.len(),
            v@ == old(v)@,
            kx@ == lower(x.name@),
            forall|j: int| k <= j < v@.len() ==> !key_le(#[trigger] v@[j], x),
        decreases k,
    {
        k = k - 1;
    }
    proof {
        lemma_insert_at(v@, x, k as int);
    }
    v.insert(k, x);
}

/// The profiles sorted by name, stably.
fn sort_by_name(v: Vec<Profile>) -> (r: Vec<Profile>)
    ensures
        r@ == sorted_by_name(v@),
{
    let ghost s = v@;
    let mut src = v;
    let mut out: Vec<Profile> = Vec::new();
    let mut i: usize = 0;
    let total = src.len();
    assert(s.skip(0) == s);
    while src.len() > 0
        invariant
            i <= s.len(),
            s.len() == total,
            src@ == s.skip(i as int),
            out@ == sorted_by_name(s.take(i as int)),
        decreases src@.len(),
    {
        let x = src.remove(0);
        proof {
            assert(s.take(i + 1).drop_last() == s.take(i as int));
            assert(s.take(i + 1).last() == x);
            assert(s.skip(i as int).drop_first() == s.skip(i + 1));
        }
        insert_by_name(&mut out, x);
        i = i + 1;
    }
    assert(s.take(i as int) == s);
    out
}

proof fn lemma_first_named_prefix(s: Seq<Profile>, name: Seq<char>, k: int)
    requires
        0 <= k <= s.len(),
        first_named(s.take(k), name) is Some,
    ensures
        first_named(s, name) == first_named(s.take(k), name),
    decreases s.len() - k,
{
    if k < s.len() {
        assert(s.take(k + 1).drop_last() == s.take(k));
        lemma_first_named_prefix(s, name, k + 1);
    } else {
        assert(s.take(k) == s);
    }
}

/// Properties of the first profile of a given name.
pub proof fn lemma_first_named(s: Seq<Profile>, name: Seq<char>)
    ensures
        first_named(s, name) matches Some(i) ==> 0 <= i < s.len() && same_name(s[i].name@, name)
            && forall|j: int| 0 <= j < i ==> !same_name(#[trigger] s[j].name@, name),
        first_named(s, name) is None ==> forall|j: int|
            0 <= j < s.len() ==> !same_name(#[trigger] s[j].name@, name),
    decreases s.len(),
{
    if s.len() > 0 {
        lemma_first_named(s.drop_last(), name);
        assert forall|j: int| 0 <= j < s.len() - 1 implies s.drop_last()[j] == s[j] by {}
    }
}

/// Position of the first profile named `name`, ignoring ASCII case.
pub fn find_named(ps: &[Profile], name: &str) -> (r: Option<usize>)
    ensures
        match r {
            Some(i) => first_named(ps@, name@) == Some(i as int),
            None => first_named(ps@, name@) is None,
        },
{
    let key = lower_vec(chars_of(name).as_slice());
    let mut i: usize = 0;
    while i < ps.len()
        invariant
            i <= ps@.len(),
            key@ == lower(name@),
            first_named(ps@.take(i as int), name@) is None,
        decreases ps.len() - i,
    {
        proof {
            assert(ps@.take(i + 1).drop_last() == ps@.take(i as int));
        }
        let k = name_key_chars(&ps[i]);
        if k.len() == key.len() && crate::text::matches_at(k.as_slice(), 0, key.as_slice()) {
            proof {
                assert(k@.subrange(0, key@.len() as int) == k@);
                assert(ps@.take(i + 1).last() == ps@[i as int]);
                lemma_first_named_prefix(ps@, name@, i + 1);
            }
            return Some(i);
        }
        proof {
            if k@.len() == key@.len() {
                assert(k@.subrange(0, key@.len() as int) == k@);
            }
        }
        i = i + 1;
    }
    assert(ps@.take(i as int) == ps@);
    None
}

/// Saves `profile` into the list: it replaces the first profile with the same name (ignoring
/// ASCII case), or else it is added and the list is sorted by lower-cased name.
pub fn upsert(profiles: &mut Vec<Profile>, profile: Profile)
    ensures
        final(profiles)@ == upserted(old(profiles)@, profile),
{
    match find_named(profiles.as_slice(), profile.name.as_str()) {
        Some(i) => {
            proof {
                lemma_first_named(old(profiles)@, profile.name@);
            }
            profiles.set(i, profile);
        },
        None => {
            let mut taken: Vec<Profile> = Vec::new();
            std::mem::swap(&mut taken, profiles);
            taken.push(profile);
            let mut sorted = sort_by_name(taken);
            std::mem::swap(&mut sorted, profiles);
        },
    }
}

/// Removes every profile named `name`, ignoring ASCII case.
pub fn remove(profiles: &mut Vec<Profile>, name: &str)
    ensures
        final(profiles)@ == without_name(old(profiles)@, name@),
{
    let key = lower_vec(chars_of(name).as_slice());
    let mut src: Vec<Profile> = Vec::new();
    std::mem::swap(&mut src, profiles);
    let ghost s = src@;
    let mut out: Vec<Profile> = Vec::new();
    let mut i: usize = 0;
    let total = src.len();
    assert(s.skip(0) == s);
    while src.len() > 0
        invariant
            i <= s.len(),
            s.len() == total,
            key@ == lower(name@),
            src@ == s.skip(i as int),
            out@ == without_name(s.take(i as int), name@),
        decreases src@.len(),
    {
        let x = src.remove(0);
        proof {
            assert(s.take(i + 1).drop_last() == s.take(i as int));
            assert(s.take(i + 1).last() == x);
            assert(s.skip(i as int).drop_first() == s.skip(i + 1));
        }
        let k = name_key_chars(&x);
        let same = k.len() == key.len() && crate::text::matches_at(k.as_slice(), 0, key.as_slice());
        proof {
            if k@.len() == key@.len() {
                assert(k@.subrange(0, key@.len() as int) == k@);
            }
        }
        if !same {
            out.push(x);
        }
        i = i + 1;
    }
    assert(s.take(i as int) == s);
    std::mem::swap(&mut out, profiles);
}

proof fn lemma_key_total(a: Profile, b: Profile, c: Profile)
    ensures
        key_le(a, b) || key_le(b, a),
        key_le(a, b) && key_le(b, c) ==> key_le(a, c),
        !key_le(a, b) ==> key_le(b, a),
{
    crate::versions::lemma_lex_order_basics(name_key(a), name_key(b));
    crate::versions::lemma_lex_order_basics(name_key(b), name_key(c));
    crate::versions::lemma_lex_order_basics(name_key(a), name_key(c));
    if lex_order(name_key(a), name_key(b)) < 0 && lex_order(name_key(b), name_key(c)) < 0 {
        crate::versions::lemma_lex_order_transitive(name_key(a), name_key(b), name_key(c));
    }
}

proof fn lemma_insert_sorted_contents(s: Seq<Profile>, x: Profile)
    ensures
        insert_sorted(s, x).len() == s.len() + 1,
        insert_sorted(s, x).contains(x),
        forall|y: Profile| s.contains(y) ==> insert_sorted(s, x).contains(y),
        forall|k: int|
            0 <= k < insert_sorted(s, x).len() ==> #[trigger] insert_sorted(s, x)[k] == x
                || s.contains(insert_sorted(s, x)[k]),
    decreases s.len(),
{
    let ins = insert_sorted(s, x);
    if s.len() == 0 {
        assert(ins[0] == x);
    } else if key_le(s.last(), x) {
        assert(ins[s.len() as int] == x);
        assert forall|y: Profile| s.contains(y) implies ins.contains(y) by {
            let j = choose|j: int| 0 <= j < s.len() && s[j] == y;
            assert(ins[j] == y);
        }
        assert forall|k: int| 0 <= k < ins.len() implies #[trigger] ins[k] == x || s.contains(
            ins[k],
        ) by {
            if k < s.len() {
                assert(ins[k] == s[k]);
            }
        }
    } else {
        let d = s.drop_last();
        let sub = insert_sorted(d, x);
        lemma_insert_sorted_contents(d, x);
        assert(ins == sub.push(s.last()));
        let jx = choose|j: int| 0 <= j < sub.len() && sub[j] == x;
        assert(ins[jx] == x);
        assert forall|y: Profile| s.contains(y) implies ins.contains(y) by {
            let j = choose|j: int| 0 <= j < s.len() && s[j] == y;
            if j == s.len() - 1 {
                assert(ins[ins.len() - 1] == y);
            } else {
                assert(d[j] == y);
                assert(d.contains(y));
                let m = choose|m: int| 0 <= m < sub.len() && sub[m] == y;
                assert(ins[m] == y);
            }
        }
        assert forall|k: int| 0 <= k < ins.len() implies #[trigger] ins[k] == x || s.contains(
            ins[k],
        ) by {
            if k == ins.len() - 1 {
                assert(s[s.len() - 1] == ins[k]);
            } else {
                assert(ins[k] == sub[k]);
                if sub[k] != x {
                    let j = choose|j: int| 0 <= j < d.len() && d[j] == sub[k];
                    assert(s[j] == sub[k]);
                }
            }
        }
    }
}

/// Sorting by name keeps exactly the same profiles.
pub proof fn lemma_sorted_contents(s: Seq<Profile>)
    ensures
        sorted_by_name(s).len() == s.len(),
        forall|y: Profile| s.contains(y) ==> sorted_by_name(s).contains(y),
        forall|k: int| 0 <= k < s.len() ==> s.contains(#[trigger] sorted_by_name(s)[k]),
    decreases s.len(),
{
    if s.len() > 0 {
        let d = s.drop_last();
        lemma_sorted_contents(d);
        let sd = sorted_by_name(d);
        lemma_insert_sorted_contents(sd, s.last());
        let r = sorted_by_name(s);
        assert forall|y: Profile| s.contains(y) implies r.contains(y) by {
            let j = choose|j: int| 0 <= j < s.len() && s[j] == y;
            if j < s.len() - 1 {
                assert(d[j] == y);
                assert(d.contains(y));
            }
        }
        assert forall|k: int| 0 <= k < s.len() implies s.contains(#[trigger] r[k]) by {
            if r[k] == s.last() {
                assert(s[s.len() - 1] == r[k]);
            } else {
                assert(sd.contains(r[k]));
                let m = choose|m: int| 0 <= m < sd.len() && sd[m] == r[k];
                assert(d.contains(sd[m]));
                let j = choose|j: int| 0 <= j < d.len() && d[j] == sd[m];
                assert(s[j] == r[k]);
            }
        }
    }
}

proof fn lemma_insert_sorted_sorted(s: Seq<Profile>, x: Profile)
    requires
        is_sorted(s),
    ensures
        is_sorted(insert_sorted(s, x)),
    decreases s.len(),
{
    let ins = insert_sorted(s, x);
    if s.len() == 0 {
    } else if key_le(s.last(), x) {
        assert forall|i: int, j: int| 0 <= i < j < ins.len() implies key_le(
            #[trigger] ins[i],
            #[trigger] ins[j],
        ) by {
            if j == s.len() {
                if i < s.len() - 1 {
                    assert(key_le(s[i], s[s.len() - 1]));
                    lemma_key_total(s[i], s.last(), x);
                }
            } else {
                assert(ins[i] == s[i] && ins[j] == s[j]);
            }
        }
    } else {
        let d = s.drop_last();
        assert(is_sorted(d)) by {
            assert forall|i: int, j: int| 0 <= i < j < d.len() implies key_le(
                #[trigger] d[i],
                #[trigger] d[j],
            ) by {
                assert(d[i] == s[i] && d[j] == s[j]);
            }
        }
        lemma_insert_sorted_sorted(d, x);
        lemma_insert_sorted_contents(d, x);
        let sub = insert_sorted(d, x);
        lemma_key_total(s.last(), x, x);
        assert forall|i: int, j: int| 0 <= i < j < ins.len() implies key_le(
            #[trigger] ins[i],
            #[trigger] ins[j],
        ) by {
            if j == ins.len() - 1 {
                assert(ins[j] == s.last());
                assert(ins[i] == sub[i]);
                if sub[i] != x {
                    assert(d.contains(sub[i]));
                    let m = choose|m: int| 0 <= m < d.len() && d[m] == sub[i];
                    assert(s[m] == sub[i]);
                    assert(key_le(s[m], s[s.len() - 1]));
                }
            } else {
                assert(ins[i] == sub[i] && ins[j] == sub[j]);
            }
        }
    }
}

/// Sorting by name gives a list in which every profile sorts no later than the ones after it.
pub proof fn lemma_sorted_by_name_is_sorted(s: Seq<Profile>)
    ensures
        is_sorted(sorted_by_name(s)),
    decreases s.len(),
{
    if s.len() > 0 {
        lemma_sorted_by_name_is_sorted(s.drop_last());
        lemma_insert_sorted_sorted(sorted_by_name(s.drop_last()), s.last());
    }
}

proof fn lemma_first_named_at(s: Seq<Profile>, name: Seq<char>, i: int)
    requires
        0 <= i < s.len(),
        same_name(s[i].name@, name),
        forall|j: int| 0 <= j < i ==> !same_name(#[trigger] s[j].name@, name),
    ensures
        first_named(s, name) == Some(i),
{
    lemma_first_named(s, name);
}

/// After saving a profile, looking its name up gives back that very profile.
pub proof fn lemma_upsert_then_lookup(ps: Seq<Profile>, p: Profile)
    ensures
        first_named(upserted(ps, p), p.name@) matches Some(i) && upserted(ps, p)[i] == p,
{
    lemma_first_named(ps, p.name@);
    let after = upserted(ps, p);
    match first_named(ps, p.name@) {
        Some(i) => {
            assert forall|j: int| 0 <= j < i implies !same_name(#[trigger] after[j].name@, p.name@) by {
                assert(after[j] == ps[j]);
            }
            lemma_first_named_at(after, p.name@, i);
        },
        None => {
            let all = ps.push(p);
            lemma_sorted_contents(all);
            assert(all[ps.len() as int] == p);
            assert(all.contains(p));
            let m = choose|m: int| 0 <= m < after.len() && after[m] == p;
            lemma_first_named(after, p.name@);
            assert(same_name(after[m].name@, p.name@));
            let i = first_named(after, p.name@)->0;
            assert(all.contains(after[i]));
            let j = choose|j: int| 0 <= j < all.len() && all[j] == after[i];
            if j < ps.len() {
                assert(ps[j] == after[i]);
            }
        },
    }
}

/// After removing a name, no profile of that name is left.
pub proof fn lemma_remove_then_lookup(ps: Seq<Profile>, name: Seq<char>)
    ensures
        first_named(without_name(ps, name), name) is None,
        forall|k: int|
            0 <= k < without_name(ps, name).len() ==> !same_name(
                #[trigger] without_name(ps, name)[k].name@,
                name,
            ),
    decreases ps.len(),
{
    if ps.len() > 0 {
        lemma_remove_then_lookup(ps.drop_last(), name);
    }
    let r = without_name(ps, name);
    lemma_first_named(r, name);
}

/// Saving a profile into a sorted list leaves it sorted.
pub proof fn lemma_upsert_keeps_sorted(ps: Seq<Profile>, p: Profile)
    requires
        is_sorted(ps),
    ensures
        is_sorted(upserted(ps, p)),
{
    lemma_first_named(ps, p.name@);
    match first_named(ps, p.name@) {
        Some(i) => {
            let after = ps.update(i, p);
            assert(name_key(ps[i]) == name_key(p));
            assert forall|a: int, b: int| 0 <= a < b < after.len() implies key_le(
                #[trigger] after[a],
                #[trigger] after[b],
            ) by {
                assert(key_le(ps[a], ps[b]));
            }
        },
        None => {
            lemma_sorted_by_name_is_sorted(ps.push(p));
        },
    }
}

proof fn lemma_without_inserted(s: Seq<Profile>, x: Profile)
    ensures
        without_name(insert_sorted(s, x), x.name@) == without_name(s, x.name@),
    decreases s.len(),
{
    if s.len() == 0 {
        assert(without_name(seq![x], x.name@) == without_name(seq![x].drop_last(), x.name@));
        assert(seq![x].drop_last() == s);
    } else if key_le(s.last(), x) {
        assert(s.push(x).drop_last() == s);
    } else {
        lemma_without_inserted(s.drop_last(), x);
        let t = insert_sorted(s.drop_last(), x).push(s.last());
        assert(t.drop_last() == insert_sorted(s.drop_last(), x));
    }
}

proof fn lemma_without_absent(s: Seq<Profile>, name: Seq<char>)
    requires
        first_named(s, name) is None,
    ensures
        without_name(s, name) == s,
    decreases s.len(),
{
    if s.len() > 0 {
        lemma_first_named(s, name);
        assert(first_named(s.drop_last(), name) is None);
        lemma_without_absent(s.drop_last(), name);
        assert(!same_name(s[s.len() - 1].name@, name));
        assert(s.drop_last().push(s.last()) == s);
    }
}

proof fn lemma_sorted_unchanged(s: Seq<Profile>)
    requires
        is_sorted(s),
    ensures
        sorted_by_name(s) == s,
    decreases s.len(),
{
    if s.len() > 0 {
        let d = s.drop_last();
        assert(is_sorted(d)) by {
            assert forall|i: int, j: int| 0 <= i < j < d.len() implies key_le(#[trigger] d[i], #[trigger] d[j]) by {
                assert(d[i] == s[i] && d[j] == s[j]);
            }
        }
        lemma_sorted_unchanged(d);
        if d.len() > 0 {
            assert(key_le(s[d.len() - 1], s[s.len() - 1]));
            assert(d.last() == s[d.len() - 1]);
        }
        assert(d.push(s.last()) == s);
    }
}

/// Deleting a profile that was just saved under a new name gives back the list as it was.
pub proof fn lemma_remove_undoes_new_save(ps: Seq<Profile>, p: Profile)
    requires
        is_sorted(ps),
        first_named(ps, p.name@) is None,
    ensures
        without_name(upserted(ps, p), p.name@) == ps,
{
    lemma_sorted_unchanged(ps);
    assert(ps.push(p).drop_last() == ps);
    assert(ps.push(p).last() == p);
    lemma_without_inserted(ps, p);
    lemma_without_absent(ps, p.name@);
}

/// Saving the same profile twice gives the list that saving it once gives.
pub proof fn lemma_upsert_idempotent(ps: Seq<Profile>, p: Profile)
    ensures
        upserted(upserted(ps, p), p) == upserted(ps, p),
{
    lemma_upsert_then_lookup(ps, p);
    let after = upserted(ps, p);
    lemma_first_named(after, p.name@);
    let i = first_named(after, p.name@)->Some_0;
    assert(after.update(i, p) =~= after);
}

/// No two profiles of the list share a name, ignoring ASCII case.
pub open spec fn unique_names(s: Seq<Profile>) -> bool {
    forall|i: int, j: int|
        0 <= i < j < s.len() ==> !same_name(#[trigger] s[i].name@, #[trigger] s[j].name@)
}

proof fn lemma_insert_sorted_unique(s: Seq<Profile>, x: Profile)
    requires
        unique_names(s),
        forall|k: int| 0 <= k < s.len() ==> !same_name(#[trigger] s[k].name@, x.name@),
    ensures
        unique_names(insert_sorted(s, x)),
    decreases s.len(),
{
    let ins = insert_sorted(s, x);
    if s.len() == 0 {
    } else if key_le(s.last(), x) {
        assert forall|i: int, j: int| 0 <= i < j < ins.len() implies !same_name(
            #[trigger] ins[i].name@,
            #[trigger] ins[j].name@,
        ) by {
            assert(ins[i] == s[i]);
            if j < s.len() {
                assert(ins[j] == s[j]);
            } else {
                assert(ins[j] == x);
            }
        }
    } else {
        let d = s.drop_last();
        let last = s.last();
        assert forall|k: int| 0 <= k < d.len() implies !same_name(#[trigger] d[k].name@, x.name@) by {
            assert(d[k] == s[k]);
        }
        assert(unique_names(d)) by {
            assert forall|i: int, j: int| 0 <= i < j < d.len() implies !same_name(
                #[trigger] d[i].name@,
                #[trigger] d[j].name@,
            ) by {
                assert(d[i] == s[i] && d[j] == s[j]);
            }
        }
        lemma_insert_sorted_unique(d, x);
        lemma_insert_sorted_contents(d, x);
        let t = insert_sorted(d, x);
        assert(ins == t.push(last));
        assert forall|i: int, j: int| 0 <= i < j < ins.len() implies !same_name(
            #[trigger] ins[i].name@,
            #[trigger] ins[j].name@,
        ) by {
            if j < t.len() {
                assert(ins[i] == t[i] && ins[j] == t[j]);
            } else {
                assert(ins[j] == last);
                assert(ins[i] == t[i]);
                if t[i] == x {
                    assert(!same_name(s[s.len() - 1].name@, x.name@));
                } else {
                    assert(d.contains(t[i]));
                    let k = choose|k: int| 0 <= k < d.len() && d[k] == t[i];
                    assert(d[k] == s[k]);
                    assert(!same_name(s[k].name@, s[s.len() - 1].name@));
                }
            }
        }
    }
}

/// Saving a profile into a list sorted by name whose names are unique (ignoring ASCII case)
/// keeps it sorted with unique names and puts the profile in it; a profile of the same name is
/// replaced in place, otherwise the list grows by one and keeps every old profile.
pub proof fn lemma_upsert_law(ps: Seq<Profile>, p: Profile)
    requires
        is_sorted(ps),
        unique_names(ps),
    ensures
        is_sorted(upserted(ps, p)),
        unique_names(upserted(ps, p)),
        upserted(ps, p).contains(p),
        first_named(ps, p.name@) matches Some(i) ==> upserted(ps, p) == ps.update(i, p)
            && same_name(ps[i].name@, p.name@),
        first_named(ps, p.name@) is None ==> upserted(ps, p).len() == ps.len() + 1 && forall|
            y: Profile,
        | ps.contains(y) ==> upserted(ps, p).contains(y),
{
    lemma_upsert_keeps_sorted(ps, p);
    lemma_upsert_then_lookup(ps, p);
    lemma_first_named(ps, p.name@);
    lemma_first_named(upserted(ps, p), p.name@);
    let after = upserted(ps, p);
    match first_named(ps, p.name@) {
        Some(i) => {
            assert forall|a: int, b: int| 0 <= a < b < after.len() implies !same_name(
                #[trigger] after[a].name@,
                #[trigger] after[b].name@,
            ) by {
                if a == i {
                    assert(!same_name(ps[i].name@, ps[b].name@));
                } else if b == i {
                    assert(!same_name(ps[a].name@, ps[i].name@));
                } else {
                    assert(after[a] == ps[a] && after[b] == ps[b]);
                }
            }
        },
        None => {
            lemma_sorted_unchanged(ps);
            assert(ps.push(p).drop_last() == ps);
            assert(ps.push(p).last() == p);
            lemma_insert_sorted_unique(ps, p);
            lemma_insert_sorted_contents(ps, p);
        },
    }
}

} // verus!
