//! GitHub releases: their data, request addresses, and which release a channel picks.
use vstd::prelude::*;
use crate::text::{chars_of, has_prefix, lower, string_of, trim, trim_str};
use vstd::string::StringExecFns;
use crate::versions::{codes, lex_order};
use vstd::string::StringSliceAdditionalSpecFns;

verus! {

/// One downloadable file of a release.
pub struct Asset {
    pub name: String,
    pub url: String,
    pub size: u64,
}

impl Asset {
    /// A field-by-field copy.
    pub fn duplicate(&self) -> (r: Asset)
        ensures
            r == *self,
    {
        Asset { name: self.name.clone(), url: self.url.clone(), size: self.size }
    }
}

/// A release as the GitHub API describes it.
pub struct Release {
    pub tag_name: String,
    pub html_url: String,
    pub assets: Vec<Asset>,
    pub draft: bool,
    pub prerelease: bool,
    pub body: String,
    pub created_at: Option<String>,
    pub published_at: Option<String>,
}

/// HTTP cache validators of the "latest release" response.
pub struct Validators {
    pub etag: String,
    pub last_modified: String,
}

impl Validators {
    /// Empty validators: the next request is unconditional.
    pub fn empty() -> (r: Validators)
        ensures
            r.etag@.len() == 0,
            r.last_modified@.len() == 0,
    {
        Validators { etag: String::new(), last_modified: String::new() }
    }
}

/// What one query of the release feed gave.
pub struct FetchResult {
    pub release: Option<Release>,
    pub validators: Validators,
    pub not_modified: bool,
}

/// Bytes that a tag keeps as they are in a URL path segment.
pub open spec fn is_unreserved(b: u8) -> bool {
    (0x30 <= b && b <= 0x39) || (0x41 <= b && b <= 0x5a) || (0x61 <= b && b <= 0x7a) || b == 0x2d
        || b == 0x5f || b == 0x2e || b == 0x7e
}

/// Upper-case hexadecimal digit of a nibble.
pub open spec fn hex_upper(n: u8) -> char {
    if n < 10 {
        ((n + 0x30) as u8) as char
    } else {
        ((n - 10 + 0x41) as u8) as char
    }
}

/// The encoding of one byte: itself when unreserved, else `%` and two hexadecimal digits.
pub open spec fn encoded_byte(x: u8) -> Seq<char> {
    if is_unreserved(x) {
        seq![x as char]
    } else {
        seq!['%', hex_upper(x / 16), hex_upper(x % 16)]
    }
}

/// The percent-encoding of the bytes `b`.
pub open spec fn percent_encoded(b: Seq<u8>) -> Seq<char>
    decreases b.len(),
{
    if b.len() == 0 {
        seq![]
    } else {
        percent_encoded(b.drop_last()) + encoded_byte(b.last())
    }
}

/// The value of an upper-case hexadecimal digit.
pub open spec fn hex_value(c: char) -> int {
    if '0' <= c && c <= '9' {
        c as int - 0x30
    } else {
        c as int - 0x41 + 10
    }
}

/// Percent-decoding: `%` and two hexadecimal digits give that byte, any other character
/// gives its code.
pub open spec fn percent_decoded(s: Seq<char>) -> Seq<u8>
    decreases s.len(),
{
    if s.len() == 0 {
        seq![]
    } else if s[0] == '%' && s.len() >= 3 {
        seq![(hex_value(s[1]) * 16 + hex_value(s[2])) as u8] + percent_decoded(s.skip(3))
    } else {
        seq![s[0] as u8] + percent_decoded(s.drop_first())
    }
}

/// Characters a tag keeps as they are: ASCII letters and digits, `-`, `_`, `.` and `~`.
pub open spec fn is_unreserved_char(c: char) -> bool {
    ('0' <= c && c <= '9') || ('A' <= c && c <= 'Z') || ('a' <= c && c <= 'z') || c == '-' || c
        == '_' || c == '.' || c == '~'
}

proof fn lemma_hex_digit(n: u8)
    requires
        n < 16,
    ensures
        hex_value(hex_upper(n)) == n,
{
}

proof fn lemma_encoded_prepend(x: u8, r: Seq<u8>)
    ensures
        percent_encoded(seq![x] + r) == encoded_byte(x) + percent_encoded(r),
    decreases r.len(),
{
    let b = seq![x] + r;
    if r.len() == 0 {
        assert(b.drop_last() == Seq::<u8>::empty());
        assert(b.last() == x);
        assert(percent_encoded(Seq::<u8>::empty()) == Seq::<char>::empty());
        assert(Seq::<char>::empty() + encoded_byte(x) == encoded_byte(x));
        assert(encoded_byte(x) + Seq::<char>::empty() == encoded_byte(x));
    } else {
        lemma_encoded_prepend(x, r.drop_last());
        assert(b.drop_last() == seq![x] + r.drop_last());
        assert(b.last() == r.last());
        assert(encoded_byte(x) + percent_encoded(r.drop_last()) + encoded_byte(r.last())
            == encoded_byte(x) + (percent_encoded(r.drop_last()) + encoded_byte(r.last())));
    }
}

proof fn lemma_decode_chunk(x: u8, t: Seq<char>)
    ensures
        percent_decoded(encoded_byte(x) + t) == seq![x] + percent_decoded(t),
{
    let c = encoded_byte(x) + t;
    if is_unreserved(x) {
        assert(c[0] == x as char);
        assert(c.drop_first() == t);
    } else {
        lemma_hex_digit(x / 16);
        lemma_hex_digit(x % 16);
        assert(c[0] == '%');
        assert(c.skip(3) == t);
        assert(c[1] == hex_upper(x / 16) && c[2] == hex_upper(x % 16));
        assert((x / 16) * 16 + x % 16 == x);
    }
}

proof fn lemma_round_trip(b: Seq<u8>)
    ensures
        percent_decoded(percent_encoded(b)) == b,
    decreases b.len(),
{
    if b.len() > 0 {
        let r = b.drop_first();
        assert(b == seq![b[0]] + r);
        lemma_encoded_prepend(b[0], r);
        lemma_round_trip(r);
        lemma_decode_chunk(b[0], percent_encoded(r));
    }
}

proof fn lemma_encoded_len(b: Seq<u8>)
    ensures
        percent_encoded(b).len() >= b.len(),
        (forall|i: int| 0 <= i < b.len() ==> is_unreserved(#[trigger] b[i])) ==> percent_encoded(b)
            == b.map_values(|x: u8| x as char),
        !(forall|i: int| 0 <= i < b.len() ==> is_unreserved(#[trigger] b[i])) ==> percent_encoded(
            b,
        ).len() > b.len(),
    decreases b.len(),
{
    if b.len() > 0 {
        let d = b.drop_last();
        lemma_encoded_len(d);
        if forall|i: int| 0 <= i < b.len() ==> is_unreserved(#[trigger] b[i]) {
            assert forall|i: int| 0 <= i < d.len() implies is_unreserved(#[trigger] d[i]) by {
                assert(d[i] == b[i]);
            }
            assert(is_unreserved(b[b.len() - 1]));
            assert(b.map_values(|x: u8| x as char) == d.map_values(|x: u8| x as char).push(
                b.last() as char,
            ));
        } else {
            let k = choose|k: int| 0 <= k < b.len() && !is_unreserved(#[trigger] b[k]);
            if k < d.len() {
                assert(d[k] == b[k]);
            }
        }
    }
}

proof fn lemma_utf8_len(t: Seq<char>)
    ensures
        vstd::utf8::encode_utf8(t).len() >= t.len(),
    decreases t.len(),
{
    if t.len() > 0 {
        lemma_utf8_len(t.drop_first());
    }
}

/// Percent-decoding an encoded tag gives back its UTF-8 bytes, and the encoding is the tag
/// itself exactly when the tag holds only ASCII letters, digits, `-`, `_`, `.` and `~`.
pub proof fn lemma_encode_tag_law(tag: Seq<char>)
    ensures
        percent_decoded(percent_encoded(vstd::utf8::encode_utf8(tag))) == vstd::utf8::encode_utf8(
            tag,
        ),
        percent_encoded(vstd::utf8::encode_utf8(tag)) == tag <==> forall|i: int|
            0 <= i < tag.len() ==> is_unreserved_char(#[trigger] tag[i]),
{
    let b = vstd::utf8::encode_utf8(tag);
    lemma_round_trip(b);
    lemma_encoded_len(b);
    lemma_utf8_len(tag);
    if forall|i: int| 0 <= i < tag.len() ==> is_unreserved_char(#[trigger] tag[i]) {
        assert(vstd::utf8::is_ascii_chars(tag));
        vstd::utf8::is_ascii_chars_encode_utf8(tag);
        assert forall|i: int| 0 <= i < b.len() implies is_unreserved(#[trigger] b[i]) by {
            assert(tag[i] as u8 == b[i]);
            assert(is_unreserved_char(tag[i]));
        }
        assert forall|i: int| 0 <= i < tag.len() implies b.map_values(|x: u8| x as char)[i]
            == tag[i] by {
            assert(tag[i] as u8 == b[i]);
            assert(is_unreserved_char(tag[i]));
        }
        assert(b.map_values(|x: u8| x as char) =~= tag);
    } else {
        let k = choose|k: int| 0 <= k < tag.len() && !is_unreserved_char(#[trigger] tag[k]);
        if percent_encoded(b) == tag {
            if forall|i: int| 0 <= i < b.len() ==> is_unreserved(#[trigger] b[i]) {
                assert(percent_encoded(b) == b.map_values(|x: u8| x as char));
                assert(tag.len() == b.len());
                assert(tag[k] == b[k] as char);
                assert(is_unreserved(b[k]));
                assert(false);
            } else {
                assert(false);
            }
        }
    }
}

fn hex_upper_exec(n: u8) -> (c: char)
    requires
        n < 16,
    ensures
        c == hex_upper(n),
{
    if n < 10 {
        (n + 0x30) as char
    } else {
        (n - 10 + 0x41) as char
    }
}

/// Percent-encodes a tag name for use as one URL path segment: ASCII letters, digits and
/// `-_.~` stay, every other byte of its UTF-8 encoding becomes `%XX`.
pub fn encode_tag(tag: &str) -> (r: String)
    ensures
        r@ == percent_encoded(tag.spec_bytes()),
{
    let bytes = tag.as_bytes();
    let mut out = String::new();
    let mut i: usize = 0;
    while i < bytes.len()
        invariant
            i <= bytes@.len(),
            bytes@ == tag.spec_bytes(),
            out@ == percent_encoded(bytes@.take(i as int)),
        decreases bytes.len() - i,
    {
        let x = bytes[i];
        proof {
            assert(bytes@.take(i + 1).drop_last() == bytes@.take(i as int));
        }
        if (0x30 <= x && x <= 0x39) || (0x41 <= x && x <= 0x5a) || (0x61 <= x && x <= 0x7a) || x
            == 0x2d || x == 0x5f || x == 0x2e || x == 0x7e {
            out.push(x as char);
        } else {
            out.push('%');
            out.push(hex_upper_exec(x / 16));
            out.push(hex_upper_exec(x % 16));
        }
        i = i + 1;
    }
    assert(bytes@.take(bytes@.len() as int) == bytes@);
    out
}

/// The text without trailing `/` characters.
pub open spec fn trim_slashes_end(s: Seq<char>) -> Seq<char>
    decreases s.len(),
{
    if s.len() > 0 && s.last() == '/' {
        trim_slashes_end(s.drop_last())
    } else {
        s
    }
}

fn trim_slashes(host: &str) -> (r: String)
    ensures
        r@ == trim_slashes_end(host@),
{
    let v = chars_of(host);
    let mut b = v.len();
    assert(v@.subrange(0, b as int) == v@);
    while b > 0 && v[b - 1] == '/'
        invariant
            b <= v@.len(),
            trim_slashes_end(v@) == trim_slashes_end(v@.subrange(0, b as int)),
        decreases b,
    {
        proof {
            assert(v@.subrange(0, b as int).drop_last() == v@.subrange(0, b - 1));
        }
        b = b - 1;
    }
    let t = crate::text::copy_range(v.as_slice(), 0, b);
    string_of(t.as_slice())
}

/// Address of the repository `repo` itself (the connectivity test asks for it).
pub fn repo_url(host: &str, repo: &str) -> (r: String)
    ensures
        r@ == trim_slashes_end(host@) + "/repos/"@ + repo@,
{
    let mut u = trim_slashes(host);
    u.append("/repos/");
    u.append(repo);
    u
}

/// Address of the latest stable release of `repo`.
pub fn latest_url(host: &str, repo: &str) -> (r: String)
    ensures
        r@ == trim_slashes_end(host@) + "/repos/"@ + repo@ + "/releases/latest"@,
{
    let mut u = trim_slashes(host);
    u.append("/repos/");
    u.append(repo);
    u.append("/releases/latest");
    u
}

/// Address of the release of `repo` with the given tag.
pub fn tag_url(host: &str, repo: &str, tag: &str) -> (r: String)
    ensures
        r@ == trim_slashes_end(host@) + "/repos/"@ + repo@ + "/releases/tags/"@ + percent_encoded(
            tag.spec_bytes(),
        ),
{
    let mut u = trim_slashes(host);
    u.append("/repos/");
    u.append(repo);
    u.append("/releases/tags/");
    let t = encode_tag(tag);
    u.append(t.as_str());
    u
}

/// Address of the first page (100 entries) of the releases of `repo`.
pub fn list_url(host: &str, repo: &str) -> (r: String)
    ensures
        r@ == trim_slashes_end(host@) + "/repos/"@ + repo@ + "/releases?per_page=100"@,
{
    let mut u = trim_slashes(host);
    u.append("/repos/");
    u.append(repo);
    u.append("/releases?per_page=100");
    u
}

/// The `Authorization` header value for an optional token; a blank token sends none.
pub fn bearer(token: Option<&str>) -> (r: Option<String>)
    ensures
        match token {
            Some(t) => if trim(t@).len() == 0 {
                r is None
            } else {
                r matches Some(h) && h@ == "Bearer "@ + trim(t@)
            },
            None => r is None,
        },
{
    match token {
        Some(t) => {
            let trimmed = trim_str(t);
            if trimmed.unicode_len() == 0 {
                None
            } else {
                let mut h = String::from_str("Bearer ");
                h.append(trimmed.as_str());
                Some(h)
            }
        },
        None => None,
    }
}

/// The date a listed release is ordered by: its publication date, else its creation date.
pub open spec fn date_key(r: Release) -> Option<Seq<char>> {
    match r.published_at {
        Some(p) => Some(p@),
        None => match r.created_at {
            Some(c) => Some(c@),
            None => None,
        },
    }
}

/// Order of two date keys (-1, 0 or 1); a missing date comes before every date.
pub open spec fn key_order(a: Option<Seq<char>>, b: Option<Seq<char>>) -> int {
    match (a, b) {
        (None, None) => 0,
        (None, Some(_)) => -1,
        (Some(_), None) => 1,
        (Some(x), Some(y)) => lex_order(codes(x), codes(y)),
    }
}

/// Whether a listed release belongs to the channel: never a draft, and of the required
/// prerelease kind when one is required.
pub open spec fn eligible(r: Release, prerelease_only: Option<bool>) -> bool {
    !r.draft && match prerelease_only {
        Some(required) => r.prerelease == required,
        None => true,
    }
}

/// Release `i` is the one a channel picks from the list: the newest eligible release, the
/// first of them in list order when several share the newest date.
pub open spec fn is_pick(rs: Seq<Release>, prerelease_only: Option<bool>, i: int) -> bool {
    &&& 0 <= i < rs.len()
    &&& eligible(rs[i], prerelease_only)
    &&& forall|j: int|
        0 <= j < rs.len() && eligible(#[trigger] rs[j], prerelease_only) ==> key_order(
            date_key(rs[j]),
            date_key(rs[i]),
        ) <= 0
    &&& forall|j: int|
        0 <= j < i && eligible(#[trigger] rs[j], prerelease_only) ==> key_order(
            date_key(rs[j]),
            date_key(rs[i]),
        ) < 0
}

proof fn lemma_key_order(a: Option<Seq<char>>, b: Option<Seq<char>>, c: Option<Seq<char>>)
    ensures
        key_order(a, b) == -key_order(b, a),
        key_order(a, b) == 0 ==> a == b,
        key_order(a, b) <= 0 && key_order(b, c) < 0 ==> key_order(a, c) < 0,
        key_order(a, b) < 0 && key_order(b, c) <= 0 ==> key_order(a, c) < 0,
{
    match (a, b) {
        (Some(x), Some(y)) => {
            crate::versions::lemma_lex_order_basics(codes(x), codes(y));
            if lex_order(codes(x), codes(y)) == 0 {
                crate::versions::lemma_codes_injective(x, y);
            }
        },
        _ => {},
    }
    match (b, c) {
        (Some(y), Some(z)) => {
            crate::versions::lemma_lex_order_basics(codes(y), codes(z));
            if lex_order(codes(y), codes(z)) == 0 {
                crate::versions::lemma_codes_injective(y, z);
            }
        },
        _ => {},
    }
    match (a, c) {
        (Some(x), Some(z)) => {
            crate::versions::lemma_lex_order_basics(codes(x), codes(z));
            match b {
                Some(y) => {
                    if lex_order(codes(x), codes(y)) < 0 && lex_order(codes(y), codes(z)) < 0 {
                        crate::versions::lemma_lex_order_transitive(codes(x), codes(y), codes(z));
                    }
                },
                None => {},
            }
        },
        _ => {},
    }
}

fn date_chars(r: &Release) -> (k: Option<Vec<char>>)
    ensures
        match k {
            Some(v) => date_key(*r) == Some(v@),
            None => date_key(*r) is None,
        },
{
    match &r.published_at {
        Some(p) => Some(chars_of(p.as_str())),
        None => match &r.created_at {
            Some(c) => Some(chars_of(c.as_str())),
            None => None,
        },
    }
}

fn compare_dates(a: &Release, b: &Release) -> (r: i32)
    ensures
        r == key_order(date_key(*a), date_key(*b)),
{
    match (date_chars(a), date_chars(b)) {
        (None, None) => 0,
        (None, Some(_)) => -1,
        (Some(_), None) => 1,
        (Some(x), Some(y)) => crate::versions::compare_text(x.as_slice(), y.as_slice()),
    }
}

fn is_eligible(r: &Release, prerelease_only: Option<bool>) -> (b: bool)
    ensures
        b == eligible(*r, prerelease_only),
{
    !r.draft && match prerelease_only {
        Some(required) => r.prerelease == required,
        None => true,
    }
}

/// The release a channel picks is never a draft and, where a prerelease kind is required, is
/// of that kind: the beta channel never picks a stable release and the stable channel never a
/// prerelease. No other release of that kind that is not a draft is newer.
pub proof fn lemma_pick_kind(rs: Seq<Release>, prerelease_only: Option<bool>, i: int, j: int)
    requires
        is_pick(rs, prerelease_only, i),
        0 <= j < rs.len(),
    ensures
        !rs[i].draft,
        prerelease_only matches Some(k) ==> rs[i].prerelease == k,
        prerelease_only is None ==> (!rs[j].draft ==> key_order(date_key(rs[j]), date_key(rs[i]))
            <= 0),
        prerelease_only matches Some(k) ==> (!rs[j].draft && rs[j].prerelease == k ==> key_order(
            date_key(rs[j]),
            date_key(rs[i]),
        ) <= 0),
{
}

/// Picks the release a list-based channel installs: the newest non-draft release (of the
/// required prerelease kind, if any), by publication date, else creation date.
pub fn pick_from_list(releases: Vec<Release>, prerelease_only: Option<bool>) -> (r: Result<
    Release,
    String,
>)
    ensures
        r is Ok <==> exists|i: int|
            0 <= i < releases@.len() && eligible(#[trigger] releases@[i], prerelease_only),
        r matches Ok(rel) ==> exists|i: int|
            is_pick(releases@, prerelease_only, i) && rel == releases@[i],
        r matches Ok(rel) ==> !rel.draft && (prerelease_only matches Some(k) ==> rel.prerelease
            == k),
        r matches Err(m) ==> m@ == "No GitHub release found for selected channel"@,
{
    let mut releases = releases;
    let ghost rs = releases@;
    let mut best: Option<usize> = None;
    let mut i: usize = 0;
    while i < releases.len()
        invariant
            releases@ == rs,
            i <= rs.len(),
            match best {
                Some(b) => {
                    &&& b < i
                    &&& eligible(rs[b as int], prerelease_only)
                    &&& forall|j: int|
                        0 <= j < i && eligible(#[trigger] rs[j], prerelease_only) ==> key_order(
                            date_key(rs[j]),
                            date_key(rs[b as int]),
                        ) <= 0
                    &&& forall|j: int|
                        0 <= j < b && eligible(#[trigger] rs[j], prerelease_only) ==> key_order(
                            date_key(rs[j]),
                            date_key(rs[b as int]),
                        ) < 0
                },
                None => forall|j: int| 0 <= j < i ==> !eligible(#[trigger] rs[j], prerelease_only),
            },
        decreases rs.len() - i,
    {
        proof {
            lemma_key_order(date_key(rs[i as int]), date_key(rs[i as int]), date_key(rs[i as int]));
        }
        if is_eligible(&releases[i], prerelease_only) {
            match best {
                None => {
                    best = Some(i);
                },
                Some(b) => {
                    if compare_dates(&releases[i], &releases[b]) > 0 {
                        proof {
                            assert forall|j: int|
                                0 <= j < i + 1 && eligible(#[trigger] rs[j], prerelease_only)
                                implies key_order(date_key(rs[j]), date_key(rs[i as int])) <= 0 by {
                                lemma_key_order(date_key(rs[j]), date_key(rs[b as int]), date_key(rs[i as int]));
                                lemma_key_order(date_key(rs[i as int]), date_key(rs[b as int]), date_key(rs[i as int]));
                            }
                            assert forall|j: int|
                                0 <= j < i && eligible(#[trigger] rs[j], prerelease_only)
                                implies key_order(date_key(rs[j]), date_key(rs[i as int])) < 0 by {
                                lemma_key_order(date_key(rs[j]), date_key(rs[b as int]), date_key(rs[i as int]));
                                lemma_key_order(date_key(rs[i as int]), date_key(rs[b as int]), date_key(rs[i as int]));
                            }
                        }
                        best = Some(i);
                    }
                },
            }
        }
        i = i + 1;
    }
    match best {
        None => Err(String::from_str("No GitHub release found for selected channel")),
        Some(b) => {
            proof {
                lemma_pick_kind(rs, prerelease_only, b as int, b as int);
            }
            let rel = releases.remove(b);
            Ok(rel)
        },
    }
}

/// The query that answers a release lookup.
pub enum FetchRequest {
    /// The release with this tag; if it is missing, the release with the `fallback` tag.
    Tag { tag: String, fallback: Option<String> },
    /// The latest stable release, with cache validators.
    Latest,
    /// The newest release of the list, optionally only prereleases or only stable ones.
    List(Option<bool>),
}

/// A pinned version that is neither blank nor `latest` selects a tag.
pub open spec fn is_pinned(pin: Seq<char>) -> bool {
    pin.len() > 0 && lower(pin) != lower("latest"@)
}

pub open spec fn starts_with_v(s: Seq<char>) -> bool {
    s.len() > 0 && (s[0] == 'v' || s[0] == 'V')
}

/// The channel that the prerelease switch stands for.
pub fn channel_for(allow_prerelease: bool) -> (r: &'static str)
    ensures
        r@ == (if allow_prerelease {
            "nightly"@
        } else {
            "stable"@
        }),
{
    if allow_prerelease {
        "nightly"
    } else {
        "stable"
    }
}

/// Decides which query answers a lookup on `channel` with the given pinned version.
///
/// A pinned version (trimmed, neither blank nor `latest` in any case) asks for that tag, and
/// for the same tag with a `v` in front when it does not start with `v` or `V`. Otherwise
/// `stable` asks for the latest release, `beta` for the newest prerelease and `nightly` for the
/// newest release of the list; any other channel is an error.
pub fn plan_fetch(channel: &str, pinned_version: &str) -> (r: Result<FetchRequest, String>)
    ensures
        is_pinned(trim(pinned_version@)) ==> (r matches Ok(FetchRequest::Tag { tag, fallback })
            && tag@ == trim(pinned_version@) && if starts_with_v(trim(pinned_version@)) {
            fallback is None
        } else {
            fallback matches Some(f) && f@ == seq!['v'] + trim(pinned_version@)
        }),
        !is_pinned(trim(pinned_version@)) ==> {
            if channel@ == "stable"@ {
                r matches Ok(FetchRequest::Latest)
            } else if channel@ == "beta"@ {
                r matches Ok(FetchRequest::List(Some(true)))
            } else if channel@ == "nightly"@ {
                r matches Ok(FetchRequest::List(None))
            } else {
                r matches Err(m) && m@ == "Unknown release channel: "@ + channel@
            }
        },
{
    let pin = trim_str(pinned_version);
    if pin.unicode_len() > 0 && !crate::text::same_text_ignoring_case(pin.as_str(), "latest") {
        let first = pin.as_str().get_char(0);
        let fallback = if first == 'v' || first == 'V' {
            None
        } else {
            let mut f = String::from_str("v");
            f.append(pin.as_str());
            proof {
                reveal_strlit("v");
                assert(f@ == seq!['v'] + trim(pinned_version@));
            }
            Some(f)
        };
        return Ok(FetchRequest::Tag { tag: pin, fallback });
    }
    if crate::text::same_text(channel, "stable") {
        Ok(FetchRequest::Latest)
    } else if crate::text::same_text(channel, "beta") {
        Ok(FetchRequest::List(Some(true)))
    } else if crate::text::same_text(channel, "nightly") {
        Ok(FetchRequest::List(None))
    } else {
        let mut m = String::from_str("Unknown release channel: ");
        m.append(channel);
        Err(m)
    }
}

/// Whether a stable lookup answered "not modified" must be asked again without validators,
/// so that the release itself comes back.
pub fn needs_unconditional_retry(first: &FetchResult) -> (r: bool)
    ensures
        r == first.not_modified,
{
    first.not_modified
}

/// The error when neither the pinned tag nor its `v`-prefixed form exists.
pub fn pinned_not_found(pin: &str, prefixed: &str, first_error: &str, second_error: &str) -> (r:
    String)
    ensures
        r@ == "Could not find pinned release '"@ + pin@ + "' or '"@ + prefixed@ + "': "@
            + first_error@ + "; "@ + second_error@,
{
    let mut m = String::from_str("Could not find pinned release '");
    m.append(pin);
    m.append("' or '");
    m.append(prefixed);
    m.append("': ");
    m.append(first_error);
    m.append("; ");
    m.append(second_error);
    m
}

} // verus!
