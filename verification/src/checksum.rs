//! SHA-256 checksum files (`<64 hex digits><two spaces or " *"><file name>` per line).
use vstd::prelude::*;
use sha2::Digest;
use vstd::string::StringExecFns;
use crate::text::{chars_of, copy_range, is_hex_digit, is_whitespace, is_whitespace_exec, string_of, trim_ws_start};

verus! {

/// Why a checksum file could not give the hash of the wanted asset.
#[derive(Debug, PartialEq, Eq)]
pub enum ChecksumError {
    /// A non-comment line shorter than 66 bytes (the line, cleaned).
    InvalidLine(String),
    /// The first 64 bytes of a line are not all hexadecimal digits.
    InvalidHash(String),
    /// The hash is not followed by two spaces or by `" *"` (the text after the hash).
    InvalidSeparator(String),
    /// A line names no file.
    EmptyFilename,
    /// No line names the wanted file.
    EntryNotFound(String),
}

/// What scanning a checksum file gives, in terms of its characters.
pub enum ChecksumOutcome {
    Found(Seq<char>),
    InvalidLine(Seq<char>),
    InvalidHash(Seq<char>),
    InvalidSeparator(Seq<char>),
    EmptyFilename,
    NotFound,
    /// Byte 64 of a line falls inside a multi-byte character, where
    /// a split of the line at that byte is impossible.
    NoSplit,
}

/// What one line contributes: nothing (keep scanning) or the final outcome.
pub enum LineStep {
    Skip,
    Done(ChecksumOutcome),
}

/// Number of bytes of the UTF-8 encoding of a character.
pub open spec fn utf8_width(c: char) -> int {
    let u = c as u32;
    if u < 0x80 {
        1
    } else if u < 0x800 {
        2
    } else if u < 0x10000 {
        3
    } else {
        4
    }
}

/// Number of bytes of the UTF-8 encoding of a text.
pub open spec fn byte_len(s: Seq<char>) -> int
    decreases s.len(),
{
    if s.len() == 0 {
        0
    } else {
        byte_len(s.drop_last()) + utf8_width(s.last())
    }
}

/// The number of characters whose encoding is exactly the first `n` bytes, if any.
pub open spec fn chars_for_bytes(s: Seq<char>, n: int) -> Option<int>
    decreases s.len(),
{
    if n == 0 {
        Some(0)
    } else if n < 0 || s.len() == 0 {
        None
    } else {
        match chars_for_bytes(s.drop_first(), n - utf8_width(s[0])) {
            Some(k) => Some(k + 1),
            None => None,
        }
    }
}

/// The text without its trailing carriage returns.
pub open spec fn trim_cr_end(s: Seq<char>) -> Seq<char>
    decreases s.len(),
{
    if s.len() > 0 && s.last() == '\r' {
        trim_cr_end(s.drop_last())
    } else {
        s
    }
}

/// A raw line after line-ending and leading-whitespace removal.
pub open spec fn clean(line: Seq<char>) -> Seq<char> {
    trim_ws_start(trim_cr_end(line))
}

pub open spec fn all_hex(s: Seq<char>) -> bool {
    forall|i: int| 0 <= i < s.len() ==> is_hex_digit(#[trigger] s[i])
}

/// What a cleaned line contributes to the search for `wanted`.
pub open spec fn line_step(l: Seq<char>, wanted: Seq<char>) -> LineStep {
    if l.len() == 0 || l[0] == '#' {
        LineStep::Skip
    } else if byte_len(l) < 66 {
        LineStep::Done(ChecksumOutcome::InvalidLine(l))
    } else {
        match chars_for_bytes(l, 64) {
            None => LineStep::Done(ChecksumOutcome::NoSplit),
            Some(k) => {
                let hash = l.take(k);
                let rest = l.skip(k);
                if !all_hex(hash) {
                    LineStep::Done(ChecksumOutcome::InvalidHash(hash))
                } else if rest.len() < 2 || !(rest[0] == ' ' && (rest[1] == ' ' || rest[1]
                    == '*')) {
                    LineStep::Done(ChecksumOutcome::InvalidSeparator(rest))
                } else if rest.len() == 2 {
                    LineStep::Done(ChecksumOutcome::EmptyFilename)
                } else if rest.skip(2) == wanted {
                    LineStep::Done(ChecksumOutcome::Found(hash))
                } else {
                    LineStep::Skip
                }
            },
        }
    }
}

/// Index of the `'\n'` that ends the line starting at `start`, or the text's length.
pub open spec fn line_end(t: Seq<char>, start: int) -> int
    decreases t.len() - start,
{
    if start < 0 || start >= t.len() {
        t.len() as int
    } else if t[start] == '\n' {
        start
    } else {
        line_end(t, start + 1)
    }
}

pub proof fn lemma_line_end_bounds(t: Seq<char>, start: int)
    requires
        0 <= start <= t.len(),
    ensures
        start <= line_end(t, start) <= t.len(),
        line_end(t, start) < t.len() ==> t[line_end(t, start)] == '\n',
        forall|i: int| start <= i < line_end(t, start) ==> t[i] != '\n',
    decreases t.len() - start,
{
    if start < t.len() && t[start] != '\n' {
        lemma_line_end_bounds(t, start + 1);
    }
}

/// The outcome of scanning the lines of `t` from character `start` on.
pub open spec fn scan_from(t: Seq<char>, start: int, wanted: Seq<char>) -> ChecksumOutcome
    decreases t.len() + 1 - start,
{
    if start < 0 || start > t.len() {
        ChecksumOutcome::NotFound
    } else {
        let e = line_end(t, start);
        match line_step(clean(t.subrange(start, e)), wanted) {
            LineStep::Skip => {
                proof {
                    lemma_line_end_bounds(t, start);
                }
                scan_from(t, e + 1, wanted)
            },
            LineStep::Done(o) => o,
        }
    }
}

/// The outcome of looking up `wanted` in the checksum text `t`.
pub open spec fn checksum_outcome(t: Seq<char>, wanted: Seq<char>) -> ChecksumOutcome {
    scan_from(t, 0, wanted)
}

/// Whether `r` is the result that stands for outcome `o`.
pub open spec fn reports(r: Result<String, ChecksumError>, o: ChecksumOutcome, wanted: Seq<char>) -> bool {
    match r {
        Ok(h) => o == ChecksumOutcome::Found(h@),
        Err(ChecksumError::InvalidLine(l)) => o == ChecksumOutcome::InvalidLine(l@),
        Err(ChecksumError::InvalidHash(h)) => o == ChecksumOutcome::InvalidHash(h@),
        Err(ChecksumError::InvalidSeparator(s)) => o == ChecksumOutcome::InvalidSeparator(s@),
        Err(ChecksumError::EmptyFilename) => o == ChecksumOutcome::EmptyFilename,
        Err(ChecksumError::EntryNotFound(w)) => o == ChecksumOutcome::NotFound && w@ == wanted,
    }
}

fn is_hex_exec(c: char) -> (r: bool)
    ensures
        r == is_hex_digit(c),
{
    ('0' <= c && c <= '9') || ('a' <= c && c <= 'f') || ('A' <= c && c <= 'F')
}

fn utf8_width_exec(c: char) -> (r: usize)
    ensures
        r == utf8_width(c),
{
    let u = c as u32;
    if u < 0x80 {
        1
    } else if u < 0x800 {
        2
    } else if u < 0x10000 {
        3
    } else {
        4
    }
}

/// The cleaned line `t[start..end]`.
fn clean_range(t: &[char], start: usize, end: usize) -> (r: Vec<char>)
    requires
        start <= end <= t@.len(),
    ensures
        r@ == clean(t@.subrange(start as int, end as int)),
{
    let mut b = end;
    while b > start && t[b - 1] == '\r'
        invariant
            start <= b <= end <= t@.len(),
            trim_cr_end(t@.subrange(start as int, end as int)) == trim_cr_end(
                t@.subrange(start as int, b as int),
            ),
        decreases b,
    {
        proof {
            assert(t@.subrange(start as int, b as int).drop_last() == t@.subrange(
                start as int,
                b - 1,
            ));
        }
        b = b - 1;
    }
    assert(trim_cr_end(t@.subrange(start as int, b as int)) == t@.subrange(start as int, b as int));
    let mut a = start;
    while a < b && is_whitespace_exec(t[a])
        invariant
            start <= a <= b <= t@.len(),
            trim_ws_start(t@.subrange(start as int, b as int)) == trim_ws_start(
                t@.subrange(a as int, b as int),
            ),
        decreases b - a,
    {
        proof {
            assert(t@.subrange(a as int, b as int).drop_first() == t@.subrange(a + 1, b as int));
        }
        a = a + 1;
    }
    assert(trim_ws_start(t@.subrange(a as int, b as int)) == t@.subrange(a as int, b as int));
    copy_range(t, a, b)
}

proof fn lemma_byte_len_prefix(s: Seq<char>, i: int)
    requires
        0 <= i < s.len(),
    ensures
        byte_len(s.take(i + 1)) == byte_len(s.take(i)) + utf8_width(s[i]),
{
    assert(s.take(i + 1).drop_last() == s.take(i));
}

proof fn lemma_byte_len_monotone(s: Seq<char>, i: int)
    requires
        0 <= i <= s.len(),
    ensures
        byte_len(s.take(i)) <= byte_len(s),
    decreases s.len() - i,
{
    if i < s.len() {
        lemma_byte_len_prefix(s, i);
        lemma_byte_len_monotone(s, i + 1);
    } else {
        assert(s.take(i) == s);
    }
}

/// Whether the UTF-8 encoding of `l` has at least 66 bytes.
fn has_66_bytes(l: &[char]) -> (r: bool)
    ensures
        r == (byte_len(l@) >= 66),
{
    let mut acc: usize = 0;
    let mut i: usize = 0;
    while i < l.len()
        invariant
            i <= l@.len(),
            acc == byte_len(l@.take(i as int)),
            acc < 66,
        decreases l.len() - i,
    {
        proof {
            lemma_byte_len_prefix(l@, i as int);
        }
        acc = acc + utf8_width_exec(l[i]);
        i = i + 1;
        if acc >= 66 {
            proof {
                lemma_byte_len_monotone(l@, i as int);
            }
            return true;
        }
    }
    assert(l@.take(i as int) == l@);
    false
}

pub open spec fn shift(o: Option<int>, by: int) -> Option<int> {
    match o {
        Some(k) => Some(k + by),
        None => None,
    }
}

/// The number of characters that make up exactly the first 64 bytes of `l`, if any.
fn chars_for_64_bytes(l: &[char]) -> (r: Option<usize>)
    ensures
        match r {
            Some(k) => chars_for_bytes(l@, 64) == Some(k as int),
            None => chars_for_bytes(l@, 64) is None,
        },
{
    let mut n: usize = 64;
    let mut i: usize = 0;
    assert(l@.skip(0) == l@);
    while n > 0
        invariant
            i <= l@.len(),
            n <= 64,
            chars_for_bytes(l@, 64) == shift(chars_for_bytes(l@.skip(i as int), n as int), i as int),
        decreases l@.len() - i,
    {
        if i == l.len() {
            assert(l@.skip(i as int).len() == 0);
            return None;
        }
        let w = utf8_width_exec(l[i]);
        proof {
            assert(l@.skip(i as int).drop_first() == l@.skip(i + 1));
            assert(l@.skip(i as int)[0] == l@[i as int]);
        }
        if w > n {
            assert(chars_for_bytes(l@.skip(i + 1), n - w) is None);
            return None;
        }
        n = n - w;
        i = i + 1;
    }
    Some(i)
}

enum Step {
    Skip,
    Done(Result<String, ChecksumError>),
    NoSplit,
}

/// What the cleaned line `l` contributes to the search for `wanted`.
fn classify(l: &[char], wanted: &[char]) -> (r: Step)
    ensures
        match r {
            Step::Skip => line_step(l@, wanted@) is Skip,
            Step::NoSplit => line_step(l@, wanted@) == LineStep::Done(ChecksumOutcome::NoSplit),
            Step::Done(res) => line_step(l@, wanted@) matches LineStep::Done(o) && reports(
                res,
                o,
                wanted@,
            ),
        },
{
    if l.len() == 0 || l[0] == '#' {
        return Step::Skip;
    }
    if !has_66_bytes(l) {
        return Step::Done(Err(ChecksumError::InvalidLine(string_of(l))));
    }
    let k = match chars_for_64_bytes(l) {
        None => return Step::NoSplit,
        Some(k) => k,
    };
    proof {
        lemma_chars_for_bytes_bound(l@, 64);
    }
    let mut j: usize = 0;
    while j < k
        invariant
            k <= l@.len(),
            j <= k,
            forall|m: int| 0 <= m < j ==> is_hex_digit(#[trigger] l@[m]),
            chars_for_bytes(l@, 64) == Some(k as int),
            byte_len(l@) >= 66,
            l@.len() > 0 && l@[0] != '#',
        decreases k - j,
    {
        if !is_hex_exec(l[j]) {
            let hash = copy_range(l, 0, k);
            assert(!all_hex(l@.take(k as int))) by {
                assert(l@.take(k as int)[j as int] == l@[j as int]);
            }
            assert(line_step(l@, wanted@) == LineStep::Done(
                ChecksumOutcome::InvalidHash(l@.take(k as int)),
            ));
            return Step::Done(Err(ChecksumError::InvalidHash(string_of(hash.as_slice()))));
        }
        j = j + 1;
    }
    assert(all_hex(l@.take(k as int)));
    let n = l.len();
    if n - k < 2 || !(l[k] == ' ' && (l[k + 1] == ' ' || l[k + 1] == '*')) {
        let rest = copy_range(l, k, n);
        assert(rest@ == l@.skip(k as int));
        return Step::Done(Err(ChecksumError::InvalidSeparator(string_of(rest.as_slice()))));
    }
    if n - k == 2 {
        return Step::Done(Err(ChecksumError::EmptyFilename));
    }
    let name = copy_range(l, k + 2, n);
    assert(name@ == l@.skip(k as int).skip(2));
    if crate::text::matches_at(name.as_slice(), 0, wanted) && name.len() == wanted.len() {
        assert(name@ == wanted@) by {
            assert(name@.subrange(0, wanted@.len() as int) == name@);
        }
        let hash = copy_range(l, 0, k);
        return Step::Done(Ok(string_of(hash.as_slice())));
    }
    assert(name@ != wanted@) by {
        if name@.len() == wanted@.len() {
            assert(name@.subrange(0, wanted@.len() as int) == name@);
        }
    }
    Step::Skip
}

proof fn lemma_chars_for_bytes_bound(s: Seq<char>, n: int)
    ensures
        chars_for_bytes(s, n) matches Some(k) ==> 0 <= k <= s.len(),
    decreases s.len(),
{
    if n != 0 && n >= 0 && s.len() > 0 {
        lemma_chars_for_bytes_bound(s.drop_first(), n - utf8_width(s[0]));
    }
}

/// Scans the lines of `text`; `None` where a line cannot be split at its 64th byte.
fn scan(text: &str, wanted: &str) -> (r: Option<Result<String, ChecksumError>>)
    ensures
        r is None <==> checksum_outcome(text@, wanted@) is NoSplit,
        r matches Some(res) ==> reports(res, checksum_outcome(text@, wanted@), wanted@),
{
    let t = chars_of(text);
    let w = chars_of(wanted);
    let n = t.len();
    let mut start: usize = 0;
    loop
        invariant
            t@ == text@,
            w@ == wanted@,
            n == t@.len(),
            start <= n,
            checksum_outcome(text@, wanted@) == scan_from(t@, start as int, wanted@),
        decreases n - start,
    {
        let mut e = start;
        while e < n && t[e] != '\n'
            invariant
                start <= e <= n,
                n == t@.len(),
                forall|i: int| start <= i < e ==> t@[i] != '\n',
            decreases n - e,
        {
            e = e + 1;
        }
        proof {
            lemma_line_end_bounds(t@, start as int);
            lemma_line_end_is(t@, start as int, e as int);
        }
        let line = clean_range(t.as_slice(), start, e);
        match classify(line.as_slice(), w.as_slice()) {
            Step::Skip => {
                if e == n {
                    assert(scan_from(t@, e + 1, wanted@) == ChecksumOutcome::NotFound);
                    return Some(Err(ChecksumError::EntryNotFound(crate::text::string_of(w.as_slice()))));
                }
                start = e + 1;
            },
            Step::NoSplit => {
                return None;
            },
            Step::Done(res) => {
                return Some(res);
            },
        }
    }
}

proof fn lemma_line_end_is(t: Seq<char>, start: int, e: int)
    requires
        0 <= start <= e <= t.len(),
        e == t.len() || t[e] == '\n',
        forall|i: int| start <= i < e ==> t[i] != '\n',
    ensures
        line_end(t, start) == e,
    decreases e - start,
{
    if start < e {
        lemma_line_end_is(t, start + 1, e);
    }
}

/// Position `s` of the text `t` is where a line starts.
pub open spec fn starts_line(t: Seq<char>, s: int) -> bool {
    0 <= s <= t.len() && (s == 0 || t[s - 1] == '\n')
}

/// The line of `t` that starts at `s`, without its line ending and leading whitespace.
pub open spec fn line_at(t: Seq<char>, s: int) -> Seq<char> {
    clean(t.subrange(s, line_end(t, s)))
}

/// The cleaned line `l` is the hash `h` followed by a separator (two spaces or `" *"`) and
/// then exactly the file name `name`.
pub open spec fn entry_line(l: Seq<char>, h: Seq<char>, name: Seq<char>) -> bool {
    l == h + "  "@ + name || l == h + " *"@ + name
}

/// The cleaned line `l` is a well-formed entry, 64 hexadecimal digits and a separator, for
/// exactly the file name `name`.
pub open spec fn names_entry(l: Seq<char>, name: Seq<char>) -> bool {
    exists|h: Seq<char>| h.len() == 64 && all_hex(h) && #[trigger] entry_line(l, h, name)
}

proof fn lemma_byte_len_at_least_len(s: Seq<char>)
    ensures
        byte_len(s) >= s.len(),
    decreases s.len(),
{
    if s.len() > 0 {
        lemma_byte_len_at_least_len(s.drop_last());
    }
}

proof fn lemma_hex_prefix_bytes(l: Seq<char>, n: int)
    requires
        0 <= n <= l.len(),
        forall|i: int| 0 <= i < n ==> is_hex_digit(#[trigger] l[i]),
    ensures
        chars_for_bytes(l, n) == Some(n),
    decreases n,
{
    if n > 0 {
        assert(is_hex_digit(l[0]));
        assert(utf8_width(l[0]) == 1);
        let d = l.drop_first();
        assert forall|i: int| 0 <= i < n - 1 implies is_hex_digit(#[trigger] d[i]) by {
            assert(d[i] == l[i + 1]);
            assert(is_hex_digit(l[i + 1]));
        }
        lemma_hex_prefix_bytes(d, n - 1);
    }
}

/// A well-formed entry for exactly the wanted name ends the search, with its hash where the
/// name is not empty.
proof fn lemma_entry_found(l: Seq<char>, h: Seq<char>, wanted: Seq<char>)
    requires
        h.len() == 64,
        all_hex(h),
        entry_line(l, h, wanted),
    ensures
        line_step(l, wanted) is Done,
        wanted.len() > 0 ==> line_step(l, wanted) == LineStep::Done(ChecksumOutcome::Found(h)),
{
    reveal_strlit("  ");
    reveal_strlit(" *");
    assert(l.len() == 66 + wanted.len());
    assert(l[0] == h[0]);
    lemma_byte_len_at_least_len(l);
    assert forall|i: int| 0 <= i < 64 implies is_hex_digit(#[trigger] l[i]) by {
        assert(l[i] == h[i]);
    }
    lemma_hex_prefix_bytes(l, 64);
    assert(l.take(64) =~= h);
    let rest = l.skip(64);
    assert(rest[0] == ' ');
    assert(rest[1] == ' ' || rest[1] == '*');
    assert(rest.skip(2) =~= wanted);
}

/// Scanning from a line start finds a hash only on a later line that is exactly that hash,
/// a separator and the wanted name, and no line scanned before it names the wanted file.
proof fn lemma_scan_found(t: Seq<char>, start: int, wanted: Seq<char>, h: Seq<char>)
    requires
        start > t.len() || starts_line(t, start),
        scan_from(t, start, wanted) == ChecksumOutcome::Found(h),
    ensures
        all_hex(h),
        exists|s: int|
            start <= s && starts_line(t, s) && entry_line(line_at(t, s), h, wanted) && forall|
                p: int,
            |
                start <= p < s && starts_line(t, p) ==> !names_entry(#[trigger] line_at(t, p), wanted),
    decreases t.len() + 1 - start,
{
    reveal_strlit("  ");
    reveal_strlit(" *");
    lemma_line_end_bounds(t, start);
    let e = line_end(t, start);
    let l = line_at(t, start);
    match line_step(l, wanted) {
        LineStep::Skip => {
            lemma_scan_found(t, e + 1, wanted, h);
            let s = choose|s: int|
                e + 1 <= s && starts_line(t, s) && entry_line(line_at(t, s), h, wanted) && forall|
                    p: int,
                |
                    e + 1 <= p < s && starts_line(t, p) ==> !names_entry(#[trigger] line_at(t, p), wanted);
            assert forall|p: int|
                start <= p < s && starts_line(t, p) implies !names_entry(#[trigger] line_at(t, p), wanted) by {
                if p == start {
                    if names_entry(l, wanted) {
                        let h2 = choose|h2: Seq<char>| h2.len() == 64 && all_hex(h2) && #[trigger] entry_line(l, h2, wanted);
                        lemma_entry_found(l, h2, wanted);
                    }
                } else if p <= e {
                    assert(t[p - 1] != '\n');
                }
            }
        },
        LineStep::Done(o) => {
            let k = chars_for_bytes(l, 64)->Some_0;
            lemma_chars_for_bytes_bound(l, 64);
            let rest = l.skip(k);
            assert(h == l.take(k));
            if rest[1] == ' ' {
                assert(l =~= h + "  "@ + wanted) by {
                    assert(rest =~= "  "@ + wanted);
                }
            } else {
                assert(l =~= h + " *"@ + wanted) by {
                    assert(rest =~= " *"@ + wanted);
                }
            }
            assert(entry_line(line_at(t, start), h, wanted));
        },
    }
}

/// What a found hash is: the hash part of a line of the text that is exactly that hash, a
/// separator (two spaces or `" *"`) and the wanted file name, hexadecimal digits only, where
/// no earlier line is a well-formed entry for exactly that name. A line whose name merely ends
/// or begins with the wanted name never gives its hash.
pub proof fn lemma_found_hash_line(t: Seq<char>, wanted: Seq<char>, h: Seq<char>)
    requires
        checksum_outcome(t, wanted) == ChecksumOutcome::Found(h),
    ensures
        all_hex(h),
        exists|s: int|
            starts_line(t, s) && entry_line(line_at(t, s), h, wanted) && forall|p: int|
                0 <= p < s && starts_line(t, p) ==> !names_entry(#[trigger] line_at(t, p), wanted),
{
    lemma_scan_found(t, 0, wanted, h);
}

/// Looks up the SHA-256 hash that the checksum file `text` gives for the file `wanted`.
///
/// Blank lines and lines starting with `#` (after leading whitespace) are skipped;
/// line endings may be `\n` or `\r\n`. The first malformed line ends the search with an error.
pub fn parse_checksum(text: &str, wanted: &str) -> (r: Result<String, ChecksumError>)
    requires
        !(checksum_outcome(text@, wanted@) is NoSplit),
    ensures
        reports(r, checksum_outcome(text@, wanted@), wanted@),
        r matches Ok(h) ==> all_hex(h@) && exists|s: int|
            starts_line(text@, s) && entry_line(line_at(text@, s), h@, wanted@),
{
    proof {
        if let ChecksumOutcome::Found(h) = checksum_outcome(text@, wanted@) {
            lemma_found_hash_line(text@, wanted@, h);
        }
    }
    match scan(text, wanted) {
        Some(r) => r,
        None => Err(ChecksumError::EmptyFilename),
    }
}

/// Whether every line that the lookup of `wanted` in `text` reaches can be split at its 64th byte.
pub fn checksum_lines_split(text: &str, wanted: &str) -> (r: bool)
    ensures
        r == !(checksum_outcome(text@, wanted@) is NoSplit),
{
    scan(text, wanted).is_some()
}

/// The SHA-256 digest of a byte sequence, as `sha2::Sha256::digest` computes it.
pub uninterp spec fn sha256_of(data: Seq<u8>) -> Seq<u8>;

/// Hashes `data` with `sha2::Sha256::digest`; the contract claims the 32-byte result is the
/// digest that `sha256_of` names for the data.
#[verifier::external_body]
fn sha256_digest(data: &[u8]) -> (r: Vec<u8>)
    ensures
        r@ == sha256_of(data@),
        r@.len() == 32,
{
    sha2::Sha256::digest(data).to_vec()
}

/// Lower-case hexadecimal digit of a nibble.
pub open spec fn hex_lower(n: u8) -> char {
    if n < 10 {
        ((n + 0x30) as u8) as char
    } else {
        ((n - 10 + 0x61) as u8) as char
    }
}

/// Lower-case hexadecimal notation of bytes, two digits per byte.
pub open spec fn hex_text(b: Seq<u8>) -> Seq<char>
    decreases b.len(),
{
    if b.len() == 0 {
        seq![]
    } else {
        hex_text(b.drop_last()) + seq![hex_lower(b.last() / 16), hex_lower(b.last() % 16)]
    }
}

fn hex_lower_exec(n: u8) -> (c: char)
    requires
        n < 16,
    ensures
        c == hex_lower(n),
{
    if n < 10 {
        (n + 0x30) as char
    } else {
        (n - 10 + 0x61) as char
    }
}

/// Lower-case hexadecimal notation of bytes.
pub fn hex(bytes: &[u8]) -> (r: String)
    ensures
        r@ == hex_text(bytes@),
{
    let mut out = String::new();
    let mut i: usize = 0;
    while i < bytes.len()
        invariant
            i <= bytes@.len(),
            out@ == hex_text(bytes@.take(i as int)),
        decreases bytes.len() - i,
    {
        proof {
            assert(bytes@.take(i + 1).drop_last() == bytes@.take(i as int));
        }
        let x = bytes[i];
        out.push(hex_lower_exec(x / 16));
        out.push(hex_lower_exec(x % 16));
        i = i + 1;
    }
    assert(bytes@.take(i as int) == bytes@);
    out
}

/// The SHA-256 of a downloaded file's contents, in lower-case hexadecimal.
pub fn file_sha256(contents: &[u8]) -> (r: String)
    ensures
        r@ == hex_text(sha256_of(contents@)),
{
    let d = sha256_digest(contents);
    hex(d.as_slice())
}

/// The message of a checksum file problem.
pub fn checksum_message(e: &ChecksumError) -> (r: String)
    ensures
        match e {
            ChecksumError::InvalidLine(l) => r@ == "Invalid checksum line: "@ + l@,
            ChecksumError::InvalidHash(h) => r@ == "Invalid SHA-256 value: "@ + h@,
            ChecksumError::InvalidSeparator(s) => r@ == "Invalid checksum separator: "@ + s@,
            ChecksumError::EmptyFilename => r@ == "Checksum filename is empty"@,
            ChecksumError::EntryNotFound(w) => r@ == "Checksum entry not found for "@ + w@,
        },
{
    let (head, tail): (&str, &str) = match e {
        ChecksumError::InvalidLine(l) => ("Invalid checksum line: ", l.as_str()),
        ChecksumError::InvalidHash(h) => ("Invalid SHA-256 value: ", h.as_str()),
        ChecksumError::InvalidSeparator(s) => ("Invalid checksum separator: ", s.as_str()),
        ChecksumError::EmptyFilename => ("Checksum filename is empty", ""),
        ChecksumError::EntryNotFound(w) => ("Checksum entry not found for ", w.as_str()),
    };
    let mut r = String::from_str(head);
    r.append(tail);
    proof {
        reveal_strlit("");
    }
    r
}

/// Checks a downloaded file against the checksum file `checksum_text`: the hash listed for
/// `asset_name` must equal the file's SHA-256, ignoring case.
pub fn verify_sha256(checksum_text: &str, asset_name: &str, contents: &[u8]) -> (r: Result<(), String>)
    requires
        !(checksum_outcome(checksum_text@, asset_name@) is NoSplit),
    ensures
        match checksum_outcome(checksum_text@, asset_name@) {
            ChecksumOutcome::Found(expected) => {
                let actual = hex_text(sha256_of(contents@));
                if crate::text::lower(actual) == crate::text::lower(expected) {
                    r is Ok
                } else {
                    r matches Err(e) && e@ == "SHA-256 mismatch for "@ + asset_name@
                        + ": expected "@ + expected + ", got "@ + actual
                }
            },
            ChecksumOutcome::InvalidLine(l) => r matches Err(e) && e@ == "Invalid checksum line: "@ + l,
            ChecksumOutcome::InvalidHash(h) => r matches Err(e) && e@ == "Invalid SHA-256 value: "@ + h,
            ChecksumOutcome::InvalidSeparator(x) => r matches Err(e) && e@
                == "Invalid checksum separator: "@ + x,
            ChecksumOutcome::EmptyFilename => r matches Err(e) && e@ == "Checksum filename is empty"@,
            ChecksumOutcome::NotFound => r matches Err(e) && e@ == "Checksum entry not found for "@
                + asset_name@,
            ChecksumOutcome::NoSplit => true,
        },
{
    let expected = match parse_checksum(checksum_text, asset_name) {
        Ok(h) => h,
        Err(e) => return Err(checksum_message(&e)),
    };
    let actual = file_sha256(contents);
    if crate::text::same_text_ignoring_case(actual.as_str(), expected.as_str()) {
        Ok(())
    } else {
        let mut e = String::from_str("SHA-256 mismatch for ");
        e.append(asset_name);
        e.append(": expected ");
        e.append(expected.as_str());
        e.append(", got ");
        e.append(actual.as_str());
        Err(e)
    }
}

} // verus!
