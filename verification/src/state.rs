//! The persisted state of a managed application: installed tag, cache validators, install time.
use vstd::prelude::*;
use crate::release::Validators;
use crate::store::{name_start, recover, recovered, Stored};
use crate::text::{chars_of, copy_range, string_of};
use vstd::string::StringExecFns;

verus! {

/// What is remembered between runs about one managed application.
pub struct State {
    pub latest_tag: String,
    pub etag: String,
    pub last_modified: String,
    pub installed_at_unix: u64,
}

impl Default for State {
    fn default() -> (s: State)
        ensures
            s.latest_tag@.len() == 0,
            s.etag@.len() == 0,
            s.last_modified@.len() == 0,
            s.installed_at_unix == 0,
    {
        State {
            latest_tag: String::new(),
            etag: String::new(),
            last_modified: String::new(),
            installed_at_unix: 0,
        }
    }
}

/// Index where the extension of a file name starts (its last `.` unless that is the first
/// character), or the name's length when it has none.
pub open spec fn stem_end(name: Seq<char>) -> int
    decreases name.len(),
{
    if name.len() <= 1 {
        name.len() as int
    } else if name.last() == '.' {
        name.len() - 1
    } else {
        let e = stem_end(name.drop_last());
        if e == name.len() - 1 {
            name.len() as int
        } else {
            e
        }
    }
}

/// The path with the extension of its file name replaced by `json.bak`; a path without a
/// file name (empty, ending in a separator, or `.`/`..`) is kept.
pub open spec fn backup_of(path: Seq<char>) -> Seq<char> {
    let k = name_start(path);
    let name = path.skip(k);
    if name.len() == 0 || name == "."@ || name == ".."@ {
        path
    } else {
        path.take(k + stem_end(name)) + ".json.bak"@
    }
}

proof fn lemma_stem_end(name: Seq<char>)
    ensures
        0 <= stem_end(name) <= name.len(),
    decreases name.len(),
{
    if name.len() > 1 && name.last() != '.' {
        lemma_stem_end(name.drop_last());
    }
}

fn find_stem_end(name: &[char]) -> (r: usize)
    ensures
        r == stem_end(name@),
    decreases name@.len(),
{
    let n = name.len();
    if n <= 1 {
        return n;
    }
    if name[n - 1] == '.' {
        return n - 1;
    }
    let d = copy_range(name, 0, n - 1);
    assert(d@ == name@.drop_last());
    let e = find_stem_end(d.as_slice());
    if e == n - 1 {
        n
    } else {
        e
    }
}

/// The backup path that a state file is recovered from (`state.json` gives `state.json.bak`).
pub fn backup_path(path: &str) -> (r: String)
    ensures
        r@ == backup_of(path@),
{
    let v = chars_of(path);
    let mut k = v.len();
    assert(v@.subrange(0, k as int) == v@);
    while k > 0 && !(v[k - 1] == '/' || v[k - 1] == '\\')
        invariant
            k <= v@.len(),
            name_start(v@) == name_start(v@.subrange(0, k as int)),
        decreases k,
    {
        proof {
            assert(v@.subrange(0, k as int).drop_last() == v@.subrange(0, k - 1));
        }
        k = k - 1;
    }
    let name = copy_range(v.as_slice(), k, v.len());
    assert(name@ == v@.skip(k as int));
    let n = name.len();
    if n == 0 || (n == 1 && name[0] == '.') || (n == 2 && name[0] == '.' && name[1] == '.') {
        proof {
            reveal_strlit(".");
            reveal_strlit("..");
            if n == 1 {
                assert(name@ =~= "."@);
            } else if n == 2 {
                assert(name@ =~= ".."@);
            }
        }
        return string_of(v.as_slice());
    }
    proof {
        reveal_strlit(".");
        reveal_strlit("..");
        assert(name@ != "."@ && name@ != ".."@);
    }
    let e = find_stem_end(name.as_slice());
    proof {
        lemma_stem_end(name@);
    }
    let head = copy_range(v.as_slice(), 0, k + e);
    let mut r = string_of(head.as_slice());
    r.append(".json.bak");
    r
}

/// The state from the state file and its backup copy.
pub fn load(primary: Stored<State>, backup: Stored<State>) -> (r: Result<Option<State>, String>)
    ensures
        r == recovered(primary, backup),
{
    recover(primary, backup)
}

/// A validator from a fresh response, or the previous one when the response sent none.
pub open spec fn kept(fresh: Seq<char>, previous: Seq<char>) -> Seq<char> {
    if fresh.len() == 0 {
        previous
    } else {
        fresh
    }
}

fn keep_validator(fresh: &String, previous: &String) -> (r: String)
    ensures
        r@ == kept(fresh@, previous@),
{
    if fresh.as_str().unicode_len() == 0 {
        previous.clone()
    } else {
        fresh.clone()
    }
}

/// The state to save after a check found `current_tag` installed: the tag, the fresh cache
/// validators (or the previous ones where none came), and the install time `now` when none
/// was recorded.
pub fn save_validators(
    existing: Option<State>,
    current_tag: &str,
    previous: &Validators,
    fresh: &Validators,
    now: u64,
) -> (s: State)
    ensures
        s.latest_tag@ == current_tag@,
        s.etag@ == kept(fresh.etag@, previous.etag@),
        s.last_modified@ == kept(fresh.last_modified@, previous.last_modified@),
        s.installed_at_unix == (match existing {
            Some(e) => if e.installed_at_unix == 0 {
                now
            } else {
                e.installed_at_unix
            },
            None => now,
        }),
{
    let mut value = match existing {
        Some(e) => e,
        None => State::default(),
    };
    value.latest_tag = String::from_str(current_tag);
    value.etag = keep_validator(&fresh.etag, &previous.etag);
    value.last_modified = keep_validator(&fresh.last_modified, &previous.last_modified);
    if value.installed_at_unix == 0 {
        value.installed_at_unix = now;
    }
    value
}

/// The state to save after installing `current_tag` at time `now`.
pub fn save_state(
    existing: Option<State>,
    current_tag: &str,
    previous: &Validators,
    fresh: &Validators,
    now: u64,
) -> (s: State)
    ensures
        s.latest_tag@ == current_tag@,
        s.etag@ == kept(fresh.etag@, previous.etag@),
        s.last_modified@ == kept(fresh.last_modified@, previous.last_modified@),
        s.installed_at_unix == now,
{
    let mut value = match existing {
        Some(e) => e,
        None => State::default(),
    };
    value.latest_tag = String::from_str(current_tag);
    value.etag = keep_validator(&fresh.etag, &previous.etag);
    value.last_modified = keep_validator(&fresh.last_modified, &previous.last_modified);
    value.installed_at_unix = now;
    value
}

/// The validators a saved state carries into the next request (empty without a state).
pub fn previous_validators(existing: &Option<State>) -> (v: Validators)
    ensures
        match existing {
            Some(s) => v.etag@ == s.etag@ && v.last_modified@ == s.last_modified@,
            None => v.etag@.len() == 0 && v.last_modified@.len() == 0,
        },
{
    match existing {
        Some(s) => Validators { etag: s.etag.clone(), last_modified: s.last_modified.clone() },
        None => Validators::empty(),
    }
}

} // verus!
