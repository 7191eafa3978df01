//! Windows scheduled tasks that run a profile unattended, and the command line they use.
use vstd::prelude::*;
use crate::profiles::{first_named, Profile};
use crate::text::{chars_of, decimal, decimal_text, is_alnum, string_of};
use vstd::string::StringExecFns;

verus! {

pub open spec fn task_char(c: char) -> char {
    if is_alnum(c) || c == '-' || c == '_' {
        c
    } else {
        '_'
    }
}

/// The scheduled task name of a profile: `DistronomiconDesktop-` and the profile name with
/// every character other than ASCII letters, digits, `-` and `_` replaced by `_`.
pub open spec fn task_name_of(profile: Seq<char>) -> Seq<char> {
    "DistronomiconDesktop-"@ + profile.map_values(|c: char| task_char(c))
}

/// The scheduled task name of a profile.
pub fn task_name(profile: &str) -> (r: String)
    ensures
        r@ == task_name_of(profile@),
{
    let v = chars_of(profile);
    let mut out = String::from_str("DistronomiconDesktop-");
    let ghost prefix = out@;
    let mut i: usize = 0;
    while i < v.len()
        invariant
            i <= v@.len(),
            prefix == "DistronomiconDesktop-"@,
            out@ == prefix + v@.take(i as int).map_values(|c: char| task_char(c)),
        decreases v.len() - i,
    {
        let c = v[i];
        let ok = ('0' <= c && c <= '9') || ('a' <= c && c <= 'z') || ('A' <= c && c <= 'Z') || c
            == '-' || c == '_';
        out.push(if ok {
            c
        } else {
            '_'
        });
        proof {
            assert(v@.take(i + 1).map_values(|c: char| task_char(c)) == v@.take(i as int).map_values(
                |c: char| task_char(c),
            ).push(task_char(c)));
        }
        i = i + 1;
    }
    assert(v@.take(i as int) == v@);
    out
}

/// The repetition interval of a task, in minutes between 1 and 1440.
pub open spec fn clamped_minutes(interval: u32) -> nat {
    if interval < 1 {
        1
    } else if interval > 1440 {
        1440
    } else {
        interval as nat
    }
}

/// The text without `"` characters.
pub open spec fn without_quotes(s: Seq<char>) -> Seq<char>
    decreases s.len(),
{
    if s.len() == 0 {
        s
    } else if s.last() == '"' {
        without_quotes(s.drop_last())
    } else {
        without_quotes(s.drop_last()).push(s.last())
    }
}

fn strip_quotes(s: &str) -> (r: String)
    ensures
        r@ == without_quotes(s@),
{
    let v = chars_of(s);
    let mut out = String::new();
    let mut i: usize = 0;
    while i < v.len()
        invariant
            i <= v@.len(),
            out@ == without_quotes(v@.take(i as int)),
        decreases v.len() - i,
    {
        proof {
            assert(v@.take(i + 1).drop_last() == v@.take(i as int));
            assert(v@.take(i + 1).last() == v@[i as int]);
        }
        if v[i] != '"' {
            out.push(v[i]);
        }
        i = i + 1;
    }
    assert(v@.take(i as int) == v@);
    out
}

/// The command a task runs: the program, the profile (without quotes) and the mode.
pub open spec fn task_action(profile: Seq<char>, exe: Seq<char>, mode: Seq<char>) -> Seq<char> {
    "\""@ + exe + "\" --scheduled-profile \""@ + without_quotes(profile) + "\" --scheduled-mode "@
        + mode
}

/// The `schtasks.exe` arguments that create (or replace) the task of a profile, repeating
/// every `interval_minutes` (kept between 1 and 1440).
pub fn install_args(profile: &str, exe: &str, mode: &str, interval_minutes: u32) -> (r: Vec<String>)
    ensures
        r@.len() == 10,
        r@[0]@ == "/Create"@,
        r@[1]@ == "/F"@,
        r@[2]@ == "/SC"@,
        r@[3]@ == "MINUTE"@,
        r@[4]@ == "/MO"@,
        r@[5]@ == decimal_text(clamped_minutes(interval_minutes)),
        r@[6]@ == "/TN"@,
        r@[7]@ == task_name_of(profile@),
        r@[8]@ == "/TR"@,
        r@[9]@ == task_action(profile@, exe@, mode@),
{
    let minutes: u32 = if interval_minutes < 1 {
        1
    } else if interval_minutes > 1440 {
        1440
    } else {
        interval_minutes
    };
    let mut action = String::from_str("\"");
    action.append(exe);
    action.append("\" --scheduled-profile \"");
    let p = strip_quotes(profile);
    action.append(p.as_str());
    action.append("\" --scheduled-mode ");
    action.append(mode);
    let mut r: Vec<String> = Vec::new();
    r.push(String::from_str("/Create"));
    r.push(String::from_str("/F"));
    r.push(String::from_str("/SC"));
    r.push(String::from_str("MINUTE"));
    r.push(String::from_str("/MO"));
    r.push(decimal(minutes as u64));
    r.push(String::from_str("/TN"));
    r.push(task_name(profile));
    r.push(String::from_str("/TR"));
    r.push(action);
    r
}

/// The `schtasks.exe` arguments that delete the task of a profile.
pub fn uninstall_args(profile: &str) -> (r: Vec<String>)
    ensures
        r@.len() == 4,
        r@[0]@ == "/Delete"@,
        r@[1]@ == "/F"@,
        r@[2]@ == "/TN"@,
        r@[3]@ == task_name_of(profile@),
{
    let mut r: Vec<String> = Vec::new();
    r.push(String::from_str("/Delete"));
    r.push(String::from_str("/F"));
    r.push(String::from_str("/TN"));
    r.push(task_name(profile));
    r
}

/// The argument after the first occurrence of `key` that has one.
pub open spec fn arg_after(args: Seq<String>, key: Seq<char>) -> Option<Seq<char>>
    decreases args.len(),
{
    if args.len() < 2 {
        None
    } else if args[0]@ == key {
        Some(args[1]@)
    } else {
        arg_after(args.drop_first(), key)
    }
}

/// The value given for `key` on the command line: the argument right after it.
pub fn arg_value(args: &[String], key: &str) -> (r: Option<String>)
    ensures
        match r {
            Some(v) => arg_after(args@, key@) == Some(v@),
            None => arg_after(args@, key@) is None,
        },
{
    let mut i: usize = 0;
    assert(args@.skip(0) == args@);
    while i < args.len() && args.len() - i >= 2
        invariant
            i <= args@.len(),
            arg_after(args@, key@) == arg_after(args@.skip(i as int), key@),
        decreases args.len() - i,
    {
        if crate::text::same_text(args[i].as_str(), key) {
            assert(args@.skip(i as int)[0] == args@[i as int]);
            assert(args@.skip(i as int)[1] == args@[i + 1]);
            return Some(args[i + 1].clone());
        }
        proof {
            assert(args@.skip(i as int).drop_first() == args@.skip(i + 1));
            assert(args@.skip(i as int)[0] == args@[i as int]);
        }
        i = i + 1;
    }
    assert(args@.skip(i as int).len() < 2);
    None
}

/// A run requested by a scheduled task.
pub struct ScheduledRun {
    pub profile: String,
    pub mode: String,
}

/// Recognizes a scheduled start: `--scheduled-profile <name>` names the profile, and
/// `--scheduled-mode <mode>` the mode (`check` when absent).
pub fn maybe_run(args: &[String]) -> (r: Option<ScheduledRun>)
    ensures
        match arg_after(args@, "--scheduled-profile"@) {
            None => r is None,
            Some(p) => r matches Some(run) && run.profile@ == p && run.mode@ == match arg_after(
                args@,
                "--scheduled-mode"@,
            ) {
                Some(m) => m,
                None => "check"@,
            },
        },
{
    let profile = match arg_value(args, "--scheduled-profile") {
        Some(p) => p,
        None => return None,
    };
    let mode = match arg_value(args, "--scheduled-mode") {
        Some(m) => m,
        None => String::from_str("check"),
    };
    Some(ScheduledRun { profile, mode })
}

/// The exit code of a scheduled run.
pub fn exit_code(succeeded: bool) -> (r: i32)
    ensures
        r == (if succeeded {
            0i32
        } else {
            1i32
        }),
{
    if succeeded {
        0
    } else {
        1
    }
}

/// Whether a scheduled run installs updates (mode `update`, in any case) rather than only
/// previewing them.
pub fn runs_update(mode: &str) -> (r: bool)
    ensures
        r == (crate::text::lower(mode@) == crate::text::lower("update"@)),
{
    crate::text::same_text_ignoring_case(mode, "update")
}

/// The profile a scheduled run uses: the first one with that name, ignoring ASCII case.
pub fn find_profile(list: Vec<Profile>, name: &str) -> (r: Result<Profile, String>)
    ensures
        match first_named(list@, name@) {
            Some(i) => r matches Ok(p) && p == list@[i],
            None => r matches Err(e) && e@ == "Profile not found: "@ + name@,
        },
{
    let mut list = list;
    match crate::profiles::find_named(list.as_slice(), name) {
        Some(i) => {
            proof {
                crate::profiles::lemma_first_named(list@, name@);
            }
            Ok(list.remove(i))
        },
        None => {
            let mut e = String::from_str("Profile not found: ");
            e.append(name);
            Err(e)
        },
    }
}

pub open spec fn log_char(c: char) -> char {
    if c == '/' || c == '\\' || c == ':' {
        '_'
    } else {
        c
    }
}

/// The log file of a scheduled run of a profile: its name with `/`, `\` and `:` replaced by
/// `_`, and `.log`.
pub fn log_file_name(profile: &str) -> (r: String)
    ensures
        r@ == profile@.map_values(|c: char| log_char(c)) + ".log"@,
{
    let v = chars_of(profile);
    let mut out = String::new();
    let mut i: usize = 0;
    while i < v.len()
        invariant
            i <= v@.len(),
            out@ == v@.take(i as int).map_values(|c: char| log_char(c)),
        decreases v.len() - i,
    {
        let c = v[i];
        out.push(if c == '/' || c == '\\' || c == ':' {
            '_'
        } else {
            c
        });
        proof {
            assert(v@.take(i + 1).map_values(|c: char| log_char(c)) == v@.take(i as int).map_values(
                |c: char| log_char(c),
            ).push(log_char(c)));
        }
        i = i + 1;
    }
    assert(v@.take(i as int) == v@);
    out.append(".log");
    out
}

/// What a scheduled run writes to its log: `OK` or `ERROR`, then the message.
pub fn log_text(result: &Result<String, String>) -> (r: String)
    ensures
        match result {
            Ok(v) => r@ == "OK\n"@ + v@ + "\n"@,
            Err(e) => r@ == "ERROR\n"@ + e@ + "\n"@,
        },
{
    match result {
        Ok(v) => {
            let mut t = String::from_str("OK\n");
            t.append(v.as_str());
            t.append("\n");
            t
        },
        Err(e) => {
            let mut t = String::from_str("ERROR\n");
            t.append(e.as_str());
            t.append("\n");
            t
        },
    }
}

} // verus!
