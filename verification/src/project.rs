//! Registered projects: where a campaign's files live and which models
//! directory it uses.

use vstd::prelude::*;
use crate::paths::{joined_path, path_join};
use crate::text::{chars_of, decimal, push_decimal, push_str, string_of};

verus! {

/// A registered campaign.
pub struct Project {
    pub id: i64,
    pub name: String,
    pub root_path: String,
    pub voices_rel: String,
    pub models_path: Option<String>,
    pub created_at: String,
}

/// A profile as the registry records it.
pub struct DbProfile {
    pub profile_id: String,
    pub name: Option<String>,
    pub color: Option<String>,
    pub labeled: bool,
}

/// The user's settings file.
pub struct UserConfig {
    pub active_project: Option<String>,
}

impl UserConfig {
    /// Settings with no active project.
    pub fn new() -> (c: UserConfig)
        ensures
            c.active_project is None,
    {
        UserConfig { active_project: None }
    }
}

/// The settings file inside the registry home.
pub fn config_path(home: &str) -> (r: String)
    ensures
        r@ == joined_path(home@, "config.json"@),
{
    path_join(home, "config.json")
}

impl Project {
    /// The project's voices directory: its root joined with `voices_rel`.
    pub fn voices_path(&self) -> (r: String)
        ensures
            r@ == joined_path(self.root_path@, self.voices_rel@),
    {
        path_join(self.root_path.as_str(), self.voices_rel.as_str())
    }

    /// The project's models directory: the one stored with it, or else
    /// whatever `default_dir` finds (called only in that case).
    pub fn resolved_models_path<E, F: FnOnce() -> Result<String, E>>(&self, default_dir: F) -> (r:
        Result<String, E>)
        requires
            default_dir.requires(()),
        ensures
            match self.models_path {
                Some(p) => r == Ok::<String, E>(p),
                None => default_dir.ensures((), r),
            },
    {
        match &self.models_path {
            Some(p) => Ok(p.clone()),
            None => default_dir(),
        }
    }
}

/// The models directory a command uses: `--models-dir` when given, else the
/// project's stored directory, else whatever `default_dir` finds (called
/// only in that case).
pub fn resolve_models_dir<E, F: FnOnce() -> Result<String, E>>(
    project: Option<&Project>,
    cli_models: Option<String>,
    default_dir: F,
) -> (r: Result<String, E>)
    requires
        default_dir.requires(()),
    ensures
        match cli_models {
            Some(m) => r == Ok::<String, E>(m),
            None => match project {
                Some(p) if p.models_path is Some => r == Ok::<String, E>(p.models_path->0),
                _ => default_dir.ensures((), r),
            },
        },
{
    if let Some(m) = cli_models {
        return Ok(m);
    }
    if let Some(p) = project {
        if let Some(stored) = &p.models_path {
            return Ok(stored.clone());
        }
    }
    default_dir()
}


/// A decimal digit character.
pub open spec fn is_digit(c: char) -> bool {
    0x30 <= (c as u32) <= 0x39
}

/// The value of a string of decimal digits.
pub open spec fn digits_value(d: Seq<char>) -> nat
    decreases d.len(),
{
    if d.len() == 0 {
        0
    } else {
        digits_value(d.drop_last()) * 10 + ((d.last() as u32) - 0x30) as nat
    }
}

/// Every character of `d` is a decimal digit.
pub open spec fn all_digits(d: Seq<char>) -> bool {
    forall|i: int| 0 <= i < d.len() ==> is_digit(#[trigger] d[i])
}

/// What `str::parse::<i64>` accepts: an optional `+` or `-`, then one or
/// more decimal digits, with a value that fits in an `i64`.
pub open spec fn parse_i64(s: Seq<char>) -> Option<int> {
    let neg = s.len() > 0 && s[0] == '-';
    let d = if s.len() > 0 && (s[0] == '-' || s[0] == '+') {
        s.drop_first()
    } else {
        s
    };
    let v: int = if neg {
        -digits_value(d)
    } else {
        digits_value(d) as int
    };
    if d.len() == 0 || !all_digits(d) {
        None
    } else if i64::MIN <= v <= i64::MAX {
        Some(v)
    } else {
        None
    }
}

proof fn lemma_digits_value_grows(d: Seq<char>, i: int)
    requires
        0 <= i <= d.len(),
        all_digits(d),
    ensures
        digits_value(d) >= digits_value(d.take(i)),
    decreases d.len() - i,
{
    if i < d.len() {
        assert(d.take(i + 1).drop_last() == d.take(i));
        lemma_digits_value_grows(d, i + 1);
    } else {
        assert(d.take(i) == d);
    }
}

/// The id stored in the registry's settings: the text parsed as an `i64`,
/// `None` when it is not one.
pub fn parse_project_id(value: &str) -> (r: Option<i64>)
    ensures
        r matches Some(v) ==> parse_i64(value@) == Some(v as int),
        r is None ==> parse_i64(value@) is None,
{
    let s = chars_of(value);
    let neg = s.len() > 0 && s[0] == '-';
    let start: usize = if s.len() > 0 && (s[0] == '-' || s[0] == '+') {
        1
    } else {
        0
    };
    let ghost d = if s@.len() > 0 && (s@[0] == '-' || s@[0] == '+') {
        s@.drop_first()
    } else {
        s@
    };
    assert(d == s@.skip(start as int));
    if start == s.len() {
        return None;
    }
    let limit: u64 = if neg {
        9_223_372_036_854_775_808
    } else {
        9_223_372_036_854_775_807
    };
    let mut acc: u64 = 0;
    let mut i: usize = start;
    while i < s.len()
        invariant
            start <= i <= s.len(),
            s@ == value@,
            start as int == s@.len() - d.len(),
            d == s@.skip(start as int),
            d == if s@.len() > 0 && (s@[0] == '-' || s@[0] == '+') {
                s@.drop_first()
            } else {
                s@
            },
            acc as nat == digits_value(d.take(i - start)),
            acc <= limit,
            limit == if neg { 9_223_372_036_854_775_808u64 } else { 9_223_372_036_854_775_807u64 },
            neg == (s@.len() > 0 && s@[0] == '-'),
            forall|j: int| 0 <= j < i - start ==> is_digit(#[trigger] d[j]),
        decreases s.len() - i,
    {
        let u = s[i] as u32;
        assert(d[i - start] == s@[i as int]);
        if u < 0x30 || u > 0x39 {
            assert(!is_digit(d[i - start]));
            assert(!all_digits(d));
            return None;
        }
        let digit = (u - 0x30) as u64;
        assert(d.take(i - start + 1).drop_last() == d.take(i - start));
        if acc > (limit - digit) / 10 {
            proof {
                assert(digits_value(d.take(i - start + 1)) > limit);
                if all_digits(d) {
                    lemma_digits_value_grows(d, i - start + 1);
                }
            }
            return None;
        }
        acc = acc * 10 + digit;
        i += 1;
    }
    assert(d.take(i - start) == d);
    if neg {
        if acc == 9_223_372_036_854_775_808 {
            Some(i64::MIN)
        } else {
            Some(-(acc as i64))
        }
    } else {
        Some(acc as i64)
    }
}


/// The line `project list` prints: `*` marks the active project.
pub fn project_list_line(name: &str, root: &str, active: bool) -> (r: String)
    ensures
        r@ == (if active {
            "*"@
        } else {
            " "@
        }) + name@ + "  "@ + root@,
{
    let mut out: Vec<char> = Vec::new();
    push_str(&mut out, if active { "*" } else { " " });
    push_str(&mut out, name);
    push_str(&mut out, "  ");
    push_str(&mut out, root);
    string_of(&out)
}

/// The label progress `project show` prints.
pub fn profiles_progress_line(labeled: u64, total: u64, has_profiles: bool) -> (r: String)
    ensures
        r@ == "  profiles: "@ + decimal(labeled as nat) + "/"@ + decimal(total as nat)
            + " labeled"@ + if has_profiles {
            ""@
        } else {
            " (no profiles.json yet)"@
        },
{
    let mut out: Vec<char> = Vec::new();
    push_str(&mut out, "  profiles: ");
    push_decimal(&mut out, labeled);
    push_str(&mut out, "/");
    push_decimal(&mut out, total);
    push_str(&mut out, " labeled");
    push_str(&mut out, if has_profiles { "" } else { " (no profiles.json yet)" });
    string_of(&out)
}

/// The transcription progress `project show` prints.
pub fn episodes_progress_line(transcribed: u64, total: u64) -> (r: String)
    ensures
        r@ == "  episodes: "@ + decimal(transcribed as nat) + "/"@ + decimal(total as nat)
            + " transcribed"@,
{
    let mut out: Vec<char> = Vec::new();
    push_str(&mut out, "  episodes: ");
    push_decimal(&mut out, transcribed);
    push_str(&mut out, "/");
    push_decimal(&mut out, total);
    push_str(&mut out, " transcribed");
    string_of(&out)
}

} // verus!
