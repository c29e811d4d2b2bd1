//! Decimal formatting and path joining on plain strings.

use vstd::prelude::*;

verus! {

/// The character that stands for the decimal digit `d`.
pub open spec fn digit_char(d: int) -> char
    recommends
        0 <= d < 10,
{
    "0123456789"@[d]
}

/// The decimal digits of a natural number, most significant first.
pub open spec fn digits_of(n: nat) -> Seq<char>
    decreases n,
{
    if n < 10 {
        seq![digit_char(n as int)]
    } else {
        digits_of(n / 10) + seq![digit_char((n % 10) as int)]
    }
}

/// How Rust's `Display` writes an integer: a minus sign for negative
/// values, then the decimal digits of the magnitude.
pub open spec fn decimal(n: int) -> Seq<char> {
    if n < 0 {
        seq!['-'] + digits_of((-n) as nat)
    } else {
        digits_of(n as nat)
    }
}

fn digit_text(d: u64) -> (s: &'static str)
    requires
        d < 10,
    ensures
        s@ == seq![digit_char(d as int)],
{
    proof {
        reveal_strlit("0123456789");
    }
    let s = "0123456789".substring_char(d as usize, d as usize + 1);
    assert(s@ =~= seq![digit_char(d as int)]);
    s
}

fn magnitude_text(m: u64) -> (s: String)
    ensures
        s@ == digits_of(m as nat),
    decreases m,
{
    if m < 10 {
        String::from_str(digit_text(m))
    } else {
        let mut s = magnitude_text(m / 10);
        s.append(digit_text(m % 10));
        s
    }
}

/// Writes `n` in decimal, as `n.to_string()` does.
pub fn decimal_text(n: i64) -> (s: String)
    ensures
        s@ == decimal(n as int),
{
    if n < 0 {
        let wide: i128 = 0i128 - (n as i128);
        let m: u64 = wide as u64;
        proof {
            reveal_strlit("-");
        }
        let mut s = String::from_str("-");
        let digits = magnitude_text(m);
        s.append(digits.as_str());
        s
    } else {
        magnitude_text(n as u64)
    }
}

/// The systems the library knows. They decide how paths are written: with
/// `/` on macOS and Linux, with `\` (or `/`) and drive letters on Windows.
#[derive(Debug, Clone, Copy)]
pub enum Platform {
    Windows,
    MacOs,
    Linux,
}

/// A character that separates path components.
pub open spec fn is_separator(platform: Platform, c: char) -> bool {
    c == '/' || (platform is Windows && c == '\\')
}

/// The separator that a join inserts.
pub open spec fn main_separator(platform: Platform) -> char {
    if platform is Windows {
        '\\'
    } else {
        '/'
    }
}

pub open spec fn is_drive_letter(c: char) -> bool {
    ('a' <= c && c <= 'z') || ('A' <= c && c <= 'Z')
}

/// A Windows path that starts with a drive, as `C:`.
pub open spec fn has_drive(platform: Platform, s: Seq<char>) -> bool {
    platform is Windows && s.len() >= 2 && is_drive_letter(s[0]) && s[1] == ':'
}

/// A path that does not depend on the working directory: one that starts
/// with `/` on macOS and Linux; on Windows one that starts with a drive and
/// a separator (`C:\`) or with two separators (`\\server\share`).
pub open spec fn is_absolute_path(platform: Platform, s: Seq<char>) -> bool {
    if platform is Windows {
        ||| (has_drive(platform, s) && s.len() >= 3 && is_separator(platform, s[2]))
        ||| (s.len() >= 2 && is_separator(platform, s[0]) && is_separator(platform, s[1]))
    } else {
        s.len() > 0 && s[0] == '/'
    }
}

/// What `Path::new(base).join(name)` gives, by its rules for Unix paths and
/// for Windows drive paths: an absolute `name`, or one with a drive,
/// replaces `base`; a `name` that starts with a separator keeps only the
/// drive of `base` (a server prefix of `base` is not kept); otherwise the
/// platform's separator goes between the two unless `base` is empty, ends
/// with a separator, or is a bare drive such as `C:`.
pub open spec fn joined_path(platform: Platform, base: Seq<char>, name: Seq<char>) -> Seq<char> {
    if is_absolute_path(platform, name) || has_drive(platform, name) {
        name
    } else if name.len() > 0 && is_separator(platform, name[0]) {
        if has_drive(platform, base) {
            base.subrange(0, 2) + name
        } else {
            name
        }
    } else if base.len() == 0 || is_separator(platform, base.last()) || (has_drive(platform, base)
        && base.len() == 2) {
        base + name
    } else {
        base + seq![main_separator(platform)] + name
    }
}

fn char_is_separator(platform: Platform, c: char) -> (r: bool)
    ensures
        r == is_separator(platform, c),
{
    match platform {
        Platform::Windows => c == '/' || c == '\\',
        _ => c == '/',
    }
}

fn starts_with_drive(platform: Platform, s: &str) -> (r: bool)
    ensures
        r == has_drive(platform, s@),
{
    match platform {
        Platform::Windows => {
            if s.unicode_len() < 2 {
                return false;
            }
            let c = s.get_char(0);
            (('a' <= c && c <= 'z') || ('A' <= c && c <= 'Z')) && s.get_char(1) == ':'
        },
        _ => false,
    }
}

/// Whether a path does not depend on the working directory.
pub fn path_is_absolute(platform: Platform, s: &str) -> (r: bool)
    ensures
        r == is_absolute_path(platform, s@),
{
    let n = s.unicode_len();
    match platform {
        Platform::Windows => {
            (starts_with_drive(platform, s) && n >= 3 && char_is_separator(platform, s.get_char(2)))
                || (n >= 2 && char_is_separator(platform, s.get_char(0)) && char_is_separator(
                platform,
                s.get_char(1),
            ))
        },
        _ => n > 0 && s.get_char(0) == '/',
    }
}

/// Joins a file or directory name onto a directory path.
pub fn join_path(platform: Platform, base: &str, name: &str) -> (r: String)
    ensures
        r@ == joined_path(platform, base@, name@),
{
    proof {
        reveal_strlit("/");
        reveal_strlit("\\");
    }
    if path_is_absolute(platform, name) || starts_with_drive(platform, name) {
        return String::from_str(name);
    }
    let name_len = name.unicode_len();
    let base_len = base.unicode_len();
    if name_len > 0 && char_is_separator(platform, name.get_char(0)) {
        if starts_with_drive(platform, base) {
            let mut r = String::from_str(base.substring_char(0, 2));
            r.append(name);
            return r;
        }
        return String::from_str(name);
    }
    let mut r = String::from_str(base);
    if !(base_len == 0 || char_is_separator(platform, base.get_char(base_len - 1)) || (
    starts_with_drive(platform, base) && base_len == 2)) {
        match platform {
            Platform::Windows => r.append("\\"),
            _ => r.append("/"),
        }
    }
    r.append(name);
    r
}

} // verus!
