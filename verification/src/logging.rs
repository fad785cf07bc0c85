//! Which log records are reported: warnings and errors always, other
//! records unless they come from the chatty parts of the networking and
//! graphics libraries.

use vstd::prelude::*;

verus! {

/// How severe a log record is, from the most to the least severe.
#[derive(Debug, Clone, Copy, PartialEq, Eq)]
pub enum LogLevel {
    Error,
    Warn,
    Info,
    Debug,
    Trace,
}

/// Whether `t` occurs in `s`.
pub open spec fn has_substring(s: Seq<char>, t: Seq<char>) -> bool {
    exists|i: int| 0 <= i && i + t.len() <= s.len() && #[trigger] s.subrange(i, i + t.len()) == t
}

/// Whether `s` ends with `t`.
pub open spec fn has_suffix(s: Seq<char>, t: Seq<char>) -> bool {
    t.len() <= s.len() && s.subrange(s.len() - t.len(), s.len() as int) == t
}

/// The module paths whose records below warnings are not reported.
pub open spec fn is_ignored_module(m: Seq<char>) -> bool {
    has_substring(m, "tarp"@) || has_substring(m, "wgpu"@) || has_substring(m, "naga"@)
        || has_substring(m, "gfx_backend"@) || has_substring(m, "winit::platform_impl"@)
}

/// Whether a record is reported: never from the shader translator, never
/// the one known spurious error of the RPC client (line 128 of its
/// `client.rs`), always a warning or an error, and otherwise unless its
/// module is ignored.
pub open spec fn reported(module: Option<&str>, file: Option<&str>, line: Option<u32>, level: LogLevel) -> bool {
    if module matches Some(m) && has_substring(m@, "naga::front::spv"@) {
        false
    } else if (file matches Some(f) && has_suffix(f@, "tarpc/src/client.rs"@)) && line == Some(128u32) {
        false
    } else if level == LogLevel::Error || level == LogLevel::Warn {
        true
    } else {
        !(module matches Some(m) && is_ignored_module(m@))
    }
}

/// Whether `t` occurs in `s` starting at position `i`.
fn occurs_at(s: &str, t: &str, i: usize) -> (r: bool)
    requires
        i + t@.len() <= s@.len(),
    ensures
        r == (s@.subrange(i as int, i + t@.len()) == t@),
{
    let n = s.unicode_len();
    let m = t.unicode_len();
    let mut k: usize = 0;
    while k < m
        invariant
            n == s@.len(),
            m == t@.len(),
            i + m <= n,
            k <= m,
            forall|j: int| 0 <= j < k ==> s@[i + j] == t@[j],
        decreases m - k,
    {
        if s.get_char(i + k) != t.get_char(k) {
            assert(s@.subrange(i as int, i + m)[k as int] != t@[k as int]);
            return false;
        }
        k = k + 1;
    }
    assert(s@.subrange(i as int, i + m) =~= t@);
    true
}

/// Whether `t` occurs in `s`.
pub fn contains_str(s: &str, t: &str) -> (r: bool)
    ensures
        r == has_substring(s@, t@),
{
    let n = s.unicode_len();
    let m = t.unicode_len();
    if m > n {
        return false;
    }
    let last = n - m;
    let mut i: usize = 0;
    loop
        invariant
            n == s@.len(),
            m == t@.len(),
            last == n - m,
            i <= last,
            forall|j: int| 0 <= j < i ==> #[trigger] s@.subrange(j, j + m) != t@,
        decreases last - i,
    {
        if occurs_at(s, t, i) {
            return true;
        }
        if i == last {
            return false;
        }
        i = i + 1;
    }
}

/// Whether `s` ends with `t`.
pub fn ends_with_str(s: &str, t: &str) -> (r: bool)
    ensures
        r == has_suffix(s@, t@),
{
    let n = s.unicode_len();
    let m = t.unicode_len();
    if m > n {
        return false;
    }
    occurs_at(s, t, n - m)
}

/// Whether a log record is reported; see [`reported`].
pub fn report(module: Option<&str>, file: Option<&str>, line: Option<u32>, level: LogLevel) -> (r: bool)
    ensures
        r == reported(module, file, line, level),
{
    if let Some(m) = module {
        if contains_str(m, "naga::front::spv") {
            return false;
        }
    }
    let spurious_file = match file {
        Some(f) => ends_with_str(f, "tarpc/src/client.rs"),
        None => false,
    };
    let spurious_line = match line {
        Some(n) => n == 128,
        None => false,
    };
    if spurious_file && spurious_line {
        return false;
    }
    match level {
        LogLevel::Error | LogLevel::Warn => {
            return true;
        },
        _ => {},
    }
    match module {
        Some(m) => {
            let ignored = contains_str(m, "tarp") || contains_str(m, "wgpu") || contains_str(m, "naga")
                || contains_str(m, "gfx_backend") || contains_str(m, "winit::platform_impl");
            !ignored
        },
        None => true,
    }
}

} // verus!
