//! Defaults for config and notes directories, and the tiny `config.toml`
//! scan for `show_scratch_in_thread` and `session_minutes`.
//!
//! `$THREAD_HOME` overrides both the notes directory and the config
//! directory. Other keys of `config.toml` are ignored; the file is never
//! created.

use vstd::prelude::*;
use crate::text::{
    chars_of, is_char, push_str, skip_char_end, skip_char_start, skip_ws_end, skip_ws_start,
    span_starts_with, string_of_span, strip_prefix, trim, trim_char, trim_end_by,
};

verus! {

/// Default session length when `session_minutes` is missing.
pub const DEFAULT_SESSION_MINUTES: u64 = 20;

pub struct Config {
    pub notes_dir: String,
    /// Directory of `config.toml` (`$THREAD_HOME` or `~/.config/thread`).
    pub config_dir: String,
    /// When false, the thread pane hides scratch notes. Default true.
    pub show_scratch_in_thread: bool,
    /// Session countdown length. Default 20.
    pub session_minutes: u64,
}

/// `Path::join` on Unix for UTF-8 paths: an absolute `part` replaces
/// `base`; otherwise a `/` separates them unless `base` is empty or already
/// ends with one.
pub open spec fn joined(base: Seq<char>, part: Seq<char>) -> Seq<char> {
    if part.len() > 0 && part[0] == '/' {
        part
    } else if base.len() == 0 || base.last() == '/' {
        base + part
    } else {
        base.push('/') + part
    }
}

/// `base` joined with `part` as `Path::join` does on Unix.
pub fn join_path(base: &str, part: &str) -> (r: String)
    ensures
        r@ == joined(base@, part@),
{
    let b = chars_of(base);
    let p = chars_of(part);
    if p.len() > 0 && p[0] == '/' {
        return string_of_span(&p, 0, p.len());
    }
    let mut r = string_of_span(&b, 0, b.len());
    if b.len() > 0 && b[b.len() - 1] != '/' {
        crate::text::string_push(&mut r, '/');
    }
    push_str(&mut r, part);
    proof {
        assert(b@.subrange(0, b@.len() as int) =~= b@);
        assert(p@.subrange(0, p@.len() as int) =~= p@);
    }
    r
}

impl Default for Config {
    /// `thread` as the notes directory, `.` as the config directory, the
    /// scratch notes shown and the default session length.
    fn default() -> (cfg: Config)
        ensures
            cfg.notes_dir@ == "thread"@,
            cfg.config_dir@ == "."@,
            cfg.show_scratch_in_thread,
            cfg.session_minutes == DEFAULT_SESSION_MINUTES,
    {
        Config {
            notes_dir: "thread".to_owned(),
            config_dir: ".".to_owned(),
            show_scratch_in_thread: true,
            session_minutes: DEFAULT_SESSION_MINUTES,
        }
    }
}

impl Config {
    /// Directory defaults. `thread_home` (from `$THREAD_HOME`) is both the
    /// notes and the config directory; otherwise notes live in
    /// `{home}/Documents/thread` and the config in `{xdg_config}/thread`,
    /// with `thread` and `.` standing in for a missing home or config dir.
    pub fn from_dirs(
        thread_home: Option<String>,
        home: Option<String>,
        xdg_config: Option<String>,
    ) -> (cfg: Config)
        ensures
            cfg.show_scratch_in_thread,
            cfg.session_minutes == DEFAULT_SESSION_MINUTES,
            thread_home matches Some(h) ==> cfg.notes_dir@ == h@ && cfg.config_dir@ == h@,
            thread_home is None ==> cfg.notes_dir@ == (match home {
                Some(h) => joined(joined(h@, "Documents"@), "thread"@),
                None => "thread"@,
            }),
            thread_home is None ==> cfg.config_dir@ == joined(
                match xdg_config {
                    Some(x) => x@,
                    None => "."@,
                },
                "thread"@,
            ),
    {
        if let Some(thread_home) = thread_home {
            return Config {
                notes_dir: thread_home.clone(),
                config_dir: thread_home,
                show_scratch_in_thread: true,
                session_minutes: DEFAULT_SESSION_MINUTES,
            };
        }
        let notes_dir = match home {
            Some(home) => {
                let documents = join_path(home.as_str(), "Documents");
                join_path(documents.as_str(), "thread")
            },
            None => "thread".to_owned(),
        };
        let base = match xdg_config {
            Some(x) => x,
            None => ".".to_owned(),
        };
        let config_dir = join_path(base.as_str(), "thread");
        Config {
            notes_dir,
            config_dir,
            show_scratch_in_thread: true,
            session_minutes: DEFAULT_SESSION_MINUTES,
        }
    }

    /// Path of `config.toml` in the config directory.
    pub fn config_file(&self) -> (p: String)
        ensures
            p@ == joined(self.config_dir@, "config.toml"@),
    {
        join_path(self.config_dir.as_str(), "config.toml")
    }

    /// Applies the text of an existing `config.toml`: a recognised
    /// `show_scratch_in_thread` sets that flag; a `session_minutes` that is a
    /// positive integer sets the session length. Anything else keeps the
    /// current values.
    pub fn apply_config_text(&mut self, text: &str)
        ensures
            final(self).notes_dir == old(self).notes_dir,
            final(self).config_dir == old(self).config_dir,
            final(self).show_scratch_in_thread == match toml_bool(text@, "show_scratch_in_thread"@) {
                Some(b) => b,
                None => old(self).show_scratch_in_thread,
            },
            final(self).session_minutes == match toml_u64(text@, "session_minutes"@) {
                Some(n) => if n > 0 {
                    n
                } else {
                    old(self).session_minutes
                },
                None => old(self).session_minutes,
            },
    {
        if let Some(value) = parse_toml_bool(text, "show_scratch_in_thread") {
            self.show_scratch_in_thread = value;
        }
        if let Some(value) = parse_toml_u64(text, "session_minutes") {
            if value > 0 {
                self.session_minutes = value;
            }
        }
    }
}

/// The value that a line gives `key`, if any: the trimmed line must start
/// with `key`, then (after whitespace) `=`; the value is the rest, without a
/// trailing `,`, surrounding whitespace, `"` and `'` quotes. Blank lines and
/// `#` or `//` comments give nothing.
pub open spec fn value_in_line(line: Seq<char>, key: Seq<char>) -> Option<Seq<char>> {
    let l = trim(line);
    if l.len() == 0 || l[0] == '#' || strip_prefix(l, seq!['/', '/']) is Some {
        None
    } else {
        match strip_prefix(l, key) {
            None => None,
            Some(r) => match strip_prefix(trim(r), seq!['=']) {
                None => None,
                Some(r2) => Some(
                    trim(
                        trim_char(
                            trim_char(trim(trim_end_by(r2, is_char(','))), '"'),
                            '\'',
                        ),
                    ),
                ),
            },
        }
    }
}

/// Index of the first `'\n'` at or after `i`, or the length of `s`.
pub open spec fn line_end_from(s: Seq<char>, i: int) -> int
    decreases s.len() - i,
{
    if i >= s.len() {
        s.len() as int
    } else if s[i] == '\n' {
        i
    } else {
        line_end_from(s, i + 1)
    }
}

/// The value of `key` on the first line, from the one starting at `i`,
/// that gives it one.
pub open spec fn value_from(s: Seq<char>, key: Seq<char>, i: int) -> Option<Seq<char>>
    decreases s.len() + 1 - i,
{
    if i < 0 || i > s.len() {
        None
    } else {
        let e = line_end_from(s, i);
        if i <= e <= s.len() {
            match value_in_line(s.subrange(i, e), key) {
                Some(v) => Some(v),
                None => if e < s.len() {
                    value_from(s, key, e + 1)
                } else {
                    None
                },
            }
        } else {
            None
        }
    }
}

/// The value of `key` in `text`: from the first of its `\n`-separated lines
/// that gives one.
pub open spec fn toml_text_value(text: Seq<char>, key: Seq<char>) -> Option<Seq<char>> {
    value_from(text, key, 0)
}

/// What `str::parse::<bool>`-like words the scan accepts.
pub open spec fn bool_word(v: Seq<char>) -> Option<bool> {
    if v == "true"@ || v == "True"@ || v == "TRUE"@ || v == "1"@ {
        Some(true)
    } else if v == "false"@ || v == "False"@ || v == "FALSE"@ || v == "0"@ {
        Some(false)
    } else {
        None
    }
}

/// The boolean that `text` gives `key`.
pub open spec fn toml_bool(text: Seq<char>, key: Seq<char>) -> Option<bool> {
    match toml_text_value(text, key) {
        Some(v) => bool_word(v),
        None => None,
    }
}

/// The integer that `text` gives `key`.
pub open spec fn toml_u64(text: Seq<char>, key: Seq<char>) -> Option<u64> {
    match toml_text_value(text, key) {
        Some(v) => parsed_u64(v),
        None => None,
    }
}

pub open spec fn is_digit(c: char) -> bool {
    '0' <= c <= '9'
}

pub open spec fn digit_value(c: char) -> nat {
    (c as u32 - '0' as u32) as nat
}

/// Value of a string of decimal digits.
pub open spec fn digits_value(d: Seq<char>) -> nat
    decreases d.len(),
{
    if d.len() == 0 {
        0
    } else {
        digits_value(d.drop_last()) * 10 + digit_value(d.last())
    }
}

pub open spec fn all_digits(d: Seq<char>) -> bool {
    forall|i: int| 0 <= i < d.len() ==> is_digit(#[trigger] d[i])
}

/// `str::parse::<u64>`: an optional `+`, then one or more decimal digits
/// whose value fits in a `u64`.
pub open spec fn parsed_u64(s: Seq<char>) -> Option<u64> {
    let d = if s.len() > 0 && s[0] == '+' {
        s.drop_first()
    } else {
        s
    };
    if d.len() > 0 && all_digits(d) && digits_value(d) <= u64::MAX {
        Some(digits_value(d) as u64)
    } else {
        None
    }
}

/// The value of `key` in the line `v[lo..hi]`.
fn line_value(v: &Vec<char>, lo: usize, hi: usize, key: &Vec<char>) -> (r: Option<String>)
    requires
        lo <= hi <= v@.len(),
    ensures
        r matches Some(s) ==> value_in_line(v@.subrange(lo as int, hi as int), key@) == Some(s@),
        r is None ==> value_in_line(v@.subrange(lo as int, hi as int), key@) is None,
{
    let ghost line = v@.subrange(lo as int, hi as int);
    let a = skip_ws_start(v, lo, hi);
    let b = skip_ws_end(v, a, hi);
    let ghost l = trim(line);
    assert(l == v@.subrange(a as int, b as int));
    if a == b {
        return None;
    }
    assert(l[0] == v@[a as int]);
    let slash2 = vec!['/', '/'];
    assert(slash2@ =~= seq!['/', '/']);
    if v[a] == '#' || span_starts_with(v, a, b, &slash2) {
        return None;
    }
    if !span_starts_with(v, a, b, key) {
        return None;
    }
    let r = a + key.len();
    assert(l.skip(key@.len() as int) =~= v@.subrange(r as int, b as int));
    let c = skip_ws_start(v, r, b);
    let d = skip_ws_end(v, c, b);
    assert(strip_prefix(l, key@) == Some(v@.subrange(r as int, b as int)));
    assert(trim(v@.subrange(r as int, b as int)) == v@.subrange(c as int, d as int));
    let eq = vec!['='];
    assert(eq@ =~= seq!['=']);
    if !span_starts_with(v, c, d, &eq) {
        return None;
    }
    let r2 = c + 1;
    assert(v@.subrange(c as int, d as int).skip(1) =~= v@.subrange(r2 as int, d as int));
    let e1 = skip_char_end(v, r2, d, ',');
    let a2 = skip_ws_start(v, r2, e1);
    let b2 = skip_ws_end(v, a2, e1);
    let a3 = skip_char_start(v, a2, b2, '"');
    let b3 = skip_char_end(v, a3, b2, '"');
    let a4 = skip_char_start(v, a3, b3, '\'');
    let b4 = skip_char_end(v, a4, b3, '\'');
    let a5 = skip_ws_start(v, a4, b4);
    let b5 = skip_ws_end(v, a5, b4);
    proof {
        let r2s = v@.subrange(r2 as int, d as int);
        assert(strip_prefix(v@.subrange(c as int, d as int), seq!['=']) == Some(r2s));
        assert(trim_end_by(r2s, is_char(',')) == v@.subrange(r2 as int, e1 as int));
        assert(trim(v@.subrange(r2 as int, e1 as int)) == v@.subrange(a2 as int, b2 as int));
        assert(trim_char(v@.subrange(a2 as int, b2 as int), '"') == v@.subrange(
            a3 as int,
            b3 as int,
        ));
        assert(trim_char(v@.subrange(a3 as int, b3 as int), '\'') == v@.subrange(
            a4 as int,
            b4 as int,
        ));
        assert(trim(v@.subrange(a4 as int, b4 as int)) == v@.subrange(a5 as int, b5 as int));
    }
    Some(string_of_span(v, a5, b5))
}

/// Tiny TOML-ish scan: the value of `key` on the first line that has
/// `key = value` (see [`value_in_line`]).
pub fn toml_value(text: &str, key: &str) -> (r: Option<String>)
    ensures
        r matches Some(s) ==> toml_text_value(text@, key@) == Some(s@),
        r is None ==> toml_text_value(text@, key@) is None,
{
    let v = chars_of(text);
    let k = chars_of(key);
    let n = v.len();
    let mut i: usize = 0;
    while i <= n
        invariant
            v@ == text@,
            k@ == key@,
            n == v@.len(),
            i <= n,
            toml_text_value(text@, key@) == value_from(v@, k@, i as int),
        decreases n + 1 - i,
    {
        let mut e = i;
        while e < n && v[e] != '\n'
            invariant
                i <= e <= n == v@.len(),
                line_end_from(v@, i as int) == line_end_from(v@, e as int),
            decreases n - e,
        {
            e = e + 1;
        }
        if let Some(value) = line_value(&v, i, e, &k) {
            return Some(value);
        }
        if e == n {
            return None;
        }
        i = e + 1;
    }
    None
}

/// The boolean that `text` gives `key`: `true`/`True`/`TRUE`/`1` or
/// `false`/`False`/`FALSE`/`0`; missing or other values give `None`.
pub fn parse_toml_bool(text: &str, key: &str) -> (r: Option<bool>)
    ensures
        r == toml_bool(text@, key@),
{
    let value = match toml_value(text, key) {
        Some(value) => value,
        None => return None,
    };
    if value == "true".to_owned() || value == "True".to_owned() || value == "TRUE".to_owned()
        || value == "1".to_owned() {
        Some(true)
    } else if value == "false".to_owned() || value == "False".to_owned() || value
        == "FALSE".to_owned() || value == "0".to_owned() {
        Some(false)
    } else {
        None
    }
}

/// Longer digit strings are worth at least as much as their prefixes.
proof fn lemma_digits_value_prefix(d: Seq<char>, i: int, j: int)
    requires
        0 <= i <= j <= d.len(),
    ensures
        digits_value(d.take(i)) <= digits_value(d.take(j)),
    decreases j - i,
{
    if i < j {
        lemma_digits_value_prefix(d, i, j - 1);
        assert(d.take(j).drop_last() =~= d.take(j - 1));
    }
}

/// `str::parse::<u64>` on `s`.
pub fn parse_u64(s: &str) -> (r: Option<u64>)
    ensures
        r == parsed_u64(s@),
{
    let v = chars_of(s);
    let start: usize = if v.len() > 0 && v[0] == '+' {
        1
    } else {
        0
    };
    let ghost d = if s@.len() > 0 && s@[0] == '+' {
        s@.drop_first()
    } else {
        s@
    };
    assert(d =~= v@.subrange(start as int, v@.len() as int));
    if start == v.len() {
        return None;
    }
    let mut acc: u64 = 0;
    let mut i = start;
    while i < v.len()
        invariant
            start <= i <= v@.len(),
            v@ == s@,
            d == v@.subrange(start as int, v@.len() as int),
            d == if s@.len() > 0 && s@[0] == '+' {
                s@.drop_first()
            } else {
                s@
            },
            forall|j: int| 0 <= j < i - start ==> is_digit(#[trigger] d[j]),
            acc == digits_value(d.take(i - start)),
        decreases v@.len() - i,
    {
        let c = v[i];
        assert(d[i - start] == c);
        if !('0' <= c && c <= '9') {
            assert(!is_digit(d[i - start]));
            assert(!all_digits(d));
            return None;
        }
        let dv = (c as u32 - '0' as u32) as u64;
        assert(d.take(i - start + 1).drop_last() =~= d.take(i - start));
        proof {
            lemma_digits_value_prefix(d, i - start + 1, d.len() as int);
            assert(d.take(d.len() as int) =~= d);
        }
        let m = acc.checked_mul(10);
        if m.is_none() {
            assert(digits_value(d.take(i - start + 1)) > u64::MAX);
            assert(digits_value(d) > u64::MAX);
            return None;
        }
        let m = m.unwrap();
        let a = m.checked_add(dv);
        if a.is_none() {
            assert(digits_value(d.take(i - start + 1)) > u64::MAX);
            assert(digits_value(d) > u64::MAX);
            return None;
        }
        acc = a.unwrap();
        i = i + 1;
    }
    assert(d.take(d.len() as int) =~= d);
    Some(acc)
}

/// The integer that `text` gives `key`; missing or unparsable gives `None`.
pub fn parse_toml_u64(text: &str, key: &str) -> (r: Option<u64>)
    ensures
        r == toml_u64(text@, key@),
{
    match toml_value(text, key) {
        Some(value) => parse_u64(value.as_str()),
        None => None,
    }
}

} // verus!
