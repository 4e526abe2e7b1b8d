//! The per-file configuration grammar: a colon-separated list of
//! `key=value` tokens, with the recognized keys `name`, `offset`, `size`,
//! `uid`, `gid` and the valueless `preload` flag.  Unknown keys and
//! malformed tokens are configuration errors, raised before anything is
//! mounted.

use vstd::prelude::*;

use crate::metadata::{InodeConfig, InodeConfigView};
use crate::text::str_eq;

verus! {

/// A configuration string that could not be parsed, with the offending
/// token.
#[derive(Debug)]
pub enum ConfigError {
    /// A structurally bad or unrecognized token.
    InvalidOption(String),
    /// A token whose value is not a number of the expected range.
    InvalidNumber(String),
}

/// Ghost image of a `ConfigError`, with the token as a character sequence.
pub enum ConfigErrorView {
    InvalidOption(Seq<char>),
    InvalidNumber(Seq<char>),
}

impl View for ConfigError {
    type V = ConfigErrorView;

    open spec fn view(&self) -> ConfigErrorView {
        match self {
            ConfigError::InvalidOption(t) => ConfigErrorView::InvalidOption(t@),
            ConfigError::InvalidNumber(t) => ConfigErrorView::InvalidNumber(t@),
        }
    }
}

/// Splits a character sequence on a separator; a sequence of `n`
/// separators yields `n + 1` tokens, empty tokens included.
pub open spec fn spec_split(s: Seq<char>, sep: char) -> Seq<Seq<char>>
    decreases s.len(),
{
    if s.len() == 0 {
        seq![Seq::<char>::empty()]
    } else if s[0] == sep {
        seq![Seq::<char>::empty()] + spec_split(s.skip(1), sep)
    } else {
        let rest = spec_split(s.skip(1), sep);
        seq![seq![s[0]] + rest[0]] + rest.skip(1)
    }
}

/// A split always yields at least one token.
proof fn lemma_split_len(s: Seq<char>, sep: char)
    ensures
        spec_split(s, sep).len() >= 1,
    decreases s.len(),
{
    if s.len() > 0 {
        lemma_split_len(s.skip(1), sep);
    }
}

/// If the first `k` characters hold no separator, the split starts with
/// the token `s.take(k)`: the whole of `s` when `k` is its length, else
/// `s.take(k)` followed by the split of what comes after the separator at
/// `k`.
proof fn lemma_split_at_boundary(s: Seq<char>, sep: char, k: int)
    requires
        0 <= k <= s.len(),
        forall|j: int| 0 <= j < k ==> s[j] != sep,
        k == s.len() || s[k] == sep,
    ensures
        k == s.len() ==> spec_split(s, sep) == seq![s],
        k < s.len() ==> spec_split(s, sep) == seq![s.take(k)] + spec_split(s.skip(k + 1), sep),
    decreases k,
{
    if k == 0 {
        if s.len() == 0 {
            assert(s =~= Seq::<char>::empty());
        } else {
            assert(s[0] == sep);
            assert(s.take(0) =~= Seq::<char>::empty());
            assert(spec_split(s, sep) == seq![s.take(0)] + spec_split(s.skip(1), sep));
        }
    } else {
        let t = s.skip(1);
        assert(forall|j: int| 0 <= j < k - 1 ==> t[j] != sep);
        lemma_split_at_boundary(t, sep, k - 1);
        lemma_split_len(t, sep);
        let rest = spec_split(t, sep);
        if k == s.len() {
            assert(rest == seq![t]);
            assert(seq![s[0]] + rest[0] =~= s);
            assert(spec_split(s, sep) == seq![seq![s[0]] + rest[0]] + rest.skip(1));
            assert(rest.skip(1) =~= Seq::<Seq<char>>::empty());
            assert(spec_split(s, sep) =~= seq![s]);
        } else {
            assert(t[k - 1] == sep);
            assert(rest == seq![t.take(k - 1)] + spec_split(t.skip(k), sep));
            assert(rest[0] == t.take(k - 1));
            assert(seq![s[0]] + t.take(k - 1) =~= s.take(k));
            assert(rest.skip(1) =~= spec_split(t.skip(k), sep));
            assert(t.skip(k) =~= s.skip(k + 1));
            assert(spec_split(s, sep) == seq![seq![s[0]] + rest[0]] + rest.skip(1));
            assert(spec_split(s, sep) =~= seq![s.take(k)] + spec_split(s.skip(k + 1), sep));
        }
    }
}

/// The views of a vector of strings.
pub open spec fn spec_views(v: Seq<String>) -> Seq<Seq<char>> {
    v.map(|i: int, x: String| x@)
}

/// Splits a string on a separator character, exactly as `spec_split`
/// states.
pub fn split_str(s: &str, sep: char) -> (r: Vec<String>)
    ensures
        spec_views(r@) == spec_split(s@, sep),
{
    let n = s.unicode_len();
    let mut r: Vec<String> = Vec::new();
    let mut start: usize = 0;
    let mut i: usize = 0;
    proof {
        assert(spec_views(r@) =~= Seq::<Seq<char>>::empty());
        assert(s@.skip(0) =~= s@);
        assert(spec_views(r@) + spec_split(s@, sep) =~= spec_split(s@, sep));
    }
    while i < n
        invariant
            0 <= start <= i <= n,
            n == s@.len(),
            spec_split(s@, sep) == spec_views(r@) + spec_split(s@.skip(start as int), sep),
            forall|j: int| start <= j < i ==> s@[j] != sep,
        decreases n - i,
    {
        if s.get_char(i) == sep {
            let tok = String::from_str(s.substring_char(start, i));
            proof {
                let tail = s@.skip(start as int);
                assert(forall|j: int| 0 <= j < i - start ==> tail[j] != sep);
                assert(tail[i - start] == sep);
                lemma_split_at_boundary(tail, sep, i - start);
                assert(tail.take(i - start) =~= s@.subrange(start as int, i as int));
                assert(tail.skip(i - start + 1) =~= s@.skip(i + 1));
                assert(spec_views(r@.push(tok)) =~= spec_views(r@).push(tok@));
                assert(spec_views(r@).push(tok@) + spec_split(s@.skip(i + 1), sep) =~= spec_views(
                    r@,
                ) + (seq![tok@] + spec_split(s@.skip(i + 1), sep)));
            }
            r.push(tok);
            start = i + 1;
        }
        i += 1;
    }
    let tok = String::from_str(s.substring_char(start, n));
    proof {
        let tail = s@.skip(start as int);
        assert(forall|j: int| 0 <= j < tail.len() ==> tail[j] != sep);
        lemma_split_at_boundary(tail, sep, tail.len() as int);
        assert(tail.take(n - start) =~= s@.subrange(start as int, n as int));
        assert(tok@ == tail);
        assert(spec_views(r@.push(tok)) =~= spec_views(r@).push(tok@));
        assert(spec_views(r@).push(tok@) =~= spec_views(r@) + seq![tok@]);
    }
    r.push(tok);
    r
}

/// Whether a character is a decimal digit.
pub open spec fn spec_is_digit(c: char) -> bool {
    48 <= c as u32 <= 57
}

/// The value of a decimal digit.
pub open spec fn spec_digit_val(c: char) -> int {
    c as u32 - 48
}

/// Whether every character of the sequence is a decimal digit.
pub open spec fn spec_all_digits(s: Seq<char>) -> bool {
    forall|i: int| 0 <= i < s.len() ==> spec_is_digit(#[trigger] s[i])
}

/// The value of a sequence of decimal digits, most significant first.
pub open spec fn spec_dec_val(s: Seq<char>) -> int
    decreases s.len(),
{
    if s.len() == 0 {
        0
    } else {
        spec_dec_val(s.drop_last()) * 10 + spec_digit_val(s.last())
    }
}

/// The digits of a number token: the token with one optional leading `+`
/// sign removed.
pub open spec fn spec_digits_of(s: Seq<char>) -> Seq<char> {
    if s.len() > 0 && s[0] == '+' {
        s.skip(1)
    } else {
        s
    }
}

/// Whether a token is a decimal number no greater than `bound`: after the
/// optional sign, at least one character, all of them digits, with a value
/// in range.
pub open spec fn spec_parseable(s: Seq<char>, bound: int) -> bool {
    let t = spec_digits_of(s);
    t.len() > 0 && spec_all_digits(t) && spec_dec_val(t) <= bound
}

/// The numeric value of a number token.
pub open spec fn spec_num_val(s: Seq<char>) -> int {
    spec_dec_val(spec_digits_of(s))
}

/// The value of a digit sequence is never negative.
proof fn lemma_dec_val_nonneg(s: Seq<char>)
    requires
        spec_all_digits(s),
    ensures
        spec_dec_val(s) >= 0,
    decreases s.len(),
{
    if s.len() > 0 {
        assert(spec_all_digits(s.drop_last()));
        lemma_dec_val_nonneg(s.drop_last());
    }
}

/// Appending digits never shrinks the value: every prefix of a digit
/// sequence has a value no greater than the whole.
proof fn lemma_dec_val_prefix(s: Seq<char>, i: int)
    requires
        spec_all_digits(s),
        0 <= i <= s.len(),
    ensures
        spec_dec_val(s.take(i)) <= spec_dec_val(s),
    decreases s.len(),
{
    if i < s.len() {
        assert(spec_all_digits(s.drop_last()));
        assert(s.drop_last().take(i) =~= s.take(i));
        lemma_dec_val_prefix(s.drop_last(), i);
        lemma_dec_val_nonneg(s.drop_last());
    } else {
        assert(s.take(i) =~= s);
    }
}

/// Parses a decimal unsigned 64-bit number: an optional leading `+`, then
/// one or more digits, rejected on any other character or on overflow.
pub fn parse_u64(s: &str) -> (r: Option<u64>)
    ensures
        match r {
            Some(v) => spec_parseable(s@, u64::MAX as int) && v == spec_num_val(s@),
            None => !spec_parseable(s@, u64::MAX as int),
        },
{
    let n = s.unicode_len();
    let start: usize = if n > 0 && s.get_char(0) == '+' {
        1
    } else {
        0
    };
    proof {
        if start == 0 {
            assert(s@.skip(0) =~= s@);
        }
    }
    let ghost t = spec_digits_of(s@);
    assert(t == s@.skip(start as int));
    if n == start {
        return None;
    }
    let mut acc: u64 = 0;
    let mut i: usize = start;
    while i < n
        invariant
            start <= i <= n,
            n == s@.len(),
            t == spec_digits_of(s@),
            t == s@.skip(start as int),
            t.len() == n - start,
            spec_all_digits(t.take(i - start)),
            acc == spec_dec_val(t.take(i - start)),
        decreases n - i,
    {
        let c = s.get_char(i);
        let u = c as u32;
        if u < 48 || u > 57 {
            proof {
                assert(t[i - start] == s@[i as int]);
                assert(!spec_is_digit(t[i - start]));
            }
            return None;
        }
        let d = (u - 48) as u64;
        proof {
            assert(t.take(i - start + 1).drop_last() =~= t.take(i - start));
            assert(t.take(i - start + 1).last() == t[i - start]);
            assert(t[i - start] == s@[i as int]);
        }
        if acc > u64::MAX / 10 || (acc == u64::MAX / 10 && d > u64::MAX % 10) {
            proof {
                assert(spec_dec_val(t.take(i - start + 1)) == acc * 10 + d);
                assert(acc * 10 + d > u64::MAX) by (nonlinear_arith)
                    requires
                        acc > u64::MAX / 10 || (acc == u64::MAX / 10 && d > u64::MAX % 10),
                        u64::MAX == 10 * (u64::MAX / 10) + u64::MAX % 10,
                        d >= 0,
                ;
                if spec_all_digits(t) {
                    lemma_dec_val_prefix(t, i - start + 1);
                }
            }
            return None;
        }
        proof {
            assert(acc * 10 + d <= u64::MAX) by (nonlinear_arith)
                requires
                    acc <= u64::MAX / 10,
                    !(acc == u64::MAX / 10 && d > u64::MAX % 10),
                    d <= 9,
                    u64::MAX == 10 * (u64::MAX / 10) + u64::MAX % 10,
            ;
        }
        acc = acc * 10 + d;
        i += 1;
    }
    proof {
        assert(t.take(n - start) =~= t);
    }
    Some(acc)
}

/// Parses a decimal unsigned 32-bit number, as `parse_u64` does but with
/// the 32-bit range.
pub fn parse_u32(s: &str) -> (r: Option<u32>)
    ensures
        match r {
            Some(v) => spec_parseable(s@, u32::MAX as int) && v == spec_num_val(s@),
            None => !spec_parseable(s@, u32::MAX as int),
        },
{
    match parse_u64(s) {
        Some(v) => {
            if v <= 0xFFFF_FFFF {
                Some(v as u32)
            } else {
                None
            }
        },
        None => None,
    }
}

/// The configuration with every option left to its default.
pub open spec fn spec_default_config() -> InodeConfigView {
    InodeConfigView { name: None, offset: None, size: None, uid: None, gid: None, preload: false }
}

/// What one `key[=value]` token does to a configuration: it sets the named
/// field, turns the preload flag on, or fails — with the token — when it is
/// structurally bad, names an unknown key, or carries a malformed number.
pub open spec fn spec_apply_token(c: InodeConfigView, tok: Seq<char>) -> Result<
    InodeConfigView,
    ConfigErrorView,
> {
    let parts = spec_split(tok, '=');
    if parts.len() > 2 {
        Err(ConfigErrorView::InvalidOption(tok))
    } else if parts[0] == "name"@ {
        if parts.len() == 2 {
            Ok(
                InodeConfigView {
                    name: Some(parts[1]),
                    offset: c.offset,
                    size: c.size,
                    uid: c.uid,
                    gid: c.gid,
                    preload: c.preload,
                },
            )
        } else {
            Err(ConfigErrorView::InvalidOption(tok))
        }
    } else if parts[0] == "offset"@ {
        if parts.len() != 2 {
            Err(ConfigErrorView::InvalidOption(tok))
        } else if spec_parseable(parts[1], u64::MAX as int) {
            Ok(
                InodeConfigView {
                    name: c.name,
                    offset: Some(spec_num_val(parts[1]) as u64),
                    size: c.size,
                    uid: c.uid,
                    gid: c.gid,
                    preload: c.preload,
                },
            )
        } else {
            Err(ConfigErrorView::InvalidNumber(tok))
        }
    } else if parts[0] == "size"@ {
        if parts.len() != 2 {
            Err(ConfigErrorView::InvalidOption(tok))
        } else if spec_parseable(parts[1], u64::MAX as int) {
            Ok(
                InodeConfigView {
                    name: c.name,
                    offset: c.offset,
                    size: Some(spec_num_val(parts[1]) as u64),
                    uid: c.uid,
                    gid: c.gid,
                    preload: c.preload,
                },
            )
        } else {
            Err(ConfigErrorView::InvalidNumber(tok))
        }
    } else if parts[0] == "uid"@ {
        if parts.len() != 2 {
            Err(ConfigErrorView::InvalidOption(tok))
        } else if spec_parseable(parts[1], u32::MAX as int) {
            Ok(
                InodeConfigView {
                    name: c.name,
                    offset: c.offset,
                    size: c.size,
                    uid: Some(spec_num_val(parts[1]) as u32),
                    gid: c.gid,
                    preload: c.preload,
                },
            )
        } else {
            Err(ConfigErrorView::InvalidNumber(tok))
        }
    } else if parts[0] == "gid"@ {
        if parts.len() != 2 {
            Err(ConfigErrorView::InvalidOption(tok))
        } else if spec_parseable(parts[1], u32::MAX as int) {
            Ok(
                InodeConfigView {
                    name: c.name,
                    offset: c.offset,
                    size: c.size,
                    uid: c.uid,
                    gid: Some(spec_num_val(parts[1]) as u32),
                    preload: c.preload,
                },
            )
        } else {
            Err(ConfigErrorView::InvalidNumber(tok))
        }
    } else if parts[0] == "preload"@ {
        Ok(
            InodeConfigView {
                name: c.name,
                offset: c.offset,
                size: c.size,
                uid: c.uid,
                gid: c.gid,
                preload: true,
            },
        )
    } else {
        Err(ConfigErrorView::InvalidOption(tok))
    }
}

/// Applies the tokens of a configuration string in order; a later token
/// overrides an earlier one, and the first bad token is the error.
pub open spec fn spec_fold_tokens(c: InodeConfigView, toks: Seq<Seq<char>>) -> Result<
    InodeConfigView,
    ConfigErrorView,
>
    decreases toks.len(),
{
    if toks.len() == 0 {
        Ok(c)
    } else {
        match spec_apply_token(c, toks[0]) {
            Ok(c2) => spec_fold_tokens(c2, toks.skip(1)),
            Err(e) => Err(e),
        }
    }
}

/// What `parse_config` returns: the default configuration for the empty
/// string, else the colon-separated tokens folded over the default.
pub open spec fn spec_parse_config(s: Seq<char>) -> Result<InodeConfigView, ConfigErrorView> {
    if s.len() == 0 {
        Ok(spec_default_config())
    } else {
        spec_fold_tokens(spec_default_config(), spec_split(s, ':'))
    }
}

/// Parses one virtual file's configuration string, exactly as
/// `spec_parse_config` states: `Ok` on the empty string and on any
/// colon-separated list of recognized well-formed tokens, the first bad
/// token as the error otherwise.
pub fn parse_config(config_str: &str) -> (r: Result<InodeConfig, ConfigError>)
    ensures
        match r {
            Ok(c) => spec_parse_config(config_str@) == Ok::<InodeConfigView, ConfigErrorView>(c@),
            Err(e) => spec_parse_config(config_str@) == Err::<InodeConfigView, ConfigErrorView>(
                e@,
            ),
        },
{
    let mut config = InodeConfig::default();
    if config_str.is_empty() {
        return Ok(config);
    }
    let tokens = split_str(config_str, ':');
    let ghost toks = spec_split(config_str@, ':');
    let mut ti: usize = 0;
    proof {
        assert(toks.skip(0) =~= toks);
    }
    while ti < tokens.len()
        invariant
            0 <= ti <= tokens.len(),
            config_str@.len() != 0,
            toks == spec_split(config_str@, ':'),
            tokens@.len() == toks.len(),
            spec_views(tokens@) == toks,
            spec_fold_tokens(spec_default_config(), toks) == spec_fold_tokens(
                config@,
                toks.skip(ti as int),
            ),
        decreases tokens.len() - ti,
    {
        let ghost pre = config@;
        let ghost tokv = toks[ti as int];
        proof {
            assert(toks.skip(ti as int).len() == toks.len() - ti);
            assert(toks.skip(ti as int)[0] == tokv);
        }
        let tok = &tokens[ti];
        assert(tok@ == tokv);
        let parts = split_str(tok.as_str(), '=');
        proof {
            lemma_split_len(tokv, '=');
            assert(parts@.len() == spec_split(tokv, '=').len());
            assert(parts@[0]@ == spec_split(tokv, '=')[0]);
            if parts@.len() == 2 {
                assert(parts@[1]@ == spec_split(tokv, '=')[1]);
            }
        }
        if parts.len() > 2 {
            return Err(ConfigError::InvalidOption(tok.clone()));
        }
        let key = &parts[0];
        if str_eq(key.as_str(), "name") {
            if parts.len() == 2 {
                config.name = Some(parts[1].clone());
            } else {
                return Err(ConfigError::InvalidOption(tok.clone()));
            }
        } else if str_eq(key.as_str(), "offset") {
            if parts.len() != 2 {
                return Err(ConfigError::InvalidOption(tok.clone()));
            }
            match parse_u64(parts[1].as_str()) {
                Some(v) => config.offset = Some(v),
                None => {
                    return Err(ConfigError::InvalidNumber(tok.clone()));
                },
            }
        } else if str_eq(key.as_str(), "size") {
            if parts.len() != 2 {
                return Err(ConfigError::InvalidOption(tok.clone()));
            }
            match parse_u64(parts[1].as_str()) {
                Some(v) => config.size = Some(v),
                None => {
                    return Err(ConfigError::InvalidNumber(tok.clone()));
                },
            }
        } else if str_eq(key.as_str(), "uid") {
            if parts.len() != 2 {
                return Err(ConfigError::InvalidOption(tok.clone()));
            }
            match parse_u32(parts[1].as_str()) {
                Some(v) => config.uid = Some(v),
                None => {
                    return Err(ConfigError::InvalidNumber(tok.clone()));
                },
            }
        } else if str_eq(key.as_str(), "gid") {
            if parts.len() != 2 {
                return Err(ConfigError::InvalidOption(tok.clone()));
            }
            match parse_u32(parts[1].as_str()) {
                Some(v) => config.gid = Some(v),
                None => {
                    return Err(ConfigError::InvalidNumber(tok.clone()));
                },
            }
        } else if str_eq(key.as_str(), "preload") {
            config.preload = true;
        } else {
            return Err(ConfigError::InvalidOption(tok.clone()));
        }
        proof {
            assert(spec_apply_token(pre, tokv) == Ok::<InodeConfigView, ConfigErrorView>(config@));
            assert(toks.skip(ti as int)[0] == tokv);
            assert(toks.skip(ti as int).skip(1) =~= toks.skip(ti as int + 1));
        }
        ti += 1;
    }
    proof {
        assert(toks.skip(ti as int) =~= Seq::<Seq<char>>::empty());
    }
    Ok(config)
}

} // verus!
