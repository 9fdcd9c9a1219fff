//! Configuration model: which LLM service to call, what the target
//! environment looks like, and the execution policy the plan executor
//! enforces, together with the loose key/value parsers that fill it from a
//! configuration file, environment overrides and the OS release table.
use vstd::prelude::*;

use crate::extract::find_from;
use crate::extract::find_pattern;
use crate::text::chars_of_str;
use crate::text::chars_ieq_str;
use crate::text::chars_range;
use crate::text::seq_ieq;
use crate::text::str_eq;
use crate::text::string_of_chars;
use crate::text::trim_chars;
use crate::text::trim_spec;
use crate::text::all_dec_digits;
use crate::text::dec_val_of;
use crate::text::parse_u64_chars;

verus! {

/// The LLM service the assistant talks to.
#[derive(Clone, Copy, Debug, PartialEq, Eq, Structural)]
pub enum LlmService {
    OpenAI,
    Gemini,
}

/// The operating system commands are generated for.
#[derive(Clone, Copy, Debug, PartialEq, Eq, Structural)]
pub enum ScyOs {
    Windows,
    Linux,
}

/// Description of the target environment, shown to the model when building
/// the prompt.
#[derive(Clone, Debug)]
pub struct ScyEnvInfo {
    pub os: ScyOs,
    pub distro_id: Option<String>,
    pub version_id: Option<String>,
    pub pretty_name: Option<String>,
    pub shell: Option<String>,
}

/// The local execution policy the plan executor consults: display-only mode,
/// whether confirmation is always demanded, and the per-command timeout.
#[derive(Clone, Copy, Debug, PartialEq, Eq, Structural)]
pub struct ExecPolicy {
    pub dry_run: bool,
    pub require_confirmation: bool,
    pub timeout_sec: u64,
}

/// The whole assistant configuration, constructed once per run.
#[derive(Clone, Debug)]
pub struct SconnySetting {
    pub llm_service: LlmService,
    pub model: Option<String>,
    pub env: ScyEnvInfo,
    pub policy: ExecPolicy,
    pub config_path: String,
}

impl SconnySetting {
    /// The safe defaults: dry-run on, confirmation required, a 15 second
    /// timeout, the standard configuration file name, and Linux as the
    /// target OS until the caller overrides it with what it detected.
    pub fn new() -> (r: SconnySetting)
        ensures
            r.llm_service == LlmService::OpenAI,
            r.model is None,
            r.env.os == ScyOs::Linux,
            r.env.distro_id is None,
            r.env.version_id is None,
            r.env.pretty_name is None,
            r.env.shell is None,
            r.policy.dry_run == true,
            r.policy.require_confirmation == true,
            r.policy.timeout_sec == 15,
            r.config_path@ == "sconny_config.toml"@,
    {
        SconnySetting {
            llm_service: LlmService::OpenAI,
            model: None,
            env: ScyEnvInfo {
                os: ScyOs::Linux,
                distro_id: None,
                version_id: None,
                pretty_name: None,
                shell: None,
            },
            policy: ExecPolicy { dry_run: true, require_confirmation: true, timeout_sec: 15 },
            config_path: "sconny_config.toml".to_owned(),
        }
    }
}

/// How a boolean configuration value reads: a trimmed, case-insensitive
/// `1`/`true`/`yes`/`y`/`on` is true, `0`/`false`/`no`/`n`/`off` is false,
/// anything else is not a boolean.
pub open spec fn parse_bool_spec(s: Seq<char>) -> Option<bool> {
    let t = trim_spec(s);
    if seq_ieq(t, "1"@) || seq_ieq(t, "true"@) || seq_ieq(t, "yes"@) || seq_ieq(t, "y"@) || seq_ieq(
        t,
        "on"@,
    ) {
        Some(true)
    } else if seq_ieq(t, "0"@) || seq_ieq(t, "false"@) || seq_ieq(t, "no"@) || seq_ieq(t, "n"@)
        || seq_ieq(t, "off"@) {
        Some(false)
    } else {
        None
    }
}

/// Parse a boolean configuration value, per [`parse_bool_spec`].
pub fn parse_bool(s: &str) -> (r: Option<bool>)
    ensures
        r == parse_bool_spec(s@),
{
    let c = chars_of_str(s);
    let t = trim_chars(&c);
    if chars_ieq_str(&t, "1") || chars_ieq_str(&t, "true") || chars_ieq_str(&t, "yes")
        || chars_ieq_str(&t, "y") || chars_ieq_str(&t, "on") {
        Some(true)
    } else if chars_ieq_str(&t, "0") || chars_ieq_str(&t, "false") || chars_ieq_str(&t, "no")
        || chars_ieq_str(&t, "n") || chars_ieq_str(&t, "off") {
        Some(false)
    } else {
        None
    }
}

/// Which service name a configuration value selects, trimmed and
/// case-insensitive; unknown names select nothing.
pub open spec fn parse_llm_service_spec(s: Seq<char>) -> Option<LlmService> {
    let t = trim_spec(s);
    if seq_ieq(t, "openai"@) {
        Some(LlmService::OpenAI)
    } else if seq_ieq(t, "gemini"@) {
        Some(LlmService::Gemini)
    } else {
        None
    }
}

/// Parse a service name, per [`parse_llm_service_spec`].
pub fn parse_llm_service(s: &str) -> (r: Option<LlmService>)
    ensures
        r == parse_llm_service_spec(s@),
{
    let c = chars_of_str(s);
    let t = trim_chars(&c);
    if chars_ieq_str(&t, "openai") {
        Some(LlmService::OpenAI)
    } else if chars_ieq_str(&t, "gemini") {
        Some(LlmService::Gemini)
    } else {
        None
    }
}

/// Which OS name a configuration value selects, trimmed and
/// case-insensitive; unknown names select nothing.
pub open spec fn parse_os_spec(s: Seq<char>) -> Option<ScyOs> {
    let t = trim_spec(s);
    if seq_ieq(t, "windows"@) || seq_ieq(t, "win"@) {
        Some(ScyOs::Windows)
    } else if seq_ieq(t, "linux"@) {
        Some(ScyOs::Linux)
    } else {
        None
    }
}

/// Parse an OS name, per [`parse_os_spec`].
pub fn parse_os(s: &str) -> (r: Option<ScyOs>)
    ensures
        r == parse_os_spec(s@),
{
    let c = chars_of_str(s);
    let t = trim_chars(&c);
    if chars_ieq_str(&t, "windows") || chars_ieq_str(&t, "win") {
        Some(ScyOs::Windows)
    } else if chars_ieq_str(&t, "linux") {
        Some(ScyOs::Linux)
    } else {
        None
    }
}

/// `s` trimmed, and stripped of one pair of matching surrounding quotes
/// (double or single) when both ends carry one.
pub open spec fn strip_quotes_spec(s: Seq<char>) -> Seq<char> {
    let t = trim_spec(s);
    if t.len() >= 2 && ((t[0] == '"' && t.last() == '"') || (t[0] == '\'' && t.last() == '\'')) {
        t.subrange(1, t.len() - 1)
    } else {
        t
    }
}

fn strip_quotes_chars(s: &Vec<char>) -> (r: Vec<char>)
    ensures
        r@ == strip_quotes_spec(s@),
{
    let t = trim_chars(s);
    let n = t.len();
    if n >= 2 && ((t[0] == '"' && t[n - 1] == '"') || (t[0] == '\'' && t[n - 1] == '\'')) {
        chars_range(&t, 1, n - 1)
    } else {
        t
    }
}

/// Trim `s` and remove one pair of matching surrounding quotes, per
/// [`strip_quotes_spec`].
pub fn strip_quotes(s: &str) -> (r: String)
    ensures
        r@ == strip_quotes_spec(s@),
{
    let c = chars_of_str(s);
    let v = strip_quotes_chars(&c);
    string_of_chars(&v)
}

/// Number of characters from position `i` up to the next line feed or the
/// end of input.
pub open spec fn line_len(s: Seq<char>, i: int) -> nat
    decreases s.len() - i,
{
    if i < 0 || i >= s.len() {
        0
    } else if s[i] == '\n' {
        0
    } else {
        1 + line_len(s, i + 1)
    }
}

/// The lines of `s` from position `i` on, split at each line feed; the
/// final line is whatever follows the last line feed, possibly empty.
pub open spec fn split_lines_from(s: Seq<char>, i: int) -> Seq<Seq<char>>
    decreases s.len() - i + 1,
{
    if i < 0 || i > s.len() {
        Seq::empty()
    } else {
        let n = line_len(s, i) as int;
        if i + n >= s.len() {
            seq![s.subrange(i, s.len() as int)]
        } else {
            seq![s.subrange(i, i + n)] + split_lines_from(s, i + n + 1)
        }
    }
}

fn line_len_exec(s: &Vec<char>, i: usize) -> (r: usize)
    requires
        i <= s@.len(),
    ensures
        r == line_len(s@, i as int),
        i + r <= s@.len(),
{
    let n = s.len();
    let mut j: usize = i;
    while j < n && s[j] != '\n'
        invariant
            i <= j <= n,
            n == s@.len(),
            line_len(s@, i as int) == j - i + line_len(s@, j as int),
        decreases n - j,
    {
        j = j + 1;
    }
    j - i
}

fn split_lines(s: &Vec<char>) -> (r: Vec<Vec<char>>)
    ensures
        lines_view(r@) == split_lines_from(s@, 0),
{
    let n = s.len();
    let mut out: Vec<Vec<char>> = Vec::new();
    let mut i: usize = 0;
    assert(lines_view(out@) + split_lines_from(s@, 0) =~= split_lines_from(s@, 0));
    loop
        invariant
            i <= n,
            n == s@.len(),
            split_lines_from(s@, 0) == lines_view(out@) + split_lines_from(s@, i as int),
        decreases n - i,
    {
        let ghost out_pre = out@;
        let ll = line_len_exec(s, i);
        let line = chars_range(s, i, i + ll);
        out.push(line);
        proof {
            assert(lines_view(out@) =~= lines_view(out_pre).push(line@)) by {
                assert(out@.drop_last() =~= out_pre);
            }
        }
        if i + ll >= n {
            proof {
                assert(line@ =~= s@.subrange(i as int, s@.len() as int));
                assert(split_lines_from(s@, i as int) =~= seq![line@]);
                assert(lines_view(out_pre) + seq![line@] =~= lines_view(out@));
            }
            assert(split_lines_from(s@, 0) =~= lines_view(out@));
            return out;
        }
        proof {
            assert(split_lines_from(s@, i as int) == seq![line@] + split_lines_from(
                s@,
                i as int + ll + 1,
            ));
            assert(lines_view(out_pre) + (seq![line@] + split_lines_from(s@, i as int + ll + 1))
                =~= lines_view(out@) + split_lines_from(s@, i as int + ll + 1));
        }
        i = i + ll + 1;
    }
}

/// The views of a vector of character-vector lines.
pub open spec fn lines_view(v: Seq<Vec<char>>) -> Seq<Seq<char>>
    decreases v.len(),
{
    if v.len() == 0 {
        Seq::empty()
    } else {
        lines_view(v.drop_last()).push(v.last()@)
    }
}

/// The key/value pair a configuration line contributes, if any: the line is
/// trimmed, anything from the first `#` on is dropped (and the rest
/// re-trimmed), blank lines and `[section]` headers contribute nothing, and
/// an assignment needs `=` with a non-empty key and value; the value loses
/// one pair of surrounding quotes.
pub open spec fn line_kv(line: Seq<char>) -> Option<(Seq<char>, Seq<char>)> {
    let t1 = trim_spec(line);
    if t1.len() == 0 {
        None
    } else {
        let t = match find_from(t1, seq!['#'], 0) {
            Some(p) => trim_spec(t1.take(p)),
            None => t1,
        };
        if t.len() == 0 {
            None
        } else if t[0] == '[' && t.last() == ']' {
            None
        } else {
            match find_from(t, seq!['='], 0) {
                None => None,
                Some(eq) => {
                    let k = trim_spec(t.take(eq));
                    let v = trim_spec(t.skip(eq + 1));
                    if k.len() == 0 || v.len() == 0 {
                        None
                    } else {
                        Some((k, strip_quotes_spec(v)))
                    }
                },
            }
        }
    }
}

/// The key/value pairs the given lines contribute, in order.
pub open spec fn kv_of_lines(lines: Seq<Seq<char>>) -> Seq<(Seq<char>, Seq<char>)>
    decreases lines.len(),
{
    if lines.len() == 0 {
        Seq::empty()
    } else {
        let rest = kv_of_lines(lines.drop_first());
        match line_kv(lines[0]) {
            Some(kv) => seq![kv] + rest,
            None => rest,
        }
    }
}

/// The key/value pairs of a loose TOML-like configuration text: line based,
/// comments and section headers ignored, values unquoted.
pub open spec fn loose_toml_kv_spec(s: Seq<char>) -> Seq<(Seq<char>, Seq<char>)> {
    kv_of_lines(split_lines_from(s, 0))
}

/// The views of a vector of owned key/value pairs.
pub open spec fn kv_view(v: Seq<(String, String)>) -> Seq<(Seq<char>, Seq<char>)>
    decreases v.len(),
{
    if v.len() == 0 {
        Seq::empty()
    } else {
        kv_view(v.drop_last()).push((v.last().0@, v.last().1@))
    }
}

fn line_kv_exec(line: &Vec<char>) -> (r: Option<(String, String)>)
    ensures
        match r {
            Some(p) => line_kv(line@) == Some((p.0@, p.1@)),
            None => line_kv(line@) is None,
        },
{
    let t1 = trim_chars(line);
    if t1.len() == 0 {
        return None;
    }
    let hash_pat = vec!['#'];
    assert(hash_pat@ =~= seq!['#']);
    let t = match find_pattern(&t1, &hash_pat, 0) {
        Some(p) => {
            let cut = chars_range(&t1, 0, p);
            assert(cut@ =~= t1@.take(p as int));
            trim_chars(&cut)
        },
        None => t1,
    };
    let n = t.len();
    if n == 0 {
        return None;
    }
    if t[0] == '[' && t[n - 1] == ']' {
        return None;
    }
    let eq_pat = vec!['='];
    assert(eq_pat@ =~= seq!['=']);
    match find_pattern(&t, &eq_pat, 0) {
        None => None,
        Some(eq) => {
            let left = chars_range(&t, 0, eq);
            assert(left@ =~= t@.take(eq as int));
            let right = chars_range(&t, eq + 1, n);
            assert(right@ =~= t@.skip(eq as int + 1));
            let k = trim_chars(&left);
            let v = trim_chars(&right);
            if k.len() == 0 || v.len() == 0 {
                None
            } else {
                let vq = strip_quotes_chars(&v);
                Some((string_of_chars(&k), string_of_chars(&vq)))
            }
        },
    }
}

/// Parse a loose TOML-like configuration text into its key/value pairs, in
/// order of appearance, per [`loose_toml_kv_spec`].
pub fn parse_loose_toml_kv(contents: &str) -> (r: Vec<(String, String)>)
    ensures
        kv_view(r@) == loose_toml_kv_spec(contents@),
{
    let chars = chars_of_str(contents);
    let lines = split_lines(&chars);
    let mut out: Vec<(String, String)> = Vec::new();
    let mut i: usize = 0;
    proof {
        lemma_lines_view_len(lines@);
        assert(lines_view(lines@).skip(0) =~= lines_view(lines@));
        assert(kv_view(out@) + kv_of_lines(lines_view(lines@)) =~= kv_of_lines(
            lines_view(lines@),
        ));
    }
    while i < lines.len()
        invariant
            i <= lines@.len(),
            lines_view(lines@) == split_lines_from(chars@, 0),
            chars@ == contents@,
            lines_view(lines@).len() == lines@.len(),
            kv_of_lines(lines_view(lines@)) == kv_view(out@) + kv_of_lines(
                lines_view(lines@).skip(i as int),
            ),
        decreases lines@.len() - i,
    {
        let ghost lv = lines_view(lines@);
        let ghost out_pre = out@;
        assert(lv.skip(i as int)[0] == lv[i as int]);
        assert(lv[i as int] == lines@[i as int]@) by {
            lemma_lines_view_index(lines@, i as int);
        }
        assert(lv.skip(i as int).drop_first() =~= lv.skip(i as int + 1));
        match line_kv_exec(&lines[i]) {
            Some(p) => {
                out.push(p);
                proof {
                    assert(kv_view(out@) =~= kv_view(out_pre).push((p.0@, p.1@))) by {
                        assert(out@.drop_last() =~= out_pre);
                    }
                    assert(kv_view(out_pre) + (seq![(p.0@, p.1@)] + kv_of_lines(
                        lv.skip(i as int + 1),
                    )) =~= kv_view(out@) + kv_of_lines(lv.skip(i as int + 1)));
                }
            },
            None => {},
        }
        i = i + 1;
    }
    assert(lines_view(lines@).skip(i as int) =~= Seq::<Seq<char>>::empty());
    assert(kv_view(out@) + kv_of_lines(Seq::<Seq<char>>::empty()) =~= kv_view(out@));
    out
}

/// The key/value pair an OS release line contributes: trimmed, `#` comment
/// lines skipped, `KEY=value` with the value trimmed and unquoted; unlike
/// the configuration parser, empty keys and values are kept.
pub open spec fn line_osr(line: Seq<char>) -> Option<(Seq<char>, Seq<char>)> {
    let t = trim_spec(line);
    if t.len() == 0 {
        None
    } else if t[0] == '#' {
        None
    } else {
        match find_from(t, seq!['='], 0) {
            None => None,
            Some(eq) => Some((trim_spec(t.take(eq)), strip_quotes_spec(t.skip(eq + 1)))),
        }
    }
}

/// The key/value pairs the given OS release lines contribute, in order.
pub open spec fn osr_of_lines(lines: Seq<Seq<char>>) -> Seq<(Seq<char>, Seq<char>)>
    decreases lines.len(),
{
    if lines.len() == 0 {
        Seq::empty()
    } else {
        let rest = osr_of_lines(lines.drop_first());
        match line_osr(lines[0]) {
            Some(kv) => seq![kv] + rest,
            None => rest,
        }
    }
}

/// The key/value pairs of an OS release table.
pub open spec fn os_release_kv_spec(s: Seq<char>) -> Seq<(Seq<char>, Seq<char>)> {
    osr_of_lines(split_lines_from(s, 0))
}

fn line_osr_exec(line: &Vec<char>) -> (r: Option<(String, String)>)
    ensures
        match r {
            Some(p) => line_osr(line@) == Some((p.0@, p.1@)),
            None => line_osr(line@) is None,
        },
{
    let t = trim_chars(line);
    let n = t.len();
    if n == 0 {
        return None;
    }
    if t[0] == '#' {
        return None;
    }
    let eq_pat = vec!['='];
    assert(eq_pat@ =~= seq!['=']);
    match find_pattern(&t, &eq_pat, 0) {
        None => None,
        Some(eq) => {
            let left = chars_range(&t, 0, eq);
            assert(left@ =~= t@.take(eq as int));
            let right = chars_range(&t, eq + 1, n);
            assert(right@ =~= t@.skip(eq as int + 1));
            let k = trim_chars(&left);
            let vq = strip_quotes_chars(&right);
            Some((string_of_chars(&k), string_of_chars(&vq)))
        },
    }
}

/// Parse an OS release table (`KEY=value` lines) into its key/value pairs,
/// in order of appearance, per [`os_release_kv_spec`].
pub fn parse_os_release(contents: &str) -> (r: Vec<(String, String)>)
    ensures
        kv_view(r@) == os_release_kv_spec(contents@),
{
    let chars = chars_of_str(contents);
    let lines = split_lines(&chars);
    let mut out: Vec<(String, String)> = Vec::new();
    let mut i: usize = 0;
    proof {
        lemma_lines_view_len(lines@);
        assert(lines_view(lines@).skip(0) =~= lines_view(lines@));
        assert(kv_view(out@) + osr_of_lines(lines_view(lines@)) =~= osr_of_lines(
            lines_view(lines@),
        ));
    }
    while i < lines.len()
        invariant
            i <= lines@.len(),
            lines_view(lines@) == split_lines_from(chars@, 0),
            chars@ == contents@,
            lines_view(lines@).len() == lines@.len(),
            osr_of_lines(lines_view(lines@)) == kv_view(out@) + osr_of_lines(
                lines_view(lines@).skip(i as int),
            ),
        decreases lines@.len() - i,
    {
        let ghost lv = lines_view(lines@);
        let ghost out_pre = out@;
        assert(lv.skip(i as int)[0] == lv[i as int]);
        assert(lv[i as int] == lines@[i as int]@) by {
            lemma_lines_view_index(lines@, i as int);
        }
        assert(lv.skip(i as int).drop_first() =~= lv.skip(i as int + 1));
        match line_osr_exec(&lines[i]) {
            Some(p) => {
                out.push(p);
                proof {
                    assert(kv_view(out@) =~= kv_view(out_pre).push((p.0@, p.1@))) by {
                        assert(out@.drop_last() =~= out_pre);
                    }
                    assert(kv_view(out_pre) + (seq![(p.0@, p.1@)] + osr_of_lines(
                        lv.skip(i as int + 1),
                    )) =~= kv_view(out@) + osr_of_lines(lv.skip(i as int + 1)));
                }
            },
            None => {},
        }
        i = i + 1;
    }
    assert(lines_view(lines@).skip(i as int) =~= Seq::<Seq<char>>::empty());
    assert(kv_view(out@) + osr_of_lines(Seq::<Seq<char>>::empty()) =~= kv_view(out@));
    out
}

/// The value bound to `key` among the pairs, the last occurrence winning,
/// as a map built by repeated insertion would hold it.
pub open spec fn kv_get(kvs: Seq<(Seq<char>, Seq<char>)>, key: Seq<char>) -> Option<Seq<char>>
    decreases kvs.len(),
{
    if kvs.len() == 0 {
        None
    } else if kvs.last().0 == key {
        Some(kvs.last().1)
    } else {
        kv_get(kvs.drop_last(), key)
    }
}

fn kv_find(kvs: &Vec<(String, String)>, key: &str) -> (r: Option<usize>)
    ensures
        match r {
            Some(i) => i < kvs@.len() && kv_get(kv_view(kvs@), key@) == Some(kvs@[i as int].1@),
            None => kv_get(kv_view(kvs@), key@) is None,
        },
{
    let mut j = kvs.len();
    proof {
        assert(kvs@.take(j as int) =~= kvs@);
    }
    while j > 0
        invariant
            j <= kvs@.len(),
            kv_get(kv_view(kvs@), key@) == kv_get(kv_view(kvs@.take(j as int)), key@),
        decreases j,
    {
        let j1 = j - 1;
        proof {
            assert(kvs@.take(j as int).drop_last() =~= kvs@.take(j1 as int));
            assert(kvs@.take(j as int).last() == kvs@[j1 as int]);
            assert(kv_view(kvs@.take(j as int)) == kv_view(kvs@.take(j1 as int)).push(
                (kvs@[j1 as int].0@, kvs@[j1 as int].1@),
            ));
        }
        if str_eq(kvs[j1].0.as_str(), key) {
            proof {
                let kw = kv_view(kvs@.take(j as int));
                assert(kw.last() == (kvs@[j1 as int].0@, kvs@[j1 as int].1@)) by {
                    assert(kw.drop_last() =~= kv_view(kvs@.take(j1 as int)));
                }
                assert(kv_get(kw, key@) == Some(kvs@[j1 as int].1@));
            }
            return Some(j1);
        }
        proof {
            let kw = kv_view(kvs@.take(j as int));
            assert(kw.last() == (kvs@[j1 as int].0@, kvs@[j1 as int].1@));
            assert(kw.drop_last() =~= kv_view(kvs@.take(j1 as int)));
        }
        j = j1;
    }
    assert(kv_view(kvs@.take(0)) =~= Seq::<(Seq<char>, Seq<char>)>::empty()) by {
        assert(kvs@.take(0) =~= Seq::<(String, String)>::empty());
    }
    None
}

/// The view of an optional owned string.
pub open spec fn opt_view(o: Option<String>) -> Option<Seq<char>> {
    match o {
        Some(s) => Some(s@),
        None => None,
    }
}

/// The view of an optional borrowed string.
pub open spec fn opt_str_view(o: Option<&str>) -> Option<Seq<char>> {
    match o {
        Some(s) => Some(s@),
        None => None,
    }
}

/// The service a provided raw value selects, if one was provided and parses.
pub open spec fn service_update(v: Option<Seq<char>>) -> Option<LlmService> {
    match v {
        Some(x) => parse_llm_service_spec(x),
        None => None,
    }
}

/// The OS a provided raw value selects, if one was provided and parses.
pub open spec fn os_update(v: Option<Seq<char>>) -> Option<ScyOs> {
    match v {
        Some(x) => parse_os_spec(x),
        None => None,
    }
}

/// The boolean a provided raw value selects, if one was provided and parses.
pub open spec fn bool_update(v: Option<Seq<char>>) -> Option<bool> {
    match v {
        Some(x) => parse_bool_spec(x),
        None => None,
    }
}

/// The trimmed text a provided raw value contributes, when non-empty.
pub open spec fn text_update(v: Option<Seq<char>>) -> Option<Seq<char>> {
    match v {
        Some(x) => if trim_spec(x).len() > 0 {
            Some(trim_spec(x))
        } else {
            None
        },
        None => None,
    }
}

/// The timeout a provided raw value selects: its trimmed decimal digits,
/// when they are non-empty and fit in a `u64`.
pub open spec fn timeout_update(v: Option<Seq<char>>) -> Option<u64> {
    match v {
        Some(x) => {
            let t = trim_spec(x);
            if t.len() > 0 && all_dec_digits(t) && dec_val_of(t) <= u64::MAX {
                Some(dec_val_of(t) as u64)
            } else {
                None
            }
        },
        None => None,
    }
}

/// Apply the key/value pairs of a configuration file to the setting: each
/// recognised key that parses replaces its field, last occurrence winning;
/// unparseable or absent keys leave the field as it was.
#[verifier::rlimit(80)]
pub fn apply_kv(setting: &mut SconnySetting, kvs: &Vec<(String, String)>)
    ensures
        ({
            let k = kv_view(kvs@);
            &&& final(setting).llm_service == (match service_update(kv_get(k, "llm_service"@)) {
                Some(s) => s,
                None => old(setting).llm_service,
            })
            &&& opt_view(final(setting).model) == (match text_update(kv_get(k, "model"@)) {
                Some(m) => Some(m),
                None => opt_view(old(setting).model),
            })
            &&& final(setting).env.os == (match os_update(kv_get(k, "os"@)) {
                Some(o) => o,
                None => old(setting).env.os,
            })
            &&& opt_view(final(setting).env.shell) == (match text_update(kv_get(k, "shell"@)) {
                Some(m) => Some(m),
                None => opt_view(old(setting).env.shell),
            })
            &&& final(setting).policy.dry_run == (match bool_update(kv_get(k, "dry_run"@)) {
                Some(b) => b,
                None => old(setting).policy.dry_run,
            })
            &&& final(setting).policy.require_confirmation == (match bool_update(
                kv_get(k, "require_confirmation"@),
            ) {
                Some(b) => b,
                None => old(setting).policy.require_confirmation,
            })
            &&& final(setting).policy.timeout_sec == (match timeout_update(
                kv_get(k, "timeout_sec"@),
            ) {
                Some(t) => t,
                None => old(setting).policy.timeout_sec,
            })
        }),
        final(setting).env.distro_id == old(setting).env.distro_id,
        final(setting).env.version_id == old(setting).env.version_id,
        final(setting).env.pretty_name == old(setting).env.pretty_name,
        final(setting).config_path == old(setting).config_path,
{
    match kv_find(kvs, "llm_service") {
        Some(i) => match parse_llm_service(kvs[i].1.as_str()) {
            Some(svc) => {
                setting.llm_service = svc;
            },
            None => {},
        },
        None => {},
    }
    match kv_find(kvs, "model") {
        Some(i) => {
            let c = chars_of_str(kvs[i].1.as_str());
            let t = trim_chars(&c);
            if t.len() > 0 {
                setting.model = Some(string_of_chars(&t));
            }
        },
        None => {},
    }
    match kv_find(kvs, "os") {
        Some(i) => match parse_os(kvs[i].1.as_str()) {
            Some(os) => {
                setting.env.os = os;
            },
            None => {},
        },
        None => {},
    }
    match kv_find(kvs, "shell") {
        Some(i) => {
            let c = chars_of_str(kvs[i].1.as_str());
            let t = trim_chars(&c);
            if t.len() > 0 {
                setting.env.shell = Some(string_of_chars(&t));
            }
        },
        None => {},
    }
    match kv_find(kvs, "dry_run") {
        Some(i) => match parse_bool(kvs[i].1.as_str()) {
            Some(b) => {
                setting.policy.dry_run = b;
            },
            None => {},
        },
        None => {},
    }
    match kv_find(kvs, "require_confirmation") {
        Some(i) => match parse_bool(kvs[i].1.as_str()) {
            Some(b) => {
                setting.policy.require_confirmation = b;
            },
            None => {},
        },
        None => {},
    }
    match kv_find(kvs, "timeout_sec") {
        Some(i) => {
            let c = chars_of_str(kvs[i].1.as_str());
            let t = trim_chars(&c);
            match parse_u64_chars(&t) {
                Some(n) => {
                    setting.policy.timeout_sec = n;
                },
                None => {},
            }
        },
        None => {},
    }
}

/// The override values read from the process environment, where set; the
/// caller collects them, the library applies them.
#[derive(Clone, Debug)]
pub struct EnvOverrides {
    pub llm_service: Option<String>,
    pub model: Option<String>,
    pub os: Option<String>,
    pub shell: Option<String>,
    pub dry_run: Option<String>,
    pub require_confirmation: Option<String>,
    pub timeout_sec: Option<String>,
}

/// Apply environment overrides on top of the setting, with the same
/// parsing and fallback behaviour as [`apply_kv`].
#[verifier::rlimit(80)]
pub fn apply_env_overrides(setting: &mut SconnySetting, ov: &EnvOverrides)
    ensures
        final(setting).llm_service == (match service_update(opt_view(ov.llm_service)) {
            Some(s) => s,
            None => old(setting).llm_service,
        }),
        opt_view(final(setting).model) == (match text_update(opt_view(ov.model)) {
            Some(m) => Some(m),
            None => opt_view(old(setting).model),
        }),
        final(setting).env.os == (match os_update(opt_view(ov.os)) {
            Some(o) => o,
            None => old(setting).env.os,
        }),
        opt_view(final(setting).env.shell) == (match text_update(opt_view(ov.shell)) {
            Some(m) => Some(m),
            None => opt_view(old(setting).env.shell),
        }),
        final(setting).policy.dry_run == (match bool_update(opt_view(ov.dry_run)) {
            Some(b) => b,
            None => old(setting).policy.dry_run,
        }),
        final(setting).policy.require_confirmation == (match bool_update(
            opt_view(ov.require_confirmation),
        ) {
            Some(b) => b,
            None => old(setting).policy.require_confirmation,
        }),
        final(setting).policy.timeout_sec == (match timeout_update(opt_view(ov.timeout_sec)) {
            Some(t) => t,
            None => old(setting).policy.timeout_sec,
        }),
        final(setting).env.distro_id == old(setting).env.distro_id,
        final(setting).env.version_id == old(setting).env.version_id,
        final(setting).env.pretty_name == old(setting).env.pretty_name,
        final(setting).config_path == old(setting).config_path,
{
    match &ov.llm_service {
        Some(s) => match parse_llm_service(s.as_str()) {
            Some(svc) => {
                setting.llm_service = svc;
            },
            None => {},
        },
        None => {},
    }
    match &ov.model {
        Some(s) => {
            let c = chars_of_str(s.as_str());
            let t = trim_chars(&c);
            if t.len() > 0 {
                setting.model = Some(string_of_chars(&t));
            }
        },
        None => {},
    }
    match &ov.os {
        Some(s) => match parse_os(s.as_str()) {
            Some(os) => {
                setting.env.os = os;
            },
            None => {},
        },
        None => {},
    }
    match &ov.shell {
        Some(s) => {
            let c = chars_of_str(s.as_str());
            let t = trim_chars(&c);
            if t.len() > 0 {
                setting.env.shell = Some(string_of_chars(&t));
            }
        },
        None => {},
    }
    match &ov.dry_run {
        Some(s) => match parse_bool(s.as_str()) {
            Some(b) => {
                setting.policy.dry_run = b;
            },
            None => {},
        },
        None => {},
    }
    match &ov.require_confirmation {
        Some(s) => match parse_bool(s.as_str()) {
            Some(b) => {
                setting.policy.require_confirmation = b;
            },
            None => {},
        },
        None => {},
    }
    match &ov.timeout_sec {
        Some(s) => {
            let c = chars_of_str(s.as_str());
            let t = trim_chars(&c);
            match parse_u64_chars(&t) {
                Some(n) => {
                    setting.policy.timeout_sec = n;
                },
                None => {},
            }
        },
        None => {},
    }
}

/// Whether the environment description still wants the OS release table:
/// only on Linux, and only while any of its three fields is unknown.
pub fn needs_os_release(envinfo: &ScyEnvInfo) -> (r: bool)
    ensures
        r == (envinfo.os == ScyOs::Linux && (envinfo.distro_id is None || envinfo.version_id
            is None || envinfo.pretty_name is None)),
{
    let linux = match envinfo.os {
        ScyOs::Linux => true,
        ScyOs::Windows => false,
    };
    linux && (envinfo.distro_id.is_none() || envinfo.version_id.is_none()
        || envinfo.pretty_name.is_none())
}

/// How a missing shell is filled: an already-known shell stays; otherwise a
/// provided variable value is taken verbatim when it is not blank.
pub open spec fn shell_fill(old_sh: Option<Seq<char>>, var: Option<Seq<char>>) -> Option<
    Seq<char>,
> {
    match old_sh {
        Some(s) => Some(s),
        None => match var {
            Some(v) => if trim_spec(v).len() > 0 {
                Some(v)
            } else {
                None
            },
            None => None,
        },
    }
}

/// Completion of one distribution entry: a `None` entry is looked up in
/// the parsed table; a present entry is untouched.
pub open spec fn osr_fill(old_f: Option<Seq<char>>, gate: bool, kv: Option<Seq<char>>) -> Option<
    Seq<char>,
> {
    if gate && old_f is None {
        kv
    } else {
        old_f
    }
}

/// The parsed OS release table, when its contents were provided.
pub open spec fn osr_table(os_release: Option<&str>) -> Seq<(Seq<char>, Seq<char>)> {
    match os_release {
        Some(t) => os_release_kv_spec(t@),
        None => Seq::empty(),
    }
}

/// Complete the environment description from the surroundings: fill a
/// missing shell from the OS-appropriate variable (`COMSPEC` on Windows,
/// `SHELL` elsewhere), and, on Linux with distribution fields still
/// unknown, fill those from the OS release table the caller read.
pub fn fill_env_defaults(
    envinfo: &mut ScyEnvInfo,
    comspec: Option<&str>,
    shell: Option<&str>,
    os_release: Option<&str>,
)
    ensures
        final(envinfo).os == old(envinfo).os,
        opt_view(final(envinfo).shell) == shell_fill(
            opt_view(old(envinfo).shell),
            if old(envinfo).os == ScyOs::Windows {
                opt_str_view(comspec)
            } else {
                opt_str_view(shell)
            },
        ),
        ({
            let gate = old(envinfo).os == ScyOs::Linux && (old(envinfo).distro_id is None || old(
                envinfo,
            ).version_id is None || old(envinfo).pretty_name is None) && os_release is Some;
            let m = osr_table(os_release);
            &&& opt_view(final(envinfo).distro_id) == osr_fill(
                opt_view(old(envinfo).distro_id),
                gate,
                kv_get(m, "ID"@),
            )
            &&& opt_view(final(envinfo).version_id) == osr_fill(
                opt_view(old(envinfo).version_id),
                gate,
                kv_get(m, "VERSION_ID"@),
            )
            &&& opt_view(final(envinfo).pretty_name) == osr_fill(
                opt_view(old(envinfo).pretty_name),
                gate,
                kv_get(m, "PRETTY_NAME"@),
            )
        }),
{
    let fill_wanted = envinfo.shell.is_none();
    if fill_wanted {
        let windows = match envinfo.os {
            ScyOs::Windows => true,
            ScyOs::Linux => false,
        };
        let var = if windows {
            comspec
        } else {
            shell
        };
        match var {
            Some(v) => {
                let c = chars_of_str(v);
                let t = trim_chars(&c);
                if t.len() > 0 {
                    envinfo.shell = Some(v.to_owned());
                }
            },
            None => {},
        }
    }
    let gate = needs_os_release_fields(envinfo);
    match os_release {
        Some(contents) => {
            if gate {
                let kvs = parse_os_release(contents);
                if envinfo.distro_id.is_none() {
                    match kv_find(&kvs, "ID") {
                        Some(i) => {
                            envinfo.distro_id = Some(kvs[i].1.as_str().to_owned());
                        },
                        None => {},
                    }
                }
                if envinfo.version_id.is_none() {
                    match kv_find(&kvs, "VERSION_ID") {
                        Some(i) => {
                            envinfo.version_id = Some(kvs[i].1.as_str().to_owned());
                        },
                        None => {},
                    }
                }
                if envinfo.pretty_name.is_none() {
                    match kv_find(&kvs, "PRETTY_NAME") {
                        Some(i) => {
                            envinfo.pretty_name = Some(kvs[i].1.as_str().to_owned());
                        },
                        None => {},
                    }
                }
            }
        },
        None => {},
    }
}

fn needs_os_release_fields(envinfo: &ScyEnvInfo) -> (r: bool)
    ensures
        r == (envinfo.os == ScyOs::Linux && (envinfo.distro_id is None || envinfo.version_id
            is None || envinfo.pretty_name is None)),
{
    needs_os_release(envinfo)
}

proof fn lemma_lines_view_index(v: Seq<Vec<char>>, i: int)
    requires
        0 <= i < v.len(),
    ensures
        lines_view(v).len() == v.len(),
        lines_view(v)[i] == v[i]@,
    decreases v.len(),
{
    if v.len() > 0 {
        if i == v.len() - 1 {
            lemma_lines_view_len(v.drop_last());
        } else {
            lemma_lines_view_index(v.drop_last(), i);
            assert(v.drop_last()[i] == v[i]);
        }
    }
}

proof fn lemma_lines_view_len(v: Seq<Vec<char>>)
    ensures
        lines_view(v).len() == v.len(),
    decreases v.len(),
{
    if v.len() > 0 {
        lemma_lines_view_len(v.drop_last());
    }
}

} // verus!
