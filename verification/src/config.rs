//! Configuration intake: the compiled-in YAML text (`app_id`, optional
//! `channel` and `base_url`) and the runtime `AppConfig`, resolved into the
//! single `ResolvedConfig` every operation reads.
//!
//! The YAML subset this library reads is one `key: value` pair per line;
//! blank lines and `#` comments are skipped, unknown keys are ignored.

use vstd::prelude::*;

use crate::text::{chars_to_string, str_to_chars};

verus! {

/// Is `c` blank space inside a line?
pub open spec fn is_blank_char(c: char) -> bool {
    c == ' ' || c == '\t' || c == '\r'
}

/// The first position at or after `i` holding `c`, or the length.
pub open spec fn spec_find(s: Seq<char>, i: int, c: char) -> int
    decreases s.len() - i when 0 <= i <= s.len()
{
    if i < s.len() {
        if s[i] == c {
            i
        } else {
            spec_find(s, i + 1, c)
        }
    } else {
        i
    }
}

/// Without its leading blanks.
pub open spec fn spec_trim_start(s: Seq<char>) -> Seq<char>
    decreases s.len(),
{
    if s.len() > 0 && is_blank_char(s[0]) {
        spec_trim_start(s.skip(1))
    } else {
        s
    }
}

/// Without its trailing blanks.
pub open spec fn spec_trim_end(s: Seq<char>) -> Seq<char>
    decreases s.len(),
{
    if s.len() > 0 && is_blank_char(s.last()) {
        spec_trim_end(s.drop_last())
    } else {
        s
    }
}

/// Without leading and trailing blanks.
pub open spec fn spec_trim(s: Seq<char>) -> Seq<char> {
    spec_trim_end(spec_trim_start(s))
}

/// Mathematical image of the keys a YAML document sets.
#[verifier::ext_equal]
pub ghost struct YamlV {
    pub app_id: Option<Seq<char>>,
    pub channel: Option<Seq<char>>,
    pub base_url: Option<Seq<char>>,
}

/// The empty accumulator: no key seen yet.
pub open spec fn spec_yaml_empty() -> YamlV {
    YamlV { app_id: None, channel: None, base_url: None }
}

/// One line: blank or comment lines change nothing; a `key: value` line sets
/// a recognized key and leaves unknown keys alone; anything else is a parse
/// error.
pub open spec fn spec_yaml_line(line: Seq<char>, acc: YamlV) -> Option<YamlV> {
    let t = spec_trim(line);
    if t.len() == 0 {
        Some(acc)
    } else if t[0] == '#' {
        Some(acc)
    } else {
        let c = spec_find(line, 0, ':');
        if c >= line.len() {
            None
        } else {
            let key = spec_trim(line.subrange(0, c));
            let value = spec_trim(line.subrange(c + 1, line.len() as int));
            if key == "app_id"@ {
                Some(YamlV { app_id: Some(value), ..acc })
            } else if key == "channel"@ {
                Some(YamlV { channel: Some(value), ..acc })
            } else if key == "base_url"@ {
                Some(YamlV { base_url: Some(value), ..acc })
            } else {
                Some(acc)
            }
        }
    }
}

/// All lines from position `i` on, newline separated.
pub open spec fn spec_yaml_lines(s: Seq<char>, i: int, acc: YamlV) -> Option<YamlV>
    decreases s.len() - i when 0 <= i <= s.len()
{
    if i >= s.len() {
        Some(acc)
    } else {
        let e = spec_find(s, i, '\n');
        match spec_yaml_line(s.subrange(i, e), acc) {
            None => None,
            Some(acc2) => if i <= e && e < s.len() {
                spec_yaml_lines(s, e + 1, acc2)
            } else {
                Some(acc2)
            },
        }
    }
}

/// What a whole YAML text sets.
pub open spec fn spec_parse_yaml(s: Seq<char>) -> Option<YamlV> {
    spec_yaml_lines(s, 0, spec_yaml_empty())
}

/// The keys read from the compiled-in YAML text.
pub struct YamlConfig {
    pub app_id: Option<String>,
    pub channel: Option<String>,
    pub base_url: Option<String>,
}

impl View for YamlConfig {
    type V = YamlV;

    open spec fn view(&self) -> YamlV {
        YamlV {
            app_id: match self.app_id {
                Some(ref s) => Some(s@),
                None => None,
            },
            channel: match self.channel {
                Some(ref s) => Some(s@),
                None => None,
            },
            base_url: match self.base_url {
                Some(ref s) => Some(s@),
                None => None,
            },
        }
    }
}

proof fn lemma_find_bounds(s: Seq<char>, i: int, c: char)
    requires
        0 <= i <= s.len(),
    ensures
        i <= spec_find(s, i, c) <= s.len(),
        spec_find(s, i, c) < s.len() ==> s[spec_find(s, i, c)] == c,
        forall|k: int| i <= k < spec_find(s, i, c) ==> s[k] != c,
    decreases s.len() - i,
{
    if i < s.len() && s[i] != c {
        lemma_find_bounds(s, i + 1, c);
    }
}

/// The first occurrence of `c` at or after `i`.
fn find_char(v: &Vec<char>, i: usize, c: char) -> (e: usize)
    requires
        i <= v@.len(),
    ensures
        e as int == spec_find(v@, i as int, c),
        i <= e <= v@.len(),
        e < v@.len() ==> v@[e as int] == c,
{
    let mut e: usize = i;
    while e < v.len() && v[e] != c
        invariant
            i <= e <= v@.len(),
            spec_find(v@, i as int, c) == spec_find(v@, e as int, c),
        decreases v@.len() - e,
    {
        e = e + 1;
    }
    proof {
        lemma_find_bounds(v@, e as int, c);
    }
    e
}

fn is_blank_exec(c: char) -> (b: bool)
    ensures
        b == is_blank_char(c),
{
    c == ' ' || c == '\t' || c == '\r'
}

proof fn lemma_trim_start_at(s: Seq<char>, m: int)
    requires
        0 <= m <= s.len(),
        forall|k: int| 0 <= k < m ==> is_blank_char(#[trigger] s[k]),
        m < s.len() ==> !is_blank_char(s[m as int]),
    ensures
        spec_trim_start(s) == s.skip(m),
    decreases m,
{
    if m == 0 {
        assert(s.skip(0) =~= s);
    } else {
        assert(is_blank_char(s[0]));
        lemma_trim_start_at(s.skip(1), m - 1);
        assert(s.skip(1).skip(m - 1) =~= s.skip(m));
    }
}

proof fn lemma_trim_end_at(s: Seq<char>, m: int)
    requires
        0 <= m <= s.len(),
        forall|k: int| m <= k < s.len() ==> is_blank_char(#[trigger] s[k]),
        m > 0 ==> !is_blank_char(s[m - 1]),
    ensures
        spec_trim_end(s) == s.take(m),
    decreases s.len(),
{
    if m < s.len() {
        assert(is_blank_char(s.last()));
        lemma_trim_end_at(s.drop_last(), m);
        assert(s.drop_last().take(m) =~= s.take(m));
    } else {
        assert(s.take(m) =~= s);
    }
}

/// The characters of `v[from..to)`.
fn subrange_to_vec(v: &Vec<char>, from: usize, to: usize) -> (r: Vec<char>)
    requires
        from <= to <= v@.len(),
    ensures
        r@ == v@.subrange(from as int, to as int),
{
    let mut r: Vec<char> = Vec::new();
    let mut i: usize = from;
    while i < to
        invariant
            from <= i <= to <= v@.len(),
            r@ == v@.subrange(from as int, i as int),
        decreases to - i,
    {
        r.push(v[i]);
        i = i + 1;
        proof {
            assert(r@ =~= v@.subrange(from as int, i as int));
        }
    }
    r
}

/// Strip leading and trailing blanks from a line.
fn trim_chars(line: &Vec<char>) -> (r: Vec<char>)
    ensures
        r@ == spec_trim(line@),
{
    let ghost s = line@;
    let len = line.len();
    let mut a: usize = 0;
    while a < len && is_blank_exec(line[a])
        invariant
            0 <= a <= len,
            len == s.len(),
            s == line@,
            forall|k: int| 0 <= k < a ==> is_blank_char(#[trigger] s[k]),
        decreases len - a,
    {
        a = a + 1;
    }
    proof {
        lemma_trim_start_at(s, a as int);
    }
    if a == len {
        let r: Vec<char> = Vec::new();
        proof {
            assert(s.skip(a as int) =~= Seq::<char>::empty());
            assert(r@ =~= spec_trim(s));
        }
        return r;
    }
    let mut b: usize = len;
    while b > a + 1 && is_blank_exec(line[b - 1])
        invariant
            a + 1 <= b <= len,
            len == s.len(),
            s == line@,
            forall|k: int| b <= k < len ==> is_blank_char(#[trigger] s[k]),
        decreases b,
    {
        b = b - 1;
    }
    let r = subrange_to_vec(line, a, b);
    proof {
        let t = s.skip(a as int);
        assert(!is_blank_char(s[a as int]));
        assert(!is_blank_char(t[(b - a - 1) as int]) && b - a > 0) by {
            if b == a + 1 {
                assert(t[0] == s[a as int]);
            } else {
                assert(t[(b - a - 1) as int] == s[(b - 1) as int]);
            }
        }
        assert(forall|k: int|
            b - a <= k < t.len() ==> is_blank_char(#[trigger] t[k])) by {
            assert(forall|k: int| b - a <= k < t.len() ==> t[k] == s[a + k]);
        }
        lemma_trim_end_at(t, b - a);
        assert(t.take((b - a) as int) =~= s.subrange(a as int, b as int));
        assert(r@ =~= spec_trim(s));
    }
    r
}

/// Do the characters equal the string?
fn chars_eq_str(v: &Vec<char>, s: &str) -> (b: bool)
    ensures
        b == (v@ == s@),
{
    let n = s.unicode_len();
    if v.len() != n {
        return false;
    }
    let mut i: usize = 0;
    while i < n
        invariant
            i <= n,
            n == s@.len(),
            n == v@.len(),
            forall|k: int| 0 <= k < i ==> v@[k] == s@[k],
        decreases n - i,
    {
        if v[i] != s.get_char(i) {
            return false;
        }
        i = i + 1;
    }
    proof {
        assert(v@ =~= s@);
    }
    true
}

/// Read one line into the accumulator.
fn yaml_line(line: &Vec<char>, acc: YamlConfig) -> (r: Option<YamlConfig>)
    ensures
        match r {
            Some(acc2) => spec_yaml_line(line@, acc@) == Some(acc2@),
            None => spec_yaml_line(line@, acc@) is None,
        },
{
    let t = trim_chars(line);
    if t.len() == 0 {
        return Some(acc);
    }
    if t[0] == '#' {
        return Some(acc);
    }
    let c = find_char(line, 0, ':');
    if c >= line.len() {
        return None;
    }
    let rawkey = subrange_to_vec(line, 0, c);
    let key = trim_chars(&rawkey);
    let rawval = subrange_to_vec(line, c + 1, line.len());
    let value = trim_chars(&rawval);
    let value = chars_to_string(&value);
    if chars_eq_str(&key, "app_id") {
        let r = YamlConfig { app_id: Some(value), ..acc };
        proof {
            assert(r@ =~= (YamlV { app_id: Some(value@), ..acc@ }));
        }
        Some(r)
    } else if chars_eq_str(&key, "channel") {
        let r = YamlConfig { channel: Some(value), ..acc };
        proof {
            assert(r@ =~= (YamlV { channel: Some(value@), ..acc@ }));
        }
        Some(r)
    } else if chars_eq_str(&key, "base_url") {
        let r = YamlConfig { base_url: Some(value), ..acc };
        proof {
            assert(r@ =~= (YamlV { base_url: Some(value@), ..acc@ }));
        }
        Some(r)
    } else {
        Some(acc)
    }
}

/// Read the lines from position `i` on.
fn yaml_lines(v: &Vec<char>, i: usize, acc: YamlConfig) -> (r: Option<YamlConfig>)
    requires
        i <= v@.len(),
    ensures
        match r {
            Some(acc2) => spec_yaml_lines(v@, i as int, acc@) == Some(acc2@),
            None => spec_yaml_lines(v@, i as int, acc@) is None,
        },
    decreases v@.len() - i,
{
    if i >= v.len() {
        return Some(acc);
    }
    let e = find_char(v, i, '\n');
    let line = subrange_to_vec(v, i, e);
    match yaml_line(&line, acc) {
        None => None,
        Some(acc2) => {
            if e < v.len() {
                yaml_lines(v, e + 1, acc2)
            } else {
                Some(acc2)
            }
        },
    }
}

impl YamlConfig {
    /// Read the compiled-in YAML text.  `None` means a line could not be
    /// read as `key: value`.
    pub fn from_yaml(yaml: &str) -> (r: Option<YamlConfig>)
        ensures
            match r {
                Some(cfg) => spec_parse_yaml(yaml@) == Some(cfg@),
                None => spec_parse_yaml(yaml@) is None,
            },
    {
        let v = str_to_chars(yaml);
        let acc = YamlConfig { app_id: None, channel: None, base_url: None };
        proof {
            assert(acc@ =~= spec_yaml_empty());
        }
        yaml_lines(&v, 0, acc)
    }
}

/// The runtime configuration the host application hands over.
pub struct AppConfig {
    pub cache_dir: String,
    pub release_version: String,
    pub original_libapp_path: String,
    pub vm_path: String,
}

/// The process-wide resolved configuration.  The caller owns where it lives;
/// `resolve_config` says what it holds.
pub struct ResolvedConfig {
    pub is_initialized: bool,
    pub cache_dir: String,
    pub download_dir: String,
    pub channel: String,
    pub app_id: String,
    pub release_version: String,
    pub original_libapp_path: String,
    pub vm_path: String,
    pub base_url: String,
}

impl ResolvedConfig {
    /// The configuration before `init`: nothing set.
    pub fn empty() -> (r: ResolvedConfig)
        ensures
            !r.is_initialized,
            r.cache_dir@ == Seq::<char>::empty(),
            r.download_dir@ == Seq::<char>::empty(),
            r.channel@ == Seq::<char>::empty(),
            r.app_id@ == Seq::<char>::empty(),
            r.release_version@ == Seq::<char>::empty(),
            r.original_libapp_path@ == Seq::<char>::empty(),
            r.vm_path@ == Seq::<char>::empty(),
            r.base_url@ == Seq::<char>::empty(),
    {
        ResolvedConfig {
            is_initialized: false,
            cache_dir: String::new(),
            download_dir: String::new(),
            channel: String::new(),
            app_id: String::new(),
            release_version: String::new(),
            original_libapp_path: String::new(),
            vm_path: String::new(),
            base_url: String::new(),
        }
    }
}

/// Merge the runtime configuration with the YAML keys, filling in the
/// default channel and server when the YAML leaves them out, and deriving
/// the download directory under the cache.
pub fn resolve_config(app_config: AppConfig, yaml: YamlConfig) -> (r: ResolvedConfig)
    requires
        yaml.app_id is Some,
    ensures
        r.is_initialized,
        r.cache_dir@ == app_config.cache_dir@,
        r.download_dir@ == app_config.cache_dir@ + "/downloads"@,
        r.channel@ == match yaml.channel {
            Some(c) => c@,
            None => "stable"@,
        },
        r.app_id@ == yaml.app_id->0@,
        r.release_version@ == app_config.release_version@,
        r.original_libapp_path@ == app_config.original_libapp_path@,
        r.vm_path@ == app_config.vm_path@,
        r.base_url@ == match yaml.base_url {
            Some(u) => u@,
            None => "https://api.shorebird.dev"@,
        },
{
    let download_dir = app_config.cache_dir.clone().concat("/downloads");
    let channel = match yaml.channel {
        Some(c) => c,
        None => "stable".to_owned(),
    };
    let base_url = match yaml.base_url {
        Some(u) => u,
        None => "https://api.shorebird.dev".to_owned(),
    };
    let app_id = match yaml.app_id {
        Some(a) => a,
        None => String::new(),
    };
    ResolvedConfig {
        is_initialized: true,
        cache_dir: app_config.cache_dir,
        download_dir,
        channel,
        app_id,
        release_version: app_config.release_version,
        original_libapp_path: app_config.original_libapp_path,
        vm_path: app_config.vm_path,
        base_url,
    }
}

} // verus!
