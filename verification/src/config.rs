//! Start-up configuration: which upstreams to call, where to listen, which
//! hosts may address the server and whether a bearer token is required.
use vstd::prelude::*;
use crate::text::{
    chars_of, is_blank, is_trimmed, lemma_trim_is_trimmed, lemma_trim_start_shape,
    lemma_trim_end_shape, lemma_trim_idempotent, trim, trim_bounds, trim_bounds_in,
    trim_start,
};

verus! {

/// Listen address used when `BIND_ADDR` is not set.
pub const DEFAULT_BIND_ADDR: &'static str = "0.0.0.0:3000";

/// Allowed hosts used when `MCP_ALLOWED_HOSTS` is not set.
pub const DEFAULT_ALLOWED_HOSTS: &'static str = "localhost,127.0.0.1,::1";

/// The start-up settings of the application.
pub struct AppConfig {
    pub api_key: String,
    pub upstream_url: String,
    pub deep_api_key: String,
    pub deep_upstream_url: String,
    pub bind_addr: String,
    pub allowed_hosts: Vec<String>,
    /// Only when set, the MCP endpoint requires this bearer token.
    pub auth_token: Option<String>,
}

/// Why the configuration could not be loaded.
#[derive(Debug)]
pub enum ConfigError {
    /// The named environment variable is required but not set.
    MissingVariable(&'static str),
}

/// The segments of `s` between occurrences of `sep` (`str::split` with a
/// `char` pattern): always at least one segment, possibly empty ones.
pub open spec fn split_on(s: Seq<char>, sep: char) -> Seq<Seq<char>>
    decreases s.len(),
{
    if s.len() == 0 {
        seq![Seq::<char>::empty()]
    } else {
        let prev = split_on(s.drop_last(), sep);
        if s.last() == sep {
            prev.push(Seq::<char>::empty())
        } else {
            prev.update(prev.len() - 1, prev.last().push(s.last()))
        }
    }
}

/// The trimmed segments that are not empty once trimmed, in order.
pub open spec fn trimmed_nonempty(segs: Seq<Seq<char>>) -> Seq<Seq<char>>
    decreases segs.len(),
{
    if segs.len() == 0 {
        Seq::<Seq<char>>::empty()
    } else {
        let prev = trimmed_nonempty(segs.drop_last());
        if trim(segs.last()).len() > 0 {
            prev.push(trim(segs.last()))
        } else {
            prev
        }
    }
}

/// The host list that a comma-separated setting denotes.
pub open spec fn allowed_hosts_of(raw: Seq<char>) -> Seq<Seq<char>> {
    trimmed_nonempty(split_on(raw, ','))
}

/// A host entry as the setting yields it: not empty, without surrounding
/// whitespace and without a comma.
pub open spec fn is_clean_host(h: Seq<char>) -> bool {
    h.len() > 0 && is_trimmed(h) && !h.contains(',')
}

/// No segment of a split holds the separator.
proof fn lemma_split_segments_lack_sep(s: Seq<char>, sep: char)
    ensures
        split_on(s, sep).len() >= 1,
        forall|i: int|
            0 <= i < split_on(s, sep).len() ==> !(#[trigger] split_on(s, sep)[i]).contains(sep),
    decreases s.len(),
{
    if s.len() > 0 {
        let prev = split_on(s.drop_last(), sep);
        lemma_split_segments_lack_sep(s.drop_last(), sep);
        if s.last() == sep {
            assert forall|i: int| 0 <= i < split_on(s, sep).len() implies !(#[trigger] split_on(
                s,
                sep,
            )[i]).contains(sep) by {
                if i < prev.len() {
                    assert(split_on(s, sep)[i] == prev[i]);
                } else {
                    assert(split_on(s, sep)[i] =~= Seq::<char>::empty());
                }
            }
        } else {
            assert forall|i: int| 0 <= i < split_on(s, sep).len() implies !(#[trigger] split_on(
                s,
                sep,
            )[i]).contains(sep) by {
                if i < prev.len() - 1 {
                    assert(split_on(s, sep)[i] == prev[i]);
                } else {
                    let seg = prev.last().push(s.last());
                    assert(split_on(s, sep)[i] == seg);
                    if seg.contains(sep) {
                        let k = choose|k: int| 0 <= k < seg.len() && seg[k] == sep;
                        assert(prev.last()[k] == sep);
                    }
                }
            }
        }
    }
}

/// Every character of `trim(x)` is a character of `x`.
proof fn lemma_trim_keeps_chars(x: Seq<char>, c: char)
    requires
        !x.contains(c),
    ensures
        !trim(x).contains(c),
{
    let a = trim_start(x);
    lemma_trim_start_shape(x);
    lemma_trim_end_shape(a);
    let t = trim(x);
    if t.contains(c) {
        let k = choose|k: int| 0 <= k < t.len() && t[k] == c;
        assert(a[k] == c);
        assert(x[x.len() - a.len() + k] == c);
    }
}

/// The entries kept from segments without commas are clean hosts.
proof fn lemma_trimmed_nonempty_clean(segs: Seq<Seq<char>>)
    requires
        forall|i: int| 0 <= i < segs.len() ==> !(#[trigger] segs[i]).contains(','),
    ensures
        forall|i: int|
            0 <= i < trimmed_nonempty(segs).len() ==> is_clean_host(
                #[trigger] trimmed_nonempty(segs)[i],
            ),
    decreases segs.len(),
{
    if segs.len() > 0 {
        let prev = trimmed_nonempty(segs.drop_last());
        assert forall|i: int| 0 <= i < segs.drop_last().len() implies !(
        #[trigger] segs.drop_last()[i]).contains(',') by {
            assert(segs.drop_last()[i] == segs[i]);
        }
        lemma_trimmed_nonempty_clean(segs.drop_last());
        let last = segs[segs.len() - 1];
        lemma_trim_is_trimmed(last);
        lemma_trim_keeps_chars(last, ',');
        assert forall|i: int| 0 <= i < trimmed_nonempty(segs).len() implies is_clean_host(
            #[trigger] trimmed_nonempty(segs)[i],
        ) by {
            if i < prev.len() {
                assert(trimmed_nonempty(segs)[i] == prev[i]);
            }
        }
    }
}

/// Every host that a setting yields is clean.
proof fn lemma_allowed_hosts_clean(raw: Seq<char>)
    ensures
        forall|i: int|
            0 <= i < allowed_hosts_of(raw).len() ==> is_clean_host(
                #[trigger] allowed_hosts_of(raw)[i],
            ),
{
    lemma_split_segments_lack_sep(raw, ',');
    lemma_trimmed_nonempty_clean(split_on(raw, ','));
}

/// Text without the separator is a single segment.
proof fn lemma_split_without_sep(s: Seq<char>, sep: char)
    requires
        !s.contains(sep),
    ensures
        split_on(s, sep) == seq![s],
    decreases s.len(),
{
    if s.len() > 0 {
        assert(!s.drop_last().contains(sep)) by {
            if s.drop_last().contains(sep) {
                let k = choose|k: int| 0 <= k < s.drop_last().len() && s.drop_last()[k] == sep;
                assert(s[k] == sep);
            }
        }
        lemma_split_without_sep(s.drop_last(), sep);
        assert(s.last() != sep) by {
            assert(s[s.len() - 1] == s.last());
        }
        assert(s.drop_last().push(s.last()) =~= s);
        assert(seq![s.drop_last()].update(0, s.drop_last().push(s.last())) =~= seq![s]);
    } else {
        assert(s =~= Seq::<char>::empty());
    }
}

/// Text up to the first separator is the first segment; the segments of the
/// rest follow.
proof fn lemma_split_at_first_sep(first: Seq<char>, rest: Seq<char>, sep: char)
    requires
        !first.contains(sep),
    ensures
        split_on(first + seq![sep] + rest, sep) == seq![first] + split_on(rest, sep),
    decreases rest.len(),
{
    let s = first + seq![sep] + rest;
    if rest.len() == 0 {
        assert(s =~= first.push(sep));
        assert(s.drop_last() =~= first);
        lemma_split_without_sep(first, sep);
        assert(seq![first].push(Seq::<char>::empty()) =~= seq![first] + seq![Seq::<char>::empty()]);
    } else {
        lemma_split_at_first_sep(first, rest.drop_last(), sep);
        assert(s.drop_last() =~= first + seq![sep] + rest.drop_last());
        assert(s.last() == rest.last());
        let prev = split_on(rest.drop_last(), sep);
        if rest.last() == sep {
            assert((seq![first] + prev).push(Seq::<char>::empty()) =~= seq![first] + prev.push(
                Seq::<char>::empty(),
            ));
        } else {
            assert(prev.len() >= 1) by {
                lemma_split_segments_lack_sep(rest.drop_last(), sep);
            }
            assert((seq![first] + prev).update(
                prev.len() as int,
                (seq![first] + prev).last().push(rest.last()),
            ) =~= seq![first] + prev.update(prev.len() - 1, prev.last().push(rest.last())));
        }
    }
}

/// Keeping the non-blank trimmed segments distributes over concatenation.
proof fn lemma_trimmed_nonempty_concat(x: Seq<Seq<char>>, y: Seq<Seq<char>>)
    ensures
        trimmed_nonempty(x + y) == trimmed_nonempty(x) + trimmed_nonempty(y),
    decreases y.len(),
{
    if y.len() == 0 {
        assert(x + y =~= x);
        assert(trimmed_nonempty(x) + Seq::<Seq<char>>::empty() =~= trimmed_nonempty(x));
    } else {
        lemma_trimmed_nonempty_concat(x, y.drop_last());
        assert((x + y).drop_last() =~= x + y.drop_last());
        assert((x + y).last() == y.last());
        assert((trimmed_nonempty(x) + trimmed_nonempty(y.drop_last())).push(trim(y.last()))
            =~= trimmed_nonempty(x) + trimmed_nonempty(y.drop_last()).push(trim(y.last())));
    }
}

/// The hosts kept from a single segment.
proof fn lemma_single_segment_hosts(seg: Seq<char>)
    ensures
        trimmed_nonempty(seq![seg]) == if trim(seg).len() > 0 {
            seq![trim(seg)]
        } else {
            Seq::<Seq<char>>::empty()
        },
{
    let one = seq![seg];
    assert(one.len() == 1);
    assert(one.drop_last() =~= Seq::<Seq<char>>::empty());
    assert(one.last() == seg);
    assert(trimmed_nonempty(Seq::<Seq<char>>::empty()) == Seq::<Seq<char>>::empty());
    assert(Seq::<Seq<char>>::empty().push(trim(seg)) =~= seq![trim(seg)]);
}

/// A setting without a comma names one host, its trimmed text, unless that
/// is empty.
pub proof fn law_single_host_setting(raw: Seq<char>)
    requires
        !raw.contains(','),
    ensures
        trim(raw).len() > 0 ==> allowed_hosts_of(raw) == seq![trim(raw)],
        trim(raw).len() == 0 ==> allowed_hosts_of(raw) == Seq::<Seq<char>>::empty(),
{
    lemma_single_segment_hosts(raw);
    lemma_split_without_sep(raw, ',');
}

/// The hosts of `first,rest` are the host named by `first` (if its trimmed
/// text is not empty) followed by the hosts of `rest`.
pub proof fn law_hosts_split_at_first_comma(first: Seq<char>, rest: Seq<char>)
    requires
        !first.contains(','),
    ensures
        allowed_hosts_of(first + seq![','] + rest) == (if trim(first).len() > 0 {
            seq![trim(first)]
        } else {
            Seq::<Seq<char>>::empty()
        }) + allowed_hosts_of(rest),
{
    lemma_split_at_first_sep(first, rest, ',');
    lemma_trimmed_nonempty_concat(seq![first], split_on(rest, ','));
    lemma_single_segment_hosts(first);
}

/// The views of a vector of strings.
pub open spec fn views(v: Seq<String>) -> Seq<Seq<char>> {
    v.map_values(|s: String| s@)
}

/// Appends the trimmed `v[lo..hi]` to `hosts` when it is not empty.
fn push_trimmed_segment(s: &str, v: &Vec<char>, lo: usize, hi: usize, hosts: &mut Vec<String>)
    requires
        v@ == s@,
        lo <= hi <= v@.len(),
    ensures
        views(final(hosts)@) == if trim(v@.subrange(lo as int, hi as int)).len() > 0 {
            views(old(hosts)@).push(trim(v@.subrange(lo as int, hi as int)))
        } else {
            views(old(hosts)@)
        },
{
    let (a, b) = trim_bounds_in(v, lo, hi);
    if a < b {
        let host = String::from_str(s.substring_char(a, b));
        hosts.push(host);
        assert(views(hosts@) =~= views(old(hosts)@).push(trim(v@.subrange(lo as int, hi as int))));
    }
}

/// Parses a comma-separated host list: each entry is trimmed and the entries
/// that are empty once trimmed are left out.
pub fn parse_allowed_hosts(raw: &str) -> (hosts: Vec<String>)
    ensures
        views(hosts@) == allowed_hosts_of(raw@),
        forall|i: int| 0 <= i < hosts@.len() ==> is_clean_host(#[trigger] hosts@[i]@),
{
    proof {
        lemma_allowed_hosts_clean(raw@);
    }
    let v = chars_of(raw);
    let n = v.len();
    let mut hosts: Vec<String> = Vec::new();
    let mut start: usize = 0;
    let mut i: usize = 0;
    let ghost mut done: Seq<Seq<char>> = Seq::empty();
    assert(views(hosts@) =~= Seq::<Seq<char>>::empty());
    assert(v@.take(0) =~= Seq::<char>::empty());
    assert(v@.subrange(0, 0) =~= Seq::<char>::empty());
    while i < n
        invariant
            v@ == raw@,
            n == v@.len(),
            start <= i <= n,
            split_on(v@.take(i as int), ',') == done.push(v@.subrange(start as int, i as int)),
            views(hosts@) == trimmed_nonempty(done),
        decreases n - i,
    {
        let c = v[i];
        assert(v@.take(i + 1).drop_last() =~= v@.take(i as int));
        assert(v@.take(i + 1).last() == c);
        if c == ',' {
            push_trimmed_segment(raw, &v, start, i, &mut hosts);
            proof {
                assert(done.push(v@.subrange(start as int, i as int)).drop_last() =~= done);
                done = done.push(v@.subrange(start as int, i as int));
            }
            start = i + 1;
            assert(v@.subrange(start as int, i + 1) =~= Seq::<char>::empty());
        } else {
            assert(v@.subrange(start as int, i + 1) =~= v@.subrange(start as int, i as int).push(c));
            assert(done.push(v@.subrange(start as int, i as int)).update(
                done.len() as int,
                v@.subrange(start as int, i + 1),
            ) =~= done.push(v@.subrange(start as int, i + 1)));
        }
        i = i + 1;
    }
    assert(v@.take(n as int) =~= v@);
    push_trimmed_segment(raw, &v, start, n, &mut hosts);
    assert(done.push(v@.subrange(start as int, n as int)).drop_last() =~= done);
    assert forall|i: int| 0 <= i < hosts@.len() implies is_clean_host(#[trigger] hosts@[i]@) by {
        assert(views(hosts@)[i] == hosts@[i]@);
        assert(views(hosts@)[i] == allowed_hosts_of(raw@)[i]);
    }
    hosts
}

/// Reads a bearer-token setting: surrounding whitespace is removed and a value
/// that is empty once trimmed counts as unset.
pub fn parse_auth_token(raw: String) -> (token: Option<String>)
    ensures
        token is None <==> is_blank(raw@),
        token matches Some(t) ==> t@ == trim(raw@),
        token matches Some(t) ==> !is_blank(t@) && is_trimmed(t@),
{
    proof {
        lemma_trim_is_trimmed(raw@);
        lemma_trim_idempotent(raw@);
    }
    let v = chars_of(raw.as_str());
    let (a, b) = trim_bounds(&v);
    if a == b {
        None
    } else {
        Some(String::from_str(raw.as_str().substring_char(a, b)))
    }
}

impl ConfigError {
    /// The message shown for this error.
    pub fn message(&self) -> (m: String)
        ensures
            m@ == match self {
                ConfigError::MissingVariable(name) => "必須の環境変数 `"@ + name@ + "` が設定されていません"@,
            },
    {
        match self {
            ConfigError::MissingVariable(name) => {
                let mut m = String::from_str("必須の環境変数 `");
                m.append(name);
                m.append("` が設定されていません");
                m
            },
        }
    }
}

/// The view of an optional setting, or `default` when it is unset.
pub open spec fn value_or(v: Option<String>, default: Seq<char>) -> Seq<char> {
    match v {
        Some(s) => s@,
        None => default,
    }
}

/// The name of the first required variable that is unset, if any.
pub open spec fn first_missing(
    api_key: Option<String>,
    upstream_url: Option<String>,
    deep_api_key: Option<String>,
    deep_upstream_url: Option<String>,
) -> Option<Seq<char>> {
    if api_key is None {
        Some("GROK_API_KEY"@)
    } else if upstream_url is None {
        Some("GROK_UPSTREAM_URL"@)
    } else if deep_api_key is None {
        Some("GROK_DEEP_API_KEY"@)
    } else if deep_upstream_url is None {
        Some("GROK_DEEP_UPSTREAM_URL"@)
    } else {
        None
    }
}

/// The variable that a loading error reports as missing.
pub open spec fn missing_variable(r: Result<AppConfig, ConfigError>) -> Option<Seq<char>> {
    match r {
        Ok(_) => None,
        Err(ConfigError::MissingVariable(name)) => Some(name@),
    }
}

impl AppConfig {
    /// Builds the configuration from the values of the environment variables
    /// `GROK_API_KEY`, `GROK_UPSTREAM_URL`, `GROK_DEEP_API_KEY`,
    /// `GROK_DEEP_UPSTREAM_URL`, `BIND_ADDR`, `MCP_ALLOWED_HOSTS` and
    /// `MCP_AUTH_TOKEN` (`None` where a variable is unset). The first four are
    /// required; the first of them that is missing is reported.
    pub fn from_env_values(
        api_key: Option<String>,
        upstream_url: Option<String>,
        deep_api_key: Option<String>,
        deep_upstream_url: Option<String>,
        bind_addr: Option<String>,
        allowed_hosts: Option<String>,
        auth_token: Option<String>,
    ) -> (r: Result<AppConfig, ConfigError>)
        ensures
            missing_variable(r) == first_missing(api_key, upstream_url, deep_api_key, deep_upstream_url),
            r is Ok <==> (api_key is Some && upstream_url is Some && deep_api_key is Some
                && deep_upstream_url is Some),
            r matches Ok(c) ==> {
                &&& c.api_key == api_key->0
                &&& c.upstream_url == upstream_url->0
                &&& c.deep_api_key == deep_api_key->0
                &&& c.deep_upstream_url == deep_upstream_url->0
                &&& c.bind_addr@ == value_or(bind_addr, DEFAULT_BIND_ADDR@)
                &&& views(c.allowed_hosts@) == allowed_hosts_of(
                    value_or(allowed_hosts, DEFAULT_ALLOWED_HOSTS@),
                )
                &&& (c.auth_token is None <==> (auth_token is None || is_blank(auth_token->0@)))
                &&& (c.auth_token matches Some(t) ==> t@ == trim(auth_token->0@))
            },
    {
        let api_key = match api_key {
            Some(v) => v,
            None => return Err(ConfigError::MissingVariable("GROK_API_KEY")),
        };
        let upstream_url = match upstream_url {
            Some(v) => v,
            None => return Err(ConfigError::MissingVariable("GROK_UPSTREAM_URL")),
        };
        let deep_api_key = match deep_api_key {
            Some(v) => v,
            None => return Err(ConfigError::MissingVariable("GROK_DEEP_API_KEY")),
        };
        let deep_upstream_url = match deep_upstream_url {
            Some(v) => v,
            None => return Err(ConfigError::MissingVariable("GROK_DEEP_UPSTREAM_URL")),
        };
        let bind_addr = match bind_addr {
            Some(v) => v,
            None => String::from_str(DEFAULT_BIND_ADDR),
        };
        let allowed_hosts = match allowed_hosts {
            Some(v) => parse_allowed_hosts(v.as_str()),
            None => parse_allowed_hosts(DEFAULT_ALLOWED_HOSTS),
        };
        let auth_token = match auth_token {
            Some(v) => parse_auth_token(v),
            None => None,
        };
        Ok(AppConfig {
            api_key,
            upstream_url,
            deep_api_key,
            deep_upstream_url,
            bind_addr,
            allowed_hosts,
            auth_token,
        })
    }
}

} // verus!
