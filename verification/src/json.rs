//! A JSON document as plain values, read by the upstream-reply logic.
//!
//! Parsing is done by `serde_json`; the parsed `serde_json::Value` is turned
//! one-for-one into [`Json`], on which the lookups below are verified.
use vstd::prelude::*;

verus! {

/// A parsed JSON value. Numbers keep the text that `serde_json` prints for
/// them; object members keep the order in which `serde_json` yields them and
/// never repeat a key.
#[derive(Debug)]
pub enum Json {
    Null,
    Bool(bool),
    Number(String),
    Str(String),
    Array(Vec<Json>),
    Object(Vec<(String, Json)>),
}

#[verifier::external_type_specification]
#[verifier::external_body]
pub struct ExJsonValue(serde_json::Value);

/// What `serde_json::from_str::<serde_json::Value>` gives for a text: the
/// parsed document, or the text of the parse error.
pub uninterp spec fn json_parse_result(text: Seq<char>) -> Result<Json, Seq<char>>;

/// The view of a parse outcome: the document, or the error's text.
pub open spec fn parse_view(r: Result<Json, String>) -> Result<Json, Seq<char>> {
    match r {
        Ok(j) => Ok(j),
        Err(e) => Err(e@),
    }
}

/// Turns a `serde_json::Value` into a [`Json`], variant for variant.
#[verifier::external_body]
fn json_of_value(v: serde_json::Value) -> Json {
    match v {
        serde_json::Value::Null => Json::Null,
        serde_json::Value::Bool(b) => Json::Bool(b),
        serde_json::Value::Number(n) => Json::Number(n.to_string()),
        serde_json::Value::String(s) => Json::Str(s),
        serde_json::Value::Array(a) => Json::Array(a.into_iter().map(json_of_value).collect()),
        serde_json::Value::Object(m) => Json::Object(
            m.into_iter().map(|(k, x)| (k, json_of_value(x))).collect(),
        ),
    }
}

/// `serde_json::from_str::<serde_json::Value>`: the claim is that the outcome
/// depends on the text alone; what it is, is named by [`json_parse_result`].
#[verifier::external_body]
fn serde_parse_json(text: &str) -> (r: Result<Json, String>)
    ensures
        parse_view(r) == json_parse_result(text@),
{
    match serde_json::from_str::<serde_json::Value>(text) {
        Ok(v) => Ok(json_of_value(v)),
        Err(e) => Err(e.to_string()),
    }
}

impl Json {
    /// Parses a JSON text.
    pub fn parse(text: &str) -> (r: Result<Json, String>)
        ensures
            parse_view(r) == json_parse_result(text@),
    {
        serde_parse_json(text)
    }
}

/// The value of the first member named `key`.
pub open spec fn field(members: Seq<(String, Json)>, key: Seq<char>) -> Option<Json>
    decreases members.len(),
{
    if members.len() == 0 {
        None
    } else if members[0].0@ == key {
        Some(members[0].1)
    } else {
        field(members.drop_first(), key)
    }
}

/// `Value::get` with a string key: the member of an object, `None` otherwise.
pub open spec fn get(v: Json, key: Seq<char>) -> Option<Json> {
    match v {
        Json::Object(members) => field(members@, key),
        _ => None,
    }
}

/// `Value::as_str` applied under an option.
pub open spec fn str_of(v: Option<Json>) -> Option<Seq<char>> {
    match v {
        Some(Json::Str(s)) => Some(s@),
        _ => None,
    }
}

/// Present and not `null`.
pub open spec fn is_present_non_null(v: Option<Json>) -> bool {
    match v {
        Some(Json::Null) => false,
        Some(_) => true,
        None => false,
    }
}

/// The decimal value of a string of digits.
pub open spec fn digits_value(s: Seq<char>) -> nat
    decreases s.len(),
{
    if s.len() == 0 {
        0
    } else {
        digits_value(s.drop_last()) * 10 + ((s.last() as nat) - ('0' as nat)) as nat
    }
}

pub open spec fn is_digit(c: char) -> bool {
    '0' <= c <= '9'
}

/// An array index as a JSON-pointer token denotes it: decimal digits only,
/// no leading zero (but `0` itself), and small enough for a `usize`.
pub open spec fn parse_index(s: Seq<char>) -> Option<nat> {
    if s.len() == 0 || !(forall|i: int| 0 <= i < s.len() ==> is_digit(#[trigger] s[i])) || (s[0]
        == '0' && s.len() != 1) || digits_value(s) > usize::MAX {
        None
    } else {
        Some(digits_value(s))
    }
}

/// One JSON-pointer step: a member of an object, or an element of an array.
pub open spec fn step(v: Json, token: Seq<char>) -> Option<Json> {
    match v {
        Json::Object(members) => field(members@, token),
        Json::Array(items) => match parse_index(token) {
            Some(i) => if i < items@.len() {
                Some(items@[i as int])
            } else {
                None
            },
            None => None,
        },
        _ => None,
    }
}

/// `Value::pointer` for the pointer whose (unescaped) tokens are `tokens`.
pub open spec fn pointer(v: Json, tokens: Seq<Seq<char>>) -> Option<Json>
    decreases tokens.len(),
{
    if tokens.len() == 0 {
        Some(v)
    } else {
        match step(v, tokens[0]) {
            Some(next) => pointer(next, tokens.drop_first()),
            None => None,
        }
    }
}

/// An optional reference, seen as an optional value.
pub open spec fn deref_opt(o: Option<&Json>) -> Option<Json> {
    match o {
        Some(j) => Some(*j),
        None => None,
    }
}

/// The views of a slice of string slices.
pub open spec fn token_views(tokens: Seq<&str>) -> Seq<Seq<char>> {
    tokens.map_values(|t: &str| t@)
}

proof fn lemma_digits_value_prefix_bound(s: Seq<char>, k: int)
    requires
        0 <= k <= s.len(),
    ensures
        digits_value(s.take(k)) <= digits_value(s),
    decreases s.len() - k,
{
    if k < s.len() {
        lemma_digits_value_prefix_bound(s, k + 1);
        assert(s.take(k + 1).drop_last() =~= s.take(k));
    } else {
        assert(s.take(k) =~= s);
    }
}

/// Parses an array-index token as `serde_json`'s pointer lookup does.
pub fn parse_index_token(token: &str) -> (r: Option<usize>)
    ensures
        match r {
            Some(i) => parse_index(token@) == Some(i as nat),
            None => parse_index(token@) is None,
        },
{
    let v = crate::text::chars_of(token);
    let n = v.len();
    if n == 0 {
        return None;
    }
    if v[0] == '0' && n != 1 {
        return None;
    }
    let mut acc: usize = 0;
    let mut i: usize = 0;
    assert(v@.take(0) =~= Seq::<char>::empty());
    while i < n
        invariant
            v@ == token@,
            n == v@.len(),
            i <= n,
            acc == digits_value(v@.take(i as int)),
            forall|k: int| 0 <= k < i ==> is_digit(#[trigger] v@[k]),
        decreases n - i,
    {
        let c = v[i];
        if !('0' <= c && c <= '9') {
            assert(!is_digit(token@[i as int]));
            return None;
        }
        let d = (c as u32 - '0' as u32) as usize;
        assert(v@.take(i + 1).drop_last() =~= v@.take(i as int));
        let m = acc.checked_mul(10);
        let next = match m {
            Some(m) => m.checked_add(d),
            None => None,
        };
        match next {
            Some(x) => {
                acc = x;
            },
            None => {
                proof {
                    lemma_digits_value_prefix_bound(v@, i + 1);
                }
                return None;
            },
        }
        i = i + 1;
    }
    assert(v@.take(n as int) =~= v@);
    Some(acc)
}

impl Json {
    /// The member named `key` of an object (`Value::get`).
    pub fn get<'a>(&'a self, key: &str) -> (r: Option<&'a Json>)
        ensures
            deref_opt(r) == get(*self, key@),
    {
        match self {
            Json::Object(members) => field_in(members, key),
            _ => None,
        }
    }

    /// The text of a string (`Value::as_str`).
    pub fn as_str<'a>(&'a self) -> (r: Option<&'a str>)
        ensures
            match r {
                Some(s) => str_of(Some(*self)) == Some(s@),
                None => str_of(Some(*self)) is None,
            },
    {
        match self {
            Json::Str(s) => Some(s.as_str()),
            _ => None,
        }
    }

    /// Whether this is `null` (`Value::is_null`).
    pub fn is_null(&self) -> (b: bool)
        ensures
            b == (*self is Null),
    {
        match self {
            Json::Null => true,
            _ => false,
        }
    }

    /// One JSON-pointer step from this value.
    pub fn step<'a>(&'a self, token: &str) -> (r: Option<&'a Json>)
        ensures
            deref_opt(r) == step(*self, token@),
    {
        match self {
            Json::Object(members) => field_in(members, token),
            Json::Array(items) => match parse_index_token(token) {
                Some(i) => if i < items.len() {
                    Some(&items[i])
                } else {
                    None
                },
                None => None,
            },
            _ => None,
        }
    }

    /// The value that a JSON pointer with the (unescaped) `tokens` designates
    /// (`Value::pointer`).
    pub fn pointer<'a>(&'a self, tokens: &[&str]) -> (r: Option<&'a Json>)
        ensures
            deref_opt(r) == pointer(*self, token_views(tokens@)),
    {
        let mut cur: &'a Json = self;
        let mut i: usize = 0;
        assert(token_views(tokens@).skip(0) =~= token_views(tokens@));
        while i < tokens.len()
            invariant
                i <= tokens@.len(),
                pointer(*self, token_views(tokens@)) == pointer(
                    *cur,
                    token_views(tokens@).skip(i as int),
                ),
            decreases tokens.len() - i,
        {
            let ghost rest = token_views(tokens@).skip(i as int);
            assert(rest[0] == tokens@[i as int]@);
            assert(rest.drop_first() =~= token_views(tokens@).skip(i + 1));
            match cur.step(tokens[i]) {
                Some(next) => {
                    cur = next;
                },
                None => {
                    return None;
                },
            }
            i = i + 1;
        }
        assert(token_views(tokens@).skip(i as int) =~= Seq::<Seq<char>>::empty());
        Some(cur)
    }
}

/// The first member named `key`.
fn field_in<'a>(members: &'a Vec<(String, Json)>, key: &str) -> (r: Option<&'a Json>)
    ensures
        deref_opt(r) == field(members@, key@),
{
    let mut i: usize = 0;
    assert(members@.skip(0) =~= members@);
    while i < members.len()
        invariant
            i <= members@.len(),
            field(members@, key@) == field(members@.skip(i as int), key@),
        decreases members.len() - i,
    {
        assert(members@.skip(i as int)[0] == members@[i as int]);
        assert(members@.skip(i as int).drop_first() =~= members@.skip(i + 1));
        if PartialEq::eq(members[i].0.as_str(), key) {
            return Some(&members[i].1);
        }
        i = i + 1;
    }
    assert(members@.skip(i as int) =~= Seq::<(String, Json)>::empty());
    None
}

} // verus!
