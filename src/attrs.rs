use vstd::prelude::*;
use vstd::string::*;

use crate::error::{MissingSetting, TransformError};

verus! {

/// The literal on the right of `key = value`.
#[derive(Debug, PartialEq, Eq)]
pub enum AttrValue {
    /// A string literal, by its value.
    Str(String),
    /// An integer literal, by its base-10 digits (underscores and suffix removed).
    Int(String),
    /// Any other literal (byte string, char, float, bool, ...).
    Other,
}

/// One `key = value` entry of the annotation.
#[derive(Debug, PartialEq, Eq)]
pub struct GwasmAttr {
    pub ident: String,
    pub value: AttrValue,
}

/// The comma-separated `key = value` list of the annotation, in order.
#[derive(Debug)]
pub struct GwasmAttrs(pub Vec<GwasmAttr>);

/// The deployment of the compute network a task is sent to.
#[derive(Debug, Clone, Copy, PartialEq, Eq, Structural)]
pub enum Net {
    TestNet,
    MainNet,
}

/// The settings written in the annotation; `None` where a key was not given.
#[derive(Debug, PartialEq, Eq)]
pub struct GwasmParams {
    pub datadir: Option<String>,
    pub rpc_address: Option<String>,
    pub rpc_port: Option<u16>,
    pub net: Option<Net>,
}

/// The resolved configuration, defaults filled in.
#[derive(Debug, PartialEq, Eq)]
pub struct Config {
    pub datadir: String,
    pub rpc_address: String,
    pub rpc_port: u16,
    pub net: Net,
}

/// The port used when `rpc_port` is not given.
pub const DEFAULT_RPC_PORT: u16 = 61000;

pub open spec fn is_digit(c: char) -> bool {
    '0' <= c && c <= '9'
}

/// The number written by a sequence of decimal digits.
pub open spec fn digits_value(s: Seq<char>) -> nat
    decreases s.len(),
{
    if s.len() == 0 {
        0
    } else {
        digits_value(s.drop_last()) * 10 + (s.last() as nat - '0' as nat) as nat
    }
}

/// The text without its leading `+`, if it has one.
pub open spec fn unsigned_digits(s: Seq<char>) -> Seq<char> {
    if s.len() > 0 && s[0] == '+' {
        s.drop_first()
    } else {
        s
    }
}

/// Decimal text for a `u16`: an optional `+`, then one or more digits whose
/// value fits in 16 bits.
pub open spec fn port_of_text(s: Seq<char>) -> Option<u16> {
    let d = unsigned_digits(s);
    if d.len() > 0 && (forall|i: int| 0 <= i < d.len() ==> is_digit(#[trigger] d[i]))
        && digits_value(d) <= 65535 {
        Some(digits_value(d) as u16)
    } else {
        None
    }
}

proof fn lemma_digits_value_grows(d: Seq<char>, k: int)
    requires
        0 <= k <= d.len(),
        forall|i: int| 0 <= i < d.len() ==> is_digit(#[trigger] d[i]),
    ensures
        digits_value(d.take(k)) <= digits_value(d),
    decreases d.len() - k,
{
    if k < d.len() {
        lemma_digits_value_grows(d, k + 1);
        assert(d.take(k + 1).drop_last() =~= d.take(k));
    } else {
        assert(d.take(k) =~= d);
    }
}

/// Reads a port number written in decimal, as `u16`'s `FromStr` reads it:
/// an optional `+`, then digits, no other character.
pub fn parse_port(s: &str) -> (r: Option<u16>)
    ensures
        r == port_of_text(s@),
{
    let n = s.unicode_len();
    let mut start: usize = 0;
    if n > 0 && s.get_char(0) == '+' {
        start = 1;
    }
    let ghost d = unsigned_digits(s@);
    assert(d =~= s@.subrange(start as int, n as int));
    if start == n {
        return None;
    }
    let mut i: usize = start;
    let mut acc: u32 = 0;
    while i < n
        invariant
            start <= i <= n,
            n == s@.len(),
            d =~= s@.subrange(start as int, n as int),
            d == unsigned_digits(s@),
            d.len() > 0,
            acc == digits_value(d.take(i - start)),
            acc <= 65535,
            forall|j: int| 0 <= j < i - start ==> is_digit(#[trigger] d[j]),
        decreases n - i,
    {
        let c = s.get_char(i);
        if !('0' <= c && c <= '9') {
            assert(!is_digit(d[i - start]));
            return None;
        }
        assert(d.take(i - start + 1).drop_last() =~= d.take(i - start));
        acc = acc * 10 + (c as u32 - '0' as u32);
        if acc > 65535 {
            proof {
                assert forall|j: int| 0 <= j < i - start + 1 implies is_digit(#[trigger] d[j]) by {}
                if forall|j: int| 0 <= j < d.len() ==> is_digit(#[trigger] d[j]) {
                    lemma_digits_value_grows(d, i - start + 1);
                }
            }
            return None;
        }
        i = i + 1;
    }
    assert(d.take(n - start) =~= d);
    Some(acc as u16)
}

/// What the standard library's lowercase conversion makes of a text; it
/// depends on the characters alone.
pub uninterp spec fn lower_of(s: Seq<char>) -> Seq<char>;

/// Whether `l` is what ASCII lowercasing makes of `c`: `A` to `Z` move to
/// `a` to `z`, every other character stays.
pub open spec fn ascii_lowered(c: char, l: char) -> bool {
    if 'A' <= c && c <= 'Z' {
        l as int == c as int + 32
    } else {
        l == c
    }
}

/// Relies on `str::to_lowercase`: the Unicode lowercase form of the text,
/// which on ASCII text lowercases `A` to `Z` character by character.
#[verifier::external_body]
fn lowercase(s: &str) -> (r: String)
    ensures
        r@ == lower_of(s@),
        (forall|i: int| 0 <= i < s@.len() ==> (#[trigger] s@[i] as int) < 128) ==> r@.len()
            == s@.len() && forall|i: int|
            0 <= i < s@.len() ==> ascii_lowered(#[trigger] s@[i], r@[i]),
{
    s.to_lowercase()
}

/// The network selector named by an already lowercased text.
pub open spec fn net_of_lowered(l: Seq<char>) -> Option<Net> {
    if l == "testnet"@ {
        Some(Net::TestNet)
    } else if l == "mainnet"@ {
        Some(Net::MainNet)
    } else {
        None
    }
}

/// Picks the network selector from a lowercased `net` value.
pub fn net_from_lowered(l: &String) -> (r: Option<Net>)
    ensures
        r == net_of_lowered(l@),
{
    if *l == String::from_str("testnet") {
        Some(Net::TestNet)
    } else if *l == String::from_str("mainnet") {
        Some(Net::MainNet)
    } else {
        None
    }
}

/// Whether `l` is `s` with ASCII `A` to `Z` lowercased.
pub open spec fn ascii_lowers_to(s: Seq<char>, l: Seq<char>) -> bool {
    s.len() == l.len() && forall|i: int| 0 <= i < s.len() ==> ascii_lowered(#[trigger] s[i], l[i])
}

pub open spec fn is_ascii_text(s: Seq<char>) -> bool {
    forall|i: int| 0 <= i < s.len() ==> (#[trigger] s[i] as int) < 128
}

/// Picks the network selector from a `net` value, ignoring case. On ASCII
/// text that means: the value lowercases to `testnet` or `mainnet`.
pub fn net_from_text(s: &str) -> (r: Option<Net>)
    ensures
        r == net_of_lowered(lower_of(s@)),
        is_ascii_text(s@) ==> (r == Some(Net::TestNet) <==> ascii_lowers_to(s@, "testnet"@)),
        is_ascii_text(s@) ==> (r == Some(Net::MainNet) <==> ascii_lowers_to(s@, "mainnet"@)),
{
    let l = lowercase(s);
    proof {
        if is_ascii_text(s@) {
            assert(ascii_lowers_to(s@, l@));
            assert forall|t: Seq<char>| ascii_lowers_to(s@, t) implies t == l@ by {
                assert forall|i: int| 0 <= i < t.len() implies t[i] == l@[i] by {
                    assert(ascii_lowered(s@[i], t[i]));
                    assert(ascii_lowered(s@[i], l@[i]));
                    assert(t[i] as int == l@[i] as int);
                }
                assert(t =~= l@);
            }
        }
        reveal_strlit("testnet");
        reveal_strlit("mainnet");
        assert("testnet"@[0] != "mainnet"@[0]);
    }
    net_from_lowered(&l)
}

pub open spec fn no_params() -> GwasmParams {
    GwasmParams { datadir: None, rpc_address: None, rpc_port: None, net: None }
}

/// The effect of one entry on the settings gathered so far: a recognized
/// key with a fitting value overwrites its setting, whatever it held.
pub open spec fn apply_attr_spec(p: GwasmParams, a: GwasmAttr) -> Result<GwasmParams, TransformError> {
    let bad = TransformError::InvalidAttributeValue { key: a.ident };
    if a.ident@ == "datadir"@ {
        match a.value {
            AttrValue::Str(s) => Ok(GwasmParams { datadir: Some(s), ..p }),
            _ => Err(bad),
        }
    } else if a.ident@ == "rpc_address"@ {
        match a.value {
            AttrValue::Str(s) => Ok(GwasmParams { rpc_address: Some(s), ..p }),
            _ => Err(bad),
        }
    } else if a.ident@ == "rpc_port"@ {
        let text = match a.value {
            AttrValue::Str(s) => Some(s@),
            AttrValue::Int(d) => Some(d@),
            AttrValue::Other => None,
        };
        match text {
            Some(t) => match port_of_text(t) {
                Some(v) => Ok(GwasmParams { rpc_port: Some(v), ..p }),
                None => Err(bad),
            },
            None => Err(bad),
        }
    } else if a.ident@ == "net"@ {
        match a.value {
            AttrValue::Str(s) => match net_of_lowered(lower_of(s@)) {
                Some(n) => Ok(GwasmParams { net: Some(n), ..p }),
                None => Err(bad),
            },
            _ => Err(bad),
        }
    } else {
        Err(TransformError::UnknownAttribute { key: a.ident })
    }
}

/// The settings of an entry list, entries applied in order; the first
/// refused entry decides the error.
pub open spec fn params_of(attrs: Seq<GwasmAttr>) -> Result<GwasmParams, TransformError>
    decreases attrs.len(),
{
    if attrs.len() == 0 {
        Ok(no_params())
    } else {
        match params_of(attrs.drop_last()) {
            Ok(p) => apply_attr_spec(p, attrs.last()),
            Err(e) => Err(e),
        }
    }
}

proof fn lemma_error_persists(s: Seq<GwasmAttr>, k: int)
    requires
        0 <= k <= s.len(),
        params_of(s.take(k)) is Err,
    ensures
        params_of(s) == params_of(s.take(k)),
    decreases s.len() - k,
{
    if k < s.len() {
        assert(s.take(k + 1).drop_last() =~= s.take(k));
        lemma_error_persists(s, k + 1);
    } else {
        assert(s.take(k) =~= s);
    }
}

/// Applies one annotation entry to the settings gathered so far.
pub fn apply_attr(p: GwasmParams, a: &GwasmAttr) -> (r: Result<GwasmParams, TransformError>)
    ensures
        r == apply_attr_spec(p, *a),
{
    let bad = TransformError::InvalidAttributeValue { key: a.ident.clone() };
    if a.ident == String::from_str("datadir") {
        match &a.value {
            AttrValue::Str(s) => Ok(GwasmParams { datadir: Some(s.clone()), ..p }),
            _ => Err(bad),
        }
    } else if a.ident == String::from_str("rpc_address") {
        match &a.value {
            AttrValue::Str(s) => Ok(GwasmParams { rpc_address: Some(s.clone()), ..p }),
            _ => Err(bad),
        }
    } else if a.ident == String::from_str("rpc_port") {
        let port = match &a.value {
            AttrValue::Str(s) => parse_port(s.as_str()),
            AttrValue::Int(d) => parse_port(d.as_str()),
            AttrValue::Other => None,
        };
        match port {
            Some(v) => Ok(GwasmParams { rpc_port: Some(v), ..p }),
            None => Err(bad),
        }
    } else if a.ident == String::from_str("net") {
        match &a.value {
            AttrValue::Str(s) => match net_from_text(s.as_str()) {
                Some(n) => Ok(GwasmParams { net: Some(n), ..p }),
                None => Err(bad),
            },
            _ => Err(bad),
        }
    } else {
        Err(TransformError::UnknownAttribute { key: a.ident.clone() })
    }
}

impl GwasmParams {
    /// Resolves the annotation entries in order. Each accepted entry
    /// overwrites its setting, so of a key given twice the last value
    /// stands; the first refused entry is reported.
    pub fn from_attrs(attrs: &GwasmAttrs) -> (r: Result<GwasmParams, TransformError>)
        ensures
            r == params_of(attrs.0@),
    {
        let mut p = GwasmParams { datadir: None, rpc_address: None, rpc_port: None, net: None };
        let mut i: usize = 0;
        while i < attrs.0.len()
            invariant
                i <= attrs.0@.len(),
                params_of(attrs.0@.take(i as int)) == Ok::<GwasmParams, TransformError>(p),
            decreases attrs.0@.len() - i,
        {
            assert(attrs.0@.take(i + 1).drop_last() =~= attrs.0@.take(i as int));
            match apply_attr(p, &attrs.0[i]) {
                Ok(q) => p = q,
                Err(e) => {
                    proof {
                        lemma_error_persists(attrs.0@, i + 1);
                    }
                    return Err(e);
                },
            }
            i = i + 1;
        }
        assert(attrs.0@.take(i as int) =~= attrs.0@);
        Ok(p)
    }
}

/// Whether a configuration holds the annotation's settings, with the
/// documented defaults for those not given, and the given data directory.
pub open spec fn config_matches(c: Config, p: GwasmParams, datadir: Seq<char>) -> bool {
    &&& c.datadir@ == datadir
    &&& c.rpc_address@ == match p.rpc_address {
        Some(a) => a@,
        None => "127.0.0.1"@,
    }
    &&& c.rpc_port == match p.rpc_port {
        Some(v) => v,
        None => DEFAULT_RPC_PORT,
    }
    &&& c.net == match p.net {
        Some(n) => n,
        None => Net::TestNet,
    }
}

/// The data directory a configuration uses: the annotation's, else the
/// fallback.
pub open spec fn chosen_datadir(p: GwasmParams, fallback: Option<String>) -> Option<String> {
    match p.datadir {
        Some(d) => Some(d),
        None => fallback,
    }
}

/// Relies on `appdirs::user_data_dir`: the per-user data directory of an
/// application, when the platform and the environment give one. It depends
/// on the environment, so nothing is stated of it.
#[verifier::external_body]
fn user_data_dir(app: &str, author: &str, roaming: bool) -> (r: Option<String>) {
    appdirs::user_data_dir(Some(app), Some(author), roaming).ok().and_then(
        |p| p.to_str().map(|s| s.to_owned()),
    )
}

/// What `Path::join` makes of a base path and a child on the target the
/// library is built for; it depends on the two paths alone.
pub uninterp spec fn joined_path(base: Seq<char>, child: Seq<char>) -> Seq<char>;

/// Relies on `std::path::Path::join`: `child` adjoined to `base` with the
/// target's separator (`child` itself when it is absolute). Both are UTF-8,
/// so the lossy conversion back to text loses nothing.
#[verifier::external_body]
fn join_path(base: &str, child: &str) -> (r: String)
    ensures
        r@ == joined_path(base@, child@),
{
    std::path::Path::new(base).join(child).to_string_lossy().into_owned()
}

/// The data directory under a per-user base directory: the base joined
/// with `default`; none without a base.
pub fn datadir_under(base: Option<String>) -> (r: Option<String>)
    ensures
        r is Some <==> base is Some,
        base is Some ==> r->0@ == joined_path(base->0@, "default"@),
{
    match base {
        Some(b) => Some(join_path(b.as_str(), "default")),
        None => None,
    }
}

/// The data directory used when the annotation names none: the network
/// client's per-user data directory (application and author `golem`),
/// joined with `default`. The environment decides whether there is one.
pub fn default_datadir() -> (r: Option<String>)
    ensures
        r is Some ==> exists|b: Seq<char>| r->0@ == #[trigger] joined_path(b, "default"@),
{
    let base = user_data_dir("golem", "golem", false);
    let ghost b = base;
    let r = datadir_under(base);
    proof {
        if r is Some {
            assert(r->0@ == joined_path(b->0@, "default"@));
        }
    }
    r
}

impl GwasmParams {
    /// Fills in the defaults, taking `fallback` as the data directory when
    /// the annotation names none; refused when neither gives one.
    pub fn with_defaults(self, fallback: Option<String>) -> (r: Result<Config, TransformError>)
        ensures
            match chosen_datadir(self, fallback) {
                Some(d) => r is Ok && config_matches(r->Ok_0, self, d@),
                None => r == Err::<Config, TransformError>(
                    TransformError::MissingEnvironment(MissingSetting::DataDirectory),
                ),
            },
    {
        let datadir = match self.datadir {
            Some(d) => d,
            None => match fallback {
                Some(d) => d,
                None => {
                    return Err(TransformError::MissingEnvironment(MissingSetting::DataDirectory));
                },
            },
        };
        let rpc_address = match self.rpc_address {
            Some(a) => a,
            None => String::from_str("127.0.0.1"),
        };
        let rpc_port = match self.rpc_port {
            Some(v) => v,
            None => DEFAULT_RPC_PORT,
        };
        let net = match self.net {
            Some(n) => n,
            None => Net::TestNet,
        };
        Ok(Config { datadir, rpc_address, rpc_port, net })
    }

    /// Fills in the defaults; the data directory, when the annotation names
    /// none, is the per-user one of [`default_datadir`], and the
    /// transformation is refused where the environment gives none.
    pub fn into_config(self) -> (r: Result<Config, TransformError>)
        ensures
            self.datadir is Some ==> r is Ok,
            r is Ok && self.datadir is None ==> exists|b: Seq<char>|
                #[trigger] config_matches(r->Ok_0, self, joined_path(b, "default"@)),
            r is Ok && self.datadir is Some ==> config_matches(r->Ok_0, self, self.datadir->0@),
            r is Err ==> r == Err::<Config, TransformError>(
                TransformError::MissingEnvironment(MissingSetting::DataDirectory),
            ),
    {
        let fallback = if self.datadir.is_none() {
            default_datadir()
        } else {
            None
        };
        let ghost fb = fallback;
        let ghost p = self;
        let r = self.with_defaults(fallback);
        proof {
            if r is Ok && p.datadir is None {
                let b = choose|b: Seq<char>| fb->0@ == #[trigger] joined_path(b, "default"@);
                assert(config_matches(r->Ok_0, p, joined_path(b, "default"@)));
            }
        }
        r
    }
}

/// Of a key given twice, the last value stands: an accepted `net` entry
/// sets the selector whatever came before, and leaves the other settings
/// as they were.
pub proof fn lemma_last_net_wins(s: Seq<GwasmAttr>, a: GwasmAttr, v: String, n: Net)
    requires
        params_of(s) is Ok,
        a.ident@ == "net"@,
        a.value == AttrValue::Str(v),
        net_of_lowered(lower_of(v@)) == Some(n),
    ensures
        params_of(s.push(a)) == Ok::<GwasmParams, TransformError>(
            GwasmParams { net: Some(n), ..params_of(s)->Ok_0 },
        ),
{
    reveal_strlit("net");
    reveal_strlit("datadir");
    reveal_strlit("rpc_address");
    reveal_strlit("rpc_port");
    assert(a.ident@.len() == 3);
    assert(a.ident@ != "datadir"@);
    assert(a.ident@ != "rpc_address"@);
    assert(a.ident@ != "rpc_port"@);
    assert(s.push(a).drop_last() =~= s);
}

/// Of a port given twice, the last value stands, written as text or as an
/// integer literal alike.
pub proof fn lemma_last_port_wins(s: Seq<GwasmAttr>, a: GwasmAttr, t: String, v: u16)
    requires
        params_of(s) is Ok,
        a.ident@ == "rpc_port"@,
        a.value == AttrValue::Str(t) || a.value == AttrValue::Int(t),
        port_of_text(t@) == Some(v),
    ensures
        params_of(s.push(a)) == Ok::<GwasmParams, TransformError>(
            GwasmParams { rpc_port: Some(v), ..params_of(s)->Ok_0 },
        ),
{
    reveal_strlit("datadir");
    reveal_strlit("rpc_address");
    reveal_strlit("rpc_port");
    assert(a.ident@.len() == 8);
    assert(a.ident@ != "datadir"@);
    assert(a.ident@ != "rpc_address"@);
    assert(s.push(a).drop_last() =~= s);
}

} // verus!
