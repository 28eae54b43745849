//! The service configuration: plain data filled in at startup, and the
//! defaulting rule for the configured port. The port text is parsed the way
//! Rust's standard `u16` parser reads decimal input — an optional leading
//! `+`, then at least one digit, with a value that fits — and anything else
//! falls back to the default port.

use vstd::prelude::*;
use vstd::string::StrSliceExecFns;

verus! {

/// The port served when none is configured or the configured text does not
/// parse as a port.
pub const DEFAULT_PORT: u16 = 8000;

/// Everything the service is configured with: where to listen, which CORS
/// origins to allow, the upstream fact API, and the static profile fields.
pub struct GlobalConfig {
    pub host: String,
    pub port: u16,
    pub cors_allowed_origins: Vec<String>,
    pub cat_fact_api: String,
    pub email: String,
    pub full_name: String,
    pub stack: String,
}

/// A decimal digit.
pub open spec fn is_dec_digit(c: char) -> bool {
    48 <= c as int <= 57
}

/// Every character of `s` is a decimal digit.
pub open spec fn all_dec_digits(s: Seq<char>) -> bool {
    forall|i: int| 0 <= i < s.len() ==> is_dec_digit(#[trigger] s[i])
}

/// The value of `s` read as a decimal numeral, most significant digit first.
pub open spec fn dec_value(s: Seq<char>) -> int
    decreases s.len(),
{
    if s.len() == 0 {
        0
    } else {
        dec_value(s.drop_last()) * 10 + (s.last() as int - 48)
    }
}

/// The digit part of a port text: everything after one optional leading `+`.
pub open spec fn port_digits(s: Seq<char>) -> Seq<char> {
    if s.len() >= 1 && s[0] == '+' {
        s.drop_first()
    } else {
        s
    }
}

/// Whether `s` is accepted as a `u16` port: an optional leading `+`, then at
/// least one digit, and a value of at most 65535.
pub open spec fn parses_as_u16(s: Seq<char>) -> bool {
    &&& port_digits(s).len() >= 1
    &&& all_dec_digits(port_digits(s))
    &&& dec_value(port_digits(s)) <= 65535
}

/// The port a configured text resolves to: its value when it parses as a
/// `u16`, and the default port otherwise.
pub open spec fn spec_port_or_default(s: Seq<char>) -> u16 {
    if parses_as_u16(s) {
        dec_value(port_digits(s)) as u16
    } else {
        DEFAULT_PORT
    }
}

/// The value of an all-digit numeral is at least zero and at least the value
/// of any of its prefixes: appending digits never shrinks it.
proof fn lemma_dec_prefix_le(s: Seq<char>, k: int)
    requires
        0 <= k <= s.len(),
        all_dec_digits(s),
    ensures
        dec_value(s) >= 0,
        dec_value(s.subrange(0, k)) <= dec_value(s),
    decreases s.len(),
{
    if s.len() == 0 {
        assert(s.subrange(0, k) =~= s);
    } else {
        let head = s.drop_last();
        assert(head =~= s.subrange(0, s.len() - 1));
        assert(all_dec_digits(head));
        lemma_dec_prefix_le(head, if k <= head.len() {
            k
        } else {
            head.len() as int
        });
        assert(is_dec_digit(s.last()));
        if k == s.len() {
            assert(s.subrange(0, k) =~= s);
        } else {
            assert(s.subrange(0, k) =~= head.subrange(0, k));
        }
    }
}

/// Parses a port text as Rust's standard `u16` parser would, falling back to
/// the default port when it does not parse.
pub fn parse_port_or_default(raw: &str) -> (p: u16)
    ensures
        p == spec_port_or_default(raw@),
{
    let n = raw.unicode_len();
    let start: usize = if n >= 1 && raw.get_char(0) == '+' {
        1
    } else {
        0
    };
    proof {
        assert(port_digits(raw@) =~= raw@.subrange(start as int, n as int));
    }
    if n == start {
        return DEFAULT_PORT;
    }
    let mut acc: u32 = 0;
    let mut i: usize = start;
    while i < n
        invariant
            raw@.len() == n,
            start <= i <= n,
            start < n,
            port_digits(raw@) == raw@.subrange(start as int, n as int),
            forall|j: int| start <= j < i ==> is_dec_digit(#[trigger] raw@[j]),
            acc <= 65535,
            acc as int == dec_value(raw@.subrange(start as int, i as int)),
        decreases n - i,
    {
        let c = raw.get_char(i);
        let v = c as u32;
        if v < 48 || v > 57 {
            proof {
                assert(port_digits(raw@)[i - start] == raw@[i as int]);
                assert(!is_dec_digit(raw@[i as int]));
            }
            return DEFAULT_PORT;
        }
        let next = acc * 10 + (v - 48);
        proof {
            assert(raw@.subrange(start as int, i + 1).drop_last() =~= raw@.subrange(
                start as int,
                i as int,
            ));
            assert(raw@.subrange(start as int, i + 1).last() == raw@[i as int]);
        }
        if next > 65535 {
            proof {
                let digits = port_digits(raw@);
                if all_dec_digits(digits) {
                    lemma_dec_prefix_le(digits, i + 1 - start);
                    assert(digits.subrange(0, i + 1 - start) =~= raw@.subrange(
                        start as int,
                        i + 1,
                    ));
                }
            }
            return DEFAULT_PORT;
        }
        acc = next;
        i += 1;
    }
    proof {
        assert(raw@.subrange(start as int, n as int) =~= port_digits(raw@));
        assert(parses_as_u16(raw@));
    }
    acc as u16
}

/// A character the origin-list parsing trims: the ASCII whitespace
/// characters.
pub open spec fn is_space(c: char) -> bool {
    c == ' ' || c == '\t' || c == '\n' || c == '\r'
}

/// `s` without its leading spaces.
pub open spec fn trim_front(s: Seq<char>) -> Seq<char>
    decreases s.len(),
{
    if s.len() > 0 && is_space(s[0]) {
        trim_front(s.drop_first())
    } else {
        s
    }
}

/// `s` without its trailing spaces.
pub open spec fn trim_back(s: Seq<char>) -> Seq<char>
    decreases s.len(),
{
    if s.len() > 0 && is_space(s.last()) {
        trim_back(s.drop_last())
    } else {
        s
    }
}

/// `s` without its leading and trailing spaces.
pub open spec fn trim_spec(s: Seq<char>) -> Seq<char> {
    trim_back(trim_front(s))
}

/// When the first `k` characters are spaces and the next one is not,
/// trimming the front leaves exactly the characters from `k` on.
proof fn lemma_trim_front_subrange(s: Seq<char>, k: int)
    requires
        0 <= k <= s.len(),
        forall|j: int| 0 <= j < k ==> is_space(#[trigger] s[j]),
        k < s.len() ==> !is_space(s[k]),
    ensures
        trim_front(s) == s.subrange(k, s.len() as int),
    decreases k,
{
    if k == 0 {
        assert(s.subrange(0, s.len() as int) =~= s);
    } else {
        let t = s.drop_first();
        assert(forall|j: int| 0 <= j < k - 1 ==> is_space(#[trigger] t[j]));
        lemma_trim_front_subrange(t, k - 1);
        assert(t.subrange(k - 1, t.len() as int) =~= s.subrange(k, s.len() as int));
    }
}

/// When the characters from `m` on are spaces and the one before is not,
/// trimming the back leaves exactly the first `m` characters.
proof fn lemma_trim_back_subrange(s: Seq<char>, m: int)
    requires
        0 <= m <= s.len(),
        forall|j: int| m <= j < s.len() ==> is_space(#[trigger] s[j]),
        m > 0 ==> !is_space(s[m - 1]),
    ensures
        trim_back(s) == s.subrange(0, m),
    decreases s.len(),
{
    if m == s.len() {
        if s.len() == 0 {
            assert(s.subrange(0, 0) =~= s);
        } else {
            assert(s.subrange(0, s.len() as int) =~= s);
        }
    } else {
        let t = s.drop_last();
        assert(is_space(s.last()));
        assert(forall|j: int| m <= j < t.len() ==> is_space(#[trigger] t[j]));
        lemma_trim_back_subrange(t, m);
        assert(t.subrange(0, m) =~= s.subrange(0, m));
    }
}

/// Whether `c` is one of the characters the origin-list parsing trims.
fn is_space_char(c: char) -> (r: bool)
    ensures
        r == is_space(c),
{
    c == ' ' || c == '\t' || c == '\n' || c == '\r'
}

/// `piece` with its leading and trailing spaces removed.
pub fn trim_spaces(piece: &str) -> (t: String)
    ensures
        t@ == trim_spec(piece@),
{
    let n = piece.unicode_len();
    let mut a: usize = 0;
    while a < n && is_space_char(piece.get_char(a))
        invariant
            0 <= a <= n,
            n == piece@.len(),
            forall|j: int| 0 <= j < a ==> is_space(#[trigger] piece@[j]),
        decreases n - a,
    {
        a += 1;
    }
    let mut b: usize = n;
    while b > a && is_space_char(piece.get_char(b - 1))
        invariant
            a <= b <= n,
            n == piece@.len(),
            forall|j: int| b <= j < n ==> is_space(#[trigger] piece@[j]),
        decreases b,
    {
        b -= 1;
    }
    proof {
        lemma_trim_front_subrange(piece@, a as int);
        let f = piece@.subrange(a as int, n as int);
        assert(forall|j: int| b - a <= j < f.len() ==> is_space(#[trigger] f[j]));
        lemma_trim_back_subrange(f, b - a);
        assert(f.subrange(0, b - a) =~= piece@.subrange(a as int, b as int));
    }
    piece.substring_char(a, b).to_owned()
}

/// `s` cut at its commas, commas excluded: one piece per comma-free run,
/// with empty pieces kept, so that an empty text yields one empty piece.
pub open spec fn split_commas(s: Seq<char>) -> Seq<Seq<char>>
    decreases s.len(),
{
    if s.len() == 0 {
        seq![Seq::<char>::empty()]
    } else {
        let rest = split_commas(s.drop_last());
        if s.last() == ',' {
            rest.push(Seq::<char>::empty())
        } else {
            rest.update(rest.len() - 1, rest.last().push(s.last()))
        }
    }
}

/// The configured origin list, parsed: the text cut at its commas, each
/// piece trimmed of leading and trailing spaces.
pub open spec fn spec_split_origins(s: Seq<char>) -> Seq<Seq<char>> {
    split_commas(s).map_values(|p: Seq<char>| trim_spec(p))
}

/// Cuts the configured origin text at its commas and trims each piece.
pub fn split_origins(raw: &str) -> (out: Vec<String>)
    ensures
        out@.len() == spec_split_origins(raw@).len(),
        forall|i: int| 0 <= i < out@.len() ==> #[trigger] out@[i]@ == spec_split_origins(raw@)[i],
{
    let n = raw.unicode_len();
    let mut out: Vec<String> = Vec::new();
    let ghost mut pieces: Seq<Seq<char>> = Seq::empty();
    let mut start: usize = 0;
    let mut i: usize = 0;
    proof {
        assert(raw@.subrange(0, 0) =~= Seq::<char>::empty());
        assert(pieces.push(raw@.subrange(0, 0)) =~= seq![Seq::<char>::empty()]);
    }
    while i < n
        invariant
            0 <= start <= i <= n,
            n == raw@.len(),
            out@.len() == pieces.len(),
            forall|j: int| 0 <= j < pieces.len() ==> #[trigger] out@[j]@ == trim_spec(pieces[j]),
            split_commas(raw@.subrange(0, i as int)) == pieces.push(
                raw@.subrange(start as int, i as int),
            ),
        decreases n - i,
    {
        let c = raw.get_char(i);
        proof {
            assert(raw@.subrange(0, i + 1).drop_last() =~= raw@.subrange(0, i as int));
            assert(raw@.subrange(0, i + 1).last() == raw@[i as int]);
        }
        if c == ',' {
            let piece = raw.substring_char(start, i);
            out.push(trim_spaces(piece));
            proof {
                pieces = pieces.push(raw@.subrange(start as int, i as int));
                assert(split_commas(raw@.subrange(0, i + 1)) == pieces.push(
                    Seq::<char>::empty(),
                ));
                assert(raw@.subrange(i + 1, i + 1) =~= Seq::<char>::empty());
            }
            start = i + 1;
        } else {
            proof {
                let rest = pieces.push(raw@.subrange(start as int, i as int));
                assert(rest.update(rest.len() - 1, rest.last().push(raw@[i as int])) =~= pieces.push(
                    raw@.subrange(start as int, i as int).push(raw@[i as int]),
                ));
                assert(raw@.subrange(start as int, i as int).push(raw@[i as int]) =~= raw@.subrange(
                    start as int,
                    i + 1,
                ));
            }
        }
        i += 1;
    }
    let piece = raw.substring_char(start, n);
    out.push(trim_spaces(piece));
    proof {
        pieces = pieces.push(raw@.subrange(start as int, n as int));
        assert(raw@.subrange(0, n as int) =~= raw@);
        assert(forall|j: int| 0 <= j < pieces.len() ==> #[trigger] spec_split_origins(raw@)[j]
            == trim_spec(split_commas(raw@)[j]));
    }
    out
}

/// A configured value or its fallback: the supplied text when the
/// environment had one, and the given default otherwise.
pub fn value_or(v: Option<String>, default: &str) -> (r: String)
    ensures
        match v {
            Some(s) => r == s,
            None => r@ == default@,
        },
{
    match v {
        Some(s) => s,
        None => default.to_owned(),
    }
}

/// The port of the service given what the environment supplied: the default
/// port when nothing is configured, and the configured text's resolution
/// otherwise.
pub fn resolve_port(raw: Option<&String>) -> (p: u16)
    ensures
        match raw {
            None => p == DEFAULT_PORT,
            Some(s) => p == spec_port_or_default(s@),
        },
{
    match raw {
        None => DEFAULT_PORT,
        Some(s) => parse_port_or_default(s.as_str()),
    }
}

} // verus!
