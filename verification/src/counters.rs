//! Expected-counter declarations: optional counts that a run's
//! statistics are compared against after processing.

use vstd::prelude::*;
use crate::rdh::spec_digit_val;
use crate::stats::StatsCollector;
use crate::text::{dec_chars, dec_u64};

verus! {

/// Ten to the `k`-th power.
pub open spec fn pow10(k: nat) -> nat
    decreases k,
{
    if k == 0 {
        1
    } else {
        10 * pow10((k - 1) as nat)
    }
}

/// The value of a digit string, most significant digit first.
pub open spec fn digits_val(ds: Seq<char>) -> nat
    decreases ds.len(),
{
    if ds.len() == 0 {
        0
    } else {
        digits_val(ds.drop_last()) * 10 + (match spec_digit_val(ds.last()) {
            Some(d) => d as nat,
            None => 0,
        })
    }
}

/// Every character is a decimal digit.
pub open spec fn all_digits(ds: Seq<char>) -> bool {
    forall|i: int| 0 <= i < ds.len() ==> spec_digit_val(#[trigger] ds[i]) is Some
}

/// The decimal rendering of `n` is a nonempty digit string whose value
/// is `n`.
pub proof fn lemma_dec_chars_digits(n: nat)
    ensures
        all_digits(dec_chars(n)),
        dec_chars(n).len() >= 1,
        digits_val(dec_chars(n)) == n,
    decreases n,
{
    if n < 10 {
        assert(dec_chars(n) =~= seq![crate::text::dec_digit(n)]);
        assert(dec_chars(n).drop_last() =~= Seq::<char>::empty());
        assert(dec_chars(n).last() == crate::text::dec_digit(n));
        assert(spec_digit_val(crate::text::dec_digit(n)) == Some(n as u8));
        assert(digits_val(Seq::<char>::empty()) == 0);
        assert(digits_val(dec_chars(n)) == 0nat * 10 + n);
    } else {
        lemma_dec_chars_digits(n / 10);
        let tail = crate::text::dec_digit(n % 10);
        assert(dec_chars(n).drop_last() =~= dec_chars(n / 10));
        assert(dec_chars(n).last() == tail);
        assert(spec_digit_val(tail) == Some((n % 10) as u8));
        assert(digits_val(dec_chars(n)) == (n / 10) * 10 + n % 10);
        assert((n / 10) * 10 + n % 10 == n) by {
            vstd::arithmetic::div_mod::lemma_fundamental_div_mod(n as int, 10);
        }
        assert forall|i: int| 0 <= i < dec_chars(n).len() implies spec_digit_val(
            #[trigger] dec_chars(n)[i],
        ) is Some by {
            if i < dec_chars(n).len() - 1 {
                assert(dec_chars(n)[i] == dec_chars(n / 10)[i]);
            }
        }
    }
}

/// A digit in front scales by ten to the length of the rest.
proof fn lemma_digits_val_front(d: char, b: Seq<char>)
    requires
        spec_digit_val(d) is Some,
    ensures
        digits_val(seq![d] + b) == spec_digit_val(d)->Some_0 * pow10(b.len()) + digits_val(b),
    decreases b.len(),
{
    let vd = spec_digit_val(d)->Some_0 as nat;
    if b.len() == 0 {
        assert(seq![d] + b =~= seq![d]);
        assert((seq![d]).drop_last() =~= Seq::<char>::empty());
        assert((seq![d]).last() == d);
        assert(digits_val(seq![d]) == digits_val(Seq::<char>::empty()) * 10 + vd);
        assert(pow10(0) == 1);
        assert(vd * 1 == vd) by (nonlinear_arith);
    } else {
        lemma_digits_val_front(d, b.drop_last());
        assert((seq![d] + b).drop_last() =~= seq![d] + b.drop_last());
        assert((seq![d] + b).last() == b.last());
        let vl = match spec_digit_val(b.last()) {
            Some(x) => x as nat,
            None => 0,
        };
        assert(digits_val(seq![d] + b) == (vd * pow10((b.len() - 1) as nat) + digits_val(
            b.drop_last(),
        )) * 10 + vl);
        assert(pow10(b.len()) == 10 * pow10((b.len() - 1) as nat));
        assert((vd * pow10((b.len() - 1) as nat) + digits_val(b.drop_last())) * 10 + vl == vd * (10
            * pow10((b.len() - 1) as nat)) + (digits_val(b.drop_last()) * 10 + vl))
            by (nonlinear_arith);
    }
}

/// Greedy decimal parse from position `i` with accumulator `acc`: the
/// accumulated value and the position of the first non-digit.
pub open spec fn parse_num(s: Seq<char>, i: int, acc: nat) -> (nat, int)
    decreases s.len() - i,
{
    if i < 0 || i >= s.len() {
        (acc, i)
    } else {
        match spec_digit_val(s[i]) {
            Some(d) => parse_num(s, i + 1, acc * 10 + d as nat),
            None => (acc, i),
        }
    }
}

/// Parsing a digit block bounded by a non-digit accumulates exactly its
/// value.
proof fn lemma_parse_digit_block(s: Seq<char>, i: int, acc: nat, ds: Seq<char>)
    requires
        0 <= i,
        i + ds.len() <= s.len(),
        s.subrange(i, i + ds.len()) == ds,
        all_digits(ds),
        i + ds.len() == s.len() || spec_digit_val(s[i + ds.len()]) is None,
    ensures
        parse_num(s, i, acc) == (acc * pow10(ds.len()) + digits_val(ds), i + ds.len()),
    decreases ds.len(),
{
    if ds.len() == 0 {
        assert(parse_num(s, i, acc) == (acc, i));
        assert(pow10(0) == 1);
        assert(digits_val(ds) == 0);
        assert(acc * 1 == acc) by (nonlinear_arith);
    } else {
        assert(s[i] == ds[0]);
        let d = spec_digit_val(ds[0])->Some_0 as nat;
        let rest = ds.drop_first();
        assert(s.subrange(i + 1, i + 1 + rest.len()) =~= rest);
        assert(all_digits(rest)) by {
            assert(forall|k: int| 0 <= k < rest.len() ==> rest[k] == ds[k + 1]);
        }
        lemma_parse_digit_block(s, i + 1, acc * 10 + d, rest);
        assert(ds =~= seq![ds[0]] + rest);
        lemma_digits_val_front(ds[0], rest);
        assert(pow10(ds.len()) == 10 * pow10(rest.len()));
        assert((acc * 10 + d) * pow10(rest.len()) == acc * (10 * pow10(rest.len())) + d * pow10(
            rest.len(),
        )) by (nonlinear_arith);
    }
}

/// The literal stands at position `i` of `s`.
pub open spec fn starts_with_at(s: Seq<char>, i: int, lit: Seq<char>) -> bool {
    0 <= i && i + lit.len() <= s.len() && s.subrange(i, i + lit.len()) == lit
}

/// Parse the digits and newline of one counter line whose value begins
/// at `start`: the counter value and the position after the newline.
pub open spec fn parse_count_from(s: Seq<char>, start: int) -> Option<(u32, int)> {
    let (v, j) = parse_num(s, start, 0);
    if j == start || v > 0xFFFF_FFFF {
        None
    } else if j < s.len() && s[j] == '\n' {
        Some((v as u32, j + 1))
    } else {
        None
    }
}

/// A JSON whitespace character.
pub open spec fn is_ws(c: char) -> bool {
    c == ' ' || c == '\n' || c == '\r' || c == '\t'
}

/// The position of the first non-whitespace character at or after `i`.
pub open spec fn skip_ws(s: Seq<char>, i: int) -> int
    decreases s.len() - i,
{
    if 0 <= i && i < s.len() && is_ws(s[i]) {
        skip_ws(s, i + 1)
    } else {
        i
    }
}

/// Skipping a whitespace block bounded by a non-whitespace stops right
/// after it.
proof fn lemma_skip_ws_block(s: Seq<char>, i: int, k: int)
    requires
        0 <= i,
        0 <= k,
        i + k <= s.len(),
        forall|q: int| i <= q < i + k ==> is_ws(#[trigger] s[q]),
        i + k == s.len() || !is_ws(s[i + k]),
    ensures
        skip_ws(s, i) == i + k,
    decreases k,
{
    if k > 0 {
        lemma_skip_ws_block(s, i + 1, k - 1);
    }
}

/// Parse one JSON counter value at `i`: `null`, or a decimal number in
/// the u32 range.
pub open spec fn parse_json_value(s: Seq<char>, i: int) -> Option<(Option<u32>, int)> {
    if starts_with_at(s, i, "null"@) {
        Some((None, i + 4))
    } else {
        let (v, j) = parse_num(s, i, 0);
        if j == i || v > 0xFFFF_FFFF {
            None
        } else {
            Some((Some(v as u32), j))
        }
    }
}

/// What parsing a JSON counter record yields: an object with exactly
/// the keys `cdps` and `triggers_sent` in that order, each `null` or a
/// number, with whitespace free between the tokens.
pub open spec fn spec_counters_from_json(s: Seq<char>) -> Option<Counters> {
    let i0 = skip_ws(s, 0);
    if !(i0 < s.len() && s[i0] == '{') {
        None
    } else {
        let i1 = skip_ws(s, i0 + 1);
        if !starts_with_at(s, i1, "\"cdps\""@) {
            None
        } else {
            let i2 = skip_ws(s, i1 + 6);
            if !(i2 < s.len() && s[i2] == ':') {
                None
            } else {
                match parse_json_value(s, skip_ws(s, i2 + 1)) {
                    None => None,
                    Some((cdps, i3)) => {
                        let i4 = skip_ws(s, i3);
                        if !(i4 < s.len() && s[i4] == ',') {
                            None
                        } else {
                            let i5 = skip_ws(s, i4 + 1);
                            if !starts_with_at(s, i5, "\"triggers_sent\""@) {
                                None
                            } else {
                                let i6 = skip_ws(s, i5 + 15);
                                if !(i6 < s.len() && s[i6] == ':') {
                                    None
                                } else {
                                    match parse_json_value(s, skip_ws(s, i6 + 1)) {
                                        None => None,
                                        Some((triggers, i7)) => {
                                            let i8 = skip_ws(s, i7);
                                            if i8 < s.len() && s[i8] == '}' && skip_ws(s, i8 + 1)
                                                == s.len() {
                                                Some(Counters { cdps, triggers_sent: triggers })
                                            } else {
                                                None
                                            }
                                        },
                                    }
                                }
                            }
                        }
                    },
                }
            }
        }
    }
}

/// What parsing a TOML counter file yields: an optional `cdps` line,
/// then an optional `triggers_sent` line, and nothing else.
pub open spec fn spec_counters_from_toml(s: Seq<char>) -> Option<Counters> {
    let key1 = "cdps = "@;
    let key2 = "triggers_sent = "@;
    let first = if starts_with_at(s, 0, key1) {
        match parse_count_from(s, key1.len() as int) {
            Some((v, j)) => Some((Some(v), j)),
            None => None,
        }
    } else {
        Some((None::<u32>, 0int))
    };
    match first {
        None => None,
        Some((cdps, i1)) => {
            let second = if starts_with_at(s, i1, key2) {
                match parse_count_from(s, i1 + key2.len()) {
                    Some((v, j)) => Some((Some(v), j)),
                    None => None,
                }
            } else {
                Some((None::<u32>, i1))
            };
            match second {
                None => None,
                Some((triggers, i2)) => if i2 == s.len() {
                    Some(Counters { cdps, triggers_sent: triggers })
                } else {
                    None
                },
            }
        },
    }
}

/// Read access to the expected counters.
pub trait CountersOpt {
    /// The number of CDPs expected in the data, if set.
    spec fn spec_cdps(&self) -> Option<u32>;

    /// The number of sent triggers expected in the data, if set.
    spec fn spec_triggers_sent(&self) -> Option<u32>;

    /// The number of CDPs expected in the data, if set.
    fn cdps(&self) -> (r: Option<u32>)
        ensures
            r == self.spec_cdps(),
    ;

    /// The number of sent triggers expected in the data, if set.
    fn triggers_sent(&self) -> (r: Option<u32>)
        ensures
            r == self.spec_triggers_sent(),
    ;
}

/// The expected counters, as read from a checks file.
#[derive(Clone, Copy, PartialEq, Eq, Structural, Debug)]
pub struct Counters {
    /// The number of CDPs expected in the data.
    pub cdps: Option<u32>,
    /// The number of sent triggers expected in the data.
    pub triggers_sent: Option<u32>,
}

impl CountersOpt for Counters {
    open spec fn spec_cdps(&self) -> Option<u32> {
        self.cdps
    }

    open spec fn spec_triggers_sent(&self) -> Option<u32> {
        self.triggers_sent
    }

    fn cdps(&self) -> Option<u32> {
        self.cdps
    }

    fn triggers_sent(&self) -> Option<u32> {
        self.triggers_sent
    }
}

/// An optional count as a JSON value: the number, or `null`.
pub open spec fn json_opt_chars(v: Option<u32>) -> Seq<char> {
    match v {
        Some(n) => dec_chars(n as nat),
        None => "null"@,
    }
}

/// The TOML form of the expected counters: one `key = value` line per
/// set counter, absent counters omitted.
pub open spec fn counters_toml_chars(c: Counters) -> Seq<char> {
    (match c.cdps {
        Some(n) => "cdps = "@ + dec_chars(n as nat) + "\n"@,
        None => Seq::<char>::empty(),
    }) + (match c.triggers_sent {
        Some(n) => "triggers_sent = "@ + dec_chars(n as nat) + "\n"@,
        None => Seq::<char>::empty(),
    })
}

/// The pretty JSON form of the expected counters, two spaces of
/// indentation, keys in declaration order.
pub open spec fn counters_json_chars(c: Counters) -> Seq<char> {
    "{\n  \"cdps\": "@ + json_opt_chars(c.cdps) + ",\n  \"triggers_sent\": "@ + json_opt_chars(
        c.triggers_sent,
    ) + "\n}"@
}

impl Counters {
    /// Render the counters as pretty JSON, exactly
    /// `{"cdps": <n|null>, "triggers_sent": <n|null>}` over three
    /// indented lines.
    pub fn to_json_pretty(&self) -> (r: String)
        ensures
            r@ == counters_json_chars(*self),
    {
        let mut out = String::from_str("{\n  \"cdps\": ");
        match self.cdps {
            Some(n) => out.append(dec_u64(n as u64).as_str()),
            None => out.append("null"),
        }
        out.append(",\n  \"triggers_sent\": ");
        match self.triggers_sent {
            Some(n) => out.append(dec_u64(n as u64).as_str()),
            None => out.append("null"),
        }
        out.append("\n}");
        assert(out@ =~= counters_json_chars(*self));
        out
    }

    /// Render the counters as TOML: one `key = value` line per set
    /// counter, absent counters omitted.
    pub fn to_toml_string(&self) -> (r: String)
        ensures
            r@ == counters_toml_chars(*self),
    {
        let mut out = String::new();
        if let Some(n) = self.cdps {
            out.append("cdps = ");
            out.append(dec_u64(n as u64).as_str());
            out.append("\n");
        }
        if let Some(n) = self.triggers_sent {
            out.append("triggers_sent = ");
            out.append(dec_u64(n as u64).as_str());
            out.append("\n");
        }
        assert(out@ =~= (match self.cdps {
            Some(n) => "cdps = "@ + dec_chars(n as nat) + "\n"@,
            None => Seq::<char>::empty(),
        }) + (match self.triggers_sent {
            Some(n) => "triggers_sent = "@ + dec_chars(n as nat) + "\n"@,
            None => Seq::<char>::empty(),
        }));
        out
    }

    /// Parse a TOML counter file: an optional `cdps = <n>` line, then
    /// an optional `triggers_sent = <n>` line, and nothing else.
    pub fn from_toml_str(s: &str) -> (r: Option<Counters>)
        ensures
            r == spec_counters_from_toml(s@),
    {
        let n = s.unicode_len();
        proof {
            reveal_strlit("cdps = ");
            reveal_strlit("triggers_sent = ");
        }
        let (cdps, i1): (Option<u32>, usize) = if starts_with_lit(s, 0, "cdps = ") {
            assert("cdps = "@.len() == 7);
            match parse_count_from_exec(s, 7) {
                Some((v, j)) => (Some(v), j),
                None => {
                    return None;
                },
            }
        } else {
            (None, 0)
        };
        let (triggers, i2): (Option<u32>, usize) = if starts_with_lit(s, i1, "triggers_sent = ") {
            assert("triggers_sent = "@.len() == 16);
            match parse_count_from_exec(s, i1 + 16) {
                Some((v, j)) => (Some(v), j),
                None => {
                    return None;
                },
            }
        } else {
            (None, i1)
        };
        if i2 == n {
            Some(Counters { cdps, triggers_sent: triggers })
        } else {
            None
        }
    }

    /// Parse a JSON counter record: an object with exactly the keys
    /// `cdps` and `triggers_sent` in that order, each `null` or a
    /// number, with whitespace free between the tokens.
    pub fn from_json_str(s: &str) -> (r: Option<Counters>)
        ensures
            r == spec_counters_from_json(s@),
    {
        let n = s.unicode_len();
        proof {
            reveal_strlit("\"cdps\"");
            reveal_strlit("\"triggers_sent\"");
        }
        let i0 = skip_ws_exec(s, 0);
        if !(i0 < n && s.get_char(i0) == '{') {
            return None;
        }
        let i1 = skip_ws_exec(s, i0 + 1);
        if !starts_with_lit(s, i1, "\"cdps\"") {
            return None;
        }
        let i2 = skip_ws_exec(s, i1 + 6);
        if !(i2 < n && s.get_char(i2) == ':') {
            return None;
        }
        let (cdps, i3) = match parse_json_value_exec(s, skip_ws_exec(s, i2 + 1)) {
            Some(p) => p,
            None => {
                return None;
            },
        };
        let i4 = skip_ws_exec(s, i3);
        if !(i4 < n && s.get_char(i4) == ',') {
            return None;
        }
        let i5 = skip_ws_exec(s, i4 + 1);
        if !starts_with_lit(s, i5, "\"triggers_sent\"") {
            return None;
        }
        let i6 = skip_ws_exec(s, i5 + 15);
        if !(i6 < n && s.get_char(i6) == ':') {
            return None;
        }
        let (triggers, i7) = match parse_json_value_exec(s, skip_ws_exec(s, i6 + 1)) {
            Some(p) => p,
            None => {
                return None;
            },
        };
        let i8 = skip_ws_exec(s, i7);
        if i8 < n && s.get_char(i8) == '}' && skip_ws_exec(s, i8 + 1) == n {
            Some(Counters { cdps, triggers_sent: triggers })
        } else {
            None
        }
    }

    /// Compare each set expectation against the observed statistics:
    /// one message per mismatching counter, and none exactly when every
    /// set expectation is met.
    pub fn compare(&self, observed: &StatsCollector) -> (msgs: Vec<String>)
        ensures
            msgs@.len() == (if self.cdps matches Some(n) && n != observed.cdps {
                1int
            } else {
                0int
            }) + (if self.triggers_sent matches Some(n) && n != observed.hbfs {
                1int
            } else {
                0int
            }),
    {
        let mut msgs: Vec<String> = Vec::new();
        if let Some(n) = self.cdps {
            if n != observed.cdps {
                let mut msg = String::from_str("custom check mismatch: expected cdps ");
                msg.append(dec_u64(n as u64).as_str());
                msg.append(", found ");
                msg.append(dec_u64(observed.cdps as u64).as_str());
                msgs.push(msg);
            }
        }
        if let Some(n) = self.triggers_sent {
            if n != observed.hbfs {
                let mut msg = String::from_str("custom check mismatch: expected triggers ");
                msg.append(dec_u64(n as u64).as_str());
                msg.append(", found ");
                msg.append(dec_u64(observed.hbfs as u64).as_str());
                msgs.push(msg);
            }
        }
        msgs
    }
}

/// The literal stands at position `i` of `s`.
fn starts_with_lit(s: &str, i: usize, lit: &str) -> (r: bool)
    ensures
        r == starts_with_at(s@, i as int, lit@),
{
    let n = s.unicode_len();
    let ln = lit.unicode_len();
    if ln > n || i > n - ln {
        return false;
    }
    let mut k: usize = 0;
    while k < ln
        invariant
            n == s@.len(),
            ln == lit@.len(),
            ln <= n,
            i <= n - ln,
            k <= ln,
            forall|q: int| 0 <= q < k ==> s@[i + q] == lit@[q],
        decreases ln - k,
    {
        if s.get_char(i + k) != lit.get_char(k) {
            assert(s@.subrange(i as int, i + ln as int)[k as int] != lit@[k as int]);
            return false;
        }
        k = k + 1;
    }
    assert(s@.subrange(i as int, i + ln as int) =~= lit@);
    true
}

/// Greedy decimal parse from `start`: the position of the first
/// non-digit, and the value, clamped sticky above the u32 range (the
/// clamp and the true value are on the same side of that range).
fn parse_digits(s: &str, start: usize) -> (r: (u64, usize))
    ensures
        ({
            let (v, j) = parse_num(s@, start as int, 0);
            &&& r.1 == j
            &&& (v <= 0xFFFF_FFFF ==> r.0 == v)
            &&& (v > 0xFFFF_FFFF <==> r.0 > 0xFFFF_FFFF)
        }),
{
    let n = s.unicode_len();
    if start >= n {
        return (0, start);
    }
    let mut i: usize = start;
    let mut acc: u64 = 0;
    let ghost mut acc_t: nat = 0nat;
    loop
        invariant
            n == s@.len(),
            start <= i <= n,
            parse_num(s@, start as int, 0) == parse_num(s@, i as int, acc_t),
            acc <= 0x1_0000_0000,
            acc_t <= 0xFFFF_FFFF ==> acc == acc_t,
            (acc_t > 0xFFFF_FFFF <==> acc > 0xFFFF_FFFF),
        decreases n - i,
    {
        if i >= n {
            return (acc, i);
        }
        let c = s.get_char(i);
        let d = match crate::rdh::digit_val(c) {
            Some(d) => d,
            None => {
                return (acc, i);
            },
        };
        let next = acc * 10 + d as u64;
        proof {
            if acc_t > 0xFFFF_FFFF {
                assert(acc_t * 10 + d as nat > 0xFFFF_FFFF) by (nonlinear_arith)
                    requires
                        acc_t > 0xFFFF_FFFF,
                        d as nat >= 0,
                ;
            } else {
                assert(next == acc_t * 10 + d as nat);
            }
        }
        if next > 0xFFFF_FFFF {
            acc = 0x1_0000_0000;
        } else {
            acc = next;
        }
        proof {
            acc_t = acc_t * 10 + d as nat;
        }
        i = i + 1;
    }
}

/// The position of the first non-whitespace character at or after `i`.
fn skip_ws_exec(s: &str, i: usize) -> (r: usize)
    ensures
        r == skip_ws(s@, i as int),
        i <= r <= s@.len() || r == i,
{
    let n = s.unicode_len();
    let mut k: usize = i;
    loop
        invariant
            n == s@.len(),
            i <= k,
            k <= n || k == i,
            skip_ws(s@, i as int) == skip_ws(s@, k as int),
        decreases n - k,
    {
        if k >= n {
            return k;
        }
        let c = s.get_char(k);
        if !(c == ' ' || c == '\n' || c == '\r' || c == '\t') {
            return k;
        }
        k = k + 1;
    }
}

/// Parse one JSON counter value at `i`: `null`, or a decimal number in
/// the u32 range.
fn parse_json_value_exec(s: &str, i: usize) -> (r: Option<(Option<u32>, usize)>)
    ensures
        parse_json_value(s@, i as int) == (match r {
            Some((v, j)) => Some((v, j as int)),
            None => None::<(Option<u32>, int)>,
        }),
{
    proof {
        reveal_strlit("null");
    }
    let n = s.unicode_len();
    if starts_with_lit(s, i, "null") {
        assert(i + 4 <= n);
        return Some((None, i + 4));
    }
    let (v, j) = parse_digits(s, i);
    if j == i || v > 0xFFFF_FFFF {
        None
    } else {
        Some((Some(v as u32), j))
    }
}

/// Parse the digits and newline of one counter line whose value begins
/// at `start`.
fn parse_count_from_exec(s: &str, start: usize) -> (r: Option<(u32, usize)>)
    ensures
        parse_count_from(s@, start as int) == (match r {
            Some((v, j)) => Some((v, j as int)),
            None => None::<(u32, int)>,
        }),
{
    let n = s.unicode_len();
    let (v, j) = parse_digits(s, start);
    if j == start || v > 0xFFFF_FFFF {
        return None;
    }
    if j < n && s.get_char(j) == '\n' {
        Some((v as u32, j + 1))
    } else {
        None
    }
}

/// A rendered JSON counter value parses back to the value, when a
/// non-digit follows it.
proof fn lemma_json_value_at(s: Seq<char>, p: int, v: Option<u32>)
    requires
        0 <= p,
        p + json_opt_chars(v).len() <= s.len(),
        s.subrange(p, p + json_opt_chars(v).len()) == json_opt_chars(v),
        p + json_opt_chars(v).len() == s.len() || spec_digit_val(
            s[p + json_opt_chars(v).len()],
        ) is None,
    ensures
        parse_json_value(s, p) == Some((v, p + json_opt_chars(v).len())),
{
    reveal_strlit("null");
    match v {
        None => {
            assert(s.subrange(p, p + 4) == "null"@);
            assert(starts_with_at(s, p, "null"@));
        },
        Some(a) => {
            lemma_dec_chars_digits(a as nat);
            assert(s[p] == dec_chars(a as nat)[0]);
            assert(!starts_with_at(s, p, "null"@)) by {
                if starts_with_at(s, p, "null"@) {
                    assert(s.subrange(p, p + 4)[0] == 'n');
                    assert(spec_digit_val('n') is None);
                }
            }
            lemma_parse_digit_block(s, p, 0, dec_chars(a as nat));
            assert(0nat * pow10(dec_chars(a as nat).len()) + a as nat == a as nat)
                by (nonlinear_arith);
        },
    }
}

/// Round trip: parsing the pretty JSON rendering of the counters gives
/// the counters back, for every value of both fields.
#[verifier::rlimit(100)]
#[verifier::spinoff_prover]
pub proof fn lemma_counters_json_round_trip(c: Counters)
    ensures
        spec_counters_from_json(counters_json_chars(c)) == Some(c),
{
    reveal_strlit("{\n  \"cdps\": ");
    reveal_strlit(",\n  \"triggers_sent\": ");
    reveal_strlit("\n}");
    reveal_strlit("\"cdps\"");
    reveal_strlit("\"triggers_sent\"");
    reveal_strlit("null");
    let s = counters_json_chars(c);
    let v1 = json_opt_chars(c.cdps);
    let v2 = json_opt_chars(c.triggers_sent);
    let l1 = v1.len() as int;
    let l2 = v2.len() as int;
    if c.cdps is Some {
        lemma_dec_chars_digits(c.cdps->Some_0 as nat);
    }
    if c.triggers_sent is Some {
        lemma_dec_chars_digits(c.triggers_sent->Some_0 as nat);
    }
    let e1 = 12 + l1;
    let e2 = e1 + 21 + l2;
    assert(s.len() == e2 + 2);
    assert(s.subrange(0, 12) =~= "{\n  \"cdps\": "@);
    assert(s.subrange(12, 12 + l1) =~= v1);
    assert(s.subrange(e1, e1 + 21) =~= ",\n  \"triggers_sent\": "@);
    assert(s.subrange(e1 + 21, e1 + 21 + l2) =~= v2);
    assert(s.subrange(e2, e2 + 2) =~= "\n}"@);
    // the head of a value is never whitespace
    assert(!is_ws(v1[0]) && !is_ws(v2[0])) by {
        if c.cdps is Some && is_ws(v1[0]) {
            assert(spec_digit_val(v1[0]) is Some);
            assert(spec_digit_val(' ') is None && spec_digit_val('\n') is None && spec_digit_val(
                '\r',
            ) is None && spec_digit_val('\t') is None);
        }
        if c.triggers_sent is Some && is_ws(v2[0]) {
            assert(spec_digit_val(v2[0]) is Some);
        }
    }
    // walk the rendering token by token
    assert(s[0] == '{');
    assert(skip_ws(s, 0) == 0);
    lemma_skip_ws_block(s, 1, 3);
    assert(skip_ws(s, 1) == 4);
    assert(s.subrange(4, 10) =~= "\"cdps\""@);
    assert(starts_with_at(s, 4, "\"cdps\""@));
    assert(s[10] == ':');
    assert(skip_ws(s, 10) == 10);
    assert(s[12] == v1[0]);
    lemma_skip_ws_block(s, 11, 1);
    assert(skip_ws(s, 11) == 12);
    assert(s[12 + l1] == ',');
    assert(spec_digit_val(',') is None);
    lemma_json_value_at(s, 12, c.cdps);
    assert(parse_json_value(s, 12) == Some((c.cdps, e1)));
    assert(skip_ws(s, e1) == e1);
    assert(s[e1] == ',');
    assert(s[e1 + 1] == '\n' && s[e1 + 2] == ' ' && s[e1 + 3] == ' ');
    assert(s[e1 + 4] == '"');
    lemma_skip_ws_block(s, e1 + 1, 3);
    assert(skip_ws(s, e1 + 1) == e1 + 4);
    assert(s.subrange(e1 + 4, e1 + 19) =~= "\"triggers_sent\""@);
    assert(starts_with_at(s, e1 + 4, "\"triggers_sent\""@));
    assert(s[e1 + 19] == ':');
    assert(skip_ws(s, e1 + 19) == e1 + 19);
    assert(s[e1 + 20] == ' ');
    assert(s[e1 + 21] == v2[0]);
    lemma_skip_ws_block(s, e1 + 20, 1);
    assert(skip_ws(s, e1 + 20) == e1 + 21);
    assert(s[e1 + 21 + l2] == '\n');
    assert(spec_digit_val('\n') is None);
    lemma_json_value_at(s, e1 + 21, c.triggers_sent);
    assert(parse_json_value(s, e1 + 21) == Some((c.triggers_sent, e2)));
    assert(s[e2] == '\n' && s[e2 + 1] == '}');
    lemma_skip_ws_block(s, e2, 1);
    assert(skip_ws(s, e2) == e2 + 1);
    assert(skip_ws(s, e2 + 2) == e2 + 2);
    assert(e2 + 2 == s.len());
}

/// Round trip: parsing a rendered TOML counter file gives the counters
/// back, for every value of both fields.
pub proof fn lemma_counters_toml_round_trip(c: Counters)
    ensures
        spec_counters_from_toml(counters_toml_chars(c)) == Some(c),
{
    reveal_strlit("cdps = ");
    reveal_strlit("triggers_sent = ");
    reveal_strlit("\n");
    let key1 = "cdps = "@;
    let key2 = "triggers_sent = "@;
    let s = counters_toml_chars(c);
    assert(spec_digit_val('\n') is None);
    match c.cdps {
        Some(a) => {
            lemma_dec_chars_digits(a as nat);
            let la = dec_chars(a as nat).len() as int;
            assert(s.subrange(0, 7) =~= key1);
            assert(starts_with_at(s, 0, key1));
            assert(s.subrange(7, 7 + la) =~= dec_chars(a as nat));
            assert(s[7 + la] == '\n');
            lemma_parse_digit_block(s, 7, 0, dec_chars(a as nat));
            assert(0nat * pow10(dec_chars(a as nat).len()) + a as nat == a as nat)
                by (nonlinear_arith);
            assert(parse_count_from(s, 7) == Some((a, 8 + la)));
            let i1 = 8 + la;
            match c.triggers_sent {
                Some(b) => {
                    lemma_dec_chars_digits(b as nat);
                    let lb = dec_chars(b as nat).len() as int;
                    assert(s.subrange(i1, i1 + 16) =~= key2);
                    assert(starts_with_at(s, i1, key2));
                    assert(s.subrange(i1 + 16, i1 + 16 + lb) =~= dec_chars(b as nat));
                    assert(s[i1 + 16 + lb] == '\n');
                    lemma_parse_digit_block(s, i1 + 16, 0, dec_chars(b as nat));
                    assert(0nat * pow10(dec_chars(b as nat).len()) + b as nat == b as nat)
                        by (nonlinear_arith);
                    assert(parse_count_from(s, i1 + 16) == Some((b, i1 + 17 + lb)));
                    assert(i1 + 17 + lb == s.len());
                },
                None => {
                    assert(s.len() == i1);
                    assert(!starts_with_at(s, i1, key2));
                },
            }
        },
        None => {
            match c.triggers_sent {
                Some(b) => {
                    lemma_dec_chars_digits(b as nat);
                    let lb = dec_chars(b as nat).len() as int;
                    assert(s[0] == 't');
                    assert(key1[0] == 'c');
                    assert(!starts_with_at(s, 0, key1)) by {
                        if starts_with_at(s, 0, key1) {
                            assert(s.subrange(0, 7)[0] == key1[0]);
                        }
                    }
                    assert(s.subrange(0, 16) =~= key2);
                    assert(starts_with_at(s, 0, key2));
                    assert(s.subrange(16, 16 + lb) =~= dec_chars(b as nat));
                    assert(s[16 + lb] == '\n');
                    lemma_parse_digit_block(s, 16, 0, dec_chars(b as nat));
                    assert(0nat * pow10(dec_chars(b as nat).len()) + b as nat == b as nat)
                        by (nonlinear_arith);
                    assert(parse_count_from(s, 16) == Some((b, 17 + lb)));
                    assert(17 + lb == s.len());
                },
                None => {
                    assert(s.len() == 0);
                    assert(!starts_with_at(s, 0, key1));
                    assert(!starts_with_at(s, 0, key2));
                },
            }
        },
    }
}

} // verus!
