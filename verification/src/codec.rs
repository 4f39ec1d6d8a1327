//! The record codec: the measurement document format and the on-disk row
//! values.
//!
//! A measurement snapshot arrives as a JSON object with exactly the five
//! numeric counters the meter reports. Decoding is all-or-nothing: a missing
//! member, an unknown or repeated key, a non-numeric value or any other
//! malformation yields a [`ParseError`] and no record. Each counter is kept
//! as its decimal token, exactly as it stood in the document, so nothing a
//! decode-encode pair touches can alter a value's magnitude or sign.

use vstd::prelude::*;

verus! {

/// JSON whitespace, allowed between tokens of a document.
pub open spec fn is_ws_char(c: char) -> bool {
    c == ' ' || c == '\t' || c == '\n' || c == '\r'
}

/// A decimal digit.
pub open spec fn is_digit_char(c: char) -> bool {
    '0' <= c && c <= '9'
}

/// A character allowed in an object key without escaping: anything but a
/// quote, a backslash or a control character. The five keys a document may
/// carry use no escapes, so escaped keys are treated as malformed.
pub open spec fn is_plain_key_char(c: char) -> bool {
    c != '"' && c != '\\' && c >= ' '
}

/// The first index at or after `i` that does not hold whitespace.
pub open spec fn skip_ws(s: Seq<char>, i: int) -> int
    decreases s.len() - i,
{
    if i < s.len() && is_ws_char(s[i]) {
        skip_ws(s, i + 1)
    } else {
        i
    }
}

/// The first index at or after `i` that does not hold a digit.
pub open spec fn scan_digits(s: Seq<char>, i: int) -> int
    decreases s.len() - i,
{
    if i < s.len() && is_digit_char(s[i]) {
        scan_digits(s, i + 1)
    } else {
        i
    }
}

/// The first index at or after `i` that does not hold a plain key character.
pub open spec fn scan_plain(s: Seq<char>, i: int) -> int
    decreases s.len() - i,
{
    if i < s.len() && is_plain_key_char(s[i]) {
        scan_plain(s, i + 1)
    } else {
        i
    }
}

pub proof fn lemma_scan_digits_bounds(s: Seq<char>, i: int)
    requires
        0 <= i <= s.len(),
    ensures
        i <= scan_digits(s, i) <= s.len(),
    decreases s.len() - i,
{
    if i < s.len() && is_digit_char(s[i]) {
        lemma_scan_digits_bounds(s, i + 1);
    }
}

/// The end of the fraction part (if any) beginning at `i`: either there is
/// no `.` and the position is unchanged, or `.` must be followed by at least
/// one digit.
pub open spec fn scan_frac(s: Seq<char>, i: int) -> Option<int> {
    if i < s.len() && s[i] == '.' {
        if i + 1 < s.len() && is_digit_char(s[i + 1]) {
            Some(scan_digits(s, i + 1))
        } else {
            None
        }
    } else {
        Some(i)
    }
}

/// The end of the exponent part (if any) beginning at `i`: either there is
/// no `e`/`E` and the position is unchanged, or an optional sign must be
/// followed by at least one digit.
pub open spec fn scan_exp(s: Seq<char>, i: int) -> Option<int> {
    if i < s.len() && (s[i] == 'e' || s[i] == 'E') {
        let j = if i + 1 < s.len() && (s[i + 1] == '+' || s[i + 1] == '-') {
            i + 2
        } else {
            i + 1
        };
        if j < s.len() && is_digit_char(s[j]) {
            Some(scan_digits(s, j))
        } else {
            None
        }
    } else {
        Some(i)
    }
}

/// The end of the JSON number beginning at `i`, or `None` if no well-formed
/// number begins there: an optional minus sign, an integer part without a
/// superfluous leading zero, an optional fraction and an optional exponent.
pub open spec fn scan_number(s: Seq<char>, i: int) -> Option<int> {
    let i1 = if i < s.len() && s[i] == '-' {
        i + 1
    } else {
        i
    };
    if i1 < s.len() && is_digit_char(s[i1]) {
        let i2 = if s[i1] == '0' {
            i1 + 1
        } else {
            scan_digits(s, i1)
        };
        match scan_frac(s, i2) {
            None => None,
            Some(i3) => scan_exp(s, i3),
        }
    } else {
        None
    }
}

/// Whether `t` is exactly one well-formed JSON number.
pub open spec fn is_number_token(t: Seq<char>) -> bool {
    scan_number(t, 0) == Some(t.len() as int)
}

/// The position just after the string token beginning at `i`, or `None` if
/// no plain (escape-free) string begins there.
pub open spec fn scan_string(s: Seq<char>, i: int) -> Option<int> {
    if i < s.len() && s[i] == '"' {
        let j = scan_plain(s, i + 1);
        if j < s.len() && s[j] == '"' {
            Some(j + 1)
        } else {
            None
        }
    } else {
        None
    }
}

/// One `"key": number` member beginning at or after `i` (leading whitespace
/// allowed): its key, its number token, and the position of the first
/// non-whitespace character after the token.
pub open spec fn parse_member(s: Seq<char>, i: int) -> Option<(Seq<char>, Seq<char>, int)> {
    let i1 = skip_ws(s, i);
    match scan_string(s, i1) {
        None => None,
        Some(j) => {
            let key = s.subrange(i1 + 1, j - 1);
            let i2 = skip_ws(s, j);
            if i2 < s.len() && s[i2] == ':' {
                let i3 = skip_ws(s, i2 + 1);
                match scan_number(s, i3) {
                    None => None,
                    Some(k) => Some((key, s.subrange(i3, k), skip_ws(s, k))),
                }
            } else {
                None
            }
        },
    }
}

/// Cumulative imported energy, tier 1, in kWh.
pub open spec fn key_import_t1() -> Seq<char> {
    "total_power_import_t1_kwh"@
}

/// Cumulative imported energy, tier 2, in kWh.
pub open spec fn key_import_t2() -> Seq<char> {
    "total_power_import_t2_kwh"@
}

/// Cumulative exported energy, tier 1, in kWh.
pub open spec fn key_export_t1() -> Seq<char> {
    "total_power_export_t1_kwh"@
}

/// Cumulative exported energy, tier 2, in kWh.
pub open spec fn key_export_t2() -> Seq<char> {
    "total_power_export_t2_kwh"@
}

/// Cumulative gas volume, in m3.
pub open spec fn key_gas() -> Seq<char> {
    "total_gas_m3"@
}

/// The five counters of one measurement snapshot, as the decimal tokens the
/// document carried.
#[verifier::ext_equal]
pub struct MeasurementView {
    pub import_t1: Seq<char>,
    pub import_t2: Seq<char>,
    pub export_t1: Seq<char>,
    pub export_t2: Seq<char>,
    pub gas: Seq<char>,
}

/// Each counter holds a well-formed number token.
pub open spec fn record_wf(v: MeasurementView) -> bool {
    &&& is_number_token(v.import_t1)
    &&& is_number_token(v.import_t2)
    &&& is_number_token(v.export_t1)
    &&& is_number_token(v.export_t2)
    &&& is_number_token(v.gas)
}

/// The counters gathered so far while walking a document's members.
#[verifier::ext_equal]
pub struct GatheredView {
    pub import_t1: Option<Seq<char>>,
    pub import_t2: Option<Seq<char>>,
    pub export_t1: Option<Seq<char>>,
    pub export_t2: Option<Seq<char>>,
    pub gas: Option<Seq<char>>,
}

/// No member seen yet.
pub open spec fn gathered_empty() -> GatheredView {
    GatheredView {
        import_t1: None,
        import_t2: None,
        export_t1: None,
        export_t2: None,
        gas: None,
    }
}

/// Files one member under its key: `None` for an unknown or repeated key.
pub open spec fn gather_member(p: GatheredView, key: Seq<char>, tok: Seq<char>) -> Option<
    GatheredView,
> {
    if key == key_import_t1() {
        if p.import_t1 is Some {
            None
        } else {
            Some(GatheredView { import_t1: Some(tok), ..p })
        }
    } else if key == key_import_t2() {
        if p.import_t2 is Some {
            None
        } else {
            Some(GatheredView { import_t2: Some(tok), ..p })
        }
    } else if key == key_export_t1() {
        if p.export_t1 is Some {
            None
        } else {
            Some(GatheredView { export_t1: Some(tok), ..p })
        }
    } else if key == key_export_t2() {
        if p.export_t2 is Some {
            None
        } else {
            Some(GatheredView { export_t2: Some(tok), ..p })
        }
    } else if key == key_gas() {
        if p.gas is Some {
            None
        } else {
            Some(GatheredView { gas: Some(tok), ..p })
        }
    } else {
        None
    }
}

/// A record, once every counter has been seen.
pub open spec fn gathered_complete(p: GatheredView) -> Option<MeasurementView> {
    match (p.import_t1, p.import_t2, p.export_t1, p.export_t2, p.gas) {
        (Some(a), Some(b), Some(c), Some(d), Some(e)) => Some(
            MeasurementView { import_t1: a, import_t2: b, export_t1: c, export_t2: d, gas: e },
        ),
        _ => None,
    }
}

/// What a whole document denotes: exactly five `"key": number` members, one
/// per counter in any order, between `{` and `}`, with nothing but
/// whitespace around the tokens and after the closing brace.
pub open spec fn parse_doc(s: Seq<char>) -> Option<MeasurementView> {
    let i0 = skip_ws(s, 0);
    if i0 < s.len() && s[i0] == '{' {
        match parse_member(s, i0 + 1) {
            None => None,
            Some((k1, v1, j1)) => match gather_member(gathered_empty(), k1, v1) {
                None => None,
                Some(p1) => if j1 < s.len() && s[j1] == ',' {
                    match parse_member(s, j1 + 1) {
                        None => None,
                        Some((k2, v2, j2)) => match gather_member(p1, k2, v2) {
                            None => None,
                            Some(p2) => if j2 < s.len() && s[j2] == ',' {
                                match parse_member(s, j2 + 1) {
                                    None => None,
                                    Some((k3, v3, j3)) => match gather_member(p2, k3, v3) {
                                        None => None,
                                        Some(p3) => if j3 < s.len() && s[j3] == ',' {
                                            match parse_member(s, j3 + 1) {
                                                None => None,
                                                Some((k4, v4, j4)) => match gather_member(
                                                    p3,
                                                    k4,
                                                    v4,
                                                ) {
                                                    None => None,
                                                    Some(p4) => if j4 < s.len() && s[j4] == ',' {
                                                        match parse_member(s, j4 + 1) {
                                                            None => None,
                                                            Some((k5, v5, j5)) => match gather_member(
                                                                p4,
                                                                k5,
                                                                v5,
                                                            ) {
                                                                None => None,
                                                                Some(p5) => if j5 < s.len() && s[j5]
                                                                    == '}' && skip_ws(s, j5 + 1)
                                                                    == s.len() {
                                                                    gathered_complete(p5)
                                                                } else {
                                                                    None
                                                                },
                                                            },
                                                        }
                                                    } else {
                                                        None
                                                    },
                                                },
                                            }
                                        } else {
                                            None
                                        },
                                    },
                                }
                            } else {
                                None
                            },
                        },
                    }
                } else {
                    None
                },
            },
        }
    } else {
        None
    }
}

/// The decode error: the body was not a well-formed five-counter document.
#[derive(Clone, Copy, Debug, PartialEq, Eq)]
pub struct ParseError;

/// One decoded measurement snapshot. Each field holds the decimal token of
/// the like-named document member, unaltered.
#[derive(Clone, Debug, PartialEq, Eq)]
pub struct MeasurementRecord {
    pub total_power_import_t1_kwh: String,
    pub total_power_import_t2_kwh: String,
    pub total_power_export_t1_kwh: String,
    pub total_power_export_t2_kwh: String,
    pub total_gas_m3: String,
}

impl View for MeasurementRecord {
    type V = MeasurementView;

    open spec fn view(&self) -> MeasurementView {
        MeasurementView {
            import_t1: self.total_power_import_t1_kwh@,
            import_t2: self.total_power_import_t2_kwh@,
            export_t1: self.total_power_export_t1_kwh@,
            export_t2: self.total_power_export_t2_kwh@,
            gas: self.total_gas_m3@,
        }
    }
}

fn is_ws_e(c: char) -> (b: bool)
    ensures
        b == is_ws_char(c),
{
    c == ' ' || c == '\t' || c == '\n' || c == '\r'
}

fn is_digit_e(c: char) -> (b: bool)
    ensures
        b == is_digit_char(c),
{
    '0' <= c && c <= '9'
}

fn is_plain_key_e(c: char) -> (b: bool)
    ensures
        b == is_plain_key_char(c),
{
    c != '"' && c != '\\' && c >= ' '
}

fn skip_ws_e(s: &str, i: usize) -> (j: usize)
    requires
        i <= s@.len(),
    ensures
        i <= j <= s@.len(),
        j == skip_ws(s@, i as int),
{
    let n = s.unicode_len();
    let mut j = i;
    while j < n && is_ws_e(s.get_char(j))
        invariant
            i <= j <= n,
            n == s@.len(),
            skip_ws(s@, i as int) == skip_ws(s@, j as int),
        decreases n - j,
    {
        j = j + 1;
    }
    j
}

fn scan_digits_e(s: &str, i: usize) -> (j: usize)
    requires
        i <= s@.len(),
    ensures
        i <= j <= s@.len(),
        j == scan_digits(s@, i as int),
{
    let n = s.unicode_len();
    let mut j = i;
    while j < n && is_digit_e(s.get_char(j))
        invariant
            i <= j <= n,
            n == s@.len(),
            scan_digits(s@, i as int) == scan_digits(s@, j as int),
        decreases n - j,
    {
        j = j + 1;
    }
    j
}

fn scan_plain_e(s: &str, i: usize) -> (j: usize)
    requires
        i <= s@.len(),
    ensures
        i <= j <= s@.len(),
        j == scan_plain(s@, i as int),
{
    let n = s.unicode_len();
    let mut j = i;
    while j < n && is_plain_key_e(s.get_char(j))
        invariant
            i <= j <= n,
            n == s@.len(),
            scan_plain(s@, i as int) == scan_plain(s@, j as int),
        decreases n - j,
    {
        j = j + 1;
    }
    j
}

fn scan_number_e(s: &str, i: usize) -> (r: Option<usize>)
    requires
        i <= s@.len(),
    ensures
        match r {
            Some(k) => i <= k <= s@.len() && scan_number(s@, i as int) == Some(k as int),
            None => scan_number(s@, i as int) is None,
        },
{
    let n = s.unicode_len();
    let i1 = if i < n && s.get_char(i) == '-' {
        i + 1
    } else {
        i
    };
    if !(i1 < n && is_digit_e(s.get_char(i1))) {
        return None;
    }
    let i2 = if s.get_char(i1) == '0' {
        i1 + 1
    } else {
        scan_digits_e(s, i1)
    };
    let i3 = if i2 < n && s.get_char(i2) == '.' {
        if i2 + 1 < n && is_digit_e(s.get_char(i2 + 1)) {
            scan_digits_e(s, i2 + 1)
        } else {
            return None;
        }
    } else {
        i2
    };
    proof {
        assert(scan_frac(s@, i2 as int) == Some(i3 as int));
    }
    if i3 < n && (s.get_char(i3) == 'e' || s.get_char(i3) == 'E') {
        let j = if i3 + 1 < n && (s.get_char(i3 + 1) == '+' || s.get_char(i3 + 1) == '-') {
            i3 + 2
        } else {
            i3 + 1
        };
        if j < n && is_digit_e(s.get_char(j)) {
            Some(scan_digits_e(s, j))
        } else {
            None
        }
    } else {
        Some(i3)
    }
}

/// Whether the characters of `s` from `a` (inclusive) to `b` (exclusive) are
/// exactly those of `k`.
fn str_range_eq(s: &str, a: usize, b: usize, k: &str) -> (r: bool)
    requires
        a <= b <= s@.len(),
    ensures
        r == (s@.subrange(a as int, b as int) == k@),
{
    let klen = k.unicode_len();
    if b - a != klen {
        proof {
            assert(s@.subrange(a as int, b as int).len() == b - a);
        }
        return false;
    }
    let mut m: usize = 0;
    while m < klen
        invariant
            0 <= m <= klen,
            klen == k@.len(),
            a <= b <= s@.len(),
            b - a == klen,
            forall|q: int| 0 <= q < m ==> s@[a + q] == k@[q],
        decreases klen - m,
    {
        if s.get_char(a + m) != k.get_char(m) {
            proof {
                assert(s@.subrange(a as int, b as int)[m as int] == s@[a + m]);
            }
            return false;
        }
        m = m + 1;
    }
    proof {
        assert(s@.subrange(a as int, b as int) =~= k@);
    }
    true
}

fn parse_member_e(s: &str, i: usize) -> (r: Option<(usize, usize, usize, usize, usize)>)
    requires
        i <= s@.len(),
    ensures
        match r {
            Some(t) => t.0 <= t.1 <= s@.len() && t.2 <= t.3 <= s@.len() && t.4 <= s@.len()
                && parse_member(s@, i as int) == Some(
                (
                    s@.subrange(t.0 as int, t.1 as int),
                    s@.subrange(t.2 as int, t.3 as int),
                    t.4 as int,
                ),
            ),
            None => parse_member(s@, i as int) is None,
        },
{
    let n = s.unicode_len();
    let i1 = skip_ws_e(s, i);
    if !(i1 < n && s.get_char(i1) == '"') {
        return None;
    }
    let j0 = scan_plain_e(s, i1 + 1);
    if !(j0 < n && s.get_char(j0) == '"') {
        return None;
    }
    let j = j0 + 1;
    proof {
        assert(scan_string(s@, i1 as int) == Some(j as int));
    }
    let i2 = skip_ws_e(s, j);
    if !(i2 < n && s.get_char(i2) == ':') {
        return None;
    }
    let i3 = skip_ws_e(s, i2 + 1);
    match scan_number_e(s, i3) {
        None => None,
        Some(k) => {
            let nx = skip_ws_e(s, k);
            Some((i1 + 1, j0, i3, k, nx))
        },
    }
}

/// The counters gathered so far: the decoded token of each member seen.
struct Gathered {
    import_t1: Option<String>,
    import_t2: Option<String>,
    export_t1: Option<String>,
    export_t2: Option<String>,
    gas: Option<String>,
}

impl View for Gathered {
    type V = GatheredView;

    closed spec fn view(&self) -> GatheredView {
        GatheredView {
            import_t1: match self.import_t1 {
                Some(ref t) => Some(t@),
                None => None,
            },
            import_t2: match self.import_t2 {
                Some(ref t) => Some(t@),
                None => None,
            },
            export_t1: match self.export_t1 {
                Some(ref t) => Some(t@),
                None => None,
            },
            export_t2: match self.export_t2 {
                Some(ref t) => Some(t@),
                None => None,
            },
            gas: match self.gas {
                Some(ref t) => Some(t@),
                None => None,
            },
        }
    }
}

/// Files the member whose key stands at `[a, b)` and whose number token
/// stands at `[c, d)` in `s`.
fn gather_member_e(p: Gathered, s: &str, a: usize, b: usize, c: usize, d: usize) -> (r: Option<
    Gathered,
>)
    requires
        a <= b <= s@.len(),
        c <= d <= s@.len(),
    ensures
        match r {
            Some(p2) => gather_member(
                p@,
                s@.subrange(a as int, b as int),
                s@.subrange(c as int, d as int),
            ) == Some(p2@),
            None => gather_member(
                p@,
                s@.subrange(a as int, b as int),
                s@.subrange(c as int, d as int),
            ) is None,
        },
{
    let tok = String::from_str(s.substring_char(c, d));
    if str_range_eq(s, a, b, "total_power_import_t1_kwh") {
        if p.import_t1.is_some() {
            None
        } else {
            Some(Gathered { import_t1: Some(tok), ..p })
        }
    } else if str_range_eq(s, a, b, "total_power_import_t2_kwh") {
        if p.import_t2.is_some() {
            None
        } else {
            Some(Gathered { import_t2: Some(tok), ..p })
        }
    } else if str_range_eq(s, a, b, "total_power_export_t1_kwh") {
        if p.export_t1.is_some() {
            None
        } else {
            Some(Gathered { export_t1: Some(tok), ..p })
        }
    } else if str_range_eq(s, a, b, "total_power_export_t2_kwh") {
        if p.export_t2.is_some() {
            None
        } else {
            Some(Gathered { export_t2: Some(tok), ..p })
        }
    } else if str_range_eq(s, a, b, "total_gas_m3") {
        if p.gas.is_some() {
            None
        } else {
            Some(Gathered { gas: Some(tok), ..p })
        }
    } else {
        None
    }
}

/// Decodes one response body into a measurement record.
///
/// Succeeds exactly when the body is a well-formed five-counter document as
/// [`parse_doc`] defines it; the record then holds each counter's decimal
/// token unaltered.
pub fn decode(s: &str) -> (r: Result<MeasurementRecord, ParseError>)
    ensures
        match r {
            Ok(rec) => parse_doc(s@) == Some(rec@),
            Err(_) => parse_doc(s@) is None,
        },
{
    let n = s.unicode_len();
    let i0 = skip_ws_e(s, 0);
    if !(i0 < n && s.get_char(i0) == '{') {
        return Err(ParseError);
    }
    let p0 = Gathered { import_t1: None, import_t2: None, export_t1: None, export_t2: None, gas: None };
    let m1 = match parse_member_e(s, i0 + 1) {
        None => {
            return Err(ParseError);
        },
        Some(t) => t,
    };
    let p1 = match gather_member_e(p0, s, m1.0, m1.1, m1.2, m1.3) {
        None => {
            return Err(ParseError);
        },
        Some(p) => p,
    };
    let j1 = m1.4;
    if !(j1 < n && s.get_char(j1) == ',') {
        return Err(ParseError);
    }
    let m2 = match parse_member_e(s, j1 + 1) {
        None => {
            return Err(ParseError);
        },
        Some(t) => t,
    };
    let p2 = match gather_member_e(p1, s, m2.0, m2.1, m2.2, m2.3) {
        None => {
            return Err(ParseError);
        },
        Some(p) => p,
    };
    let j2 = m2.4;
    if !(j2 < n && s.get_char(j2) == ',') {
        return Err(ParseError);
    }
    let m3 = match parse_member_e(s, j2 + 1) {
        None => {
            return Err(ParseError);
        },
        Some(t) => t,
    };
    let p3 = match gather_member_e(p2, s, m3.0, m3.1, m3.2, m3.3) {
        None => {
            return Err(ParseError);
        },
        Some(p) => p,
    };
    let j3 = m3.4;
    if !(j3 < n && s.get_char(j3) == ',') {
        return Err(ParseError);
    }
    let m4 = match parse_member_e(s, j3 + 1) {
        None => {
            return Err(ParseError);
        },
        Some(t) => t,
    };
    let p4 = match gather_member_e(p3, s, m4.0, m4.1, m4.2, m4.3) {
        None => {
            return Err(ParseError);
        },
        Some(p) => p,
    };
    let j4 = m4.4;
    if !(j4 < n && s.get_char(j4) == ',') {
        return Err(ParseError);
    }
    let m5 = match parse_member_e(s, j4 + 1) {
        None => {
            return Err(ParseError);
        },
        Some(t) => t,
    };
    let p5 = match gather_member_e(p4, s, m5.0, m5.1, m5.2, m5.3) {
        None => {
            return Err(ParseError);
        },
        Some(p) => p,
    };
    let j5 = m5.4;
    if !(j5 < n && s.get_char(j5) == '}') {
        return Err(ParseError);
    }
    if skip_ws_e(s, j5 + 1) != n {
        return Err(ParseError);
    }
    match (p5.import_t1, p5.import_t2, p5.export_t1, p5.export_t2, p5.gas) {
        (Some(a), Some(b), Some(c), Some(d), Some(e)) => Ok(
            MeasurementRecord {
                total_power_import_t1_kwh: a,
                total_power_import_t2_kwh: b,
                total_power_export_t1_kwh: c,
                total_power_export_t2_kwh: d,
                total_gas_m3: e,
            },
        ),
        _ => Err(ParseError),
    }
}

/// One member as the canonical encoder lays it out: the quoted key, a
/// colon, and the number token, with no whitespace.
pub open spec fn member_text(key: Seq<char>, tok: Seq<char>) -> Seq<char> {
    "\""@ + key + "\":"@ + tok
}

/// The canonical document for a record: its five members in the fixed
/// counter order, without whitespace.
pub open spec fn encode_spec(v: MeasurementView) -> Seq<char> {
    "{"@ + member_text(key_import_t1(), v.import_t1) + ","@ + member_text(
        key_import_t2(),
        v.import_t2,
    ) + ","@ + member_text(key_export_t1(), v.export_t1) + ","@ + member_text(
        key_export_t2(),
        v.export_t2,
    ) + ","@ + member_text(key_gas(), v.gas) + "}"@
}

/// Encodes a record as its canonical document.
pub fn encode(rec: &MeasurementRecord) -> (r: String)
    ensures
        r@ == encode_spec(rec@),
{
    let mut out = String::from_str("{\"total_power_import_t1_kwh\":");
    out.append(rec.total_power_import_t1_kwh.as_str());
    out.append(",\"total_power_import_t2_kwh\":");
    out.append(rec.total_power_import_t2_kwh.as_str());
    out.append(",\"total_power_export_t1_kwh\":");
    out.append(rec.total_power_export_t1_kwh.as_str());
    out.append(",\"total_power_export_t2_kwh\":");
    out.append(rec.total_power_export_t2_kwh.as_str());
    out.append(",\"total_gas_m3\":");
    out.append(rec.total_gas_m3.as_str());
    out.append("}");
    proof {
        reveal_strlit("{\"total_power_import_t1_kwh\":");
        reveal_strlit(",\"total_power_import_t2_kwh\":");
        reveal_strlit(",\"total_power_export_t1_kwh\":");
        reveal_strlit(",\"total_power_export_t2_kwh\":");
        reveal_strlit(",\"total_gas_m3\":");
        reveal_strlit("total_power_import_t1_kwh");
        reveal_strlit("total_power_import_t2_kwh");
        reveal_strlit("total_power_export_t1_kwh");
        reveal_strlit("total_power_export_t2_kwh");
        reveal_strlit("total_gas_m3");
        reveal_strlit("{");
        reveal_strlit("}");
        reveal_strlit(",");
        reveal_strlit("\"");
        reveal_strlit("\":");
        assert(out@ =~= encode_spec(rec@));
    }
    out
}

proof fn lemma_scan_digits_embed(p: Seq<char>, t: Seq<char>, r: Seq<char>, k: int)
    requires
        0 <= k <= t.len(),
        scan_digits(t, k) == t.len() ==> r.len() > 0 && !is_digit_char(r[0]),
    ensures
        scan_digits(p + t + r, p.len() + k) == p.len() + scan_digits(t, k),
    decreases t.len() - k,
{
    let s = p + t + r;
    if k < t.len() {
        assert(s[p.len() + k] == t[k]);
        if is_digit_char(t[k]) {
            lemma_scan_digits_embed(p, t, r, k + 1);
        }
    } else {
        assert(scan_digits(t, k) == k);
        assert(s[p.len() + k] == r[0]);
    }
}

proof fn lemma_scan_plain_embed(p: Seq<char>, t: Seq<char>, r: Seq<char>, k: int)
    requires
        0 <= k <= t.len(),
        scan_plain(t, k) == t.len() ==> r.len() > 0 && !is_plain_key_char(r[0]),
    ensures
        scan_plain(p + t + r, p.len() + k) == p.len() + scan_plain(t, k),
    decreases t.len() - k,
{
    let s = p + t + r;
    if k < t.len() {
        assert(s[p.len() + k] == t[k]);
        if is_plain_key_char(t[k]) {
            lemma_scan_plain_embed(p, t, r, k + 1);
        }
    } else {
        assert(scan_plain(t, k) == k);
        assert(s[p.len() + k] == r[0]);
    }
}

/// A number token starts with a minus sign or a digit, never whitespace.
proof fn lemma_number_token_head(t: Seq<char>)
    requires
        is_number_token(t),
    ensures
        t.len() > 0,
        t[0] == '-' || is_digit_char(t[0]),
        !is_ws_char(t[0]),
{
    if t.len() == 0 {
        assert(scan_number(t, 0) is None);
    }
}

/// A complete number token embedded in a larger text scans to exactly its
/// own end, provided the character that follows it could not extend it.
proof fn lemma_scan_number_embed(p: Seq<char>, t: Seq<char>, r: Seq<char>)
    requires
        is_number_token(t),
        r.len() > 0,
        !is_digit_char(r[0]),
        r[0] != '.',
        r[0] != 'e',
        r[0] != 'E',
        r[0] != '-',
        r[0] != '+',
    ensures
        scan_number(p + t + r, p.len() as int) == Some(p.len() + t.len() as int),
{
    let s = p + t + r;
    let n = p.len() as int;
    let len = t.len() as int;
    lemma_number_token_head(t);
    assert(s[n] == t[0]);
    let t1: int = if t[0] == '-' {
        1
    } else {
        0
    };
    assert(t1 < len && is_digit_char(t[t1]));
    assert(s[n + t1] == t[t1]);
    let t2: int = if t[t1] == '0' {
        t1 + 1
    } else {
        scan_digits(t, t1)
    };
    if t[t1] != '0' {
        lemma_scan_digits_bounds(t, t1);
        lemma_scan_digits_embed(p, t, r, t1);
    }
    assert(t1 < t2 <= len);
    let fr = scan_frac(t, t2);
    assert(fr is Some);
    let t3 = fr->Some_0;
    if t2 < len {
        assert(s[n + t2] == t[t2]);
    } else {
        assert(s[n + t2] == r[0]);
    }
    if t2 < len && t[t2] == '.' {
        assert(t2 + 1 < len && is_digit_char(t[t2 + 1]));
        assert(s[n + t2 + 1] == t[t2 + 1]);
        lemma_scan_digits_bounds(t, t2 + 1);
        lemma_scan_digits_embed(p, t, r, t2 + 1);
    }
    assert(scan_frac(s, n + t2) == Some(n + t3));
    assert(t2 <= t3 <= len);
    assert(scan_exp(t, t3) == Some(len));
    if t3 < len {
        assert(s[n + t3] == t[t3]);
    } else {
        assert(s[n + t3] == r[0]);
    }
    if t3 < len && (t[t3] == 'e' || t[t3] == 'E') {
        let jt: int = if t3 + 1 < len && (t[t3 + 1] == '+' || t[t3 + 1] == '-') {
            t3 + 2
        } else {
            t3 + 1
        };
        assert(jt < len && is_digit_char(t[jt]));
        if t3 + 1 < len {
            assert(s[n + t3 + 1] == t[t3 + 1]);
        } else {
            assert(s[n + t3 + 1] == r[0]);
        }
        assert(s[n + jt] == t[jt]);
        lemma_scan_digits_bounds(t, jt);
        lemma_scan_digits_embed(p, t, r, jt);
        assert(scan_digits(t, jt) == len);
        assert(scan_exp(s, n + t3) == Some(n + len));
    } else {
        assert(t3 == len);
        assert(scan_exp(s, n + t3) == Some(n + len));
    }
    assert(scan_number(s, n) == Some(n + len));
}

/// A canonically laid-out member embedded in a larger text parses to exactly
/// its key and token, provided a `,` or `}` follows it.
proof fn lemma_parse_member_embed(p: Seq<char>, key: Seq<char>, tok: Seq<char>, r: Seq<char>)
    requires
        key.len() > 0,
        scan_plain(key, 0) == key.len(),
        is_number_token(tok),
        r.len() > 0,
        r[0] == ',' || r[0] == '}',
    ensures
        parse_member(p + member_text(key, tok) + r, p.len() as int) == Some(
            (key, tok, p.len() + member_text(key, tok).len() as int),
        ),
{
    reveal_strlit("\"");
    reveal_strlit("\":");
    let mt = member_text(key, tok);
    let s = p + mt + r;
    let n = p.len() as int;
    let kl = key.len() as int;
    let tl = tok.len() as int;
    lemma_number_token_head(tok);
    assert(mt.len() == kl + tl + 3);
    assert(mt[0] == '"');
    assert(forall|q: int| 0 <= q < kl ==> mt[1 + q] == key[q]);
    assert(mt[kl + 1] == '"');
    assert(mt[kl + 2] == ':');
    assert(forall|q: int| 0 <= q < tl ==> mt[kl + 3 + q] == tok[q]);
    assert(forall|q: int| 0 <= q < mt.len() ==> s[n + q] == mt[q]);
    assert(s[n + mt.len()] == r[0]);
    // The key's quote is not whitespace, so parsing starts at the quote.
    assert(skip_ws(s, n) == n);
    // The string token: embed the plain key between its quotes.
    assert(s =~= (p + "\""@) + key + ("\":"@ + tok + r));
    lemma_scan_plain_embed(p + "\""@, key, "\":"@ + tok + r, 0);
    assert(scan_plain(s, n + 1) == n + 1 + kl);
    assert(scan_string(s, n) == Some(n + kl + 2));
    assert(s.subrange(n + 1, n + 1 + kl) =~= key);
    // The colon follows at once.
    assert(skip_ws(s, n + kl + 2) == n + kl + 2);
    assert(s[n + kl + 2] == ':');
    // The number token follows the colon at once.
    assert(skip_ws(s, n + kl + 3) == n + kl + 3);
    assert(s =~= (p + "\""@ + key + "\":"@) + tok + r);
    lemma_scan_number_embed(p + "\""@ + key + "\":"@, tok, r);
    assert(scan_number(s, n + kl + 3) == Some(n + kl + 3 + tl));
    assert(s.subrange(n + kl + 3, n + kl + 3 + tl) =~= tok);
    // The separator that follows the token is not whitespace either.
    assert(skip_ws(s, n + kl + 3 + tl) == n + kl + 3 + tl);
}

/// Decoding inverts encoding: the canonical document of any well-formed
/// record denotes exactly that record, so a decode–encode round trip alters
/// no counter's text — and so neither its magnitude nor its sign.
#[verifier::rlimit(100)]
pub proof fn lemma_decode_encode(v: MeasurementView)
    requires
        record_wf(v),
    ensures
        parse_doc(encode_spec(v)) == Some(v),
{
    reveal_strlit("total_power_import_t1_kwh");
    reveal_strlit("total_power_import_t2_kwh");
    reveal_strlit("total_power_export_t1_kwh");
    reveal_strlit("total_power_export_t2_kwh");
    reveal_strlit("total_gas_m3");
    reveal_strlit("{");
    reveal_strlit("}");
    reveal_strlit(",");
    let k1 = key_import_t1();
    let k2 = key_import_t2();
    let k3 = key_export_t1();
    let k4 = key_export_t2();
    let k5 = key_gas();
    let m1 = member_text(k1, v.import_t1);
    let m2 = member_text(k2, v.import_t2);
    let m3 = member_text(k3, v.export_t1);
    let m4 = member_text(k4, v.export_t2);
    let m5 = member_text(k5, v.gas);
    let c = ","@;
    let s = encode_spec(v);
    assert(scan_plain(k1, 0) == k1.len()) by {
        reveal_with_fuel(scan_plain, 27);
    }
    assert(scan_plain(k2, 0) == k2.len()) by {
        reveal_with_fuel(scan_plain, 27);
    }
    assert(scan_plain(k3, 0) == k3.len()) by {
        reveal_with_fuel(scan_plain, 27);
    }
    assert(scan_plain(k4, 0) == k4.len()) by {
        reveal_with_fuel(scan_plain, 27);
    }
    assert(scan_plain(k5, 0) == k5.len()) by {
        reveal_with_fuel(scan_plain, 27);
    }
    // The five keys are pairwise distinct.
    assert(k1[20] == '1' && k2[20] == '2' && k1[12] == 'i' && k3[12] == 'e' && k4[12] == 'e');
    assert(k3[20] == '1' && k4[20] == '2');
    assert(k5.len() == 12 && k1.len() == 25 && k2.len() == 25 && k3.len() == 25 && k4.len() == 25);
    // The document starts with the opening brace.
    assert(s[0] == '{');
    assert(skip_ws(s, 0) == 0);
    // Walk the five members in order.
    let e1 = 1 + m1.len() as int;
    assert(s =~= "{"@ + m1 + (c + m2 + c + m3 + c + m4 + c + m5 + "}"@));
    lemma_parse_member_embed("{"@, k1, v.import_t1, c + m2 + c + m3 + c + m4 + c + m5 + "}"@);
    assert(parse_member(s, 1) == Some((k1, v.import_t1, e1)));
    assert(s[e1] == ',');
    let e2 = e1 + 1 + m2.len() as int;
    assert(s =~= ("{"@ + m1 + c) + m2 + (c + m3 + c + m4 + c + m5 + "}"@));
    lemma_parse_member_embed("{"@ + m1 + c, k2, v.import_t2, c + m3 + c + m4 + c + m5 + "}"@);
    assert(parse_member(s, e1 + 1) == Some((k2, v.import_t2, e2)));
    assert(s[e2] == ',');
    let e3 = e2 + 1 + m3.len() as int;
    assert(s =~= ("{"@ + m1 + c + m2 + c) + m3 + (c + m4 + c + m5 + "}"@));
    lemma_parse_member_embed("{"@ + m1 + c + m2 + c, k3, v.export_t1, c + m4 + c + m5 + "}"@);
    assert(parse_member(s, e2 + 1) == Some((k3, v.export_t1, e3)));
    assert(s[e3] == ',');
    let e4 = e3 + 1 + m4.len() as int;
    assert(s =~= ("{"@ + m1 + c + m2 + c + m3 + c) + m4 + (c + m5 + "}"@));
    lemma_parse_member_embed("{"@ + m1 + c + m2 + c + m3 + c, k4, v.export_t2, c + m5 + "}"@);
    assert(parse_member(s, e3 + 1) == Some((k4, v.export_t2, e4)));
    assert(s[e4] == ',');
    let e5 = e4 + 1 + m5.len() as int;
    assert(s =~= ("{"@ + m1 + c + m2 + c + m3 + c + m4 + c) + m5 + ("}"@));
    lemma_parse_member_embed("{"@ + m1 + c + m2 + c + m3 + c + m4 + c, k5, v.gas, "}"@);
    assert(parse_member(s, e4 + 1) == Some((k5, v.gas, e5)));
    assert(s[e5] == '}');
    assert(e5 + 1 == s.len());
    assert(skip_ws(s, e5 + 1) == s.len());
    // The members file under their keys, each exactly once.
    let g1 = gather_member(gathered_empty(), k1, v.import_t1);
    assert(g1 is Some);
    let g2 = gather_member(g1->Some_0, k2, v.import_t2);
    assert(g2 is Some);
    let g3 = gather_member(g2->Some_0, k3, v.export_t1);
    assert(g3 is Some);
    let g4 = gather_member(g3->Some_0, k4, v.export_t2);
    assert(g4 is Some);
    let g5 = gather_member(g4->Some_0, k5, v.gas);
    assert(g5 is Some);
    assert(gathered_complete(g5->Some_0) == Some(v));
    assert(parse_doc(s) == Some(v));
}

} // verus!
