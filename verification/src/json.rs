//! The protocol's value grammar: a JSON document model, a serializer whose
//! output is pinned down exactly by spec functions, and a total parser.
//!
//! `JsonValue` is the executable document; its view is the mathematical
//! model `JsonV`, over which every contract speaks. The grammar the parser
//! reads is spelled out by the `spec_parse…` functions, and each parsing
//! function returns exactly what its spec function says — so does the
//! serializer against `spec_json_text`. Every escape form the serializer
//! writes, the parser reads back.
//!
//! Numbers are decimal: a sign, a digit string, and a scale giving how many
//! of those digits stand after the decimal point. Exponent notation, a
//! mantissa beyond `u64`, and `\u` escapes of characters above the control
//! range are outside this grammar — reading them faithfully would take
//! floating point or code-point construction that nothing here can state —
//! and the parser reports them as malformed input rather than guessing.
use vstd::prelude::*;

use crate::str_eq;

verus! {

/// A decimal number: `mantissa` scaled down by `10^scale`, negated if `neg`.
#[derive(Clone, Copy, PartialEq, Eq, Structural, Debug)]
pub struct JsonNum {
    pub neg: bool,
    pub mantissa: u64,
    pub scale: u32,
}

/// A JSON document. Objects keep their fields in written order; a key that
/// occurs twice is resolved by first occurrence on lookup.
#[derive(Debug)]
pub enum JsonValue {
    Null,
    Bool(bool),
    Num(JsonNum),
    Str(String),
    Arr(Vec<JsonValue>),
    Obj(Vec<(String, JsonValue)>),
}

/// The mathematical model of a document: strings as character sequences,
/// aggregates as sequences.
pub enum JsonV {
    Null,
    Bool(bool),
    Num(JsonNum),
    Str(Seq<char>),
    Arr(Seq<JsonV>),
    Obj(Seq<(Seq<char>, JsonV)>),
}

pub open spec fn jview(v: JsonValue) -> JsonV
    decreases v,
{
    match v {
        JsonValue::Null => JsonV::Null,
        JsonValue::Bool(b) => JsonV::Bool(b),
        JsonValue::Num(n) => JsonV::Num(n),
        JsonValue::Str(s) => JsonV::Str(s@),
        JsonValue::Arr(a) => JsonV::Arr(jview_seq(a@)),
        JsonValue::Obj(o) => JsonV::Obj(jview_fields(o@)),
    }
}

pub open spec fn jview_seq(a: Seq<JsonValue>) -> Seq<JsonV>
    decreases a,
{
    if a.len() == 0 {
        Seq::empty()
    } else {
        jview_seq(a.drop_last()).push(jview(a.last()))
    }
}

pub open spec fn jview_fields(o: Seq<(String, JsonValue)>) -> Seq<(Seq<char>, JsonV)>
    decreases o,
{
    if o.len() == 0 {
        Seq::empty()
    } else {
        jview_fields(o.drop_last()).push((o.last().0@, jview(o.last().1)))
    }
}

impl View for JsonValue {
    type V = JsonV;

    open spec fn view(&self) -> JsonV {
        jview(*self)
    }
}

pub broadcast proof fn lemma_jview_seq_index(a: Seq<JsonValue>, i: int)
    requires
        0 <= i < a.len(),
    ensures
        #[trigger] jview_seq(a)[i] == jview(a[i]),
        jview_seq(a).len() == a.len(),
    decreases a.len(),
{
    lemma_jview_seq_len(a);
    if a.len() > 0 && i < a.len() - 1 {
        lemma_jview_seq_index(a.drop_last(), i);
    }
}

pub broadcast proof fn lemma_jview_seq_len(a: Seq<JsonValue>)
    ensures
        #[trigger] jview_seq(a).len() == a.len(),
    decreases a.len(),
{
    if a.len() > 0 {
        lemma_jview_seq_len(a.drop_last());
    }
}

pub broadcast proof fn lemma_jview_fields_index(o: Seq<(String, JsonValue)>, i: int)
    requires
        0 <= i < o.len(),
    ensures
        #[trigger] jview_fields(o)[i] == (o[i].0@, jview(o[i].1)),
        jview_fields(o).len() == o.len(),
    decreases o.len(),
{
    lemma_jview_fields_len(o);
    if o.len() > 0 && i < o.len() - 1 {
        lemma_jview_fields_index(o.drop_last(), i);
    }
}

pub broadcast proof fn lemma_jview_fields_len(o: Seq<(String, JsonValue)>)
    ensures
        #[trigger] jview_fields(o).len() == o.len(),
    decreases o.len(),
{
    if o.len() > 0 {
        lemma_jview_fields_len(o.drop_last());
    }
}

pub open spec fn spec_digit_char(d: nat) -> char {
    if d == 0 { '0' }
    else if d == 1 { '1' }
    else if d == 2 { '2' }
    else if d == 3 { '3' }
    else if d == 4 { '4' }
    else if d == 5 { '5' }
    else if d == 6 { '6' }
    else if d == 7 { '7' }
    else if d == 8 { '8' }
    else { '9' }
}

/// Decimal digits of `n`, most significant first, no leading zeros.
pub open spec fn spec_u64_digits(n: nat) -> Seq<char>
    decreases n,
{
    if n < 10 {
        seq![spec_digit_char(n)]
    } else {
        spec_u64_digits(n / 10).push(spec_digit_char(n % 10))
    }
}

pub open spec fn spec_zeros(k: int) -> Seq<char>
    decreases k,
{
    if k <= 0 {
        Seq::empty()
    } else {
        spec_zeros(k - 1).push('0')
    }
}

/// The exact text of a number: digits with a decimal point placed `scale`
/// digits from the right, zero-padded to `0.0…` form when the mantissa is
/// shorter than the scale.
pub open spec fn spec_num_text(n: JsonNum) -> Seq<char> {
    let ds = spec_u64_digits(n.mantissa as nat);
    let body = if n.scale == 0 {
        ds
    } else if ds.len() > n.scale {
        ds.subrange(0, ds.len() - n.scale) + seq!['.'] + ds.subrange(
            ds.len() - n.scale,
            ds.len() as int,
        )
    } else {
        seq!['0', '.'] + spec_zeros(n.scale - ds.len()) + ds
    };
    if n.neg {
        seq!['-'] + body
    } else {
        body
    }
}

pub open spec fn spec_hex_char(d: nat) -> char {
    if d < 10 {
        spec_digit_char(d)
    } else if d == 10 { 'a' }
    else if d == 11 { 'b' }
    else if d == 12 { 'c' }
    else if d == 13 { 'd' }
    else if d == 14 { 'e' }
    else { 'f' }
}

/// How one character of a string body is written: quote and backslash are
/// backslash-escaped, the common control characters use their short escapes,
/// the remaining control characters use `\u00XX`, and every other character
/// stands as itself.
pub open spec fn spec_escape_char(c: char) -> Seq<char> {
    if c == '"' { seq!['\\', '"'] }
    else if c == '\\' { seq!['\\', '\\'] }
    else if c == '\n' { seq!['\\', 'n'] }
    else if c == '\r' { seq!['\\', 'r'] }
    else if c == '\t' { seq!['\\', 't'] }
    else if (c as u32) < 32 {
        seq!['\\', 'u', '0', '0', spec_hex_char((c as u32 / 16) as nat), spec_hex_char(
            (c as u32 % 16) as nat,
        )]
    } else {
        seq![c]
    }
}

pub open spec fn spec_escape(s: Seq<char>) -> Seq<char>
    decreases s.len(),
{
    if s.len() == 0 {
        Seq::empty()
    } else {
        spec_escape(s.drop_last()) + spec_escape_char(s.last())
    }
}

/// The exact text of a string: the escaped body between double quotes.
pub open spec fn spec_string_text(s: Seq<char>) -> Seq<char> {
    seq!['"'] + spec_escape(s) + seq!['"']
}

/// The exact text of a value.
pub open spec fn spec_json_text(v: JsonV) -> Seq<char>
    decreases v,
{
    match v {
        JsonV::Null => seq!['n', 'u', 'l', 'l'],
        JsonV::Bool(b) => if b {
            seq!['t', 'r', 'u', 'e']
        } else {
            seq!['f', 'a', 'l', 's', 'e']
        },
        JsonV::Num(n) => spec_num_text(n),
        JsonV::Str(s) => spec_string_text(s),
        JsonV::Arr(a) => seq!['['] + spec_items_text(a) + seq![']'],
        JsonV::Obj(o) => seq!['{'] + spec_fields_text(o) + seq!['}'],
    }
}

/// The comma-separated texts of an array's elements.
pub open spec fn spec_items_text(a: Seq<JsonV>) -> Seq<char>
    decreases a,
{
    if a.len() == 0 {
        Seq::empty()
    } else if a.len() == 1 {
        spec_json_text(a.last())
    } else {
        spec_items_text(a.drop_last()) + seq![','] + spec_json_text(a.last())
    }
}

/// The comma-separated `"key":value` texts of an object's fields.
pub open spec fn spec_fields_text(o: Seq<(Seq<char>, JsonV)>) -> Seq<char>
    decreases o,
{
    if o.len() == 0 {
        Seq::empty()
    } else if o.len() == 1 {
        spec_field_text(o.last())
    } else {
        spec_fields_text(o.drop_last()) + seq![','] + spec_field_text(o.last())
    }
}

pub open spec fn spec_field_text(f: (Seq<char>, JsonV)) -> Seq<char>
    decreases f,
{
    spec_string_text(f.0) + seq![':'] + spec_json_text(f.1)
}

fn digit_str(d: u64) -> (r: &'static str)
    requires
        d < 10,
    ensures
        r@ == seq![spec_digit_char(d as nat)],
{
    proof {
        reveal_strlit("0");
        reveal_strlit("1");
        reveal_strlit("2");
        reveal_strlit("3");
        reveal_strlit("4");
        reveal_strlit("5");
        reveal_strlit("6");
        reveal_strlit("7");
        reveal_strlit("8");
        reveal_strlit("9");
    }
    let r = if d == 0 { "0" }
    else if d == 1 { "1" }
    else if d == 2 { "2" }
    else if d == 3 { "3" }
    else if d == 4 { "4" }
    else if d == 5 { "5" }
    else if d == 6 { "6" }
    else if d == 7 { "7" }
    else if d == 8 { "8" }
    else { "9" };
    proof {
        assert(r@ =~= seq![spec_digit_char(d as nat)]);
    }
    r
}

/// The decimal text of `n`, exactly `spec_u64_digits`.
pub fn fmt_u64(n: u64) -> (r: String)
    ensures
        r@ == spec_u64_digits(n as nat),
    decreases n,
{
    if n < 10 {
        String::from_str(digit_str(n))
    } else {
        let mut s = fmt_u64(n / 10);
        s.append(digit_str(n % 10));
        s
    }
}

fn append_zeros(out: &mut String, k: usize)
    ensures
        final(out)@ == old(out)@ + spec_zeros(k as int),
{
    let mut i: usize = 0;
    proof {
        assert(out@ + spec_zeros(0) =~= out@);
    }
    while i < k
        invariant
            i <= k,
            out@ == old(out)@ + spec_zeros(i as int),
        decreases k - i,
    {
        out.append("0");
        proof {
            reveal_strlit("0");
            assert("0"@ =~= seq!['0']);
            assert(old(out)@ + spec_zeros(i + 1 as int) =~= (old(out)@ + spec_zeros(i as int)).push(
                '0',
            ));
        }
        i += 1;
    }
}

/// Writes the text of `n` onto `out`, exactly `spec_num_text`.
pub fn append_num(out: &mut String, n: &JsonNum)
    ensures
        final(out)@ == old(out)@ + spec_num_text(*n),
{
    if n.neg {
        out.append("-");
        proof {
            reveal_strlit("-");
            assert("-"@ =~= seq!['-']);
        }
    }
    let ds = fmt_u64(n.mantissa);
    let len = ds.as_str().unicode_len();
    if n.scale == 0 {
        out.append(ds.as_str());
    } else if len > n.scale as usize {
        let cut = len - n.scale as usize;
        out.append(ds.as_str().substring_char(0, cut));
        out.append(".");
        out.append(ds.as_str().substring_char(cut, len));
        proof {
            reveal_strlit(".");
            assert("."@ =~= seq!['.']);
        }
    } else {
        out.append("0.");
        proof {
            reveal_strlit("0.");
            assert("0."@ =~= seq!['0', '.']);
        }
        append_zeros(out, n.scale as usize - len);
        out.append(ds.as_str());
    }
    proof {
        assert(out@ =~= old(out)@ + spec_num_text(*n));
    }
}

fn hex_str(d: u32) -> (r: &'static str)
    requires
        d < 16,
    ensures
        r@ == seq![spec_hex_char(d as nat)],
{
    proof {
        reveal_strlit("a");
        reveal_strlit("b");
        reveal_strlit("c");
        reveal_strlit("d");
        reveal_strlit("e");
        reveal_strlit("f");
    }
    let r = if d < 10 { digit_str(d as u64) }
    else if d == 10 { "a" }
    else if d == 11 { "b" }
    else if d == 12 { "c" }
    else if d == 13 { "d" }
    else if d == 14 { "e" }
    else { "f" };
    proof {
        assert(r@ =~= seq![spec_hex_char(d as nat)]);
    }
    r
}

/// Writes the escaped body of `s` onto `out`, exactly `spec_escape`.
pub fn append_escaped(out: &mut String, s: &str)
    ensures
        final(out)@ == old(out)@ + spec_escape(s@),
{
    let n = s.unicode_len();
    let mut i: usize = 0;
    proof {
        assert(out@ + spec_escape(s@.take(0)) =~= out@);
    }
    while i < n
        invariant
            n == s@.len(),
            i <= n,
            out@ == old(out)@ + spec_escape(s@.take(i as int)),
        decreases n - i,
    {
        let c = s.get_char(i);
        if c == '"' {
            out.append("\\\"");
            proof {
                reveal_strlit("\\\"");
                assert("\\\""@ =~= spec_escape_char(c));
            }
        } else if c == '\\' {
            out.append("\\\\");
            proof {
                reveal_strlit("\\\\");
                assert("\\\\"@ =~= spec_escape_char(c));
            }
        } else if c == '\n' {
            out.append("\\n");
            proof {
                reveal_strlit("\\n");
                assert("\\n"@ =~= spec_escape_char(c));
            }
        } else if c == '\r' {
            out.append("\\r");
            proof {
                reveal_strlit("\\r");
                assert("\\r"@ =~= spec_escape_char(c));
            }
        } else if c == '\t' {
            out.append("\\t");
            proof {
                reveal_strlit("\\t");
                assert("\\t"@ =~= spec_escape_char(c));
            }
        } else if (c as u32) < 32 {
            out.append("\\u00");
            out.append(hex_str(c as u32 / 16));
            out.append(hex_str(c as u32 % 16));
            proof {
                reveal_strlit("\\u00");
                assert("\\u00"@ + seq![spec_hex_char((c as u32 / 16) as nat)] + seq![
                    spec_hex_char((c as u32 % 16) as nat),
                ] =~= spec_escape_char(c));
            }
        } else {
            out.append(s.substring_char(i, i + 1));
            proof {
                assert(s@.subrange(i as int, i + 1 as int) =~= seq![s@[i as int]]);
                assert(seq![s@[i as int]] =~= spec_escape_char(c));
            }
        }
        proof {
            assert(s@.take(i + 1 as int).drop_last() =~= s@.take(i as int));
            assert(s@.take(i + 1 as int).last() == s@[i as int]);
            assert(spec_escape(s@.take(i + 1 as int)) == spec_escape(s@.take(i as int))
                + spec_escape_char(s@[i as int]));
            assert(out@ =~= old(out)@ + spec_escape(s@.take(i + 1 as int)));
        }
        i += 1;
    }
    proof {
        assert(s@.take(n as int) =~= s@);
    }
}

/// Writes the quoted, escaped text of `s` onto `out`, exactly
/// `spec_string_text`.
pub fn append_string(out: &mut String, s: &str)
    ensures
        final(out)@ == old(out)@ + spec_string_text(s@),
{
    out.append("\"");
    append_escaped(out, s);
    out.append("\"");
    proof {
        reveal_strlit("\"");
        assert("\""@ =~= seq!['"']);
        assert(out@ =~= old(out)@ + spec_string_text(s@));
    }
}

proof fn lemma_items_step(a: Seq<JsonV>, j: int)
    requires
        0 <= j < a.len(),
    ensures
        spec_items_text(a.take(j + 1)) == if j == 0 {
            spec_json_text(a[0])
        } else {
            spec_items_text(a.take(j)) + seq![','] + spec_json_text(a[j])
        },
{
    assert(a.take(j + 1).drop_last() =~= a.take(j));
    assert(a.take(j + 1).last() == a[j]);
}

proof fn lemma_fields_step(o: Seq<(Seq<char>, JsonV)>, j: int)
    requires
        0 <= j < o.len(),
    ensures
        spec_fields_text(o.take(j + 1)) == if j == 0 {
            spec_field_text(o[0])
        } else {
            spec_fields_text(o.take(j)) + seq![','] + spec_field_text(o[j])
        },
{
    assert(o.take(j + 1).drop_last() =~= o.take(j));
    assert(o.take(j + 1).last() == o[j]);
}

/// Writes the text of `v` onto `out`, exactly `spec_json_text`.
pub fn append_json(out: &mut String, v: &JsonValue)
    ensures
        final(out)@ == old(out)@ + spec_json_text(v@),
    decreases *v,
{
    broadcast use lemma_jview_seq_index, lemma_jview_seq_len, lemma_jview_fields_index, lemma_jview_fields_len;

    match v {
        JsonValue::Null => {
            out.append("null");
            proof {
                reveal_strlit("null");
                assert("null"@ =~= spec_json_text(v@));
            }
        },
        JsonValue::Bool(b) => {
            if *b {
                out.append("true");
                proof {
                    reveal_strlit("true");
                    assert("true"@ =~= spec_json_text(v@));
                }
            } else {
                out.append("false");
                proof {
                    reveal_strlit("false");
                    assert("false"@ =~= spec_json_text(v@));
                }
            }
        },
        JsonValue::Num(n) => {
            append_num(out, n);
        },
        JsonValue::Str(s) => {
            append_string(out, s.as_str());
        },
        JsonValue::Arr(a) => {
            out.append("[");
            proof {
                reveal_strlit("[");
                assert("["@ =~= seq!['[']);
            }
            let ghost pre = out@;
            let ghost va = jview_seq(a@);
            let mut j: usize = 0;
            proof {
                assert(pre + spec_items_text(va.take(0)) =~= pre);
            }
            while j < a.len()
                invariant
                    j <= a@.len(),
                    *v == JsonValue::Arr(*a),
                    va == jview_seq(a@),
                    va.len() == a@.len(),
                    out@ == pre + spec_items_text(va.take(j as int)),
                decreases a@.len() - j,
            {
                if j > 0 {
                    out.append(",");
                    proof {
                        reveal_strlit(",");
                        assert(","@ =~= seq![',']);
                    }
                }
                proof {
                    vstd::std_specs::vec::axiom_vec_index_decreases(*a, j as int);
                    assert(decreases_to!(*v => v->Arr_0));
                    assert(v->Arr_0 == *a);
                    assert(decreases_to!(*v => a@[j as int]));
                }
                append_json(out, &a[j]);
                proof {
                    lemma_jview_seq_index(a@, j as int);
                    lemma_items_step(va, j as int);
                    assert(out@ =~= pre + spec_items_text(va.take(j + 1 as int)));
                }
                j += 1;
            }
            out.append("]");
            proof {
                reveal_strlit("]");
                assert("]"@ =~= seq![']']);
                assert(va.take(va.len() as int) =~= va);
                assert(out@ =~= old(out)@ + spec_json_text(v@));
            }
        },
        JsonValue::Obj(o) => {
            out.append("{");
            proof {
                reveal_strlit("{");
                assert("{"@ =~= seq!['{']);
            }
            let ghost pre = out@;
            let ghost vo = jview_fields(o@);
            let mut j: usize = 0;
            proof {
                assert(pre + spec_fields_text(vo.take(0)) =~= pre);
            }
            while j < o.len()
                invariant
                    j <= o@.len(),
                    *v == JsonValue::Obj(*o),
                    vo == jview_fields(o@),
                    vo.len() == o@.len(),
                    out@ == pre + spec_fields_text(vo.take(j as int)),
                decreases o@.len() - j,
            {
                if j > 0 {
                    out.append(",");
                    proof {
                        reveal_strlit(",");
                        assert(","@ =~= seq![',']);
                    }
                }
                append_string(out, o[j].0.as_str());
                out.append(":");
                proof {
                    reveal_strlit(":");
                    assert(":"@ =~= seq![':']);
                }
                proof {
                    vstd::std_specs::vec::axiom_vec_index_decreases(*o, j as int);
                    assert(decreases_to!(*v => v->Obj_0));
                    assert(v->Obj_0 == *o);
                    assert(decreases_to!(o@[j as int] => o@[j as int].1));
                    assert(decreases_to!(*v => o@[j as int].1));
                }
                append_json(out, &o[j].1);
                proof {
                    lemma_jview_fields_index(o@, j as int);
                    lemma_fields_step(vo, j as int);
                    assert(out@ =~= pre + spec_fields_text(vo.take(j + 1 as int)));
                }
                j += 1;
            }
            out.append("}");
            proof {
                reveal_strlit("}");
                assert("}"@ =~= seq!['}']);
                assert(vo.take(vo.len() as int) =~= vo);
                assert(out@ =~= old(out)@ + spec_json_text(v@));
            }
        },
    }
}

/// The text of `v`, exactly `spec_json_text`.
pub fn encode_json(v: &JsonValue) -> (r: String)
    ensures
        r@ == spec_json_text(v@),
{
    let mut out = String::new();
    append_json(&mut out, v);
    out
}

pub open spec fn spec_is_ws(c: char) -> bool {
    c == ' ' || c == '\t' || c == '\n' || c == '\r'
}

pub open spec fn spec_is_digit(c: char) -> bool {
    48 <= c as u32 <= 57
}

/// How many whitespace characters stand at `i`.
pub open spec fn spec_ws_run(s: Seq<char>, i: int) -> nat
    decreases s.len() - i,
{
    if 0 <= i < s.len() && spec_is_ws(s[i]) {
        (1 + spec_ws_run(s, i + 1)) as nat
    } else {
        0
    }
}

/// The first position at or after `i` holding no whitespace. The bound to
/// the length only pins the termination measure of the readers below; a
/// whitespace run never passes the end.
pub open spec fn spec_skip_ws(s: Seq<char>, i: int) -> int {
    if i + spec_ws_run(s, i) <= s.len() {
        i + spec_ws_run(s, i)
    } else {
        s.len() as int
    }
}

/// The digits read after a first digit already worth `m`, folded into the
/// mantissa; a mantissa beyond `u64` reads as malformed.
pub open spec fn spec_digits_int(s: Seq<char>, j: int, m: u64) -> Option<(u64, int)>
    decreases s.len() - j,
{
    if 0 <= j < s.len() && spec_is_digit(s[j]) {
        let d = (s[j] as u32 - 48) as u64;
        if (m as nat) * 10 + d <= u64::MAX {
            spec_digits_int(s, j + 1, (m * 10 + d) as u64)
        } else {
            None
        }
    } else {
        Some((m, j))
    }
}

/// The fractional digits, folded into the mantissa while counting the scale.
pub open spec fn spec_digits_frac(s: Seq<char>, j: int, m: u64, sc: u32) -> Option<
    (u64, u32, int),
>
    decreases s.len() - j,
{
    if 0 <= j < s.len() && spec_is_digit(s[j]) {
        let d = (s[j] as u32 - 48) as u64;
        if (m as nat) * 10 + d <= u64::MAX {
            if sc < u32::MAX {
                spec_digits_frac(s, j + 1, (m * 10 + d) as u64, (sc + 1) as u32)
            } else {
                None
            }
        } else {
            None
        }
    } else {
        Some((m, sc, j))
    }
}

/// The number starting at `i`: an optional sign, digits with no leading
/// zero, and an optional fraction of at least one digit.
pub open spec fn spec_parse_number(s: Seq<char>, i: int) -> Option<(JsonNum, int)> {
    if !(0 <= i < s.len()) {
        None
    } else {
        let neg = s[i] == '-';
        let j = if neg { i + 1 } else { i };
        if !(j < s.len() && spec_is_digit(s[j])) {
            None
        } else if s[j] == '0' && j + 1 < s.len() && spec_is_digit(s[j + 1]) {
            None
        } else {
            let m0 = (s[j] as u32 - 48) as u64;
            match spec_digits_int(s, j + 1, m0) {
                None => None,
                Some((m, j2)) => if j2 < s.len() && s[j2] == '.' {
                    if !(j2 + 1 < s.len() && spec_is_digit(s[j2 + 1])) {
                        None
                    } else {
                        match spec_digits_frac(s, j2 + 1, m, 0) {
                            None => None,
                            Some((m2, sc, j3)) => Some(
                                (JsonNum { neg, mantissa: m2, scale: sc }, j3),
                            ),
                        }
                    }
                } else {
                    Some((JsonNum { neg, mantissa: m, scale: 0 }, j2))
                },
            }
        }
    }
}

/// The value of one hexadecimal digit, either case.
pub open spec fn spec_hex_val(c: char) -> Option<u32> {
    if 48 <= c as u32 <= 57 { Some((c as u32 - 48) as u32) }
    else if 97 <= c as u32 <= 102 { Some((c as u32 - 87) as u32) }
    else if 65 <= c as u32 <= 70 { Some((c as u32 - 55) as u32) }
    else { None }
}

/// The control character with the given code, below 32.
pub open spec fn spec_control_char(code: int) -> char {
    if code == 0 { '\u{0}' }
    else if code == 1 { '\u{1}' }
    else if code == 2 { '\u{2}' }
    else if code == 3 { '\u{3}' }
    else if code == 4 { '\u{4}' }
    else if code == 5 { '\u{5}' }
    else if code == 6 { '\u{6}' }
    else if code == 7 { '\u{7}' }
    else if code == 8 { '\u{8}' }
    else if code == 9 { '\u{9}' }
    else if code == 10 { '\u{a}' }
    else if code == 11 { '\u{b}' }
    else if code == 12 { '\u{c}' }
    else if code == 13 { '\u{d}' }
    else if code == 14 { '\u{e}' }
    else if code == 15 { '\u{f}' }
    else if code == 16 { '\u{10}' }
    else if code == 17 { '\u{11}' }
    else if code == 18 { '\u{12}' }
    else if code == 19 { '\u{13}' }
    else if code == 20 { '\u{14}' }
    else if code == 21 { '\u{15}' }
    else if code == 22 { '\u{16}' }
    else if code == 23 { '\u{17}' }
    else if code == 24 { '\u{18}' }
    else if code == 25 { '\u{19}' }
    else if code == 26 { '\u{1a}' }
    else if code == 27 { '\u{1b}' }
    else if code == 28 { '\u{1c}' }
    else if code == 29 { '\u{1d}' }
    else if code == 30 { '\u{1e}' }
    else { '\u{1f}' }
}

/// The string body after the opening quote: characters, short escapes, and
/// `\u00XX` escapes of control characters — the form the serializer writes —
/// accumulated until the closing quote. A `\u` escape of anything above the
/// control range is outside the grammar.
pub open spec fn spec_str_body(s: Seq<char>, j: int, acc: Seq<char>) -> Option<(Seq<char>, int)>
    decreases s.len() - j,
{
    if !(0 <= j < s.len()) {
        None
    } else if s[j] == '"' {
        Some((acc, j + 1))
    } else if s[j] == '\\' {
        if j + 1 >= s.len() {
            None
        } else {
            let e = s[j + 1];
            if e == '"' { spec_str_body(s, j + 2, acc.push('"')) }
            else if e == '\\' { spec_str_body(s, j + 2, acc.push('\\')) }
            else if e == '/' { spec_str_body(s, j + 2, acc.push('/')) }
            else if e == 'n' { spec_str_body(s, j + 2, acc.push('\n')) }
            else if e == 'r' { spec_str_body(s, j + 2, acc.push('\r')) }
            else if e == 't' { spec_str_body(s, j + 2, acc.push('\t')) }
            else if e == 'b' { spec_str_body(s, j + 2, acc.push('\u{0008}')) }
            else if e == 'f' { spec_str_body(s, j + 2, acc.push('\u{000c}')) }
            else if e == 'u' {
                if j + 6 <= s.len() {
                    match (
                        spec_hex_val(s[j + 2]),
                        spec_hex_val(s[j + 3]),
                        spec_hex_val(s[j + 4]),
                        spec_hex_val(s[j + 5]),
                    ) {
                        (Some(h0), Some(h1), Some(h2), Some(h3)) => {
                            let code = h0 * 4096 + h1 * 256 + h2 * 16 + h3;
                            if code < 32 {
                                spec_str_body(s, j + 6, acc.push(spec_control_char(code)))
                            } else {
                                None
                            }
                        },
                        _ => None,
                    }
                } else {
                    None
                }
            }
            else { None }
        }
    } else {
        spec_str_body(s, j + 1, acc.push(s[j]))
    }
}

/// The quoted string starting at `i`.
pub open spec fn spec_parse_string(s: Seq<char>, i: int) -> Option<(Seq<char>, int)> {
    if 0 <= i < s.len() && s[i] == '"' {
        spec_str_body(s, i + 1, Seq::empty())
    } else {
        None
    }
}

/// The value starting at `i`. The guards `if jn > j { jn } else { j + 1 }`
/// in the element readers only pin the termination measure; parsing always
/// ends past where it began, so the `j + 1` branch never describes a run.
pub open spec fn spec_parse_value(s: Seq<char>, i: int) -> Option<(JsonV, int)>
    decreases s.len() - i, 1int,
{
    if !(0 <= i < s.len()) {
        None
    } else {
        let c = s[i];
        if c == 'n' {
            if i + 4 <= s.len() && s.subrange(i + 1, i + 4) == seq!['u', 'l', 'l'] {
                Some((JsonV::Null, i + 4))
            } else {
                None
            }
        } else if c == 't' {
            if i + 4 <= s.len() && s.subrange(i + 1, i + 4) == seq!['r', 'u', 'e'] {
                Some((JsonV::Bool(true), i + 4))
            } else {
                None
            }
        } else if c == 'f' {
            if i + 5 <= s.len() && s.subrange(i + 1, i + 5) == seq!['a', 'l', 's', 'e'] {
                Some((JsonV::Bool(false), i + 5))
            } else {
                None
            }
        } else if c == '"' {
            match spec_parse_string(s, i) {
                Some((t, j)) => Some((JsonV::Str(t), j)),
                None => None,
            }
        } else if c == '-' || spec_is_digit(c) {
            match spec_parse_number(s, i) {
                Some((num, j)) => Some((JsonV::Num(num), j)),
                None => None,
            }
        } else if c == '[' {
            let j = spec_skip_ws(s, i + 1);
            if j < s.len() && s[j] == ']' {
                Some((JsonV::Arr(Seq::empty()), j + 1))
            } else {
                spec_arr_items(s, j, Seq::empty())
            }
        } else if c == '{' {
            let j = spec_skip_ws(s, i + 1);
            if j < s.len() && s[j] == '}' {
                Some((JsonV::Obj(Seq::empty()), j + 1))
            } else {
                spec_obj_fields(s, j, Seq::empty())
            }
        } else {
            None
        }
    }
}

/// The remaining elements of an array whose first unread element starts at
/// `j`, the elements before it already in `acc`.
pub open spec fn spec_arr_items(s: Seq<char>, j: int, acc: Seq<JsonV>) -> Option<(JsonV, int)>
    decreases s.len() - j, 2int,
{
    if !(0 <= j < s.len()) {
        None
    } else {
    match spec_parse_value(s, j) {
        None => None,
        Some((v, j2)) => {
            let j3 = spec_skip_ws(s, j2);
            if j3 >= s.len() {
                None
            } else if s[j3] == ']' {
                Some((JsonV::Arr(acc.push(v)), j3 + 1))
            } else if s[j3] != ',' {
                None
            } else {
                let jn = spec_skip_ws(s, j3 + 1);
                spec_arr_items(s, if jn > j { jn } else { j + 1 }, acc.push(v))
            }
        },
    }
    }
}

/// The remaining fields of an object whose first unread key starts at `j`.
pub open spec fn spec_obj_fields(
    s: Seq<char>,
    j: int,
    acc: Seq<(Seq<char>, JsonV)>,
) -> Option<(JsonV, int)>
    decreases s.len() - j, 2int,
{
    if !(0 <= j < s.len()) {
        None
    } else {
    match spec_parse_string(s, j) {
        None => None,
        Some((key, j2)) => {
            let j3 = spec_skip_ws(s, j2);
            if j3 >= s.len() || s[j3] != ':' {
                None
            } else {
                let j4 = spec_skip_ws(s, j3 + 1);
                match spec_parse_value(s, if j4 > j { j4 } else { j + 1 }) {
                    None => None,
                    Some((v, j5)) => {
                        let j6 = spec_skip_ws(s, j5);
                        if j6 >= s.len() {
                            None
                        } else if s[j6] == '}' {
                            Some((JsonV::Obj(acc.push((key, v))), j6 + 1))
                        } else if s[j6] != ',' {
                            None
                        } else {
                            let jn = spec_skip_ws(s, j6 + 1);
                            spec_obj_fields(s, if jn > j { jn } else { j + 1 }, acc.push((key, v)))
                        }
                    },
                }
            }
        },
    }
    }
}

/// The whole document: one value between nothing but whitespace.
pub open spec fn spec_parse(s: Seq<char>) -> Option<JsonV> {
    let i = spec_skip_ws(s, 0);
    match spec_parse_value(s, i) {
        Some((v, j)) => if spec_skip_ws(s, j) == s.len() {
            Some(v)
        } else {
            None
        },
        None => None,
    }
}

fn is_digit(c: char) -> (r: bool)
    ensures
        r == spec_is_digit(c),
{
    let u = c as u32;
    48 <= u && u <= 57
}

fn skip_ws(s: &str, n: usize, i: usize) -> (j: usize)
    requires
        n == s@.len(),
        i <= n,
    ensures
        i <= j <= n,
        j == spec_skip_ws(s@, i as int),
{
    let mut j = i;
    while j < n
        invariant
            i <= j <= n,
            n == s@.len(),
            spec_skip_ws(s@, i as int) == spec_skip_ws(s@, j as int),
        decreases n - j,
    {
        let c = s.get_char(j);
        if c == ' ' || c == '\t' || c == '\n' || c == '\r' {
            proof {
                assert(spec_ws_run(s@, j as int) == 1 + spec_ws_run(s@, j + 1 as int));
            }
            j += 1;
        } else {
            proof {
                assert(spec_ws_run(s@, j as int) == 0);
            }
            return j;
        }
    }
    proof {
        assert(spec_ws_run(s@, j as int) == 0);
    }
    j
}

fn hex_val(c: char) -> (r: Option<u32>)
    ensures
        r == spec_hex_val(c),
        r matches Some(h) ==> h < 16,
{
    let u = c as u32;
    if 48 <= u && u <= 57 {
        Some(u - 48)
    } else if 97 <= u && u <= 102 {
        Some(u - 87)
    } else if 65 <= u && u <= 70 {
        Some(u - 55)
    } else {
        None
    }
}

fn control_str(code: u32) -> (r: &'static str)
    requires
        code < 32,
    ensures
        r@ == seq![spec_control_char(code as int)],
{
    proof {
        reveal_strlit("\u{0}");
        reveal_strlit("\u{1}");
        reveal_strlit("\u{2}");
        reveal_strlit("\u{3}");
        reveal_strlit("\u{4}");
        reveal_strlit("\u{5}");
        reveal_strlit("\u{6}");
        reveal_strlit("\u{7}");
        reveal_strlit("\u{8}");
        reveal_strlit("\u{9}");
        reveal_strlit("\u{a}");
        reveal_strlit("\u{b}");
        reveal_strlit("\u{c}");
        reveal_strlit("\u{d}");
        reveal_strlit("\u{e}");
        reveal_strlit("\u{f}");
        reveal_strlit("\u{10}");
        reveal_strlit("\u{11}");
        reveal_strlit("\u{12}");
        reveal_strlit("\u{13}");
        reveal_strlit("\u{14}");
        reveal_strlit("\u{15}");
        reveal_strlit("\u{16}");
        reveal_strlit("\u{17}");
        reveal_strlit("\u{18}");
        reveal_strlit("\u{19}");
        reveal_strlit("\u{1a}");
        reveal_strlit("\u{1b}");
        reveal_strlit("\u{1c}");
        reveal_strlit("\u{1d}");
        reveal_strlit("\u{1e}");
        reveal_strlit("\u{1f}");
    }
    let r = if code == 0 { "\u{0}" }
    else if code == 1 { "\u{1}" }
    else if code == 2 { "\u{2}" }
    else if code == 3 { "\u{3}" }
    else if code == 4 { "\u{4}" }
    else if code == 5 { "\u{5}" }
    else if code == 6 { "\u{6}" }
    else if code == 7 { "\u{7}" }
    else if code == 8 { "\u{8}" }
    else if code == 9 { "\u{9}" }
    else if code == 10 { "\u{a}" }
    else if code == 11 { "\u{b}" }
    else if code == 12 { "\u{c}" }
    else if code == 13 { "\u{d}" }
    else if code == 14 { "\u{e}" }
    else if code == 15 { "\u{f}" }
    else if code == 16 { "\u{10}" }
    else if code == 17 { "\u{11}" }
    else if code == 18 { "\u{12}" }
    else if code == 19 { "\u{13}" }
    else if code == 20 { "\u{14}" }
    else if code == 21 { "\u{15}" }
    else if code == 22 { "\u{16}" }
    else if code == 23 { "\u{17}" }
    else if code == 24 { "\u{18}" }
    else if code == 25 { "\u{19}" }
    else if code == 26 { "\u{1a}" }
    else if code == 27 { "\u{1b}" }
    else if code == 28 { "\u{1c}" }
    else if code == 29 { "\u{1d}" }
    else if code == 30 { "\u{1e}" }
    else { "\u{1f}" };
    proof {
        assert(r@ =~= seq![spec_control_char(code as int)]);
    }
    r
}

/// Reads a quoted string starting at `i`, exactly `spec_parse_string`.
/// `\u` escapes are read only for control characters — the form the
/// serializer writes; any other `\u` escape is reported as malformed.
fn parse_string(s: &str, n: usize, i: usize) -> (r: Option<(String, usize)>)
    requires
        n == s@.len(),
        i <= n,
    ensures
        match r {
            Some((out, j)) => i < j <= n && spec_parse_string(s@, i as int) == Some(
                (out@, j as int),
            ),
            None => spec_parse_string(s@, i as int) is None,
        },
{
    if i >= n || s.get_char(i) != '"' {
        return None;
    }
    let mut out = String::new();
    let mut j = i + 1;
    proof {
        assert(out@ =~= Seq::<char>::empty());
    }
    while j < n
        invariant
            i < j <= n,
            n == s@.len(),
            spec_parse_string(s@, i as int) == spec_str_body(s@, j as int, out@),
        decreases n - j,
    {
        let c = s.get_char(j);
        if c == '"' {
            return Some((out, j + 1));
        } else if c == '\\' {
            if j + 1 >= n {
                return None;
            }
            let e = s.get_char(j + 1);
            let ghost prev = out@;
            if e == '"' {
                out.append("\"");
                proof {
                    reveal_strlit("\"");
                    assert(out@ =~= prev.push('"'));
                }
            } else if e == '\\' {
                out.append("\\");
                proof {
                    reveal_strlit("\\");
                    assert(out@ =~= prev.push('\\'));
                }
            } else if e == '/' {
                out.append("/");
                proof {
                    reveal_strlit("/");
                    assert(out@ =~= prev.push('/'));
                }
            } else if e == 'n' {
                out.append("\n");
                proof {
                    reveal_strlit("\n");
                    assert(out@ =~= prev.push('\n'));
                }
            } else if e == 'r' {
                out.append("\r");
                proof {
                    reveal_strlit("\r");
                    assert(out@ =~= prev.push('\r'));
                }
            } else if e == 't' {
                out.append("\t");
                proof {
                    reveal_strlit("\t");
                    assert(out@ =~= prev.push('\t'));
                }
            } else if e == 'b' {
                out.append("\u{0008}");
                proof {
                    reveal_strlit("\u{0008}");
                    assert(out@ =~= prev.push('\u{0008}'));
                }
            } else if e == 'f' {
                out.append("\u{000c}");
                proof {
                    reveal_strlit("\u{000c}");
                    assert(out@ =~= prev.push('\u{000c}'));
                }
            } else if e == 'u' {
                if n - j < 6 {
                    return None;
                }
                let h0 = match hex_val(s.get_char(j + 2)) {
                    Some(h) => h,
                    None => { return None; },
                };
                let h1 = match hex_val(s.get_char(j + 3)) {
                    Some(h) => h,
                    None => { return None; },
                };
                let h2 = match hex_val(s.get_char(j + 4)) {
                    Some(h) => h,
                    None => { return None; },
                };
                let h3 = match hex_val(s.get_char(j + 5)) {
                    Some(h) => h,
                    None => { return None; },
                };
                let code = h0 * 4096 + h1 * 256 + h2 * 16 + h3;
                if code >= 32 {
                    return None;
                }
                out.append(control_str(code));
                proof {
                    assert(out@ =~= prev.push(spec_control_char(code as int)));
                }
                j += 6;
                continue;
            } else {
                return None;
            }
            j += 2;
        } else {
            let ghost prev = out@;
            out.append(s.substring_char(j, j + 1));
            proof {
                assert(s@.subrange(j as int, j + 1 as int) =~= seq![s@[j as int]]);
                assert(out@ =~= prev.push(s@[j as int]));
            }
            j += 1;
        }
    }
    None
}

/// Reads a decimal number starting at `i`, exactly `spec_parse_number`: an
/// optional sign, digits with no leading zero, and an optional fraction. A
/// mantissa beyond `u64` is reported as malformed.
fn parse_number(s: &str, n: usize, i: usize) -> (r: Option<(JsonNum, usize)>)
    requires
        n == s@.len(),
        i <= n,
    ensures
        match r {
            Some((num, j)) => i < j <= n && spec_parse_number(s@, i as int) == Some(
                (num, j as int),
            ),
            None => spec_parse_number(s@, i as int) is None,
        },
{
    if i >= n {
        return None;
    }
    let mut j = i;
    let mut neg = false;
    if s.get_char(j) == '-' {
        neg = true;
        j += 1;
    }
    if j >= n || !is_digit(s.get_char(j)) {
        return None;
    }
    if s.get_char(j) == '0' && j + 1 < n && is_digit(s.get_char(j + 1)) {
        return None;
    }
    let mut mantissa: u64 = (s.get_char(j) as u32 - 48) as u64;
    let ghost jd = j + 1 as int;
    let ghost m0 = mantissa;
    proof {
        assert(spec_digits_int(s@, jd, m0) is None ==> spec_parse_number(s@, i as int) is None);
    }
    j += 1;
    while j < n && is_digit(s.get_char(j))
        invariant
            i < j <= n,
            n == s@.len(),
            spec_digits_int(s@, jd, m0) == spec_digits_int(s@, j as int, mantissa),
            spec_digits_int(s@, jd, m0) is None ==> spec_parse_number(s@, i as int) is None,
        decreases n - j,
    {
        let d = (s.get_char(j) as u32 - 48) as u64;
        let grown = match mantissa.checked_mul(10) {
            Some(m) => match m.checked_add(d) {
                Some(m2) => m2,
                None => {
                    proof {
                        assert(spec_digits_int(s@, j as int, mantissa) is None);
                    }
                    return None;
                },
            },
            None => {
                proof {
                    assert(spec_digits_int(s@, j as int, mantissa) is None);
                }
                return None;
            },
        };
        proof {
            assert(spec_digits_int(s@, j as int, mantissa) == spec_digits_int(
                s@,
                j + 1 as int,
                grown,
            ));
        }
        mantissa = grown;
        j += 1;
    }
    proof {
        assert(spec_digits_int(s@, jd, m0) == Some((mantissa, j as int)));
    }
    let mut scale: u32 = 0;
    if j < n && s.get_char(j) == '.' {
        j += 1;
        if j >= n || !is_digit(s.get_char(j)) {
            return None;
        }
        let ghost jf = j as int;
        let ghost mf = mantissa;
        proof {
            assert(spec_digits_frac(s@, jf, mf, 0) is None ==> spec_parse_number(
                s@,
                i as int,
            ) is None);
        }
        while j < n && is_digit(s.get_char(j))
            invariant
                i < j <= n,
                n == s@.len(),
                spec_digits_frac(s@, jf, mf, 0) == spec_digits_frac(
                    s@,
                    j as int,
                    mantissa,
                    scale,
                ),
                spec_digits_frac(s@, jf, mf, 0) is None ==> spec_parse_number(
                    s@,
                    i as int,
                ) is None,
            decreases n - j,
        {
            let d = (s.get_char(j) as u32 - 48) as u64;
            let grown = match mantissa.checked_mul(10) {
                Some(m) => match m.checked_add(d) {
                    Some(m2) => m2,
                    None => {
                        proof {
                            assert(spec_digits_frac(s@, j as int, mantissa, scale) is None);
                        }
                        return None;
                    },
                },
                None => {
                    proof {
                        assert(spec_digits_frac(s@, j as int, mantissa, scale) is None);
                    }
                    return None;
                },
            };
            let deeper = match scale.checked_add(1) {
                Some(sc) => sc,
                None => {
                    proof {
                        assert(spec_digits_frac(s@, j as int, mantissa, scale) is None);
                    }
                    return None;
                },
            };
            proof {
                assert(spec_digits_frac(s@, j as int, mantissa, scale) == spec_digits_frac(
                    s@,
                    j + 1 as int,
                    grown,
                    deeper,
                ));
            }
            mantissa = grown;
            scale = deeper;
            j += 1;
        }
        proof {
            assert(spec_digits_frac(s@, jf, mf, 0) == Some((mantissa, scale, j as int)));
        }
    }
    Some((JsonNum { neg, mantissa, scale }, j))
}

fn expect_word(s: &str, n: usize, i: usize, rest: &str) -> (r: Option<usize>)
    requires
        n == s@.len(),
        i <= n,
    ensures
        r matches Some(j) ==> j == i + rest@.len() && j <= n && s@.subrange(
            i as int,
            i + rest@.len(),
        ) == rest@,
        r is None ==> !(i + rest@.len() <= n && s@.subrange(i as int, i + rest@.len()) == rest@),
{
    let m = rest.unicode_len();
    if n - i < m {
        return None;
    }
    let mut k: usize = 0;
    while k < m
        invariant
            k <= m,
            m == rest@.len(),
            n == s@.len(),
            i <= n,
            n - i >= m,
            forall|t: int| 0 <= t < k ==> s@[i + t] == rest@[t],
        decreases m - k,
    {
        if s.get_char(i + k) != rest.get_char(k) {
            proof {
                if i + rest@.len() <= n && s@.subrange(i as int, i + rest@.len()) == rest@ {
                    assert(s@.subrange(i as int, i + rest@.len())[k as int] == rest@[k as int]);
                }
            }
            return None;
        }
        k += 1;
    }
    proof {
        assert(s@.subrange(i as int, i + rest@.len()) =~= rest@);
    }
    Some(i + m)
}

/// Reads one value starting at `i`, exactly `spec_parse_value` on the view.
/// Success consumes at least one character and never runs past the end;
/// failure reports malformed input. The parser is total: no input makes it
/// panic or loop.
fn parse_value(s: &str, n: usize, i: usize) -> (r: Option<(JsonValue, usize)>)
    requires
        n == s@.len(),
        i <= n,
    ensures
        match r {
            Some((v, j)) => i < j <= n && spec_parse_value(s@, i as int) == Some((v@, j as int)),
            None => spec_parse_value(s@, i as int) is None,
        },
    decreases n - i,
{
    broadcast use lemma_jview_seq_index, lemma_jview_seq_len, lemma_jview_fields_index, lemma_jview_fields_len;

    if i >= n {
        return None;
    }
    let c = s.get_char(i);
    if c == 'n' {
        proof {
            reveal_strlit("ull");
            assert("ull"@ =~= seq!['u', 'l', 'l']);
        }
        match expect_word(s, n, i + 1, "ull") {
            Some(j) => Some((JsonValue::Null, j)),
            None => None,
        }
    } else if c == 't' {
        proof {
            reveal_strlit("rue");
            assert("rue"@ =~= seq!['r', 'u', 'e']);
        }
        match expect_word(s, n, i + 1, "rue") {
            Some(j) => Some((JsonValue::Bool(true), j)),
            None => None,
        }
    } else if c == 'f' {
        proof {
            reveal_strlit("alse");
            assert("alse"@ =~= seq!['a', 'l', 's', 'e']);
        }
        match expect_word(s, n, i + 1, "alse") {
            Some(j) => Some((JsonValue::Bool(false), j)),
            None => None,
        }
    } else if c == '"' {
        match parse_string(s, n, i) {
            Some((v, j)) => Some((JsonValue::Str(v), j)),
            None => None,
        }
    } else if c == '-' || is_digit(c) {
        match parse_number(s, n, i) {
            Some((v, j)) => Some((JsonValue::Num(v), j)),
            None => None,
        }
    } else if c == '[' {
        let mut j = skip_ws(s, n, i + 1);
        if j < n && s.get_char(j) == ']' {
            let empty: Vec<JsonValue> = Vec::new();
            proof {
                assert(jview_seq(empty@) =~= Seq::<JsonV>::empty());
            }
            return Some((JsonValue::Arr(empty), j + 1));
        }
        let mut items: Vec<JsonValue> = Vec::new();
        proof {
            assert(jview_seq(items@) =~= Seq::<JsonV>::empty());
        }
        loop
            invariant
                i < j <= n,
                n == s@.len(),
                spec_parse_value(s@, i as int) == spec_arr_items(s@, j as int, jview_seq(items@)),
            decreases n - j,
        {
            let (v, j2) = match parse_value(s, n, j) {
                Some(p) => p,
                None => { return None; },
            };
            let ghost prev = items@;
            items.push(v);
            proof {
                assert(items@.drop_last() =~= prev);
                assert(jview_seq(items@) =~= jview_seq(prev).push(v@));
            }
            let j3 = skip_ws(s, n, j2);
            if j3 >= n {
                return None;
            }
            let c2 = s.get_char(j3);
            if c2 == ']' {
                return Some((JsonValue::Arr(items), j3 + 1));
            }
            if c2 != ',' {
                return None;
            }
            let jn = skip_ws(s, n, j3 + 1);
            proof {
                assert(jn > j);
            }
            j = jn;
        }
    } else if c == '{' {
        let mut j = skip_ws(s, n, i + 1);
        if j < n && s.get_char(j) == '}' {
            let empty: Vec<(String, JsonValue)> = Vec::new();
            proof {
                assert(jview_fields(empty@) =~= Seq::<(Seq<char>, JsonV)>::empty());
            }
            return Some((JsonValue::Obj(empty), j + 1));
        }
        let mut fields: Vec<(String, JsonValue)> = Vec::new();
        proof {
            assert(jview_fields(fields@) =~= Seq::<(Seq<char>, JsonV)>::empty());
        }
        loop
            invariant
                i < j <= n,
                n == s@.len(),
                spec_parse_value(s@, i as int) == spec_obj_fields(
                    s@,
                    j as int,
                    jview_fields(fields@),
                ),
            decreases n - j,
        {
            let (key, j2) = match parse_string(s, n, j) {
                Some(p) => p,
                None => { return None; },
            };
            let j3 = skip_ws(s, n, j2);
            if j3 >= n || s.get_char(j3) != ':' {
                return None;
            }
            let j4 = skip_ws(s, n, j3 + 1);
            proof {
                assert(j4 > j);
            }
            let (v, j5) = match parse_value(s, n, j4) {
                Some(p) => p,
                None => { return None; },
            };
            let ghost prev = fields@;
            let ghost gkey = key@;
            fields.push((key, v));
            proof {
                assert(fields@.drop_last() =~= prev);
                assert(jview_fields(fields@) =~= jview_fields(prev).push((gkey, v@)));
            }
            let j6 = skip_ws(s, n, j5);
            if j6 >= n {
                return None;
            }
            let c2 = s.get_char(j6);
            if c2 == '}' {
                return Some((JsonValue::Obj(fields), j6 + 1));
            }
            if c2 != ',' {
                return None;
            }
            let jn = skip_ws(s, n, j6 + 1);
            proof {
                assert(jn > j);
            }
            j = jn;
        }
    } else {
        None
    }
}

/// Parses one whole document, exactly `spec_parse` on the view: one value,
/// with nothing but whitespace around it. Total on every input: malformed
/// text yields `None`, never a panic — the decoder's guarantee that one bad
/// line cannot take the process down.
pub fn parse_json(s: &str) -> (r: Option<JsonValue>)
    ensures
        match r {
            Some(v) => spec_parse(s@) == Some(v@),
            None => spec_parse(s@) is None,
        },
{
    let n = s.unicode_len();
    let i = skip_ws(s, n, 0);
    match parse_value(s, n, i) {
        Some((v, j)) => {
            let k = skip_ws(s, n, j);
            if k == n {
                Some(v)
            } else {
                None
            }
        },
        None => None,
    }
}

/// The value under `key`, resolved by first occurrence.
pub open spec fn spec_obj_lookup(o: Seq<(Seq<char>, JsonV)>, key: Seq<char>) -> Option<JsonV>
    decreases o.len(),
{
    if o.len() == 0 {
        None
    } else if o[0].0 == key {
        Some(o[0].1)
    } else {
        spec_obj_lookup(o.drop_first(), key)
    }
}

proof fn lemma_obj_lookup_skip(o: Seq<(Seq<char>, JsonV)>, key: Seq<char>, i: int)
    requires
        0 <= i < o.len(),
        o.skip(i)[0].0 != key,
    ensures
        spec_obj_lookup(o.skip(i), key) == spec_obj_lookup(o.skip(i + 1), key),
{
    assert(o.skip(i).drop_first() =~= o.skip(i + 1));
}

/// Finds the first field named `key`, exactly `spec_obj_lookup` on the view.
pub fn obj_get<'a>(o: &'a Vec<(String, JsonValue)>, key: &str) -> (r: Option<&'a JsonValue>)
    ensures
        match r {
            Some(v) => spec_obj_lookup(jview_fields(o@), key@) == Some(v@),
            None => spec_obj_lookup(jview_fields(o@), key@) is None,
        },
{
    broadcast use lemma_jview_fields_index, lemma_jview_fields_len;

    let ghost vo = jview_fields(o@);
    let mut i: usize = 0;
    proof {
        assert(vo.skip(0) =~= vo);
    }
    while i < o.len()
        invariant
            i <= o@.len(),
            vo == jview_fields(o@),
            vo.len() == o@.len(),
            spec_obj_lookup(vo, key@) == spec_obj_lookup(vo.skip(i as int), key@),
        decreases o@.len() - i,
    {
        proof {
            lemma_jview_fields_index(o@, i as int);
            assert(vo.skip(i as int)[0] == vo[i as int]);
        }
        if str_eq(o[i].0.as_str(), key) {
            return Some(&o[i].1);
        }
        proof {
            lemma_obj_lookup_skip(vo, key@, i as int);
        }
        i += 1;
    }
    proof {
        assert(vo.skip(i as int) =~= Seq::<(Seq<char>, JsonV)>::empty());
    }
    None
}

pub open spec fn spec_as_str(v: JsonV) -> Option<Seq<char>> {
    match v {
        JsonV::Str(s) => Some(s),
        _ => None,
    }
}

pub open spec fn spec_as_bool(v: JsonV) -> Option<bool> {
    match v {
        JsonV::Bool(b) => Some(b),
        _ => None,
    }
}

/// A number read back as an unsigned integer: no sign, no fractional digits.
pub open spec fn spec_as_u64(v: JsonV) -> Option<u64> {
    match v {
        JsonV::Num(n) => if !n.neg && n.scale == 0 {
            Some(n.mantissa)
        } else {
            None
        },
        _ => None,
    }
}

impl JsonValue {
    /// The string behind `Str`, exactly `spec_as_str` on the view.
    pub fn as_str(&self) -> (r: Option<&String>)
        ensures
            match r {
                Some(s) => spec_as_str(self@) == Some(s@),
                None => spec_as_str(self@) is None,
            },
    {
        match self {
            JsonValue::Str(s) => Some(s),
            _ => None,
        }
    }

    /// The boolean behind `Bool`, exactly `spec_as_bool` on the view.
    pub fn as_bool(&self) -> (r: Option<bool>)
        ensures
            r == spec_as_bool(self@),
    {
        match self {
            JsonValue::Bool(b) => Some(*b),
            _ => None,
        }
    }

    /// The integer behind `Num`, exactly `spec_as_u64` on the view.
    pub fn as_u64(&self) -> (r: Option<u64>)
        ensures
            r == spec_as_u64(self@),
    {
        match self {
            JsonValue::Num(n) => if !n.neg && n.scale == 0 {
                Some(n.mantissa)
            } else {
                None
            },
            _ => None,
        }
    }

    pub fn as_arr(&self) -> (r: Option<&Vec<JsonValue>>)
        ensures
            match r {
                Some(a) => self@ == JsonV::Arr(jview_seq(a@)),
                None => !(self@ is Arr),
            },
    {
        match self {
            JsonValue::Arr(a) => Some(a),
            _ => None,
        }
    }

    pub fn as_obj(&self) -> (r: Option<&Vec<(String, JsonValue)>>)
        ensures
            match r {
                Some(o) => self@ == JsonV::Obj(jview_fields(o@)),
                None => !(self@ is Obj),
            },
    {
        match self {
            JsonValue::Obj(o) => Some(o),
            _ => None,
        }
    }

    pub fn is_null(&self) -> (r: bool)
        ensures
            r == (self@ is Null),
    {
        match self {
            JsonValue::Null => true,
            _ => false,
        }
    }
}

/// A deep copy whose view equals the original's.
pub fn clone_json(v: &JsonValue) -> (r: JsonValue)
    ensures
        r@ == v@,
    decreases *v,
{
    broadcast use lemma_jview_seq_index, lemma_jview_seq_len, lemma_jview_fields_index, lemma_jview_fields_len;

    match v {
        JsonValue::Null => JsonValue::Null,
        JsonValue::Bool(b) => JsonValue::Bool(*b),
        JsonValue::Num(n) => JsonValue::Num(*n),
        JsonValue::Str(s) => JsonValue::Str(s.clone()),
        JsonValue::Arr(a) => {
            let mut out: Vec<JsonValue> = Vec::new();
            let mut j: usize = 0;
            while j < a.len()
                invariant
                    j <= a@.len(),
                    *v == JsonValue::Arr(*a),
                    jview_seq(out@) =~= jview_seq(a@).take(j as int),
                decreases a@.len() - j,
            {
                proof {
                    vstd::std_specs::vec::axiom_vec_index_decreases(*a, j as int);
                    assert(decreases_to!(*v => v->Arr_0));
                    assert(v->Arr_0 == *a);
                    assert(decreases_to!(*v => a@[j as int]));
                }
                let c = clone_json(&a[j]);
                let ghost prev = out@;
                out.push(c);
                proof {
                    lemma_jview_seq_index(a@, j as int);
                    assert(out@.drop_last() =~= prev);
                    assert(jview_seq(out@) == jview_seq(out@.drop_last()).push(jview(out@.last())));
                    assert(jview_seq(out@.drop_last()) == jview_seq(prev));
                    assert(jview_seq(out@) =~= jview_seq(a@).take(j + 1 as int));
                }
                j += 1;
            }
            proof {
                assert(jview_seq(a@).take(a@.len() as int) =~= jview_seq(a@));
            }
            JsonValue::Arr(out)
        },
        JsonValue::Obj(o) => {
            let mut out: Vec<(String, JsonValue)> = Vec::new();
            let mut j: usize = 0;
            while j < o.len()
                invariant
                    j <= o@.len(),
                    *v == JsonValue::Obj(*o),
                    jview_fields(out@) =~= jview_fields(o@).take(j as int),
                decreases o@.len() - j,
            {
                proof {
                    vstd::std_specs::vec::axiom_vec_index_decreases(*o, j as int);
                    assert(decreases_to!(*v => v->Obj_0));
                    assert(v->Obj_0 == *o);
                    assert(decreases_to!(o@[j as int] => o@[j as int].1));
                    assert(decreases_to!(*v => o@[j as int].1));
                }
                let c = clone_json(&o[j].1);
                let k = o[j].0.clone();
                let ghost prev = out@;
                out.push((k, c));
                proof {
                    lemma_jview_fields_index(o@, j as int);
                    assert(out@.drop_last() =~= prev);
                    assert(jview_fields(out@) == jview_fields(out@.drop_last()).push(
                        (out@.last().0@, jview(out@.last().1)),
                    ));
                    assert(jview_fields(out@.drop_last()) == jview_fields(prev));
                    assert(jview_fields(out@) =~= jview_fields(o@).take(j + 1 as int));
                }
                j += 1;
            }
            proof {
                assert(jview_fields(o@).take(o@.len() as int) =~= jview_fields(o@));
            }
            JsonValue::Obj(out)
        },
    }
}

} // verus!
