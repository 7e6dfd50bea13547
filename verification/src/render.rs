//! Rendering outbound responses as JSON text.
//!
//! Every command produces exactly one JSON object. A response is held as an
//! ordered list of fields whose values are strings, booleans, string lists,
//! or raw passthrough JSON (a backend body forwarded untouched); rendering
//! it is a pure function of that structure, pinned down character by
//! character.

use vstd::prelude::*;

use crate::align::NamedTensor;
use crate::integrity::spec_hex_char;
use crate::tensor::TensorData;

verus! {

/// One field value of a response object.
#[derive(Clone, Debug)]
pub enum RespValue {
    /// A JSON string (escaped when rendered).
    Str(String),
    /// A JSON boolean.
    Bool(bool),
    /// A list of JSON strings.
    StrList(Vec<String>),
    /// Already-serialized JSON, embedded as it stands.
    Raw(String),
}

/// A response: one JSON object with ordered fields.
#[derive(Clone, Debug)]
pub struct Response {
    pub fields: Vec<(String, RespValue)>,
}

/// How one character appears inside a JSON string literal.
pub open spec fn spec_escape_char(c: char) -> Seq<char> {
    if c == '"' {
        seq!['\\', '"']
    } else if c == '\\' {
        seq!['\\', '\\']
    } else if c == '\n' {
        seq!['\\', 'n']
    } else if c == '\r' {
        seq!['\\', 'r']
    } else if c == '\t' {
        seq!['\\', 't']
    } else if (c as u32) < 32 {
        seq!['\\', 'u', '0', '0', spec_hex_char((c as u32 / 16) as u8), spec_hex_char(
            (c as u32 % 16) as u8,
        )]
    } else {
        seq![c]
    }
}

/// A string's characters, each escaped.
pub open spec fn spec_escape(s: Seq<char>) -> Seq<char>
    decreases s.len(),
{
    if s.len() == 0 {
        Seq::empty()
    } else {
        spec_escape(s.drop_last()) + spec_escape_char(s.last())
    }
}

/// A quoted, escaped JSON string literal.
pub open spec fn spec_quote(s: Seq<char>) -> Seq<char> {
    seq!['"'] + spec_escape(s) + seq!['"']
}

/// The rendering of one field value.
pub open spec fn spec_render_value(v: RespValue) -> Seq<char>
    decreases v,
{
    match v {
        RespValue::Str(s) => spec_quote(s@),
        RespValue::Bool(b) => if b {
            "true"@
        } else {
            "false"@
        },
        RespValue::StrList(items) => seq!['['] + spec_render_items(items@, items@.len() as int)
            + seq![']'],
        RespValue::Raw(s) => s@,
    }
}

/// The first `k` list items, quoted and comma-separated.
pub open spec fn spec_render_items(items: Seq<String>, k: int) -> Seq<char>
    decreases k,
{
    if k <= 0 {
        Seq::empty()
    } else if k == 1 {
        spec_quote(items[0]@)
    } else {
        spec_render_items(items, k - 1) + seq![','] + spec_quote(items[k - 1]@)
    }
}

/// The first `k` fields, rendered and comma-separated.
pub open spec fn spec_render_fields(fields: Seq<(String, RespValue)>, k: int) -> Seq<char>
    decreases k,
{
    if k <= 0 {
        Seq::empty()
    } else if k == 1 {
        spec_quote(fields[0].0@) + seq![':'] + spec_render_value(fields[0].1)
    } else {
        spec_render_fields(fields, k - 1) + seq![','] + spec_quote(fields[k - 1].0@) + seq![':']
            + spec_render_value(fields[k - 1].1)
    }
}

/// The whole response object.
pub open spec fn spec_render(r: Response) -> Seq<char> {
    seq!['{'] + spec_render_fields(r.fields@, r.fields@.len() as int) + seq!['}']
}

/// The decimal digits of `n`, most significant first.
pub open spec fn spec_dec_digits(n: nat) -> Seq<char>
    decreases n,
{
    if n < 10 {
        seq![spec_hex_char(n as u8)]
    } else {
        spec_dec_digits(n / 10) + seq![spec_hex_char((n % 10) as u8)]
    }
}

/// Append the hex digit character for `d` (`d < 16`).
fn append_hex_digit(out: &mut String, d: u8)
    requires
        d < 16,
    ensures
        final(out)@ == old(out)@ + seq![spec_hex_char(d)],
{
    let digits = "0123456789abcdef";
    proof {
        reveal_strlit("0123456789abcdef");
        assert(digits@[d as int] == spec_hex_char(d));
    }
    let one = digits.substring_char(d as usize, d as usize + 1);
    proof {
        assert(one@ =~= seq![spec_hex_char(d)]);
    }
    out.append(one);
}

/// Append the decimal rendering of `n`.
pub fn append_u64(out: &mut String, n: u64)
    ensures
        final(out)@ == old(out)@ + spec_dec_digits(n as nat),
{
    // Digit values, least significant first.
    let mut digits: Vec<u8> = Vec::new();
    let mut m: u64 = n;
    while m >= 10
        invariant
            spec_dec_digits(n as nat) == spec_dec_digits(m as nat) + Seq::new(
                digits@.len(),
                |i: int| spec_hex_char(digits@[digits@.len() - 1 - i]),
            ),
            forall|i: int| 0 <= i < digits@.len() ==> digits@[i] < 10,
        decreases m,
    {
        let d = (m % 10) as u8;
        let ghost pre = digits@;
        digits.push(d);
        m = m / 10;
        proof {
            assert(Seq::new(
                digits@.len(),
                |i: int| spec_hex_char(digits@[digits@.len() - 1 - i]),
            ) =~= seq![spec_hex_char(d)] + Seq::new(
                pre.len(),
                |i: int| spec_hex_char(pre[pre.len() - 1 - i]),
            ));
        }
    }
    let d = m as u8;
    let ghost pre = digits@;
    digits.push(d);
    proof {
        assert(Seq::new(
            digits@.len(),
            |i: int| spec_hex_char(digits@[digits@.len() - 1 - i]),
        ) =~= seq![spec_hex_char(d)] + Seq::new(
            pre.len(),
            |i: int| spec_hex_char(pre[pre.len() - 1 - i]),
        ));
        assert(spec_dec_digits(m as nat) =~= seq![spec_hex_char(d)]);
        assert(spec_dec_digits(n as nat) =~= Seq::new(
            digits@.len(),
            |i: int| spec_hex_char(digits@[digits@.len() - 1 - i]),
        ));
    }
    // Emit most significant first.
    let mut k: usize = digits.len();
    while k > 0
        invariant
            k <= digits@.len(),
            forall|i: int| 0 <= i < digits@.len() ==> digits@[i] < 10,
            spec_dec_digits(n as nat) == Seq::new(
                digits@.len(),
                |i: int| spec_hex_char(digits@[digits@.len() - 1 - i]),
            ),
            out@ == old(out)@ + spec_dec_digits(n as nat).take(digits@.len() - k),
        decreases k,
    {
        k = k - 1;
        append_hex_digit(out, digits[k]);
        proof {
            assert(out@ =~= old(out)@ + spec_dec_digits(n as nat).take(digits@.len() - k));
        }
    }
    proof {
        assert(spec_dec_digits(n as nat).take(digits@.len() as int) =~= spec_dec_digits(n as nat));
    }
}

/// Append `s` with JSON string escaping.
fn append_escaped(out: &mut String, s: &str)
    ensures
        final(out)@ == old(out)@ + spec_escape(s@),
{
    let n = s.unicode_len();
    let mut i: usize = 0;
    proof {
        assert(spec_escape(s@.take(0)) =~= Seq::<char>::empty());
        assert(out@ =~= old(out)@ + spec_escape(s@.take(0)));
    }
    while i < n
        invariant
            n == s@.len(),
            i <= n,
            out@ == old(out)@ + spec_escape(s@.take(i as int)),
        decreases n - i,
    {
        let c = s.get_char(i);
        proof {
            assert(s@.take(i + 1).drop_last() =~= s@.take(i as int));
            assert(s@.take(i + 1).last() == s@[i as int]);
        }
        if c == '"' {
            out.append("\\\"");
            proof {
                reveal_strlit("\\\"");
                assert(("\\\"")@ =~= spec_escape_char(c));
            }
        } else if c == '\\' {
            out.append("\\\\");
            proof {
                reveal_strlit("\\\\");
                assert(("\\\\")@ =~= spec_escape_char(c));
            }
        } else if c == '\n' {
            out.append("\\n");
            proof {
                reveal_strlit("\\n");
                assert(("\\n")@ =~= spec_escape_char(c));
            }
        } else if c == '\r' {
            out.append("\\r");
            proof {
                reveal_strlit("\\r");
                assert(("\\r")@ =~= spec_escape_char(c));
            }
        } else if c == '\t' {
            out.append("\\t");
            proof {
                reveal_strlit("\\t");
                assert(("\\t")@ =~= spec_escape_char(c));
            }
        } else if (c as u32) < 32 {
            out.append("\\u00");
            let hi = ((c as u32) / 16) as u8;
            let lo = ((c as u32) % 16) as u8;
            append_hex_digit(out, hi);
            append_hex_digit(out, lo);
            proof {
                reveal_strlit("\\u00");
                assert(("\\u00")@ + seq![spec_hex_char(hi)] + seq![spec_hex_char(lo)]
                    =~= spec_escape_char(c));
            }
        } else {
            let one = s.substring_char(i, i + 1);
            out.append(one);
            proof {
                assert(one@ =~= spec_escape_char(c));
            }
        }
        proof {
            assert(out@ =~= old(out)@ + spec_escape(s@.take(i + 1)));
        }
        i = i + 1;
    }
    proof {
        assert(s@.take(n as int) =~= s@);
    }
}

/// Append `s` as a quoted JSON string.
fn append_quoted(out: &mut String, s: &str)
    ensures
        final(out)@ == old(out)@ + spec_quote(s@),
{
    out.append("\"");
    proof {
        reveal_strlit("\"");
    }
    append_escaped(out, s);
    out.append("\"");
    proof {
        assert(out@ =~= old(out)@ + spec_quote(s@));
    }
}

/// The decimal rendering of a signed value.
pub open spec fn spec_dec_i64(n: int) -> Seq<char> {
    if n < 0 {
        seq!['-'] + spec_dec_digits((-n) as nat)
    } else {
        spec_dec_digits(n as nat)
    }
}

/// Append the decimal rendering of `n`, sign included.
pub fn append_i64(out: &mut String, n: i64)
    ensures
        final(out)@ == old(out)@ + spec_dec_i64(n as int),
{
    if n < 0 {
        out.append("-");
        proof {
            reveal_strlit("-");
        }
        let m: u64 = ((-(n + 1)) as u64) + 1;
        append_u64(out, m);
        proof {
            assert(out@ =~= old(out)@ + spec_dec_i64(n as int));
        }
    } else {
        append_u64(out, n as u64);
    }
}

/// The pieces, comma-separated: the first `k` of them.
pub open spec fn spec_join_comma(items: Seq<Seq<char>>, k: int) -> Seq<char>
    decreases k,
{
    if k <= 0 {
        Seq::empty()
    } else if k == 1 {
        items[0]
    } else {
        spec_join_comma(items, k - 1) + seq![','] + items[k - 1]
    }
}

/// How each element of a tensor appears on the wire: floating point
/// elements as their number text unchanged, integers in decimal, booleans
/// as literals, strings quoted.
pub open spec fn spec_data_elems(d: TensorData) -> Seq<Seq<char>> {
    match d {
        TensorData::F32(v) => Seq::new(v@.len(), |i: int| v@[i]@),
        TensorData::I32(v) => Seq::new(v@.len(), |i: int| spec_dec_i64(v@[i] as int)),
        TensorData::I64(v) => Seq::new(v@.len(), |i: int| spec_dec_i64(v@[i] as int)),
        TensorData::U8(v) => Seq::new(v@.len(), |i: int| spec_dec_digits(v@[i] as nat)),
        TensorData::Bool(v) => Seq::new(
            v@.len(),
            |i: int|
                if v@[i] {
                    "true"@
                } else {
                    "false"@
                },
        ),
        TensorData::Str(v) => Seq::new(v@.len(), |i: int| spec_quote(v@[i]@)),
    }
}

/// One tensor of the inference request body.
pub open spec fn spec_tensor_obj(t: NamedTensor) -> Seq<char> {
    "{\"name\":"@ + spec_quote(t.name@) + ",\"shape\":["@ + spec_join_comma(
        Seq::new(t.shape@.len(), |i: int| spec_dec_digits(t.shape@[i] as nat)),
        t.shape@.len() as int,
    ) + "],\"datatype\":"@ + spec_quote(t.data.spec_datatype()) + ",\"data\":["@ + spec_join_comma(
        spec_data_elems(t.data),
        t.data.spec_len() as int,
    ) + "]}"@
}

/// The fixed request shape of the inference call: a single `inputs` list.
pub open spec fn spec_infer_request(ts: Seq<NamedTensor>) -> Seq<char> {
    "{\"inputs\":["@ + spec_join_comma(
        Seq::new(ts.len(), |i: int| spec_tensor_obj(ts[i])),
        ts.len() as int,
    ) + "]}"@
}

/// Append one tensor's element list, comma-separated.
fn append_data_elems(out: &mut String, d: &TensorData)
    ensures
        final(out)@ == old(out)@ + spec_join_comma(spec_data_elems(*d), d.spec_len() as int),
{
    match d {
        TensorData::F32(v) => {
            let mut i: usize = 0;
            while i < v.len()
                invariant
                    i <= v@.len(),
                    out@ == old(out)@ + spec_join_comma(spec_data_elems(*d), i as int),
                    d matches TensorData::F32(w) && w@ == v@,
                decreases v@.len() - i,
            {
                if i > 0 {
                    out.append(",");
                    proof {
                        reveal_strlit(",");
                    }
                }
                out.append(v[i].as_str());
                proof {
                    assert(out@ =~= old(out)@ + spec_join_comma(spec_data_elems(*d), i + 1));
                }
                i = i + 1;
            }
        },
        TensorData::I32(v) => {
            let mut i: usize = 0;
            while i < v.len()
                invariant
                    i <= v@.len(),
                    out@ == old(out)@ + spec_join_comma(spec_data_elems(*d), i as int),
                    d matches TensorData::I32(w) && w@ == v@,
                decreases v@.len() - i,
            {
                if i > 0 {
                    out.append(",");
                    proof {
                        reveal_strlit(",");
                    }
                }
                append_i64(out, v[i] as i64);
                proof {
                    assert(out@ =~= old(out)@ + spec_join_comma(spec_data_elems(*d), i + 1));
                }
                i = i + 1;
            }
        },
        TensorData::I64(v) => {
            let mut i: usize = 0;
            while i < v.len()
                invariant
                    i <= v@.len(),
                    out@ == old(out)@ + spec_join_comma(spec_data_elems(*d), i as int),
                    d matches TensorData::I64(w) && w@ == v@,
                decreases v@.len() - i,
            {
                if i > 0 {
                    out.append(",");
                    proof {
                        reveal_strlit(",");
                    }
                }
                append_i64(out, v[i]);
                proof {
                    assert(out@ =~= old(out)@ + spec_join_comma(spec_data_elems(*d), i + 1));
                }
                i = i + 1;
            }
        },
        TensorData::U8(v) => {
            let mut i: usize = 0;
            while i < v.len()
                invariant
                    i <= v@.len(),
                    out@ == old(out)@ + spec_join_comma(spec_data_elems(*d), i as int),
                    d matches TensorData::U8(w) && w@ == v@,
                decreases v@.len() - i,
            {
                if i > 0 {
                    out.append(",");
                    proof {
                        reveal_strlit(",");
                    }
                }
                append_u64(out, v[i] as u64);
                proof {
                    assert(out@ =~= old(out)@ + spec_join_comma(spec_data_elems(*d), i + 1));
                }
                i = i + 1;
            }
        },
        TensorData::Bool(v) => {
            let mut i: usize = 0;
            while i < v.len()
                invariant
                    i <= v@.len(),
                    out@ == old(out)@ + spec_join_comma(spec_data_elems(*d), i as int),
                    d matches TensorData::Bool(w) && w@ == v@,
                decreases v@.len() - i,
            {
                if i > 0 {
                    out.append(",");
                    proof {
                        reveal_strlit(",");
                    }
                }
                if v[i] {
                    out.append("true");
                } else {
                    out.append("false");
                }
                proof {
                    reveal_strlit("true");
                    reveal_strlit("false");
                    assert(out@ =~= old(out)@ + spec_join_comma(spec_data_elems(*d), i + 1));
                }
                i = i + 1;
            }
        },
        TensorData::Str(v) => {
            let mut i: usize = 0;
            while i < v.len()
                invariant
                    i <= v@.len(),
                    out@ == old(out)@ + spec_join_comma(spec_data_elems(*d), i as int),
                    d matches TensorData::Str(w) && w@ == v@,
                decreases v@.len() - i,
            {
                if i > 0 {
                    out.append(",");
                    proof {
                        reveal_strlit(",");
                    }
                }
                append_quoted(out, v[i].as_str());
                proof {
                    assert(out@ =~= old(out)@ + spec_join_comma(spec_data_elems(*d), i + 1));
                }
                i = i + 1;
            }
        },
    }
}

/// Serialize the aligned tensors into the inference request body, pinned
/// down character by character.
pub fn render_infer_request(tensors: &Vec<NamedTensor>) -> (out: String)
    ensures
        out@ == spec_infer_request(tensors@),
{
    let mut out = String::new();
    out.append("{\"inputs\":[");
    proof {
        reveal_strlit("{\"inputs\":[");
        assert(out@ =~= "{\"inputs\":["@ + spec_join_comma(
            Seq::new(tensors@.len(), |i: int| spec_tensor_obj(tensors@[i])),
            0,
        ));
    }
    let mut k: usize = 0;
    while k < tensors.len()
        invariant
            k <= tensors@.len(),
            out@ == "{\"inputs\":["@ + spec_join_comma(
                Seq::new(tensors@.len(), |i: int| spec_tensor_obj(tensors@[i])),
                k as int,
            ),
        decreases tensors@.len() - k,
    {
        if k > 0 {
            out.append(",");
            proof {
                reveal_strlit(",");
            }
        }
        let t = &tensors[k];
        let ghost mark = out@;
        out.append("{\"name\":");
        append_quoted(&mut out, t.name.as_str());
        out.append(",\"shape\":[");
        proof {
            reveal_strlit("{\"name\":");
            reveal_strlit(",\"shape\":[");
        }
        let ghost dim_texts = Seq::new(t.shape@.len(), |i: int| spec_dec_digits(t.shape@[i] as nat));
        let ghost shape_mark = out@;
        let mut j: usize = 0;
        while j < t.shape.len()
            invariant
                j <= t.shape@.len(),
                dim_texts == Seq::new(
                    t.shape@.len(),
                    |i: int| spec_dec_digits(t.shape@[i] as nat),
                ),
                out@ == shape_mark + spec_join_comma(dim_texts, j as int),
            decreases t.shape@.len() - j,
        {
            if j > 0 {
                out.append(",");
                proof {
                    reveal_strlit(",");
                }
            }
            append_u64(&mut out, t.shape[j] as u64);
            proof {
                assert(out@ =~= shape_mark + spec_join_comma(dim_texts, j + 1));
            }
            j = j + 1;
        }
        out.append("],\"datatype\":");
        append_quoted(&mut out, t.data.datatype_tag());
        out.append(",\"data\":[");
        proof {
            reveal_strlit("],\"datatype\":");
            reveal_strlit(",\"data\":[");
        }
        append_data_elems(&mut out, &t.data);
        out.append("]}");
        proof {
            reveal_strlit("]}");
            assert(out@ =~= mark + spec_tensor_obj(tensors@[k as int]));
            assert(out@ =~= "{\"inputs\":["@ + spec_join_comma(
                Seq::new(tensors@.len(), |i: int| spec_tensor_obj(tensors@[i])),
                k + 1,
            ));
        }
        k = k + 1;
    }
    out.append("]}");
    proof {
        reveal_strlit("]}");
        assert(out@ =~= spec_infer_request(tensors@));
    }
    out
}

/// Render the response as its JSON object text.
pub fn render_response(r: &Response) -> (out: String)
    ensures
        out@ == spec_render(*r),
{
    let mut out = String::new();
    out.append("{");
    proof {
        reveal_strlit("{");
        reveal_strlit("}");
        reveal_strlit(",");
        reveal_strlit(":");
        reveal_strlit("[");
        reveal_strlit("]");
        reveal_strlit("true");
        reveal_strlit("false");
        assert(out@ =~= seq!['{'] + spec_render_fields(r.fields@, 0));
    }
    let mut k: usize = 0;
    while k < r.fields.len()
        invariant
            k <= r.fields@.len(),
            out@ == seq!['{'] + spec_render_fields(r.fields@, k as int),
        decreases r.fields@.len() - k,
    {
        if k > 0 {
            out.append(",");
            proof {
                reveal_strlit(",");
            }
        }
        append_quoted(&mut out, r.fields[k].0.as_str());
        out.append(":");
        proof {
            reveal_strlit(":");
        }
        match &r.fields[k].1 {
            RespValue::Str(s) => {
                append_quoted(&mut out, s.as_str());
            },
            RespValue::Bool(b) => {
                if *b {
                    out.append("true");
                } else {
                    out.append("false");
                }
                proof {
                    reveal_strlit("true");
                    reveal_strlit("false");
                }
            },
            RespValue::StrList(items) => {
                out.append("[");
                proof {
                    reveal_strlit("[");
                    assert(spec_render_items(items@, 0) =~= Seq::<char>::empty());
                }
                let mut j: usize = 0;
                let ghost out_base = out@;
                while j < items.len()
                    invariant
                        j <= items@.len(),
                        out@ == out_base + spec_render_items(items@, j as int),
                    decreases items@.len() - j,
                {
                    if j > 0 {
                        out.append(",");
                        proof {
                            reveal_strlit(",");
                        }
                    }
                    append_quoted(&mut out, items[j].as_str());
                    proof {
                        assert(out@ =~= out_base + spec_render_items(items@, j + 1));
                    }
                    j = j + 1;
                }
                out.append("]");
                proof {
                    reveal_strlit("]");
                }
            },
            RespValue::Raw(s) => {
                out.append(s.as_str());
            },
        }
        proof {
            assert(out@ =~= seq!['{'] + spec_render_fields(r.fields@, k + 1));
        }
        k = k + 1;
    }
    out.append("}");
    proof {
        reveal_strlit("}");
        assert(out@ =~= spec_render(*r));
    }
    out
}

} // verus!
