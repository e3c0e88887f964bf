//! The request envelope: generation options and the outgoing body.

use vstd::prelude::*;

use crate::body::{spec_content_json, Content, ContentV};
use crate::json::{
    digits_end, lemma_view_elems_push, lemma_view_members_push, obj_get, parse_digits_u64,
    pow10, push_str_chars, push_u64_digits, sp_obj_get, spec_u64_digits, view_members,
    digit_char, digits_val, is_digit, JsonV, JsonValue,
};

verus! {

/// Generation options. Every field is optional; an absent field is left to
/// the remote default and is omitted from the serialized body. The
/// temperature and top-p values are held in thousandths, so that a value
/// such as 0.95 is the integer 950.
#[derive(Clone, Debug)]
pub struct GenerationConfig {
    pub response_mime_type: Option<String>,
    pub max_output_tokens: Option<i64>,
    pub temperature_milli: Option<u32>,
    pub top_p_milli: Option<u32>,
    pub top_k: Option<i64>,
}

/// The model of a `GenerationConfig`.
pub struct GenerationConfigV {
    pub response_mime_type: Option<Seq<char>>,
    pub max_output_tokens: Option<i64>,
    pub temperature_milli: Option<u32>,
    pub top_p_milli: Option<u32>,
    pub top_k: Option<i64>,
}

impl DeepView for GenerationConfig {
    type V = GenerationConfigV;

    open spec fn deep_view(&self) -> GenerationConfigV {
        GenerationConfigV {
            response_mime_type: self.response_mime_type.deep_view(),
            max_output_tokens: self.max_output_tokens,
            temperature_milli: self.temperature_milli,
            top_p_milli: self.top_p_milli,
            top_k: self.top_k,
        }
    }
}

/// The all-default options: every field absent.
pub open spec fn spec_default_config() -> GenerationConfigV {
    GenerationConfigV {
        response_mime_type: Option::None,
        max_output_tokens: Option::None,
        temperature_milli: Option::None,
        top_p_milli: Option::None,
        top_k: Option::None,
    }
}

impl Default for GenerationConfig {
    /// All fields absent: the remote defaults apply.
    fn default() -> (r: Self)
        ensures
            r.deep_view() == spec_default_config(),
    {
        GenerationConfig {
            response_mime_type: None,
            max_output_tokens: None,
            temperature_milli: None,
            top_p_milli: None,
            top_k: None,
        }
    }
}

impl GenerationConfig {
    /// An equal copy.
    pub fn duplicate(&self) -> (r: GenerationConfig)
        ensures
            r == *self,
    {
        GenerationConfig {
            response_mime_type: match &self.response_mime_type {
                Some(s) => Some(s.clone()),
                None => None,
            },
            max_output_tokens: self.max_output_tokens,
            temperature_milli: self.temperature_milli,
            top_p_milli: self.top_p_milli,
            top_k: self.top_k,
        }
    }
}

// ---------- thousandths as a JSON number ----------

/// The fractional digits of a value in thousandths, trailing zeros trimmed.
pub open spec fn spec_frac3(f: nat) -> Seq<char> {
    let d1 = (f / 100) as int;
    let d2 = ((f / 10) % 10) as int;
    let d3 = (f % 10) as int;
    if d3 != 0 {
        seq![digit_char(d1), digit_char(d2), digit_char(d3)]
    } else if d2 != 0 {
        seq![digit_char(d1), digit_char(d2)]
    } else {
        seq![digit_char(d1)]
    }
}

/// The decimal rendering of a value in thousandths.
pub open spec fn spec_milli_str(m: nat) -> Seq<char> {
    spec_u64_digits(m / 1000) + seq!['.'] + spec_frac3(m % 1000)
}

/// The JSON number of a value in thousandths: an integer when whole.
pub open spec fn spec_milli_jv(m: u32) -> JsonV {
    if m % 1000 == 0 {
        JsonV::Int((m / 1000) as int)
    } else {
        JsonV::NumRaw(spec_milli_str(m as nat))
    }
}

fn push_frac3(f: u32, out: &mut Vec<char>)
    requires
        f < 1000,
    ensures
        final(out)@ == old(out)@ + spec_frac3(f as nat),
{
    let d1: u8 = (f / 100) as u8;
    let d2: u8 = ((f / 10) % 10) as u8;
    let d3: u8 = (f % 10) as u8;
    out.push((d1 + 48) as char);
    if d2 != 0 || d3 != 0 {
        out.push((d2 + 48) as char);
    }
    if d3 != 0 {
        out.push((d3 + 48) as char);
    }
    assert(out@ =~= old(out)@ + spec_frac3(f as nat));
}

/// Builds the JSON number for a value in thousandths.
pub fn milli_to_json(m: u32) -> (r: JsonValue)
    ensures
        r@ == spec_milli_jv(m),
{
    if m % 1000 == 0 {
        JsonValue::Int((m / 1000) as i64)
    } else {
        let mut out: Vec<char> = Vec::new();
        push_u64_digits((m / 1000) as u64, &mut out);
        out.push('.');
        push_frac3(m % 1000, &mut out);
        proof {
            assert(out@ =~= spec_milli_str(m as nat));
        }
        JsonValue::NumRaw(crate::json::string_from_chars(&out))
    }
}

/// The thousandths a plain decimal lexeme denotes: an unsigned integer part
/// of at most seven digits with no leading zero, and one to three
/// fractional digits.
pub open spec fn sp_milli_of(s: Seq<char>) -> Option<u32> {
    let e = crate::json::sp_digits_end(s, 0);
    if e == 0 || (e >= 2 && s[0] == '0') || e > 7 {
        Option::None
    } else {
        let ip = digits_val(s.subrange(0, e));
        if e < s.len() && s[e] == '.' {
            let f = crate::json::sp_digits_end(s, e + 1);
            if f == s.len() && 1 <= f - (e + 1) <= 3 {
                let fd = digits_val(s.subrange(e + 1, f));
                let scale: int = if f - (e + 1) == 1 {
                    100
                } else if f - (e + 1) == 2 {
                    10
                } else {
                    1
                };
                if ip * 1000 + fd * scale <= 0xFFFFFFFF {
                    Option::Some((ip * 1000 + fd * scale) as u32)
                } else {
                    Option::None
                }
            } else {
                Option::None
            }
        } else if e == s.len() {
            if ip * 1000 <= 0xFFFFFFFF {
                Option::Some((ip * 1000) as u32)
            } else {
                Option::None
            }
        } else {
            Option::None
        }
    }
}

/// Reads a decimal lexeme as thousandths.
pub fn milli_of_str(s: &str) -> (r: Option<u32>)
    ensures
        r == sp_milli_of(s@),
{
    let mut cs: Vec<char> = Vec::new();
    push_str_chars(s, &mut cs);
    let n = cs.len();
    let e = digits_end(&cs, 0);
    if e == 0 || (e >= 2 && cs[0] == '0') || e > 7 {
        return None;
    }
    proof {
        crate::json::lemma_digits_end(cs@, 0);
        lemma_digits_val_small(cs@.subrange(0, e as int));
    }
    let ip: u64 = parse_digits_u64(&cs, 0, e);
    if e < n && cs[e] == '.' {
        let f = digits_end(&cs, e + 1);
        if f == n && 1 <= f - (e + 1) && f - (e + 1) <= 3 {
            proof {
                crate::json::lemma_digits_end(cs@, e + 1int);
                lemma_digits_val_small(cs@.subrange(e + 1int, f as int));
            }
            let fd: u64 = parse_digits_u64(&cs, e + 1, f);
            let scale: u64 = if f - (e + 1) == 1 {
                100
            } else if f - (e + 1) == 2 {
                10
            } else {
                1
            };
            let total: u64 = ip * 1000 + fd * scale;
            if total <= 0xFFFFFFFF {
                Some(total as u32)
            } else {
                None
            }
        } else {
            None
        }
    } else if e == n {
        let total: u64 = ip * 1000;
        if total <= 0xFFFFFFFF {
            Some(total as u32)
        } else {
            None
        }
    } else {
        None
    }
}

/// A digit run of at most seven digits has a small value.
proof fn lemma_digits_val_small(ds: Seq<char>)
    requires
        forall|k: int| 0 <= k < ds.len() ==> is_digit(#[trigger] ds[k]),
        ds.len() <= 7,
    ensures
        0 <= digits_val(ds) < 10000000,
{
    crate::json::lemma_digits_val_bound(ds);
    crate::json::lemma_pow10_le_7(ds.len() as nat);
}

// ---------- the options object ----------

/// A member present only when the option is set.
pub open spec fn opt_member(key: Seq<char>, v: Option<JsonV>) -> Seq<(Seq<char>, JsonV)> {
    match v {
        Option::Some(x) => seq![(key, x)],
        Option::None => Seq::empty(),
    }
}

/// The JSON form of the options: present fields only, under their wire
/// names.
pub open spec fn spec_config_json(c: GenerationConfigV) -> JsonV {
    JsonV::Obj(
        opt_member(
            "responseMimeType"@,
            match c.response_mime_type {
                Option::Some(s) => Option::Some(JsonV::Str(s)),
                Option::None => Option::None,
            },
        ) + opt_member(
            "maxOutputTokens"@,
            match c.max_output_tokens {
                Option::Some(n) => Option::Some(JsonV::Int(n as int)),
                Option::None => Option::None,
            },
        ) + opt_member(
            "temperature"@,
            match c.temperature_milli {
                Option::Some(m) => Option::Some(spec_milli_jv(m)),
                Option::None => Option::None,
            },
        ) + opt_member(
            "topP"@,
            match c.top_p_milli {
                Option::Some(m) => Option::Some(spec_milli_jv(m)),
                Option::None => Option::None,
            },
        ) + opt_member(
            "topK"@,
            match c.top_k {
                Option::Some(n) => Option::Some(JsonV::Int(n as int)),
                Option::None => Option::None,
            },
        ),
    )
}

/// Serializes the options.
pub fn config_to_json(c: &GenerationConfig) -> (r: JsonValue)
    ensures
        r@ == spec_config_json(c.deep_view()),
{
    let ghost cv = c.deep_view();
    let ghost m1 = opt_member(
        "responseMimeType"@,
        match cv.response_mime_type {
            Option::Some(s) => Option::Some(JsonV::Str(s)),
            Option::None => Option::None,
        },
    );
    let ghost m2 = opt_member(
        "maxOutputTokens"@,
        match cv.max_output_tokens {
            Option::Some(n) => Option::Some(JsonV::Int(n as int)),
            Option::None => Option::None,
        },
    );
    let ghost m3 = opt_member(
        "temperature"@,
        match cv.temperature_milli {
            Option::Some(m) => Option::Some(spec_milli_jv(m)),
            Option::None => Option::None,
        },
    );
    let ghost m4 = opt_member(
        "topP"@,
        match cv.top_p_milli {
            Option::Some(m) => Option::Some(spec_milli_jv(m)),
            Option::None => Option::None,
        },
    );
    let ghost m5 = opt_member(
        "topK"@,
        match cv.top_k {
            Option::Some(n) => Option::Some(JsonV::Int(n as int)),
            Option::None => Option::None,
        },
    );
    let mut ms: Vec<(String, JsonValue)> = Vec::new();
    if let Some(s) = &c.response_mime_type {
        let key = String::from_str("responseMimeType");
        let v = JsonValue::Str(s.clone());
        proof {
            lemma_view_members_push(ms@, key, v);
        }
        ms.push((key, v));
    }
    proof {
        assert(view_members(ms@) =~= m1);
    }
    if let Some(n) = c.max_output_tokens {
        let key = String::from_str("maxOutputTokens");
        let v = JsonValue::Int(n);
        proof {
            lemma_view_members_push(ms@, key, v);
        }
        ms.push((key, v));
    }
    proof {
        assert(view_members(ms@) =~= m1 + m2);
    }
    if let Some(m) = c.temperature_milli {
        let key = String::from_str("temperature");
        let v = milli_to_json(m);
        proof {
            lemma_view_members_push(ms@, key, v);
        }
        ms.push((key, v));
    }
    proof {
        assert(view_members(ms@) =~= m1 + m2 + m3);
    }
    if let Some(m) = c.top_p_milli {
        let key = String::from_str("topP");
        let v = milli_to_json(m);
        proof {
            lemma_view_members_push(ms@, key, v);
        }
        ms.push((key, v));
    }
    proof {
        assert(view_members(ms@) =~= m1 + m2 + m3 + m4);
    }
    if let Some(n) = c.top_k {
        let key = String::from_str("topK");
        let v = JsonValue::Int(n);
        proof {
            lemma_view_members_push(ms@, key, v);
        }
        ms.push((key, v));
    }
    proof {
        assert(view_members(ms@) =~= m1 + m2 + m3 + m4 + m5);
    }
    JsonValue::Obj(ms)
}

/// The thousandths a JSON number field decodes to.
pub open spec fn sp_milli_field(v: JsonV) -> Option<u32> {
    match v {
        JsonV::Int(n) => if 0 <= n && n * 1000 <= 0xFFFFFFFF {
            Option::Some((n * 1000) as u32)
        } else {
            Option::None
        },
        JsonV::NumRaw(s) => sp_milli_of(s),
        _ => Option::None,
    }
}

/// The options a JSON value decodes to. An absent field stays absent; a
/// present field of the wrong shape fails the decode; unknown members are
/// ignored.
pub open spec fn sp_config(v: JsonV) -> Option<GenerationConfigV> {
    match v {
        JsonV::Obj(ms) => {
            let rm: Option<Option<Seq<char>>> = match sp_obj_get(ms, "responseMimeType"@) {
                Option::None => Option::Some(Option::None),
                Option::Some(JsonV::Str(s)) => Option::Some(Option::Some(s)),
                Option::Some(_) => Option::None,
            };
            let mx: Option<Option<i64>> = match sp_obj_get(ms, "maxOutputTokens"@) {
                Option::None => Option::Some(Option::None),
                Option::Some(JsonV::Int(n)) => if i64::MIN <= n <= i64::MAX {
                    Option::Some(Option::Some(n as i64))
                } else {
                    Option::None
                },
                Option::Some(_) => Option::None,
            };
            let tm: Option<Option<u32>> = match sp_obj_get(ms, "temperature"@) {
                Option::None => Option::Some(Option::None),
                Option::Some(x) => match sp_milli_field(x) {
                    Option::Some(m) => Option::Some(Option::Some(m)),
                    Option::None => Option::None,
                },
            };
            let tp: Option<Option<u32>> = match sp_obj_get(ms, "topP"@) {
                Option::None => Option::Some(Option::None),
                Option::Some(x) => match sp_milli_field(x) {
                    Option::Some(m) => Option::Some(Option::Some(m)),
                    Option::None => Option::None,
                },
            };
            let tk: Option<Option<i64>> = match sp_obj_get(ms, "topK"@) {
                Option::None => Option::Some(Option::None),
                Option::Some(JsonV::Int(n)) => if i64::MIN <= n <= i64::MAX {
                    Option::Some(Option::Some(n as i64))
                } else {
                    Option::None
                },
                Option::Some(_) => Option::None,
            };
            match (rm, mx, tm, tp, tk) {
                (
                    Option::Some(rm),
                    Option::Some(mx),
                    Option::Some(tm),
                    Option::Some(tp),
                    Option::Some(tk),
                ) => Option::Some(
                    GenerationConfigV {
                        response_mime_type: rm,
                        max_output_tokens: mx,
                        temperature_milli: tm,
                        top_p_milli: tp,
                        top_k: tk,
                    },
                ),
                _ => Option::None,
            }
        },
        _ => Option::None,
    }
}

fn milli_field_from_json(v: &JsonValue) -> (r: Option<u32>)
    ensures
        r == sp_milli_field(v@),
{
    match v {
        JsonValue::Int(n) => {
            if 0 <= *n && *n <= 4294967 {
                Some((*n as u32) * 1000)
            } else {
                None
            }
        },
        JsonValue::NumRaw(s) => milli_of_str(s.as_str()),
        _ => None,
    }
}

/// Decodes the options.
pub fn config_from_json(v: &JsonValue) -> (r: Option<GenerationConfig>)
    ensures
        ({
            let sp = sp_config(v@);
            match sp {
                Option::None => r is None,
                Option::Some(c) => r matches Some(rc) && rc.deep_view() == c,
            }
        }),
{
    match v {
        JsonValue::Obj(ms) => {
            let rm: Option<String> = match obj_get(ms, "responseMimeType") {
                None => None,
                Some(JsonValue::Str(s)) => Some(s.clone()),
                Some(_) => {
                    return None;
                },
            };
            let mx: Option<i64> = match obj_get(ms, "maxOutputTokens") {
                None => None,
                Some(JsonValue::Int(n)) => Some(*n),
                Some(_) => {
                    return None;
                },
            };
            let tm: Option<u32> = match obj_get(ms, "temperature") {
                None => None,
                Some(x) => match milli_field_from_json(x) {
                    Some(m) => Some(m),
                    None => {
                        return None;
                    },
                },
            };
            let tp: Option<u32> = match obj_get(ms, "topP") {
                None => None,
                Some(x) => match milli_field_from_json(x) {
                    Some(m) => Some(m),
                    None => {
                        return None;
                    },
                },
            };
            let tk: Option<i64> = match obj_get(ms, "topK") {
                None => None,
                Some(JsonValue::Int(n)) => Some(*n),
                Some(_) => {
                    return None;
                },
            };
            Some(
                GenerationConfig {
                    response_mime_type: rm,
                    max_output_tokens: mx,
                    temperature_milli: tm,
                    top_p_milli: tp,
                    top_k: tk,
                },
            )
        },
        _ => None,
    }
}

// ---------- round trip of the options ----------

/// The fractional digits of a nonzero fraction: one to three digits whose
/// value, scaled back by the trimmed places, is the fraction.
proof fn lemma_frac3_props(f: nat)
    requires
        1 <= f <= 999,
    ensures
        1 <= spec_frac3(f).len() <= 3,
        forall|k: int| 0 <= k < spec_frac3(f).len() ==> is_digit(#[trigger] spec_frac3(f)[k]),
        spec_frac3(f).len() == 3 ==> digits_val(spec_frac3(f)) == f,
        spec_frac3(f).len() == 2 ==> digits_val(spec_frac3(f)) * 10 == f,
        spec_frac3(f).len() == 1 ==> digits_val(spec_frac3(f)) * 100 == f,
{
    let d1 = (f / 100) as int;
    let d2 = ((f / 10) % 10) as int;
    let d3 = (f % 10) as int;
    let e0 = Seq::<char>::empty();
    assert(digits_val(e0) == 0);
    let s1 = seq![digit_char(d1)];
    assert(s1.drop_last() =~= e0);
    assert(s1.last() == digit_char(d1));
    assert(digits_val(s1) == d1);
    let s2 = seq![digit_char(d1), digit_char(d2)];
    assert(s2.drop_last() =~= s1);
    assert(s2.last() == digit_char(d2));
    assert(digits_val(s2) == d1 * 10 + d2);
    let s3 = seq![digit_char(d1), digit_char(d2), digit_char(d3)];
    assert(s3.drop_last() =~= s2);
    assert(s3.last() == digit_char(d3));
    assert(digits_val(s3) == (d1 * 10 + d2) * 10 + d3);
    assert(d1 * 100 + d2 * 10 + d3 == f);
}

/// The rendered thousandths parse back to the same value.
proof fn lemma_milli_str_parses(m: u32)
    requires
        m % 1000 != 0,
    ensures
        sp_milli_of(spec_milli_str(m as nat)) == Option::Some(m),
{
    let ip0 = (m as nat) / 1000;
    let f = (m as nat) % 1000;
    let dd = spec_u64_digits(ip0);
    let ff = spec_frac3(f);
    let s = spec_milli_str(m as nat);
    crate::json::lemma_u64_digits_props(ip0);
    lemma_frac3_props(f);
    assert(pow10(7) == 10000000) by {
        reveal_with_fuel(pow10, 9);
    }
    assert(ip0 < 10000000);
    crate::json::lemma_u64_digits_len(ip0, 7);
    let e = dd.len() as int;
    assert(s =~= dd + seq!['.'] + ff);
    assert forall|k: int| 0 <= k < e implies is_digit(#[trigger] s[k]) by {
        assert(s[k] == dd[k]);
    }
    assert(s[e] == '.');
    assert(!is_digit('.'));
    crate::json::lemma_digits_end_run(s, 0, e);
    assert(crate::json::sp_digits_end(s, 0) == e);
    assert(e >= 1);
    if e >= 2 {
        assert(s[0] == dd[0]);
        assert(ip0 >= 10 ==> dd[0] != '0');
        if ip0 < 10 {
            assert(dd =~= seq![crate::json::digit_char(ip0 as int)]);
            assert(false);
        }
    }
    assert(e <= 7);
    assert(s.subrange(0, e) =~= dd);
    assert(digits_val(s.subrange(0, e)) == ip0);
    let n = s.len() as int;
    assert forall|k: int| e + 1 <= k < n implies is_digit(#[trigger] s[k]) by {
        assert(s[k] == ff[k - (e + 1)]);
    }
    crate::json::lemma_digits_end_run(s, e + 1, n);
    assert(crate::json::sp_digits_end(s, e + 1) == n);
    assert(s.subrange(e + 1, n) =~= ff);
    let fd = digits_val(ff);
    let l = ff.len() as int;
    assert(1 <= l <= 3);
    if l == 3 {
        assert(fd * 1 == f);
    } else if l == 2 {
        assert(fd * 10 == f);
    } else {
        assert(fd * 100 == f);
    }
    assert(ip0 * 1000 + f == m);
}

/// Decoding the encoded thousandths yields the value back.
pub proof fn lemma_milli_round_trip(m: u32)
    ensures
        sp_milli_field(spec_milli_jv(m)) == Option::Some(m),
{
    if m % 1000 == 0 {
        assert((m / 1000) * 1000 == m);
    } else {
        lemma_milli_str_parses(m);
    }
}

/// Decoding the JSON form of the options yields them back: every field
/// the schema declares survives the round trip.
pub proof fn lemma_config_round_trip(c: GenerationConfigV)
    ensures
        sp_config(spec_config_json(c)) == Option::Some(c),
{
    reveal_strlit("responseMimeType");
    reveal_strlit("maxOutputTokens");
    reveal_strlit("temperature");
    reveal_strlit("topP");
    reveal_strlit("topK");
    assert(("responseMimeType"@).len() == 16);
    assert(("maxOutputTokens"@).len() == 15);
    assert(("temperature"@).len() == 11);
    assert(("topP"@).len() == 4);
    assert(("topK"@).len() == 4);
    assert(("topP"@)[3] == 'P');
    assert(("topK"@)[3] == 'K');
    let m1 = opt_member(
        "responseMimeType"@,
        match c.response_mime_type {
            Option::Some(s) => Option::Some(JsonV::Str(s)),
            Option::None => Option::None,
        },
    );
    let m2 = opt_member(
        "maxOutputTokens"@,
        match c.max_output_tokens {
            Option::Some(n) => Option::Some(JsonV::Int(n as int)),
            Option::None => Option::None,
        },
    );
    let m3 = opt_member(
        "temperature"@,
        match c.temperature_milli {
            Option::Some(m) => Option::Some(spec_milli_jv(m)),
            Option::None => Option::None,
        },
    );
    let m4 = opt_member(
        "topP"@,
        match c.top_p_milli {
            Option::Some(m) => Option::Some(spec_milli_jv(m)),
            Option::None => Option::None,
        },
    );
    let m5 = opt_member(
        "topK"@,
        match c.top_k {
            Option::Some(n) => Option::Some(JsonV::Int(n as int)),
            Option::None => Option::None,
        },
    );
    let ms = m1 + m2 + m3 + m4 + m5;
    assert(spec_config_json(c) == JsonV::Obj(ms));
    lemma_lookup_in_five(m1, m2, m3, m4, m5, "responseMimeType"@, 0);
    lemma_lookup_in_five(m1, m2, m3, m4, m5, "maxOutputTokens"@, 1);
    lemma_lookup_in_five(m1, m2, m3, m4, m5, "temperature"@, 2);
    lemma_lookup_in_five(m1, m2, m3, m4, m5, "topP"@, 3);
    lemma_lookup_in_five(m1, m2, m3, m4, m5, "topK"@, 4);
    if let Option::Some(m) = c.temperature_milli {
        lemma_milli_round_trip(m);
    }
    if let Option::Some(m) = c.top_p_milli {
        lemma_milli_round_trip(m);
    }
    assert(sp_config(spec_config_json(c)) == Option::Some(
        GenerationConfigV {
            response_mime_type: c.response_mime_type,
            max_output_tokens: c.max_output_tokens,
            temperature_milli: c.temperature_milli,
            top_p_milli: c.top_p_milli,
            top_k: c.top_k,
        },
    ));
    assert(GenerationConfigV {
        response_mime_type: c.response_mime_type,
        max_output_tokens: c.max_output_tokens,
        temperature_milli: c.temperature_milli,
        top_p_milli: c.top_p_milli,
        top_k: c.top_k,
    } == c);
}

/// The member lists of the five option keys hold only their own keys.
proof fn lemma_lookup_in_five(
    m1: Seq<(Seq<char>, JsonV)>,
    m2: Seq<(Seq<char>, JsonV)>,
    m3: Seq<(Seq<char>, JsonV)>,
    m4: Seq<(Seq<char>, JsonV)>,
    m5: Seq<(Seq<char>, JsonV)>,
    key: Seq<char>,
    which: int,
)
    requires
        0 <= which < 5,
        forall|i: int| 0 <= i < m1.len() ==> (#[trigger] m1[i]).0 == "responseMimeType"@,
        forall|i: int| 0 <= i < m2.len() ==> (#[trigger] m2[i]).0 == "maxOutputTokens"@,
        forall|i: int| 0 <= i < m3.len() ==> (#[trigger] m3[i]).0 == "temperature"@,
        forall|i: int| 0 <= i < m4.len() ==> (#[trigger] m4[i]).0 == "topP"@,
        forall|i: int| 0 <= i < m5.len() ==> (#[trigger] m5[i]).0 == "topK"@,
        m1.len() <= 1,
        m2.len() <= 1,
        m3.len() <= 1,
        m4.len() <= 1,
        m5.len() <= 1,
        which == 0 ==> key == "responseMimeType"@ && key != "maxOutputTokens"@ && key
            != "temperature"@ && key != "topP"@ && key != "topK"@,
        which == 1 ==> key == "maxOutputTokens"@ && key != "responseMimeType"@ && key
            != "temperature"@ && key != "topP"@ && key != "topK"@,
        which == 2 ==> key == "temperature"@ && key != "responseMimeType"@ && key
            != "maxOutputTokens"@ && key != "topP"@ && key != "topK"@,
        which == 3 ==> key == "topP"@ && key != "responseMimeType"@ && key
            != "maxOutputTokens"@ && key != "temperature"@ && key != "topK"@,
        which == 4 ==> key == "topK"@ && key != "responseMimeType"@ && key
            != "maxOutputTokens"@ && key != "temperature"@ && key != "topP"@,
    ensures
        which == 0 ==> sp_obj_get(m1 + m2 + m3 + m4 + m5, key) == (if m1.len() == 1 {
            Option::Some(m1[0].1)
        } else {
            Option::<JsonV>::None
        }),
        which == 1 ==> sp_obj_get(m1 + m2 + m3 + m4 + m5, key) == (if m2.len() == 1 {
            Option::Some(m2[0].1)
        } else {
            Option::<JsonV>::None
        }),
        which == 2 ==> sp_obj_get(m1 + m2 + m3 + m4 + m5, key) == (if m3.len() == 1 {
            Option::Some(m3[0].1)
        } else {
            Option::<JsonV>::None
        }),
        which == 3 ==> sp_obj_get(m1 + m2 + m3 + m4 + m5, key) == (if m4.len() == 1 {
            Option::Some(m4[0].1)
        } else {
            Option::<JsonV>::None
        }),
        which == 4 ==> sp_obj_get(m1 + m2 + m3 + m4 + m5, key) == (if m5.len() == 1 {
            Option::Some(m5[0].1)
        } else {
            Option::<JsonV>::None
        }),
{
    let ms = m1 + m2 + m3 + m4 + m5;
    let pre = if which == 0 {
        Seq::<(Seq<char>, JsonV)>::empty()
    } else if which == 1 {
        m1
    } else if which == 2 {
        m1 + m2
    } else if which == 3 {
        m1 + m2 + m3
    } else {
        m1 + m2 + m3 + m4
    };
    let target = if which == 0 {
        m1
    } else if which == 1 {
        m2
    } else if which == 2 {
        m3
    } else if which == 3 {
        m4
    } else {
        m5
    };
    let post = if which == 0 {
        m2 + m3 + m4 + m5
    } else if which == 1 {
        m3 + m4 + m5
    } else if which == 2 {
        m4 + m5
    } else if which == 3 {
        m5
    } else {
        Seq::<(Seq<char>, JsonV)>::empty()
    };
    assert(ms =~= pre + (target + post));
    assert forall|i: int| 0 <= i < pre.len() implies (#[trigger] pre[i]).0 != key by {
        if which == 1 {
        } else if which == 2 {
            if i < m1.len() {
                assert(pre[i] == m1[i]);
            } else {
                assert(pre[i] == m2[i - m1.len()]);
            }
        } else if which == 3 {
            if i < m1.len() {
                assert(pre[i] == m1[i]);
            } else if i < m1.len() + m2.len() {
                assert(pre[i] == (m1 + m2)[i]);
                assert((m1 + m2)[i] == m2[i - m1.len()]);
            } else {
                assert(pre[i] == m3[i - m1.len() - m2.len()]);
            }
        } else if which == 4 {
            if i < m1.len() {
                assert(pre[i] == m1[i]);
            } else if i < m1.len() + m2.len() {
                assert(pre[i] == (m1 + m2)[i]);
                assert((m1 + m2)[i] == m2[i - m1.len()]);
            } else if i < m1.len() + m2.len() + m3.len() {
                assert(pre[i] == (m1 + m2 + m3)[i]);
                assert((m1 + m2 + m3)[i] == m3[i - m1.len() - m2.len()]);
            } else {
                assert(pre[i] == m4[i - m1.len() - m2.len() - m3.len()]);
            }
        }
    }
    crate::json::lemma_obj_get_skip(pre, target + post, key);
    if target.len() == 1 {
        assert((target + post)[0] == target[0]);
        assert(sp_obj_get(target + post, key) == Option::Some(target[0].1));
    } else {
        assert(target + post =~= post);
        assert forall|i: int| 0 <= i < post.len() implies (#[trigger] post[i]).0 != key by {
            if which == 0 {
                if i < m2.len() {
                    assert(post[i] == m2[i]);
                } else if i < m2.len() + m3.len() {
                    assert(post[i] == (m2 + m3)[i]);
                    assert((m2 + m3)[i] == m3[i - m2.len()]);
                } else if i < m2.len() + m3.len() + m4.len() {
                    assert(post[i] == (m2 + m3 + m4)[i]);
                    assert((m2 + m3 + m4)[i] == m4[i - m2.len() - m3.len()]);
                } else {
                    assert(post[i] == m5[i - m2.len() - m3.len() - m4.len()]);
                }
            } else if which == 1 {
                if i < m3.len() {
                    assert(post[i] == m3[i]);
                } else if i < m3.len() + m4.len() {
                    assert(post[i] == (m3 + m4)[i]);
                    assert((m3 + m4)[i] == m4[i - m3.len()]);
                } else {
                    assert(post[i] == m5[i - m3.len() - m4.len()]);
                }
            } else if which == 2 {
                if i < m4.len() {
                    assert(post[i] == m4[i]);
                } else {
                    assert(post[i] == m5[i - m4.len()]);
                }
            } else if which == 3 {
                assert(post[i] == m5[i]);
            }
        }
        crate::json::lemma_obj_get_skip(post, Seq::<(Seq<char>, JsonV)>::empty(), key);
        assert(post + Seq::<(Seq<char>, JsonV)>::empty() =~= post);
        assert(sp_obj_get(Seq::<(Seq<char>, JsonV)>::empty(), key) is None);
    }
}

/// The JSON number of thousandths is well formed: it renders losslessly.
proof fn lemma_milli_jv_wf(m: u32)
    ensures
        crate::json::wf_json(spec_milli_jv(m)),
{
    if m % 1000 == 0 {
    } else {
        let ip0 = (m as nat) / 1000;
        let f = (m as nat) % 1000;
        let dd = spec_u64_digits(ip0);
        let ff = spec_frac3(f);
        let s = spec_milli_str(m as nat);
        crate::json::lemma_u64_digits_props(ip0);
        lemma_frac3_props(f);
        assert(s =~= dd + seq!['.'] + ff);
        let dlen = dd.len() as int;
        assert(s[dlen] == '.');
        assert forall|k: int| 0 <= k < dlen implies is_digit(#[trigger] s[k]) by {
            assert(s[k] == dd[k]);
        }
        assert forall|k: int| dlen + 1 <= k < s.len() implies is_digit(#[trigger] s[k]) by {
            assert(s[k] == ff[k - (dlen + 1)]);
        }
        assert(crate::json::is_fraction_lexeme(s));
    }
}

/// The integer option fields are small enough to render losslessly.
pub open spec fn config_fits(c: GenerationConfigV) -> bool {
    &&& (c.max_output_tokens matches Option::Some(n) ==> -1000000000000000000 < n
        < 1000000000000000000)
    &&& (c.top_k matches Option::Some(n) ==> -1000000000000000000 < n < 1000000000000000000)
}

/// The options' JSON form is well formed when its integers fit.
pub proof fn lemma_config_json_wf(c: GenerationConfigV)
    requires
        config_fits(c),
    ensures
        crate::json::wf_json(spec_config_json(c)),
{
    let m1 = opt_member(
        "responseMimeType"@,
        match c.response_mime_type {
            Option::Some(s) => Option::Some(JsonV::Str(s)),
            Option::None => Option::None,
        },
    );
    let m2 = opt_member(
        "maxOutputTokens"@,
        match c.max_output_tokens {
            Option::Some(n) => Option::Some(JsonV::Int(n as int)),
            Option::None => Option::None,
        },
    );
    let m3 = opt_member(
        "temperature"@,
        match c.temperature_milli {
            Option::Some(m) => Option::Some(spec_milli_jv(m)),
            Option::None => Option::None,
        },
    );
    let m4 = opt_member(
        "topP"@,
        match c.top_p_milli {
            Option::Some(m) => Option::Some(spec_milli_jv(m)),
            Option::None => Option::None,
        },
    );
    let m5 = opt_member(
        "topK"@,
        match c.top_k {
            Option::Some(n) => Option::Some(JsonV::Int(n as int)),
            Option::None => Option::None,
        },
    );
    let ms = m1 + m2 + m3 + m4 + m5;
    if let Option::Some(m) = c.temperature_milli {
        lemma_milli_jv_wf(m);
    }
    if let Option::Some(m) = c.top_p_milli {
        lemma_milli_jv_wf(m);
    }
    assert forall|k: int|
        0 <= k < ms.len() implies crate::json::wf_json((#[trigger] ms[k]).1) by {
        if k < m1.len() {
            assert(ms[k] == m1[0]);
        } else if k < m1.len() + m2.len() {
            assert(ms[k] == m2[0]);
        } else if k < m1.len() + m2.len() + m3.len() {
            assert(ms[k] == m3[0]);
        } else if k < m1.len() + m2.len() + m3.len() + m4.len() {
            assert(ms[k] == m4[0]);
        } else {
            assert(ms[k] == m5[0]);
        }
    }
    crate::json::lemma_wf_members_of(ms);
}

/// The options survive the full trip to text and back: their JSON form
/// renders to text that parses to the same JSON form, which decodes to
/// the same options.
pub proof fn lemma_config_text_round_trip(c: GenerationConfigV)
    requires
        config_fits(c),
    ensures
        crate::json::spec_parse_json(crate::json::spec_render(spec_config_json(c)))
            == Option::Some(spec_config_json(c)),
        sp_config(spec_config_json(c)) == Option::Some(c),
{
    lemma_config_json_wf(c);
    crate::json::lemma_render_parse_round_trip(spec_config_json(c));
    lemma_config_round_trip(c);
}

/// The JSON forms of a turn list, element by element.
pub proof fn lemma_contents_json_index(cs: Seq<ContentV>)
    ensures
        spec_contents_json(cs).len() == cs.len(),
        forall|k: int|
            0 <= k < cs.len() ==> spec_contents_json(cs)[k] == spec_content_json(
                #[trigger] cs[k],
            ),
    decreases cs.len(),
{
    if cs.len() > 0 {
        lemma_contents_json_index(cs.drop_last());
        assert forall|k: int|
            0 <= k < cs.len() implies spec_contents_json(cs)[k] == spec_content_json(
            #[trigger] cs[k],
        ) by {
            if k < cs.len() - 1 {
                assert(cs.drop_last()[k] == cs[k]);
            } else {
                assert(spec_contents_json(cs)[k] == spec_content_json(cs.last()));
            }
        }
    }
}

/// The request envelope's text parses back unchanged: rendering the
/// envelope of any turns, fitting options and system instruction gives
/// text the parser reads back as exactly that envelope.
pub proof fn lemma_request_text_round_trip(b: RequestBodyV)
    requires
        b.generation_config matches Option::Some(c) ==> config_fits(c),
    ensures
        crate::json::spec_parse_json(crate::json::spec_render(spec_request_json(b)))
            == Option::Some(spec_request_json(b)),
{
    lemma_contents_json_index(b.contents);
    let cj = spec_contents_json(b.contents);
    assert forall|k: int| 0 <= k < cj.len() implies crate::json::wf_json(#[trigger] cj[k]) by {
        assert(cj[k] == spec_content_json(b.contents[k]));
        crate::body::lemma_content_json_wf(b.contents[k]);
    }
    crate::json::lemma_wf_elems_of(cj);
    let m1: Seq<(Seq<char>, JsonV)> = seq![("contents"@, JsonV::Arr(cj))];
    let m2 = opt_member(
        "generationConfig"@,
        match b.generation_config {
            Option::Some(c) => Option::Some(spec_config_json(c)),
            Option::None => Option::None,
        },
    );
    let m3 = opt_member(
        "systemInstruction"@,
        match b.system_instruction {
            Option::Some(c) => Option::Some(spec_content_json(c)),
            Option::None => Option::None,
        },
    );
    let ms = m1 + m2 + m3;
    if let Option::Some(c) = b.generation_config {
        lemma_config_json_wf(c);
    }
    if let Option::Some(c) = b.system_instruction {
        crate::body::lemma_content_json_wf(c);
    }
    assert forall|k: int|
        0 <= k < ms.len() implies crate::json::wf_json((#[trigger] ms[k]).1) by {
        if k < m1.len() {
            assert(ms[k] == m1[0]);
        } else if k < m1.len() + m2.len() {
            assert(ms[k] == m2[0]);
        } else {
            assert(ms[k] == m3[0]);
        }
    }
    crate::json::lemma_wf_members_of(ms);
    assert(crate::json::wf_json(spec_request_json(b)));
    crate::json::lemma_render_parse_round_trip(spec_request_json(b));
}

// ---------- the request envelope ----------

/// The outgoing body: the turns to send, optional generation options, and
/// an optional system instruction turn.
#[derive(Clone, Debug)]
pub struct GeminiRequestBody {
    pub contents: Vec<Content>,
    pub generation_config: Option<GenerationConfig>,
    pub system_instruction: Option<Content>,
}

/// The model of a `GeminiRequestBody`.
pub struct RequestBodyV {
    pub contents: Seq<ContentV>,
    pub generation_config: Option<GenerationConfigV>,
    pub system_instruction: Option<ContentV>,
}

impl DeepView for GeminiRequestBody {
    type V = RequestBodyV;

    open spec fn deep_view(&self) -> RequestBodyV {
        RequestBodyV {
            contents: self.contents.deep_view(),
            generation_config: self.generation_config.deep_view(),
            system_instruction: self.system_instruction.deep_view(),
        }
    }
}

/// The JSON forms of a list of turns.
pub open spec fn spec_contents_json(cs: Seq<ContentV>) -> Seq<JsonV>
    decreases cs.len(),
{
    if cs.len() == 0 {
        Seq::empty()
    } else {
        spec_contents_json(cs.drop_last()).push(spec_content_json(cs.last()))
    }
}

/// The JSON form of the request envelope.
pub open spec fn spec_request_json(b: RequestBodyV) -> JsonV {
    JsonV::Obj(
        seq![("contents"@, JsonV::Arr(spec_contents_json(b.contents)))] + opt_member(
            "generationConfig"@,
            match b.generation_config {
                Option::Some(c) => Option::Some(spec_config_json(c)),
                Option::None => Option::None,
            },
        ) + opt_member(
            "systemInstruction"@,
            match b.system_instruction {
                Option::Some(c) => Option::Some(spec_content_json(c)),
                Option::None => Option::None,
            },
        ),
    )
}

/// Serializes the request envelope.
pub fn request_to_json(b: &GeminiRequestBody) -> (r: JsonValue)
    ensures
        r@ == spec_request_json(b.deep_view()),
{
    let ghost bv = b.deep_view();
    let ghost m1: Seq<(Seq<char>, JsonV)> = seq![
        ("contents"@, JsonV::Arr(spec_contents_json(bv.contents))),
    ];
    let ghost m2 = opt_member(
        "generationConfig"@,
        match bv.generation_config {
            Option::Some(c) => Option::Some(spec_config_json(c)),
            Option::None => Option::None,
        },
    );
    let ghost m3 = opt_member(
        "systemInstruction"@,
        match bv.system_instruction {
            Option::Some(c) => Option::Some(spec_content_json(c)),
            Option::None => Option::None,
        },
    );
    let mut arr: Vec<JsonValue> = Vec::new();
    let n = b.contents.len();
    let mut i: usize = 0;
    while i < n
        invariant
            i <= n,
            n == b.contents@.len(),
            crate::json::view_elems(arr@) == spec_contents_json(
                b.contents.deep_view().take(i as int),
            ),
        decreases n - i,
    {
        let cj = crate::body::content_to_json(&b.contents[i]);
        proof {
            lemma_view_elems_push(arr@, cj);
            let dv = b.contents.deep_view();
            assert(dv.take(i + 1int).drop_last() =~= dv.take(i as int));
            assert(dv.take(i + 1int).last() == b.contents@[i as int].deep_view());
        }
        arr.push(cj);
        i = i + 1;
    }
    proof {
        assert(b.contents.deep_view().take(n as int) =~= b.contents.deep_view());
    }
    let mut ms: Vec<(String, JsonValue)> = Vec::new();
    let k1 = String::from_str("contents");
    let v1 = JsonValue::Arr(arr);
    proof {
        lemma_view_members_push(ms@, k1, v1);
    }
    ms.push((k1, v1));
    proof {
        assert(view_members(ms@) =~= m1);
    }
    if let Some(c) = &b.generation_config {
        let key = String::from_str("generationConfig");
        let v = config_to_json(c);
        proof {
            lemma_view_members_push(ms@, key, v);
        }
        ms.push((key, v));
    }
    proof {
        assert(view_members(ms@) =~= m1 + m2);
    }
    if let Some(c) = &b.system_instruction {
        let key = String::from_str("systemInstruction");
        let v = crate::body::content_to_json(c);
        proof {
            lemma_view_members_push(ms@, key, v);
        }
        ms.push((key, v));
    }
    proof {
        assert(view_members(ms@) =~= m1 + m2 + m3);
    }
    JsonValue::Obj(ms)
}

/// Serializes the request envelope to its JSON text.
pub fn request_to_json_string(b: &GeminiRequestBody) -> (r: String)
    ensures
        r@ == crate::json::spec_render(spec_request_json(b.deep_view())),
{
    let v = request_to_json(b);
    crate::json::render_json(&v)
}

} // verus!
