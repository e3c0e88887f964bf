//! A small JSON document model with a verified parser and renderer.

use vstd::prelude::*;

verus! {

/// A parsed JSON value. Numbers that are plain integers fitting `i64` are
/// held as `Int`; any other numeric lexeme is kept verbatim in `NumRaw`.
pub enum JsonValue {
    Null,
    Bool(bool),
    Int(i64),
    NumRaw(String),
    Str(String),
    Arr(Vec<JsonValue>),
    Obj(Vec<(String, JsonValue)>),
}

/// The mathematical model of a JSON value.
pub enum JsonV {
    Null,
    Bool(bool),
    Int(int),
    NumRaw(Seq<char>),
    Str(Seq<char>),
    Arr(Seq<JsonV>),
    Obj(Seq<(Seq<char>, JsonV)>),
}

impl View for JsonValue {
    type V = JsonV;

    open spec fn view(&self) -> JsonV
        decreases self,
    {
        match self {
            JsonValue::Null => JsonV::Null,
            JsonValue::Bool(b) => JsonV::Bool(*b),
            JsonValue::Int(i) => JsonV::Int(*i as int),
            JsonValue::NumRaw(s) => JsonV::NumRaw(s@),
            JsonValue::Str(s) => JsonV::Str(s@),
            JsonValue::Arr(elems) => JsonV::Arr(view_elems(elems@)),
            JsonValue::Obj(members) => JsonV::Obj(view_members(members@)),
        }
    }
}

/// The models of a sequence of JSON values.
pub open spec fn view_elems(s: Seq<JsonValue>) -> Seq<JsonV>
    decreases s,
{
    if s.len() == 0 {
        Seq::empty()
    } else {
        view_elems(s.drop_last()).push(s.last()@)
    }
}

/// The models of a sequence of object members.
pub open spec fn view_members(s: Seq<(String, JsonValue)>) -> Seq<(Seq<char>, JsonV)>
    decreases s,
{
    if s.len() == 0 {
        Seq::empty()
    } else {
        view_members(s.drop_last()).push((s.last().0@, s.last().1@))
    }
}

/// `view_elems` is the element-wise model.
pub proof fn lemma_view_elems(s: Seq<JsonValue>)
    ensures
        view_elems(s).len() == s.len(),
        forall|i: int| 0 <= i < s.len() ==> view_elems(s)[i] == #[trigger] s[i]@,
    decreases s.len(),
{
    if s.len() > 0 {
        assert(view_elems(s) == view_elems(s.drop_last()).push(s.last()@));
        lemma_view_elems(s.drop_last());
        assert forall|i: int| 0 <= i < s.len() implies view_elems(s)[i] == #[trigger] s[i]@ by {
            if i < s.len() - 1 {
                assert(s.drop_last()[i] == s[i]);
            } else {
                assert(view_elems(s)[i] == s.last()@);
            }
        }
    }
}

/// `view_members` is the member-wise model.
pub proof fn lemma_view_members(s: Seq<(String, JsonValue)>)
    ensures
        view_members(s).len() == s.len(),
        forall|i: int|
            0 <= i < s.len() ==> view_members(s)[i] == (#[trigger] s[i].0@, s[i].1@),
    decreases s.len(),
{
    if s.len() > 0 {
        lemma_view_members(s.drop_last());
        assert forall|i: int|
            0 <= i < s.len() implies view_members(s)[i] == (#[trigger] s[i].0@, s[i].1@) by {
            if i < s.len() - 1 {
                assert(s.drop_last()[i] == s[i]);
            } else {
                assert(view_members(s)[i] == (s.last().0@, s.last().1@));
            }
        }
    }
}

/// Pushing one value extends the element-wise model.
pub proof fn lemma_view_elems_push(s: Seq<JsonValue>, v: JsonValue)
    ensures
        view_elems(s.push(v)) == view_elems(s).push(v@),
{
    assert(s.push(v).drop_last() =~= s);
    assert(s.push(v).last() == v);
}

/// Pushing one member extends the member-wise model.
pub proof fn lemma_view_members_push(s: Seq<(String, JsonValue)>, key: String, v: JsonValue)
    ensures
        view_members(s.push((key, v))) == view_members(s).push((key@, v@)),
{
    assert(s.push((key, v)).drop_last() =~= s);
    assert(s.push((key, v)).last() == (key, v));
}

// ---------- characters and digits ----------

/// JSON whitespace.
pub open spec fn is_ws(c: char) -> bool {
    c == ' ' || c == '\t' || c == '\n' || c == '\r'
}

/// A decimal digit.
pub open spec fn is_digit(c: char) -> bool {
    '0' <= c && c <= '9'
}

/// The value of a decimal digit.
pub open spec fn digit_val(c: char) -> int {
    c as u32 - '0' as u32
}

/// The character of a decimal digit value.
pub open spec fn digit_char(d: int) -> char {
    (((d + 48) as u8) as char)
}

fn digit_char_exec(d: u8) -> (c: char)
    requires
        d < 10,
    ensures
        c == digit_char(d as int),
{
    (d + 48) as char
}

/// The decimal digits of a number, most significant first.
pub open spec fn spec_u64_digits(n: nat) -> Seq<char>
    decreases n,
{
    if n < 10 {
        seq![digit_char(n as int)]
    } else {
        spec_u64_digits(n / 10).push(digit_char((n % 10) as int))
    }
}

/// The decimal rendering of a signed number.
pub open spec fn spec_i64_str(n: int) -> Seq<char> {
    if n < 0 {
        seq!['-'] + spec_u64_digits((-n) as nat)
    } else {
        spec_u64_digits(n as nat)
    }
}

pub(crate) fn push_u64_digits(n: u64, out: &mut Vec<char>)
    ensures
        final(out)@ == old(out)@ + spec_u64_digits(n as nat),
    decreases n,
{
    if n < 10 {
        out.push(digit_char_exec(n as u8));
    } else {
        push_u64_digits(n / 10, out);
        out.push(digit_char_exec((n % 10) as u8));
        assert(out@ =~= old(out)@ + spec_u64_digits(n as nat));
    }
}

fn push_i64_str(n: i64, out: &mut Vec<char>)
    ensures
        final(out)@ == old(out)@ + spec_i64_str(n as int),
{
    if n < 0 {
        out.push('-');
        let mag: u64 = if n == i64::MIN {
            9223372036854775808u64
        } else {
            (-n) as u64
        };
        assert(mag as nat == (-(n as int)) as nat);
        push_u64_digits(mag, out);
        assert(out@ =~= old(out)@ + spec_i64_str(n as int));
    } else {
        push_u64_digits(n as u64, out);
    }
}

// ---------- rendering ----------

/// A hexadecimal digit character for a value below 16.
pub open spec fn hex_char(d: int) -> char {
    if d < 10 {
        digit_char(d)
    } else {
        (((d + 87) as u8) as char)  // 'a' is 97
    }
}

fn hex_char_exec(d: u8) -> (c: char)
    requires
        d < 16,
    ensures
        c == hex_char(d as int),
{
    if d < 10 {
        digit_char_exec(d)
    } else {
        (d + 87) as char
    }
}

/// How one character is escaped inside a JSON string.
pub open spec fn spec_escape_char(c: char) -> Seq<char> {
    if c == '"' {
        seq!['\\', '"']
    } else if c == '\\' {
        seq!['\\', '\\']
    } else if c == '\n' {
        seq!['\\', 'n']
    } else if c == '\r' {
        seq!['\\', 'r']
    } else if c == '\t' {
        seq!['\\', 't']
    } else if (c as u32) < 0x20 {
        seq!['\\', 'u', '0', '0', hex_char((c as u32 / 16) as int), hex_char((c as u32 % 16) as int)]
    } else {
        seq![c]
    }
}

/// The escaped form of a string's characters.
pub open spec fn spec_escape(s: Seq<char>) -> Seq<char>
    decreases s.len(),
{
    if s.len() == 0 {
        Seq::empty()
    } else {
        spec_escape(s.drop_last()) + spec_escape_char(s.last())
    }
}

/// The canonical rendering of a JSON value. `NumRaw` lexemes are emitted
/// verbatim.
pub open spec fn spec_render(v: JsonV) -> Seq<char>
    decreases v,
{
    match v {
        JsonV::Null => seq!['n', 'u', 'l', 'l'],
        JsonV::Bool(b) => if b {
            seq!['t', 'r', 'u', 'e']
        } else {
            seq!['f', 'a', 'l', 's', 'e']
        },
        JsonV::Int(i) => spec_i64_str(i),
        JsonV::NumRaw(s) => s,
        JsonV::Str(s) => seq!['"'] + spec_escape(s) + seq!['"'],
        JsonV::Arr(elems) => seq!['['] + spec_render_elems(elems) + seq![']'],
        JsonV::Obj(ms) => seq!['{'] + spec_render_members(ms) + seq!['}'],
    }
}

/// Comma-separated renderings of array elements.
pub open spec fn spec_render_elems(elems: Seq<JsonV>) -> Seq<char>
    decreases elems,
{
    if elems.len() == 0 {
        Seq::empty()
    } else if elems.len() == 1 {
        spec_render(elems[0])
    } else {
        spec_render_elems(elems.drop_last()) + seq![','] + spec_render(elems.last())
    }
}

/// Comma-separated renderings of object members.
pub open spec fn spec_render_members(ms: Seq<(Seq<char>, JsonV)>) -> Seq<char>
    decreases ms,
{
    if ms.len() == 0 {
        Seq::empty()
    } else if ms.len() == 1 {
        spec_render_member(ms[0])
    } else {
        spec_render_members(ms.drop_last()) + seq![','] + spec_render_member(ms.last())
    }
}

/// The rendering of one object member.
pub open spec fn spec_render_member(m: (Seq<char>, JsonV)) -> Seq<char>
    decreases m,
{
    seq!['"'] + spec_escape(m.0) + seq!['"', ':'] + spec_render(m.1)
}

pub(crate) fn push_str_chars(s: &str, out: &mut Vec<char>)
    ensures
        final(out)@ == old(out)@ + s@,
{
    let n = s.unicode_len();
    let mut k: usize = 0;
    while k < n
        invariant
            n == s@.len(),
            k <= n,
            out@ == old(out)@ + s@.take(k as int),
        decreases n - k,
    {
        out.push(s.get_char(k));
        assert(s@.take(k + 1int) =~= s@.take(k as int).push(s@[k as int]));
        assert(out@ =~= old(out)@ + s@.take(k + 1int));
        k = k + 1;
    }
    assert(s@.take(n as int) =~= s@);
}

fn push_escaped(s: &str, out: &mut Vec<char>)
    ensures
        final(out)@ == old(out)@ + spec_escape(s@),
{
    let n = s.unicode_len();
    let mut k: usize = 0;
    while k < n
        invariant
            n == s@.len(),
            k <= n,
            out@ == old(out)@ + spec_escape(s@.take(k as int)),
        decreases n - k,
    {
        let c = s.get_char(k);
        if c == '"' {
            out.push('\\');
            out.push('"');
        } else if c == '\\' {
            out.push('\\');
            out.push('\\');
        } else if c == '\n' {
            out.push('\\');
            out.push('n');
        } else if c == '\r' {
            out.push('\\');
            out.push('r');
        } else if c == '\t' {
            out.push('\\');
            out.push('t');
        } else if (c as u32) < 0x20 {
            out.push('\\');
            out.push('u');
            out.push('0');
            out.push('0');
            out.push(hex_char_exec((c as u32 / 16) as u8));
            out.push(hex_char_exec((c as u32 % 16) as u8));
        } else {
            out.push(c);
        }
        proof {
            assert(s@.take(k + 1int).drop_last() =~= s@.take(k as int));
            assert(s@.take(k + 1int).last() == c);
            assert(spec_escape(s@.take(k + 1int)) == spec_escape(s@.take(k as int))
                + spec_escape_char(c));
            assert(out@ =~= old(out)@ + spec_escape(s@.take(k + 1int)));
        }
        k = k + 1;
    }
    assert(s@.take(n as int) =~= s@);
}

/// Appends the rendering of `v` to `out`.
pub fn push_render(v: &JsonValue, out: &mut Vec<char>)
    ensures
        final(out)@ == old(out)@ + spec_render(v@),
    decreases *v, 0nat,
{
    match v {
        JsonValue::Null => {
            out.push('n');
            out.push('u');
            out.push('l');
            out.push('l');
            assert(out@ =~= old(out)@ + spec_render(v@));
        },
        JsonValue::Bool(b) => {
            if *b {
                out.push('t');
                out.push('r');
                out.push('u');
                out.push('e');
            } else {
                out.push('f');
                out.push('a');
                out.push('l');
                out.push('s');
                out.push('e');
            }
            assert(out@ =~= old(out)@ + spec_render(v@));
        },
        JsonValue::Int(i) => {
            push_i64_str(*i, out);
        },
        JsonValue::NumRaw(s) => {
            push_str_chars(s.as_str(), out);
        },
        JsonValue::Str(s) => {
            out.push('"');
            push_escaped(s.as_str(), out);
            out.push('"');
            assert(out@ =~= old(out)@ + spec_render(v@));
        },
        JsonValue::Arr(elems) => {
            out.push('[');
            push_render_elems(elems, 0, out);
            out.push(']');
            proof {
                lemma_view_elems(elems@);
                assert(view_elems(elems@).skip(0) =~= view_elems(elems@));
                assert(out@ =~= old(out)@ + spec_render(v@));
            }
        },
        JsonValue::Obj(ms) => {
            out.push('{');
            push_render_members(ms, 0, out);
            out.push('}');
            proof {
                lemma_view_members(ms@);
                assert(view_members(ms@).skip(0) =~= view_members(ms@));
                assert(out@ =~= old(out)@ + spec_render(v@));
            }
        },
    }
}

fn push_render_elems(elems: &Vec<JsonValue>, start: usize, out: &mut Vec<char>)
    requires
        start <= elems@.len(),
    ensures
        final(out)@ == old(out)@ + spec_render_elems(view_elems(elems@).skip(start as int)),
    decreases elems@, 1nat, elems@.len() - start,
{
    proof {
        lemma_view_elems(elems@);
    }
    if start < elems.len() {
        push_render(&elems[start], out);
        if start + 1 < elems.len() {
            out.push(',');
            push_render_elems(elems, start + 1, out);
            proof {
                lemma_render_elems_cons(view_elems(elems@).skip(start as int));
                assert(view_elems(elems@).skip(start as int).drop_first() =~= view_elems(
                    elems@,
                ).skip(start + 1int));
                assert(out@ =~= old(out)@ + spec_render_elems(
                    view_elems(elems@).skip(start as int),
                ));
            }
        } else {
            proof {
                let sk = view_elems(elems@).skip(start as int);
                assert(sk.len() == 1);
                assert(sk[0] == elems@[start as int]@);
                assert(out@ =~= old(out)@ + spec_render_elems(sk));
            }
        }
    } else {
        proof {
            assert(view_elems(elems@).skip(start as int).len() == 0);
            assert(out@ =~= old(out)@ + spec_render_elems(
                view_elems(elems@).skip(start as int),
            ));
        }
    }
}

fn push_render_members(ms: &Vec<(String, JsonValue)>, start: usize, out: &mut Vec<char>)
    requires
        start <= ms@.len(),
    ensures
        final(out)@ == old(out)@ + spec_render_members(view_members(ms@).skip(start as int)),
    decreases ms@, 1nat, ms@.len() - start,
{
    proof {
        lemma_view_members(ms@);
    }
    if start < ms.len() {
        out.push('"');
        push_escaped(ms[start].0.as_str(), out);
        out.push('"');
        out.push(':');
        push_render(&ms[start].1, out);
        proof {
            assert(view_members(ms@).skip(start as int)[0] == (ms@[start as int].0@, ms@[
                start as int].1@));
        }
        if start + 1 < ms.len() {
            out.push(',');
            push_render_members(ms, start + 1, out);
            proof {
                lemma_render_members_cons(view_members(ms@).skip(start as int));
                assert(view_members(ms@).skip(start as int).drop_first() =~= view_members(
                    ms@,
                ).skip(start + 1int));
                assert(out@ =~= old(out)@ + spec_render_members(
                    view_members(ms@).skip(start as int),
                ));
            }
        } else {
            proof {
                let sk = view_members(ms@).skip(start as int);
                assert(sk.len() == 1);
                assert(spec_render_members(sk) == spec_render_member(sk[0]));
                assert(spec_render_member(sk[0]) == seq!['"'] + spec_escape(
                    ms@[start as int].0@,
                ) + seq!['"', ':'] + spec_render(ms@[start as int].1@));
                assert(out@ =~= old(out)@ + spec_render_members(sk));
            }
        }
    } else {
        proof {
            assert(view_members(ms@).skip(start as int).len() == 0);
            assert(out@ =~= old(out)@ + spec_render_members(
                view_members(ms@).skip(start as int),
            ));
        }
    }
}

/// Rendering a non-empty element list splits off its head.
proof fn lemma_render_elems_cons(elems: Seq<JsonV>)
    requires
        elems.len() >= 2,
    ensures
        spec_render_elems(elems) == spec_render(elems[0]) + seq![','] + spec_render_elems(
            elems.drop_first(),
        ),
    decreases elems.len(),
{
    if elems.len() == 2 {
        assert(elems.drop_last() =~= seq![elems[0]]);
        assert(elems.drop_first() =~= seq![elems[1]]);
        assert(spec_render_elems(seq![elems[0]]) == spec_render(elems[0]));
        assert(spec_render_elems(seq![elems[1]]) == spec_render(elems[1]));
    } else {
        lemma_render_elems_cons(elems.drop_last());
        assert(elems.drop_last()[0] == elems[0]);
        assert(elems.drop_last().drop_first() =~= elems.drop_first().drop_last());
        assert(elems.drop_first().len() >= 2);
        assert(elems.drop_first().last() == elems.last());
        assert(spec_render_elems(elems.drop_first()) == spec_render_elems(
            elems.drop_first().drop_last(),
        ) + seq![','] + spec_render(elems.last()));
        assert(spec_render_elems(elems) =~= spec_render(elems[0]) + seq![',']
            + spec_render_elems(elems.drop_first()));
    }
}

/// Rendering a non-empty member list splits off its head.
proof fn lemma_render_members_cons(ms: Seq<(Seq<char>, JsonV)>)
    requires
        ms.len() >= 2,
    ensures
        spec_render_members(ms) == spec_render_member(ms[0]) + seq![','] + spec_render_members(
            ms.drop_first(),
        ),
    decreases ms.len(),
{
    if ms.len() == 2 {
        assert(ms.drop_last() =~= seq![ms[0]]);
        assert(ms.drop_first() =~= seq![ms[1]]);
        assert(spec_render_members(seq![ms[0]]) == spec_render_member(ms[0]));
        assert(spec_render_members(seq![ms[1]]) == spec_render_member(ms[1]));
    } else {
        lemma_render_members_cons(ms.drop_last());
        assert(ms.drop_last()[0] == ms[0]);
        assert(ms.drop_last().drop_first() =~= ms.drop_first().drop_last());
        assert(ms.drop_first().len() >= 2);
        assert(ms.drop_first().last() == ms.last());
        assert(spec_render_members(ms.drop_first()) == spec_render_members(
            ms.drop_first().drop_last(),
        ) + seq![','] + spec_render_member(ms.last()));
        assert(spec_render_members(ms) =~= spec_render_member(ms[0]) + seq![',']
            + spec_render_members(ms.drop_first()));
    }
}

// ---------- the grammar, as recursive spec functions ----------
//
// Every parsing function takes the character sequence and a position; the
// recursive ones also take fuel, which bounds the depth of the recursion.
// The library's parse function runs the grammar with fuel proportional to
// the input length, which every JSON document within that length satisfies.

/// The first position at or after `i` holding no whitespace.
pub open spec fn sp_skip_ws(s: Seq<char>, i: int) -> int
    decreases s.len() - i,
{
    if 0 <= i && i < s.len() && is_ws(s[i]) {
        sp_skip_ws(s, i + 1)
    } else {
        i
    }
}

/// The first position at or after `i` holding no decimal digit.
pub open spec fn sp_digits_end(s: Seq<char>, i: int) -> int
    decreases s.len() - i,
{
    if 0 <= i && i < s.len() && is_digit(s[i]) {
        sp_digits_end(s, i + 1)
    } else {
        i
    }
}

/// A digit run stays within the input and holds only digits.
pub proof fn lemma_digits_end(s: Seq<char>, i: int)
    requires
        0 <= i <= s.len(),
    ensures
        i <= sp_digits_end(s, i) <= s.len(),
        forall|k: int| i <= k < sp_digits_end(s, i) ==> is_digit(#[trigger] s[k]),
    decreases s.len() - i,
{
    if i < s.len() && is_digit(s[i]) {
        lemma_digits_end(s, i + 1);
    }
}

/// The value of a run of decimal digit characters.
pub open spec fn digits_val(ds: Seq<char>) -> int
    decreases ds.len(),
{
    if ds.len() == 0 {
        0
    } else {
        digits_val(ds.drop_last()) * 10 + digit_val(ds.last())
    }
}

/// Ten to the given power.
pub open spec fn pow10(n: nat) -> int
    decreases n,
{
    if n == 0 {
        1
    } else {
        10 * pow10((n - 1) as nat)
    }
}

/// A digit run's value is bounded by ten to its length.
pub proof fn lemma_digits_val_bound(ds: Seq<char>)
    requires
        forall|k: int| 0 <= k < ds.len() ==> is_digit(#[trigger] ds[k]),
    ensures
        0 <= digits_val(ds) < pow10(ds.len()),
    decreases ds.len(),
{
    if ds.len() > 0 {
        lemma_digits_val_bound(ds.drop_last());
    }
}

/// Where a number's exponent part ends; the start itself when none is there.
pub open spec fn sp_exp_end(s: Seq<char>, i: int) -> int {
    if 0 <= i && i < s.len() && (s[i] == 'e' || s[i] == 'E') {
        let k = if i + 1 < s.len() && (s[i + 1] == '+' || s[i + 1] == '-') {
            i + 2
        } else {
            i + 1
        };
        if k < s.len() && is_digit(s[k]) {
            sp_digits_end(s, k)
        } else {
            i
        }
    } else {
        i
    }
}

/// Parses a number at `i`. A plain integer of at most 18 digits becomes
/// `Int`; any other lexeme is kept verbatim as `NumRaw`.
pub open spec fn sp_number(s: Seq<char>, i: int) -> Option<(JsonV, int)> {
    let neg = 0 <= i && i < s.len() && s[i] == '-';
    let j0 = if neg {
        i + 1
    } else {
        i
    };
    if !(0 <= j0 && j0 < s.len() && is_digit(s[j0])) {
        None
    } else {
        let j1 = sp_digits_end(s, j0);
        let j2 = if j1 < s.len() && s[j1] == '.' && j1 + 1 < s.len() && is_digit(s[j1 + 1]) {
            sp_digits_end(s, j1 + 1)
        } else {
            j1
        };
        let j3 = sp_exp_end(s, j2);
        if j2 == j1 && j3 == j1 {
            let ds = s.subrange(j0, j1);
            if ds.len() <= 18 {
                let v = if neg {
                    -digits_val(ds)
                } else {
                    digits_val(ds)
                };
                Some((JsonV::Int(v), j1))
            } else {
                Some((JsonV::NumRaw(s.subrange(i, j1)), j1))
            }
        } else {
            Some((JsonV::NumRaw(s.subrange(i, j3)), j3))
        }
    }
}

/// A hexadecimal digit.
pub open spec fn is_hex(c: char) -> bool {
    is_digit(c) || ('a' <= c && c <= 'f') || ('A' <= c && c <= 'F')
}

/// The value of a hexadecimal digit.
pub open spec fn hex_val(c: char) -> int {
    if is_digit(c) {
        digit_val(c)
    } else if 'a' <= c && c <= 'f' {
        c as u32 - 87
    } else {
        c as u32 - 55
    }
}

/// Four hexadecimal digits stand at `i`.
pub open spec fn hex4_ok(s: Seq<char>, i: int) -> bool {
    0 <= i && i + 4 <= s.len() && is_hex(s[i]) && is_hex(s[i + 1]) && is_hex(s[i + 2]) && is_hex(
        s[i + 3],
    )
}

/// The value of the four hexadecimal digits at `i`.
pub open spec fn hex4_val(s: Seq<char>, i: int) -> int {
    hex_val(s[i]) * 4096 + hex_val(s[i + 1]) * 256 + hex_val(s[i + 2]) * 16 + hex_val(s[i + 3])
}

/// Parses one escape sequence; `i` is the position after the backslash.
/// A high surrogate escape must be followed by a low surrogate escape; the
/// pair yields the combined character.
pub open spec fn sp_escape(s: Seq<char>, i: int) -> Option<(char, int)> {
    if !(0 <= i && i < s.len()) {
        None
    } else {
        let c = s[i];
        if c == '"' {
            Some(('"', i + 1))
        } else if c == '\\' {
            Some(('\\', i + 1))
        } else if c == '/' {
            Some(('/', i + 1))
        } else if c == 'b' {
            Some(('\u{8}', i + 1))
        } else if c == 'f' {
            Some(('\u{c}', i + 1))
        } else if c == 'n' {
            Some(('\n', i + 1))
        } else if c == 'r' {
            Some(('\r', i + 1))
        } else if c == 't' {
            Some(('\t', i + 1))
        } else if c == 'u' {
            if !hex4_ok(s, i + 1) {
                None
            } else {
                let code = hex4_val(s, i + 1);
                if 0xD800 <= code && code < 0xDC00 {
                    if i + 11 <= s.len() && s[i + 5] == '\\' && s[i + 6] == 'u' && hex4_ok(
                        s,
                        i + 7,
                    ) {
                        let lo = hex4_val(s, i + 7);
                        if 0xDC00 <= lo && lo < 0xE000 {
                            let cp = 0x10000 + (code - 0xD800) * 0x400 + (lo - 0xDC00);
                            Some(((cp as u32) as char, i + 11))
                        } else {
                            None
                        }
                    } else {
                        None
                    }
                } else if 0xDC00 <= code && code < 0xE000 {
                    None
                } else {
                    Some((((code as u32) as char), i + 5))
                }
            }
        } else {
            None
        }
    }
}

/// Parses a string body; `i` is the position after the opening quote.
/// Returns the content and the position after the closing quote.
pub open spec fn sp_string_body(s: Seq<char>, i: int, fuel: nat) -> Option<(Seq<char>, int)>
    decreases fuel,
{
    if fuel == 0 {
        None
    } else if !(0 <= i && i < s.len()) {
        None
    } else if s[i] == '"' {
        Some((Seq::empty(), i + 1))
    } else if s[i] == '\\' {
        match sp_escape(s, i + 1) {
            None => None,
            Some((c, j)) => match sp_string_body(s, j, (fuel - 1) as nat) {
                None => None,
                Some((rest, k)) => Some((seq![c] + rest, k)),
            },
        }
    } else if (s[i] as u32) < 0x20 {
        None
    } else {
        match sp_string_body(s, i + 1, (fuel - 1) as nat) {
            None => None,
            Some((rest, k)) => Some((seq![s[i]] + rest, k)),
        }
    }
}

/// Parses one value at `i`, which must not hold whitespace.
pub open spec fn sp_value(s: Seq<char>, i: int, fuel: nat) -> Option<(JsonV, int)>
    decreases fuel,
{
    if fuel == 0 {
        None
    } else if !(0 <= i && i < s.len()) {
        None
    } else {
        let c = s[i];
        if c == 'n' {
            if i + 4 <= s.len() && s[i + 1] == 'u' && s[i + 2] == 'l' && s[i + 3] == 'l' {
                Some((JsonV::Null, i + 4))
            } else {
                None
            }
        } else if c == 't' {
            if i + 4 <= s.len() && s[i + 1] == 'r' && s[i + 2] == 'u' && s[i + 3] == 'e' {
                Some((JsonV::Bool(true), i + 4))
            } else {
                None
            }
        } else if c == 'f' {
            if i + 5 <= s.len() && s[i + 1] == 'a' && s[i + 2] == 'l' && s[i + 3] == 's' && s[i
                + 4] == 'e' {
                Some((JsonV::Bool(false), i + 5))
            } else {
                None
            }
        } else if c == '"' {
            match sp_string_body(s, i + 1, (fuel - 1) as nat) {
                None => None,
                Some((cs, j)) => Some((JsonV::Str(cs), j)),
            }
        } else if c == '[' {
            sp_array(s, i + 1, (fuel - 1) as nat)
        } else if c == '{' {
            sp_object(s, i + 1, (fuel - 1) as nat)
        } else if c == '-' || is_digit(c) {
            sp_number(s, i)
        } else {
            None
        }
    }
}

/// Parses the remainder of an array; `i` is the position after `[`.
pub open spec fn sp_array(s: Seq<char>, i: int, fuel: nat) -> Option<(JsonV, int)>
    decreases fuel,
{
    if fuel == 0 {
        None
    } else {
        let j = sp_skip_ws(s, i);
        if j < s.len() && s[j] == ']' {
            Some((JsonV::Arr(Seq::empty()), j + 1))
        } else {
            match sp_elements(s, j, (fuel - 1) as nat) {
                None => None,
                Some((vs, k)) => Some((JsonV::Arr(vs), k)),
            }
        }
    }
}

/// Parses one or more comma-separated elements and the closing `]`.
pub open spec fn sp_elements(s: Seq<char>, i: int, fuel: nat) -> Option<(Seq<JsonV>, int)>
    decreases fuel,
{
    if fuel == 0 {
        None
    } else {
        match sp_value(s, i, (fuel - 1) as nat) {
            None => None,
            Some((v, j)) => {
                let k = sp_skip_ws(s, j);
                if k < s.len() && s[k] == ',' {
                    let m = sp_skip_ws(s, k + 1);
                    match sp_elements(s, m, (fuel - 1) as nat) {
                        None => None,
                        Some((rest, e)) => Some((seq![v] + rest, e)),
                    }
                } else if k < s.len() && s[k] == ']' {
                    Some((seq![v], k + 1))
                } else {
                    None
                }
            },
        }
    }
}

/// Parses the remainder of an object; `i` is the position after `{`.
pub open spec fn sp_object(s: Seq<char>, i: int, fuel: nat) -> Option<(JsonV, int)>
    decreases fuel,
{
    if fuel == 0 {
        None
    } else {
        let j = sp_skip_ws(s, i);
        if j < s.len() && s[j] == '}' {
            Some((JsonV::Obj(Seq::empty()), j + 1))
        } else {
            match sp_members(s, j, (fuel - 1) as nat) {
                None => None,
                Some((ms, k)) => Some((JsonV::Obj(ms), k)),
            }
        }
    }
}

/// Parses one or more `"key": value` members and the closing `}`.
pub open spec fn sp_members(s: Seq<char>, i: int, fuel: nat) -> Option<
    (Seq<(Seq<char>, JsonV)>, int),
>
    decreases fuel,
{
    if fuel == 0 {
        None
    } else if !(0 <= i && i < s.len() && s[i] == '"') {
        None
    } else {
        match sp_string_body(s, i + 1, (fuel - 1) as nat) {
            None => None,
            Some((key, j)) => {
                let k = sp_skip_ws(s, j);
                if !(k < s.len() && s[k] == ':') {
                    None
                } else {
                    let m = sp_skip_ws(s, k + 1);
                    match sp_value(s, m, (fuel - 1) as nat) {
                        None => None,
                        Some((v, p)) => {
                            let q = sp_skip_ws(s, p);
                            if q < s.len() && s[q] == ',' {
                                let r = sp_skip_ws(s, q + 1);
                                match sp_members(s, r, (fuel - 1) as nat) {
                                    None => None,
                                    Some((rest, e)) => Some((seq![(key, v)] + rest, e)),
                                }
                            } else if q < s.len() && s[q] == '}' {
                                Some((seq![(key, v)], q + 1))
                            } else {
                                None
                            }
                        },
                    }
                }
            },
        }
    }
}

/// The fuel the library grants the grammar: ample for any document of the
/// input's length.
pub open spec fn spec_fuel(s: Seq<char>) -> nat {
    (4 * s.len() + 64) as nat
}

/// Parses a whole document: one value, surrounded by whitespace only.
pub open spec fn spec_parse_json(s: Seq<char>) -> Option<JsonV> {
    let i = sp_skip_ws(s, 0);
    match sp_value(s, i, spec_fuel(s)) {
        None => None,
        Some((v, j)) => if sp_skip_ws(s, j) == s.len() {
            Some(v)
        } else {
            None
        },
    }
}

// ---------- the parser ----------

/// Relation between an executable value-parse result and the grammar's.
pub open spec fn value_matches(r: Option<(JsonValue, usize)>, sp: Option<(JsonV, int)>) -> bool {
    match sp {
        Option::None => r is None,
        Option::Some((sv, sj)) => r matches Some((v, j)) && v@ == sv && j as int == sj,
    }
}

/// Relation between an executable element-list result and the grammar's.
pub open spec fn elements_match(
    r: Option<(Vec<JsonValue>, usize)>,
    sp: Option<(Seq<JsonV>, int)>,
) -> bool {
    match sp {
        Option::None => r is None,
        Option::Some((vs, sj)) => r matches Some((rv, j)) && view_elems(rv@) == vs && j as int
            == sj,
    }
}

/// Relation between an executable member-list result and the grammar's.
pub open spec fn members_match(
    r: Option<(Vec<(String, JsonValue)>, usize)>,
    sp: Option<(Seq<(Seq<char>, JsonV)>, int)>,
) -> bool {
    match sp {
        Option::None => r is None,
        Option::Some((ms, sj)) => r matches Some((rm, j)) && view_members(rm@) == ms && j as int
            == sj,
    }
}

/// Prefixes a parsed character run onto a string-body result.
pub open spec fn str_extend(pre: Seq<char>, t: Option<(Seq<char>, int)>) -> Option<
    (Seq<char>, int),
> {
    match t {
        Option::None => Option::None,
        Option::Some((rest, e)) => Option::Some((pre + rest, e)),
    }
}

/// Prefixes parsed elements onto an element-list result.
pub open spec fn elems_extend(pre: Seq<JsonV>, t: Option<(Seq<JsonV>, int)>) -> Option<
    (Seq<JsonV>, int),
> {
    match t {
        Option::None => Option::None,
        Option::Some((rest, e)) => Option::Some((pre + rest, e)),
    }
}

/// Prefixes parsed members onto a member-list result.
pub open spec fn members_extend(
    pre: Seq<(Seq<char>, JsonV)>,
    t: Option<(Seq<(Seq<char>, JsonV)>, int)>,
) -> Option<(Seq<(Seq<char>, JsonV)>, int)> {
    match t {
        Option::None => Option::None,
        Option::Some((rest, e)) => Option::Some((pre + rest, e)),
    }
}

fn is_ws_exec(c: char) -> (r: bool)
    ensures
        r == is_ws(c),
{
    c == ' ' || c == '\t' || c == '\n' || c == '\r'
}

fn is_digit_exec(c: char) -> (r: bool)
    ensures
        r == is_digit(c),
{
    let u = c as u32;
    48 <= u && u <= 57
}

fn skip_ws(cs: &Vec<char>, i: usize) -> (r: usize)
    requires
        i <= cs@.len(),
    ensures
        r as int == sp_skip_ws(cs@, i as int),
        i <= r <= cs@.len(),
{
    let n = cs.len();
    let mut j: usize = i;
    while j < n && is_ws_exec(cs[j])
        invariant
            i <= j <= n,
            n == cs@.len(),
            sp_skip_ws(cs@, i as int) == sp_skip_ws(cs@, j as int),
        decreases n - j,
    {
        j = j + 1;
    }
    j
}

pub(crate) fn digits_end(cs: &Vec<char>, i: usize) -> (r: usize)
    requires
        i <= cs@.len(),
    ensures
        r as int == sp_digits_end(cs@, i as int),
        i <= r <= cs@.len(),
{
    let n = cs.len();
    let mut j: usize = i;
    while j < n && is_digit_exec(cs[j])
        invariant
            i <= j <= n,
            n == cs@.len(),
            sp_digits_end(cs@, i as int) == sp_digits_end(cs@, j as int),
        decreases n - j,
    {
        j = j + 1;
    }
    j
}

fn exp_end(cs: &Vec<char>, i: usize) -> (r: usize)
    requires
        i <= cs@.len(),
    ensures
        r as int == sp_exp_end(cs@, i as int),
        i <= r <= cs@.len(),
{
    let n = cs.len();
    if i < n && (cs[i] == 'e' || cs[i] == 'E') {
        let k: usize = if n - i >= 2 && (cs[i + 1] == '+' || cs[i + 1] == '-') {
            i + 2
        } else {
            i + 1
        };
        if k < n && is_digit_exec(cs[k]) {
            digits_end(cs, k)
        } else {
            i
        }
    } else {
        i
    }
}

proof fn lemma_pow10_18()
    ensures
        pow10(18) == 1000000000000000000,
{
    reveal_with_fuel(pow10, 20);
}

/// Ten to a power of at most seven is at most ten million.
pub proof fn lemma_pow10_le_7(n: nat)
    requires
        n <= 7,
    ensures
        pow10(n) <= 10000000,
{
    lemma_pow10_mono(n, 7);
    reveal_with_fuel(pow10, 9);
}

proof fn lemma_pow10_pos(n: nat)
    ensures
        pow10(n) >= 1,
    decreases n,
{
    if n > 0 {
        lemma_pow10_pos((n - 1) as nat);
    }
}

pub(crate) proof fn lemma_pow10_mono(a: nat, b: nat)
    requires
        a <= b,
    ensures
        pow10(a) <= pow10(b),
        pow10(a) >= 1,
    decreases b,
{
    lemma_pow10_pos(a);
    if a < b {
        lemma_pow10_mono(a, (b - 1) as nat);
    }
}

pub(crate) fn parse_digits_u64(cs: &Vec<char>, j0: usize, j1: usize) -> (acc: u64)
    requires
        j0 <= j1 <= cs@.len(),
        j1 - j0 <= 18,
        forall|k: int| j0 <= k < j1 ==> is_digit(#[trigger] cs@[k]),
    ensures
        acc as int == digits_val(cs@.subrange(j0 as int, j1 as int)),
{
    let mut acc: u64 = 0;
    let mut k: usize = j0;
    proof {
        assert(cs@.subrange(j0 as int, j0 as int) =~= Seq::<char>::empty());
    }
    while k < j1
        invariant
            j0 <= k <= j1 <= cs@.len(),
            j1 - j0 <= 18,
            forall|t: int| j0 <= t < j1 ==> is_digit(#[trigger] cs@[t]),
            acc as int == digits_val(cs@.subrange(j0 as int, k as int)),
            (acc as int) < pow10((k - j0) as nat),
        decreases j1 - k,
    {
        let c = cs[k];
        let d: u64 = (c as u32 - 48) as u64;
        proof {
            lemma_pow10_mono(((k - j0) as nat), 17);
            lemma_pow10_18();
            assert(pow10(17) * 10 == pow10(18));
            assert(acc as int * 10 <= (pow10(17) - 1) * 10) by (nonlinear_arith)
                requires
                    (acc as int) < pow10(17),
            ;
            assert(d < 10);
        }
        acc = acc * 10 + d;
        proof {
            let pre = cs@.subrange(j0 as int, k as int);
            let cur = cs@.subrange(j0 as int, k + 1int);
            assert(cur.drop_last() =~= pre);
            assert(cur.last() == c);
            assert(digit_val(c) == d);
            assert(pow10(((k + 1 - j0) as nat)) == 10 * pow10((k - j0) as nat));
        }
        k = k + 1;
    }
    acc
}

fn parse_number(cs: &Vec<char>, i: usize) -> (r: Option<(JsonValue, usize)>)
    requires
        i < cs@.len(),
    ensures
        value_matches(r, sp_number(cs@, i as int)),
        r matches Some((v, j)) ==> (i <= j && j as int <= cs@.len()),
{
    let n = cs.len();
    let neg = cs[i] == '-';
    let j0: usize = if neg {
        i + 1
    } else {
        i
    };
    if !(j0 < n && is_digit_exec(cs[j0])) {
        return None;
    }
    let j1 = digits_end(cs, j0);
    let j2: usize = if j1 < n && cs[j1] == '.' && n - j1 >= 2 && is_digit_exec(cs[j1 + 1]) {
        digits_end(cs, j1 + 1)
    } else {
        j1
    };
    let j3 = exp_end(cs, j2);
    if j2 == j1 && j3 == j1 {
        if j1 - j0 <= 18 {
            proof {
                lemma_digits_end(cs@, j0 as int);
            }
            let mag = parse_digits_u64(cs, j0, j1);
            proof {
                lemma_digits_val_bound(cs@.subrange(j0 as int, j1 as int));
                lemma_pow10_mono(cs@.subrange(j0 as int, j1 as int).len() as nat, 18);
                lemma_pow10_18();
            }
            let v: i64 = if neg {
                -(mag as i64)
            } else {
                mag as i64
            };
            Some((JsonValue::Int(v), j1))
        } else {
            let lex = copy_range(cs, i, j1);
            Some((JsonValue::NumRaw(string_from_chars(&lex)), j1))
        }
    } else {
        let lex = copy_range(cs, i, j3);
        Some((JsonValue::NumRaw(string_from_chars(&lex)), j3))
    }
}

fn copy_range(cs: &Vec<char>, from: usize, to: usize) -> (r: Vec<char>)
    requires
        from <= to <= cs@.len(),
    ensures
        r@ == cs@.subrange(from as int, to as int),
{
    let mut out: Vec<char> = Vec::new();
    let mut k: usize = from;
    proof {
        assert(cs@.subrange(from as int, from as int) =~= Seq::<char>::empty());
    }
    while k < to
        invariant
            from <= k <= to <= cs@.len(),
            out@ == cs@.subrange(from as int, k as int),
        decreases to - k,
    {
        out.push(cs[k]);
        proof {
            assert(cs@.subrange(from as int, k + 1int) =~= cs@.subrange(
                from as int,
                k as int,
            ).push(cs@[k as int]));
        }
        k = k + 1;
    }
    out
}

fn is_hex_exec(c: char) -> (r: bool)
    ensures
        r == is_hex(c),
{
    let u = c as u32;
    (48 <= u && u <= 57) || (97 <= u && u <= 102) || (65 <= u && u <= 70)
}

fn hex_val_exec(c: char) -> (r: u32)
    requires
        is_hex(c),
    ensures
        r as int == hex_val(c),
        r < 16,
{
    let u = c as u32;
    if 48 <= u && u <= 57 {
        u - 48
    } else if 97 <= u && u <= 102 {
        u - 87
    } else {
        u - 55
    }
}

/// Turns a code point into the character it denotes.
///
/// Relies on `core::char::from_u32`: `Some` exactly for Unicode scalar
/// values, that is code points outside the surrogate range and at most
/// 0x10FFFF, returning the character with that code point.
#[verifier::external_body]
fn char_from_u32(v: u32) -> (r: Option<char>)
    ensures
        r == if vstd::utf8::is_scalar(v) {
            Some(v as char)
        } else {
            None::<char>
        },
{
    char::from_u32(v)
}

fn hex4(cs: &Vec<char>, i: usize) -> (r: Option<u32>)
    requires
        i <= cs@.len(),
    ensures
        hex4_ok(cs@, i as int) ==> (r matches Some(v) && v as int == hex4_val(cs@, i as int) && v
            <= 0xFFFF),
        !hex4_ok(cs@, i as int) ==> r is None,
{
    let n = cs.len();
    if n - i >= 4 && is_hex_exec(cs[i]) && is_hex_exec(cs[i + 1]) && is_hex_exec(cs[i + 2])
        && is_hex_exec(cs[i + 3]) {
        let v = hex_val_exec(cs[i]) * 4096 + hex_val_exec(cs[i + 1]) * 256 + hex_val_exec(
            cs[i + 2],
        ) * 16 + hex_val_exec(cs[i + 3]);
        Some(v)
    } else {
        None
    }
}

fn parse_escape(cs: &Vec<char>, i: usize) -> (r: Option<(char, usize)>)
    requires
        i <= cs@.len(),
    ensures
        ({
            let sp = sp_escape(cs@, i as int);
            match sp {
                Option::None => r is None,
                Option::Some((c, j)) => r matches Some((rc, rj)) && rc == c && rj as int == j,
            }
        }),
        r matches Some((rc, rj)) ==> (i < rj && rj as int <= cs@.len()),
{
    let n = cs.len();
    if i >= n {
        return None;
    }
    let c = cs[i];
    if c == '"' {
        Some(('"', i + 1))
    } else if c == '\\' {
        Some(('\\', i + 1))
    } else if c == '/' {
        Some(('/', i + 1))
    } else if c == 'b' {
        Some(('\u{8}', i + 1))
    } else if c == 'f' {
        Some(('\u{c}', i + 1))
    } else if c == 'n' {
        Some(('\n', i + 1))
    } else if c == 'r' {
        Some(('\r', i + 1))
    } else if c == 't' {
        Some(('\t', i + 1))
    } else if c == 'u' {
        match hex4(cs, i + 1) {
            None => None,
            Some(code) => {
                if 0xD800 <= code && code < 0xDC00 {
                    if n - i >= 11 && cs[i + 5] == '\\' && cs[i + 6] == 'u' {
                        match hex4(cs, i + 7) {
                            None => None,
                            Some(lo) => {
                                if 0xDC00 <= lo && lo < 0xE000 {
                                    let cp: u32 = 0x10000 + (code - 0xD800) * 0x400 + (lo
                                        - 0xDC00);
                                    match char_from_u32(cp) {
                                        Some(ch) => Some((ch, i + 11)),
                                        None => None,
                                    }
                                } else {
                                    None
                                }
                            },
                        }
                    } else {
                        None
                    }
                } else if 0xDC00 <= code && code < 0xE000 {
                    None
                } else {
                    match char_from_u32(code) {
                        Some(ch) => Some((ch, i + 5)),
                        None => None,
                    }
                }
            },
        }
    } else {
        None
    }
}

fn parse_string_body(cs: &Vec<char>, i: usize, fuel: u128) -> (r: Option<(Vec<char>, usize)>)
    requires
        i <= cs@.len(),
    ensures
        ({
            let sp = sp_string_body(cs@, i as int, fuel as nat);
            match sp {
                Option::None => r is None,
                Option::Some((content, j)) => r matches Some((rv, rj)) && rv@ == content
                    && rj as int == j,
            }
        }),
        r matches Some((rv, rj)) ==> (i < rj && rj as int <= cs@.len()),
{
    let n = cs.len();
    let mut acc: Vec<char> = Vec::new();
    let mut p: usize = i;
    let mut fleft: u128 = fuel;
    loop
        invariant
            i <= p <= n,
            n == cs@.len(),
            fleft <= fuel,
            sp_string_body(cs@, i as int, fuel as nat) == str_extend(
                acc@,
                sp_string_body(cs@, p as int, fleft as nat),
            ),
        decreases fleft,
    {
        if fleft == 0 {
            return None;
        }
        if p >= n {
            return None;
        }
        let c = cs[p];
        if c == '"' {
            proof {
                assert(acc@ + Seq::<char>::empty() =~= acc@);
            }
            return Some((acc, p + 1));
        } else if c == '\\' {
            match parse_escape(cs, p + 1) {
                None => {
                    return None;
                },
                Some((ec, j)) => {
                    proof {
                        let inner = sp_string_body(cs@, j as int, (fleft - 1) as nat);
                        assert(sp_string_body(cs@, p as int, fleft as nat) == str_extend(
                            seq![ec],
                            inner,
                        ));
                        match inner {
                            Option::None => {},
                            Option::Some((rest, e)) => {
                                assert(acc@ + (seq![ec] + rest) =~= acc@.push(ec) + rest);
                            },
                        }
                    }
                    acc.push(ec);
                    p = j;
                    fleft = fleft - 1;
                },
            }
        } else if (c as u32) < 0x20 {
            return None;
        } else {
            proof {
                let inner = sp_string_body(cs@, p + 1int, (fleft - 1) as nat);
                assert(sp_string_body(cs@, p as int, fleft as nat) == str_extend(
                    seq![c],
                    inner,
                ));
                match inner {
                    Option::None => {},
                    Option::Some((rest, e)) => {
                        assert(acc@ + (seq![c] + rest) =~= acc@.push(c) + rest);
                    },
                }
            }
            acc.push(c);
            p = p + 1;
            fleft = fleft - 1;
        }
    }
}

fn parse_value(cs: &Vec<char>, i: usize, fuel: u128) -> (r: Option<(JsonValue, usize)>)
    requires
        i <= cs@.len(),
    ensures
        value_matches(r, sp_value(cs@, i as int, fuel as nat)),
        r matches Some((v, j)) ==> (i <= j && j as int <= cs@.len()),
    decreases fuel,
{
    let n = cs.len();
    if fuel == 0 {
        return None;
    }
    if i >= n {
        return None;
    }
    let c = cs[i];
    if c == 'n' {
        if n - i >= 4 && cs[i + 1] == 'u' && cs[i + 2] == 'l' && cs[i + 3] == 'l' {
            Some((JsonValue::Null, i + 4))
        } else {
            None
        }
    } else if c == 't' {
        if n - i >= 4 && cs[i + 1] == 'r' && cs[i + 2] == 'u' && cs[i + 3] == 'e' {
            Some((JsonValue::Bool(true), i + 4))
        } else {
            None
        }
    } else if c == 'f' {
        if n - i >= 5 && cs[i + 1] == 'a' && cs[i + 2] == 'l' && cs[i + 3] == 's' && cs[i + 4]
            == 'e' {
            Some((JsonValue::Bool(false), i + 5))
        } else {
            None
        }
    } else if c == '"' {
        match parse_string_body(cs, i + 1, fuel - 1) {
            None => None,
            Some((content, j)) => Some((JsonValue::Str(string_from_chars(&content)), j)),
        }
    } else if c == '[' {
        parse_array(cs, i + 1, fuel - 1)
    } else if c == '{' {
        parse_object(cs, i + 1, fuel - 1)
    } else if c == '-' || is_digit_exec(c) {
        parse_number(cs, i)
    } else {
        None
    }
}

fn parse_array(cs: &Vec<char>, i: usize, fuel: u128) -> (r: Option<(JsonValue, usize)>)
    requires
        i <= cs@.len(),
    ensures
        value_matches(r, sp_array(cs@, i as int, fuel as nat)),
        r matches Some((v, j)) ==> (i <= j && j as int <= cs@.len()),
    decreases fuel,
{
    let n = cs.len();
    if fuel == 0 {
        return None;
    }
    let j = skip_ws(cs, i);
    if j < n && cs[j] == ']' {
        let empty: Vec<JsonValue> = Vec::new();
        let v = JsonValue::Arr(empty);
        proof {
            assert(v@ == JsonV::Arr(Seq::<JsonV>::empty()));
        }
        Some((v, j + 1))
    } else {
        match parse_elements(cs, j, fuel - 1) {
            None => None,
            Some((vs, k)) => Some((JsonValue::Arr(vs), k)),
        }
    }
}

fn parse_elements(cs: &Vec<char>, i: usize, fuel: u128) -> (r: Option<(Vec<JsonValue>, usize)>)
    requires
        i <= cs@.len(),
    ensures
        elements_match(r, sp_elements(cs@, i as int, fuel as nat)),
        r matches Some((vs, j)) ==> (i <= j && j as int <= cs@.len()),
    decreases fuel,
{
    let n = cs.len();
    let mut acc: Vec<JsonValue> = Vec::new();
    let mut p: usize = i;
    let mut fleft: u128 = fuel;
    loop
        invariant
            i <= p <= n,
            n == cs@.len(),
            fleft <= fuel,
            sp_elements(cs@, i as int, fuel as nat) == elems_extend(
                view_elems(acc@),
                sp_elements(cs@, p as int, fleft as nat),
            ),
        decreases fleft,
    {
        if fleft == 0 {
            return None;
        }
        match parse_value(cs, p, fleft - 1) {
            None => {
                return None;
            },
            Some((v, j)) => {
                let k = skip_ws(cs, j);
                if k < n && cs[k] == ',' {
                    let m = skip_ws(cs, k + 1);
                    proof {
                        let inner = sp_elements(cs@, m as int, (fleft - 1) as nat);
                        assert(sp_elements(cs@, p as int, fleft as nat) == elems_extend(
                            seq![v@],
                            inner,
                        ));
                        lemma_view_elems_push(acc@, v);
                        match inner {
                            Option::None => {},
                            Option::Some((rest, e)) => {
                                assert(view_elems(acc@) + (seq![v@] + rest) =~= view_elems(
                                    acc@,
                                ).push(v@) + rest);
                            },
                        }
                    }
                    acc.push(v);
                    p = m;
                    fleft = fleft - 1;
                } else if k < n && cs[k] == ']' {
                    proof {
                        assert(sp_elements(cs@, p as int, fleft as nat) == Option::Some(
                            (seq![v@], k + 1int),
                        ));
                        lemma_view_elems_push(acc@, v);
                        assert(view_elems(acc@) + seq![v@] =~= view_elems(acc@).push(v@));
                    }
                    acc.push(v);
                    return Some((acc, k + 1));
                } else {
                    return None;
                }
            },
        }
    }
}

fn parse_object(cs: &Vec<char>, i: usize, fuel: u128) -> (r: Option<(JsonValue, usize)>)
    requires
        i <= cs@.len(),
    ensures
        value_matches(r, sp_object(cs@, i as int, fuel as nat)),
        r matches Some((v, j)) ==> (i <= j && j as int <= cs@.len()),
    decreases fuel,
{
    let n = cs.len();
    if fuel == 0 {
        return None;
    }
    let j = skip_ws(cs, i);
    if j < n && cs[j] == '}' {
        let empty: Vec<(String, JsonValue)> = Vec::new();
        let v = JsonValue::Obj(empty);
        proof {
            assert(v@ == JsonV::Obj(Seq::<(Seq<char>, JsonV)>::empty()));
        }
        Some((v, j + 1))
    } else {
        match parse_members(cs, j, fuel - 1) {
            None => None,
            Some((ms, k)) => Some((JsonValue::Obj(ms), k)),
        }
    }
}

fn parse_members(cs: &Vec<char>, i: usize, fuel: u128) -> (r: Option<
    (Vec<(String, JsonValue)>, usize),
>)
    requires
        i <= cs@.len(),
    ensures
        members_match(r, sp_members(cs@, i as int, fuel as nat)),
        r matches Some((ms, j)) ==> (i <= j && j as int <= cs@.len()),
    decreases fuel,
{
    let n = cs.len();
    let mut acc: Vec<(String, JsonValue)> = Vec::new();
    let mut p: usize = i;
    let mut fleft: u128 = fuel;
    loop
        invariant
            i <= p <= n,
            n == cs@.len(),
            fleft <= fuel,
            sp_members(cs@, i as int, fuel as nat) == members_extend(
                view_members(acc@),
                sp_members(cs@, p as int, fleft as nat),
            ),
        decreases fleft,
    {
        if fleft == 0 {
            return None;
        }
        if !(p < n && cs[p] == '"') {
            return None;
        }
        match parse_string_body(cs, p + 1, fleft - 1) {
            None => {
                return None;
            },
            Some((keychars, j)) => {
                let key = string_from_chars(&keychars);
                let k = skip_ws(cs, j);
                if !(k < n && cs[k] == ':') {
                    return None;
                }
                let m = skip_ws(cs, k + 1);
                match parse_value(cs, m, fleft - 1) {
                    None => {
                        return None;
                    },
                    Some((v, pp)) => {
                        let q = skip_ws(cs, pp);
                        if q < n && cs[q] == ',' {
                            let rr = skip_ws(cs, q + 1);
                            proof {
                                let inner = sp_members(cs@, rr as int, (fleft - 1) as nat);
                                assert(sp_members(cs@, p as int, fleft as nat)
                                    == members_extend(seq![(key@, v@)], inner));
                                lemma_view_members_push(acc@, key, v);
                                match inner {
                                    Option::None => {},
                                    Option::Some((rest, e)) => {
                                        assert(view_members(acc@) + (seq![(key@, v@)] + rest)
                                            =~= view_members(acc@).push((key@, v@)) + rest);
                                    },
                                }
                            }
                            acc.push((key, v));
                            p = rr;
                            fleft = fleft - 1;
                        } else if q < n && cs[q] == '}' {
                            proof {
                                assert(sp_members(cs@, p as int, fleft as nat) == Option::Some(
                                    (seq![(key@, v@)], q + 1int),
                                ));
                                lemma_view_members_push(acc@, key, v);
                                assert(view_members(acc@) + seq![(key@, v@)] =~= view_members(
                                    acc@,
                                ).push((key@, v@)));
                            }
                            acc.push((key, v));
                            return Some((acc, q + 1));
                        } else {
                            return None;
                        }
                    },
                }
            },
        }
    }
}

/// Parses a JSON document, exactly as the grammar functions describe.
pub fn parse_json(s: &str) -> (r: Option<JsonValue>)
    ensures
        ({
            let sp = spec_parse_json(s@);
            match sp {
                Option::None => r is None,
                Option::Some(v) => r matches Some(rv) && rv@ == v,
            }
        }),
{
    let mut cs: Vec<char> = Vec::new();
    push_str_chars(s, &mut cs);
    let n = cs.len();
    let fuel: u128 = 4 * (n as u128) + 64;
    proof {
        assert(fuel as nat == spec_fuel(s@));
    }
    let i = skip_ws(&cs, 0);
    match parse_value(&cs, i, fuel) {
        None => None,
        Some((v, j)) => {
            if skip_ws(&cs, j) == n {
                Some(v)
            } else {
                None
            }
        },
    }
}

/// Builds a string with exactly the given characters.
///
/// Relies on `core::iter::Iterator::collect` for `String`: the string holds
/// the characters of the iterator in order.
#[verifier::external_body]
pub fn string_from_chars(v: &Vec<char>) -> (r: String)
    ensures
        r@ == v@,
{
    v.iter().collect()
}

// ---------- the renderer parses back ----------

/// A plain decimal-fraction lexeme: digits, a point, digits, and nothing
/// more.
pub open spec fn is_fraction_lexeme(s: Seq<char>) -> bool {
    exists|dlen: int|
        1 <= dlen && dlen + 2 <= s.len() && #[trigger] s[dlen] == '.' && (forall|k: int|
            0 <= k < dlen ==> is_digit(#[trigger] s[k])) && (forall|k: int|
            dlen + 1 <= k < s.len() ==> is_digit(#[trigger] s[k]))
}

/// Values whose canonical rendering is lossless: integers of at most
/// eighteen digits, which the parser reads back as integers, and verbatim
/// numeric lexemes only in the plain fraction form the parser keeps
/// verbatim.
pub open spec fn wf_json(v: JsonV) -> bool
    decreases v,
{
    match v {
        JsonV::Null => true,
        JsonV::Bool(_) => true,
        JsonV::Int(n) => -1000000000000000000 < n < 1000000000000000000,
        JsonV::NumRaw(s) => is_fraction_lexeme(s),
        JsonV::Str(_) => true,
        JsonV::Arr(es) => wf_elems(es),
        JsonV::Obj(ms) => wf_members(ms),
    }
}

/// Every element is well formed.
pub open spec fn wf_elems(es: Seq<JsonV>) -> bool
    decreases es,
{
    es.len() == 0 || (wf_json(es[0]) && wf_elems(es.drop_first()))
}

/// Every member's value is well formed.
pub open spec fn wf_members(ms: Seq<(Seq<char>, JsonV)>) -> bool
    decreases ms,
{
    ms.len() == 0 || (wf_json(ms[0].1) && wf_members(ms.drop_first()))
}

/// Fuel that certainly suffices to parse the rendering of a value.
pub open spec fn needed_fuel(v: JsonV) -> nat
    decreases v,
{
    match v {
        JsonV::Null => 1,
        JsonV::Bool(_) => 1,
        JsonV::Int(_) => 1,
        JsonV::NumRaw(_) => 1,
        JsonV::Str(s) => s.len() + 2,
        JsonV::Arr(es) => 2 + needed_elems(es),
        JsonV::Obj(ms) => 2 + needed_members(ms),
    }
}

/// Fuel that certainly suffices to parse a rendered element list.
pub open spec fn needed_elems(es: Seq<JsonV>) -> nat
    decreases es,
{
    if es.len() == 0 {
        1
    } else {
        2 + needed_fuel(es[0]) + needed_elems(es.drop_first())
    }
}

/// Fuel that certainly suffices to parse a rendered member list.
pub open spec fn needed_members(ms: Seq<(Seq<char>, JsonV)>) -> nat
    decreases ms,
{
    if ms.len() == 0 {
        1
    } else {
        4 + ms[0].0.len() + needed_fuel(ms[0].1) + needed_members(ms.drop_first())
    }
}

/// Escaping splits off its head character.
pub proof fn lemma_escape_cons(sc: Seq<char>)
    requires
        sc.len() >= 1,
    ensures
        spec_escape(sc) == spec_escape_char(sc[0]) + spec_escape(sc.drop_first()),
    decreases sc.len(),
{
    if sc.len() == 1 {
        assert(sc.drop_last() =~= Seq::<char>::empty());
        assert(sc.drop_first() =~= Seq::<char>::empty());
        assert(spec_escape(sc) =~= spec_escape_char(sc[0]) + spec_escape(sc.drop_first()));
    } else {
        lemma_escape_cons(sc.drop_last());
        assert(sc.drop_last()[0] == sc[0]);
        assert(sc.drop_last().drop_first() =~= sc.drop_first().drop_last());
        assert(sc.drop_first().last() == sc.last());
        assert(spec_escape(sc.drop_first()) == spec_escape(sc.drop_first().drop_last())
            + spec_escape_char(sc.last()));
        assert(spec_escape(sc) =~= spec_escape_char(sc[0]) + spec_escape(sc.drop_first()));
    }
}

/// A hexadecimal digit character reads back as its value.
pub proof fn lemma_hex_char_val(d: int)
    requires
        0 <= d < 16,
    ensures
        is_hex(hex_char(d)),
        hex_val(hex_char(d)) == d,
        !(hex_char(d) == '"') && !(hex_char(d) == '\\'),
{
}

/// Parsing an escaped string body followed by its closing quote reads the
/// content back.
pub proof fn lemma_string_body_parses(sc: Seq<char>, s: Seq<char>, p: int, fuel: nat)
    requires
        0 <= p,
        p + spec_escape(sc).len() + 1 <= s.len(),
        s.subrange(p, p + spec_escape(sc).len()) == spec_escape(sc),
        s[p + spec_escape(sc).len()] == '"',
        fuel >= sc.len() + 1,
    ensures
        sp_string_body(s, p, fuel) == Option::Some((sc, p + spec_escape(sc).len() + 1)),
    decreases sc.len(),
{
    let esc = spec_escape(sc);
    assert forall|k: int| 0 <= k < esc.len() implies s[p + k] == esc[k] by {
        assert(s.subrange(p, p + esc.len())[k] == s[p + k]);
    }
    if sc.len() == 0 {
        assert(sc =~= Seq::<char>::empty());
        assert(esc =~= Seq::<char>::empty());
        assert(s[p] == '"');
    } else {
        let c = sc[0];
        let rest = sc.drop_first();
        lemma_escape_cons(sc);
        let ec = spec_escape_char(c);
        let erest = spec_escape(rest);
        assert(esc == ec + erest);
        assert(esc.len() == ec.len() + erest.len());
        let p2 = p + ec.len();
        assert forall|k: int| 0 <= k < ec.len() implies s[p + k] == ec[k] by {
            assert(esc[k] == ec[k]);
        }
        assert(s.subrange(p2, p2 + erest.len()) =~= erest) by {
            assert forall|k: int|
                0 <= k < erest.len() implies s.subrange(p2, p2 + erest.len())[k] == erest[k] by {
                assert(s.subrange(p2, p2 + erest.len())[k] == s[p2 + k]);
                assert(esc[ec.len() + k] == erest[k]);
                assert(s[p + (ec.len() + k)] == esc[ec.len() + k]);
            }
        }
        assert(s[p2 + erest.len()] == '"');
        lemma_string_body_parses(rest, s, p2, (fuel - 1) as nat);
        assert(seq![c] + rest =~= sc);
        if c == '"' {
            assert(ec =~= seq!['\\', '"']);
            assert(s[p] == '\\' && s[p + 1] == '"');
            assert(sp_escape(s, p + 1) == Option::Some(('"', p + 2)));
        } else if c == '\\' {
            assert(ec =~= seq!['\\', '\\']);
            assert(s[p] == '\\' && s[p + 1] == '\\');
            assert(sp_escape(s, p + 1) == Option::Some(('\\', p + 2)));
        } else if c == '\n' {
            assert(ec =~= seq!['\\', 'n']);
            assert(s[p] == '\\' && s[p + 1] == 'n');
            assert(sp_escape(s, p + 1) == Option::Some(('\n', p + 2)));
        } else if c == '\r' {
            assert(ec =~= seq!['\\', 'r']);
            assert(sp_escape(s, p + 1) == Option::Some(('\r', p + 2)));
        } else if c == '\t' {
            assert(ec =~= seq!['\\', 't']);
            assert(sp_escape(s, p + 1) == Option::Some(('\t', p + 2)));
        } else if (c as u32) < 0x20 {
            let hi = (c as u32 / 16) as int;
            let lo = (c as u32 % 16) as int;
            assert(ec =~= seq!['\\', 'u', '0', '0', hex_char(hi), hex_char(lo)]);
            assert(s[p] == '\\' && s[p + 1] == 'u');
            assert(s[p + 2] == '0' && s[p + 3] == '0');
            assert(s[p + 4] == hex_char(hi) && s[p + 5] == hex_char(lo));
            lemma_hex_char_val(hi);
            lemma_hex_char_val(lo);
            assert(is_hex('0') && hex_val('0') == 0);
            assert(hex4_ok(s, p + 2));
            let code = hex4_val(s, p + 2);
            assert(code == hi * 16 + lo);
            assert(code == c as u32);
            assert(code < 0x20);
            vstd::utf8::char_u32_cast(c, c as u32);
            assert(((code as u32) as char) == c);
            assert(sp_escape(s, p + 1) == Option::Some((c, p + 6)));
        } else {
            assert(ec =~= seq![c]);
            assert(s[p] == c);
            assert(!(s[p] == '"') && !(s[p] == '\\') && !((s[p] as u32) < 0x20));
        }
    }
}

/// A character that may follow a rendered value inside a document.
pub open spec fn is_sep(c: char) -> bool {
    c == ',' || c == ']' || c == '}'
}

/// Parsing a rendered integer of at most eighteen digits reads the value
/// back, when what follows is a separator or the end.
pub proof fn lemma_number_parses(n: int, s: Seq<char>, i: int)
    requires
        -1000000000000000000 < n < 1000000000000000000,
        0 <= i,
        i + spec_i64_str(n).len() <= s.len(),
        s.subrange(i, i + spec_i64_str(n).len()) == spec_i64_str(n),
        ({
            let j = i + spec_i64_str(n).len();
            j == s.len() || is_sep(s[j])
        }),
    ensures
        sp_number(s, i) == Option::Some((JsonV::Int(n), i + spec_i64_str(n).len())),
{
    let r = spec_i64_str(n);
    let j = i + r.len();
    assert forall|k: int| 0 <= k < r.len() implies s[i + k] == r[k] by {
        assert(s.subrange(i, i + r.len())[k] == s[i + k]);
    }
    assert(pow10(18) == 1000000000000000000) by {
        reveal_with_fuel(pow10, 20);
    }
    let mag: nat = if n < 0 {
        (-n) as nat
    } else {
        n as nat
    };
    let dd = spec_u64_digits(mag);
    lemma_u64_digits_props(mag);
    lemma_u64_digits_len(mag, 18);
    let j0: int = if n < 0 {
        i + 1
    } else {
        i
    };
    if n < 0 {
        assert(r == seq!['-'] + dd);
        assert(s[i + 0] == r[0]);
        assert(r[0] == '-');
        assert(s[i] == '-');
        assert forall|k: int| j0 <= k < j implies is_digit(#[trigger] s[k]) by {
            assert(s[i + (k - i)] == r[k - i]);
            assert(r[k - i] == dd[k - j0]);
        }
    } else {
        assert(r == dd);
        assert forall|k: int| j0 <= k < j implies is_digit(#[trigger] s[k]) by {
            assert(s[i + (k - i)] == r[k - i]);
            assert(r[k - i] == dd[k - j0]);
        }
        assert(s[i + 0] == r[0]);
        assert(is_digit(s[i]));
        assert(s[i] != '-');
    }
    if j < s.len() {
        assert(!is_digit(s[j]));
    }
    lemma_digits_end_run(s, j0, j);
    assert(sp_digits_end(s, j0) == j);
    assert(j0 < s.len() && is_digit(s[j0]));
    if j < s.len() {
        assert(s[j] != '.');
        assert(s[j] != 'e' && s[j] != 'E');
    }
    assert(sp_exp_end(s, j) == j);
    let ds = s.subrange(j0, j);
    assert forall|k: int| 0 <= k < dd.len() implies ds[k] == dd[k] by {
        assert(ds[k] == s[j0 + k]);
        assert(s[i + (j0 + k - i)] == r[j0 + k - i]);
        assert(r[j0 + k - i] == dd[k]);
    }
    assert(ds =~= dd);
    assert(ds.len() <= 18);
    assert(digits_val(ds) == mag);
}

/// Escaping never shortens a string.
pub proof fn lemma_escape_len(sc: Seq<char>)
    ensures
        spec_escape(sc).len() >= sc.len(),
    decreases sc.len(),
{
    if sc.len() > 0 {
        lemma_escape_len(sc.drop_last());
    }
}

/// A rendering is never empty and opens with neither whitespace nor a
/// separator.
pub proof fn lemma_render_head(v: JsonV)
    requires
        wf_json(v),
    ensures
        spec_render(v).len() >= 1,
        !is_ws(spec_render(v)[0]),
        !is_sep(spec_render(v)[0]),
{
    match v {
        JsonV::Int(n) => {
            let mag: nat = if n < 0 {
                (-n) as nat
            } else {
                n as nat
            };
            lemma_u64_digits_props(mag);
            if n < 0 {
                assert(spec_render(v)[0] == '-');
            } else {
                assert(spec_render(v)[0] == spec_u64_digits(mag)[0]);
                assert(is_digit(spec_render(v)[0]));
            }
        },
        JsonV::NumRaw(sl) => {
            let dlen = choose|dlen: int|
                1 <= dlen && dlen + 2 <= sl.len() && #[trigger] sl[dlen] == '.' && (forall|
                    k: int,
                |
                    0 <= k < dlen ==> is_digit(#[trigger] sl[k])) && (forall|k: int|
                    dlen + 1 <= k < sl.len() ==> is_digit(#[trigger] sl[k]));
            assert(is_digit(sl[0]));
            assert(spec_render(v)[0] == sl[0]);
        },
        _ => {},
    }
}

/// The granted fuel covers the needed fuel: parsing the rendering of a
/// value never runs out.
pub proof fn lemma_needed_le(v: JsonV)
    requires
        wf_json(v),
    ensures
        needed_fuel(v) <= 4 * spec_render(v).len() - 2,
    decreases v, 0nat,
{
    match v {
        JsonV::Str(sc) => {
            lemma_escape_len(sc);
        },
        JsonV::Arr(es) => {
            lemma_needed_elems_le(es);
        },
        JsonV::Obj(ms) => {
            lemma_needed_members_le(ms);
        },
        _ => {
            lemma_render_head(v);
        },
    }
}

/// The granted fuel covers a rendered element list.
pub proof fn lemma_needed_elems_le(es: Seq<JsonV>)
    requires
        wf_elems(es),
    ensures
        needed_elems(es) <= 4 * spec_render_elems(es).len() + 4,
    decreases es, 1nat,
{
    if es.len() == 0 {
    } else if es.len() == 1 {
        assert(es[0] == es.last());
        assert(spec_render_elems(es) == spec_render(es[0]));
        lemma_needed_le(es[0]);
        assert(es.drop_first() =~= Seq::<JsonV>::empty());
        assert(needed_elems(es.drop_first()) == 1);
        assert(needed_elems(es) == 3 + needed_fuel(es[0]));
        assert(needed_fuel(es[0]) <= 4 * spec_render(es[0]).len() - 2);
    } else {
        lemma_render_elems_cons(es);
        lemma_needed_le(es[0]);
        assert(wf_elems(es.drop_first()));
        lemma_needed_elems_le(es.drop_first());
        assert(needed_elems(es) == 2 + needed_fuel(es[0]) + needed_elems(es.drop_first()));
        assert(spec_render_elems(es).len() == spec_render(es[0]).len() + 1
            + spec_render_elems(es.drop_first()).len());
        assert(needed_fuel(es[0]) <= 4 * spec_render(es[0]).len() - 2);
    }
}

/// The granted fuel covers a rendered member list.
pub proof fn lemma_needed_members_le(ms: Seq<(Seq<char>, JsonV)>)
    requires
        wf_members(ms),
    ensures
        needed_members(ms) <= 4 * spec_render_members(ms).len() + 4,
    decreases ms, 1nat,
{
    if ms.len() == 0 {
    } else if ms.len() == 1 {
        assert(ms[0] == ms.last());
        assert(spec_render_members(ms) == spec_render_member(ms[0]));
        lemma_needed_le(ms[0].1);
        lemma_escape_len(ms[0].0);
        assert(ms.drop_first() =~= Seq::<(Seq<char>, JsonV)>::empty());
        assert(needed_members(ms.drop_first()) == 1);
        assert(needed_members(ms) == 5 + ms[0].0.len() + needed_fuel(ms[0].1));
        assert(spec_render_member(ms[0]).len() == spec_escape(ms[0].0).len() + 3
            + spec_render(ms[0].1).len());
        assert(needed_fuel(ms[0].1) <= 4 * spec_render(ms[0].1).len() - 2);
        assert(ms[0].0.len() <= spec_escape(ms[0].0).len());
    } else {
        lemma_render_members_cons(ms);
        lemma_needed_le(ms[0].1);
        lemma_escape_len(ms[0].0);
        assert(wf_members(ms.drop_first()));
        lemma_needed_members_le(ms.drop_first());
        assert(needed_members(ms) == 4 + ms[0].0.len() + needed_fuel(ms[0].1)
            + needed_members(ms.drop_first()));
        assert(spec_render_member(ms[0]).len() == spec_escape(ms[0].0).len() + 3
            + spec_render(ms[0].1).len());
        assert(spec_render_members(ms).len() == spec_render_member(ms[0]).len() + 1
            + spec_render_members(ms.drop_first()).len());
        assert(needed_fuel(ms[0].1) <= 4 * spec_render(ms[0].1).len() - 2);
        assert(ms[0].0.len() <= spec_escape(ms[0].0).len());
    }
}

/// A matching subrange pins each character.
proof fn lemma_subrange_chars(s: Seq<char>, i: int, r: Seq<char>)
    requires
        0 <= i,
        i + r.len() <= s.len(),
        s.subrange(i, i + r.len()) == r,
    ensures
        forall|k: int| 0 <= k < r.len() ==> s[i + k] == #[trigger] r[k],
{
    assert forall|k: int| 0 <= k < r.len() implies s[i + k] == #[trigger] r[k] by {
        assert(s.subrange(i, i + r.len())[k] == s[i + k]);
    }
}

/// A piece of a matching subrange matches the piece.
proof fn lemma_subrange_at(s: Seq<char>, i: int, r: Seq<char>, a: int, b: int)
    requires
        0 <= i,
        i + r.len() <= s.len(),
        s.subrange(i, i + r.len()) == r,
        0 <= a <= b <= r.len(),
    ensures
        s.subrange(i + a, i + b) == r.subrange(a, b),
{
    lemma_subrange_chars(s, i, r);
    assert forall|k: int|
        0 <= k < b - a implies s.subrange(i + a, i + b)[k] == r.subrange(a, b)[k] by {
        assert(s.subrange(i + a, i + b)[k] == s[i + (a + k)]);
        assert(r.subrange(a, b)[k] == r[a + k]);
    }
    assert(s.subrange(i + a, i + b) =~= r.subrange(a, b));
}

/// A list of well-formed elements is a well-formed list.
pub proof fn lemma_wf_elems_of(es: Seq<JsonV>)
    requires
        forall|k: int| 0 <= k < es.len() ==> wf_json(#[trigger] es[k]),
    ensures
        wf_elems(es),
    decreases es.len(),
{
    if es.len() > 0 {
        assert(wf_json(es[0]));
        assert forall|k: int|
            0 <= k < es.drop_first().len() implies wf_json(#[trigger] es.drop_first()[k]) by {
            assert(es.drop_first()[k] == es[k + 1]);
        }
        lemma_wf_elems_of(es.drop_first());
    }
}

/// A list of members with well-formed values is a well-formed list.
pub proof fn lemma_wf_members_of(ms: Seq<(Seq<char>, JsonV)>)
    requires
        forall|k: int| 0 <= k < ms.len() ==> wf_json((#[trigger] ms[k]).1),
    ensures
        wf_members(ms),
    decreases ms.len(),
{
    if ms.len() > 0 {
        assert(wf_json(ms[0].1));
        assert forall|k: int|
            0 <= k < ms.drop_first().len() implies wf_json(
            (#[trigger] ms.drop_first()[k]).1,
        ) by {
            assert(ms.drop_first()[k] == ms[k + 1]);
        }
        lemma_wf_members_of(ms.drop_first());
    }
}

/// Parsing a plain fraction lexeme in context keeps it verbatim.
proof fn lemma_fraction_lexeme_parses(sl: Seq<char>, s: Seq<char>, i: int)
    requires
        is_fraction_lexeme(sl),
        0 <= i,
        i + sl.len() <= s.len(),
        s.subrange(i, i + sl.len()) == sl,
        ({
            let j = i + sl.len();
            j == s.len() || is_sep(s[j])
        }),
    ensures
        sp_number(s, i) == Option::Some((JsonV::NumRaw(sl), i + sl.len())),
{
    lemma_subrange_chars(s, i, sl);
    let dlen = choose|dlen: int|
        1 <= dlen && dlen + 2 <= sl.len() && #[trigger] sl[dlen] == '.' && (forall|k: int|
            0 <= k < dlen ==> is_digit(#[trigger] sl[k])) && (forall|k: int|
            dlen + 1 <= k < sl.len() ==> is_digit(#[trigger] sl[k]));
    let j = i + sl.len();
    let j1 = i + dlen;
    assert forall|k: int| i <= k < j1 implies is_digit(#[trigger] s[k]) by {
        assert(s[i + (k - i)] == sl[k - i]);
    }
    assert(s[i + dlen] == sl[dlen]);
    assert(!is_digit('.'));
    lemma_digits_end_run(s, i, j1);
    assert(sp_digits_end(s, i) == j1);
    assert(s[i + 0] == sl[0]);
    assert(is_digit(s[i]));
    assert(s[i] != '-');
    assert forall|k: int| j1 + 1 <= k < j implies is_digit(#[trigger] s[k]) by {
        assert(s[i + (k - i)] == sl[k - i]);
    }
    if j < s.len() {
        assert(!is_digit(s[j]));
    }
    lemma_digits_end_run(s, j1 + 1, j);
    assert(sp_digits_end(s, j1 + 1) == j);
    assert(s[i + (dlen + 1)] == sl[dlen + 1]);
    assert(is_digit(s[j1 + 1]));
    if j < s.len() {
        assert(s[j] != 'e' && s[j] != 'E');
    }
    assert(sp_exp_end(s, j) == j);
    assert(s.subrange(i, j) == sl);
}

/// Parsing the rendering of a well-formed value in context reads the value
/// back; what follows must be a separator or the end.
pub proof fn lemma_value_parses(v: JsonV, s: Seq<char>, i: int, fuel: nat)
    requires
        wf_json(v),
        0 <= i,
        i + spec_render(v).len() <= s.len(),
        s.subrange(i, i + spec_render(v).len()) == spec_render(v),
        ({
            let j = i + spec_render(v).len();
            j == s.len() || is_sep(s[j])
        }),
        fuel >= needed_fuel(v),
    ensures
        sp_value(s, i, fuel) == Option::Some((v, i + spec_render(v).len())),
    decreases v, 0nat,
{
    let r = spec_render(v);
    lemma_subrange_chars(s, i, r);
    lemma_render_head(v);
    match v {
        JsonV::Null => {
            assert(r =~= seq!['n', 'u', 'l', 'l']);
            assert(s[i + 0] == 'n' && s[i + 1] == 'u' && s[i + 2] == 'l' && s[i + 3] == 'l');
        },
        JsonV::Bool(b) => {
            if b {
                assert(r =~= seq!['t', 'r', 'u', 'e']);
                assert(s[i + 0] == 't' && s[i + 1] == 'r' && s[i + 2] == 'u' && s[i + 3]
                    == 'e');
            } else {
                assert(r =~= seq!['f', 'a', 'l', 's', 'e']);
                assert(s[i + 0] == 'f' && s[i + 1] == 'a' && s[i + 2] == 'l' && s[i + 3] == 's'
                    && s[i + 4] == 'e');
            }
        },
        JsonV::Int(n) => {
            let mag: nat = if n < 0 {
                (-n) as nat
            } else {
                n as nat
            };
            lemma_u64_digits_props(mag);
            assert(s[i + 0] == r[0]);
            if n < 0 {
                assert(r == seq!['-'] + spec_u64_digits(mag));
                assert(r[0] == '-');
            } else {
                assert(r == spec_u64_digits(mag));
                assert(is_digit(r[0]));
            }
            lemma_number_parses(n, s, i);
        },
        JsonV::NumRaw(sl) => {
            lemma_fraction_lexeme_parses(sl, s, i);
        },
        JsonV::Str(sc) => {
            let esc = spec_escape(sc);
            assert(r == seq!['"'] + esc + seq!['"']);
            assert(r.len() == esc.len() + 2);
            assert(s[i + 0] == r[0]);
            assert(r[0] == '"');
            lemma_subrange_at(s, i, r, 1, 1 + esc.len() as int);
            assert(r.subrange(1, 1 + esc.len() as int) =~= esc);
            assert(s[i + 1 + esc.len() as int] == r[1 + esc.len() as int]);
            assert(r[1 + esc.len() as int] == '"');
            lemma_string_body_parses(sc, s, i + 1, (fuel - 1) as nat);
        },
        JsonV::Arr(es) => {
            let rel = spec_render_elems(es);
            assert(r == seq!['['] + rel + seq![']']);
            assert(r.len() == rel.len() + 2);
            assert(s[i + 0] == r[0]);
            assert(r[0] == '[');
            assert(s[i + 1 + rel.len() as int] == r[1 + rel.len() as int]);
            assert(r[1 + rel.len() as int] == ']');
            if es.len() == 0 {
                assert(rel =~= Seq::<char>::empty());
                assert(s[i + 1] == ']');
                assert(!is_ws(']'));
                assert(sp_skip_ws(s, i + 1) == i + 1);
                assert(es =~= Seq::<JsonV>::empty());
            } else {
                assert(wf_elems(es));
                assert(wf_json(es[0]));
                lemma_render_head(es[0]);
                if es.len() == 1 {
                    assert(rel == spec_render(es[0]));
                } else {
                    lemma_render_elems_cons(es);
                    assert(rel == spec_render(es[0]) + seq![','] + spec_render_elems(
                        es.drop_first(),
                    ));
                    assert(rel[0] == spec_render(es[0])[0]);
                }
                assert(s[i + 1] == r[1]);
                assert(r[1] == rel[0]);
                assert(!is_ws(s[i + 1]));
                assert(!is_sep(s[i + 1]));
                assert(sp_skip_ws(s, i + 1) == i + 1);
                lemma_subrange_at(s, i, r, 1, 1 + rel.len() as int);
                assert(r.subrange(1, 1 + rel.len() as int) =~= rel);
                lemma_elements_parse(es, s, i + 1, (fuel - 2) as nat);
            }
        },
        JsonV::Obj(ms) => {
            let rms = spec_render_members(ms);
            assert(r == seq!['{'] + rms + seq!['}']);
            assert(r.len() == rms.len() + 2);
            assert(s[i + 0] == r[0]);
            assert(r[0] == '{');
            assert(s[i + 1 + rms.len() as int] == r[1 + rms.len() as int]);
            assert(r[1 + rms.len() as int] == '}');
            if ms.len() == 0 {
                assert(rms =~= Seq::<char>::empty());
                assert(s[i + 1] == '}');
                assert(!is_ws('}'));
                assert(sp_skip_ws(s, i + 1) == i + 1);
                assert(ms =~= Seq::<(Seq<char>, JsonV)>::empty());
            } else {
                if ms.len() == 1 {
                    assert(rms == spec_render_member(ms[0]));
                } else {
                    lemma_render_members_cons(ms);
                    assert(rms == spec_render_member(ms[0]) + seq![','] + spec_render_members(
                        ms.drop_first(),
                    ));
                    assert(rms[0] == spec_render_member(ms[0])[0]);
                }
                assert(spec_render_member(ms[0])[0] == '"');
                assert(s[i + 1] == r[1]);
                assert(r[1] == rms[0]);
                assert(!is_ws('"'));
                assert(!is_sep('"'));
                assert(sp_skip_ws(s, i + 1) == i + 1);
                lemma_subrange_at(s, i, r, 1, 1 + rms.len() as int);
                assert(r.subrange(1, 1 + rms.len() as int) =~= rms);
                lemma_members_parse(ms, s, i + 1, (fuel - 2) as nat);
            }
        },
    }
}

/// Parsing a rendered, non-empty element list followed by `]` reads the
/// elements back.
pub proof fn lemma_elements_parse(es: Seq<JsonV>, s: Seq<char>, i: int, fuel: nat)
    requires
        es.len() >= 1,
        wf_elems(es),
        0 <= i,
        i + spec_render_elems(es).len() + 1 <= s.len(),
        s.subrange(i, i + spec_render_elems(es).len()) == spec_render_elems(es),
        s[i + spec_render_elems(es).len()] == ']',
        fuel >= needed_elems(es),
    ensures
        sp_elements(s, i, fuel) == Option::Some(
            (es, i + spec_render_elems(es).len() + 1),
        ),
    decreases es, 1nat,
{
    let rel = spec_render_elems(es);
    lemma_subrange_chars(s, i, rel);
    let v0 = es[0];
    let rv0 = spec_render(v0);
    assert(wf_json(v0));
    if es.len() == 1 {
        assert(rel == rv0);
        assert(s[i + rv0.len() as int] == ']');
        assert(is_sep(']'));
        lemma_value_parses(v0, s, i, (fuel - 1) as nat);
        assert(!is_ws(']'));
        assert(sp_skip_ws(s, i + rv0.len() as int) == i + rv0.len() as int);
        assert(seq![v0] =~= es);
    } else {
        lemma_render_elems_cons(es);
        let rest = es.drop_first();
        let rrest = spec_render_elems(rest);
        assert(rel == rv0 + seq![','] + rrest);
        assert(rel.len() == rv0.len() + 1 + rrest.len());
        assert(rel[rv0.len() as int] == ',');
        assert(s[i + rv0.len() as int] == rel[rv0.len() as int]);
        assert(is_sep(','));
        lemma_subrange_at(s, i, rel, 0, rv0.len() as int);
        assert(rel.subrange(0, rv0.len() as int) =~= rv0);
        lemma_value_parses(v0, s, i, (fuel - 1) as nat);
        let j0 = i + rv0.len() as int;
        assert(!is_ws(','));
        assert(sp_skip_ws(s, j0) == j0);
        assert(rest.len() >= 1);
        assert(wf_elems(rest));
        assert(wf_json(rest[0]));
        lemma_render_head(rest[0]);
        if rest.len() == 1 {
            assert(rrest == spec_render(rest[0]));
        } else {
            lemma_render_elems_cons(rest);
            assert(rrest == spec_render(rest[0]) + seq![','] + spec_render_elems(
                rest.drop_first(),
            ));
            assert(rrest[0] == spec_render(rest[0])[0]);
        }
        assert(s[j0 + 1] == rel[rv0.len() as int + 1]);
        assert(rel[rv0.len() as int + 1] == rrest[0]);
        assert(!is_ws(s[j0 + 1]));
        assert(sp_skip_ws(s, j0 + 1) == j0 + 1);
        lemma_subrange_at(s, i, rel, rv0.len() as int + 1, rel.len() as int);
        assert(rel.subrange(rv0.len() as int + 1, rel.len() as int) =~= rrest);
        assert(s[j0 + 1 + rrest.len() as int] == ']');
        lemma_elements_parse(rest, s, j0 + 1, (fuel - 1) as nat);
        assert(seq![v0] + rest =~= es);
    }
}

/// Parsing a rendered, non-empty member list followed by `}` reads the
/// members back.
pub proof fn lemma_members_parse(ms: Seq<(Seq<char>, JsonV)>, s: Seq<char>, i: int, fuel: nat)
    requires
        ms.len() >= 1,
        wf_members(ms),
        0 <= i,
        i + spec_render_members(ms).len() + 1 <= s.len(),
        s.subrange(i, i + spec_render_members(ms).len()) == spec_render_members(ms),
        s[i + spec_render_members(ms).len()] == '}',
        fuel >= needed_members(ms),
    ensures
        sp_members(s, i, fuel) == Option::Some(
            (ms, i + spec_render_members(ms).len() + 1),
        ),
    decreases ms, 1nat,
{
    let rms = spec_render_members(ms);
    lemma_subrange_chars(s, i, rms);
    let key = ms[0].0;
    let v0 = ms[0].1;
    let ekey = spec_escape(key);
    let rv0 = spec_render(v0);
    let rm0 = spec_render_member(ms[0]);
    assert(rm0 == seq!['"'] + ekey + seq!['"', ':'] + rv0);
    assert(rm0.len() == ekey.len() + 3 + rv0.len());
    assert(wf_json(v0));
    let tail_len: int = if ms.len() == 1 {
        0
    } else {
        1 + spec_render_members(ms.drop_first()).len() as int
    };
    if ms.len() == 1 {
        assert(rms == rm0);
    } else {
        lemma_render_members_cons(ms);
        assert(rms == rm0 + seq![','] + spec_render_members(ms.drop_first()));
        assert(rms.len() == rm0.len() + 1 + spec_render_members(ms.drop_first()).len());
    }
    assert forall|k: int| 0 <= k < rm0.len() implies s[i + k] == #[trigger] rm0[k] by {
        if ms.len() == 1 {
            assert(rms[k] == rm0[k]);
        } else {
            assert(rms[k] == rm0[k]);
        }
    }
    assert(rm0[0] == '"');
    assert(s[i + 0] == '"');
    // the escaped key sits right after the opening quote
    assert(s.subrange(i + 1, i + 1 + ekey.len() as int) =~= ekey) by {
        assert forall|k: int|
            0 <= k < ekey.len() implies s.subrange(i + 1, i + 1 + ekey.len() as int)[k] == ekey[k] by {
            assert(s.subrange(i + 1, i + 1 + ekey.len() as int)[k] == s[i + (1 + k)]);
            assert(rm0[1 + k] == ekey[k]);
        }
    }
    assert(rm0[1 + ekey.len() as int] == '"');
    assert(s[i + 1 + ekey.len() as int] == '"');
    lemma_string_body_parses(key, s, i + 1, (fuel - 1) as nat);
    let pk = i + 2 + ekey.len() as int;
    assert(sp_string_body(s, i + 1, (fuel - 1) as nat) == Option::Some((key, pk)));
    assert(rm0[2 + ekey.len() as int] == ':');
    assert(s[i + 2 + ekey.len() as int] == ':');
    assert(!is_ws(':'));
    assert(sp_skip_ws(s, pk) == pk);
    let pv = pk + 1;
    assert(s.subrange(pv, pv + rv0.len() as int) =~= rv0) by {
        assert forall|k: int|
            0 <= k < rv0.len() implies s.subrange(pv, pv + rv0.len() as int)[k] == rv0[k] by {
            assert(s.subrange(pv, pv + rv0.len() as int)[k] == s[i + (3 + ekey.len() + k)]);
            assert(rm0[3 + ekey.len() as int + k] == rv0[k]);
        }
    }
    lemma_render_head(v0);
    assert(s[i + 3 + ekey.len() as int] == rm0[3 + ekey.len() as int]);
    assert(rm0[3 + ekey.len() as int] == rv0[0]);
    assert(!is_ws(s[pv]));
    assert(sp_skip_ws(s, pk + 1) == pv);
    let pe = pv + rv0.len() as int;
    if ms.len() == 1 {
        assert(pe == i + rms.len() as int);
        assert(s[pe] == '}');
        assert(is_sep('}'));
        lemma_value_parses(v0, s, pv, (fuel - 1) as nat);
        assert(!is_ws('}'));
        assert(sp_skip_ws(s, pe) == pe);
        assert(seq![(key, v0)] =~= ms);
    } else {
        assert(s[pe] == rms[rm0.len() as int]);
        assert(rms[rm0.len() as int] == ',');
        assert(is_sep(','));
        lemma_value_parses(v0, s, pv, (fuel - 1) as nat);
        assert(!is_ws(','));
        assert(sp_skip_ws(s, pe) == pe);
        let rest = ms.drop_first();
        let rrest = spec_render_members(rest);
        assert(rest.len() >= 1);
        assert(wf_members(rest));
        let pr = pe + 1;
        if rest.len() == 1 {
            assert(rrest == spec_render_member(rest[0]));
        } else {
            lemma_render_members_cons(rest);
            assert(rrest == spec_render_member(rest[0]) + seq![','] + spec_render_members(
                rest.drop_first(),
            ));
            assert(rrest[0] == spec_render_member(rest[0])[0]);
        }
        assert(spec_render_member(rest[0])[0] == '"');
        assert(s[pr] == rms[rm0.len() as int + 1]);
        assert(rms[rm0.len() as int + 1] == rrest[0]);
        assert(!is_ws('"'));
        assert(sp_skip_ws(s, pe + 1) == pr);
        lemma_subrange_at(s, i, rms, rm0.len() as int + 1, rms.len() as int);
        assert(rms.subrange(rm0.len() as int + 1, rms.len() as int) =~= rrest);
        assert(s[pr + rrest.len() as int] == '}');
        lemma_members_parse(rest, s, pr, (fuel - 1) as nat);
        assert(seq![(key, v0)] + rest =~= ms);
    }
}

/// The codec's round trip: parsing the canonical rendering of a
/// well-formed value yields the value back.
pub proof fn lemma_render_parse_round_trip(v: JsonV)
    requires
        wf_json(v),
    ensures
        spec_parse_json(spec_render(v)) == Option::Some(v),
{
    let s = spec_render(v);
    lemma_render_head(v);
    assert(sp_skip_ws(s, 0) == 0);
    lemma_needed_le(v);
    assert(s.subrange(0, s.len() as int) =~= s);
    lemma_value_parses(v, s, 0, spec_fuel(s));
    assert(sp_skip_ws(s, s.len() as int) == s.len());
}

// ---------- access helpers ----------

/// Whether two strings hold the same characters.
pub fn str_eq(a: &str, b: &str) -> (r: bool)
    ensures
        r == (a@ == b@),
{
    let na = a.unicode_len();
    let nb = b.unicode_len();
    if na != nb {
        return false;
    }
    let mut i: usize = 0;
    while i < na
        invariant
            i <= na,
            na == a@.len(),
            na == b@.len(),
            forall|k: int| 0 <= k < i ==> a@[k] == b@[k],
        decreases na - i,
    {
        if a.get_char(i) != b.get_char(i) {
            return false;
        }
        i = i + 1;
    }
    proof {
        assert(a@ =~= b@);
    }
    true
}

/// The value under the first member with the given key.
pub open spec fn sp_obj_get(ms: Seq<(Seq<char>, JsonV)>, key: Seq<char>) -> Option<JsonV>
    decreases ms.len(),
{
    if ms.len() == 0 {
        Option::None
    } else if ms[0].0 == key {
        Option::Some(ms[0].1)
    } else {
        sp_obj_get(ms.drop_first(), key)
    }
}

fn obj_get_from<'a>(ms: &'a Vec<(String, JsonValue)>, i: usize, key: &str) -> (r: Option<
    &'a JsonValue,
>)
    requires
        i <= ms@.len(),
    ensures
        ({
            let sp = sp_obj_get(view_members(ms@).skip(i as int), key@);
            match sp {
                Option::None => r is None,
                Option::Some(v) => r matches Some(rv) && rv@ == v,
            }
        }),
    decreases ms@.len() - i,
{
    proof {
        lemma_view_members(ms@);
    }
    if i == ms.len() {
        None
    } else {
        proof {
            assert(view_members(ms@).skip(i as int)[0] == (ms@[i as int].0@, ms@[i as int].1@));
            assert(view_members(ms@).skip(i as int).drop_first() =~= view_members(ms@).skip(
                i + 1int,
            ));
        }
        if str_eq(ms[i].0.as_str(), key) {
            Some(&ms[i].1)
        } else {
            obj_get_from(ms, i + 1, key)
        }
    }
}

/// Looks a key up among an object's members; the first match counts.
pub fn obj_get<'a>(ms: &'a Vec<(String, JsonValue)>, key: &str) -> (r: Option<&'a JsonValue>)
    ensures
        ({
            let sp = sp_obj_get(view_members(ms@), key@);
            match sp {
                Option::None => r is None,
                Option::Some(v) => r matches Some(rv) && rv@ == v,
            }
        }),
{
    proof {
        assert(view_members(ms@).skip(0) =~= view_members(ms@));
    }
    obj_get_from(ms, 0, key)
}

/// Looking a key up skips any prefix whose members all carry other keys.
pub proof fn lemma_obj_get_skip(
    a: Seq<(Seq<char>, JsonV)>,
    b: Seq<(Seq<char>, JsonV)>,
    key: Seq<char>,
)
    requires
        forall|i: int| 0 <= i < a.len() ==> (#[trigger] a[i]).0 != key,
    ensures
        sp_obj_get(a + b, key) == sp_obj_get(b, key),
    decreases a.len(),
{
    if a.len() == 0 {
        assert(a + b =~= b);
    } else {
        assert((a + b)[0] == a[0]);
        assert((a + b).drop_first() =~= a.drop_first() + b);
        lemma_obj_get_skip(a.drop_first(), b, key);
    }
}

/// A digit run followed by a non-digit (or the end) stops the scan there.
pub proof fn lemma_digits_end_run(s: Seq<char>, i: int, j: int)
    requires
        0 <= i <= j <= s.len(),
        forall|k: int| i <= k < j ==> is_digit(#[trigger] s[k]),
        j == s.len() || !is_digit(s[j]),
    ensures
        sp_digits_end(s, i) == j,
    decreases j - i,
{
    if i < j {
        lemma_digits_end_run(s, i + 1, j);
    }
}

/// The decimal digits of a number: all digits, no leading zero unless the
/// number is below ten, value equal to the number, and at most `k` digits
/// whenever the number is below ten to the `k`.
pub proof fn lemma_u64_digits_props(n: nat)
    ensures
        spec_u64_digits(n).len() >= 1,
        forall|k: int|
            0 <= k < spec_u64_digits(n).len() ==> is_digit(#[trigger] spec_u64_digits(n)[k]),
        digits_val(spec_u64_digits(n)) == n,
        n >= 10 ==> spec_u64_digits(n)[0] != '0',
        n < 10 ==> spec_u64_digits(n) =~= seq![digit_char(n as int)],
    decreases n,
{
    if n < 10 {
        let d = seq![digit_char(n as int)];
        assert(d.drop_last() =~= Seq::<char>::empty());
        assert(digits_val(Seq::<char>::empty()) == 0);
        assert(digits_val(d) == digit_val(digit_char(n as int)));
    } else {
        lemma_u64_digits_props(n / 10);
        let d = spec_u64_digits(n);
        let pre = spec_u64_digits(n / 10);
        assert(d == pre.push(digit_char((n % 10) as int)));
        assert(d.drop_last() =~= pre);
        assert(d[0] == pre[0]);
        if n / 10 >= 10 {
        } else {
            assert(pre =~= seq![digit_char((n / 10) as int)]);
            assert(n / 10 >= 1);
        }
    }
}

/// A number below ten to the `k` has at most `k` digits.
pub proof fn lemma_u64_digits_len(n: nat, k: nat)
    requires
        k >= 1,
        n < pow10(k),
    ensures
        spec_u64_digits(n).len() <= k,
    decreases k,
{
    if n < 10 {
    } else {
        assert(pow10(k) == 10 * pow10((k - 1) as nat));
        lemma_u64_digits_len(n / 10, (k - 1) as nat);
    }
}

/// Renders a signed integer to its decimal text.
pub fn i64_to_string(n: i64) -> (r: String)
    ensures
        r@ == spec_i64_str(n as int),
{
    let mut out: Vec<char> = Vec::new();
    push_i64_str(n, &mut out);
    string_from_chars(&out)
}

/// Renders a JSON value to its canonical text.
pub fn render_json(v: &JsonValue) -> (r: String)
    ensures
        r@ == spec_render(v@),
{
    let mut out: Vec<char> = Vec::new();
    push_render(v, &mut out);
    string_from_chars(&out)
}

} // verus!
