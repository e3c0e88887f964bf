//! The request and response payload types: turns and their parts.

pub mod error;
pub mod request;
pub mod response;

use vstd::prelude::*;

use crate::json::{
    lemma_view_elems, lemma_view_elems_push, lemma_view_members_push, obj_get, sp_obj_get,
    str_eq, view_members, JsonV, JsonValue,
};

verus! {

/// Who contributed a turn.
#[derive(Clone, Copy, PartialEq, Eq, Structural, Debug)]
pub enum Role {
    User,
    Model,
}

impl DeepView for Role {
    type V = Role;

    open spec fn deep_view(&self) -> Role {
        *self
    }
}

/// An atomic unit of a turn's payload: text, or inline binary data carried
/// base64-encoded with its MIME type.
#[derive(Clone, Debug)]
pub enum Part {
    Text(String),
    InlineData { mime_type: String, data: String },
}

/// The model of a `Part`.
pub enum PartV {
    Text(Seq<char>),
    InlineData { mime_type: Seq<char>, data: Seq<char> },
}

impl DeepView for Part {
    type V = PartV;

    open spec fn deep_view(&self) -> PartV {
        match self {
            Part::Text(s) => PartV::Text(s@),
            Part::InlineData { mime_type, data } => PartV::InlineData {
                mime_type: mime_type@,
                data: data@,
            },
        }
    }
}

/// One turn: an ordered list of parts, and who contributed it. A system
/// instruction turn carries no role.
#[derive(Clone, Debug)]
pub struct Content {
    pub parts: Vec<Part>,
    pub role: Option<Role>,
}

/// The model of a `Content`.
pub struct ContentV {
    pub parts: Seq<PartV>,
    pub role: Option<Role>,
}

impl DeepView for Content {
    type V = ContentV;

    open spec fn deep_view(&self) -> ContentV {
        ContentV { parts: self.parts.deep_view(), role: self.role }
    }
}

impl Content {
    /// A single-part text turn with the given role.
    pub fn text(role: Option<Role>, text: String) -> (r: Content)
        ensures
            r.deep_view().role == role,
            r.deep_view().parts =~= seq![PartV::Text(text@)],
    {
        let parts = vec![Part::Text(text)];
        Content { parts, role }
    }
}

/// The wire token of a role.
pub open spec fn spec_role_str(r: Role) -> Seq<char> {
    match r {
        Role::User => "user"@,
        Role::Model => "model"@,
    }
}

/// The role a wire token maps back to.
pub open spec fn sp_role(s: Seq<char>) -> Option<Role> {
    if s == "user"@ {
        Option::Some(Role::User)
    } else if s == "model"@ {
        Option::Some(Role::Model)
    } else {
        Option::None
    }
}

/// The JSON form of a part.
pub open spec fn spec_part_json(p: PartV) -> JsonV {
    match p {
        PartV::Text(s) => JsonV::Obj(seq![("text"@, JsonV::Str(s))]),
        PartV::InlineData { mime_type, data } => JsonV::Obj(
            seq![
                (
                    "inlineData"@,
                    JsonV::Obj(
                        seq![("mimeType"@, JsonV::Str(mime_type)), ("data"@, JsonV::Str(data))],
                    ),
                ),
            ],
        ),
    }
}

/// The JSON forms of a list of parts.
pub open spec fn spec_parts_json(ps: Seq<PartV>) -> Seq<JsonV>
    decreases ps.len(),
{
    if ps.len() == 0 {
        Seq::empty()
    } else {
        spec_parts_json(ps.drop_last()).push(spec_part_json(ps.last()))
    }
}

/// The JSON form of a turn: its parts, and its role when it has one.
pub open spec fn spec_content_json(c: ContentV) -> JsonV {
    JsonV::Obj(
        seq![("parts"@, JsonV::Arr(spec_parts_json(c.parts)))] + (match c.role {
            Option::Some(r) => seq![("role"@, JsonV::Str(spec_role_str(r)))],
            Option::None => Seq::empty(),
        }),
    )
}

/// Serializes a part.
pub fn part_to_json(p: &Part) -> (r: JsonValue)
    ensures
        r@ == spec_part_json(p.deep_view()),
{
    match p {
        Part::Text(s) => {
            let mut ms: Vec<(String, JsonValue)> = Vec::new();
            let key = String::from_str("text");
            let v = JsonValue::Str(s.clone());
            proof {
                lemma_view_members_push(ms@, key, v);
            }
            ms.push((key, v));
            proof {
                assert(view_members(ms@) =~= seq![("text"@, JsonV::Str(s@))]);
            }
            JsonValue::Obj(ms)
        },
        Part::InlineData { mime_type, data } => {
            let mut inner: Vec<(String, JsonValue)> = Vec::new();
            let k1 = String::from_str("mimeType");
            let v1 = JsonValue::Str(mime_type.clone());
            proof {
                lemma_view_members_push(inner@, k1, v1);
            }
            inner.push((k1, v1));
            let k2 = String::from_str("data");
            let v2 = JsonValue::Str(data.clone());
            proof {
                lemma_view_members_push(inner@, k2, v2);
            }
            inner.push((k2, v2));
            let mut ms: Vec<(String, JsonValue)> = Vec::new();
            let key = String::from_str("inlineData");
            let v = JsonValue::Obj(inner);
            proof {
                lemma_view_members_push(ms@, key, v);
            }
            ms.push((key, v));
            proof {
                assert(view_members(ms@)[0].1 matches JsonV::Obj(im) && im =~= seq![
                    ("mimeType"@, JsonV::Str(mime_type@)),
                    ("data"@, JsonV::Str(data@)),
                ]);
                assert(view_members(ms@) =~= seq![
                    (
                        "inlineData"@,
                        JsonV::Obj(
                            seq![
                                ("mimeType"@, JsonV::Str(mime_type@)),
                                ("data"@, JsonV::Str(data@)),
                            ],
                        ),
                    ),
                ]);
            }
            JsonValue::Obj(ms)
        },
    }
}

/// Serializes a turn.
pub fn content_to_json(c: &Content) -> (r: JsonValue)
    ensures
        r@ == spec_content_json(c.deep_view()),
{
    let mut arr: Vec<JsonValue> = Vec::new();
    let n = c.parts.len();
    let mut i: usize = 0;
    while i < n
        invariant
            i <= n,
            n == c.parts@.len(),
            crate::json::view_elems(arr@) == spec_parts_json(c.parts.deep_view().take(i as int)),
        decreases n - i,
    {
        let pj = part_to_json(&c.parts[i]);
        proof {
            lemma_view_elems_push(arr@, pj);
            let dv = c.parts.deep_view();
            assert(dv.take(i + 1int).drop_last() =~= dv.take(i as int));
            assert(dv.take(i + 1int).last() == c.parts@[i as int].deep_view());
        }
        arr.push(pj);
        i = i + 1;
    }
    proof {
        assert(c.parts.deep_view().take(n as int) =~= c.parts.deep_view());
    }
    let mut ms: Vec<(String, JsonValue)> = Vec::new();
    let k1 = String::from_str("parts");
    let v1 = JsonValue::Arr(arr);
    proof {
        lemma_view_members_push(ms@, k1, v1);
    }
    ms.push((k1, v1));
    match &c.role {
        Some(r) => {
            let k2 = String::from_str("role");
            let tok = if matches!(r, Role::User) {
                String::from_str("user")
            } else {
                String::from_str("model")
            };
            proof {
                assert(tok@ == spec_role_str(c.deep_view().role->0));
            }
            let v2 = JsonValue::Str(tok);
            proof {
                lemma_view_members_push(ms@, k2, v2);
            }
            ms.push((k2, v2));
            proof {
                assert(view_members(ms@) =~= seq![
                    ("parts"@, JsonV::Arr(spec_parts_json(c.deep_view().parts))),
                ] + seq![("role"@, JsonV::Str(spec_role_str(c.deep_view().role->0)))]);
            }
        },
        None => {
            proof {
                assert(view_members(ms@) =~= seq![
                    ("parts"@, JsonV::Arr(spec_parts_json(c.deep_view().parts))),
                ] + Seq::<(Seq<char>, JsonV)>::empty());
            }
        },
    }
    JsonValue::Obj(ms)
}

/// The part a JSON value decodes to.
pub open spec fn sp_part(v: JsonV) -> Option<PartV> {
    match v {
        JsonV::Obj(ms) => match sp_obj_get(ms, "text"@) {
            Option::Some(tv) => match tv {
                JsonV::Str(s) => Option::Some(PartV::Text(s)),
                _ => Option::None,
            },
            Option::None => match sp_obj_get(ms, "inlineData"@) {
                Option::Some(iv) => match iv {
                    JsonV::Obj(ims) => match (
                        sp_obj_get(ims, "mimeType"@),
                        sp_obj_get(ims, "data"@),
                    ) {
                        (Option::Some(JsonV::Str(m)), Option::Some(JsonV::Str(d))) => Option::Some(
                            PartV::InlineData { mime_type: m, data: d },
                        ),
                        _ => Option::None,
                    },
                    _ => Option::None,
                },
                Option::None => Option::None,
            },
        },
        _ => Option::None,
    }
}

/// Decodes a part.
pub fn part_from_json(v: &JsonValue) -> (r: Option<Part>)
    ensures
        ({
            let sp = sp_part(v@);
            match sp {
                Option::None => r is None,
                Option::Some(p) => r matches Some(rp) && rp.deep_view() == p,
            }
        }),
{
    match v {
        JsonValue::Obj(ms) => {
            match obj_get(ms, "text") {
                Some(tv) => match tv {
                    JsonValue::Str(s) => Some(Part::Text(s.clone())),
                    _ => None,
                },
                None => {
                    match obj_get(ms, "inlineData") {
                        Some(iv) => match iv {
                            JsonValue::Obj(ims) => {
                                let m = obj_get(ims, "mimeType");
                                let d = obj_get(ims, "data");
                                match (m, d) {
                                    (Some(JsonValue::Str(ms_)), Some(JsonValue::Str(ds_))) => Some(
                                        Part::InlineData {
                                            mime_type: ms_.clone(),
                                            data: ds_.clone(),
                                        },
                                    ),
                                    _ => None,
                                }
                            },
                            _ => None,
                        },
                        None => None,
                    }
                },
            }
        },
        _ => None,
    }
}

/// The parts a JSON list decodes to; any bad element fails the list.
pub open spec fn sp_parts(vs: Seq<JsonV>) -> Option<Seq<PartV>>
    decreases vs.len(),
{
    if vs.len() == 0 {
        Option::Some(Seq::empty())
    } else {
        match sp_part(vs[0]) {
            Option::None => Option::None,
            Option::Some(p) => match sp_parts(vs.drop_first()) {
                Option::None => Option::None,
                Option::Some(rest) => Option::Some(seq![p] + rest),
            },
        }
    }
}

/// Decodes a list of parts.
pub fn parts_from_json(arr: &Vec<JsonValue>) -> (r: Option<Vec<Part>>)
    ensures
        ({
            let sp = sp_parts(crate::json::view_elems(arr@));
            match sp {
                Option::None => r is None,
                Option::Some(ps) => r matches Some(rv) && rv.deep_view() == ps,
            }
        }),
{
    let n = arr.len();
    let mut acc: Vec<Part> = Vec::new();
    let mut i: usize = 0;
    proof {
        lemma_view_elems(arr@);
        let full = crate::json::view_elems(arr@);
        assert(full.skip(0) =~= full);
        assert(acc.deep_view() =~= Seq::<PartV>::empty());
        match sp_parts(full) {
            Option::None => {},
            Option::Some(rest) => {
                assert(acc.deep_view() + rest =~= rest);
            },
        }
    }
    while i < n
        invariant
            i <= n,
            n == arr@.len(),
            acc.deep_view().len() == i,
            ({
                let full = crate::json::view_elems(arr@);
                let sp = sp_parts(full);
                match sp_parts(full.skip(i as int)) {
                    Option::None => sp is None,
                    Option::Some(rest) => sp == Option::Some(acc.deep_view() + rest),
                }
            }),
        decreases n - i,
    {
        proof {
            lemma_view_elems(arr@);
            let full = crate::json::view_elems(arr@);
            assert(full.skip(i as int)[0] == full[i as int]);
            assert(full.skip(i as int).drop_first() =~= full.skip(i + 1int));
        }
        match part_from_json(&arr[i]) {
            None => {
                return None;
            },
            Some(p) => {
                let ghost dv = acc.deep_view();
                let ghost pv = p.deep_view();
                acc.push(p);
                proof {
                    assert(acc.deep_view() =~= dv.push(pv));
                    let full = crate::json::view_elems(arr@);
                    match sp_parts(full.skip(i + 1int)) {
                        Option::None => {},
                        Option::Some(rest) => {
                            assert(dv + (seq![pv] + rest) =~= dv.push(pv) + rest);
                        },
                    }
                }
                i = i + 1;
            },
        }
    }
    proof {
        let full = crate::json::view_elems(arr@);
        assert(full.skip(n as int) =~= Seq::<JsonV>::empty());
        assert(acc.deep_view() + Seq::<PartV>::empty() =~= acc.deep_view());
    }
    Some(acc)
}

/// The turn a JSON value decodes to: `parts` is required, `role` optional;
/// an unrecognized role token fails the decode.
pub open spec fn sp_content(v: JsonV) -> Option<ContentV> {
    match v {
        JsonV::Obj(ms) => match sp_obj_get(ms, "parts"@) {
            Option::Some(JsonV::Arr(vs)) => match sp_parts(vs) {
                Option::None => Option::None,
                Option::Some(ps) => match sp_obj_get(ms, "role"@) {
                    Option::None => Option::Some(ContentV { parts: ps, role: Option::None }),
                    Option::Some(JsonV::Str(s)) => match sp_role(s) {
                        Option::Some(r) => Option::Some(
                            ContentV { parts: ps, role: Option::Some(r) },
                        ),
                        Option::None => Option::None,
                    },
                    Option::Some(_) => Option::None,
                },
            },
            _ => Option::None,
        },
        _ => Option::None,
    }
}

/// Decoding the JSON form of a part yields the part back: every field the
/// schema declares survives the round trip.
pub proof fn lemma_part_round_trip(p: PartV)
    ensures
        sp_part(spec_part_json(p)) == Option::Some(p),
{
    reveal_strlit("text");
    reveal_strlit("inlineData");
    reveal_strlit("mimeType");
    reveal_strlit("data");
    assert(("text"@).len() == 4);
    assert(("inlineData"@).len() == 10);
    assert(("mimeType"@).len() == 8);
    assert(("data"@).len() == 4);
    assert(("text"@)[0] == 't');
    assert(("data"@)[0] == 'd');
    match p {
        PartV::Text(s) => {
            let ms = seq![("text"@, JsonV::Str(s))];
            assert(sp_obj_get(ms, "text"@) == Option::Some(JsonV::Str(s)));
        },
        PartV::InlineData { mime_type, data } => {
            let inner = seq![
                ("mimeType"@, JsonV::Str(mime_type)),
                ("data"@, JsonV::Str(data)),
            ];
            let ms = seq![("inlineData"@, JsonV::Obj(inner))];
            let none = Seq::<(Seq<char>, JsonV)>::empty();
            assert(ms[0] == ("inlineData"@, JsonV::Obj(inner)));
            assert(ms[0].0 != "text"@);
            assert(ms.drop_first() =~= none);
            assert(sp_obj_get(none, "text"@) is None);
            assert(sp_obj_get(ms, "text"@) == sp_obj_get(ms.drop_first(), "text"@));
            assert(sp_obj_get(ms, "text"@) is None);
            assert(sp_obj_get(ms, "inlineData"@) == Option::Some(JsonV::Obj(inner)));
            assert(inner[0] == ("mimeType"@, JsonV::Str(mime_type)));
            assert(sp_obj_get(inner, "mimeType"@) == Option::Some(JsonV::Str(mime_type)));
            let tail = seq![("data"@, JsonV::Str(data))];
            assert(inner[0].0 != "data"@);
            assert(inner.drop_first() =~= tail);
            assert(tail[0] == ("data"@, JsonV::Str(data)));
            assert(sp_obj_get(tail, "data"@) == Option::Some(JsonV::Str(data)));
            assert(sp_obj_get(inner, "data"@) == Option::Some(JsonV::Str(data)));
        },
    }
}

/// The JSON forms of a part list split off their head.
proof fn lemma_parts_json_cons(ps: Seq<PartV>)
    requires
        ps.len() >= 1,
    ensures
        spec_parts_json(ps) == seq![spec_part_json(ps[0])] + spec_parts_json(ps.drop_first()),
    decreases ps.len(),
{
    if ps.len() == 1 {
        assert(ps.drop_last() =~= Seq::<PartV>::empty());
        assert(ps.drop_first() =~= Seq::<PartV>::empty());
        assert(spec_parts_json(ps) =~= seq![spec_part_json(ps[0])] + spec_parts_json(
            ps.drop_first(),
        ));
    } else {
        lemma_parts_json_cons(ps.drop_last());
        assert(ps.drop_last()[0] == ps[0]);
        assert(ps.drop_last().drop_first() =~= ps.drop_first().drop_last());
        assert(ps.drop_first().last() == ps.last());
        assert(spec_parts_json(ps.drop_first()) == spec_parts_json(
            ps.drop_first().drop_last(),
        ).push(spec_part_json(ps.last())));
        assert(spec_parts_json(ps) =~= seq![spec_part_json(ps[0])] + spec_parts_json(
            ps.drop_first(),
        ));
    }
}

/// Decoding the JSON forms of a part list yields the list back.
pub proof fn lemma_parts_round_trip(ps: Seq<PartV>)
    ensures
        sp_parts(spec_parts_json(ps)) == Option::Some(ps),
    decreases ps.len(),
{
    if ps.len() == 0 {
        assert(spec_parts_json(ps) =~= Seq::<JsonV>::empty());
        assert(Option::Some(Seq::<PartV>::empty()) == Option::Some(ps));
    } else {
        lemma_parts_json_cons(ps);
        let js = spec_parts_json(ps);
        assert(js[0] == spec_part_json(ps[0]));
        assert(js.drop_first() =~= spec_parts_json(ps.drop_first()));
        lemma_part_round_trip(ps[0]);
        lemma_parts_round_trip(ps.drop_first());
        assert(seq![ps[0]] + ps.drop_first() =~= ps);
    }
}

/// Decoding the JSON form of a turn yields the turn back.
pub proof fn lemma_content_round_trip(c: ContentV)
    ensures
        sp_content(spec_content_json(c)) == Option::Some(c),
{
    reveal_strlit("parts");
    reveal_strlit("role");
    reveal_strlit("user");
    reveal_strlit("model");
    assert(("parts"@).len() == 5);
    assert(("role"@).len() == 4);
    assert(("user"@).len() == 4);
    assert(("model"@).len() == 5);
    assert(("user"@)[0] == 'u');
    assert(("role"@)[0] == 'r');
    let head = seq![("parts"@, JsonV::Arr(spec_parts_json(c.parts)))];
    lemma_parts_round_trip(c.parts);
    match c.role {
        Option::Some(r) => {
            let tail = seq![("role"@, JsonV::Str(spec_role_str(r)))];
            let ms = head + tail;
            assert(ms[0] == ("parts"@, JsonV::Arr(spec_parts_json(c.parts))));
            assert(sp_obj_get(ms, "parts"@) == Option::Some(
                JsonV::Arr(spec_parts_json(c.parts)),
            ));
            assert(ms[0].0 != "role"@);
            assert(ms.drop_first() =~= tail);
            assert(tail[0] == ("role"@, JsonV::Str(spec_role_str(r))));
            assert(sp_obj_get(tail, "role"@) == Option::Some(JsonV::Str(spec_role_str(r))));
            assert(sp_obj_get(ms, "role"@) == sp_obj_get(ms.drop_first(), "role"@));
            assert(sp_obj_get(ms, "role"@) == Option::Some(JsonV::Str(spec_role_str(r))));
            assert(sp_role(spec_role_str(r)) == Option::Some(r));
            assert(ContentV { parts: c.parts, role: Option::Some(r) } == c);
        },
        Option::None => {
            let none = Seq::<(Seq<char>, JsonV)>::empty();
            let ms = head + none;
            assert(ms =~= head);
            assert(ms[0] == ("parts"@, JsonV::Arr(spec_parts_json(c.parts))));
            assert(sp_obj_get(ms, "parts"@) == Option::Some(
                JsonV::Arr(spec_parts_json(c.parts)),
            ));
            assert(ms[0].0 != "role"@);
            assert(ms.drop_first() =~= none);
            assert(sp_obj_get(none, "role"@) is None);
            assert(sp_obj_get(ms, "role"@) == sp_obj_get(ms.drop_first(), "role"@));
            assert(sp_obj_get(ms, "role"@) is None);
            assert(ContentV { parts: c.parts, role: Option::None } == c);
        },
    }
}

/// The JSON forms of a part list, element by element.
pub proof fn lemma_parts_json_index(ps: Seq<PartV>)
    ensures
        spec_parts_json(ps).len() == ps.len(),
        forall|k: int|
            0 <= k < ps.len() ==> spec_parts_json(ps)[k] == spec_part_json(#[trigger] ps[k]),
    decreases ps.len(),
{
    if ps.len() > 0 {
        lemma_parts_json_index(ps.drop_last());
        assert forall|k: int|
            0 <= k < ps.len() implies spec_parts_json(ps)[k] == spec_part_json(
            #[trigger] ps[k],
        ) by {
            if k < ps.len() - 1 {
                assert(ps.drop_last()[k] == ps[k]);
            } else {
                assert(spec_parts_json(ps)[k] == spec_part_json(ps.last()));
            }
        }
    }
}

/// A part's JSON form is well formed: it renders losslessly.
pub proof fn lemma_part_json_wf(p: PartV)
    ensures
        crate::json::wf_json(spec_part_json(p)),
{
    match p {
        PartV::Text(s) => {
            let ms = seq![("text"@, JsonV::Str(s))];
            assert forall|k: int|
                0 <= k < ms.len() implies crate::json::wf_json((#[trigger] ms[k]).1) by {
                assert(ms[k] == ms[0]);
            }
            crate::json::lemma_wf_members_of(ms);
        },
        PartV::InlineData { mime_type, data } => {
            let inner = seq![
                ("mimeType"@, JsonV::Str(mime_type)),
                ("data"@, JsonV::Str(data)),
            ];
            assert forall|k: int|
                0 <= k < inner.len() implies crate::json::wf_json((#[trigger] inner[k]).1) by {
                if k == 0 {
                    assert(inner[k] == inner[0]);
                } else {
                    assert(inner[k] == inner[1]);
                }
            }
            crate::json::lemma_wf_members_of(inner);
            let ms = seq![("inlineData"@, JsonV::Obj(inner))];
            assert forall|k: int|
                0 <= k < ms.len() implies crate::json::wf_json((#[trigger] ms[k]).1) by {
                assert(ms[k] == ms[0]);
            }
            crate::json::lemma_wf_members_of(ms);
        },
    }
}

/// A turn's JSON form is well formed: it renders losslessly.
pub proof fn lemma_content_json_wf(c: ContentV)
    ensures
        crate::json::wf_json(spec_content_json(c)),
{
    lemma_parts_json_index(c.parts);
    let pj = spec_parts_json(c.parts);
    assert forall|k: int| 0 <= k < pj.len() implies crate::json::wf_json(#[trigger] pj[k]) by {
        assert(pj[k] == spec_part_json(c.parts[k]));
        lemma_part_json_wf(c.parts[k]);
    }
    crate::json::lemma_wf_elems_of(pj);
    let head = seq![("parts"@, JsonV::Arr(pj))];
    match c.role {
        Option::Some(r) => {
            let ms = head + seq![("role"@, JsonV::Str(spec_role_str(r)))];
            assert forall|k: int|
                0 <= k < ms.len() implies crate::json::wf_json((#[trigger] ms[k]).1) by {
                if k == 0 {
                    assert(ms[k] == head[0]);
                } else {
                    assert(ms[k] == ("role"@, JsonV::Str(spec_role_str(r))));
                }
            }
            crate::json::lemma_wf_members_of(ms);
        },
        Option::None => {
            let ms = head + Seq::<(Seq<char>, JsonV)>::empty();
            assert(ms =~= head);
            assert forall|k: int|
                0 <= k < ms.len() implies crate::json::wf_json((#[trigger] ms[k]).1) by {
                assert(ms[k] == head[0]);
            }
            crate::json::lemma_wf_members_of(ms);
        },
    }
}

/// A turn survives the full trip to text and back: its JSON form renders
/// to text that parses to the same JSON form, which decodes to the turn.
pub proof fn lemma_content_text_round_trip(c: ContentV)
    ensures
        crate::json::spec_parse_json(crate::json::spec_render(spec_content_json(c)))
            == Option::Some(spec_content_json(c)),
        sp_content(spec_content_json(c)) == Option::Some(c),
{
    lemma_content_json_wf(c);
    crate::json::lemma_render_parse_round_trip(spec_content_json(c));
    lemma_content_round_trip(c);
}

/// Decodes a turn.
pub fn content_from_json(v: &JsonValue) -> (r: Option<Content>)
    ensures
        ({
            let sp = sp_content(v@);
            match sp {
                Option::None => r is None,
                Option::Some(c) => r matches Some(rc) && rc.deep_view() == c,
            }
        }),
{
    match v {
        JsonValue::Obj(ms) => {
            match obj_get(ms, "parts") {
                Some(JsonValue::Arr(vs)) => {
                    match parts_from_json(vs) {
                        None => None,
                        Some(ps) => {
                            match obj_get(ms, "role") {
                                None => Some(Content { parts: ps, role: None }),
                                Some(JsonValue::Str(s)) => {
                                    if str_eq(s.as_str(), "user") {
                                        Some(Content { parts: ps, role: Some(Role::User) })
                                    } else if str_eq(s.as_str(), "model") {
                                        Some(Content { parts: ps, role: Some(Role::Model) })
                                    } else {
                                        None
                                    }
                                },
                                Some(_) => None,
                            }
                        },
                    }
                },
                _ => None,
            }
        },
        _ => None,
    }
}

} // verus!
