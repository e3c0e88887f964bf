//! Properties of the library, stated and proved once over the same spec
//! functions the public contracts use.

use vstd::prelude::*;

use crate::body::error::sp_error_envelope;
use crate::body::request::{sp_config, spec_config_json, spec_default_config};
use crate::body::response::{sp_response, GenerateContentResponseV};
use crate::body::{ContentV, Role};
use crate::json::{
    sp_obj_get, sp_object, sp_skip_ws, sp_value, spec_fuel, spec_parse_json, spec_render, JsonV,
};
use crate::model::{spec_decode_reply, spec_error_message, spec_model_text, GeminiErrorV};

verus! {

/// The history after one successful send in an accumulating session: the
/// user's turn, then the model's reply.
pub open spec fn spec_after_ok_send(h: Seq<ContentV>, m: ContentV, t: Seq<char>) -> Seq<
    ContentV,
> {
    h.push(m).push(spec_model_text(t))
}

/// The all-default options serialize with every optional key omitted —
/// the empty object — and deserializing that form yields the defaults
/// back.
pub proof fn lemma_default_config_round_trip()
    ensures
        spec_config_json(spec_default_config()) == JsonV::Obj(
            Seq::<(Seq<char>, JsonV)>::empty(),
        ),
        spec_render(spec_config_json(spec_default_config())) == seq!['{', '}'],
        spec_parse_json(seq!['{', '}']) == Option::Some(
            JsonV::Obj(Seq::<(Seq<char>, JsonV)>::empty()),
        ),
        sp_config(JsonV::Obj(Seq::<(Seq<char>, JsonV)>::empty())) == Option::Some(
            spec_default_config(),
        ),
{
    let empty = Seq::<(Seq<char>, JsonV)>::empty();
    assert(spec_config_json(spec_default_config())->Obj_0 =~= empty);
    assert(spec_render(JsonV::Obj(empty)) =~= seq!['{', '}']);
    let s = seq!['{', '}'];
    assert(s.len() == 2);
    assert(sp_skip_ws(s, 0) == 0);
    assert(sp_skip_ws(s, 1) == 1);
    assert(sp_skip_ws(s, 2) == 2);
    assert(sp_object(s, 1, (spec_fuel(s) - 1) as nat) == Option::Some(
        (JsonV::Obj(empty), 2int),
    ));
    assert(sp_value(s, 0, spec_fuel(s)) == Option::Some((JsonV::Obj(empty), 2int)));
    assert(spec_parse_json(s) == Option::Some(JsonV::Obj(empty)));
    assert(sp_obj_get(empty, "responseMimeType"@) is None);
    assert(sp_obj_get(empty, "maxOutputTokens"@) is None);
    assert(sp_obj_get(empty, "temperature"@) is None);
    assert(sp_obj_get(empty, "topP"@) is None);
    assert(sp_obj_get(empty, "topK"@) is None);
}

/// After two successful sends on an accumulating session that started
/// empty, the history holds exactly four turns in order: the first user
/// turn, the first reply, the second user turn, the second reply.
pub proof fn lemma_two_successful_sends(
    m1: ContentV,
    t1: Seq<char>,
    m2: ContentV,
    t2: Seq<char>,
)
    requires
        m1.role == Option::Some(Role::User),
        m2.role == Option::Some(Role::User),
    ensures
        ({
            let h = spec_after_ok_send(spec_after_ok_send(Seq::empty(), m1, t1), m2, t2);
            &&& h.len() == 4
            &&& h[0] == m1
            &&& h[1] == spec_model_text(t1)
            &&& h[2] == m2
            &&& h[3] == spec_model_text(t2)
            &&& h[0].role == Option::Some(Role::User)
            &&& h[1].role == Option::Some(Role::Model)
            &&& h[2].role == Option::Some(Role::User)
            &&& h[3].role == Option::Some(Role::Model)
        }),
{
}

/// A send whose reply is a non-success status always fails, and where the
/// body parses as the remote error envelope the failure carries the
/// remote message itself. The send contract's Err case then keeps the
/// history at its previous length: after one successful exchange, two
/// turns.
pub proof fn lemma_failed_second_send(m1: ContentV, t1: Seq<char>, body: Seq<char>)
    ensures
        spec_after_ok_send(Seq::empty(), m1, t1).len() == 2,
        spec_decode_reply(false, body) is Err,
        ({
            match spec_parse_json(body) {
                Option::Some(v) => match sp_error_envelope(v) {
                    Option::Some(env) => spec_decode_reply(false, body) == Result::<
                        (Seq<char>, GenerateContentResponseV),
                        GeminiErrorV,
                    >::Err(GeminiErrorV::Remote(env.error)) && spec_error_message(
                        GeminiErrorV::Remote(env.error),
                    ) == env.error.message,
                    Option::None => true,
                },
                Option::None => true,
            }
        }),
{
}

/// A reply whose candidate list is empty fails the send with the local
/// format error: there is no candidate to take text from.
pub proof fn lemma_empty_candidates_is_format_error(body: Seq<char>)
    requires
        ({
            match spec_parse_json(body) {
                Option::Some(v) => match sp_response(v) {
                    Option::Some(r) => r.candidates.len() == 0,
                    Option::None => false,
                },
                Option::None => false,
            }
        }),
    ensures
        spec_decode_reply(true, body) == Result::<
            (Seq<char>, GenerateContentResponseV),
            GeminiErrorV,
        >::Err(GeminiErrorV::UnexpectedFormat),
{
}

} // verus!
