//! The remote API's error envelope, parsed from non-success responses.

use vstd::prelude::*;

use crate::json::{lemma_view_elems, obj_get, sp_obj_get, view_elems, JsonV, JsonValue};

verus! {

/// Extra metadata inside an error detail.
#[derive(Clone, Debug)]
pub struct Metadata {
    pub service: String,
}

/// The model of a `Metadata`.
pub struct MetadataV {
    pub service: Seq<char>,
}

impl DeepView for Metadata {
    type V = MetadataV;

    open spec fn deep_view(&self) -> MetadataV {
        MetadataV { service: self.service@ }
    }
}

/// One structured detail of a remote error.
#[derive(Clone, Debug)]
pub struct Detail {
    pub type0: String,
    pub reason: Option<String>,
    pub domain: Option<String>,
    pub metadata: Option<Metadata>,
}

/// The model of a `Detail`.
pub struct DetailV {
    pub type0: Seq<char>,
    pub reason: Option<Seq<char>>,
    pub domain: Option<Seq<char>>,
    pub metadata: Option<MetadataV>,
}

impl DeepView for Detail {
    type V = DetailV;

    open spec fn deep_view(&self) -> DetailV {
        DetailV {
            type0: self.type0@,
            reason: self.reason.deep_view(),
            domain: self.domain.deep_view(),
            metadata: self.metadata.deep_view(),
        }
    }
}

/// The remote error: a code, a human-readable message, an optional status
/// token and optional structured details.
#[derive(Clone, Debug)]
pub struct Error {
    pub code: i16,
    pub message: String,
    pub status: Option<String>,
    pub details: Option<Vec<Detail>>,
}

/// The model of an `Error`.
pub struct ErrorV {
    pub code: i16,
    pub message: Seq<char>,
    pub status: Option<Seq<char>>,
    pub details: Option<Seq<DetailV>>,
}

impl DeepView for Error {
    type V = ErrorV;

    open spec fn deep_view(&self) -> ErrorV {
        ErrorV {
            code: self.code,
            message: self.message@,
            status: self.status.deep_view(),
            details: self.details.deep_view(),
        }
    }
}

/// The error envelope: the remote error under its `error` key.
#[derive(Clone, Debug)]
pub struct GenerateContentResponseError {
    pub error: Error,
}

/// The model of a `GenerateContentResponseError`.
pub struct GenerateContentResponseErrorV {
    pub error: ErrorV,
}

impl DeepView for GenerateContentResponseError {
    type V = GenerateContentResponseErrorV;

    open spec fn deep_view(&self) -> GenerateContentResponseErrorV {
        GenerateContentResponseErrorV { error: self.error.deep_view() }
    }
}

/// The metadata a JSON value decodes to.
pub open spec fn sp_metadata(v: JsonV) -> Option<MetadataV> {
    match v {
        JsonV::Obj(ms) => match sp_obj_get(ms, "service"@) {
            Option::Some(JsonV::Str(s)) => Option::Some(MetadataV { service: s }),
            _ => Option::None,
        },
        _ => Option::None,
    }
}

/// Decodes error-detail metadata.
pub fn metadata_from_json(v: &JsonValue) -> (r: Option<Metadata>)
    ensures
        ({
            let sp = sp_metadata(v@);
            match sp {
                Option::None => r is None,
                Option::Some(x) => r matches Some(rx) && rx.deep_view() == x,
            }
        }),
{
    match v {
        JsonValue::Obj(ms) => {
            match obj_get(ms, "service") {
                Some(JsonValue::Str(s)) => Some(Metadata { service: s.clone() }),
                _ => None,
            }
        },
        _ => None,
    }
}

/// The detail a JSON value decodes to; its wire name for `type0` is
/// `@type`.
pub open spec fn sp_detail(v: JsonV) -> Option<DetailV> {
    match v {
        JsonV::Obj(ms) => match sp_obj_get(ms, "@type"@) {
            Option::Some(JsonV::Str(t)) => {
                let re: Option<Option<Seq<char>>> = match sp_obj_get(ms, "reason"@) {
                    Option::None => Option::Some(Option::None),
                    Option::Some(JsonV::Str(s)) => Option::Some(Option::Some(s)),
                    Option::Some(_) => Option::None,
                };
                let dm: Option<Option<Seq<char>>> = match sp_obj_get(ms, "domain"@) {
                    Option::None => Option::Some(Option::None),
                    Option::Some(JsonV::Str(s)) => Option::Some(Option::Some(s)),
                    Option::Some(_) => Option::None,
                };
                let md: Option<Option<MetadataV>> = match sp_obj_get(ms, "metadata"@) {
                    Option::None => Option::Some(Option::None),
                    Option::Some(x) => match sp_metadata(x) {
                        Option::None => Option::None,
                        Option::Some(m) => Option::Some(Option::Some(m)),
                    },
                };
                match (re, dm, md) {
                    (Option::Some(re), Option::Some(dm), Option::Some(md)) => Option::Some(
                        DetailV { type0: t, reason: re, domain: dm, metadata: md },
                    ),
                    _ => Option::None,
                }
            },
            _ => Option::None,
        },
        _ => Option::None,
    }
}

/// Decodes one error detail.
pub fn detail_from_json(v: &JsonValue) -> (r: Option<Detail>)
    ensures
        ({
            let sp = sp_detail(v@);
            match sp {
                Option::None => r is None,
                Option::Some(x) => r matches Some(rx) && rx.deep_view() == x,
            }
        }),
{
    match v {
        JsonValue::Obj(ms) => {
            match obj_get(ms, "@type") {
                Some(JsonValue::Str(t)) => {
                    let re: Option<String> = match obj_get(ms, "reason") {
                        None => None,
                        Some(JsonValue::Str(s)) => Some(s.clone()),
                        Some(_) => {
                            return None;
                        },
                    };
                    let dm: Option<String> = match obj_get(ms, "domain") {
                        None => None,
                        Some(JsonValue::Str(s)) => Some(s.clone()),
                        Some(_) => {
                            return None;
                        },
                    };
                    let md: Option<Metadata> = match obj_get(ms, "metadata") {
                        None => None,
                        Some(x) => {
                            match metadata_from_json(x) {
                                None => {
                                    return None;
                                },
                                Some(m) => Some(m),
                            }
                        },
                    };
                    Some(Detail { type0: t.clone(), reason: re, domain: dm, metadata: md })
                },
                _ => None,
            }
        },
        _ => None,
    }
}

/// The details a JSON list decodes to.
pub open spec fn sp_details(vs: Seq<JsonV>) -> Option<Seq<DetailV>>
    decreases vs.len(),
{
    if vs.len() == 0 {
        Option::Some(Seq::empty())
    } else {
        match sp_detail(vs[0]) {
            Option::None => Option::None,
            Option::Some(x) => match sp_details(vs.drop_first()) {
                Option::None => Option::None,
                Option::Some(rest) => Option::Some(seq![x] + rest),
            },
        }
    }
}

/// Decodes a list of error details.
pub fn details_from_json(arr: &Vec<JsonValue>) -> (r: Option<Vec<Detail>>)
    ensures
        ({
            let sp = sp_details(view_elems(arr@));
            match sp {
                Option::None => r is None,
                Option::Some(xs) => r matches Some(rv) && rv.deep_view() == xs,
            }
        }),
{
    let n = arr.len();
    let mut acc: Vec<Detail> = Vec::new();
    let mut i: usize = 0;
    proof {
        lemma_view_elems(arr@);
        let full = view_elems(arr@);
        assert(full.skip(0) =~= full);
        assert(acc.deep_view() =~= Seq::<DetailV>::empty());
        match sp_details(full) {
            Option::None => {},
            Option::Some(rest) => {
                assert(acc.deep_view() + rest =~= rest);
            },
        }
    }
    while i < n
        invariant
            i <= n,
            n == arr@.len(),
            ({
                let full = view_elems(arr@);
                let sp = sp_details(full);
                match sp_details(full.skip(i as int)) {
                    Option::None => sp is None,
                    Option::Some(rest) => sp == Option::Some(acc.deep_view() + rest),
                }
            }),
        decreases n - i,
    {
        proof {
            lemma_view_elems(arr@);
            let full = view_elems(arr@);
            assert(full.skip(i as int)[0] == full[i as int]);
            assert(full.skip(i as int).drop_first() =~= full.skip(i + 1int));
        }
        match detail_from_json(&arr[i]) {
            None => {
                return None;
            },
            Some(x) => {
                let ghost dv = acc.deep_view();
                let ghost xv = x.deep_view();
                acc.push(x);
                proof {
                    assert(acc.deep_view() =~= dv.push(xv));
                    let full = view_elems(arr@);
                    match sp_details(full.skip(i + 1int)) {
                        Option::None => {},
                        Option::Some(rest) => {
                            assert(dv + (seq![xv] + rest) =~= dv.push(xv) + rest);
                        },
                    }
                }
                i = i + 1;
            },
        }
    }
    proof {
        let full = view_elems(arr@);
        assert(full.skip(n as int) =~= Seq::<JsonV>::empty());
        assert(acc.deep_view() + Seq::<DetailV>::empty() =~= acc.deep_view());
    }
    Some(acc)
}

/// The remote error a JSON value decodes to: the code and message are
/// required, the code within the signed 16-bit range.
pub open spec fn sp_error(v: JsonV) -> Option<ErrorV> {
    match v {
        JsonV::Obj(ms) => match (sp_obj_get(ms, "code"@), sp_obj_get(ms, "message"@)) {
            (Option::Some(JsonV::Int(code)), Option::Some(JsonV::Str(message))) => {
                if !(i16::MIN <= code <= i16::MAX) {
                    Option::None
                } else {
                    let st: Option<Option<Seq<char>>> = match sp_obj_get(ms, "status"@) {
                        Option::None => Option::Some(Option::None),
                        Option::Some(JsonV::Str(s)) => Option::Some(Option::Some(s)),
                        Option::Some(_) => Option::None,
                    };
                    let dt: Option<Option<Seq<DetailV>>> = match sp_obj_get(ms, "details"@) {
                        Option::None => Option::Some(Option::None),
                        Option::Some(JsonV::Arr(vs)) => match sp_details(vs) {
                            Option::None => Option::None,
                            Option::Some(xs) => Option::Some(Option::Some(xs)),
                        },
                        Option::Some(_) => Option::None,
                    };
                    match (st, dt) {
                        (Option::Some(st), Option::Some(dt)) => Option::Some(
                            ErrorV {
                                code: code as i16,
                                message,
                                status: st,
                                details: dt,
                            },
                        ),
                        _ => Option::None,
                    }
                }
            },
            _ => Option::None,
        },
        _ => Option::None,
    }
}

/// Decodes the remote error.
pub fn error_from_json(v: &JsonValue) -> (r: Option<Error>)
    ensures
        ({
            let sp = sp_error(v@);
            match sp {
                Option::None => r is None,
                Option::Some(x) => r matches Some(rx) && rx.deep_view() == x,
            }
        }),
{
    match v {
        JsonValue::Obj(ms) => {
            match (obj_get(ms, "code"), obj_get(ms, "message")) {
                (Some(JsonValue::Int(code)), Some(JsonValue::Str(message))) => {
                    if *code < i16::MIN as i64 || *code > i16::MAX as i64 {
                        return None;
                    }
                    let st: Option<String> = match obj_get(ms, "status") {
                        None => None,
                        Some(JsonValue::Str(s)) => Some(s.clone()),
                        Some(_) => {
                            return None;
                        },
                    };
                    let dt: Option<Vec<Detail>> = match obj_get(ms, "details") {
                        None => None,
                        Some(JsonValue::Arr(vs)) => {
                            match details_from_json(vs) {
                                None => {
                                    return None;
                                },
                                Some(xs) => Some(xs),
                            }
                        },
                        Some(_) => {
                            return None;
                        },
                    };
                    Some(
                        Error {
                            code: *code as i16,
                            message: message.clone(),
                            status: st,
                            details: dt,
                        },
                    )
                },
                _ => None,
            }
        },
        _ => None,
    }
}

/// The error envelope a JSON value decodes to.
pub open spec fn sp_error_envelope(v: JsonV) -> Option<GenerateContentResponseErrorV> {
    match v {
        JsonV::Obj(ms) => match sp_obj_get(ms, "error"@) {
            Option::Some(ev) => match sp_error(ev) {
                Option::None => Option::None,
                Option::Some(e) => Option::Some(GenerateContentResponseErrorV { error: e }),
            },
            Option::None => Option::None,
        },
        _ => Option::None,
    }
}

/// Decodes the error envelope.
pub fn error_envelope_from_json(v: &JsonValue) -> (r: Option<GenerateContentResponseError>)
    ensures
        ({
            let sp = sp_error_envelope(v@);
            match sp {
                Option::None => r is None,
                Option::Some(x) => r matches Some(rx) && rx.deep_view() == x,
            }
        }),
{
    match v {
        JsonValue::Obj(ms) => {
            match obj_get(ms, "error") {
                Some(ev) => {
                    match error_from_json(ev) {
                        None => None,
                        Some(e) => Some(GenerateContentResponseError { error: e }),
                    }
                },
                None => None,
            }
        },
        _ => None,
    }
}

} // verus!
