//! A verified JSON reader for registry manifests.
//!
//! Manifests, manifest lists and token responses are JSON documents; the
//! engine reads them with its own parser so that every decision taken on a
//! document is verified against the grammar below. The grammar is standard
//! JSON: string content is printable ASCII, escape sequences, or strict
//! UTF-8 (overlong forms and surrogates rejected); control bytes must be
//! escaped. Numeric values are validated but not retained; the registry
//! logic never reads them. Within an object a later binding of a
//! duplicated key overrides an earlier one.

use vstd::prelude::*;
use crate::strutil::{push_char, str_eq};

verus! {

broadcast use vstd::std_specs::vec::axiom_vec_index_decreases, vstd::std_specs::vec::axiom_vec_decreases_to_view, vstd::seq::axiom_seq_index_decreases;

/// The mathematical shape of a JSON document.
pub enum Json {
    Null,
    Bool(bool),
    Num,
    Str(Seq<char>),
    Arr(Seq<Json>),
    Obj(Seq<(Seq<char>, Json)>),
}

/// A parsed JSON document.
#[derive(Debug)]
pub enum JsonValue {
    Null,
    Bool(bool),
    Num,
    Str(String),
    Arr(Vec<JsonValue>),
    Obj(Vec<(String, JsonValue)>),
}

/// The mathematical shape of a parsed document.
pub open spec fn view_json(v: JsonValue) -> Json
    decreases v,
{
    match v {
        JsonValue::Null => Json::Null,
        JsonValue::Bool(b) => Json::Bool(b),
        JsonValue::Num => Json::Num,
        JsonValue::Str(s) => Json::Str(s@),
        JsonValue::Arr(items) => Json::Arr(view_arr(items@)),
        JsonValue::Obj(fields) => Json::Obj(view_obj(fields@)),
    }
}

/// The shapes of the elements of a parsed array.
pub open spec fn view_arr(items: Seq<JsonValue>) -> Seq<Json>
    decreases items,
{
    if items.len() == 0 {
        Seq::<Json>::empty()
    } else {
        seq![view_json(items.first())] + view_arr(items.drop_first())
    }
}

/// The shapes of the members of a parsed object.
pub open spec fn view_obj(fields: Seq<(String, JsonValue)>) -> Seq<(Seq<char>, Json)>
    decreases fields,
{
    if fields.len() == 0 {
        Seq::<(Seq<char>, Json)>::empty()
    } else {
        seq![(fields.first().0@, view_json(fields.first().1))] + view_obj(fields.drop_first())
    }
}

pub proof fn lemma_view_arr_index(items: Seq<JsonValue>)
    ensures
        view_arr(items).len() == items.len(),
        forall|i: int| 0 <= i < items.len() ==> view_arr(items)[i] == view_json(items[i]),
    decreases items.len(),
{
    if items.len() > 0 {
        lemma_view_arr_index(items.drop_first());
        assert(forall|i: int|
            1 <= i < items.len() ==> view_arr(items)[i] == view_arr(items.drop_first())[i - 1]);
        assert(forall|i: int| 1 <= i < items.len() ==> items.drop_first()[i - 1] == items[i]);
    }
}

pub proof fn lemma_view_arr_push(items: Seq<JsonValue>, v: JsonValue)
    ensures
        view_arr(items.push(v)) == view_arr(items).push(view_json(v)),
    decreases items.len(),
{
    if items.len() == 0 {
        assert(items.push(v).drop_first() =~= Seq::<JsonValue>::empty());
        assert(view_arr(Seq::<JsonValue>::empty()) == Seq::<Json>::empty());
        assert(items.push(v).first() == v);
        assert(view_arr(items.push(v)) =~= view_arr(items).push(view_json(v)));
    } else {
        assert(items.push(v).drop_first() =~= items.drop_first().push(v));
        lemma_view_arr_push(items.drop_first(), v);
        assert(items.push(v).first() == items.first());
        assert(view_arr(items.push(v)) == seq![view_json(items.first())] + view_arr(
            items.drop_first(),
        ).push(view_json(v)));
        assert(seq![view_json(items.first())] + view_arr(items.drop_first()).push(view_json(v))
            =~= (seq![view_json(items.first())] + view_arr(items.drop_first())).push(
            view_json(v),
        ));
    }
}

pub proof fn lemma_view_obj_index(fields: Seq<(String, JsonValue)>)
    ensures
        view_obj(fields).len() == fields.len(),
        forall|i: int|
            0 <= i < fields.len() ==> view_obj(fields)[i] == (
            fields[i].0@,
            view_json(fields[i].1),
            ),
    decreases fields.len(),
{
    if fields.len() > 0 {
        lemma_view_obj_index(fields.drop_first());
        assert(forall|i: int|
            1 <= i < fields.len() ==> view_obj(fields)[i] == view_obj(fields.drop_first())[i
                - 1]);
        assert(forall|i: int| 1 <= i < fields.len() ==> fields.drop_first()[i - 1] == fields[i]);
    }
}

pub proof fn lemma_view_obj_push(fields: Seq<(String, JsonValue)>, key: String, v: JsonValue)
    ensures
        view_obj(fields.push((key, v))) == view_obj(fields).push((key@, view_json(v))),
    decreases fields.len(),
{
    if fields.len() == 0 {
        assert(fields.push((key, v)).drop_first() =~= Seq::<(String, JsonValue)>::empty());
        assert(view_obj(Seq::<(String, JsonValue)>::empty()) == Seq::<(Seq<char>, Json)>::empty());
        assert(fields.push((key, v)).first() == (key, v));
        assert(view_obj(fields.push((key, v))) =~= view_obj(fields).push((key@, view_json(v))));
    } else {
        assert(fields.push((key, v)).drop_first() =~= fields.drop_first().push((key, v)));
        lemma_view_obj_push(fields.drop_first(), key, v);
        assert(fields.push((key, v)).first() == fields.first());
        assert(view_obj(fields.push((key, v))) == seq![
            (fields.first().0@, view_json(fields.first().1)),
        ] + view_obj(fields.drop_first()).push((key@, view_json(v))));
        assert(seq![(fields.first().0@, view_json(fields.first().1))] + view_obj(
            fields.drop_first(),
        ).push((key@, view_json(v))) =~= (seq![(fields.first().0@, view_json(fields.first().1))]
            + view_obj(fields.drop_first())).push((key@, view_json(v))));
    }
}

/// JSON insignificant whitespace.
pub open spec fn is_ws_byte(b: u8) -> bool {
    b == 0x20 || b == 0x09 || b == 0x0a || b == 0x0d
}

/// An ASCII decimal digit.
pub open spec fn is_digit_byte(b: u8) -> bool {
    0x30 <= b <= 0x39
}

/// The first position at or after `i` holding no whitespace.
pub open spec fn spec_ws(s: Seq<u8>, i: int) -> int
    decreases s.len() - i,
{
    if 0 <= i < s.len() && is_ws_byte(s[i]) {
        spec_ws(s, i + 1)
    } else {
        i
    }
}

/// The first position at or after `i` holding no decimal digit.
pub open spec fn spec_skip_digits(s: Seq<u8>, i: int) -> int
    decreases s.len() - i,
{
    if 0 <= i < s.len() && is_digit_byte(s[i]) {
        spec_skip_digits(s, i + 1)
    } else {
        i
    }
}

pub proof fn lemma_skip_digits_bounds(s: Seq<u8>, i: int)
    requires
        0 <= i <= s.len(),
    ensures
        i <= spec_skip_digits(s, i) <= s.len(),
    decreases s.len() - i,
{
    if i < s.len() && is_digit_byte(s[i]) {
        lemma_skip_digits_bounds(s, i + 1);
    }
}

/// The character a single-byte escape stands for.
pub open spec fn spec_escape_char(b: u8) -> Option<char> {
    if b == 0x22 {
        Some('"')
    } else if b == 0x5c {
        Some('\\')
    } else if b == 0x2f {
        Some('/')
    } else if b == 0x62 {
        Some('\u{0008}')
    } else if b == 0x66 {
        Some('\u{000c}')
    } else if b == 0x6e {
        Some('\n')
    } else if b == 0x72 {
        Some('\r')
    } else if b == 0x74 {
        Some('\t')
    } else {
        None
    }
}

/// The value of an ASCII hex digit.
pub open spec fn spec_hex_val(b: u8) -> Option<u32> {
    if 0x30 <= b <= 0x39 {
        Some((b - 0x30) as u32)
    } else if 0x61 <= b <= 0x66 {
        Some((b - 0x61 + 10) as u32)
    } else if 0x41 <= b <= 0x46 {
        Some((b - 0x41 + 10) as u32)
    } else {
        None
    }
}

/// The value of the four hex digits at `i`.
pub open spec fn spec_hex4(s: Seq<u8>, i: int) -> Option<u32> {
    if 0 <= i && i + 4 <= s.len() {
        match (spec_hex_val(s[i]), spec_hex_val(s[i + 1]), spec_hex_val(s[i + 2]), spec_hex_val(
            s[i + 3],
        )) {
            (Some(a), Some(b), Some(c), Some(d)) => Some(
                (a * 0x1000 + b * 0x100 + c * 0x10 + d) as u32,
            ),
            _ => None,
        }
    } else {
        None
    }
}

/// A UTF-8 continuation byte.
pub open spec fn is_cont_byte(b: u8) -> bool {
    0x80 <= b <= 0xbf
}

/// The Unicode scalar encoded by the multi-byte UTF-8 sequence at `i`, and
/// the position after it. The lead-byte ranges exclude overlong forms,
/// surrogates and values beyond the last scalar, so every decoded value is
/// a Unicode scalar.
pub open spec fn spec_utf8_tail(s: Seq<u8>, i: int) -> Option<(u32, int)> {
    if !(0 <= i < s.len()) {
        None
    } else {
        let b0 = s[i];
        if 0xc2 <= b0 && b0 <= 0xdf {
            if i + 2 <= s.len() && is_cont_byte(s[i + 1]) {
                Some((((b0 - 0xc0) * 0x40 + (s[i + 1] - 0x80)) as u32, i + 2))
            } else {
                None
            }
        } else if 0xe0 <= b0 && b0 <= 0xef {
            let b1_ok = if b0 == 0xe0 {
                0xa0 <= s[i + 1] && s[i + 1] <= 0xbf
            } else if b0 == 0xed {
                0x80 <= s[i + 1] && s[i + 1] <= 0x9f
            } else {
                is_cont_byte(s[i + 1])
            };
            if i + 3 <= s.len() && b1_ok && is_cont_byte(s[i + 2]) {
                Some(
                    (
                        ((b0 - 0xe0) * 0x1000 + (s[i + 1] - 0x80) * 0x40 + (s[i + 2]
                            - 0x80)) as u32,
                        i + 3,
                    ),
                )
            } else {
                None
            }
        } else if 0xf0 <= b0 && b0 <= 0xf4 {
            let b1_ok = if b0 == 0xf0 {
                0x90 <= s[i + 1] && s[i + 1] <= 0xbf
            } else if b0 == 0xf4 {
                0x80 <= s[i + 1] && s[i + 1] <= 0x8f
            } else {
                is_cont_byte(s[i + 1])
            };
            if i + 4 <= s.len() && b1_ok && is_cont_byte(s[i + 2]) && is_cont_byte(s[i + 3]) {
                Some(
                    (
                        ((b0 - 0xf0) * 0x40000 + (s[i + 1] - 0x80) * 0x1000 + (s[i + 2] - 0x80)
                            * 0x40 + (s[i + 3] - 0x80)) as u32,
                        i + 4,
                    ),
                )
            } else {
                None
            }
        } else {
            None
        }
    }
}

/// The decoded content of a string whose opening quote stands before `i`,
/// together with the position after the closing quote.
pub open spec fn spec_string_chars(s: Seq<u8>, i: int) -> Option<(Seq<char>, int)>
    decreases s.len() - i,
{
    if !(0 <= i < s.len()) {
        None
    } else if s[i] == 0x22 {
        Some((Seq::<char>::empty(), i + 1))
    } else if s[i] == 0x5c {
        if i + 2 <= s.len() {
            let e = s[i + 1];
            if e == 0x75 {
                match spec_hex4(s, i + 2) {
                    Some(u) => if u < 0xd800 || u >= 0xe000 {
                        match spec_string_chars(s, i + 6) {
                            Some((rest, j)) => Some((seq![u as char] + rest, j)),
                            None => None,
                        }
                    } else {
                        None
                    },
                    None => None,
                }
            } else {
                match spec_escape_char(e) {
                    Some(c) => match spec_string_chars(s, i + 2) {
                        Some((rest, j)) => Some((seq![c] + rest, j)),
                        None => None,
                    },
                    None => None,
                }
            }
        } else {
            None
        }
    } else if 0x20 <= s[i] && s[i] <= 0x7e {
        match spec_string_chars(s, i + 1) {
            Some((rest, j)) => Some((seq![s[i] as char] + rest, j)),
            None => None,
        }
    } else if s[i] >= 0x80 {
        match spec_utf8_tail(s, i) {
            Some((u, j)) => if i < j <= s.len() {
                match spec_string_chars(s, j) {
                    Some((rest, k)) => Some((seq![u as char] + rest, k)),
                    None => None,
                }
            } else {
                None
            },
            None => None,
        }
    } else {
        None
    }
}

/// The position after the number beginning at `i`, when the bytes there
/// form a JSON number.
pub open spec fn spec_number_end(s: Seq<u8>, i: int) -> Option<int> {
    let j0 = if 0 <= i < s.len() && s[i] == 0x2d {
        i + 1
    } else {
        i
    };
    if !(0 <= j0 < s.len() && is_digit_byte(s[j0])) {
        None
    } else {
        let j1 = if s[j0] == 0x30 {
            j0 + 1
        } else {
            spec_skip_digits(s, j0)
        };
        let j2 = if j1 < s.len() && s[j1] == 0x2e {
            if j1 + 1 < s.len() && is_digit_byte(s[j1 + 1]) {
                spec_skip_digits(s, j1 + 1)
            } else {
                -1
            }
        } else {
            j1
        };
        if j2 < 0 {
            None
        } else {
            let j3 = if j2 < s.len() && (s[j2] == 0x65 || s[j2] == 0x45) {
                let k = if j2 + 1 < s.len() && (s[j2 + 1] == 0x2b || s[j2 + 1] == 0x2d) {
                    j2 + 2
                } else {
                    j2 + 1
                };
                if k < s.len() && is_digit_byte(s[k]) {
                    spec_skip_digits(s, k)
                } else {
                    -1
                }
            } else {
                j2
            };
            if j3 < 0 {
                None
            } else {
                Some(j3)
            }
        }
    }
}

/// The value beginning at `i` (no leading whitespace), and the position
/// after it.
pub open spec fn spec_parse_value(s: Seq<u8>, i: int) -> Option<(Json, int)>
    decreases s.len() - i, 1int,
{
    if !(0 <= i < s.len()) {
        None
    } else {
        let b = s[i];
        if b == 0x7b {
            let k = spec_ws(s, i + 1);
            if !(i + 1 <= k <= s.len()) {
                None
            } else if k < s.len() && s[k] == 0x7d {
                Some((Json::Obj(Seq::<(Seq<char>, Json)>::empty()), k + 1))
            } else {
                match spec_parse_members(s, i + 1) {
                    Some((fs, j)) => Some((Json::Obj(fs), j)),
                    None => None,
                }
            }
        } else if b == 0x5b {
            let k = spec_ws(s, i + 1);
            if !(i + 1 <= k <= s.len()) {
                None
            } else if k < s.len() && s[k] == 0x5d {
                Some((Json::Arr(Seq::<Json>::empty()), k + 1))
            } else {
                match spec_parse_elems(s, i + 1) {
                    Some((es, j)) => Some((Json::Arr(es), j)),
                    None => None,
                }
            }
        } else if b == 0x22 {
            match spec_string_chars(s, i + 1) {
                Some((cs, j)) => Some((Json::Str(cs), j)),
                None => None,
            }
        } else if b == 0x74 {
            if i + 4 <= s.len() && s[i + 1] == 0x72 && s[i + 2] == 0x75 && s[i + 3] == 0x65 {
                Some((Json::Bool(true), i + 4))
            } else {
                None
            }
        } else if b == 0x66 {
            if i + 5 <= s.len() && s[i + 1] == 0x61 && s[i + 2] == 0x6c && s[i + 3] == 0x73 && s[i
                + 4] == 0x65 {
                Some((Json::Bool(false), i + 5))
            } else {
                None
            }
        } else if b == 0x6e {
            if i + 4 <= s.len() && s[i + 1] == 0x75 && s[i + 2] == 0x6c && s[i + 3] == 0x6c {
                Some((Json::Null, i + 4))
            } else {
                None
            }
        } else if b == 0x2d || is_digit_byte(b) {
            match spec_number_end(s, i) {
                Some(j) => Some((Json::Num, j)),
                None => None,
            }
        } else {
            None
        }
    }
}

/// The array elements beginning at `i` (whitespace allowed), and the
/// position after the closing bracket.
pub open spec fn spec_parse_elems(s: Seq<u8>, i: int) -> Option<(Seq<Json>, int)>
    decreases s.len() - i, 2int,
{
    if !(0 <= i <= s.len()) {
        None
    } else {
        let i0 = spec_ws(s, i);
        if !(i <= i0 <= s.len()) {
            None
        } else {
            match spec_parse_value(s, i0) {
                None => None,
                Some((v, j)) => {
                    if !(i0 < j <= s.len()) {
                        None
                    } else {
                        let k = spec_ws(s, j);
                        if !(j <= k <= s.len()) {
                            None
                        } else if k < s.len() && s[k] == 0x2c {
                            match spec_parse_elems(s, k + 1) {
                                Some((rest, m)) => Some((seq![v] + rest, m)),
                                None => None,
                            }
                        } else if k < s.len() && s[k] == 0x5d {
                            Some((seq![v], k + 1))
                        } else {
                            None
                        }
                    }
                },
            }
        }
    }
}

/// The object members beginning at `i` (whitespace allowed), and the
/// position after the closing brace.
pub open spec fn spec_parse_members(s: Seq<u8>, i: int) -> Option<(Seq<(Seq<char>, Json)>, int)>
    decreases s.len() - i, 2int,
{
    if !(0 <= i <= s.len()) {
        None
    } else {
        let i0 = spec_ws(s, i);
        if !(i <= i0 <= s.len()) {
            None
        } else if !(i0 < s.len() && s[i0] == 0x22) {
            None
        } else {
            match spec_string_chars(s, i0 + 1) {
                None => None,
                Some((key, j)) => {
                    if !(i0 + 1 < j <= s.len()) {
                        None
                    } else {
                        let k = spec_ws(s, j);
                        if !(j <= k <= s.len() && k < s.len() && s[k] == 0x3a) {
                            None
                        } else {
                            let m = spec_ws(s, k + 1);
                            if !(k + 1 <= m <= s.len()) {
                                None
                            } else {
                                match spec_parse_value(s, m) {
                                    None => None,
                                    Some((v, n)) => {
                                        if !(m < n <= s.len()) {
                                            None
                                        } else {
                                            let q = spec_ws(s, n);
                                            if !(n <= q <= s.len()) {
                                                None
                                            } else if q < s.len() && s[q] == 0x2c {
                                                match spec_parse_members(s, q + 1) {
                                                    Some((rest, r)) => Some(
                                                        (seq![(key, v)] + rest, r),
                                                    ),
                                                    None => None,
                                                }
                                            } else if q < s.len() && s[q] == 0x7d {
                                                Some((seq![(key, v)], q + 1))
                                            } else {
                                                None
                                            }
                                        }
                                    },
                                }
                            }
                        }
                    }
                },
            }
        }
    }
}

/// The document a byte sequence parses to: one value surrounded by
/// whitespace, spanning the whole input.
pub open spec fn spec_parse_json(s: Seq<u8>) -> Option<Json> {
    let i = spec_ws(s, 0);
    if !(0 <= i <= s.len()) {
        None
    } else {
        match spec_parse_value(s, i) {
            Some((v, j)) => {
                if !(i < j <= s.len()) {
                    None
                } else if spec_ws(s, j) == s.len() {
                    Some(v)
                } else {
                    None
                }
            },
            None => None,
        }
    }
}

/// The value of the last binding of `key` in an object's members: a later
/// duplicate overrides an earlier one.
pub open spec fn spec_obj_get(fields: Seq<(Seq<char>, Json)>, key: Seq<char>) -> Option<Json>
    decreases fields.len(),
{
    if fields.len() == 0 {
        None
    } else if fields.last().0 == key {
        Some(fields.last().1)
    } else {
        spec_obj_get(fields.drop_last(), key)
    }
}

/// The value bound to `key` when `j` is an object binding it; `None` for
/// every other shape.
pub open spec fn spec_get(j: Json, key: Seq<char>) -> Option<Json> {
    match j {
        Json::Obj(fs) => spec_obj_get(fs, key),
        _ => None,
    }
}

impl JsonValue {
    /// Looks `key` up in this value, returning the last binding when the
    /// value is an object that binds it.
    pub fn get<'a>(&'a self, key: &str) -> (r: Option<&'a JsonValue>)
        ensures
            match r {
                Some(x) => spec_get(view_json(*self), key@) == Some(view_json(*x)),
                None => spec_get(view_json(*self), key@) is None,
            },
    {
        match self {
            JsonValue::Obj(fields) => {
                let ghost model = view_obj(fields@);
                proof {
                    lemma_view_obj_index(fields@);
                    assert(model.take(fields@.len() as int) =~= model);
                    assert(view_json(*self) == Json::Obj(model));
                }
                let len: usize = fields.len();
                let mut i: usize = len;
                while i > 0
                    invariant
                        len == fields@.len(),
                        i <= len,
                        model == view_obj(fields@),
                        view_json(*self) == Json::Obj(model),
                        model.len() == len,
                        forall|k: int|
                            0 <= k < len ==> model[k] == (
                            fields@[k].0@,
                            view_json(fields@[k].1),
                            ),
                        spec_obj_get(model, key@) == spec_obj_get(model.take(i as int), key@),
                    decreases i,
                {
                    proof {
                        assert(model.take(i as int).last() == model[i - 1]);
                        assert(model.take(i as int).drop_last() =~= model.take(i - 1));
                    }
                    if str_eq(fields[i - 1].0.as_str(), key) {
                        proof {
                            assert(model.take(i as int).last().0 == key@);
                            assert(spec_obj_get(model.take(i as int), key@) == Some(
                                model[i - 1].1,
                            ));
                            assert(spec_get(view_json(*self), key@) == Some(
                                view_json(fields@[i - 1].1),
                            ));
                        }
                        return Some(&fields[i - 1].1);
                    }
                    i -= 1;
                }
                proof {
                    assert(model.take(0) =~= Seq::<(Seq<char>, Json)>::empty());
                }
                None
            },
            _ => None,
        }
    }

    /// The string content, when this value is a string.
    pub fn as_str<'a>(&'a self) -> (r: Option<&'a String>)
        ensures
            match r {
                Some(s) => view_json(*self) == Json::Str(s@),
                None => !(view_json(*self) is Str),
            },
    {
        match self {
            JsonValue::Str(s) => Some(s),
            _ => None,
        }
    }

    /// The elements, when this value is an array.
    pub fn as_array<'a>(&'a self) -> (r: Option<&'a Vec<JsonValue>>)
        ensures
            match r {
                Some(items) => view_json(*self) == Json::Arr(view_arr(items@)),
                None => !(view_json(*self) is Arr),
            },
    {
        match self {
            JsonValue::Arr(items) => Some(items),
            _ => None,
        }
    }
}

/// Relies on char::from_u32: defined exactly for Unicode scalar values,
/// returning the character with that value.
#[verifier::external_body]
fn char_from_u32(u: u32) -> (r: Option<char>)
    ensures
        r matches Some(c) ==> c as u32 == u,
        (u < 0xd800 || (0xe000 <= u && u <= 0x10ffff)) ==> r is Some,
{
    char::from_u32(u)
}

fn skip_ws(s: &[u8], i: usize) -> (r: usize)
    requires
        i <= s@.len(),
    ensures
        r as int == spec_ws(s@, i as int),
        i <= r <= s@.len(),
{
    let len: usize = s.len();
    let mut cur: usize = i;
    while cur < len && (s[cur] == 0x20 || s[cur] == 0x09 || s[cur] == 0x0a || s[cur] == 0x0d)
        invariant
            i <= cur <= len,
            len == s@.len(),
            spec_ws(s@, i as int) == spec_ws(s@, cur as int),
        decreases len - cur,
    {
        cur += 1;
    }
    cur
}

fn skip_digits(s: &[u8], i: usize) -> (r: usize)
    requires
        i <= s@.len(),
    ensures
        r as int == spec_skip_digits(s@, i as int),
        i <= r <= s@.len(),
{
    let len: usize = s.len();
    let mut cur: usize = i;
    while cur < len && 0x30 <= s[cur] && s[cur] <= 0x39
        invariant
            i <= cur <= len,
            len == s@.len(),
            spec_skip_digits(s@, i as int) == spec_skip_digits(s@, cur as int),
        decreases len - cur,
    {
        cur += 1;
    }
    cur
}

fn hex_val(b: u8) -> (r: Option<u32>)
    ensures
        r == spec_hex_val(b),
{
    if 0x30 <= b && b <= 0x39 {
        Some((b - 0x30) as u32)
    } else if 0x61 <= b && b <= 0x66 {
        Some((b - 0x61 + 10) as u32)
    } else if 0x41 <= b && b <= 0x46 {
        Some((b - 0x41 + 10) as u32)
    } else {
        None
    }
}

fn hex4(s: &[u8], i: usize) -> (r: Option<u32>)
    requires
        i <= s@.len(),
    ensures
        r == spec_hex4(s@, i as int),
        r matches Some(u) ==> u < 0x10000,
{
    let len: usize = s.len();
    if len - i < 4 {
        return None;
    }
    let a = hex_val(s[i]);
    let b = hex_val(s[i + 1]);
    let c = hex_val(s[i + 2]);
    let d = hex_val(s[i + 3]);
    match (a, b, c, d) {
        (Some(a), Some(b), Some(c), Some(d)) => Some(a * 0x1000 + b * 0x100 + c * 0x10 + d),
        _ => None,
    }
}

fn escape_char(b: u8) -> (r: Option<char>)
    ensures
        r == spec_escape_char(b),
{
    if b == 0x22 {
        Some('"')
    } else if b == 0x5c {
        Some('\\')
    } else if b == 0x2f {
        Some('/')
    } else if b == 0x62 {
        Some('\u{0008}')
    } else if b == 0x66 {
        Some('\u{000c}')
    } else if b == 0x6e {
        Some('\n')
    } else if b == 0x72 {
        Some('\r')
    } else if b == 0x74 {
        Some('\t')
    } else {
        None
    }
}

fn utf8_tail(s: &[u8], i: usize) -> (r: Option<(u32, usize)>)
    requires
        i <= s@.len(),
    ensures
        ({
            let sp = spec_utf8_tail(s@, i as int);
            match r {
                Some(p) => sp == Some((p.0, p.1 as int)) && i < p.1 <= s@.len() && (p.0 < 0xd800
                    || (0xe000 <= p.0 && p.0 <= 0x10ffff)),
                None => sp is None,
            }
        }),
{
    let len: usize = s.len();
    if i >= len {
        return None;
    }
    let b0 = s[i];
    if 0xc2 <= b0 && b0 <= 0xdf {
        if len - i >= 2 && 0x80 <= s[i + 1] && s[i + 1] <= 0xbf {
            let u: u32 = (b0 as u32 - 0xc0) * 0x40 + (s[i + 1] as u32 - 0x80);
            Some((u, i + 2))
        } else {
            None
        }
    } else if 0xe0 <= b0 && b0 <= 0xef {
        if len - i < 2 {
            return None;
        }
        let b1 = s[i + 1];
        let b1_ok = if b0 == 0xe0 {
            0xa0 <= b1 && b1 <= 0xbf
        } else if b0 == 0xed {
            0x80 <= b1 && b1 <= 0x9f
        } else {
            0x80 <= b1 && b1 <= 0xbf
        };
        if len - i >= 3 && b1_ok && 0x80 <= s[i + 2] && s[i + 2] <= 0xbf {
            let u: u32 = (b0 as u32 - 0xe0) * 0x1000 + (b1 as u32 - 0x80) * 0x40 + (s[i
                + 2] as u32 - 0x80);
            Some((u, i + 3))
        } else {
            None
        }
    } else if 0xf0 <= b0 && b0 <= 0xf4 {
        if len - i < 2 {
            return None;
        }
        let b1 = s[i + 1];
        let b1_ok = if b0 == 0xf0 {
            0x90 <= b1 && b1 <= 0xbf
        } else if b0 == 0xf4 {
            0x80 <= b1 && b1 <= 0x8f
        } else {
            0x80 <= b1 && b1 <= 0xbf
        };
        if len - i >= 4 && b1_ok && 0x80 <= s[i + 2] && s[i + 2] <= 0xbf && 0x80 <= s[i + 3] && s[i
            + 3] <= 0xbf {
            let u: u32 = (b0 as u32 - 0xf0) * 0x40000 + (b1 as u32 - 0x80) * 0x1000 + (s[i
                + 2] as u32 - 0x80) * 0x40 + (s[i + 3] as u32 - 0x80);
            Some((u, i + 4))
        } else {
            None
        }
    } else {
        None
    }
}

fn string_chars_into(s: &[u8], i: usize, acc: &mut String) -> (r: Option<usize>)
    requires
        i <= s@.len(),
    ensures
        ({
            let sp = spec_string_chars(s@, i as int);
            match r {
                Some(j) => sp matches Some(p) && p.1 == j as int && final(acc)@ == old(acc)@ + p.0
                    && i < j <= s@.len(),
                None => sp is None,
            }
        }),
    decreases s@.len() - i,
{
    let len: usize = s.len();
    if i >= len {
        return None;
    }
    let b = s[i];
    if b == 0x22 {
        proof {
            assert(old(acc)@ + Seq::<char>::empty() =~= old(acc)@);
        }
        Some(i + 1)
    } else if b == 0x5c {
        if len - i < 2 {
            return None;
        }
        let e = s[i + 1];
        if e == 0x75 {
            match hex4(s, i + 2) {
                Some(u) => {
                    if u < 0xd800 || u >= 0xe000 {
                        let c = match char_from_u32(u) {
                            Some(c) => c,
                            None => {
                                proof {
                                    assert(false);
                                }
                                return None;
                            },
                        };
                        proof {
                            vstd::utf8::char_u32_cast(c, u);
                            assert(c == (u as char));
                        }
                        push_char(acc, c);
                        let ghost mid = acc@;
                        match string_chars_into(s, i + 6, acc) {
                            Some(j) => {
                                proof {
                                    let (rest, _) = spec_string_chars(s@, i + 6).unwrap();
                                    assert(final(acc)@ =~= old(acc)@ + (seq![u as char] + rest));
                                }
                                Some(j)
                            },
                            None => None,
                        }
                    } else {
                        None
                    }
                },
                None => None,
            }
        } else {
            match escape_char(e) {
                Some(c) => {
                    push_char(acc, c);
                    match string_chars_into(s, i + 2, acc) {
                        Some(j) => {
                            proof {
                                let (rest, _) = spec_string_chars(s@, i + 2).unwrap();
                                assert(final(acc)@ =~= old(acc)@ + (seq![c] + rest));
                            }
                            Some(j)
                        },
                        None => None,
                    }
                },
                None => None,
            }
        }
    } else if 0x20 <= b && b <= 0x7e {
        push_char(acc, b as char);
        match string_chars_into(s, i + 1, acc) {
            Some(j) => {
                proof {
                    let (rest, _) = spec_string_chars(s@, i + 1).unwrap();
                    assert(final(acc)@ =~= old(acc)@ + (seq![b as char] + rest));
                }
                Some(j)
            },
            None => None,
        }
    } else if b >= 0x80 {
        match utf8_tail(s, i) {
            Some((u, j)) => {
                let c = match char_from_u32(u) {
                    Some(c) => c,
                    None => {
                        proof {
                            assert(false);
                        }
                        return None;
                    },
                };
                proof {
                    vstd::utf8::char_u32_cast(c, u);
                    assert(c == (u as char));
                }
                push_char(acc, c);
                match string_chars_into(s, j, acc) {
                    Some(k) => {
                        proof {
                            let (rest, _) = spec_string_chars(s@, j as int).unwrap();
                            assert(final(acc)@ =~= old(acc)@ + (seq![u as char] + rest));
                        }
                        Some(k)
                    },
                    None => None,
                }
            },
            None => None,
        }
    } else {
        None
    }
}

fn number_end(s: &[u8], i: usize) -> (r: Option<usize>)
    requires
        i <= s@.len(),
    ensures
        ({
            let sp = spec_number_end(s@, i as int);
            match r {
                Some(j) => sp == Some(j as int) && i < j <= s@.len(),
                None => sp is None,
            }
        }),
{
    let len: usize = s.len();
    let j0: usize = if i < len && s[i] == 0x2d {
        i + 1
    } else {
        i
    };
    if !(j0 < len && 0x30 <= s[j0] && s[j0] <= 0x39) {
        return None;
    }
    let j1: usize = if s[j0] == 0x30 {
        j0 + 1
    } else {
        skip_digits(s, j0)
    };
    proof {
        if s@[j0 as int] != 0x30 {
            assert(spec_skip_digits(s@, j0 as int) == spec_skip_digits(s@, j0 + 1));
            lemma_skip_digits_bounds(s@, j0 + 1);
        }
        assert(j1 >= j0 + 1);
    }
    let j2: usize = if j1 < len && s[j1] == 0x2e {
        if j1 + 1 < len && 0x30 <= s[j1 + 1] && s[j1 + 1] <= 0x39 {
            skip_digits(s, j1 + 1)
        } else {
            return None;
        }
    } else {
        j1
    };
    let j3: usize = if j2 < len && (s[j2] == 0x65 || s[j2] == 0x45) {
        let k: usize = if j2 + 1 < len && (s[j2 + 1] == 0x2b || s[j2 + 1] == 0x2d) {
            j2 + 2
        } else {
            j2 + 1
        };
        if k < len && 0x30 <= s[k] && s[k] <= 0x39 {
            skip_digits(s, k)
        } else {
            return None;
        }
    } else {
        j2
    };
    Some(j3)
}

fn parse_value(s: &[u8], i: usize) -> (r: Option<(JsonValue, usize)>)
    requires
        i <= s@.len(),
    ensures
        ({
            let sp = spec_parse_value(s@, i as int);
            match r {
                Some(p) => sp == Some((view_json(p.0), p.1 as int)) && i < p.1 <= s@.len(),
                None => sp is None,
            }
        }),
    decreases s@.len() - i, 1int,
{
    let len: usize = s.len();
    if i >= len {
        return None;
    }
    let b = s[i];
    if b == 0x7b {
        let k = skip_ws(s, i + 1);
        if k < len && s[k] == 0x7d {
            Some((JsonValue::Obj(Vec::new()), k + 1))
        } else {
            let mut fields: Vec<(String, JsonValue)> = Vec::new();
            match parse_members_into(s, i + 1, &mut fields) {
                Some(j) => {
                    proof {
                        let (fs, _) = spec_parse_members(s@, i + 1).unwrap();
                        assert(view_obj(fields@) =~= fs);
                    }
                    Some((JsonValue::Obj(fields), j))
                },
                None => None,
            }
        }
    } else if b == 0x5b {
        let k = skip_ws(s, i + 1);
        if k < len && s[k] == 0x5d {
            Some((JsonValue::Arr(Vec::new()), k + 1))
        } else {
            let mut items: Vec<JsonValue> = Vec::new();
            match parse_elems_into(s, i + 1, &mut items) {
                Some(j) => {
                    proof {
                        let (es, _) = spec_parse_elems(s@, i + 1).unwrap();
                        assert(view_arr(items@) =~= es);
                    }
                    Some((JsonValue::Arr(items), j))
                },
                None => None,
            }
        }
    } else if b == 0x22 {
        let mut content = String::new();
        match string_chars_into(s, i + 1, &mut content) {
            Some(j) => {
                proof {
                    let (cs, _) = spec_string_chars(s@, i + 1).unwrap();
                    assert(content@ =~= cs);
                }
                Some((JsonValue::Str(content), j))
            },
            None => None,
        }
    } else if b == 0x74 {
        if len - i >= 4 && s[i + 1] == 0x72 && s[i + 2] == 0x75 && s[i + 3] == 0x65 {
            Some((JsonValue::Bool(true), i + 4))
        } else {
            None
        }
    } else if b == 0x66 {
        if len - i >= 5 && s[i + 1] == 0x61 && s[i + 2] == 0x6c && s[i + 3] == 0x73 && s[i + 4]
            == 0x65 {
            Some((JsonValue::Bool(false), i + 5))
        } else {
            None
        }
    } else if b == 0x6e {
        if len - i >= 4 && s[i + 1] == 0x75 && s[i + 2] == 0x6c && s[i + 3] == 0x6c {
            Some((JsonValue::Null, i + 4))
        } else {
            None
        }
    } else if b == 0x2d || (0x30 <= b && b <= 0x39) {
        match number_end(s, i) {
            Some(j) => Some((JsonValue::Num, j)),
            None => None,
        }
    } else {
        None
    }
}

fn parse_elems_into(s: &[u8], i: usize, out: &mut Vec<JsonValue>) -> (r: Option<usize>)
    requires
        i <= s@.len(),
    ensures
        ({
            let sp = spec_parse_elems(s@, i as int);
            match r {
                Some(j) => sp matches Some(p) && p.1 == j as int && view_arr(final(out)@)
                    == view_arr(old(out)@) + p.0 && i < j <= s@.len(),
                None => sp is None,
            }
        }),
    decreases s@.len() - i, 2int,
{
    let i0 = skip_ws(s, i);
    match parse_value(s, i0) {
        None => None,
        Some((v, j)) => {
            let ghost vj = view_json(v);
            out.push(v);
            proof {
                lemma_view_arr_push(old(out)@, v);
            }
            let k = skip_ws(s, j);
            let len: usize = s.len();
            if k < len && s[k] == 0x2c {
                match parse_elems_into(s, k + 1, out) {
                    Some(m) => {
                        proof {
                            let (rest, _) = spec_parse_elems(s@, k + 1).unwrap();
                            assert(view_arr(final(out)@) =~= view_arr(old(out)@) + (seq![vj]
                                + rest));
                        }
                        Some(m)
                    },
                    None => None,
                }
            } else if k < len && s[k] == 0x5d {
                proof {
                    assert(view_arr(final(out)@) =~= view_arr(old(out)@) + seq![vj]);
                }
                Some(k + 1)
            } else {
                None
            }
        },
    }
}

fn parse_members_into(s: &[u8], i: usize, out: &mut Vec<(String, JsonValue)>) -> (r: Option<usize>)
    requires
        i <= s@.len(),
    ensures
        ({
            let sp = spec_parse_members(s@, i as int);
            match r {
                Some(j) => sp matches Some(p) && p.1 == j as int && view_obj(final(out)@)
                    == view_obj(old(out)@) + p.0 && i < j <= s@.len(),
                None => sp is None,
            }
        }),
    decreases s@.len() - i, 2int,
{
    let len: usize = s.len();
    let i0 = skip_ws(s, i);
    if !(i0 < len && s[i0] == 0x22) {
        return None;
    }
    let mut key = String::new();
    match string_chars_into(s, i0 + 1, &mut key) {
        None => None,
        Some(j) => {
            let k = skip_ws(s, j);
            if !(k < len && s[k] == 0x3a) {
                return None;
            }
            let m = skip_ws(s, k + 1);
            match parse_value(s, m) {
                None => None,
                Some((v, n)) => {
                    let ghost keyv = key@;
                    let ghost vj = view_json(v);
                    out.push((key, v));
                    proof {
                        lemma_view_obj_push(old(out)@, key, v);
                    }
                    let q = skip_ws(s, n);
                    if q < len && s[q] == 0x2c {
                        match parse_members_into(s, q + 1, out) {
                            Some(rr) => {
                                proof {
                                    let (rest, _) = spec_parse_members(s@, q + 1).unwrap();
                                    assert(view_obj(final(out)@) =~= view_obj(old(out)@) + (seq![
                                        (keyv, vj),
                                    ] + rest));
                                }
                                Some(rr)
                            },
                            None => None,
                        }
                    } else if q < len && s[q] == 0x7d {
                        proof {
                            assert(view_obj(final(out)@) =~= view_obj(old(out)@) + seq![
                                (keyv, vj),
                            ]);
                        }
                        Some(q + 1)
                    } else {
                        None
                    }
                },
            }
        },
    }
}

/// Parses a complete JSON document from `s`; the result's shape is exactly
/// what the grammar assigns to the bytes, and parsing fails exactly where
/// the grammar assigns none.
pub fn parse_json(s: &[u8]) -> (r: Option<JsonValue>)
    ensures
        ({
            let sp = spec_parse_json(s@);
            match r {
                Some(v) => sp == Some(view_json(v)),
                None => sp is None,
            }
        }),
{
    let i = skip_ws(s, 0);
    match parse_value(s, i) {
        Some((v, j)) => {
            let k = skip_ws(s, j);
            if k == s.len() {
                Some(v)
            } else {
                None
            }
        },
        None => None,
    }
}

} // verus!
