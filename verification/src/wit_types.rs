//! The type expressions of the WIT grammar (primitive, container, record,
//! variant, enum, tuple and named types), as a specification over character
//! positions and a parser that follows it.
use vstd::prelude::*;
use crate::text::chars_of;
use crate::wit::{
    cases_view, fields_view, type_view, types_view, RecordField, TypeM, VariantCase, WitType,
};
use crate::wit_lex::{
    lemma_ms0, lemma_ws_ident, lemma_ws_tag, ms0, ms0_exec, tag_at, tag_at_exec, ws_ident,
    ws_ident_exec, ws_tag, ws_tag_exec,
};

verus! {

/// A primitive type keyword at `p` (the first that matches, in this order).
pub open spec fn prim_at(s: Seq<char>, p: int) -> Option<(TypeM, int)> {
    if tag_at(s, p, "i8"@) is Some {
        Some((TypeM::I8, tag_at(s, p, "i8"@)->0))
    } else if tag_at(s, p, "i16"@) is Some {
        Some((TypeM::I16, tag_at(s, p, "i16"@)->0))
    } else if tag_at(s, p, "i32"@) is Some {
        Some((TypeM::I32, tag_at(s, p, "i32"@)->0))
    } else if tag_at(s, p, "i64"@) is Some {
        Some((TypeM::I64, tag_at(s, p, "i64"@)->0))
    } else if tag_at(s, p, "u8"@) is Some {
        Some((TypeM::U8, tag_at(s, p, "u8"@)->0))
    } else if tag_at(s, p, "u16"@) is Some {
        Some((TypeM::U16, tag_at(s, p, "u16"@)->0))
    } else if tag_at(s, p, "u32"@) is Some {
        Some((TypeM::U32, tag_at(s, p, "u32"@)->0))
    } else if tag_at(s, p, "u64"@) is Some {
        Some((TypeM::U64, tag_at(s, p, "u64"@)->0))
    } else if tag_at(s, p, "f32"@) is Some {
        Some((TypeM::F32, tag_at(s, p, "f32"@)->0))
    } else if tag_at(s, p, "f64"@) is Some {
        Some((TypeM::F64, tag_at(s, p, "f64"@)->0))
    } else if tag_at(s, p, "char"@) is Some {
        Some((TypeM::Char, tag_at(s, p, "char"@)->0))
    } else if tag_at(s, p, "bool"@) is Some {
        Some((TypeM::Bool, tag_at(s, p, "bool"@)->0))
    } else if tag_at(s, p, "string"@) is Some {
        Some((TypeM::Str, tag_at(s, p, "string"@)->0))
    } else if tag_at(s, p, "s32"@) is Some {
        Some((TypeM::I32, tag_at(s, p, "s32"@)->0))
    } else if tag_at(s, p, "s64"@) is Some {
        Some((TypeM::I64, tag_at(s, p, "s64"@)->0))
    } else {
        None
    }
}

/// A type at `p`: primitive, container, compound, or a named type.
pub open spec fn type_at(s: Seq<char>, p: int) -> Option<(TypeM, int)>
    decreases s.len() - p, 9nat,
{
    if p < 0 || p > s.len() {
        None
    } else if prim_at(s, p) is Some {
        prim_at(s, p)
    } else if container_at(s, p) is Some {
        container_at(s, p)
    } else if complex_at(s, p) is Some {
        complex_at(s, p)
    } else {
        match ws_ident(s, p) {
            Some((n, q)) => Some((TypeM::Named(n), q)),
            None => None,
        }
    }
}

/// A type with white space around it.
pub open spec fn ws_type_at(s: Seq<char>, p: int) -> Option<(TypeM, int)>
    decreases s.len() - p, 10nat,
{
    if p < 0 || p > s.len() {
        None
    } else {
        proof {
            lemma_ms0(s, p);
        }
        match type_at(s, ms0(s, p)) {
            Some((t, q)) => if p <= q <= s.len() {
                Some((t, ms0(s, q)))
            } else {
                None
            },
            None => None,
        }
    }
}

/// `list<T>`, `option<T>` or `result<T[, E]>` at `p`.
pub open spec fn container_at(s: Seq<char>, p: int) -> Option<(TypeM, int)>
    decreases s.len() - p, 8nat,
{
    if p < 0 || p > s.len() {
        None
    } else {
        proof {
            lemma_ws_tag(s, p, "list<"@);
            lemma_ws_tag(s, p, "option<"@);
            lemma_ws_tag(s, p, "result<"@);
            lemma_lits();
        }
        let list = match ws_tag(s, p, "list<"@) {
            Some(a) => match type_at(s, a) {
                Some((t, b)) => match ws_tag(s, b, ">"@) {
                    Some(c) => Some((TypeM::List(Box::new(t)), c)),
                    None => None,
                },
                None => None,
            },
            None => None,
        };
        let option = match ws_tag(s, p, "option<"@) {
            Some(a) => match type_at(s, a) {
                Some((t, b)) => match ws_tag(s, b, ">"@) {
                    Some(c) => Some((TypeM::Option(Box::new(t)), c)),
                    None => None,
                },
                None => None,
            },
            None => None,
        };
        if list is Some {
            list
        } else if option is Some {
            option
        } else {
            match ws_tag(s, p, "result<"@) {
                Some(a) => match type_at(s, a) {
                    Some((ok, b)) => {
                        let (err, d) = match ws_tag(s, b, ","@) {
                            Some(c) => if p < c <= s.len() {
                                match type_at(s, c) {
                                    Some((e, d)) => (Some(e), d),
                                    None => (None, b),
                                }
                            } else {
                                (None, b)
                            },
                            None => (None, b),
                        };
                        let err_t = match err {
                            Some(e) => e,
                            None => TypeM::Named("void"@),
                        };
                        match ws_tag(s, d, ">"@) {
                            Some(f) => Some((TypeM::Result(Box::new(ok), Box::new(err_t)), f)),
                            None => None,
                        }
                    },
                    None => None,
                },
                None => None,
            }
        }
    }
}

/// Record `{...}`, `variant {...}`, `enum {...}` or tuple `(...)` at `p`.
pub open spec fn complex_at(s: Seq<char>, p: int) -> Option<(TypeM, int)>
    decreases s.len() - p, 8nat,
{
    if p < 0 || p > s.len() {
        None
    } else {
        proof {
            lemma_ws_tag(s, p, "{"@);
            lemma_ws_tag(s, p, "variant {"@);
            lemma_ws_tag(s, p, "enum {"@);
            lemma_ws_tag(s, p, "("@);
            lemma_lits();
        }
        let record = match ws_tag(s, p, "{"@) {
            Some(a) => match fields_at(s, a) {
                Some((fs, b)) => match ws_tag(s, b, "}"@) {
                    Some(c) => Some((TypeM::Record(fs), c)),
                    None => None,
                },
                None => None,
            },
            None => None,
        };
        let variant = match ws_tag(s, p, "variant {"@) {
            Some(a) => match cases_at(s, a) {
                Some((cs, b)) => match ws_tag(s, b, "}"@) {
                    Some(c) => Some((TypeM::Variant(cs), c)),
                    None => None,
                },
                None => None,
            },
            None => None,
        };
        let en = match ws_tag(s, p, "enum {"@) {
            Some(a) => match names_at(s, a) {
                Some((ns, b)) => match ws_tag(s, b, "}"@) {
                    Some(c) => Some((TypeM::Enum(ns), c)),
                    None => None,
                },
                None => None,
            },
            None => None,
        };
        if record is Some {
            record
        } else if variant is Some {
            variant
        } else if en is Some {
            en
        } else {
            match ws_tag(s, p, "("@) {
                Some(a) => match types_at(s, a) {
                    Some((ts, b)) => match ws_tag(s, b, ")"@) {
                        Some(c) => Some((TypeM::Tuple(ts), c)),
                        None => None,
                    },
                    None => None,
                },
                None => None,
            }
        }
    }
}

/// A field `name: type` at `p`.
pub open spec fn field_at(s: Seq<char>, p: int) -> Option<((Seq<char>, TypeM), int)>
    decreases s.len() - p, 10nat,
{
    if p < 0 || p > s.len() {
        None
    } else {
        proof {
            lemma_ws_ident(s, p);
        }
        match ws_ident(s, p) {
            Some((n, a)) => {
                proof {
                    lemma_ws_tag(s, a, ":"@);
                }
                match ws_tag(s, a, ":"@) {
                    Some(b) => match ws_type_at(s, b) {
                        Some((t, c)) => Some(((n, t), c)),
                        None => None,
                    },
                    None => None,
                }
            },
            None => None,
        }
    }
}

/// A variant case `name(type)` or `name` at `p`.
pub open spec fn case_at(s: Seq<char>, p: int) -> Option<((Seq<char>, Option<TypeM>), int)>
    decreases s.len() - p, 10nat,
{
    if p < 0 || p > s.len() {
        None
    } else {
        proof {
            lemma_ws_ident(s, p);
        }
        match ws_ident(s, p) {
            Some((n, a)) => {
                proof {
                    lemma_ws_tag(s, a, "("@);
                }
                let with_payload = match ws_tag(s, a, "("@) {
                    Some(b) => match ws_type_at(s, b) {
                        Some((t, c)) => match ws_tag(s, c, ")"@) {
                            Some(d) => Some(((n, Some(t)), d)),
                            None => None,
                        },
                        None => None,
                    },
                    None => None,
                };
                if with_payload is Some {
                    with_payload
                } else {
                    Some(((n, None), a))
                }
            },
            None => None,
        }
    }
}

/// Comma-separated record fields at `p` (possibly none).
pub open spec fn fields_at(s: Seq<char>, p: int) -> Option<(Seq<(Seq<char>, TypeM)>, int)>
    decreases s.len() - p, 11nat,
{
    if p < 0 || p > s.len() {
        None
    } else {
        match field_at(s, p) {
            None => Some((Seq::empty(), p)),
            Some((f, a)) => if p < a <= s.len() {
                match fields_more_at(s, a) {
                    Some((r, b)) => Some((seq![f] + r, b)),
                    None => None,
                }
            } else {
                None
            },
        }
    }
}

/// Further `, field` items at `p`.
pub open spec fn fields_more_at(s: Seq<char>, p: int) -> Option<(Seq<(Seq<char>, TypeM)>, int)>
    decreases s.len() - p, 11nat,
{
    if p < 0 || p > s.len() {
        None
    } else {
        proof {
            lemma_ws_tag(s, p, ","@);
            lemma_lits();
        }
        match ws_tag(s, p, ","@) {
            None => Some((Seq::empty(), p)),
            Some(a) => match field_at(s, a) {
                None => Some((Seq::empty(), p)),
                Some((f, b)) => if p < b <= s.len() {
                    match fields_more_at(s, b) {
                        Some((r, c)) => Some((seq![f] + r, c)),
                        None => None,
                    }
                } else {
                    None
                },
            },
        }
    }
}

/// Comma-separated variant cases at `p` (possibly none).
pub open spec fn cases_at(s: Seq<char>, p: int) -> Option<(Seq<(Seq<char>, Option<TypeM>)>, int)>
    decreases s.len() - p, 11nat,
{
    if p < 0 || p > s.len() {
        None
    } else {
        match case_at(s, p) {
            None => Some((Seq::empty(), p)),
            Some((f, a)) => if p < a <= s.len() {
                match cases_more_at(s, a) {
                    Some((r, b)) => Some((seq![f] + r, b)),
                    None => None,
                }
            } else {
                None
            },
        }
    }
}

/// Further `, case` items at `p`.
pub open spec fn cases_more_at(s: Seq<char>, p: int) -> Option<(Seq<(Seq<char>, Option<TypeM>)>, int)>
    decreases s.len() - p, 11nat,
{
    if p < 0 || p > s.len() {
        None
    } else {
        proof {
            lemma_ws_tag(s, p, ","@);
            lemma_lits();
        }
        match ws_tag(s, p, ","@) {
            None => Some((Seq::empty(), p)),
            Some(a) => match case_at(s, a) {
                None => Some((Seq::empty(), p)),
                Some((f, b)) => if p < b <= s.len() {
                    match cases_more_at(s, b) {
                        Some((r, c)) => Some((seq![f] + r, c)),
                        None => None,
                    }
                } else {
                    None
                },
            },
        }
    }
}

/// Comma-separated types at `p` (possibly none).
pub open spec fn types_at(s: Seq<char>, p: int) -> Option<(Seq<TypeM>, int)>
    decreases s.len() - p, 11nat,
{
    if p < 0 || p > s.len() {
        None
    } else {
        match ws_type_at(s, p) {
            None => Some((Seq::empty(), p)),
            Some((f, a)) => if p < a <= s.len() {
                match types_more_at(s, a) {
                    Some((r, b)) => Some((seq![f] + r, b)),
                    None => None,
                }
            } else {
                None
            },
        }
    }
}

/// Further `, type` items at `p`.
pub open spec fn types_more_at(s: Seq<char>, p: int) -> Option<(Seq<TypeM>, int)>
    decreases s.len() - p, 11nat,
{
    if p < 0 || p > s.len() {
        None
    } else {
        proof {
            lemma_ws_tag(s, p, ","@);
            lemma_lits();
        }
        match ws_tag(s, p, ","@) {
            None => Some((Seq::empty(), p)),
            Some(a) => match ws_type_at(s, a) {
                None => Some((Seq::empty(), p)),
                Some((f, b)) => if p < b <= s.len() {
                    match types_more_at(s, b) {
                        Some((r, c)) => Some((seq![f] + r, c)),
                        None => None,
                    }
                } else {
                    None
                },
            },
        }
    }
}

/// Comma-separated identifiers at `p` (possibly none).
pub open spec fn names_at(s: Seq<char>, p: int) -> Option<(Seq<Seq<char>>, int)> {
    match ws_ident(s, p) {
        None => Some((Seq::empty(), p)),
        Some((n, a)) => match names_more_at(s, a) {
            Some((r, b)) => Some((seq![n] + r, b)),
            None => None,
        },
    }
}

/// Further `, identifier` items at `p`.
pub open spec fn names_more_at(s: Seq<char>, p: int) -> Option<(Seq<Seq<char>>, int)>
    decreases s.len() - p,
{
    if p < 0 || p > s.len() {
        None
    } else {
        proof {
            lemma_ws_tag(s, p, ","@);
            lemma_lits();
        }
        match ws_tag(s, p, ","@) {
            None => Some((Seq::empty(), p)),
            Some(a) => match ws_ident(s, a) {
                None => Some((Seq::empty(), p)),
                Some((n, b)) => {
                    proof {
                        lemma_ws_ident(s, a);
                    }
                    match names_more_at(s, b) {
                        Some((r, c)) => Some((seq![n] + r, c)),
                        None => None,
                    }
                },
            },
        }
    }
}

/// The literals of the grammar are not empty.
pub proof fn lemma_lits()
    ensures
        "list<"@.len() == 5,
        "option<"@.len() == 7,
        "result<"@.len() == 7,
        ">"@.len() == 1,
        ","@.len() == 1,
        "{"@.len() == 1,
        "}"@.len() == 1,
        "("@.len() == 1,
        ")"@.len() == 1,
        ":"@.len() == 1,
        "variant {"@.len() == 9,
        "enum {"@.len() == 6,
{
    reveal_strlit("list<");
    reveal_strlit("option<");
    reveal_strlit("result<");
    reveal_strlit(">");
    reveal_strlit(",");
    reveal_strlit("{");
    reveal_strlit("}");
    reveal_strlit("(");
    reveal_strlit(")");
    reveal_strlit(":");
    reveal_strlit("variant {");
    reveal_strlit("enum {");
}


/// Abstract form of a parse result.
pub open spec fn type_res(r: Option<(WitType, usize)>) -> Option<(TypeM, int)> {
    match r {
        Some((t, q)) => Some((type_view(t), q as int)),
        None => None,
    }
}

/// Record fields seen element by element.
pub proof fn lemma_fields_view(s: Seq<RecordField>)
    ensures
        fields_view(s) == s.map_values(|x: RecordField| (x.name@, type_view(x.typ))),
    decreases s.len(),
{
    if s.len() > 0 {
        lemma_fields_view(s.drop_last());
    }
    assert(fields_view(s) =~= s.map_values(|x: RecordField| (x.name@, type_view(x.typ))));
}

/// Abstract form of one variant case.
pub open spec fn case_pair(x: VariantCase) -> (Seq<char>, Option<TypeM>) {
    (x.name@, match x.typ {
        Some(t) => Some(type_view(t)),
        None => None,
    })
}

/// Variant cases seen element by element.
pub proof fn lemma_cases_view(s: Seq<VariantCase>)
    ensures
        cases_view(s) == s.map_values(|x: VariantCase| case_pair(x)),
    decreases s.len(),
{
    if s.len() > 0 {
        lemma_cases_view(s.drop_last());
    }
    assert(cases_view(s) =~= s.map_values(|x: VariantCase| case_pair(x)));
}

/// Types seen element by element.
pub proof fn lemma_types_view(s: Seq<WitType>)
    ensures
        types_view(s) == s.map_values(|x: WitType| type_view(x)),
    decreases s.len(),
{
    if s.len() > 0 {
        lemma_types_view(s.drop_last());
    }
    assert(types_view(s) =~= s.map_values(|x: WitType| type_view(x)));
}

fn prim_exec(s: &Vec<char>, p: usize) -> (r: Option<(WitType, usize)>)
    requires
        p <= s@.len(),
    ensures
        type_res(r) == prim_at(s@, p as int),
        r matches Some((_, q)) ==> p < q <= s@.len(),
{
    proof {
        reveal_strlit("i8");
        reveal_strlit("i16");
        reveal_strlit("i32");
        reveal_strlit("i64");
        reveal_strlit("u8");
        reveal_strlit("u16");
        reveal_strlit("u32");
        reveal_strlit("u64");
        reveal_strlit("f32");
        reveal_strlit("f64");
        reveal_strlit("char");
        reveal_strlit("bool");
        reveal_strlit("string");
        reveal_strlit("s32");
        reveal_strlit("s64");
    }
    if let Some(q) = tag_at_exec(s, p, &chars_of("i8")) {
        Some((WitType::I8, q))
    } else if let Some(q) = tag_at_exec(s, p, &chars_of("i16")) {
        Some((WitType::I16, q))
    } else if let Some(q) = tag_at_exec(s, p, &chars_of("i32")) {
        Some((WitType::I32, q))
    } else if let Some(q) = tag_at_exec(s, p, &chars_of("i64")) {
        Some((WitType::I64, q))
    } else if let Some(q) = tag_at_exec(s, p, &chars_of("u8")) {
        Some((WitType::U8, q))
    } else if let Some(q) = tag_at_exec(s, p, &chars_of("u16")) {
        Some((WitType::U16, q))
    } else if let Some(q) = tag_at_exec(s, p, &chars_of("u32")) {
        Some((WitType::U32, q))
    } else if let Some(q) = tag_at_exec(s, p, &chars_of("u64")) {
        Some((WitType::U64, q))
    } else if let Some(q) = tag_at_exec(s, p, &chars_of("f32")) {
        Some((WitType::F32, q))
    } else if let Some(q) = tag_at_exec(s, p, &chars_of("f64")) {
        Some((WitType::F64, q))
    } else if let Some(q) = tag_at_exec(s, p, &chars_of("char")) {
        Some((WitType::Char, q))
    } else if let Some(q) = tag_at_exec(s, p, &chars_of("bool")) {
        Some((WitType::Bool, q))
    } else if let Some(q) = tag_at_exec(s, p, &chars_of("string")) {
        Some((WitType::String, q))
    } else if let Some(q) = tag_at_exec(s, p, &chars_of("s32")) {
        Some((WitType::I32, q))
    } else if let Some(q) = tag_at_exec(s, p, &chars_of("s64")) {
        Some((WitType::I64, q))
    } else {
        None
    }
}

/// Executable form of `type_at`.
pub fn type_exec(s: &Vec<char>, p: usize) -> (r: Option<(WitType, usize)>)
    requires
        p <= s@.len(),
    ensures
        type_res(r) == type_at(s@, p as int),
        r matches Some((_, q)) ==> q <= s@.len(),
    decreases s@.len() - p, 9nat,
{
    if let Some(r) = prim_exec(s, p) {
        return Some(r);
    }
    if let Some(r) = container_exec(s, p) {
        return Some(r);
    }
    if let Some(r) = complex_exec(s, p) {
        return Some(r);
    }
    match ws_ident_exec(s, p) {
        Some((n, q)) => Some((WitType::Named(n), q)),
        None => None,
    }
}

/// Executable form of `ws_type_at`.
pub fn ws_type_exec(s: &Vec<char>, p: usize) -> (r: Option<(WitType, usize)>)
    requires
        p <= s@.len(),
    ensures
        type_res(r) == ws_type_at(s@, p as int),
        r matches Some((_, q)) ==> p <= q <= s@.len(),
    decreases s@.len() - p, 10nat,
{
    let a = ms0_exec(s, p);
    match type_exec(s, a) {
        Some((t, q)) => {
            if p <= q {
                let e = ms0_exec(s, q);
                Some((t, e))
            } else {
                None
            }
        },
        None => None,
    }
}

fn container_exec(s: &Vec<char>, p: usize) -> (r: Option<(WitType, usize)>)
    requires
        p <= s@.len(),
    ensures
        type_res(r) == container_at(s@, p as int),
        r matches Some((_, q)) ==> q <= s@.len(),
    decreases s@.len() - p, 8nat,
{
    proof {
        lemma_lits();
    }
    if let Some(a) = ws_tag_exec(s, p, "list<") {
        if let Some((t, b)) = type_exec(s, a) {
            if let Some(c) = ws_tag_exec(s, b, ">") {
                return Some((WitType::List(Box::new(t)), c));
            }
        }
    }
    if let Some(a) = ws_tag_exec(s, p, "option<") {
        if let Some((t, b)) = type_exec(s, a) {
            if let Some(c) = ws_tag_exec(s, b, ">") {
                return Some((WitType::Option(Box::new(t)), c));
            }
        }
    }
    if let Some(a) = ws_tag_exec(s, p, "result<") {
        if let Some((ok, b)) = type_exec(s, a) {
            let ghost sp = match ws_tag(s@, b as int, ","@) {
                Some(c) => if p < c <= s@.len() {
                    match type_at(s@, c) {
                        Some((e, d)) => (Some(e), d),
                        None => (None, b as int),
                    }
                } else {
                    (None, b as int)
                },
                None => (None, b as int),
            };
            let mut err_t = WitType::Named(crate::text::string_of(&chars_of("void")));
            let mut d = b;
            let mut found = false;
            if let Some(c) = ws_tag_exec(s, b, ",") {
                if p < c {
                    if let Some((e, d2)) = type_exec(s, c) {
                        err_t = e;
                        d = d2;
                        found = true;
                    }
                }
            }
            assert(d == sp.1);
            assert(found == sp.0 is Some);
            assert(type_view(err_t) == (match sp.0 {
                Some(e) => e,
                None => TypeM::Named("void"@),
            }));
            if let Some(f) = ws_tag_exec(s, d, ">") {
                return Some((WitType::Result(Box::new(ok), Box::new(err_t)), f));
            }
        }
    }
    None
}

fn complex_exec(s: &Vec<char>, p: usize) -> (r: Option<(WitType, usize)>)
    requires
        p <= s@.len(),
    ensures
        type_res(r) == complex_at(s@, p as int),
        r matches Some((_, q)) ==> q <= s@.len(),
    decreases s@.len() - p, 8nat,
{
    proof {
        lemma_lits();
    }
    if let Some(a) = ws_tag_exec(s, p, "{") {
        if let Some((fs, b)) = fields_exec(s, a) {
            if let Some(c) = ws_tag_exec(s, b, "}") {
                return Some((WitType::Record(fs), c));
            }
        }
    }
    if let Some(a) = ws_tag_exec(s, p, "variant {") {
        if let Some((cs, b)) = cases_exec(s, a) {
            if let Some(c) = ws_tag_exec(s, b, "}") {
                return Some((WitType::Variant(cs), c));
            }
        }
    }
    if let Some(a) = ws_tag_exec(s, p, "enum {") {
        if let Some((ns, b)) = names_exec(s, a) {
            if let Some(c) = ws_tag_exec(s, b, "}") {
                return Some((WitType::Enum(ns), c));
            }
        }
    }
    if let Some(a) = ws_tag_exec(s, p, "(") {
        if let Some((ts, b)) = types_exec(s, a) {
            if let Some(c) = ws_tag_exec(s, b, ")") {
                return Some((WitType::Tuple(ts), c));
            }
        }
    }
    None
}

fn field_exec(s: &Vec<char>, p: usize) -> (r: Option<(RecordField, usize)>)
    requires
        p <= s@.len(),
    ensures
        r matches Some((f, q)) ==> field_at(s@, p as int) == Some(((f.name@, type_view(f.typ)), q as int)) && p <= q <= s@.len(),
        r is None ==> field_at(s@, p as int) is None,
    decreases s@.len() - p, 10nat,
{
    match ws_ident_exec(s, p) {
        Some((n, a)) => match ws_tag_exec(s, a, ":") {
            Some(b) => match ws_type_exec(s, b) {
                Some((t, c)) => Some((RecordField { name: n, typ: t }, c)),
                None => None,
            },
            None => None,
        },
        None => None,
    }
}

fn case_exec(s: &Vec<char>, p: usize) -> (r: Option<(VariantCase, usize)>)
    requires
        p <= s@.len(),
    ensures
        r matches Some((f, q)) ==> case_at(s@, p as int) == Some((case_pair(f), q as int)) && p <= q <= s@.len(),
        r is None ==> case_at(s@, p as int) is None,
    decreases s@.len() - p, 10nat,
{
    match ws_ident_exec(s, p) {
        Some((n, a)) => {
            if let Some(b) = ws_tag_exec(s, a, "(") {
                if let Some((t, c)) = ws_type_exec(s, b) {
                    if let Some(d) = ws_tag_exec(s, c, ")") {
                        return Some((VariantCase { name: n, typ: Some(t) }, d));
                    }
                }
            }
            Some((VariantCase { name: n, typ: None }, a))
        },
        None => None,
    }
}

pub(crate) fn fields_exec(s: &Vec<char>, p: usize) -> (r: Option<(Vec<RecordField>, usize)>)
    requires
        p <= s@.len(),
    ensures
        r matches Some((v, q)) ==> fields_at(s@, p as int) == Some((fields_view(v@), q as int)) && p <= q <= s@.len(),
        r is None ==> fields_at(s@, p as int) is None,
    decreases s@.len() - p, 11nat,
{
    match field_exec(s, p) {
        None => {
            let v: Vec<RecordField> = Vec::new();
            proof {
                lemma_fields_view(v@);
            }
            assert(fields_view(v@) =~= Seq::empty());
            Some((v, p))
        },
        Some((f, a)) => {
            if p < a {
                match fields_more_exec(s, a) {
                    Some((mut v, b)) => {
                        let ghost old_v = v@;
                        v.insert(0, f);
                        proof {
                            lemma_fields_view(v@);
                            lemma_fields_view(old_v);
                            assert(fields_view(v@) =~= seq![(f.name@, type_view(f.typ))] + fields_view(old_v));
                        }
                        Some((v, b))
                    },
                    None => None,
                }
            } else {
                None
            }
        },
    }
}

fn fields_more_exec(s: &Vec<char>, p: usize) -> (r: Option<(Vec<RecordField>, usize)>)
    requires
        p <= s@.len(),
    ensures
        r matches Some((v, q)) ==> fields_more_at(s@, p as int) == Some((fields_view(v@), q as int)) && p <= q <= s@.len(),
        r is None ==> fields_more_at(s@, p as int) is None,
    decreases s@.len() - p, 11nat,
{
    proof {
        lemma_lits();
    }
    match ws_tag_exec(s, p, ",") {
        None => {
            let v: Vec<RecordField> = Vec::new();
            assert(fields_view(v@) =~= Seq::empty());
            Some((v, p))
        },
        Some(a) => match field_exec(s, a) {
            None => {
                let v: Vec<RecordField> = Vec::new();
                assert(fields_view(v@) =~= Seq::empty());
                Some((v, p))
            },
            Some((f, b)) => {
                if p < b {
                    match fields_more_exec(s, b) {
                        Some((mut v, c)) => {
                            let ghost old_v = v@;
                            v.insert(0, f);
                            proof {
                                lemma_fields_view(v@);
                                lemma_fields_view(old_v);
                                assert(fields_view(v@) =~= seq![(f.name@, type_view(f.typ))] + fields_view(old_v));
                            }
                            Some((v, c))
                        },
                        None => None,
                    }
                } else {
                    None
                }
            },
        },
    }
}

pub(crate) fn cases_exec(s: &Vec<char>, p: usize) -> (r: Option<(Vec<VariantCase>, usize)>)
    requires
        p <= s@.len(),
    ensures
        r matches Some((v, q)) ==> cases_at(s@, p as int) == Some((cases_view(v@), q as int)) && p <= q <= s@.len(),
        r is None ==> cases_at(s@, p as int) is None,
    decreases s@.len() - p, 11nat,
{
    match case_exec(s, p) {
        None => {
            let v: Vec<VariantCase> = Vec::new();
            assert(cases_view(v@) =~= Seq::empty());
            Some((v, p))
        },
        Some((f, a)) => {
            if p < a {
                match cases_more_exec(s, a) {
                    Some((mut v, b)) => {
                        let ghost old_v = v@;
                        let ghost fv = case_pair(f);
                        v.insert(0, f);
                        proof {
                            lemma_cases_view(v@);
                            lemma_cases_view(old_v);
                            assert(cases_view(v@) =~= seq![fv] + cases_view(old_v));
                        }
                        Some((v, b))
                    },
                    None => None,
                }
            } else {
                None
            }
        },
    }
}

fn cases_more_exec(s: &Vec<char>, p: usize) -> (r: Option<(Vec<VariantCase>, usize)>)
    requires
        p <= s@.len(),
    ensures
        r matches Some((v, q)) ==> cases_more_at(s@, p as int) == Some((cases_view(v@), q as int)) && p <= q <= s@.len(),
        r is None ==> cases_more_at(s@, p as int) is None,
    decreases s@.len() - p, 11nat,
{
    proof {
        lemma_lits();
    }
    match ws_tag_exec(s, p, ",") {
        None => {
            let v: Vec<VariantCase> = Vec::new();
            assert(cases_view(v@) =~= Seq::empty());
            Some((v, p))
        },
        Some(a) => match case_exec(s, a) {
            None => {
                let v: Vec<VariantCase> = Vec::new();
                assert(cases_view(v@) =~= Seq::empty());
                Some((v, p))
            },
            Some((f, b)) => {
                if p < b {
                    match cases_more_exec(s, b) {
                        Some((mut v, c)) => {
                            let ghost old_v = v@;
                            let ghost fv = case_pair(f);
                            v.insert(0, f);
                            proof {
                                lemma_cases_view(v@);
                                lemma_cases_view(old_v);
                                assert(cases_view(v@) =~= seq![fv] + cases_view(old_v));
                            }
                            Some((v, c))
                        },
                        None => None,
                    }
                } else {
                    None
                }
            },
        },
    }
}

fn types_exec(s: &Vec<char>, p: usize) -> (r: Option<(Vec<WitType>, usize)>)
    requires
        p <= s@.len(),
    ensures
        r matches Some((v, q)) ==> types_at(s@, p as int) == Some((types_view(v@), q as int)) && p <= q <= s@.len(),
        r is None ==> types_at(s@, p as int) is None,
    decreases s@.len() - p, 11nat,
{
    match ws_type_exec(s, p) {
        None => {
            let v: Vec<WitType> = Vec::new();
            assert(types_view(v@) =~= Seq::empty());
            Some((v, p))
        },
        Some((f, a)) => {
            if p < a {
                match types_more_exec(s, a) {
                    Some((mut v, b)) => {
                        let ghost old_v = v@;
                        let ghost fv = type_view(f);
                        v.insert(0, f);
                        proof {
                            lemma_types_view(v@);
                            lemma_types_view(old_v);
                            assert(types_view(v@) =~= seq![fv] + types_view(old_v));
                        }
                        Some((v, b))
                    },
                    None => None,
                }
            } else {
                None
            }
        },
    }
}

fn types_more_exec(s: &Vec<char>, p: usize) -> (r: Option<(Vec<WitType>, usize)>)
    requires
        p <= s@.len(),
    ensures
        r matches Some((v, q)) ==> types_more_at(s@, p as int) == Some((types_view(v@), q as int)) && p <= q <= s@.len(),
        r is None ==> types_more_at(s@, p as int) is None,
    decreases s@.len() - p, 11nat,
{
    proof {
        lemma_lits();
    }
    match ws_tag_exec(s, p, ",") {
        None => {
            let v: Vec<WitType> = Vec::new();
            assert(types_view(v@) =~= Seq::empty());
            Some((v, p))
        },
        Some(a) => match ws_type_exec(s, a) {
            None => {
                let v: Vec<WitType> = Vec::new();
                assert(types_view(v@) =~= Seq::empty());
                Some((v, p))
            },
            Some((f, b)) => {
                if p < b {
                    match types_more_exec(s, b) {
                        Some((mut v, c)) => {
                            let ghost old_v = v@;
                            let ghost fv = type_view(f);
                            v.insert(0, f);
                            proof {
                                lemma_types_view(v@);
                                lemma_types_view(old_v);
                                assert(types_view(v@) =~= seq![fv] + types_view(old_v));
                            }
                            Some((v, c))
                        },
                        None => None,
                    }
                } else {
                    None
                }
            },
        },
    }
}

/// Abstract form of identifier lists.
pub open spec fn names_view(v: Seq<std::string::String>) -> Seq<Seq<char>> {
    v.map_values(|x: std::string::String| x@)
}

fn names_exec(s: &Vec<char>, p: usize) -> (r: Option<(Vec<std::string::String>, usize)>)
    requires
        p <= s@.len(),
    ensures
        r matches Some((v, q)) ==> names_at(s@, p as int) == Some((names_view(v@), q as int)) && p <= q <= s@.len(),
        r is None ==> names_at(s@, p as int) is None,
{
    match ws_ident_exec(s, p) {
        None => {
            let v: Vec<std::string::String> = Vec::new();
            assert(names_view(v@) =~= Seq::empty());
            Some((v, p))
        },
        Some((n, a)) => match names_more_exec(s, a) {
            Some((mut v, b)) => {
                let ghost old_v = v@;
                let ghost nv = n@;
                v.insert(0, n);
                assert(names_view(v@) =~= seq![nv] + names_view(old_v));
                Some((v, b))
            },
            None => None,
        },
    }
}

fn names_more_exec(s: &Vec<char>, p: usize) -> (r: Option<(Vec<std::string::String>, usize)>)
    requires
        p <= s@.len(),
    ensures
        r matches Some((v, q)) ==> names_more_at(s@, p as int) == Some((names_view(v@), q as int)) && p <= q <= s@.len(),
        r is None ==> names_more_at(s@, p as int) is None,
    decreases s@.len() - p,
{
    proof {
        lemma_lits();
    }
    match ws_tag_exec(s, p, ",") {
        None => {
            let v: Vec<std::string::String> = Vec::new();
            assert(names_view(v@) =~= Seq::empty());
            Some((v, p))
        },
        Some(a) => match ws_ident_exec(s, a) {
            None => {
                let v: Vec<std::string::String> = Vec::new();
                assert(names_view(v@) =~= Seq::empty());
                Some((v, p))
            },
            Some((n, b)) => match names_more_exec(s, b) {
                Some((mut v, c)) => {
                    let ghost old_v = v@;
                    let ghost nv = n@;
                    v.insert(0, n);
                    assert(names_view(v@) =~= seq![nv] + names_view(old_v));
                    Some((v, c))
                },
                None => None,
            },
        },
    }
}


/// A type with its surrounding white space never ends before it starts.
pub proof fn lemma_ws_type_pos(s: Seq<char>, p: int)
    ensures
        ws_type_at(s, p) matches Some((_, q)) ==> p <= q,
{
    if 0 <= p <= s.len() {
        lemma_ms0(s, p);
        if let Some((t, q)) = type_at(s, ms0(s, p)) {
            if p <= q <= s.len() {
                lemma_ms0(s, q);
            }
        }
    }
}

} // verus!
