//! The declarations of the WIT grammar: type definitions, records, variants,
//! functions, `use` statements, interfaces and worlds.
use vstd::prelude::*;
use crate::text::{chars_of, contains, contains_exec, slice_chars, string_of, trim, trim_chars};
use crate::wit::{
    cases_view, fields_view, interface_view, type_view, typedef_view, typedefs_view, world_item_view,
    world_view, Function, Interface, TypeDef, TypeDefM, TypeM, WitType, World, WorldItem,
    InterfaceM, WorldItemM, WorldM,
};
use crate::wit_lex::{
    lemma_ms0, lemma_skip, lemma_ws_ident, lemma_ws_tag, ms0, ms0_exec, skip, skip_exec, ws_ident,
    ws_ident_exec, ws_tag, ws_tag_exec,
};
use crate::wit_types::{
    cases_at, fields_at, ws_type_at, ws_type_exec, fields_exec, cases_exec, type_res,
};

verus! {

/// `type name = T` at `p`.
pub open spec fn type_def_at(s: Seq<char>, p: int) -> Option<(TypeDefM, int)> {
    match ws_tag(s, p, "type"@) {
        Some(a) => match ws_ident(s, a) {
            Some((n, b)) => match ws_tag(s, b, "="@) {
                Some(c) => match ws_type_at(s, c) {
                    Some((t, d)) => Some((TypeDefM { name: n, typ: t }, d)),
                    None => None,
                },
                None => None,
            },
            None => None,
        },
        None => None,
    }
}

/// `record name { fields }` at `p`.
pub open spec fn record_def_at(s: Seq<char>, p: int) -> Option<(TypeDefM, int)> {
    match ws_tag(s, p, "record"@) {
        Some(a) => match ws_ident(s, a) {
            Some((n, b)) => match ws_tag(s, b, "{"@) {
                Some(c) => match fields_at(s, c) {
                    Some((fs, d)) => match ws_tag(s, d, "}"@) {
                        Some(e) => Some((TypeDefM { name: n, typ: TypeM::Record(fs) }, e)),
                        None => None,
                    },
                    None => None,
                },
                None => None,
            },
            None => None,
        },
        None => None,
    }
}

/// `variant name { cases }` at `p`.
pub open spec fn variant_def_at(s: Seq<char>, p: int) -> Option<(TypeDefM, int)> {
    match ws_tag(s, p, "variant"@) {
        Some(a) => match ws_ident(s, a) {
            Some((n, b)) => match ws_tag(s, b, "{"@) {
                Some(c) => match cases_at(s, c) {
                    Some((cs, d)) => match ws_tag(s, d, "}"@) {
                        Some(e) => Some((TypeDefM { name: n, typ: TypeM::Variant(cs) }, e)),
                        None => None,
                    },
                    None => None,
                },
                None => None,
            },
            None => None,
        },
        None => None,
    }
}

/// A parameter `name: T`, with white space around it, at `p`.
pub open spec fn param_at(s: Seq<char>, p: int) -> Option<int> {
    match ws_ident(s, ms0(s, p)) {
        Some((_n, a)) => match ws_tag(s, a, ":"@) {
            Some(b) => match ws_type_at(s, b) {
                Some((_t, c)) => Some(ms0(s, c)),
                None => None,
            },
            None => None,
        },
        None => None,
    }
}

/// Further `, parameter` items at `p`.
pub open spec fn params_more_at(s: Seq<char>, p: int) -> Option<int>
    decreases s.len() - p,
{
    if p < 0 || p > s.len() {
        None
    } else {
        match ws_tag(s, p, ","@) {
            None => Some(p),
            Some(a) => match param_at(s, a) {
                None => Some(p),
                Some(b) => if p < b <= s.len() {
                    params_more_at(s, b)
                } else {
                    None
                },
            },
        }
    }
}

/// Comma-separated parameters at `p` (possibly none).
pub open spec fn params_at(s: Seq<char>, p: int) -> Option<int> {
    match param_at(s, p) {
        None => Some(p),
        Some(a) => if p < a <= s.len() {
            params_more_at(s, a)
        } else {
            None
        },
    }
}

/// `func name(params) [-> T]` at `p`; only its extent matters.
pub open spec fn function_at(s: Seq<char>, p: int) -> Option<int> {
    match ws_tag(s, p, "func"@) {
        Some(a) => match ws_ident(s, a) {
            Some((_n, b)) => match ws_tag(s, b, "("@) {
                Some(c) => match params_at(s, c) {
                    Some(d) => match ws_tag(s, d, ")"@) {
                        Some(e) => match ws_tag(s, e, "->"@) {
                            Some(f) => match ws_type_at(s, f) {
                                Some((_t, g)) => Some(g),
                                None => Some(e),
                            },
                            None => Some(e),
                        },
                        None => None,
                    },
                    None => None,
                },
                None => None,
            },
            None => None,
        },
        None => None,
    }
}

/// The end of the run of characters other than `;` starting at `p`.
pub open spec fn semi_end(s: Seq<char>, p: int) -> int
    decreases s.len() - p,
{
    if 0 <= p < s.len() && s[p] != ';' {
        semi_end(s, p + 1)
    } else {
        p
    }
}

proof fn lemma_semi_end(s: Seq<char>, p: int)
    ensures
        p <= semi_end(s, p),
        0 <= p <= s.len() ==> semi_end(s, p) <= s.len(),
    decreases s.len() - p,
{
    if 0 <= p < s.len() && s[p] != ';' {
        lemma_semi_end(s, p + 1);
    }
}

/// `use path;` at `p`: the trimmed path.
pub open spec fn use_at(s: Seq<char>, p: int) -> Option<(Seq<char>, int)> {
    match ws_tag(s, p, "use"@) {
        Some(a) => {
            let b = ms0(s, a);
            if 0 <= b < s.len() && s[b] != ';' {
                let e = semi_end(s, b);
                match ws_tag(s, ms0(s, e), ";"@) {
                    Some(d) => Some((trim(s.subrange(b, e)), d)),
                    None => None,
                }
            } else {
                None
            }
        },
        None => None,
    }
}

/// What an interface item contributes.
pub enum ItemM {
    Use(Seq<char>),
    Type(TypeDefM),
    Func,
}

/// One interface item, after white space and comments, at `p`.
pub open spec fn iface_item_at(s: Seq<char>, p: int) -> Option<(ItemM, int)> {
    let r = skip(s, p);
    if use_at(s, r) is Some {
        Some((ItemM::Use((use_at(s, r)->0).0), (use_at(s, r)->0).1))
    } else if type_def_at(s, r) is Some {
        Some((ItemM::Type((type_def_at(s, r)->0).0), (type_def_at(s, r)->0).1))
    } else if record_def_at(s, r) is Some {
        Some((ItemM::Type((record_def_at(s, r)->0).0), (record_def_at(s, r)->0).1))
    } else if variant_def_at(s, r) is Some {
        Some((ItemM::Type((variant_def_at(s, r)->0).0), (variant_def_at(s, r)->0).1))
    } else if function_at(s, r) is Some {
        Some((ItemM::Func, function_at(s, r)->0))
    } else {
        None
    }
}

/// The type definitions kept from interface items: those whose name does
/// not contain `signature`; and the `use` statements.
pub open spec fn items_at(s: Seq<char>, p: int) -> Option<(Seq<TypeDefM>, Seq<Seq<char>>, int)>
    decreases s.len() - p,
{
    if p < 0 || p > s.len() {
        None
    } else {
        match iface_item_at(s, p) {
            None => Some((Seq::empty(), Seq::empty(), p)),
            Some((it, q)) => if p < q <= s.len() {
                match items_at(s, q) {
                    Some((ts, us, r)) => match it {
                        ItemM::Use(u) => Some((ts, seq![u] + us, r)),
                        ItemM::Type(t) => if contains(t.name, "signature"@) {
                            Some((ts, us, r))
                        } else {
                            Some((seq![t] + ts, us, r))
                        },
                        ItemM::Func => Some((ts, us, r)),
                    },
                    None => None,
                }
            } else {
                None
            },
        }
    }
}

/// `interface name { items }` at `p`, after white space and comments.
pub open spec fn interface_at(s: Seq<char>, p: int) -> Option<(InterfaceM, int)> {
    match ws_tag(s, skip(s, p), "interface"@) {
        Some(a) => match ws_ident(s, a) {
            Some((n, b)) => match ws_tag(s, b, "{"@) {
                Some(c) => match items_at(s, c) {
                    Some((ts, us, d)) => match ws_tag(s, d, "}"@) {
                        Some(e) => Some(
                            (InterfaceM { name: n, types: ts, functions: Seq::empty(), use_statements: us }, e),
                        ),
                        None => None,
                    },
                    None => None,
                },
                None => None,
            },
            None => None,
        },
        None => None,
    }
}

/// `{keyword} name;` at `p`, after white space and comments.
pub open spec fn named_stmt_at(s: Seq<char>, p: int, kw: Seq<char>) -> Option<(Seq<char>, int)> {
    match ws_tag(s, skip(s, p), kw) {
        Some(a) => match ws_ident(s, a) {
            Some((n, b)) => match ws_tag(s, b, ";"@) {
                Some(c) => Some((n, c)),
                None => None,
            },
            None => None,
        },
        None => None,
    }
}

/// One world item at `p`: `import name;`, `include name;` or `export interface ...`.
pub open spec fn world_item_at(s: Seq<char>, p: int) -> Option<(WorldItemM, int)> {
    if named_stmt_at(s, p, "import"@) is Some {
        Some((WorldItemM::Import((named_stmt_at(s, p, "import"@)->0).0), (named_stmt_at(s, p, "import"@)->0).1))
    } else if named_stmt_at(s, p, "include"@) is Some {
        Some((WorldItemM::Include((named_stmt_at(s, p, "include"@)->0).0), (named_stmt_at(s, p, "include"@)->0).1))
    } else {
        match ws_tag(s, p, "export"@) {
            Some(a) => match interface_at(s, ms0(s, a)) {
                Some((i, c)) => Some((WorldItemM::Export(i), ms0(s, c))),
                None => None,
            },
            None => None,
        }
    }
}

/// The items of a world at `p`.
pub open spec fn world_items_at(s: Seq<char>, p: int) -> Option<(Seq<WorldItemM>, int)>
    decreases s.len() - p,
{
    if p < 0 || p > s.len() {
        None
    } else {
        match world_item_at(s, p) {
            None => Some((Seq::empty(), p)),
            Some((it, q)) => if p < q <= s.len() {
                match world_items_at(s, q) {
                    Some((r, e)) => Some((seq![it] + r, e)),
                    None => None,
                }
            } else {
                None
            },
        }
    }
}

/// `world name { items }` at `p`, after white space and comments.
pub open spec fn world_at(s: Seq<char>, p: int) -> Option<(WorldM, int)> {
    match ws_tag(s, skip(s, p), "world"@) {
        Some(a) => match ws_ident(s, a) {
            Some((n, b)) => match ws_tag(s, b, "{"@) {
                Some(c) => match world_items_at(s, c) {
                    Some((items, d)) => match ws_tag(s, d, "}"@) {
                        Some(e) => Some((WorldM { name: n, items }, e)),
                        None => None,
                    },
                    None => None,
                },
                None => None,
            },
            None => None,
        },
        None => None,
    }
}

/// Worlds one after the other from `p`.
pub open spec fn worlds_at(s: Seq<char>, p: int) -> Option<(Seq<WorldM>, int)>
    decreases s.len() - p,
{
    if p < 0 || p > s.len() {
        None
    } else {
        match world_at(s, skip(s, p)) {
            None => Some((Seq::empty(), p)),
            Some((w, q)) => if p < q <= s.len() {
                match worlds_at(s, q) {
                    Some((r, e)) => Some((seq![w] + r, e)),
                    None => None,
                }
            } else {
                None
            },
        }
    }
}

/// Interfaces one after the other from `p`.
pub open spec fn interfaces_at(s: Seq<char>, p: int) -> Option<(Seq<InterfaceM>, int)>
    decreases s.len() - p,
{
    if p < 0 || p > s.len() {
        None
    } else {
        match interface_at(s, skip(s, p)) {
            None => Some((Seq::empty(), p)),
            Some((w, q)) => if p < q <= s.len() {
                match interfaces_at(s, q) {
                    Some((r, e)) => Some((seq![w] + r, e)),
                    None => None,
                }
            } else {
                None
            },
        }
    }
}

/// The worlds of a WIT file (what the file parser yields, if it succeeds).
pub open spec fn wit_file(s: Seq<char>) -> Option<Seq<WorldM>> {
    match worlds_at(s, skip(s, 0)) {
        Some((ws, _)) => Some(ws),
        None => None,
    }
}

/// The standalone interfaces of a WIT file (if the parser succeeds).
pub open spec fn wit_interfaces(s: Seq<char>) -> Option<Seq<InterfaceM>> {
    match interfaces_at(s, skip(s, 0)) {
        Some((is, _)) => Some(is),
        None => None,
    }
}


proof fn lemma_item_lits()
    ensures
        "type"@.len() == 4,
        "record"@.len() == 6,
        "variant"@.len() == 7,
        "func"@.len() == 4,
        "use"@.len() == 3,
        "interface"@.len() == 9,
        "import"@.len() == 6,
        "include"@.len() == 7,
        "export"@.len() == 6,
        "world"@.len() == 5,
        ","@.len() == 1,
        ";"@.len() == 1,
        "{"@.len() == 1,
        "}"@.len() == 1,
{
    reveal_strlit("type");
    reveal_strlit("record");
    reveal_strlit("variant");
    reveal_strlit("func");
    reveal_strlit("use");
    reveal_strlit("interface");
    reveal_strlit("import");
    reveal_strlit("include");
    reveal_strlit("export");
    reveal_strlit("world");
    reveal_strlit(",");
    reveal_strlit(";");
    reveal_strlit("{");
    reveal_strlit("}");
}

/// Abstract form of a type definition result.
pub open spec fn typedef_res(r: Option<(TypeDef, usize)>) -> Option<(TypeDefM, int)> {
    match r {
        Some((t, q)) => Some((typedef_view(t), q as int)),
        None => None,
    }
}

fn type_def_exec(s: &Vec<char>, p: usize) -> (r: Option<(TypeDef, usize)>)
    requires
        p <= s@.len(),
    ensures
        typedef_res(r) == type_def_at(s@, p as int),
        r matches Some((_, q)) ==> p < q <= s@.len(),
{
    proof {
        lemma_item_lits();
    }
    match ws_tag_exec(s, p, "type") {
        Some(a) => match ws_ident_exec(s, a) {
            Some((n, b)) => match ws_tag_exec(s, b, "=") {
                Some(c) => match ws_type_exec(s, c) {
                    Some((t, d)) => {
                        proof {
                            lemma_ws_tag(s@, b as int, "="@);
                        }
                        if d < c {
                            assert(false) by {
                                crate::wit_types::lemma_ws_type_pos(s@, c as int);
                            }
                        }
                        Some((TypeDef { name: n, typ: t }, d))
                    },
                    None => None,
                },
                None => None,
            },
            None => None,
        },
        None => None,
    }
}

fn record_def_exec(s: &Vec<char>, p: usize) -> (r: Option<(TypeDef, usize)>)
    requires
        p <= s@.len(),
    ensures
        typedef_res(r) == record_def_at(s@, p as int),
        r matches Some((_, q)) ==> p < q <= s@.len(),
{
    proof {
        lemma_item_lits();
    }
    match ws_tag_exec(s, p, "record") {
        Some(a) => match ws_ident_exec(s, a) {
            Some((n, b)) => match ws_tag_exec(s, b, "{") {
                Some(c) => match fields_exec(s, c) {
                    Some((fs, d)) => match ws_tag_exec(s, d, "}") {
                        Some(e) => Some((TypeDef { name: n, typ: WitType::Record(fs) }, e)),
                        None => None,
                    },
                    None => None,
                },
                None => None,
            },
            None => None,
        },
        None => None,
    }
}

fn variant_def_exec(s: &Vec<char>, p: usize) -> (r: Option<(TypeDef, usize)>)
    requires
        p <= s@.len(),
    ensures
        typedef_res(r) == variant_def_at(s@, p as int),
        r matches Some((_, q)) ==> p < q <= s@.len(),
{
    proof {
        lemma_item_lits();
    }
    match ws_tag_exec(s, p, "variant") {
        Some(a) => match ws_ident_exec(s, a) {
            Some((n, b)) => match ws_tag_exec(s, b, "{") {
                Some(c) => match cases_exec(s, c) {
                    Some((cs, d)) => match ws_tag_exec(s, d, "}") {
                        Some(e) => Some((TypeDef { name: n, typ: WitType::Variant(cs) }, e)),
                        None => None,
                    },
                    None => None,
                },
                None => None,
            },
            None => None,
        },
        None => None,
    }
}

fn param_exec(s: &Vec<char>, p: usize) -> (r: Option<usize>)
    requires
        p <= s@.len(),
    ensures
        r matches Some(q) ==> param_at(s@, p as int) == Some(q as int) && p <= q <= s@.len(),
        r is None ==> param_at(s@, p as int) is None,
{
    let a0 = ms0_exec(s, p);
    match ws_ident_exec(s, a0) {
        Some((_n, a)) => match ws_tag_exec(s, a, ":") {
            Some(b) => match ws_type_exec(s, b) {
                Some((_t, c)) => Some(ms0_exec(s, c)),
                None => None,
            },
            None => None,
        },
        None => None,
    }
}

fn params_more_exec(s: &Vec<char>, p: usize) -> (r: Option<usize>)
    requires
        p <= s@.len(),
    ensures
        r matches Some(q) ==> params_more_at(s@, p as int) == Some(q as int) && p <= q <= s@.len(),
        r is None ==> params_more_at(s@, p as int) is None,
    decreases s@.len() - p,
{
    match ws_tag_exec(s, p, ",") {
        None => Some(p),
        Some(a) => match param_exec(s, a) {
            None => Some(p),
            Some(b) => {
                if p < b {
                    params_more_exec(s, b)
                } else {
                    None
                }
            },
        },
    }
}

fn params_exec(s: &Vec<char>, p: usize) -> (r: Option<usize>)
    requires
        p <= s@.len(),
    ensures
        r matches Some(q) ==> params_at(s@, p as int) == Some(q as int) && p <= q <= s@.len(),
        r is None ==> params_at(s@, p as int) is None,
{
    match param_exec(s, p) {
        None => Some(p),
        Some(a) => {
            if p < a {
                params_more_exec(s, a)
            } else {
                None
            }
        },
    }
}

fn function_exec(s: &Vec<char>, p: usize) -> (r: Option<usize>)
    requires
        p <= s@.len(),
    ensures
        r matches Some(q) ==> function_at(s@, p as int) == Some(q as int) && p < q <= s@.len(),
        r is None ==> function_at(s@, p as int) is None,
{
    proof {
        lemma_item_lits();
    }
    match ws_tag_exec(s, p, "func") {
        Some(a) => match ws_ident_exec(s, a) {
            Some((_n, b)) => match ws_tag_exec(s, b, "(") {
                Some(c) => match params_exec(s, c) {
                    Some(d) => match ws_tag_exec(s, d, ")") {
                        Some(e) => {
                            proof {
                                reveal_strlit(")");
                                lemma_ws_tag(s@, d as int, ")"@);
                            }
                            match ws_tag_exec(s, e, "->") {
                                Some(f) => match ws_type_exec(s, f) {
                                    Some((_t, g)) => {
                                        if g < f {
                                            assert(false) by {
                                                crate::wit_types::lemma_ws_type_pos(s@, f as int);
                                            }
                                        }
                                        proof {
                                            reveal_strlit("->");
                                        }
                                        Some(g)
                                    },
                                    None => Some(e),
                                },
                                None => Some(e),
                            }
                        },
                        None => None,
                    },
                    None => None,
                },
                None => None,
            },
            None => None,
        },
        None => None,
    }
}

fn use_exec(s: &Vec<char>, p: usize) -> (r: Option<(std::string::String, usize)>)
    requires
        p <= s@.len(),
    ensures
        r matches Some((u, q)) ==> use_at(s@, p as int) == Some((u@, q as int)) && p < q <= s@.len(),
        r is None ==> use_at(s@, p as int) is None,
{
    proof {
        lemma_item_lits();
    }
    match ws_tag_exec(s, p, "use") {
        Some(a) => {
            let b = ms0_exec(s, a);
            if b < s.len() && s[b] != ';' {
                let mut e = b;
                while e < s.len() && s[e] != ';'
                    invariant
                        b <= e <= s@.len(),
                        semi_end(s@, e as int) == semi_end(s@, b as int),
                    decreases s@.len() - e,
                {
                    e = e + 1;
                }
                let c = ms0_exec(s, e);
                match ws_tag_exec(s, c, ";") {
                    Some(d) => {
                        let raw = slice_chars(s, b, e);
                        let t = trim_chars(&raw);
                        Some((string_of(&t), d))
                    },
                    None => None,
                }
            } else {
                None
            }
        },
        None => None,
    }
}

/// What an interface item contributes.
enum Item {
    Use(std::string::String),
    Type(TypeDef),
    Func,
}

spec fn item_view(i: Item) -> ItemM {
    match i {
        Item::Use(u) => ItemM::Use(u@),
        Item::Type(t) => ItemM::Type(typedef_view(t)),
        Item::Func => ItemM::Func,
    }
}

fn iface_item_exec(s: &Vec<char>, p: usize) -> (r: Option<(Item, usize)>)
    requires
        p <= s@.len(),
    ensures
        r matches Some((it, q)) ==> iface_item_at(s@, p as int) == Some((item_view(it), q as int)) && p < q <= s@.len(),
        r is None ==> iface_item_at(s@, p as int) is None,
{
    let r = skip_exec(s, p);
    if let Some((u, q)) = use_exec(s, r) {
        return Some((Item::Use(u), q));
    }
    if let Some((t, q)) = type_def_exec(s, r) {
        return Some((Item::Type(t), q));
    }
    if let Some((t, q)) = record_def_exec(s, r) {
        return Some((Item::Type(t), q));
    }
    if let Some((t, q)) = variant_def_exec(s, r) {
        return Some((Item::Type(t), q));
    }
    if let Some(q) = function_exec(s, r) {
        return Some((Item::Func, q));
    }
    None
}

fn items_exec(s: &Vec<char>, p: usize) -> (r: Option<(Vec<TypeDef>, Vec<std::string::String>, usize)>)
    requires
        p <= s@.len(),
    ensures
        r matches Some((ts, us, q)) ==> items_at(s@, p as int) == Some((typedefs_view(ts@),
            us@.map_values(|u: std::string::String| u@), q as int)) && p <= q <= s@.len(),
        r is None ==> items_at(s@, p as int) is None,
    decreases s@.len() - p,
{
    match iface_item_exec(s, p) {
        None => {
            let ts: Vec<TypeDef> = Vec::new();
            let us: Vec<std::string::String> = Vec::new();
            assert(typedefs_view(ts@) =~= Seq::empty());
            assert(us@.map_values(|u: std::string::String| u@) =~= Seq::<Seq<char>>::empty());
            Some((ts, us, p))
        },
        Some((it, q)) => match items_exec(s, q) {
            Some((mut ts, mut us, e)) => {
                let ghost old_ts = ts@;
                let ghost old_us = us@;
                match it {
                    Item::Use(u) => {
                        let ghost uv = u@;
                        us.insert(0, u);
                        assert(us@.map_values(|u: std::string::String| u@) =~= seq![uv]
                            + old_us.map_values(|u: std::string::String| u@));
                    },
                    Item::Type(t) => {
                        let nm = crate::text::chars_of(t.name.as_str());
                        if !contains_exec(&nm, &chars_of("signature")) {
                            let ghost tv = typedef_view(t);
                            ts.insert(0, t);
                            assert(typedefs_view(ts@) =~= seq![tv] + typedefs_view(old_ts));
                        }
                    },
                    Item::Func => {},
                }
                Some((ts, us, e))
            },
            None => None,
        },
    }
}

/// Abstract form of an interface result.
pub open spec fn interface_res(r: Option<(Interface, usize)>) -> Option<(InterfaceM, int)> {
    match r {
        Some((i, q)) => Some((interface_view(i), q as int)),
        None => None,
    }
}

/// Executable form of `interface_at`.
pub fn interface_exec(s: &Vec<char>, p: usize) -> (r: Option<(Interface, usize)>)
    requires
        p <= s@.len(),
    ensures
        interface_res(r) == interface_at(s@, p as int),
        r matches Some((_, q)) ==> p < q <= s@.len(),
{
    proof {
        lemma_item_lits();
        lemma_skip(s@, p as int);
    }
    let r0 = skip_exec(s, p);
    match ws_tag_exec(s, r0, "interface") {
        Some(a) => match ws_ident_exec(s, a) {
            Some((n, b)) => match ws_tag_exec(s, b, "{") {
                Some(c) => match items_exec(s, c) {
                    Some((ts, us, d)) => match ws_tag_exec(s, d, "}") {
                        Some(e) => {
                            let functions: Vec<Function> = Vec::new();
                            let i = Interface { name: n, types: ts, functions, use_statements: us };
                            assert(interface_view(i).functions =~= Seq::<crate::wit::FunctionM>::empty());
                            Some((i, e))
                        },
                        None => None,
                    },
                    None => None,
                },
                None => None,
            },
            None => None,
        },
        None => None,
    }
}

fn named_stmt_exec(s: &Vec<char>, p: usize, kw: &str) -> (r: Option<(std::string::String, usize)>)
    requires
        p <= s@.len(),
        kw@.len() > 0,
    ensures
        r matches Some((n, q)) ==> named_stmt_at(s@, p as int, kw@) == Some((n@, q as int)) && p < q <= s@.len(),
        r is None ==> named_stmt_at(s@, p as int, kw@) is None,
{
    proof {
        lemma_skip(s@, p as int);
    }
    let r0 = skip_exec(s, p);
    match ws_tag_exec(s, r0, kw) {
        Some(a) => match ws_ident_exec(s, a) {
            Some((n, b)) => match ws_tag_exec(s, b, ";") {
                Some(c) => Some((n, c)),
                None => None,
            },
            None => None,
        },
        None => None,
    }
}

fn world_item_exec(s: &Vec<char>, p: usize) -> (r: Option<(WorldItem, usize)>)
    requires
        p <= s@.len(),
    ensures
        r matches Some((it, q)) ==> world_item_at(s@, p as int) == Some((world_item_view(it), q as int)) && p < q <= s@.len(),
        r is None ==> world_item_at(s@, p as int) is None,
{
    proof {
        lemma_item_lits();
    }
    if let Some((n, q)) = named_stmt_exec(s, p, "import") {
        return Some((WorldItem::Import(n), q));
    }
    if let Some((n, q)) = named_stmt_exec(s, p, "include") {
        return Some((WorldItem::Include(n), q));
    }
    match ws_tag_exec(s, p, "export") {
        Some(a) => {
            let b = ms0_exec(s, a);
            match interface_exec(s, b) {
                Some((i, c)) => {
                    let d = ms0_exec(s, c);
                    Some((WorldItem::Export(i), d))
                },
                None => None,
            }
        },
        None => None,
    }
}

fn world_items_exec(s: &Vec<char>, p: usize) -> (r: Option<(Vec<WorldItem>, usize)>)
    requires
        p <= s@.len(),
    ensures
        r matches Some((v, q)) ==> world_items_at(s@, p as int) == Some((v@.map_values(|i: WorldItem| world_item_view(i)), q as int)) && p <= q <= s@.len(),
        r is None ==> world_items_at(s@, p as int) is None,
    decreases s@.len() - p,
{
    match world_item_exec(s, p) {
        None => {
            let v: Vec<WorldItem> = Vec::new();
            assert(v@.map_values(|i: WorldItem| world_item_view(i)) =~= Seq::<WorldItemM>::empty());
            Some((v, p))
        },
        Some((it, q)) => match world_items_exec(s, q) {
            Some((mut v, e)) => {
                let ghost old_v = v@;
                let ghost iv = world_item_view(it);
                v.insert(0, it);
                assert(v@.map_values(|i: WorldItem| world_item_view(i)) =~= seq![iv]
                    + old_v.map_values(|i: WorldItem| world_item_view(i)));
                Some((v, e))
            },
            None => None,
        },
    }
}

fn world_exec(s: &Vec<char>, p: usize) -> (r: Option<(World, usize)>)
    requires
        p <= s@.len(),
    ensures
        r matches Some((w, q)) ==> world_at(s@, p as int) == Some((world_view(w), q as int)) && p < q <= s@.len(),
        r is None ==> world_at(s@, p as int) is None,
{
    proof {
        lemma_item_lits();
        lemma_skip(s@, p as int);
    }
    let r0 = skip_exec(s, p);
    match ws_tag_exec(s, r0, "world") {
        Some(a) => match ws_ident_exec(s, a) {
            Some((n, b)) => match ws_tag_exec(s, b, "{") {
                Some(c) => match world_items_exec(s, c) {
                    Some((items, d)) => match ws_tag_exec(s, d, "}") {
                        Some(e) => Some((World { name: n, items }, e)),
                        None => None,
                    },
                    None => None,
                },
                None => None,
            },
            None => None,
        },
        None => None,
    }
}

fn worlds_exec(s: &Vec<char>, p: usize) -> (r: Option<(Vec<World>, usize)>)
    requires
        p <= s@.len(),
    ensures
        r matches Some((v, q)) ==> worlds_at(s@, p as int) == Some((v@.map_values(|w: World| world_view(w)), q as int)) && p <= q <= s@.len(),
        r is None ==> worlds_at(s@, p as int) is None,
    decreases s@.len() - p,
{
    let r0 = skip_exec(s, p);
    match world_exec(s, r0) {
        None => {
            let v: Vec<World> = Vec::new();
            assert(v@.map_values(|w: World| world_view(w)) =~= Seq::<WorldM>::empty());
            Some((v, p))
        },
        Some((w, q)) => {
            if p < q {
                match worlds_exec(s, q) {
                    Some((mut v, e)) => {
                        let ghost old_v = v@;
                        let ghost wv = world_view(w);
                        v.insert(0, w);
                        assert(v@.map_values(|w: World| world_view(w)) =~= seq![wv]
                            + old_v.map_values(|w: World| world_view(w)));
                        Some((v, e))
                    },
                    None => None,
                }
            } else {
                None
            }
        },
    }
}

fn interfaces_exec(s: &Vec<char>, p: usize) -> (r: Option<(Vec<Interface>, usize)>)
    requires
        p <= s@.len(),
    ensures
        r matches Some((v, q)) ==> interfaces_at(s@, p as int) == Some((v@.map_values(|i: Interface| interface_view(i)), q as int)) && p <= q <= s@.len(),
        r is None ==> interfaces_at(s@, p as int) is None,
    decreases s@.len() - p,
{
    let r0 = skip_exec(s, p);
    match interface_exec(s, r0) {
        None => {
            let v: Vec<Interface> = Vec::new();
            assert(v@.map_values(|i: Interface| interface_view(i)) =~= Seq::<InterfaceM>::empty());
            Some((v, p))
        },
        Some((w, q)) => {
            if p < q {
                match interfaces_exec(s, q) {
                    Some((mut v, e)) => {
                        let ghost old_v = v@;
                        let ghost wv = interface_view(w);
                        v.insert(0, w);
                        assert(v@.map_values(|i: Interface| interface_view(i)) =~= seq![wv]
                            + old_v.map_values(|i: Interface| interface_view(i)));
                        Some((v, e))
                    },
                    None => None,
                }
            } else {
                None
            }
        },
    }
}

/// Parses the worlds of a WIT file.
pub fn parse_wit_file(content: &Vec<char>) -> (r: Option<Vec<World>>)
    ensures
        r matches Some(v) ==> wit_file(content@) == Some(v@.map_values(|w: World| world_view(w))),
        r is None ==> wit_file(content@) is None,
{
    let p = skip_exec(content, 0);
    match worlds_exec(content, p) {
        Some((v, _)) => Some(v),
        None => None,
    }
}

/// Parses the standalone interfaces of a WIT file.
pub fn parse_interfaces(content: &Vec<char>) -> (r: Option<Vec<Interface>>)
    ensures
        r matches Some(v) ==> wit_interfaces(content@) == Some(v@.map_values(|i: Interface| interface_view(i))),
        r is None ==> wit_interfaces(content@) is None,
{
    let p = skip_exec(content, 0);
    match interfaces_exec(content, p) {
        Some((v, _)) => Some(v),
        None => None,
    }
}

/// Parses one interface from the start of a WIT file, with the position where the
/// rest of the input begins.
pub fn parse_interface(content: &Vec<char>) -> (r: Option<(Interface, usize)>)
    ensures
        interface_res(r) == interface_at(content@, 0),
        r matches Some((_, q)) ==> 0 < q <= content@.len(),
{
    interface_exec(content, 0)
}

} // verus!
