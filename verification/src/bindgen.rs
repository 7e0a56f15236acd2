//! The logic of the RPC binding generator: reading the signature records and
//! function declarations of WIT interface files and mapping WIT types to Rust.
use vstd::prelude::*;
use crate::case::{kebab_pascal, kebab_pascal_chars, kebab_snake};
use crate::wit_codegen::push_str;
use crate::text::{
    append_chars, chars_eq_str, chars_of, contains, contains_exec, ends_with, ends_with_exec,
    extend_chars, find, find_exec, lines, lines_exec, replace_char_exec, seqs_of, slice_chars,
    split, split_exec, starts_with, starts_with_exec, string_of, trim, trim_chars,
    trim_end_matches, trim_end_matches_exec, trim_start_matches, trim_start_matches_exec,
};

verus! {

/// `items` joined with `sep` between consecutive items.
pub open spec fn join(items: Seq<Seq<char>>, sep: Seq<char>) -> Seq<char>
    decreases items.len(),
{
    if items.len() == 0 {
        Seq::empty()
    } else if items.len() == 1 {
        items[0]
    } else {
        join(items.drop_last(), sep) + sep + items.last()
    }
}

/// Every piece of a split is at most as long as the text.
pub proof fn lemma_split_piece_len(s: Seq<char>, p: Seq<char>)
    ensures
        forall|k: int| 0 <= k < split(s, p).len() ==> #[trigger] split(s, p)[k].len() <= s.len(),
        split(s, p).len() >= 1,
    decreases s.len(),
{
    if p.len() == 0 {
    } else {
        match find(s, p) {
            None => {},
            Some(i) => {
                if i + p.len() <= s.len() && 0 <= i {
                    lemma_split_piece_len(s.skip(i + p.len()), p);
                    let r = split(s.skip(i + p.len()), p);
                    assert forall|k: int| 0 <= k < split(s, p).len() implies #[trigger] split(s, p)[k].len() <= s.len() by {
                        if k > 0 {
                            assert(split(s, p)[k] == r[k - 1]);
                        }
                    }
                }
            },
        }
    }
}

/// Trimming never lengthens a text.
pub proof fn lemma_trim_len(s: Seq<char>)
    ensures
        trim(s).len() <= s.len(),
{
    lemma_trim_start_len(s);
    lemma_trim_end_len(crate::text::trim_start(s));
}

proof fn lemma_trim_start_len(s: Seq<char>)
    ensures
        crate::text::trim_start(s).len() <= s.len(),
    decreases s.len(),
{
    if s.len() > 0 && crate::text::is_space(s[0]) {
        lemma_trim_start_len(s.drop_first());
    }
}

proof fn lemma_trim_end_len(s: Seq<char>)
    ensures
        crate::text::trim_end(s).len() <= s.len(),
    decreases s.len(),
{
    if s.len() > 0 && crate::text::is_space(s.last()) {
        lemma_trim_end_len(s.drop_last());
    }
}

/// The Rust type written for a WIT type inside the interface `iface`.
pub open spec fn wit_rust(w: Seq<char>, iface: Seq<char>) -> Seq<char>
    decreases w.len(), 0nat,
{
    if w == "s32"@ {
        "i32"@
    } else if w == "u32"@ {
        "u32"@
    } else if w == "s64"@ {
        "i64"@
    } else if w == "u64"@ {
        "u64"@
    } else if w == "f32"@ {
        "f32"@
    } else if w == "f64"@ {
        "f64"@
    } else if w == "string"@ {
        "String"@
    } else if w == "bool"@ {
        "bool"@
    } else if w == "unit"@ {
        "()"@
    } else if w == "address"@ {
        "hyperware_process_lib::Address"@
    } else if starts_with(w, "list<"@) && ends_with(w, ">"@) && w.len() >= 6 {
        "Vec<"@ + wit_rust(w.subrange(5, w.len() - 1), iface) + ">"@
    } else if starts_with(w, "option<"@) && ends_with(w, ">"@) && w.len() >= 8 {
        "Option<"@ + wit_rust(w.subrange(7, w.len() - 1), iface) + ">"@
    } else if starts_with(w, "result<"@) && ends_with(w, ">"@) && w.len() >= 8 {
        match find(w, ","@) {
            Some(c) => if 7 <= c <= w.len() {
                proof {
                    lemma_trim_len(w.subrange(7, c));
                }
                wit_rust(trim(w.subrange(7, c)), iface)
            } else {
                "()"@
            },
            None => "()"@,
        }
    } else if starts_with(w, "tuple<"@) && ends_with(w, ">"@) && w.len() >= 7 {
        "("@ + join(
            tuple_rust(split(w.subrange(6, w.len() - 1), ","@), iface, (w.len() - 1) as nat),
            ", "@,
        ) + ")"@
    } else {
        "crate::hyperware::process::"@ + kebab_snake(iface) + "::"@ + kebab_pascal(w)
    }
}

/// The Rust types of the (trimmed) elements of a WIT tuple; `bound` exceeds the
/// length of every element.
pub open spec fn tuple_rust(pieces: Seq<Seq<char>>, iface: Seq<char>, bound: nat) -> Seq<Seq<char>>
    decreases bound, pieces.len(),
{
    if pieces.len() == 0 {
        Seq::empty()
    } else {
        let t = trim(pieces.last());
        let item = if t.len() < bound {
            wit_rust(t, iface)
        } else {
            Seq::empty()
        };
        tuple_rust(pieces.drop_last(), iface, bound).push(item)
    }
}

proof fn lemma_literals()
    ensures
        "list<"@ =~= seq!['l', 'i', 's', 't', '<'],
        "option<"@ =~= seq!['o', 'p', 't', 'i', 'o', 'n', '<'],
        "result<"@ =~= seq!['r', 'e', 's', 'u', 'l', 't', '<'],
        "tuple<"@ =~= seq!['t', 'u', 'p', 'l', 'e', '<'],
        ">"@ =~= seq!['>'],
        ","@ =~= seq![','],
{
    reveal_strlit("list<");
    reveal_strlit("option<");
    reveal_strlit("result<");
    reveal_strlit("tuple<");
    reveal_strlit(">");
    reveal_strlit(",");
}

/// Appends `join(items, sep)` to `out`.
fn push_joined(out: &mut Vec<char>, items: &Vec<Vec<char>>, sep: &str)
    ensures
        final(out)@ == old(out)@ + join(seqs_of(items@), sep@),
{
    let ghost start = out@;
    let mut i: usize = 0;
    while i < items.len()
        invariant
            i <= items@.len(),
            out@ == start + join(seqs_of(items@).take(i as int), sep@),
        decreases items@.len() - i,
    {
        let ghost t = seqs_of(items@).take(i + 1);
        assert(t.drop_last() =~= seqs_of(items@).take(i as int));
        if i > 0 {
            extend_chars(out, sep);
        }
        append_chars(out, &items[i]);
        i = i + 1;
        proof {
            if i == 1 {
                assert(join(seqs_of(items@).take(0), sep@) =~= Seq::<char>::empty());
                assert(out@ =~= start + join(t, sep@));
            } else {
                assert(out@ =~= start + join(t, sep@));
            }
        }
    }
    assert(seqs_of(items@).take(items@.len() as int) =~= seqs_of(items@));
}

/// Character form of `wit_type_to_rust`.
pub fn wit_rust_chars(w: &Vec<char>, iface: &Vec<char>) -> (r: Vec<char>)
    ensures
        r@ == wit_rust(w@, iface@),
    decreases w@.len(),
{
    proof {
        lemma_literals();
    }
    let mut out: Vec<char> = Vec::new();
    if chars_eq_str(w, "s32") {
        extend_chars(&mut out, "i32");
    } else if chars_eq_str(w, "u32") {
        extend_chars(&mut out, "u32");
    } else if chars_eq_str(w, "s64") {
        extend_chars(&mut out, "i64");
    } else if chars_eq_str(w, "u64") {
        extend_chars(&mut out, "u64");
    } else if chars_eq_str(w, "f32") {
        extend_chars(&mut out, "f32");
    } else if chars_eq_str(w, "f64") {
        extend_chars(&mut out, "f64");
    } else if chars_eq_str(w, "string") {
        extend_chars(&mut out, "String");
    } else if chars_eq_str(w, "bool") {
        extend_chars(&mut out, "bool");
    } else if chars_eq_str(w, "unit") {
        extend_chars(&mut out, "()");
    } else if chars_eq_str(w, "address") {
        extend_chars(&mut out, "hyperware_process_lib::Address");
    } else if starts_with_exec(w, &chars_of("list<")) && ends_with_exec(w, &chars_of(">")) {
        assert(w@.len() >= 6) by {
            if w@.len() == 5 {
                assert(w@[4] == '<');
                assert(w@.subrange(w@.len() - 1, w@.len() as int)[0] == '>');
            }
        }
        let inner = slice_chars(w, 5, w.len() - 1);
        extend_chars(&mut out, "Vec<");
        let r = wit_rust_chars(&inner, iface);
        append_chars(&mut out, &r);
        extend_chars(&mut out, ">");
    } else if starts_with_exec(w, &chars_of("option<")) && ends_with_exec(w, &chars_of(">")) {
        assert(w@.len() >= 8) by {
            if w@.len() == 7 {
                assert(w@[6] == '<');
                assert(w@.subrange(w@.len() - 1, w@.len() as int)[0] == '>');
            }
        }
        let inner = slice_chars(w, 7, w.len() - 1);
        extend_chars(&mut out, "Option<");
        let r = wit_rust_chars(&inner, iface);
        append_chars(&mut out, &r);
        extend_chars(&mut out, ">");
    } else if starts_with_exec(w, &chars_of("result<")) && ends_with_exec(w, &chars_of(">")) {
        assert(w@.len() >= 8) by {
            if w@.len() == 7 {
                assert(w@[6] == '<');
                assert(w@.subrange(w@.len() - 1, w@.len() as int)[0] == '>');
            }
        }
        match find_exec(w, &chars_of(",")) {
            Some(c) => {
                proof {
                    crate::text::lemma_contains_find(w@, ","@);
                    lemma_find_first(w@, ","@);
                    if c < 7 {
                        assert(w@.subrange(0, 7)[c as int] == w@[c as int]);
                        assert(w@.subrange(c as int, c + 1)[0] == ',');
                    }
                }
                let piece = slice_chars(w, 7, c);
                let t = trim_chars(&piece);
                proof {
                    lemma_trim_len(piece@);
                }
                let r = wit_rust_chars(&t, iface);
                append_chars(&mut out, &r);
            },
            None => {
                extend_chars(&mut out, "()");
            },
        }
    } else if starts_with_exec(w, &chars_of("tuple<")) && ends_with_exec(w, &chars_of(">")) {
        assert(w@.len() >= 7) by {
            if w@.len() == 6 {
                assert(w@[5] == '<');
                assert(w@.subrange(w@.len() - 1, w@.len() as int)[0] == '>');
            }
        }
        let inner = slice_chars(w, 6, w.len() - 1);
        let pieces = split_exec(&inner, &chars_of(","));
        proof {
            lemma_split_piece_len(inner@, ","@);
        }
        let ghost bound: nat = (w@.len() - 1) as nat;
        let mut items: Vec<Vec<char>> = Vec::new();
        let mut i: usize = 0;
        while i < pieces.len()
            invariant
                i <= pieces@.len(),
                bound == w@.len() - 1,
                seqs_of(pieces@) == split(inner@, ","@),
                inner@.len() == w@.len() - 7,
                forall|k: int| 0 <= k < pieces@.len() ==> #[trigger] seqs_of(pieces@)[k].len() <= inner@.len(),
                seqs_of(items@) == tuple_rust(seqs_of(pieces@).take(i as int), iface@, bound),
            decreases pieces@.len() - i,
        {
            let t = trim_chars(&pieces[i]);
            proof {
                lemma_trim_len(pieces@[i as int]@);
                assert(seqs_of(pieces@)[i as int] == pieces@[i as int]@);
            }
            let r = wit_rust_chars(&t, iface);
            let ghost old_items = items@;
            items.push(r);
            i = i + 1;
            proof {
                let tk = seqs_of(pieces@).take(i as int);
                assert(tk.drop_last() =~= seqs_of(pieces@).take(i - 1));
                assert(tk.last() == pieces@[i - 1]@);
                assert(seqs_of(items@) =~= seqs_of(old_items).push(r@));
            }
        }
        assert(seqs_of(pieces@).take(pieces@.len() as int) =~= seqs_of(pieces@));
        extend_chars(&mut out, "(");
        push_joined(&mut out, &items, ", ");
        extend_chars(&mut out, ")");
    } else {
        extend_chars(&mut out, "crate::hyperware::process::");
        let snake = replace_char_exec(iface, '-', '_');
        append_chars(&mut out, &snake);
        extend_chars(&mut out, "::");
        let pascal = kebab_pascal_chars(w);
        append_chars(&mut out, &pascal);
    }
    out
}

proof fn lemma_find_first(s: Seq<char>, p: Seq<char>)
    requires
        find(s, p) is Some,
    ensures
        crate::text::matches_at(s, find(s, p)->0, p),
        forall|j: int| 0 <= j < find(s, p)->0 ==> !crate::text::matches_at(s, j, p),
{
    crate::text::lemma_find_from_some_pub(s, p, 0);
}

/// Converts a WIT type to the Rust type used in the generated functions,
/// naming custom types inside the interface's module.
pub fn wit_type_to_rust(wit_type: &str, interface_name: &str) -> (r: String)
    ensures
        r@ == wit_rust(wit_type@, interface_name@),
{
    let w = chars_of(wit_type);
    let i = chars_of(interface_name);
    string_of(&wit_rust_chars(&w, &i))
}


/// The parts of a signature record name `{function}-signature-{call type}`.
pub open spec fn record_name_parts(r: Seq<char>) -> Option<(Seq<char>, Seq<char>)> {
    if contains(r, "-signature-"@) && split(r, "-signature-"@).len() == 2 {
        Some((split(r, "-signature-"@)[0], split(r, "-signature-"@)[1]))
    } else {
        None
    }
}

/// Character form of `parse_signature_record_name`.
fn record_name_parts_chars(r: &Vec<char>) -> (res: Option<(Vec<char>, Vec<char>)>)
    ensures
        res matches Some((a, b)) ==> record_name_parts(r@) == Some((a@, b@)),
        res is None ==> record_name_parts(r@) is None,
{
    let pat = chars_of("-signature-");
    proof {
        reveal_strlit("-signature-");
    }
    if contains_exec(r, &pat) {
        let parts = split_exec(r, &pat);
        if parts.len() == 2 {
            let a = slice_chars(&parts[0], 0, parts[0].len());
            let b = slice_chars(&parts[1], 0, parts[1].len());
            assert(a@ =~= seqs_of(parts@)[0]);
            assert(b@ =~= seqs_of(parts@)[1]);
            return Some((a, b));
        }
    }
    None
}

/// Splits a signature record name into the function name and the call type.
pub fn parse_signature_record_name(record_name: &str) -> (res: Option<(String, String)>)
    ensures
        res matches Some((a, b)) ==> record_name_parts(record_name@) == Some((a@, b@)),
        res is None ==> record_name_parts(record_name@) is None,
{
    let r = chars_of(record_name);
    match record_name_parts_chars(&r) {
        Some((a, b)) => Some((string_of(&a), string_of(&b))),
        None => None,
    }
}

/// The imported interface named by a trimmed world line, if it is an import.
pub open spec fn import_of_line(t: Seq<char>) -> Option<Seq<char>> {
    if starts_with(t, "import "@) {
        Some(trim(trim_end_matches(trim_start_matches(t, "import "@), ";"@)))
    } else {
        None
    }
}

/// The imports of a world file, in order.
pub open spec fn imports_of_lines(ls: Seq<Seq<char>>) -> Seq<Seq<char>>
    decreases ls.len(),
{
    if ls.len() == 0 {
        Seq::empty()
    } else {
        let rest = imports_of_lines(ls.drop_last());
        match import_of_line(trim(ls.last())) {
            Some(i) => rest.push(i),
            None => rest,
        }
    }
}

/// Extracts the names of the imported interfaces from a world WIT file.
pub fn extract_imports(content: &str) -> (r: Vec<String>)
    ensures
        r@.map_values(|x: String| x@) == imports_of_lines(lines(content@)),
{
    let v = chars_of(content);
    let ls = lines_exec(&v);
    let import_kw = chars_of("import ");
    let semi = chars_of(";");
    let mut out: Vec<String> = Vec::new();
    let mut i: usize = 0;
    while i < ls.len()
        invariant
            i <= ls@.len(),
            import_kw@ == "import "@,
            semi@ == ";"@,
            out@.map_values(|x: String| x@) == imports_of_lines(seqs_of(ls@).take(i as int)),
        decreases ls@.len() - i,
    {
        let t = trim_chars(&ls[i]);
        let ghost tk = seqs_of(ls@).take(i + 1);
        assert(tk.drop_last() =~= seqs_of(ls@).take(i as int));
        assert(tk.last() == ls@[i as int]@);
        if starts_with_exec(&t, &import_kw) {
            let a = trim_start_matches_exec(&t, &import_kw);
            let b = trim_end_matches_exec(&a, &semi);
            let c = trim_chars(&b);
            let ghost old_out = out@;
            out.push(string_of(&c));
            assert(out@.map_values(|x: String| x@) =~= old_out.map_values(|x: String| x@).push(c@));
        }
        i = i + 1;
    }
    assert(seqs_of(ls@).take(ls@.len() as int) =~= seqs_of(ls@));
    out
}


/// The Rust expression used as the placeholder result of a generated function
/// returning `t`.
pub open spec fn default_code(t: Seq<char>) -> Seq<char>
    decreases t.len(), 0nat,
{
    if t == "i32"@ || t == "u32"@ || t == "i64"@ || t == "u64"@ {
        "0"@
    } else if t == "f32"@ || t == "f64"@ {
        "0.0"@
    } else if t == "String"@ {
        "String::new()"@
    } else if t == "bool"@ {
        "false"@
    } else if t == "()"@ {
        "()"@
    } else if starts_with(t, "Vec<"@) {
        "Vec::new()"@
    } else if starts_with(t, "Option<"@) {
        "None"@
    } else if starts_with(t, "("@) && ends_with(t, ")"@) && t.len() >= 2 {
        "("@ + join(tuple_defaults(split(t.subrange(1, t.len() - 1), ","@), (t.len() - 1) as nat), ", "@) + ")"@
    } else {
        "Default::default()"@
    }
}

/// The placeholder expressions of the (trimmed) elements of a tuple type;
/// `bound` exceeds the length of every element.
pub open spec fn tuple_defaults(pieces: Seq<Seq<char>>, bound: nat) -> Seq<Seq<char>>
    decreases bound, pieces.len(),
{
    if pieces.len() == 0 {
        Seq::empty()
    } else {
        let t = trim(pieces.last());
        let item = if t.len() < bound {
            default_code(t)
        } else {
            Seq::empty()
        };
        tuple_defaults(pieces.drop_last(), bound).push(item)
    }
}

fn default_code_chars(t: &Vec<char>) -> (r: Vec<char>)
    ensures
        r@ == default_code(t@),
    decreases t@.len(),
{
    let mut out: Vec<char> = Vec::new();
    if chars_eq_str(t, "i32") || chars_eq_str(t, "u32") || chars_eq_str(t, "i64") || chars_eq_str(t, "u64") {
        extend_chars(&mut out, "0");
    } else if chars_eq_str(t, "f32") || chars_eq_str(t, "f64") {
        extend_chars(&mut out, "0.0");
    } else if chars_eq_str(t, "String") {
        extend_chars(&mut out, "String::new()");
    } else if chars_eq_str(t, "bool") {
        extend_chars(&mut out, "false");
    } else if chars_eq_str(t, "()") {
        extend_chars(&mut out, "()");
    } else if starts_with_exec(t, &chars_of("Vec<")) {
        extend_chars(&mut out, "Vec::new()");
    } else if starts_with_exec(t, &chars_of("Option<")) {
        extend_chars(&mut out, "None");
    } else if starts_with_exec(t, &chars_of("(")) && ends_with_exec(t, &chars_of(")")) {
        proof {
            reveal_strlit("(");
            reveal_strlit(")");
            reveal_strlit(",");
        }
        assert(t@.len() >= 2) by {
            if t@.len() == 1 {
                assert(t@.subrange(0, 1)[0] == '(');
                assert(t@.subrange(0, 1)[0] == ')');
            }
        }
        let inner = slice_chars(t, 1, t.len() - 1);
        let pieces = split_exec(&inner, &chars_of(","));
        proof {
            lemma_split_piece_len(inner@, ","@);
        }
        let ghost bound: nat = (t@.len() - 1) as nat;
        let mut items: Vec<Vec<char>> = Vec::new();
        let mut i: usize = 0;
        while i < pieces.len()
            invariant
                i <= pieces@.len(),
                bound == t@.len() - 1,
                seqs_of(pieces@) == split(inner@, ","@),
                inner@.len() == t@.len() - 2,
                forall|k: int| 0 <= k < pieces@.len() ==> #[trigger] seqs_of(pieces@)[k].len() <= inner@.len(),
                seqs_of(items@) == tuple_defaults(seqs_of(pieces@).take(i as int), bound),
            decreases pieces@.len() - i,
        {
            let e = trim_chars(&pieces[i]);
            proof {
                lemma_trim_len(pieces@[i as int]@);
                assert(seqs_of(pieces@)[i as int] == pieces@[i as int]@);
            }
            let r = default_code_chars(&e);
            let ghost old_items = items@;
            items.push(r);
            i = i + 1;
            proof {
                let tk = seqs_of(pieces@).take(i as int);
                assert(tk.drop_last() =~= seqs_of(pieces@).take(i - 1));
                assert(tk.last() == pieces@[i - 1]@);
                assert(seqs_of(items@) =~= seqs_of(old_items).push(r@));
            }
        }
        assert(seqs_of(pieces@).take(pieces@.len() as int) =~= seqs_of(pieces@));
        extend_chars(&mut out, "(");
        push_joined(&mut out, &items, ", ");
        extend_chars(&mut out, ")");
    } else {
        extend_chars(&mut out, "Default::default()");
    }
    out
}

/// The placeholder expression (Rust source) that a generated function
/// returning `rust_type` evaluates to.
pub fn generate_default_value(rust_type: &str) -> (r: String)
    ensures
        r@ == default_code(rust_type@),
{
    let t = chars_of(rust_type);
    string_of(&default_code_chars(&t))
}

/// The word used in the log line of a generated function, for the call types
/// that get a generated function.
pub open spec fn call_type_label(call_type: Seq<char>) -> Option<Seq<char>> {
    if call_type == "local"@ {
        Some("Local"@)
    } else if call_type == "remote"@ {
        Some("Remote"@)
    } else if call_type == "http"@ {
        Some("HTTP"@)
    } else {
        None
    }
}

/// The name of the generated RPC function for a signature.
pub open spec fn rpc_fn_name(sig: crate::signatures::SigModel) -> Seq<char> {
    sig.name + "_"@ + sig.call_type + "_rpc"@
}

/// One generated async RPC function: documented, taking the target and the parameters, logging its call (the original name, as a string literal) and returning the placeholder value.
pub open spec fn rpc_fn_text(doc_literal: Seq<char>, fn_name: Seq<char>, params: Seq<char>, return_type: Seq<char>, label: Seq<char>, name: Seq<char>, default_value: Seq<char>) -> Seq<char> {
    "#[doc = "@
        + doc_literal
        + "] pub async fn "@
        + fn_name
        + "("@
        + params
        + ") -> "@
        + return_type
        + " { println!(\""@
        + label
        + " function called: {}\", stringify!("@
        + name
        + ")); "@
        + default_value
        + " }"@
}

/// Writes `rpc_fn_text`.
fn write_rpc_fn_text(out: &mut String, doc_literal: &str, fn_name: &str, params: &str, return_type: &str, label: &str, name: &str, default_value: &str)
    ensures
        final(out)@ == old(out)@ + rpc_fn_text(doc_literal@, fn_name@, params@, return_type@, label@, name@, default_value@),
{
    let ghost start = out@;
    push_str(out, "#[doc = ");
    push_str(out, doc_literal);
    push_str(out, "] pub async fn ");
    push_str(out, fn_name);
    push_str(out, "(");
    push_str(out, params);
    push_str(out, ") -> ");
    push_str(out, return_type);
    push_str(out, " { println!(\"");
    push_str(out, label);
    push_str(out, " function called: {}\", stringify!(");
    push_str(out, name);
    push_str(out, ")); ");
    push_str(out, default_value);
    push_str(out, " }");
    assert(out@ =~= start + rpc_fn_text(doc_literal@, fn_name@, params@, return_type@, label@, name@, default_value@));
}

/// The module holding the generated async RPC functions.
pub open spec fn rpc_module_text(functions: Seq<char>) -> Seq<char> {
    "/// This module contains generated async RPC functions based on WIT signature records.\n/// These functions can be used to communicate with other processes in the Hyperware system.\npub mod hyperware_async { "@
        + functions
        + " }"@
}

/// Writes `rpc_module_text`.
fn write_rpc_module_text(out: &mut String, functions: &str)
    ensures
        final(out)@ == old(out)@ + rpc_module_text(functions@),
{
    let ghost start = out@;
    push_str(out, "/// This module contains generated async RPC functions based on WIT signature records.\n/// These functions can be used to communicate with other processes in the Hyperware system.\npub mod hyperware_async { ");
    push_str(out, functions);
    push_str(out, " }");
    assert(out@ =~= start + rpc_module_text(functions@));
}

/// The module generated when no signature gives a function.
pub open spec fn rpc_empty_module_text() -> Seq<char> {
    "/// This module contains generated async RPC functions.\n/// No functions were found in the WIT files.\npub mod hyperware_async { #[allow(dead_code)] fn no_functions_found() { println!(\"No async functions were generated. Check your WIT files for signature records.\") } }"@
}

/// Writes `rpc_empty_module_text`.
fn write_rpc_empty_module_text(out: &mut String)
    ensures
        final(out)@ == old(out)@ + rpc_empty_module_text(),
{
    let ghost start = out@;
    push_str(out, "/// This module contains generated async RPC functions.\n/// No functions were found in the WIT files.\npub mod hyperware_async { #[allow(dead_code)] fn no_functions_found() { println!(\"No async functions were generated. Check your WIT files for signature records.\") } }");
    assert(out@ =~= start + rpc_empty_module_text());
}

/// Whether `syn` parses the text as a type path.
pub uninterp spec fn parses_as_type_path(text: Seq<char>) -> bool;

/// `syn::parse_str::<syn::TypePath>`: whether the text parses as a type path.
#[verifier::external_body]
fn is_type_path(text: &str) -> (b: bool)
    ensures
        b == parses_as_type_path(text@),
{
    syn::parse_str::<syn::TypePath>(text).is_ok()
}

/// A type as written in a generated signature: the text itself when it parses as a
/// type path, else the text with every `::` replaced by `_`, used as an identifier.
pub open spec fn type_tokens(t: Seq<char>) -> Seq<char> {
    if parses_as_type_path(t) {
        t
    } else {
        join(split(t, "::"@), "_"@)
    }
}

/// A character as it is written inside a string literal.
pub open spec fn escaped_char(c: char) -> Seq<char> {
    if c == '\\' {
        seq!['\\', '\\']
    } else if c == '"' {
        seq!['\\', '"']
    } else {
        seq![c]
    }
}

/// Text with backslashes and double quotes escaped.
pub open spec fn escaped(s: Seq<char>) -> Seq<char>
    decreases s.len(),
{
    if s.len() == 0 {
        Seq::empty()
    } else {
        escaped(s.drop_last()) + escaped_char(s.last())
    }
}

/// A string literal holding the text.
pub open spec fn string_literal(s: Seq<char>) -> Seq<char> {
    "\""@ + escaped(s) + "\""@
}

/// The parameter list of a generated function: the target, then each parameter.
pub open spec fn rpc_params(sig: crate::signatures::SigModel) -> Seq<Seq<char>> {
    seq![
        "target: "@ + (if sig.is_http { "String"@ } else { "hyperware_process_lib::Address"@ }),
    ] + sig.params.map_values(|p: (Seq<char>, Seq<char>)| p.0 + ": "@ + type_tokens(p.1))
}

/// The generated function for a signature whose call type has a label.
pub open spec fn rpc_function(sig: crate::signatures::SigModel) -> Seq<char> {
    rpc_fn_text(
        string_literal("Async RPC function for "@ + sig.original_name + "-"@ + sig.call_type),
        rpc_fn_name(sig),
        join(rpc_params(sig), ", "@),
        type_tokens(sig.return_type),
        call_type_label(sig.call_type)->0,
        string_literal(sig.name),
        default_code(sig.return_type),
    )
}

/// The generated functions, one per signature whose call type is `local`,
/// `remote` or `http`, in order.
pub open spec fn rpc_functions(sigs: Seq<crate::signatures::SigModel>) -> Seq<char>
    decreases sigs.len(),
{
    if sigs.len() == 0 {
        Seq::empty()
    } else {
        rpc_functions(sigs.drop_last()) + if call_type_label(sigs.last().call_type) is Some {
            rpc_function(sigs.last())
        } else {
            Seq::empty()
        }
    }
}

/// Whether some signature gets a function.
pub open spec fn any_rpc(sigs: Seq<crate::signatures::SigModel>) -> bool {
    exists|i: int| 0 <= i < sigs.len() && #[trigger] call_type_label(sigs[i].call_type) is Some
}

/// The module of generated async RPC functions for the signatures.
pub open spec fn async_module(sigs: Seq<crate::signatures::SigModel>) -> Seq<char> {
    if any_rpc(sigs) {
        rpc_module_text(rpc_functions(sigs))
    } else {
        rpc_empty_module_text()
    }
}

/// A generated function's text holds its header with its name, and its log line
/// with its label.
proof fn lemma_rpc_fn_text_parts(doc: Seq<char>, fn_name: Seq<char>, params: Seq<char>, ret: Seq<char>, label: Seq<char>, name: Seq<char>, dv: Seq<char>)
    ensures
        crate::text::contains(rpc_fn_text(doc, fn_name, params, ret, label, name, dv), "] pub async fn "@ + fn_name + "("@),
        crate::text::contains(rpc_fn_text(doc, fn_name, params, ret, label, name, dv), " { println!(\""@ + label + " function called: {}\", stringify!("@),
{
    let f = rpc_fn_text(doc, fn_name, params, ret, label, name, dv);
    let n1 = "] pub async fn "@ + fn_name + "("@;
    let a1 = "#[doc = "@ + doc;
    let b1 = params + ") -> "@ + ret + " { println!(\""@ + label + " function called: {}\", stringify!("@ + name + ")); "@ + dv + " }"@;
    assert(f =~= a1 + n1 + b1);
    crate::text::lemma_contains_between(a1, n1, b1);
    let n2 = " { println!(\""@ + label + " function called: {}\", stringify!("@;
    let a2 = "#[doc = "@ + doc + "] pub async fn "@ + fn_name + "("@ + params + ") -> "@ + ret;
    let b2 = name + ")); "@ + dv + " }"@;
    assert(f =~= a2 + n2 + b2);
    crate::text::lemma_contains_between(a2, n2, b2);
}

/// The generated function of a signature holds its header, named
/// `{name}_{call type}_rpc`, and its log line for the call type.
proof fn lemma_rpc_function_parts(sig: crate::signatures::SigModel)
    ensures
        crate::text::contains(rpc_function(sig), "] pub async fn "@ + rpc_fn_name(sig) + "("@),
        crate::text::contains(rpc_function(sig), " { println!(\""@ + call_type_label(sig.call_type)->0 + " function called: {}\", stringify!("@),
{
    lemma_rpc_fn_text_parts(
        string_literal("Async RPC function for "@ + sig.original_name + "-"@ + sig.call_type),
        rpc_fn_name(sig),
        join(rpc_params(sig), ", "@),
        type_tokens(sig.return_type),
        call_type_label(sig.call_type)->0,
        string_literal(sig.name),
        default_code(sig.return_type),
    );
}

/// The functions of a list of signatures hold the function of each signature whose
/// call type has a label.
proof fn lemma_rpc_functions_hold(sigs: Seq<crate::signatures::SigModel>, i: int)
    requires
        0 <= i < sigs.len(),
        call_type_label(sigs[i].call_type) is Some,
    ensures
        crate::text::contains(rpc_functions(sigs), rpc_function(sigs[i])),
    decreases sigs.len(),
{
    let p = sigs.drop_last();
    let last = if call_type_label(sigs.last().call_type) is Some { rpc_function(sigs.last()) } else { Seq::empty() };
    if i == sigs.len() - 1 {
        crate::text::lemma_contains_between(rpc_functions(p), rpc_function(sigs[i]), Seq::empty());
        assert(rpc_functions(p) + rpc_function(sigs[i]) + Seq::<char>::empty() =~= rpc_functions(sigs));
    } else {
        lemma_rpc_functions_hold(p, i);
        assert(p[i] == sigs[i]);
        crate::text::lemma_contains_in_part(Seq::empty(), rpc_functions(p), last, rpc_function(sigs[i]));
        assert(Seq::<char>::empty() + rpc_functions(p) + last =~= rpc_functions(sigs));
    }
}

/// Every signature whose call type is `local`, `remote` or `http` gets a generated
/// function named `{name}_{call type}_rpc` in the module, whose log line names the
/// call type (`Local`, `Remote` or `HTTP`).
pub proof fn lemma_each_call_type_gets_function(sigs: Seq<crate::signatures::SigModel>, i: int)
    requires
        0 <= i < sigs.len(),
        sigs[i].call_type == "local"@ || sigs[i].call_type == "remote"@ || sigs[i].call_type == "http"@,
    ensures
        ({
            let m = async_module(sigs);
            let ct = sigs[i].call_type;
            let label = if ct == "local"@ { "Local"@ } else if ct == "remote"@ { "Remote"@ } else { "HTTP"@ };
            &&& crate::text::contains(m, "] pub async fn "@ + (sigs[i].name + "_"@ + ct + "_rpc"@) + "("@)
            &&& crate::text::contains(m, " { println!(\""@ + label + " function called: {}\", stringify!("@)
        }),
{
    let sig = sigs[i];
    assert(call_type_label(sig.call_type) is Some);
    assert(any_rpc(sigs));
    lemma_rpc_function_parts(sig);
    lemma_rpc_functions_hold(sigs, i);
    let fs = rpc_functions(sigs);
    let pre = "/// This module contains generated async RPC functions based on WIT signature records.\n/// These functions can be used to communicate with other processes in the Hyperware system.\npub mod hyperware_async { "@;
    crate::text::lemma_contains_in_part(pre, fs, " }"@, rpc_function(sig));
    assert(async_module(sigs) == pre + fs + " }"@);
    crate::text::lemma_contains_trans(async_module(sigs), rpc_function(sig), "] pub async fn "@ + rpc_fn_name(sig) + "("@);
    crate::text::lemma_contains_trans(
        async_module(sigs),
        rpc_function(sig),
        " { println!(\""@ + call_type_label(sig.call_type)->0 + " function called: {}\", stringify!("@,
    );
}

/// The module says that no functions were found exactly when no signature has
/// call type `local`, `remote` or `http`.
pub proof fn lemma_empty_module_only_without_functions(sigs: Seq<crate::signatures::SigModel>)
    requires
        forall|i: int| 0 <= i < sigs.len() ==> !(#[trigger] sigs[i].call_type == "local"@ || sigs[i].call_type == "remote"@
            || sigs[i].call_type == "http"@),
    ensures
        async_module(sigs) == "/// This module contains generated async RPC functions.\n/// No functions were found in the WIT files.\npub mod hyperware_async { #[allow(dead_code)] fn no_functions_found() { println!(\"No async functions were generated. Check your WIT files for signature records.\") } }"@,
{
    assert(!any_rpc(sigs)) by {
        if any_rpc(sigs) {
            let i = choose|i: int| 0 <= i < sigs.len() && #[trigger] call_type_label(sigs[i].call_type) is Some;
            assert(!(sigs[i].call_type == "local"@ || sigs[i].call_type == "remote"@ || sigs[i].call_type == "http"@));
        }
    }
}

/// Writes the text as the contents of a string literal.
fn write_escaped(out: &mut String, s: &str)
    ensures
        final(out)@ == old(out)@ + escaped(s@),
{
    let v = chars_of(s);
    let ghost start = out@;
    let mut i: usize = 0;
    while i < v.len()
        invariant
            i <= v@.len(),
            v@ == s@,
            out@ == start + escaped(v@.take(i as int)),
        decreases v@.len() - i,
    {
        let c = v[i];
        if c == '\\' {
            crate::text::push_char(out, '\\');
            crate::text::push_char(out, '\\');
        } else if c == '"' {
            crate::text::push_char(out, '\\');
            crate::text::push_char(out, '"');
        } else {
            crate::text::push_char(out, c);
        }
        proof {
            let t = v@.take(i + 1);
            assert(t.drop_last() =~= v@.take(i as int));
            assert(t.last() == c);
            assert(out@ =~= start + escaped(t));
        }
        i = i + 1;
    }
    assert(v@.take(v@.len() as int) =~= v@);
}

/// Writes a type as it stands in a generated signature.
fn write_type_tokens(out: &mut String, t: &str)
    ensures
        final(out)@ == old(out)@ + type_tokens(t@),
{
    if is_type_path(t) {
        push_str(out, t);
    } else {
        proof {
            reveal_strlit("::");
        }
        let pieces = split_exec(&chars_of(t), &chars_of("::"));
        let ghost ps = seqs_of(pieces@);
        let ghost start = out@;
        let mut i: usize = 0;
        while i < pieces.len()
            invariant
                i <= pieces@.len(),
                ps == seqs_of(pieces@),
                out@ == start + join(ps.take(i as int), "_"@),
            decreases pieces@.len() - i,
        {
            if i > 0 {
                push_str(out, "_");
            }
            crate::text::push_chars(out, &pieces[i]);
            proof {
                let q = ps.take(i + 1);
                assert(q.drop_last() =~= ps.take(i as int));
                assert(q.last() == pieces@[i as int]@);
                if i == 0 {
                    assert(join(q, "_"@) == q[0]);
                }
                assert(out@ =~= start + join(q, "_"@));
            }
            i = i + 1;
        }
        assert(ps.take(pieces@.len() as int) =~= ps);
    }
}

/// Writes the generated function for a signature whose call type has a label.
#[verifier::spinoff_prover]
fn write_rpc_function(out: &mut String, sig: &crate::signatures::FunctionSignature, label: &str)
    requires
        call_type_label(sig@.call_type) == Some(label@),
    ensures
        final(out)@ == old(out)@ + rpc_function(sig@),
{
    let mut doc = String::new();
    push_str(&mut doc, "\"");
    let mut doc_text = String::new();
    push_str(&mut doc_text, "Async RPC function for ");
    push_str(&mut doc_text, sig.original_name.as_str());
    push_str(&mut doc_text, "-");
    push_str(&mut doc_text, sig.call_type.as_str());
    write_escaped(&mut doc, doc_text.as_str());
    push_str(&mut doc, "\"");
    let mut fn_name = String::new();
    push_str(&mut fn_name, sig.name.as_str());
    push_str(&mut fn_name, "_");
    push_str(&mut fn_name, sig.call_type.as_str());
    push_str(&mut fn_name, "_rpc");
    let mut params = String::new();
    push_str(&mut params, "target: ");
    if sig.is_http {
        push_str(&mut params, "String");
    } else {
        push_str(&mut params, "hyperware_process_lib::Address");
    }
    let ghost sv = sig@;
    let ghost items = rpc_params(sv);
    proof {
        assert(items.take(1) =~= seq![items[0]]);
        assert(join(items.take(1), ", "@) == items[0]);
    }
    let mut k: usize = 0;
    while k < sig.params.len()
        invariant
            k <= sig.params@.len(),
            sv == sig@,
            items == rpc_params(sv),
            items.len() == sig.params@.len() + 1,
            params@ == join(items.take(k + 1), ", "@),
        decreases sig.params@.len() - k,
    {
        push_str(&mut params, ", ");
        push_str(&mut params, sig.params[k].0.as_str());
        push_str(&mut params, ": ");
        write_type_tokens(&mut params, sig.params[k].1.as_str());
        proof {
            let q = items.take(k + 2);
            assert(q.drop_last() =~= items.take(k + 1));
            assert(sv.params[k as int] == (sig.params@[k as int].0@, sig.params@[k as int].1@));
            assert(q.last() == items[k + 1]);
            assert(params@ =~= join(q, ", "@));
        }
        k = k + 1;
    }
    assert(items.take(sig.params@.len() + 1int) =~= items);
    let mut ret = String::new();
    write_type_tokens(&mut ret, sig.return_type.as_str());
    let default_value = generate_default_value(sig.return_type.as_str());
    let mut name_literal = String::new();
    push_str(&mut name_literal, "\"");
    write_escaped(&mut name_literal, sig.name.as_str());
    push_str(&mut name_literal, "\"");
    write_rpc_fn_text(
        out,
        doc.as_str(),
        fn_name.as_str(),
        params.as_str(),
        ret.as_str(),
        label,
        name_literal.as_str(),
        default_value.as_str(),
    );
}

/// The module of async RPC functions for the signatures found in WIT files: one
/// function `{name}_{call type}_rpc` per signature whose call type is `local`,
/// `remote` or `http`, taking the target (a `String` for HTTP, else an address) and
/// the parameters, and returning a placeholder of the return type.
///
/// A type that does not parse as a type path is meant to be written as an
/// identifier (every `::` replaced by `_`). That text is produced for any such type,
/// also where it is no Rust identifier (as for `()` or `(i64, bool)`, which then
/// stand in the generated code as written): whether it is one, by Unicode's rules
/// for identifiers, is neither checked nor stated here.
#[verifier::spinoff_prover]
pub fn generate_async_functions(signatures: &Vec<crate::signatures::FunctionSignature>) -> (r: String)
    ensures
        r@ == async_module(crate::signatures::sigs_view(signatures@)),
{
    let ghost sv = crate::signatures::sigs_view(signatures@);
    let mut functions = String::new();
    let mut found = false;
    let mut i: usize = 0;
    assert(sv.take(0) =~= Seq::<crate::signatures::SigModel>::empty());
    while i < signatures.len()
        invariant
            i <= signatures@.len(),
            sv == crate::signatures::sigs_view(signatures@),
            functions@ == rpc_functions(sv.take(i as int)),
            found == any_rpc(sv.take(i as int)),
        decreases signatures@.len() - i,
    {
        let sig = &signatures[i];
        let ct = chars_of(sig.call_type.as_str());
        let label = if chars_eq_str(&ct, "local") {
            Some("Local")
        } else if chars_eq_str(&ct, "remote") {
            Some("Remote")
        } else if chars_eq_str(&ct, "http") {
            Some("HTTP")
        } else {
            None
        };
        proof {
            let t = sv.take(i + 1);
            assert(t.drop_last() =~= sv.take(i as int));
            assert(t.last() == sig@);
            assert forall|j: int| 0 <= j < i implies t[j] == sv.take(i as int)[j] by {}
        }
        match label {
            Some(l) => {
                write_rpc_function(&mut functions, sig, l);
                found = true;
                proof {
                    let t = sv.take(i + 1);
                    assert(call_type_label(t[i as int].call_type) is Some);
                }
            },
            None => {
                proof {
                    let t = sv.take(i + 1);
                    assert(functions@ =~= rpc_functions(t));
                    if found {
                        let j = choose|j: int| 0 <= j < i && #[trigger] call_type_label(sv.take(i as int)[j].call_type) is Some;
                        assert(t[j] == sv.take(i as int)[j]);
                    }
                    if any_rpc(t) {
                        let j = choose|j: int| 0 <= j < t.len() && #[trigger] call_type_label(t[j].call_type) is Some;
                        assert(j < i);
                        assert(sv.take(i as int)[j] == t[j]);
                    }
                }
            },
        }
        i = i + 1;
    }
    assert(sv.take(signatures@.len() as int) =~= sv);
    let mut out = String::new();
    if found {
        write_rpc_module_text(&mut out, functions.as_str());
    } else {
        write_rpc_empty_module_text(&mut out);
    }
    out
}

/// The example argument written for a parameter in the usage hint.
pub open spec fn example_value(name: Seq<char>, typ: Seq<char>) -> Seq<char> {
    if typ == "String"@ {
        "\"example "@ + name + "\""@
    } else if typ == "i32"@ || typ == "u32"@ || typ == "i64"@ || typ == "u64"@ {
        "42"@
    } else if typ == "f32"@ || typ == "f64"@ {
        "3.14"@
    } else if typ == "bool"@ {
        "true"@
    } else if starts_with(typ, "Vec<"@) {
        "vec![]"@
    } else if starts_with(typ, "Option<"@) {
        "None"@
    } else {
        "Default::default()"@
    }
}

/// The example argument written for a parameter in the usage hint.
pub fn example_value_for(name: &str, typ: &str) -> (r: String)
    ensures
        r@ == example_value(name@, typ@),
{
    let t = chars_of(typ);
    let mut out: Vec<char> = Vec::new();
    if chars_eq_str(&t, "String") {
        extend_chars(&mut out, "\"example ");
        extend_chars(&mut out, name);
        extend_chars(&mut out, "\"");
    } else if chars_eq_str(&t, "i32") || chars_eq_str(&t, "u32") || chars_eq_str(&t, "i64") || chars_eq_str(&t, "u64") {
        extend_chars(&mut out, "42");
    } else if chars_eq_str(&t, "f32") || chars_eq_str(&t, "f64") {
        extend_chars(&mut out, "3.14");
    } else if chars_eq_str(&t, "bool") {
        extend_chars(&mut out, "true");
    } else if starts_with_exec(&t, &chars_of("Vec<")) {
        extend_chars(&mut out, "vec![]");
    } else if starts_with_exec(&t, &chars_of("Option<")) {
        extend_chars(&mut out, "None");
    } else {
        extend_chars(&mut out, "Default::default()");
    }
    string_of(&out)
}

/// The listing line for a generated function: its name, parameters and return type.
pub open spec fn function_line_text(sig: crate::signatures::SigModel, call_type: Seq<char>) -> Seq<char> {
    "hyper_bindgen:     "@ + sig.name + "_"@ + call_type + "_rpc("@ + join(
        sig.params.map_values(|p: (Seq<char>, Seq<char>)| p.0 + ": "@ + p.1),
        ", "@,
    ) + ") -> "@ + sig.return_type
}

/// The listing line for the generated function of `sig`, listed under `call_type`.
pub fn function_line(sig: &crate::signatures::FunctionSignature, call_type: &str) -> (r: String)
    ensures
        r@ == function_line_text(sig@, call_type@),
{
    let ghost sv = sig@;
    let ghost items = sv.params.map_values(|p: (Seq<char>, Seq<char>)| p.0 + ": "@ + p.1);
    let mut out = String::new();
    push_str(&mut out, "hyper_bindgen:     ");
    push_str(&mut out, sig.name.as_str());
    push_str(&mut out, "_");
    push_str(&mut out, call_type);
    push_str(&mut out, "_rpc(");
    let ghost start = out@;
    let mut k: usize = 0;
    while k < sig.params.len()
        invariant
            k <= sig.params@.len(),
            sv == sig@,
            items == sv.params.map_values(|p: (Seq<char>, Seq<char>)| p.0 + ": "@ + p.1),
            out@ == start + join(items.take(k as int), ", "@),
        decreases sig.params@.len() - k,
    {
        if k > 0 {
            push_str(&mut out, ", ");
        }
        push_str(&mut out, sig.params[k].0.as_str());
        push_str(&mut out, ": ");
        push_str(&mut out, sig.params[k].1.as_str());
        proof {
            let q = items.take(k + 1);
            assert(q.drop_last() =~= items.take(k as int));
            assert(sv.params[k as int] == (sig.params@[k as int].0@, sig.params@[k as int].1@));
            assert(q.last() == items[k as int]);
            if k == 0 {
                assert(join(q, ", "@) == q[0]);
            }
            assert(out@ =~= start + join(q, ", "@));
        }
        k = k + 1;
    }
    assert(items.take(sig.params@.len() as int) =~= items);
    push_str(&mut out, ") -> ");
    push_str(&mut out, sig.return_type.as_str());
    out
}

/// The lines of the usage example for a signature: an async function calling its
/// generated function with an example target and example arguments.
pub open spec fn usage_text(sig: crate::signatures::SigModel) -> Seq<Seq<char>> {
    let addr = if sig.is_http {
        "\"http://example.com\""@
    } else {
        "Address::new(\"node\", \"process\", \"package\", \"publisher\")"@
    };
    let args = seq![addr] + sig.params.map_values(|p: (Seq<char>, Seq<char>)| example_value(p.0, p.1));
    seq![
        "hyper_bindgen: async fn my_function() {"@,
        "hyper_bindgen:     let result = "@ + sig.name + "_"@ + sig.call_type + "_rpc("@ + join(args, ", "@) + ").await;"@,
        "hyper_bindgen:     println!(\"Result: {:?}\", result);"@,
        "hyper_bindgen: }"@,
    ]
}

/// The lines of the usage example for a signature.
#[verifier::spinoff_prover]
pub fn usage_lines(sig: &crate::signatures::FunctionSignature) -> (r: Vec<String>)
    ensures
        r@.map_values(|x: String| x@) == usage_text(sig@),
{
    let ghost sv = sig@;
    let ghost addr = if sv.is_http {
        "\"http://example.com\""@
    } else {
        "Address::new(\"node\", \"process\", \"package\", \"publisher\")"@
    };
    let ghost args = seq![addr] + sv.params.map_values(|p: (Seq<char>, Seq<char>)| example_value(p.0, p.1));
    let mut call = String::new();
    push_str(&mut call, "hyper_bindgen:     let result = ");
    push_str(&mut call, sig.name.as_str());
    push_str(&mut call, "_");
    push_str(&mut call, sig.call_type.as_str());
    push_str(&mut call, "_rpc(");
    let ghost start = call@;
    if sig.is_http {
        push_str(&mut call, "\"http://example.com\"");
    } else {
        push_str(&mut call, "Address::new(\"node\", \"process\", \"package\", \"publisher\")");
    }
    proof {
        assert(args.take(1) =~= seq![addr]);
        assert(join(args.take(1), ", "@) == addr);
    }
    let mut k: usize = 0;
    while k < sig.params.len()
        invariant
            k <= sig.params@.len(),
            sv == sig@,
            args == seq![addr] + sv.params.map_values(|p: (Seq<char>, Seq<char>)| example_value(p.0, p.1)),
            args.len() == sig.params@.len() + 1,
            call@ == start + join(args.take(k + 1), ", "@),
        decreases sig.params@.len() - k,
    {
        push_str(&mut call, ", ");
        let value = example_value_for(sig.params[k].0.as_str(), sig.params[k].1.as_str());
        push_str(&mut call, value.as_str());
        proof {
            let q = args.take(k + 2);
            assert(q.drop_last() =~= args.take(k + 1));
            assert(sv.params[k as int] == (sig.params@[k as int].0@, sig.params@[k as int].1@));
            assert(q.last() == args[k + 1]);
            assert(call@ =~= start + join(q, ", "@));
        }
        k = k + 1;
    }
    assert(args.take(sig.params@.len() + 1int) =~= args);
    push_str(&mut call, ").await;");
    let mut r: Vec<String> = Vec::new();
    r.push(string_of(&chars_of("hyper_bindgen: async fn my_function() {")));
    r.push(call);
    r.push(string_of(&chars_of("hyper_bindgen:     println!(\"Result: {:?}\", result);")));
    r.push(string_of(&chars_of("hyper_bindgen: }")));
    assert(r@.map_values(|x: String| x@) =~= usage_text(sv));
    r
}

} // verus!
