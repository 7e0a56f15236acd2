//! Reading the RPC function signatures out of a WIT interface file: signature
//! records (`record {name}-signature-{call type} { ... }`) and function
//! declarations (`name: func(params) -> result;`, preceded by a call type comment).
use vstd::prelude::*;
use crate::bindgen::{record_name_parts, wit_rust, wit_rust_chars};
use crate::case::kebab_snake;
use crate::text::{
    chars_eq_str, chars_of, contains, contains_exec, ends_with, ends_with_exec, find, find_exec,
    lines, lines_exec, replace_char_exec, seqs_of, slice_chars, split, split_exec, starts_with,
    starts_with_exec, string_of, trim, trim_chars, trim_end_matches, trim_end_matches_exec,
    trim_start_matches, trim_start_matches_exec,
};

verus! {

/// A function signature found in an interface file.
pub struct FunctionSignature {
    /// Function name in snake_case.
    pub name: String,
    /// Function name as written (kebab-case).
    pub original_name: String,
    /// `local`, `remote` or `http` (or whatever the record name says).
    pub call_type: String,
    /// Whether the call type is `http`.
    pub is_http: bool,
    /// Parameters (name, Rust type), without the `target` parameter.
    pub params: Vec<(String, String)>,
    /// Rust return type.
    pub return_type: String,
}

/// Abstract form of a function signature.
pub struct SigModel {
    pub name: Seq<char>,
    pub original_name: Seq<char>,
    pub call_type: Seq<char>,
    pub is_http: bool,
    pub params: Seq<(Seq<char>, Seq<char>)>,
    pub return_type: Seq<char>,
}

/// Abstract form of a parameter list.
pub open spec fn params_view(p: Seq<(String, String)>) -> Seq<(Seq<char>, Seq<char>)> {
    p.map_values(|x: (String, String)| (x.0@, x.1@))
}

impl View for FunctionSignature {
    type V = SigModel;

    open spec fn view(&self) -> SigModel {
        SigModel {
            name: self.name@,
            original_name: self.original_name@,
            call_type: self.call_type@,
            is_http: self.is_http,
            params: params_view(self.params@),
            return_type: self.return_type@,
        }
    }
}

/// Abstract form of a list of signatures.
pub open spec fn sigs_view(s: Seq<FunctionSignature>) -> Seq<SigModel> {
    s.map_values(|x: FunctionSignature| x@)
}

/// The scanner's state between lines.
pub struct ScanModel {
    pub sigs: Seq<SigModel>,
    pub call_type: Option<Seq<char>>,
    pub record: Option<SigModel>,
    pub in_record: bool,
}

/// The signature that a record header line starts, if its name is a signature record name.
pub open spec fn record_header(t: Seq<char>) -> Option<SigModel> {
    let rn0 = trim(trim_start_matches(t, "record "@));
    let rn = if ends_with(rn0, " {"@) {
        trim_end_matches(rn0, " {"@)
    } else if ends_with(rn0, "{"@) {
        trim_end_matches(rn0, "{"@)
    } else {
        rn0
    };
    match record_name_parts(rn) {
        Some((f, c)) => Some(
            SigModel {
                name: kebab_snake(f),
                original_name: f,
                call_type: c,
                is_http: c == "http"@,
                params: Seq::empty(),
                return_type: "()"@,
            },
        ),
        None => None,
    }
}

/// A record field line `name: type[,]` applied to the record being read.
pub open spec fn field_update(st: ScanModel, t: Seq<char>, iface: Seq<char>) -> ScanModel {
    let parts = split(t, ":"@);
    if parts.len() == 2 {
        let fname = trim(parts[0]);
        let ft0 = trim(parts[1]);
        let ft = if ends_with(ft0, ","@) {
            ft0.drop_last()
        } else {
            ft0
        };
        match st.record {
            Some(r) => {
                if fname == "returning"@ {
                    ScanModel { record: Some(SigModel { return_type: wit_rust(ft, iface), ..r }), ..st }
                } else if fname != "target"@ {
                    ScanModel {
                        record: Some(SigModel { params: r.params.push((kebab_snake(fname), wit_rust(ft, iface))), ..r }),
                        ..st
                    }
                } else {
                    st
                }
            },
            None => st,
        }
    } else {
        st
    }
}

/// The parameters written in a function declaration's parameter list pieces.
pub open spec fn func_params(pieces: Seq<Seq<char>>, iface: Seq<char>) -> Seq<(Seq<char>, Seq<char>)>
    decreases pieces.len(),
{
    if pieces.len() == 0 {
        Seq::empty()
    } else {
        let rest = func_params(pieces.drop_last(), iface);
        let p = trim(pieces.last());
        if p.len() == 0 {
            rest
        } else {
            match find(p, ":"@) {
                Some(cp) => {
                    let name = trim(p.take(cp));
                    let typ = trim(p.skip(cp + 1));
                    if name == "target"@ {
                        rest
                    } else {
                        rest.push((kebab_snake(name), wit_rust(typ, iface)))
                    }
                },
                None => rest,
            }
        }
    }
}

/// The Rust return type of a function declaration line.
pub open spec fn func_return(t: Seq<char>, iface: Seq<char>) -> Seq<char> {
    match find(t, "->"@) {
        Some(rs) => {
            let rp = trim(t.skip(rs + 2));
            if starts_with(rp, "result<"@) && contains(rp, ","@) {
                let sts = match find(rp, "<"@) {
                    Some(i) => i + 1,
                    None => 0,
                };
                let ste = match find(rp, ","@) {
                    Some(i) => i,
                    None => rp.len() as int,
                };
                if sts > 0 && ste > sts {
                    wit_rust(trim(rp.subrange(sts, ste)), iface)
                } else {
                    "()"@
                }
            } else {
                wit_rust(trim_end_matches(rp, ";"@), iface)
            }
        },
        None => "()"@,
    }
}

/// The parameters of a function declaration line.
pub open spec fn func_line_params(t: Seq<char>, iface: Seq<char>) -> Seq<(Seq<char>, Seq<char>)> {
    match find(t, "("@) {
        Some(ps) => match find(t, ")"@) {
            Some(pe) => func_params(split(t.subrange(ps + 1, pe), ","@), iface),
            None => Seq::empty(),
        },
        None => Seq::empty(),
    }
}

/// The signature declared by a function declaration line.
pub open spec fn func_signature(t: Seq<char>, call_type: Option<Seq<char>>, iface: Seq<char>) -> SigModel {
    let fn_name = trim(t.take(find(t, ": func("@)->0));
    let ct = match call_type {
        Some(c) => c,
        None => "local"@,
    };
    SigModel {
        name: kebab_snake(fn_name),
        original_name: fn_name,
        call_type: ct,
        is_http: ct == "http"@,
        params: func_line_params(t, iface),
        return_type: func_return(t, iface),
    }
}

/// Whether a trimmed line is a function declaration.
pub open spec fn is_func_line(t: Seq<char>) -> bool {
    contains(t, ": func("@) && contains(t, "->"@) && ends_with(t, ";"@)
}

/// A function declaration line whose first `)` comes before its first `(`
/// cannot be read: its parameter list would be sliced backwards.
pub open spec fn func_line_ok(t: Seq<char>) -> bool {
    !is_func_line(t) || !(find(t, "("@) is Some && find(t, ")"@) is Some && find(t, ")"@)->0
        < find(t, "("@)->0)
}

/// Every line of an interface file can be read.
pub open spec fn interface_lines_ok(content: Seq<char>) -> bool {
    forall|i: int| 0 <= i < lines(content).len() ==> func_line_ok(#[trigger] trim(lines(content)[i]))
}

/// One line of the scan (trimmed line `t`).
pub open spec fn scan_step(st: ScanModel, t: Seq<char>, iface: Seq<char>) -> ScanModel {
    let st1 = if starts_with(t, "record "@) && contains(t, "-signature-"@) {
        match record_header(t) {
            Some(sig) => ScanModel { record: Some(sig), in_record: true, ..st },
            None => st,
        }
    } else if st.in_record && t == "}"@ {
        match st.record {
            Some(r) => ScanModel { sigs: st.sigs.push(r), record: None, in_record: false, ..st },
            None => ScanModel { in_record: false, ..st },
        }
    } else if st.in_record && contains(t, ":"@) {
        field_update(st, t, iface)
    } else {
        st
    };
    let st2 = if starts_with(t, "//"@) {
        let c = trim(trim_start_matches(t, "//"@));
        if c == "local"@ || c == "remote"@ || c == "http"@ {
            ScanModel { call_type: Some(c), ..st1 }
        } else {
            st1
        }
    } else {
        st1
    };
    if is_func_line(t) {
        ScanModel { sigs: st2.sigs.push(func_signature(t, st2.call_type, iface)), ..st2 }
    } else {
        st2
    }
}

/// The scan state after the given lines.
pub open spec fn scan_lines(ls: Seq<Seq<char>>, iface: Seq<char>) -> ScanModel
    decreases ls.len(),
{
    if ls.len() == 0 {
        ScanModel { sigs: Seq::empty(), call_type: None, record: None, in_record: false }
    } else {
        scan_step(scan_lines(ls.drop_last(), iface), trim(ls.last()), iface)
    }
}

/// The signatures of an interface file, in the order they are found.
pub open spec fn interface_signatures(content: Seq<char>, iface: Seq<char>) -> Seq<SigModel> {
    scan_lines(lines(content), iface).sigs
}


/// Whether a trimmed line is a call-type comment: `//` then `local`, `remote` or `http`.
pub open spec fn is_call_type_comment(t: Seq<char>) -> bool {
    starts_with(t, "//"@) && (trim(trim_start_matches(t, "//"@)) == "local"@ || trim(trim_start_matches(t, "//"@))
        == "remote"@ || trim(trim_start_matches(t, "//"@)) == "http"@)
}

/// Whether a trimmed line opens a signature record.
pub open spec fn is_signature_record_line(t: Seq<char>) -> bool {
    starts_with(t, "record "@) && contains(t, "-signature-"@)
}

/// Without call-type comments and signature records, every signature found comes
/// from a function declaration and has call type `local`, not HTTP; no call type is
/// pending and no record is open.
pub proof fn lemma_uncommented_functions_are_local(ls: Seq<Seq<char>>, iface: Seq<char>)
    requires
        forall|i: int| 0 <= i < ls.len() ==> !is_call_type_comment(#[trigger] trim(ls[i])),
        forall|i: int| 0 <= i < ls.len() ==> !is_signature_record_line(#[trigger] trim(ls[i])),
    ensures
        ({
            let st = scan_lines(ls, iface);
            &&& st.call_type is None
            &&& st.record is None
            &&& !st.in_record
            &&& forall|k: int| 0 <= k < st.sigs.len() ==> (#[trigger] st.sigs[k]).call_type == "local"@ && !st.sigs[k].is_http
        }),
    decreases ls.len(),
{
    if ls.len() > 0 {
        let p = ls.drop_last();
        assert forall|i: int| 0 <= i < p.len() implies !is_call_type_comment(#[trigger] trim(p[i])) by {
            assert(p[i] == ls[i]);
        }
        assert forall|i: int| 0 <= i < p.len() implies !is_signature_record_line(#[trigger] trim(p[i])) by {
            assert(p[i] == ls[i]);
        }
        lemma_uncommented_functions_are_local(p, iface);
        let t = trim(ls.last());
        assert(t == trim(ls[ls.len() - 1]));
        let prev = scan_lines(p, iface);
        let st = scan_lines(ls, iface);
        assert(p =~= ls.drop_last());
        assert(st == scan_step(prev, t, iface));
        reveal_strlit("local");
        reveal_strlit("http");
        assert("local"@ != "http"@) by {
            assert("local"@.len() != "http"@.len());
        }
        assert(!is_signature_record_line(t));
        assert(!is_call_type_comment(t));
        if is_func_line(t) {
            assert(func_signature(t, None, iface).call_type == "local"@);
            assert(st.sigs == prev.sigs.push(func_signature(t, None, iface)));
        } else {
            assert(st.sigs == prev.sigs);
        }
    }
}

/// A function declaration of an interface file that no call-type comment precedes
/// (in a file with no call-type comments and no signature records) has call type
/// `local` and is not HTTP.
pub proof fn lemma_interface_functions_default_local(content: Seq<char>, iface: Seq<char>)
    requires
        forall|i: int| 0 <= i < lines(content).len() ==> !is_call_type_comment(#[trigger] trim(lines(content)[i])),
        forall|i: int| 0 <= i < lines(content).len() ==> !is_signature_record_line(#[trigger] trim(lines(content)[i])),
    ensures
        forall|k: int| 0 <= k < interface_signatures(content, iface).len() ==> (#[trigger] interface_signatures(content, iface)[k]).call_type
            == "local"@ && !interface_signatures(content, iface)[k].is_http,
{
    lemma_uncommented_functions_are_local(lines(content), iface);
}

/// The scanner's state between lines.
struct Scan {
    sigs: Vec<FunctionSignature>,
    call_type: Option<Vec<char>>,
    record: Option<FunctionSignature>,
    in_record: bool,
}

spec fn opt_chars(o: Option<Vec<char>>) -> Option<Seq<char>> {
    match o {
        Some(v) => Some(v@),
        None => None,
    }
}

spec fn opt_sig(o: Option<FunctionSignature>) -> Option<SigModel> {
    match o {
        Some(v) => Some(v@),
        None => None,
    }
}

spec fn scan_view(sc: Scan) -> ScanModel {
    ScanModel {
        sigs: sigs_view(sc.sigs@),
        call_type: opt_chars(sc.call_type),
        record: opt_sig(sc.record),
        in_record: sc.in_record,
    }
}

proof fn lemma_literal_lengths()
    ensures
        "record "@.len() == 7,
        " {"@ =~= seq![' ', '{'],
        "{"@ =~= seq!['{'],
        ":"@ =~= seq![':'],
        ","@ =~= seq![','],
        "->"@ =~= seq!['-', '>'],
        "("@ =~= seq!['('],
        ")"@ =~= seq![')'],
        "<"@ =~= seq!['<'],
        "//"@.len() == 2,
{
    reveal_strlit("record ");
    reveal_strlit(" {");
    reveal_strlit("{");
    reveal_strlit(":");
    reveal_strlit(",");
    reveal_strlit("->");
    reveal_strlit("(");
    reveal_strlit(")");
    reveal_strlit("<");
    reveal_strlit("//");
}

fn record_header_exec(t: &Vec<char>) -> (r: Option<FunctionSignature>)
    ensures
        opt_sig(r) == record_header(t@),
{
    let a = trim_start_matches_exec(t, &chars_of("record "));
    let rn0 = trim_chars(&a);
    let sp_brace = chars_of(" {");
    let brace = chars_of("{");
    let rn = if ends_with_exec(&rn0, &sp_brace) {
        trim_end_matches_exec(&rn0, &sp_brace)
    } else if ends_with_exec(&rn0, &brace) {
        trim_end_matches_exec(&rn0, &brace)
    } else {
        rn0
    };
    let pat = chars_of("-signature-");
    proof {
        reveal_strlit("-signature-");
    }
    if contains_exec(&rn, &pat) {
        let parts = split_exec(&rn, &pat);
        if parts.len() == 2 {
            let f = slice_chars(&parts[0], 0, parts[0].len());
            let c = slice_chars(&parts[1], 0, parts[1].len());
            assert(f@ =~= seqs_of(parts@)[0]);
            assert(c@ =~= seqs_of(parts@)[1]);
            let is_http = chars_eq_str(&c, "http");
            let sig = FunctionSignature {
                name: string_of(&replace_char_exec(&f, '-', '_')),
                original_name: string_of(&f),
                call_type: string_of(&c),
                is_http,
                params: Vec::new(),
                return_type: string_of(&chars_of("()")),
            };
            assert(params_view(sig.params@) =~= Seq::<(Seq<char>, Seq<char>)>::empty());
            return Some(sig);
        }
    }
    None
}

fn field_update_exec(sc: &mut Scan, t: &Vec<char>, iface: &Vec<char>)
    ensures
        scan_view(*final(sc)) == field_update(scan_view(*old(sc)), t@, iface@),
{
    proof {
        lemma_literal_lengths();
    }
    let parts = split_exec(t, &chars_of(":"));
    if parts.len() == 2 {
        let fname = trim_chars(&parts[0]);
        let ft0 = trim_chars(&parts[1]);
        assert(fname@ == trim(seqs_of(parts@)[0]));
        assert(ft0@ == trim(seqs_of(parts@)[1]));
        let ft = if ends_with_exec(&ft0, &chars_of(",")) {
            slice_chars(&ft0, 0, ft0.len() - 1)
        } else {
            ft0
        };
        assert(ft@ == (if ends_with(ft0@, ","@) { ft0@.drop_last() } else { ft0@ }));
        match sc.record.take() {
            Some(mut r) => {
                if chars_eq_str(&fname, "returning") {
                    r.return_type = string_of(&wit_rust_chars(&ft, iface));
                } else if !chars_eq_str(&fname, "target") {
                    let pn = string_of(&replace_char_exec(&fname, '-', '_'));
                    let pt = string_of(&wit_rust_chars(&ft, iface));
                    let ghost old_params = r.params@;
                    r.params.push((pn, pt));
                    assert(params_view(r.params@) =~= params_view(old_params).push((pn@, pt@)));
                }
                sc.record = Some(r);
            },
            None => {},
        }
    }
}

fn func_params_exec(pieces: &Vec<Vec<char>>, iface: &Vec<char>) -> (r: Vec<(String, String)>)
    ensures
        params_view(r@) == func_params(seqs_of(pieces@), iface@),
{
    proof {
        lemma_literal_lengths();
    }
    let colon = chars_of(":");
    let mut out: Vec<(String, String)> = Vec::new();
    let mut i: usize = 0;
    while i < pieces.len()
        invariant
            i <= pieces@.len(),
            colon@ == ":"@,
            ":"@ =~= seq![':'],
            params_view(out@) == func_params(seqs_of(pieces@).take(i as int), iface@),
        decreases pieces@.len() - i,
    {
        let ghost tk = seqs_of(pieces@).take(i + 1);
        assert(tk.drop_last() =~= seqs_of(pieces@).take(i as int));
        assert(tk.last() == pieces@[i as int]@);
        let p = trim_chars(&pieces[i]);
        if p.len() > 0 {
            match find_exec(&p, &colon) {
                Some(cp) => {
                    proof {
                        crate::text::lemma_find_from_some_pub(p@, colon@, 0);
                    }
                    let n0 = slice_chars(&p, 0, cp);
                    let name = trim_chars(&n0);
                    let t0 = slice_chars(&p, cp + 1, p.len());
                    let typ = trim_chars(&t0);
                    assert(n0@ =~= p@.take(cp as int));
                    assert(t0@ =~= p@.skip(cp + 1));
                    if !chars_eq_str(&name, "target") {
                        let pn = string_of(&replace_char_exec(&name, '-', '_'));
                        let pt = string_of(&wit_rust_chars(&typ, iface));
                        let ghost old_out = out@;
                        out.push((pn, pt));
                        assert(params_view(out@) =~= params_view(old_out).push((pn@, pt@)));
                    }
                },
                None => {},
            }
        }
        i = i + 1;
    }
    assert(seqs_of(pieces@).take(pieces@.len() as int) =~= seqs_of(pieces@));
    out
}

fn func_return_exec(t: &Vec<char>, iface: &Vec<char>) -> (r: Vec<char>)
    ensures
        r@ == func_return(t@, iface@),
{
    proof {
        lemma_literal_lengths();
    }
    match find_exec(t, &chars_of("->")) {
        Some(rs) => {
            proof {
                crate::text::lemma_find_from_some_pub(t@, "->"@, 0);
            }
            assert(rs + 2 <= t.len());
            let rp0 = slice_chars(t, rs + 2, t.len());
            assert(rp0@ =~= t@.skip(rs + 2));
            let rp = trim_chars(&rp0);
            if starts_with_exec(&rp, &chars_of("result<")) && contains_exec(&rp, &chars_of(",")) {
                let sts: usize = match find_exec(&rp, &chars_of("<")) {
                    Some(i) => {
                        proof {
                            crate::text::lemma_find_from_some_pub(rp@, "<"@, 0);
                        }
                        assert(i + 1 <= rp.len());
                        i + 1
                    },
                    None => 0,
                };
                let ste: usize = match find_exec(&rp, &chars_of(",")) {
                    Some(i) => {
                        proof {
                            crate::text::lemma_find_from_some_pub(rp@, ","@, 0);
                        }
                        i
                    },
                    None => rp.len(),
                };
                if sts > 0 && ste > sts {
                    let piece = slice_chars(&rp, sts, ste);
                    let tr = trim_chars(&piece);
                    wit_rust_chars(&tr, iface)
                } else {
                    chars_of("()")
                }
            } else {
                let x = trim_end_matches_exec(&rp, &chars_of(";"));
                wit_rust_chars(&x, iface)
            }
        },
        None => chars_of("()"),
    }
}

fn func_line_params_exec(t: &Vec<char>, iface: &Vec<char>) -> (r: Vec<(String, String)>)
    requires
        func_line_ok(t@),
        is_func_line(t@),
    ensures
        params_view(r@) == func_line_params(t@, iface@),
{
    proof {
        lemma_literal_lengths();
    }
    match find_exec(t, &chars_of("(")) {
        Some(ps) => match find_exec(t, &chars_of(")")) {
            Some(pe) => {
                proof {
                    crate::text::lemma_find_from_some_pub(t@, "("@, 0);
                    crate::text::lemma_find_from_some_pub(t@, ")"@, 0);
                    assert(t@.subrange(ps as int, ps + 1)[0] == '(');
                    assert(t@.subrange(pe as int, pe + 1)[0] == ')');
                }
                let inner = slice_chars(t, ps + 1, pe);
                let pieces = split_exec(&inner, &chars_of(","));
                func_params_exec(&pieces, iface)
            },
            None => {
                let r: Vec<(String, String)> = Vec::new();
                assert(params_view(r@) =~= Seq::<(Seq<char>, Seq<char>)>::empty());
                r
            },
        },
        None => {
            let r: Vec<(String, String)> = Vec::new();
            assert(params_view(r@) =~= Seq::<(Seq<char>, Seq<char>)>::empty());
            r
        },
    }
}

fn func_signature_exec(t: &Vec<char>, call_type: &Option<Vec<char>>, iface: &Vec<char>) -> (r: FunctionSignature)
    requires
        func_line_ok(t@),
        is_func_line(t@),
    ensures
        r@ == func_signature(t@, opt_chars(*call_type), iface@),
{
    let fpat = chars_of(": func(");
    let name_end = match find_exec(t, &fpat) {
        Some(i) => i,
        None => {
            proof {
                crate::text::lemma_contains_find(t@, ": func("@);
            }
            0
        },
    };
    proof {
        crate::text::lemma_contains_find(t@, ": func("@);
        crate::text::lemma_find_from_some_pub(t@, ": func("@, 0);
    }
    let n0 = slice_chars(t, 0, name_end);
    assert(n0@ =~= t@.take(name_end as int));
    let fn_name = trim_chars(&n0);
    let ct = match call_type {
        Some(c) => slice_chars(c, 0, c.len()),
        None => chars_of("local"),
    };
    assert(ct@ == (match opt_chars(*call_type) { Some(c) => c, None => "local"@ }));
    let is_http = chars_eq_str(&ct, "http");
    let params = func_line_params_exec(t, iface);
    let ret = func_return_exec(t, iface);
    FunctionSignature {
        name: string_of(&replace_char_exec(&fn_name, '-', '_')),
        original_name: string_of(&fn_name),
        call_type: string_of(&ct),
        is_http,
        params,
        return_type: string_of(&ret),
    }
}

fn scan_step_exec(sc: &mut Scan, t: &Vec<char>, iface: &Vec<char>)
    requires
        func_line_ok(t@),
    ensures
        scan_view(*final(sc)) == scan_step(scan_view(*old(sc)), t@, iface@),
{
    let ghost st = scan_view(*sc);
    if starts_with_exec(t, &chars_of("record ")) && contains_exec(t, &chars_of("-signature-")) {
        match record_header_exec(t) {
            Some(sig) => {
                sc.record = Some(sig);
                sc.in_record = true;
            },
            None => {},
        }
    } else if sc.in_record && chars_eq_str(t, "}") {
        match sc.record.take() {
            Some(r) => {
                let ghost old_sigs = sc.sigs@;
                sc.sigs.push(r);
                assert(sigs_view(sc.sigs@) =~= sigs_view(old_sigs).push(r@));
            },
            None => {},
        }
        sc.in_record = false;
    } else if sc.in_record && contains_exec(t, &chars_of(":")) {
        field_update_exec(sc, t, iface);
    }
    let ghost st1 = scan_view(*sc);
    assert(st1 == (if starts_with(t@, "record "@) && contains(t@, "-signature-"@) {
        match record_header(t@) {
            Some(sig) => ScanModel { record: Some(sig), in_record: true, ..st },
            None => st,
        }
    } else if st.in_record && t@ == "}"@ {
        match st.record {
            Some(r) => ScanModel { sigs: st.sigs.push(r), record: None, in_record: false, ..st },
            None => ScanModel { in_record: false, ..st },
        }
    } else if st.in_record && contains(t@, ":"@) {
        field_update(st, t@, iface@)
    } else {
        st
    }));
    if starts_with_exec(t, &chars_of("//")) {
        let a = trim_start_matches_exec(t, &chars_of("//"));
        let c = trim_chars(&a);
        if chars_eq_str(&c, "local") || chars_eq_str(&c, "remote") || chars_eq_str(&c, "http") {
            sc.call_type = Some(c);
        }
    }
    if contains_exec(t, &chars_of(": func(")) && contains_exec(t, &chars_of("->")) && ends_with_exec(t, &chars_of(";")) {
        let sig = func_signature_exec(t, &sc.call_type, iface);
        let ghost old_sigs = sc.sigs@;
        sc.sigs.push(sig);
        assert(sigs_view(sc.sigs@) =~= sigs_view(old_sigs).push(sig@));
    }
}

/// Whether every line of an interface file can be read (see `func_line_ok`).
pub fn interface_lines_readable(content: &str) -> (b: bool)
    ensures
        b == interface_lines_ok(content@),
{
    let v = chars_of(content);
    let ls = lines_exec(&v);
    let mut i: usize = 0;
    while i < ls.len()
        invariant
            i <= ls@.len(),
            seqs_of(ls@) == lines(content@),
            forall|j: int| 0 <= j < i ==> func_line_ok(#[trigger] trim(lines(content@)[j])),
        decreases ls@.len() - i,
    {
        let t = trim_chars(&ls[i]);
        assert(t@ == trim(lines(content@)[i as int]));
        if contains_exec(&t, &chars_of(": func(")) && contains_exec(&t, &chars_of("->")) && ends_with_exec(&t, &chars_of(";")) {
            match find_exec(&t, &chars_of("(")) {
                Some(ps) => match find_exec(&t, &chars_of(")")) {
                    Some(pe) => {
                        if pe < ps {
                            return false;
                        }
                    },
                    None => {},
                },
                None => {},
            }
        }
        i = i + 1;
    }
    true
}

/// Extracts the RPC function signatures from an interface WIT file.
pub fn extract_signatures_from_interface(content: &str, interface_name: &str) -> (r: Vec<FunctionSignature>)
    requires
        interface_lines_ok(content@),
    ensures
        sigs_view(r@) == interface_signatures(content@, interface_name@),
{
    let v = chars_of(content);
    let iface = chars_of(interface_name);
    let ls = lines_exec(&v);
    let mut sc = Scan { sigs: Vec::new(), call_type: None, record: None, in_record: false };
    assert(sigs_view(sc.sigs@) =~= Seq::<SigModel>::empty());
    let mut i: usize = 0;
    while i < ls.len()
        invariant
            i <= ls@.len(),
            seqs_of(ls@) == lines(content@),
            interface_lines_ok(content@),
            scan_view(sc) == scan_lines(seqs_of(ls@).take(i as int), iface@),
        decreases ls@.len() - i,
    {
        let ghost tk = seqs_of(ls@).take(i + 1);
        assert(tk.drop_last() =~= seqs_of(ls@).take(i as int));
        assert(tk.last() == ls@[i as int]@);
        let t = trim_chars(&ls[i]);
        assert(t@ == trim(lines(content@)[i as int]));
        scan_step_exec(&mut sc, &t, &iface);
        i = i + 1;
    }
    assert(seqs_of(ls@).take(ls@.len() as int) =~= seqs_of(ls@));
    sc.sigs
}

} // verus!
