//! Rust source generated from parsed WIT: type expressions, structs for
//! records, enums for variants and enums, type aliases, and whole interfaces.
use vstd::prelude::*;
use crate::bindgen::join;
use crate::case::{camel, camel_chars};
use crate::text::{
    chars_eq,
    append_chars, chars_eq_str, chars_of, extend_chars, push_chars, replace_char,
    replace_char_exec, seqs_of, split, split_exec, starts_with, starts_with_exec, string_of, trim,
    trim_chars, trim_end_matches, trim_end_matches_exec, decimal, push_decimal,
};
use crate::wit::{
    world_item_view, world_view, World, WorldItem, WorldItemM, WorldM,
    cases_view, fields_view, interface_view, type_view, typedef_view, types_view, Interface,
    InterfaceM, RecordField, TypeDef, TypeDefM, TypeM, VariantCase, WitType,
};
use crate::wit_items::{interface_at, parse_interface, parse_interfaces, parse_wit_file, wit_file, wit_interfaces};
use crate::wit_types::{case_pair, lemma_cases_view, lemma_fields_view, lemma_types_view, names_view};

verus! {

/// The Rust type written for a WIT type.
pub open spec fn type_text(t: TypeM) -> Seq<char>
    decreases t,
{
    match t {
        TypeM::I8 => "i8"@,
        TypeM::I16 => "i16"@,
        TypeM::I32 => "i32"@,
        TypeM::I64 => "i64"@,
        TypeM::U8 => "u8"@,
        TypeM::U16 => "u16"@,
        TypeM::U32 => "u32"@,
        TypeM::U64 => "u64"@,
        TypeM::F32 => "f32"@,
        TypeM::F64 => "f64"@,
        TypeM::Char => "char"@,
        TypeM::Bool => "bool"@,
        TypeM::Str => "String"@,
        TypeM::List(b) => "Vec<"@ + type_text(*b) + ">"@,
        TypeM::Option(b) => "Option<"@ + type_text(*b) + ">"@,
        TypeM::Result(a, b) => "Result<"@ + type_text(*a) + ", "@ + type_text(*b) + ">"@,
        TypeM::Record(_) => "/* record type */"@,
        TypeM::Variant(_) => "/* variant type */"@,
        TypeM::Enum(_) => "/* enum type */"@,
        TypeM::Tuple(ts) => "("@ + join(types_text(ts), ", "@) + ")"@,
        TypeM::Named(n) => if n == "address"@ {
            "String"@
        } else {
            camel(n)
        },
    }
}

/// The Rust type written for a WIT container names its element types in the order
/// WIT gives them: `result<T, E>` is `Result<` with the ok type first and the
/// error type second; `list<T>` is `Vec<T>` and `option<T>` is `Option<T>`.
pub proof fn lemma_container_types_in_order(ok: TypeM, err: TypeM)
    ensures
        type_text(TypeM::Result(Box::new(ok), Box::new(err))) == "Result<"@ + type_text(ok) + ", "@ + type_text(err) + ">"@,
        crate::text::starts_with(type_text(TypeM::Result(Box::new(ok), Box::new(err))), "Result<"@ + type_text(ok) + ", "@),
        crate::text::ends_with(type_text(TypeM::Result(Box::new(ok), Box::new(err))), ", "@ + type_text(err) + ">"@),
        type_text(TypeM::List(Box::new(ok))) == "Vec<"@ + type_text(ok) + ">"@,
        type_text(TypeM::Option(Box::new(ok))) == "Option<"@ + type_text(ok) + ">"@,
{
    let x = type_text(ok);
    let y = type_text(err);
    assert(type_text(TypeM::Result(Box::new(ok), Box::new(err))) == "Result<"@ + x + ", "@ + y + ">"@);
    lemma_pair_text_ends(x, y);
}

/// `Result<x, y>` starts with `Result<x, ` and ends with `, y>`.
proof fn lemma_pair_text_ends(x: Seq<char>, y: Seq<char>)
    ensures
        crate::text::starts_with("Result<"@ + x + ", "@ + y + ">"@, "Result<"@ + x + ", "@),
        crate::text::ends_with("Result<"@ + x + ", "@ + y + ">"@, ", "@ + y + ">"@),
{
    let r = "Result<"@ + x + ", "@ + y + ">"@;
    crate::text::lemma_contains_between("Result<"@ + x + ", "@, y + ">"@, Seq::empty());
    assert(r =~= ("Result<"@ + x + ", "@) + (y + ">"@));
    crate::text::lemma_contains_between("Result<"@ + x, ", "@ + y + ">"@, Seq::empty());
    assert(r =~= ("Result<"@ + x) + (", "@ + y + ">"@));
}

/// The Rust types written for a list of WIT types.
pub open spec fn types_text(ts: Seq<TypeM>) -> Seq<Seq<char>>
    decreases ts,
{
    if ts.len() == 0 {
        Seq::empty()
    } else {
        types_text(ts.drop_last()).push(type_text(ts.last()))
    }
}

/// One text per type.
pub proof fn lemma_types_text_len(ts: Seq<TypeM>)
    ensures
        types_text(ts).len() == ts.len(),
    decreases ts.len(),
{
    if ts.len() > 0 {
        lemma_types_text_len(ts.drop_last());
    }
}

/// Writes the Rust form of a WIT type. Writing to a `String` cannot fail, so
/// there is no error to return.
pub fn generate_type(typ: &WitType, output: &mut String)
    ensures
        final(output)@ == old(output)@ + type_text(type_view(*typ)),
    decreases typ,
{
    match typ {
        WitType::I8 => push_str(output, "i8"),
        WitType::I16 => push_str(output, "i16"),
        WitType::I32 => push_str(output, "i32"),
        WitType::I64 => push_str(output, "i64"),
        WitType::U8 => push_str(output, "u8"),
        WitType::U16 => push_str(output, "u16"),
        WitType::U32 => push_str(output, "u32"),
        WitType::U64 => push_str(output, "u64"),
        WitType::F32 => push_str(output, "f32"),
        WitType::F64 => push_str(output, "f64"),
        WitType::Char => push_str(output, "char"),
        WitType::Bool => push_str(output, "bool"),
        WitType::String => push_str(output, "String"),
        WitType::List(inner) => {
            push_str(output, "Vec<");
            generate_type(inner, output);
            push_str(output, ">");
        },
        WitType::Option(inner) => {
            push_str(output, "Option<");
            generate_type(inner, output);
            push_str(output, ">");
        },
        WitType::Result(ok, err) => {
            push_str(output, "Result<");
            generate_type(ok, output);
            push_str(output, ", ");
            generate_type(err, output);
            push_str(output, ">");
        },
        WitType::Record(_) => push_str(output, "/* record type */"),
        WitType::Variant(_) => push_str(output, "/* variant type */"),
        WitType::Enum(_) => push_str(output, "/* enum type */"),
        WitType::Tuple(types) => {
            let ghost start = output@;
            push_str(output, "(");
            let ghost tv = types_view(types@);
            proof {
                lemma_types_view(types@);
            }
            let mut i: usize = 0;
            while i < types.len()
                invariant
                    i <= types@.len(),
                    *typ == WitType::Tuple(*types),
                    tv == types_view(types@),
                    tv == types@.map_values(|x: WitType| type_view(x)),
                    output@ == start + "("@ + join(types_text(tv.take(i as int)), ", "@),
                decreases types@.len() - i,
            {
                if i > 0 {
                    push_str(output, ", ");
                }
                proof {
                    assert(decreases_to!(*typ => (*typ)->Tuple_0));
                    assert(decreases_to!(*types => types@));
                    assert(decreases_to!(types@ => types@[i as int]));
                }
                generate_type(&types[i], output);
                proof {
                    let t = tv.take(i + 1);
                    assert(t.drop_last() =~= tv.take(i as int));
                    assert(t.last() == type_view(types@[i as int]));
                    lemma_types_text_len(t);
                    lemma_types_text_len(tv.take(i as int));
                    assert(types_text(t).drop_last() == types_text(tv.take(i as int)));
                    assert(types_text(t).last() == type_text(type_view(types@[i as int])));
                    if i == 0 {
                        assert(join(types_text(t), ", "@) == types_text(t)[0]);
                        assert(output@ =~= start + "("@ + join(types_text(t), ", "@));
                    } else {
                        assert(join(types_text(t), ", "@) == join(types_text(t).drop_last(), ", "@)
                            + ", "@ + types_text(t).last());
                        assert(output@ =~= start + "("@ + join(types_text(t), ", "@));
                    }
                }
                i = i + 1;
            }
            assert(tv.take(types@.len() as int) =~= tv);
            push_str(output, ")");
        },
        WitType::Named(name) => {
            if name.eq(&string_of(&chars_of("address"))) {
                push_str(output, "String");
            } else {
                let n = chars_of(name.as_str());
                push_chars(output, &camel_chars(&n));
            }
        },
    }
}

/// Appends a string slice.
pub fn push_str(output: &mut String, t: &str)
    ensures
        final(output)@ == old(output)@ + t@,
{
    let v = chars_of(t);
    push_chars(output, &v);
}

/// The derive line written above every generated struct and enum.
pub open spec fn derive_line() -> Seq<char> {
    "#[derive(Debug, Clone, PartialEq, Deserialize, Serialize, SerdeJsonInto)]\n"@
}

/// The line written for one record field.
pub open spec fn field_line(f: (Seq<char>, TypeM)) -> Seq<char> {
    "    pub "@ + replace_char(f.0, '-', '_') + ": "@ + type_text(f.1) + ",\n"@
}

/// The lines written for record fields.
pub open spec fn fields_text(fs: Seq<(Seq<char>, TypeM)>) -> Seq<char>
    decreases fs.len(),
{
    if fs.len() == 0 {
        Seq::empty()
    } else {
        fields_text(fs.drop_last()) + field_line(fs.last())
    }
}

/// The line written for one variant case.
pub open spec fn case_line(c: (Seq<char>, Option<TypeM>)) -> Seq<char> {
    "    "@ + camel(c.0) + match c.1 {
        Some(t) => "("@ + type_text(t) + ")"@,
        None => Seq::empty(),
    } + ",\n"@
}

/// The lines written for variant cases.
pub open spec fn cases_text(cs: Seq<(Seq<char>, Option<TypeM>)>) -> Seq<char>
    decreases cs.len(),
{
    if cs.len() == 0 {
        Seq::empty()
    } else {
        cases_text(cs.drop_last()) + case_line(cs.last())
    }
}

/// The lines written for the cases of an enum.
pub open spec fn enum_cases_text(cs: Seq<Seq<char>>) -> Seq<char>
    decreases cs.len(),
{
    if cs.len() == 0 {
        Seq::empty()
    } else {
        enum_cases_text(cs.drop_last()) + "    "@ + camel(cs.last()) + ",\n"@
    }
}

/// Whether a type name is the one name for which nothing is generated.
pub open spec fn is_address(name: Seq<char>) -> bool {
    name == "address"@
}

/// The struct written for a record.
pub open spec fn record_text(name: Seq<char>, fs: Seq<(Seq<char>, TypeM)>) -> Seq<char> {
    if is_address(name) {
        Seq::empty()
    } else {
        derive_line() + "pub struct "@ + camel(name) + " {\n"@ + fields_text(fs) + "}\n"@
    }
}

/// The enum written for a variant.
pub open spec fn variant_text(name: Seq<char>, cs: Seq<(Seq<char>, Option<TypeM>)>) -> Seq<char> {
    if is_address(name) {
        Seq::empty()
    } else {
        derive_line() + "pub enum "@ + camel(name) + " {\n"@ + cases_text(cs) + "}\n"@
    }
}

/// The enum written for an enum.
pub open spec fn enum_text(name: Seq<char>, cs: Seq<Seq<char>>) -> Seq<char> {
    if is_address(name) {
        Seq::empty()
    } else {
        derive_line() + "pub enum "@ + camel(name) + " {\n"@ + enum_cases_text(cs) + "}\n"@
    }
}

/// The entry a type tracker records for a generated type.
pub open spec fn entry(name: Seq<char>, kind: Seq<char>) -> Seq<char> {
    name + " ("@ + kind + ")"@
}

/// What the tracker of a generation holds after new entries, given whether it records.
pub open spec fn after_tracking(before: Seq<Seq<char>>, debug: bool, new: Seq<Seq<char>>) -> Seq<Seq<char>> {
    if debug {
        before + new
    } else {
        before
    }
}

/// Records, when debugging, the names and kinds of the generated types.
pub struct TypeTracker {
    debug: bool,
    types: Vec<String>,
}

impl TypeTracker {
    /// Whether the tracker records.
    pub closed spec fn debug(&self) -> bool {
        self.debug
    }

    /// The recorded entries, in order.
    pub closed spec fn entries(&self) -> Seq<Seq<char>> {
        names_view(self.types@)
    }

    /// A tracker with no entries.
    pub fn new(debug: bool) -> (t: Self)
        ensures
            t.debug() == debug,
            t.entries() == Seq::<Seq<char>>::empty(),
    {
        let t = TypeTracker { debug, types: Vec::new() };
        assert(t.entries() =~= Seq::<Seq<char>>::empty());
        t
    }

    /// Records `name (kind)` when debugging.
    pub fn track(&mut self, name: &str, kind: &str)
        ensures
            final(self).debug() == old(self).debug(),
            final(self).entries() == after_tracking(
                old(self).entries(),
                old(self).debug(),
                seq![entry(name@, kind@)],
            ),
    {
        if self.debug {
            let mut e = String::new();
            push_str(&mut e, name);
            push_str(&mut e, " (");
            push_str(&mut e, kind);
            push_str(&mut e, ")");
            let ghost before = self.types@;
            self.types.push(e);
            assert(names_view(self.types@) =~= names_view(before).push(e@));
        }
    }

    /// The lines that a summary of the tracked types consists of: none when not
    /// debugging; else a header, one numbered line per entry (or a line saying
    /// that there is none) and a footer.
    pub fn summary_lines(&self) -> (r: Vec<String>)
        ensures
            names_view(r@) == summary_text(self.debug(), self.entries()),
    {
        let mut r: Vec<String> = Vec::new();
        if !self.debug {
            assert(names_view(r@) =~= Seq::<Seq<char>>::empty());
            return r;
        }
        r.push(string_of(&chars_of("\n=== WIT Parser: Generated Types ===")));
        if self.types.len() == 0 {
            r.push(string_of(&chars_of("  No types were generated - the Wit file might be empty or not properly parsed")));
        } else {
            let ghost es = self.entries();
            let mut i: usize = 0;
            while i < self.types.len()
                invariant
                    i <= self.types@.len(),
                    es == names_view(self.types@),
                    names_view(r@) == seq![summary_header()] + numbered(es.take(i as int)),
                decreases self.types@.len() - i,
            {
                let mut line: Vec<char> = Vec::new();
                extend_chars(&mut line, "  ");
                push_decimal(&mut line, (i + 1) as u64);
                extend_chars(&mut line, ". ");
                let ghost old_r = r@;
                let entry_chars = chars_of(self.types[i].as_str());
                append_chars(&mut line, &entry_chars);
                r.push(string_of(&line));
                proof {
                    let t = es.take(i + 1);
                    assert(t.drop_last() =~= es.take(i as int));
                    assert(names_view(r@) =~= names_view(old_r).push(line@));
                }
                i = i + 1;
            }
            assert(es.take(self.types@.len() as int) =~= es);
        }
        let ghost old_r = r@;
        r.push(string_of(&chars_of("=== End of Generated Types ===\n")));
        assert(names_view(r@) =~= names_view(old_r).push("=== End of Generated Types ===\n"@));
        assert(names_view(r@) =~= summary_text(self.debug(), self.entries()));
        r
    }
}

/// Whether `name` is `address`.
fn name_is_address(name: &str) -> (b: bool)
    ensures
        b == is_address(name@),
{
    chars_eq_str(&chars_of(name), "address")
}

/// Writes the struct for a record and records it.
pub fn generate_record(
    name: &str,
    fields: &[RecordField],
    output: &mut String,
    tracker: &mut TypeTracker,
)
    ensures
        final(output)@ == old(output)@ + record_text(name@, fields_view(fields@)),
        final(tracker).debug() == old(tracker).debug(),
        final(tracker).entries() == after_tracking(
            old(tracker).entries(),
            old(tracker).debug(),
            if is_address(name@) { Seq::empty() } else { seq![entry(name@, "struct"@)] },
        ),
{
    if name_is_address(name) {
        assert(old(tracker).entries() + Seq::<Seq<char>>::empty() =~= old(tracker).entries());
        return;
    }
    let struct_name = camel_chars(&chars_of(name));
    push_str(output, "#[derive(Debug, Clone, PartialEq, Deserialize, Serialize, SerdeJsonInto)]\n");
    push_str(output, "pub struct ");
    push_chars(output, &struct_name);
    push_str(output, " {\n");
    let ghost head = output@;
    let ghost fv = fields_view(fields@);
    proof {
        lemma_fields_view(fields@);
    }
    let mut i: usize = 0;
    while i < fields.len()
        invariant
            i <= fields@.len(),
            fv == fields_view(fields@),
            fv == fields@.map_values(|x: RecordField| (x.name@, type_view(x.typ))),
            output@ == head + fields_text(fv.take(i as int)),
        decreases fields@.len() - i,
    {
        let field_name = replace_char_exec(&chars_of(fields[i].name.as_str()), '-', '_');
        push_str(output, "    pub ");
        push_chars(output, &field_name);
        push_str(output, ": ");
        generate_type(&fields[i].typ, output);
        push_str(output, ",\n");
        proof {
            let t = fv.take(i + 1);
            assert(t.drop_last() =~= fv.take(i as int));
            assert(t.last() == fv[i as int]);
        }
        i = i + 1;
    }
    assert(fv.take(fields@.len() as int) =~= fv);
    push_str(output, "}\n");
    tracker.track(name, "struct");
}

/// Writes the enum for a variant and records it.
pub fn generate_variant(
    name: &str,
    cases: &[VariantCase],
    output: &mut String,
    tracker: &mut TypeTracker,
)
    ensures
        final(output)@ == old(output)@ + variant_text(name@, cases_view(cases@)),
        final(tracker).debug() == old(tracker).debug(),
        final(tracker).entries() == after_tracking(
            old(tracker).entries(),
            old(tracker).debug(),
            if is_address(name@) { Seq::empty() } else { seq![entry(name@, "variant enum"@)] },
        ),
{
    if name_is_address(name) {
        assert(old(tracker).entries() + Seq::<Seq<char>>::empty() =~= old(tracker).entries());
        return;
    }
    let enum_name = camel_chars(&chars_of(name));
    push_str(output, "#[derive(Debug, Clone, PartialEq, Deserialize, Serialize, SerdeJsonInto)]\n");
    push_str(output, "pub enum ");
    push_chars(output, &enum_name);
    push_str(output, " {\n");
    let ghost head = output@;
    let ghost cv = cases_view(cases@);
    proof {
        lemma_cases_view(cases@);
    }
    let mut i: usize = 0;
    while i < cases.len()
        invariant
            i <= cases@.len(),
            cv == cases_view(cases@),
            cv == cases@.map_values(|x: VariantCase| case_pair(x)),
            output@ == head + cases_text(cv.take(i as int)),
        decreases cases@.len() - i,
    {
        let variant_name = camel_chars(&chars_of(cases[i].name.as_str()));
        push_str(output, "    ");
        push_chars(output, &variant_name);
        match &cases[i].typ {
            Some(t) => {
                push_str(output, "(");
                generate_type(t, output);
                push_str(output, ")");
            },
            None => {},
        }
        push_str(output, ",\n");
        proof {
            let t = cv.take(i + 1);
            assert(t.drop_last() =~= cv.take(i as int));
            assert(t.last() == case_pair(cases@[i as int]));
            assert(output@ =~= head + cases_text(cv.take(i as int)) + case_line(t.last()));
        }
        i = i + 1;
    }
    assert(cv.take(cases@.len() as int) =~= cv);
    push_str(output, "}\n");
    tracker.track(name, "variant enum");
}

/// Writes the enum for an enum type and records it.
pub fn generate_enum(
    name: &str,
    cases: &[String],
    output: &mut String,
    tracker: &mut TypeTracker,
)
    ensures
        final(output)@ == old(output)@ + enum_text(name@, names_view(cases@)),
        final(tracker).debug() == old(tracker).debug(),
        final(tracker).entries() == after_tracking(
            old(tracker).entries(),
            old(tracker).debug(),
            if is_address(name@) { Seq::empty() } else { seq![entry(name@, "enum"@)] },
        ),
{
    if name_is_address(name) {
        assert(old(tracker).entries() + Seq::<Seq<char>>::empty() =~= old(tracker).entries());
        return;
    }
    let enum_name = camel_chars(&chars_of(name));
    push_str(output, "#[derive(Debug, Clone, PartialEq, Deserialize, Serialize, SerdeJsonInto)]\n");
    push_str(output, "pub enum ");
    push_chars(output, &enum_name);
    push_str(output, " {\n");
    let ghost head = output@;
    let ghost nv = names_view(cases@);
    let mut i: usize = 0;
    while i < cases.len()
        invariant
            i <= cases@.len(),
            nv == names_view(cases@),
            output@ == head + enum_cases_text(nv.take(i as int)),
        decreases cases@.len() - i,
    {
        let variant_name = camel_chars(&chars_of(cases[i].as_str()));
        push_str(output, "    ");
        push_chars(output, &variant_name);
        push_str(output, ",\n");
        proof {
            let t = nv.take(i + 1);
            assert(t.drop_last() =~= nv.take(i as int));
            assert(t.last() == cases@[i as int]@);
            assert(output@ =~= head + enum_cases_text(nv.take(i as int)) + "    "@ + camel(t.last()) + ",\n"@);
        }
        i = i + 1;
    }
    assert(nv.take(cases@.len() as int) =~= nv);
    push_str(output, "}\n");
    tracker.track(name, "enum");
}

/// The Rust written for a type definition.
pub open spec fn typedef_text(td: TypeDefM) -> Seq<char> {
    if is_address(td.name) {
        Seq::empty()
    } else {
        match td.typ {
            TypeM::Record(fs) => record_text(td.name, fs),
            TypeM::Variant(cs) => variant_text(td.name, cs),
            TypeM::Enum(cs) => enum_text(td.name, cs),
            _ => "pub type "@ + camel(td.name) + " = "@ + type_text(td.typ) + ";\n"@,
        }
    }
}

/// What the tracker records for a type definition.
pub open spec fn typedef_entries(td: TypeDefM) -> Seq<Seq<char>> {
    if is_address(td.name) {
        Seq::empty()
    } else {
        match td.typ {
            TypeM::Record(_) => seq![entry(td.name, "struct"@)],
            TypeM::Variant(_) => seq![entry(td.name, "variant enum"@)],
            TypeM::Enum(_) => seq![entry(td.name, "enum"@)],
            _ => seq![entry(td.name, "type alias"@)],
        }
    }
}

/// Writes the Rust for a type definition and records it.
pub fn generate_typedef(typedef: &TypeDef, output: &mut String, tracker: &mut TypeTracker)
    ensures
        final(output)@ == old(output)@ + typedef_text(typedef_view(*typedef)),
        final(tracker).debug() == old(tracker).debug(),
        final(tracker).entries() == after_tracking(
            old(tracker).entries(),
            old(tracker).debug(),
            typedef_entries(typedef_view(*typedef)),
        ),
{
    if name_is_address(typedef.name.as_str()) {
        assert(old(output)@ + Seq::<char>::empty() =~= old(output)@);
        assert(old(tracker).entries() + Seq::<Seq<char>>::empty() =~= old(tracker).entries());
        return;
    }
    match &typedef.typ {
        WitType::Record(fields) => {
            generate_record(typedef.name.as_str(), fields.as_slice(), output, tracker);
        },
        WitType::Variant(cases) => {
            generate_variant(typedef.name.as_str(), cases.as_slice(), output, tracker);
        },
        WitType::Enum(cases) => {
            assert(names_view(cases@) =~= cases@.map_values(|x: std::string::String| x@));
            generate_enum(typedef.name.as_str(), cases.as_slice(), output, tracker);
        },
        _ => {
            let type_name_chars = camel_chars(&chars_of(typedef.name.as_str()));
            push_str(output, "pub type ");
            push_chars(output, &type_name_chars);
            push_str(output, " = ");
            generate_type(&typedef.typ, output);
            push_str(output, ";\n");
            tracker.track(typedef.name.as_str(), "type alias");
        },
    }
}

/// The Rust alias written for one name of a `standard.{..}` import.
pub open spec fn alias_piece(raw: Seq<char>) -> Seq<char> {
    let n = trim(raw);
    if is_address(n) {
        Seq::empty()
    } else {
        "pub type "@ + n + " = "@ + n + ";\n"@
    }
}

/// The aliases written for the names of a `standard.{..}` import.
pub open spec fn aliases_text(raws: Seq<Seq<char>>) -> Seq<char>
    decreases raws.len(),
{
    if raws.len() == 0 {
        Seq::empty()
    } else {
        aliases_text(raws.drop_last()) + alias_piece(raws.last())
    }
}

/// What the tracker records for the names of a `standard.{..}` import.
pub open spec fn aliases_entries(raws: Seq<Seq<char>>) -> Seq<Seq<char>>
    decreases raws.len(),
{
    if raws.len() == 0 {
        Seq::empty()
    } else if is_address(trim(raws.last())) {
        aliases_entries(raws.drop_last())
    } else {
        aliases_entries(raws.drop_last()).push(entry(trim(raws.last()), "type alias from standard"@))
    }
}

/// The names, untrimmed, between the braces of a `standard.{..}` use statement.
pub open spec fn standard_names(u: Seq<char>) -> Seq<Seq<char>> {
    let parts = split(u, "{"@);
    if parts.len() > 1 {
        split(trim(trim_end_matches(parts[1], "}"@)), ","@)
    } else {
        Seq::empty()
    }
}

/// The Rust written for a use statement: aliases for what `standard.` gives, then a blank line.
pub open spec fn use_text(u: Seq<char>) -> Seq<char> {
    if starts_with(u, "standard."@) {
        aliases_text(standard_names(u)) + "\n"@
    } else {
        Seq::empty()
    }
}

/// What the tracker records for a use statement.
pub open spec fn use_entries(u: Seq<char>) -> Seq<Seq<char>> {
    if starts_with(u, "standard."@) {
        aliases_entries(standard_names(u))
    } else {
        Seq::empty()
    }
}

/// Writes the aliases for a use statement and records them.
#[verifier::spinoff_prover]
fn generate_use(u: &str, output: &mut String, tracker: &mut TypeTracker)
    ensures
        final(output)@ == old(output)@ + use_text(u@),
        final(tracker).debug() == old(tracker).debug(),
        final(tracker).entries() == after_tracking(
            old(tracker).entries(),
            old(tracker).debug(),
            use_entries(u@),
        ),
{
    let uv = chars_of(u);
    let prefix = chars_of("standard.");
    if !starts_with_exec(&uv, &prefix) {
        assert(old(output)@ + Seq::<char>::empty() =~= old(output)@);
        assert(old(tracker).entries() + Seq::<Seq<char>>::empty() =~= old(tracker).entries());
        return;
    }
    proof {
        reveal_strlit("{");
        reveal_strlit(",");
    }
    let open_brace = chars_of("{");
    let parts = split_exec(&uv, &open_brace);
    let ghost names = standard_names(u@);
    if parts.len() > 1 {
        let close_brace = chars_of("}");
        let comma = chars_of(",");
        let inner = trim_chars(&trim_end_matches_exec(&parts[1], &close_brace));
        let raws = split_exec(&inner, &comma);
        assert(seqs_of(raws@) == names);
        let ghost out0 = output@;
        let ghost e0 = tracker.entries();
        let mut i: usize = 0;
        while i < raws.len()
            invariant
                i <= raws@.len(),
                seqs_of(raws@) == names,
                output@ == out0 + aliases_text(names.take(i as int)),
                tracker.debug() == old(tracker).debug(),
                tracker.entries() == after_tracking(e0, tracker.debug(), aliases_entries(names.take(i as int))),
            decreases raws@.len() - i,
        {
            let typ = trim_chars(&raws[i]);
            if !chars_eq_str(&typ, "address") {
                push_str(output, "pub type ");
                push_chars(output, &typ);
                push_str(output, " = ");
                push_chars(output, &typ);
                push_str(output, ";\n");
                let typ_str = string_of(&typ);
                tracker.track(typ_str.as_str(), "type alias from standard");
            }
            proof {
                let t = names.take(i + 1);
                assert(t.drop_last() =~= names.take(i as int));
                assert(t.last() == raws@[i as int]@);
                if tracker.debug() {
                    assert(tracker.entries() =~= e0 + aliases_entries(t));
                }
            }
            i = i + 1;
        }
        assert(names.take(raws@.len() as int) =~= names);
    } else {
        assert(names =~= Seq::<Seq<char>>::empty());
        assert(tracker.entries() + Seq::<Seq<char>>::empty() =~= tracker.entries());
    }
    push_str(output, "\n");
}

/// The Rust written for the use statements of an interface.
pub open spec fn uses_text(us: Seq<Seq<char>>) -> Seq<char>
    decreases us.len(),
{
    if us.len() == 0 {
        Seq::empty()
    } else {
        uses_text(us.drop_last()) + use_text(us.last())
    }
}

/// What the tracker records for the use statements of an interface.
pub open spec fn uses_entries(us: Seq<Seq<char>>) -> Seq<Seq<char>>
    decreases us.len(),
{
    if us.len() == 0 {
        Seq::empty()
    } else {
        uses_entries(us.drop_last()) + use_entries(us.last())
    }
}

/// The Rust written for a type definition of an interface, followed by a blank line.
pub open spec fn typedef_piece(td: TypeDefM) -> Seq<char> {
    if is_address(td.name) {
        Seq::empty()
    } else {
        typedef_text(td) + "\n"@
    }
}

/// The Rust written for the type definitions of an interface.
pub open spec fn typedefs_text(ts: Seq<TypeDefM>) -> Seq<char>
    decreases ts.len(),
{
    if ts.len() == 0 {
        Seq::empty()
    } else {
        typedefs_text(ts.drop_last()) + typedef_piece(ts.last())
    }
}

/// What the tracker records for the type definitions of an interface.
pub open spec fn typedefs_entries(ts: Seq<TypeDefM>) -> Seq<Seq<char>>
    decreases ts.len(),
{
    if ts.len() == 0 {
        Seq::empty()
    } else {
        typedefs_entries(ts.drop_last()) + typedef_entries(ts.last())
    }
}

/// The Rust written for an interface.
pub open spec fn interface_text(i: InterfaceM) -> Seq<char> {
    uses_text(i.use_statements) + typedefs_text(i.types)
}

/// What the tracker records for an interface.
pub open spec fn interface_entries(i: InterfaceM) -> Seq<Seq<char>> {
    uses_entries(i.use_statements) + typedefs_entries(i.types)
}

/// Writes the Rust for an interface and records its types.
#[verifier::spinoff_prover]
pub fn generate_interface(interface: &Interface, output: &mut String, tracker: &mut TypeTracker)
    ensures
        final(output)@ == old(output)@ + interface_text(interface_view(*interface)),
        final(tracker).debug() == old(tracker).debug(),
        final(tracker).entries() == after_tracking(
            old(tracker).entries(),
            old(tracker).debug(),
            interface_entries(interface_view(*interface)),
        ),
{
    let ghost iv = interface_view(*interface);
    let ghost out0 = output@;
    let ghost e0 = tracker.entries();
    let mut i: usize = 0;
    while i < interface.use_statements.len()
        invariant
            i <= interface.use_statements@.len(),
            iv == interface_view(*interface),
            output@ == out0 + uses_text(iv.use_statements.take(i as int)),
            tracker.debug() == old(tracker).debug(),
            tracker.entries() == after_tracking(e0, tracker.debug(), uses_entries(iv.use_statements.take(i as int))),
        decreases interface.use_statements@.len() - i,
    {
        generate_use(interface.use_statements[i].as_str(), output, tracker);
        proof {
            let t = iv.use_statements.take(i + 1);
            assert(t.drop_last() =~= iv.use_statements.take(i as int));
            assert(t.last() == interface.use_statements@[i as int]@);
            if tracker.debug() {
                assert(tracker.entries() =~= e0 + uses_entries(t));
            }
        }
        i = i + 1;
    }
    assert(iv.use_statements.take(interface.use_statements@.len() as int) =~= iv.use_statements);
    let ghost out1 = output@;
    let ghost e1 = tracker.entries();
    let mut j: usize = 0;
    while j < interface.types.len()
        invariant
            j <= interface.types@.len(),
            iv == interface_view(*interface),
            output@ == out1 + typedefs_text(iv.types.take(j as int)),
            tracker.debug() == old(tracker).debug(),
            tracker.entries() == after_tracking(e1, tracker.debug(), typedefs_entries(iv.types.take(j as int))),
        decreases interface.types@.len() - j,
    {
        let typedef = &interface.types[j];
        if !name_is_address(typedef.name.as_str()) {
            generate_typedef(typedef, output, tracker);
            push_str(output, "\n");
        }
        proof {
            let t = iv.types.take(j + 1);
            assert(t.drop_last() =~= iv.types.take(j as int));
            assert(t.last() == typedef_view(interface.types@[j as int]));
            if tracker.debug() {
                assert(tracker.entries() =~= e1 + typedefs_entries(t));
            }
        }
        j = j + 1;
    }
    assert(iv.types.take(interface.types@.len() as int) =~= iv.types);
    assert(output@ =~= out0 + interface_text(iv));
    proof {
        if tracker.debug() {
            assert(tracker.entries() =~= e0 + interface_entries(iv));
        }
    }
}

/// The first lines of generated code, for the WIT file at `file_path`.
pub open spec fn header_text(file_path: Seq<char>) -> Seq<char> {
    "// Generated from Wit file: "@ + file_path + "\n"@ + "// DO NOT EDIT - GENERATED CODE\n"@
        + "\n"@ + "pub mod wit_custom {\n"@ + "    use std::rc::Rc;\n"@
        + "    use std::collections::HashMap;\n"@ + "    use serde::{Deserialize, Serialize};\n"@
        + "    use process_macros::SerdeJsonInto;\n"@ + "\n"@
}

/// The content of the first file named `name` among `(name, content)` pairs.
pub open spec fn lookup_file(files: Seq<(Seq<char>, Seq<char>)>, name: Seq<char>) -> Option<Seq<char>>
    decreases files.len(),
{
    if files.len() == 0 {
        None
    } else if files[0].0 == name {
        Some(files[0].1)
    } else {
        lookup_file(files.skip(1), name)
    }
}

/// Abstract form of `(name, content)` pairs.
pub open spec fn files_view(v: Seq<(String, String)>) -> Seq<(Seq<char>, Seq<char>)> {
    v.map_values(|p: (String, String)| (p.0@, p.1@))
}

/// The Rust written for an imported interface: nothing when its file is missing or
/// does not hold an interface.
pub open spec fn import_text(name: Seq<char>, files: Seq<(Seq<char>, Seq<char>)>) -> Seq<char> {
    match lookup_file(files, name) {
        Some(c) => match interface_at(c, 0) {
            Some((i, _)) => "    // From interface: "@ + name + "\n"@ + interface_text(i),
            None => Seq::empty(),
        },
        None => Seq::empty(),
    }
}

/// What the tracker records for an imported interface.
pub open spec fn import_entries(name: Seq<char>, files: Seq<(Seq<char>, Seq<char>)>) -> Seq<Seq<char>> {
    match lookup_file(files, name) {
        Some(c) => match interface_at(c, 0) {
            Some((i, _)) => interface_entries(i),
            None => Seq::empty(),
        },
        None => Seq::empty(),
    }
}

/// The Rust written for the imports of a world, in order.
pub open spec fn imports_text(items: Seq<WorldItemM>, files: Seq<(Seq<char>, Seq<char>)>) -> Seq<char>
    decreases items.len(),
{
    if items.len() == 0 {
        Seq::empty()
    } else {
        imports_text(items.drop_last(), files) + match items.last() {
            WorldItemM::Import(n) => import_text(n, files),
            _ => Seq::empty(),
        }
    }
}

/// What the tracker records for the imports of a world.
pub open spec fn imports_entries(items: Seq<WorldItemM>, files: Seq<(Seq<char>, Seq<char>)>) -> Seq<Seq<char>>
    decreases items.len(),
{
    if items.len() == 0 {
        Seq::empty()
    } else {
        imports_entries(items.drop_last(), files) + match items.last() {
            WorldItemM::Import(n) => import_entries(n, files),
            _ => Seq::empty(),
        }
    }
}

/// The Rust written for the exports of a world, in order.
pub open spec fn exports_text(items: Seq<WorldItemM>) -> Seq<char>
    decreases items.len(),
{
    if items.len() == 0 {
        Seq::empty()
    } else {
        exports_text(items.drop_last()) + match items.last() {
            WorldItemM::Export(i) => "    // Export interface: "@ + i.name + "\n"@ + interface_text(i),
            _ => Seq::empty(),
        }
    }
}

/// What the tracker records for the exports of a world.
pub open spec fn exports_entries(items: Seq<WorldItemM>) -> Seq<Seq<char>>
    decreases items.len(),
{
    if items.len() == 0 {
        Seq::empty()
    } else {
        exports_entries(items.drop_last()) + match items.last() {
            WorldItemM::Export(i) => interface_entries(i),
            _ => Seq::empty(),
        }
    }
}

/// The Rust written for worlds: for each, its imports and then its exports.
pub open spec fn worlds_text(ws: Seq<WorldM>, files: Seq<(Seq<char>, Seq<char>)>) -> Seq<char>
    decreases ws.len(),
{
    if ws.len() == 0 {
        Seq::empty()
    } else {
        worlds_text(ws.drop_last(), files) + imports_text(ws.last().items, files) + exports_text(ws.last().items)
    }
}

/// What the tracker records for worlds.
pub open spec fn worlds_entries(ws: Seq<WorldM>, files: Seq<(Seq<char>, Seq<char>)>) -> Seq<Seq<char>>
    decreases ws.len(),
{
    if ws.len() == 0 {
        Seq::empty()
    } else {
        worlds_entries(ws.drop_last(), files) + imports_entries(ws.last().items, files)
            + exports_entries(ws.last().items)
    }
}

/// The Rust written for standalone interfaces.
pub open spec fn standalones_text(is: Seq<InterfaceM>) -> Seq<char>
    decreases is.len(),
{
    if is.len() == 0 {
        Seq::empty()
    } else {
        standalones_text(is.drop_last()) + "    // Standalone interface: "@ + is.last().name + "\n"@
            + interface_text(is.last())
    }
}

/// What the tracker records for standalone interfaces.
pub open spec fn standalones_entries(is: Seq<InterfaceM>) -> Seq<Seq<char>>
    decreases is.len(),
{
    if is.len() == 0 {
        Seq::empty()
    } else {
        standalones_entries(is.drop_last()) + interface_entries(is.last())
    }
}

/// The Rust written for the content of a WIT file: its worlds when it holds any,
/// else its standalone interfaces; nothing when the file could not be read.
pub open spec fn body_text(content: Option<Seq<char>>, files: Seq<(Seq<char>, Seq<char>)>) -> Seq<char> {
    match content {
        None => Seq::empty(),
        Some(c) => match wit_file(c) {
            Some(ws) if ws.len() > 0 => worlds_text(ws, files),
            _ => match wit_interfaces(c) {
                Some(is) => standalones_text(is),
                None => Seq::empty(),
            },
        },
    }
}

/// What the tracker records for the content of a WIT file.
pub open spec fn body_entries(content: Option<Seq<char>>, files: Seq<(Seq<char>, Seq<char>)>) -> Seq<Seq<char>> {
    match content {
        None => Seq::empty(),
        Some(c) => match wit_file(c) {
            Some(ws) if ws.len() > 0 => worlds_entries(ws, files),
            _ => match wit_interfaces(c) {
                Some(is) => standalones_entries(is),
                None => Seq::empty(),
            },
        },
    }
}

/// The whole generated code.
pub open spec fn code_text(
    file_path: Seq<char>,
    content: Option<Seq<char>>,
    files: Seq<(Seq<char>, Seq<char>)>,
) -> Seq<char> {
    header_text(file_path) + body_text(content, files) + "}\n"@
}

/// Abstract form of optional text.
pub open spec fn opt_view(o: Option<&str>) -> Option<Seq<char>> {
    match o {
        Some(c) => Some(c@),
        None => None,
    }
}

/// The index of the first pair named `name`.
fn lookup_file_exec(files: &Vec<(String, String)>, name: &str) -> (r: Option<usize>)
    ensures
        match r {
            Some(k) => k < files@.len() && lookup_file(files_view(files@), name@) == Some(files@[k as int].1@),
            None => lookup_file(files_view(files@), name@) is None,
        },
{
    let ghost fv = files_view(files@);
    let nv = chars_of(name);
    assert(fv.skip(0) =~= fv);
    let mut i: usize = 0;
    while i < files.len()
        invariant
            i <= files@.len(),
            fv == files_view(files@),
            nv@ == name@,
            lookup_file(fv.skip(i as int), name@) == lookup_file(fv, name@),
        decreases files@.len() - i,
    {
        let ghost rest = fv.skip(i as int);
        assert(rest[0] == fv[i as int]);
        if chars_eq(&chars_of(files[i].0.as_str()), &nv) {
            return Some(i);
        }
        assert(rest.skip(1) =~= fv.skip(i + 1));
        i = i + 1;
    }
    None
}

/// Writes the Rust for an imported interface whose file is looked up in `files`.
#[verifier::spinoff_prover]
#[verifier::rlimit(40)]
fn generate_import(
    name: &str,
    files: &Vec<(String, String)>,
    output: &mut String,
    tracker: &mut TypeTracker,
)
    ensures
        final(output)@ == old(output)@ + import_text(name@, files_view(files@)),
        final(tracker).debug() == old(tracker).debug(),
        final(tracker).entries() == after_tracking(
            old(tracker).entries(),
            old(tracker).debug(),
            import_entries(name@, files_view(files@)),
        ),
{
    match lookup_file_exec(files, name) {
        Some(k) => {
            let content = chars_of(files[k].1.as_str());
            match parse_interface(&content) {
                Some((interface, _)) => {
                    push_str(output, "    // From interface: ");
                    push_str(output, name);
                    push_str(output, "\n");
                    generate_interface(&interface, output, tracker);
                    return;
                },
                None => {},
            }
        },
        None => {},
    }
    assert(old(output)@ + Seq::<char>::empty() =~= old(output)@);
    assert(old(tracker).entries() + Seq::<Seq<char>>::empty() =~= old(tracker).entries());
}

/// Writes the Rust for one world: the interfaces it imports, whose files are looked
/// up in `files`, then those it exports.
#[verifier::spinoff_prover]
fn generate_world(
    world: &World,
    files: &Vec<(String, String)>,
    output: &mut String,
    tracker: &mut TypeTracker,
)
    ensures
        final(output)@ == old(output)@ + imports_text(world_view(*world).items, files_view(files@))
            + exports_text(world_view(*world).items),
        final(tracker).debug() == old(tracker).debug(),
        final(tracker).entries() == after_tracking(
            old(tracker).entries(),
            old(tracker).debug(),
            imports_entries(world_view(*world).items, files_view(files@))
                + exports_entries(world_view(*world).items),
        ),
{
    let ghost items = world_view(*world).items;
    let ghost fv = files_view(files@);
    let ghost out0 = output@;
    let ghost e0 = tracker.entries();
    let mut i: usize = 0;
    while i < world.items.len()
        invariant
            i <= world.items@.len(),
            items == world_view(*world).items,
            fv == files_view(files@),
            output@ == out0 + imports_text(items.take(i as int), fv),
            tracker.debug() == old(tracker).debug(),
            tracker.entries() == after_tracking(e0, tracker.debug(), imports_entries(items.take(i as int), fv)),
        decreases world.items@.len() - i,
    {
        match &world.items[i] {
            WorldItem::Import(name) => generate_import(name.as_str(), files, output, tracker),
            _ => {},
        }
        proof {
            let t = items.take(i + 1);
            assert(t.drop_last() =~= items.take(i as int));
            assert(t.last() == world_item_view(world.items@[i as int]));
            assert(output@ =~= out0 + imports_text(t, fv));
            if tracker.debug() {
                assert(tracker.entries() =~= e0 + imports_entries(t, fv));
            }
        }
        i = i + 1;
    }
    assert(items.take(world.items@.len() as int) =~= items);
    let ghost out1 = output@;
    let ghost e1 = tracker.entries();
    let mut j: usize = 0;
    while j < world.items.len()
        invariant
            j <= world.items@.len(),
            items == world_view(*world).items,
            output@ == out1 + exports_text(items.take(j as int)),
            tracker.debug() == old(tracker).debug(),
            tracker.entries() == after_tracking(e1, tracker.debug(), exports_entries(items.take(j as int))),
        decreases world.items@.len() - j,
    {
        match &world.items[j] {
            WorldItem::Export(interface) => {
                push_str(output, "    // Export interface: ");
                push_str(output, interface.name.as_str());
                push_str(output, "\n");
                generate_interface(interface, output, tracker);
            },
            _ => {},
        }
        proof {
            let t = items.take(j + 1);
            assert(t.drop_last() =~= items.take(j as int));
            assert(t.last() == world_item_view(world.items@[j as int]));
            assert(output@ =~= out1 + exports_text(t));
            if tracker.debug() {
                assert(tracker.entries() =~= e1 + exports_entries(t));
            }
        }
        j = j + 1;
    }
    assert(items.take(world.items@.len() as int) =~= items);
    assert(output@ =~= out0 + imports_text(items, fv) + exports_text(items));
    proof {
        if tracker.debug() {
            assert(tracker.entries() =~= e0 + (imports_entries(items, fv) + exports_entries(items)));
        }
    }
}

/// What the tracker records for the content of a WIT file, when it records.
pub open spec fn code_entries(
    debug: bool,
    content: Option<Seq<char>>,
    files: Seq<(Seq<char>, Seq<char>)>,
) -> Seq<Seq<char>> {
    if debug {
        body_entries(content, files)
    } else {
        Seq::empty()
    }
}

/// Rust type definitions for the WIT file at `file_path`, whose text is `content`
/// (`None` when it could not be read). The interfaces that its worlds import are
/// looked up by name in `import_files`, `(name, content)` pairs for the files
/// `<name>.wit` beside it that could be read. Returns the code and the tracker that
/// recorded the generated types when `debug` is set.
#[verifier::spinoff_prover]
pub fn generate_code(
    file_path: &str,
    content: Option<&str>,
    import_files: &Vec<(String, String)>,
    debug: bool,
) -> (r: (String, TypeTracker))
    ensures
        r.0@ == code_text(file_path@, opt_view(content), files_view(import_files@)),
        r.1.debug() == debug,
        r.1.entries() == code_entries(debug, opt_view(content), files_view(import_files@)),
{
    let mut output = String::new();
    let mut tracker = TypeTracker::new(debug);
    let ghost fv = files_view(import_files@);
    push_str(&mut output, "// Generated from Wit file: ");
    push_str(&mut output, file_path);
    push_str(&mut output, "\n");
    push_str(&mut output, "// DO NOT EDIT - GENERATED CODE\n");
    push_str(&mut output, "\n");
    push_str(&mut output, "pub mod wit_custom {\n");
    push_str(&mut output, "    use std::rc::Rc;\n");
    push_str(&mut output, "    use std::collections::HashMap;\n");
    push_str(&mut output, "    use serde::{Deserialize, Serialize};\n");
    push_str(&mut output, "    use process_macros::SerdeJsonInto;\n");
    push_str(&mut output, "\n");
    let ghost head = output@;
    assert(head =~= header_text(file_path@));
    match content {
        None => {
            assert(tracker.entries() =~= code_entries(debug, opt_view(content), fv));
        },
        Some(text) => {
            let chars = chars_of(text);
            let worlds = parse_wit_file(&chars);
            let mut use_worlds = false;
            match &worlds {
                Some(ws) => {
                    use_worlds = ws.len() > 0;
                },
                None => {},
            }
            if use_worlds {
                let ws = worlds.unwrap();
                let ghost wv = ws@.map_values(|w: World| world_view(w));
                let mut i: usize = 0;
                while i < ws.len()
                    invariant
                        i <= ws@.len(),
                        wv == ws@.map_values(|w: World| world_view(w)),
                        fv == files_view(import_files@),
                        output@ == head + worlds_text(wv.take(i as int), fv),
                        tracker.debug() == debug,
                        tracker.entries() == after_tracking(Seq::empty(), debug, worlds_entries(wv.take(i as int), fv)),
                    decreases ws@.len() - i,
                {
                    generate_world(&ws[i], import_files, &mut output, &mut tracker);
                    proof {
                        let t = wv.take(i + 1);
                        assert(t.drop_last() =~= wv.take(i as int));
                        assert(t.last() == world_view(ws@[i as int]));
                        assert(output@ =~= head + worlds_text(t, fv));
                        if debug {
                            assert(tracker.entries() =~= Seq::<Seq<char>>::empty() + worlds_entries(t, fv));
                        }
                    }
                    i = i + 1;
                }
                assert(wv.take(ws@.len() as int) =~= wv);
                proof {
                    if debug {
                        assert(tracker.entries() =~= worlds_entries(wv, fv));
                    }
                }
            } else {
                match parse_interfaces(&chars) {
                    Some(interfaces) => {
                        let ghost iv = interfaces@.map_values(|i: Interface| interface_view(i));
                        let mut i: usize = 0;
                        while i < interfaces.len()
                            invariant
                                i <= interfaces@.len(),
                                iv == interfaces@.map_values(|i: Interface| interface_view(i)),
                                output@ == head + standalones_text(iv.take(i as int)),
                                tracker.debug() == debug,
                                tracker.entries() == after_tracking(Seq::empty(), debug, standalones_entries(iv.take(i as int))),
                            decreases interfaces@.len() - i,
                        {
                            push_str(&mut output, "    // Standalone interface: ");
                            push_str(&mut output, interfaces[i].name.as_str());
                            push_str(&mut output, "\n");
                            generate_interface(&interfaces[i], &mut output, &mut tracker);
                            proof {
                                let t = iv.take(i + 1);
                                assert(t.drop_last() =~= iv.take(i as int));
                                assert(t.last() == interface_view(interfaces@[i as int]));
                                assert(output@ =~= head + standalones_text(t));
                                if debug {
                                    assert(tracker.entries() =~= Seq::<Seq<char>>::empty() + standalones_entries(t));
                                }
                            }
                            i = i + 1;
                        }
                        assert(iv.take(interfaces@.len() as int) =~= iv);
                        proof {
                            if debug {
                                assert(tracker.entries() =~= standalones_entries(iv));
                            }
                        }
                    },
                    None => {
                        assert(tracker.entries() =~= code_entries(debug, opt_view(content), fv));
                    },
                }
            }
        },
    }
    assert(output@ =~= head + body_text(opt_view(content), fv));
    push_str(&mut output, "}\n");
    (output, tracker)
}

/// The names a list of world items imports, in order.
pub open spec fn item_imports(items: Seq<WorldItemM>) -> Seq<Seq<char>>
    decreases items.len(),
{
    if items.len() == 0 {
        Seq::empty()
    } else {
        item_imports(items.drop_last()) + match items.last() {
            WorldItemM::Import(n) => seq![n],
            _ => Seq::empty(),
        }
    }
}

/// The names the worlds import, world by world.
pub open spec fn worlds_imports(ws: Seq<WorldM>) -> Seq<Seq<char>>
    decreases ws.len(),
{
    if ws.len() == 0 {
        Seq::empty()
    } else {
        worlds_imports(ws.drop_last()) + item_imports(ws.last().items)
    }
}

/// The interface names whose files code generation looks up for a WIT file's text.
pub open spec fn needed_imports(content: Seq<char>) -> Seq<Seq<char>> {
    match wit_file(content) {
        Some(ws) if ws.len() > 0 => worlds_imports(ws),
        _ => Seq::empty(),
    }
}

/// The names of the interfaces that the worlds of a WIT file import, in the order
/// in which code generation looks up their files.
#[verifier::spinoff_prover]
pub fn world_import_names(content: &str) -> (r: Vec<String>)
    ensures
        names_view(r@) == needed_imports(content@),
{
    let mut r: Vec<String> = Vec::new();
    let chars = chars_of(content);
    match parse_wit_file(&chars) {
        Some(ws) => {
            let ghost wv = ws@.map_values(|w: World| world_view(w));
            let mut i: usize = 0;
            while i < ws.len()
                invariant
                    i <= ws@.len(),
                    wv == ws@.map_values(|w: World| world_view(w)),
                    names_view(r@) == worlds_imports(wv.take(i as int)),
                decreases ws@.len() - i,
            {
                let world = &ws[i];
                let ghost items = world_view(*world).items;
                let ghost r0 = names_view(r@);
                let mut j: usize = 0;
                while j < world.items.len()
                    invariant
                        j <= world.items@.len(),
                        items == world_view(*world).items,
                        names_view(r@) == r0 + item_imports(items.take(j as int)),
                    decreases world.items@.len() - j,
                {
                    let ghost before = r@;
                    match &world.items[j] {
                        WorldItem::Import(name) => {
                            r.push(string_of(&chars_of(name.as_str())));
                            assert(names_view(r@) =~= names_view(before).push(name@));
                        },
                        _ => {
                            assert(names_view(r@) =~= names_view(before) + Seq::<Seq<char>>::empty());
                        },
                    }
                    proof {
                        let t = items.take(j + 1);
                        assert(t.drop_last() =~= items.take(j as int));
                        assert(t.last() == world_item_view(world.items@[j as int]));
                        assert(names_view(r@) =~= r0 + item_imports(t));
                    }
                    j = j + 1;
                }
                assert(items.take(world.items@.len() as int) =~= items);
                proof {
                    let t = wv.take(i + 1);
                    assert(t.drop_last() =~= wv.take(i as int));
                    assert(t.last() == world_view(ws@[i as int]));
                    assert(names_view(r@) =~= worlds_imports(t));
                }
                i = i + 1;
            }
            assert(wv.take(ws@.len() as int) =~= wv);
        },
        None => {
            assert(names_view(r@) =~= Seq::<Seq<char>>::empty());
        },
    }
    r
}

/// The first line of a summary.
pub open spec fn summary_header() -> Seq<char> {
    "\n=== WIT Parser: Generated Types ==="@
}

/// The numbered lines of a summary, numbering from one.
pub open spec fn numbered(es: Seq<Seq<char>>) -> Seq<Seq<char>>
    decreases es.len(),
{
    if es.len() == 0 {
        Seq::empty()
    } else {
        numbered(es.drop_last()).push("  "@ + decimal(es.len()) + ". "@ + es.last())
    }
}

/// The lines of a summary of tracked entries.
pub open spec fn summary_text(debug: bool, es: Seq<Seq<char>>) -> Seq<Seq<char>> {
    if !debug {
        Seq::empty()
    } else if es.len() == 0 {
        seq![
            summary_header(),
            "  No types were generated - the Wit file might be empty or not properly parsed"@,
            "=== End of Generated Types ===\n"@,
        ]
    } else {
        seq![summary_header()] + numbered(es) + seq!["=== End of Generated Types ===\n"@]
    }
}

} // verus!
