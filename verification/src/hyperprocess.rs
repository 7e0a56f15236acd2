//! The `#[hyperprocess]` attribute: reading its arguments, checking and sorting
//! the methods of the annotated impl block, and the code it expands to, written
//! as Rust source text.
use vstd::prelude::*;
use crate::bindgen::join;
use crate::case::{snake_camel, snake_to_camel};
use crate::text::{chars_eq_str, chars_of, contains, contains_exec, string_of};
use crate::wit_codegen::push_str;

verus! {

/// Where an error is reported.
#[derive(Clone, Copy, Debug, PartialEq, Eq, Structural)]
pub enum ErrorSite {
    /// The macro invocation.
    CallSite,
    /// The first argument, or the invocation when there is none.
    FirstArg,
    /// Argument `i`.
    Arg(usize),
    /// The name of argument `i`.
    ArgName(usize),
    /// The value of argument `i`.
    ArgValue(usize),
    /// Method `i`.
    Method(usize),
    /// The signature of method `i`.
    Signature(usize),
    /// Input `k` of method `i`.
    Input(usize, usize),
    /// The return type of method `i`.
    Output(usize),
}

/// An error of the macro: where it is reported and its message.
pub struct HyperError {
    pub site: ErrorSite,
    pub message: String,
}

/// One `key = value` argument of the attribute, as far as the macro reads it.
pub struct MetaArg {
    /// Whether the argument has the form `path = value`.
    pub is_name_value: bool,
    /// The path, when it is a single identifier.
    pub key: Option<String>,
    /// The value as a string literal token, when it is a string literal.
    pub string_literal: Option<String>,
    /// The arguments of the value, when it is a call of a path ending in `Some`.
    pub some_args: Option<Vec<String>>,
    /// The value as written.
    pub value: String,
}

/// The arguments of the attribute: string literals as tokens, expressions as written.
pub struct HyperProcessArgs {
    pub name: String,
    pub icon: Option<String>,
    pub widget: Option<String>,
    pub ui: Option<String>,
    pub endpoints: String,
    pub save_config: String,
    pub wit_world: String,
}

/// Abstract form of the arguments.
pub struct ArgsM {
    pub name: Option<Seq<char>>,
    pub icon: Option<Seq<char>>,
    pub widget: Option<Seq<char>>,
    pub ui: Option<Seq<char>>,
    pub endpoints: Option<Seq<char>>,
    pub save_config: Option<Seq<char>>,
    pub wit_world: Option<Seq<char>>,
}

/// No argument read yet.
pub open spec fn args_empty() -> ArgsM {
    ArgsM {
        name: None,
        icon: None,
        widget: None,
        ui: None,
        endpoints: None,
        save_config: None,
        wit_world: None,
    }
}

/// The error `message` at `site`.
pub open spec fn err(site: ErrorSite, message: Seq<char>) -> (ErrorSite, Seq<char>) {
    (site, message)
}

/// Reading argument `i` into what was read before.
pub open spec fn arg_step(acc: ArgsM, a: MetaArg, i: usize) -> Result<ArgsM, (ErrorSite, Seq<char>)> {
    if !a.is_name_value {
        Err(err(ErrorSite::Arg(i), "Expected name-value pair"@))
    } else {
        match a.key {
            None => Err(err(ErrorSite::ArgName(i), "Expected identifier"@)),
            Some(k) => {
                let lit = match a.string_literal {
                    Some(l) => Ok(l@),
                    None => Err(err(ErrorSite::ArgValue(i), "Expected string literal"@)),
                };
                if k@ == "name"@ {
                    match lit {
                        Ok(l) => Ok(ArgsM { name: Some(l), ..acc }),
                        Err(e) => Err(e),
                    }
                } else if k@ == "icon"@ {
                    match lit {
                        Ok(l) => Ok(ArgsM { icon: Some(l), ..acc }),
                        Err(e) => Err(e),
                    }
                } else if k@ == "widget"@ {
                    match lit {
                        Ok(l) => Ok(ArgsM { widget: Some(l), ..acc }),
                        Err(e) => Err(e),
                    }
                } else if k@ == "ui"@ {
                    match a.some_args {
                        Some(xs) => if xs@.len() == 1 {
                            Ok(ArgsM { ui: Some(xs@[0]@), ..acc })
                        } else {
                            Err(err(ErrorSite::ArgValue(i), "Some must have exactly one argument"@))
                        },
                        None => Ok(ArgsM { ui: Some(a.value@), ..acc }),
                    }
                } else if k@ == "endpoints"@ {
                    Ok(ArgsM { endpoints: Some(a.value@), ..acc })
                } else if k@ == "save_config"@ {
                    Ok(ArgsM { save_config: Some(a.value@), ..acc })
                } else if k@ == "wit_world"@ {
                    match lit {
                        Ok(l) => Ok(ArgsM { wit_world: Some(l), ..acc }),
                        Err(e) => Err(e),
                    }
                } else {
                    Err(err(ErrorSite::ArgName(i), "Unknown attribute"@))
                }
            },
        }
    }
}

/// Reading the arguments in order, stopping at the first error.
pub open spec fn args_read(args: Seq<MetaArg>) -> Result<ArgsM, (ErrorSite, Seq<char>)>
    decreases args.len(),
{
    if args.len() == 0 {
        Ok(args_empty())
    } else {
        match args_read(args.drop_last()) {
            Err(e) => Err(e),
            Ok(acc) => arg_step(acc, args.last(), (args.len() - 1) as usize),
        }
    }
}

/// The arguments the attribute gives, or the first error: a malformed argument,
/// else the first of `name`, `endpoints`, `save_config`, `wit_world` that is missing.
pub open spec fn args_spec(args: Seq<MetaArg>) -> Result<ArgsM, (ErrorSite, Seq<char>)> {
    match args_read(args) {
        Err(e) => Err(e),
        Ok(a) => if a.name is None {
            Err(err(ErrorSite::FirstArg, "Missing 'name'"@))
        } else if a.endpoints is None {
            Err(err(ErrorSite::FirstArg, "Missing 'endpoints'"@))
        } else if a.save_config is None {
            Err(err(ErrorSite::FirstArg, "Missing 'save_config'"@))
        } else if a.wit_world is None {
            Err(err(ErrorSite::FirstArg, "Missing 'wit_world'"@))
        } else {
            Ok(a)
        },
    }
}

/// Abstract form of optional text.
pub open spec fn opt_text(o: Option<String>) -> Option<Seq<char>> {
    match o {
        Some(s) => Some(s@),
        None => None,
    }
}

/// Abstract form of the arguments read.
pub open spec fn args_view(a: HyperProcessArgs) -> ArgsM {
    ArgsM {
        name: Some(a.name@),
        icon: opt_text(a.icon),
        widget: opt_text(a.widget),
        ui: opt_text(a.ui),
        endpoints: Some(a.endpoints@),
        save_config: Some(a.save_config@),
        wit_world: Some(a.wit_world@),
    }
}

/// Abstract form of an error.
pub open spec fn error_view(e: HyperError) -> (ErrorSite, Seq<char>) {
    (e.site, e.message@)
}

/// An error value.
fn make_error(site: ErrorSite, message: &str) -> (e: HyperError)
    ensures
        error_view(e) == err(site, message@),
{
    HyperError { site, message: string_of(&chars_of(message)) }
}

/// A copy of a string.
fn copy_string(s: &String) -> (r: String)
    ensures
        r@ == s@,
{
    string_of(&chars_of(s.as_str()))
}

/// Reads the arguments of the attribute.
#[verifier::spinoff_prover]
pub fn parse_args(attr_args: &Vec<MetaArg>) -> (r: Result<HyperProcessArgs, HyperError>)
    ensures
        match r {
            Ok(a) => args_spec(attr_args@) == Ok::<ArgsM, (ErrorSite, Seq<char>)>(args_view(a)),
            Err(e) => args_spec(attr_args@) == Err::<ArgsM, (ErrorSite, Seq<char>)>(error_view(e)),
        },
{
    let mut name: Option<String> = None;
    let mut icon: Option<String> = None;
    let mut widget: Option<String> = None;
    let mut ui: Option<String> = None;
    let mut endpoints: Option<String> = None;
    let mut save_config: Option<String> = None;
    let mut wit_world: Option<String> = None;
    let mut i: usize = 0;
    while i < attr_args.len()
        invariant
            i <= attr_args@.len(),
            args_read(attr_args@.take(i as int)) == Ok::<ArgsM, (ErrorSite, Seq<char>)>(ArgsM {
                name: opt_text(name),
                icon: opt_text(icon),
                widget: opt_text(widget),
                ui: opt_text(ui),
                endpoints: opt_text(endpoints),
                save_config: opt_text(save_config),
                wit_world: opt_text(wit_world),
            }),
        decreases attr_args@.len() - i,
    {
        let a = &attr_args[i];
        let ghost acc = ArgsM {
            name: opt_text(name),
            icon: opt_text(icon),
            widget: opt_text(widget),
            ui: opt_text(ui),
            endpoints: opt_text(endpoints),
            save_config: opt_text(save_config),
            wit_world: opt_text(wit_world),
        };
        proof {
            let t = attr_args@.take(i + 1);
            assert(t.drop_last() =~= attr_args@.take(i as int));
            assert(t.last() == *a);
            assert(args_read(t) == arg_step(acc, *a, i));
            if arg_step(acc, *a, i) is Err {
                lemma_read_err_prefix(attr_args@, i + 1);
            }
        }
        if !a.is_name_value {
            return Err(make_error(ErrorSite::Arg(i), "Expected name-value pair"));
        }
        let k = match &a.key {
            None => {
                return Err(make_error(ErrorSite::ArgName(i), "Expected identifier"));
            },
            Some(k) => chars_of(k.as_str()),
        };
        if chars_eq_str(&k, "name") || chars_eq_str(&k, "icon") || chars_eq_str(&k, "widget")
            || chars_eq_str(&k, "wit_world") {
            let lit = match &a.string_literal {
                None => {
                    proof {
                        lemma_keys_distinct();
                    }
                    return Err(make_error(ErrorSite::ArgValue(i), "Expected string literal"));
                },
                Some(l) => copy_string(l),
            };
            proof {
                lemma_keys_distinct();
            }
            if chars_eq_str(&k, "name") {
                name = Some(lit);
            } else if chars_eq_str(&k, "icon") {
                icon = Some(lit);
            } else if chars_eq_str(&k, "widget") {
                widget = Some(lit);
            } else {
                wit_world = Some(lit);
            }
        } else if chars_eq_str(&k, "ui") {
            proof {
                lemma_keys_distinct();
            }
            match &a.some_args {
                Some(xs) => {
                    if xs.len() == 1 {
                        ui = Some(copy_string(&xs[0]));
                    } else {
                        return Err(make_error(ErrorSite::ArgValue(i), "Some must have exactly one argument"));
                    }
                },
                None => {
                    ui = Some(copy_string(&a.value));
                },
            }
        } else if chars_eq_str(&k, "endpoints") {
            proof {
                lemma_keys_distinct();
            }
            endpoints = Some(copy_string(&a.value));
        } else if chars_eq_str(&k, "save_config") {
            proof {
                lemma_keys_distinct();
            }
            save_config = Some(copy_string(&a.value));
        } else {
            return Err(make_error(ErrorSite::ArgName(i), "Unknown attribute"));
        }
        i = i + 1;
    }
    assert(attr_args@.take(attr_args@.len() as int) =~= attr_args@);
    let name = match name {
        None => {
            return Err(make_error(ErrorSite::FirstArg, "Missing 'name'"));
        },
        Some(n) => n,
    };
    let endpoints = match endpoints {
        None => {
            return Err(make_error(ErrorSite::FirstArg, "Missing 'endpoints'"));
        },
        Some(n) => n,
    };
    let save_config = match save_config {
        None => {
            return Err(make_error(ErrorSite::FirstArg, "Missing 'save_config'"));
        },
        Some(n) => n,
    };
    let wit_world = match wit_world {
        None => {
            return Err(make_error(ErrorSite::FirstArg, "Missing 'wit_world'"));
        },
        Some(n) => n,
    };
    Ok(HyperProcessArgs { name, icon, widget, ui, endpoints, save_config, wit_world })
}

/// An error in a prefix of the arguments is the error of all of them.
proof fn lemma_read_err_prefix(args: Seq<MetaArg>, k: int)
    requires
        0 <= k <= args.len(),
        args_read(args.take(k)) is Err,
    ensures
        args_read(args) == args_read(args.take(k)),
    decreases args.len() - k,
{
    if k < args.len() {
        let t = args.take(k + 1);
        assert(t.drop_last() =~= args.take(k));
        lemma_read_err_prefix(args, k + 1);
    } else {
        assert(args.take(k) =~= args);
    }
}

/// The argument names differ from one another.
proof fn lemma_keys_distinct()
    ensures
        "name"@ != "icon"@,
        "name"@ != "widget"@,
        "name"@ != "ui"@,
        "name"@ != "endpoints"@,
        "name"@ != "save_config"@,
        "name"@ != "wit_world"@,
        "icon"@ != "widget"@,
        "icon"@ != "ui"@,
        "icon"@ != "endpoints"@,
        "icon"@ != "save_config"@,
        "icon"@ != "wit_world"@,
        "widget"@ != "ui"@,
        "widget"@ != "endpoints"@,
        "widget"@ != "save_config"@,
        "widget"@ != "wit_world"@,
        "ui"@ != "endpoints"@,
        "ui"@ != "save_config"@,
        "ui"@ != "wit_world"@,
        "endpoints"@ != "save_config"@,
        "endpoints"@ != "wit_world"@,
        "save_config"@ != "wit_world"@,
{
    reveal_strlit("name");
    reveal_strlit("icon");
    reveal_strlit("widget");
    reveal_strlit("ui");
    reveal_strlit("endpoints");
    reveal_strlit("save_config");
    reveal_strlit("wit_world");
    assert("name"@[0] != "icon"@[0]);
    assert("name"@[0] != "widget"@[0]);
    assert("name"@[0] != "ui"@[0]);
    assert("name"@[0] != "endpoints"@[0]);
    assert("name"@[0] != "save_config"@[0]);
    assert("name"@[0] != "wit_world"@[0]);
    assert("icon"@[0] != "widget"@[0]);
    assert("icon"@[0] != "ui"@[0]);
    assert("icon"@[0] != "endpoints"@[0]);
    assert("icon"@[0] != "save_config"@[0]);
    assert("icon"@[0] != "wit_world"@[0]);
    assert("widget"@.len() != "ui"@.len());
    assert("widget"@[0] != "endpoints"@[0]);
    assert("widget"@[0] != "save_config"@[0]);
    assert("widget"@[2] != "wit_world"@[2]);
    assert("ui"@[0] != "endpoints"@[0]);
    assert("ui"@[0] != "save_config"@[0]);
    assert("ui"@[0] != "wit_world"@[0]);
    assert("endpoints"@[0] != "save_config"@[0]);
    assert("endpoints"@[0] != "wit_world"@[0]);
    assert("save_config"@[0] != "wit_world"@[0]);
}

/// A method of the annotated impl block, as far as the macro reads it.
pub struct MethodInfo {
    pub name: String,
    /// The attributes whose path is a single identifier, by that identifier.
    pub attributes: Vec<String>,
    pub is_async: bool,
    /// Its inputs in order: `None` for the `self` receiver, else the type as written.
    pub inputs: Vec<Option<String>>,
    /// The declared return type, `None` when there is none.
    pub return_type: Option<String>,
}

/// Whether the method carries `#[name]`.
pub open spec fn has_attr(m: MethodInfo, name: Seq<char>) -> bool {
    exists|k: int| 0 <= k < m.attributes@.len() && #[trigger] m.attributes@[k]@ == name
}

/// Whether the first input is the `self` receiver.
pub open spec fn has_receiver(m: MethodInfo) -> bool {
    m.inputs@.len() > 0 && m.inputs@[0] is None
}

/// Whether the method carries the attribute.
pub fn has_attribute(method: &MethodInfo, attr_name: &str) -> (b: bool)
    ensures
        b == has_attr(*method, attr_name@),
{
    let target = chars_of(attr_name);
    let mut k: usize = 0;
    while k < method.attributes.len()
        invariant
            k <= method.attributes@.len(),
            target@ == attr_name@,
            forall|j: int| 0 <= j < k ==> method.attributes@[j]@ != attr_name@,
        decreases method.attributes@.len() - k,
    {
        if crate::text::chars_eq(&chars_of(method.attributes[k].as_str()), &target) {
            return true;
        }
        k = k + 1;
    }
    false
}

/// Whether the first input is the `self` receiver.
pub fn has_valid_self_receiver(method: &MethodInfo) -> (b: bool)
    ensures
        b == has_receiver(*method),
{
    method.inputs.len() > 0 && method.inputs[0].is_none()
}

/// The check of an `#[init]` method: async, `&mut self` only, no return value.
pub open spec fn init_check(m: MethodInfo, i: usize) -> Result<(), (ErrorSite, Seq<char>)> {
    if !m.is_async {
        Err(err(ErrorSite::Signature(i), "Init method must be declared as async"@))
    } else if !has_receiver(m) {
        Err(err(ErrorSite::Signature(i), "Init method must take &mut self as first parameter"@))
    } else if m.inputs@.len() > 1 {
        Err(err(ErrorSite::Signature(i), "Init method must not take any parameters other than &mut self"@))
    } else if m.return_type is Some {
        Err(err(ErrorSite::Signature(i), "Init method must not return a value"@))
    } else {
        Ok(())
    }
}

/// Abstract form of a check result.
pub open spec fn check_view(r: Result<(), HyperError>) -> Result<(), (ErrorSite, Seq<char>)> {
    match r {
        Ok(()) => Ok(()),
        Err(e) => Err(error_view(e)),
    }
}

/// Checks the signature of the `#[init]` method `method`, method `i` of the block.
pub fn validate_init_method(method: &MethodInfo, i: usize) -> (r: Result<(), HyperError>)
    ensures
        check_view(r) == init_check(*method, i),
{
    if !method.is_async {
        return Err(make_error(ErrorSite::Signature(i), "Init method must be declared as async"));
    }
    if !has_valid_self_receiver(method) {
        return Err(make_error(ErrorSite::Signature(i), "Init method must take &mut self as first parameter"));
    }
    if method.inputs.len() > 1 {
        return Err(make_error(ErrorSite::Signature(i), "Init method must not take any parameters other than &mut self"));
    }
    if method.return_type.is_some() {
        return Err(make_error(ErrorSite::Signature(i), "Init method must not return a value"));
    }
    Ok(())
}

/// Whether input `k`, if typed, has a type whose text contains `needle`.
pub open spec fn input_mentions(m: MethodInfo, k: int, needle: Seq<char>) -> bool {
    match m.inputs@[k] {
        Some(t) => contains(t@, needle),
        None => true,
    }
}

/// The check of the `#[ws]` method: `&mut self` then a channel id (`u32`), a message
/// type and a blob, judged by the text of their types, and no return value.
pub open spec fn ws_check(m: MethodInfo, i: usize) -> Result<(), (ErrorSite, Seq<char>)> {
    if !has_receiver(m) {
        Err(err(ErrorSite::Signature(i), "WebSocket method must take &mut self as first parameter"@))
    } else if m.inputs@.len() != 4 {
        Err(err(
            ErrorSite::Signature(i),
            "WebSocket method must take exactly 3 additional parameters: channel_id, message_type, and blob"@,
        ))
    } else if !input_mentions(m, 1, "u32"@) {
        Err(err(ErrorSite::Input(i, 1), "First parameter of WebSocket method must be channel_id: u32"@))
    } else if !input_mentions(m, 2, "WsMessageType"@) && !input_mentions(m, 2, "MessageType"@) {
        Err(err(
            ErrorSite::Input(i, 2),
            "Second parameter of WebSocket method must be message_type: WsMessageType"@,
        ))
    } else if !input_mentions(m, 3, "LazyLoadBlob"@) {
        Err(err(ErrorSite::Input(i, 3), "Third parameter of WebSocket method must be blob: LazyLoadBlob"@))
    } else if m.return_type is Some {
        Err(err(ErrorSite::Output(i), "WebSocket method must not return a value"@))
    } else {
        Ok(())
    }
}

/// Whether input `k` of the method, if typed, mentions `needle` in its type.
fn input_mentions_exec(method: &MethodInfo, k: usize, needle: &str) -> (b: bool)
    requires
        k < method.inputs@.len(),
    ensures
        b == input_mentions(*method, k as int, needle@),
{
    match &method.inputs[k] {
        Some(t) => contains_exec(&chars_of(t.as_str()), &chars_of(needle)),
        None => true,
    }
}

/// Checks the signature of the `#[ws]` method `method`, method `i` of the block.
pub fn validate_websocket_method(method: &MethodInfo, i: usize) -> (r: Result<(), HyperError>)
    ensures
        check_view(r) == ws_check(*method, i),
{
    if !has_valid_self_receiver(method) {
        return Err(make_error(ErrorSite::Signature(i), "WebSocket method must take &mut self as first parameter"));
    }
    if method.inputs.len() != 4 {
        return Err(make_error(
            ErrorSite::Signature(i),
            "WebSocket method must take exactly 3 additional parameters: channel_id, message_type, and blob",
        ));
    }
    if !input_mentions_exec(method, 1, "u32") {
        return Err(make_error(ErrorSite::Input(i, 1), "First parameter of WebSocket method must be channel_id: u32"));
    }
    if !input_mentions_exec(method, 2, "WsMessageType") && !input_mentions_exec(method, 2, "MessageType") {
        return Err(make_error(
            ErrorSite::Input(i, 2),
            "Second parameter of WebSocket method must be message_type: WsMessageType",
        ));
    }
    if !input_mentions_exec(method, 3, "LazyLoadBlob") {
        return Err(make_error(ErrorSite::Input(i, 3), "Third parameter of WebSocket method must be blob: LazyLoadBlob"));
    }
    if method.return_type.is_some() {
        return Err(make_error(ErrorSite::Output(i), "WebSocket method must not return a value"));
    }
    Ok(())
}

/// The check of a request-response handler: it takes `&mut self` first.
pub open spec fn handler_check(m: MethodInfo, i: usize) -> Result<(), (ErrorSite, Seq<char>)> {
    if !has_receiver(m) {
        Err(err(
            ErrorSite::Signature(i),
            "Request-response handlers must take &mut self as their first parameter"@,
        ))
    } else {
        Ok(())
    }
}

/// Checks the signature of a request-response handler, method `i` of the block.
pub fn validate_request_response_function(method: &MethodInfo, i: usize) -> (r: Result<(), HyperError>)
    ensures
        check_view(r) == handler_check(*method, i),
{
    if !has_valid_self_receiver(method) {
        return Err(make_error(
            ErrorSite::Signature(i),
            "Request-response handlers must take &mut self as their first parameter",
        ));
    }
    Ok(())
}

/// A request-response handler: its name, the enum variant named after it, its
/// parameter types and return type as written, and its kinds.
pub struct FunctionMetadata {
    pub name: String,
    pub variant_name: String,
    pub params: Vec<String>,
    pub return_type: Option<String>,
    pub is_async: bool,
    pub is_local: bool,
    pub is_remote: bool,
    pub is_http: bool,
}

/// Abstract form of a handler.
pub struct FunctionM {
    pub name: Seq<char>,
    pub variant_name: Seq<char>,
    pub params: Seq<Seq<char>>,
    pub return_type: Option<Seq<char>>,
    pub is_async: bool,
    pub is_local: bool,
    pub is_remote: bool,
    pub is_http: bool,
}

/// Abstract form of a list of strings.
pub open spec fn texts(v: Seq<String>) -> Seq<Seq<char>> {
    v.map_values(|x: String| x@)
}

/// Abstract form of a handler.
pub open spec fn function_view(f: FunctionMetadata) -> FunctionM {
    FunctionM {
        name: f.name@,
        variant_name: f.variant_name@,
        params: texts(f.params@),
        return_type: opt_text(f.return_type),
        is_async: f.is_async,
        is_local: f.is_local,
        is_remote: f.is_remote,
        is_http: f.is_http,
    }
}

/// Abstract form of a list of handlers.
pub open spec fn functions_view(v: Seq<FunctionMetadata>) -> Seq<FunctionM> {
    v.map_values(|f: FunctionMetadata| function_view(f))
}

/// The types of the typed inputs, in order.
pub open spec fn typed_inputs(xs: Seq<Option<String>>) -> Seq<Seq<char>>
    decreases xs.len(),
{
    if xs.len() == 0 {
        Seq::empty()
    } else {
        let r = typed_inputs(xs.drop_last());
        match xs.last() {
            Some(t) => r.push(t@),
            None => r,
        }
    }
}

/// The types of the typed inputs after the first.
pub open spec fn params_of(inputs: Seq<Option<String>>) -> Seq<Seq<char>> {
    if inputs.len() == 0 {
        Seq::empty()
    } else {
        typed_inputs(inputs.skip(1))
    }
}

/// The handler a method stands for: the types of its inputs after the first, and
/// the variant named by its name in CamelCase.
pub open spec fn metadata_of(m: MethodInfo, is_local: bool, is_remote: bool, is_http: bool) -> FunctionM {
    FunctionM {
        name: m.name@,
        variant_name: snake_camel(m.name@),
        params: params_of(m.inputs@),
        return_type: opt_text(m.return_type),
        is_async: m.is_async,
        is_local,
        is_remote,
        is_http,
    }
}

/// Reads the handler a method stands for.
pub fn extract_function_metadata(
    method: &MethodInfo,
    is_local: bool,
    is_remote: bool,
    is_http: bool,
) -> (f: FunctionMetadata)
    ensures
        function_view(f) == metadata_of(*method, is_local, is_remote, is_http),
{
    let mut params: Vec<String> = Vec::new();
    if method.inputs.len() > 0 {
        let ghost rest = method.inputs@.skip(1);
        assert(rest.take(0) =~= Seq::<Option<String>>::empty());
        assert(texts(params@) =~= Seq::<Seq<char>>::empty());
        let mut k: usize = 1;
        while k < method.inputs.len()
            invariant
                1 <= k <= method.inputs@.len(),
                rest == method.inputs@.skip(1),
                texts(params@) == typed_inputs(rest.take(k - 1)),
            decreases method.inputs@.len() - k,
        {
            match &method.inputs[k] {
                Some(t) => {
                    params.push(copy_string(t));
                },
                None => {},
            }
            proof {
                let t = rest.take(k as int);
                assert(t.drop_last() =~= rest.take(k - 1));
                assert(t.last() == method.inputs@[k as int]);
                assert(texts(params@) =~= typed_inputs(t));
            }
            k = k + 1;
        }
        assert(rest.take(method.inputs@.len() - 1) =~= rest);
    } else {
        assert(texts(params@) =~= Seq::<Seq<char>>::empty());
    }
    let return_type = match &method.return_type {
        Some(t) => Some(copy_string(t)),
        None => None,
    };
    FunctionMetadata {
        name: copy_string(&method.name),
        variant_name: snake_to_camel(method.name.as_str()),
        params,
        return_type,
        is_async: method.is_async,
        is_local,
        is_remote,
        is_http,
    }
}

/// What the analysis of methods found so far: the init method, the WebSocket
/// method and the handlers.
pub struct AnalysisM {
    pub init: Option<Seq<char>>,
    pub ws: Option<Seq<char>>,
    pub functions: Seq<FunctionM>,
}

/// Sorting method `i` into the analysis so far.
pub open spec fn method_step(acc: AnalysisM, m: MethodInfo, i: usize) -> Result<AnalysisM, (ErrorSite, Seq<char>)> {
    let init = has_attr(m, "init"@);
    let http = has_attr(m, "http"@);
    let local = has_attr(m, "local"@);
    let remote = has_attr(m, "remote"@);
    let ws = has_attr(m, "ws"@);
    if init {
        if http || local || remote || ws {
            Err(err(ErrorSite::Method(i), "#[init] cannot be combined with other attributes"@))
        } else if init_check(m, i) is Err {
            Err(init_check(m, i)->Err_0)
        } else if acc.init is Some {
            Err(err(ErrorSite::Method(i), "Multiple #[init] methods defined"@))
        } else {
            Ok(AnalysisM { init: Some(m.name@), ..acc })
        }
    } else if ws {
        if http || local || remote {
            Err(err(ErrorSite::Method(i), "#[ws] cannot be combined with other attributes"@))
        } else if ws_check(m, i) is Err {
            Err(ws_check(m, i)->Err_0)
        } else if acc.ws is Some {
            Err(err(ErrorSite::Method(i), "Multiple #[ws] methods defined"@))
        } else {
            Ok(AnalysisM { ws: Some(m.name@), ..acc })
        }
    } else if http || local || remote {
        if handler_check(m, i) is Err {
            Err(handler_check(m, i)->Err_0)
        } else {
            Ok(AnalysisM { functions: acc.functions.push(metadata_of(m, local, remote, http)), ..acc })
        }
    } else {
        Ok(acc)
    }
}

/// Sorting the methods in order, stopping at the first error.
pub open spec fn methods_read(ms: Seq<MethodInfo>) -> Result<AnalysisM, (ErrorSite, Seq<char>)>
    decreases ms.len(),
{
    if ms.len() == 0 {
        Ok(AnalysisM { init: None, ws: None, functions: Seq::empty() })
    } else {
        match methods_read(ms.drop_last()) {
            Err(e) => Err(e),
            Ok(acc) => method_step(acc, ms.last(), (ms.len() - 1) as usize),
        }
    }
}

/// The message when no handler is given.
pub open spec fn no_handler_message() -> Seq<char> {
    "You must specify at least one handler with #[remote], #[local], or #[http] attribute. Without any handlers, this hyperprocess wouldn't respond to any requests."@
}

/// The analysis of the methods of the block: the init method, the WebSocket method
/// and the handlers, or the first error; at least one handler is needed.
pub open spec fn analysis_spec(ms: Seq<MethodInfo>) -> Result<AnalysisM, (ErrorSite, Seq<char>)> {
    match methods_read(ms) {
        Err(e) => Err(e),
        Ok(a) => if a.functions.len() == 0 {
            Err(err(ErrorSite::CallSite, no_handler_message()))
        } else {
            Ok(a)
        },
    }
}

/// An error in a prefix of the methods is the error of all of them.
proof fn lemma_methods_err_prefix(ms: Seq<MethodInfo>, k: int)
    requires
        0 <= k <= ms.len(),
        methods_read(ms.take(k)) is Err,
    ensures
        methods_read(ms) == methods_read(ms.take(k)),
    decreases ms.len() - k,
{
    if k < ms.len() {
        let t = ms.take(k + 1);
        assert(t.drop_last() =~= ms.take(k));
        lemma_methods_err_prefix(ms, k + 1);
    } else {
        assert(ms.take(k) =~= ms);
    }
}

/// The result of analysing methods: the init method, the WebSocket method, the handlers.
pub struct Analysis {
    pub init_method: Option<String>,
    pub ws_method: Option<String>,
    pub functions: Vec<FunctionMetadata>,
}

/// Abstract form of an analysis.
pub open spec fn analysis_view(a: Analysis) -> AnalysisM {
    AnalysisM { init: opt_text(a.init_method), ws: opt_text(a.ws_method), functions: functions_view(a.functions@) }
}

/// Sorts the methods of the block into the init method, the WebSocket method and
/// the request-response handlers, checking their signatures.
#[verifier::spinoff_prover]
pub fn analyze_methods(methods: &Vec<MethodInfo>) -> (r: Result<Analysis, HyperError>)
    ensures
        match r {
            Ok(a) => analysis_spec(methods@) == Ok::<AnalysisM, (ErrorSite, Seq<char>)>(analysis_view(a)),
            Err(e) => analysis_spec(methods@) == Err::<AnalysisM, (ErrorSite, Seq<char>)>(error_view(e)),
        },
{
    let mut init_method: Option<String> = None;
    let mut ws_method: Option<String> = None;
    let mut functions: Vec<FunctionMetadata> = Vec::new();
    assert(functions_view(functions@) =~= Seq::<FunctionM>::empty());
    assert(methods@.take(0) =~= Seq::<MethodInfo>::empty());
    let mut i: usize = 0;
    while i < methods.len()
        invariant
            i <= methods@.len(),
            methods_read(methods@.take(i as int)) == Ok::<AnalysisM, (ErrorSite, Seq<char>)>(AnalysisM {
                init: opt_text(init_method),
                ws: opt_text(ws_method),
                functions: functions_view(functions@),
            }),
        decreases methods@.len() - i,
    {
        let method = &methods[i];
        let ghost acc = AnalysisM {
            init: opt_text(init_method),
            ws: opt_text(ws_method),
            functions: functions_view(functions@),
        };
        proof {
            let t = methods@.take(i + 1);
            assert(t.drop_last() =~= methods@.take(i as int));
            assert(t.last() == *method);
            assert(methods_read(t) == method_step(acc, *method, i));
            if method_step(acc, *method, i) is Err {
                lemma_methods_err_prefix(methods@, i + 1);
            }
        }
        let has_init = has_attribute(method, "init");
        let has_http = has_attribute(method, "http");
        let has_local = has_attribute(method, "local");
        let has_remote = has_attribute(method, "remote");
        let has_ws = has_attribute(method, "ws");
        if has_init {
            if has_http || has_local || has_remote || has_ws {
                return Err(make_error(ErrorSite::Method(i), "#[init] cannot be combined with other attributes"));
            }
            match validate_init_method(method, i) {
                Err(e) => {
                    return Err(e);
                },
                Ok(()) => {},
            }
            if init_method.is_some() {
                return Err(make_error(ErrorSite::Method(i), "Multiple #[init] methods defined"));
            }
            init_method = Some(copy_string(&method.name));
        } else if has_ws {
            if has_http || has_local || has_remote {
                return Err(make_error(ErrorSite::Method(i), "#[ws] cannot be combined with other attributes"));
            }
            match validate_websocket_method(method, i) {
                Err(e) => {
                    return Err(e);
                },
                Ok(()) => {},
            }
            if ws_method.is_some() {
                return Err(make_error(ErrorSite::Method(i), "Multiple #[ws] methods defined"));
            }
            ws_method = Some(copy_string(&method.name));
        } else if has_http || has_local || has_remote {
            match validate_request_response_function(method, i) {
                Err(e) => {
                    return Err(e);
                },
                Ok(()) => {},
            }
            let f = extract_function_metadata(method, has_local, has_remote, has_http);
            let ghost before = functions@;
            functions.push(f);
            assert(functions_view(functions@) =~= functions_view(before).push(function_view(f)));
        }
        i = i + 1;
    }
    assert(methods@.take(methods@.len() as int) =~= methods@);
    if functions.len() == 0 {
        return Err(make_error(
            ErrorSite::CallSite,
            "You must specify at least one handler with #[remote], #[local], or #[http] attribute. Without any handlers, this hyperprocess wouldn't respond to any requests.",
        ));
    }
    Ok(Analysis { init_method, ws_method, functions })
}

/// What a local or remote handler arm does with the handler's result: wrap it in the response variant and send it as the response.
pub open spec fn response_handling_message_text(variant: Seq<char>) -> Seq<char> {
    "let response = Response::"@
        + variant
        + "(result); let resp = hyperware_process_lib::Response::new().body(serde_json::to_vec(&response).unwrap()); resp.send().unwrap();"@
}

/// Writes `response_handling_message_text`.
fn write_response_handling_message_text(out: &mut String, variant: &str)
    ensures
        final(out)@ == old(out)@ + response_handling_message_text(variant@),
{
    let ghost start = out@;
    push_str(out, "let response = Response::");
    push_str(out, variant);
    push_str(out, "(result); let resp = hyperware_process_lib::Response::new().body(serde_json::to_vec(&response).unwrap()); resp.send().unwrap();");
    assert(out@ =~= start + response_handling_message_text(variant@));
}

/// What an HTTP handler arm does with the handler's result: wrap it in the response variant and send it as a 200 HTTP response.
pub open spec fn response_handling_http_text(variant: Seq<char>) -> Seq<char> {
    "let response = Response::"@
        + variant
        + "(result); let response_bytes = serde_json::to_vec(&response).unwrap(); hyperware_process_lib::http::server::send_response(hyperware_process_lib::http::StatusCode::OK, None, response_bytes);"@
}

/// Writes `response_handling_http_text`.
fn write_response_handling_http_text(out: &mut String, variant: &str)
    ensures
        final(out)@ == old(out)@ + response_handling_http_text(variant@),
{
    let ghost start = out@;
    push_str(out, "let response = Response::");
    push_str(out, variant);
    push_str(out, "(result); let response_bytes = serde_json::to_vec(&response).unwrap(); hyperware_process_lib::http::server::send_response(hyperware_process_lib::http::StatusCode::OK, None, response_bytes);");
    assert(out@ =~= start + response_handling_http_text(variant@));
}

/// A dispatch arm for an async handler without parameters.
pub open spec fn async_arm0_text(variant: Seq<char>, self_ty: Seq<char>, fn_name: Seq<char>, handling: Seq<char>) -> Seq<char> {
    "Request::"@
        + variant
        + " => { let state_ptr: *mut "@
        + self_ty
        + " = state; hyperware_app_common::hyper! { let result = unsafe { (*state_ptr)."@
        + fn_name
        + "().await }; "@
        + handling
        + " } }"@
}

/// Writes `async_arm0_text`.
fn write_async_arm0_text(out: &mut String, variant: &str, self_ty: &str, fn_name: &str, handling: &str)
    ensures
        final(out)@ == old(out)@ + async_arm0_text(variant@, self_ty@, fn_name@, handling@),
{
    let ghost start = out@;
    push_str(out, "Request::");
    push_str(out, variant);
    push_str(out, " => { let state_ptr: *mut ");
    push_str(out, self_ty);
    push_str(out, " = state; hyperware_app_common::hyper! { let result = unsafe { (*state_ptr).");
    push_str(out, fn_name);
    push_str(out, "().await }; ");
    push_str(out, handling);
    push_str(out, " } }");
    assert(out@ =~= start + async_arm0_text(variant@, self_ty@, fn_name@, handling@));
}

/// A dispatch arm for an async handler with one parameter.
pub open spec fn async_arm1_text(variant: Seq<char>, self_ty: Seq<char>, fn_name: Seq<char>, handling: Seq<char>) -> Seq<char> {
    "Request::"@
        + variant
        + "(param) => { let param_captured = param; let state_ptr: *mut "@
        + self_ty
        + " = state; hyperware_app_common::hyper! { let result = unsafe { (*state_ptr)."@
        + fn_name
        + "(param_captured).await }; "@
        + handling
        + " } }"@
}

/// Writes `async_arm1_text`.
fn write_async_arm1_text(out: &mut String, variant: &str, self_ty: &str, fn_name: &str, handling: &str)
    ensures
        final(out)@ == old(out)@ + async_arm1_text(variant@, self_ty@, fn_name@, handling@),
{
    let ghost start = out@;
    push_str(out, "Request::");
    push_str(out, variant);
    push_str(out, "(param) => { let param_captured = param; let state_ptr: *mut ");
    push_str(out, self_ty);
    push_str(out, " = state; hyperware_app_common::hyper! { let result = unsafe { (*state_ptr).");
    push_str(out, fn_name);
    push_str(out, "(param_captured).await }; ");
    push_str(out, handling);
    push_str(out, " } }");
    assert(out@ =~= start + async_arm1_text(variant@, self_ty@, fn_name@, handling@));
}

/// A dispatch arm for an async handler with several parameters.
pub open spec fn async_arm_n_text(variant: Seq<char>, params: Seq<char>, captures: Seq<char>, self_ty: Seq<char>, fn_name: Seq<char>, captured: Seq<char>, handling: Seq<char>) -> Seq<char> {
    "Request::"@
        + variant
        + "("@
        + params
        + ") => { "@
        + captures
        + " let state_ptr: *mut "@
        + self_ty
        + " = state; hyperware_app_common::hyper! { let result = unsafe { (*state_ptr)."@
        + fn_name
        + "("@
        + captured
        + ").await }; "@
        + handling
        + " } }"@
}

/// Writes `async_arm_n_text`.
fn write_async_arm_n_text(out: &mut String, variant: &str, params: &str, captures: &str, self_ty: &str, fn_name: &str, captured: &str, handling: &str)
    ensures
        final(out)@ == old(out)@ + async_arm_n_text(variant@, params@, captures@, self_ty@, fn_name@, captured@, handling@),
{
    let ghost start = out@;
    push_str(out, "Request::");
    push_str(out, variant);
    push_str(out, "(");
    push_str(out, params);
    push_str(out, ") => { ");
    push_str(out, captures);
    push_str(out, " let state_ptr: *mut ");
    push_str(out, self_ty);
    push_str(out, " = state; hyperware_app_common::hyper! { let result = unsafe { (*state_ptr).");
    push_str(out, fn_name);
    push_str(out, "(");
    push_str(out, captured);
    push_str(out, ").await }; ");
    push_str(out, handling);
    push_str(out, " } }");
    assert(out@ =~= start + async_arm_n_text(variant@, params@, captures@, self_ty@, fn_name@, captured@, handling@));
}

/// A dispatch arm for a handler without parameters.
pub open spec fn sync_arm0_text(variant: Seq<char>, fn_name: Seq<char>, handling: Seq<char>) -> Seq<char> {
    "Request::"@
        + variant
        + " => { let result = unsafe { (*state)."@
        + fn_name
        + "() }; "@
        + handling
        + " }"@
}

/// Writes `sync_arm0_text`.
fn write_sync_arm0_text(out: &mut String, variant: &str, fn_name: &str, handling: &str)
    ensures
        final(out)@ == old(out)@ + sync_arm0_text(variant@, fn_name@, handling@),
{
    let ghost start = out@;
    push_str(out, "Request::");
    push_str(out, variant);
    push_str(out, " => { let result = unsafe { (*state).");
    push_str(out, fn_name);
    push_str(out, "() }; ");
    push_str(out, handling);
    push_str(out, " }");
    assert(out@ =~= start + sync_arm0_text(variant@, fn_name@, handling@));
}

/// A dispatch arm for a handler with one parameter.
pub open spec fn sync_arm1_text(variant: Seq<char>, fn_name: Seq<char>, handling: Seq<char>) -> Seq<char> {
    "Request::"@
        + variant
        + "(param) => { let result = unsafe { (*state)."@
        + fn_name
        + "(param) }; "@
        + handling
        + " }"@
}

/// Writes `sync_arm1_text`.
fn write_sync_arm1_text(out: &mut String, variant: &str, fn_name: &str, handling: &str)
    ensures
        final(out)@ == old(out)@ + sync_arm1_text(variant@, fn_name@, handling@),
{
    let ghost start = out@;
    push_str(out, "Request::");
    push_str(out, variant);
    push_str(out, "(param) => { let result = unsafe { (*state).");
    push_str(out, fn_name);
    push_str(out, "(param) }; ");
    push_str(out, handling);
    push_str(out, " }");
    assert(out@ =~= start + sync_arm1_text(variant@, fn_name@, handling@));
}

/// A dispatch arm for a handler with several parameters.
pub open spec fn sync_arm_n_text(variant: Seq<char>, params: Seq<char>, fn_name: Seq<char>, handling: Seq<char>) -> Seq<char> {
    "Request::"@
        + variant
        + "("@
        + params
        + ") => { let result = unsafe { (*state)."@
        + fn_name
        + "("@
        + params
        + ") }; "@
        + handling
        + " }"@
}

/// Writes `sync_arm_n_text`.
fn write_sync_arm_n_text(out: &mut String, variant: &str, params: &str, fn_name: &str, handling: &str)
    ensures
        final(out)@ == old(out)@ + sync_arm_n_text(variant@, params@, fn_name@, handling@),
{
    let ghost start = out@;
    push_str(out, "Request::");
    push_str(out, variant);
    push_str(out, "(");
    push_str(out, params);
    push_str(out, ") => { let result = unsafe { (*state).");
    push_str(out, fn_name);
    push_str(out, "(");
    push_str(out, params);
    push_str(out, ") }; ");
    push_str(out, handling);
    push_str(out, " }");
    assert(out@ =~= start + sync_arm_n_text(variant@, params@, fn_name@, handling@));
}

/// The match of a request against the arms of one handler kind, with an unreachable arm for the other variants.
pub open spec fn dispatch_match_text(arms: Seq<char>, kind_label: Seq<char>) -> Seq<char> {
    "match request { "@
        + arms
        + " _ => unreachable!(concat!(\"Non-\", \""@
        + kind_label
        + "\", \" request variant received in \", \""@
        + kind_label
        + "\", \" handler\")) }"@
}

/// Writes `dispatch_match_text`.
fn write_dispatch_match_text(out: &mut String, arms: &str, kind_label: &str)
    ensures
        final(out)@ == old(out)@ + dispatch_match_text(arms@, kind_label@),
{
    let ghost start = out@;
    push_str(out, "match request { ");
    push_str(out, arms);
    push_str(out, " _ => unreachable!(concat!(\"Non-\", \"");
    push_str(out, kind_label);
    push_str(out, "\", \" request variant received in \", \"");
    push_str(out, kind_label);
    push_str(out, "\", \" handler\")) }");
    assert(out@ =~= start + dispatch_match_text(arms@, kind_label@));
}

/// The warning logged when a request arrives for a kind without handlers.
pub open spec fn no_handlers_text(message: Seq<char>) -> Seq<char> {
    "hyperware_process_lib::logging::warn!(\""@
        + message
        + "\");"@
}

/// Writes `no_handlers_text`.
fn write_no_handlers_text(out: &mut String, message: &str)
    ensures
        final(out)@ == old(out)@ + no_handlers_text(message@),
{
    let ghost start = out@;
    push_str(out, "hyperware_process_lib::logging::warn!(\"");
    push_str(out, message);
    push_str(out, "\");");
    assert(out@ =~= start + no_handlers_text(message@));
}

/// The call of the init method, run as a task.
pub open spec fn init_call_text(self_ty: Seq<char>, method: Seq<char>) -> Seq<char> {
    "let state_ptr: *mut "@
        + self_ty
        + " = &mut state; hyperware_app_common::hyper! { unsafe { (*state_ptr)."@
        + method
        + "().await }; }"@
}

/// Writes `init_call_text`.
fn write_init_call_text(out: &mut String, self_ty: &str, method: &str)
    ensures
        final(out)@ == old(out)@ + init_call_text(self_ty@, method@),
{
    let ghost start = out@;
    push_str(out, "let state_ptr: *mut ");
    push_str(out, self_ty);
    push_str(out, " = &mut state; hyperware_app_common::hyper! { unsafe { (*state_ptr).");
    push_str(out, method);
    push_str(out, "().await }; }");
    assert(out@ =~= start + init_call_text(self_ty@, method@));
}

/// The call of the WebSocket method.
pub open spec fn ws_call_text(method: Seq<char>) -> Seq<char> {
    "unsafe { (*state)."@
        + method
        + "(channel_id, message_type, blob) };"@
}

/// Writes `ws_call_text`.
fn write_ws_call_text(out: &mut String, method: &str)
    ensures
        final(out)@ == old(out)@ + ws_call_text(method@),
{
    let ghost start = out@;
    push_str(out, "unsafe { (*state).");
    push_str(out, method);
    push_str(out, "(channel_id, message_type, blob) };");
    assert(out@ =~= start + ws_call_text(method@));
}

/// The function that handles messages from the HTTP server: HTTP requests go to the HTTP arms (with the request path recorded meanwhile), WebSocket pushes to the WebSocket method.
pub open spec fn http_server_handler_text(self_ty: Seq<char>, arms: Seq<char>, ws_call: Seq<char>) -> Seq<char> {
    "/// Handle messages from the HTTP server\nfn handle_http_server_message(state: *mut "@
        + self_ty
        + ", message: hyperware_process_lib::Message) { match serde_json::from_slice::<hyperware_process_lib::http::server::HttpServerRequest>(message.body()) { Ok(http_server_request) => { match http_server_request { hyperware_process_lib::http::server::HttpServerRequest::Http(http_request) => { hyperware_app_common::APP_CONTEXT.with(|ctx| { ctx.borrow_mut().current_path = Some(http_request.path().clone().expect(\"Failed to get path from HTTP request\")); }); let Some(blob) = message.blob() else { hyperware_process_lib::logging::warn!(\"Failed to get blob for HTTP, sending BAD_REQUEST\"); hyperware_process_lib::http::server::send_response(hyperware_process_lib::http::StatusCode::BAD_REQUEST, None, vec![]); return; }; match serde_json::from_slice::<serde_json::Value>(blob.bytes()) { Ok(req_value) => { match serde_json::from_value::<Request>(req_value.clone()) { Ok(request) => { unsafe { "@
        + arms
        + " hyperware_app_common::maybe_save_state(&mut *state); } }, Err(e) => { hyperware_process_lib::logging::warn!(\"Failed to deserialize HTTP request into Request enum: {}\", e); hyperware_process_lib::http::server::send_response(hyperware_process_lib::http::StatusCode::BAD_REQUEST, None, format!(\"Invalid request format: {}\", e).into_bytes()); } } }, Err(e) => { hyperware_process_lib::logging::warn!(\"Failed to parse HTTP request as JSON: {}\", e); hyperware_process_lib::http::server::send_response(hyperware_process_lib::http::StatusCode::BAD_REQUEST, None, format!(\"Invalid JSON: {}\", e).into_bytes()); } } hyperware_app_common::APP_CONTEXT.with(|ctx| { ctx.borrow_mut().current_path = None; }); }, hyperware_process_lib::http::server::HttpServerRequest::WebSocketPush { channel_id, message_type } => { let Some(blob) = message.blob() else { hyperware_process_lib::logging::warn!(\"Failed to get blob for WebSocketPush, exiting\"); return; }; "@
        + ws_call
        + " unsafe { hyperware_app_common::maybe_save_state(&mut *state); } }, hyperware_process_lib::http::server::HttpServerRequest::WebSocketOpen { path, channel_id } => { hyperware_app_common::get_server().unwrap().handle_websocket_open(&path, channel_id); }, hyperware_process_lib::http::server::HttpServerRequest::WebSocketClose(channel_id) => { hyperware_app_common::get_server().unwrap().handle_websocket_close(channel_id); } } }, Err(e) => { hyperware_process_lib::logging::warn!(\"Failed to parse HTTP server request: {}\", e); } } }"@
}

/// Writes `http_server_handler_text`.
fn write_http_server_handler_text(out: &mut String, self_ty: &str, arms: &str, ws_call: &str)
    ensures
        final(out)@ == old(out)@ + http_server_handler_text(self_ty@, arms@, ws_call@),
{
    let ghost start = out@;
    push_str(out, "/// Handle messages from the HTTP server\nfn handle_http_server_message(state: *mut ");
    push_str(out, self_ty);
    push_str(out, ", message: hyperware_process_lib::Message) { match serde_json::from_slice::<hyperware_process_lib::http::server::HttpServerRequest>(message.body()) { Ok(http_server_request) => { match http_server_request { hyperware_process_lib::http::server::HttpServerRequest::Http(http_request) => { hyperware_app_common::APP_CONTEXT.with(|ctx| { ctx.borrow_mut().current_path = Some(http_request.path().clone().expect(\"Failed to get path from HTTP request\")); }); let Some(blob) = message.blob() else { hyperware_process_lib::logging::warn!(\"Failed to get blob for HTTP, sending BAD_REQUEST\"); hyperware_process_lib::http::server::send_response(hyperware_process_lib::http::StatusCode::BAD_REQUEST, None, vec![]); return; }; match serde_json::from_slice::<serde_json::Value>(blob.bytes()) { Ok(req_value) => { match serde_json::from_value::<Request>(req_value.clone()) { Ok(request) => { unsafe { ");
    push_str(out, arms);
    push_str(out, " hyperware_app_common::maybe_save_state(&mut *state); } }, Err(e) => { hyperware_process_lib::logging::warn!(\"Failed to deserialize HTTP request into Request enum: {}\", e); hyperware_process_lib::http::server::send_response(hyperware_process_lib::http::StatusCode::BAD_REQUEST, None, format!(\"Invalid request format: {}\", e).into_bytes()); } } }, Err(e) => { hyperware_process_lib::logging::warn!(\"Failed to parse HTTP request as JSON: {}\", e); hyperware_process_lib::http::server::send_response(hyperware_process_lib::http::StatusCode::BAD_REQUEST, None, format!(\"Invalid JSON: {}\", e).into_bytes()); } } hyperware_app_common::APP_CONTEXT.with(|ctx| { ctx.borrow_mut().current_path = None; }); }, hyperware_process_lib::http::server::HttpServerRequest::WebSocketPush { channel_id, message_type } => { let Some(blob) = message.blob() else { hyperware_process_lib::logging::warn!(\"Failed to get blob for WebSocketPush, exiting\"); return; }; ");
    push_str(out, ws_call);
    push_str(out, " unsafe { hyperware_app_common::maybe_save_state(&mut *state); } }, hyperware_process_lib::http::server::HttpServerRequest::WebSocketOpen { path, channel_id } => { hyperware_app_common::get_server().unwrap().handle_websocket_open(&path, channel_id); }, hyperware_process_lib::http::server::HttpServerRequest::WebSocketClose(channel_id) => { hyperware_app_common::get_server().unwrap().handle_websocket_close(channel_id); } } }, Err(e) => { hyperware_process_lib::logging::warn!(\"Failed to parse HTTP server request: {}\", e); } } }");
    assert(out@ =~= start + http_server_handler_text(self_ty@, arms@, ws_call@));
}

/// The function that handles local messages with the local arms.
pub open spec fn local_handler_text(self_ty: Seq<char>, arms: Seq<char>) -> Seq<char> {
    "/// Handle local messages\nfn handle_local_message(state: *mut "@
        + self_ty
        + ", message: hyperware_process_lib::Message) { match serde_json::from_slice::<serde_json::Value>(message.body()) { Ok(req_value) => { match serde_json::from_value::<Request>(req_value.clone()) { Ok(request) => { unsafe { "@
        + arms
        + " hyperware_app_common::maybe_save_state(&mut *state); } }, Err(e) => { hyperware_process_lib::logging::warn!(\"Failed to deserialize local request into Request enum: {}\", e); } } }, Err(e) => { hyperware_process_lib::logging::warn!(\"Failed to parse message body as JSON: {}\", e); } } }"@
}

/// Writes `local_handler_text`.
fn write_local_handler_text(out: &mut String, self_ty: &str, arms: &str)
    ensures
        final(out)@ == old(out)@ + local_handler_text(self_ty@, arms@),
{
    let ghost start = out@;
    push_str(out, "/// Handle local messages\nfn handle_local_message(state: *mut ");
    push_str(out, self_ty);
    push_str(out, ", message: hyperware_process_lib::Message) { match serde_json::from_slice::<serde_json::Value>(message.body()) { Ok(req_value) => { match serde_json::from_value::<Request>(req_value.clone()) { Ok(request) => { unsafe { ");
    push_str(out, arms);
    push_str(out, " hyperware_app_common::maybe_save_state(&mut *state); } }, Err(e) => { hyperware_process_lib::logging::warn!(\"Failed to deserialize local request into Request enum: {}\", e); } } }, Err(e) => { hyperware_process_lib::logging::warn!(\"Failed to parse message body as JSON: {}\", e); } } }");
    assert(out@ =~= start + local_handler_text(self_ty@, arms@));
}

/// The function that handles remote messages with the remote arms.
pub open spec fn remote_handler_text(self_ty: Seq<char>, arms: Seq<char>) -> Seq<char> {
    "/// Handle remote messages\nfn handle_remote_message(state: *mut "@
        + self_ty
        + ", message: hyperware_process_lib::Message) { match serde_json::from_slice::<serde_json::Value>(message.body()) { Ok(req_value) => { match serde_json::from_value::<Request>(req_value.clone()) { Ok(request) => { unsafe { "@
        + arms
        + " hyperware_app_common::maybe_save_state(&mut *state); } }, Err(e) => { hyperware_process_lib::logging::warn!(\"Failed to deserialize remote request into Request enum: {}\", e); } } }, Err(e) => { hyperware_process_lib::logging::warn!(\"Failed to parse message body as JSON: {}\", e); } } }"@
}

/// Writes `remote_handler_text`.
fn write_remote_handler_text(out: &mut String, self_ty: &str, arms: &str)
    ensures
        final(out)@ == old(out)@ + remote_handler_text(self_ty@, arms@),
{
    let ghost start = out@;
    push_str(out, "/// Handle remote messages\nfn handle_remote_message(state: *mut ");
    push_str(out, self_ty);
    push_str(out, ", message: hyperware_process_lib::Message) { match serde_json::from_slice::<serde_json::Value>(message.body()) { Ok(req_value) => { match serde_json::from_value::<Request>(req_value.clone()) { Ok(request) => { unsafe { ");
    push_str(out, arms);
    push_str(out, " hyperware_app_common::maybe_save_state(&mut *state); } }, Err(e) => { hyperware_process_lib::logging::warn!(\"Failed to deserialize remote request into Request enum: {}\", e); } } }, Err(e) => { hyperware_process_lib::logging::warn!(\"Failed to parse message body as JSON: {}\", e); } } }");
    assert(out@ =~= start + remote_handler_text(self_ty@, arms@));
}

/// The WIT bindings for the process's world, and the imports the generated code uses.
pub open spec fn wit_binding_text(wit_world: Seq<char>) -> Seq<char> {
    "wit_bindgen::generate!({ path: \"target/wit\", world: "@
        + wit_world
        + ", generate_unused_types: true, additional_derives: [serde::Deserialize, serde::Serialize, process_macros::SerdeJsonInto], }); hyper_bindgen::generate!({ path: \"target/wit\", world: "@
        + wit_world
        + ", }); use hyperware_process_lib::http::server::HttpBindingConfig; use hyperware_process_lib::http::server::WsBindingConfig; use hyperware_app_common::Binding;"@
}

/// Writes `wit_binding_text`.
fn write_wit_binding_text(out: &mut String, wit_world: &str)
    ensures
        final(out)@ == old(out)@ + wit_binding_text(wit_world@),
{
    let ghost start = out@;
    push_str(out, "wit_bindgen::generate!({ path: \"target/wit\", world: ");
    push_str(out, wit_world);
    push_str(out, ", generate_unused_types: true, additional_derives: [serde::Deserialize, serde::Serialize, process_macros::SerdeJsonInto], }); hyper_bindgen::generate!({ path: \"target/wit\", world: ");
    push_str(out, wit_world);
    push_str(out, ", }); use hyperware_process_lib::http::server::HttpBindingConfig; use hyperware_process_lib::http::server::WsBindingConfig; use hyperware_app_common::Binding;");
    assert(out@ =~= start + wit_binding_text(wit_world@));
}

/// The component: its `init` sets up state, server and init task, then runs the message loop (polling tasks, filing responses by correlation id, dispatching requests by origin, and handing send errors to their waiters).
pub open spec fn component_text(self_ty: Seq<char>, name: Seq<char>, icon: Seq<char>, widget: Seq<char>, ui: Seq<char>, endpoints: Seq<char>, init_ident: Seq<char>, init_call: Seq<char>) -> Seq<char> {
    "struct Component; impl Guest for Component { fn init(_our: String) { let mut state = hyperware_app_common::initialize_state::<"@
        + self_ty
        + ">(); let app_name = "@
        + name
        + "; let app_icon = "@
        + icon
        + "; let app_widget = "@
        + widget
        + "; let ui_config = "@
        + ui
        + "; let endpoints = "@
        + endpoints
        + "; if app_icon.is_some() && app_widget.is_some() { hyperware_process_lib::homepage::add_to_homepage(app_name, app_icon, Some(\"/\"), app_widget); } hyperware_process_lib::logging::init_logging(hyperware_process_lib::logging::Level::DEBUG, hyperware_process_lib::logging::Level::INFO, None, Some((0, 0, 1, 1)), None).unwrap(); let mut server = hyperware_app_common::setup_server(ui_config.as_ref(), &endpoints); hyperware_app_common::APP_CONTEXT.with(|ctx| { ctx.borrow_mut().current_server = Some(&mut server); }); if "@
        + init_ident
        + ".is_some() { "@
        + init_call
        + " } loop { hyperware_app_common::APP_CONTEXT.with(|ctx| { ctx.borrow_mut().executor.poll_all_tasks(); }); match hyperware_process_lib::await_message() { Ok(message) => { match message { hyperware_process_lib::Message::Response {body, context, ..} => { let correlation_id = context.as_deref().map(|bytes| String::from_utf8_lossy(bytes).to_string()).unwrap_or_else(|| \"no context\".to_string()); hyperware_app_common::RESPONSE_REGISTRY.with(|registry| { let mut registry_mut = registry.borrow_mut(); registry_mut.insert(correlation_id, body); }); } hyperware_process_lib::Message::Request { .. } => { if message.is_local() && message.source().process == \"http-server:distro:sys\" { handle_http_server_message(&mut state, message); } else if message.is_local() { handle_local_message(&mut state, message); } else { handle_remote_message(&mut state, message); } } } }, Err(error) => { let kind = &error.kind; let target = &error.target; let body = String::from_utf8(error.message.body().to_vec()).map(|s| format!(\"\\\"{}\\\"\", s)).unwrap_or_else(|_| format!(\"{:?}\", error.message.body())); let context = error.context.as_ref().map(|bytes| String::from_utf8_lossy(bytes).into_owned()); hyperware_process_lib::kiprintln!(\"SendError {{\\n                            kind: {:?},\\n                            target: {},\\n                            body: {},\\n                            context: {}\\n                        }}\", kind, target, body, context.map(|s| format!(\"\\\"{}\\\"\", s)).unwrap_or(\"None\".to_string())); if let hyperware_process_lib::SendError { kind, context: Some(context), .. } = &error { if let Ok(correlation_id) = String::from_utf8(context.to_vec()) { let none_response = serde_json::to_vec(kind).unwrap(); hyperware_app_common::RESPONSE_REGISTRY.with(|registry| { let mut registry_mut = registry.borrow_mut(); registry_mut.insert(correlation_id, none_response); }); } } } } } } } export!(Component);"@
}

/// Writes `component_text`.
fn write_component_text(out: &mut String, self_ty: &str, name: &str, icon: &str, widget: &str, ui: &str, endpoints: &str, init_ident: &str, init_call: &str)
    ensures
        final(out)@ == old(out)@ + component_text(self_ty@, name@, icon@, widget@, ui@, endpoints@, init_ident@, init_call@),
{
    let ghost start = out@;
    push_str(out, "struct Component; impl Guest for Component { fn init(_our: String) { let mut state = hyperware_app_common::initialize_state::<");
    push_str(out, self_ty);
    push_str(out, ">(); let app_name = ");
    push_str(out, name);
    push_str(out, "; let app_icon = ");
    push_str(out, icon);
    push_str(out, "; let app_widget = ");
    push_str(out, widget);
    push_str(out, "; let ui_config = ");
    push_str(out, ui);
    push_str(out, "; let endpoints = ");
    push_str(out, endpoints);
    push_str(out, "; if app_icon.is_some() && app_widget.is_some() { hyperware_process_lib::homepage::add_to_homepage(app_name, app_icon, Some(\"/\"), app_widget); } hyperware_process_lib::logging::init_logging(hyperware_process_lib::logging::Level::DEBUG, hyperware_process_lib::logging::Level::INFO, None, Some((0, 0, 1, 1)), None).unwrap(); let mut server = hyperware_app_common::setup_server(ui_config.as_ref(), &endpoints); hyperware_app_common::APP_CONTEXT.with(|ctx| { ctx.borrow_mut().current_server = Some(&mut server); }); if ");
    push_str(out, init_ident);
    push_str(out, ".is_some() { ");
    push_str(out, init_call);
    push_str(out, " } loop { hyperware_app_common::APP_CONTEXT.with(|ctx| { ctx.borrow_mut().executor.poll_all_tasks(); }); match hyperware_process_lib::await_message() { Ok(message) => { match message { hyperware_process_lib::Message::Response {body, context, ..} => { let correlation_id = context.as_deref().map(|bytes| String::from_utf8_lossy(bytes).to_string()).unwrap_or_else(|| \"no context\".to_string()); hyperware_app_common::RESPONSE_REGISTRY.with(|registry| { let mut registry_mut = registry.borrow_mut(); registry_mut.insert(correlation_id, body); }); } hyperware_process_lib::Message::Request { .. } => { if message.is_local() && message.source().process == \"http-server:distro:sys\" { handle_http_server_message(&mut state, message); } else if message.is_local() { handle_local_message(&mut state, message); } else { handle_remote_message(&mut state, message); } } } }, Err(error) => { let kind = &error.kind; let target = &error.target; let body = String::from_utf8(error.message.body().to_vec()).map(|s| format!(\"\\\"{}\\\"\", s)).unwrap_or_else(|_| format!(\"{:?}\", error.message.body())); let context = error.context.as_ref().map(|bytes| String::from_utf8_lossy(bytes).into_owned()); hyperware_process_lib::kiprintln!(\"SendError {{\\n                            kind: {:?},\\n                            target: {},\\n                            body: {},\\n                            context: {}\\n                        }}\", kind, target, body, context.map(|s| format!(\"\\\"{}\\\"\", s)).unwrap_or(\"None\".to_string())); if let hyperware_process_lib::SendError { kind, context: Some(context), .. } = &error { if let Ok(correlation_id) = String::from_utf8(context.to_vec()) { let none_response = serde_json::to_vec(kind).unwrap(); hyperware_app_common::RESPONSE_REGISTRY.with(|registry| { let mut registry_mut = registry.borrow_mut(); registry_mut.insert(correlation_id, none_response); }); } } } } } } } export!(Component);");
    assert(out@ =~= start + component_text(self_ty@, name@, icon@, widget@, ui@, endpoints@, init_ident@, init_call@));
}

/// The kinds of request-response handlers.
#[derive(Clone, Copy, Debug, PartialEq, Eq, Structural)]
pub enum HandlerType {
    Local,
    Remote,
    Http,
}

/// Whether a handler is of the given kind.
pub open spec fn of_kind(f: FunctionM, k: HandlerType) -> bool {
    match k {
        HandlerType::Local => f.is_local,
        HandlerType::Remote => f.is_remote,
        HandlerType::Http => f.is_http,
    }
}

/// The handlers of the given kind, in order.
pub open spec fn handlers_of(fs: Seq<FunctionM>, k: HandlerType) -> Seq<FunctionM>
    decreases fs.len(),
{
    if fs.len() == 0 {
        Seq::empty()
    } else if of_kind(fs.last(), k) {
        handlers_of(fs.drop_last(), k).push(fs.last())
    } else {
        handlers_of(fs.drop_last(), k)
    }
}

/// The name of a handler kind as it appears in messages.
pub open spec fn kind_name(k: HandlerType) -> Seq<char> {
    match k {
        HandlerType::Local => "local"@,
        HandlerType::Remote => "remote"@,
        HandlerType::Http => "http"@,
    }
}

/// The warning for a request of a kind that has no handler.
pub open spec fn no_handlers_message(k: HandlerType) -> Seq<char> {
    match k {
        HandlerType::Local => "No local handlers defined but received a local request"@,
        HandlerType::Remote => "No remote handlers defined but received a remote request"@,
        HandlerType::Http => "No HTTP handlers defined but received an HTTP request"@,
    }
}

/// The names `param0, param1, ...` of `n` parameters, each followed by `suffix`.
pub open spec fn param_names(n: nat, suffix: Seq<char>) -> Seq<Seq<char>>
    decreases n,
{
    if n == 0 {
        Seq::empty()
    } else {
        param_names((n - 1) as nat, suffix).push("param"@ + crate::text::decimal((n - 1) as nat) + suffix)
    }
}

/// `let paramI_captured = paramI;` for each of `n` parameters.
pub open spec fn captures_text(n: nat) -> Seq<char>
    decreases n,
{
    if n == 0 {
        Seq::empty()
    } else {
        let d = crate::text::decimal((n - 1) as nat);
        captures_text((n - 1) as nat) + "let param"@ + d + "_captured = param"@ + d + "; "@
    }
}

/// What a handler arm does with the handler's result, by kind.
pub open spec fn handling_text(k: HandlerType, variant: Seq<char>) -> Seq<char> {
    match k {
        HandlerType::Http => response_handling_http_text(variant),
        _ => response_handling_message_text(variant),
    }
}

/// The match arm that calls a handler for its request variant: with the
/// parameters bound as `param` (one) or `param0, param1, ...` (several), the call
/// spawned as a task for an async handler, and the result sent back.
pub open spec fn arm_text(f: FunctionM, self_ty: Seq<char>, k: HandlerType) -> Seq<char> {
    let v = f.variant_name;
    let h = handling_text(k, v);
    let n = f.params.len();
    if f.is_async {
        if n == 0 {
            async_arm0_text(v, self_ty, f.name, h)
        } else if n == 1 {
            async_arm1_text(v, self_ty, f.name, h)
        } else {
            async_arm_n_text(
                v,
                join(param_names(n, Seq::empty()), ", "@),
                captures_text(n),
                self_ty,
                f.name,
                join(param_names(n, "_captured"@), ", "@),
                h,
            )
        }
    } else {
        if n == 0 {
            sync_arm0_text(v, f.name, h)
        } else if n == 1 {
            sync_arm1_text(v, f.name, h)
        } else {
            sync_arm_n_text(v, join(param_names(n, Seq::empty()), ", "@), f.name, h)
        }
    }
}

/// Every dispatch arm, for any number of parameters and for sync and async
/// handlers alike, starts by matching its request variant and ends by wrapping
/// the handler's result in the response variant of the same name and sending it:
/// as the response message for a local or remote handler, as an HTTP 200 response
/// for an HTTP handler.
pub proof fn lemma_arm_sends_response(f: FunctionM, self_ty: Seq<char>, k: HandlerType)
    ensures
        ({
            let v = f.variant_name;
            let arm = arm_text(f, self_ty, k);
            let sent = if k is Http {
                "let response = Response::"@ + v
                    + "(result); let response_bytes = serde_json::to_vec(&response).unwrap(); hyperware_process_lib::http::server::send_response(hyperware_process_lib::http::StatusCode::OK, None, response_bytes);"@
            } else {
                "let response = Response::"@ + v
                    + "(result); let resp = hyperware_process_lib::Response::new().body(serde_json::to_vec(&response).unwrap()); resp.send().unwrap();"@
            };
            let close = if f.is_async { " } }"@ } else { " }"@ };
            &&& crate::text::starts_with(arm, "Request::"@ + v)
            &&& crate::text::ends_with(arm, sent + close)
        }),
{
    let v = f.variant_name;
    let h = handling_text(k, v);
    let n = f.params.len();
    let close = if f.is_async { " } }"@ } else { " }"@ };
    let arm = arm_text(f, self_ty, k);
    let pre: Seq<char> = if f.is_async {
        if n == 0 {
            "Request::"@ + v + " => { let state_ptr: *mut "@ + self_ty + " = state; hyperware_app_common::hyper! { let result = unsafe { (*state_ptr)."@ + f.name + "().await }; "@
        } else if n == 1 {
            "Request::"@ + v + "(param) => { let param_captured = param; let state_ptr: *mut "@ + self_ty
                + " = state; hyperware_app_common::hyper! { let result = unsafe { (*state_ptr)."@ + f.name + "(param_captured).await }; "@
        } else {
            "Request::"@ + v + "("@ + join(param_names(n, Seq::empty()), ", "@) + ") => { "@ + captures_text(n) + " let state_ptr: *mut "@
                + self_ty + " = state; hyperware_app_common::hyper! { let result = unsafe { (*state_ptr)."@ + f.name + "("@
                + join(param_names(n, "_captured"@), ", "@) + ").await }; "@
        }
    } else {
        if n == 0 {
            "Request::"@ + v + " => { let result = unsafe { (*state)."@ + f.name + "() }; "@
        } else if n == 1 {
            "Request::"@ + v + "(param) => { let result = unsafe { (*state)."@ + f.name + "(param) }; "@
        } else {
            "Request::"@ + v + "("@ + join(param_names(n, Seq::empty()), ", "@) + ") => { let result = unsafe { (*state)."@ + f.name + "("@
                + join(param_names(n, Seq::empty()), ", "@) + ") }; "@
        }
    };
    assert(arm =~= pre + (h + close));
    crate::text::lemma_contains_between(pre, h + close, Seq::empty());
    assert(pre + (h + close) + Seq::<char>::empty() =~= pre + (h + close));
    let rest: Seq<char> = pre.skip(("Request::"@ + v).len() as int) + (h + close);
    assert(arm =~= ("Request::"@ + v) + rest) by {
        assert(pre =~= ("Request::"@ + v) + pre.skip(("Request::"@ + v).len() as int));
    }
    crate::text::lemma_contains_between("Request::"@ + v, rest, Seq::empty());
    assert(("Request::"@ + v) + rest + Seq::<char>::empty() =~= ("Request::"@ + v) + rest);
}

/// The arms for a list of handlers.
pub open spec fn arms_text(fs: Seq<FunctionM>, self_ty: Seq<char>, k: HandlerType) -> Seq<char>
    decreases fs.len(),
{
    if fs.len() == 0 {
        Seq::empty()
    } else {
        arms_text(fs.drop_last(), self_ty, k) + arm_text(fs.last(), self_ty, k)
    }
}

/// The dispatch for one kind of request: a warning when the kind has no handler,
/// else a match over the handlers of that kind.
pub open spec fn dispatch_text(fs: Seq<FunctionM>, self_ty: Seq<char>, k: HandlerType) -> Seq<char> {
    let hs = handlers_of(fs, k);
    if hs.len() == 0 {
        no_handlers_text(no_handlers_message(k))
    } else {
        dispatch_match_text(arms_text(hs, self_ty, k), kind_name(k))
    }
}

/// Writes the names of `n` parameters, comma separated.
fn write_param_names(out: &mut String, n: usize, suffix: &str)
    ensures
        final(out)@ == old(out)@ + join(param_names(n as nat, suffix@), ", "@),
{
    let ghost start = out@;
    let mut i: usize = 0;
    while i < n
        invariant
            i <= n,
            out@ == start + join(param_names(i as nat, suffix@), ", "@),
        decreases n - i,
    {
        if i > 0 {
            push_str(out, ", ");
        }
        push_str(out, "param");
        let mut digits: Vec<char> = Vec::new();
        crate::text::push_decimal(&mut digits, i as u64);
        crate::text::push_chars(out, &digits);
        push_str(out, suffix);
        proof {
            lemma_param_names_len(i as nat, suffix@);
            let p = param_names((i + 1) as nat, suffix@);
            assert(p.drop_last() == param_names(i as nat, suffix@));
            if i == 0 {
                assert(param_names(0, suffix@).len() == 0);
                assert(join(p, ", "@) == p[0]);
            }
            assert(out@ =~= start + join(p, ", "@));
        }
        i = i + 1;
    }
}

/// There are `n` parameter names.
proof fn lemma_param_names_len(n: nat, suffix: Seq<char>)
    ensures
        param_names(n, suffix).len() == n,
    decreases n,
{
    if n > 0 {
        lemma_param_names_len((n - 1) as nat, suffix);
    }
}

/// Writes the captures of `n` parameters.
fn write_captures(out: &mut String, n: usize)
    ensures
        final(out)@ == old(out)@ + captures_text(n as nat),
{
    let ghost start = out@;
    let mut i: usize = 0;
    while i < n
        invariant
            i <= n,
            out@ == start + captures_text(i as nat),
        decreases n - i,
    {
        let mut digits: Vec<char> = Vec::new();
        crate::text::push_decimal(&mut digits, i as u64);
        push_str(out, "let param");
        crate::text::push_chars(out, &digits);
        push_str(out, "_captured = param");
        crate::text::push_chars(out, &digits);
        push_str(out, "; ");
        assert(out@ =~= start + captures_text((i + 1) as nat));
        i = i + 1;
    }
}

/// The result handling of an arm.
pub fn generate_response_handling(variant_name: &str, handler_type: HandlerType) -> (r: String)
    ensures
        r@ == handling_text(handler_type, variant_name@),
{
    let mut out = String::new();
    match handler_type {
        HandlerType::Http => write_response_handling_http_text(&mut out, variant_name),
        _ => write_response_handling_message_text(&mut out, variant_name),
    }
    out
}

/// The match arm that calls handler `func` for its request variant.
#[verifier::spinoff_prover]
pub fn generate_handler_dispatch_arm(func: &FunctionMetadata, self_ty: &str, handler_type: HandlerType) -> (r: String)
    ensures
        r@ == arm_text(function_view(*func), self_ty@, handler_type),
{
    let v = func.variant_name.as_str();
    let f = func.name.as_str();
    let handling = generate_response_handling(v, handler_type);
    let h = handling.as_str();
    let n = func.params.len();
    let mut out = String::new();
    if func.is_async {
        if n == 0 {
            write_async_arm0_text(&mut out, v, self_ty, f, h);
        } else if n == 1 {
            write_async_arm1_text(&mut out, v, self_ty, f, h);
        } else {
            let mut params = String::new();
            write_param_names(&mut params, n, "");
            let mut captures = String::new();
            write_captures(&mut captures, n);
            let mut captured = String::new();
            write_param_names(&mut captured, n, "_captured");
            write_async_arm_n_text(&mut out, v, params.as_str(), captures.as_str(), self_ty, f, captured.as_str(), h);
        }
    } else {
        if n == 0 {
            write_sync_arm0_text(&mut out, v, f, h);
        } else if n == 1 {
            write_sync_arm1_text(&mut out, v, f, h);
        } else {
            let mut params = String::new();
            write_param_names(&mut params, n, "");
            write_sync_arm_n_text(&mut out, v, params.as_str(), f, h);
        }
    }
    proof {
        reveal_strlit("");
        assert(""@ =~= Seq::<char>::empty());
    }
    out
}

/// Whether a handler is of the given kind.
fn is_kind(func: &FunctionMetadata, k: HandlerType) -> (b: bool)
    ensures
        b == of_kind(function_view(*func), k),
{
    match k {
        HandlerType::Local => func.is_local,
        HandlerType::Remote => func.is_remote,
        HandlerType::Http => func.is_http,
    }
}

/// The dispatch of requests of one kind to the handlers of that kind.
#[verifier::spinoff_prover]
pub fn generate_handler_dispatch(functions: &Vec<FunctionMetadata>, self_ty: &str, handler_type: HandlerType) -> (r: String)
    ensures
        r@ == dispatch_text(functions_view(functions@), self_ty@, handler_type),
{
    let ghost fv = functions_view(functions@);
    let mut arms = String::new();
    let mut count: usize = 0;
    let mut i: usize = 0;
    assert(fv.take(0) =~= Seq::<FunctionM>::empty());
    while i < functions.len()
        invariant
            i <= functions@.len(),
            fv == functions_view(functions@),
            arms@ == arms_text(handlers_of(fv.take(i as int), handler_type), self_ty@, handler_type),
            count == handlers_of(fv.take(i as int), handler_type).len(),
            count <= i,
        decreases functions@.len() - i,
    {
        let func = &functions[i];
        proof {
            let t = fv.take(i + 1);
            assert(t.drop_last() =~= fv.take(i as int));
            assert(t.last() == function_view(*func));
        }
        if is_kind(func, handler_type) {
            let arm = generate_handler_dispatch_arm(func, self_ty, handler_type);
            push_str(&mut arms, arm.as_str());
            count = count + 1;
            proof {
                let hp = handlers_of(fv.take(i as int), handler_type);
                let hn = handlers_of(fv.take(i + 1), handler_type);
                assert(hn == hp.push(function_view(*func)));
                assert(hn.drop_last() =~= hp);
                assert(hn.last() == function_view(*func));
            }
        }
        i = i + 1;
    }
    assert(fv.take(functions@.len() as int) =~= fv);
    let mut out = String::new();
    if count == 0 {
        let message = match handler_type {
            HandlerType::Local => "No local handlers defined but received a local request",
            HandlerType::Remote => "No remote handlers defined but received a remote request",
            HandlerType::Http => "No HTTP handlers defined but received an HTTP request",
        };
        write_no_handlers_text(&mut out, message);
    } else {
        let kind_label = match handler_type {
            HandlerType::Local => "local",
            HandlerType::Remote => "remote",
            HandlerType::Http => "http",
        };
        write_dispatch_match_text(&mut out, arms.as_str(), kind_label);
    }
    out
}

/// A variant with the given payload types: a unit variant when there are none.
pub open spec fn variant_text(v: Seq<char>, params: Seq<Seq<char>>) -> Seq<char> {
    if params.len() == 0 {
        v
    } else {
        v + "("@ + join(params, ", "@) + ")"@
    }
}

/// The response variant of a handler: its return type as payload, a unit variant
/// when it returns `()` or nothing.
pub open spec fn response_variant_text(f: FunctionM) -> Seq<char> {
    match f.return_type {
        Some(t) if t != "()"@ => f.variant_name + "("@ + t + ")"@,
        _ => f.variant_name,
    }
}

/// The request variants of the handlers.
pub open spec fn request_variants(fs: Seq<FunctionM>) -> Seq<Seq<char>>
    decreases fs.len(),
{
    if fs.len() == 0 {
        Seq::empty()
    } else {
        request_variants(fs.drop_last()).push(variant_text(fs.last().variant_name, fs.last().params))
    }
}

/// The response variants of the handlers.
pub open spec fn response_variants(fs: Seq<FunctionM>) -> Seq<Seq<char>>
    decreases fs.len(),
{
    if fs.len() == 0 {
        Seq::empty()
    } else {
        response_variants(fs.drop_last()).push(response_variant_text(fs.last()))
    }
}

/// An enum named `name` with the given variants, deriving serde's traits.
pub open spec fn enum_text(name: Seq<char>, variants: Seq<Seq<char>>) -> Seq<char> {
    "#[derive(Debug, serde::Serialize, serde::Deserialize)] enum "@ + name + " { "@ + join(variants, ", "@) + " }"@
}

/// The `Request` and `Response` enums, one variant per handler; nothing without handlers.
pub open spec fn enums_text(fs: Seq<FunctionM>) -> (Seq<char>, Seq<char>) {
    if fs.len() == 0 {
        (Seq::empty(), Seq::empty())
    } else {
        (enum_text("Request"@, request_variants(fs)), enum_text("Response"@, response_variants(fs)))
    }
}

/// A variant with the given payload types.
pub fn generate_enum_variant(variant_name: &str, params: &Vec<String>) -> (r: String)
    ensures
        r@ == variant_text(variant_name@, texts(params@)),
{
    let mut out = String::new();
    push_str(&mut out, variant_name);
    if params.len() > 0 {
        push_str(&mut out, "(");
        write_joined(&mut out, params);
        push_str(&mut out, ")");
    }
    out
}

/// Writes the strings, comma separated.
fn write_joined(out: &mut String, items: &Vec<String>)
    ensures
        final(out)@ == old(out)@ + join(texts(items@), ", "@),
{
    let ghost start = out@;
    let ghost tv = texts(items@);
    let mut i: usize = 0;
    while i < items.len()
        invariant
            i <= items@.len(),
            tv == texts(items@),
            out@ == start + join(tv.take(i as int), ", "@),
        decreases items@.len() - i,
    {
        if i > 0 {
            push_str(out, ", ");
        }
        push_str(out, items[i].as_str());
        proof {
            let t = tv.take(i + 1);
            assert(t.drop_last() =~= tv.take(i as int));
            assert(t.last() == items@[i as int]@);
            if i == 0 {
                assert(join(t, ", "@) == t[0]);
            }
            assert(out@ =~= start + join(t, ", "@));
        }
        i = i + 1;
    }
    assert(tv.take(items@.len() as int) =~= tv);
}

/// The `Request` and `Response` enums for the handlers.
#[verifier::spinoff_prover]
pub fn generate_request_response_enums(functions: &Vec<FunctionMetadata>) -> (r: (String, String))
    ensures
        (r.0@, r.1@) == enums_text(functions_view(functions@)),
{
    if functions.len() == 0 {
        return (String::new(), String::new());
    }
    let ghost fv = functions_view(functions@);
    let mut requests: Vec<String> = Vec::new();
    let mut responses: Vec<String> = Vec::new();
    let mut i: usize = 0;
    assert(fv.take(0) =~= Seq::<FunctionM>::empty());
    assert(texts(requests@) =~= Seq::<Seq<char>>::empty());
    assert(texts(responses@) =~= Seq::<Seq<char>>::empty());
    while i < functions.len()
        invariant
            i <= functions@.len(),
            fv == functions_view(functions@),
            texts(requests@) == request_variants(fv.take(i as int)),
            texts(responses@) == response_variants(fv.take(i as int)),
        decreases functions@.len() - i,
    {
        let f = &functions[i];
        let req = generate_enum_variant(f.variant_name.as_str(), &f.params);
        let mut resp = String::new();
        push_str(&mut resp, f.variant_name.as_str());
        match &f.return_type {
            Some(t) => {
                if !chars_eq_str(&chars_of(t.as_str()), "()") {
                    push_str(&mut resp, "(");
                    push_str(&mut resp, t.as_str());
                    push_str(&mut resp, ")");
                }
            },
            None => {},
        }
        let ghost rq0 = requests@;
        let ghost rs0 = responses@;
        requests.push(req);
        responses.push(resp);
        proof {
            let t = fv.take(i + 1);
            assert(t.drop_last() =~= fv.take(i as int));
            assert(t.last() == function_view(*f));
            assert(texts(requests@) =~= texts(rq0).push(req@));
            assert(texts(responses@) =~= texts(rs0).push(resp@));
        }
        i = i + 1;
    }
    assert(fv.take(functions@.len() as int) =~= fv);
    let mut request_enum = String::new();
    push_str(&mut request_enum, "#[derive(Debug, serde::Serialize, serde::Deserialize)] enum ");
    push_str(&mut request_enum, "Request");
    push_str(&mut request_enum, " { ");
    write_joined(&mut request_enum, &requests);
    push_str(&mut request_enum, " }");
    let mut response_enum = String::new();
    push_str(&mut response_enum, "#[derive(Debug, serde::Serialize, serde::Deserialize)] enum ");
    push_str(&mut response_enum, "Response");
    push_str(&mut response_enum, " { ");
    write_joined(&mut response_enum, &responses);
    push_str(&mut response_enum, " }");
    (request_enum, response_enum)
}

/// The expression naming the init method: `Some(stringify!(name))`, or `None::<&str>`.
pub open spec fn method_ident_text(m: Option<Seq<char>>) -> Seq<char> {
    match m {
        Some(n) => "Some(stringify!("@ + n + "))"@,
        None => "None::<&str>"@,
    }
}

/// The text naming an optional method.
pub fn init_method_opt_to_token(init_method: &Option<String>) -> (r: String)
    ensures
        r@ == method_ident_text(opt_text(*init_method)),
{
    let mut out = String::new();
    match init_method {
        Some(n) => {
            push_str(&mut out, "Some(stringify!(");
            push_str(&mut out, n.as_str());
            push_str(&mut out, "))");
        },
        None => push_str(&mut out, "None::<&str>"),
    }
    out
}

/// The text naming the optional WebSocket method.
pub fn ws_method_opt_to_token(ws_method: &Option<String>) -> (r: String)
    ensures
        r@ == method_ident_text(opt_text(*ws_method)),
{
    init_method_opt_to_token(ws_method)
}

/// The call of the init method, if any.
pub open spec fn init_call_opt_text(m: Option<Seq<char>>, self_ty: Seq<char>) -> Seq<char> {
    match m {
        Some(n) => init_call_text(self_ty, n),
        None => Seq::empty(),
    }
}

/// The call of the init method as a task, or nothing.
pub fn init_method_opt_to_call(init_method: &Option<String>, self_ty: &str) -> (r: String)
    ensures
        r@ == init_call_opt_text(opt_text(*init_method), self_ty@),
{
    let mut out = String::new();
    match init_method {
        Some(n) => write_init_call_text(&mut out, self_ty, n.as_str()),
        None => {},
    }
    out
}

/// The call of the WebSocket method, if any.
pub open spec fn ws_call_opt_text(m: Option<Seq<char>>) -> Seq<char> {
    match m {
        Some(n) => ws_call_text(n),
        None => Seq::empty(),
    }
}

/// The call of the WebSocket method, or nothing.
pub fn ws_method_opt_to_call(ws_method: &Option<String>) -> (r: String)
    ensures
        r@ == ws_call_opt_text(opt_text(*ws_method)),
{
    let mut out = String::new();
    match ws_method {
        Some(n) => write_ws_call_text(&mut out, n.as_str()),
        None => {},
    }
    out
}

/// `Some(<text>.to_string())` for a given literal, else `None`.
pub open spec fn owned_opt_text(o: Option<Seq<char>>) -> Seq<char> {
    match o {
        Some(s) => "Some("@ + s + ".to_string())"@,
        None => "None"@,
    }
}

/// `Some(<expr>)` for a given expression, else `None`.
pub open spec fn expr_opt_text(o: Option<Seq<char>>) -> Seq<char> {
    match o {
        Some(s) => "Some("@ + s + ")"@,
        None => "None"@,
    }
}

/// The three message handlers: HTTP server messages, local and remote messages.
pub open spec fn message_handlers_text(
    self_ty: Seq<char>,
    http_arms: Seq<char>,
    local_arms: Seq<char>,
    remote_arms: Seq<char>,
    ws_call: Seq<char>,
) -> Seq<char> {
    http_server_handler_text(self_ty, http_arms, ws_call) + " "@ + local_handler_text(self_ty, local_arms) + " "@
        + remote_handler_text(self_ty, remote_arms)
}

/// Everything the attribute writes, from its parts: bindings, the cleaned impl
/// block, the enums, the message handlers and the component.
pub open spec fn component_impl_text(
    a: ArgsM,
    self_ty: Seq<char>,
    cleaned_impl: Seq<char>,
    request_enum: Seq<char>,
    response_enum: Seq<char>,
    init_ident: Seq<char>,
    init_call: Seq<char>,
    ws_call: Seq<char>,
    http_arms: Seq<char>,
    local_arms: Seq<char>,
    remote_arms: Seq<char>,
) -> Seq<char> {
    wit_binding_text(a.wit_world->Some_0) + " "@ + cleaned_impl + " "@ + request_enum + " "@ + response_enum + " "@
        + message_handlers_text(self_ty, http_arms, local_arms, remote_arms, ws_call) + " "@
        + component_text(
            self_ty,
            a.name->Some_0,
            owned_opt_text(a.icon),
            owned_opt_text(a.widget),
            expr_opt_text(a.ui),
            a.endpoints->Some_0,
            init_ident,
            init_call,
        )
}

/// The whole expansion of the attribute, for arguments that were read and methods
/// that were sorted.
pub open spec fn expansion_text(a: ArgsM, self_ty: Seq<char>, cleaned_impl: Seq<char>, an: AnalysisM) -> Seq<char> {
    let fs = an.functions;
    let enums = enums_text(fs);
    component_impl_text(
        a,
        self_ty,
        cleaned_impl,
        enums.0,
        enums.1,
        method_ident_text(an.init),
        init_call_opt_text(an.init, self_ty),
        ws_call_opt_text(an.ws),
        dispatch_text(fs, self_ty, HandlerType::Http),
        dispatch_text(fs, self_ty, HandlerType::Local),
        dispatch_text(fs, self_ty, HandlerType::Remote),
    )
}

/// The WIT bindings and imports for the process's world.
pub fn generate_wit_binding(args: &HyperProcessArgs) -> (r: String)
    ensures
        r@ == wit_binding_text(args.wit_world@),
{
    let mut out = String::new();
    write_wit_binding_text(&mut out, args.wit_world.as_str());
    out
}

/// The handler of HTTP server messages.
pub fn generate_http_server_handler(self_ty: &str, http_request_match_arms: &str, ws_method_call: &str) -> (r: String)
    ensures
        r@ == http_server_handler_text(self_ty@, http_request_match_arms@, ws_method_call@),
{
    let mut out = String::new();
    write_http_server_handler_text(&mut out, self_ty, http_request_match_arms, ws_method_call);
    out
}

/// The handler of local messages.
pub fn generate_local_message_handler(self_ty: &str, local_request_match_arms: &str) -> (r: String)
    ensures
        r@ == local_handler_text(self_ty@, local_request_match_arms@),
{
    let mut out = String::new();
    write_local_handler_text(&mut out, self_ty, local_request_match_arms);
    out
}

/// The handler of remote messages.
pub fn generate_remote_message_handler(self_ty: &str, remote_request_match_arms: &str) -> (r: String)
    ensures
        r@ == remote_handler_text(self_ty@, remote_request_match_arms@),
{
    let mut out = String::new();
    write_remote_handler_text(&mut out, self_ty, remote_request_match_arms);
    out
}

/// The three message handlers.
pub fn generate_message_handlers(
    self_ty: &str,
    http_arms: &str,
    local_arms: &str,
    remote_arms: &str,
    ws_method_call: &str,
) -> (r: String)
    ensures
        r@ == message_handlers_text(self_ty@, http_arms@, local_arms@, remote_arms@, ws_method_call@),
{
    let mut out = generate_http_server_handler(self_ty, http_arms, ws_method_call);
    push_str(&mut out, " ");
    let local = generate_local_message_handler(self_ty, local_arms);
    push_str(&mut out, local.as_str());
    push_str(&mut out, " ");
    let remote = generate_remote_message_handler(self_ty, remote_arms);
    push_str(&mut out, remote.as_str());
    out
}

/// Everything the attribute writes, from its parts.
pub fn generate_component_impl(
    args: &HyperProcessArgs,
    self_ty: &str,
    cleaned_impl: &str,
    request_enum: &str,
    response_enum: &str,
    init_method_ident: &str,
    init_method_call: &str,
    ws_method_call: &str,
    http_arms: &str,
    local_arms: &str,
    remote_arms: &str,
) -> (r: String)
    ensures
        r@ == component_impl_text(
            args_view(*args),
            self_ty@,
            cleaned_impl@,
            request_enum@,
            response_enum@,
            init_method_ident@,
            init_method_call@,
            ws_method_call@,
            http_arms@,
            local_arms@,
            remote_arms@,
        ),
{
    let mut out = generate_wit_binding(args);
    push_str(&mut out, " ");
    push_str(&mut out, cleaned_impl);
    push_str(&mut out, " ");
    push_str(&mut out, request_enum);
    push_str(&mut out, " ");
    push_str(&mut out, response_enum);
    push_str(&mut out, " ");
    let handlers = generate_message_handlers(self_ty, http_arms, local_arms, remote_arms, ws_method_call);
    push_str(&mut out, handlers.as_str());
    push_str(&mut out, " ");
    let icon = owned_opt(&args.icon);
    let widget = owned_opt(&args.widget);
    let ui = expr_opt(&args.ui);
    write_component_text(
        &mut out,
        self_ty,
        args.name.as_str(),
        icon.as_str(),
        widget.as_str(),
        ui.as_str(),
        args.endpoints.as_str(),
        init_method_ident,
        init_method_call,
    );
    out
}

/// What the attribute expands to, or the first error in its arguments or methods.
pub open spec fn hyperprocess_spec(
    args: Seq<MetaArg>,
    self_ty: Seq<char>,
    cleaned_impl: Seq<char>,
    methods: Seq<MethodInfo>,
) -> Result<Seq<char>, (ErrorSite, Seq<char>)> {
    match args_spec(args) {
        Err(e) => Err(e),
        Ok(a) => match analysis_spec(methods) {
            Err(e) => Err(e),
            Ok(an) => Ok(expansion_text(a, self_ty, cleaned_impl, an)),
        },
    }
}

/// Expands the attribute: reads its arguments, sorts and checks the methods of the
/// block (`self_ty` is its type, `cleaned_impl` the block without the handler
/// attributes, both as source text), and writes the process around them.
pub fn hyperprocess_impl(
    attr_args: &Vec<MetaArg>,
    self_ty: &str,
    cleaned_impl: &str,
    methods: &Vec<MethodInfo>,
) -> (r: Result<String, HyperError>)
    ensures
        match r {
            Ok(t) => hyperprocess_spec(attr_args@, self_ty@, cleaned_impl@, methods@) == Ok::<Seq<char>, (ErrorSite, Seq<char>)>(t@),
            Err(e) => hyperprocess_spec(attr_args@, self_ty@, cleaned_impl@, methods@) == Err::<Seq<char>, (ErrorSite, Seq<char>)>(error_view(e)),
        },
{
    let args = match parse_args(attr_args) {
        Ok(a) => a,
        Err(e) => {
            return Err(e);
        },
    };
    let analysis = match analyze_methods(methods) {
        Ok(a) => a,
        Err(e) => {
            return Err(e);
        },
    };
    let (request_enum, response_enum) = generate_request_response_enums(&analysis.functions);
    let http_arms = generate_handler_dispatch(&analysis.functions, self_ty, HandlerType::Http);
    let local_arms = generate_handler_dispatch(&analysis.functions, self_ty, HandlerType::Local);
    let remote_arms = generate_handler_dispatch(&analysis.functions, self_ty, HandlerType::Remote);
    let init_ident = init_method_opt_to_token(&analysis.init_method);
    let init_call = init_method_opt_to_call(&analysis.init_method, self_ty);
    let ws_call = ws_method_opt_to_call(&analysis.ws_method);
    let out = generate_component_impl(
        &args,
        self_ty,
        cleaned_impl,
        request_enum.as_str(),
        response_enum.as_str(),
        init_ident.as_str(),
        init_call.as_str(),
        ws_call.as_str(),
        http_arms.as_str(),
        local_arms.as_str(),
        remote_arms.as_str(),
    );
    Ok(out)
}

/// `Some(<text>.to_string())` or `None`.
fn owned_opt(o: &Option<String>) -> (r: String)
    ensures
        r@ == owned_opt_text(opt_text(*o)),
{
    let mut out = String::new();
    match o {
        Some(s) => {
            push_str(&mut out, "Some(");
            push_str(&mut out, s.as_str());
            push_str(&mut out, ".to_string())");
        },
        None => push_str(&mut out, "None"),
    }
    out
}

/// `Some(<expr>)` or `None`.
fn expr_opt(o: &Option<String>) -> (r: String)
    ensures
        r@ == expr_opt_text(opt_text(*o)),
{
    let mut out = String::new();
    match o {
        Some(s) => {
            push_str(&mut out, "Some(");
            push_str(&mut out, s.as_str());
            push_str(&mut out, ")");
        },
        None => push_str(&mut out, "None"),
    }
    out
}

} // verus!
