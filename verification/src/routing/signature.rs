//! The signature analysis behind a client-exported handler: which arguments
//! a caller supplies (path, query, body, multipart) and what comes back.
//! A handler is seen through the shapes of its patterns and types; the
//! extractors the analysis does not name (state, guards, headers) are left
//! to the server.

use vstd::prelude::*;

use crate::text::{append, owned, same, trimmed};

verus! {

/// What a caller supplies for an argument.
#[derive(Debug, Clone, Copy, PartialEq, Eq, Structural)]
pub enum Kind {
    Path,
    Query,
    Body,
    Multipart,
}

/// A type as the analysis sees it, with the text it is written as.
#[derive(Debug)]
pub enum TypeShape {
    /// A path type: its last segment's name and that segment's first type
    /// argument, if any.
    Path { last: String, first_arg: Option<Box<TypeShape>>, text: String },
    /// A tuple and its last element (`None` for `()`).
    Tuple { final_elem: Option<Box<TypeShape>>, text: String },
    /// Any other type: a reference, `impl Trait`, a slice.
    Other { text: String },
}

/// A pattern as the analysis sees it.
#[derive(Debug)]
pub enum PatShape {
    /// A binding, `mut` or not.
    Ident(String),
    /// A tuple-struct pattern and its element when it has exactly one.
    TupleStruct(Option<Box<PatShape>>),
    /// A parenthesised pattern.
    Paren(Box<PatShape>),
    /// Any other pattern: a tuple, a wildcard.
    Other,
}

/// A handler's argument.
#[derive(Debug)]
pub enum Input {
    /// `self`, which a handler never has.
    Receiver,
    Typed { pat: PatShape, ty: TypeShape },
}

/// A handler's signature.
#[derive(Debug)]
pub struct FnShape {
    pub name: String,
    pub is_async: bool,
    pub inputs: Vec<Input>,
    /// The return type; `None` where none is written.
    pub output: Option<TypeShape>,
}

/// An argument the caller supplies: its name, kind and payload type's text
/// (`None` for multipart).
#[derive(Debug, Clone, PartialEq, Eq)]
pub struct Arg {
    pub name: String,
    pub kind: Kind,
    pub ty: Option<String>,
}

#[derive(Debug, Clone, PartialEq, Eq)]
pub enum Response {
    /// A JSON body of this type.
    Json(String),
    NoContent,
    /// A page the browser navigates to.
    Link,
}

#[derive(Debug, Clone, PartialEq, Eq)]
pub struct Descriptor {
    pub name: String,
    pub args: Vec<Arg>,
    pub response: Response,
}

pub struct ArgV {
    pub name: Seq<char>,
    pub kind: Kind,
    pub ty: Option<Seq<char>>,
}

pub enum ResponseV {
    Json(Seq<char>),
    NoContent,
    Link,
}

pub open spec fn arg_view(a: Arg) -> ArgV {
    ArgV { name: a.name@, kind: a.kind, ty: crate::text::opt_view(a.ty) }
}

pub open spec fn response_view(r: Response) -> ResponseV {
    match r {
        Response::Json(t) => ResponseV::Json(t@),
        Response::NoContent => ResponseV::NoContent,
        Response::Link => ResponseV::Link,
    }
}

pub open spec fn text_of(ty: TypeShape) -> Seq<char> {
    match ty {
        TypeShape::Path { text, .. } => text@,
        TypeShape::Tuple { text, .. } => text@,
        TypeShape::Other { text } => text@,
    }
}

/// The extractor names of each kind.
pub open spec fn kind_named(ident: Seq<char>) -> Option<Kind> {
    if ident == "Path"@ || ident == "ApiPath"@ {
        Some(Kind::Path)
    } else if ident == "Query"@ || ident == "ApiQuery"@ {
        Some(Kind::Query)
    } else if ident == "Json"@ || ident == "ApiJson"@ {
        Some(Kind::Body)
    } else if ident == "Multipart"@ {
        Some(Kind::Multipart)
    } else {
        None
    }
}

pub open spec fn missing_payload(ident: Seq<char>) -> Seq<char> {
    "#[client]: `"@ + ident + "` needs its payload type argument (`"@ + ident + "<T>`)"@
}

/// What an argument's type makes it: not the caller's (`None`), a kind and
/// its payload's text, or an extractor written without its payload type.
pub open spec fn classify_spec(ty: TypeShape) -> Result<Option<(Kind, Option<Seq<char>>)>, Seq<char>> {
    match ty {
        TypeShape::Path { last, first_arg, .. } => match kind_named(last@) {
            None => Ok(None),
            Some(Kind::Multipart) => Ok(Some((Kind::Multipart, None))),
            Some(k) => match first_arg {
                Some(t) => Ok(Some((k, Some(text_of(*t))))),
                None => Err(missing_payload(last@)),
            },
        },
        _ => Ok(None),
    }
}

/// The binding a pattern names, looking through a one-element tuple struct
/// and parentheses.
pub open spec fn binding_of(pat: PatShape) -> Option<Seq<char>>
    decreases pat,
{
    match pat {
        PatShape::Ident(n) => Some(n@),
        PatShape::TupleStruct(Some(p)) => binding_of(*p),
        PatShape::Paren(p) => binding_of(*p),
        _ => None,
    }
}

pub open spec fn kind_word(kind: Kind) -> Seq<char> {
    match kind {
        Kind::Path => "path"@,
        Kind::Query => "query"@,
        Kind::Body => "body"@,
        Kind::Multipart => "multipart"@,
    }
}

/// An argument's name: its binding, else its kind's word.
pub open spec fn pat_name_spec(pat: PatShape, kind: Kind) -> Seq<char> {
    match binding_of(pat) {
        Some(n) => n,
        None => kind_word(kind),
    }
}

pub open spec fn opaque_message(name: Seq<char>, ty_text: Seq<char>) -> Seq<char> {
    "#[client] on `"@ + name + "`: the return type `"@ + ty_text
        + "` is opaque — return Json<T> (also as Result<Json<T>, _>, (StatusCode, Json<T>) or ApiJson<T>), or StatusCode / () for no content; a handler the browser navigates to takes #[client(link)]"@
}

pub open spec fn is_body(ident: Seq<char>) -> bool {
    ident == "Json"@ || ident == "ApiJson"@
}

/// What a return type answers: a JSON payload (through `Result` and a
/// response tuple's last element), no content, or an error naming the
/// handler for a type that says neither.
pub open spec fn response_spec(name: Seq<char>, ty: TypeShape) -> Result<ResponseV, Seq<char>>
    decreases ty,
{
    match ty {
        TypeShape::Tuple { final_elem: None, .. } => Ok(ResponseV::NoContent),
        TypeShape::Tuple { final_elem: Some(l), text } => match *l {
            TypeShape::Path { last, first_arg: Some(inner), .. } => if is_body(last@) {
                Ok(ResponseV::Json(text_of(*inner)))
            } else {
                Err(opaque_message(name, text@))
            },
            _ => Err(opaque_message(name, text@)),
        },
        TypeShape::Path { last, first_arg, text } => match first_arg {
            Some(inner) => if last@ == "Result"@ {
                response_spec(name, *inner)
            } else if is_body(last@) {
                Ok(ResponseV::Json(text_of(*inner)))
            } else {
                Err(opaque_message(name, text@))
            },
            None => if last@ == "StatusCode"@ {
                Ok(ResponseV::NoContent)
            } else {
                Err(opaque_message(name, text@))
            },
        },
        TypeShape::Other { text } => Err(opaque_message(name, text@)),
    }
}

pub open spec fn no_self(name: Seq<char>) -> Seq<char> {
    "#[client] on `"@ + name + "`: a handler has no `self`"@
}

/// The caller's arguments of `inputs`, in order, or the first refusal.
pub open spec fn args_spec(name: Seq<char>, inputs: Seq<Input>) -> Result<Seq<ArgV>, Seq<char>>
    decreases inputs.len(),
{
    if inputs.len() == 0 {
        Ok(seq![])
    } else {
        match args_spec(name, inputs.drop_last()) {
            Err(e) => Err(e),
            Ok(prev) => match inputs.last() {
                Input::Receiver => Err(no_self(name)),
                Input::Typed { pat, ty } => match classify_spec(ty) {
                    Err(e) => Err(e),
                    Ok(None) => Ok(prev),
                    Ok(Some((k, t))) => Ok(prev.push(ArgV { name: pat_name_spec(pat, k), kind: k, ty: t })),
                },
            },
        }
    }
}

pub open spec fn not_async(name: Seq<char>) -> Seq<char> {
    "#[client] on `"@ + name + "`: expected an `async fn` handler"@
}

/// What a handler's signature describes, `link` marking one the browser
/// navigates to.
pub open spec fn describe_spec(f: FnShape, link: bool) -> Result<(Seq<ArgV>, ResponseV), Seq<char>> {
    if !f.is_async {
        Err(not_async(f.name@))
    } else {
        match args_spec(f.name@, f.inputs@) {
            Err(e) => Err(e),
            Ok(args) => if link {
                Ok((args, ResponseV::Link))
            } else {
                match f.output {
                    None => Ok((args, ResponseV::NoContent)),
                    Some(ty) => match response_spec(f.name@, ty) {
                        Err(e) => Err(e),
                        Ok(r) => Ok((args, r)),
                    },
                }
            },
        }
    }
}

fn text_ref(ty: &TypeShape) -> (r: &String)
    ensures
        r@ == text_of(*ty),
{
    match ty {
        TypeShape::Path { text, .. } => text,
        TypeShape::Tuple { text, .. } => text,
        TypeShape::Other { text } => text,
    }
}

fn kind_of_name(ident: &str) -> (r: Option<Kind>)
    ensures
        r == kind_named(ident@),
{
    if same(ident, "Path") || same(ident, "ApiPath") {
        Some(Kind::Path)
    } else if same(ident, "Query") || same(ident, "ApiQuery") {
        Some(Kind::Query)
    } else if same(ident, "Json") || same(ident, "ApiJson") {
        Some(Kind::Body)
    } else if same(ident, "Multipart") {
        Some(Kind::Multipart)
    } else {
        None
    }
}

/// An argument's kind and payload text, from its type.
pub fn classify(ty: &TypeShape) -> (r: Result<Option<(Kind, Option<String>)>, String>)
    ensures
        match r {
            Ok(None) => classify_spec(*ty) == Ok::<Option<(Kind, Option<Seq<char>>)>, Seq<char>>(None),
            Ok(Some((k, t))) => classify_spec(*ty) == Ok::<Option<(Kind, Option<Seq<char>>)>, Seq<char>>(
                Some((k, crate::text::opt_view(t))),
            ),
            Err(e) => classify_spec(*ty) == Err::<Option<(Kind, Option<Seq<char>>)>, Seq<char>>(e@),
        },
{
    match ty {
        TypeShape::Path { last, first_arg, .. } => match kind_of_name(last.as_str()) {
            None => Ok(None),
            Some(Kind::Multipart) => Ok(Some((Kind::Multipart, None))),
            Some(k) => match first_arg {
                Some(t) => Ok(Some((k, Some(text_ref(t).clone())))),
                None => {
                    let mut m = owned("#[client]: `");
                    append(&mut m, last.as_str());
                    append(&mut m, "` needs its payload type argument (`");
                    append(&mut m, last.as_str());
                    append(&mut m, "<T>`)");
                    Err(m)
                },
            },
        },
        _ => Ok(None),
    }
}

fn binding(pat: &PatShape) -> (r: Option<String>)
    ensures
        crate::text::opt_view(r) == binding_of(*pat),
    decreases pat,
{
    match pat {
        PatShape::Ident(n) => Some(n.clone()),
        PatShape::TupleStruct(Some(p)) => binding(p),
        PatShape::Paren(p) => binding(p),
        _ => None,
    }
}

/// An argument's name: its binding, else its kind's word.
pub fn pat_name(pat: &PatShape, kind: Kind) -> (r: String)
    ensures
        r@ == pat_name_spec(*pat, kind),
{
    match binding(pat) {
        Some(n) => n,
        None => owned(
            match kind {
                Kind::Path => "path",
                Kind::Query => "query",
                Kind::Body => "body",
                Kind::Multipart => "multipart",
            },
        ),
    }
}

fn opaque(name: &str, ty_text: &str) -> (r: String)
    ensures
        r@ == opaque_message(name@, ty_text@),
{
    let mut m = owned("#[client] on `");
    append(&mut m, name);
    append(&mut m, "`: the return type `");
    append(&mut m, ty_text);
    append(
        &mut m,
        "` is opaque — return Json<T> (also as Result<Json<T>, _>, (StatusCode, Json<T>) or ApiJson<T>), or StatusCode / () for no content; a handler the browser navigates to takes #[client(link)]",
    );
    m
}

fn is_body_name(ident: &str) -> (r: bool)
    ensures
        r == is_body(ident@),
{
    same(ident, "Json") || same(ident, "ApiJson")
}

/// What a handler named `name` answers, from its return type.
pub fn response_of(name: &str, ty: &TypeShape) -> (r: Result<Response, String>)
    ensures
        match r {
            Ok(v) => response_spec(name@, *ty) == Ok::<ResponseV, Seq<char>>(response_view(v)),
            Err(e) => response_spec(name@, *ty) == Err::<ResponseV, Seq<char>>(e@),
        },
    decreases ty,
{
    match ty {
        TypeShape::Tuple { final_elem: None, .. } => Ok(Response::NoContent),
        TypeShape::Tuple { final_elem: Some(l), text } => match &**l {
            TypeShape::Path { last, first_arg: Some(inner), .. } => {
                if is_body_name(last.as_str()) {
                    Ok(Response::Json(text_ref(inner).clone()))
                } else {
                    Err(opaque(name, text.as_str()))
                }
            },
            _ => Err(opaque(name, text.as_str())),
        },
        TypeShape::Path { last, first_arg, text } => match first_arg {
            Some(inner) => {
                if same(last.as_str(), "Result") {
                    response_of(name, inner)
                } else if is_body_name(last.as_str()) {
                    Ok(Response::Json(text_ref(inner).clone()))
                } else {
                    Err(opaque(name, text.as_str()))
                }
            },
            None => {
                if same(last.as_str(), "StatusCode") {
                    Ok(Response::NoContent)
                } else {
                    Err(opaque(name, text.as_str()))
                }
            },
        },
        TypeShape::Other { text } => Err(opaque(name, text.as_str())),
    }
}

pub open spec fn args_view(v: Seq<Arg>) -> Seq<ArgV> {
    v.map_values(|a: Arg| arg_view(a))
}

/// What a handler's signature describes; `link` marks one the browser
/// navigates to, whose return type is not read.
pub fn describe(f: &FnShape, link: bool) -> (r: Result<Descriptor, String>)
    ensures
        match r {
            Ok(d) => d.name@ == f.name@ && describe_spec(*f, link) == Ok::<(Seq<ArgV>, ResponseV), Seq<char>>(
                (args_view(d.args@), response_view(d.response)),
            ),
            Err(e) => describe_spec(*f, link) == Err::<(Seq<ArgV>, ResponseV), Seq<char>>(e@),
        },
{
    let name = f.name.as_str();
    if !f.is_async {
        let mut m = owned("#[client] on `");
        append(&mut m, name);
        append(&mut m, "`: expected an `async fn` handler");
        return Err(m);
    }
    let mut args: Vec<Arg> = Vec::new();
    let mut i: usize = 0;
    assert(f.inputs@.take(0) =~= Seq::<Input>::empty());
    assert(args_view(args@) =~= Seq::<ArgV>::empty());
    while i < f.inputs.len()
        invariant
            i <= f.inputs@.len(),
            f.is_async,
            name@ == f.name@,
            args_spec(f.name@, f.inputs@.take(i as int)) == Ok::<Seq<ArgV>, Seq<char>>(args_view(args@)),
        decreases f.inputs.len() - i,
    {
        let ghost before = args@;
        assert(f.inputs@.take(i + 1).drop_last() =~= f.inputs@.take(i as int));
        assert(f.inputs@.take(i + 1).last() == f.inputs@[i as int]);
        match &f.inputs[i] {
            Input::Receiver => {
                let mut m = owned("#[client] on `");
                append(&mut m, name);
                append(&mut m, "`: a handler has no `self`");
                proof {
                    assert(m@ == no_self(f.name@));
                    assert(args_spec(f.name@, f.inputs@.take(i + 1)) == Err::<Seq<ArgV>, Seq<char>>(m@));
                    lemma_args_error_sticks(f.name@, f.inputs@, i + 1, m@);
                }
                return Err(m);
            },
            Input::Typed { pat, ty } => {
                match classify(ty) {
                    Err(e) => {
                        proof {
                            assert(args_spec(f.name@, f.inputs@.take(i + 1)) == Err::<Seq<ArgV>, Seq<char>>(e@));
                            lemma_args_error_sticks(f.name@, f.inputs@, i + 1, e@);
                        }
                        return Err(e);
                    },
                    Ok(None) => {},
                    Ok(Some((k, t))) => {
                        let n = pat_name(pat, k);
                        args.push(Arg { name: n, kind: k, ty: t });
                        assert(args_view(args@) =~= args_view(before).push(arg_view(args@.last())));
                    },
                }
            },
        }
        i = i + 1;
    }
    assert(f.inputs@.take(i as int) =~= f.inputs@);
    let response = if link {
        Response::Link
    } else {
        match &f.output {
            None => Response::NoContent,
            Some(ty) => match response_of(name, ty) {
                Ok(r) => r,
                Err(e) => {
                    return Err(e);
                },
            },
        }
    };
    Ok(Descriptor { name: f.name.clone(), args, response })
}

/// Once a prefix of the inputs refuses, every longer one refuses alike.
proof fn lemma_args_error_sticks(name: Seq<char>, inputs: Seq<Input>, k: int, e: Seq<char>)
    requires
        0 <= k <= inputs.len(),
        args_spec(name, inputs.take(k)) == Err::<Seq<ArgV>, Seq<char>>(e),
    ensures
        args_spec(name, inputs) == Err::<Seq<ArgV>, Seq<char>>(e),
    decreases inputs.len() - k,
{
    if k < inputs.len() {
        assert(inputs.take(k + 1).drop_last() =~= inputs.take(k));
        lemma_args_error_sticks(name, inputs, k + 1, e);
    } else {
        assert(inputs.take(k) =~= inputs);
    }
}

/// The attribute's own grammar: nothing, or `link`.
pub fn parse_attr(text: &str) -> (r: Result<bool, String>)
    ensures
        match r {
            Ok(link) => (crate::text::trim(text@).len() == 0 && !link) || (crate::text::trim(text@)
                == "link"@ && link),
            Err(m) => crate::text::trim(text@).len() != 0 && crate::text::trim(text@) != "link"@
                && m@ == "#[client]: unknown option `"@ + crate::text::trim(text@)
                + "` — accepted: nothing, or `link`"@,
        },
{
    let t = trimmed(text);
    if t.as_str().unicode_len() == 0 {
        Ok(false)
    } else if same(t.as_str(), "link") {
        Ok(true)
    } else {
        let mut m = owned("#[client]: unknown option `");
        append(&mut m, t.as_str());
        append(&mut m, "` — accepted: nothing, or `link`");
        Err(m)
    }
}

/// The extractors a caller fills, by name: `Path`/`ApiPath` a path
/// argument, `Query`/`ApiQuery` a query, `Json`/`ApiJson` a body, each with
/// its payload type's text; `Multipart` a multipart body with none.
pub proof fn lemma_extractor_names(last: String, payload: Box<TypeShape>, text: String)
    ensures
        ({
            let ty = TypeShape::Path { last, first_arg: Some(payload), text };
            &&& (last@ == "Json"@ || last@ == "ApiJson"@) ==> classify_spec(ty) == Ok::<
                Option<(Kind, Option<Seq<char>>)>,
                Seq<char>,
            >(Some((Kind::Body, Some(text_of(*payload)))))
            &&& (last@ == "Path"@ || last@ == "ApiPath"@) ==> classify_spec(ty) == Ok::<
                Option<(Kind, Option<Seq<char>>)>,
                Seq<char>,
            >(Some((Kind::Path, Some(text_of(*payload)))))
            &&& (last@ == "Query"@ || last@ == "ApiQuery"@) ==> classify_spec(ty) == Ok::<
                Option<(Kind, Option<Seq<char>>)>,
                Seq<char>,
            >(Some((Kind::Query, Some(text_of(*payload)))))
            &&& last@ == "Multipart"@ ==> classify_spec(ty) == Ok::<
                Option<(Kind, Option<Seq<char>>)>,
                Seq<char>,
            >(Some((Kind::Multipart, None)))
        }),
{
    reveal_strlit("Json");
    reveal_strlit("ApiJson");
    reveal_strlit("Path");
    reveal_strlit("ApiPath");
    reveal_strlit("Query");
    reveal_strlit("ApiQuery");
    reveal_strlit("Multipart");
    let l = last@;
    if l == "Json"@ || l == "ApiJson"@ {
        assert(l != "Path"@ && l != "ApiPath"@ && l != "Query"@ && l != "ApiQuery"@) by {
            if l == "Json"@ {
                assert(l[0] == 'J');
            } else {
                assert(l[3] == 'J');
            }
        }
    }
    if l == "Query"@ || l == "ApiQuery"@ {
        assert(l != "Path"@ && l != "ApiPath"@) by {
            if l == "Query"@ {
                assert(l[0] == 'Q');
            } else {
                assert(l[3] == 'Q');
            }
        }
    }
    if l == "Multipart"@ {
        assert(l[0] == 'M');
        assert(l != "Path"@ && l != "ApiPath"@ && l != "Query"@ && l != "ApiQuery"@ && l != "Json"@
            && l != "ApiJson"@);
    }
}

} // verus!
