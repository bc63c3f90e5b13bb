//! Reading the optional TOML file into `(path, text)` pairs: tables are
//! nesting levels, every leaf is a scalar, every key must be in the schema.

use vstd::prelude::*;

use crate::config::args::HELP_FLAG;
use crate::config::path::Path;
use crate::config::refusal::{refusal_d, Refusal, RefusalV};
use crate::config::schema::{field_toml, Field};
use crate::text::{append, decimal, decimal_string, join, joined, lemma_views_push, owned, same, views};

verus! {

/// A leaf of a parsed TOML document: the keys from the root table down, and
/// its text, or `None` for an array.
pub struct TomlLeaf {
    pub keys: Vec<String>,
    pub text: Option<String>,
}

pub struct TomlLeafV {
    pub keys: Seq<Seq<char>>,
    pub text: Option<Seq<char>>,
}

impl View for TomlLeaf {
    type V = TomlLeafV;

    open spec fn view(&self) -> TomlLeafV {
        TomlLeafV {
            keys: views(self.keys@),
            text: match self.text {
                Some(t) => Some(t@),
                None => None,
            },
        }
    }
}

/// Why a text is not TOML: the parser's message and the byte offset it
/// points at.
pub struct TomlError {
    pub message: String,
    pub offset: Option<usize>,
}

pub struct TomlErrorV {
    pub message: Seq<char>,
    pub offset: Option<usize>,
}

impl View for TomlError {
    type V = TomlErrorV;

    open spec fn view(&self) -> TomlErrorV {
        TomlErrorV { message: self.message@, offset: self.offset }
    }
}

/// A TOML value as the parser gives it: one variant per kind. A float is
/// held as the text it prints as.
pub enum TomlValue {
    String(String),
    Integer(i64),
    Float(String),
    Boolean(bool),
    Datetime(String),
    Array(Vec<TomlValue>),
    Table(Vec<(String, TomlValue)>),
}

/// The spec-side picture of a `TomlValue`.
pub enum TomlValueV {
    String(Seq<char>),
    Integer(i64),
    Float(Seq<char>),
    Boolean(bool),
    Datetime(Seq<char>),
    Array(Seq<TomlValueV>),
    Table(Seq<(Seq<char>, TomlValueV)>),
}

pub open spec fn value_view(v: TomlValue) -> TomlValueV
    decreases v, 0nat,
{
    match v {
        TomlValue::String(s) => TomlValueV::String(s@),
        TomlValue::Integer(i) => TomlValueV::Integer(i),
        TomlValue::Float(t) => TomlValueV::Float(t@),
        TomlValue::Boolean(b) => TomlValueV::Boolean(b),
        TomlValue::Datetime(t) => TomlValueV::Datetime(t@),
        TomlValue::Array(xs) => TomlValueV::Array(array_view(xs@)),
        TomlValue::Table(es) => TomlValueV::Table(table_view(es@)),
    }
}

pub open spec fn array_view(xs: Seq<TomlValue>) -> Seq<TomlValueV>
    decreases xs, 1nat,
{
    if xs.len() == 0 {
        seq![]
    } else {
        array_view(xs.drop_last()).push(value_view(xs.last()))
    }
}

pub open spec fn table_view(es: Seq<(String, TomlValue)>) -> Seq<(Seq<char>, TomlValueV)>
    decreases es, 1nat,
{
    if es.len() == 0 {
        seq![]
    } else {
        table_view(es.drop_last()).push((es.last().0@, value_view(es.last().1)))
    }
}

/// `a` sorts before `b` as the bytes of their UTF-8 spellings do: a
/// proper prefix first, else at the first character where they differ.
pub open spec fn key_before(a: Seq<char>, b: Seq<char>) -> bool {
    exists|k: nat|
        #![trigger a.take(k as int), b.take(k as int)]
        k <= a.len() && k <= b.len() && a.take(k as int) == b.take(k as int) && ((k == a.len() && k
            < b.len()) || (k < a.len() && k < b.len() && (a[k as int] as u32) < (b[k as int] as u32)))
}

/// Every table's keys strictly ascending, nested tables included.
pub open spec fn table_sorted(t: Seq<(Seq<char>, TomlValueV)>) -> bool
    decreases t,
{
    if t.len() == 0 {
        true
    } else {
        &&& table_sorted(t.drop_last())
        &&& (t.len() >= 2 ==> key_before(t[t.len() - 2].0, t.last().0))
        &&& match t.last().1 {
            TomlValueV::Table(inner) => table_sorted(inner),
            _ => true,
        }
    }
}

/// What the TOML parser makes of a text: its root table, each table's
/// entries sorted by key, or its error.
pub uninterp spec fn toml_document(text: Seq<char>) -> Result<Seq<(Seq<char>, TomlValueV)>, TomlErrorV>;

pub open spec fn leaves_view(v: Seq<TomlLeaf>) -> Seq<TomlLeafV> {
    v.map_values(|l: TomlLeaf| l@)
}

/// `toml::from_str::<toml::Table>`: parses `text` into its root table,
/// taken over value for value, or the parser's message and offset. The
/// result is named, not described: the TOML grammar is the parser's. Its
/// tables are `BTreeMap`s (the crate is built without `preserve_order`), so
/// each is walked in ascending key order.
#[verifier::external_body]
fn toml_parse(text: &str) -> (r: Result<Vec<(String, TomlValue)>, TomlError>)
    ensures
        match r {
            Ok(t) => toml_document(text@) == Ok::<Seq<(Seq<char>, TomlValueV)>, TomlErrorV>(table_view(t@))
                && table_sorted(table_view(t@)),
            Err(e) => toml_document(text@) == Err::<Seq<(Seq<char>, TomlValueV)>, TomlErrorV>(e@),
        },
{
    match toml::from_str::<toml::Table>(text) {
        Ok(table) => Ok(toml_table(&table)),
        Err(e) => Err(TomlError { message: e.message().to_string(), offset: e.span().map(|s| s.start) }),
    }
}

#[verifier::external_type_specification]
#[verifier::external_body]
#[verifier::reject_recursive_types(K)]
#[verifier::reject_recursive_types(V)]
pub struct ExTomlMap<K, V>(toml::map::Map<K, V>);

#[verifier::external_type_specification]
#[verifier::external_body]
pub struct ExTomlValue(toml::Value);

/// A parsed table taken over entry for entry, in the map's order.
#[verifier::external_body]
fn toml_table(t: &toml::map::Map<String, toml::Value>) -> Vec<(String, TomlValue)> {
    t.iter().map(|(k, v)| (k.clone(), toml_value(v))).collect()
}

/// A parsed value taken over variant for variant; a float as the text it
/// prints as, a datetime likewise.
#[verifier::external_body]
fn toml_value(v: &toml::Value) -> TomlValue {
    match v {
        toml::Value::String(s) => TomlValue::String(s.clone()),
        toml::Value::Integer(i) => TomlValue::Integer(*i),
        toml::Value::Float(x) => TomlValue::Float(x.to_string()),
        toml::Value::Boolean(b) => TomlValue::Boolean(*b),
        toml::Value::Datetime(d) => TomlValue::Datetime(d.to_string()),
        toml::Value::Array(xs) => TomlValue::Array(xs.iter().map(toml_value).collect()),
        toml::Value::Table(t) => TomlValue::Table(toml_table(t)),
    }
}

/// The text of a signed integer, as `to_string` writes it.
pub open spec fn signed_decimal(i: int) -> Seq<char> {
    if i < 0 {
        "-"@ + decimal((-i) as nat)
    } else {
        decimal(i as nat)
    }
}

/// The text a scalar leaf carries.
pub open spec fn scalar_text(v: TomlValueV) -> Option<Seq<char>> {
    match v {
        TomlValueV::String(s) => Some(s),
        TomlValueV::Integer(i) => Some(signed_decimal(i as int)),
        TomlValueV::Float(t) => Some(t),
        TomlValueV::Boolean(b) => Some(if b { "true"@ } else { "false"@ }),
        TomlValueV::Datetime(t) => Some(t),
        _ => None,
    }
}

/// The leaves of a table under `prefix`, its entries in order: a table is
/// entered where it stands, an array is one leaf marked `None`, any other
/// value one leaf with its text.
pub open spec fn table_leaves(prefix: Seq<Seq<char>>, t: Seq<(Seq<char>, TomlValueV)>) -> Seq<TomlLeafV>
    decreases t,
{
    if t.len() == 0 {
        seq![]
    } else {
        let e = t.last();
        let keys = prefix.push(e.0);
        table_leaves(prefix, t.drop_last()) + match e.1 {
            TomlValueV::Table(inner) => table_leaves(keys, inner),
            TomlValueV::Array(_) => seq![TomlLeafV { keys, text: None }],
            other => seq![TomlLeafV { keys, text: scalar_text(other) }],
        }
    }
}

proof fn lemma_table_view(es: Seq<(String, TomlValue)>)
    ensures
        table_view(es).len() == es.len(),
        forall|i: int|
            0 <= i < es.len() ==> #[trigger] table_view(es)[i] == (es[i].0@, value_view(es[i].1)),
    decreases es.len(),
{
    if es.len() > 0 {
        lemma_table_view(es.drop_last());
    }
}

fn signed_text(i: i64) -> (r: String)
    ensures
        r@ == signed_decimal(i as int),
{
    if i < 0 {
        let magnitude: u64 = ((-(i + 1)) as u64) + 1;
        let mut out = owned("-");
        let digits = decimal_string(magnitude);
        append(&mut out, digits.as_str());
        out
    } else {
        decimal_string(i as u64)
    }
}

/// Appends the leaves of `table` under `keys` to `out`.
fn walk(table: &Vec<(String, TomlValue)>, keys: &Vec<String>, out: &mut Vec<TomlLeaf>)
    ensures
        leaves_view(final(out)@) == leaves_view(old(out)@) + table_leaves(views(keys@), table_view(table@)),
    decreases table,
{
    let ghost t = table_view(table@);
    let ghost prefix = views(keys@);
    let ghost start = leaves_view(out@);
    proof {
        lemma_table_view(table@);
        assert(t.take(0) =~= Seq::<(Seq<char>, TomlValueV)>::empty());
        assert(start + table_leaves(prefix, t.take(0)) =~= start);
    }
    let mut i: usize = 0;
    while i < table.len()
        invariant
            i <= table.len(),
            t == table_view(table@),
            t.len() == table@.len(),
            forall|j: int| 0 <= j < table@.len() ==> #[trigger] t[j] == (table@[j].0@, value_view(table@[j].1)),
            prefix == views(keys@),
            leaves_view(out@) == start + table_leaves(prefix, t.take(i as int)),
        decreases table.len() - i,
    {
        let name = &table[i].0;
        let mut path = keys.clone();
        path.push(name.clone());
        let ghost kv = prefix.push(name@);
        proof {
            lemma_views_push(keys@, *name);
            assert(t.take(i + 1).drop_last() =~= t.take(i as int));
            assert(t.take(i + 1).last() == t[i as int]);
        }
        let ghost before = leaves_view(out@);
        match &table[i].1 {
            TomlValue::Table(inner) => {
                proof {
                    assert(decreases_to!(table => inner)) by {
                        assert(decreases_to!(table => table@));
                        assert(decreases_to!(table@ => table@[i as int]));
                    }
                }
                walk(inner, &path, out);
            },
            TomlValue::Array(_) => {
                out.push(TomlLeaf { keys: path, text: None });
                assert(leaves_view(out@) =~= before + seq![TomlLeafV { keys: kv, text: None }]);
            },
            other => {
                let text = match other {
                    TomlValue::String(s) => s.clone(),
                    TomlValue::Integer(n) => signed_text(*n),
                    TomlValue::Float(x) => x.clone(),
                    TomlValue::Boolean(b) => owned(if *b { "true" } else { "false" }),
                    TomlValue::Datetime(d) => d.clone(),
                    _ => owned(""),
                };
                out.push(TomlLeaf { keys: path, text: Some(text) });
                assert(leaves_view(out@) =~= before + seq![
                    TomlLeafV { keys: kv, text: scalar_text(value_view(*other)) },
                ]);
            },
        }
        assert(leaves_view(out@) =~= start + table_leaves(prefix, t.take(i + 1)));
        i = i + 1;
    }
    assert(t.take(i as int) =~= t);
}

/// The leaves of a parsed document, from the root table down.
pub fn leaves(doc: &Vec<(String, TomlValue)>) -> (r: Vec<TomlLeaf>)
    ensures
        leaves_view(r@) == table_leaves(seq![], table_view(doc@)),
{
    let mut out: Vec<TomlLeaf> = Vec::new();
    let keys: Vec<String> = Vec::new();
    assert(views(keys@) =~= Seq::<Seq<char>>::empty());
    assert(leaves_view(out@) =~= Seq::<TomlLeafV>::empty());
    walk(doc, &keys, &mut out);
    assert(leaves_view(out@) =~= table_leaves(seq![], table_view(doc@)));
    out
}

/// The text a boolean leaf is written as reads back as that boolean.
proof fn lemma_bool_text_reads(b: bool)
    ensures
        crate::config::values::parse_bool_spec(if b { "true"@ } else { "false"@ }) == Some(b),
{
    reveal_strlit("true");
    reveal_strlit("false");
    reveal_strlit("1");
    reveal_strlit("yes");
    reveal_strlit("on");
    let t: Seq<char> = if b { "true"@ } else { "false"@ };
    assert(!crate::text::is_ws(t[0]));
    assert(!crate::text::is_ws(t.last()));
    assert(crate::text::trim_start(t) == t);
    assert(crate::text::trim_end(t) == t);
    assert(crate::text::lower(t) =~= t);
}

/// The leaves of two tables read one after the other are the first's
/// leaves, then the second's.
pub proof fn lemma_leaves_append(
    prefix: Seq<Seq<char>>,
    a: Seq<(Seq<char>, TomlValueV)>,
    b: Seq<(Seq<char>, TomlValueV)>,
)
    ensures
        table_leaves(prefix, a + b) == table_leaves(prefix, a) + table_leaves(prefix, b),
    decreases b.len(),
{
    if b.len() == 0 {
        assert(a + b =~= a);
        assert(table_leaves(prefix, a) + table_leaves(prefix, b) =~= table_leaves(prefix, a));
    } else {
        lemma_leaves_append(prefix, a, b.drop_last());
        assert((a + b).drop_last() =~= a + b.drop_last());
        assert((a + b).last() == b.last());
        let tail = table_leaves(prefix, seq![b.last()]);
        assert(seq![b.last()].drop_last() =~= Seq::<(Seq<char>, TomlValueV)>::empty());
        assert(table_leaves(prefix, a + b) =~= table_leaves(prefix, a) + table_leaves(prefix, b));
    }
}

/// One entry's leaves: a table's own leaves under the entry's key; an
/// array, one leaf marked `None`; a string, one leaf with its text; a
/// boolean, one leaf whose text reads back as that boolean.
pub proof fn lemma_entry_leaves(prefix: Seq<Seq<char>>, key: Seq<char>, v: TomlValueV)
    ensures
        ({
            let got = table_leaves(prefix, seq![(key, v)]);
            let keys = prefix.push(key);
            match v {
                TomlValueV::Table(inner) => got == table_leaves(keys, inner),
                TomlValueV::Array(_) => got == seq![TomlLeafV { keys, text: None }],
                TomlValueV::String(s) => got == seq![TomlLeafV { keys, text: Some(s) }],
                TomlValueV::Boolean(b) => got.len() == 1 && got[0].keys == keys && (got[0].text matches Some(
                    t,
                ) && crate::config::values::parse_bool_spec(t) == Some(b)),
                _ => got.len() == 1 && got[0].keys == keys && got[0].text is Some,
            }
        }),
{
    let one = seq![(key, v)];
    assert(one.drop_last() =~= Seq::<(Seq<char>, TomlValueV)>::empty());
    assert(one.last() == (key, v));
    let keys = prefix.push(key);
    assert(table_leaves(prefix, one.drop_last()) =~= Seq::<TomlLeafV>::empty());
    match v {
        TomlValueV::Table(inner) => {
            assert(table_leaves(prefix, one) =~= table_leaves(keys, inner));
        },
        TomlValueV::Boolean(b) => {
            lemma_bool_text_reads(b);
            assert(table_leaves(prefix, one) =~= seq![
                TomlLeafV { keys, text: Some(if b { "true"@ } else { "false"@ }) },
            ]);
        },
        _ => {
            assert(table_leaves(prefix, one) =~= seq![TomlLeafV { keys, text: scalar_text(v) }]);
        },
    }
}

/// What a file source answers when asked for a file.
pub enum FileRead {
    /// The file's text.
    Text(String),
    /// Why it could not be read.
    Failed(String),
}

// ---------------------------------------------------------------------------
// Specification of the check.

/// The field a TOML key names: the last one registered under it.
pub open spec fn key_lookup(fields: Seq<Field>, key: Seq<char>) -> Option<int>
    decreases fields.len(),
{
    if fields.len() == 0 {
        None
    } else if field_toml(fields.last()) == key {
        Some(fields.len() - 1)
    } else {
        key_lookup(fields.drop_last(), key)
    }
}

pub open spec fn leaf_key(l: TomlLeafV) -> Seq<char> {
    join(l.keys, "."@)
}

/// The keys holding arrays, in document order.
pub open spec fn non_scalars(leaves: Seq<TomlLeafV>) -> Seq<Seq<char>>
    decreases leaves.len(),
{
    if leaves.len() == 0 {
        seq![]
    } else {
        let rest = non_scalars(leaves.drop_last());
        if leaves.last().text is None {
            rest.push(leaf_key(leaves.last()))
        } else {
            rest
        }
    }
}

/// The scalar keys no field registers, in document order.
pub open spec fn unknown_keys(fields: Seq<Field>, leaves: Seq<TomlLeafV>) -> Seq<Seq<char>>
    decreases leaves.len(),
{
    if leaves.len() == 0 {
        seq![]
    } else {
        let rest = unknown_keys(fields, leaves.drop_last());
        let l = leaves.last();
        if l.text is Some && key_lookup(fields, leaf_key(l)) is None {
            rest.push(leaf_key(l))
        } else {
            rest
        }
    }
}

/// The `(path, text)` pairs of the scalar keys a field registers.
pub open spec fn known_values(fields: Seq<Field>, leaves: Seq<TomlLeafV>) -> Seq<
    (Seq<Seq<char>>, Seq<char>),
>
    decreases leaves.len(),
{
    if leaves.len() == 0 {
        seq![]
    } else {
        let rest = known_values(fields, leaves.drop_last());
        let l = leaves.last();
        match (l.text, key_lookup(fields, leaf_key(l))) {
            (Some(t), Some(k)) => rest.push((fields[k].path@, t)),
            _ => rest,
        }
    }
}

pub const SCALARS_ACCEPTED: &'static str = "a scalar (string, integer, float, boolean, datetime) for every key";

pub const READABLE_ACCEPTED: &'static str = "the path of a readable TOML file";

pub const WELL_FORMED_ACCEPTED: &'static str = "a well-formed TOML file";

/// What a parsed document gives: its pairs, or the refusal for an array or
/// an unknown key (arrays first).
pub open spec fn document_result(
    fields: Seq<Field>,
    source: Seq<char>,
    shown: Seq<char>,
    leaves: Seq<TomlLeafV>,
) -> Result<Seq<(Seq<Seq<char>>, Seq<char>)>, RefusalV> {
    if non_scalars(leaves).len() > 0 {
        Err(
            refusal_d(
                source,
                shown,
                SCALARS_ACCEPTED@,
                "not a scalar: "@ + join(non_scalars(leaves), ", "@),
            ),
        )
    } else if unknown_keys(fields, leaves).len() > 0 {
        Err(
            refusal_d(
                source,
                shown,
                "only the keys listed by "@ + HELP_FLAG@,
                "unknown keys: "@ + join(unknown_keys(fields, leaves), ", "@),
            ),
        )
    } else {
        Ok(known_values(fields, leaves))
    }
}

/// The count of `\n` bytes in `b`.
pub open spec fn newlines(b: Seq<u8>) -> nat
    decreases b.len(),
{
    if b.len() == 0 {
        0
    } else {
        newlines(b.drop_last()) + if b.last() == 10u8 {
            1nat
        } else {
            0nat
        }
    }
}

/// The line an error at byte `offset` stands on: the lines of the text
/// before it, at least one.
pub open spec fn line_at(b: Seq<u8>, offset: int) -> nat {
    let before = b.take(if offset < b.len() {
        offset
    } else {
        b.len() as int
    });
    let lines = newlines(before) + if before.len() > 0 && before.last() != 10u8 {
        1nat
    } else {
        0nat
    };
    if lines == 0 {
        1
    } else {
        lines
    }
}

/// The detail of a malformed file: the parser's message, then the line.
pub open spec fn syntax_detail(text: Seq<char>, e: TomlErrorV) -> Seq<char> {
    match e.offset {
        Some(o) => e.message + " (line "@ + decimal(line_at(
            vstd::utf8::encode_utf8(text),
            o as int,
        )) + ")"@,
        None => e.message,
    }
}

/// What a file read gives: the pairs it sets, or the refusal naming the
/// source that pointed at it.
pub open spec fn file_result(
    fields: Seq<Field>,
    source: Seq<char>,
    shown: Seq<char>,
    read: FileReadV,
) -> Result<Seq<(Seq<Seq<char>>, Seq<char>)>, RefusalV> {
    match read {
        FileReadV::Failed(msg) => Err(
            refusal_d(source, shown, READABLE_ACCEPTED@, "cannot read: "@ + msg),
        ),
        FileReadV::Text(text) => match toml_document(text) {
            Err(e) => Err(refusal_d(source, shown, WELL_FORMED_ACCEPTED@, syntax_detail(text, e))),
            Ok(doc) => document_result(fields, source, shown, table_leaves(seq![], doc)),
        },
    }
}

pub enum FileReadV {
    Text(Seq<char>),
    Failed(Seq<char>),
}

impl View for FileRead {
    type V = FileReadV;

    open spec fn view(&self) -> FileReadV {
        match self {
            FileRead::Text(t) => FileReadV::Text(t@),
            FileRead::Failed(m) => FileReadV::Failed(m@),
        }
    }
}

pub open spec fn pairs_view(v: Seq<(Path, String)>) -> Seq<(Seq<Seq<char>>, Seq<char>)> {
    v.map_values(|p: (Path, String)| (p.0@, p.1@))
}

// ---------------------------------------------------------------------------
// Executable check.

fn lookup_key(fields: &Vec<Field>, key: &str) -> (r: Option<usize>)
    ensures
        match r {
            Some(k) => key_lookup(fields@, key@) == Some(k as int) && k < fields.len(),
            None => key_lookup(fields@, key@) is None,
        },
{
    let mut i: usize = fields.len();
    assert(fields@.take(i as int) =~= fields@);
    while i > 0
        invariant
            i <= fields.len(),
            key_lookup(fields@, key@) == key_lookup(fields@.take(i as int), key@),
        decreases i,
    {
        let k = fields[i - 1].toml();
        if same(k.as_str(), key) {
            assert(fields@.take(i as int).last() == fields@[i - 1]);
            return Some(i - 1);
        }
        assert(fields@.take(i as int).drop_last() =~= fields@.take(i - 1));
        i = i - 1;
    }
    None
}

/// Checks a parsed document against the fields: every leaf a scalar, every
/// key registered.
pub fn check_document(fields: &Vec<Field>, source: &str, shown: &str, leaves: &Vec<TomlLeaf>) -> (r:
    Result<Vec<(Path, String)>, Refusal>)
    ensures
        match r {
            Ok(v) => document_result(fields@, source@, shown@, leaves_view(leaves@)) == Ok::<
                Seq<(Seq<Seq<char>>, Seq<char>)>,
                RefusalV,
            >(pairs_view(v@)),
            Err(e) => document_result(fields@, source@, shown@, leaves_view(leaves@)) == Err::<
                Seq<(Seq<Seq<char>>, Seq<char>)>,
                RefusalV,
            >(e@),
        },
{
    let ghost lv = leaves_view(leaves@);
    let mut values: Vec<(Path, String)> = Vec::new();
    let mut unknown: Vec<String> = Vec::new();
    let mut non_scalar: Vec<String> = Vec::new();
    let mut i: usize = 0;
    assert(pairs_view(values@) =~= known_values(fields@, lv.take(0)));
    assert(views(unknown@) =~= unknown_keys(fields@, lv.take(0)));
    assert(views(non_scalar@) =~= non_scalars(lv.take(0)));
    while i < leaves.len()
        invariant
            i <= leaves.len(),
            lv == leaves_view(leaves@),
            pairs_view(values@) == known_values(fields@, lv.take(i as int)),
            views(unknown@) == unknown_keys(fields@, lv.take(i as int)),
            views(non_scalar@) == non_scalars(lv.take(i as int)),
        decreases leaves.len() - i,
    {
        let leaf = &leaves[i];
        let ghost t = lv.take(i + 1);
        assert(t.drop_last() =~= lv.take(i as int));
        assert(t.last() == leaf@);
        let key = joined(&leaf.keys, ".");
        match &leaf.text {
            None => {
                let ghost before = non_scalar@;
                non_scalar.push(key);
                assert(views(non_scalar@) =~= views(before).push(key@));
            },
            Some(text) => match lookup_key(fields, key.as_str()) {
                Some(k) => {
                    let ghost before = values@;
                    values.push((fields[k].path.duplicate(), text.clone()));
                    assert(pairs_view(values@) =~= pairs_view(before).push(
                        (fields@[k as int].path@, text@),
                    ));
                },
                None => {
                    let ghost before = unknown@;
                    unknown.push(key);
                    assert(views(unknown@) =~= views(before).push(key@));
                },
            },
        }
        i = i + 1;
    }
    assert(lv.take(i as int) =~= lv);
    if non_scalar.len() > 0 {
        let listed = joined(&non_scalar, ", ");
        let mut detail = owned("not a scalar: ");
        append(&mut detail, listed.as_str());
        return Err(Refusal::new(source, shown, SCALARS_ACCEPTED).with_detail(detail));
    }
    if unknown.len() > 0 {
        let listed = joined(&unknown, ", ");
        let mut detail = owned("unknown keys: ");
        append(&mut detail, listed.as_str());
        let mut accepted = owned("only the keys listed by ");
        append(&mut accepted, HELP_FLAG);
        return Err(Refusal::new(source, shown, accepted).with_detail(detail));
    }
    Ok(values)
}

proof fn lemma_newlines_bound(b: Seq<u8>)
    ensures
        newlines(b) <= b.len(),
    decreases b.len(),
{
    if b.len() > 0 {
        lemma_newlines_bound(b.drop_last());
    }
}

/// The line an error at byte `offset` of `text` stands on.
pub fn error_line(text: &str, offset: usize) -> (r: u64)
    ensures
        r as nat == line_at(vstd::utf8::encode_utf8(text@), offset as int),
{
    let bytes = text.as_bytes();
    let ghost b = bytes@;
    let end: usize = if offset < bytes.len() {
        offset
    } else {
        bytes.len()
    };
    let mut count: u64 = 0;
    let mut i: usize = 0;
    while i < end
        invariant
            i <= end <= bytes.len(),
            b == bytes@,
            count as nat == newlines(b.take(i as int)),
            count <= i,
        decreases end - i,
    {
        assert(b.take(i + 1).drop_last() =~= b.take(i as int));
        if bytes[i] == 10u8 {
            count = count + 1;
        }
        i = i + 1;
    }
    if end > 0 && bytes[end - 1] != 10u8 {
        proof {
            let t = b.take(end as int);
            assert(t.drop_last() =~= b.take(end - 1));
            lemma_newlines_bound(b.take(end - 1));
        }
        count = count + 1;
    }
    if count == 0 {
        1
    } else {
        count
    }
}

/// The detail of a malformed file.
fn syntax_error_detail(text: &str, e: &TomlError) -> (r: String)
    ensures
        r@ == syntax_detail(text@, e@),
{
    let mut out = e.message.clone();
    match e.offset {
        Some(o) => {
            append(&mut out, " (line ");
            let line = error_line(text, o);
            let digits = decimal_string(line);
            append(&mut out, digits.as_str());
            append(&mut out, ")");
        },
        None => {},
    }
    out
}

/// Reads a fetched file against the fields. `source` is the spelling that
/// named the file, `shown` the file as the operator wrote it.
pub fn read_file(fields: &Vec<Field>, source: &str, shown: &str, read: FileRead) -> (r: Result<
    Vec<(Path, String)>,
    Refusal,
>)
    ensures
        match r {
            Ok(v) => file_result(fields@, source@, shown@, read@) == Ok::<
                Seq<(Seq<Seq<char>>, Seq<char>)>,
                RefusalV,
            >(pairs_view(v@)),
            Err(e) => file_result(fields@, source@, shown@, read@) == Err::<
                Seq<(Seq<Seq<char>>, Seq<char>)>,
                RefusalV,
            >(e@),
        },
{
    match read {
        FileRead::Failed(msg) => {
            let mut detail = owned("cannot read: ");
            append(&mut detail, msg.as_str());
            Err(Refusal::new(source, shown, READABLE_ACCEPTED).with_detail(detail))
        },
        FileRead::Text(text) => match toml_parse(text.as_str()) {
            Err(e) => {
                let detail = syntax_error_detail(text.as_str(), &e);
                Err(Refusal::new(source, shown, WELL_FORMED_ACCEPTED).with_detail(detail))
            },
            Ok(doc) => {
                let found = leaves(&doc);
                check_document(fields, source, shown, &found)
            },
        },
    }
}

} // verus!
