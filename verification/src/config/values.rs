//! The merged `(path → text, origin)` table and the one typed parse of each
//! leaf, with the two refusals a leaf raises: required-and-unset, wrong type.

use vstd::prelude::*;

use crate::config::path::{leaf_of, section_of, Path};
use crate::config::refusal::{refusal_d, Refusal, RefusalV};
use crate::config::schema::{
    field_env, field_flag, field_toml, origin_text, Entry, EntryV, Field, FileStatus, FileStatusV, Origin,
    OriginV,
};
use crate::config::table::Table;
use crate::text::{append, chars_of, lower, lowercase, owned, same, trim, trimmed};

verus! {

pub const BOOL_ACCEPTED: &'static str = "true, false, 1, 0, yes, no, on or off";

/// What a secret value is shown as.
pub const MASK: &'static str = "****";

pub const EMPTY_NUMBER: &'static str = "cannot parse integer from empty string";

pub const INVALID_DIGIT: &'static str = "invalid digit found in string";

pub const TOO_LARGE: &'static str = "number too large to fit in target type";

// ---------------------------------------------------------------------------
// Unsigned integers, as `str::parse` reads them.

/// The value of the decimal digit `c`.
pub open spec fn digit_value(c: char) -> nat {
    ((c as int) - ('0' as int)) as nat
}

pub open spec fn is_digit(c: char) -> bool {
    '0' <= c <= '9'
}

/// Reading the digits of `s` from the left: the first non-digit, or the
/// first digit that takes the value above `max`, refuses.
pub open spec fn read_digits(s: Seq<char>, max: nat) -> Result<nat, Seq<char>>
    decreases s.len(),
{
    if s.len() == 0 {
        Ok(0)
    } else {
        match read_digits(s.drop_last(), max) {
            Err(e) => Err(e),
            Ok(v) => if !is_digit(s.last()) {
                Err(INVALID_DIGIT@)
            } else if v * 10 + digit_value(s.last()) > max {
                Err(TOO_LARGE@)
            } else {
                Ok(v * 10 + digit_value(s.last()))
            },
        }
    }
}

/// An unsigned integer no larger than `max`: an optional `+`, then digits.
pub open spec fn parse_unsigned(s: Seq<char>, max: nat) -> Result<nat, Seq<char>> {
    if s.len() == 0 {
        Err(EMPTY_NUMBER@)
    } else {
        let body = if s[0] == '+' {
            s.drop_first()
        } else {
            s
        };
        if body.len() == 0 {
            Err(INVALID_DIGIT@)
        } else {
            read_digits(body, max)
        }
    }
}

proof fn lemma_read_digits_bound(s: Seq<char>, max: nat)
    ensures
        read_digits(s, max) matches Ok(v) ==> v <= max,
    decreases s.len(),
{
    if s.len() > 0 {
        lemma_read_digits_bound(s.drop_last(), max);
    }
}

/// A prefix that refuses makes the whole text refuse the same way.
proof fn lemma_read_digits_err_extends(s: Seq<char>, max: nat, k: int)
    requires
        0 <= k <= s.len(),
        read_digits(s.take(k), max) is Err,
    ensures
        read_digits(s, max) == read_digits(s.take(k), max),
    decreases s.len() - k,
{
    if k < s.len() {
        assert(s.take(k + 1).drop_last() =~= s.take(k));
        lemma_read_digits_err_extends(s, max, k + 1);
    } else {
        assert(s.take(k) =~= s);
    }
}

/// Reads `text` as an unsigned integer no larger than `max`.
pub fn parse_unsigned_text(text: &str, max: u64) -> (r: Result<u64, String>)
    ensures
        match r {
            Ok(v) => parse_unsigned(text@, max as nat) == Ok::<nat, Seq<char>>(v as nat),
            Err(e) => parse_unsigned(text@, max as nat) == Err::<nat, Seq<char>>(e@),
        },
{
    let v = chars_of(text);
    if v.len() == 0 {
        return Err(owned(EMPTY_NUMBER));
    }
    let start: usize = if v[0] == '+' {
        1
    } else {
        0
    };
    let ghost body = if text@[0] == '+' {
        text@.drop_first()
    } else {
        text@
    };
    assert(body =~= v@.subrange(start as int, v.len() as int));
    if start == v.len() {
        return Err(owned(INVALID_DIGIT));
    }
    let mut value: u64 = 0;
    let mut i: usize = start;
    while i < v.len()
        invariant
            start <= i <= v.len(),
            v@ == text@,
            body == v@.subrange(start as int, v.len() as int),
            text@.len() > 0,
            body.len() > 0,
            body == (if text@[0] == '+' {
                text@.drop_first()
            } else {
                text@
            }),
            read_digits(body.take(i - start), max as nat) == Ok::<nat, Seq<char>>(value as nat),
            value <= max,
        decreases v.len() - i,
    {
        let c = v[i];
        let ghost prefix = body.take(i - start + 1);
        assert(prefix.drop_last() =~= body.take(i - start));
        assert(prefix.last() == c);
        if !('0' <= c && c <= '9') {
            proof {
                lemma_read_digits_err_extends(body, max as nat, i - start + 1);
            }
            return Err(owned(INVALID_DIGIT));
        }
        let d: u64 = (c as u32 - '0' as u32) as u64;
        let next: u128 = (value as u128) * 10 + (d as u128);
        if next > max as u128 {
            proof {
                lemma_read_digits_err_extends(body, max as nat, i - start + 1);
            }
            return Err(owned(TOO_LARGE));
        }
        value = next as u64;
        i = i + 1;
    }
    assert(body.take(i - start) =~= body);
    Ok(value)
}

// ---------------------------------------------------------------------------
// Booleans.

/// The boolean a text spells, case-blind and trimmed.
pub open spec fn parse_bool_spec(text: Seq<char>) -> Option<bool> {
    let t = lower(trim(text));
    if t == "true"@ || t == "1"@ || t == "yes"@ || t == "on"@ {
        Some(true)
    } else if t == "false"@ || t == "0"@ || t == "no"@ || t == "off"@ {
        Some(false)
    } else {
        None
    }
}

pub fn parse_bool(text: &str) -> (r: Option<bool>)
    ensures
        r == parse_bool_spec(text@),
{
    let t = trimmed(text);
    let t = lowercase(t.as_str());
    let s = t.as_str();
    if same(s, "true") || same(s, "1") || same(s, "yes") || same(s, "on") {
        Some(true)
    } else if same(s, "false") || same(s, "0") || same(s, "no") || same(s, "off") {
        Some(false)
    } else {
        None
    }
}

// ---------------------------------------------------------------------------
// Type names.

pub open spec fn is_word_char(c: char) -> bool {
    ('a' <= c <= 'z') || ('A' <= c <= 'Z') || ('0' <= c <= '9') || c == '_' || c == ':'
}

/// What follows the last `::` of a word.
pub open spec fn last_segment(w: Seq<char>) -> Seq<char>
    decreases w.len(),
{
    if w.len() < 2 {
        w
    } else if w[w.len() - 2] == ':' && w.last() == ':' {
        seq![]
    } else {
        last_segment(w.drop_last()).push(w.last())
    }
}

/// A type's name with every module path dropped: each maximal run of word
/// characters is cut to its last segment, the rest kept as is.
pub open spec fn short_name_from(s: Seq<char>, word: Seq<char>) -> Seq<char>
    decreases s.len(),
{
    if s.len() == 0 {
        last_segment(word)
    } else if is_word_char(s[0]) {
        short_name_from(s.drop_first(), word.push(s[0]))
    } else {
        last_segment(word).push(s[0]) + short_name_from(s.drop_first(), seq![])
    }
}

pub open spec fn short_name(s: Seq<char>) -> Seq<char> {
    short_name_from(s, seq![])
}

/// `alloc::vec::Vec<alloc::string::String>` → `Vec<String>`.
pub fn short_type_name(name: &str) -> (r: String)
    ensures
        r@ == short_name(name@),
{
    let v = chars_of(name);
    let mut out = String::new();
    let mut word: Vec<char> = Vec::new();
    let mut i: usize = 0;
    assert(v@.skip(0) =~= v@);
    assert(word@ =~= Seq::<char>::empty());
    assert(out@ + short_name_from(v@, seq![]) =~= short_name_from(v@, seq![]));
    while i < v.len()
        invariant
            i <= v.len(),
            v@ == name@,
            out@ + short_name_from(v@.skip(i as int), word@) == short_name(name@),
        decreases v.len() - i,
    {
        let c = v[i];
        assert(v@.skip(i as int).drop_first() =~= v@.skip(i + 1));
        if ('a' <= c && c <= 'z') || ('A' <= c && c <= 'Z') || ('0' <= c && c <= '9') || c == '_'
            || c == ':' {
            word.push(c);
        } else {
            let seg = last_segment_exec(&word);
            let ghost before = out@;
            let ghost old_word = word@;
            append(&mut out, seg.as_str());
            crate::text::push_char(&mut out, c);
            assert(out@ =~= before + last_segment(old_word).push(c));
            word = Vec::new();
            assert(before + (last_segment(old_word).push(c) + short_name_from(v@.skip(i + 1), seq![]))
                =~= out@ + short_name_from(v@.skip(i + 1), seq![]));
            assert(word@ =~= Seq::<char>::empty());
        }
        i = i + 1;
    }
    let seg = last_segment_exec(&word);
    append(&mut out, seg.as_str());
    out
}

fn last_segment_exec(w: &Vec<char>) -> (r: String)
    ensures
        r@ == last_segment(w@),
{
    let n = w.len();
    let mut k: usize = n;
    assert(w@.take(n as int) =~= w@);
    assert(last_segment(w@) + w@.subrange(n as int, n as int) =~= last_segment(w@));
    // The start of the last segment: just past the last `::`, else 0.
    while k >= 2 && !(w[k - 2] == ':' && w[k - 1] == ':')
        invariant
            k <= n,
            n == w.len(),
            last_segment(w@) == last_segment(w@.take(k as int)) + w@.subrange(k as int, n as int),
        decreases k,
    {
        proof {
            let t = w@.take(k as int);
            assert(t.drop_last() =~= w@.take(k - 1));
            assert(w@.subrange(k - 1, n as int) =~= seq![t.last()] + w@.subrange(k as int, n as int));
            assert(last_segment(t) == last_segment(t.drop_last()).push(t.last()));
            assert(last_segment(t.drop_last()).push(t.last()) + w@.subrange(k as int, n as int)
                =~= last_segment(t.drop_last()) + w@.subrange(k - 1, n as int));
        }
        k = k - 1;
    }
    if k < 2 {
        assert(last_segment(w@.take(k as int)) == w@.take(k as int));
        assert(w@.take(k as int) + w@.subrange(k as int, n as int) =~= w@.subrange(0, n as int));
    } else {
        assert(last_segment(w@.take(k as int)) == Seq::<char>::empty());
        assert(Seq::<char>::empty() + w@.subrange(k as int, n as int) =~= w@.subrange(
            k as int,
            n as int,
        ));
    }
    crate::text::string_of(w, if k < 2 {
        0
    } else {
        k
    }, n)
}

// ---------------------------------------------------------------------------
// Leaf types.

/// A type a config leaf can be read as.
pub trait Leaf: Sized {
    /// The parser's message when `text` does not read as this type.
    spec fn parse_error(text: Seq<char>) -> Option<Seq<char>>;

    /// Whether `text` reads as `v`.
    spec fn reads_as(text: Seq<char>, v: Self) -> bool;

    /// The type's path, as a diagnostic names it.
    spec fn type_path_spec() -> Seq<char>;

    fn parse_leaf(text: &str) -> (r: Result<Self, String>)
        ensures
            match r {
                Ok(v) => Self::parse_error(text@) is None && Self::reads_as(text@, v),
                Err(e) => Self::parse_error(text@) == Some(e@),
            },
    ;

    fn type_path() -> (r: String)
        ensures
            r@ == Self::type_path_spec(),
    ;
}

/// A type of the application's own that a leaf can be read as: its parser
/// and its name. What it accepts is its own; the library keeps no account
/// of it (see `Values::leaf_from`).
pub trait FromText: Sized {
    /// The value `text` spells, or the parser's message.
    fn from_text(text: &str) -> Result<Self, String>;

    /// The type's path, as a diagnostic names it.
    fn type_path() -> String;
}

impl Leaf for String {
    open spec fn parse_error(text: Seq<char>) -> Option<Seq<char>> {
        None
    }

    open spec fn reads_as(text: Seq<char>, v: String) -> bool {
        v@ == text
    }

    open spec fn type_path_spec() -> Seq<char> {
        "alloc::string::String"@
    }

    fn parse_leaf(text: &str) -> (r: Result<String, String>) {
        Ok(owned(text))
    }

    fn type_path() -> (r: String) {
        owned("alloc::string::String")
    }
}

/// The message of an unsigned parse, if it fails.
pub open spec fn unsigned_error(text: Seq<char>, max: nat) -> Option<Seq<char>> {
    match parse_unsigned(text, max) {
        Ok(_) => None,
        Err(e) => Some(e),
    }
}

impl Leaf for u64 {
    open spec fn parse_error(text: Seq<char>) -> Option<Seq<char>> {
        unsigned_error(text, u64::MAX as nat)
    }

    open spec fn reads_as(text: Seq<char>, v: u64) -> bool {
        parse_unsigned(text, u64::MAX as nat) == Ok::<nat, Seq<char>>(v as nat)
    }

    open spec fn type_path_spec() -> Seq<char> {
        "u64"@
    }

    fn parse_leaf(text: &str) -> (r: Result<u64, String>) {
        parse_unsigned_text(text, u64::MAX)
    }

    fn type_path() -> (r: String) {
        owned("u64")
    }
}

impl Leaf for u32 {
    open spec fn parse_error(text: Seq<char>) -> Option<Seq<char>> {
        unsigned_error(text, u32::MAX as nat)
    }

    open spec fn reads_as(text: Seq<char>, v: u32) -> bool {
        parse_unsigned(text, u32::MAX as nat) == Ok::<nat, Seq<char>>(v as nat)
    }

    open spec fn type_path_spec() -> Seq<char> {
        "u32"@
    }

    fn parse_leaf(text: &str) -> (r: Result<u32, String>) {
        match parse_unsigned_text(text, u32::MAX as u64) {
            Ok(v) => Ok(v as u32),
            Err(e) => Err(e),
        }
    }

    fn type_path() -> (r: String) {
        owned("u32")
    }
}

impl Leaf for u16 {
    open spec fn parse_error(text: Seq<char>) -> Option<Seq<char>> {
        unsigned_error(text, u16::MAX as nat)
    }

    open spec fn reads_as(text: Seq<char>, v: u16) -> bool {
        parse_unsigned(text, u16::MAX as nat) == Ok::<nat, Seq<char>>(v as nat)
    }

    open spec fn type_path_spec() -> Seq<char> {
        "u16"@
    }

    fn parse_leaf(text: &str) -> (r: Result<u16, String>) {
        match parse_unsigned_text(text, u16::MAX as u64) {
            Ok(v) => Ok(v as u16),
            Err(e) => Err(e),
        }
    }

    fn type_path() -> (r: String) {
        owned("u16")
    }
}

impl Leaf for u8 {
    open spec fn parse_error(text: Seq<char>) -> Option<Seq<char>> {
        unsigned_error(text, u8::MAX as nat)
    }

    open spec fn reads_as(text: Seq<char>, v: u8) -> bool {
        parse_unsigned(text, u8::MAX as nat) == Ok::<nat, Seq<char>>(v as nat)
    }

    open spec fn type_path_spec() -> Seq<char> {
        "u8"@
    }

    fn parse_leaf(text: &str) -> (r: Result<u8, String>) {
        match parse_unsigned_text(text, u8::MAX as u64) {
            Ok(v) => Ok(v as u8),
            Err(e) => Err(e),
        }
    }

    fn type_path() -> (r: String) {
        owned("u8")
    }
}

// ---------------------------------------------------------------------------
// The refusals a leaf raises.

/// The first registered field at `p`.
pub open spec fn field_at(fields: Seq<Field>, p: Seq<Seq<char>>) -> Option<int>
    decreases fields.len(),
{
    if fields.len() == 0 {
        None
    } else {
        match field_at(fields.drop_last(), p) {
            Some(i) => Some(i),
            None => if fields.last().path@ == p {
                Some(fields.len() - 1)
            } else {
                None
            },
        }
    }
}

/// Some field in `fields` sits at `p`.
pub open spec fn has_path(fields: Seq<Field>, p: Seq<Seq<char>>) -> bool {
    exists|i: int| 0 <= i < fields.len() && #[trigger] fields[i].path@ == p
}

pub proof fn lemma_has_path_field_at(fields: Seq<Field>, p: Seq<Seq<char>>)
    requires
        has_path(fields, p),
    ensures
        field_at(fields, p) matches Some(i) && 0 <= i < fields.len() && fields[i].path@ == p,
    decreases fields.len(),
{
    let i = choose|i: int| 0 <= i < fields.len() && #[trigger] fields[i].path@ == p;
    if i < fields.len() - 1 {
        assert(fields.drop_last()[i].path@ == p);
        lemma_has_path_field_at(fields.drop_last(), p);
    } else {
        match field_at(fields.drop_last(), p) {
            Some(j) => {
                lemma_field_at_in(fields.drop_last(), p);
            },
            None => {},
        }
    }
}

proof fn lemma_field_at_in(fields: Seq<Field>, p: Seq<Seq<char>>)
    ensures
        field_at(fields, p) matches Some(i) ==> 0 <= i < fields.len() && fields[i].path@ == p,
    decreases fields.len(),
{
    if fields.len() > 0 {
        lemma_field_at_in(fields.drop_last(), p);
    }
}

/// Where a required value may be given, in the file's words.
pub open spec fn file_place(f: Field) -> Seq<char> {
    if section_of(f.path@).len() == 0 {
        "at the top level of the config file"@
    } else {
        "under ["@ + section_of(f.path@) + "] in the config file"@
    }
}

/// The refusal for a required field nobody set.
pub open spec fn missing_v(f: Field, app: Seq<char>) -> RefusalV {
    let env = field_env(f, app);
    refusal_d(
        env,
        "unset"@,
        "a value: "@ + env + " in the environment, "@ + field_flag(f) + " on the command line, or `"@
            + leaf_of(f.path@) + " = …` "@ + file_place(f),
        "required and unset"@,
    )
}

/// The spelling that set an entry, as a refusal names it.
pub open spec fn source_of(f: Field, origin: OriginV) -> Seq<char> {
    match origin {
        OriginV::Env(name) => name,
        OriginV::Arg(flag) => flag,
        OriginV::File(path) => path + ": "@ + field_toml(f),
        OriginV::Default => "default of "@ + field_toml(f),
    }
}

/// How a value is shown in a refusal: masked when the field is secret.
pub open spec fn shown_text(f: Field, text: Seq<char>) -> Seq<char> {
    if f.secret {
        MASK@
    } else {
        text
    }
}

/// The refusal for a value its type does not read.
pub open spec fn wrong_type_v(f: Field, e: EntryV, accepted: Seq<char>, error: Seq<char>) -> RefusalV {
    refusal_d(
        source_of(f, e.origin),
        shown_text(f, e.text),
        accepted,
        "set by "@ + origin_text(e.origin) + ": "@ + error,
    )
}

/// What a refusal of a `T` leaf says is accepted: the given text, else the
/// type's short name.
pub open spec fn accepted_for<T: Leaf>(accepted: Option<Seq<char>>) -> Seq<char> {
    match accepted {
        Some(a) => a,
        None => "a "@ + short_name(T::type_path_spec()),
    }
}

/// What a refusal says is accepted: the given text, else "a " and the
/// short form of the type's path.
pub open spec fn accepted_or(accepted: Option<Seq<char>>, type_path: Seq<char>) -> Seq<char> {
    match accepted {
        Some(a) => a,
        None => "a "@ + short_name(type_path),
    }
}

/// Why reading a `T` leaf refuses, if it does: unset, or a text the type
/// does not read.
pub open spec fn leaf_error<T: Leaf>(
    f: Field,
    e: Option<EntryV>,
    app: Seq<char>,
    accepted: Option<Seq<char>>,
) -> Option<RefusalV> {
    match e {
        None => Some(missing_v(f, app)),
        Some(e) => match T::parse_error(e.text) {
            None => None,
            Some(msg) => Some(wrong_type_v(f, e, accepted_for::<T>(accepted), msg)),
        },
    }
}

/// What reading a boolean leaf gives for an entry.
pub open spec fn bool_result(f: Field, e: EntryV) -> Result<bool, RefusalV> {
    match parse_bool_spec(e.text) {
        Some(b) => Ok(b),
        None => Err(wrong_type_v(f, e, BOOL_ACCEPTED@, "not a boolean"@)),
    }
}

fn missing(field: &Field, app: &str) -> (r: Refusal)
    ensures
        r@ == missing_v(*field, app@),
{
    let env = field.env(app);
    let flag = field.flag();
    let section = field.path.section();
    let place = if section.as_str().unicode_len() == 0 {
        owned("at the top level of the config file")
    } else {
        let mut p = owned("under [");
        append(&mut p, section.as_str());
        append(&mut p, "] in the config file");
        p
    };
    let mut accepted = owned("a value: ");
    append(&mut accepted, env.as_str());
    append(&mut accepted, " in the environment, ");
    append(&mut accepted, flag.as_str());
    append(&mut accepted, " on the command line, or `");
    let leaf = field.path.leaf();
    append(&mut accepted, leaf.as_str());
    append(&mut accepted, " = …` ");
    append(&mut accepted, place.as_str());
    let r = Refusal::new(env, "unset", accepted).with_detail("required and unset");
    assert(r@.accepted =~= missing_v(*field, app@).accepted);
    r
}

fn wrong_type(field: &Field, entry: &Entry, accepted: String, error: String) -> (r: Refusal)
    ensures
        r@ == wrong_type_v(*field, entry@, accepted@, error@),
{
    let source = match &entry.origin {
        Origin::Env(name) => name.clone(),
        Origin::Arg(flag) => flag.clone(),
        Origin::File(path) => {
            let mut s = path.clone();
            append(&mut s, ": ");
            let key = field.toml();
            append(&mut s, key.as_str());
            s
        },
        Origin::Default => {
            let mut s = owned("default of ");
            let key = field.toml();
            append(&mut s, key.as_str());
            s
        },
    };
    let shown = if field.secret {
        owned(MASK)
    } else {
        entry.text.clone()
    };
    let mut detail = owned("set by ");
    let origin = entry.origin.to_string();
    append(&mut detail, origin.as_str());
    append(&mut detail, ": ");
    append(&mut detail, error.as_str());
    Refusal::new(source, shown, accepted).with_detail(detail)
}

// ---------------------------------------------------------------------------
// The merged values.

/// The spec-side picture of `Values`.
pub struct ValuesV {
    pub app: Seq<char>,
    pub fields: Seq<Field>,
    pub entries: Map<Seq<Seq<char>>, EntryV>,
    pub file: FileStatusV,
}

pub struct Values {
    app: String,
    fields: Vec<Field>,
    entries: Table,
    file: FileStatus,
}

impl Values {
    pub closed spec fn view(&self) -> ValuesV {
        ValuesV {
            app: self.app@,
            fields: self.fields@,
            entries: self.entries.view(),
            file: self.file@,
        }
    }

    /// The table holds each path once.
    pub closed spec fn wf(&self) -> bool {
        self.entries.wf()
    }

    /// Some registered field sits at `p`.
    pub open spec fn registered(&self, p: Seq<Seq<char>>) -> bool {
        has_path(self.view().fields, p)
    }

    pub fn new(app: &str, fields: Vec<Field>, entries: Table, file: FileStatus) -> (r: Self)
        requires
            entries.wf(),
        ensures
            r.wf(),
            r.view() == (ValuesV {
                app: app@,
                fields: fields@,
                entries: entries.view(),
                file: file@,
            }),
    {
        Values { app: owned(app), fields, entries, file }
    }

    pub fn app(&self) -> (r: &str)
        ensures
            r@ == self.view().app,
    {
        self.app.as_str()
    }

    pub fn fields(&self) -> (r: &Vec<Field>)
        ensures
            r@ == self.view().fields,
    {
        &self.fields
    }

    pub fn file(&self) -> (r: &FileStatus)
        ensures
            r@ == self.view().file,
    {
        &self.file
    }

    pub fn get(&self, path: &Path) -> (r: Option<&Entry>)
        requires
            self.wf(),
        ensures
            match r {
                Some(e) => self.view().entries.contains_key(path@) && self.view().entries[path@]
                    == e@,
                None => !self.view().entries.contains_key(path@),
            },
    {
        self.entries.get(path)
    }

    fn field(&self, path: &Path) -> (r: &Field)
        requires
            self.registered(path@),
        ensures
            field_at(self.view().fields, path@) matches Some(i) && *r == self.view().fields[i],
    {
        proof {
            lemma_has_path_field_at(self.fields@, path@);
        }
        let mut i: usize = 0;
        while i < self.fields.len()
            invariant
                i <= self.fields.len(),
                field_at(self.fields@.take(i as int), path@) is None,
                field_at(self.fields@, path@) is Some,
            decreases self.fields.len() - i,
        {
            proof {
                lemma_field_at_prefix(self.fields@, path@, i as int);
            }
            if self.fields[i].path.same(path) {
                proof {
                    let t = self.fields@.take(i + 1);
                    assert(t.drop_last() =~= self.fields@.take(i as int));
                    lemma_field_at_extends(self.fields@, path@, i + 1);
                }
                return &self.fields[i];
            }
            assert(self.fields@.take(i + 1).drop_last() =~= self.fields@.take(i as int));
            i = i + 1;
        }
        assert(self.fields@.take(i as int) =~= self.fields@);
        &self.fields[0]
    }

    /// The entry merged at `p`, if any.
    pub open spec fn entry_at(&self, p: Seq<Seq<char>>) -> Option<EntryV> {
        if self.view().entries.contains_key(p) {
            Some(self.view().entries[p])
        } else {
            None
        }
    }

    /// The field registered first at `p`.
    pub open spec fn field_for(&self, p: Seq<Seq<char>>) -> Field {
        self.view().fields[field_at(self.view().fields, p)->0]
    }

    /// The leaf at `path` read as a `T`; a required leaf nobody set refuses.
    pub fn leaf<T: Leaf>(&self, path: &Path, accepted: Option<&str>) -> (r: Result<T, Refusal>)
        requires
            self.wf(),
            self.registered(path@),
        ensures
            match r {
                Ok(v) => leaf_error::<T>(
                    self.field_for(path@),
                    self.entry_at(path@),
                    self.view().app,
                    opt_str(accepted),
                ) is None && T::reads_as(self.entry_at(path@)->0.text, v),
                Err(e) => leaf_error::<T>(
                    self.field_for(path@),
                    self.entry_at(path@),
                    self.view().app,
                    opt_str(accepted),
                ) == Some(e@),
            },
    {
        let field = self.field(path);
        match self.entries.get(path) {
            Some(entry) => parse_text(field, entry, accepted),
            None => Err(missing(field, self.app.as_str())),
        }
    }

    /// The leaf at `path` read as a `T`, `None` while unset.
    pub fn leaf_opt<T: Leaf>(&self, path: &Path, accepted: Option<&str>) -> (r: Result<
        Option<T>,
        Refusal,
    >)
        requires
            self.wf(),
            self.registered(path@),
        ensures
            match r {
                Ok(None) => self.entry_at(path@) is None,
                Ok(Some(v)) => self.entry_at(path@) is Some && leaf_error::<T>(
                    self.field_for(path@),
                    self.entry_at(path@),
                    self.view().app,
                    opt_str(accepted),
                ) is None && T::reads_as(self.entry_at(path@)->0.text, v),
                Err(e) => self.entry_at(path@) is Some && leaf_error::<T>(
                    self.field_for(path@),
                    self.entry_at(path@),
                    self.view().app,
                    opt_str(accepted),
                ) == Some(e@),
            },
    {
        let field = self.field(path);
        match self.entries.get(path) {
            Some(entry) => match parse_text(field, entry, accepted) {
                Ok(v) => Ok(Some(v)),
                Err(e) => Err(e),
            },
            None => Ok(None),
        }
    }

    /// The leaf at `path` read by `T`'s own parser. Unset, it refuses as a
    /// missing value; set, a text `T` does not read refuses naming where it
    /// was set, with `T`'s message.
    pub fn leaf_from<T: FromText>(&self, path: &Path, accepted: Option<&str>) -> (r: Result<T, Refusal>)
        requires
            self.wf(),
            self.registered(path@),
        ensures
            match self.entry_at(path@) {
                None => r matches Err(e) && e@ == missing_v(self.field_for(path@), self.view().app),
                Some(en) => read_by::<T>(self.field_for(path@), en, opt_str(accepted), ok_value(r), err_view(r)),
            },
    {
        let field = self.field(path);
        match self.entries.get(path) {
            Some(entry) => from_text_entry(field, entry, accepted),
            None => Err(missing(field, self.app.as_str())),
        }
    }

    /// The leaf at `path` read by `T`'s own parser, `None` while unset.
    pub fn leaf_opt_from<T: FromText>(&self, path: &Path, accepted: Option<&str>) -> (r: Result<
        Option<T>,
        Refusal,
    >)
        requires
            self.wf(),
            self.registered(path@),
        ensures
            match self.entry_at(path@) {
                None => r matches Ok(None),
                Some(en) => match r {
                    Ok(Some(v)) => read_by::<T>(self.field_for(path@), en, opt_str(accepted), Some(v), None),
                    Ok(None) => false,
                    Err(e) => read_by::<T>(self.field_for(path@), en, opt_str(accepted), None, Some(e@)),
                },
            },
    {
        let field = self.field(path);
        match self.entries.get(path) {
            Some(entry) => match from_text_entry(field, entry, accepted) {
                Ok(v) => Ok(Some(v)),
                Err(e) => Err(e),
            },
            None => Ok(None),
        }
    }

    /// The boolean at `path`; a required one nobody set refuses.
    pub fn bool(&self, path: &Path) -> (r: Result<bool, Refusal>)
        requires
            self.wf(),
            self.registered(path@),
        ensures
            ({
                let want = match self.entry_at(path@) {
                    Some(e) => bool_result(self.field_for(path@), e),
                    None => Err(missing_v(self.field_for(path@), self.view().app)),
                };
                match r {
                    Ok(v) => want == Ok::<bool, RefusalV>(v),
                    Err(e) => want == Err::<bool, RefusalV>(e@),
                }
            }),
    {
        let field = self.field(path);
        match self.entries.get(path) {
            Some(entry) => parse_bool_entry(field, entry),
            None => Err(missing(field, self.app.as_str())),
        }
    }

    /// The boolean at `path`, `None` while unset.
    pub fn bool_opt(&self, path: &Path) -> (r: Result<Option<bool>, Refusal>)
        requires
            self.wf(),
            self.registered(path@),
        ensures
            match self.entry_at(path@) {
                Some(e) => match r {
                    Ok(Some(v)) => bool_result(self.field_for(path@), e) == Ok::<bool, RefusalV>(v),
                    Ok(None) => false,
                    Err(x) => bool_result(self.field_for(path@), e) == Err::<bool, RefusalV>(x@),
                },
                None => r matches Ok(None),
            },
    {
        let field = self.field(path);
        match self.entries.get(path) {
            Some(entry) => match parse_bool_entry(field, entry) {
                Ok(b) => Ok(Some(b)),
                Err(e) => Err(e),
            },
            None => Ok(None),
        }
    }
}

/// Why reading the `T` leaf at `p` refuses, if it does: unset, or a text
/// the type does not read.
pub open spec fn leaf_refusal<T: Leaf>(values: Values, p: Seq<Seq<char>>, accepted: Option<Seq<char>>) -> Option<
    RefusalV,
> {
    leaf_error::<T>(values.field_for(p), values.entry_at(p), values.view().app, accepted)
}

/// Why reading the optional `T` leaf at `p` refuses, if it does: only a
/// text the type does not read.
pub open spec fn leaf_opt_refusal<T: Leaf>(
    values: Values,
    p: Seq<Seq<char>>,
    accepted: Option<Seq<char>>,
) -> Option<RefusalV> {
    if values.entry_at(p) is Some {
        leaf_refusal::<T>(values, p, accepted)
    } else {
        None
    }
}

/// What reading the boolean at `p` gives: its value, or the refusal of an
/// unset or unreadable one.
pub open spec fn bool_read(values: Values, p: Seq<Seq<char>>) -> Result<bool, RefusalV> {
    match values.entry_at(p) {
        Some(e) => bool_result(values.field_for(p), e),
        None => Err(missing_v(values.field_for(p), values.view().app)),
    }
}

/// Why reading the boolean at `p` refuses, if it does.
pub open spec fn bool_refusal(values: Values, p: Seq<Seq<char>>) -> Option<RefusalV> {
    match bool_read(values, p) {
        Ok(_) => None,
        Err(e) => Some(e),
    }
}

/// `v` is what the text at `p` reads as.
pub open spec fn leaf_gave<T: Leaf>(values: Values, p: Seq<Seq<char>>, v: T) -> bool {
    T::reads_as(values.entry_at(p)->0.text, v)
}

/// `v` is `None` where `p` is unset, else what its text reads as.
pub open spec fn leaf_opt_gave<T: Leaf>(values: Values, p: Seq<Seq<char>>, v: Option<T>) -> bool {
    match v {
        Some(x) => values.entry_at(p) is Some && T::reads_as(values.entry_at(p)->0.text, x),
        None => values.entry_at(p) is None,
    }
}

/// The first of two refusals, in reading order.
pub open spec fn first_of(a: Option<RefusalV>, b: Option<RefusalV>) -> Option<RefusalV> {
    match a {
        Some(x) => Some(x),
        None => b,
    }
}

/// The value of a read, if it gave one.
pub open spec fn ok_value<T>(r: Result<T, Refusal>) -> Option<T> {
    match r {
        Ok(v) => Some(v),
        Err(_) => None,
    }
}

/// The refusal of a read, if it refused.
pub open spec fn err_view<T>(r: Result<T, Refusal>) -> Option<RefusalV> {
    match r {
        Ok(_) => None,
        Err(e) => Some(e@),
    }
}

/// An entry read by `T`'s own parser: the entry's text handed to
/// `T::from_text`; what it parses comes back as the value, and its message
/// becomes the wrong-type refusal, naming what is accepted or else the
/// short form of the name `T::type_path` gives.
pub open spec fn read_by<T: FromText>(
    f: Field,
    en: EntryV,
    accepted: Option<Seq<char>>,
    value: Option<T>,
    refusal: Option<RefusalV>,
) -> bool {
    exists|text: &str, parsed: Result<T, String>|
        #[trigger] call_ensures(T::from_text, (text,), parsed) && text@ == en.text && match parsed {
            Ok(v) => value == Some(v) && refusal is None,
            Err(msg) => value is None && exists|name: String|
                #[trigger] call_ensures(T::type_path, (), name) && refusal == Some(
                    wrong_type_v(f, en, accepted_or(accepted, name@), msg@),
                ),
        }
}

/// The view of an optional borrowed string.
pub open spec fn opt_str(o: Option<&str>) -> Option<Seq<char>> {
    match o {
        Some(s) => Some(s@),
        None => None,
    }
}

proof fn lemma_field_at_prefix(fields: Seq<Field>, p: Seq<Seq<char>>, i: int)
    requires
        0 <= i <= fields.len(),
        field_at(fields.take(i), p) is None,
        field_at(fields, p) is Some,
    ensures
        i < fields.len(),
{
    if i == fields.len() {
        assert(fields.take(i) =~= fields);
    }
}

/// Once a prefix holds the first field at `p`, so does every longer one.
proof fn lemma_field_at_extends(fields: Seq<Field>, p: Seq<Seq<char>>, k: int)
    requires
        0 <= k <= fields.len(),
        field_at(fields.take(k), p) is Some,
    ensures
        field_at(fields, p) == field_at(fields.take(k), p),
    decreases fields.len() - k,
{
    if k < fields.len() {
        let t = fields.take(k + 1);
        assert(t.drop_last() =~= fields.take(k));
        lemma_field_at_extends(fields, p, k + 1);
    } else {
        assert(fields.take(k) =~= fields);
    }
}

fn parse_bool_entry(field: &Field, entry: &Entry) -> (r: Result<bool, Refusal>)
    ensures
        match r {
            Ok(v) => bool_result(*field, entry@) == Ok::<bool, RefusalV>(v),
            Err(e) => bool_result(*field, entry@) == Err::<bool, RefusalV>(e@),
        },
{
    match parse_bool(entry.text.as_str()) {
        Some(b) => Ok(b),
        None => Err(wrong_type(field, entry, owned(BOOL_ACCEPTED), owned("not a boolean"))),
    }
}

/// An entry read by `T`'s own parser: the value, or the wrong-type refusal
/// carrying the parser's message.
fn from_text_entry<T: FromText>(field: &Field, entry: &Entry, accepted: Option<&str>) -> (r: Result<
    T,
    Refusal,
>)
    ensures
        read_by::<T>(*field, entry@, opt_str(accepted), ok_value(r), err_view(r)),
{
    match T::from_text(entry.text.as_str()) {
        Ok(v) => Ok(v),
        Err(msg) => {
            let path = T::type_path();
            let accepted_text = match accepted {
                Some(a) => owned(a),
                None => {
                    let mut s = owned("a ");
                    let short = short_type_name(path.as_str());
                    append(&mut s, short.as_str());
                    s
                },
            };
            let r = wrong_type(field, entry, accepted_text, msg);
            assert(r@ == wrong_type_v(*field, entry@, accepted_or(opt_str(accepted), path@), msg@));
            let out: Result<T, Refusal> = Err(r);
            assert(err_view(out) == Some(r@));
            out
        },
    }
}

fn parse_text<T: Leaf>(field: &Field, entry: &Entry, accepted: Option<&str>) -> (r: Result<
    T,
    Refusal,
>)
    ensures
        match r {
            Ok(v) => T::parse_error(entry@.text) is None && T::reads_as(entry@.text, v),
            Err(e) => T::parse_error(entry@.text) matches Some(msg) && e@ == wrong_type_v(
                *field,
                entry@,
                accepted_for::<T>(opt_str(accepted)),
                msg,
            ),
        },
{
    match T::parse_leaf(entry.text.as_str()) {
        Ok(v) => Ok(v),
        Err(msg) => {
            let accepted_text = match accepted {
                Some(a) => owned(a),
                None => {
                    let mut s = owned("a ");
                    let path = T::type_path();
                    let short = short_type_name(path.as_str());
                    append(&mut s, short.as_str());
                    s
                },
            };
            Err(wrong_type(field, entry, accepted_text, msg))
        },
    }
}

} // verus!
