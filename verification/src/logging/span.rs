//! Request-scoped spans: the fields every service attaches to a request,
//! the request id, and string-mirrored enums with their `or` lists.

use vstd::prelude::*;

use crate::text::{append, debug_quoted, debug_text, hex_fixed, join, joined, owned, push_hex, same, views};

verus! {

/// Finds `text` among `spellings`: the first position that holds it.
pub fn spelled_at(spellings: &[&str], text: &str) -> (r: Option<usize>)
    ensures
        match r {
            Some(i) => i < spellings@.len() && spellings@[i as int]@ == text@ && forall|j: int|
                0 <= j < i ==> (#[trigger] spellings@[j])@ != text@,
            None => forall|i: int| 0 <= i < spellings@.len() ==> (#[trigger] spellings@[i])@ != text@,
        },
{
    let mut i: usize = 0;
    while i < spellings.len()
        invariant
            i <= spellings@.len(),
            forall|j: int| 0 <= j < i ==> (#[trigger] spellings@[j])@ != text@,
        decreases spellings.len() - i,
    {
        if same(spellings[i], text) {
            return Some(i);
        }
        i = i + 1;
    }
    None
}

/// `spellings` holds, position by position, what `spell` gives for each of
/// `variants`.
pub open spec fn spelled_as<E, F: Fn(E) -> &'static str>(
    spell: F,
    variants: Seq<E>,
    spellings: Seq<&'static str>,
) -> bool {
    &&& spellings.len() == variants.len()
    &&& forall|i: int|
        0 <= i < spellings.len() ==> call_ensures(spell, (variants[i],), #[trigger] spellings[i])
}

/// `r` is the first of `variants` whose spelling is `text`, or `None` where
/// none is.
pub open spec fn first_spelled<E>(
    variants: Seq<E>,
    spellings: Seq<&'static str>,
    text: Seq<char>,
    r: Option<E>,
) -> bool {
    match r {
        Some(v) => exists|k: int|
            0 <= k < spellings.len() && v == variants[k] && (#[trigger] spellings[k])@ == text
                && forall|j: int| 0 <= j < k ==> (#[trigger] spellings[j])@ != text,
        None => forall|k: int| 0 <= k < spellings.len() ==> (#[trigger] spellings[k])@ != text,
    }
}

/// An enum whose variants are mirrored as strings in an env var, a log field
/// or on a wire: each spelling is given once (`as_str`) and both directions
/// follow from it.
pub trait StrEnum: Sized + Copy {
    /// Every variant, in declaration order.
    fn all() -> Vec<Self>;

    /// The variant's spelling.
    fn as_str(self) -> &'static str;

    /// Every spelling, in declaration order: the spelling of each variant
    /// that `all` gives.
    fn values() -> (r: Vec<&'static str>)
        ensures
            exists|all: Vec<Self>|
                call_ensures(Self::all, (), all) && #[trigger] spelled_as(Self::as_str, all@, r@),
    {
        let all = Self::all();
        let mut out: Vec<&'static str> = Vec::new();
        let mut i: usize = 0;
        while i < all.len()
            invariant
                i <= all.len(),
                spelled_as(Self::as_str, all@.take(i as int), out@),
            decreases all.len() - i,
        {
            out.push(all[i].as_str());
            i = i + 1;
        }
        assert(all@.take(i as int) =~= all@);
        out
    }

    /// The first variant spelled `text`, if any (see `spelled_at`): of the
    /// variants that `all` gives, the first whose `as_str` is `text`.
    fn try_from_str(text: &str) -> (r: Option<Self>)
        ensures
            exists|all: Vec<Self>, spellings: Seq<&'static str>|
                call_ensures(Self::all, (), all) && #[trigger] spelled_as(Self::as_str, all@, spellings)
                    && first_spelled(all@, spellings, text@, r),
    {
        let all = Self::all();
        let mut spellings: Vec<&'static str> = Vec::new();
        let mut i: usize = 0;
        while i < all.len()
            invariant
                i <= all.len(),
                spelled_as(Self::as_str, all@.take(i as int), spellings@),
            decreases all.len() - i,
        {
            spellings.push(all[i].as_str());
            i = i + 1;
        }
        assert(all@.take(i as int) =~= all@);
        match spelled_at(spellings.as_slice(), text) {
            Some(k) => {
                assert(spellings@[k as int]@ == text@);
                Some(all[k])
            },
            None => None,
        }
    }
}

/// The fields a request span declares.
#[derive(Debug, Clone, Copy, PartialEq, Eq, Structural)]
pub enum FixedField {
    ReqId,
    Actor,
}

impl FixedField {
    pub open spec fn spelling(self) -> Seq<char> {
        match self {
            FixedField::ReqId => "reqid"@,
            FixedField::Actor => "actor"@,
        }
    }

    pub fn as_ref(&self) -> (r: &'static str)
        ensures
            r@ == self.spelling(),
    {
        self.as_str()
    }

    /// The field spelled `text`, if any.
    pub fn named(text: &str) -> (r: Option<FixedField>)
        ensures
            match r {
                Some(f) => f.spelling() == text@,
                None => text@ != "reqid"@ && text@ != "actor"@,
            },
    {
        if same(text, "reqid") {
            Some(FixedField::ReqId)
        } else if same(text, "actor") {
            Some(FixedField::Actor)
        } else {
            None
        }
    }
}

impl StrEnum for FixedField {
    fn all() -> (r: Vec<FixedField>)
        ensures
            r@ == seq![FixedField::ReqId, FixedField::Actor],
    {
        let r = vec![FixedField::ReqId, FixedField::Actor];
        assert(r@ =~= seq![FixedField::ReqId, FixedField::Actor]);
        r
    }

    fn as_str(self) -> (r: &'static str)
        ensures
            r@ == self.spelling(),
    {
        match self {
            FixedField::ReqId => "reqid",
            FixedField::Actor => "actor",
        }
    }
}

/// `values` quoted and listed: `"a", "b" or "c"`.
pub open spec fn or_list_spec(values: Seq<Seq<char>>) -> Seq<char> {
    let quoted = values.map_values(|v: Seq<char>| debug_text(v));
    if quoted.len() == 0 {
        seq![]
    } else if quoted.len() == 1 {
        quoted[0]
    } else {
        join(quoted.drop_last(), ", "@) + " or "@ + quoted.last()
    }
}

pub fn or_list(values: &[&str]) -> (r: String)
    ensures
        r@ == or_list_spec(values@.map_values(|v: &str| v@)),
{
    let ghost vs = values@.map_values(|v: &str| v@);
    let ghost quoted = vs.map_values(|v: Seq<char>| debug_text(v));
    let mut q: Vec<String> = Vec::new();
    let mut i: usize = 0;
    while i < values.len()
        invariant
            i <= values.len(),
            vs == values@.map_values(|v: &str| v@),
            quoted == vs.map_values(|v: Seq<char>| debug_text(v)),
            views(q@) == quoted.take(i as int),
        decreases values.len() - i,
    {
        let s = debug_quoted(values[i]);
        let ghost before = q@;
        q.push(s);
        assert(vs[i as int] == values@[i as int]@);
        assert(quoted[i as int] == debug_text(values[i as int]@));
        assert(views(q@) =~= views(before).push(s@));
        assert(quoted.take(i + 1) =~= quoted.take(i as int).push(quoted[i as int]));
        assert(views(q@) =~= quoted.take(i + 1));
        i = i + 1;
    }
    assert(quoted.take(i as int) =~= quoted);
    let n = q.len();
    if n == 0 {
        String::new()
    } else if n == 1 {
        q[0].clone()
    } else {
        let last = q.pop().unwrap();
        assert(views(q@) =~= quoted.drop_last());
        let mut out = joined(&q, ", ");
        append(&mut out, " or ");
        append(&mut out, last.as_str());
        out
    }
}

/// A request id: the low 32 bits of the time in nanoseconds, then the low
/// 16 bits of the count, in fixed-width lower-case hex.
pub open spec fn reqid_text(nanos: u64, count: u64) -> Seq<char> {
    hex_fixed(nanos as nat, 8) + hex_fixed(count as nat, 4)
}

pub fn reqid_from(nanos: u64, count: u64) -> (r: String)
    ensures
        r@ == reqid_text(nanos, count),
{
    let mut out = String::new();
    push_hex(&mut out, nanos, 8);
    push_hex(&mut out, count, 4);
    assert(out@ =~= reqid_text(nanos, count));
    out
}

/// `SystemTime::now()` since the epoch, in nanoseconds truncated to 64 bits,
/// 0 for a clock set before the epoch. What it returns is the clock's.
#[verifier::external_body]
fn unix_nanos() -> u64 {
    std::time::SystemTime::now().duration_since(std::time::UNIX_EPOCH).map(|d| d.as_nanos() as u64).unwrap_or(0)
}

/// A fresh request id from the clock and `count`, the caller's running
/// count of ids handed out.
pub fn gen_reqid(count: u64) -> (r: String)
    ensures
        exists|nanos: u64| r@ == reqid_text(nanos, count),
{
    let nanos = unix_nanos();
    reqid_from(nanos, count)
}

#[verifier::external_type_specification]
#[verifier::external_body]
pub struct ExSpan(tracing::Span);

/// `Span::record`: sets the span's field `field` to `value`. What the span
/// then holds is the subscriber's.
#[verifier::external_body]
fn span_record(span: &tracing::Span, field: &str, value: &str) {
    span.record(field, value);
}

/// Records the request's actor on its span.
pub fn set_actor(span: &tracing::Span, actor: &str) {
    span_record(span, FixedField::Actor.as_ref(), actor);
}

} // verus!
