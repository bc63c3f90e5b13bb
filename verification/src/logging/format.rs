//! How a human log line looks: the request context a line names, the span
//! fields it carries along, and the line itself. Gathering the values from
//! a live event is the subscriber's; deciding and rendering is here.

use vstd::prelude::*;

use crate::logging::span::{FixedField, StrEnum};
use crate::text::{append, decimal, decimal_string, owned, same, strip_end, strip_start, trim_end_char, trim_start_char, views};

verus! {

pub const MESSAGE: &'static str = "message";

pub type Pair = (String, String);

pub open spec fn pairs_v(v: Seq<Pair>) -> Seq<(Seq<char>, Seq<char>)> {
    v.map_values(|p: Pair| (p.0@, p.1@))
}

pub open spec fn names_of(v: Seq<(Seq<char>, Seq<char>)>) -> Seq<Seq<char>> {
    v.map_values(|p: (Seq<char>, Seq<char>)| p.0)
}

/// A value with one pair of surrounding quotes removed, when it has both.
pub open spec fn unquote_spec(s: Seq<char>) -> Seq<char> {
    if s.len() >= 2 && s[0] == '"' && s.last() == '"' {
        s.subrange(1, s.len() - 1)
    } else {
        s
    }
}

pub fn unquote(s: &str) -> (r: String)
    ensures
        r@ == unquote_spec(s@),
{
    let v = crate::text::chars_of(s);
    let n = v.len();
    if n >= 2 && v[0] == '"' && v[n - 1] == '"' {
        crate::text::string_of(&v, 1, n - 1)
    } else {
        owned(s)
    }
}

/// A value with every surrounding quote removed.
pub open spec fn trim_quotes_spec(s: Seq<char>) -> Seq<char> {
    strip_end(strip_start(s, '"'), '"')
}

pub fn trim_quotes(s: &str) -> (r: String)
    ensures
        r@ == trim_quotes_spec(s@),
{
    let a = trim_start_char(s, '"');
    trim_end_char(a.as_str(), '"')
}

/// The request id and actor a span carries.
#[derive(Debug, Clone)]
pub struct ReqCtx {
    pub reqid: Option<String>,
    pub actor: Option<String>,
}

impl ReqCtx {
    pub fn new() -> (r: Self)
        ensures
            r.reqid is None,
            r.actor is None,
    {
        ReqCtx { reqid: None, actor: None }
    }

    /// Records a span field: `reqid` and `actor` are kept, anything else
    /// ignored.
    pub fn record(&mut self, name: &str, value: String)
        ensures
            name@ == "reqid"@ ==> final(self).reqid == Some(value) && final(self).actor == old(
                self,
            ).actor,
            name@ == "actor"@ ==> final(self).actor == Some(value) && final(self).reqid == old(
                self,
            ).reqid,
            name@ != "reqid"@ && name@ != "actor"@ ==> *final(self) == *old(self),
    {
        proof {
            reveal_strlit("reqid");
            reveal_strlit("actor");
            assert("reqid"@[0] != "actor"@[0]);
        }
        match FixedField::named(name) {
            Some(FixedField::ReqId) => {
                self.reqid = Some(value);
            },
            Some(FixedField::Actor) => {
                self.actor = Some(value);
            },
            None => {},
        }
    }
}

/// Sets `name` to `value`: in place where `name` is already listed, else at
/// the end.
pub open spec fn put_spec(fields: Seq<(Seq<char>, Seq<char>)>, name: Seq<char>, value: Seq<char>) -> Seq<
    (Seq<char>, Seq<char>),
> {
    let k = first_named(fields, name);
    if k < 0 {
        fields.push((name, value))
    } else {
        fields.update(k, (name, value))
    }
}

/// The first index listing `name`, or -1.
pub open spec fn first_named(fields: Seq<(Seq<char>, Seq<char>)>, name: Seq<char>) -> int
    decreases fields.len(),
{
    if fields.len() == 0 {
        -1
    } else {
        let k = first_named(fields.drop_last(), name);
        if k >= 0 {
            k
        } else if fields.last().0 == name {
            fields.len() - 1
        } else {
            -1
        }
    }
}

proof fn lemma_first_named(fields: Seq<(Seq<char>, Seq<char>)>, name: Seq<char>)
    ensures
        -1 <= first_named(fields, name) < fields.len(),
        first_named(fields, name) >= 0 ==> fields[first_named(fields, name)].0 == name,
        forall|j: int|
            0 <= j < fields.len() && (first_named(fields, name) < 0 || j < first_named(fields, name))
                ==> fields[j].0 != name,
    decreases fields.len(),
{
    if fields.len() > 0 {
        let d = fields.drop_last();
        lemma_first_named(d, name);
        let k = first_named(fields, name);
        assert forall|j: int|
            0 <= j < fields.len() && (k < 0 || j < k) implies fields[j].0 != name by {
            if j < fields.len() - 1 {
                assert(d[j] == fields[j]);
            }
        }
    }
}

proof fn lemma_contains_push(s: Seq<Seq<char>>, x: Seq<char>, n: Seq<char>)
    ensures
        s.push(x).contains(n) <==> (s.contains(n) || n == x),
{
    if s.contains(n) {
        let i = choose|i: int| 0 <= i < s.len() && s[i] == n;
        assert(s.push(x)[i] == n);
    }
    if n == x {
        assert(s.push(x)[s.len() as int] == n);
    }
    if s.push(x).contains(n) {
        let i = choose|i: int| 0 <= i < s.push(x).len() && s.push(x)[i] == n;
        if i < s.len() {
            assert(s[i] == n);
        }
    }
}

pub fn put_field(fields: &mut Vec<Pair>, name: &str, value: String)
    ensures
        pairs_v(final(fields)@) == put_spec(pairs_v(old(fields)@), name@, value@),
{
    let ghost fv = pairs_v(fields@);
    proof {
        lemma_first_named(fv, name@);
    }
    let mut i: usize = 0;
    while i < fields.len()
        invariant
            i <= fields.len(),
            fv == pairs_v(fields@),
            fields@ == old(fields)@,
            fv.len() == fields.len(),
            forall|j: int| 0 <= j < i ==> fv[j].0 != name@,
            -1 <= first_named(fv, name@) < fv.len(),
            first_named(fv, name@) >= 0 ==> fv[first_named(fv, name@)].0 == name@,
            forall|j: int|
                0 <= j < fv.len() && (first_named(fv, name@) < 0 || j < first_named(fv, name@))
                    ==> fv[j].0 != name@,
        decreases fields.len() - i,
    {
        assert(fv[i as int] == (fields@[i as int].0@, fields@[i as int].1@));
        if same(fields[i].0.as_str(), name) {
            assert(first_named(fv, name@) == i);
            fields.set(i, (owned(name), value));
            assert(pairs_v(fields@) =~= fv.update(i as int, (name@, value@)));
            return;
        }
        i = i + 1;
    }
    fields.push((owned(name), value));
    assert(pairs_v(fields@) =~= fv.push((name@, value@)));
}

/// The values an event carries, split as the line shows them.
#[derive(Debug, Clone)]
pub struct EventFields {
    pub designator: Option<String>,
    pub message: Option<String>,
    pub fields: Vec<Pair>,
}

impl EventFields {
    pub fn new() -> (r: Self)
        ensures
            r.designator is None,
            r.message is None,
            r.fields@.len() == 0,
    {
        EventFields { designator: None, message: None, fields: Vec::new() }
    }

    /// Files a field: the message and the designator in their places, any
    /// other at the end of the list.
    pub fn put(&mut self, name: &str, value: String)
        ensures
            name@ == MESSAGE@ ==> final(self).message == Some(value) && final(self).designator == old(
                self,
            ).designator && final(self).fields == old(self).fields,
            name@ == crate::logging::designator::FIELD@ ==> final(self).designator == Some(value)
                && final(self).message == old(self).message && final(self).fields == old(
                self,
            ).fields,
            name@ != MESSAGE@ && name@ != crate::logging::designator::FIELD@ ==> final(self).message
                == old(self).message && final(self).designator == old(self).designator && pairs_v(
                final(self).fields@,
            ) == pairs_v(old(self).fields@).push((name@, value@)),
    {
        proof {
            reveal_strlit("message");
            reveal_strlit("designator");
            assert(MESSAGE@[0] != crate::logging::designator::FIELD@[0]);
        }
        if same(name, MESSAGE) {
            self.message = Some(value);
        } else if same(name, crate::logging::designator::FIELD) {
            self.designator = Some(value);
        } else {
            let ghost before = self.fields@;
            self.fields.push((owned(name), value));
            assert(pairs_v(self.fields@) =~= pairs_v(before).push((name@, value@)));
        }
    }
}

/// The request id and actor a line names: from the innermost span that has
/// each.
pub open spec fn first_some(v: Seq<Option<Seq<char>>>) -> Option<Seq<char>>
    decreases v.len(),
{
    if v.len() == 0 {
        None
    } else if v[0] is Some {
        v[0]
    } else {
        first_some(v.drop_first())
    }
}

proof fn lemma_first_some(v: Seq<Option<Seq<char>>>)
    ensures
        first_some(v) is None <==> forall|i: int| 0 <= i < v.len() ==> (#[trigger] v[i]) is None,
        first_some(v) is Some ==> exists|i: int|
            0 <= i < v.len() && #[trigger] v[i] == first_some(v) && forall|j: int|
                0 <= j < i ==> (#[trigger] v[j]) is None,
    decreases v.len(),
{
    if v.len() > 0 {
        let rest = v.drop_first();
        lemma_first_some(rest);
        assert forall|i: int| 0 <= i < rest.len() implies rest[i] == v[i + 1] by {}
        if v[0] is None {
            if first_some(rest) is Some {
                let i = choose|i: int|
                    0 <= i < rest.len() && #[trigger] rest[i] == first_some(rest) && forall|j: int|
                        0 <= j < i ==> (#[trigger] rest[j]) is None;
                assert(v[i + 1] == first_some(v));
                assert forall|j: int| 0 <= j < i + 1 implies (#[trigger] v[j]) is None by {
                    if j > 0 {
                        assert(v[j] == rest[j - 1]);
                    }
                }
            } else {
                assert forall|i: int| 0 <= i < v.len() implies (#[trigger] v[i]) is None by {
                    if i > 0 {
                        assert(v[i] == rest[i - 1]);
                    }
                }
            }
        } else {
            assert(v[0] == first_some(v));
        }
    }
}

/// The request id a line shows is the one of the innermost span that
/// carries one, and there is none only where no span carries one; the
/// actor likewise.
pub proof fn lemma_request_context(spans: Seq<ReqCtx>)
    ensures
        ({
            let id = first_some(spans.map_values(|c: ReqCtx| crate::text::opt_view(c.reqid)));
            let actor = first_some(spans.map_values(|c: ReqCtx| crate::text::opt_view(c.actor)));
            &&& id is None <==> forall|i: int| 0 <= i < spans.len() ==> (#[trigger] spans[i]).reqid is None
            &&& id is Some ==> exists|i: int|
                0 <= i < spans.len() && id == crate::text::opt_view((#[trigger] spans[i]).reqid)
                    && forall|j: int| 0 <= j < i ==> (#[trigger] spans[j]).reqid is None
            &&& actor is None <==> forall|i: int| 0 <= i < spans.len() ==> (#[trigger] spans[i]).actor is None
            &&& actor is Some ==> exists|i: int|
                0 <= i < spans.len() && actor == crate::text::opt_view((#[trigger] spans[i]).actor)
                    && forall|j: int| 0 <= j < i ==> (#[trigger] spans[j]).actor is None
        }),
{
    let ids = spans.map_values(|c: ReqCtx| crate::text::opt_view(c.reqid));
    let actors = spans.map_values(|c: ReqCtx| crate::text::opt_view(c.actor));
    lemma_first_some(ids);
    lemma_first_some(actors);
    assert forall|i: int| 0 <= i < spans.len() implies (#[trigger] ids[i]) is None <==> spans[i].reqid is None by {}
    assert forall|i: int| 0 <= i < spans.len() implies (#[trigger] actors[i]) is None <==> spans[i].actor is None by {}
    if first_some(ids) is Some {
        let i = choose|i: int|
            0 <= i < ids.len() && #[trigger] ids[i] == first_some(ids) && forall|j: int|
                0 <= j < i ==> (#[trigger] ids[j]) is None;
        assert(first_some(ids) == crate::text::opt_view(spans[i].reqid));
        assert forall|j: int| 0 <= j < i implies (#[trigger] spans[j]).reqid is None by {
            assert(ids[j] is None);
        }
    }
    if first_some(actors) is Some {
        let i = choose|i: int|
            0 <= i < actors.len() && #[trigger] actors[i] == first_some(actors) && forall|j: int|
                0 <= j < i ==> (#[trigger] actors[j]) is None;
        assert(first_some(actors) == crate::text::opt_view(spans[i].actor));
        assert forall|j: int| 0 <= j < i implies (#[trigger] spans[j]).actor is None by {
            assert(actors[j] is None);
        }
    }
    if first_some(ids) is None {
        assert forall|i: int| 0 <= i < spans.len() implies (#[trigger] spans[i]).reqid is None by {
            assert(ids[i] is None);
        }
    }
    if first_some(actors) is None {
        assert forall|i: int| 0 <= i < spans.len() implies (#[trigger] spans[i]).actor is None by {
            assert(actors[i] is None);
        }
    }
    if forall|i: int| 0 <= i < spans.len() ==> (#[trigger] spans[i]).reqid is None {
        assert forall|i: int| 0 <= i < ids.len() implies (#[trigger] ids[i]) is None by {
            assert(spans[i].reqid is None);
        }
    }
    if forall|i: int| 0 <= i < spans.len() ==> (#[trigger] spans[i]).actor is None {
        assert forall|i: int| 0 <= i < actors.len() implies (#[trigger] actors[i]) is None by {
            assert(spans[i].actor is None);
        }
    }
}

pub fn request_context(spans: &Vec<ReqCtx>) -> (r: (Option<String>, Option<String>))
    ensures
        crate::text::opt_view(r.0) == first_some(
            spans@.map_values(|c: ReqCtx| crate::text::opt_view(c.reqid)),
        ),
        crate::text::opt_view(r.1) == first_some(
            spans@.map_values(|c: ReqCtx| crate::text::opt_view(c.actor)),
        ),
{
    let ghost ids = spans@.map_values(|c: ReqCtx| crate::text::opt_view(c.reqid));
    let ghost actors = spans@.map_values(|c: ReqCtx| crate::text::opt_view(c.actor));
    let mut reqid: Option<String> = None;
    let mut actor: Option<String> = None;
    let mut i: usize = 0;
    assert(ids.skip(0) =~= ids);
    assert(actors.skip(0) =~= actors);
    while i < spans.len()
        invariant
            i <= spans.len(),
            ids == spans@.map_values(|c: ReqCtx| crate::text::opt_view(c.reqid)),
            actors == spans@.map_values(|c: ReqCtx| crate::text::opt_view(c.actor)),
            reqid is None ==> first_some(ids) == first_some(ids.skip(i as int)),
            reqid is Some ==> crate::text::opt_view(reqid) == first_some(ids),
            actor is None ==> first_some(actors) == first_some(actors.skip(i as int)),
            actor is Some ==> crate::text::opt_view(actor) == first_some(actors),
        decreases spans.len() - i,
    {
        assert(ids.skip(i as int).drop_first() =~= ids.skip(i + 1));
        assert(actors.skip(i as int).drop_first() =~= actors.skip(i + 1));
        assert(ids.skip(i as int)[0] == crate::text::opt_view(spans@[i as int].reqid));
        assert(actors.skip(i as int)[0] == crate::text::opt_view(spans@[i as int].actor));
        if reqid.is_none() {
            reqid = spans[i].reqid.clone();
        }
        if actor.is_none() {
            actor = spans[i].actor.clone();
        }
        i = i + 1;
    }
    assert(ids.skip(i as int) =~= Seq::<Option<Seq<char>>>::empty());
    assert(actors.skip(i as int) =~= Seq::<Option<Seq<char>>>::empty());
    (reqid, actor)
}

/// The span fields a line carries along: each name once, the event's own
/// names excluded, the innermost span's value winning.
pub open spec fn kept_fields(
    own: Seq<Seq<char>>,
    candidates: Seq<(Seq<char>, Seq<char>)>,
) -> Seq<(Seq<char>, Seq<char>)>
    decreases candidates.len(),
{
    if candidates.len() == 0 {
        seq![]
    } else {
        let prev = kept_fields(own, candidates.drop_last());
        let c = candidates.last();
        if own.contains(c.0) || names_of(candidates.drop_last()).contains(c.0) {
            prev
        } else {
            prev.push(c)
        }
    }
}

pub fn contains_name(names: &Vec<String>, name: &str) -> (r: bool)
    ensures
        r == views(names@).contains(name@),
{
    let mut i: usize = 0;
    while i < names.len()
        invariant
            i <= names.len(),
            forall|j: int| 0 <= j < i ==> names@[j]@ != name@,
        decreases names.len() - i,
    {
        if same(names[i].as_str(), name) {
            assert(views(names@)[i as int] == name@);
            return true;
        }
        i = i + 1;
    }
    assert forall|j: int| 0 <= j < views(names@).len() implies views(names@)[j] != name@ by {
        assert(views(names@)[j] == names@[j]@);
    }
    false
}

/// Whether a span carries a request id.
pub open spec fn carries_reqid(c: Option<ReqCtx>) -> bool {
    c matches Some(x) && x.reqid is Some
}

/// The fields a scope's spans offer an event, in scope order: every span's
/// own fields, but none of a span that carries a request id.
pub open spec fn offered_fields(spans: Seq<(Option<ReqCtx>, Vec<Pair>)>) -> Seq<(Seq<char>, Seq<char>)>
    decreases spans.len(),
{
    if spans.len() == 0 {
        seq![]
    } else {
        offered_fields(spans.drop_last()) + if carries_reqid(spans.last().0) {
            seq![]
        } else {
            pairs_v(spans.last().1@)
        }
    }
}

/// The fields a scope's spans offer an event (see `offered_fields`).
pub fn span_fields(spans: &Vec<(Option<ReqCtx>, Vec<Pair>)>) -> (r: Vec<Pair>)
    ensures
        pairs_v(r@) == offered_fields(spans@),
{
    let mut out: Vec<Pair> = Vec::new();
    let mut i: usize = 0;
    assert(spans@.take(0) =~= Seq::<(Option<ReqCtx>, Vec<Pair>)>::empty());
    assert(pairs_v(out@) =~= Seq::<(Seq<char>, Seq<char>)>::empty());
    while i < spans.len()
        invariant
            i <= spans.len(),
            pairs_v(out@) == offered_fields(spans@.take(i as int)),
        decreases spans.len() - i,
    {
        assert(spans@.take(i + 1).drop_last() =~= spans@.take(i as int));
        assert(spans@.take(i + 1).last() == spans@[i as int]);
        let carries = match &spans[i].0 {
            Some(c) => c.reqid.is_some(),
            None => false,
        };
        if !carries {
            let own = &spans[i].1;
            let ghost base = pairs_v(out@);
            let mut j: usize = 0;
            assert(base + pairs_v(own@.take(0)) =~= base);
            while j < own.len()
                invariant
                    j <= own.len(),
                    pairs_v(out@) == base + pairs_v(own@.take(j as int)),
                decreases own.len() - j,
            {
                let p = (own[j].0.clone(), own[j].1.clone());
                let ghost before = out@;
                out.push(p);
                assert(own@.take(j + 1) =~= own@.take(j as int).push(own@[j as int]));
                assert(pairs_v(own@.take(j + 1)) =~= pairs_v(own@.take(j as int)).push((p.0@, p.1@)));
                assert(pairs_v(out@) =~= pairs_v(before).push((p.0@, p.1@)));
                assert(pairs_v(out@) =~= base + pairs_v(own@.take(j + 1)));
                j = j + 1;
            }
            assert(own@.take(j as int) =~= own@);
        } else {
            assert(pairs_v(out@) =~= offered_fields(spans@.take(i as int)) + Seq::<(Seq<char>, Seq<char>)>::empty());
        }
        i = i + 1;
    }
    assert(spans@.take(i as int) =~= spans@);
    out
}

/// Picks the span fields a line carries, from `candidates` (the fields of
/// the spans without a request id, innermost span first).
pub fn retained_fields(own: &Vec<Pair>, candidates: &Vec<Pair>) -> (r: Vec<Pair>)
    ensures
        pairs_v(r@) == kept_fields(names_of(pairs_v(own@)), pairs_v(candidates@)),
{
    let ghost on = names_of(pairs_v(own@));
    let ghost cv = pairs_v(candidates@);
    let mut seen: Vec<String> = Vec::new();
    let mut j: usize = 0;
    while j < own.len()
        invariant
            j <= own.len(),
            on == names_of(pairs_v(own@)),
            views(seen@) == on.take(j as int),
        decreases own.len() - j,
    {
        let ghost before = seen@;
        let c = own[j].0.clone();
        seen.push(c);
        assert(on[j as int] == own@[j as int].0@);
        assert(views(seen@) =~= views(before).push(c@));
        assert(on.take(j + 1) =~= on.take(j as int).push(on[j as int]));
        assert(views(seen@) =~= on.take(j + 1));
        j = j + 1;
    }
    assert(on.take(j as int) =~= on);
    let mut kept: Vec<Pair> = Vec::new();
    let mut i: usize = 0;
    assert(cv.take(0) =~= Seq::<(Seq<char>, Seq<char>)>::empty());
    while i < candidates.len()
        invariant
            i <= candidates.len(),
            cv == pairs_v(candidates@),
            forall|n: Seq<char>|
                #![trigger views(seen@).contains(n)]
                views(seen@).contains(n) <==> (on.contains(n) || names_of(cv.take(i as int)).contains(n)),
            pairs_v(kept@) == kept_fields(on, cv.take(i as int)),
        decreases candidates.len() - i,
    {
        let ghost t = cv.take(i + 1);
        assert(t.drop_last() =~= cv.take(i as int));
        assert(t.last() == (candidates@[i as int].0@, candidates@[i as int].1@));
        let name = &candidates[i].0;
        let known = contains_name(&seen, name.as_str());
        assert(names_of(t) =~= names_of(cv.take(i as int)).push(name@));
        let ghost sv = views(seen@);
        if !known {
            let ghost before = kept@;
            kept.push((name.clone(), candidates[i].1.clone()));
            assert(pairs_v(kept@) =~= pairs_v(before).push(t.last()));
        }
        let ghost sb = seen@;
        seen.push(name.clone());
        assert(views(seen@) =~= views(sb).push(name@));
        assert forall|n: Seq<char>|
            #![trigger views(seen@).contains(n)]
            views(seen@).contains(n) <==> (on.contains(n) || names_of(t).contains(n)) by {
            lemma_contains_push(sv, name@, n);
            lemma_contains_push(names_of(cv.take(i as int)), name@, n);
        }
        i = i + 1;
    }
    assert(cv.take(i as int) =~= cv);
    kept
}

/// ` name=value` for each pair, in order.
pub open spec fn field_text(fields: Seq<(Seq<char>, Seq<char>)>) -> Seq<char>
    decreases fields.len(),
{
    if fields.len() == 0 {
        seq![]
    } else {
        field_text(fields.drop_last()) + " "@ + fields.last().0 + "="@ + fields.last().1
    }
}

pub open spec fn or_dash(v: Option<Seq<char>>) -> Seq<char> {
    match v {
        Some(s) => s,
        None => "-"@,
    }
}

/// A human line: time, level, designator, place, request id, actor,
/// message, the event's fields, then the carried span fields outermost
/// first.
pub open spec fn human_line_spec(
    ts: Seq<char>,
    level: Seq<char>,
    designator: Option<Seq<char>>,
    file: Option<Seq<char>>,
    line: Option<u32>,
    reqid: Option<Seq<char>>,
    actor: Option<Seq<char>>,
    message: Option<Seq<char>>,
    fields: Seq<(Seq<char>, Seq<char>)>,
    retained: Seq<(Seq<char>, Seq<char>)>,
) -> Seq<char> {
    ts + " "@ + level + " "@ + or_dash(designator) + " "@ + (match file {
        Some(f) => f,
        None => "?"@,
    }) + ":"@ + decimal(
        match line {
            Some(n) => n as nat,
            None => 0,
        },
    ) + " "@ + or_dash(reqid) + " ["@ + or_dash(actor) + "] "@ + (match message {
        Some(m) => m,
        None => seq![],
    }) + field_text(fields) + field_text(retained.reverse()) + "\n"@
}

fn push_fields(out: &mut String, fields: &Vec<Pair>)
    ensures
        final(out)@ == old(out)@ + field_text(pairs_v(fields@)),
{
    let ghost start = out@;
    let ghost fv = pairs_v(fields@);
    let mut i: usize = 0;
    assert(fv.take(0) =~= Seq::<(Seq<char>, Seq<char>)>::empty());
    while i < fields.len()
        invariant
            i <= fields.len(),
            fv == pairs_v(fields@),
            out@ == start + field_text(fv.take(i as int)),
        decreases fields.len() - i,
    {
        assert(fv.take(i + 1).drop_last() =~= fv.take(i as int));
        assert(fv.take(i + 1).last() == (fields@[i as int].0@, fields@[i as int].1@));
        append(out, " ");
        append(out, fields[i].0.as_str());
        append(out, "=");
        append(out, fields[i].1.as_str());
        assert(out@ =~= start + field_text(fv.take(i + 1)));
        i = i + 1;
    }
    assert(fv.take(i as int) =~= fv);
}

pub fn human_line(
    ts: &str,
    level: &str,
    designator: Option<&str>,
    file: Option<&str>,
    line: Option<u32>,
    reqid: Option<&str>,
    actor: Option<&str>,
    message: Option<&str>,
    fields: &Vec<Pair>,
    retained: &Vec<Pair>,
) -> (r: String)
    ensures
        r@ == human_line_spec(
            ts@,
            level@,
            crate::config::values::opt_str(designator),
            crate::config::values::opt_str(file),
            line,
            crate::config::values::opt_str(reqid),
            crate::config::values::opt_str(actor),
            crate::config::values::opt_str(message),
            pairs_v(fields@),
            pairs_v(retained@),
        ),
{
    let mut out = owned(ts);
    append(&mut out, " ");
    append(&mut out, level);
    append(&mut out, " ");
    append(&mut out, match designator {
        Some(d) => d,
        None => "-",
    });
    append(&mut out, " ");
    append(&mut out, match file {
        Some(f) => f,
        None => "?",
    });
    append(&mut out, ":");
    let n: u64 = match line {
        Some(n) => n as u64,
        None => 0,
    };
    let digits = decimal_string(n);
    append(&mut out, digits.as_str());
    append(&mut out, " ");
    append(&mut out, match reqid {
        Some(d) => d,
        None => "-",
    });
    append(&mut out, " [");
    append(&mut out, match actor {
        Some(d) => d,
        None => "-",
    });
    append(&mut out, "] ");
    match message {
        Some(m) => append(&mut out, m),
        None => {},
    }
    let ghost head = out@;
    push_fields(&mut out, fields);
    let mut reversed: Vec<Pair> = Vec::new();
    let mut k: usize = retained.len();
    let ghost rv = pairs_v(retained@);
    while k > 0
        invariant
            k <= retained.len(),
            rv == pairs_v(retained@),
            pairs_v(reversed@) == rv.skip(k as int).reverse(),
        decreases k,
    {
        let ghost before = reversed@;
        reversed.push((retained[k - 1].0.clone(), retained[k - 1].1.clone()));
        assert(rv.skip(k - 1) =~= seq![rv[k - 1]] + rv.skip(k as int));
        assert(pairs_v(reversed@) =~= pairs_v(before).push(rv[k - 1]));
        assert(rv.skip(k - 1).reverse() =~= rv.skip(k as int).reverse().push(rv[k - 1]));
        k = k - 1;
    }
    assert(rv.skip(0) =~= rv);
    push_fields(&mut out, &reversed);
    append(&mut out, "\n");
    proof {
        let m: Seq<char> = match message {
            Some(m) => m@,
            None => seq![],
        };
        if message is None {
            assert(head =~= head + Seq::<char>::empty());
        }
    }
    out
}

} // verus!
