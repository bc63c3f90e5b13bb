//! Server-side state the browser holds only an opaque id for: established
//! sessions, and logins still in flight, each forgotten once older than the
//! store's maximum age. Times are nanoseconds since the Unix epoch.

use vstd::prelude::*;

use crate::text::{append, debug_quoted, debug_text, decimal, decimal_string, owned, same};

verus! {

#[derive(Debug, Clone)]
pub struct Session {
    pub access_token: String,
    pub refresh_token: Option<String>,
    pub created: u64,
}

#[derive(Clone)]
pub struct FlowState {
    pub state: String,
    pub verifier: String,
    pub next: String,
    pub interactive_tried: bool,
    pub created: u64,
}

/// The diagnostic rendering of a flow: the two secrets redacted, the rest
/// shown.
pub open spec fn flow_debug_text(f: FlowState) -> Seq<char> {
    "FlowState { state: \"<redacted>\", verifier: \"<redacted>\", next: "@ + debug_text(f.next@)
        + ", interactive_tried: "@ + (if f.interactive_tried {
        "true"@
    } else {
        "false"@
    }) + ", created: "@ + decimal(f.created as nat) + " }"@
}

impl FlowState {
    /// What `Debug` shows of a flow: never its CSRF state or PKCE verifier.
    pub fn debug_text(&self) -> (r: String)
        ensures
            r@ == flow_debug_text(*self),
    {
        let mut out = owned("FlowState { state: \"<redacted>\", verifier: \"<redacted>\", next: ");
        let next = debug_quoted(self.next.as_str());
        append(&mut out, next.as_str());
        append(&mut out, ", interactive_tried: ");
        append(&mut out, if self.interactive_tried {
            "true"
        } else {
            "false"
        });
        append(&mut out, ", created: ");
        let created = decimal_string(self.created);
        append(&mut out, created.as_str());
        append(&mut out, " }");
        out
    }
}

/// Something stored with the time it was made.
pub trait Stamped: Sized {
    spec fn stamp(&self) -> u64;

    fn created(&self) -> (r: u64)
        ensures
            r == self.stamp(),
    ;

    fn duplicate(&self) -> (r: Self)
        ensures
            r == *self,
    ;
}

impl Stamped for Session {
    open spec fn stamp(&self) -> u64 {
        self.created
    }

    fn created(&self) -> (r: u64) {
        self.created
    }

    fn duplicate(&self) -> (r: Self) {
        Session {
            access_token: self.access_token.clone(),
            refresh_token: match &self.refresh_token {
                Some(t) => Some(t.clone()),
                None => None,
            },
            created: self.created,
        }
    }
}

impl Stamped for FlowState {
    open spec fn stamp(&self) -> u64 {
        self.created
    }

    fn created(&self) -> (r: u64) {
        self.created
    }

    fn duplicate(&self) -> (r: Self) {
        FlowState {
            state: self.state.clone(),
            verifier: self.verifier.clone(),
            next: self.next.clone(),
            interactive_tried: self.interactive_tried,
            created: self.created,
        }
    }
}

/// Whether an entry made at `created` is still live at `now`: younger than
/// `max_age`, or stamped in the future (a clock that stepped back).
pub open spec fn live(created: u64, now: u64, max_age: u64) -> bool {
    now < created || now - created < max_age
}

pub type Entries<T> = Seq<(Seq<char>, T)>;

/// The entry stored under `id`: the last one written.
pub open spec fn find_entry<T>(es: Entries<T>, id: Seq<char>) -> Option<T>
    decreases es.len(),
{
    if es.len() == 0 {
        None
    } else if es.last().0 == id {
        Some(es.last().1)
    } else {
        find_entry(es.drop_last(), id)
    }
}

/// The live entries at `now`, in order.
pub open spec fn sweep<T: Stamped>(es: Entries<T>, now: u64, max_age: u64) -> Entries<T>
    decreases es.len(),
{
    if es.len() == 0 {
        seq![]
    } else {
        let rest = sweep(es.drop_last(), now, max_age);
        if live(es.last().1.stamp(), now, max_age) {
            rest.push(es.last())
        } else {
            rest
        }
    }
}

/// The entries not stored under `id`, in order.
pub open spec fn without<T>(es: Entries<T>, id: Seq<char>) -> Entries<T>
    decreases es.len(),
{
    if es.len() == 0 {
        seq![]
    } else {
        let rest = without(es.drop_last(), id);
        if es.last().0 == id {
            rest
        } else {
            rest.push(es.last())
        }
    }
}

/// What a read at `now` finds under `id`: the entry, while it is live.
pub open spec fn read_at<T: Stamped>(es: Entries<T>, id: Seq<char>, now: u64, max_age: u64) -> Option<
    T,
> {
    match find_entry(es, id) {
        Some(v) => if live(v.stamp(), now, max_age) {
            Some(v)
        } else {
            None
        },
        None => None,
    }
}

/// A store of stamped entries that forgets them past `max_age`.
pub struct Expiring<T> {
    entries: Vec<(String, T)>,
    max_age: u64,
}

pub open spec fn entries_view<T>(v: Seq<(String, T)>) -> Entries<T> {
    v.map_values(|e: (String, T)| (e.0@, e.1))
}

impl<T: Stamped> Expiring<T> {
    pub closed spec fn entries(&self) -> Entries<T> {
        entries_view(self.entries@)
    }

    pub closed spec fn max_age(&self) -> u64 {
        self.max_age
    }

    pub fn new(max_age: u64) -> (r: Self)
        ensures
            r.entries() == Seq::<(Seq<char>, T)>::empty(),
            r.max_age() == max_age,
    {
        let r = Expiring { entries: Vec::new(), max_age };
        assert(r.entries() =~= Seq::<(Seq<char>, T)>::empty());
        r
    }

    pub fn get(&self, id: &str, now: u64) -> (r: Option<T>)
        ensures
            r == read_at(self.entries(), id@, now, self.max_age()),
    {
        let ghost es = self.entries();
        let mut i: usize = self.entries.len();
        assert(es.take(i as int) =~= es);
        while i > 0
            invariant
                i <= self.entries.len(),
                es == self.entries(),
                find_entry(es, id@) == find_entry(es.take(i as int), id@),
            decreases i,
        {
            assert(es.take(i as int).last() == (self.entries@[i - 1].0@, self.entries@[i - 1].1));
            if same(self.entries[i - 1].0.as_str(), id) {
                let v = &self.entries[i - 1].1;
                let created = v.created();
                if now < created || now - created < self.max_age {
                    return Some(v.duplicate());
                } else {
                    return None;
                }
            }
            assert(es.take(i as int).drop_last() =~= es.take(i - 1));
            i = i - 1;
        }
        None
    }

    /// Stores `value` under `id`, first forgetting every entry no longer
    /// live at `now`.
    pub fn put(&mut self, id: String, value: T, now: u64)
        ensures
            final(self).entries() == without(
                sweep(old(self).entries(), now, old(self).max_age()),
                id@,
            ).push((id@, value)),
            final(self).max_age() == old(self).max_age(),
    {
        let ghost es = self.entries();
        let mut kept: Vec<(String, T)> = Vec::new();
        let mut i: usize = 0;
        assert(es.take(0) =~= Seq::<(Seq<char>, T)>::empty());
        assert(entries_view(kept@) =~= without(sweep(es.take(0), now, self.max_age), id@));
        while i < self.entries.len()
            invariant
                i <= self.entries.len(),
                es == self.entries(),
                self.entries() == old(self).entries(),
                self.max_age == old(self).max_age(),
                entries_view(kept@) == without(sweep(es.take(i as int), now, self.max_age), id@),
            decreases self.entries.len() - i,
        {
            let ghost t = es.take(i + 1);
            assert(t.drop_last() =~= es.take(i as int));
            assert(t.last() == (self.entries@[i as int].0@, self.entries@[i as int].1));
            let created = self.entries[i].1.created();
            let keep = (now < created || now - created < self.max_age) && !same(
                self.entries[i].0.as_str(),
                id.as_str(),
            );
            proof {
                let sw = sweep(es.take(i as int), now, self.max_age);
                if live(created, now, self.max_age) {
                    assert(sweep(t, now, self.max_age) == sw.push(t.last()));
                    assert(sw.push(t.last()).drop_last() =~= sw);
                } else {
                    assert(sweep(t, now, self.max_age) == sw);
                }
            }
            if keep {
                let e = (self.entries[i].0.clone(), self.entries[i].1.duplicate());
                let ghost before = kept@;
                kept.push(e);
                assert(entries_view(kept@) =~= entries_view(before).push(t.last()));
            }
            i = i + 1;
        }
        assert(es.take(i as int) =~= es);
        let ghost before = kept@;
        let ghost idv = id@;
        kept.push((id, value));
        assert(entries_view(kept@) =~= entries_view(before).push((idv, value)));
        self.entries = kept;
    }

    /// Forgets the entry under `id`.
    pub fn remove(&mut self, id: &str)
        ensures
            final(self).entries() == without(old(self).entries(), id@),
            final(self).max_age() == old(self).max_age(),
    {
        let ghost es = self.entries();
        let mut kept: Vec<(String, T)> = Vec::new();
        let mut i: usize = 0;
        assert(es.take(0) =~= Seq::<(Seq<char>, T)>::empty());
        while i < self.entries.len()
            invariant
                i <= self.entries.len(),
                es == self.entries(),
                self.entries() == old(self).entries(),
                self.max_age == old(self).max_age(),
                entries_view(kept@) == without(es.take(i as int), id@),
            decreases self.entries.len() - i,
        {
            let ghost t = es.take(i + 1);
            assert(t.drop_last() =~= es.take(i as int));
            assert(t.last() == (self.entries@[i as int].0@, self.entries@[i as int].1));
            if !same(self.entries[i].0.as_str(), id) {
                let e = (self.entries[i].0.clone(), self.entries[i].1.duplicate());
                let ghost before = kept@;
                kept.push(e);
                assert(entries_view(kept@) =~= entries_view(before).push(t.last()));
            }
            i = i + 1;
        }
        assert(es.take(i as int) =~= es);
        self.entries = kept;
    }
}

proof fn lemma_without_find<T>(es: Entries<T>, id: Seq<char>)
    ensures
        find_entry(without(es, id), id) is None,
    decreases es.len(),
{
    if es.len() > 0 {
        lemma_without_find(es.drop_last(), id);
        let rest = without(es.drop_last(), id);
        if es.last().0 != id {
            assert(rest.push(es.last()).drop_last() =~= rest);
        }
    }
}

/// A read gives back what was last put, while it is live; a removed id
/// reads as nothing.
pub proof fn lemma_put_then_get<T: Stamped>(
    es: Entries<T>,
    id: Seq<char>,
    value: T,
    put_at: u64,
    now: u64,
    max_age: u64,
)
    ensures
        read_at(without(sweep(es, put_at, max_age), id).push((id, value)), id, now, max_age) == if live(
            value.stamp(),
            now,
            max_age,
        ) {
            Some(value)
        } else {
            None
        },
        read_at(without(es, id), id, now, max_age) is None,
{
    lemma_without_find(es, id);
}

/// What an in-memory store is asked by the web layer.
pub trait SessionStore {
    fn get(&self, id: &str, now: u64) -> Option<Session>;

    fn put(&mut self, id: String, session: Session, now: u64);

    fn remove(&mut self, id: &str);
}

pub trait FlowStore {
    fn get(&self, id: &str, now: u64) -> Option<FlowState>;

    fn put(&mut self, id: String, flow: FlowState, now: u64);

    fn remove(&mut self, id: &str);
}

/// Ten minutes, in nanoseconds: how long a login may stay in flight.
pub const FLOW_MAX_AGE: u64 = 600_000_000_000;

/// Twelve hours, in nanoseconds: how long a session lives.
pub const SESSION_MAX_AGE: u64 = 43_200_000_000_000;

pub struct MemoryFlowStore(pub Expiring<FlowState>);

impl MemoryFlowStore {
    pub fn with_max_age(max_age: u64) -> (r: Self)
        ensures
            r.0.entries() == Seq::<(Seq<char>, FlowState)>::empty(),
            r.0.max_age() == max_age,
    {
        MemoryFlowStore(Expiring::new(max_age))
    }

    pub fn default() -> (r: Self)
        ensures
            r.0.entries() == Seq::<(Seq<char>, FlowState)>::empty(),
            r.0.max_age() == FLOW_MAX_AGE,
    {
        Self::with_max_age(FLOW_MAX_AGE)
    }
}

impl FlowStore for MemoryFlowStore {
    fn get(&self, id: &str, now: u64) -> (r: Option<FlowState>)
        ensures
            r == read_at(self.0.entries(), id@, now, self.0.max_age()),
    {
        self.0.get(id, now)
    }

    fn put(&mut self, id: String, flow: FlowState, now: u64)
        ensures
            final(self).0.entries() == without(
                sweep(old(self).0.entries(), now, old(self).0.max_age()),
                id@,
            ).push((id@, flow)),
            final(self).0.max_age() == old(self).0.max_age(),
    {
        self.0.put(id, flow, now)
    }

    fn remove(&mut self, id: &str)
        ensures
            final(self).0.entries() == without(old(self).0.entries(), id@),
            final(self).0.max_age() == old(self).0.max_age(),
    {
        self.0.remove(id)
    }
}

pub struct MemoryStore(pub Expiring<Session>);

impl MemoryStore {
    pub fn with_max_age(max_age: u64) -> (r: Self)
        ensures
            r.0.entries() == Seq::<(Seq<char>, Session)>::empty(),
            r.0.max_age() == max_age,
    {
        MemoryStore(Expiring::new(max_age))
    }

    pub fn default() -> (r: Self)
        ensures
            r.0.entries() == Seq::<(Seq<char>, Session)>::empty(),
            r.0.max_age() == SESSION_MAX_AGE,
    {
        Self::with_max_age(SESSION_MAX_AGE)
    }
}

impl SessionStore for MemoryStore {
    fn get(&self, id: &str, now: u64) -> (r: Option<Session>)
        ensures
            r == read_at(self.0.entries(), id@, now, self.0.max_age()),
    {
        self.0.get(id, now)
    }

    fn put(&mut self, id: String, session: Session, now: u64)
        ensures
            final(self).0.entries() == without(
                sweep(old(self).0.entries(), now, old(self).0.max_age()),
                id@,
            ).push((id@, session)),
            final(self).0.max_age() == old(self).0.max_age(),
    {
        self.0.put(id, session, now)
    }

    fn remove(&mut self, id: &str)
        ensures
            final(self).0.entries() == without(old(self).0.entries(), id@),
            final(self).0.max_age() == old(self).0.max_age(),
    {
        self.0.remove(id)
    }
}

} // verus!
