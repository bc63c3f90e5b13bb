//! The access-control algebra: predicates over a `Principal` and the state,
//! composed with `And`/`Or`/`Not`, and the `Denial` a failed check carries.

use vstd::prelude::*;

use std::marker::PhantomData;

use crate::oidc::principal::{member, Principal};
use crate::text::{append, opt_view, owned, Text};

verus! {

#[derive(Debug, Clone, PartialEq, Eq)]
pub struct Denial {
    pub gate: String,
}

/// What a group check reports: the group and how membership is judged,
/// or `-` for a group nobody configured.
pub open spec fn group_gate(group: Option<Seq<char>>) -> Seq<char> {
    match group {
        Some(g) => g + " (effective membership)"@,
        None => "-"@,
    }
}

pub const EXCLUDED_GATE: &'static str = "must not satisfy the excluded rule";

impl Denial {
    pub fn new<T: Text>(gate: T) -> (r: Self)
        ensures
            r.gate@ == gate.text(),
    {
        Denial { gate: gate.into_string() }
    }

    pub fn group(group: Option<String>) -> (r: Self)
        ensures
            r.gate@ == group_gate(opt_view(group)),
    {
        match group {
            Some(g) => {
                let mut gate = g;
                append(&mut gate, " (effective membership)");
                Denial { gate }
            },
            None => Denial { gate: owned("-") },
        }
    }
}

/// The result of a predicate, with the denial reduced to its gate.
pub open spec fn outcome_of(r: Result<(), Denial>) -> Result<(), Seq<char>> {
    match r {
        Ok(()) => Ok(()),
        Err(d) => Err(d.gate@),
    }
}

/// A group rule on the group the application configured: members of a
/// configured group pass; an unconfigured group never does.
pub open spec fn group_outcome(principal: Principal, group: Option<Seq<char>>) -> Result<
    (),
    Seq<char>,
> {
    if group matches Some(g) && member(principal, g) {
        Ok(())
    } else {
        Err(group_gate(group))
    }
}

/// Either rule: passes when one does; a denial names both gates.
pub open spec fn or_outcome(a: Result<(), Seq<char>>, b: Result<(), Seq<char>>) -> Result<
    (),
    Seq<char>,
> {
    match (a, b) {
        (Err(x), Err(y)) => Err(x + " or "@ + y),
        _ => Ok(()),
    }
}

/// Both rules: a denial names the first that fails.
pub open spec fn and_outcome(a: Result<(), Seq<char>>, b: Result<(), Seq<char>>) -> Result<
    (),
    Seq<char>,
> {
    match a {
        Err(x) => Err(x),
        Ok(()) => b,
    }
}

/// The negation: passes exactly when the rule fails.
pub open spec fn not_outcome(a: Result<(), Seq<char>>) -> Result<(), Seq<char>> {
    match a {
        Ok(()) => Err(EXCLUDED_GATE@),
        Err(_) => Ok(()),
    }
}

/// A rule over the caller and the application state.
pub trait Predicate<S>: 'static {
    fn check(principal: &Principal, state: &S) -> Result<(), Denial>;
}

/// Where the application keeps a group's name.
pub trait Group<S>: 'static {
    fn group(state: &S) -> Option<String>;
}

/// The group rule, decided on the group that was looked up.
pub fn group_check(principal: &Principal, group: Option<String>) -> (r: Result<(), Denial>)
    ensures
        outcome_of(r) == group_outcome(*principal, opt_view(group)),
{
    match &group {
        Some(g) => {
            if principal.in_group(g.as_str()) {
                return Ok(());
            }
        },
        None => {},
    }
    Err(Denial::group(group))
}

/// `Or` on two decided checks.
pub fn either(a: Result<(), Denial>, b: Result<(), Denial>) -> (r: Result<(), Denial>)
    ensures
        outcome_of(r) == or_outcome(outcome_of(a), outcome_of(b)),
{
    match (a, b) {
        (Err(x), Err(y)) => {
            let mut gate = x.gate;
            append(&mut gate, " or ");
            append(&mut gate, y.gate.as_str());
            Err(Denial { gate })
        },
        _ => Ok(()),
    }
}

/// `And` on two decided checks.
pub fn both(a: Result<(), Denial>, b: Result<(), Denial>) -> (r: Result<(), Denial>)
    ensures
        outcome_of(r) == and_outcome(outcome_of(a), outcome_of(b)),
{
    match a {
        Err(x) => Err(x),
        Ok(()) => b,
    }
}

/// `Not` on a decided check.
pub fn negate(a: Result<(), Denial>) -> (r: Result<(), Denial>)
    ensures
        outcome_of(r) == not_outcome(outcome_of(a)),
{
    match a {
        Ok(()) => Err(Denial { gate: owned(EXCLUDED_GATE) }),
        Err(_) => Ok(()),
    }
}

/// Membership of the group `G` names; an unconfigured group never passes.
pub struct HasGroup<G>(pub PhantomData<G>);

impl<S, G: Group<S>> Predicate<S> for HasGroup<G> {
    /// The group rule on the group that `G` looks up in `state`.
    fn check(principal: &Principal, state: &S) -> (r: Result<(), Denial>)
        ensures
            exists|group: Option<String>|
                #[trigger] call_ensures(G::group, (state,), group) && outcome_of(r)
                    == group_outcome(*principal, opt_view(group)),
    {
        group_check(principal, G::group(state))
    }
}

/// Either rule; `B` is asked only when `A` denies.
pub struct Or<A, B>(pub PhantomData<(A, B)>);

impl<S, A: Predicate<S>, B: Predicate<S>> Predicate<S> for Or<A, B> {
    /// What `A` decided when it passes; else `A`'s denial joined with what
    /// `B` decided.
    fn check(principal: &Principal, state: &S) -> (r: Result<(), Denial>)
        ensures
            exists|a: Result<(), Denial>|
                #[trigger] call_ensures(A::check, (principal, state), a) && if a is Ok {
                    r == a
                } else {
                    exists|b: Result<(), Denial>|
                        #[trigger] call_ensures(B::check, (principal, state), b) && outcome_of(r)
                            == or_outcome(outcome_of(a), outcome_of(b))
                },
    {
        let a = A::check(principal, state);
        if a.is_ok() {
            return a;
        }
        either(a, B::check(principal, state))
    }
}

/// Both rules; `B` is asked only when `A` passes.
pub struct And<A, B>(pub PhantomData<(A, B)>);

impl<S, A: Predicate<S>, B: Predicate<S>> Predicate<S> for And<A, B> {
    /// `A`'s denial when it denies; else what `B` decided.
    fn check(principal: &Principal, state: &S) -> (r: Result<(), Denial>)
        ensures
            exists|a: Result<(), Denial>|
                #[trigger] call_ensures(A::check, (principal, state), a) && if a is Err {
                    r == a
                } else {
                    exists|b: Result<(), Denial>|
                        #[trigger] call_ensures(B::check, (principal, state), b) && outcome_of(r)
                            == and_outcome(outcome_of(a), outcome_of(b))
                },
    {
        let a = A::check(principal, state);
        if a.is_err() {
            return a;
        }
        both(a, B::check(principal, state))
    }
}

/// The rule's negation.
pub struct Not<A>(pub PhantomData<A>);

impl<S, A: Predicate<S>> Predicate<S> for Not<A> {
    /// The negation of what `A` decided.
    fn check(principal: &Principal, state: &S) -> (r: Result<(), Denial>)
        ensures
            exists|a: Result<(), Denial>|
                #[trigger] call_ensures(A::check, (principal, state), a) && outcome_of(r)
                    == not_outcome(outcome_of(a)),
    {
        negate(A::check(principal, state))
    }
}

/// A rule that decides the same way each time it is asked about this
/// caller and state.
pub open spec fn decides_once<S, A: Predicate<S>>(principal: &Principal, state: &S) -> bool {
    forall|x: Result<(), Denial>, y: Result<(), Denial>|
        #[trigger] call_ensures(A::check, (principal, state), x) && #[trigger] call_ensures(
            A::check,
            (principal, state),
            y,
        ) ==> x == y
}

/// `Or` passes exactly when one of its rules does, and its denial names
/// both gates, `A`'s first; for rules that decide the same way each time
/// they are asked.
pub proof fn lemma_or_check<S, A: Predicate<S>, B: Predicate<S>>(
    principal: &Principal,
    state: &S,
    r: Result<(), Denial>,
    a: Result<(), Denial>,
    b: Result<(), Denial>,
)
    requires
        call_ensures(<Or<A, B> as Predicate<S>>::check, (principal, state), r),
        call_ensures(A::check, (principal, state), a),
        call_ensures(B::check, (principal, state), b),
        decides_once::<S, A>(principal, state),
        decides_once::<S, B>(principal, state),
    ensures
        r is Ok <==> (a is Ok || b is Ok),
        r is Err ==> outcome_of(r) == or_outcome(outcome_of(a), outcome_of(b)),
{
}

/// `And` passes exactly when both of its rules do, and its denial is the
/// first failing rule's; for rules that decide the same way each time.
pub proof fn lemma_and_check<S, A: Predicate<S>, B: Predicate<S>>(
    principal: &Principal,
    state: &S,
    r: Result<(), Denial>,
    a: Result<(), Denial>,
    b: Result<(), Denial>,
)
    requires
        call_ensures(<And<A, B> as Predicate<S>>::check, (principal, state), r),
        call_ensures(A::check, (principal, state), a),
        call_ensures(B::check, (principal, state), b),
        decides_once::<S, A>(principal, state),
        decides_once::<S, B>(principal, state),
    ensures
        r is Ok <==> (a is Ok && b is Ok),
        outcome_of(r) == and_outcome(outcome_of(a), outcome_of(b)),
{
}

/// De Morgan over the algebra: `Not<Or<A, B>>` passes exactly when
/// `And<Not<A>, Not<B>>` does, whatever `A` and `B` decided.
pub proof fn lemma_not_or(a: Result<(), Seq<char>>, b: Result<(), Seq<char>>)
    ensures
        not_outcome(or_outcome(a, b)) is Ok <==> and_outcome(not_outcome(a), not_outcome(b)) is Ok,
{
}

/// Double negation: `Not<Not<A>>` passes exactly when `A` does.
pub proof fn lemma_not_not(a: Result<(), Seq<char>>)
    ensures
        not_outcome(not_outcome(a)) is Ok <==> a is Ok,
{
}

} // verus!
