//! Which designators reach the output, and at what level.

use vstd::prelude::*;

use crate::config::refusal::{refusal_v, Refusal, RefusalV};
use crate::logging::designator::{CUSTOM_PREFIX, STAND_NAMES};
use crate::logging::level::{admits_level, parse_level_filter, parse_level_spec, passes, Level, LevelFilter};
use crate::text::{
    append, owned, pieces, same, split_at_char, split_all, split_once, starts_with, trim, trimmed,
    views,
};

verus! {

pub const DESIGNATORS_VARIABLE: &'static str = "LOG_DESIGNATORS";

pub const LEVEL_ACCEPTED: &'static str = "a level, one of [\"trace\", \"debug\", \"info\", \"warn\", \"error\", \"off\"]";

pub const DESIGNATOR_ACCEPTED: &'static str = "a designator, one of [\"auth\", \"business\", \"upstream\", \"storage\", \"http\", \"startup\"], or a project designator carrying the \"c-\" prefix";

/// The spec-side picture of `Designators`: per-designator rules (a later
/// rule for a name overriding an earlier one), the level for the rest, and
/// whether the variable was unset.
pub struct DesignatorsV {
    pub rules: Seq<(Seq<char>, LevelFilter)>,
    pub default: Option<LevelFilter>,
    pub unset: bool,
}

#[derive(Debug, Clone, PartialEq, Eq)]
pub struct Designators {
    rules: Vec<(String, LevelFilter)>,
    default: Option<LevelFilter>,
    unset: bool,
}

impl View for Designators {
    type V = DesignatorsV;

    closed spec fn view(&self) -> DesignatorsV {
        DesignatorsV {
            rules: self.rules@.map_values(|r: (String, LevelFilter)| (r.0@, r.1)),
            default: self.default,
            unset: self.unset,
        }
    }
}

/// The level a name's rule sets: its last rule.
pub open spec fn rule_for(rules: Seq<(Seq<char>, LevelFilter)>, name: Seq<char>) -> Option<LevelFilter>
    decreases rules.len(),
{
    if rules.len() == 0 {
        None
    } else if rules.last().0 == name {
        Some(rules.last().1)
    } else {
        rule_for(rules.drop_last(), name)
    }
}

/// Whether an event passes: everything passes while unset and every event
/// without a designator passes; a designator takes its own rule, else the
/// bare level, and with neither it is held back.
pub open spec fn admits_spec(d: DesignatorsV, designator: Option<Seq<char>>, level: Level) -> bool {
    if d.unset {
        true
    } else {
        match designator {
            None => true,
            Some(name) => match rule_for(d.rules, name) {
                Some(a) => passes(level, a),
                None => match d.default {
                    Some(a) => passes(level, a),
                    None => false,
                },
            },
        }
    }
}

pub open spec fn permissive_v() -> DesignatorsV {
    DesignatorsV { rules: seq![], default: None, unset: true }
}

/// A stand name or one carrying the custom prefix.
pub open spec fn designator_ok(name: Seq<char>) -> bool {
    ||| name == "auth"@
    ||| name == "business"@
    ||| name == "upstream"@
    ||| name == "storage"@
    ||| name == "http"@
    ||| name == "startup"@
    ||| CUSTOM_PREFIX@.is_prefix_of(name)
}

pub open spec fn level_refusal(text: Seq<char>) -> RefusalV {
    refusal_v(DESIGNATORS_VARIABLE@, text, LEVEL_ACCEPTED@)
}

pub open spec fn designator_refusal(name: Seq<char>) -> RefusalV {
    refusal_v(DESIGNATORS_VARIABLE@, name, DESIGNATOR_ACCEPTED@)
}

/// The comma-separated items, trimmed, empty ones dropped.
pub open spec fn items_of(parts: Seq<Seq<char>>) -> Seq<Seq<char>>
    decreases parts.len(),
{
    if parts.len() == 0 {
        seq![]
    } else {
        let rest = items_of(parts.drop_last());
        if trim(parts.last()).len() > 0 {
            rest.push(trim(parts.last()))
        } else {
            rest
        }
    }
}

/// Reading the items in order: `name=level` adds a rule, a bare level sets
/// the default; the first bad name or level refuses.
pub open spec fn read_items(items: Seq<Seq<char>>) -> Result<
    (Seq<(Seq<char>, LevelFilter)>, Option<LevelFilter>),
    RefusalV,
>
    decreases items.len(),
{
    if items.len() == 0 {
        Ok((seq![], None))
    } else {
        match read_items(items.drop_last()) {
            Err(e) => Err(e),
            Ok((rules, default)) => {
                let item = items.last();
                match split_once(item, '=') {
                    None => match parse_level_spec(item) {
                        None => Err(level_refusal(item)),
                        Some(l) => Ok((rules, Some(l))),
                    },
                    Some((name, level)) => {
                        let n = trim(name);
                        if !designator_ok(n) {
                            Err(designator_refusal(n))
                        } else {
                            match parse_level_spec(trim(level)) {
                                None => Err(level_refusal(trim(level))),
                                Some(l) => Ok((rules.push((n, l)), default)),
                            }
                        }
                    },
                }
            },
        }
    }
}

/// What `Designators::parse` answers.
pub open spec fn designators_parse(value: Option<Seq<char>>) -> Result<DesignatorsV, RefusalV> {
    match value {
        None => Ok(permissive_v()),
        Some(v) => if trim(v).len() == 0 {
            Ok(permissive_v())
        } else {
            match read_items(items_of(pieces(trim(v), ','))) {
                Err(e) => Err(e),
                Ok((rules, default)) => Ok(DesignatorsV { rules, default, unset: false }),
            }
        },
    }
}

fn parse_level(text: &str) -> (r: Result<LevelFilter, Refusal>)
    ensures
        match r {
            Ok(l) => parse_level_spec(text@) == Some(l),
            Err(e) => parse_level_spec(text@) is None && e@ == level_refusal(text@),
        },
{
    match parse_level_filter(text) {
        Some(l) => Ok(l),
        None => Err(Refusal::new(DESIGNATORS_VARIABLE, text, LEVEL_ACCEPTED)),
    }
}

fn check_designator(name: &str) -> (r: Result<(), Refusal>)
    ensures
        match r {
            Ok(()) => designator_ok(name@),
            Err(e) => !designator_ok(name@) && e@ == designator_refusal(name@),
        },
{
    let mut i: usize = 0;
    while i < 6
        invariant
            i <= 6,
            forall|j: int| 0 <= j < i ==> name@ != (#[trigger] STAND_NAMES[j])@,
        decreases 6 - i,
    {
        if same(name, STAND_NAMES[i]) {
            return Ok(());
        }
        i = i + 1;
    }
    assert(name@ != STAND_NAMES[0]@);
    assert(name@ != STAND_NAMES[1]@);
    assert(name@ != STAND_NAMES[2]@);
    assert(name@ != STAND_NAMES[3]@);
    assert(name@ != STAND_NAMES[4]@);
    assert(name@ != STAND_NAMES[5]@);
    if starts_with(name, CUSTOM_PREFIX) {
        return Ok(());
    }
    Err(Refusal::new(DESIGNATORS_VARIABLE, name, DESIGNATOR_ACCEPTED))
}

/// Once a prefix of the items refuses, all of them refuse the same way.
proof fn lemma_read_items_err_extends(items: Seq<Seq<char>>, k: int)
    requires
        0 <= k <= items.len(),
        read_items(items.take(k)) is Err,
    ensures
        read_items(items) == read_items(items.take(k)),
    decreases items.len() - k,
{
    if k < items.len() {
        assert(items.take(k + 1).drop_last() =~= items.take(k));
        lemma_read_items_err_extends(items, k + 1);
    } else {
        assert(items.take(k) =~= items);
    }
}

impl Designators {
    /// Everything passes.
    pub fn permissive() -> (r: Self)
        ensures
            r@ == permissive_v(),
    {
        let r = Designators { rules: Vec::new(), default: None, unset: true };
        assert(r@.rules =~= Seq::<(Seq<char>, LevelFilter)>::empty());
        r
    }

    /// Reads `LOG_DESIGNATORS`: unset or blank passes everything; otherwise
    /// comma-separated `designator=level` rules and at most one bare level
    /// for the designators not named.
    pub fn parse(value: Option<&str>) -> (r: Result<Self, Refusal>)
        ensures
            match r {
                Ok(d) => designators_parse(crate::config::values::opt_str(value)) == Ok::<
                    DesignatorsV,
                    RefusalV,
                >(d@) && forall|designator: Option<Seq<char>>, level: Level|
                    #[trigger] admits_spec(d@, designator, level) == admits_text(
                        crate::config::values::opt_str(value),
                        designator,
                        level,
                    ),
                Err(e) => designators_parse(crate::config::values::opt_str(value)) == Err::<
                    DesignatorsV,
                    RefusalV,
                >(e@),
            },
    {
        let text = match value {
            None => {
                return Ok(Self::permissive());
            },
            Some(v) => trimmed(v),
        };
        if text.as_str().unicode_len() == 0 {
            return Ok(Self::permissive());
        }
        let parts = split_all(text.as_str(), ',');
        let ghost items = items_of(views(parts@));
        let mut rules: Vec<(String, LevelFilter)> = Vec::new();
        let mut default: Option<LevelFilter> = None;
        let ghost whole = designators_parse(crate::config::values::opt_str(value));
        assert(whole == match read_items(items_of(views(parts@))) {
            Err(e) => Err(e),
            Ok((rules, default)) => Ok(DesignatorsV { rules, default, unset: false }),
        });
        let mut i: usize = 0;
        assert(views(parts@).take(0) =~= Seq::<Seq<char>>::empty());
        assert(rules@.map_values(|r: (String, LevelFilter)| (r.0@, r.1)) =~= Seq::<(Seq<char>, LevelFilter)>::empty());
        while i < parts.len()
            invariant
                i <= parts.len(),
                whole == designators_parse(crate::config::values::opt_str(value)),
                whole == match read_items(items_of(views(parts@))) {
                    Err(e) => Err(e),
                    Ok((rules, default)) => Ok(DesignatorsV { rules, default, unset: false }),
                },
                read_items(items_of(views(parts@).take(i as int))) == Ok::<
                    (Seq<(Seq<char>, LevelFilter)>, Option<LevelFilter>),
                    RefusalV,
                >((rules@.map_values(|r: (String, LevelFilter)| (r.0@, r.1)), default)),
            decreases parts.len() - i,
        {
            let ghost pre = views(parts@).take(i as int);
            let ghost t = views(parts@).take(i + 1);
            assert(t.drop_last() =~= pre);
            assert(t.last() == parts@[i as int]@);
            let item = trimmed(parts[i].as_str());
            if item.as_str().unicode_len() > 0 {
                let ghost its = items_of(t);
                assert(its.drop_last() == items_of(pre));
                assert(its.last() == item@);
                match split_at_char(item.as_str(), '=') {
                    None => {
                        match parse_level(item.as_str()) {
                            Ok(l) => {
                                default = Some(l);
                            },
                            Err(e) => {
                                proof {
                                    lemma_items_prefix(views(parts@), i + 1);
                                    lemma_read_items_err_extends(items_of(views(parts@)), items_of(t).len() as int);
                                }
                                return Err(e);
                            },
                        }
                    },
                    Some((name, level)) => {
                        let n = trimmed(name.as_str());
                        match check_designator(n.as_str()) {
                            Ok(()) => {},
                            Err(e) => {
                                proof {
                                    lemma_items_prefix(views(parts@), i + 1);
                                    lemma_read_items_err_extends(items_of(views(parts@)), items_of(t).len() as int);
                                }
                                return Err(e);
                            },
                        }
                        let lt = trimmed(level.as_str());
                        match parse_level(lt.as_str()) {
                            Ok(l) => {
                                let ghost before = rules@;
                                rules.push((n, l));
                                assert(rules@.map_values(|r: (String, LevelFilter)| (r.0@, r.1)) =~= before.map_values(|r: (String, LevelFilter)| (r.0@, r.1)).push((n@, l)));
                            },
                            Err(e) => {
                                proof {
                                    lemma_items_prefix(views(parts@), i + 1);
                                    lemma_read_items_err_extends(items_of(views(parts@)), items_of(t).len() as int);
                                }
                                return Err(e);
                            },
                        }
                    },
                }
            } else {
                assert(items_of(t) == items_of(pre));
            }
            i = i + 1;
        }
        assert(views(parts@).take(i as int) =~= views(parts@));
        let r = Designators { rules, default, unset: false };
        proof {
            let v = crate::config::values::opt_str(value);
            assert(designators_parse(v) == Ok::<DesignatorsV, RefusalV>(r@));
            assert forall|designator: Option<Seq<char>>, level: Level|
                #[trigger] admits_spec(r@, designator, level) == admits_text(v, designator, level) by {
                lemma_admits_text(v, designator, level);
            }
        }
        Ok(r)
    }

    /// Whether an event with this designator and level passes.
    pub fn admits(&self, designator: Option<&str>, level: Level) -> (r: bool)
        ensures
            r == admits_spec(self@, crate::config::values::opt_str(designator), level),
    {
        if self.unset {
            return true;
        }
        let name = match designator {
            None => {
                return true;
            },
            Some(n) => n,
        };
        let ghost rv = self@.rules;
        let mut i: usize = self.rules.len();
        assert(rv.take(i as int) =~= rv);
        while i > 0
            invariant
                i <= self.rules.len(),
                rv == self@.rules,
                rv.len() == self.rules.len(),
                !self@.unset,
                crate::config::values::opt_str(designator) == Some(name@),
                rule_for(rv, name@) == rule_for(rv.take(i as int), name@),
            decreases i,
        {
            assert(rv.take(i as int).last() == rv[i - 1]);
            assert(rv[i - 1] == (self.rules@[i - 1].0@, self.rules@[i - 1].1));
            if same(self.rules[i - 1].0.as_str(), name) {
                return admits_level(level, self.rules[i - 1].1);
            }
            assert(rv.take(i as int).drop_last() =~= rv.take(i - 1));
            i = i - 1;
        }
        match self.default {
            Some(a) => admits_level(level, a),
            None => false,
        }
    }
}

/// The level the last `name=level` item for `name` gives.
pub open spec fn named_level(items: Seq<Seq<char>>, name: Seq<char>) -> Option<LevelFilter>
    decreases items.len(),
{
    if items.len() == 0 {
        None
    } else {
        match split_once(items.last(), '=') {
            Some((n, level)) => if trim(n) == name {
                parse_level_spec(trim(level))
            } else {
                named_level(items.drop_last(), name)
            },
            None => named_level(items.drop_last(), name),
        }
    }
}

/// The level the last bare item gives.
pub open spec fn bare_level(items: Seq<Seq<char>>) -> Option<LevelFilter>
    decreases items.len(),
{
    if items.len() == 0 {
        None
    } else {
        match split_once(items.last(), '=') {
            Some(_) => bare_level(items.drop_last()),
            None => parse_level_spec(items.last()),
        }
    }
}

proof fn lemma_read_items_levels(items: Seq<Seq<char>>, name: Seq<char>)
    requires
        read_items(items) is Ok,
    ensures
        rule_for(read_items(items)->Ok_0.0, name) == named_level(items, name),
        read_items(items)->Ok_0.1 == bare_level(items),
    decreases items.len(),
{
    if items.len() > 0 {
        lemma_read_items_levels(items.drop_last(), name);
        let (rules, default) = read_items(items.drop_last())->Ok_0;
        let item = items.last();
        match split_once(item, '=') {
            Some((n, level)) => {
                let x = (trim(n), parse_level_spec(trim(level))->0);
                assert(rules.push(x).drop_last() =~= rules);
            },
            None => {},
        }
    }
}

/// What the filter admits, read off the variable's own text: everything
/// while it is unset or blank; otherwise every event without a designator,
/// and a designator at the level its last `name=level` item gives, else the
/// last bare level, and nothing where neither is given.
pub open spec fn admits_text(value: Option<Seq<char>>, designator: Option<Seq<char>>, level: Level) -> bool {
    match value {
        None => true,
        Some(v) => if trim(v).len() == 0 {
            true
        } else {
            let items = items_of(pieces(trim(v), ','));
            match designator {
                None => true,
                Some(n) => match named_level(items, n) {
                    Some(a) => passes(level, a),
                    None => match bare_level(items) {
                        Some(a) => passes(level, a),
                        None => false,
                    },
                },
            }
        },
    }
}

/// The filter a parse builds admits exactly what `admits_text` reads off
/// the variable's text.
pub proof fn lemma_admits_text(value: Option<Seq<char>>, designator: Option<Seq<char>>, level: Level)
    requires
        designators_parse(value) is Ok,
    ensures
        admits_spec(designators_parse(value)->Ok_0, designator, level) == admits_text(value, designator, level),
{
    if let Some(v) = value {
        if trim(v).len() > 0 {
            if let Some(n) = designator {
                lemma_read_items_levels(items_of(pieces(trim(v), ',')), n);
            }
        }
    }
}

/// The items of a longer prefix of parts extend those of a shorter one.
proof fn lemma_items_prefix(parts: Seq<Seq<char>>, k: int)
    requires
        0 <= k <= parts.len(),
    ensures
        items_of(parts.take(k)).len() <= items_of(parts).len(),
        items_of(parts).take(items_of(parts.take(k)).len() as int) == items_of(parts.take(k)),
    decreases parts.len() - k,
{
    if k < parts.len() {
        lemma_items_prefix(parts, k + 1);
        let t = parts.take(k + 1);
        assert(t.drop_last() =~= parts.take(k));
        let a = items_of(parts.take(k));
        let b = items_of(t);
        let c = items_of(parts);
        assert(c.take(b.len() as int) == b);
        if b.len() > a.len() {
            assert(b.drop_last() == a);
            assert(c.take(a.len() as int) =~= b.take(a.len() as int));
            assert(b.take(a.len() as int) =~= a);
        } else {
            assert(b == a);
        }
    } else {
        assert(parts.take(k) =~= parts);
        assert(items_of(parts).take(items_of(parts).len() as int) =~= items_of(parts));
    }
}

} // verus!
