//! The deployment-class check: after the merge, under prod every
//! prod-required value is set and no dev-only value is enabled.

use vstd::prelude::*;

use crate::config::deployment::{Deployment, DEPLOYMENT_VARIABLE};
use crate::config::refusal::{refusal_d, Refusal, RefusalV};
use crate::config::schema::{field_env, field_flag, field_toml, Class, EntryV, Field, Kind};
use crate::config::values::{bool_result, has_path, Values, MASK};
use crate::text::{append, owned, same};

verus! {

pub const PROD_REQUIRED_DETAIL: &'static str = "prod-required and unset under DEPLOYMENT_TYPE=prod";

pub const DEV_ONLY_DETAIL: &'static str = "dev-only and set under DEPLOYMENT_TYPE=prod";

/// A field's three spellings: env, flag, TOML key.
pub open spec fn spellings(f: Field, app: Seq<char>) -> Seq<char> {
    field_env(f, app) + ", "@ + field_flag(f) + ", "@ + field_toml(f)
}

/// The refusal of a class rule, before its detail.
pub open spec fn class_refusal(f: Field, app: Seq<char>, value: Seq<char>, detail: Seq<char>) -> RefusalV {
    refusal_d(
        field_env(f, app),
        if f.secret && value != "unset"@ {
            MASK@
        } else {
            value
        },
        match f.class {
            Class::ProdRequired => "a value under DEPLOYMENT_TYPE=prod ("@ + spellings(f, app) + ")"@,
            _ => "unset under DEPLOYMENT_TYPE=prod ("@ + spellings(f, app) + ")"@,
        },
        detail,
    )
}

/// What the class rule says of one field under prod: nothing, or its refusal.
pub open spec fn field_check(values: Values, f: Field) -> Option<RefusalV> {
    let app = values.view().app;
    let p = f.path@;
    match f.class {
        Class::Neutral => None,
        Class::ProdRequired => if values.entry_at(p) is None {
            Some(class_refusal(f, app, "unset"@, PROD_REQUIRED_DETAIL@))
        } else {
            None
        },
        Class::DevOnly => match values.entry_at(p) {
            None => None,
            Some(e) => match f.kind {
                Kind::Text => Some(class_refusal(f, app, e.text, DEV_ONLY_DETAIL@)),
                Kind::Bool => match bool_result(values.field_for(p), e) {
                    Err(r) => Some(r),
                    Ok(false) => None,
                    Ok(true) => Some(class_refusal(f, app, e.text, DEV_ONLY_DETAIL@)),
                },
            },
        },
    }
}

/// The first field, in schema order, the rule refuses.
pub open spec fn first_failure(values: Values, fields: Seq<Field>) -> Option<RefusalV>
    decreases fields.len(),
{
    if fields.len() == 0 {
        None
    } else {
        match first_failure(values, fields.drop_last()) {
            Some(r) => Some(r),
            None => field_check(values, fields.last()),
        }
    }
}

/// What the check answers.
pub open spec fn enforce_result(values: Values, deployment: Deployment) -> Option<RefusalV> {
    if deployment == Deployment::Prod {
        first_failure(values, values.view().fields)
    } else {
        None
    }
}

fn spellings_of(field: &Field, app: &str) -> (r: String)
    ensures
        r@ == spellings(*field, app@),
{
    let mut s = field.env(app);
    append(&mut s, ", ");
    let flag = field.flag();
    append(&mut s, flag.as_str());
    append(&mut s, ", ");
    let key = field.toml();
    append(&mut s, key.as_str());
    s
}

fn refusal(field: &Field, app: &str, value: &str, detail: &str) -> (r: Refusal)
    ensures
        r@ == class_refusal(*field, app@, value@, detail@),
{
    let shown = if field.secret && !same(value, "unset") {
        MASK
    } else {
        value
    };
    let mut accepted = match field.class {
        Class::ProdRequired => owned("a value under DEPLOYMENT_TYPE=prod ("),
        _ => owned("unset under DEPLOYMENT_TYPE=prod ("),
    };
    let sp = spellings_of(field, app);
    append(&mut accepted, sp.as_str());
    append(&mut accepted, ")");
    Refusal::new(field.env(app), shown, accepted).with_detail(detail)
}

/// Under prod, refuses the first prod-required field left unset and the
/// first dev-only field that is set (a boolean: true). It passes exactly
/// when the deployment is not prod or every field meets the rule (see
/// `lemma_enforce_passes`).
pub fn enforce(values: &Values, deployment: Deployment) -> (r: Result<(), Refusal>)
    requires
        values.wf(),
    ensures
        match r {
            Ok(()) => enforce_result(*values, deployment) is None,
            Err(e) => enforce_result(*values, deployment) == Some(e@),
        },
        r is Ok <==> (deployment != Deployment::Prod || forall|i: int|
            0 <= i < values.view().fields.len() ==> field_passes(*values, #[trigger] values.view().fields[i])),
{
    proof {
        lemma_enforce_passes(*values, deployment);
    }
    if deployment != Deployment::Prod {
        return Ok(());
    }
    let fields = values.fields();
    let mut i: usize = 0;
    assert(fields@.take(0) =~= Seq::<Field>::empty());
    while i < fields.len()
        invariant
            i <= fields.len(),
            fields@ == values.view().fields,
            values.wf(),
            deployment == Deployment::Prod,
            first_failure(*values, fields@.take(i as int)) is None,
        decreases fields.len() - i,
    {
        let field = &fields[i];
        let ghost t = fields@.take(i + 1);
        assert(t.drop_last() =~= fields@.take(i as int));
        assert(t.last() == *field);
        proof {
            assert(values.view().fields[i as int].path@ == field.path@);
            assert(has_path(values.view().fields, field.path@));
        }
        match field.class {
            Class::Neutral => {},
            Class::ProdRequired => {
                if values.get(&field.path).is_none() {
                    let r = refusal(field, values.app(), "unset", PROD_REQUIRED_DETAIL);
                    proof {
                        assert(field_check(*values, *field) == Some(r@));
                        lemma_first_failure_extends(*values, fields@, i + 1);
                    }
                    return Err(r);
                }
            },
            Class::DevOnly => {
                let enabled = match field.kind {
                    Kind::Bool => match values.bool_opt(&field.path) {
                        Ok(b) => match b {
                            Some(v) => v,
                            None => false,
                        },
                        Err(e) => {
                            proof {
                                assert(field_check(*values, *field) == Some(e@));
                                lemma_first_failure_extends(*values, fields@, i + 1);
                            }
                            return Err(e);
                        },
                    },
                    Kind::Text => values.get(&field.path).is_some(),
                };
                if enabled {
                    let text = match values.get(&field.path) {
                        Some(e) => e.text.as_str(),
                        None => "",
                    };
                    let r = refusal(field, values.app(), text, DEV_ONLY_DETAIL);
                    proof {
                        assert(field_check(*values, *field) == Some(r@));
                        lemma_first_failure_extends(*values, fields@, i + 1);
                    }
                    return Err(r);
                }
            },
        }
        i = i + 1;
    }
    assert(fields@.take(i as int) =~= fields@);
    Ok(())
}

/// What the rule asks of one field under prod: a prod-required value is
/// set; a dev-only text is unset and a dev-only flag is unset or false.
pub open spec fn field_passes(values: Values, f: Field) -> bool {
    let p = f.path@;
    match f.class {
        Class::Neutral => true,
        Class::ProdRequired => values.entry_at(p) is Some,
        Class::DevOnly => match f.kind {
            Kind::Text => values.entry_at(p) is None,
            Kind::Bool => match values.entry_at(p) {
                None => true,
                Some(e) => bool_result(values.field_for(p), e) == Ok::<bool, RefusalV>(false),
            },
        },
    }
}

proof fn lemma_first_failure_none(values: Values, fields: Seq<Field>)
    ensures
        first_failure(values, fields) is None <==> forall|i: int|
            0 <= i < fields.len() ==> field_passes(values, #[trigger] fields[i]),
    decreases fields.len(),
{
    if fields.len() > 0 {
        let init = fields.drop_last();
        lemma_first_failure_none(values, init);
        assert forall|i: int| 0 <= i < init.len() implies init[i] == fields[i] by {}
        if first_failure(values, fields) is None {
            assert forall|i: int| 0 <= i < fields.len() implies field_passes(values, #[trigger] fields[i]) by {
                if i < init.len() {
                    assert(init[i] == fields[i]);
                }
            }
        } else if forall|i: int| 0 <= i < fields.len() ==> field_passes(values, #[trigger] fields[i]) {
            assert forall|i: int| 0 <= i < init.len() implies field_passes(values, #[trigger] init[i]) by {
                assert(init[i] == fields[i]);
                assert(field_passes(values, fields[i]));
            }
            assert(field_passes(values, fields[fields.len() - 1]));
        }
    }
}

/// The class check passes exactly when the deployment is not prod, or
/// every registered field meets the rule: each prod-required value set, no
/// dev-only text set, no dev-only flag enabled.
pub proof fn lemma_enforce_passes(values: Values, deployment: Deployment)
    ensures
        enforce_result(values, deployment) is None <==> (deployment != Deployment::Prod || forall|i: int|
            0 <= i < values.view().fields.len() ==> field_passes(values, #[trigger] values.view().fields[i])),
{
    lemma_first_failure_none(values, values.view().fields);
}

/// Once a prefix of the fields refuses, the whole list refuses the same way.
proof fn lemma_first_failure_extends(values: Values, fields: Seq<Field>, k: int)
    requires
        0 <= k <= fields.len(),
        first_failure(values, fields.take(k)) is Some,
    ensures
        first_failure(values, fields) == first_failure(values, fields.take(k)),
    decreases fields.len() - k,
{
    if k < fields.len() {
        assert(fields.take(k + 1).drop_last() =~= fields.take(k));
        lemma_first_failure_extends(values, fields, k + 1);
    } else {
        assert(fields.take(k) =~= fields);
    }
}

} // verus!
