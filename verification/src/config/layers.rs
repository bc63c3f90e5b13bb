//! Source precedence: defaults < file < env < args, later wins per field, and
//! every entry stamped with its origin.

use vstd::prelude::*;

use crate::config::args::{Parsed, CONFIG_FLAG};
use crate::config::file::{pairs_view, FileRead};
use crate::config::path::Path;
use crate::config::refusal::{Refusal, RefusalV};
use crate::config::schema::{
    field_env, Entry, EntryV, Field, FileStatus, FileStatusV, Origin, OriginV, Presence,
};
use crate::config::table::{apply_all, last_write, lemma_apply_all, Table};
use crate::config::values::{Values, ValuesV};
use crate::text::{append, opt_view, owned, same};

verus! {

pub type Writes = Seq<(Seq<Seq<char>>, EntryV)>;

/// The variable naming the config file: `<APP>_CONFIG`.
pub open spec fn config_env_of(app: Seq<char>) -> Seq<char> {
    app + "_CONFIG"@
}

pub fn config_env(app: &str) -> (r: String)
    ensures
        r@ == config_env_of(app@),
{
    let mut s = owned(app);
    append(&mut s, "_CONFIG");
    s
}

pub open spec fn env_view(env: Seq<(String, String)>) -> Seq<(Seq<char>, Seq<char>)> {
    env.map_values(|p: (String, String)| (p.0@, p.1@))
}

/// An environment variable's value: the last pair that names it.
pub open spec fn env_lookup(env: Seq<(Seq<char>, Seq<char>)>, name: Seq<char>) -> Option<Seq<char>>
    decreases env.len(),
{
    if env.len() == 0 {
        None
    } else if env.last().0 == name {
        Some(env.last().1)
    } else {
        env_lookup(env.drop_last(), name)
    }
}

/// The file to read and the spelling that named it: `--config` first, then
/// `<APP>_CONFIG`.
pub open spec fn file_location(
    app: Seq<char>,
    config: Option<Seq<char>>,
    env: Seq<(Seq<char>, Seq<char>)>,
) -> Option<(Seq<char>, Seq<char>)> {
    match config {
        Some(p) => Some((p, CONFIG_FLAG@)),
        None => match env_lookup(env, config_env_of(app)) {
            Some(p) => Some((p, config_env_of(app))),
            None => None,
        },
    }
}

/// The defaults, one write per field that has one.
pub open spec fn default_writes(fields: Seq<Field>) -> Writes
    decreases fields.len(),
{
    if fields.len() == 0 {
        seq![]
    } else {
        let rest = default_writes(fields.drop_last());
        match fields.last().presence {
            Presence::Default(t) => rest.push(
                (fields.last().path@, EntryV { text: t@, origin: OriginV::Default }),
            ),
            _ => rest,
        }
    }
}

/// The file's pairs, stamped with the file.
pub open spec fn file_writes(pairs: Seq<(Seq<Seq<char>>, Seq<char>)>, file: Seq<char>) -> Writes {
    pairs.map_values(
        |p: (Seq<Seq<char>>, Seq<char>)| (p.0, EntryV { text: p.1, origin: OriginV::File(file) }),
    )
}

/// One write per field whose variable is set, in field order.
pub open spec fn env_writes(
    fields: Seq<Field>,
    env: Seq<(Seq<char>, Seq<char>)>,
    app: Seq<char>,
) -> Writes
    decreases fields.len(),
{
    if fields.len() == 0 {
        seq![]
    } else {
        let rest = env_writes(fields.drop_last(), env, app);
        let name = field_env(fields.last(), app);
        match env_lookup(env, name) {
            Some(v) => rest.push((fields.last().path@, EntryV { text: v, origin: OriginV::Env(name) })),
            None => rest,
        }
    }
}

/// The argument values, in argv order.
pub open spec fn arg_writes(values: Seq<(Seq<Seq<char>>, Seq<char>, Seq<char>)>) -> Writes {
    values.map_values(
        |v: (Seq<Seq<char>>, Seq<char>, Seq<char>)|
            (v.0, EntryV { text: v.1, origin: OriginV::Arg(v.2) }),
    )
}

/// The merged table: defaults, then the file, then the environment, then the
/// arguments, each write replacing what a path held.
pub open spec fn merged(d: Writes, f: Writes, e: Writes, a: Writes) -> Map<
    Seq<Seq<char>>,
    EntryV,
> {
    apply_all(apply_all(apply_all(apply_all(Map::empty(), d), f), e), a)
}

/// Precedence, per field: a path holds its last argument, else its last
/// environment value, else its last file value, else its default; a path
/// none of them sets is absent.
pub proof fn lemma_precedence(d: Writes, f: Writes, e: Writes, a: Writes, p: Seq<Seq<char>>)
    ensures
        ({
            let m = merged(d, f, e, a);
            let winner = match last_write(a, p) {
                Some(x) => Some(x),
                None => match last_write(e, p) {
                    Some(x) => Some(x),
                    None => match last_write(f, p) {
                        Some(x) => Some(x),
                        None => last_write(d, p),
                    },
                },
            };
            match winner {
                Some(x) => m.contains_key(p) && m[p] == x,
                None => !m.contains_key(p),
            }
        }),
{
    let m0 = Map::<Seq<Seq<char>>, EntryV>::empty();
    let m1 = apply_all(m0, d);
    let m2 = apply_all(m1, f);
    let m3 = apply_all(m2, e);
    lemma_apply_all(m0, d, p);
    lemma_apply_all(m1, f, p);
    lemma_apply_all(m2, e, p);
    lemma_apply_all(m3, a, p);
}

proof fn lemma_apply_push(m: Map<Seq<Seq<char>>, EntryV>, w: Writes, x: (Seq<Seq<char>>, EntryV))
    ensures
        apply_all(m, w.push(x)) == apply_all(m, w).insert(x.0, x.1),
{
    assert(w.push(x).drop_last() =~= w);
}

/// What the merge gives, for the file's read when one is located.
pub open spec fn merge_result(
    app: Seq<char>,
    fields: Seq<Field>,
    parsed: crate::config::args::ParsedV,
    env: Seq<(Seq<char>, Seq<char>)>,
    read: Option<crate::config::file::FileReadV>,
) -> Result<ValuesV, RefusalV> {
    let d = default_writes(fields);
    let e = env_writes(fields, env, app);
    let a = arg_writes(parsed.values);
    match (file_location(app, parsed.config, env), read) {
        (Some((path, source)), Some(rd)) => match crate::config::file::file_result(
            fields,
            source,
            path,
            rd,
        ) {
            Err(r) => Err(r),
            Ok(pairs) => Ok(
                ValuesV {
                    app,
                    fields,
                    entries: merged(d, file_writes(pairs, path), e, a),
                    file: FileStatusV::Read(path),
                },
            ),
        },
        _ => Ok(
            ValuesV {
                app,
                fields,
                entries: merged(d, seq![], e, a),
                file: FileStatusV::NotConfigured,
            },
        ),
    }
}

/// The file's writes the merge applies: the located file's pairs, stamped
/// with its path; none where no file is located or the read refuses.
pub open spec fn file_layer(
    app: Seq<char>,
    fields: Seq<Field>,
    parsed: crate::config::args::ParsedV,
    env: Seq<(Seq<char>, Seq<char>)>,
    read: Option<crate::config::file::FileReadV>,
) -> Writes {
    match (file_location(app, parsed.config, env), read) {
        (Some((path, source)), Some(rd)) => match crate::config::file::file_result(fields, source, path, rd) {
            Ok(pairs) => file_writes(pairs, path),
            Err(_) => seq![],
        },
        _ => seq![],
    }
}

/// No two fields registered at one path.
pub open spec fn distinct_paths(fields: Seq<Field>) -> bool {
    forall|i: int, j: int|
        0 <= i < fields.len() && 0 <= j < fields.len() && #[trigger] fields[i].path@ == #[trigger] fields[j].path@
            ==> i == j
}

/// What one field holds after the merge: its last argument, else its
/// environment variable, else the file's last value for it, else its
/// default; nothing where none of them sets it.
pub open spec fn field_winner(
    app: Seq<char>,
    f: Field,
    args: Writes,
    env: Seq<(Seq<char>, Seq<char>)>,
    file: Writes,
) -> Option<EntryV> {
    let p = f.path@;
    match last_write(args, p) {
        Some(x) => Some(x),
        None => match env_lookup(env, field_env(f, app)) {
            Some(t) => Some(EntryV { text: t, origin: OriginV::Env(field_env(f, app)) }),
            None => match last_write(file, p) {
                Some(x) => Some(x),
                None => match f.presence {
                    Presence::Default(t) => Some(EntryV { text: t@, origin: OriginV::Default }),
                    _ => None,
                },
            },
        },
    }
}

proof fn lemma_distinct_init(fields: Seq<Field>)
    requires
        distinct_paths(fields),
        fields.len() > 0,
    ensures
        distinct_paths(fields.drop_last()),
{
    let init = fields.drop_last();
    assert forall|i: int, j: int|
        0 <= i < init.len() && 0 <= j < init.len() && #[trigger] init[i].path@ == #[trigger] init[j].path@ implies i
            == j by {
        assert(init[i] == fields[i] && init[j] == fields[j]);
    }
}

/// The defaults write a field's path exactly with its own default.
proof fn lemma_default_write(fields: Seq<Field>, i: int)
    requires
        distinct_paths(fields),
        0 <= i < fields.len(),
    ensures
        last_write(default_writes(fields), fields[i].path@) == match fields[i].presence {
            Presence::Default(t) => Some(EntryV { text: t@, origin: OriginV::Default }),
            _ => None::<EntryV>,
        },
    decreases fields.len(),
{
    let init = fields.drop_last();
    let last = fields.len() - 1;
    let rest = default_writes(init);
    if i == last {
        lemma_default_absent(init, fields[i].path@);
        if let Presence::Default(t) = fields[i].presence {
            let x = (fields[i].path@, EntryV { text: t@, origin: OriginV::Default });
            assert(rest.push(x).last() == x);
        }
    } else {
        lemma_distinct_init(fields);
        assert(init[i] == fields[i]);
        lemma_default_write(init, i);
        assert(fields[last].path@ != fields[i].path@);
        if let Presence::Default(t) = fields[last].presence {
            let x = (fields[last].path@, EntryV { text: t@, origin: OriginV::Default });
            assert(rest.push(x).drop_last() =~= rest);
        }
    }
}

proof fn lemma_default_absent(fields: Seq<Field>, p: Seq<Seq<char>>)
    requires
        forall|j: int| 0 <= j < fields.len() ==> (#[trigger] fields[j]).path@ != p,
    ensures
        last_write(default_writes(fields), p) is None,
    decreases fields.len(),
{
    if fields.len() > 0 {
        let init = fields.drop_last();
        assert forall|j: int| 0 <= j < init.len() implies (#[trigger] init[j]).path@ != p by {
            assert(init[j] == fields[j]);
        }
        lemma_default_absent(init, p);
        assert(fields[fields.len() - 1].path@ != p);
        if let Presence::Default(t) = fields.last().presence {
            let x = (fields.last().path@, EntryV { text: t@, origin: OriginV::Default });
            assert(default_writes(init).push(x).drop_last() =~= default_writes(init));
        }
    }
}

/// The environment writes a field's path exactly with its own variable.
proof fn lemma_env_write(fields: Seq<Field>, env: Seq<(Seq<char>, Seq<char>)>, app: Seq<char>, i: int)
    requires
        distinct_paths(fields),
        0 <= i < fields.len(),
    ensures
        last_write(env_writes(fields, env, app), fields[i].path@) == match env_lookup(
            env,
            field_env(fields[i], app),
        ) {
            Some(t) => Some(EntryV { text: t, origin: OriginV::Env(field_env(fields[i], app)) }),
            None => None::<EntryV>,
        },
    decreases fields.len(),
{
    let init = fields.drop_last();
    let last = fields.len() - 1;
    let rest = env_writes(init, env, app);
    let name = field_env(fields[last], app);
    if i == last {
        lemma_env_absent(init, env, app, fields[i].path@);
        if let Some(v) = env_lookup(env, name) {
            let x = (fields[last].path@, EntryV { text: v, origin: OriginV::Env(name) });
            assert(rest.push(x).last() == x);
        }
    } else {
        lemma_distinct_init(fields);
        assert(init[i] == fields[i]);
        lemma_env_write(init, env, app, i);
        assert(fields[last].path@ != fields[i].path@);
        if let Some(v) = env_lookup(env, name) {
            let x = (fields[last].path@, EntryV { text: v, origin: OriginV::Env(name) });
            assert(rest.push(x).drop_last() =~= rest);
        }
    }
}

proof fn lemma_env_absent(
    fields: Seq<Field>,
    env: Seq<(Seq<char>, Seq<char>)>,
    app: Seq<char>,
    p: Seq<Seq<char>>,
)
    requires
        forall|j: int| 0 <= j < fields.len() ==> (#[trigger] fields[j]).path@ != p,
    ensures
        last_write(env_writes(fields, env, app), p) is None,
    decreases fields.len(),
{
    if fields.len() > 0 {
        let init = fields.drop_last();
        assert forall|j: int| 0 <= j < init.len() implies (#[trigger] init[j]).path@ != p by {
            assert(init[j] == fields[j]);
        }
        lemma_env_absent(init, env, app, p);
        assert(fields[fields.len() - 1].path@ != p);
        let name = field_env(fields.last(), app);
        if let Some(v) = env_lookup(env, name) {
            let x = (fields.last().path@, EntryV { text: v, origin: OriginV::Env(name) });
            assert(env_writes(init, env, app).push(x).drop_last() =~= env_writes(init, env, app));
        }
    }
}

/// Precedence for each registered field, on what the merge gives: the
/// field's last argument, else its environment variable (the last pair
/// that names it), else the file's value for it, else its default, each
/// stamped with where it came from; a field none of them sets is absent.
pub proof fn lemma_merge_field(
    app: Seq<char>,
    fields: Seq<Field>,
    parsed: crate::config::args::ParsedV,
    env: Seq<(Seq<char>, Seq<char>)>,
    read: Option<crate::config::file::FileReadV>,
    i: int,
)
    requires
        distinct_paths(fields),
        0 <= i < fields.len(),
        merge_result(app, fields, parsed, env, read) is Ok,
    ensures
        ({
            let v = merge_result(app, fields, parsed, env, read)->Ok_0;
            let p = fields[i].path@;
            match field_winner(
                app,
                fields[i],
                arg_writes(parsed.values),
                env,
                file_layer(app, fields, parsed, env, read),
            ) {
                Some(x) => v.entries.contains_key(p) && v.entries[p] == x,
                None => !v.entries.contains_key(p),
            }
        }),
{
    let p = fields[i].path@;
    lemma_default_write(fields, i);
    lemma_env_write(fields, env, app, i);
    lemma_precedence(
        default_writes(fields),
        file_layer(app, fields, parsed, env, read),
        env_writes(fields, env, app),
        arg_writes(parsed.values),
        p,
    );
}

fn env_get(env: &[(String, String)], name: &str) -> (r: Option<String>)
    ensures
        opt_view(r) == env_lookup(env_view(env@), name@),
{
    let ghost ev = env_view(env@);
    let mut i: usize = env.len();
    assert(ev.take(i as int) =~= ev);
    while i > 0
        invariant
            i <= env.len(),
            ev == env_view(env@),
            env_lookup(ev, name@) == env_lookup(ev.take(i as int), name@),
        decreases i,
    {
        assert(ev.take(i as int).last() == (env@[i - 1].0@, env@[i - 1].1@));
        if same(env[i - 1].0.as_str(), name) {
            return Some(env[i - 1].1.clone());
        }
        assert(ev.take(i as int).drop_last() =~= ev.take(i - 1));
        i = i - 1;
    }
    None
}

/// The file to read and the spelling that named it.
pub fn locate_file(app: &str, config: &Option<String>, env: &[(String, String)]) -> (r: Option<
    (String, String),
>)
    ensures
        match r {
            Some((p, s)) => file_location(app@, opt_view(*config), env_view(env@)) == Some(
                (p@, s@),
            ),
            None => file_location(app@, opt_view(*config), env_view(env@)) is None,
        },
{
    match config {
        Some(p) => Some((p.clone(), owned(CONFIG_FLAG))),
        None => {
            let name = config_env(app);
            match env_get(env, name.as_str()) {
                Some(p) => Some((p, name)),
                None => None,
            }
        },
    }
}

/// Merges the sources into one table. `read` is what the located file's
/// source answered; it is `None` exactly when no file is located.
pub fn merge(
    app: &str,
    fields: Vec<Field>,
    parsed: Parsed,
    env: &[(String, String)],
    read: Option<FileRead>,
) -> (r: Result<Values, Refusal>)
    requires
        read is Some <==> file_location(app@, opt_view(parsed.config), env_view(env@)) is Some,
    ensures
        match r {
            Ok(v) => v.wf() && merge_result(
                app@,
                fields@,
                parsed@,
                env_view(env@),
                match read {
                    Some(x) => Some(x@),
                    None => None,
                },
            ) == Ok::<ValuesV, RefusalV>(v.view()),
            Err(e) => merge_result(
                app@,
                fields@,
                parsed@,
                env_view(env@),
                match read {
                    Some(x) => Some(x@),
                    None => None,
                },
            ) == Err::<ValuesV, RefusalV>(e@),
        },
{
    let ghost fv = fields@;
    let ghost ev = env_view(env@);
    let ghost m0 = Map::<Seq<Seq<char>>, EntryV>::empty();
    let mut table = Table::new();
    let mut i: usize = 0;
    assert(fv.take(0) =~= Seq::<Field>::empty());
    while i < fields.len()
        invariant
            i <= fields.len(),
            fv == fields@,
            table.wf(),
            table.view() == apply_all(m0, default_writes(fv.take(i as int))),
        decreases fields.len() - i,
    {
        let ghost t = fv.take(i + 1);
        assert(t.drop_last() =~= fv.take(i as int));
        assert(t.last() == fv[i as int]);
        match &fields[i].presence {
            Presence::Default(text) => {
                proof {
                    lemma_apply_push(
                        m0,
                        default_writes(fv.take(i as int)),
                        (fv[i as int].path@, EntryV { text: text@, origin: OriginV::Default }),
                    );
                }
                table.insert(
                    fields[i].path.duplicate(),
                    Entry { text: text.clone(), origin: Origin::Default },
                );
            },
            _ => {},
        }
        i = i + 1;
    }
    assert(fv.take(i as int) =~= fv);
    let ghost m1 = table.view();
    let located = locate_file(app, &parsed.config, env);
    let status = match (located, read) {
        (Some((path, source)), Some(rd)) => {
            let pairs = match crate::config::file::read_file(
                &fields,
                source.as_str(),
                path.as_str(),
                rd,
            ) {
                Ok(p) => p,
                Err(e) => {
                    return Err(e);
                },
            };
            let ghost fw = file_writes(pairs_view(pairs@), path@);
            let mut j: usize = 0;
            assert(fw.take(0) =~= Seq::<(Seq<Seq<char>>, EntryV)>::empty());
            while j < pairs.len()
                invariant
                    j <= pairs.len(),
                    fw == file_writes(pairs_view(pairs@), path@),
                    table.wf(),
                    table.view() == apply_all(m1, fw.take(j as int)),
                decreases pairs.len() - j,
            {
                let (p, text) = (&pairs[j].0, &pairs[j].1);
                proof {
                    assert(fw.take(j + 1) =~= fw.take(j as int).push(fw[j as int]));
                    lemma_apply_push(m1, fw.take(j as int), fw[j as int]);
                }
                table.insert(
                    p.duplicate(),
                    Entry { text: text.clone(), origin: Origin::File(path.clone()) },
                );
                j = j + 1;
            }
            assert(fw.take(j as int) =~= fw);
            FileStatus::Read(path)
        },
        _ => {
            assert(apply_all(m1, seq![]) == m1);
            FileStatus::NotConfigured
        },
    };
    let ghost m2 = table.view();
    let mut k: usize = 0;
    assert(fv.take(0) =~= Seq::<Field>::empty());
    while k < fields.len()
        invariant
            k <= fields.len(),
            fv == fields@,
            ev == env_view(env@),
            table.wf(),
            table.view() == apply_all(m2, env_writes(fv.take(k as int), ev, app@)),
        decreases fields.len() - k,
    {
        let ghost t = fv.take(k + 1);
        assert(t.drop_last() =~= fv.take(k as int));
        assert(t.last() == fv[k as int]);
        let name = fields[k].env(app);
        match env_get(env, name.as_str()) {
            Some(value) => {
                proof {
                    lemma_apply_push(
                        m2,
                        env_writes(fv.take(k as int), ev, app@),
                        (fv[k as int].path@, EntryV { text: value@, origin: OriginV::Env(name@) }),
                    );
                }
                table.insert(fields[k].path.duplicate(), Entry { text: value, origin: Origin::Env(name) });
            },
            None => {},
        }
        k = k + 1;
    }
    assert(fv.take(k as int) =~= fv);
    let ghost m3 = table.view();
    let ghost aw = arg_writes(parsed@.values);
    let mut n: usize = 0;
    assert(aw.take(0) =~= Seq::<(Seq<Seq<char>>, EntryV)>::empty());
    while n < parsed.values.len()
        invariant
            n <= parsed.values.len(),
            aw == arg_writes(parsed@.values),
            table.wf(),
            table.view() == apply_all(m3, aw.take(n as int)),
        decreases parsed.values.len() - n,
    {
        let item = &parsed.values[n];
        proof {
            assert(aw.take(n + 1) =~= aw.take(n as int).push(aw[n as int]));
            lemma_apply_push(m3, aw.take(n as int), aw[n as int]);
        }
        table.insert(
            item.0.duplicate(),
            Entry { text: item.1.clone(), origin: Origin::Arg(item.2.clone()) },
        );
        n = n + 1;
    }
    assert(aw.take(n as int) =~= aw);
    Ok(Values::new(app, fields, table, status))
}

} // verus!
