//! Rendering only: the `--help` text (grouped by TOML table, the three
//! spellings per line) and the `--print-config` dump (effective value and
//! origin per field, secrets masked).

use vstd::prelude::*;

use crate::config::args::{CONFIG_FLAG, HELP_FLAG, PRINT_CONFIG_FLAG};
use crate::config::layers::{config_env, config_env_of};
use crate::config::path::{leaf_of, section_of};
use crate::config::schema::{
    field_env, field_flag, field_toml, origin_text, Class, Field, FileStatusV, Kind, Presence,
};
use crate::config::values::{Values, MASK};
use crate::text::{append, owned, pad_right, push_padded};

verus! {

/// One line of the help table.
pub struct RowV {
    pub flag: Seq<char>,
    pub env: Seq<char>,
    pub key: Seq<char>,
    pub tail: Seq<char>,
    pub help: Seq<char>,
}

/// The number of bytes `s` takes in UTF-8: the unit widths are counted in.
pub open spec fn byte_len(s: Seq<char>) -> nat {
    vstd::utf8::encode_utf8(s).len()
}

pub const CONFIG_TAIL: &'static str = "TOML file to read; a missing, unreadable or malformed one refuses";

pub const HELP_TAIL: &'static str = "print this text and exit";

pub const PRINT_CONFIG_TAIL: &'static str = "print every value with its origin (secrets masked) and exit";

/// The rows of the built-in flags.
pub open spec fn builtin_rows(app: Seq<char>) -> Seq<RowV> {
    seq![
        RowV {
            flag: CONFIG_FLAG@ + " <path>"@,
            env: config_env_of(app),
            key: seq![],
            tail: CONFIG_TAIL@,
            help: seq![],
        },
        RowV { flag: HELP_FLAG@, env: seq![], key: seq![], tail: HELP_TAIL@, help: seq![] },
        RowV {
            flag: PRINT_CONFIG_FLAG@,
            env: seq![],
            key: seq![],
            tail: PRINT_CONFIG_TAIL@,
            help: seq![],
        },
    ]
}

/// What a field's line says of it: presence, then secret, then class.
pub open spec fn field_tail(f: Field) -> Seq<char> {
    let presence = match f.presence {
        Presence::Required => "required"@,
        Presence::Default(d) => "default "@ + d@,
        Presence::Optional => "optional"@,
    };
    let secret = if f.secret {
        ", secret"@
    } else {
        seq![]
    };
    let class = match f.class {
        Class::Neutral => seq![],
        Class::ProdRequired => ", prod-required"@,
        Class::DevOnly => ", dev-only"@,
    };
    presence + secret + class
}

pub open spec fn field_row(f: Field, app: Seq<char>) -> RowV {
    RowV {
        flag: match f.kind {
            Kind::Bool => field_flag(f),
            Kind::Text => field_flag(f) + " <value>"@,
        },
        env: field_env(f, app),
        key: leaf_of(f.path@),
        tail: field_tail(f),
        help: f.help@,
    }
}

/// A field's help row leads its tail with its presence: "required" for a
/// required field, "optional" for an optional one, "default " and the text
/// for one with a default.
pub proof fn lemma_row_presence(f: Field, app: Seq<char>)
    ensures
        ({
            let tail = field_row(f, app).tail;
            &&& f.presence is Required ==> "required"@.is_prefix_of(tail)
            &&& f.presence is Optional ==> "optional"@.is_prefix_of(tail)
            &&& (f.presence matches Presence::Default(d) ==> ("default "@ + d@).is_prefix_of(tail))
        }),
{
    let presence = match f.presence {
        Presence::Required => "required"@,
        Presence::Default(d) => "default "@ + d@,
        Presence::Optional => "optional"@,
    };
    assert(field_tail(f).subrange(0, presence.len() as int) =~= presence);
}

pub open spec fn field_rows(fields: Seq<Field>, app: Seq<char>) -> Seq<RowV> {
    fields.map_values(|f: Field| field_row(f, app))
}

pub open spec fn max_nat(a: nat, b: nat) -> nat {
    if a < b {
        b
    } else {
        a
    }
}

/// The widest flag, env name and key of the rows, in bytes.
pub open spec fn widths(rows: Seq<RowV>) -> (nat, nat, nat)
    decreases rows.len(),
{
    if rows.len() == 0 {
        (0, 0, 0)
    } else {
        let w = widths(rows.drop_last());
        let r = rows.last();
        (
            max_nat(w.0, byte_len(r.flag)),
            max_nat(w.1, byte_len(r.env)),
            max_nat(w.2, byte_len(r.key)),
        )
    }
}

/// One rendered row.
pub open spec fn row_line(r: RowV, w: (nat, nat, nat)) -> Seq<char> {
    let head = "  "@ + pad_right(r.flag, w.0) + "  "@ + pad_right(r.env, w.1) + "  "@ + pad_right(
        r.key,
        w.2,
    ) + "  "@ + r.tail;
    let help = if r.help.len() == 0 {
        seq![]
    } else {
        "\n      "@ + r.help
    };
    head + help + "\n"@
}

pub open spec fn row_lines(rows: Seq<RowV>, w: (nat, nat, nat)) -> Seq<char>
    decreases rows.len(),
{
    if rows.len() == 0 {
        seq![]
    } else {
        row_lines(rows.drop_last(), w) + row_line(rows.last(), w)
    }
}

/// The heading of a table's group.
pub open spec fn section_heading(section: Seq<char>) -> Seq<char> {
    if section.len() == 0 {
        "\ntop level\n"@
    } else {
        "\n["@ + section + "]\n"@
    }
}

/// The field lines, a heading wherever the table changes.
pub open spec fn grouped_lines(fields: Seq<Field>, app: Seq<char>, w: (nat, nat, nat)) -> Seq<char>
    decreases fields.len(),
{
    if fields.len() == 0 {
        seq![]
    } else {
        let n = fields.len();
        let sec = section_of(fields.last().path@);
        let heading = if n == 1 || section_of(fields[n - 2].path@) != sec {
            section_heading(sec)
        } else {
            seq![]
        };
        grouped_lines(fields.drop_last(), app, w) + heading + row_line(field_row(fields.last(), app), w)
    }
}

pub open spec fn help_header(bin: Seq<char>) -> Seq<char> {
    bin
        + ": every value has a flag, an environment variable and a TOML key.\nLater wins: defaults < config file < environment < arguments.\n\n"@
}

/// The whole `--help` text.
pub open spec fn help_text(app: Seq<char>, bin: Seq<char>, fields: Seq<Field>) -> Seq<char> {
    let w = widths(builtin_rows(app) + field_rows(fields, app));
    help_header(bin) + row_lines(builtin_rows(app), w) + grouped_lines(fields, app, w)
}

struct Row {
    flag: String,
    env: String,
    key: String,
    tail: String,
    help: String,
}

impl View for Row {
    type V = RowV;

    closed spec fn view(&self) -> RowV {
        RowV {
            flag: self.flag@,
            env: self.env@,
            key: self.key@,
            tail: self.tail@,
            help: self.help@,
        }
    }
}

spec fn rows_view(rows: Seq<Row>) -> Seq<RowV> {
    rows.map_values(|r: Row| r@)
}

fn bytes(s: &str) -> (r: usize)
    ensures
        r == byte_len(s@),
{
    s.as_bytes().len()
}

fn field_row_exec(f: &Field, app: &str) -> (r: Row)
    ensures
        r@ == field_row(*f, app@),
{
    let flag = match f.kind {
        Kind::Bool => f.flag(),
        Kind::Text => {
            let mut s = f.flag();
            append(&mut s, " <value>");
            s
        },
    };
    let mut tail = match &f.presence {
        Presence::Required => owned("required"),
        Presence::Default(d) => {
            let mut s = owned("default ");
            append(&mut s, d.as_str());
            s
        },
        Presence::Optional => owned("optional"),
    };
    let ghost presence = tail@;
    if f.secret {
        append(&mut tail, ", secret");
    }
    let ghost with_secret = tail@;
    match f.class {
        Class::Neutral => {},
        Class::ProdRequired => append(&mut tail, ", prod-required"),
        Class::DevOnly => append(&mut tail, ", dev-only"),
    }
    proof {
        if !f.secret {
            assert(with_secret =~= presence + Seq::<char>::empty());
        }
        if f.class == Class::Neutral {
            assert(tail@ =~= with_secret + Seq::<char>::empty());
        }
    }
    Row { flag, env: f.env(app), key: f.path.leaf(), tail, help: f.help.clone() }
}

fn builtin_rows_exec(app: &str) -> (r: Vec<Row>)
    ensures
        rows_view(r@) == builtin_rows(app@),
{
    let mut flag = owned(CONFIG_FLAG);
    append(&mut flag, " <path>");
    let mut out: Vec<Row> = Vec::new();
    out.push(Row { flag, env: config_env(app), key: String::new(), tail: owned(CONFIG_TAIL), help: String::new() });
    out.push(Row { flag: owned(HELP_FLAG), env: String::new(), key: String::new(), tail: owned(HELP_TAIL), help: String::new() });
    out.push(
        Row {
            flag: owned(PRINT_CONFIG_FLAG),
            env: String::new(),
            key: String::new(),
            tail: owned(PRINT_CONFIG_TAIL),
            help: String::new(),
        },
    );
    assert(rows_view(out@) =~= builtin_rows(app@));
    out
}

fn widths_of(rows: &Vec<Row>) -> (r: (usize, usize, usize))
    ensures
        (r.0 as nat, r.1 as nat, r.2 as nat) == widths(rows_view(rows@)),
{
    let ghost rv = rows_view(rows@);
    let mut w: (usize, usize, usize) = (0, 0, 0);
    let mut i: usize = 0;
    assert(rv.take(0) =~= Seq::<RowV>::empty());
    while i < rows.len()
        invariant
            i <= rows.len(),
            rv == rows_view(rows@),
            (w.0 as nat, w.1 as nat, w.2 as nat) == widths(rv.take(i as int)),
        decreases rows.len() - i,
    {
        assert(rv.take(i + 1).drop_last() =~= rv.take(i as int));
        assert(rv.take(i + 1).last() == rows@[i as int]@);
        let f = bytes(rows[i].flag.as_str());
        let e = bytes(rows[i].env.as_str());
        let k = bytes(rows[i].key.as_str());
        if w.0 < f {
            w.0 = f;
        }
        if w.1 < e {
            w.1 = e;
        }
        if w.2 < k {
            w.2 = k;
        }
        i = i + 1;
    }
    assert(rv.take(i as int) =~= rv);
    w
}

fn push_row(out: &mut String, r: &Row, w: (usize, usize, usize))
    ensures
        final(out)@ == old(out)@ + row_line(r@, (w.0 as nat, w.1 as nat, w.2 as nat)),
{
    let ghost start = out@;
    append(out, "  ");
    push_padded(out, r.flag.as_str(), w.0);
    append(out, "  ");
    push_padded(out, r.env.as_str(), w.1);
    append(out, "  ");
    push_padded(out, r.key.as_str(), w.2);
    append(out, "  ");
    append(out, r.tail.as_str());
    let ghost head = out@;
    if r.help.as_str().unicode_len() > 0 {
        append(out, "\n      ");
        append(out, r.help.as_str());
    }
    append(out, "\n");
    proof {
        let wn = (w.0 as nat, w.1 as nat, w.2 as nat);
        if r.help@.len() == 0 {
            assert(out@ =~= head + Seq::<char>::empty() + "\n"@);
        }
        assert(out@ =~= start + row_line(r@, wn));
    }
}

/// The `--help` text for `bin`, whose fields are `fields`.
#[verifier::rlimit(50)]
#[verifier::spinoff_prover]
pub fn help(app: &str, bin: &str, fields: &Vec<Field>) -> (r: String)
    ensures
        r@ == help_text(app@, bin@, fields@),
{
    let builtins = builtin_rows_exec(app);
    let mut rows: Vec<Row> = Vec::new();
    let mut sections: Vec<String> = Vec::new();
    let mut i: usize = 0;
    while i < fields.len()
        invariant
            i <= fields.len(),
            rows.len() == i,
            sections.len() == i,
            forall|j: int| 0 <= j < i ==> #[trigger] rows@[j]@ == field_row(fields@[j], app@),
            forall|j: int| 0 <= j < i ==> #[trigger] sections@[j]@ == section_of(fields@[j].path@),
        decreases fields.len() - i,
    {
        rows.push(field_row_exec(&fields[i], app));
        sections.push(fields[i].path.section());
        i = i + 1;
    }
    let mut all: Vec<Row> = Vec::new();
    let mut k: usize = 0;
    assert(rows_view(all@) =~= rows_view(builtins@).take(0));
    while k < builtins.len()
        invariant
            k <= builtins.len(),
            rows_view(all@) == rows_view(builtins@).take(k as int),
        decreases builtins.len() - k,
    {
        let b = &builtins[k];
        let c = Row { flag: b.flag.clone(), env: b.env.clone(), key: b.key.clone(), tail: b.tail.clone(), help: b.help.clone() };
        assert(c@ == b@);
        let ghost before = all@;
        all.push(c);
        assert(all@ == before.push(c));
        assert(rows_view(before.push(c)) =~= rows_view(before).push(c@));
        assert(rows_view(builtins@)[k as int] == builtins@[k as int]@);
        assert(rows_view(builtins@).take(k + 1) =~= rows_view(builtins@).take(k as int).push(
            builtins@[k as int]@,
        ));
        assert(rows_view(all@) =~= rows_view(builtins@).take(k + 1));
        k = k + 1;
    }
    let mut m: usize = 0;
    assert(rows_view(builtins@).take(k as int) =~= rows_view(builtins@));
    while m < rows.len()
        invariant
            m <= rows.len(),
            rows.len() == fields.len(),
            forall|j: int| 0 <= j < rows.len() ==> #[trigger] rows@[j]@ == field_row(fields@[j], app@),
            rows_view(all@) == rows_view(builtins@) + field_rows(fields@, app@).take(m as int),
        decreases rows.len() - m,
    {
        let b = &rows[m];
        let c = Row { flag: b.flag.clone(), env: b.env.clone(), key: b.key.clone(), tail: b.tail.clone(), help: b.help.clone() };
        assert(c@ == b@);
        let ghost before = all@;
        all.push(c);
        assert(all@ == before.push(c));
        assert(rows_view(before.push(c)) =~= rows_view(before).push(c@));
        assert(field_rows(fields@, app@)[m as int] == field_row(fields@[m as int], app@));
        assert(field_rows(fields@, app@).take(m + 1) =~= field_rows(fields@, app@).take(m as int).push(
            field_row(fields@[m as int], app@),
        ));
        assert(rows_view(all@) =~= rows_view(builtins@) + field_rows(fields@, app@).take(m + 1));
        m = m + 1;
    }
    assert(field_rows(fields@, app@).take(m as int) =~= field_rows(fields@, app@));
    let w = widths_of(&all);
    let ghost wn = (w.0 as nat, w.1 as nat, w.2 as nat);
    let mut out = owned(bin);
    append(
        &mut out,
        ": every value has a flag, an environment variable and a TOML key.\nLater wins: defaults < config file < environment < arguments.\n\n",
    );
    let mut n: usize = 0;
    assert(rows_view(builtins@).take(0) =~= Seq::<RowV>::empty());
    while n < builtins.len()
        invariant
            n <= builtins.len(),
            out@ == help_header(bin@) + row_lines(rows_view(builtins@).take(n as int), wn),
            wn == (w.0 as nat, w.1 as nat, w.2 as nat),
        decreases builtins.len() - n,
    {
        assert(rows_view(builtins@).take(n + 1).drop_last() =~= rows_view(builtins@).take(n as int));
        push_row(&mut out, &builtins[n], w);
        n = n + 1;
    }
    assert(rows_view(builtins@).take(n as int) =~= rows_view(builtins@));
    let ghost base = out@;
    let mut j: usize = 0;
    assert(fields@.take(0) =~= Seq::<Field>::empty());
    while j < rows.len()
        invariant
            j <= rows.len(),
            rows.len() == fields.len(),
            sections.len() == fields.len(),
            forall|q: int| 0 <= q < rows.len() ==> #[trigger] rows@[q]@ == field_row(fields@[q], app@),
            forall|q: int| 0 <= q < rows.len() ==> #[trigger] sections@[q]@ == section_of(fields@[q].path@),
            out@ == base + grouped_lines(fields@.take(j as int), app@, wn),
            wn == (w.0 as nat, w.1 as nat, w.2 as nat),
        decreases rows.len() - j,
    {
        let ghost t = fields@.take(j + 1);
        assert(t.drop_last() =~= fields@.take(j as int));
        assert(t.last() == fields@[j as int]);
        let ghost before = out@;
        let fresh = if j == 0 {
            true
        } else {
            !crate::text::same(sections[j - 1].as_str(), sections[j].as_str())
        };
        if j > 0 {
            assert(t[j - 1] == fields@[j - 1]);
        }
        if fresh {
            if sections[j].as_str().unicode_len() == 0 {
                append(&mut out, "\ntop level\n");
            } else {
                append(&mut out, "\n[");
                append(&mut out, sections[j].as_str());
                append(&mut out, "]\n");
            }
        }
        let ghost mid = out@;
        push_row(&mut out, &rows[j], w);
        proof {
            let sec = section_of(fields@[j as int].path@);
            if fresh {
                assert(mid =~= before + section_heading(sec));
            } else {
                assert(mid =~= before + Seq::<char>::empty());
            }
            assert(out@ =~= base + grouped_lines(t, app@, wn));
        }
        j = j + 1;
    }
    assert(fields@.take(j as int) =~= fields@);
    out
}

// ---------------------------------------------------------------------------
// --print-config

/// One line of the dump: key, value as shown, and where it came from.
pub open spec fn dump_row(values: Values, f: Field) -> (Seq<char>, Seq<char>, Seq<char>) {
    match values.entry_at(f.path@) {
        Some(e) => (
            field_toml(f),
            if f.secret {
                MASK@
            } else {
                e.text
            },
            origin_text(e.origin),
        ),
        None => (
            field_toml(f),
            "<unset>"@,
            match f.presence {
                Presence::Required => "required"@,
                _ => "optional"@,
            },
        ),
    }
}

pub open spec fn dump_rows(values: Values, fields: Seq<Field>) -> Seq<(Seq<char>, Seq<char>, Seq<char>)> {
    fields.map_values(|f: Field| dump_row(values, f))
}

/// The widest key and value, in bytes.
pub open spec fn dump_widths(rows: Seq<(Seq<char>, Seq<char>, Seq<char>)>) -> (nat, nat)
    decreases rows.len(),
{
    if rows.len() == 0 {
        (0, 0)
    } else {
        let w = dump_widths(rows.drop_last());
        (max_nat(w.0, byte_len(rows.last().0)), max_nat(w.1, byte_len(rows.last().1)))
    }
}

pub open spec fn dump_lines(rows: Seq<(Seq<char>, Seq<char>, Seq<char>)>, w: (nat, nat)) -> Seq<char>
    decreases rows.len(),
{
    if rows.len() == 0 {
        seq![]
    } else {
        let r = rows.last();
        dump_lines(rows.drop_last(), w) + pad_right(r.0, w.0) + " = "@ + pad_right(r.1, w.1) + "  "@
            + r.2 + "\n"@
    }
}

/// The first line: which file was read, or how to name one.
pub open spec fn file_line(app: Seq<char>, file: FileStatusV) -> Seq<char> {
    match file {
        FileStatusV::NotConfigured => "config file: none ("@ + CONFIG_FLAG@ + " or "@ + config_env_of(
            app,
        ) + " to set one)\n"@,
        FileStatusV::Read(p) => "config file: "@ + p + "\n"@,
    }
}

/// The whole `--print-config` text.
pub open spec fn print_config_text(values: Values) -> Seq<char> {
    let rows = dump_rows(values, values.view().fields);
    file_line(values.view().app, values.view().file) + dump_lines(rows, dump_widths(rows))
}

pub fn print_config(values: &Values) -> (r: String)
    requires
        values.wf(),
    ensures
        r@ == print_config_text(*values),
{
    let fields = values.fields();
    let ghost rows_spec = dump_rows(*values, fields@);
    let mut rows: Vec<(String, String, String)> = Vec::new();
    let mut i: usize = 0;
    while i < fields.len()
        invariant
            i <= fields.len(),
            fields@ == values.view().fields,
            values.wf(),
            rows_spec == dump_rows(*values, fields@),
            rows.len() == i,
            forall|j: int| 0 <= j < i ==> (#[trigger] rows@[j].0@, rows@[j].1@, rows@[j].2@)
                == rows_spec[j],
        decreases fields.len() - i,
    {
        let f = &fields[i];
        let key = f.toml();
        let row = match values.get(&f.path) {
            Some(entry) => {
                let shown = if f.secret {
                    owned(MASK)
                } else {
                    entry.text.clone()
                };
                (key, shown, entry.origin.to_string())
            },
            None => {
                let why = match f.presence {
                    Presence::Required => owned("required"),
                    _ => owned("optional"),
                };
                (key, owned("<unset>"), why)
            },
        };
        rows.push(row);
        i = i + 1;
    }
    let ghost rv = rows@.map_values(|r: (String, String, String)| (r.0@, r.1@, r.2@));
    assert(rv =~= rows_spec);
    let mut kw: usize = 0;
    let mut vw: usize = 0;
    let mut k: usize = 0;
    assert(rv.take(0) =~= Seq::<(Seq<char>, Seq<char>, Seq<char>)>::empty());
    while k < rows.len()
        invariant
            k <= rows.len(),
            rv == rows@.map_values(|r: (String, String, String)| (r.0@, r.1@, r.2@)),
            (kw as nat, vw as nat) == dump_widths(rv.take(k as int)),
        decreases rows.len() - k,
    {
        assert(rv.take(k + 1).drop_last() =~= rv.take(k as int));
        assert(rv.take(k + 1).last() == rv[k as int]);
        let a = bytes(rows[k].0.as_str());
        let b = bytes(rows[k].1.as_str());
        if kw < a {
            kw = a;
        }
        if vw < b {
            vw = b;
        }
        k = k + 1;
    }
    assert(rv.take(k as int) =~= rv);
    let mut out = match values.file() {
        crate::config::schema::FileStatus::NotConfigured => {
            let mut s = owned("config file: none (");
            append(&mut s, CONFIG_FLAG);
            append(&mut s, " or ");
            let name = config_env(values.app());
            append(&mut s, name.as_str());
            append(&mut s, " to set one)\n");
            s
        },
        crate::config::schema::FileStatus::Read(p) => {
            let mut s = owned("config file: ");
            append(&mut s, p.as_str());
            append(&mut s, "\n");
            s
        },
    };
    let ghost head = out@;
    let mut n: usize = 0;
    assert(rv.take(0) =~= Seq::<(Seq<char>, Seq<char>, Seq<char>)>::empty());
    while n < rows.len()
        invariant
            n <= rows.len(),
            rv == rows@.map_values(|r: (String, String, String)| (r.0@, r.1@, r.2@)),
            out@ == head + dump_lines(rv.take(n as int), (kw as nat, vw as nat)),
        decreases rows.len() - n,
    {
        assert(rv.take(n + 1).drop_last() =~= rv.take(n as int));
        assert(rv.take(n + 1).last() == rv[n as int]);
        let ghost before = out@;
        push_padded(&mut out, rows[n].0.as_str(), kw);
        append(&mut out, " = ");
        push_padded(&mut out, rows[n].1.as_str(), vw);
        append(&mut out, "  ");
        append(&mut out, rows[n].2.as_str());
        append(&mut out, "\n");
        assert(out@ =~= head + dump_lines(rv.take(n + 1), (kw as nat, vw as nat)));
        n = n + 1;
    }
    assert(rv.take(n as int) =~= rv);
    out
}

} // verus!
