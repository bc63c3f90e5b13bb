//! The argv grammar: `--k=v`, `--k v`, bare boolean `--k`, `--help`,
//! `--print-config`, `--config PATH`; anything else refuses.

use vstd::prelude::*;

use crate::config::path::Path;
use crate::config::refusal::{refusal_d, Refusal, RefusalV};
use crate::config::schema::{field_flag, Field, Kind};
use crate::text::{
    append, join, joined, opt_view, owned, same, split_at_char, split_once, starts_with, views,
};

verus! {

pub const CONFIG_FLAG: &'static str = "--config";

pub const HELP_FLAG: &'static str = "--help";

pub const HELP_FLAG_SHORT: &'static str = "-h";

pub const PRINT_CONFIG_FLAG: &'static str = "--print-config";

/// The spec-side picture of `Parsed`.
pub struct ParsedV {
    pub help: bool,
    pub print_config: bool,
    pub config: Option<Seq<char>>,
    pub values: Seq<(Seq<Seq<char>>, Seq<char>, Seq<char>)>,
}

/// What the argv scan has gathered so far.
pub struct ScanV {
    pub parsed: ParsedV,
    pub unknown: Seq<Seq<char>>,
}

#[derive(Debug)]
pub struct Parsed {
    pub help: bool,
    pub print_config: bool,
    pub config: Option<String>,
    /// `(field, text, flag as written)` in argv order.
    pub values: Vec<(Path, String, String)>,
}

impl View for Parsed {
    type V = ParsedV;

    open spec fn view(&self) -> ParsedV {
        ParsedV {
            help: self.help,
            print_config: self.print_config,
            config: opt_view(self.config),
            values: self.values@.map_values(|v: (Path, String, String)| (v.0@, v.1@, v.2@)),
        }
    }
}

/// The field a flag names: the last one registered under it.
pub open spec fn flag_lookup(fields: Seq<Field>, name: Seq<char>) -> Option<int>
    decreases fields.len(),
{
    if fields.len() == 0 {
        None
    } else if field_flag(fields.last()) == name {
        Some(fields.len() - 1)
    } else {
        flag_lookup(fields.drop_last(), name)
    }
}

/// A token split into its flag name and inline value: `--k=v` only when the
/// part before the first `=` starts with `--`.
pub open spec fn split_token(token: Seq<char>) -> (Seq<char>, Option<Seq<char>>) {
    match split_once(token, '=') {
        Some((name, value)) => if "--"@.is_prefix_of(name) {
            (name, Some(value))
        } else {
            (token, None)
        },
        None => (token, None),
    }
}

/// The refusal for a flag that needs a value and got none.
pub open spec fn no_value(name: Seq<char>) -> RefusalV {
    refusal_d(
        name,
        seq![],
        "a value: "@ + name + "=<value> or "@ + name + " <value>"@,
        "flag given without a value"@,
    )
}

/// A flag's value: inline, else the next token unless it starts with `--`.
/// Gives the value and the index after it.
pub open spec fn take_value_spec(
    name: Seq<char>,
    inline: Option<Seq<char>>,
    args: Seq<Seq<char>>,
    i: int,
) -> Result<(Seq<char>, int), RefusalV> {
    match inline {
        Some(v) => Ok((v, i)),
        None => if 0 <= i < args.len() && !"--"@.is_prefix_of(args[i]) {
            Ok((args[i], i + 1))
        } else {
            Err(no_value(name))
        },
    }
}

/// The scan of `args` from token `i` on.
pub open spec fn scan(fields: Seq<Field>, args: Seq<Seq<char>>, i: int, st: ScanV) -> Result<
    ScanV,
    RefusalV,
>
    decreases args.len() - i,
{
    if i < 0 || i >= args.len() {
        Ok(st)
    } else {
        let token = args[i];
        let name = split_token(token).0;
        let inline = split_token(token).1;
        if name == HELP_FLAG@ || name == HELP_FLAG_SHORT@ {
            scan(fields, args, i + 1, ScanV { parsed: ParsedV { help: true, ..st.parsed }, ..st })
        } else if name == PRINT_CONFIG_FLAG@ {
            scan(
                fields,
                args,
                i + 1,
                ScanV { parsed: ParsedV { print_config: true, ..st.parsed }, ..st },
            )
        } else if name == CONFIG_FLAG@ {
            match take_value_spec(name, inline, args, i + 1) {
                Err(r) => Err(r),
                Ok((v, j)) => if j > i {
                    scan(
                        fields,
                        args,
                        j,
                        ScanV { parsed: ParsedV { config: Some(v), ..st.parsed }, ..st },
                    )
                } else {
                    Ok(st)
                },
            }
        } else {
            match flag_lookup(fields, name) {
                Some(k) => if fields[k].kind == Kind::Bool {
                    let text = match inline {
                        Some(v) => v,
                        None => "true"@,
                    };
                    scan(
                        fields,
                        args,
                        i + 1,
                        ScanV {
                            parsed: ParsedV {
                                values: st.parsed.values.push((fields[k].path@, text, name)),
                                ..st.parsed
                            },
                            ..st
                        },
                    )
                } else {
                    match take_value_spec(name, inline, args, i + 1) {
                        Err(r) => Err(r),
                        Ok((v, j)) => if j > i {
                            scan(
                                fields,
                                args,
                                j,
                                ScanV {
                                    parsed: ParsedV {
                                        values: st.parsed.values.push((fields[k].path@, v, name)),
                                        ..st.parsed
                                    },
                                    ..st
                                },
                            )
                        } else {
                            Ok(st)
                        },
                    }
                },
                None => scan(fields, args, i + 1, ScanV { unknown: st.unknown.push(token), ..st }),
            }
        }
    }
}

/// The scan's starting state.
pub open spec fn scan_start() -> ScanV {
    ScanV {
        parsed: ParsedV { help: false, print_config: false, config: None, values: seq![] },
        unknown: seq![],
    }
}

/// The refusal for unknown arguments.
pub open spec fn unknown_refusal(unknown: Seq<Seq<char>>) -> RefusalV {
    refusal_d(
        "arguments"@,
        join(unknown, " "@),
        "flags listed by "@ + HELP_FLAG@,
        "unknown: "@ + join(unknown, ", "@),
    )
}

/// What `parse` answers for `args` under `fields`.
pub open spec fn parse_spec(fields: Seq<Field>, args: Seq<Seq<char>>) -> Result<ParsedV, RefusalV> {
    match scan(fields, args, 0, scan_start()) {
        Err(r) => Err(r),
        Ok(st) => if st.parsed.help {
            Ok(st.parsed)
        } else if st.unknown.len() > 0 {
            Err(unknown_refusal(st.unknown))
        } else {
            Ok(st.parsed)
        },
    }
}

fn lookup(fields: &Vec<Field>, name: &str) -> (r: Option<usize>)
    ensures
        match r {
            Some(k) => flag_lookup(fields@, name@) == Some(k as int) && k < fields.len(),
            None => flag_lookup(fields@, name@) is None,
        },
{
    let mut i: usize = fields.len();
    assert(fields@.take(i as int) =~= fields@);
    while i > 0
        invariant
            i <= fields.len(),
            flag_lookup(fields@, name@) == flag_lookup(fields@.take(i as int), name@),
        decreases i,
    {
        let f = fields[i - 1].flag();
        if same(f.as_str(), name) {
            assert(fields@.take(i as int).last() == fields@[i - 1]);
            return Some(i - 1);
        }
        assert(fields@.take(i as int).drop_last() =~= fields@.take(i - 1));
        i = i - 1;
    }
    assert(fields@.take(0) =~= Seq::<Field>::empty());
    None
}

fn split_token_exec(token: &String) -> (r: (String, Option<String>))
    ensures
        r.0@ == split_token(token@).0,
        match split_token(token@).1 {
            Some(v) => r.1 matches Some(x) && x@ == v,
            None => r.1 is None,
        },
{
    match split_at_char(token.as_str(), '=') {
        Some((name, value)) => {
            if starts_with(name.as_str(), "--") {
                (name, Some(value))
            } else {
                (token.clone(), None)
            }
        },
        None => (token.clone(), None),
    }
}

fn take_value(name: &String, inline: Option<String>, args: &[String], i: usize) -> (r: Result<
    (String, usize),
    Refusal,
>)
    requires
        i <= args.len(),
    ensures
        match r {
            Ok((x, k)) => take_value_spec(name@, opt_view(inline), views(args@), i as int) == Ok::<
                (Seq<char>, int),
                RefusalV,
            >((x@, k as int)),
            Err(e) => take_value_spec(name@, opt_view(inline), views(args@), i as int) == Err::<
                (Seq<char>, int),
                RefusalV,
            >(e@),
        },
        r matches Ok((x, k)) ==> k <= args.len(),
{
    match &inline {
        Some(v) => Ok((v.clone(), i)),
        None => {
            if i < args.len() {
                assert(views(args@)[i as int] == args@[i as int]@);
            }
            if i < args.len() && !starts_with(args[i].as_str(), "--") {
                Ok((args[i].clone(), i + 1))
            } else {
                let mut accepted = owned("a value: ");
                append(&mut accepted, name.as_str());
                append(&mut accepted, "=<value> or ");
                append(&mut accepted, name.as_str());
                append(&mut accepted, " <value>");
                let r = Refusal::new(name, "", accepted).with_detail("flag given without a value");
                proof {
                    reveal_strlit("");
                    assert(r@.value =~= Seq::<char>::empty());
                    assert(r@.accepted =~= "a value: "@ + name@ + "=<value> or "@ + name@ + " <value>"@);
                    assert(r@ == no_value(name@));
                }
                Err(r)
            }
        },
    }
}

/// Tokenises argv against the fields' flags.
pub fn parse(fields: &Vec<Field>, args: &[String]) -> (r: Result<Parsed, Refusal>)
    ensures
        match r {
            Ok(x) => parse_spec(fields@, views(args@)) == Ok::<ParsedV, RefusalV>(x@),
            Err(x) => parse_spec(fields@, views(args@)) == Err::<ParsedV, RefusalV>(x@),
        },
{
    let ghost argv = views(args@);
    let mut parsed = Parsed { help: false, print_config: false, config: None, values: Vec::new() };
    let mut unknown: Vec<String> = Vec::new();
    let mut i: usize = 0;
    assert(parsed@.values =~= Seq::<(Seq<Seq<char>>, Seq<char>, Seq<char>)>::empty());
    assert(views(unknown@) =~= Seq::<Seq<char>>::empty());
    assert(parsed@ == scan_start().parsed);
    while i < args.len()
        invariant
            i <= args.len(),
            argv == views(args@),
            scan(fields@, argv, 0, scan_start()) == scan(
                fields@,
                argv,
                i as int,
                ScanV { parsed: parsed@, unknown: views(unknown@) },
            ),
        decreases args.len() - i,
    {
        let ghost st = ScanV { parsed: parsed@, unknown: views(unknown@) };
        let token = &args[i];
        assert(argv[i as int] == token@);
        let (name, inline) = split_token_exec(token);
        i = i + 1;
        if same(name.as_str(), HELP_FLAG) || same(name.as_str(), HELP_FLAG_SHORT) {
            parsed.help = true;
            assert(parsed@ =~= ParsedV { help: true, ..st.parsed });
        } else if same(name.as_str(), PRINT_CONFIG_FLAG) {
            parsed.print_config = true;
            assert(parsed@ =~= ParsedV { print_config: true, ..st.parsed });
        } else if same(name.as_str(), CONFIG_FLAG) {
            match take_value(&name, inline, args, i) {
                Ok((value, next)) => {
                    parsed.config = Some(value);
                    i = next;
                    assert(parsed@ =~= ParsedV { config: Some(value@), ..st.parsed });
                },
                Err(r) => {
                    return Err(r);
                },
            }
        } else {
            match lookup(fields, name.as_str()) {
                Some(k) => {
                    if fields[k].kind == Kind::Bool {
                        let text = match inline {
                            Some(v) => v,
                            None => owned("true"),
                        };
                        let ghost before = parsed.values@;
                        let ghost item = (fields@[k as int].path@, text@, name@);
                        parsed.values.push((fields[k].path.duplicate(), text, name));
                        assert(parsed@.values =~= st.parsed.values.push(item));
                        assert(parsed@ =~= ParsedV {
                            values: st.parsed.values.push(item),
                            ..st.parsed
                        });
                    } else {
                        match take_value(&name, inline, args, i) {
                            Ok((value, next)) => {
                                let ghost item = (fields@[k as int].path@, value@, name@);
                                parsed.values.push((fields[k].path.duplicate(), value, name));
                                i = next;
                                assert(parsed@.values =~= st.parsed.values.push(item));
                                assert(parsed@ =~= ParsedV {
                                    values: st.parsed.values.push(item),
                                    ..st.parsed
                                });
                            },
                            Err(r) => {
                                return Err(r);
                            },
                        }
                    }
                },
                None => {
                    let ghost before = unknown@;
                    unknown.push(token.clone());
                    assert(views(unknown@) =~= views(before).push(token@));
                },
            }
        }
    }
    let ghost fin = ScanV { parsed: parsed@, unknown: views(unknown@) };
    assert(scan(fields@, argv, i as int, fin) == Ok::<ScanV, RefusalV>(fin));
    if parsed.help {
        return Ok(parsed);
    }
    if unknown.len() > 0 {
        let listed = joined(&unknown, " ");
        let mut accepted = owned("flags listed by ");
        append(&mut accepted, HELP_FLAG);
        let mut detail = owned("unknown: ");
        let commas = joined(&unknown, ", ");
        append(&mut detail, commas.as_str());
        return Err(Refusal::new("arguments", listed, accepted).with_detail(detail));
    }
    Ok(parsed)
}

} // verus!
