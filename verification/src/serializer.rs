//! Writing a match result as shell assignments, one line for each argument
//! of the grammar.
use vstd::prelude::*;
use crate::descriptor::{ArgumentDescriptor, ArgumentKind, DescriptorView};
use crate::grammar::{Grammar, GrammarView};
use crate::result::{lookup, ArgValue, MatchResult, ValueView};
use crate::text::{join, joined, quote, quoted, sanitize, sanitized, views, lemma_views_push};

verus! {

/// The text of a scalar slot's value: the value if it has one, else nothing.
pub open spec fn scalar_text(v: ValueView) -> Seq<char> {
    match v {
        ValueView::Scalar(s) => s,
        _ => Seq::empty(),
    }
}

/// The text of a flag's value: `1` if the flag is set, else nothing.
pub open spec fn flag_text(v: ValueView) -> Seq<char> {
    if v == ValueView::Bool(true) {
        "1"@
    } else {
        Seq::empty()
    }
}

/// The values of a collecting slot: those captured, none if nothing was.
pub open spec fn multi_values(v: ValueView) -> Seq<Seq<char>> {
    match v {
        ValueView::Multi(values) => values,
        _ => Seq::empty(),
    }
}

/// Each value between single quotes.
pub open spec fn quoted_all(values: Seq<Seq<char>>) -> Seq<Seq<char>> {
    values.map_values(|v: Seq<char>| quoted(v))
}

/// The right-hand side of the assignment for an argument of kind `kind`
/// bound to `v`: a quoted value for a positional or a named option, `'1'` or
/// `''` for a flag, a parenthesised list of quoted values for a collector or
/// the trailing-extra slot.
pub open spec fn assigned_text(kind: ArgumentKind, v: ValueView) -> Seq<char> {
    match kind {
        ArgumentKind::RequiredPositional
        | ArgumentKind::OptionalPositional
        | ArgumentKind::NamedOption => quoted(scalar_text(v)),
        ArgumentKind::Flag => quoted(flag_text(v)),
        ArgumentKind::CollectOptional
        | ArgumentKind::CollectRequired
        | ArgumentKind::TrailingExtra => "("@ + joined(quoted_all(multi_values(v)), " "@) + ")"@,
    }
}

/// The assignment line for the argument `d` of kind `kind`: the prefix, the
/// name with hyphens turned to underscores, `=`, and the value that
/// `entries` binds to the name.
pub open spec fn line_for(
    d: DescriptorView,
    kind: ArgumentKind,
    entries: Seq<(Seq<char>, ValueView)>,
    prefix: Seq<char>,
) -> Seq<char> {
    prefix + sanitized(d.name) + "="@ + assigned_text(kind, lookup(entries, d.name))
}

/// The assignment lines for a list of arguments of one kind.
pub open spec fn lines_for(
    list: Seq<DescriptorView>,
    kind: ArgumentKind,
    entries: Seq<(Seq<char>, ValueView)>,
    prefix: Seq<char>,
) -> Seq<Seq<char>> {
    list.map_values(|d: DescriptorView| line_for(d, kind, entries, prefix))
}

/// The assignment lines for the arguments that hold one value: required
/// positionals, optional positionals and named options, in this order.
pub open spec fn value_lines(
    g: GrammarView,
    entries: Seq<(Seq<char>, ValueView)>,
    prefix: Seq<char>,
) -> Seq<Seq<char>> {
    lines_for(g.required, ArgumentKind::RequiredPositional, entries, prefix) + lines_for(
        g.optional,
        ArgumentKind::OptionalPositional,
        entries,
        prefix,
    ) + lines_for(g.options, ArgumentKind::NamedOption, entries, prefix)
}

/// The assignment lines for the flags.
pub open spec fn flag_lines(
    g: GrammarView,
    entries: Seq<(Seq<char>, ValueView)>,
    prefix: Seq<char>,
) -> Seq<Seq<char>> {
    lines_for(g.flags, ArgumentKind::Flag, entries, prefix)
}

/// The assignment lines for a grammar, in declaration order: required
/// positionals, optional positionals, named options, flags, collector,
/// trailing extra.
pub open spec fn serialized(
    g: GrammarView,
    entries: Seq<(Seq<char>, ValueView)>,
    prefix: Seq<char>,
) -> Seq<Seq<char>> {
    value_lines(g, entries, prefix) + flag_lines(g, entries, prefix) + lines_for(
        g.collector_list(),
        g.collector_kind(),
        entries,
        prefix,
    ) + lines_for(g.extra_list(), ArgumentKind::TrailingExtra, entries, prefix)
}

/// The output text: the assignment lines joined by newlines.
pub open spec fn rendered(g: GrammarView, entries: Seq<(Seq<char>, ValueView)>, prefix: Seq<char>)
    -> Seq<char> {
    joined(serialized(g, entries, prefix), "\n"@)
}

/// The values of `values`, each between single quotes.
fn quote_all(values: &Vec<String>) -> (r: Vec<String>)
    ensures
        views(r@) == quoted_all(views(values@)),
{
    let mut r: Vec<String> = Vec::new();
    let mut i: usize = 0;
    while i < values.len()
        invariant
            i <= values@.len(),
            views(r@) == quoted_all(views(values@).take(i as int)),
        decreases values@.len() - i,
    {
        let q = quote(values[i].as_str());
        proof {
            lemma_views_push(r@, q);
        }
        r.push(q);
        i += 1;
    }
    r
}

/// The right-hand side of the assignment for an argument of kind `kind`
/// whose binding is `value`; `None` stands for a name without a binding.
fn assigned(kind: ArgumentKind, value: Option<&ArgValue>) -> (r: String)
    ensures
        r@ == assigned_text(
            kind,
            match value {
                Some(v) => v@,
                None => ValueView::Absent,
            },
        ),
{
    match kind {
        ArgumentKind::RequiredPositional
        | ArgumentKind::OptionalPositional
        | ArgumentKind::NamedOption => {
            match value {
                Some(ArgValue::Scalar(s)) => quote(s.as_str()),
                _ => {
                    let r = quote("");
                    assert(""@ =~= Seq::<char>::empty()) by {
                        reveal_strlit("");
                    }
                    r
                },
            }
        },
        ArgumentKind::Flag => {
            match value {
                Some(ArgValue::Bool(true)) => quote("1"),
                _ => {
                    let r = quote("");
                    assert(""@ =~= Seq::<char>::empty()) by {
                        reveal_strlit("");
                    }
                    r
                },
            }
        },
        ArgumentKind::CollectOptional
        | ArgumentKind::CollectRequired
        | ArgumentKind::TrailingExtra => {
            let list = match value {
                Some(ArgValue::Multi(values)) => join(&quote_all(values), " "),
                _ => {
                    let none: Vec<String> = Vec::new();
                    join(&none, " ")
                },
            };
            let mut r = String::new();
            r.append("(");
            r.append(list.as_str());
            r.append(")");
            r
        },
    }
}

/// The assignment line for one argument.
fn line_of(d: &ArgumentDescriptor, kind: ArgumentKind, result: &MatchResult, prefix: &str) -> (r:
    String)
    ensures
        r@ == line_for(d@, kind, result@, prefix@),
{
    let value = result.get(d.name.as_str());
    let mut r = String::new();
    r.append(prefix);
    r.append(sanitize(d.name.as_str()).as_str());
    r.append("=");
    r.append(assigned(kind, value).as_str());
    r
}

/// Appends to `out` the assignment lines of `list`.
fn push_lines(
    out: &mut Vec<String>,
    list: &Vec<ArgumentDescriptor>,
    kind: ArgumentKind,
    result: &MatchResult,
    prefix: &str,
)
    ensures
        views(final(out)@) == views(old(out)@) + lines_for(views(list@), kind, result@, prefix@),
{
    let ghost before = views(out@);
    let mut i: usize = 0;
    while i < list.len()
        invariant
            i <= list@.len(),
            views(out@) == before + lines_for(
                views(list@).take(i as int),
                kind,
                result@,
                prefix@,
            ),
        decreases list@.len() - i,
    {
        let line = line_of(&list[i], kind, result, prefix);
        proof {
            lemma_views_push(out@, line);
        }
        out.push(line);
        i += 1;
    }
}

/// The assignment lines for the arguments of `grammar` that hold one value:
/// required positionals, optional positionals and named options.
pub fn output_values(grammar: &Grammar, result: &MatchResult, prefix: &str) -> (lines: Vec<String>)
    ensures
        views(lines@) == value_lines(grammar@, result@, prefix@),
{
    let mut lines: Vec<String> = Vec::new();
    push_lines(&mut lines, &grammar.required, ArgumentKind::RequiredPositional, result, prefix);
    push_lines(&mut lines, &grammar.optional, ArgumentKind::OptionalPositional, result, prefix);
    push_lines(&mut lines, &grammar.options, ArgumentKind::NamedOption, result, prefix);
    lines
}

/// The assignment lines for the flags of `grammar`.
pub fn output_flags(grammar: &Grammar, result: &MatchResult, prefix: &str) -> (lines: Vec<String>)
    ensures
        views(lines@) == flag_lines(grammar@, result@, prefix@),
{
    let mut lines: Vec<String> = Vec::new();
    push_lines(&mut lines, &grammar.flags, ArgumentKind::Flag, result, prefix);
    lines
}

/// The assignment lines for the arguments of `grammar`, with the values that
/// `result` binds to their names. A name without a binding is written as an
/// absent value.
pub fn serialize(grammar: &Grammar, result: &MatchResult, prefix: &str) -> (lines: Vec<String>)
    ensures
        views(lines@) == serialized(grammar@, result@, prefix@),
{
    let mut lines = output_values(grammar, result, prefix);
    let mut flags = output_flags(grammar, result, prefix);
    lines.append(&mut flags);
    match &grammar.collector {
        Some(c) => {
            let line = line_of(&c.descriptor, grammar.collector_kind(), result, prefix);
            lines.push(line);
        },
        None => {},
    }
    match &grammar.extra {
        Some(d) => {
            let line = line_of(d, ArgumentKind::TrailingExtra, result, prefix);
            lines.push(line);
        },
        None => {},
    }
    lines
}

/// The output text for a match: the assignment lines joined by newlines.
pub fn render(grammar: &Grammar, result: &MatchResult, prefix: &str) -> (text: String)
    ensures
        text@ == rendered(grammar@, result@, prefix@),
{
    join(&serialize(grammar, result, prefix), "\n")
}

} // verus!
