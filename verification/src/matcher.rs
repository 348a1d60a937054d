//! Matching a token stream against a grammar.
//!
//! A help request is answered first. Else the tokens are scanned once from
//! left to right, and the free tokens are bound to the positional slots in
//! declaration order.
use vstd::prelude::*;
use crate::descriptor::{ArgumentDescriptor, DescriptorView};
use crate::grammar::{Grammar, GrammarView};
use crate::result::{
    ArgValue,
    Binding,
    Error,
    ErrorKind,
    ErrorView,
    MatchResult,
    Outcome,
    OutcomeView,
    ValueView,
};
use crate::scanner::{
    asks_for_help,
    help_requested,
    last_value,
    last_value_of,
    scan,
    scanned,
    tail_of,
    Hit,
    HitView,
    Scan,
    ScanView,
    Switch,
    SwitchView,
};
use crate::text::{view_opt, views, lemma_views_push};
use crate::usage::usage_text;

verus! {

/// The switches of a list of named arguments.
pub open spec fn switch_list(list: Seq<DescriptorView>, takes_value: bool) -> Seq<SwitchView> {
    list.map_values(|d: DescriptorView| SwitchView { long: d.name, short: d.short, takes_value })
}

/// The switch table of a grammar: the named options, which take a value,
/// followed by the flags, which take none.
pub open spec fn switches_of(g: GrammarView) -> Seq<SwitchView> {
    switch_list(g.options, true) + switch_list(g.flags, false)
}

/// The value of an argument that was not given: its default, if it has one.
pub open spec fn default_value(default: Option<Seq<char>>) -> ValueView {
    match default {
        Some(v) => ValueView::Scalar(v),
        None => ValueView::Absent,
    }
}

/// What follows the first `n` elements of `s`; nothing if `s` is shorter.
pub open spec fn rest_after(s: Seq<Seq<char>>, n: int) -> Seq<Seq<char>> {
    if n <= s.len() {
        s.skip(n)
    } else {
        Seq::empty()
    }
}

/// The bindings of the required positionals: the `i`-th takes the `i`-th
/// positional token.
pub open spec fn required_entries(g: GrammarView, positionals: Seq<Seq<char>>) -> Seq<
    (Seq<char>, ValueView),
> {
    Seq::new(g.required.len(), |i: int| (g.required[i].name, ValueView::Scalar(positionals[i])))
}

/// The bindings of the optional positionals: each takes the next positional
/// token after the required ones, or its default when the tokens are used up.
pub open spec fn optional_entries(g: GrammarView, positionals: Seq<Seq<char>>) -> Seq<
    (Seq<char>, ValueView),
> {
    Seq::new(
        g.optional.len(),
        |i: int|
            (
                g.optional[i].name,
                if g.required.len() + i < positionals.len() {
                    ValueView::Scalar(positionals[g.required.len() + i])
                } else {
                    default_value(g.optional[i].default)
                },
            ),
    )
}

/// The bindings of the named options: each takes the value of its last
/// occurrence, or its default when it does not occur.
pub open spec fn option_entries(g: GrammarView, hits: Seq<HitView>) -> Seq<(Seq<char>, ValueView)> {
    Seq::new(
        g.options.len(),
        |k: int|
            (
                g.options[k].name,
                match last_value(hits, k) {
                    Some(v) => ValueView::Scalar(v),
                    None => default_value(g.options[k].default),
                },
            ),
    )
}

/// The bindings of the flags: each is true exactly when it occurs.
pub open spec fn flag_entries(g: GrammarView, hits: Seq<HitView>) -> Seq<(Seq<char>, ValueView)> {
    Seq::new(
        g.flags.len(),
        |k: int|
            (g.flags[k].name, ValueView::Bool(last_value(hits, g.options.len() + k) is Some)),
    )
}

/// The binding of the collector, if the grammar has one: the positional
/// tokens that the required and optional positionals leave.
pub open spec fn collector_entries(g: GrammarView, positionals: Seq<Seq<char>>) -> Seq<
    (Seq<char>, ValueView),
> {
    match g.collector {
        Some(c) => seq![
            (
                c.descriptor.name,
                ValueView::Multi(
                    rest_after(positionals, (g.required.len() + g.optional.len()) as int),
                ),
            ),
        ],
        None => Seq::empty(),
    }
}

/// The binding of the trailing-extra slot, if the grammar has one: the
/// tokens after the separator.
pub open spec fn extra_entries(g: GrammarView, trailing: Seq<Seq<char>>) -> Seq<
    (Seq<char>, ValueView),
> {
    match g.extra {
        Some(d) => seq![(d.name, ValueView::Multi(trailing))],
        None => Seq::empty(),
    }
}

/// The tokens that go to the positional slots. With a trailing-extra slot
/// these are the free tokens before the separator; without one, the tokens
/// after the separator are positional too.
pub open spec fn positionals_of(g: GrammarView, free: Seq<Seq<char>>, trailing: Seq<Seq<char>>)
    -> Seq<Seq<char>> {
    if g.extra is Some {
        free
    } else {
        free + trailing
    }
}

/// The tokens that go to the trailing-extra slot.
pub open spec fn extras_of(g: GrammarView, trailing: Seq<Seq<char>>) -> Seq<Seq<char>> {
    if g.extra is Some {
        trailing
    } else {
        Seq::empty()
    }
}

/// The bindings of a match, in declaration order: required positionals,
/// optional positionals, named options, flags, collector, trailing extra.
pub open spec fn entries_of(
    g: GrammarView,
    hits: Seq<HitView>,
    positionals: Seq<Seq<char>>,
    extras: Seq<Seq<char>>,
) -> Seq<(Seq<char>, ValueView)> {
    required_entries(g, positionals) + optional_entries(g, positionals) + option_entries(g, hits)
        + flag_entries(g, hits) + collector_entries(g, positionals) + extra_entries(g, extras)
}

/// The outcome of binding a finished scan. A required positional without a
/// token is missing; the first such is named. Without a collector, a
/// positional token beyond the slots is unknown. A required collector that
/// gets no token is missing.
pub open spec fn bound(
    g: GrammarView,
    hits: Seq<HitView>,
    free: Seq<Seq<char>>,
    trailing: Seq<Seq<char>>,
) -> OutcomeView {
    let positionals = positionals_of(g, free, trailing);
    let slots = g.required.len() + g.optional.len();
    if positionals.len() < g.required.len() {
        OutcomeView::Failed(
            ErrorView {
                kind: ErrorKind::MissingRequiredArgument,
                subject: g.required[positionals.len() as int].name,
            },
        )
    } else if g.collector is None && positionals.len() > slots {
        OutcomeView::Failed(
            ErrorView { kind: ErrorKind::UnknownArgument, subject: positionals[slots as int] },
        )
    } else if g.collector is Some && g.collector->0.required && positionals.len() <= slots {
        OutcomeView::Failed(
            ErrorView {
                kind: ErrorKind::MissingRequiredArgument,
                subject: g.collector->0.descriptor.name,
            },
        )
    } else {
        OutcomeView::Matched(entries_of(g, hits, positionals, extras_of(g, trailing)))
    }
}

/// The outcome of matching `tokens` against `g`. A help request among the
/// tokens before the separator is answered with the usage text, whatever
/// else the tokens hold. Else the tokens are scanned: a token that answers to
/// no rule is unknown, an option without its value is missing its argument.
/// Else the scan's tokens are bound.
pub open spec fn matched(g: GrammarView, tokens: Seq<Seq<char>>) -> OutcomeView {
    if help_requested(tokens) {
        OutcomeView::HelpRequested(usage_text(g))
    } else {
        match scanned(switches_of(g), tokens) {
            ScanView::Unknown(token) => OutcomeView::Failed(
                ErrorView { kind: ErrorKind::UnknownArgument, subject: token },
            ),
            ScanView::MissingValue(k) => OutcomeView::Failed(
                ErrorView {
                    kind: ErrorKind::MissingRequiredArgument,
                    subject: switches_of(g)[k].long,
                },
            ),
            ScanView::Done { hits, free, trailing } => bound(g, hits, free, trailing),
        }
    }
}

/// Appends to `out` the switches of `list`.
fn push_switches(out: &mut Vec<Switch>, list: &Vec<ArgumentDescriptor>, takes_value: bool)
    ensures
        views(final(out)@) == views(old(out)@) + switch_list(views(list@), takes_value),
{
    let ghost before = views(out@);
    let mut i: usize = 0;
    while i < list.len()
        invariant
            i <= list@.len(),
            views(out@) == before + switch_list(views(list@).take(i as int), takes_value),
        decreases list@.len() - i,
    {
        let s = Switch { long: list[i].name.clone(), short: list[i].short, takes_value };
        proof {
            lemma_views_push(out@, s);
        }
        out.push(s);
        i += 1;
    }
}

/// The switch table of `grammar`.
pub fn switches_for(grammar: &Grammar) -> (r: Vec<Switch>)
    ensures
        views(r@) == switches_of(grammar@),
{
    let mut r: Vec<Switch> = Vec::new();
    push_switches(&mut r, &grammar.options, true);
    push_switches(&mut r, &grammar.flags, false);
    r
}

/// The value of an argument that was not given.
fn default_of(d: &ArgumentDescriptor) -> (r: ArgValue)
    ensures
        r@ == default_value(d@.default),
{
    match &d.default {
        Some(v) => ArgValue::Scalar(v.clone()),
        None => ArgValue::Absent,
    }
}

/// Binds the outcome of a finished scan to the slots of `grammar`.
pub fn bind(grammar: &Grammar, hits: &Vec<Hit>, free: Vec<String>, trailing: Vec<String>) -> (r:
    Outcome)
    ensures
        r@ == bound(grammar@, views(hits@), views(free@), views(trailing@)),
{
    let ghost g = grammar@;
    let ghost hv = views(hits@);
    let ghost pos = positionals_of(g, views(free@), views(trailing@));
    let ghost ext = extras_of(g, views(trailing@));
    let mut positionals = free;
    let mut extras = trailing;
    if grammar.extra.is_none() {
        positionals.append(&mut extras);
    }
    let count = positionals.len();
    let n_required = grammar.required.len();
    let n_optional = grammar.optional.len();
    if count < n_required {
        return Outcome::Failed(
            Error::new(ErrorKind::MissingRequiredArgument, grammar.required[count].name.clone()),
        );
    }
    let beyond = count - n_required > n_optional;
    match &grammar.collector {
        None => {
            if beyond {
                return Outcome::Failed(
                    Error::new(
                        ErrorKind::UnknownArgument,
                        positionals[n_required + n_optional].clone(),
                    ),
                );
            }
        },
        Some(c) => {
            if c.required && !beyond {
                return Outcome::Failed(
                    Error::new(ErrorKind::MissingRequiredArgument, c.descriptor.name.clone()),
                );
            }
        },
    }
    let mut entries: Vec<Binding> = Vec::new();
    let mut i: usize = 0;
    while i < n_required
        invariant
            i <= n_required == grammar.required@.len() <= count == pos.len(),
            g == grammar@,
            pos == views(positionals@),
            views(entries@) == required_entries(g, pos).take(i as int),
        decreases n_required - i,
    {
        let b = Binding {
            name: grammar.required[i].name.clone(),
            value: ArgValue::Scalar(positionals[i].clone()),
        };
        proof {
            lemma_views_push(entries@, b);
        }
        entries.push(b);
        i += 1;
    }
    let ghost head = views(entries@);
    i = 0;
    while i < n_optional
        invariant
            i <= n_optional == grammar.optional@.len(),
            n_required == grammar.required@.len() <= count == pos.len(),
            g == grammar@,
            pos == views(positionals@),
            views(entries@) == head + optional_entries(g, pos).take(i as int),
        decreases n_optional - i,
    {
        let value = if i < count - n_required {
            ArgValue::Scalar(positionals[n_required + i].clone())
        } else {
            default_of(&grammar.optional[i])
        };
        let b = Binding { name: grammar.optional[i].name.clone(), value };
        proof {
            lemma_views_push(entries@, b);
        }
        entries.push(b);
        i += 1;
    }
    let ghost head = views(entries@);
    let n_options = grammar.options.len();
    i = 0;
    while i < n_options
        invariant
            i <= n_options == grammar.options@.len(),
            g == grammar@,
            hv == views(hits@),
            views(entries@) == head + option_entries(g, hv).take(i as int),
        decreases n_options - i,
    {
        let value = match last_value_of(hits, i) {
            Some(v) => ArgValue::Scalar(v),
            None => default_of(&grammar.options[i]),
        };
        let b = Binding { name: grammar.options[i].name.clone(), value };
        proof {
            lemma_views_push(entries@, b);
        }
        entries.push(b);
        i += 1;
    }
    let ghost head = views(entries@);
    let n_flags = grammar.flags.len();
    i = 0;
    while i < n_flags
        invariant
            i <= n_flags == grammar.flags@.len(),
            n_options == grammar.options@.len(),
            g == grammar@,
            hv == views(hits@),
            views(entries@) == head + flag_entries(g, hv).take(i as int),
        decreases n_flags - i,
    {
        let given = hit_index(hits, n_options, i).is_some();
        let b = Binding { name: grammar.flags[i].name.clone(), value: ArgValue::Bool(given) };
        proof {
            lemma_views_push(entries@, b);
        }
        entries.push(b);
        i += 1;
    }
    match &grammar.collector {
        Some(c) => {
            let collected = if beyond {
                tail_of(&positionals, n_required + n_optional)
            } else {
                Vec::new()
            };
            assert(views(collected@) =~= rest_after(
                pos,
                (g.required.len() + g.optional.len()) as int,
            ));
            let b = Binding { name: c.descriptor.name.clone(), value: ArgValue::Multi(collected) };
            proof {
                lemma_views_push(entries@, b);
            }
            entries.push(b);
        },
        None => {},
    }
    match &grammar.extra {
        Some(d) => {
            let b = Binding { name: d.name.clone(), value: ArgValue::Multi(extras) };
            proof {
                lemma_views_push(entries@, b);
            }
            entries.push(b);
        },
        None => {},
    }
    assert(views(entries@) =~= entries_of(g, hv, pos, ext));
    Outcome::Matched(MatchResult { entries })
}

/// The value of the last hit of the switch at `base + k`, where the sum is
/// taken without regard to the machine word.
fn hit_index(hits: &Vec<Hit>, base: usize, k: usize) -> (r: Option<String>)
    ensures
        view_opt(r) == last_value(views(hits@), base + k),
{
    match base.checked_add(k) {
        Some(index) => last_value_of(hits, index),
        None => {
            proof {
                lemma_no_hit_beyond(views(hits@), base + k);
            }
            None
        },
    }
}

/// No hit names a switch beyond the machine word.
proof fn lemma_no_hit_beyond(hits: Seq<HitView>, k: int)
    requires
        k > usize::MAX,
        forall|j: int| 0 <= j < hits.len() ==> hits[j].switch <= usize::MAX,
    ensures
        last_value(hits, k) is None,
    decreases hits.len(),
{
    if hits.len() > 0 {
        lemma_no_hit_beyond(hits.drop_last(), k);
    }
}

/// Matches `tokens` against `grammar`.
pub fn match_tokens(grammar: &Grammar, tokens: &Vec<String>) -> (r: Outcome)
    ensures
        r@ == matched(grammar@, views(tokens@)),
{
    if asks_for_help(tokens) {
        return Outcome::HelpRequested(grammar.usage());
    }
    let switches = switches_for(grammar);
    match scan(&switches, tokens) {
        Scan::Unknown(token) => Outcome::Failed(Error::new(ErrorKind::UnknownArgument, token)),
        Scan::MissingValue(k) => Outcome::Failed(
            Error::new(ErrorKind::MissingRequiredArgument, switches[k].long.clone()),
        ),
        Scan::Done { hits, free, trailing } => bind(grammar, &hits, free, trailing),
    }
}

/// A match as a result: the bindings of a match, or the error that a failed
/// match or a help request is reported with. A help request carries the
/// usage text as its subject.
pub open spec fn as_result(outcome: OutcomeView) -> Result<Seq<(Seq<char>, ValueView)>, ErrorView> {
    match outcome {
        OutcomeView::Matched(entries) => Ok(entries),
        OutcomeView::HelpRequested(text) => Err(
            ErrorView { kind: ErrorKind::HelpRequested, subject: text },
        ),
        OutcomeView::Failed(e) => Err(e),
    }
}

/// Matches `input` against `grammar`; a help request comes back the way a
/// failure does.
pub fn parse_args(grammar: &Grammar, input: &Vec<String>) -> (r: Result<MatchResult, Error>)
    ensures
        match r {
            Ok(m) => as_result(matched(grammar@, views(input@))) == Ok::<
                Seq<(Seq<char>, ValueView)>,
                ErrorView,
            >(m@),
            Err(e) => as_result(matched(grammar@, views(input@))) == Err::<
                Seq<(Seq<char>, ValueView)>,
                ErrorView,
            >(e@),
        },
{
    match match_tokens(grammar, input) {
        Outcome::Matched(m) => Ok(m),
        Outcome::HelpRequested(text) => Err(Error::new(ErrorKind::HelpRequested, text)),
        Outcome::Failed(e) => Err(e),
    }
}

} // verus!
