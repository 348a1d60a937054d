//! What holds of every match: required positionals are bound, and a flag is
//! set exactly when it is given.
use vstd::prelude::*;
use crate::descriptor::DescriptorView;
use crate::grammar::{aliases_of, GrammarView};
use crate::matcher::{
    entries_of,
    extras_of,
    flag_entries,
    matched,
    option_entries,
    optional_entries,
    positionals_of,
    required_entries,
    switches_of,
};
use crate::result::{lemma_position_from, lookup, position_from, ValueView};
use crate::scanner::{
    answers,
    classify,
    find_switch,
    last_value,
    lemma_find_from,
    lemma_separator_from,
    scan_from,
    scanned,
    separator_from,
    separator_index,
    HitView,
    SwitchView,
    TokenClass,
};

verus! {

/// The token that addresses an argument by its name: `--name`.
pub open spec fn long_token(name: Seq<char>) -> Seq<char> {
    seq!['-', '-'] + name
}

/// The token that addresses an argument by its short alias: `-c`.
pub open spec fn short_token(c: char) -> Seq<char> {
    seq!['-', c]
}

/// Whether `token` is the long or the short token of `d`.
pub open spec fn addresses(d: DescriptorView, token: Seq<char>) -> bool {
    token == long_token(d.name) || (d.short is Some && token == short_token(d.short->0))
}

/// Whether the flag is given: its long or its short token stands among the
/// tokens before the separator.
pub open spec fn flag_given(d: DescriptorView, tokens: Seq<Seq<char>>) -> bool {
    exists|i: int| 0 <= i < separator_index(tokens) && addresses(d, #[trigger] tokens[i])
}

/// Whether the name of the `k`-th flag is the name of no argument declared
/// before it: no positional, no named option, no earlier flag.
pub open spec fn fresh_flag_name(g: GrammarView, k: int) -> bool {
    let name = g.flags[k].name;
    &&& forall|i: int| 0 <= i < g.required.len() ==> (#[trigger] g.required[i]).name != name
    &&& forall|i: int| 0 <= i < g.optional.len() ==> (#[trigger] g.optional[i]).name != name
    &&& forall|i: int| 0 <= i < g.options.len() ==> (#[trigger] g.options[i]).name != name
    &&& forall|i: int| 0 <= i < k ==> (#[trigger] g.flags[i]).name != name
}

/// A hit of switch `k` is the last value of `k` after it is pushed; any other
/// hit leaves the last value of `k` as it was.
proof fn lemma_last_value_push(hits: Seq<HitView>, h: HitView, k: int)
    ensures
        last_value(hits.push(h), k) is Some <==> h.switch == k || last_value(hits, k) is Some,
{
    assert(hits.push(h).last() == h);
    assert(hits.push(h).drop_last() =~= hits);
}

/// Whether the switch table resolves the `j`-th token to switch `k`.
pub open spec fn resolves(switches: Seq<SwitchView>, tokens: Seq<Seq<char>>, j: int, k: int)
    -> bool {
    find_switch(switches, classify(tokens[j])) == Some(k)
}

/// Whether the switch table resolves a token from `lo` up to `hi` to switch
/// `k`.
pub open spec fn resolved_between(
    switches: Seq<SwitchView>,
    tokens: Seq<Seq<char>>,
    lo: int,
    hi: int,
    k: int,
) -> bool {
    exists|j: int| lo <= j < hi && resolves(switches, tokens, j, k)
}

/// A range whose first token does not resolve to `k` resolves to `k` exactly
/// when the range without that token does.
proof fn lemma_resolved_skip(
    switches: Seq<SwitchView>,
    tokens: Seq<Seq<char>>,
    lo: int,
    hi: int,
    k: int,
)
    requires
        !resolves(switches, tokens, lo, k),
    ensures
        resolved_between(switches, tokens, lo, hi, k) <==> resolved_between(
            switches,
            tokens,
            lo + 1,
            hi,
            k,
        ),
{
    if resolved_between(switches, tokens, lo, hi, k) {
        let j = choose|j: int| lo <= j < hi && resolves(switches, tokens, j, k);
        assert(lo + 1 <= j < hi && resolves(switches, tokens, j, k));
    }
    if resolved_between(switches, tokens, lo + 1, hi, k) {
        let j = choose|j: int| lo + 1 <= j < hi && resolves(switches, tokens, j, k);
        assert(lo <= j < hi && resolves(switches, tokens, j, k));
    }
}

/// A plain token resolves to no switch.
proof fn lemma_plain_resolves_nothing(
    switches: Seq<SwitchView>,
    tokens: Seq<Seq<char>>,
    j: int,
    k: int,
)
    requires
        classify(tokens[j]) == TokenClass::Plain,
    ensures
        !resolves(switches, tokens, j, k),
{
    lemma_find_from(switches, TokenClass::Plain, 0);
}

/// In a finished scan a switch was hit exactly when it was hit before the
/// scan went on from `i`, or a token from `i` up to the separator resolves
/// to it.
proof fn lemma_scan_hits(
    switches: Seq<SwitchView>,
    tokens: Seq<Seq<char>>,
    i: int,
    hits: Seq<HitView>,
    free: Seq<Seq<char>>,
    k: int,
)
    requires
        0 <= i <= tokens.len(),
        scan_from(switches, tokens, i, hits, free) is Done,
    ensures
        last_value(scan_from(switches, tokens, i, hits, free)->hits, k) is Some <==> (
        last_value(hits, k) is Some || resolved_between(
            switches,
            tokens,
            i,
            separator_from(tokens, i),
            k,
        )),
    decreases tokens.len() - i,
{
    let end = separator_from(tokens, i);
    lemma_separator_from(tokens, i);
    if i < tokens.len() {
        let class = classify(tokens[i]);
        lemma_separator_from(tokens, i + 1);
        if class == TokenClass::Plain {
            // A free token: it resolves to no switch.
            lemma_scan_hits(switches, tokens, i + 1, hits, free.push(tokens[i]), k);
            lemma_plain_resolves_nothing(switches, tokens, i, k);
            lemma_resolved_skip(switches, tokens, i, end, k);
        } else if class != TokenClass::Separator {
            lemma_find_from(switches, class, 0);
            match find_switch(switches, class) {
                None => {},
                Some(s) => {
                    if !switches[s].takes_value {
                        // A switch without a value: the scan goes on behind it.
                        let h = HitView { switch: s, value: Seq::empty() };
                        lemma_scan_hits(switches, tokens, i + 1, hits.push(h), free, k);
                        lemma_last_value_push(hits, h, k);
                        if s == k {
                            assert(resolves(switches, tokens, i, k));
                        } else {
                            lemma_resolved_skip(switches, tokens, i, end, k);
                        }
                    } else if i + 1 < tokens.len() && classify(tokens[i + 1])
                        == TokenClass::Plain {
                        // A switch with its value: the value resolves to no switch.
                        let h = HitView { switch: s, value: tokens[i + 1] };
                        lemma_scan_hits(switches, tokens, i + 2, hits.push(h), free, k);
                        lemma_last_value_push(hits, h, k);
                        assert(separator_from(tokens, i + 1) == separator_from(tokens, i + 2));
                        lemma_plain_resolves_nothing(switches, tokens, i + 1, k);
                        lemma_resolved_skip(switches, tokens, i + 1, end, k);
                        if s == k {
                            assert(resolves(switches, tokens, i, k));
                        } else {
                            lemma_resolved_skip(switches, tokens, i, end, k);
                        }
                    }
                },
            }
        }
    }
}

/// Under a well-formed grammar, a token that is no separator addresses the
/// `k`-th flag, whose name is fresh, exactly when the switch table resolves
/// it to that flag.
proof fn lemma_flag_resolution(g: GrammarView, k: int, token: Seq<char>)
    requires
        g.well_formed(),
        0 <= k < g.flags.len(),
        fresh_flag_name(g, k),
        classify(token) != TokenClass::Separator,
    ensures
        addresses(g.flags[k], token) <==> find_switch(switches_of(g), classify(token)) == Some(
            g.options.len() + k,
        ),
{
    let table = switches_of(g);
    let at = g.options.len() + k;
    let d = g.flags[k];
    let class = classify(token);
    let aliases = aliases_of(g.named());
    lemma_find_from(table, class, 0);
    assert(table[at].long == d.name);
    assert(table[at].short == d.short);
    assert(aliases[at] == d.short);
    assert forall|j: int| 0 <= j < at implies (#[trigger] table[j]).long != d.name by {
        if j < g.options.len() {
            assert(table[j].long == g.options[j].name);
        } else {
            assert(table[j].long == g.flags[j - g.options.len()].name);
        }
    }
    assert forall|j: int| 0 <= j < table.len() implies (#[trigger] table[j]).short == aliases[j] by {
        if j < g.options.len() {
            assert(table[j].short == g.options[j].short);
        } else {
            assert(table[j].short == g.flags[j - g.options.len()].short);
        }
    }
    if addresses(d, token) {
        if token == long_token(d.name) {
            assert(token.len() > 2);
            assert(token.skip(2) =~= d.name);
            assert(class == TokenClass::Long(d.name));
            assert(answers(table[at], class));
        } else {
            let c = d.short->0;
            assert(token == short_token(c));
            assert(class == TokenClass::Short(c));
            assert(answers(table[at], class));
            assert forall|j: int| 0 <= j < at implies !answers(#[trigger] table[j], class) by {
                assert(aliases[j] != aliases[at]);
            }
        }
    }
    if find_switch(table, class) == Some(at) {
        assert(answers(table[at], class));
        match class {
            TokenClass::Long(name) => {
                assert(token =~= long_token(d.name));
            },
            TokenClass::Short(c) => {
                assert(token =~= short_token(c));
            },
            _ => {},
        }
    }
}

/// The bindings of a match start with those of the required positionals,
/// then the optional positionals, the named options and the flags.
proof fn lemma_entry_at(
    g: GrammarView,
    hits: Seq<HitView>,
    positionals: Seq<Seq<char>>,
    extras: Seq<Seq<char>>,
    i: int,
)
    requires
        0 <= i < g.required.len() + g.optional.len() + g.options.len() + g.flags.len(),
    ensures
        i < entries_of(g, hits, positionals, extras).len(),
        entries_of(g, hits, positionals, extras)[i] == if i < g.required.len() {
            required_entries(g, positionals)[i]
        } else if i < g.required.len() + g.optional.len() {
            optional_entries(g, positionals)[i - g.required.len()]
        } else if i < g.required.len() + g.optional.len() + g.options.len() {
            option_entries(g, hits)[i - g.required.len() - g.optional.len()]
        } else {
            flag_entries(g, hits)[i - g.required.len() - g.optional.len() - g.options.len()]
        },
{
}

/// Every required positional of a match is bound: if `tokens` match `g`, the
/// value bound to the name of each required positional is a scalar, never
/// absent.
pub proof fn lemma_required_positionals_bound(g: GrammarView, tokens: Seq<Seq<char>>, i: int)
    requires
        matched(g, tokens) is Matched,
        0 <= i < g.required.len(),
    ensures
        lookup(matched(g, tokens)->Matched_0, g.required[i].name) is Scalar,
{
    let entries = matched(g, tokens)->Matched_0;
    let name = g.required[i].name;
    let scan = scanned(switches_of(g), tokens);
    let positionals = positionals_of(g, scan->free, scan->trailing);
    let extras = extras_of(g, scan->trailing);
    assert(entries == entries_of(g, scan->hits, positionals, extras));
    lemma_entry_at(g, scan->hits, positionals, extras, i);
    lemma_position_from(entries, name, 0);
    let at = position_from(entries, name, 0);
    assert(at is Some);
    assert(at->0 <= i);
    lemma_entry_at(g, scan->hits, positionals, extras, at->0);
}

/// A flag is set exactly when it is given: if `tokens` match the well-formed
/// grammar `g`, the value bound to the name of a flag, where no argument
/// declared before the flag bears that name, is true if the flag's long or
/// short token stands among the tokens before the separator, wherever among
/// them, and false else.
pub proof fn lemma_flag_set_when_given(g: GrammarView, tokens: Seq<Seq<char>>, k: int)
    requires
        g.well_formed(),
        matched(g, tokens) is Matched,
        0 <= k < g.flags.len(),
        fresh_flag_name(g, k),
    ensures
        lookup(matched(g, tokens)->Matched_0, g.flags[k].name) == ValueView::Bool(
            flag_given(g.flags[k], tokens),
        ),
{
    let entries = matched(g, tokens)->Matched_0;
    let d = g.flags[k];
    let table = switches_of(g);
    let scan = scanned(table, tokens);
    let hits = scan->hits;
    let positionals = positionals_of(g, scan->free, scan->trailing);
    let extras = extras_of(g, scan->trailing);
    let at = g.options.len() + k;
    let slot = g.required.len() + g.optional.len() + g.options.len() + k;
    assert(entries == entries_of(g, hits, positionals, extras));
    // The flag's own binding is the first that bears its name.
    lemma_entry_at(g, hits, positionals, extras, slot);
    assert(entries[slot] == (d.name, ValueView::Bool(last_value(hits, at) is Some)));
    assert forall|j: int| 0 <= j < slot implies (#[trigger] entries[j]).0 != d.name by {
        lemma_entry_at(g, hits, positionals, extras, j);
        if j < g.required.len() {
            assert(entries[j].0 == g.required[j].name);
        } else if j < g.required.len() + g.optional.len() {
            assert(entries[j].0 == g.optional[j - g.required.len()].name);
        } else if j < g.required.len() + g.optional.len() + g.options.len() {
            assert(entries[j].0 == g.options[j - g.required.len() - g.optional.len()].name);
        } else {
            assert(entries[j].0 == g.flags[j - g.required.len() - g.optional.len()
                - g.options.len()].name);
        }
    }
    lemma_position_from(entries, d.name, 0);
    assert(position_from(entries, d.name, 0) == Some(slot));
    // Its switch was hit exactly when a token before the separator addresses it.
    lemma_scan_hits(table, tokens, 0, Seq::empty(), Seq::empty(), at);
    lemma_separator_from(tokens, 0);
    assert(last_value(Seq::<HitView>::empty(), at) is None);
    if last_value(hits, at) is Some {
        let j = choose|j: int| 0 <= j < separator_from(tokens, 0) && resolves(table, tokens, j, at);
        lemma_flag_resolution(g, k, tokens[j]);
        assert(addresses(d, tokens[j]));
    }
    if flag_given(d, tokens) {
        let j = choose|j: int| 0 <= j < separator_index(tokens) && addresses(d, #[trigger] tokens[j]);
        lemma_flag_resolution(g, k, tokens[j]);
        assert(resolves(table, tokens, j, at));
    }
}

} // verus!
