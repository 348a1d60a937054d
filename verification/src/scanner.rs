//! The token scanner: one pass from left to right that tells switches
//! (`--name`, `-s`) with their values from free tokens, up to the `--`
//! separator. A help request among those tokens is looked for beforehand.
use vstd::prelude::*;
use crate::text::{chars_of, string_of, view_opt, views, lemma_views_push};

verus! {

/// A rule for a named argument: how it is addressed and whether the next
/// token is its value.
#[derive(Clone, Debug, PartialEq, Eq)]
pub struct Switch {
    /// The name after `--`.
    pub long: String,
    /// The character after `-`, if the switch has a short alias.
    pub short: Option<char>,
    /// Whether the switch is followed by a value.
    pub takes_value: bool,
}

/// The mathematical model of a [`Switch`].
pub ghost struct SwitchView {
    pub long: Seq<char>,
    pub short: Option<char>,
    pub takes_value: bool,
}

impl View for Switch {
    type V = SwitchView;

    open spec fn view(&self) -> SwitchView {
        SwitchView { long: self.long@, short: self.short, takes_value: self.takes_value }
    }
}

/// One occurrence of a switch among the tokens.
#[derive(Clone, Debug, PartialEq, Eq)]
pub struct Hit {
    /// The index of the switch in the table.
    pub switch: usize,
    /// The value that followed it; empty for a switch that takes none.
    pub value: String,
}

/// The mathematical model of a [`Hit`].
pub ghost struct HitView {
    pub switch: int,
    pub value: Seq<char>,
}

impl View for Hit {
    type V = HitView;

    open spec fn view(&self) -> HitView {
        HitView { switch: self.switch as int, value: self.value@ }
    }
}

/// What a token looks like, whatever the grammar declares.
#[derive(Clone, Debug, PartialEq, Eq)]
pub enum TokenKind {
    /// Exactly `--`.
    Separator,
    /// `--` followed by a non-empty name.
    Long(String),
    /// `-` followed by one character other than `-`.
    Short(char),
    /// `-` followed by several characters, the first of them not `-`.
    Bundle,
    /// Anything else, the empty token and a lone `-` included.
    Plain,
}

/// The mathematical model of a [`TokenKind`].
pub ghost enum TokenClass {
    Separator,
    Long(Seq<char>),
    Short(char),
    Bundle,
    Plain,
}

impl View for TokenKind {
    type V = TokenClass;

    open spec fn view(&self) -> TokenClass {
        match self {
            TokenKind::Separator => TokenClass::Separator,
            TokenKind::Long(name) => TokenClass::Long(name@),
            TokenKind::Short(c) => TokenClass::Short(*c),
            TokenKind::Bundle => TokenClass::Bundle,
            TokenKind::Plain => TokenClass::Plain,
        }
    }
}

/// How a scan ended.
#[derive(Clone, Debug, PartialEq, Eq)]
pub enum Scan {
    /// Every token up to the separator was understood.
    Done {
        /// The switches met, in order.
        hits: Vec<Hit>,
        /// The free tokens before the separator, in order.
        free: Vec<String>,
        /// The tokens after the separator, verbatim.
        trailing: Vec<String>,
    },
    /// The token looks like a switch and answers to no rule.
    Unknown(String),
    /// The switch with this index takes a value and none followed.
    MissingValue(usize),
}

/// The mathematical model of a [`Scan`].
pub ghost enum ScanView {
    Done { hits: Seq<HitView>, free: Seq<Seq<char>>, trailing: Seq<Seq<char>> },
    Unknown(Seq<char>),
    MissingValue(int),
}

impl View for Scan {
    type V = ScanView;

    open spec fn view(&self) -> ScanView {
        match self {
            Scan::Done { hits, free, trailing } => ScanView::Done {
                hits: views(hits@),
                free: views(free@),
                trailing: views(trailing@),
            },
            Scan::Unknown(token) => ScanView::Unknown(token@),
            Scan::MissingValue(k) => ScanView::MissingValue(*k as int),
        }
    }
}

/// What `token` looks like.
pub open spec fn classify(token: Seq<char>) -> TokenClass {
    if token.len() >= 2 && token[0] == '-' {
        if token[1] == '-' {
            if token.len() == 2 {
                TokenClass::Separator
            } else {
                TokenClass::Long(token.skip(2))
            }
        } else if token.len() == 2 {
            TokenClass::Short(token[1])
        } else {
            TokenClass::Bundle
        }
    } else {
        TokenClass::Plain
    }
}

/// Whether a token of class `class` addresses `switch`.
pub open spec fn answers(switch: SwitchView, class: TokenClass) -> bool {
    match class {
        TokenClass::Long(name) => switch.long == name,
        TokenClass::Short(c) => switch.short == Some(c),
        _ => false,
    }
}

/// Whether a token of class `class` asks for help: `--help` or `-h`.
pub open spec fn asks_help(class: TokenClass) -> bool {
    class == TokenClass::Long("help"@) || class == TokenClass::Short('h')
}

/// The index of the first switch at or after `from` that a token of class
/// `class` addresses, if any.
pub open spec fn find_from(switches: Seq<SwitchView>, class: TokenClass, from: int) -> Option<int>
    decreases switches.len() - from,
{
    if from >= switches.len() {
        None
    } else if answers(switches[from], class) {
        Some(from)
    } else {
        find_from(switches, class, from + 1)
    }
}

/// The switch that a token of class `class` addresses: the first in the table
/// that answers to it.
pub open spec fn find_switch(switches: Seq<SwitchView>, class: TokenClass) -> Option<int> {
    find_from(switches, class, 0)
}

/// The index of the first separator in `tokens` at or after `from`, or the
/// number of tokens if there is none.
pub open spec fn separator_from(tokens: Seq<Seq<char>>, from: int) -> int
    decreases tokens.len() - from,
{
    if from >= tokens.len() {
        tokens.len() as int
    } else if classify(tokens[from]) == TokenClass::Separator {
        from
    } else {
        separator_from(tokens, from + 1)
    }
}

/// The number of tokens before the first separator.
pub open spec fn separator_index(tokens: Seq<Seq<char>>) -> int {
    separator_from(tokens, 0)
}

/// Whether help is asked for: `-h` or `--help` stands among the tokens
/// before the separator.
pub open spec fn help_requested(tokens: Seq<Seq<char>>) -> bool {
    exists|i: int| 0 <= i < separator_index(tokens) && asks_help(classify(#[trigger] tokens[i]))
}

/// The scan of `tokens` from index `i` on, given the hits and free tokens
/// gathered before `i`. A plain token is free. A token that looks like a
/// switch addresses a switch of the table or is unknown. A switch that takes
/// a value takes the next token, which must be plain. The separator ends the
/// scan: what follows it is kept verbatim.
pub open spec fn scan_from(
    switches: Seq<SwitchView>,
    tokens: Seq<Seq<char>>,
    i: int,
    hits: Seq<HitView>,
    free: Seq<Seq<char>>,
) -> ScanView
    decreases tokens.len() - i,
{
    if i >= tokens.len() {
        ScanView::Done { hits, free, trailing: Seq::empty() }
    } else {
        let class = classify(tokens[i]);
        if class == TokenClass::Separator {
            ScanView::Done { hits, free, trailing: tokens.skip(i + 1) }
        } else if class == TokenClass::Plain {
            scan_from(switches, tokens, i + 1, hits, free.push(tokens[i]))
        } else {
            match find_switch(switches, class) {
                None => ScanView::Unknown(tokens[i]),
                Some(k) => if !switches[k].takes_value {
                    scan_from(
                        switches,
                        tokens,
                        i + 1,
                        hits.push(HitView { switch: k, value: Seq::empty() }),
                        free,
                    )
                } else if i + 1 < tokens.len() && classify(tokens[i + 1]) == TokenClass::Plain {
                    scan_from(
                        switches,
                        tokens,
                        i + 2,
                        hits.push(HitView { switch: k, value: tokens[i + 1] }),
                        free,
                    )
                } else {
                    ScanView::MissingValue(k)
                },
            }
        }
    }
}

/// The scan of `tokens` against the table `switches`.
pub open spec fn scanned(switches: Seq<SwitchView>, tokens: Seq<Seq<char>>) -> ScanView {
    scan_from(switches, tokens, 0, Seq::empty(), Seq::empty())
}

/// The separator is found at or after `from`, and no token before it is one.
pub proof fn lemma_separator_from(tokens: Seq<Seq<char>>, from: int)
    requires
        0 <= from <= tokens.len(),
    ensures
        from <= separator_from(tokens, from) <= tokens.len(),
        forall|j: int|
            from <= j < separator_from(tokens, from) ==> classify(#[trigger] tokens[j])
                != TokenClass::Separator,
    decreases tokens.len() - from,
{
    if from < tokens.len() && classify(tokens[from]) != TokenClass::Separator {
        lemma_separator_from(tokens, from + 1);
    }
}

/// The value of the last hit of switch `k`, if it was hit at all.
pub open spec fn last_value(hits: Seq<HitView>, k: int) -> Option<Seq<char>>
    decreases hits.len(),
{
    if hits.len() == 0 {
        None
    } else if hits.last().switch == k {
        Some(hits.last().value)
    } else {
        last_value(hits.drop_last(), k)
    }
}

/// The values of the hits of switch `k`, in the order of the hits.
pub open spec fn values_of(hits: Seq<HitView>, k: int) -> Seq<Seq<char>>
    decreases hits.len(),
{
    if hits.len() == 0 {
        Seq::empty()
    } else if hits.last().switch == k {
        values_of(hits.drop_last(), k).push(hits.last().value)
    } else {
        values_of(hits.drop_last(), k)
    }
}

/// `find_from` returns the first switch at or after `from` that answers.
pub proof fn lemma_find_from(switches: Seq<SwitchView>, class: TokenClass, from: int)
    requires
        0 <= from,
    ensures
        match find_from(switches, class, from) {
            Some(k) => from <= k < switches.len() && answers(switches[k], class) && forall|j: int|
                from <= j < k ==> !answers(switches[j], class),
            None => forall|j: int| from <= j < switches.len() ==> !answers(switches[j], class),
        },
    decreases switches.len() - from,
{
    if from < switches.len() && !answers(switches[from], class) {
        lemma_find_from(switches, class, from + 1);
    }
}

/// Tells what `token` looks like.
pub fn classify_token(token: &str) -> (kind: TokenKind)
    ensures
        kind@ == classify(token@),
{
    let v = chars_of(token);
    if v.len() >= 2 && v[0] == '-' {
        if v[1] == '-' {
            if v.len() == 2 {
                TokenKind::Separator
            } else {
                let name = string_of(&v, 2, v.len());
                TokenKind::Long(name)
            }
        } else if v.len() == 2 {
            TokenKind::Short(v[1])
        } else {
            TokenKind::Bundle
        }
    } else {
        TokenKind::Plain
    }
}

/// Whether `token` is plain: neither the separator nor shaped like a switch.
pub fn is_plain(token: &str) -> (r: bool)
    ensures
        r == (classify(token@) == TokenClass::Plain),
{
    match classify_token(token) {
        TokenKind::Plain => true,
        _ => false,
    }
}

/// Whether `kind` asks for help.
pub fn is_help(kind: &TokenKind) -> (r: bool)
    ensures
        r == asks_help(kind@),
{
    match kind {
        TokenKind::Long(name) => {
            let help = "help".to_owned();
            *name == help
        },
        TokenKind::Short(c) => *c == 'h',
        _ => false,
    }
}

/// Whether a token of kind `kind` addresses `switch`.
fn switch_answers(switch: &Switch, kind: &TokenKind) -> (r: bool)
    ensures
        r == answers(switch@, kind@),
{
    match kind {
        TokenKind::Long(name) => switch.long == *name,
        TokenKind::Short(c) => match switch.short {
            Some(s) => s == *c,
            None => false,
        },
        _ => false,
    }
}

/// The first switch of the table that a token of kind `kind` addresses.
pub fn find(switches: &Vec<Switch>, kind: &TokenKind) -> (r: Option<usize>)
    ensures
        match r {
            Some(k) => find_switch(views(switches@), kind@) == Some(k as int) && k
                < switches@.len(),
            None => find_switch(views(switches@), kind@) is None,
        },
{
    let mut k: usize = 0;
    while k < switches.len()
        invariant
            k <= switches@.len(),
            find_switch(views(switches@), kind@) == find_from(views(switches@), kind@, k as int),
        decreases switches@.len() - k,
    {
        if switch_answers(&switches[k], kind) {
            return Some(k);
        }
        k += 1;
    }
    None
}

/// A copy of `tokens[from..]`.
pub fn tail_of(tokens: &Vec<String>, from: usize) -> (r: Vec<String>)
    requires
        from <= tokens@.len(),
    ensures
        views(r@) == views(tokens@).skip(from as int),
{
    let mut r: Vec<String> = Vec::new();
    let mut i: usize = from;
    while i < tokens.len()
        invariant
            from <= i <= tokens@.len(),
            views(r@) == views(tokens@).subrange(from as int, i as int),
        decreases tokens@.len() - i,
    {
        let t = tokens[i].clone();
        proof {
            lemma_views_push(r@, t);
        }
        r.push(t);
        i += 1;
    }
    r
}

/// The value of the last hit of switch `k`.
pub fn last_value_of(hits: &Vec<Hit>, k: usize) -> (r: Option<String>)
    ensures
        view_opt(r) == last_value(views(hits@), k as int),
{
    let mut n: usize = hits.len();
    assert(views(hits@).take(n as int) =~= views(hits@));
    while n > 0
        invariant
            n <= hits@.len(),
            last_value(views(hits@), k as int) == last_value(views(hits@).take(n as int), k as int),
        decreases n,
    {
        let ghost prefix = views(hits@).take(n as int);
        assert(prefix.drop_last() =~= views(hits@).take(n - 1));
        if hits[n - 1].switch == k {
            return Some(hits[n - 1].value.clone());
        }
        n -= 1;
    }
    None
}

/// The values of the hits of switch `k`, in the order of the hits.
pub fn values_for(hits: &Vec<Hit>, k: usize) -> (r: Vec<String>)
    ensures
        views(r@) == values_of(views(hits@), k as int),
{
    let mut r: Vec<String> = Vec::new();
    let mut n: usize = 0;
    while n < hits.len()
        invariant
            n <= hits@.len(),
            views(r@) == values_of(views(hits@).take(n as int), k as int),
        decreases hits@.len() - n,
    {
        let ghost next = views(hits@).take(n + 1);
        assert(next.drop_last() =~= views(hits@).take(n as int));
        if hits[n].switch == k {
            let v = hits[n].value.clone();
            r.push(v);
        }
        n += 1;
    }
    assert(views(hits@).take(hits@.len() as int) =~= views(hits@));
    r
}

/// Whether `-h` or `--help` stands among the tokens before the separator.
pub fn asks_for_help(tokens: &Vec<String>) -> (r: bool)
    ensures
        r == help_requested(views(tokens@)),
{
    let ghost toks = views(tokens@);
    let mut i: usize = 0;
    while i < tokens.len()
        invariant
            i <= tokens@.len(),
            toks == views(tokens@),
            separator_index(toks) == separator_from(toks, i as int),
            forall|j: int| 0 <= j < i ==> !asks_help(classify(#[trigger] toks[j])),
        decreases tokens@.len() - i,
    {
        let kind = classify_token(tokens[i].as_str());
        proof {
            lemma_separator_from(toks, i + 1);
        }
        match kind {
            TokenKind::Separator => {
                return false;
            },
            _ => {
                if is_help(&kind) {
                    return true;
                }
            },
        }
        i += 1;
    }
    false
}

/// Scans `tokens` against the table `switches`.
pub fn scan(switches: &Vec<Switch>, tokens: &Vec<String>) -> (r: Scan)
    ensures
        r@ == scanned(views(switches@), views(tokens@)),
        r matches Scan::MissingValue(k) ==> k < switches@.len(),
{
    let ghost table = views(switches@);
    let ghost toks = views(tokens@);
    let mut hits: Vec<Hit> = Vec::new();
    let mut free: Vec<String> = Vec::new();
    let mut i: usize = 0;
    assert(views(hits@) =~= Seq::<HitView>::empty());
    assert(views(free@) =~= Seq::<Seq<char>>::empty());
    while i < tokens.len()
        invariant
            i <= tokens@.len(),
            table == views(switches@),
            toks == views(tokens@),
            scanned(table, toks) == scan_from(table, toks, i as int, views(hits@), views(free@)),
        decreases tokens@.len() - i,
    {
        let kind = classify_token(tokens[i].as_str());
        match kind {
            TokenKind::Separator => {
                let trailing = tail_of(tokens, i + 1);
                return Scan::Done { hits, free, trailing };
            },
            TokenKind::Plain => {
                let t = tokens[i].clone();
                proof {
                    lemma_views_push(free@, t);
                }
                free.push(t);
                i += 1;
            },
            _ => {
                match find(switches, &kind) {
                    None => {
                        return Scan::Unknown(tokens[i].clone());
                    },
                    Some(k) => {
                        if !switches[k].takes_value {
                            let hit = Hit { switch: k, value: String::new() };
                            proof {
                                lemma_views_push(hits@, hit);
                            }
                            hits.push(hit);
                            i += 1;
                        } else if i + 1 < tokens.len() && is_plain(tokens[i + 1].as_str()) {
                            let hit = Hit { switch: k, value: tokens[i + 1].clone() };
                            proof {
                                lemma_views_push(hits@, hit);
                            }
                            hits.push(hit);
                            i += 2;
                        } else {
                            return Scan::MissingValue(k);
                        }
                    },
                }
            },
        }
    }
    Scan::Done { hits, free, trailing: Vec::new() }
}

} // verus!
