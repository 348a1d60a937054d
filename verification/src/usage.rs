//! The usage text of a grammar: what a help request is answered with.
use vstd::prelude::*;
use crate::descriptor::{ArgumentDescriptor, ArgumentKind, DescriptorView};
use crate::grammar::{Grammar, GrammarView};
use crate::text::{join, joined, views, lemma_views_push};

verus! {

/// How an argument of kind `kind` appears in the synopsis line.
pub open spec fn synopsis_word(d: DescriptorView, kind: ArgumentKind) -> Seq<char> {
    match kind {
        ArgumentKind::RequiredPositional => "<"@ + d.name + ">"@,
        ArgumentKind::OptionalPositional => "["@ + d.name + "]"@,
        ArgumentKind::NamedOption => "[--"@ + d.name + " <"@ + d.name + ">]"@,
        ArgumentKind::Flag => "[--"@ + d.name + "]"@,
        ArgumentKind::CollectOptional => "["@ + d.name + "...]"@,
        ArgumentKind::CollectRequired => "<"@ + d.name + ">..."@,
        ArgumentKind::TrailingExtra => "[-- "@ + d.name + "...]"@,
    }
}

/// How an argument is addressed: `-s, --name` or `--name` for a named option
/// or a flag, the bare name for the others.
pub open spec fn signature(d: DescriptorView, kind: ArgumentKind) -> Seq<char> {
    if kind.keeps_short() {
        (match d.short {
            Some(c) => "-"@ + seq![c] + ", "@,
            None => Seq::empty(),
        }) + "--"@ + d.name
    } else {
        d.name
    }
}

/// The line that explains one argument: how it is addressed, its help text,
/// and its default if it has one.
pub open spec fn detail_line(d: DescriptorView, kind: ArgumentKind) -> Seq<char> {
    "  "@ + signature(d, kind) + "  "@ + d.help + (match d.default {
        Some(v) => " [default: "@ + v + "]"@,
        None => Seq::empty(),
    })
}

/// The synopsis words of a list of arguments of one kind.
pub open spec fn synopsis_words(list: Seq<DescriptorView>, kind: ArgumentKind) -> Seq<Seq<char>> {
    list.map_values(|d: DescriptorView| synopsis_word(d, kind))
}

/// The detail lines of a list of arguments of one kind.
pub open spec fn detail_lines(list: Seq<DescriptorView>, kind: ArgumentKind) -> Seq<Seq<char>> {
    list.map_values(|d: DescriptorView| detail_line(d, kind))
}

/// The synopsis: `Usage:`, the program's name, and one word for each
/// argument in declaration order, separated by single spaces.
pub open spec fn synopsis(g: GrammarView) -> Seq<char> {
    joined(
        seq!["Usage:"@, g.name] + synopsis_words(g.required, ArgumentKind::RequiredPositional)
            + synopsis_words(g.optional, ArgumentKind::OptionalPositional) + synopsis_words(
            g.options,
            ArgumentKind::NamedOption,
        ) + synopsis_words(g.flags, ArgumentKind::Flag) + synopsis_words(
            g.collector_list(),
            g.collector_kind(),
        ) + synopsis_words(g.extra_list(), ArgumentKind::TrailingExtra),
        " "@,
    )
}

/// The lines of the usage text: the line about the program and an empty line
/// if the grammar has one, the synopsis, one detail line for each argument in
/// declaration order, and the line for the help switch.
pub open spec fn usage_lines(g: GrammarView) -> Seq<Seq<char>> {
    (match g.about {
        Some(a) => seq![a, Seq::empty()],
        None => Seq::empty(),
    }) + seq![synopsis(g)] + detail_lines(g.required, ArgumentKind::RequiredPositional)
        + detail_lines(g.optional, ArgumentKind::OptionalPositional) + detail_lines(
        g.options,
        ArgumentKind::NamedOption,
    ) + detail_lines(g.flags, ArgumentKind::Flag) + detail_lines(
        g.collector_list(),
        g.collector_kind(),
    ) + detail_lines(g.extra_list(), ArgumentKind::TrailingExtra) + seq![
        "  -h, --help  Print help"@,
    ]
}

/// The usage text: the usage lines joined by newlines.
pub open spec fn usage_text(g: GrammarView) -> Seq<char> {
    joined(usage_lines(g), "\n"@)
}

/// The synopsis word of one argument.
fn word_for(d: &ArgumentDescriptor, kind: ArgumentKind) -> (r: String)
    ensures
        r@ == synopsis_word(d@, kind),
{
    let mut r = String::new();
    let name = d.name.as_str();
    match kind {
        ArgumentKind::RequiredPositional => {
            r.append("<");
            r.append(name);
            r.append(">");
        },
        ArgumentKind::OptionalPositional => {
            r.append("[");
            r.append(name);
            r.append("]");
        },
        ArgumentKind::NamedOption => {
            r.append("[--");
            r.append(name);
            r.append(" <");
            r.append(name);
            r.append(">]");
        },
        ArgumentKind::Flag => {
            r.append("[--");
            r.append(name);
            r.append("]");
        },
        ArgumentKind::CollectOptional => {
            r.append("[");
            r.append(name);
            r.append("...]");
        },
        ArgumentKind::CollectRequired => {
            r.append("<");
            r.append(name);
            r.append(">...");
        },
        ArgumentKind::TrailingExtra => {
            r.append("[-- ");
            r.append(name);
            r.append("...]");
        },
    }
    r
}

/// The detail line of one argument.
fn detail_for(d: &ArgumentDescriptor, kind: ArgumentKind) -> (r: String)
    ensures
        r@ == detail_line(d@, kind),
{
    let mut r = String::new();
    r.append("  ");
    let named = match kind {
        ArgumentKind::NamedOption | ArgumentKind::Flag => true,
        _ => false,
    };
    if named {
        match d.short {
            Some(c) => {
                r.append("-");
                r.push(c);
                r.append(", ");
            },
            None => {},
        }
        r.append("--");
    }
    r.append(d.name.as_str());
    r.append("  ");
    r.append(d.help.as_str());
    match &d.default {
        Some(v) => {
            r.append(" [default: ");
            r.append(v.as_str());
            r.append("]");
        },
        None => {},
    }
    r
}

/// Appends to `out` the synopsis words of `list`.
fn push_words(out: &mut Vec<String>, list: &Vec<ArgumentDescriptor>, kind: ArgumentKind)
    ensures
        views(final(out)@) == views(old(out)@) + synopsis_words(views(list@), kind),
{
    let ghost before = views(out@);
    let mut i: usize = 0;
    while i < list.len()
        invariant
            i <= list@.len(),
            views(out@) == before + synopsis_words(views(list@).take(i as int), kind),
        decreases list@.len() - i,
    {
        let w = word_for(&list[i], kind);
        proof {
            lemma_views_push(out@, w);
        }
        out.push(w);
        i += 1;
    }
}

/// Appends to `out` the detail lines of `list`.
fn push_details(out: &mut Vec<String>, list: &Vec<ArgumentDescriptor>, kind: ArgumentKind)
    ensures
        views(final(out)@) == views(old(out)@) + detail_lines(views(list@), kind),
{
    let ghost before = views(out@);
    let mut i: usize = 0;
    while i < list.len()
        invariant
            i <= list@.len(),
            views(out@) == before + detail_lines(views(list@).take(i as int), kind),
        decreases list@.len() - i,
    {
        let w = detail_for(&list[i], kind);
        proof {
            lemma_views_push(out@, w);
        }
        out.push(w);
        i += 1;
    }
}

impl Grammar {
    /// The usage text of the grammar.
    pub fn usage(&self) -> (text: String)
        ensures
            text@ == usage_text(self@),
    {
        let mut words: Vec<String> = Vec::new();
        let usage = "Usage:".to_owned();
        let name = self.name.clone();
        words.push(usage);
        words.push(name);
        push_words(&mut words, &self.required, ArgumentKind::RequiredPositional);
        push_words(&mut words, &self.optional, ArgumentKind::OptionalPositional);
        push_words(&mut words, &self.options, ArgumentKind::NamedOption);
        push_words(&mut words, &self.flags, ArgumentKind::Flag);
        match &self.collector {
            Some(c) => {
                let w = word_for(&c.descriptor, self.collector_kind());
                proof {
                    lemma_views_push(words@, w);
                }
                words.push(w);
            },
            None => {},
        }
        match &self.extra {
            Some(d) => {
                let w = word_for(d, ArgumentKind::TrailingExtra);
                proof {
                    lemma_views_push(words@, w);
                }
                words.push(w);
            },
            None => {},
        }
        let line = join(&words, " ");
        assert(line@ == synopsis(self@)) by {
            assert(views(words@) =~= seq!["Usage:"@, self@.name] + synopsis_words(
                self@.required,
                ArgumentKind::RequiredPositional,
            ) + synopsis_words(self@.optional, ArgumentKind::OptionalPositional) + synopsis_words(
                self@.options,
                ArgumentKind::NamedOption,
            ) + synopsis_words(self@.flags, ArgumentKind::Flag) + synopsis_words(
                self@.collector_list(),
                self@.collector_kind(),
            ) + synopsis_words(self@.extra_list(), ArgumentKind::TrailingExtra));
        }
        let mut lines: Vec<String> = Vec::new();
        match &self.about {
            Some(a) => {
                let first = a.clone();
                let second = String::new();
                lines.push(first);
                lines.push(second);
            },
            None => {},
        }
        lines.push(line);
        push_details(&mut lines, &self.required, ArgumentKind::RequiredPositional);
        push_details(&mut lines, &self.optional, ArgumentKind::OptionalPositional);
        push_details(&mut lines, &self.options, ArgumentKind::NamedOption);
        push_details(&mut lines, &self.flags, ArgumentKind::Flag);
        match &self.collector {
            Some(c) => {
                let w = detail_for(&c.descriptor, self.collector_kind());
                proof {
                    lemma_views_push(lines@, w);
                }
                lines.push(w);
            },
            None => {},
        }
        match &self.extra {
            Some(d) => {
                let w = detail_for(d, ArgumentKind::TrailingExtra);
                proof {
                    lemma_views_push(lines@, w);
                }
                lines.push(w);
            },
            None => {},
        }
        let last = "  -h, --help  Print help".to_owned();
        proof {
            lemma_views_push(lines@, last);
        }
        lines.push(last);
        assert(views(lines@) =~= usage_lines(self@));
        join(&lines, "\n")
    }
}

} // verus!
