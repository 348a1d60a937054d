//! Decoding of compact argument descriptions.
//!
//! A description is `name[;help[;default[;short]]]`: up to four segments
//! separated by a single delimiter character. Decoding never fails; missing
//! segments are empty.
use vstd::prelude::*;
use crate::text::{chars_of, string_of, view_opt, views, lemma_views_push};

verus! {

/// The delimiter used when none is chosen.
pub const ARG_DELIMITER: char = ';';

/// What role an argument plays in a grammar.
#[derive(Clone, Copy, Debug, PartialEq, Eq, Structural)]
pub enum ArgumentKind {
    /// A positional argument that must be given.
    RequiredPositional,
    /// A positional argument that may be left out.
    OptionalPositional,
    /// A value-bearing argument addressed by `--name` or `-s`.
    NamedOption,
    /// A boolean argument addressed by `--name` or `-s`.
    Flag,
    /// Captures the remaining positional tokens, possibly none.
    CollectOptional,
    /// Captures the remaining positional tokens, at least one.
    CollectRequired,
    /// Captures verbatim every token after the `--` separator.
    TrailingExtra,
}

impl ArgumentKind {
    /// Whether a default value means anything for an argument of this kind.
    pub open spec fn keeps_default(self) -> bool {
        self == ArgumentKind::OptionalPositional || self == ArgumentKind::NamedOption
    }

    /// Whether a short alias means anything for an argument of this kind.
    pub open spec fn keeps_short(self) -> bool {
        self == ArgumentKind::NamedOption || self == ArgumentKind::Flag
    }
}

/// One decoded argument description.
#[derive(Clone, Debug, PartialEq, Eq)]
pub struct ArgumentDescriptor {
    /// The argument's name; hyphens are kept.
    pub name: String,
    /// The help text; may be empty.
    pub help: String,
    /// The default value, if the default segment was not empty.
    pub default: Option<String>,
    /// The short alias: the first character of the short segment, if any.
    pub short: Option<char>,
}

/// The mathematical model of an [`ArgumentDescriptor`].
pub ghost struct DescriptorView {
    pub name: Seq<char>,
    pub help: Seq<char>,
    pub default: Option<Seq<char>>,
    pub short: Option<char>,
}

impl View for ArgumentDescriptor {
    type V = DescriptorView;

    open spec fn view(&self) -> DescriptorView {
        DescriptorView {
            name: self.name@,
            help: self.help@,
            default: view_opt(self.default),
            short: self.short,
        }
    }
}

/// The index of the first `delimiter` in `s` at or after `from`, or the
/// length of `s` if there is none.
pub open spec fn segment_end(s: Seq<char>, from: int, delimiter: char) -> int
    decreases s.len() - from,
{
    if from >= s.len() {
        s.len() as int
    } else if s[from] == delimiter {
        from
    } else {
        segment_end(s, from + 1, delimiter)
    }
}

/// Where the segment after the one that ends at `end` starts: one past the
/// delimiter, or the end of `s` if the text is used up.
pub open spec fn next_start(s: Seq<char>, end: int) -> int {
    if end < s.len() {
        end + 1
    } else {
        s.len() as int
    }
}

/// What `raw` decodes to: `raw` is split at its first three delimiters into
/// name, help, default and short segments; the short segment is whatever
/// follows the third delimiter, further delimiters included.
pub open spec fn decoded(raw: Seq<char>, delimiter: char) -> DescriptorView {
    let name_end = segment_end(raw, 0, delimiter);
    let help_start = next_start(raw, name_end);
    let help_end = segment_end(raw, help_start, delimiter);
    let default_start = next_start(raw, help_end);
    let default_end = segment_end(raw, default_start, delimiter);
    let short_start = next_start(raw, default_end);
    DescriptorView {
        name: raw.subrange(0, name_end),
        help: raw.subrange(help_start, help_end),
        default: if default_start == default_end {
            None
        } else {
            Some(raw.subrange(default_start, default_end))
        },
        short: if short_start == raw.len() {
            None
        } else {
            Some(raw[short_start])
        },
    }
}

/// The four segments of `d` joined by `delimiter`: an absent default and an
/// absent short alias give empty segments.
pub open spec fn encoded(d: DescriptorView, delimiter: char) -> Seq<char> {
    d.name + seq![delimiter] + d.help + seq![delimiter] + (match d.default {
        Some(v) => v,
        None => Seq::empty(),
    }) + seq![delimiter] + (match d.short {
        Some(c) => seq![c],
        None => Seq::empty(),
    })
}

/// `d` as an argument of kind `kind` holds it: a default survives only on an
/// optional positional or a named option, a short alias only on a named
/// option or a flag.
pub open spec fn shaped(d: DescriptorView, kind: ArgumentKind) -> DescriptorView {
    DescriptorView {
        name: d.name,
        help: d.help,
        default: if kind.keeps_default() {
            d.default
        } else {
            None
        },
        short: if kind.keeps_short() {
            d.short
        } else {
            None
        },
    }
}

/// A position with no delimiter before it and one at it (or the end of the
/// text) is the segment's end.
pub proof fn lemma_segment_end_is(s: Seq<char>, from: int, end: int, delimiter: char)
    requires
        0 <= from <= end <= s.len(),
        forall|j: int| from <= j < end ==> s[j] != delimiter,
        end < s.len() ==> s[end] == delimiter,
    ensures
        segment_end(s, from, delimiter) == end,
    decreases end - from,
{
    if from < end {
        lemma_segment_end_is(s, from + 1, end, delimiter);
    }
}

/// The index of the first `delimiter` in `v` at or after `from`.
fn find_segment_end(v: &Vec<char>, from: usize, delimiter: char) -> (end: usize)
    requires
        from <= v@.len(),
    ensures
        end == segment_end(v@, from as int, delimiter),
        from <= end <= v@.len(),
{
    let mut i: usize = from;
    while i < v.len() && v[i] != delimiter
        invariant
            from <= i <= v@.len(),
            segment_end(v@, from as int, delimiter) == segment_end(v@, i as int, delimiter),
        decreases v@.len() - i,
    {
        i += 1;
    }
    i
}

/// Where the next segment starts.
fn start_after(v: &Vec<char>, end: usize) -> (start: usize)
    requires
        end <= v@.len(),
    ensures
        start == next_start(v@, end as int),
        end <= start <= v@.len(),
{
    if end < v.len() {
        end + 1
    } else {
        end
    }
}

impl ArgumentDescriptor {
    /// Decodes `raw`, splitting at `delimiter`.
    pub fn decode_with(raw: &str, delimiter: char) -> (d: ArgumentDescriptor)
        ensures
            d@ == decoded(raw@, delimiter),
    {
        let v = chars_of(raw);
        let name_end = find_segment_end(&v, 0, delimiter);
        let help_start = start_after(&v, name_end);
        let help_end = find_segment_end(&v, help_start, delimiter);
        let default_start = start_after(&v, help_end);
        let default_end = find_segment_end(&v, default_start, delimiter);
        let short_start = start_after(&v, default_end);
        ArgumentDescriptor {
            name: string_of(&v, 0, name_end),
            help: string_of(&v, help_start, help_end),
            default: if default_start == default_end {
                None
            } else {
                Some(string_of(&v, default_start, default_end))
            },
            short: if short_start == v.len() {
                None
            } else {
                Some(v[short_start])
            },
        }
    }

    /// Decodes `raw`, splitting at [`ARG_DELIMITER`].
    pub fn decode(raw: &str) -> (d: ArgumentDescriptor)
        ensures
            d@ == decoded(raw@, ARG_DELIMITER),
    {
        ArgumentDescriptor::decode_with(raw, ARG_DELIMITER)
    }

    /// Writes the descriptor back as four segments joined by `delimiter`.
    pub fn encode(&self, delimiter: char) -> (raw: String)
        ensures
            raw@ == encoded(self@, delimiter),
    {
        let mut raw = String::new();
        raw.append(self.name.as_str());
        raw.push(delimiter);
        raw.append(self.help.as_str());
        raw.push(delimiter);
        match &self.default {
            Some(v) => {
                raw.append(v.as_str());
            },
            None => {},
        }
        raw.push(delimiter);
        match self.short {
            Some(c) => {
                raw.push(c);
            },
            None => {},
        }
        raw
    }

    /// A copy of the descriptor as an argument of kind `kind` holds it: a
    /// default or a short alias that means nothing for the kind is dropped.
    pub fn shape(&self, kind: ArgumentKind) -> (d: ArgumentDescriptor)
        ensures
            d@ == shaped(self@, kind),
    {
        let keeps_default = match kind {
            ArgumentKind::OptionalPositional | ArgumentKind::NamedOption => true,
            _ => false,
        };
        let keeps_short = match kind {
            ArgumentKind::NamedOption | ArgumentKind::Flag => true,
            _ => false,
        };
        ArgumentDescriptor {
            name: self.name.clone(),
            help: self.help.clone(),
            default: match &self.default {
                Some(v) => if keeps_default {
                    Some(v.clone())
                } else {
                    None
                },
                None => None,
            },
            short: if keeps_short {
                self.short
            } else {
                None
            },
        }
    }
}

/// A list of descriptors, each as an argument of kind `kind` holds it.
pub open spec fn shaped_all(list: Seq<DescriptorView>, kind: ArgumentKind) -> Seq<DescriptorView> {
    list.map_values(|d: DescriptorView| shaped(d, kind))
}

/// Copies of the descriptors of `list`, each as an argument of kind `kind`
/// holds it.
pub fn shape_all(list: &Vec<ArgumentDescriptor>, kind: ArgumentKind) -> (r: Vec<ArgumentDescriptor>)
    ensures
        views(r@) == shaped_all(views(list@), kind),
{
    let mut r: Vec<ArgumentDescriptor> = Vec::new();
    let mut i: usize = 0;
    while i < list.len()
        invariant
            i <= list@.len(),
            views(r@) == shaped_all(views(list@).take(i as int), kind),
        decreases list@.len() - i,
    {
        let d = list[i].shape(kind);
        proof {
            lemma_views_push(r@, d);
        }
        r.push(d);
        i += 1;
    }
    r
}

/// The name, help text, default value and short alias that `data` encodes
/// with [`ARG_DELIMITER`].
pub fn get_arg_data(data: &str) -> (r: (String, String, Option<String>, Option<char>))
    ensures
        r.0@ == decoded(data@, ARG_DELIMITER).name,
        r.1@ == decoded(data@, ARG_DELIMITER).help,
        view_opt(r.2) == decoded(data@, ARG_DELIMITER).default,
        r.3 == decoded(data@, ARG_DELIMITER).short,
{
    let d = ArgumentDescriptor::decode(data);
    (d.name, d.help, d.default, d.short)
}

/// Decodes `data` as an argument of kind `kind`.
pub fn get_arg(data: &str, kind: ArgumentKind) -> (d: ArgumentDescriptor)
    ensures
        d@ == shaped(decoded(data@, ARG_DELIMITER), kind),
{
    ArgumentDescriptor::decode(data).shape(kind)
}

/// What a list of descriptions decodes to, each as an argument of kind `kind`.
pub open spec fn decoded_all(args: Seq<Seq<char>>, kind: ArgumentKind) -> Seq<DescriptorView> {
    args.map_values(|raw: Seq<char>| shaped(decoded(raw, ARG_DELIMITER), kind))
}

/// Decodes every description of `args` as an argument of kind `kind`.
pub fn with_arguments(args: &Vec<String>, kind: ArgumentKind) -> (r: Vec<ArgumentDescriptor>)
    ensures
        views(r@) == decoded_all(views(args@), kind),
{
    let mut r: Vec<ArgumentDescriptor> = Vec::new();
    let mut i: usize = 0;
    while i < args.len()
        invariant
            i <= args@.len(),
            views(r@) == decoded_all(views(args@).take(i as int), kind),
        decreases args@.len() - i,
    {
        let d = get_arg(args[i].as_str(), kind);
        proof {
            lemma_views_push(r@, d);
        }
        r.push(d);
        i += 1;
    }
    r
}

/// Decoding undoes encoding: a description written as four segments, of which
/// the first three hold no delimiter and the last holds at most one
/// character, decodes to a descriptor that encodes to the same text.
pub proof fn lemma_decode_then_encode(
    name: Seq<char>,
    help: Seq<char>,
    default: Seq<char>,
    short: Seq<char>,
    delimiter: char,
)
    requires
        !name.contains(delimiter),
        !help.contains(delimiter),
        !default.contains(delimiter),
        short.len() <= 1,
    ensures
        encoded(
            decoded(
                name + seq![delimiter] + help + seq![delimiter] + default + seq![delimiter] + short,
                delimiter,
            ),
            delimiter,
        ) == name + seq![delimiter] + help + seq![delimiter] + default + seq![delimiter] + short,
{
    let raw = name + seq![delimiter] + help + seq![delimiter] + default + seq![delimiter] + short;
    let n = name.len() as int;
    let h = help.len() as int;
    let d = default.len() as int;
    lemma_segment_end_is(raw, 0, n, delimiter);
    lemma_segment_end_is(raw, n + 1, n + 1 + h, delimiter);
    lemma_segment_end_is(raw, n + h + 2, n + h + 2 + d, delimiter);
}

} // verus!
