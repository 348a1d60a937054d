//! Assembling descriptors into a grammar, and the rules a grammar obeys.
use vstd::prelude::*;
use crate::descriptor::{
    shape_all,
    shaped,
    shaped_all,
    ArgumentDescriptor,
    ArgumentKind,
    DescriptorView,
};
use crate::result::{Error, ErrorKind, ErrorView};
use crate::text::{view_opt, views};

verus! {

/// The descriptors a grammar is assembled from, grouped by kind, each group
/// in declaration order.
#[derive(Clone, Debug, PartialEq, Eq)]
pub struct KindGroups {
    /// The required positionals.
    pub required: Vec<ArgumentDescriptor>,
    /// The optional positionals.
    pub optional: Vec<ArgumentDescriptor>,
    /// The named options.
    pub options: Vec<ArgumentDescriptor>,
    /// The flags.
    pub flags: Vec<ArgumentDescriptor>,
    /// The collector of zero or more remaining positionals, if declared.
    pub collect: Option<ArgumentDescriptor>,
    /// The collector of one or more remaining positionals, if declared.
    pub collect_required: Option<ArgumentDescriptor>,
    /// The slot for the tokens after the separator, if declared.
    pub extra: Option<ArgumentDescriptor>,
}

/// The mathematical model of [`KindGroups`].
pub ghost struct GroupsView {
    pub required: Seq<DescriptorView>,
    pub optional: Seq<DescriptorView>,
    pub options: Seq<DescriptorView>,
    pub flags: Seq<DescriptorView>,
    pub collect: Option<DescriptorView>,
    pub collect_required: Option<DescriptorView>,
    pub extra: Option<DescriptorView>,
}

impl View for KindGroups {
    type V = GroupsView;

    open spec fn view(&self) -> GroupsView {
        GroupsView {
            required: views(self.required@),
            optional: views(self.optional@),
            options: views(self.options@),
            flags: views(self.flags@),
            collect: view_opt(self.collect),
            collect_required: view_opt(self.collect_required),
            extra: view_opt(self.extra),
        }
    }
}

impl KindGroups {
    /// Groups that declare nothing.
    pub fn new() -> (groups: KindGroups)
        ensures
            groups@ == (GroupsView {
                required: Seq::empty(),
                optional: Seq::empty(),
                options: Seq::empty(),
                flags: Seq::empty(),
                collect: None,
                collect_required: None,
                extra: None,
            }),
    {
        let groups = KindGroups {
            required: Vec::new(),
            optional: Vec::new(),
            options: Vec::new(),
            flags: Vec::new(),
            collect: None,
            collect_required: None,
            extra: None,
        };
        assert(views(groups.flags@) =~= Seq::<DescriptorView>::empty());
        groups
    }
}

/// The slot that captures the remaining positional tokens.
#[derive(Clone, Debug, PartialEq, Eq)]
pub struct Collector {
    /// Name and help text of the slot.
    pub descriptor: ArgumentDescriptor,
    /// Whether at least one token must be captured.
    pub required: bool,
}

/// The mathematical model of a [`Collector`].
pub ghost struct CollectorView {
    pub descriptor: DescriptorView,
    pub required: bool,
}

impl View for Collector {
    type V = CollectorView;

    open spec fn view(&self) -> CollectorView {
        CollectorView { descriptor: self.descriptor@, required: self.required }
    }
}

/// The rules by which tokens are bound to named slots.
#[derive(Clone, Debug, PartialEq, Eq)]
pub struct Grammar {
    /// The name of the program the grammar describes.
    pub name: String,
    /// A line about the program, if any.
    pub about: Option<String>,
    /// The required positionals, bound first.
    pub required: Vec<ArgumentDescriptor>,
    /// The optional positionals, bound after the required ones.
    pub optional: Vec<ArgumentDescriptor>,
    /// The named options.
    pub options: Vec<ArgumentDescriptor>,
    /// The flags.
    pub flags: Vec<ArgumentDescriptor>,
    /// The collector, bound after all other positionals.
    pub collector: Option<Collector>,
    /// The slot for the tokens after the separator.
    pub extra: Option<ArgumentDescriptor>,
}

/// The mathematical model of a [`Grammar`].
pub ghost struct GrammarView {
    pub name: Seq<char>,
    pub about: Option<Seq<char>>,
    pub required: Seq<DescriptorView>,
    pub optional: Seq<DescriptorView>,
    pub options: Seq<DescriptorView>,
    pub flags: Seq<DescriptorView>,
    pub collector: Option<CollectorView>,
    pub extra: Option<DescriptorView>,
}

impl View for Grammar {
    type V = GrammarView;

    open spec fn view(&self) -> GrammarView {
        GrammarView {
            name: self.name@,
            about: view_opt(self.about),
            required: views(self.required@),
            optional: views(self.optional@),
            options: views(self.options@),
            flags: views(self.flags@),
            collector: view_opt(self.collector),
            extra: view_opt(self.extra),
        }
    }
}

/// The short aliases of a list of descriptors, in order.
pub open spec fn aliases_of(list: Seq<DescriptorView>) -> Seq<Option<char>> {
    list.map_values(|d: DescriptorView| d.short)
}

/// Whether no alias occurs twice in `aliases`.
pub open spec fn distinct_aliases(aliases: Seq<Option<char>>) -> bool {
    forall|i: int, j: int|
        0 <= i < j < aliases.len() && aliases[j] is Some ==> aliases[i] != aliases[j]
}

/// The first index at or after `from` and before `j` whose alias is that of
/// `j`, if `j` has an alias and there is such an index.
pub open spec fn earlier_use(aliases: Seq<Option<char>>, j: int, from: int) -> Option<int>
    decreases j - from,
{
    if from >= j {
        None
    } else if aliases[j] is Some && aliases[from] == aliases[j] {
        Some(from)
    } else {
        earlier_use(aliases, j, from + 1)
    }
}

/// The first pair of indices with the same alias: the later index is the
/// least at or after `j` that repeats an alias, the earlier the first use of
/// that alias.
pub open spec fn first_clash(aliases: Seq<Option<char>>, j: int) -> Option<(int, int)>
    decreases aliases.len() - j,
{
    if j >= aliases.len() {
        None
    } else {
        match earlier_use(aliases, j, 0) {
            Some(i) => Some((i, j)),
            None => first_clash(aliases, j + 1),
        }
    }
}

impl GrammarView {
    /// The named options followed by the flags: the arguments that may carry
    /// a short alias.
    pub open spec fn named(self) -> Seq<DescriptorView> {
        self.options + self.flags
    }

    /// The kind of the `i`-th named argument.
    pub open spec fn named_kind(self, i: int) -> ArgumentKind {
        if i < self.options.len() {
            ArgumentKind::NamedOption
        } else {
            ArgumentKind::Flag
        }
    }

    /// The collector as a list of at most one descriptor.
    pub open spec fn collector_list(self) -> Seq<DescriptorView> {
        match self.collector {
            Some(c) => seq![c.descriptor],
            None => Seq::empty(),
        }
    }

    /// The kind of the collector, if there is one.
    pub open spec fn collector_kind(self) -> ArgumentKind {
        match self.collector {
            Some(c) => if c.required {
                ArgumentKind::CollectRequired
            } else {
                ArgumentKind::CollectOptional
            },
            None => ArgumentKind::CollectOptional,
        }
    }

    /// The trailing-extra slot as a list of at most one descriptor.
    pub open spec fn extra_list(self) -> Seq<DescriptorView> {
        match self.extra {
            Some(d) => seq![d],
            None => Seq::empty(),
        }
    }

    /// The rules every assembled grammar obeys: a collector and an optional
    /// positional do not coexist, no short alias is used twice, and no
    /// descriptor carries a default or a short alias that means nothing for
    /// its kind.
    pub open spec fn well_formed(self) -> bool {
        &&& self.collector is Some ==> self.optional.len() == 0
        &&& distinct_aliases(aliases_of(self.named()))
        &&& self.required == shaped_all(self.required, ArgumentKind::RequiredPositional)
        &&& self.optional == shaped_all(self.optional, ArgumentKind::OptionalPositional)
        &&& self.options == shaped_all(self.options, ArgumentKind::NamedOption)
        &&& self.flags == shaped_all(self.flags, ArgumentKind::Flag)
        &&& match self.collector {
            Some(c) => c.descriptor.default is None && c.descriptor.short is None,
            None => true,
        }
        &&& match self.extra {
            Some(d) => d.default is None && d.short is None,
            None => true,
        }
    }
}

/// The collector a set of groups declares: the optional one if it is there,
/// else the required one.
pub open spec fn declared_collector(groups: GroupsView) -> Option<CollectorView> {
    match groups.collect {
        Some(d) => Some(
            CollectorView {
                descriptor: shaped(d, ArgumentKind::CollectOptional),
                required: false,
            },
        ),
        None => match groups.collect_required {
            Some(d) => Some(
                CollectorView {
                    descriptor: shaped(d, ArgumentKind::CollectRequired),
                    required: true,
                },
            ),
            None => None,
        },
    }
}

/// The grammar that the groups give when nothing conflicts: every descriptor
/// shaped for its kind, the groups in their order.
pub open spec fn laid_out(name: Seq<char>, about: Option<Seq<char>>, groups: GroupsView)
    -> GrammarView {
    GrammarView {
        name,
        about,
        required: shaped_all(groups.required, ArgumentKind::RequiredPositional),
        optional: shaped_all(groups.optional, ArgumentKind::OptionalPositional),
        options: shaped_all(groups.options, ArgumentKind::NamedOption),
        flags: shaped_all(groups.flags, ArgumentKind::Flag),
        collector: declared_collector(groups),
        extra: match groups.extra {
            Some(d) => Some(shaped(d, ArgumentKind::TrailingExtra)),
            None => None,
        },
    }
}

/// The conflict among the groups, if there is one; `g` is the groups laid
/// out. Two collectors conflict; else a collector conflicts with any optional
/// positional; else the first two named arguments that share a short alias
/// conflict. The subject is the name of the later of the two.
pub open spec fn conflict_of(groups: GroupsView, g: GrammarView) -> Option<ErrorView> {
    if groups.collect is Some && groups.collect_required is Some {
        Some(
            ErrorView {
                kind: ErrorKind::GrammarConflict(
                    ArgumentKind::CollectOptional,
                    ArgumentKind::CollectRequired,
                ),
                subject: groups.collect_required->0.name,
            },
        )
    } else if g.collector is Some && g.optional.len() > 0 {
        Some(
            ErrorView {
                kind: ErrorKind::GrammarConflict(
                    ArgumentKind::OptionalPositional,
                    g.collector_kind(),
                ),
                subject: g.collector->0.descriptor.name,
            },
        )
    } else {
        match first_clash(aliases_of(g.named()), 0) {
            Some((i, j)) => Some(
                ErrorView {
                    kind: ErrorKind::GrammarConflict(g.named_kind(i), g.named_kind(j)),
                    subject: g.named()[j].name,
                },
            ),
            None => None,
        }
    }
}

/// What assembling the groups gives: the conflict if there is one, else the
/// grammar laid out.
pub open spec fn assembled(name: Seq<char>, about: Option<Seq<char>>, groups: GroupsView)
    -> Result<GrammarView, ErrorView> {
    let g = laid_out(name, about, groups);
    match conflict_of(groups, g) {
        Some(e) => Err(e),
        None => Ok(g),
    }
}

/// `earlier_use` finds the first earlier index with the alias of `j`.
pub proof fn lemma_earlier_use(aliases: Seq<Option<char>>, j: int, from: int)
    requires
        0 <= from,
        j < aliases.len(),
    ensures
        match earlier_use(aliases, j, from) {
            Some(i) => from <= i < j && aliases[j] is Some && aliases[i] == aliases[j],
            None => forall|i: int| from <= i < j && aliases[j] is Some ==> aliases[i] != aliases[j],
        },
    decreases j - from,
{
    if from < j && !(aliases[j] is Some && aliases[from] == aliases[j]) {
        lemma_earlier_use(aliases, j, from + 1);
    }
}

/// Where `first_clash` finds nothing from `j` on, no index from `j` on
/// repeats an alias; where it finds a pair, the pair shares an alias.
pub proof fn lemma_first_clash(aliases: Seq<Option<char>>, j: int)
    requires
        0 <= j,
    ensures
        match first_clash(aliases, j) {
            Some((a, b)) => 0 <= a < b < aliases.len() && j <= b && aliases[b] is Some
                && aliases[a] == aliases[b],
            None => forall|a: int, b: int|
                0 <= a < b < aliases.len() && j <= b && aliases[b] is Some ==> aliases[a]
                    != aliases[b],
        },
    decreases aliases.len() - j,
{
    if j < aliases.len() {
        lemma_earlier_use(aliases, j, 0);
        if earlier_use(aliases, j, 0) is None {
            lemma_first_clash(aliases, j + 1);
        }
    }
}

/// A grammar assembled without conflict is well formed.
pub proof fn lemma_assembled_well_formed(
    name: Seq<char>,
    about: Option<Seq<char>>,
    groups: GroupsView,
)
    requires
        assembled(name, about, groups) is Ok,
    ensures
        assembled(name, about, groups)->Ok_0.well_formed(),
{
    let g = laid_out(name, about, groups);
    lemma_first_clash(aliases_of(g.named()), 0);
    assert(g.required =~= shaped_all(g.required, ArgumentKind::RequiredPositional));
    assert(g.optional =~= shaped_all(g.optional, ArgumentKind::OptionalPositional));
    assert(g.options =~= shaped_all(g.options, ArgumentKind::NamedOption));
    assert(g.flags =~= shaped_all(g.flags, ArgumentKind::Flag));
}

/// Two collectors never assemble: whatever else the groups hold, declaring
/// both the optional and the required collector is a conflict of these two
/// kinds.
pub proof fn lemma_two_collectors_conflict(
    name: Seq<char>,
    about: Option<Seq<char>>,
    groups: GroupsView,
)
    requires
        groups.collect is Some,
        groups.collect_required is Some,
    ensures
        assembled(name, about, groups) is Err,
        assembled(name, about, groups)->Err_0.kind == ErrorKind::GrammarConflict(
            ArgumentKind::CollectOptional,
            ArgumentKind::CollectRequired,
        ),
{
}

/// The short aliases of the named options followed by those of the flags.
fn named_aliases(options: &Vec<ArgumentDescriptor>, flags: &Vec<ArgumentDescriptor>) -> (r: Vec<
    Option<char>,
>)
    ensures
        r@ == aliases_of(views(options@) + views(flags@)),
{
    let ghost all = views(options@) + views(flags@);
    let mut r: Vec<Option<char>> = Vec::new();
    let mut i: usize = 0;
    while i < options.len()
        invariant
            i <= options@.len(),
            all == views(options@) + views(flags@),
            r@ == aliases_of(all.take(i as int)),
        decreases options@.len() - i,
    {
        r.push(options[i].short);
        i += 1;
    }
    let mut k: usize = 0;
    while k < flags.len()
        invariant
            k <= flags@.len(),
            all == views(options@) + views(flags@),
            r@ == aliases_of(all.take(options@.len() + k)),
        decreases flags@.len() - k,
    {
        r.push(flags[k].short);
        k += 1;
    }
    r
}

/// The first pair of indices of `aliases` that share an alias.
fn find_clash(aliases: &Vec<Option<char>>) -> (r: Option<(usize, usize)>)
    ensures
        match r {
            Some((i, j)) => first_clash(aliases@, 0) == Some((i as int, j as int)) && i < j
                < aliases@.len(),
            None => first_clash(aliases@, 0) is None,
        },
{
    let mut j: usize = 0;
    while j < aliases.len()
        invariant
            j <= aliases@.len(),
            first_clash(aliases@, 0) == first_clash(aliases@, j as int),
        decreases aliases@.len() - j,
    {
        match aliases[j] {
            Some(c) => {
                let mut i: usize = 0;
                while i < j
                    invariant
                        i <= j < aliases@.len(),
                        aliases@[j as int] == Some(c),
                        first_clash(aliases@, 0) == first_clash(aliases@, j as int),
                        earlier_use(aliases@, j as int, 0) == earlier_use(
                            aliases@,
                            j as int,
                            i as int,
                        ),
                    decreases j - i,
                {
                    let same = match aliases[i] {
                        Some(d) => d == c,
                        None => false,
                    };
                    if same {
                        return Some((i, j));
                    }
                    i += 1;
                }
            },
            None => {
                proof {
                    lemma_earlier_use(aliases@, j as int, 0);
                }
            },
        }
        j += 1;
    }
    None
}

/// A collector slot made from `d`.
fn collector_from(d: &ArgumentDescriptor, required: bool) -> (c: Collector)
    ensures
        c@ == (CollectorView {
            descriptor: shaped(
                d@,
                if required {
                    ArgumentKind::CollectRequired
                } else {
                    ArgumentKind::CollectOptional
                },
            ),
            required,
        }),
{
    Collector {
        descriptor: d.shape(
            if required {
                ArgumentKind::CollectRequired
            } else {
                ArgumentKind::CollectOptional
            },
        ),
        required,
    }
}

impl Grammar {
    /// The kind of the collector; the optional kind if there is none.
    pub fn collector_kind(&self) -> (kind: ArgumentKind)
        ensures
            kind == self@.collector_kind(),
    {
        match &self.collector {
            Some(c) => if c.required {
                ArgumentKind::CollectRequired
            } else {
                ArgumentKind::CollectOptional
            },
            None => ArgumentKind::CollectOptional,
        }
    }

    /// Assembles the groups into a grammar for the program `name`, or reports
    /// the first conflict among them. No token is looked at.
    pub fn build(name: &str, about: Option<&str>, groups: &KindGroups) -> (r: Result<
        Grammar,
        Error,
    >)
        ensures
            match r {
                Ok(g) => assembled(name@, view_opt(about), groups@) == Ok::<
                    GrammarView,
                    ErrorView,
                >(g@) && g@.well_formed(),
                Err(e) => assembled(name@, view_opt(about), groups@) == Err::<
                    GrammarView,
                    ErrorView,
                >(e@),
            },
            groups.collect is Some && groups.collect_required is Some ==> r is Err && r->Err_0.kind
                == ErrorKind::GrammarConflict(
                ArgumentKind::CollectOptional,
                ArgumentKind::CollectRequired,
            ),
    {
        let collector = match &groups.collect {
            Some(d) => {
                match &groups.collect_required {
                    Some(other) => {
                        return Err(
                            Error::new(
                                ErrorKind::GrammarConflict(
                                    ArgumentKind::CollectOptional,
                                    ArgumentKind::CollectRequired,
                                ),
                                other.name.clone(),
                            ),
                        );
                    },
                    None => {},
                }
                Some(collector_from(d, false))
            },
            None => match &groups.collect_required {
                Some(d) => Some(collector_from(d, true)),
                None => None,
            },
        };
        match &collector {
            Some(c) => {
                if groups.optional.len() > 0 {
                    return Err(
                        Error::new(
                            ErrorKind::GrammarConflict(
                                ArgumentKind::OptionalPositional,
                                if c.required {
                                    ArgumentKind::CollectRequired
                                } else {
                                    ArgumentKind::CollectOptional
                                },
                            ),
                            c.descriptor.name.clone(),
                        ),
                    );
                }
            },
            None => {},
        }
        let options = shape_all(&groups.options, ArgumentKind::NamedOption);
        let flags = shape_all(&groups.flags, ArgumentKind::Flag);
        let aliases = named_aliases(&options, &flags);
        match find_clash(&aliases) {
            Some((i, j)) => {
                let first = if i < options.len() {
                    ArgumentKind::NamedOption
                } else {
                    ArgumentKind::Flag
                };
                let second = if j < options.len() {
                    ArgumentKind::NamedOption
                } else {
                    ArgumentKind::Flag
                };
                let subject = if j < options.len() {
                    options[j].name.clone()
                } else {
                    flags[j - options.len()].name.clone()
                };
                return Err(Error::new(ErrorKind::GrammarConflict(first, second), subject));
            },
            None => {},
        }
        let g = Grammar {
            name: name.to_owned(),
            about: match about {
                Some(text) => Some(text.to_owned()),
                None => None,
            },
            required: shape_all(&groups.required, ArgumentKind::RequiredPositional),
            optional: shape_all(&groups.optional, ArgumentKind::OptionalPositional),
            options,
            flags,
            collector,
            extra: match &groups.extra {
                Some(d) => Some(d.shape(ArgumentKind::TrailingExtra)),
                None => None,
            },
        };
        proof {
            lemma_assembled_well_formed(name@, view_opt(about), groups@);
        }
        Ok(g)
    }
}

} // verus!
