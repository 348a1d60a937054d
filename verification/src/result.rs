//! The values a match binds to argument names, and the ways a parse ends
//! without them.
use vstd::prelude::*;
use crate::descriptor::ArgumentKind;
use crate::text::views;

verus! {

/// Why a parse ended without output.
#[derive(Clone, Copy, Debug, PartialEq, Eq, Structural)]
pub enum ErrorKind {
    /// Two descriptors cannot stand in one grammar; the kinds are those of the
    /// earlier and of the later of the two.
    GrammarConflict(ArgumentKind, ArgumentKind),
    /// A slot that must be filled got no token.
    MissingRequiredArgument,
    /// A token fits no declared rule.
    UnknownArgument,
    /// Help was asked for. Not a failure in intent, but it travels the same way.
    HelpRequested,
}

/// A parse that ended without output: the kind, and the text that goes with it.
#[derive(Clone, Debug, PartialEq, Eq)]
pub struct Error {
    /// What went wrong.
    pub kind: ErrorKind,
    /// For a conflict the name of the later descriptor, for a missing argument
    /// the name of the unmet slot, for an unknown argument the offending
    /// token, for a help request the help text.
    pub subject: String,
}

/// The mathematical model of an [`Error`].
pub ghost struct ErrorView {
    pub kind: ErrorKind,
    pub subject: Seq<char>,
}

impl View for Error {
    type V = ErrorView;

    open spec fn view(&self) -> ErrorView {
        ErrorView { kind: self.kind, subject: self.subject@ }
    }
}

/// The words for an argument kind in a diagnostic.
pub open spec fn kind_label(kind: ArgumentKind) -> Seq<char> {
    match kind {
        ArgumentKind::RequiredPositional => "required positional"@,
        ArgumentKind::OptionalPositional => "optional positional"@,
        ArgumentKind::NamedOption => "named option"@,
        ArgumentKind::Flag => "flag"@,
        ArgumentKind::CollectOptional => "optional collector"@,
        ArgumentKind::CollectRequired => "required collector"@,
        ArgumentKind::TrailingExtra => "trailing extra"@,
    }
}

/// The text an error is reported with: what went wrong and the subject for a
/// failure, the help text itself for a help request.
pub open spec fn diagnostic(e: ErrorView) -> Seq<char> {
    match e.kind {
        ErrorKind::GrammarConflict(first, second) => "grammar conflict: "@ + kind_label(first)
            + " and "@ + kind_label(second) + ": "@ + e.subject,
        ErrorKind::MissingRequiredArgument => "missing required argument: "@ + e.subject,
        ErrorKind::UnknownArgument => "unknown argument: "@ + e.subject,
        ErrorKind::HelpRequested => e.subject,
    }
}

/// The words for an argument kind in a diagnostic.
pub fn label_of(kind: ArgumentKind) -> (r: &'static str)
    ensures
        r@ == kind_label(kind),
{
    match kind {
        ArgumentKind::RequiredPositional => "required positional",
        ArgumentKind::OptionalPositional => "optional positional",
        ArgumentKind::NamedOption => "named option",
        ArgumentKind::Flag => "flag",
        ArgumentKind::CollectOptional => "optional collector",
        ArgumentKind::CollectRequired => "required collector",
        ArgumentKind::TrailingExtra => "trailing extra",
    }
}

impl Error {
    /// An error of kind `kind` about `subject`.
    pub fn new(kind: ErrorKind, subject: String) -> (e: Error)
        ensures
            e@ == (ErrorView { kind, subject: subject@ }),
    {
        Error { kind, subject }
    }

    /// The text to report the error with.
    pub fn message(&self) -> (r: String)
        ensures
            r@ == diagnostic(self@),
    {
        let mut r = String::new();
        match self.kind {
            ErrorKind::GrammarConflict(first, second) => {
                r.append("grammar conflict: ");
                r.append(label_of(first));
                r.append(" and ");
                r.append(label_of(second));
                r.append(": ");
            },
            ErrorKind::MissingRequiredArgument => {
                r.append("missing required argument: ");
            },
            ErrorKind::UnknownArgument => {
                r.append("unknown argument: ");
            },
            ErrorKind::HelpRequested => {},
        }
        r.append(self.subject.as_str());
        r
    }
}

/// What a match binds to one argument name.
#[derive(Clone, Debug, PartialEq, Eq)]
pub enum ArgValue {
    /// Nothing was given and nothing was declared as default.
    Absent,
    /// One value.
    Scalar(String),
    /// The values a collector or the trailing-extra slot captured, in order.
    Multi(Vec<String>),
    /// Whether a flag was given.
    Bool(bool),
}

/// The mathematical model of an [`ArgValue`].
pub ghost enum ValueView {
    Absent,
    Scalar(Seq<char>),
    Multi(Seq<Seq<char>>),
    Bool(bool),
}

impl View for ArgValue {
    type V = ValueView;

    open spec fn view(&self) -> ValueView {
        match self {
            ArgValue::Absent => ValueView::Absent,
            ArgValue::Scalar(s) => ValueView::Scalar(s@),
            ArgValue::Multi(v) => ValueView::Multi(views(v@)),
            ArgValue::Bool(b) => ValueView::Bool(*b),
        }
    }
}

/// One argument name with the value bound to it.
#[derive(Clone, Debug, PartialEq, Eq)]
pub struct Binding {
    /// The descriptor's name, hyphens kept.
    pub name: String,
    /// The value bound to it.
    pub value: ArgValue,
}

impl View for Binding {
    type V = (Seq<char>, ValueView);

    open spec fn view(&self) -> (Seq<char>, ValueView) {
        (self.name@, self.value@)
    }
}

/// The index of the first binding of `name` at or after `from`, if any.
pub open spec fn position_from(entries: Seq<(Seq<char>, ValueView)>, name: Seq<char>, from: int)
    -> Option<int>
    decreases entries.len() - from,
{
    if from >= entries.len() {
        None
    } else if entries[from].0 == name {
        Some(from)
    } else {
        position_from(entries, name, from + 1)
    }
}

/// The value bound to `name`: that of its first binding, `Absent` if it has
/// none.
pub open spec fn lookup(entries: Seq<(Seq<char>, ValueView)>, name: Seq<char>) -> ValueView {
    match position_from(entries, name, 0) {
        Some(i) => entries[i].1,
        None => ValueView::Absent,
    }
}

/// `position_from` finds the first binding of the name at or after `from`.
pub proof fn lemma_position_from(entries: Seq<(Seq<char>, ValueView)>, name: Seq<char>, from: int)
    requires
        0 <= from,
    ensures
        match position_from(entries, name, from) {
            Some(i) => from <= i < entries.len() && entries[i].0 == name && forall|j: int|
                from <= j < i ==> entries[j].0 != name,
            None => forall|j: int| from <= j < entries.len() ==> entries[j].0 != name,
        },
    decreases entries.len() - from,
{
    if from < entries.len() && entries[from].0 != name {
        lemma_position_from(entries, name, from + 1);
    }
}

/// The outcome of a successful match: argument names with their values, in
/// the order in which the grammar declares the arguments.
#[derive(Clone, Debug, PartialEq, Eq)]
pub struct MatchResult {
    /// The bindings, in declaration order.
    pub entries: Vec<Binding>,
}

impl View for MatchResult {
    type V = Seq<(Seq<char>, ValueView)>;

    open spec fn view(&self) -> Seq<(Seq<char>, ValueView)> {
        views(self.entries@)
    }
}

impl MatchResult {
    /// The value bound to `name`, or `None` if the name has no binding.
    pub fn get(&self, name: &str) -> (r: Option<&ArgValue>)
        ensures
            match r {
                Some(v) => position_from(self@, name@, 0) is Some && v@ == lookup(self@, name@),
                None => position_from(self@, name@, 0) is None,
            },
    {
        let key = name.to_owned();
        let mut i: usize = 0;
        while i < self.entries.len()
            invariant
                i <= self.entries@.len(),
                key@ == name@,
                position_from(self@, name@, 0) == position_from(self@, name@, i as int),
            decreases self.entries@.len() - i,
        {
            if self.entries[i].name == key {
                return Some(&self.entries[i].value);
            }
            i += 1;
        }
        None
    }
}

/// How matching a token stream against a grammar ended.
#[derive(Clone, Debug, PartialEq, Eq)]
pub enum Outcome {
    /// Every token found its place.
    Matched(MatchResult),
    /// Help was asked for; the text is the grammar's usage text.
    HelpRequested(String),
    /// The tokens do not fit the grammar.
    Failed(Error),
}

/// The mathematical model of an [`Outcome`].
pub ghost enum OutcomeView {
    Matched(Seq<(Seq<char>, ValueView)>),
    HelpRequested(Seq<char>),
    Failed(ErrorView),
}

impl View for Outcome {
    type V = OutcomeView;

    open spec fn view(&self) -> OutcomeView {
        match self {
            Outcome::Matched(m) => OutcomeView::Matched(m@),
            Outcome::HelpRequested(text) => OutcomeView::HelpRequested(text@),
            Outcome::Failed(e) => OutcomeView::Failed(e@),
        }
    }
}

} // verus!
