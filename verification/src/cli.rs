//! The command line of the tool itself: which arguments the script declares,
//! and the tokens to parse against them.
use vstd::prelude::*;
use crate::descriptor::{
    decoded,
    decoded_all,
    get_arg,
    shaped,
    with_arguments,
    ArgumentDescriptor,
    ArgumentKind,
    DescriptorView,
    ARG_DELIMITER,
};
use crate::grammar::{assembled, Grammar, GrammarView, GroupsView, KindGroups};
use crate::matcher::{as_result, matched, parse_args};
use crate::result::{Error, ErrorKind, ErrorView, MatchResult};
use crate::scanner::{
    asks_for_help,
    help_requested,
    last_value,
    last_value_of,
    scan,
    scanned,
    values_for,
    values_of,
    Scan,
    ScanView,
    Switch,
    SwitchView,
};
use crate::serializer::{render, rendered};
use crate::text::{view_opt, views, lemma_views_push};

verus! {

/// The name a program goes by when none is given.
pub const DEFAULT_NAME: &'static str = "myscript";

/// A script skeleton that declares a command line and evaluates the result.
pub const GENERATED_BOILERPLATE: &'static str =
    "\n# Command line interface (based on `spongecrab --generate`)\nAPP_NAME=$(basename \"${0%.*}\")\nABOUT=\"program description\"\n# Argument syntax: \"<arg_name>;<help_text>;<default_value>;<short_name>\"\n# -o, -c, -C are mutually exclusive\nCLI=(\n    -p \"arg1;Positional argument\"\n    -o \"arg2;Optional positional argument;<default value>\"\n    -O \"option;Optional argument;;o\"\n    -f \"flag;Optional flag argument;;f\"\n    # -c \"collect_any;Optional remaining positional arguments\"\n    # -C \"collect_some;Required remaining positional arguments\"\n    -e \"extra;Optional extra arguments after '--'\"\n)\nCLI=$(spongecrab --name \"$APP_NAME\" --about \"$ABOUT\" \"${CLI[@]}\" -- \"$@\") || exit 1\neval \"$CLI\" || exit 1\n";

/// A complete script that greets by name.
pub const EXAMPLE_SCRIPT: &'static str =
    "#!/bin/bash\n\n# Command line interface (see `spongecrab --generate`)\nAPP_NAME=$(basename \"${0%.*}\")\nABOUT=\"A hello world script.\"\n# Argument syntax: \"<arg_name>;<help_text>;<default_value>;<short_name>\"\nCLI=(\n    -p \"name;Name to greet\"\n    -o \"greetings;Greeting to use;Hello\"\n    -O \"notice;Print a notice after the greeting;;n\"\n    -f \"polite;Be polite;;p\"\n)\nCLI=$(spongecrab --name \"$APP_NAME\" --about \"$ABOUT\" \"${CLI[@]}\" -- \"$@\") || exit 1\neval \"$CLI\" || exit 1\n\n# Use the parsed arguments\necho \"$greetings $name\"\n[[ -z $polite ]] || echo \"Nice to meet you.\"\n[[ -z $notice ]] || echo \"Notice: $notice\"\n";

/// What the tool says about itself when asked for help.
pub const OWN_USAGE: &'static str =
    "Spongecrab - bringing powerful argument parsing to bash scripts\n\nSee '--example' and '--generate' for reference.\n\nUsage: spongecrab [OPTIONS] [-- <INPUT>...]\n\nArguments:\n  [INPUT]...  Raw text to parse\n\nOptions:\n      --name <NAME>              Application name [default: myscript]\n      --about <ABOUT>            Application about text\n  -p, --positional <POSITIONAL>  Add a (required) positional argument\n  -o, --optional <OPTIONAL>      Add an optional positional argument\n  -O, --option <OPTION>          Add an optional argument\n  -f, --flag <FLAG>              Add a flag argument\n  -c, --collect <COLLECT>        Collect remaining positional arguments\n  -C, --collect+ <COLLECT>       Collect (required) remaining positional arguments\n  -e, --extra <EXTRA>            Collect extra optional arguments after '--'\n  -P, --prefix <PREFIX>          Prefix for parsed variable names\n  -G, --generate                 Generate script boilerplate (see also '--example')\n      --example                  Generate example script\n  -h, --help                     Print help";

/// What the tool was asked to do: the declared arguments as encoded
/// descriptions, and the tokens to parse against them.
#[derive(Clone, Debug, PartialEq, Eq)]
pub struct CliBuilder {
    /// The name of the script.
    pub name: String,
    /// A line about the script.
    pub about: Option<String>,
    /// The required positional arguments.
    pub positional: Vec<String>,
    /// The optional positional arguments.
    pub optional: Vec<String>,
    /// The named options.
    pub option: Vec<String>,
    /// The flags.
    pub flag: Vec<String>,
    /// The collector of zero or more remaining positional arguments.
    pub collect: Option<String>,
    /// The collector of one or more remaining positional arguments.
    pub collect_required: Option<String>,
    /// The slot for the arguments after `--`.
    pub extra: Option<String>,
    /// What every variable name starts with.
    pub prefix: Option<String>,
    /// Whether to print the script skeleton instead of parsing.
    pub generate: bool,
    /// Whether to print the example script instead of parsing.
    pub example: bool,
    /// The tokens to parse.
    pub input: Vec<String>,
}

/// The mathematical model of a [`CliBuilder`].
pub ghost struct CliView {
    pub name: Seq<char>,
    pub about: Option<Seq<char>>,
    pub positional: Seq<Seq<char>>,
    pub optional: Seq<Seq<char>>,
    pub option: Seq<Seq<char>>,
    pub flag: Seq<Seq<char>>,
    pub collect: Option<Seq<char>>,
    pub collect_required: Option<Seq<char>>,
    pub extra: Option<Seq<char>>,
    pub prefix: Option<Seq<char>>,
    pub generate: bool,
    pub example: bool,
    pub input: Seq<Seq<char>>,
}

impl View for CliBuilder {
    type V = CliView;

    open spec fn view(&self) -> CliView {
        CliView {
            name: self.name@,
            about: view_opt(self.about),
            positional: views(self.positional@),
            optional: views(self.optional@),
            option: views(self.option@),
            flag: views(self.flag@),
            collect: view_opt(self.collect),
            collect_required: view_opt(self.collect_required),
            extra: view_opt(self.extra),
            prefix: view_opt(self.prefix),
            generate: self.generate,
            example: self.example,
            input: views(self.input@),
        }
    }
}

/// Where each of the tool's own switches stands in the table of
/// [`own_switches`].
pub const AT_NAME: usize = 0;

pub const AT_ABOUT: usize = 1;

pub const AT_POSITIONAL: usize = 2;

pub const AT_OPTIONAL: usize = 3;

pub const AT_OPTION: usize = 4;

pub const AT_FLAG: usize = 5;

pub const AT_COLLECT: usize = 6;

pub const AT_COLLECT_REQUIRED: usize = 7;

pub const AT_EXTRA: usize = 8;

pub const AT_PREFIX: usize = 9;

pub const AT_GENERATE: usize = 10;

pub const AT_EXAMPLE: usize = 11;

/// A switch of the tool's own command line.
pub open spec fn own_switch(long: Seq<char>, short: Option<char>, takes_value: bool)
    -> SwitchView {
    SwitchView { long, short, takes_value }
}

/// The switches of the tool's own command line. All but the last two take a
/// value.
pub open spec fn own_switches() -> Seq<SwitchView> {
    seq![
        own_switch("name"@, None, true),
        own_switch("about"@, None, true),
        own_switch("positional"@, Some('p'), true),
        own_switch("optional"@, Some('o'), true),
        own_switch("option"@, Some('O'), true),
        own_switch("flag"@, Some('f'), true),
        own_switch("collect"@, Some('c'), true),
        own_switch("collect+"@, Some('C'), true),
        own_switch("extra"@, Some('e'), true),
        own_switch("prefix"@, Some('P'), true),
        own_switch("generate"@, Some('G'), false),
        own_switch("example"@, None, false),
    ]
}

/// Each position named above holds the switch of that name.
pub proof fn lemma_own_switch_positions()
    ensures
        own_switches().len() == 12,
        own_switches()[AT_NAME as int].long == "name"@,
        own_switches()[AT_ABOUT as int].long == "about"@,
        own_switches()[AT_POSITIONAL as int].long == "positional"@,
        own_switches()[AT_OPTIONAL as int].long == "optional"@,
        own_switches()[AT_OPTION as int].long == "option"@,
        own_switches()[AT_FLAG as int].long == "flag"@,
        own_switches()[AT_COLLECT as int].long == "collect"@,
        own_switches()[AT_COLLECT_REQUIRED as int].long == "collect+"@,
        own_switches()[AT_EXTRA as int].long == "extra"@,
        own_switches()[AT_PREFIX as int].long == "prefix"@,
        own_switches()[AT_GENERATE as int].long == "generate"@,
        own_switches()[AT_EXAMPLE as int].long == "example"@,
{
}

/// The tokens of an invocation without the program's own name, which comes
/// first.
pub open spec fn own_tokens(args: Seq<Seq<char>>) -> Seq<Seq<char>> {
    if args.len() > 0 {
        args.skip(1)
    } else {
        args
    }
}

/// What an invocation asks for. The tokens before the first `--` are the
/// tool's own switches; a repeated list switch adds to its list, a repeated
/// single switch replaces the earlier value. What follows the `--` are the
/// tokens to parse. A token before the `--` that is no switch of the tool is
/// unknown; a switch without its value is missing its argument. `-h` or
/// `--help` before the `--` asks for the tool's own usage text, whatever else
/// the tokens hold.
pub open spec fn invoked(args: Seq<Seq<char>>) -> Result<CliView, ErrorView> {
    if help_requested(own_tokens(args)) {
        Err(ErrorView { kind: ErrorKind::HelpRequested, subject: OWN_USAGE@ })
    } else {
        invoked_without_help(own_tokens(args))
    }
}

/// What the tool's own tokens ask for when they hold no help request.
pub open spec fn invoked_without_help(tokens: Seq<Seq<char>>) -> Result<CliView, ErrorView> {
    match scanned(own_switches(), tokens) {
        ScanView::Unknown(token) => Err(
            ErrorView { kind: ErrorKind::UnknownArgument, subject: token },
        ),
        ScanView::MissingValue(k) => Err(
            ErrorView {
                kind: ErrorKind::MissingRequiredArgument,
                subject: own_switches()[k].long,
            },
        ),
        ScanView::Done { hits, free, trailing } => if free.len() > 0 {
            Err(ErrorView { kind: ErrorKind::UnknownArgument, subject: free[0] })
        } else {
            Ok(
                CliView {
                    name: match last_value(hits, AT_NAME as int) {
                        Some(v) => v,
                        None => DEFAULT_NAME@,
                    },
                    about: last_value(hits, AT_ABOUT as int),
                    positional: values_of(hits, AT_POSITIONAL as int),
                    optional: values_of(hits, AT_OPTIONAL as int),
                    option: values_of(hits, AT_OPTION as int),
                    flag: values_of(hits, AT_FLAG as int),
                    collect: last_value(hits, AT_COLLECT as int),
                    collect_required: last_value(hits, AT_COLLECT_REQUIRED as int),
                    extra: last_value(hits, AT_EXTRA as int),
                    prefix: last_value(hits, AT_PREFIX as int),
                    generate: last_value(hits, AT_GENERATE as int) is Some,
                    example: last_value(hits, AT_EXAMPLE as int) is Some,
                    input: trailing,
                },
            )
        },
    }
}

/// An optional description decoded as an argument of kind `kind`.
pub open spec fn decoded_opt(raw: Option<Seq<char>>, kind: ArgumentKind) -> Option<DescriptorView> {
    match raw {
        Some(r) => Some(shaped(decoded(r, ARG_DELIMITER), kind)),
        None => None,
    }
}

/// The descriptors that the descriptions of `cli` decode to, grouped by kind.
pub open spec fn groups_of(cli: CliView) -> GroupsView {
    GroupsView {
        required: decoded_all(cli.positional, ArgumentKind::RequiredPositional),
        optional: decoded_all(cli.optional, ArgumentKind::OptionalPositional),
        options: decoded_all(cli.option, ArgumentKind::NamedOption),
        flags: decoded_all(cli.flag, ArgumentKind::Flag),
        collect: decoded_opt(cli.collect, ArgumentKind::CollectOptional),
        collect_required: decoded_opt(cli.collect_required, ArgumentKind::CollectRequired),
        extra: decoded_opt(cli.extra, ArgumentKind::TrailingExtra),
    }
}

/// The grammar that `cli` declares, or the conflict among its descriptions.
pub open spec fn grammar_of(cli: CliView) -> Result<GrammarView, ErrorView> {
    assembled(cli.name, cli.about, groups_of(cli))
}

/// The prefix of the variable names: empty if none was given.
pub open spec fn prefix_of(cli: CliView) -> Seq<char> {
    match cli.prefix {
        Some(p) => p,
        None => Seq::empty(),
    }
}

/// What parsing gives. The example script and the script skeleton are
/// printed as they are. Else the grammar is assembled and the input matched
/// against it: a match gives the assignment lines joined by newlines; a
/// conflict, a failed match and a help request give an error, the help
/// request with the usage text as its subject.
pub open spec fn parsed(cli: CliView) -> Result<Seq<char>, ErrorView> {
    if cli.example {
        Ok(EXAMPLE_SCRIPT@)
    } else if cli.generate {
        Ok(GENERATED_BOILERPLATE@)
    } else {
        match grammar_of(cli) {
            Err(e) => Err(e),
            Ok(g) => match as_result(matched(g, cli.input)) {
                Ok(entries) => Ok(rendered(g, entries, prefix_of(cli))),
                Err(e) => Err(e),
            },
        }
    }
}

/// One switch of the tool's own command line.
fn own(long: &str, short: Option<char>, takes_value: bool) -> (s: Switch)
    ensures
        s@ == own_switch(long@, short, takes_value),
{
    Switch { long: long.to_owned(), short, takes_value }
}

/// The table of the tool's own switches.
fn own_table() -> (table: Vec<Switch>)
    ensures
        views(table@) == own_switches(),
{
    let mut table: Vec<Switch> = Vec::new();
    table.push(own("name", None, true));
    table.push(own("about", None, true));
    table.push(own("positional", Some('p'), true));
    table.push(own("optional", Some('o'), true));
    table.push(own("option", Some('O'), true));
    table.push(own("flag", Some('f'), true));
    table.push(own("collect", Some('c'), true));
    table.push(own("collect+", Some('C'), true));
    table.push(own("extra", Some('e'), true));
    table.push(own("prefix", Some('P'), true));
    table.push(own("generate", Some('G'), false));
    table.push(own("example", None, false));
    table
}

/// The tokens of `input` after the first, as owned strings.
fn tokens_after_name(input: &[&str]) -> (tokens: Vec<String>)
    ensures
        views(tokens@) == own_tokens(views(input@)),
{
    let mut tokens: Vec<String> = Vec::new();
    if input.len() == 0 {
        return tokens;
    }
    let mut i: usize = 1;
    while i < input.len()
        invariant
            1 <= i <= input@.len(),
            views(tokens@) == views(input@).subrange(1, i as int),
        decreases input@.len() - i,
    {
        let t = input[i].to_owned();
        proof {
            lemma_views_push(tokens@, t);
        }
        tokens.push(t);
        i += 1;
    }
    tokens
}

/// An optional description decoded as an argument of kind `kind`.
fn get_arg_opt(raw: &Option<String>, kind: ArgumentKind) -> (r: Option<ArgumentDescriptor>)
    ensures
        view_opt(r) == decoded_opt(view_opt(*raw), kind),
{
    match raw {
        Some(text) => Some(get_arg(text.as_str(), kind)),
        None => None,
    }
}

impl CliBuilder {
    /// Reads the tool's own command line. `input` starts with the program's
    /// name, which is skipped.
    pub fn new(input: &[&str]) -> (r: Result<CliBuilder, Error>)
        ensures
            match r {
                Ok(cli) => invoked(views(input@)) == Ok::<CliView, ErrorView>(cli@),
                Err(e) => invoked(views(input@)) == Err::<CliView, ErrorView>(e@),
            },
    {
        let tokens = tokens_after_name(input);
        if asks_for_help(&tokens) {
            return Err(Error::new(ErrorKind::HelpRequested, OWN_USAGE.to_owned()));
        }
        let table = own_table();
        match scan(&table, &tokens) {
            Scan::Unknown(token) => Err(Error::new(ErrorKind::UnknownArgument, token)),
            Scan::MissingValue(k) => Err(
                Error::new(ErrorKind::MissingRequiredArgument, table[k].long.clone()),
            ),
            Scan::Done { hits, free, trailing } => {
                if free.len() > 0 {
                    return Err(Error::new(ErrorKind::UnknownArgument, free[0].clone()));
                }
                Ok(
                    CliBuilder {
                        name: match last_value_of(&hits, AT_NAME) {
                            Some(v) => v,
                            None => DEFAULT_NAME.to_owned(),
                        },
                        about: last_value_of(&hits, AT_ABOUT),
                        positional: values_for(&hits, AT_POSITIONAL),
                        optional: values_for(&hits, AT_OPTIONAL),
                        option: values_for(&hits, AT_OPTION),
                        flag: values_for(&hits, AT_FLAG),
                        collect: last_value_of(&hits, AT_COLLECT),
                        collect_required: last_value_of(&hits, AT_COLLECT_REQUIRED),
                        extra: last_value_of(&hits, AT_EXTRA),
                        prefix: last_value_of(&hits, AT_PREFIX),
                        generate: last_value_of(&hits, AT_GENERATE).is_some(),
                        example: last_value_of(&hits, AT_EXAMPLE).is_some(),
                        input: trailing,
                    },
                )
            },
        }
    }

    /// Assembles the grammar that the descriptions declare.
    pub fn build(&self) -> (r: Result<Grammar, Error>)
        ensures
            match r {
                Ok(g) => grammar_of(self@) == Ok::<GrammarView, ErrorView>(g@) && g@.well_formed(),
                Err(e) => grammar_of(self@) == Err::<GrammarView, ErrorView>(e@),
            },
            self.collect is Some && self.collect_required is Some ==> r is Err && r->Err_0.kind
                == ErrorKind::GrammarConflict(
                ArgumentKind::CollectOptional,
                ArgumentKind::CollectRequired,
            ),
    {
        let groups = KindGroups {
            required: with_arguments(&self.positional, ArgumentKind::RequiredPositional),
            optional: with_arguments(&self.optional, ArgumentKind::OptionalPositional),
            options: with_arguments(&self.option, ArgumentKind::NamedOption),
            flags: with_arguments(&self.flag, ArgumentKind::Flag),
            collect: get_arg_opt(&self.collect, ArgumentKind::CollectOptional),
            collect_required: get_arg_opt(&self.collect_required, ArgumentKind::CollectRequired),
            extra: get_arg_opt(&self.extra, ArgumentKind::TrailingExtra),
        };
        let about = match &self.about {
            Some(text) => Some(text.as_str()),
            None => None,
        };
        Grammar::build(self.name.as_str(), about, &groups)
    }

    /// Produces the text for the shell to evaluate: the parsed arguments as
    /// variable assignments.
    pub fn parse(&self) -> (r: Result<String, Error>)
        ensures
            match r {
                Ok(text) => parsed(self@) == Ok::<Seq<char>, ErrorView>(text@),
                Err(e) => parsed(self@) == Err::<Seq<char>, ErrorView>(e@),
            },
            !self.example && !self.generate && self.collect is Some && self.collect_required
                is Some ==> r is Err && r->Err_0.kind == ErrorKind::GrammarConflict(
                ArgumentKind::CollectOptional,
                ArgumentKind::CollectRequired,
            ),
    {
        if self.example {
            return Ok(EXAMPLE_SCRIPT.to_owned());
        }
        if self.generate {
            return Ok(GENERATED_BOILERPLATE.to_owned());
        }
        let grammar = match self.build() {
            Ok(g) => g,
            Err(e) => {
                return Err(e);
            },
        };
        match parse_args(&grammar, &self.input) {
            Ok(result) => Ok(self.output_values(&grammar, &result)),
            Err(e) => Err(e),
        }
    }

    /// The assignment lines for a match, joined by newlines, each variable
    /// name starting with the prefix.
    pub fn output_values(&self, grammar: &Grammar, result: &MatchResult) -> (text: String)
        ensures
            text@ == rendered(grammar@, result@, prefix_of(self@)),
    {
        match &self.prefix {
            Some(p) => render(grammar, result, p.as_str()),
            None => {
                assert(""@ =~= Seq::<char>::empty()) by {
                    reveal_strlit("");
                }
                render(grammar, result, "")
            },
        }
    }
}

} // verus!
