//! Typed representation of an OpenAutoComplete specification document.
//!
//! The root type is [`Document`].  Reusable component definitions live in
//! [`Components`] and are pointed at by [`Reference`] values embedded in
//! the usage grammar, the [`Pattern`] DAG.

use vstd::prelude::*;

verus! {

/// Version of the specification this library implements.
pub const VERSION: &'static str = "0.2.1";

/// A typed pointer into [`Components`], e.g. `#/components/commands/foo`.
///
/// The expected target type is carried statically by `T`; resolution is
/// lazy and may be invoked repeatedly against an immutable [`Document`].
pub struct Reference<T> {
    /// The reference path, e.g. `#/components/commands/foo`.
    pub ref_path: String,
    /// Marker for the expected target type.
    pub phantom: core::marker::PhantomData<T>,
}

impl<T> View for Reference<T> {
    type V = Seq<char>;

    open spec fn view(&self) -> Seq<char> {
        self.ref_path@
    }
}

impl<T> DeepView for Reference<T> {
    type V = Seq<char>;

    open spec fn deep_view(&self) -> Seq<char> {
        self.ref_path@
    }
}

/// Root of a specification file; immutable once constructed.
pub struct Document {
    /// Metadata about the specification version the document declares.
    pub openautocompletion: OpenAutoCompletion,
    /// Registry of reusable, referenceable definitions.
    pub components: Components,
    /// Description of the general properties of the program.
    pub cli: Cli,
}

/// Metadata about the specification version a document declares.
pub struct OpenAutoCompletion {
    /// `major.minor` portion of the specification version, e.g. `1.0`.
    pub version: String,
}

/// Registry of the reusable components of a document.  Each mapping may be
/// absent; names are unique within each mapping.
pub struct Components {
    /// Named positional arguments.
    pub arguments: Option<Vec<(String, Argument)>>,
    /// Named options.
    pub options: Option<Vec<(String, CliOption)>>,
    /// Named subcommands.
    pub commands: Option<Vec<(String, Command)>>,
}

/// Specification of a positional argument, e.g. (`docker pull`) `IMAGE`.
pub struct Argument {
    /// Name that identifies this argument.
    pub name: String,
    /// Description of this argument.
    pub description: Option<String>,
}

/// Specification of an option, e.g. `--verbose`.
pub struct CliOption {
    /// Short option names as they appear on the command line, without prefix.
    pub names_short: Option<Vec<String>>,
    /// Long option names as they appear on the command line, without prefix.
    pub names_long: Option<Vec<String>>,
    /// Description of this option.
    pub description: Option<String>,
}

/// Specification of a subcommand, e.g. (`http`) `get`.
pub struct Command {
    /// Names used as command-line subcommands; the first entry is the
    /// least ambiguous form.  The list is meant to be non-empty.
    pub names: Vec<String>,
    /// Description of this subcommand.
    pub description: Option<String>,
}

/// Flags shared by every [`Pattern`] node, independent of its variant.
pub struct PatternCommon {
    /// The node may occur multiple times consecutively.
    pub repeated: bool,
    /// The node may be omitted entirely from a concrete command line.
    pub optional: bool,
}

/// A node in the usage grammar: a place where a component can appear.
pub enum Pattern {
    /// A subcommand position.
    Command {
        /// Which subcommand appears here.
        command: Reference<Command>,
        /// Flags shared by all variants.
        common: PatternCommon,
    },
    /// A positional argument position.
    Argument {
        /// Which argument appears here.
        argument: Reference<Argument>,
        /// Flags shared by all variants.
        common: PatternCommon,
    },
    /// An option position.
    Option {
        /// Which option appears here.
        option: Reference<CliOption>,
        /// How the option's value, if any, is itself parsed; absence means
        /// the option takes no value.
        argument: Option<Box<Pattern>>,
        /// Flags shared by all variants.
        common: PatternCommon,
    },
    /// A group of nested patterns.
    Group {
        /// If `true`, the members are mutually exclusive: exactly one may
        /// appear.  If `false`, all members are required, in the order
        /// given, except members individually marked optional.
        exclusive: bool,
        /// The members of this group.
        patterns: Vec<Pattern>,
        /// Flags shared by all variants.
        common: PatternCommon,
    },
}

/// Description of the general properties of the program.
pub struct Cli {
    /// The command itself, as it appears in the shell.
    pub name: String,
    /// Separators that may appear after long options.
    pub option_separators_long: Vec<String>,
    /// Separators that may appear after short options.
    pub option_separators_short: Vec<String>,
    /// Prefix for long options.
    pub option_prefix_long: String,
    /// Prefix for short options.
    pub option_prefix_short: String,
    /// All top-level usage patterns of the command.
    pub pattern_groups: Vec<Pattern>,
}

/// Mathematical model of an [`OpenAutoCompletion`].
#[verifier::ext_equal]
pub struct OpenAutoCompletionV {
    /// The declared version string.
    pub version: Seq<char>,
}

/// Mathematical model of a [`Components`] registry.
#[verifier::ext_equal]
pub struct ComponentsV {
    /// Named positional arguments.
    pub arguments: Option<Seq<(Seq<char>, ArgumentV)>>,
    /// Named options.
    pub options: Option<Seq<(Seq<char>, CliOptionV)>>,
    /// Named subcommands.
    pub commands: Option<Seq<(Seq<char>, CommandV)>>,
}

/// Mathematical model of an [`Argument`].
#[verifier::ext_equal]
pub struct ArgumentV {
    /// Name that identifies this argument.
    pub name: Seq<char>,
    /// Description of this argument.
    pub description: Option<Seq<char>>,
}

/// Mathematical model of a [`CliOption`].
#[verifier::ext_equal]
pub struct CliOptionV {
    /// Short option names.
    pub names_short: Option<Seq<Seq<char>>>,
    /// Long option names.
    pub names_long: Option<Seq<Seq<char>>>,
    /// Description of this option.
    pub description: Option<Seq<char>>,
}

/// Mathematical model of a [`Command`].
#[verifier::ext_equal]
pub struct CommandV {
    /// Names used as command-line subcommands.
    pub names: Seq<Seq<char>>,
    /// Description of this subcommand.
    pub description: Option<Seq<char>>,
}

/// Mathematical model of a [`PatternCommon`].
#[verifier::ext_equal]
pub struct PatternCommonV {
    /// The node may occur multiple times consecutively.
    pub repeated: bool,
    /// The node may be omitted entirely.
    pub optional: bool,
}

/// Mathematical model of a [`Pattern`] node; references appear as their
/// path strings.
#[verifier::ext_equal]
pub enum PatternV {
    Command { command: Seq<char>, common: PatternCommonV },
    Argument { argument: Seq<char>, common: PatternCommonV },
    Option { option: Seq<char>, argument: Option<Box<PatternV>>, common: PatternCommonV },
    Group { exclusive: bool, patterns: Seq<PatternV>, common: PatternCommonV },
}

/// Mathematical model of a [`Cli`].
#[verifier::ext_equal]
pub struct CliV {
    /// The command itself.
    pub name: Seq<char>,
    /// Separators after long options.
    pub option_separators_long: Seq<Seq<char>>,
    /// Separators after short options.
    pub option_separators_short: Seq<Seq<char>>,
    /// Prefix for long options.
    pub option_prefix_long: Seq<char>,
    /// Prefix for short options.
    pub option_prefix_short: Seq<char>,
    /// All top-level usage patterns.
    pub pattern_groups: Seq<PatternV>,
}

/// Mathematical model of a [`Document`].
#[verifier::ext_equal]
pub struct DocumentV {
    /// Declared specification version metadata.
    pub openautocompletion: OpenAutoCompletionV,
    /// The component registry.
    pub components: ComponentsV,
    /// The usage description.
    pub cli: CliV,
}

impl DeepView for OpenAutoCompletion {
    type V = OpenAutoCompletionV;

    open spec fn deep_view(&self) -> OpenAutoCompletionV {
        OpenAutoCompletionV { version: self.version@ }
    }
}

impl View for OpenAutoCompletion {
    type V = OpenAutoCompletionV;

    open spec fn view(&self) -> OpenAutoCompletionV {
        self.deep_view()
    }
}

impl DeepView for Argument {
    type V = ArgumentV;

    open spec fn deep_view(&self) -> ArgumentV {
        ArgumentV { name: self.name@, description: self.description.deep_view() }
    }
}

impl View for Argument {
    type V = ArgumentV;

    open spec fn view(&self) -> ArgumentV {
        self.deep_view()
    }
}

impl DeepView for CliOption {
    type V = CliOptionV;

    open spec fn deep_view(&self) -> CliOptionV {
        CliOptionV {
            names_short: self.names_short.deep_view(),
            names_long: self.names_long.deep_view(),
            description: self.description.deep_view(),
        }
    }
}

impl View for CliOption {
    type V = CliOptionV;

    open spec fn view(&self) -> CliOptionV {
        self.deep_view()
    }
}

impl DeepView for Command {
    type V = CommandV;

    open spec fn deep_view(&self) -> CommandV {
        CommandV { names: self.names.deep_view(), description: self.description.deep_view() }
    }
}

impl View for Command {
    type V = CommandV;

    open spec fn view(&self) -> CommandV {
        self.deep_view()
    }
}

impl DeepView for Components {
    type V = ComponentsV;

    open spec fn deep_view(&self) -> ComponentsV {
        ComponentsV {
            arguments: self.arguments.deep_view(),
            options: self.options.deep_view(),
            commands: self.commands.deep_view(),
        }
    }
}

impl View for Components {
    type V = ComponentsV;

    open spec fn view(&self) -> ComponentsV {
        self.deep_view()
    }
}

impl DeepView for PatternCommon {
    type V = PatternCommonV;

    open spec fn deep_view(&self) -> PatternCommonV {
        PatternCommonV { repeated: self.repeated, optional: self.optional }
    }
}

impl View for PatternCommon {
    type V = PatternCommonV;

    open spec fn view(&self) -> PatternCommonV {
        self.deep_view()
    }
}

/// The mathematical value of a [`Pattern`] node.
pub open spec fn pattern_view(p: Pattern) -> PatternV
    decreases p,
{
    match p {
        Pattern::Command { command, common } => (PatternV::Command {
            command: command.ref_path@,
            common: common.deep_view(),
        }),
        Pattern::Argument { argument, common } => (PatternV::Argument {
            argument: argument.ref_path@,
            common: common.deep_view(),
        }),
        Pattern::Option { option, argument, common } => (PatternV::Option {
            option: option.ref_path@,
            argument: match argument {
                Option::None => None,
                Option::Some(b) => Some(Box::new(pattern_view(*b))),
            },
            common: common.deep_view(),
        }),
        Pattern::Group { exclusive, patterns, common } => (PatternV::Group {
            exclusive,
            patterns: Seq::new(
                patterns@.len(),
                |i: int|
                    if 0 <= i < patterns@.len() {
                        pattern_view(patterns@[i])
                    } else {
                        PatternV::Group {
                            exclusive: false,
                            patterns: Seq::empty(),
                            common: PatternCommonV { repeated: false, optional: false },
                        }
                    },
            ),
            common: common.deep_view(),
        }),
    }
}

impl DeepView for Pattern {
    type V = PatternV;

    open spec fn deep_view(&self) -> PatternV {
        pattern_view(*self)
    }
}

impl View for Pattern {
    type V = PatternV;

    open spec fn view(&self) -> PatternV {
        pattern_view(*self)
    }
}

impl DeepView for Cli {
    type V = CliV;

    open spec fn deep_view(&self) -> CliV {
        CliV {
            name: self.name@,
            option_separators_long: self.option_separators_long.deep_view(),
            option_separators_short: self.option_separators_short.deep_view(),
            option_prefix_long: self.option_prefix_long@,
            option_prefix_short: self.option_prefix_short@,
            pattern_groups: self.pattern_groups.deep_view(),
        }
    }
}

impl View for Cli {
    type V = CliV;

    open spec fn view(&self) -> CliV {
        self.deep_view()
    }
}

impl DeepView for Document {
    type V = DocumentV;

    open spec fn deep_view(&self) -> DocumentV {
        DocumentV {
            openautocompletion: self.openautocompletion.deep_view(),
            components: self.components.deep_view(),
            cli: self.cli.deep_view(),
        }
    }
}

impl View for Document {
    type V = DocumentV;

    open spec fn view(&self) -> DocumentV {
        self.deep_view()
    }
}

impl Default for OpenAutoCompletion {
    /// The version this library implements, as the metadata default.
    fn default() -> (r: Self)
        ensures
            r@.version == VERSION@,
    {
        OpenAutoCompletion { version: String::from_str(VERSION) }
    }
}

/// Separators assumed after long options when a document names none.
pub fn default_option_separators_long() -> (r: Vec<String>)
    ensures
        r.deep_view() == seq!["="@, " "@],
{
    let mut v: Vec<String> = Vec::new();
    v.push(String::from_str("="));
    v.push(String::from_str(" "));
    proof {
        assert(v.deep_view() =~= seq!["="@, " "@]);
    }
    v
}

/// Separators assumed after short options when a document names none.
pub fn default_option_separators_short() -> (r: Vec<String>)
    ensures
        r.deep_view() == seq![" "@, ""@],
{
    let mut v: Vec<String> = Vec::new();
    v.push(String::from_str(" "));
    v.push(String::from_str(""));
    proof {
        assert(v.deep_view() =~= seq![" "@, ""@]);
    }
    v
}

/// Prefix assumed for long options when a document names none.
pub fn default_option_prefix_long() -> (r: String)
    ensures
        r@ == "--"@,
{
    String::from_str("--")
}

/// Prefix assumed for short options when a document names none.
pub fn default_option_prefix_short() -> (r: String)
    ensures
        r@ == "-"@,
{
    String::from_str("-")
}

} // verus!
