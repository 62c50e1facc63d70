//! What the command line asks for: one subcommand, or a sequence of tokens that
//! is read from left to right.

use crate::text::same_text;
use vstd::prelude::*;

verus! {

/// One thing the tool can do.
#[derive(Debug, Clone, PartialEq, Eq)]
pub enum Commands {
    /// Remove the container.
    Rm,
    /// Start the container.
    Run,
    /// Build the image.
    Build,
    /// Add a package to the Dockerfile.
    Add { package: String },
}

/// A command as plain values.
pub enum CommandView {
    Rm,
    Run,
    Build,
    Add { package: Seq<char> },
}

impl DeepView for Commands {
    type V = CommandView;

    open spec fn deep_view(&self) -> CommandView {
        match self {
            Commands::Rm => CommandView::Rm,
            Commands::Run => CommandView::Run,
            Commands::Build => CommandView::Build,
            Commands::Add { package } => CommandView::Add { package: package@ },
        }
    }
}

impl View for Commands {
    type V = CommandView;

    open spec fn view(&self) -> CommandView {
        self.deep_view()
    }
}

/// The parsed command line.
#[derive(Debug, Clone, PartialEq, Eq)]
pub struct Cli {
    /// The subcommand, if one was given.
    pub command: Option<Commands>,
    /// The tokens of a free sequence of commands.
    pub sequence: Vec<String>,
}

/// Why a sequence of tokens cannot be followed to its end.
#[derive(Debug, Clone, PartialEq, Eq)]
pub enum Fault {
    /// `add` is the last token: the package is missing.
    MissingPackage,
    /// The token is no command.
    UnknownCommand(String),
}

/// A fault as plain values.
pub enum FaultView {
    MissingPackage,
    UnknownCommand(Seq<char>),
}

impl DeepView for Fault {
    type V = FaultView;

    open spec fn deep_view(&self) -> FaultView {
        match self {
            Fault::MissingPackage => FaultView::MissingPackage,
            Fault::UnknownCommand(token) => FaultView::UnknownCommand(token@),
        }
    }
}

/// What to do for a command line: show the help text, or execute `commands` in
/// their order and then, where there is a fault, report it and give up.
#[derive(Debug, Clone, PartialEq, Eq)]
pub struct Plan {
    pub help: bool,
    pub commands: Vec<Commands>,
    pub fault: Option<Fault>,
}

/// A plan as plain values.
pub struct PlanView {
    pub help: bool,
    pub commands: Seq<CommandView>,
    pub fault: Option<FaultView>,
}

impl View for Plan {
    type V = PlanView;

    open spec fn view(&self) -> PlanView {
        PlanView {
            help: self.help,
            commands: self.commands.deep_view(),
            fault: self.fault.deep_view(),
        }
    }
}

/// Whether `token` names a command that takes no argument, and which.
pub open spec fn plain_command(token: Seq<char>) -> Option<CommandView> {
    if token == "rm"@ {
        Some(CommandView::Rm)
    } else if token == "run"@ {
        Some(CommandView::Run)
    } else if token == "build"@ {
        Some(CommandView::Build)
    } else {
        None
    }
}

/// The commands that a sequence of tokens asks for, up to its first fault.
/// `add` takes the token behind it as its package, whatever that token is.
pub open spec fn commands_of(tokens: Seq<Seq<char>>) -> Seq<CommandView>
    decreases tokens.len(),
{
    if tokens.len() == 0 {
        Seq::empty()
    } else if plain_command(tokens[0]) is Some {
        seq![plain_command(tokens[0])->0] + commands_of(tokens.skip(1))
    } else if tokens[0] == "add"@ && tokens.len() >= 2 {
        seq![CommandView::Add { package: tokens[1] }] + commands_of(tokens.skip(2))
    } else {
        Seq::empty()
    }
}

/// The first fault of a sequence of tokens, if it has one: an `add` with
/// nothing behind it, or a token that is no command.
pub open spec fn fault_of(tokens: Seq<Seq<char>>) -> Option<FaultView>
    decreases tokens.len(),
{
    if tokens.len() == 0 {
        None
    } else if plain_command(tokens[0]) is Some {
        fault_of(tokens.skip(1))
    } else if tokens[0] == "add"@ {
        if tokens.len() >= 2 {
            fault_of(tokens.skip(2))
        } else {
            Some(FaultView::MissingPackage)
        }
    } else {
        Some(FaultView::UnknownCommand(tokens[0]))
    }
}

/// The plan for a command line. A sequence of tokens goes before a subcommand;
/// with neither, the help text is shown.
pub open spec fn plan_of(command: Option<CommandView>, sequence: Seq<Seq<char>>) -> PlanView {
    if sequence.len() > 0 {
        PlanView { help: false, commands: commands_of(sequence), fault: fault_of(sequence) }
    } else {
        match command {
            Some(c) => PlanView { help: false, commands: seq![c], fault: None },
            None => PlanView { help: true, commands: Seq::empty(), fault: None },
        }
    }
}

/// The code that the process ends with after a plan was followed: 1 after a
/// fault, 0 otherwise.
pub open spec fn exit_code_of(plan: PlanView) -> int {
    if plan.fault is Some {
        1
    } else {
        0
    }
}

/// Reads a sequence of tokens from left to right: the commands it asks for, and
/// the fault at which reading stopped, if there is one.
pub fn parse_sequence(tokens: &Vec<String>) -> (plan: Plan)
    ensures
        !plan.help,
        plan.commands.deep_view() == commands_of(tokens.deep_view()),
        plan.fault.deep_view() == fault_of(tokens.deep_view()),
{
    let ghost all = tokens.deep_view();
    let n = tokens.len();
    let mut commands: Vec<Commands> = Vec::new();
    let mut fault: Option<Fault> = None;
    let mut i: usize = 0;
    proof {
        assert(all.skip(0) =~= all);
    }
    while i < n
        invariant_except_break
            fault is None,
        invariant
            i <= n == tokens.len(),
            all == tokens.deep_view(),
            commands_of(all) == commands.deep_view() + (if fault is Some {
                Seq::empty()
            } else {
                commands_of(all.skip(i as int))
            }),
            fault_of(all) == (if fault is Some {
                fault.deep_view()
            } else {
                fault_of(all.skip(i as int))
            }),
        ensures
            fault is None ==> i >= n,
        decreases n - i,
    {
        let ghost rest = all.skip(i as int);
        let ghost done = commands.deep_view();
        let token = tokens[i].as_str();
        proof {
            assert(rest[0] == tokens[i as int]@);
            assert(rest.skip(1) =~= all.skip(i + 1));
            assert(done + Seq::<CommandView>::empty() =~= done);
        }
        if same_text(token, "rm") {
            commands.push(Commands::Rm);
            i = i + 1;
        } else if same_text(token, "run") {
            commands.push(Commands::Run);
            i = i + 1;
        } else if same_text(token, "build") {
            commands.push(Commands::Build);
            i = i + 1;
        } else if same_text(token, "add") {
            if i + 1 < n {
                proof {
                    assert(rest[1] == tokens[i + 1]@);
                    assert(rest.skip(2) =~= all.skip(i + 2));
                }
                commands.push(Commands::Add { package: tokens[i + 1].clone() });
                i = i + 2;
            } else {
                fault = Some(Fault::MissingPackage);
                break ;
            }
        } else {
            fault = Some(Fault::UnknownCommand(tokens[i].clone()));
            break ;
        }
        proof {
            assert(commands.deep_view() =~= done.push(commands_of(rest)[0]));
            assert(commands.deep_view() + commands_of(all.skip(i as int)) =~= done + commands_of(
                rest,
            ));
        }
    }
    proof {
        if fault is None {
            assert(all.skip(i as int) =~= Seq::<Seq<char>>::empty());
        }
        assert(commands.deep_view() + Seq::<CommandView>::empty() =~= commands.deep_view());
    }
    Plan { help: false, commands, fault }
}

impl Cli {
    /// What to do for this command line.
    pub fn plan(self) -> (plan: Plan)
        ensures
            plan@ == plan_of(self.command.deep_view(), self.sequence.deep_view()),
    {
        if self.sequence.len() > 0 {
            parse_sequence(&self.sequence)
        } else {
            match self.command {
                Some(command) => {
                    let mut commands: Vec<Commands> = Vec::new();
                    commands.push(command);
                    proof {
                        assert(commands.deep_view() =~= seq![command.deep_view()]);
                    }
                    Plan { help: false, commands, fault: None }
                },
                None => {
                    let commands: Vec<Commands> = Vec::new();
                    proof {
                        assert(commands.deep_view() =~= Seq::<CommandView>::empty());
                    }
                    Plan { help: true, commands, fault: None }
                },
            }
        }
    }
}

impl Plan {
    /// The code to end the process with once the plan was followed.
    pub fn exit_code(&self) -> (code: i32)
        ensures
            code == exit_code_of(self@),
    {
        match self.fault {
            Some(_) => 1,
            None => 0,
        }
    }
}

} // verus!
