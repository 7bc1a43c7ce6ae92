//! The manager's command line.
//!
//! `liminescreenctl setup|install --image FILE [--esp /boot]` installs the
//! addon (and `setup` schedules one trial boot of it);
//! `liminescreenctl test|enable|disable|repair` manages an installation;
//! `version` and `help` print and stop.

use vstd::prelude::*;
use vstd::string::*;
use crate::error::Error;
use crate::text::string_views;

verus! {

broadcast use vstd::string::group_string_axioms;

/// What the manager is asked to do.
#[derive(Debug, Clone, Copy, PartialEq, Eq, Structural)]
pub enum Action {
    /// Install, then schedule one trial boot of the addon.
    Setup,
    /// Install or update the addon.
    Install,
    /// Schedule one trial boot of the addon.
    Test,
    /// Put the addon first in the persistent boot order.
    Enable,
    /// Take the addon out of the persistent boot order.
    Disable,
    /// Check the installation and restore its boot order when enabled.
    Repair,
}

/// A management action on an existing installation.
#[derive(Debug, Clone, Copy, PartialEq, Eq, Structural)]
pub enum ManageAction {
    Test,
    Enable,
    Disable,
    Repair,
}

/// A parsed command line.
#[derive(Debug)]
pub enum Invocation {
    /// Print the version.
    Version,
    /// Print the usage.
    Help,
    /// Carry out `action` on the ESP at `esp`, installing `image` if given.
    Run { action: Action, esp: String, image: Option<String> },
}

/// One procedure the manager carries out.
#[derive(Debug)]
pub enum Procedure {
    /// Install the image at this path.
    Install(String),
    /// Manage the installation.
    Manage(ManageAction),
}

/// The action that `name` names.
pub open spec fn action_named(name: Seq<char>) -> Option<Action> {
    if name == "setup"@ {
        Some(Action::Setup)
    } else if name == "install"@ {
        Some(Action::Install)
    } else if name == "test"@ {
        Some(Action::Test)
    } else if name == "enable"@ {
        Some(Action::Enable)
    } else if name == "disable"@ {
        Some(Action::Disable)
    } else if name == "repair"@ {
        Some(Action::Repair)
    } else {
        None
    }
}

/// The word that names `action` on the command line.
pub open spec fn action_word(action: Action) -> Seq<char> {
    match action {
        Action::Setup => "setup"@,
        Action::Install => "install"@,
        Action::Test => "test"@,
        Action::Enable => "enable"@,
        Action::Disable => "disable"@,
        Action::Repair => "repair"@,
    }
}

/// Each action is named by its own word and by no other: `name` means
/// `action` exactly when `name` is that action's word.
pub proof fn lemma_actions_named_by_their_words(name: Seq<char>, action: Action)
    ensures
        action_named(name) == Some(action) <==> name == action_word(action),
{
    reveal_strlit("setup");
    reveal_strlit("install");
    reveal_strlit("test");
    reveal_strlit("enable");
    reveal_strlit("disable");
    reveal_strlit("repair");
    reveal_strlit("help");
    reveal_strlit("--help");
    reveal_strlit("version");
    reveal_strlit("--version");
    assert("setup"@[0] != "install"@[0]);
    assert("setup"@[0] != "enable"@[0]);
    assert("setup"@[0] != "disable"@[0]);
    assert("setup"@[0] != "repair"@[0]);
    assert("setup"@.len() != "test"@.len());
    assert("install"@[0] != "test"@[0]);
    assert("install"@[0] != "enable"@[0]);
    assert("install"@[0] != "disable"@[0]);
    assert("install"@[0] != "repair"@[0]);
    assert("test"@[0] != "enable"@[0]);
    assert("test"@[0] != "disable"@[0]);
    assert("test"@[0] != "repair"@[0]);
    assert("enable"@[0] != "disable"@[0]);
    assert("enable"@[0] != "repair"@[0]);
    assert("disable"@[0] != "repair"@[0]);
}

/// The options never change the action that the first word chose.
proof fn lemma_options_keep_action(rest: Seq<Seq<char>>, action: Action, esp: Seq<char>, image: Option<Seq<char>>)
    ensures
        read_options(rest, action, esp, image) matches Usage::Run(chosen, _, _) ==> chosen == action,
        !(read_options(rest, action, esp, image) is Version),
        !(read_options(rest, action, esp, image) is Help),
        !(read_options(rest, action, esp, image) matches Usage::Refused(Error::UnknownAction)),
    decreases rest.len(),
{
    if rest.len() >= 2 {
        lemma_options_keep_action(rest.skip(2), action, rest[1], image);
        lemma_options_keep_action(rest.skip(2), action, esp, Some(rest[1]));
    }
}

/// A command line whose first word names an action is never taken for a
/// request of help or of the version, nor refused as an unknown action; when
/// it is run, it runs that action, whatever options follow.
pub proof fn lemma_command_word_picks_action(args: Seq<Seq<char>>, action: Action)
    requires
        args.len() > 0,
        args[0] == action_word(action),
    ensures
        !(usage(args) is Version),
        !(usage(args) is Help),
        !(usage(args) matches Usage::Refused(Error::UnknownAction)),
        usage(args) matches Usage::Run(chosen, _, _) ==> chosen == action,
{
    reveal_strlit("setup");
    reveal_strlit("install");
    reveal_strlit("test");
    reveal_strlit("enable");
    reveal_strlit("disable");
    reveal_strlit("repair");
    reveal_strlit("help");
    reveal_strlit("--help");
    reveal_strlit("version");
    reveal_strlit("--version");
    lemma_actions_named_by_their_words(args[0], action);
    let w = args[0];
    assert(w != "--version"@ && w != "version"@ && w != "help"@ && w != "--help"@) by {
        assert("--version"@[0] == '-');
        assert("--help"@[0] == '-');
        assert("version"@[0] == 'v');
        assert("help"@[0] == 'h');
        assert(w[0] != '-' && w[0] != 'v' && w[0] != 'h');
    }
    lemma_options_keep_action(args.skip(1), action, "/boot"@, None);
}

/// What a command line means.
pub enum Usage {
    Version,
    Help,
    Run(Action, Seq<char>, Option<Seq<char>>),
    Refused(Error),
    UnknownArgument(Seq<char>),
}

/// The options after the action, read from `rest` with `esp` and `image`
/// holding what earlier options set.
pub open spec fn read_options(rest: Seq<Seq<char>>, action: Action, esp: Seq<char>, image: Option<Seq<char>>) -> Usage
    decreases rest.len(),
{
    if rest.len() == 0 {
        Usage::Run(action, esp, image)
    } else if rest[0] == "--esp"@ {
        if rest.len() < 2 {
            Usage::Refused(Error::MissingEspPath)
        } else {
            read_options(rest.skip(2), action, rest[1], image)
        }
    } else if rest[0] == "--image"@ {
        if rest.len() < 2 {
            Usage::Refused(Error::MissingImagePath)
        } else {
            read_options(rest.skip(2), action, esp, Some(rest[1]))
        }
    } else {
        Usage::UnknownArgument(rest[0])
    }
}

/// What the arguments after the program name mean.
pub open spec fn usage(args: Seq<Seq<char>>) -> Usage {
    let name = if args.len() == 0 {
        "help"@
    } else {
        args[0]
    };
    if name == "--version"@ || name == "version"@ {
        Usage::Version
    } else if name == "help"@ || name == "--help"@ {
        Usage::Help
    } else {
        match action_named(name) {
            None => Usage::Refused(Error::UnknownAction),
            Some(action) => read_options(args.skip(1), action, "/boot"@, None),
        }
    }
}

/// The view of an optional string.
pub open spec fn optional_view(s: Option<String>) -> Option<Seq<char>> {
    match s {
        Some(v) => Some(v@),
        None => None,
    }
}

/// Whether a parse result is what `meaning` says.
pub open spec fn parsed_as(result: Result<Invocation, Error>, meaning: Usage) -> bool {
    match meaning {
        Usage::Version => result matches Ok(Invocation::Version),
        Usage::Help => result matches Ok(Invocation::Help),
        Usage::Run(action, esp, image) => match result {
            Ok(Invocation::Run { action: a, esp: e, image: i }) => a == action && e@ == esp
                && optional_view(i) == image,
            _ => false,
        },
        Usage::Refused(kind) => result == Err::<Invocation, Error>(kind),
        Usage::UnknownArgument(arg) => match result {
            Err(Error::UnknownArgument(a)) => a@ == arg,
            _ => false,
        },
    }
}

fn equals(a: &String, literal: &str) -> (eq: bool)
    ensures
        eq == (a@ == literal@),
{
    let b = literal.to_owned();
    *a == b
}

fn named_action(name: &String) -> (action: Option<Action>)
    ensures
        action == action_named(name@),
{
    if equals(name, "setup") {
        Some(Action::Setup)
    } else if equals(name, "install") {
        Some(Action::Install)
    } else if equals(name, "test") {
        Some(Action::Test)
    } else if equals(name, "enable") {
        Some(Action::Enable)
    } else if equals(name, "disable") {
        Some(Action::Disable)
    } else if equals(name, "repair") {
        Some(Action::Repair)
    } else {
        None
    }
}

/// Reads the command line `args` (without the program name).
pub fn parse_arguments(args: &[String]) -> (result: Result<Invocation, Error>)
    ensures
        parsed_as(result, usage(string_views(args@))),
{
    let ghost all = string_views(args@);
    let name = if args.len() == 0 {
        String::from_str("help")
    } else {
        args[0].clone()
    };
    assert(name@ == if all.len() == 0 { "help"@ } else { all[0] });
    if equals(&name, "--version") || equals(&name, "version") {
        return Ok(Invocation::Version);
    }
    if equals(&name, "help") || equals(&name, "--help") {
        return Ok(Invocation::Help);
    }
    let action = match named_action(&name) {
        None => return Err(Error::UnknownAction),
        Some(a) => a,
    };
    let mut esp = String::from_str("/boot");
    let mut image: Option<String> = None;
    let mut i: usize = 1;
    assert(all.skip(1).len() == all.len() - 1);
    while i < args.len()
        invariant
            1 <= i <= args.len(),
            all == string_views(args@),
            usage(all) == read_options(all.skip(i as int), action, esp@, optional_view(image)),
        decreases args.len() - i,
    {
        let ghost rest = all.skip(i as int);
        assert(rest[0] == args@[i as int]@);
        if equals(&args[i], "--esp") {
            if i + 1 >= args.len() {
                return Err(Error::MissingEspPath);
            }
            esp = args[i + 1].clone();
            assert(rest[1] == args@[i + 1]@);
            assert(rest.skip(2) =~= all.skip(i + 2));
            i = i + 2;
        } else if equals(&args[i], "--image") {
            if i + 1 >= args.len() {
                return Err(Error::MissingImagePath);
            }
            image = Some(args[i + 1].clone());
            assert(rest[1] == args@[i + 1]@);
            assert(rest.skip(2) =~= all.skip(i + 2));
            i = i + 2;
        } else {
            return Err(Error::UnknownArgument(args[i].clone()));
        }
    }
    assert(all.skip(i as int) =~= Seq::<Seq<char>>::empty());
    Ok(Invocation::Run { action, esp, image })
}

/// Whether the output of `id -u` shows that the manager runs as root.
pub fn runs_as_root(user_id: &str) -> (root: bool)
    ensures
        root == (user_id@ == "0"@),
{
    let id = user_id.to_owned();
    equals(&id, "0")
}

/// Whether `result` is an installation of the image at `path`, followed by
/// a trial boot when `then_test`.
pub open spec fn installs(result: Result<Vec<Procedure>, Error>, path: Seq<char>, then_test: bool) -> bool {
    match result {
        Ok(v) => {
            &&& v@.len() == if then_test { 2int } else { 1int }
            &&& v@[0] matches Procedure::Install(p) && p@ == path
            &&& then_test ==> v@[1] matches Procedure::Manage(ManageAction::Test)
        },
        Err(_) => false,
    }
}

/// Whether `result` is the single management action `action`.
pub open spec fn manages(result: Result<Vec<Procedure>, Error>, action: ManageAction) -> bool {
    match result {
        Ok(v) => {
            &&& v@.len() == 1
            &&& v@[0] matches Procedure::Manage(a) && a == action
        },
        Err(_) => false,
    }
}

/// The procedures that `action` carries out, in order: an installation
/// (which needs an image) followed, for `setup`, by a trial boot; or one
/// management action.
pub fn procedures(action: Action, image: Option<String>) -> (result: Result<Vec<Procedure>, Error>)
    ensures
        match action {
            Action::Setup => match image {
                None => result == Err::<Vec<Procedure>, Error>(Error::ImageRequired),
                Some(path) => installs(result, path@, true),
            },
            Action::Install => match image {
                None => result == Err::<Vec<Procedure>, Error>(Error::ImageRequired),
                Some(path) => installs(result, path@, false),
            },
            Action::Test => manages(result, ManageAction::Test),
            Action::Enable => manages(result, ManageAction::Enable),
            Action::Disable => manages(result, ManageAction::Disable),
            Action::Repair => manages(result, ManageAction::Repair),
        },
{
    let mut steps: Vec<Procedure> = Vec::new();
    match action {
        Action::Setup | Action::Install => {
            let path = match image {
                None => return Err(Error::ImageRequired),
                Some(p) => p,
            };
            steps.push(Procedure::Install(path));
            if action == Action::Setup {
                steps.push(Procedure::Manage(ManageAction::Test));
            }
        },
        Action::Test => steps.push(Procedure::Manage(ManageAction::Test)),
        Action::Enable => steps.push(Procedure::Manage(ManageAction::Enable)),
        Action::Disable => steps.push(Procedure::Manage(ManageAction::Disable)),
        Action::Repair => steps.push(Procedure::Manage(ManageAction::Repair)),
    }
    Ok(steps)
}

} // verus!
