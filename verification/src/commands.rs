//! Slash-command parsing and autocomplete suggestions.
//!
//! Input starting with `/` is parsed into a built-in command, an
//! agent-provided command, or `Unknown`; suggestion lists filter the
//! built-ins and the agent commands by prefix, in that order.

use vstd::prelude::*;
use vstd::string::StrSliceExecFns;
use vstd::string::StringExecFns;

use crate::text::{spec_trim, starts_with_spec, str_eq, str_starts_with, trim};

verus! {

// ===== the command types =====

/// A built-in slash command.
#[derive(Debug, Clone)]
pub struct SlashCommand {
    pub name: String,
    pub description: String,
    pub takes_arg: bool,
}

pub ghost struct SlashCommandView {
    pub name: Seq<char>,
    pub description: Seq<char>,
    pub takes_arg: bool,
}

impl View for SlashCommand {
    type V = SlashCommandView;

    open spec fn view(&self) -> SlashCommandView {
        SlashCommandView {
            name: self.name@,
            description: self.description@,
            takes_arg: self.takes_arg,
        }
    }
}

/// An agent-provided command from an available-commands update.
#[derive(Debug, Clone)]
pub struct AgentCommand {
    pub name: String,
    pub description: String,
    pub input_hint: Option<String>,
}

impl AgentCommand {
    /// Display name with the slash prefix, for autocomplete.
    pub fn display_name(&self) -> (r: String)
        ensures
            r@ == seq!['/'] + self.name@,
    {
        let mut s = String::new();
        s.push('/');
        s.append(self.name.as_str());
        proof {
            assert(s@ =~= seq!['/'] + self.name@);
        }
        s
    }

    /// Whether the command expects an argument.
    pub fn takes_arg(&self) -> (r: bool)
        ensures
            r == (self.input_hint is Some),
    {
        match &self.input_hint {
            Some(_) => true,
            None => false,
        }
    }
}

// ===== the built-in commands =====

pub open spec fn builtin_names() -> Seq<Seq<char>> {
    seq!["/clear"@, "/help"@, "/load"@, "/mode"@, "/model"@, "/new"@, "/quit"@]
}

pub open spec fn builtin_descriptions() -> Seq<Seq<char>> {
    seq![
        "Clear the chat history"@,
        "Show available commands"@,
        "Load a previous session by ID"@,
        "Switch agent mode (e.g. /mode dotnet-dev)"@,
        "Switch model (e.g. /model alpha-model-2)"@,
        "Start a new session"@,
        "Exit the application"@,
    ]
}

pub open spec fn builtin_arg_flags() -> Seq<bool> {
    seq![false, false, true, true, true, false, false]
}

/// The built-in slash commands, in autocomplete order.
pub fn builtin_commands() -> (r: Vec<SlashCommand>)
    ensures
        r@.len() == 7,
        forall|i: int|
            0 <= i < 7 ==> (#[trigger] r@[i])@.name == builtin_names()[i] && r@[i]@.description
                == builtin_descriptions()[i] && r@[i]@.takes_arg == builtin_arg_flags()[i],
{
    let mut r: Vec<SlashCommand> = Vec::new();
    r.push(SlashCommand {
        name: "/clear".to_owned(),
        description: "Clear the chat history".to_owned(),
        takes_arg: false,
    });
    r.push(SlashCommand {
        name: "/help".to_owned(),
        description: "Show available commands".to_owned(),
        takes_arg: false,
    });
    r.push(SlashCommand {
        name: "/load".to_owned(),
        description: "Load a previous session by ID".to_owned(),
        takes_arg: true,
    });
    r.push(SlashCommand {
        name: "/mode".to_owned(),
        description: "Switch agent mode (e.g. /mode dotnet-dev)".to_owned(),
        takes_arg: true,
    });
    r.push(SlashCommand {
        name: "/model".to_owned(),
        description: "Switch model (e.g. /model alpha-model-2)".to_owned(),
        takes_arg: true,
    });
    r.push(SlashCommand {
        name: "/new".to_owned(),
        description: "Start a new session".to_owned(),
        takes_arg: false,
    });
    r.push(SlashCommand {
        name: "/quit".to_owned(),
        description: "Exit the application".to_owned(),
        takes_arg: false,
    });
    r
}

// ===== parsing =====

/// A parsed slash command.
#[derive(Debug)]
pub enum ParsedCommand {
    /// Built-in local commands.
    Clear,
    Help,
    Load(String),
    Mode(String),
    ModelSelect(String),
    New,
    Quit,
    /// Agent-provided command (name, optional input).
    Agent { name: String, input: Option<String> },
    Unknown(String),
}

pub ghost enum ParsedCommandView {
    Clear,
    Help,
    Load(Seq<char>),
    Mode(Seq<char>),
    ModelSelect(Seq<char>),
    New,
    Quit,
    Agent { name: Seq<char>, input: Option<Seq<char>> },
    Unknown(Seq<char>),
}

impl View for ParsedCommand {
    type V = ParsedCommandView;

    open spec fn view(&self) -> ParsedCommandView {
        match self {
            ParsedCommand::Clear => ParsedCommandView::Clear,
            ParsedCommand::Help => ParsedCommandView::Help,
            ParsedCommand::Load(s) => ParsedCommandView::Load(s@),
            ParsedCommand::Mode(s) => ParsedCommandView::Mode(s@),
            ParsedCommand::ModelSelect(s) => ParsedCommandView::ModelSelect(s@),
            ParsedCommand::New => ParsedCommandView::New,
            ParsedCommand::Quit => ParsedCommandView::Quit,
            ParsedCommand::Agent { name, input } => ParsedCommandView::Agent {
                name: name@,
                input: input.deep_view(),
            },
            ParsedCommand::Unknown(s) => ParsedCommandView::Unknown(s@),
        }
    }
}

/// The index of the first space, or the length when there is none.
pub open spec fn spec_first_space(t: Seq<char>) -> int
    decreases t.len(),
{
    if t.len() == 0 {
        0
    } else if t[0] == ' ' {
        0
    } else {
        1 + spec_first_space(t.skip(1))
    }
}

proof fn lemma_first_space_range(t: Seq<char>)
    ensures
        0 <= spec_first_space(t) <= t.len(),
        forall|j: int| 0 <= j < spec_first_space(t) ==> t[j] != ' ',
        spec_first_space(t) < t.len() ==> t[spec_first_space(t)] == ' ',
    decreases t.len(),
{
    if t.len() > 0 && t[0] != ' ' {
        lemma_first_space_range(t.skip(1));
        assert forall|j: int| 0 <= j < spec_first_space(t) implies t[j] != ' ' by {
            if j > 0 {
                assert(t.skip(1)[j - 1] == t[j]);
            }
        }
        if spec_first_space(t) < t.len() {
            assert(t.skip(1)[spec_first_space(t) - 1] == t[spec_first_space(t)]);
        }
    }
}

/// Whether the agent advertises a command of this name.
pub open spec fn spec_agent_known(agents: Seq<AgentCommand>, name: Seq<char>) -> bool {
    exists|i: int| 0 <= i < agents.len() && (#[trigger] agents[i]).name@ == name
}

/// What parsing yields: `None` for text that does not start with `/` after
/// trimming; otherwise the word up to the first space selects a built-in
/// command, a known agent command (with the trimmed remainder as its input),
/// or `Unknown`.
pub open spec fn spec_parse_command(input: Seq<char>, agents: Seq<AgentCommand>) -> Option<
    ParsedCommandView,
> {
    let t = spec_trim(input);
    if !(t.len() > 0 && t[0] == '/') {
        None
    } else {
        let fs = spec_first_space(t);
        let cmd = t.subrange(0, fs);
        let arg = spec_trim(
            if fs < t.len() {
                t.skip(fs + 1)
            } else {
                Seq::empty()
            },
        );
        if cmd == "/clear"@ {
            Some(ParsedCommandView::Clear)
        } else if cmd == "/help"@ {
            Some(ParsedCommandView::Help)
        } else if cmd == "/load"@ {
            Some(ParsedCommandView::Load(arg))
        } else if cmd == "/mode"@ {
            Some(ParsedCommandView::Mode(arg))
        } else if cmd == "/model"@ {
            Some(ParsedCommandView::ModelSelect(arg))
        } else if cmd == "/new"@ {
            Some(ParsedCommandView::New)
        } else if cmd == "/quit"@ {
            Some(ParsedCommandView::Quit)
        } else {
            let name = cmd.skip(1);
            if spec_agent_known(agents, name) {
                Some(
                    ParsedCommandView::Agent {
                        name,
                        input: if arg.len() == 0 {
                            None
                        } else {
                            Some(arg)
                        },
                    },
                )
            } else {
                Some(ParsedCommandView::Unknown(cmd))
            }
        }
    }
}

fn agent_known(agents: &Vec<AgentCommand>, name: &str) -> (r: bool)
    ensures
        r == spec_agent_known(agents@, name@),
{
    let mut i: usize = 0;
    while i < agents.len()
        invariant
            i <= agents@.len(),
            forall|j: int| 0 <= j < i ==> (#[trigger] agents@[j]).name@ != name@,
        decreases agents@.len() - i,
    {
        if str_eq(agents[i].name.as_str(), name) {
            proof {
                assert(spec_agent_known(agents@, name@)) by {
                    assert(agents@[i as int].name@ == name@);
                }
            }
            return true;
        }
        i += 1;
    }
    false
}

fn find_first_space(t: &str) -> (r: usize)
    ensures
        r == spec_first_space(t@),
{
    let n = t.unicode_len();
    let mut i: usize = 0;
    proof {
        assert(t@.skip(0) =~= t@);
    }
    while i < n
        invariant
            n == t@.len(),
            i <= n,
            spec_first_space(t@) == i + spec_first_space(t@.skip(i as int)),
        decreases n - i,
    {
        proof {
            assert(t@.skip(i as int)[0] == t@[i as int]);
            assert(t@.skip(i as int).skip(1) =~= t@.skip(i as int + 1));
        }
        if t.get_char(i) == ' ' {
            return i;
        }
        i += 1;
    }
    proof {
        assert(t@.skip(n as int).len() == 0);
    }
    n
}

/// Try to parse a slash command from input text; `None` when the input is
/// not a slash command at all.
pub fn parse_command(input: &str, agent_commands: &Vec<AgentCommand>) -> (r: Option<ParsedCommand>)
    ensures
        (match r {
            Some(c) => spec_parse_command(input@, agent_commands@) == Some(c@),
            None => spec_parse_command(input@, agent_commands@) is None,
        }),
{
    let t = trim(input);
    let n = t.unicode_len();
    if n == 0 {
        return None;
    }
    if t.get_char(0) != '/' {
        return None;
    }
    let fs = find_first_space(t);
    proof {
        lemma_first_space_range(t@);
    }
    let cmd = t.substring_char(0, fs);
    let arg_part = if fs < n {
        t.substring_char(fs + 1, n)
    } else {
        ""
    };
    proof {
        if fs < n {
            assert(arg_part@ == t@.skip(fs as int + 1));
        } else {
            reveal_strlit("");
            assert(arg_part@ =~= Seq::<char>::empty());
        }
    }
    let arg = trim(arg_part);
    if str_eq(cmd, "/clear") {
        Some(ParsedCommand::Clear)
    } else if str_eq(cmd, "/help") {
        Some(ParsedCommand::Help)
    } else if str_eq(cmd, "/load") {
        Some(ParsedCommand::Load(arg.to_owned()))
    } else if str_eq(cmd, "/mode") {
        Some(ParsedCommand::Mode(arg.to_owned()))
    } else if str_eq(cmd, "/model") {
        Some(ParsedCommand::ModelSelect(arg.to_owned()))
    } else if str_eq(cmd, "/new") {
        Some(ParsedCommand::New)
    } else if str_eq(cmd, "/quit") {
        Some(ParsedCommand::Quit)
    } else {
        let cmd_len = cmd.unicode_len();
        let name = cmd.substring_char(1, cmd_len);
        if agent_known(agent_commands, name) {
            let input_arg = if arg.is_empty() {
                None
            } else {
                Some(arg.to_owned())
            };
            Some(ParsedCommand::Agent { name: name.to_owned(), input: input_arg })
        } else {
            Some(ParsedCommand::Unknown(cmd.to_owned()))
        }
    }
}

// ===== suggestions =====

/// A suggestion entry for autocomplete (built-in or agent command).
#[derive(Debug, Clone)]
pub struct Suggestion {
    pub display_name: String,
    pub description: String,
    pub takes_arg: bool,
}

pub ghost struct SuggestionView {
    pub display_name: Seq<char>,
    pub description: Seq<char>,
    pub takes_arg: bool,
}

impl View for Suggestion {
    type V = SuggestionView;

    open spec fn view(&self) -> SuggestionView {
        SuggestionView {
            display_name: self.display_name@,
            description: self.description@,
            takes_arg: self.takes_arg,
        }
    }
}

/// The built-in suggestions matching a prefix, from index `i` on.
pub open spec fn spec_builtin_suggestions(prefix: Seq<char>, i: int) -> Seq<SuggestionView>
    decreases 7 - i,
{
    if i < 0 || i >= 7 {
        Seq::empty()
    } else {
        let head = if starts_with_spec(builtin_names()[i], prefix) {
            seq![
                SuggestionView {
                    display_name: builtin_names()[i],
                    description: builtin_descriptions()[i],
                    takes_arg: builtin_arg_flags()[i],
                },
            ]
        } else {
            Seq::empty()
        };
        head + spec_builtin_suggestions(prefix, i + 1)
    }
}

/// The agent-command suggestions matching a prefix, from index `i` on.
pub open spec fn spec_agent_suggestions(
    prefix: Seq<char>,
    agents: Seq<AgentCommand>,
    i: int,
) -> Seq<SuggestionView>
    decreases agents.len() - i,
{
    if i < 0 || i >= agents.len() {
        Seq::empty()
    } else {
        let display = seq!['/'] + agents[i].name@;
        let head = if starts_with_spec(display, prefix) {
            seq![
                SuggestionView {
                    display_name: display,
                    description: agents[i].description@,
                    takes_arg: agents[i].input_hint is Some,
                },
            ]
        } else {
            Seq::empty()
        };
        head + spec_agent_suggestions(prefix, agents, i + 1)
    }
}

/// All suggestions for a prefix: none unless it starts with `/`; otherwise
/// the matching built-ins, then the matching agent commands.
pub open spec fn spec_matching_suggestions(
    prefix: Seq<char>,
    agents: Seq<AgentCommand>,
) -> Seq<SuggestionView> {
    if prefix.len() == 0 || prefix[0] != '/' {
        Seq::empty()
    } else {
        spec_builtin_suggestions(prefix, 0) + spec_agent_suggestions(prefix, agents, 0)
    }
}

/// Return the commands matching the given prefix, built-ins first, then
/// agent commands, each set in its own order.
pub fn matching_suggestions(prefix: &str, agent_commands: &Vec<AgentCommand>) -> (r: Vec<
    Suggestion,
>)
    ensures
        r@.map_values(|s: Suggestion| s@) == spec_matching_suggestions(prefix@, agent_commands@),
{
    let mut r: Vec<Suggestion> = Vec::new();
    let n = prefix.unicode_len();
    if n == 0 {
        proof {
            assert(r@.map_values(|s: Suggestion| s@) =~= spec_matching_suggestions(
                prefix@,
                agent_commands@,
            ));
        }
        return r;
    }
    if prefix.get_char(0) != '/' {
        proof {
            assert(r@.map_values(|s: Suggestion| s@) =~= spec_matching_suggestions(
                prefix@,
                agent_commands@,
            ));
        }
        return r;
    }
    let builtins = builtin_commands();
    let mut i: usize = 0;
    while i < builtins.len()
        invariant
            builtins@.len() == 7,
            forall|k: int|
                0 <= k < 7 ==> (#[trigger] builtins@[k])@.name == builtin_names()[k]
                    && builtins@[k]@.description == builtin_descriptions()[k]
                    && builtins@[k]@.takes_arg == builtin_arg_flags()[k],
            i <= 7,
            spec_builtin_suggestions(prefix@, 0) == r@.map_values(|s: Suggestion| s@)
                + spec_builtin_suggestions(prefix@, i as int),
        decreases 7 - i,
    {
        let ghost r0 = r@.map_values(|s: Suggestion| s@);
        let c = &builtins[i];
        if str_starts_with(c.name.as_str(), prefix) {
            r.push(
                Suggestion {
                    display_name: c.name.clone(),
                    description: c.description.clone(),
                    takes_arg: c.takes_arg,
                },
            );
            proof {
                assert(r@.map_values(|s: Suggestion| s@) =~= r0.push(r@[r@.len() - 1]@));
            }
        }
        i += 1;
        proof {
            assert(r@.map_values(|s: Suggestion| s@) + spec_builtin_suggestions(prefix@, i as int)
                =~= r0 + spec_builtin_suggestions(prefix@, i - 1));
        }
    }
    let ghost builtin_part = r@.map_values(|s: Suggestion| s@);
    proof {
        assert(spec_builtin_suggestions(prefix@, 7) =~= Seq::<SuggestionView>::empty());
        assert(builtin_part =~= spec_builtin_suggestions(prefix@, 0));
    }
    let mut j: usize = 0;
    while j < agent_commands.len()
        invariant
            j <= agent_commands@.len(),
            builtin_part == spec_builtin_suggestions(prefix@, 0),
            spec_builtin_suggestions(prefix@, 0) + spec_agent_suggestions(
                prefix@,
                agent_commands@,
                0,
            ) == r@.map_values(|s: Suggestion| s@) + spec_agent_suggestions(
                prefix@,
                agent_commands@,
                j as int,
            ),
        decreases agent_commands@.len() - j,
    {
        let ghost r0 = r@.map_values(|s: Suggestion| s@);
        let a = &agent_commands[j];
        let display = a.display_name();
        if str_starts_with(display.as_str(), prefix) {
            let takes = a.takes_arg();
            r.push(
                Suggestion {
                    display_name: display,
                    description: a.description.clone(),
                    takes_arg: takes,
                },
            );
            proof {
                assert(r@.map_values(|s: Suggestion| s@) =~= r0.push(r@[r@.len() - 1]@));
            }
        }
        j += 1;
        proof {
            assert(r@.map_values(|s: Suggestion| s@) + spec_agent_suggestions(
                prefix@,
                agent_commands@,
                j as int,
            ) =~= r0 + spec_agent_suggestions(prefix@, agent_commands@, j - 1));
        }
    }
    proof {
        assert(spec_agent_suggestions(prefix@, agent_commands@, agent_commands@.len() as int)
            =~= Seq::<SuggestionView>::empty());
        assert(r@.map_values(|s: Suggestion| s@) =~= spec_matching_suggestions(
            prefix@,
            agent_commands@,
        ));
    }
    r
}

/// The built-in commands matching a prefix, from index `i` on.
pub open spec fn spec_matching_builtins(prefix: Seq<char>, i: int) -> Seq<SlashCommandView>
    decreases 7 - i,
{
    if i < 0 || i >= 7 {
        Seq::empty()
    } else {
        let head = if starts_with_spec(builtin_names()[i], prefix) {
            seq![
                SlashCommandView {
                    name: builtin_names()[i],
                    description: builtin_descriptions()[i],
                    takes_arg: builtin_arg_flags()[i],
                },
            ]
        } else {
            Seq::empty()
        };
        head + spec_matching_builtins(prefix, i + 1)
    }
}

/// Return the built-in commands matching the given prefix; empty unless the
/// prefix starts with `/`.
pub fn matching_commands(prefix: &str) -> (r: Vec<SlashCommand>)
    ensures
        r@.map_values(|c: SlashCommand| c@) == (if prefix@.len() == 0 || prefix@[0] != '/' {
            Seq::<SlashCommandView>::empty()
        } else {
            spec_matching_builtins(prefix@, 0)
        }),
{
    let mut r: Vec<SlashCommand> = Vec::new();
    let n = prefix.unicode_len();
    if n == 0 {
        proof {
            assert(r@.map_values(|c: SlashCommand| c@) =~= Seq::<SlashCommandView>::empty());
        }
        return r;
    }
    if prefix.get_char(0) != '/' {
        proof {
            assert(r@.map_values(|c: SlashCommand| c@) =~= Seq::<SlashCommandView>::empty());
        }
        return r;
    }
    let builtins = builtin_commands();
    let mut i: usize = 0;
    while i < builtins.len()
        invariant
            builtins@.len() == 7,
            forall|k: int|
                0 <= k < 7 ==> (#[trigger] builtins@[k])@.name == builtin_names()[k]
                    && builtins@[k]@.description == builtin_descriptions()[k]
                    && builtins@[k]@.takes_arg == builtin_arg_flags()[k],
            i <= 7,
            spec_matching_builtins(prefix@, 0) == r@.map_values(|c: SlashCommand| c@)
                + spec_matching_builtins(prefix@, i as int),
        decreases 7 - i,
    {
        let ghost r0 = r@.map_values(|c: SlashCommand| c@);
        let c = &builtins[i];
        if str_starts_with(c.name.as_str(), prefix) {
            r.push(
                SlashCommand {
                    name: c.name.clone(),
                    description: c.description.clone(),
                    takes_arg: c.takes_arg,
                },
            );
            proof {
                assert(r@.map_values(|c: SlashCommand| c@) =~= r0.push(r@[r@.len() - 1]@));
            }
        }
        i += 1;
        proof {
            assert(r@.map_values(|c: SlashCommand| c@) + spec_matching_builtins(prefix@, i as int)
                =~= r0 + spec_matching_builtins(prefix@, i - 1));
        }
    }
    proof {
        assert(spec_matching_builtins(prefix@, 7) =~= Seq::<SlashCommandView>::empty());
        assert(r@.map_values(|c: SlashCommand| c@) =~= spec_matching_builtins(prefix@, 0));
    }
    r
}

} // verus!
