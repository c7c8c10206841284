//! Recognition of agent programs and of what they are doing.
//!
//! The process tells which program it is, the screen and the title tell what
//! it is doing. Where neither is recognised the terminal works as any other.

use crate::text::{
    before_suffix, begins_with, blank, characters, char_lines, contains_chars, contains_text,
    is_blank, is_space, is_text, law_found_parts_stand_there, law_parts_are_found, lines, lines_of,
    lowercase, lowercase_text, space_character, stands_at, strip_suffix, text_from,
};
use vstd::prelude::*;
use vstd::string::*;

verus! {

#[derive(Clone, Copy, Debug, PartialEq, Eq, Structural)]
pub enum AgentProgram {
    Codex,
    Claude,
    Gemini,
}

#[derive(Clone, Copy, Debug, PartialEq, Eq, Structural)]
pub enum AgentState {
    Idle,
    Working,
    Blocked,
    Unknown,
}

#[derive(Clone, Copy, Debug, PartialEq, Eq, Structural)]
pub struct AgentSnapshot {
    pub program: AgentProgram,
    pub state: AgentState,
}

pub open spec fn is_separator(character: char) -> bool {
    character == '/' || character == '\\'
}

/// What follows the last separator.
pub open spec fn base_name(chars: Seq<char>) -> Seq<char>
    decreases chars.len(),
{
    if chars.len() == 0 || is_separator(chars.last()) {
        Seq::empty()
    } else {
        base_name(chars.drop_last()).push(chars.last())
    }
}

/// `chars` without the first of the endings that it has.
pub open spec fn without_extension(chars: Seq<char>) -> Seq<char> {
    if before_suffix(chars, ".exe"@) is Some {
        before_suffix(chars, ".exe"@)->0
    } else if before_suffix(chars, ".cmd"@) is Some {
        before_suffix(chars, ".cmd"@)->0
    } else if before_suffix(chars, ".bat"@) is Some {
        before_suffix(chars, ".bat"@)->0
    } else if before_suffix(chars, ".ps1"@) is Some {
        before_suffix(chars, ".ps1"@)->0
    } else if before_suffix(chars, ".js"@) is Some {
        before_suffix(chars, ".js"@)->0
    } else {
        chars
    }
}

/// The program that an executable of the given name is.
pub open spec fn named_agent(name: Seq<char>) -> Option<AgentProgram> {
    if name == "codex"@ || name == "codex-cli"@ {
        Some(AgentProgram::Codex)
    } else if name == "gemini"@ || name == "gemini-cli"@ {
        Some(AgentProgram::Gemini)
    } else if "codex-"@.is_prefix_of(name) {
        Some(AgentProgram::Codex)
    } else {
        None
    }
}

/// The program that a command line launches.
pub open spec fn launched_agent(command: Seq<char>) -> Option<AgentProgram> {
    if contains_chars(command, "@openai/codex"@) || contains_chars(command, "/codex/bin/"@)
        || contains_chars(command, "/codex.js"@) {
        Some(AgentProgram::Codex)
    } else if contains_chars(command, "@google/gemini-cli"@) || contains_chars(
        command,
        "/gemini-cli/"@,
    ) || contains_chars(command, "/gemini.js"@) {
        Some(AgentProgram::Gemini)
    } else {
        None
    }
}

/// `chars` with slashes for backslashes.
pub open spec fn slashed(chars: Seq<char>) -> Seq<char> {
    Seq::new(
        chars.len(),
        |i: int|
            if chars[i] == '\\' {
                '/'
            } else {
                chars[i]
            },
    )
}

/// The command line of a process as it is searched.
pub open spec fn command_line(arguments: Seq<String>) -> Seq<char>
    decreases arguments.len(),
{
    if arguments.len() == 0 {
        Seq::empty()
    } else if arguments.len() == 1 {
        slashed(lowercase(arguments[0]@))
    } else {
        command_line(arguments.drop_last()) + " "@ + slashed(lowercase(arguments.last()@))
    }
}

/// The program that a process is.
pub open spec fn process_agent(process_name: Seq<char>, arguments: Seq<String>) -> Option<
    AgentProgram,
> {
    match named_agent(without_extension(lowercase(base_name(process_name)))) {
        Some(agent) => Some(agent),
        None => launched_agent(command_line(arguments)),
    }
}

/// What follows the last separator in `name`.
pub fn file_name_of(name: &str) -> (base: String)
    ensures
        base@ == base_name(name@),
{
    let chars = characters(name);
    let mut start: usize = chars.len();
    proof {
        assert(chars@.take(start as int) =~= chars@);
        assert(base_name(chars@) =~= base_name(chars@) + chars@.skip(start as int));
    }
    while start > 0 && chars[start - 1] != '/' && chars[start - 1] != '\\'
        invariant
            start <= chars@.len(),
            chars@ == name@,
            base_name(chars@) == base_name(chars@.take(start as int)) + chars@.skip(start as int),
        decreases start,
    {
        proof {
            let head = chars@.take(start as int);
            assert(head.drop_last() =~= chars@.take(start - 1));
            assert(base_name(head) + chars@.skip(start as int) =~= base_name(chars@.take(start - 1))
                + chars@.skip(start - 1));
        }
        start -= 1;
    }
    proof {
        assert(base_name(chars@.take(start as int)) =~= Seq::empty());
        assert(Seq::<char>::empty() + chars@.skip(start as int) =~= chars@.skip(start as int));
    }
    text_from(chars.as_slice(), start)
}

/// `name` without the first of the endings that it has.
pub fn strip_extension(name: &str) -> (stem: String)
    ensures
        stem@ == without_extension(name@),
{
    if let Some(stem) = strip_suffix(name, ".exe") {
        return stem;
    }
    if let Some(stem) = strip_suffix(name, ".cmd") {
        return stem;
    }
    if let Some(stem) = strip_suffix(name, ".bat") {
        return stem;
    }
    if let Some(stem) = strip_suffix(name, ".ps1") {
        return stem;
    }
    if let Some(stem) = strip_suffix(name, ".js") {
        return stem;
    }
    name.to_owned()
}

/// The name of an executable as it is compared.
pub fn normalized_executable(process_name: &str) -> (name: String)
    ensures
        name@ == without_extension(lowercase(base_name(process_name@))),
{
    let base = file_name_of(process_name);
    let lower = lowercase_text(base.as_str());
    strip_extension(lower.as_str())
}

/// The program that an executable of the given name is.
pub fn direct_agent_name(name: &str) -> (agent: Option<AgentProgram>)
    ensures
        agent == named_agent(name@),
{
    if is_text(name, "codex") || is_text(name, "codex-cli") {
        Some(AgentProgram::Codex)
    } else if is_text(name, "gemini") || is_text(name, "gemini-cli") {
        Some(AgentProgram::Gemini)
    } else if begins_with(name, "codex-") {
        Some(AgentProgram::Codex)
    } else {
        None
    }
}

/// The program that a command line launches.
pub fn launcher_agent(command: &str) -> (agent: Option<AgentProgram>)
    ensures
        agent == launched_agent(command@),
{
    if contains_text(command, "@openai/codex") || contains_text(command, "/codex/bin/")
        || contains_text(command, "/codex.js") {
        Some(AgentProgram::Codex)
    } else if contains_text(command, "@google/gemini-cli") || contains_text(
        command,
        "/gemini-cli/",
    ) || contains_text(command, "/gemini.js") {
        Some(AgentProgram::Gemini)
    } else {
        None
    }
}

/// `text` with slashes for backslashes.
pub fn with_slashes(text: &str) -> (result: String)
    ensures
        result@ == slashed(text@),
{
    let chars = characters(text);
    let mut result = String::new();
    let mut index: usize = 0;
    proof {
        assert(result@ =~= slashed(chars@.take(0)));
    }
    while index < chars.len()
        invariant
            index <= chars@.len(),
            result@ == slashed(chars@.take(index as int)),
        decreases chars@.len() - index,
    {
        result.push(
            if chars[index] == '\\' {
                '/'
            } else {
                chars[index]
            },
        );
        index += 1;
        proof {
            assert(result@ =~= slashed(chars@.take(index as int)));
        }
    }
    proof {
        assert(chars@.take(index as int) =~= chars@);
    }
    result
}

fn joined_command(arguments: &[String]) -> (command: String)
    ensures
        command@ == command_line(arguments@),
{
    let mut command = String::new();
    let mut index: usize = 0;
    proof {
        assert(command@ =~= command_line(arguments@.take(0)));
    }
    while index < arguments.len()
        invariant
            index <= arguments@.len(),
            command@ == command_line(arguments@.take(index as int)),
        decreases arguments@.len() - index,
    {
        let ghost before = command@;
        proof {
            let longer = arguments@.take(index + 1);
            assert(longer.drop_last() =~= arguments@.take(index as int));
            assert(longer.last() == arguments@[index as int]);
        }
        if index > 0 {
            command.append(" ");
        }
        let lower = lowercase_text(arguments[index].as_str());
        command.append(with_slashes(lower.as_str()).as_str());
        index += 1;
        proof {
            assert(command@ =~= command_line(arguments@.take(index as int)));
        }
    }
    proof {
        assert(arguments@.take(index as int) =~= arguments@);
    }
    command
}

impl AgentProgram {
    pub open spec fn spec_label(self) -> Seq<char> {
        match self {
            AgentProgram::Codex => "Codex"@,
            AgentProgram::Claude => "Agent"@,
            AgentProgram::Gemini => "Gemini CLI"@,
        }
    }

    /// The program's name; for the second of the three, whose own is missing, a
    /// general one.
    pub fn label(self) -> (label: &'static str)
        ensures
            label@ == self.spec_label(),
    {
        match self {
            AgentProgram::Codex => "Codex",
            AgentProgram::Claude => "Agent",
            AgentProgram::Gemini => "Gemini CLI",
        }
    }

    /// The program that a process is, by its name or by its command line. The
    /// second of the three programs is not recognised this way: its names are
    /// missing.
    pub fn from_process(process_name: &str, command: &[String]) -> (agent: Option<Self>)
        ensures
            agent == process_agent(process_name@, command@),
    {
        let executable = normalized_executable(process_name);
        match direct_agent_name(executable.as_str()) {
            Some(agent) => Some(agent),
            None => {
                let command = joined_command(command);
                launcher_agent(command.as_str())
            },
        }
    }
}

pub open spec fn is_spinner(character: char) -> bool {
    '\u{2800}' <= character <= '\u{28ff}'
}

pub fn is_braille_spinner(character: char) -> (result: bool)
    ensures
        result == is_spinner(character),
{
    '\u{2800}' <= character && character <= '\u{28ff}'
}

/// Whether one of `chars` belongs to a spinner.
pub open spec fn has_spinner(chars: Seq<char>) -> bool {
    exists|i: int| 0 <= i < chars.len() && is_spinner(#[trigger] chars[i])
}

fn shows_spinner(title: &str) -> (result: bool)
    ensures
        result == has_spinner(title@),
{
    let chars = characters(title);
    let mut index: usize = 0;
    while index < chars.len()
        invariant
            index <= chars@.len(),
            chars@ == title@,
            forall|i: int| 0 <= i < index ==> !is_spinner(#[trigger] chars@[i]),
        decreases chars@.len() - index,
    {
        if is_braille_spinner(chars[index]) {
            return true;
        }
        index += 1;
    }
    false
}

/// Whether the first character of a line that is no white space is `prompt`.
pub open spec fn prompts(line: Seq<char>, prompt: char) -> bool {
    exists|i: int|
        0 <= i < line.len() && #[trigger] line[i] == prompt && !is_space(prompt) && forall|j: int|
            0 <= j < i ==> is_space(#[trigger] line[j])
}

fn line_prompts(line: &Vec<char>, prompt: char) -> (result: bool)
    requires
        !is_space(prompt),
    ensures
        result == prompts(line@, prompt),
{
    let mut index: usize = 0;
    while index < line.len() && space_character(line[index])
        invariant
            index <= line@.len(),
            forall|j: int| 0 <= j < index ==> is_space(#[trigger] line@[j]),
        decreases line@.len() - index,
    {
        index += 1;
    }
    let result = index < line.len() && line[index] == prompt;
    proof {
        if result {
            assert(line@[index as int] == prompt);
        } else if prompts(line@, prompt) {
            let i = choose|i: int|
                0 <= i < line@.len() && #[trigger] line@[i] == prompt && !is_space(prompt)
                    && forall|j: int| 0 <= j < i ==> is_space(#[trigger] line@[j]);
            if i < index {
                assert(is_space(line@[i]));
            } else if i > index {
                assert(is_space(line@[index as int]));
            }
        }
    }
    result
}

/// Whether one of the last eight lines of a screen prompts with `prompt`.
pub open spec fn screen_prompts(screen: Seq<char>, prompt: char) -> bool {
    exists|i: int|
        0 <= i < lines_of(screen).len() && i >= lines_of(screen).len() - 8 && prompts(
            #[trigger] lines_of(screen)[i],
            prompt,
        )
}

fn shows_prompt(screen: &str, prompt: char) -> (result: bool)
    requires
        !is_space(prompt),
    ensures
        result == screen_prompts(screen@, prompt),
{
    let lines = lines(screen);
    let ghost all = lines_of(screen@);
    let mut left: usize = lines.len();
    let mut count: usize = 0;
    while left > 0 && count < 8
        invariant
            left <= lines@.len(),
            count <= 8,
            count + left == lines@.len(),
            all == lines_of(screen@),
            all == char_lines(lines@),
            !is_space(prompt),
            forall|i: int| left <= i < all.len() ==> !prompts(#[trigger] all[i], prompt),
        decreases left,
    {
        left -= 1;
        count += 1;
        if line_prompts(&lines[left], prompt) {
            proof {
                assert(prompts(all[left as int], prompt));
            }
            return true;
        }
        proof {
            assert(all[left as int] == lines@[left as int]@);
        }
    }
    false
}

/// Whether the program waits for the user.
pub open spec fn asks_user(title_lower: Seq<char>, screen_lower: Seq<char>) -> bool {
    ||| contains_chars(title_lower, "action required"@)
    ||| contains_chars(screen_lower, "waiting for user confirmation"@)
    ||| contains_chars(screen_lower, "do you want to proceed?"@)
    ||| contains_chars(screen_lower, "allow execution"@)
    ||| contains_chars(screen_lower, "would you like to run"@)
    ||| contains_chars(screen_lower, "press enter to confirm"@)
}

/// Whether the program is at work.
pub open spec fn shows_work(
    program: AgentProgram,
    title: Seq<char>,
    screen_lower: Seq<char>,
) -> bool {
    ||| contains_chars(screen_lower, "esc to interrupt"@)
    ||| contains_chars(screen_lower, "esc to cancel"@)
    ||| program == AgentProgram::Codex && has_spinner(title)
}

/// Whether the program is ready for input.
pub open spec fn shows_readiness(
    program: AgentProgram,
    title: Seq<char>,
    screen: Seq<char>,
) -> bool {
    match program {
        AgentProgram::Codex => !is_blank(title),
        AgentProgram::Claude => "\u{2733} "@.is_prefix_of(title) || screen_prompts(
            screen,
            '\u{276f}',
        ),
        AgentProgram::Gemini => screen_prompts(screen, '>') || screen_prompts(screen, '\u{276f}'),
    }
}

/// What a program is doing, by its title and its screen and by both in lower
/// case.
pub open spec fn state_of(
    program: AgentProgram,
    title: Seq<char>,
    screen: Seq<char>,
    title_lower: Seq<char>,
    screen_lower: Seq<char>,
) -> AgentState {
    if asks_user(title_lower, screen_lower) {
        AgentState::Blocked
    } else if shows_work(program, title, screen_lower) {
        AgentState::Working
    } else if shows_readiness(program, title, screen) {
        AgentState::Idle
    } else {
        AgentState::Unknown
    }
}

/// What a program is doing, by its title and its screen and by both in lower
/// case.
pub fn state_from_signals(
    program: AgentProgram,
    title: &str,
    screen: &str,
    title_lower: &str,
    screen_lower: &str,
) -> (state: AgentState)
    ensures
        state == state_of(program, title@, screen@, title_lower@, screen_lower@),
{
    if contains_text(title_lower, "action required") || contains_text(
        screen_lower,
        "waiting for user confirmation",
    ) || contains_text(screen_lower, "do you want to proceed?") || contains_text(
        screen_lower,
        "allow execution",
    ) || contains_text(screen_lower, "would you like to run") || contains_text(
        screen_lower,
        "press enter to confirm",
    ) {
        return AgentState::Blocked;
    }
    if contains_text(screen_lower, "esc to interrupt") || contains_text(
        screen_lower,
        "esc to cancel",
    ) || (program == AgentProgram::Codex && shows_spinner(title)) {
        return AgentState::Working;
    }
    let ready = match program {
        AgentProgram::Codex => !blank(title),
        AgentProgram::Claude => begins_with(title, "\u{2733} ") || shows_prompt(
            screen,
            '\u{276f}',
        ),
        AgentProgram::Gemini => shows_prompt(screen, '>') || shows_prompt(screen, '\u{276f}'),
    };
    if ready {
        AgentState::Idle
    } else {
        AgentState::Unknown
    }
}

/// What a program is doing, by its title and its screen.
pub fn detect_state(program: AgentProgram, title: &str, screen: &str) -> (state: AgentState)
    ensures
        state == state_of(program, title@, screen@, lowercase(title@), lowercase(screen@)),
{
    let title_lower = lowercase_text(title);
    let screen_lower = lowercase_text(screen);
    state_from_signals(program, title, screen, title_lower.as_str(), screen_lower.as_str())
}

impl AgentSnapshot {
    pub fn from_screen(program: AgentProgram, title: Option<&str>, screen: &str) -> (snapshot: Self)
        ensures
            snapshot.program == program,
            snapshot.state == ({
                let title = match title {
                    Some(title) => title@,
                    None => ""@,
                };
                state_of(program, title, screen@, lowercase(title), lowercase(screen@))
            }),
            title is Some && contains_chars(lowercase(title->0@), "action required"@)
                ==> snapshot.state == AgentState::Blocked,
            contains_chars(lowercase(screen@), "waiting for user confirmation"@) ==> snapshot.state
                == AgentState::Blocked,
            contains_chars(lowercase(screen@), "do you want to proceed?"@) ==> snapshot.state
                == AgentState::Blocked,
            contains_chars(lowercase(screen@), "allow execution"@) ==> snapshot.state
                == AgentState::Blocked,
            contains_chars(lowercase(screen@), "would you like to run"@) ==> snapshot.state
                == AgentState::Blocked,
            contains_chars(lowercase(screen@), "press enter to confirm"@) ==> snapshot.state
                == AgentState::Blocked,
    {
        let title = match title {
            Some(title) => title,
            None => "",
        };
        AgentSnapshot { program, state: detect_state(program, title, screen) }
    }

    pub open spec fn spec_priority(self) -> u8 {
        match self.state {
            AgentState::Blocked => 4,
            AgentState::Working => 3,
            AgentState::Idle => 2,
            AgentState::Unknown => 1,
        }
    }

    /// How much a program wants attention.
    pub fn priority(self) -> (priority: u8)
        ensures
            priority == self.spec_priority(),
    {
        match self.state {
            AgentState::Blocked => 4,
            AgentState::Working => 3,
            AgentState::Idle => 2,
            AgentState::Unknown => 1,
        }
    }
}

/// "waiting for user confirmation" on the screen, in whatever case, means that the program waits for
/// the user, whatever the program is, its title and the rest of the screen.
pub proof fn law_asking_for_confirmation_blocks(
    program: AgentProgram,
    title: Seq<char>,
    screen: Seq<char>,
    before: Seq<char>,
    after: Seq<char>,
)
    requires
        lowercase(screen) == before + "waiting for user confirmation"@ + after,
    ensures
        state_of(program, title, screen, lowercase(title), lowercase(screen))
            == AgentState::Blocked,
{
    law_parts_are_found(before, "waiting for user confirmation"@, after);
}

/// "do you want to proceed?" on the screen, in whatever case, means that the program waits for
/// the user, whatever the program is, its title and the rest of the screen.
pub proof fn law_asking_for_proceeding_blocks(
    program: AgentProgram,
    title: Seq<char>,
    screen: Seq<char>,
    before: Seq<char>,
    after: Seq<char>,
)
    requires
        lowercase(screen) == before + "do you want to proceed?"@ + after,
    ensures
        state_of(program, title, screen, lowercase(title), lowercase(screen))
            == AgentState::Blocked,
{
    law_parts_are_found(before, "do you want to proceed?"@, after);
}

/// "allow execution" on the screen, in whatever case, means that the program waits for
/// the user, whatever the program is, its title and the rest of the screen.
pub proof fn law_asking_for_execution_blocks(
    program: AgentProgram,
    title: Seq<char>,
    screen: Seq<char>,
    before: Seq<char>,
    after: Seq<char>,
)
    requires
        lowercase(screen) == before + "allow execution"@ + after,
    ensures
        state_of(program, title, screen, lowercase(title), lowercase(screen))
            == AgentState::Blocked,
{
    law_parts_are_found(before, "allow execution"@, after);
}

/// "would you like to run" on the screen, in whatever case, means that the program waits for
/// the user, whatever the program is, its title and the rest of the screen.
pub proof fn law_asking_for_running_blocks(
    program: AgentProgram,
    title: Seq<char>,
    screen: Seq<char>,
    before: Seq<char>,
    after: Seq<char>,
)
    requires
        lowercase(screen) == before + "would you like to run"@ + after,
    ensures
        state_of(program, title, screen, lowercase(title), lowercase(screen))
            == AgentState::Blocked,
{
    law_parts_are_found(before, "would you like to run"@, after);
}

/// "press enter to confirm" on the screen, in whatever case, means that the program waits for
/// the user, whatever the program is, its title and the rest of the screen.
pub proof fn law_asking_for_entering_blocks(
    program: AgentProgram,
    title: Seq<char>,
    screen: Seq<char>,
    before: Seq<char>,
    after: Seq<char>,
)
    requires
        lowercase(screen) == before + "press enter to confirm"@ + after,
    ensures
        state_of(program, title, screen, lowercase(title), lowercase(screen))
            == AgentState::Blocked,
{
    law_parts_are_found(before, "press enter to confirm"@, after);
}

/// "action required" in the title means the same, whatever is on the screen.
pub proof fn law_titles_that_require_action_block(
    program: AgentProgram,
    title: Seq<char>,
    screen: Seq<char>,
    before: Seq<char>,
    after: Seq<char>,
)
    requires
        lowercase(title) == before + "action required"@ + after,
    ensures
        state_of(program, title, screen, lowercase(title), lowercase(screen))
            == AgentState::Blocked,
{
    law_parts_are_found(before, "action required"@, after);
}

/// A program waits for the user only where one of the phrases is seen.
pub proof fn law_only_questions_block(program: AgentProgram, title: Seq<char>, screen: Seq<char>)
    requires
        state_of(program, title, screen, lowercase(title), lowercase(screen))
            == AgentState::Blocked,
    ensures
        ({
            ||| contains_chars(lowercase(title), "action required"@)
            ||| contains_chars(lowercase(screen), "waiting for user confirmation"@)
            ||| contains_chars(lowercase(screen), "do you want to proceed?"@)
            ||| contains_chars(lowercase(screen), "allow execution"@)
            ||| contains_chars(lowercase(screen), "would you like to run"@)
            ||| contains_chars(lowercase(screen), "press enter to confirm"@)
        }),
{
}

/// A program that can be interrupted or cancelled with escape is at work, unless
/// it waits for the user: it is neither idle nor unknown.
pub proof fn law_interruptible_programs_work(
    program: AgentProgram,
    title: Seq<char>,
    screen: Seq<char>,
    before: Seq<char>,
    after: Seq<char>,
)
    requires
        lowercase(screen) == before + "esc to interrupt"@ + after || lowercase(screen) == before
            + "esc to cancel"@ + after,
    ensures
        ({
            let state = state_of(program, title, screen, lowercase(title), lowercase(screen));
            state == AgentState::Blocked || state == AgentState::Working
        }),
{
    law_parts_are_found(before, "esc to interrupt"@, after);
    law_parts_are_found(before, "esc to cancel"@, after);
}

/// A spinner anywhere in the title of Codex means that it is at work, unless it
/// waits for the user; in the title of another program it means nothing.
pub proof fn law_spinners_mean_work_of_codex(title: Seq<char>, screen: Seq<char>, place: int)
    requires
        0 <= place < title.len(),
        '\u{2800}' <= title[place] <= '\u{28ff}',
    ensures
        ({
            let state = state_of(
                AgentProgram::Codex,
                title,
                screen,
                lowercase(title),
                lowercase(screen),
            );
            state == AgentState::Blocked || state == AgentState::Working
        }),
{
    assert(is_spinner(title[place]));
}

/// A program is at work only where that is seen.
pub proof fn law_only_signs_of_work_mean_work(
    program: AgentProgram,
    title: Seq<char>,
    screen: Seq<char>,
)
    requires
        state_of(program, title, screen, lowercase(title), lowercase(screen))
            == AgentState::Working,
    ensures
        ({
            ||| contains_chars(lowercase(screen), "esc to interrupt"@)
            ||| contains_chars(lowercase(screen), "esc to cancel"@)
            ||| program == AgentProgram::Codex && exists|i: int|
                0 <= i < title.len() && '\u{2800}' <= #[trigger] title[i] <= '\u{28ff}'
        }),
{
    if has_spinner(title) {
        let i = choose|i: int| 0 <= i < title.len() && is_spinner(#[trigger] title[i]);
        assert('\u{2800}' <= title[i] <= '\u{28ff}');
    }
}

/// Codex with a title that is not blank is never unknown; with one that is, it is
/// never idle.
pub proof fn law_titles_show_that_codex_is_ready(title: Seq<char>, screen: Seq<char>)
    ensures
        ({
            let state = state_of(
                AgentProgram::Codex,
                title,
                screen,
                lowercase(title),
                lowercase(screen),
            );
            &&& (exists|i: int| 0 <= i < title.len() && !is_space(#[trigger] title[i])) ==> state
                != AgentState::Unknown
            &&& (forall|i: int| 0 <= i < title.len() ==> is_space(#[trigger] title[i])) ==> state
                != AgentState::Idle
        }),
{
}

/// The title with the mark of the second program shows that it is ready; a line
/// among the last eight that begins with its prompt does so too, and for Gemini
/// as well, which has one more.
pub proof fn law_prompts_show_readiness(
    program: AgentProgram,
    title: Seq<char>,
    screen: Seq<char>,
    place: int,
    margin: Seq<char>,
    prompt: char,
    rest: Seq<char>,
)
    requires
        program != AgentProgram::Codex,
        0 <= place < lines_of(screen).len(),
        lines_of(screen).len() - place <= 8,
        lines_of(screen)[place] == margin + seq![prompt] + rest,
        is_blank(margin),
        prompt == '\u{276f}' || (prompt == '>' && program == AgentProgram::Gemini),
    ensures
        state_of(program, title, screen, lowercase(title), lowercase(screen))
            != AgentState::Unknown,
{
    let line = lines_of(screen)[place];
    assert(line[margin.len() as int] == prompt);
    assert forall|j: int| 0 <= j < margin.len() implies is_space(#[trigger] line[j]) by {
        assert(line[j] == margin[j]);
    }
    assert(prompts(line, prompt));
    assert(screen_prompts(screen, prompt));
}

pub proof fn law_marked_titles_show_readiness(title: Seq<char>, screen: Seq<char>, rest: Seq<char>)
    requires
        title == "\u{2733} "@ + rest,
    ensures
        state_of(AgentProgram::Claude, title, screen, lowercase(title), lowercase(screen))
            != AgentState::Unknown,
{
    assert("\u{2733} "@.is_prefix_of(title)) by {
        assert(title.subrange(0, "\u{2733} "@.len() as int) =~= "\u{2733} "@);
    }
}

/// Without a prompt in its last eight lines, and for the second program without
/// its mark in the title, neither of the two others is idle.
pub proof fn law_only_prompts_show_readiness(
    program: AgentProgram,
    title: Seq<char>,
    screen: Seq<char>,
)
    requires
        program != AgentProgram::Codex,
        forall|i: int, j: int|
            #![trigger lines_of(screen)[i][j]]
            lines_of(screen).len() - 8 <= i < lines_of(screen).len() && 0 <= i && 0 <= j
                < lines_of(screen)[i].len() ==> lines_of(screen)[i][j] != '\u{276f}'
                && lines_of(screen)[i][j] != '>',
        title.len() == 0 || title[0] != '\u{2733}',
    ensures
        state_of(program, title, screen, lowercase(title), lowercase(screen)) != AgentState::Idle,
{
    reveal_strlit("\u{2733} ");
    assert("\u{2733} "@.len() == 2 && "\u{2733} "@[0] == '\u{2733}');
    if "\u{2733} "@.is_prefix_of(title) {
        assert(title[0] == title.subrange(0, 2)[0]);
    }
}

/// Those who wait for the user want attention most, then those at work, then
/// those that are idle, and last those of which nothing is known.
pub proof fn law_questions_want_attention_most(
    blocked: AgentSnapshot,
    working: AgentSnapshot,
    idle: AgentSnapshot,
    unknown: AgentSnapshot,
)
    requires
        blocked.state == AgentState::Blocked,
        working.state == AgentState::Working,
        idle.state == AgentState::Idle,
        unknown.state == AgentState::Unknown,
    ensures
        blocked.spec_priority() > working.spec_priority(),
        working.spec_priority() > idle.spec_priority(),
        idle.spec_priority() > unknown.spec_priority(),
{
}

/// The directories before the name of an executable do not count.
pub proof fn law_directories_do_not_count(directory: Seq<char>, separator: char, name: Seq<char>)
    requires
        separator == '/' || separator == '\\',
        forall|i: int|
            0 <= i < name.len() ==> #[trigger] name[i] != '/' && name[i] != '\\',
    ensures
        base_name(directory.push(separator) + name) == name,
        base_name(name) == name,
    decreases name.len(),
{
    let path = directory.push(separator) + name;
    if name.len() == 0 {
        assert(path =~= directory.push(separator));
        assert(base_name(path) =~= name);
        assert(base_name(name) =~= name);
    } else {
        assert(path.drop_last() =~= directory.push(separator) + name.drop_last());
        assert(path.last() == name.last());
        assert(name[name.len() - 1] == name.last());
        assert forall|i: int| 0 <= i < name.drop_last().len() implies #[trigger] name.drop_last()[i]
            != '/' && name.drop_last()[i] != '\\' by {
            assert(name[i] == name.drop_last()[i]);
        }
        law_directories_do_not_count(directory, separator, name.drop_last());
        assert(name.drop_last().push(name.last()) =~= name);
    }
}

/// The ending of an executable does not count.
pub proof fn law_extensions_do_not_count(stem: Seq<char>)
    ensures
        without_extension(stem + ".exe"@) == stem,
        without_extension(stem + ".cmd"@) == stem,
        without_extension(stem + ".bat"@) == stem,
        without_extension(stem + ".ps1"@) == stem,
        without_extension(stem + ".js"@) == stem,
{
    reveal_strlit(".exe");
    reveal_strlit(".cmd");
    reveal_strlit(".bat");
    reveal_strlit(".ps1");
    reveal_strlit(".js");
    lemma_suffix(stem, ".exe"@);
    lemma_suffix(stem, ".cmd"@);
    lemma_suffix(stem, ".bat"@);
    lemma_suffix(stem, ".ps1"@);
    lemma_suffix(stem, ".js"@);
    lemma_other_suffix(stem + ".cmd"@, ".exe"@);
    lemma_other_suffix(stem + ".bat"@, ".exe"@);
    lemma_other_suffix(stem + ".bat"@, ".cmd"@);
    lemma_other_suffix(stem + ".ps1"@, ".exe"@);
    lemma_other_suffix(stem + ".ps1"@, ".cmd"@);
    lemma_other_suffix(stem + ".ps1"@, ".bat"@);
    lemma_other_suffix(stem + ".js"@, ".exe"@);
    lemma_other_suffix(stem + ".js"@, ".cmd"@);
    lemma_other_suffix(stem + ".js"@, ".bat"@);
    lemma_other_suffix(stem + ".js"@, ".ps1"@);
}

proof fn lemma_suffix(stem: Seq<char>, suffix: Seq<char>)
    ensures
        before_suffix(stem + suffix, suffix) == Some(stem),
{
    let all = stem + suffix;
    assert(all.subrange(stem.len() as int, all.len() as int) =~= suffix);
    assert(all.take(stem.len() as int) =~= stem);
}

proof fn lemma_other_suffix(chars: Seq<char>, suffix: Seq<char>)
    requires
        suffix.len() > 0,
        chars.len() > 0,
        chars.last() != suffix.last(),
    ensures
        before_suffix(chars, suffix) is None,
{
    let start = chars.len() - suffix.len();
    if stands_at(chars, suffix, start) {
        assert(chars.subrange(start, start + suffix.len())[suffix.len() - 1] == chars.last());
    }
}

/// Codex and Gemini are known by the names of their executables, whatever their
/// command line says; Codex by any name that begins with its own and a dash.
pub proof fn law_agents_are_known_by_their_names(
    process_name: Seq<char>,
    arguments: Seq<String>,
    rest: Seq<char>,
)
    ensures
        ({
            let name = without_extension(lowercase(base_name(process_name)));
            &&& name == "codex"@ || name == "codex-"@ + rest ==> process_agent(
                process_name,
                arguments,
            ) == Some(AgentProgram::Codex)
            &&& name == "gemini"@ || name == "gemini-cli"@ ==> process_agent(
                process_name,
                arguments,
            ) == Some(AgentProgram::Gemini)
        }),
{
    reveal_strlit("codex");
    reveal_strlit("codex-");
    reveal_strlit("codex-cli");
    reveal_strlit("gemini");
    reveal_strlit("gemini-cli");
    let long = "codex-"@ + rest;
    assert("codex-"@.is_prefix_of(long)) by {
        assert(long.subrange(0, 6) =~= "codex-"@);
    }
    assert(long[0] == 'c');
    assert("gemini"@[0] == 'g' && "gemini-cli"@[0] == 'g');
    assert("codex"@[0] == 'c' && "codex-cli"@[0] == 'c');
}

/// What an argument says, with slashes for backslashes and in lower case, stands
/// in the command line as it is searched.
pub proof fn law_arguments_stand_in_the_command_line(
    arguments: Seq<String>,
    place: int,
    before: Seq<char>,
    part: Seq<char>,
    after: Seq<char>,
)
    requires
        0 <= place < arguments.len(),
        slashed(lowercase(arguments[place]@)) == before + part + after,
    ensures
        contains_chars(command_line(arguments), part),
    decreases arguments.len(),
{
    let line = command_line(arguments);
    let argument = slashed(lowercase(arguments[place]@));
    if place == arguments.len() - 1 {
        if arguments.len() == 1 {
            law_parts_are_found(before, part, after);
        } else {
            let head = command_line(arguments.drop_last()) + " "@;
            assert(line =~= (head + before) + part + after);
            law_parts_are_found(head + before, part, after);
        }
    } else {
        law_arguments_stand_in_the_command_line(arguments.drop_last(), place, before, part, after);
        let shorter = command_line(arguments.drop_last());
        law_found_parts_stand_there(shorter, part);
        let (left, right) = choose|left: Seq<char>, right: Seq<char>|
            shorter == #[trigger] (left + part + right);
        let tail = " "@ + slashed(lowercase(arguments.last()@));
        assert(line =~= left + part + (right + tail));
        law_parts_are_found(left, part, right + tail);
    }
}

/// A program that is launched by another, such as Node, is known by its place in
/// the command line, where the launcher itself has no agent's name.
pub proof fn law_launched_agents_are_known(process_name: Seq<char>, arguments: Seq<String>)
    requires
        named_agent(without_extension(lowercase(base_name(process_name)))) is None,
    ensures
        ({
            let line = command_line(arguments);
            let codex = contains_chars(line, "@openai/codex"@) || contains_chars(
                line,
                "/codex/bin/"@,
            ) || contains_chars(line, "/codex.js"@);
            let gemini = contains_chars(line, "@google/gemini-cli"@) || contains_chars(
                line,
                "/gemini-cli/"@,
            ) || contains_chars(line, "/gemini.js"@);
            let agent = process_agent(process_name, arguments);
            &&& codex ==> agent == Some(AgentProgram::Codex)
            &&& gemini && !codex ==> agent == Some(AgentProgram::Gemini)
            &&& !codex && !gemini ==> agent != Some(AgentProgram::Codex) && agent != Some(
                AgentProgram::Gemini,
            )
        }),
{
}

/// A backslash is searched as a slash, and every other character as itself.
pub proof fn law_backslashes_become_slashes(chars: Seq<char>)
    ensures
        slashed(chars).len() == chars.len(),
        forall|i: int|
            0 <= i < chars.len() ==> #[trigger] slashed(chars)[i] == if chars[i] == '\\' {
                '/'
            } else {
                chars[i]
            },
{
}

/// Programs are told apart by their labels.
pub proof fn law_labels_differ(left: AgentProgram, right: AgentProgram)
    requires
        left != right,
    ensures
        left.spec_label() != right.spec_label(),
        AgentProgram::Codex.spec_label() == "Codex"@,
        AgentProgram::Gemini.spec_label() == "Gemini CLI"@,
{
    reveal_strlit("Codex");
    reveal_strlit("Agent");
    reveal_strlit("Gemini CLI");
    assert("Codex"@[0] == 'C' && "Agent"@[0] == 'A' && "Gemini CLI"@[0] == 'G');
}

} // verus!
