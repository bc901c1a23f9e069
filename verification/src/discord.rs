//! The Discord command surface: parsing `!cnr ...` messages, deciding what a
//! message asks for, and shaping replies. Discord is transport only: no
//! workflow state lives here.
use vstd::prelude::*;

use vstd::utf8::{encode_utf8, is_ascii_chars, is_ascii_chars_encode_utf8};
use vstd::string::StringSliceAdditionalSpecFns;
use crate::text::{
    IntErrorKind, all_ws, cat, cat3, chars_match_at, chars_of, copy_str, decimal,
    decimal_string, first_non_ws_from, first_ws_from, has_prefix, is_whitespace, is_ws, join,
    join_strings, lemma_trim_split, lemma_trim_unique, next_token, parse_unsigned,
    parse_unsigned_chars, str_eq, substring, token, token_bounds, trim, trim_bounds,
    trimmed_end, views, is_word, lemma_first_ws_at, lemma_decimal_is_word,
    lemma_decimal_parses_back,
};

verus! {

/// The adapter name recorded as the author of goals created from Discord.
pub const ADAPTER: &'static str = "discord";

/// The prefix that marks a message as a command when none is configured.
pub const DEFAULT_PREFIX: &'static str = "!cnr";

/// A command read from a Discord message.
#[allow(inconsistent_fields)]
#[derive(Clone, Debug, PartialEq, Eq)]
pub enum DiscordCommand {
    Help,
    Goal { title: String },
    Status { goal: Option<String> },
    Claims { subject: String },
    Log { limit: usize },
    Manager { goal: String, executor: String },
    Replay,
}

/// A command, with its text as character sequences.
#[allow(inconsistent_fields)]
pub enum CommandView {
    Help,
    Goal { title: Seq<char> },
    Status { goal: Option<Seq<char>> },
    Claims { subject: Seq<char> },
    Log { limit: usize },
    Manager { goal: Seq<char>, executor: Seq<char> },
    Replay,
}

pub open spec fn opt_view(o: Option<String>) -> Option<Seq<char>> {
    match o {
        Some(s) => Some(s@),
        None => None,
    }
}

impl View for DiscordCommand {
    type V = CommandView;

    open spec fn view(&self) -> CommandView {
        match self {
            DiscordCommand::Help => CommandView::Help,
            DiscordCommand::Goal { title } => CommandView::Goal { title: title@ },
            DiscordCommand::Status { goal } => CommandView::Status { goal: opt_view(*goal) },
            DiscordCommand::Claims { subject } => CommandView::Claims { subject: subject@ },
            DiscordCommand::Log { limit } => CommandView::Log { limit: *limit },
            DiscordCommand::Manager { goal, executor } => CommandView::Manager {
                goal: goal@,
                executor: executor@,
            },
            DiscordCommand::Replay => CommandView::Replay,
        }
    }
}

/// Why a prefixed message is not a command.
#[derive(Clone, Debug, PartialEq, Eq)]
pub enum CommandError {
    /// `goal` without a title.
    GoalUsage { prefix: String },
    /// `claims` without a subject.
    ClaimsUsage { prefix: String },
    /// `manager` without a goal.
    ManagerUsage { prefix: String },
    /// `log` with a limit that is no unsigned integer.
    LogLimit { kind: IntErrorKind },
    /// A command word that is not known.
    UnknownCommand { command: String, prefix: String },
}

/// A command error, with its text as character sequences.
pub enum CommandErrorView {
    GoalUsage { prefix: Seq<char> },
    ClaimsUsage { prefix: Seq<char> },
    ManagerUsage { prefix: Seq<char> },
    LogLimit { kind: IntErrorKind },
    UnknownCommand { command: Seq<char>, prefix: Seq<char> },
}

impl View for CommandError {
    type V = CommandErrorView;

    open spec fn view(&self) -> CommandErrorView {
        match self {
            CommandError::GoalUsage { prefix } => CommandErrorView::GoalUsage { prefix: prefix@ },
            CommandError::ClaimsUsage { prefix } => CommandErrorView::ClaimsUsage {
                prefix: prefix@,
            },
            CommandError::ManagerUsage { prefix } => CommandErrorView::ManagerUsage {
                prefix: prefix@,
            },
            CommandError::LogLimit { kind } => CommandErrorView::LogLimit { kind: *kind },
            CommandError::UnknownCommand { command, prefix } => CommandErrorView::UnknownCommand {
                command: command@,
                prefix: prefix@,
            },
        }
    }
}

/// The outcome of parsing, with its text as character sequences.
pub open spec fn parse_view(r: Result<Option<DiscordCommand>, CommandError>) -> Result<
    Option<CommandView>,
    CommandErrorView,
> {
    match r {
        Ok(Some(c)) => Ok(Some(c@)),
        Ok(None) => Ok(None),
        Err(e) => Err(e@),
    }
}

/// What the command word `cmd`, first token of the trimmed text `rest`,
/// asks for.
pub open spec fn command_spec(p: Seq<char>, rest: Seq<char>, cmd: Seq<char>) -> Result<
    Option<CommandView>,
    CommandErrorView,
> {
    if cmd == "goal"@ {
        let after = if has_prefix(rest, "goal"@) {
            rest.subrange(4, rest.len() as int)
        } else {
            Seq::empty()
        };
        let title = trim(after);
        if title.len() == 0 {
            Err(CommandErrorView::GoalUsage { prefix: p })
        } else {
            Ok(Some(CommandView::Goal { title }))
        }
    } else if cmd == "status"@ {
        Ok(Some(CommandView::Status { goal: token(rest, 1) }))
    } else if cmd == "claims"@ {
        match token(rest, 1) {
            None => Err(CommandErrorView::ClaimsUsage { prefix: p }),
            Some(subject) => Ok(Some(CommandView::Claims { subject })),
        }
    } else if cmd == "log"@ {
        match token(rest, 1) {
            None => Ok(Some(CommandView::Log { limit: 10 })),
            Some(t) => match parse_unsigned(t, usize::MAX as nat) {
                Ok(v) => Ok(Some(CommandView::Log { limit: v as usize })),
                Err(kind) => Err(CommandErrorView::LogLimit { kind }),
            },
        }
    } else if cmd == "manager"@ {
        match token(rest, 1) {
            None => Err(CommandErrorView::ManagerUsage { prefix: p }),
            Some(goal) => Ok(
                Some(
                    CommandView::Manager {
                        goal,
                        executor: match token(rest, 2) {
                            Some(e) => e,
                            None => "local"@,
                        },
                    },
                ),
            ),
        }
    } else if cmd == "replay"@ {
        Ok(Some(CommandView::Replay))
    } else {
        Err(CommandErrorView::UnknownCommand { command: cmd, prefix: p })
    }
}

/// The text after the prefix, when `c` is a command for prefix `p`: `c`
/// starts with `p`, and `p` is followed by whitespace or by nothing.
pub open spec fn addressed(p: Seq<char>, c: Seq<char>) -> bool {
    &&& has_prefix(c, p)
    &&& (c.len() == p.len() || is_ws(c[p.len() as int]))
}

/// What `parse_command` gives for prefix `p` and message text `c`.
pub open spec fn parse_spec(p: Seq<char>, c: Seq<char>) -> Result<
    Option<CommandView>,
    CommandErrorView,
> {
    if !addressed(p, c) {
        Ok(None)
    } else {
        let rest = trim(c.subrange(p.len() as int, c.len() as int));
        if rest.len() == 0 || rest == "help"@ {
            Ok(Some(CommandView::Help))
        } else {
            match token(rest, 0) {
                None => Ok(Some(CommandView::Help)),
                Some(cmd) => command_spec(p, rest, cmd),
            }
        }
    }
}

proof fn lemma_token_step(s: Seq<char>, i: int, k: nat)
    ensures
        token_bounds(s, i, k + 1) == match token_bounds(s, i, 0) {
            Some((a, b)) => token_bounds(s, b, k),
            None => None,
        },
{
}

/// The token of `rest` with the given bounds, as a string.
fn token_string(rest: &str, r: Option<(usize, usize)>) -> (t: Option<String>)
    requires
        r matches Some((a, b)) ==> a <= b <= rest@.len(),
    ensures
        match r {
            Some((a, b)) => t matches Some(s) && s@ == rest@.subrange(a as int, b as int),
            None => t is None,
        },
{
    match r {
        Some((a, b)) => Some(substring(rest, a, b)),
        None => None,
    }
}

/// Reads a Discord message as a command for `prefix`.
///
/// A message that does not start with the prefix, or in which the prefix
/// runs on into a longer word, is no command: `Ok(None)`. A bare prefix, or
/// `help`, asks for help.
pub fn parse_command(prefix: &str, content: &str) -> (r: Result<Option<DiscordCommand>, CommandError>)
    ensures
        parse_view(r) == parse_spec(prefix@, content@),
{
    let cv = chars_of(content);
    let pv = chars_of(prefix);
    if !chars_match_at(&cv, 0, &pv) {
        return Ok(None);
    }
    let plen = pv.len();
    if plen < cv.len() && !is_whitespace(cv[plen]) {
        return Ok(None);
    }
    let after = substring(content, plen, cv.len());
    let av = chars_of(after.as_str());
    let (ta, tb) = trim_bounds(&av);
    let rest = substring(after.as_str(), ta, tb);
    assert(rest@ == trim(content@.subrange(prefix@.len() as int, content@.len() as int)));
    let rv = chars_of(rest.as_str());
    if rv.len() == 0 || str_eq(rest.as_str(), "help") {
        return Ok(Some(DiscordCommand::Help));
    }
    let first = next_token(&rv, 0);
    let (a0, b0) = match first {
        None => {
            return Ok(Some(DiscordCommand::Help));
        },
        Some(bounds) => bounds,
    };
    let command = substring(rest.as_str(), a0, b0);
    let second = next_token(&rv, b0);
    proof {
        lemma_token_step(rv@, 0, 0);
    }
    let second_tok = token_string(rest.as_str(), second);
    assert(opt_view(second_tok) == token(rest@, 1));
    let cmd = command.as_str();
    if str_eq(cmd, "goal") {
        proof {
            reveal_strlit("goal");
        }
        let after_word = if crate::text::starts_with(rest.as_str(), "goal") {
            substring(rest.as_str(), 4, rv.len())
        } else {
            String::new()
        };
        let title = crate::text::trimmed(after_word.as_str());
        let tv = chars_of(title.as_str());
        if tv.len() == 0 {
            return Err(CommandError::GoalUsage { prefix: copy_str(prefix) });
        }
        return Ok(Some(DiscordCommand::Goal { title }));
    } else if str_eq(cmd, "status") {
        return Ok(Some(DiscordCommand::Status { goal: second_tok }));
    } else if str_eq(cmd, "claims") {
        return match second_tok {
            None => Err(CommandError::ClaimsUsage { prefix: copy_str(prefix) }),
            Some(subject) => Ok(Some(DiscordCommand::Claims { subject })),
        };
    } else if str_eq(cmd, "log") {
        return match second_tok {
            None => Ok(Some(DiscordCommand::Log { limit: 10 })),
            Some(t) => {
                let tchars = chars_of(t.as_str());
                match parse_unsigned_chars(&tchars, usize::MAX as u64) {
                    Ok(v) => Ok(Some(DiscordCommand::Log { limit: v as usize })),
                    Err(kind) => Err(CommandError::LogLimit { kind }),
                }
            },
        };
    } else if str_eq(cmd, "manager") {
        return match second_tok {
            None => Err(CommandError::ManagerUsage { prefix: copy_str(prefix) }),
            Some(goal) => {
                let third = match second {
                    Some((_a1, b1)) => {
                        proof {
                            lemma_token_step(rv@, 0, 1);
                            lemma_token_step(rv@, b1 as int, 0);
                        }
                        next_token(&rv, b1)
                    },
                    None => None,
                };
                let third_tok = token_string(rest.as_str(), third);
                assert(opt_view(third_tok) == token(rest@, 2));
                let executor = match third_tok {
                    Some(e) => e,
                    None => copy_str("local"),
                };
                Ok(Some(DiscordCommand::Manager { goal, executor }))
            },
        };
    } else if str_eq(cmd, "replay") {
        return Ok(Some(DiscordCommand::Replay));
    } else {
        return Err(CommandError::UnknownCommand { command, prefix: copy_str(prefix) });
    }
}

} // verus!

verus! {

/// The text of a parse error, as `Display` shows it.
pub open spec fn error_text(e: CommandErrorView) -> Seq<char> {
    match e {
        CommandErrorView::GoalUsage { prefix } => "usage: "@ + prefix + " goal <title>"@,
        CommandErrorView::ClaimsUsage { prefix } => "usage: "@ + prefix + " claims <subject>"@,
        CommandErrorView::ManagerUsage { prefix } => "usage: "@ + prefix
            + " manager <goal> [local|modal]"@,
        CommandErrorView::LogLimit { .. } => "log limit must be a number"@,
        CommandErrorView::UnknownCommand { command, prefix } => "unknown command: "@ + command
            + ". Try `"@ + prefix + " help`."@,
    }
}

/// The text of an integer parse error, as `core::num::ParseIntError` shows it.
pub open spec fn int_error_text(k: IntErrorKind) -> Seq<char> {
    match k {
        IntErrorKind::Empty => "cannot parse integer from empty string"@,
        IntErrorKind::InvalidDigit => "invalid digit found in string"@,
        IntErrorKind::PosOverflow => "number too large to fit in target type"@,
    }
}

/// The text of a parse error with its cause, as the alternate form `{:#}`
/// shows it.
pub open spec fn error_report(e: CommandErrorView) -> Seq<char> {
    match e {
        CommandErrorView::LogLimit { kind } => error_text(e) + ": "@ + int_error_text(kind),
        _ => error_text(e),
    }
}

/// The text of an integer parse error.
pub fn int_error_message(k: IntErrorKind) -> (s: String)
    ensures
        s@ == int_error_text(k),
{
    match k {
        IntErrorKind::Empty => copy_str("cannot parse integer from empty string"),
        IntErrorKind::InvalidDigit => copy_str("invalid digit found in string"),
        IntErrorKind::PosOverflow => copy_str("number too large to fit in target type"),
    }
}

impl CommandError {
    /// The error's text.
    pub fn message(&self) -> (s: String)
        ensures
            s@ == error_text(self@),
    {
        match self {
            CommandError::GoalUsage { prefix } => cat3("usage: ", prefix.as_str(), " goal <title>"),
            CommandError::ClaimsUsage { prefix } => cat3(
                "usage: ",
                prefix.as_str(),
                " claims <subject>",
            ),
            CommandError::ManagerUsage { prefix } => cat3(
                "usage: ",
                prefix.as_str(),
                " manager <goal> [local|modal]",
            ),
            CommandError::LogLimit { .. } => copy_str("log limit must be a number"),
            CommandError::UnknownCommand { command, prefix } => {
                let head = cat3("unknown command: ", command.as_str(), ". Try `");
                cat3(head.as_str(), prefix.as_str(), " help`.")
            },
        }
    }

    /// The error's text followed by its cause, if it has one.
    pub fn report(&self) -> (s: String)
        ensures
            s@ == error_report(self@),
    {
        let m = self.message();
        match self {
            CommandError::LogLimit { kind } => {
                let cause = int_error_message(*kind);
                cat3(m.as_str(), ": ", cause.as_str())
            },
            _ => m,
        }
    }
}

/// The lines of the help reply.
pub open spec fn help_lines() -> Seq<Seq<char>> {
    seq![
        "CNR Discord commands:"@,
        "`!cnr goal <title>`"@,
        "`!cnr status [goal]`"@,
        "`!cnr claims <subject>`"@,
        "`!cnr log [limit]`"@,
        "`!cnr manager <goal> [local|modal]`"@,
        "`!cnr replay`"@,
    ]
}

/// The reply to `help`: the supported commands, one per line.
pub fn help_text() -> (s: String)
    ensures
        s@ == join(help_lines(), "\n"@),
{
    let mut lines: Vec<String> = Vec::new();
    lines.push(copy_str("CNR Discord commands:"));
    lines.push(copy_str("`!cnr goal <title>`"));
    lines.push(copy_str("`!cnr status [goal]`"));
    lines.push(copy_str("`!cnr claims <subject>`"));
    lines.push(copy_str("`!cnr log [limit]`"));
    lines.push(copy_str("`!cnr manager <goal> [local|modal]`"));
    lines.push(copy_str("`!cnr replay`"));
    let s = join_strings(&lines, "\n");
    assert(views(lines@) =~= help_lines());
    s
}

/// The longest reply, in bytes, that is sent unchanged.
pub const MESSAGE_LIMIT: usize = 1900;

/// The characters kept of a reply that is too long: the limit less the
/// length of the truncation marker.
pub const TRUNCATED_KEEP: usize = 1885;

/// What `truncate_discord_message` sends for `body`, whose UTF-8 encoding is
/// `bytes` long.
pub open spec fn truncate_spec(body: Seq<char>, bytes: nat) -> Seq<char> {
    if bytes <= MESSAGE_LIMIT {
        body
    } else {
        let keep = if body.len() < TRUNCATED_KEEP {
            body.len() as int
        } else {
            TRUNCATED_KEEP as int
        };
        body.subrange(0, keep) + "...\n[truncated]"@
    }
}

proof fn lemma_encode_utf8_len(chars: Seq<char>)
    ensures
        chars.len() <= encode_utf8(chars).len(),
    decreases chars.len(),
{
    if chars.len() > 0 {
        lemma_encode_utf8_len(chars.drop_first());
    }
}

/// Fits a reply into one Discord message: a body of at most 1900 bytes is
/// sent as it is; a longer one is cut to its first 1885 characters and
/// marked `...\n[truncated]`.
pub fn truncate_discord_message(body: &str) -> (r: String)
    ensures
        r@ == truncate_spec(body@, body.spec_bytes().len()),
        r@.len() <= MESSAGE_LIMIT,
        body.spec_bytes().len() > MESSAGE_LIMIT ==> has_suffix(r@, "[truncated]"@),
        is_ascii_chars(body@) ==> encode_utf8(r@).len() <= MESSAGE_LIMIT,
        body.spec_bytes().len() <= 1900 ==> r@ == body@,
        body.spec_bytes().len() > 1900 && body@.len() >= 1885 ==> r@ == body@.subrange(0, 1885)
            + "...\n[truncated]"@,
        body.spec_bytes().len() > 1900 && body@.len() < 1885 ==> r@ == body@ + "...\n[truncated]"@,
{
    let marker = "...\n[truncated]";
    proof {
        reveal_strlit("...\n[truncated]");
        reveal_strlit("[truncated]");
        lemma_encode_utf8_len(body@);
    }
    if body.as_bytes().len() <= MESSAGE_LIMIT {
        return copy_str(body);
    }
    let n = chars_of(body).len();
    let keep = if n < TRUNCATED_KEEP {
        n
    } else {
        TRUNCATED_KEEP
    };
    let head = substring(body, 0, keep);
    let r = cat(head.as_str(), marker);
    proof {
        assert(r@.subrange(r@.len() - 11, r@.len() as int) =~= "[truncated]"@);
        if is_ascii_chars(body@) {
            assert(is_ascii_chars(r@));
            is_ascii_chars_encode_utf8(r@);
        }
    }
    r
}

/// `x` ends with `s`.
pub open spec fn has_suffix(x: Seq<char>, s: Seq<char>) -> bool {
    s.len() <= x.len() && x.subrange(x.len() - s.len(), x.len() as int) == s
}

} // verus!

verus! {

/// What to do with a Discord message.
#[derive(Clone, Debug, PartialEq, Eq)]
pub enum MessageRoute {
    /// Not for this bot.
    Ignore,
    /// Answer at once with `body`.
    Reply { body: String },
    /// Run the command and answer with its outcome.
    Run { command: DiscordCommand },
}

/// The message is not for the bot: it was sent by a bot, or outside the one
/// channel the bot listens in.
pub open spec fn ignored_sender(from_bot: bool, listen_channel: Option<u64>, channel: u64) -> bool {
    from_bot || (listen_channel matches Some(c) && c != channel)
}

/// Decides what a message asks of the bot: messages from bots and from
/// other channels than the configured one are ignored, so are messages that
/// are no command; a command that does not parse is answered with its
/// error; a command is run.
pub fn route_message(
    from_bot: bool,
    listen_channel: Option<u64>,
    channel: u64,
    prefix: &str,
    content: &str,
) -> (r: MessageRoute)
    ensures
        ignored_sender(from_bot, listen_channel, channel) ==> r is Ignore,
        !ignored_sender(from_bot, listen_channel, channel) ==> match parse_spec(prefix@, content@) {
            Ok(None) => r is Ignore,
            Ok(Some(v)) => r matches MessageRoute::Run { command } && command@ == v,
            Err(e) => r matches MessageRoute::Reply { body } && body@ == "error: "@ + error_report(
                e,
            ),
        },
{
    if from_bot {
        return MessageRoute::Ignore;
    }
    if let Some(c) = listen_channel {
        if c != channel {
            return MessageRoute::Ignore;
        }
    }
    match parse_command(prefix, content) {
        Ok(Some(command)) => MessageRoute::Run { command },
        Ok(None) => MessageRoute::Ignore,
        Err(e) => {
            let report = e.report();
            MessageRoute::Reply { body: cat("error: ", report.as_str()) }
        },
    }
}

/// A file system path, carried through unchanged.
#[verifier::external_type_specification]
#[verifier::external_body]
pub struct ExPathBuf(std::path::PathBuf);

/// How the bot is configured.
#[derive(Debug)]
pub struct DiscordConfig {
    pub token: String,
    pub channel_id: Option<u64>,
    /// The CNR runtime directory whose event log the bot serves.
    pub root: std::path::PathBuf,
    pub prefix: String,
}

impl DiscordConfig {
    /// A configuration; the prefix is `!cnr` unless one is given.
    pub fn new(
        token: String,
        channel_id: Option<u64>,
        root: std::path::PathBuf,
        prefix: Option<String>,
    ) -> (c:
        Self)
        ensures
            c.token == token,
            c.channel_id == channel_id,
            c.root == root,
            prefix matches Some(p) ==> c.prefix == p,
            prefix is None ==> c.prefix@ == "!cnr"@,
    {
        let prefix = match prefix {
            Some(p) => p,
            None => copy_str(DEFAULT_PREFIX),
        };
        DiscordConfig { token, channel_id, root, prefix }
    }
}

/// The channel id a setting names: none when it is blank, otherwise the
/// setting read, untrimmed, as an unsigned 64-bit integer.
pub open spec fn channel_id_spec(value: Seq<char>) -> Result<Option<u64>, IntErrorKind> {
    if trim(value).len() == 0 {
        Ok(None)
    } else {
        match parse_unsigned(value, u64::MAX as nat) {
            Ok(v) => Ok(Some(v as u64)),
            Err(k) => Err(k),
        }
    }
}

/// Reads the channel id setting.
pub fn parse_channel_id(value: &str) -> (r: Result<Option<u64>, IntErrorKind>)
    ensures
        r == channel_id_spec(value@),
{
    let v = chars_of(value);
    let (a, b) = trim_bounds(&v);
    if a == b {
        return Ok(None);
    }
    match parse_unsigned_chars(&v, u64::MAX) {
        Ok(n) => Ok(Some(n)),
        Err(k) => Err(k),
    }
}

/// The error when a goal asked about does not exist.
pub fn goal_not_found(goal: &str) -> (s: String)
    ensures
        s@ == "goal not found: "@ + goal@,
{
    cat("goal not found: ", goal)
}

/// The error for a manager command naming an executor other than `local`
/// or `modal`, if it names one.
pub fn manager_executor_error(executor: &str) -> (r: Option<String>)
    ensures
        r is None <==> (executor@ == "local"@ || executor@ == "modal"@),
        r matches Some(m) ==> m@ == "executor must be local or modal"@,
{
    if str_eq(executor, "local") || str_eq(executor, "modal") {
        None
    } else {
        Some(copy_str("executor must be local or modal"))
    }
}

/// A claim as the `claims` reply lists it.
#[derive(Clone, Debug, PartialEq, Eq)]
pub struct ClaimRow {
    pub id: String,
    pub predicate: String,
    /// The claim's value, serialized as JSON.
    pub value_json: String,
}

/// The line listing a claim: id, predicate and value, separated by tabs.
pub open spec fn claim_line(r: ClaimRow) -> Seq<char> {
    r.id@ + "\t"@ + r.predicate@ + "\t"@ + r.value_json@
}

/// The reply to `claims <subject>`.
pub open spec fn claims_reply_spec(subject: Seq<char>, rows: Seq<ClaimRow>) -> Seq<char> {
    if rows.len() == 0 {
        "no claims for "@ + subject
    } else {
        join(rows.map_values(|r: ClaimRow| claim_line(r)), "\n"@)
    }
}

/// The lines listing claims, in order.
pub fn claim_lines(rows: &Vec<ClaimRow>) -> (lines: Vec<String>)
    ensures
        views(lines@) == rows@.map_values(|r: ClaimRow| claim_line(r)),
{
    let mut lines: Vec<String> = Vec::new();
    let mut i: usize = 0;
    while i < rows.len()
        invariant
            i <= rows@.len(),
            views(lines@) == rows@.take(i as int).map_values(|r: ClaimRow| claim_line(r)),
        decreases rows@.len() - i,
    {
        let r = &rows[i];
        let head = cat3(r.id.as_str(), "\t", r.predicate.as_str());
        let line = cat3(head.as_str(), "\t", r.value_json.as_str());
        let ghost before = views(lines@);
        lines.push(line);
        assert(views(lines@) =~= before.push(claim_line(rows@[i as int])));
        assert(rows@.take(i + 1).map_values(|r: ClaimRow| claim_line(r)) =~= rows@.take(
            i as int,
        ).map_values(|r: ClaimRow| claim_line(r)).push(claim_line(rows@[i as int])));
        i = i + 1;
    }
    assert(rows@.take(rows@.len() as int) =~= rows@);
    lines
}

/// Lists the claims about `subject`, one per line.
pub fn claims_reply(subject: &str, rows: &Vec<ClaimRow>) -> (s: String)
    ensures
        s@ == claims_reply_spec(subject@, rows@),
{
    if rows.len() == 0 {
        return cat("no claims for ", subject);
    }
    let lines = claim_lines(rows);
    join_strings(&lines, "\n")
}

/// An event as the `log` reply lists it.
#[derive(Clone, Debug, PartialEq, Eq)]
pub struct LogEntry {
    pub seq: u64,
    pub stream: String,
    pub payload_type: String,
    pub id: String,
}

/// The line listing an event: sequence number, stream, payload type and id,
/// separated by tabs.
pub open spec fn log_line(e: LogEntry) -> Seq<char> {
    decimal(e.seq as nat) + "\t"@ + e.stream@ + "\t"@ + e.payload_type@ + "\t"@ + e.id@
}

/// The last `limit` of the entries (all of them when there are fewer).
pub open spec fn last_entries(entries: Seq<LogEntry>, limit: nat) -> Seq<LogEntry> {
    if entries.len() > limit {
        entries.subrange(entries.len() - limit, entries.len() as int)
    } else {
        entries
    }
}

/// The reply to `log [limit]`.
pub open spec fn log_reply_spec(entries: Seq<LogEntry>, limit: nat) -> Seq<char> {
    let kept = last_entries(entries, limit);
    if kept.len() == 0 {
        "no events yet"@
    } else {
        join(kept.map_values(|e: LogEntry| log_line(e)), "\n"@)
    }
}

/// The lines listing the last `limit` events of the log, oldest first.
pub fn log_lines(entries: &Vec<LogEntry>, limit: usize) -> (lines: Vec<String>)
    ensures
        views(lines@) == last_entries(entries@, limit as nat).map_values(|e: LogEntry| log_line(e)),
{
    let n = entries.len();
    let keep_from: usize = if n > limit {
        n - limit
    } else {
        0
    };
    let ghost kept = last_entries(entries@, limit as nat);
    assert(kept =~= entries@.subrange(keep_from as int, n as int));
    let mut lines: Vec<String> = Vec::new();
    let mut i: usize = keep_from;
    while i < n
        invariant
            keep_from <= i <= n,
            n == entries@.len(),
            kept == entries@.subrange(keep_from as int, n as int),
            views(lines@) == kept.take(i - keep_from).map_values(|e: LogEntry| log_line(e)),
        decreases n - i,
    {
        let e = &entries[i];
        let seq = decimal_string(e.seq);
        let a = cat3(seq.as_str(), "\t", e.stream.as_str());
        let b = cat3(a.as_str(), "\t", e.payload_type.as_str());
        let line = cat3(b.as_str(), "\t", e.id.as_str());
        let ghost before = views(lines@);
        lines.push(line);
        assert(kept[i - keep_from] == entries@[i as int]);
        assert(views(lines@) =~= before.push(log_line(entries@[i as int])));
        assert(kept.take(i + 1 - keep_from).map_values(|e: LogEntry| log_line(e)) =~= kept.take(
            i - keep_from,
        ).map_values(|e: LogEntry| log_line(e)).push(log_line(entries@[i as int])));
        i = i + 1;
    }
    assert(kept.take(n - keep_from) =~= kept);
    lines
}

/// Lists the last `limit` events of the log, oldest first.
pub fn log_reply(entries: &Vec<LogEntry>, limit: usize) -> (s: String)
    ensures
        s@ == log_reply_spec(entries@, limit as nat),
{
    let lines = log_lines(entries, limit);
    if lines.len() == 0 {
        return copy_str("no events yet");
    }
    join_strings(&lines, "\n")
}

/// The reply to `manager`: how many actions the cycle took, then each
/// action serialized as JSON on a line of its own.
pub fn manager_reply(action_lines: &Vec<String>) -> (s: String)
    ensures
        s@ == join(
            seq!["actions="@ + decimal(action_lines@.len() as nat)] + views(action_lines@),
            "\n"@,
        ),
{
    let count = decimal_string(action_lines.len() as u64);
    let mut lines: Vec<String> = Vec::new();
    lines.push(cat("actions=", count.as_str()));
    let mut i: usize = 0;
    while i < action_lines.len()
        invariant
            i <= action_lines@.len(),
            views(lines@) == seq!["actions="@ + decimal(action_lines@.len() as nat)] + views(
                action_lines@,
            ).take(i as int),
        decreases action_lines@.len() - i,
    {
        let ghost before = views(lines@);
        lines.push(copy_str(action_lines[i].as_str()));
        assert(views(lines@) =~= before.push(action_lines@[i as int]@));
        assert(views(lines@) =~= seq!["actions="@ + decimal(action_lines@.len() as nat)] + views(
            action_lines@,
        ).take(i + 1));
        i = i + 1;
    }
    assert(views(action_lines@).take(action_lines@.len() as int) =~= views(action_lines@));
    join_strings(&lines, "\n")
}

} // verus!

verus! {

/// A prefix that runs on into a longer word makes no command: `!cnrfoo` is
/// not addressed to `!cnr`.
pub proof fn lemma_prefix_inside_word_is_no_command(p: Seq<char>, c: Seq<char>)
    requires
        has_prefix(c, p),
        c.len() > p.len(),
        !is_ws(c[p.len() as int]),
    ensures
        parse_spec(p, c) == Ok::<Option<CommandView>, CommandErrorView>(None),
{
}

/// A message that does not start with the prefix is no command.
pub proof fn lemma_unprefixed_is_no_command(p: Seq<char>, c: Seq<char>)
    requires
        !has_prefix(c, p),
    ensures
        parse_spec(p, c) == Ok::<Option<CommandView>, CommandErrorView>(None),
{
}

/// `goal` takes the rest of the message, spaces included, as the title:
/// `{prefix} goal {t}` is the goal titled `t` trimmed, whenever that title
/// is not blank.
pub proof fn lemma_goal_title_round_trip(p: Seq<char>, t: Seq<char>)
    requires
        trim(t).len() > 0,
    ensures
        parse_spec(p, p + " goal "@ + t) == Ok::<Option<CommandView>, CommandErrorView>(
            Some(CommandView::Goal { title: trim(t) }),
        ),
{
    reveal_strlit(" goal ");
    reveal_strlit("goal ");
    reveal_strlit("goal");
    reveal_strlit("help");
    reveal_strlit(" ");
    let c = p + " goal "@ + t;
    assert(c.subrange(0, p.len() as int) =~= p);
    assert(c[p.len() as int] == ' ');
    let core = trim(t);
    lemma_trim_split(t);
    let x = t.subrange(0, first_non_ws_from(t, 0));
    let y = t.subrange(trimmed_end(t, t.len() as int), t.len() as int);
    let rest0 = c.subrange(p.len() as int, c.len() as int);
    let inner = "goal "@ + x + core;
    assert(rest0 =~= " "@ + inner + y);
    assert(all_ws(" "@));
    assert(inner[0] == 'g');
    assert(inner[inner.len() - 1] == core[core.len() - 1]);
    lemma_trim_unique(rest0, " "@, inner, y);
    let rest = trim(rest0);
    assert(rest == inner);
    assert(rest.len() != "help"@.len());
    assert(rest[1] == 'o' && rest[2] == 'a' && rest[3] == 'l' && rest[4] == ' ');
    reveal_with_fuel(first_ws_from, 6);
    assert(first_non_ws_from(rest, 0) == 0);
    assert(first_ws_from(rest, 0) == 4);
    assert(token(rest, 0) == Some(rest.subrange(0, 4)));
    assert(rest.subrange(0, 4) =~= "goal"@);
    assert(rest.subrange(0, 4) =~= "goal"@);
    assert(has_prefix(rest, "goal"@));
    let after = rest.subrange(4, rest.len() as int);
    assert(after =~= (" "@ + x) + core + Seq::<char>::empty());
    assert(all_ws(" "@ + x));
    assert(all_ws(Seq::<char>::empty()));
    lemma_trim_unique(after, " "@ + x, core, Seq::<char>::empty());
}

} // verus!

verus! {

/// A message `{p} {w} {s}` of two words after the prefix: it is addressed to
/// `p`, its text after the prefix trims to `{w} {s}`, whose first two
/// tokens are `w` and `s` and which has no third.
proof fn lemma_two_words(p: Seq<char>, w: Seq<char>, s: Seq<char>)
    requires
        is_word(w),
        is_word(s),
    ensures
        addressed(p, p + " "@ + w + " "@ + s),
        trim((p + " "@ + w + " "@ + s).subrange(p.len() as int, (p + " "@ + w + " "@ + s).len() as int))
            == w + " "@ + s,
        token(w + " "@ + s, 0) == Some(w),
        token(w + " "@ + s, 1) == Some(s),
        token(w + " "@ + s, 2) is None,
{
    reveal_strlit(" ");
    let c = p + " "@ + w + " "@ + s;
    assert(c.subrange(0, p.len() as int) =~= p);
    assert(c[p.len() as int] == ' ');
    let rest = w + " "@ + s;
    let rest0 = c.subrange(p.len() as int, c.len() as int);
    assert(rest0 =~= " "@ + rest + Seq::<char>::empty());
    assert(all_ws(" "@));
    assert(all_ws(Seq::<char>::empty()));
    assert(rest[0] == w[0]);
    assert(rest[rest.len() - 1] == s[s.len() - 1]);
    lemma_trim_unique(rest0, " "@, rest, Seq::<char>::empty());
    let wl = w.len() as int;
    // The first token is `w`.
    assert(first_non_ws_from(rest, 0) == 0);
    assert forall|j: int| 0 <= j < wl implies !is_ws(#[trigger] rest[j]) by {
        assert(rest[j] == w[j]);
    }
    assert(rest[wl] == ' ');
    lemma_first_ws_at(rest, 0, wl);
    assert(token_bounds(rest, 0, 0) == Some((0int, wl)));
    assert(rest.subrange(0, wl) =~= w);
    // The second token is `s`.
    assert(first_non_ws_from(rest, wl + 1) == wl + 1) by {
        assert(rest[wl + 1] == s[0]);
    }
    assert(first_non_ws_from(rest, wl) == wl + 1);
    assert forall|j: int| wl + 1 <= j < rest.len() implies !is_ws(#[trigger] rest[j]) by {
        assert(rest[j] == s[j - wl - 1]);
    }
    lemma_first_ws_at(rest, wl + 1, rest.len() as int);
    lemma_token_step(rest, 0, 0);
    assert(token_bounds(rest, 0, 1) == Some((wl + 1, rest.len() as int)));
    assert(rest.subrange(wl + 1, rest.len() as int) =~= s);
    // Nothing follows.
    lemma_token_step(rest, 0, 1);
    lemma_token_step(rest, wl, 0);
    assert(token_bounds(rest, rest.len() as int, 0) is None);
}

/// `claims` looks up exactly the subject typed: for any prefix and any one
/// word `s`, `{p} claims {s}` lists the claims about `s`, unchanged.
pub proof fn lemma_claims_subject_is_the_word(p: Seq<char>, s: Seq<char>)
    requires
        is_word(s),
    ensures
        parse_spec(p, p + " claims "@ + s) == Ok::<Option<CommandView>, CommandErrorView>(
            Some(CommandView::Claims { subject: s }),
        ),
{
    reveal_strlit("claims");
    reveal_strlit(" claims ");
    reveal_strlit(" ");
    reveal_strlit("goal");
    reveal_strlit("status");
    reveal_strlit("help");
    let w = "claims"@;
    assert(is_word(w));
    lemma_two_words(p, w, s);
    assert(p + " claims "@ + s =~= p + " "@ + w + " "@ + s);
    let rest = w + " "@ + s;
    assert(rest.len() != "help"@.len());
    assert(w != "goal"@);
    assert(w[0] != "status"@[0]);
}

/// `status` asks about exactly the goal typed.
pub proof fn lemma_status_goal_is_the_word(p: Seq<char>, s: Seq<char>)
    requires
        is_word(s),
    ensures
        parse_spec(p, p + " status "@ + s) == Ok::<Option<CommandView>, CommandErrorView>(
            Some(CommandView::Status { goal: Some(s) }),
        ),
{
    reveal_strlit("status");
    reveal_strlit(" status ");
    reveal_strlit(" ");
    reveal_strlit("goal");
    reveal_strlit("help");
    let w = "status"@;
    assert(is_word(w));
    lemma_two_words(p, w, s);
    assert(p + " status "@ + s =~= p + " "@ + w + " "@ + s);
    let rest = w + " "@ + s;
    assert(rest.len() != "help"@.len());
    assert(w != "goal"@);
}

/// `manager` runs a cycle for exactly the goal typed, on the local executor
/// when none is named.
pub proof fn lemma_manager_goal_is_the_word(p: Seq<char>, s: Seq<char>)
    requires
        is_word(s),
    ensures
        parse_spec(p, p + " manager "@ + s) == Ok::<Option<CommandView>, CommandErrorView>(
            Some(CommandView::Manager { goal: s, executor: "local"@ }),
        ),
{
    reveal_strlit("manager");
    reveal_strlit(" manager ");
    reveal_strlit(" ");
    reveal_strlit("goal");
    reveal_strlit("status");
    reveal_strlit("claims");
    reveal_strlit("log");
    reveal_strlit("help");
    let w = "manager"@;
    assert(is_word(w));
    lemma_two_words(p, w, s);
    assert(p + " manager "@ + s =~= p + " "@ + w + " "@ + s);
    let rest = w + " "@ + s;
    assert(rest.len() != "help"@.len());
    assert(w != "goal"@);
    assert(w != "status"@);
    assert(w != "claims"@);
    assert(w != "log"@);
}

} // verus!

verus! {

/// A message `{p} {w}` of one word after the prefix: it is addressed to
/// `p`, its text after the prefix trims to `w`, which is its only token.
proof fn lemma_one_word(p: Seq<char>, w: Seq<char>)
    requires
        is_word(w),
    ensures
        addressed(p, p + " "@ + w),
        trim((p + " "@ + w).subrange(p.len() as int, (p + " "@ + w).len() as int)) == w,
        token(w, 0) == Some(w),
        token(w, 1) is None,
{
    reveal_strlit(" ");
    let c = p + " "@ + w;
    assert(c.subrange(0, p.len() as int) =~= p);
    assert(c[p.len() as int] == ' ');
    let rest0 = c.subrange(p.len() as int, c.len() as int);
    assert(rest0 =~= " "@ + w + Seq::<char>::empty());
    assert(all_ws(" "@));
    assert(all_ws(Seq::<char>::empty()));
    lemma_trim_unique(rest0, " "@, w, Seq::<char>::empty());
    assert(first_non_ws_from(w, 0) == 0);
    lemma_first_ws_at(w, 0, w.len() as int);
    assert(w.subrange(0, w.len() as int) =~= w);
    lemma_token_step(w, 0, 0);
}

/// `log` without a limit lists the last ten events.
pub proof fn lemma_log_defaults_to_ten(p: Seq<char>)
    ensures
        parse_spec(p, p + " log"@) == Ok::<Option<CommandView>, CommandErrorView>(
            Some(CommandView::Log { limit: 10 }),
        ),
{
    reveal_strlit("log");
    reveal_strlit(" log");
    reveal_strlit(" ");
    reveal_strlit("goal");
    reveal_strlit("status");
    reveal_strlit("claims");
    reveal_strlit("help");
    let w = "log"@;
    assert(is_word(w));
    lemma_one_word(p, w);
    assert(p + " log"@ =~= p + " "@ + w);
    assert(w != "help"@);
    assert(w != "goal"@);
    assert(w != "status"@);
    assert(w != "claims"@);
}

/// `log {n}` lists the last `n` events, for every `n` a limit can hold.
pub proof fn lemma_log_limit_is_the_number(p: Seq<char>, n: usize)
    ensures
        parse_spec(p, p + " log "@ + decimal(n as nat)) == Ok::<
            Option<CommandView>,
            CommandErrorView,
        >(Some(CommandView::Log { limit: n })),
{
    reveal_strlit("log");
    reveal_strlit(" log ");
    reveal_strlit(" ");
    reveal_strlit("goal");
    reveal_strlit("status");
    reveal_strlit("claims");
    reveal_strlit("help");
    let w = "log"@;
    assert(is_word(w));
    lemma_decimal_is_word(n as nat);
    lemma_decimal_parses_back(n as nat, usize::MAX as nat);
    lemma_two_words(p, w, decimal(n as nat));
    assert(p + " log "@ + decimal(n as nat) =~= p + " "@ + w + " "@ + decimal(n as nat));
    let rest = w + " "@ + decimal(n as nat);
    assert(rest.len() != "help"@.len());
    assert(w != "goal"@);
    assert(w != "status"@);
    assert(w != "claims"@);
}

/// `replay` asks for a replay.
pub proof fn lemma_replay_word(p: Seq<char>)
    ensures
        parse_spec(p, p + " replay"@) == Ok::<Option<CommandView>, CommandErrorView>(
            Some(CommandView::Replay),
        ),
{
    reveal_strlit("replay");
    reveal_strlit(" replay");
    reveal_strlit(" ");
    reveal_strlit("goal");
    reveal_strlit("status");
    reveal_strlit("claims");
    reveal_strlit("log");
    reveal_strlit("manager");
    reveal_strlit("help");
    let w = "replay"@;
    assert(is_word(w));
    lemma_one_word(p, w);
    assert(p + " replay"@ =~= p + " "@ + w);
    assert(w != "help"@);
    assert(w != "goal"@);
    assert(w[0] != "status"@[0]);
    assert(w[0] != "claims"@[0]);
    assert(w != "log"@);
    assert(w != "manager"@);
}

/// The bare prefix, and the prefix followed by `help`, ask for help.
pub proof fn lemma_help_words(p: Seq<char>)
    ensures
        parse_spec(p, p) == Ok::<Option<CommandView>, CommandErrorView>(Some(CommandView::Help)),
        parse_spec(p, p + " help"@) == Ok::<Option<CommandView>, CommandErrorView>(
            Some(CommandView::Help),
        ),
{
    reveal_strlit("help");
    reveal_strlit(" help");
    reveal_strlit(" ");
    assert(p.subrange(0, p.len() as int) =~= p);
    assert(p.subrange(p.len() as int, p.len() as int) =~= Seq::<char>::empty());
    assert(trim(Seq::<char>::empty()) =~= Seq::<char>::empty());
    let w = "help"@;
    assert(is_word(w));
    lemma_one_word(p, w);
    assert(p + " help"@ =~= p + " "@ + w);
}

} // verus!
