//! Command line grammar and the one-line command-file protocol between a
//! `riced <subcommand>` client and the running daemon.

use vstd::prelude::*;

verus! {

/// Client subcommands.
#[derive(Debug, Clone, Copy, PartialEq, Eq, Structural)]
pub enum Commands {
    /// Ask the running daemon to open the Settings panel
    /// (spelled `open-settings`, alias `settings`).
    OpenSettings,
}

/// The parsed command line: no subcommand means "run the daemon".
#[derive(Debug, Clone, Copy, PartialEq, Eq, Structural)]
pub struct Cli {
    pub command: Option<Commands>,
}

/// A command line the grammar does not accept. `arg_index` is the position
/// (in the full argument list, program name at 0) of the first argument
/// that cannot be consumed.
#[derive(Debug, Clone, Copy, PartialEq, Eq, Structural)]
pub struct CliError {
    pub arg_index: usize,
}

/// The canonical spelling of the settings subcommand.
pub open spec fn open_settings_word() -> Seq<char> {
    "open-settings"@
}

/// Words that select the settings subcommand: its name and its alias.
pub open spec fn is_open_settings_word(w: Seq<char>) -> bool {
    w == "open-settings"@ || w == "settings"@
}

/// The end-of-options marker, which may close either argument list.
pub open spec fn is_escape_word(w: Seq<char>) -> bool {
    w == "--"@
}

/// What the command line `args` (program name first) means.
pub open spec fn spec_parse(args: Seq<Seq<char>>) -> Result<Cli, CliError> {
    if args.len() <= 1 {
        Ok(Cli { command: None })
    } else if is_escape_word(args[1]) {
        if args.len() == 2 {
            Ok(Cli { command: None })
        } else {
            Err(CliError { arg_index: 2 })
        }
    } else if is_open_settings_word(args[1]) {
        if args.len() == 2 || (args.len() == 3 && is_escape_word(args[2])) {
            Ok(Cli { command: Some(Commands::OpenSettings) })
        } else if is_escape_word(args[2]) {
            Err(CliError { arg_index: 3 })
        } else {
            Err(CliError { arg_index: 2 })
        }
    } else {
        Err(CliError { arg_index: 1 })
    }
}

fn is_word(arg: &String, word: &str) -> (r: bool)
    ensures
        r == (arg@ == word@),
{
    let w = String::from_str(word);
    *arg == w
}

impl Cli {
    /// Parse a full argument list (program name first), as `riced [open-settings|settings] [--]`.
    pub fn try_parse_from(args: &Vec<String>) -> (r: Result<Cli, CliError>)
        ensures
            r == spec_parse(args.deep_view()),
    {
        let ghost a = args.deep_view();
        let n = args.len();
        if n <= 1 {
            return Ok(Cli { command: None });
        }
        assert(a[1] == args@[1]@);
        if is_word(&args[1], "--") {
            if n == 2 {
                Ok(Cli { command: None })
            } else {
                Err(CliError { arg_index: 2 })
            }
        } else if is_word(&args[1], "open-settings") || is_word(&args[1], "settings") {
            if n == 2 {
                Ok(Cli { command: Some(Commands::OpenSettings) })
            } else {
                assert(a[2] == args@[2]@);
                let escaped = is_word(&args[2], "--");
                if n == 3 && escaped {
                    Ok(Cli { command: Some(Commands::OpenSettings) })
                } else if escaped {
                    Err(CliError { arg_index: 3 })
                } else {
                    Err(CliError { arg_index: 2 })
                }
            }
        } else {
            Err(CliError { arg_index: 1 })
        }
    }
}

/// The requested client command, if any, for the argument list `args`.
pub fn parse(args: &Vec<String>) -> (r: Result<Option<Commands>, CliError>)
    ensures
        r == (match spec_parse(args.deep_view()) {
            Ok(cli) => Ok(cli.command),
            Err(e) => Err(e),
        }),
{
    match Cli::try_parse_from(args) {
        Ok(cli) => Ok(cli.command),
        Err(e) => Err(e),
    }
}


/// Commands the daemon understands, one per line in the command file.
#[derive(Debug, Clone, Copy, PartialEq, Eq, Structural)]
pub enum QueuedCommand {
    OpenSettings,
}

/// The file spelling of a queued command.
pub open spec fn command_word(cmd: QueuedCommand) -> Seq<char> {
    match cmd {
        QueuedCommand::OpenSettings => "open-settings"@,
    }
}

/// `char::is_whitespace`: the Unicode `White_Space` property.
pub open spec fn is_white_space(c: char) -> bool {
    let v = c as u32;
    ||| 0x9 <= v <= 0xD
    ||| v == 0x20
    ||| v == 0x85
    ||| v == 0xA0
    ||| v == 0x1680
    ||| 0x2000 <= v <= 0x200A
    ||| v == 0x2028
    ||| v == 0x2029
    ||| v == 0x202F
    ||| v == 0x205F
    ||| v == 0x3000
}

/// `s` without its leading white space.
pub open spec fn trim_front(s: Seq<char>) -> Seq<char>
    decreases s.len(),
{
    if s.len() > 0 && is_white_space(s[0]) {
        trim_front(s.drop_first())
    } else {
        s
    }
}

/// `s` without its trailing white space.
pub open spec fn trim_back(s: Seq<char>) -> Seq<char>
    decreases s.len(),
{
    if s.len() > 0 && is_white_space(s.last()) {
        trim_back(s.drop_last())
    } else {
        s
    }
}

/// `str::trim`: `s` without leading and trailing white space.
pub open spec fn trimmed(s: Seq<char>) -> Seq<char> {
    trim_back(trim_front(s))
}

/// The characters of `s` before its first line feed (all of `s` if it has none).
pub open spec fn line_prefix(s: Seq<char>) -> Seq<char>
    decreases s.len(),
{
    if s.len() == 0 || s[0] == '\n' {
        Seq::empty()
    } else {
        seq![s[0]].add(line_prefix(s.drop_first()))
    }
}

/// `str::lines().next()`: no line for empty text; otherwise the text before
/// the first line feed, where a line ended by `"\r\n"` also loses its `'\r'`.
pub open spec fn first_line(s: Seq<char>) -> Option<Seq<char>> {
    if s.len() == 0 {
        None
    } else {
        let l = line_prefix(s);
        if s.contains('\n') && l.len() > 0 && l.last() == '\r' {
            Some(l.drop_last())
        } else {
            Some(l)
        }
    }
}

/// The command a single line names, ignoring surrounding white space.
pub open spec fn command_of_line(line: Seq<char>) -> Option<QueuedCommand> {
    if trimmed(line) == "open-settings"@ {
        Some(QueuedCommand::OpenSettings)
    } else {
        None
    }
}

/// The command a command file with content `content` delivers: the one its
/// first line names, if any.
pub open spec fn command_of_content(content: Seq<char>) -> Option<QueuedCommand> {
    match first_line(content) {
        Some(line) => command_of_line(line),
        None => None,
    }
}

fn white_space(c: char) -> (r: bool)
    ensures
        r == is_white_space(c),
{
    let v = c as u32;
    (0x9 <= v && v <= 0xD) || v == 0x20 || v == 0x85 || v == 0xA0 || v == 0x1680 || (0x2000 <= v
        && v <= 0x200A) || v == 0x2028 || v == 0x2029 || v == 0x202F || v == 0x205F || v == 0x3000
}

proof fn lemma_trim_front_step(s: Seq<char>, i: int)
    requires
        0 <= i < s.len(),
        is_white_space(s[i]),
    ensures
        trim_front(s.subrange(i, s.len() as int)) == trim_front(s.subrange(i + 1, s.len() as int)),
{
    let t = s.subrange(i, s.len() as int);
    assert(t.drop_first() =~= s.subrange(i + 1, s.len() as int));
}

/// `str::trim`.
fn trim(s: &str) -> (r: &str)
    ensures
        r@ == trimmed(s@),
{
    let n = s.unicode_len();
    let mut i: usize = 0;
    assert(s@.subrange(0, n as int) =~= s@);
    while i < n && white_space(s.get_char(i))
        invariant
            n == s@.len(),
            i <= n,
            trim_front(s@) == trim_front(s@.subrange(i as int, n as int)),
        decreases n - i,
    {
        proof {
            lemma_trim_front_step(s@, i as int);
        }
        i = i + 1;
    }
    let ghost front = s@.subrange(i as int, n as int);
    assert(trim_front(s@) == front) by {
        if i < n {
            assert(front[0] == s@[i as int]);
        }
    }
    let mut j: usize = n;
    while j > i && white_space(s.get_char(j - 1))
        invariant
            n == s@.len(),
            i <= j <= n,
            front == s@.subrange(i as int, n as int),
            trim_back(front) == trim_back(s@.subrange(i as int, j as int)),
        decreases j - i,
    {
        proof {
            let t = s@.subrange(i as int, j as int);
            assert(t.drop_last() =~= s@.subrange(i as int, j - 1));
        }
        j = j - 1;
    }
    proof {
        let t = s@.subrange(i as int, j as int);
        if j > i {
            assert(t.last() == s@[j - 1]);
        }
        assert(trim_back(t) == t);
    }
    s.substring_char(i, j)
}

proof fn lemma_line_prefix_step(s: Seq<char>, k: int)
    requires
        0 <= k < s.len(),
        s[k] != '\n',
    ensures
        line_prefix(s.skip(k)) == seq![s[k]].add(line_prefix(s.skip(k + 1))),
{
    let t = s.skip(k);
    assert(t[0] == s[k]);
    assert(t.drop_first() =~= s.skip(k + 1));
}

/// `str::lines().next()`.
fn first_line_of(s: &str) -> (r: Option<&str>)
    ensures
        match (r, first_line(s@)) {
            (Some(l), Some(m)) => l@ == m,
            (None, None) => true,
            _ => false,
        },
{
    let n = s.unicode_len();
    if n == 0 {
        return None;
    }
    let mut k: usize = 0;
    assert(s@.take(0).add(line_prefix(s@.skip(0))) =~= line_prefix(s@)) by {
        assert(s@.skip(0) =~= s@);
    }
    while k < n && s.get_char(k) != '\n'
        invariant
            n == s@.len(),
            k <= n,
            line_prefix(s@) == s@.take(k as int).add(line_prefix(s@.skip(k as int))),
            forall|m: int| 0 <= m < k ==> s@[m] != '\n',
        decreases n - k,
    {
        proof {
            lemma_line_prefix_step(s@, k as int);
            assert(s@.take(k as int).add(seq![s@[k as int]]) =~= s@.take(k + 1));
            assert(s@.take(k as int).add(seq![s@[k as int]].add(line_prefix(s@.skip(k + 1))))
                =~= s@.take(k + 1).add(line_prefix(s@.skip(k + 1))));
        }
        k = k + 1;
    }
    proof {
        if k == n {
            assert(s@.skip(k as int).len() == 0);
        } else {
            assert(s@.skip(k as int)[0] == '\n');
        }
        assert(line_prefix(s@) =~= s@.take(k as int));
        if k < n {
            assert(s@.contains('\n'));
        } else {
            assert(!s@.contains('\n'));
        }
    }
    if k < n && k > 0 && s.get_char(k - 1) == '\r' {
        proof {
            assert(s@.take(k as int).drop_last() =~= s@.subrange(0, k - 1));
        }
        Some(s.substring_char(0, k - 1))
    } else {
        proof {
            assert(s@.take(k as int) =~= s@.subrange(0, k as int));
        }
        Some(s.substring_char(0, k))
    }
}

impl QueuedCommand {
    /// The file spelling of this command.
    pub fn serialize(self) -> (r: &'static str)
        ensures
            r@ == command_word(self),
    {
        match self {
            QueuedCommand::OpenSettings => "open-settings",
        }
    }

    /// The command `line` names, ignoring surrounding white space.
    pub fn parse(line: &str) -> (r: Option<Self>)
        ensures
            r == command_of_line(line@),
    {
        let t = trim(line);
        if String::from_str(t) == String::from_str("open-settings") {
            Some(QueuedCommand::OpenSettings)
        } else {
            None
        }
    }

    /// The command-file content that queues this command: its word and a line feed.
    pub fn line(self) -> (r: String)
        ensures
            r@ == command_word(self) + "\n"@,
    {
        String::from_str(self.serialize()).concat("\n")
    }
}

/// Client side: the command-file content that queues `open-settings` for
/// the daemon. The caller writes it atomically (temporary file, then rename)
/// so the daemon never reads half of it.
pub fn queue_open_settings() -> (r: String)
    ensures
        r@ == command_word(QueuedCommand::OpenSettings) + "\n"@,
{
    QueuedCommand::OpenSettings.line()
}

/// Daemon side: the command a read command file delivers, if any. Only the
/// first line counts; an unknown word delivers nothing. The caller removes
/// the file after reading it, so a request is delivered at most once.
pub fn take_queued_command(content: &str) -> (r: Option<QueuedCommand>)
    ensures
        r == command_of_content(content@),
{
    match first_line_of(content) {
        Some(l) => QueuedCommand::parse(l),
        None => None,
    }
}


/// A command queued by a client is exactly the command the daemon takes from
/// the file: taking the content that `line` writes delivers the same command.
pub proof fn lemma_queue_then_take(cmd: QueuedCommand)
    ensures
        command_of_content(command_word(cmd) + "\n"@) == Some(cmd),
{
    reveal_strlit("open-settings");
    reveal_strlit("\n");
    let w = command_word(cmd);
    let c = w + "\n"@;
    assert(w.len() == 13);
    assert(c.len() == 14);
    assert(c[13] == '\n');
    assert forall|m: int| 0 <= m < 13 implies c[m] != '\n' && c[m] == w[m] by {}
    assert(c.contains('\n'));
    assert(line_prefix(c) =~= w) by {
        lemma_line_prefix_before_newline(c, 13);
        assert(c.take(13) =~= w);
    }
    assert(w.last() != '\r');
    assert(!is_white_space(w[0]));
    assert(trim_front(w) == w);
    assert(!is_white_space(w.last()));
    assert(trim_back(w) == w);
}

/// The text before a line feed at `k`, when no earlier character is one,
/// is the first `k` characters.
proof fn lemma_line_prefix_before_newline(s: Seq<char>, k: int)
    requires
        0 <= k < s.len(),
        s[k] == '\n',
        forall|m: int| 0 <= m < k ==> s[m] != '\n',
    ensures
        line_prefix(s) == s.take(k),
    decreases k,
{
    if k == 0 {
        assert(s.take(0) =~= Seq::<char>::empty());
    } else {
        let t = s.drop_first();
        lemma_line_prefix_before_newline(t, k - 1);
        assert(seq![s[0]].add(t.take(k - 1)) =~= s.take(k));
    }
}

/// The alias `settings` means the same as `open-settings`, whatever follows.
pub proof fn lemma_settings_alias(args: Seq<Seq<char>>)
    requires
        args.len() >= 2,
        args[1] == "settings"@,
    ensures
        spec_parse(args) == spec_parse(args.update(1, "open-settings"@)),
{
    reveal_strlit("settings");
    reveal_strlit("open-settings");
    reveal_strlit("--");
    let b = args.update(1, "open-settings"@);
    assert(args[1].len() == 8 && "--"@.len() == 2);
    assert(b[1].len() == 13);
    assert(!is_escape_word(args[1]) && !is_escape_word(b[1]));
    assert(is_open_settings_word(args[1]) && is_open_settings_word(b[1]));
    assert(b.len() == args.len());
    if args.len() > 2 {
        assert(b[2] == args[2]);
    }
}

} // verus!
