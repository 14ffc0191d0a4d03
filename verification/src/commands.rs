//! Slash commands of the text interface: parsing a line into a command, deciding what it
//! asks for, and the messages its results are reported with. Carrying a command out (and
//! reading coordinates, which are floating point) belongs to the caller.

use vstd::prelude::*;
use crate::p2p::{parse_u16, read_u16, views};
use crate::text::{chars_of, decimal, is_white, leading_white, push_char, push_chars, push_decimal, push_str, slice_chars, string_from, string_of, trailing_white, trim, trimmed, white};

verus! {

/// A parsed command: its name and arguments.
#[derive(Debug, Clone)]
pub struct Command {
    pub name: String,
    pub args: Vec<String>,
}

/// The arguments, each preceded by a space.
pub open spec fn spaced(args: Seq<Seq<char>>) -> Seq<char>
    decreases args.len(),
{
    if args.len() == 0 {
        Seq::empty()
    } else {
        spaced(args.drop_last()) + seq![' '] + args.last()
    }
}

/// The text a command displays as: `/name` then its arguments.
pub open spec fn command_text(name: Seq<char>, args: Seq<Seq<char>>) -> Seq<char> {
    seq!['/'] + name + spaced(args)
}

/// The character sequences of strings.
pub open spec fn texts(v: Seq<String>) -> Seq<Seq<char>> {
    v.map_values(|s: String| s@)
}

impl Command {
    /// The text `Display` shows: `/name arg1 arg2 ...`.
    pub fn to_display_string(&self) -> (s: String)
        ensures
            s@ == command_text(self.name@, texts(self.args@)),
    {
        let mut s = String::new();
        push_char(&mut s, '/');
        push_str(&mut s, self.name.as_str());
        let mut i: usize = 0;
        while i < self.args.len()
            invariant
                i <= self.args.len(),
                s@ == seq!['/'] + self.name@ + spaced(texts(self.args@).take(i as int)),
            decreases self.args.len() - i,
        {
            push_char(&mut s, ' ');
            push_str(&mut s, self.args[i].as_str());
            i = i + 1;
            assert(texts(self.args@).take(i as int).drop_last() =~= texts(self.args@).take(
                i - 1,
            ));
        }
        assert(texts(self.args@).take(self.args.len() as int) =~= texts(self.args@));
        s
    }
}

/// Number of characters before the first white space of `s`.
pub open spec fn word_len(s: Seq<char>) -> nat
    decreases s.len(),
{
    if s.len() == 0 || is_white(s[0]) {
        0
    } else {
        1 + word_len(s.drop_first())
    }
}

/// A word is no longer than its text.
pub proof fn lemma_word_len(s: Seq<char>)
    ensures
        word_len(s) <= s.len(),
        forall|k: int| 0 <= k < word_len(s) ==> !is_white(#[trigger] s[k]),
        word_len(s) < s.len() ==> is_white(s[word_len(s) as int]),
    decreases s.len(),
{
    if s.len() > 0 && !is_white(s[0]) {
        lemma_word_len(s.drop_first());
        assert forall|k: int| 0 <= k < word_len(s) implies !is_white(#[trigger] s[k]) by {
            if k > 0 {
                assert(s[k] == s.drop_first()[k - 1]);
            }
        }
    }
}

/// The words of `s`, separated by white space (`str::split_whitespace`).
pub open spec fn words(s: Seq<char>) -> Seq<Seq<char>>
    decreases s.len(),
{
    if s.len() == 0 {
        Seq::empty()
    } else if is_white(s[0]) {
        words(s.drop_first())
    } else {
        proof {
            lemma_word_len(s);
        }
        seq![s.take(word_len(s) as int)] + words(s.skip(word_len(s) as int))
    }
}

proof fn lemma_word_len_at(s: Seq<char>, n: int)
    requires
        0 <= n <= s.len(),
        forall|k: int| 0 <= k < n ==> !is_white(s[k]),
        n == s.len() || is_white(s[n]),
    ensures
        word_len(s) == n,
    decreases n,
{
    if n > 0 {
        lemma_word_len_at(s.drop_first(), n - 1);
    }
}

fn split_words(v: &Vec<char>) -> (out: Vec<Vec<char>>)
    ensures
        views(out@) == words(v@),
{
    let mut out: Vec<Vec<char>> = Vec::new();
    let mut i: usize = 0;
    assert(v@.skip(0) =~= v@);
    while i < v.len()
        invariant
            i <= v.len(),
            views(out@) + words(v@.skip(i as int)) == words(v@),
        decreases v.len() - i,
    {
        let ghost rest = v@.skip(i as int);
        assert(rest[0] == v@[i as int]);
        if white(v[i]) {
            assert(rest.drop_first() =~= v@.skip(i + 1));
            i = i + 1;
        } else {
            let mut j: usize = i + 1;
            while j < v.len() && !white(v[j])
                invariant
                    i < j <= v.len(),
                    forall|k: int| i <= k < j ==> !is_white(v@[k]),
                decreases v.len() - j,
            {
                j = j + 1;
            }
            proof {
                assert forall|k: int| 0 <= k < j - i implies !is_white(rest[k]) by {
                    assert(rest[k] == v@[k + i]);
                }
                if j < v.len() {
                    assert(rest[j - i] == v@[j as int]);
                }
                lemma_word_len_at(rest, j - i);
            }
            let word = slice_chars(v, i, j);
            let ghost before = out@;
            out.push(word);
            assert(word@ =~= rest.take(j - i));
            assert(rest.skip(j - i) =~= v@.skip(j as int));
            assert(views(out@) =~= views(before) + seq![word@]);
            i = j;
        }
    }
    assert(v@.skip(v.len() as int) =~= Seq::<char>::empty());
    assert(views(out@) =~= words(v@));
    out
}

/// What parsing a line gives: the line, trimmed, must start with `/`; its first word after
/// the slash is the name and the others are the arguments.
pub open spec fn parsed_command(input: Seq<char>) -> Result<(Seq<char>, Seq<Seq<char>>), Seq<char>> {
    let t = trim(input);
    if t.len() == 0 || t[0] != '/' {
        Err("Not a command (must start with /)"@)
    } else {
        let parts = words(t.skip(1));
        if parts.len() == 0 {
            Err("Empty command"@)
        } else {
            Ok((parts[0], parts.skip(1)))
        }
    }
}

/// A word: non-empty, with no white space.
pub open spec fn is_word(w: Seq<char>) -> bool {
    w.len() > 0 && forall|k: int| 0 <= k < w.len() ==> !is_white(#[trigger] w[k])
}

proof fn lemma_words_of_word_then(w: Seq<char>, s: Seq<char>)
    requires
        is_word(w),
        s.len() == 0 || is_white(s[0]),
    ensures
        words(w + s) == seq![w] + words(s),
{
    let x = w + s;
    assert(x[0] == w[0]);
    assert forall|k: int| 0 <= k < w.len() implies !is_white(x[k]) by {
        assert(x[k] == w[k]);
    }
    if s.len() > 0 {
        assert(x[w.len() as int] == s[0]);
    }
    lemma_word_len_at(x, w.len() as int);
    assert(x.take(w.len() as int) =~= w);
    assert(x.skip(w.len() as int) =~= s);
}

proof fn lemma_words_after_space(s: Seq<char>)
    ensures
        words(seq![' '] + s) == words(s),
{
    let x = seq![' '] + s;
    assert(x[0] == ' ');
    assert(is_white(' '));
    assert(x.drop_first() =~= s);
}

proof fn lemma_spaced_front(args: Seq<Seq<char>>)
    requires
        args.len() > 0,
    ensures
        spaced(args) == seq![' '] + args[0] + spaced(args.drop_first()),
    decreases args.len(),
{
    if args.len() == 1 {
        assert(args.drop_last() =~= Seq::<Seq<char>>::empty());
        assert(args.drop_first() =~= Seq::<Seq<char>>::empty());
        assert(spaced(args) =~= seq![' '] + args[0] + spaced(args.drop_first()));
    } else {
        let dl = args.drop_last();
        lemma_spaced_front(dl);
        assert(dl[0] == args[0]);
        assert(dl.drop_first() =~= args.drop_first().drop_last());
        assert(args.drop_first().last() == args.last());
        assert(spaced(args) =~= seq![' '] + args[0] + spaced(args.drop_first()));
    }
}

proof fn lemma_words_of_spaced(args: Seq<Seq<char>>)
    requires
        forall|i: int| 0 <= i < args.len() ==> is_word(#[trigger] args[i]),
    ensures
        words(spaced(args)) == args,
    decreases args.len(),
{
    if args.len() == 0 {
        assert(words(spaced(args)) =~= args);
    } else {
        let rest = args.drop_first();
        lemma_spaced_front(args);
        assert forall|i: int| 0 <= i < rest.len() implies is_word(#[trigger] rest[i]) by {
            assert(rest[i] == args[i + 1]);
        }
        lemma_words_of_spaced(rest);
        let s = spaced(rest);
        if rest.len() > 0 {
            lemma_spaced_front(rest);
            assert(s[0] == ' ');
            assert(is_white(' '));
        }
        assert(is_word(args[0]));
        lemma_words_of_word_then(args[0], s);
        assert(seq![' '] + args[0] + s =~= seq![' '] + (args[0] + s));
        lemma_words_after_space(args[0] + s);
        assert(seq![args[0]] + rest =~= args);
    }
}

/// The names of a list of commands.
pub open spec fn command_names(v: Seq<(Seq<char>, Seq<char>)>) -> Seq<Seq<char>> {
    v.map_values(|c: (Seq<char>, Seq<char>)| c.0)
}

/// Parsing gives a command back from the text it displays as, when its name and each of its
/// arguments is a word without white space.
pub proof fn lemma_parse_displayed(name: Seq<char>, args: Seq<Seq<char>>)
    requires
        is_word(name),
        forall|i: int| 0 <= i < args.len() ==> is_word(#[trigger] args[i]),
    ensures
        parsed_command(command_text(name, args)) == Ok::<(Seq<char>, Seq<Seq<char>>), Seq<char>>(
            (name, args),
        ),
{
    let t = command_text(name, args);
    let body = name + spaced(args);
    assert(t =~= seq!['/'] + body);
    assert(t[0] == '/');
    assert(!is_white('/'));
    if args.len() == 0 {
        assert(t.last() == name.last());
        assert(!is_white(name[name.len() - 1]));
    } else {
        let a = args.last();
        assert(is_word(a));
        assert(spaced(args) == spaced(args.drop_last()) + seq![' '] + a);
        assert(t.last() == a.last());
        assert(!is_white(a[a.len() - 1]));
    }
    assert(leading_white(t) == 0);
    assert(trailing_white(t) == 0);
    assert(trim(t) =~= t);
    assert(t.skip(1) =~= body);
    lemma_words_of_spaced(args);
    if args.len() > 0 {
        lemma_spaced_front(args);
        assert(spaced(args)[0] == ' ');
        assert(is_white(' '));
    }
    lemma_words_of_word_then(name, spaced(args));
    let parts = words(body);
    assert(parts == seq![name] + args);
    assert(parts[0] == name);
    assert(parts.skip(1) =~= args);
}

/// What a command asks for.
#[derive(Debug, Clone)]
pub enum CommandAction {
    /// Join the session of this link.
    Join(String),
    /// Create a session.
    Create,
    /// Set the volume.
    Volume(u8),
    /// Move to the position whose coordinates these texts give.
    Position(String, String, String),
    /// List the participants.
    Who,
    /// Show the commands.
    Help,
    /// Quit.
    Quit,
}

/// The name and description of each command.
pub open spec fn known_commands() -> Seq<(Seq<char>, Seq<char>)> {
    seq![
        ("join"@, "Join a session using a connection link"@),
        ("create"@, "Create a new session"@),
        ("volume"@, "Set volume level (0-100)"@),
        ("position"@, "Set position in virtual space (x y z)"@),
        ("who"@, "List participants in the session"@),
        ("help"@, "Show available commands"@),
        ("quit"@, "Exit the application"@),
    ]
}

/// The character sequences of pairs of strings.
pub open spec fn pair_texts(v: Seq<(String, String)>) -> Seq<(Seq<char>, Seq<char>)> {
    v.map_values(|p: (String, String)| (p.0@, p.1@))
}

/// Parses and plans slash commands.
pub struct CommandProcessor {
    commands: Vec<(String, String)>,
}

impl View for CommandProcessor {
    type V = Seq<(Seq<char>, Seq<char>)>;

    closed spec fn view(&self) -> Seq<(Seq<char>, Seq<char>)> {
        pair_texts(self.commands@)
    }
}

fn entry(name: &str, description: &str) -> (p: (String, String))
    ensures
        p.0@ == name@,
        p.1@ == description@,
{
    (string_from(name), string_from(description))
}

/// The result of planning a command line: the action, or the error message.
pub open spec fn planned(input: Seq<char>, r: Result<CommandAction, String>) -> bool {
    match parsed_command(input) {
        Err(m) => r matches Err(e) && e@ == m,
        Ok((name, args)) => if name == "join"@ {
            if args.len() == 0 {
                r matches Err(e) && e@ == "Missing session link"@
            } else {
                r matches Ok(CommandAction::Join(link)) && link@ == args[0]
            }
        } else if name == "create"@ {
            r matches Ok(CommandAction::Create)
        } else if name == "volume"@ {
            if args.len() == 0 {
                r matches Err(e) && e@ == "Missing volume level"@
            } else {
                match parse_u16(args[0]) {
                    Ok(v) => if v <= 100 {
                        r matches Ok(CommandAction::Volume(level)) && level == v
                    } else {
                        r matches Err(e) && e@ == "Volume must be a number between 0-100"@
                    },
                    Err(_) => r matches Err(e) && e@ == "Volume must be a number between 0-100"@,
                }
            }
        } else if name == "position"@ {
            if args.len() < 3 {
                r matches Err(e) && e@ == "Missing position coordinates (need x y z)"@
            } else {
                r matches Ok(CommandAction::Position(x, y, z)) && x@ == args[0] && y@ == args[1]
                    && z@ == args[2]
            }
        } else if name == "who"@ {
            r matches Ok(CommandAction::Who)
        } else if name == "help"@ {
            r matches Ok(CommandAction::Help)
        } else if name == "quit"@ {
            r matches Ok(CommandAction::Quit)
        } else {
            r matches Err(e) && e@ == "Unknown command: /"@ + name
        },
    }
}

/// A name without white space is one of the listed commands exactly when planning `/name`
/// does not report it unknown.
pub proof fn lemma_listed_exactly_when_known(name: Seq<char>, r: Result<CommandAction, String>)
    requires
        is_word(name),
        planned(seq!['/'] + name, r),
    ensures
        command_names(known_commands()).contains(name) <==> !(r matches Err(e) && e@
            == "Unknown command: /"@ + name),
{
    lemma_parse_displayed(name, Seq::empty());
    assert(command_text(name, Seq::empty()) =~= seq!['/'] + name);
    let names = command_names(known_commands());
    let unknown = "Unknown command: /"@ + name;
    reveal_strlit("join");
    reveal_strlit("create");
    reveal_strlit("volume");
    reveal_strlit("position");
    reveal_strlit("who");
    reveal_strlit("help");
    reveal_strlit("quit");
    reveal_strlit("Unknown command: /");
    reveal_strlit("Missing session link");
    reveal_strlit("Missing volume level");
    reveal_strlit("Missing position coordinates (need x y z)");
    assert(unknown[0] == 'U');
    assert(names[0] == "join"@);
    assert(names[1] == "create"@);
    assert(names[2] == "volume"@);
    assert(names[3] == "position"@);
    assert(names[4] == "who"@);
    assert(names[5] == "help"@);
    assert(names[6] == "quit"@);
    if names.contains(name) {
        let i = choose|i: int| 0 <= i < names.len() && names[i] == name;
        assert(0 <= i < 7);
        match r {
            Err(e) => {
                if e@ == unknown {
                    assert(e@[0] == 'U');
                }
            },
            Ok(_) => {},
        }
    } else {
        assert(name != "join"@);
        assert(name != "create"@);
        assert(name != "volume"@);
        assert(name != "position"@);
        assert(name != "who"@);
        assert(name != "help"@);
        assert(name != "quit"@);
    }
}

impl CommandProcessor {
    /// A processor that knows the seven commands.
    pub fn new() -> (p: Self)
        ensures
            p@ == known_commands(),
    {
        let mut commands: Vec<(String, String)> = Vec::new();
        commands.push(entry("join", "Join a session using a connection link"));
        commands.push(entry("create", "Create a new session"));
        commands.push(entry("volume", "Set volume level (0-100)"));
        commands.push(entry("position", "Set position in virtual space (x y z)"));
        commands.push(entry("who", "List participants in the session"));
        commands.push(entry("help", "Show available commands"));
        commands.push(entry("quit", "Exit the application"));
        assert(pair_texts(commands@) =~= known_commands());
        CommandProcessor { commands }
    }

    /// Parses a line into a command: an error unless, trimmed, it starts with `/` and has
    /// a name.
    pub fn parse(&self, input: &str) -> (r: Result<Command, String>)
        ensures
            match parsed_command(input@) {
                Ok((name, args)) => r matches Ok(c) && c.name@ == name && texts(c.args@) == args,
                Err(m) => r matches Err(e) && e@ == m,
            },
    {
        let v = chars_of(input);
        let t = trimmed(&v);
        if t.len() == 0 || t[0] != '/' {
            return Err(string_from("Not a command (must start with /)"));
        }
        let rest = slice_chars(&t, 1, t.len());
        assert(rest@ =~= t@.skip(1));
        let parts = split_words(&rest);
        if parts.len() == 0 {
            return Err(string_from("Empty command"));
        }
        let name = string_of(&parts[0]);
        let mut args: Vec<String> = Vec::new();
        let mut i: usize = 1;
        while i < parts.len()
            invariant
                1 <= i <= parts.len(),
                texts(args@) == views(parts@).subrange(1, i as int),
            decreases parts.len() - i,
        {
            let a = string_of(&parts[i]);
            let ghost before = args@;
            assert(a@ == views(parts@)[i as int]);
            args.push(a);
            assert(texts(args@) =~= texts(before).push(a@));
            i = i + 1;
            assert(texts(args@) =~= views(parts@).subrange(1, i as int));
        }
        assert(views(parts@).subrange(1, parts.len() as int) =~= views(parts@).skip(1));
        Ok(Command { name, args })
    }

    /// What the line `input` asks for, or the error to report.
    pub fn plan(&self, input: &str) -> (r: Result<CommandAction, String>)
        ensures
            planned(input@, r),
    {
        let cmd = match self.parse(input) {
            Ok(c) => c,
            Err(e) => {
                return Err(e);
            },
        };
        let name = chars_of(cmd.name.as_str());
        proof {
            reveal_strlit("join");
            reveal_strlit("create");
            reveal_strlit("volume");
            reveal_strlit("position");
            reveal_strlit("who");
            reveal_strlit("help");
            reveal_strlit("quit");
        }
        if crate::text::chars_eq_str(&name, "join") {
            if cmd.args.len() == 0 {
                return Err(string_from("Missing session link"));
            }
            Ok(CommandAction::Join(cmd.args[0].clone()))
        } else if crate::text::chars_eq_str(&name, "create") {
            Ok(CommandAction::Create)
        } else if crate::text::chars_eq_str(&name, "volume") {
            if cmd.args.len() == 0 {
                return Err(string_from("Missing volume level"));
            }
            let level_text = chars_of(cmd.args[0].as_str());
            match read_u16(&level_text) {
                Ok(v) => {
                    if v <= 100 {
                        Ok(CommandAction::Volume(v as u8))
                    } else {
                        Err(string_from("Volume must be a number between 0-100"))
                    }
                },
                Err(_) => Err(string_from("Volume must be a number between 0-100")),
            }
        } else if crate::text::chars_eq_str(&name, "position") {
            if cmd.args.len() < 3 {
                return Err(string_from("Missing position coordinates (need x y z)"));
            }
            Ok(
                CommandAction::Position(
                    cmd.args[0].clone(),
                    cmd.args[1].clone(),
                    cmd.args[2].clone(),
                ),
            )
        } else if crate::text::chars_eq_str(&name, "who") {
            Ok(CommandAction::Who)
        } else if crate::text::chars_eq_str(&name, "help") {
            Ok(CommandAction::Help)
        } else if crate::text::chars_eq_str(&name, "quit") {
            Ok(CommandAction::Quit)
        } else {
            let mut e = string_from("Unknown command: /");
            push_str(&mut e, cmd.name.as_str());
            Err(e)
        }
    }

    /// The commands: name and description of each.
    pub fn get_commands(&self) -> (r: Vec<(String, String)>)
        ensures
            pair_texts(r@) == self@,
    {
        let mut r: Vec<(String, String)> = Vec::new();
        let mut i: usize = 0;
        while i < self.commands.len()
            invariant
                i <= self.commands.len(),
                pair_texts(r@) == pair_texts(self.commands@).take(i as int),
            decreases self.commands.len() - i,
        {
            let (n, d) = &self.commands[i];
            let p = (n.clone(), d.clone());
            let ghost before = r@;
            assert((p.0@, p.1@) == pair_texts(self.commands@)[i as int]);
            r.push(p);
            assert(pair_texts(r@) =~= pair_texts(before).push((p.0@, p.1@)));
            i = i + 1;
            assert(pair_texts(r@) =~= pair_texts(self.commands@).take(i as int));
        }
        assert(pair_texts(self.commands@).take(self.commands.len() as int) =~= pair_texts(
            self.commands@,
        ));
        r
    }
}

/// The report of a successful join.
pub fn joined_message() -> (s: String)
    ensures
        s@ == "Joined session successfully"@,
{
    string_from("Joined session successfully")
}

/// The report of a created session.
pub fn created_message(link: &str) -> (s: String)
    ensures
        s@ == "Session created. Share this link: "@ + link@,
{
    let mut s = string_from("Session created. Share this link: ");
    push_str(&mut s, link);
    s
}

/// The report of a volume change.
pub fn volume_message(level: u8) -> (s: String)
    ensures
        s@ == "Volume set to "@ + decimal(level as nat),
{
    let mut s = string_from("Volume set to ");
    push_decimal(&mut s, level as u64);
    s
}

/// The report of quitting.
pub fn quit_message() -> (s: String)
    ensures
        s@ == "Quitting application..."@,
{
    string_from("Quitting application...")
}

/// Each text on a line of its own, after `prefix`.
pub open spec fn listed(prefix: Seq<char>, items: Seq<Seq<char>>) -> Seq<char>
    decreases items.len(),
{
    if items.len() == 0 {
        Seq::empty()
    } else {
        listed(prefix, items.drop_last()) + prefix + items.last()
    }
}

fn push_listed(s: &mut String, prefix: &str, items: &Vec<String>)
    ensures
        final(s)@ == old(s)@ + listed(prefix@, texts(items@)),
{
    let ghost start = s@;
    let mut i: usize = 0;
    while i < items.len()
        invariant
            i <= items.len(),
            s@ == start + listed(prefix@, texts(items@).take(i as int)),
        decreases items.len() - i,
    {
        push_str(s, prefix);
        push_str(s, items[i].as_str());
        i = i + 1;
        assert(texts(items@).take(i as int).drop_last() =~= texts(items@).take(i - 1));
        assert(s@ =~= start + listed(prefix@, texts(items@).take(i as int)));
    }
    assert(texts(items@).take(items.len() as int) =~= texts(items@));
}

/// The report of the participants.
pub fn participants_message(participants: &Vec<String>) -> (s: String)
    ensures
        participants@.len() == 0 ==> s@ == "No participants in the session"@,
        participants@.len() > 0 ==> s@ == "Participants in this session:"@ + listed(
            "\n  - "@,
            texts(participants@),
        ),
{
    if participants.len() == 0 {
        return string_from("No participants in the session");
    }
    let mut s = string_from("Participants in this session:");
    push_listed(&mut s, "\n  - ", participants);
    s
}

/// The report of the available commands.
pub fn help_message(commands: &Vec<String>) -> (s: String)
    ensures
        s@ == "Available commands:"@ + listed("\n  "@, texts(commands@)),
{
    let mut s = string_from("Available commands:");
    push_listed(&mut s, "\n  ", commands);
    s
}

} // verus!
