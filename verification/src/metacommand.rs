//! The commands typed at the client's prompt or given on the command line
//! to run once connected: their grammar, and the first message each sends.

use vstd::prelude::*;
use vstd::string::*;
use crate::message::OxyMessage;
use crate::util::{parse_u64, parse_u64_spec};
use crate::value::str_eq;

verus! {

/// The words that `shlex::split` cuts a line into, the way a POSIX shell
/// would; `None` for a line it reports as erroneous (an unclosed quote or
/// a trailing backslash).
pub uninterp spec fn shell_words(line: Seq<char>) -> Option<Seq<Seq<char>>>;

/// The models of some words.
pub open spec fn words_view(v: Seq<String>) -> Seq<Seq<char>> {
    Seq::new(v.len(), |i: int| v[i]@)
}

/// Calls `shlex::split`. Its result is named by `shell_words`.
#[verifier::external_body]
pub(crate) fn split_words(line: &str) -> (r: Option<Vec<String>>)
    ensures
        match r {
            Some(v) => shell_words(line@) == Some(words_view(v@)),
            None => shell_words(line@) is None,
        },
{
    shlex::split(line)
}

/// The last component of a path, as `std::path::Path::file_name` gives it;
/// `None` where the path ends in `..`, is a root, or is empty.
pub uninterp spec fn path_file_name(p: Seq<char>) -> Option<Seq<char>>;

/// Calls `std::path::Path::file_name` on a text path. Its result is named by
/// `path_file_name`.
#[verifier::external_body]
pub(crate) fn file_name_of(p: &str) -> (r: Option<String>)
    ensures
        match r {
            Some(n) => path_file_name(p@) == Some(n@),
            None => path_file_name(p@) is None,
        },
{
    match std::path::Path::new(p).file_name() {
        Some(name) => Some(name.to_string_lossy().into_owned()),
        None => None,
    }
}

/// Whether a word is a long option: two dashes and a name.
pub open spec fn is_long_option(t: Seq<char>) -> bool {
    t.len() > 2 && t[0] == '-' && t[1] == '-'
}

/// Whether a word looks like a flag rather than a value.
pub open spec fn is_flag_like(t: Seq<char>) -> bool {
    t.len() > 1 && t[0] == '-'
}

/// The position of the first occurrence of a character.
pub open spec fn first_index(s: Seq<char>, c: char) -> Option<int>
    decreases s.len(),
{
    if s.len() == 0 {
        None
    } else if s[0] == c {
        Some(0)
    } else {
        match first_index(s.drop_first(), c) {
            Some(i) => Some(i + 1),
            None => None,
        }
    }
}

/// The first occurrence found is a position of the character.
pub proof fn lemma_first_index(s: Seq<char>, c: char)
    ensures
        first_index(s, c) matches Some(k) ==> 0 <= k < s.len() && s[k] == c,
    decreases s.len(),
{
    if s.len() > 0 && s[0] != c {
        lemma_first_index(s.drop_first(), c);
    }
}

/// The name of a long option and the value written after `=`, if any.
pub open spec fn option_parts(t: Seq<char>) -> (Seq<char>, Option<Seq<char>>) {
    let body = t.skip(2);
    match first_index(body, '=') {
        Some(k) => (body.take(k), Some(body.skip(k + 1))),
        None => (body, None),
    }
}

/// Whether a word is `--`, which ends the options: every word after it is
/// positional.
pub open spec fn ends_options(t: Seq<char>) -> bool {
    t.len() == 2 && t[0] == '-' && t[1] == '-'
}

/// The positional words and the options (name and value, in order) of the
/// words after a command name; `None` for an unknown option, an option
/// without a value, or a stray flag. After `--` every word is positional.
pub open spec fn scan(toks: Seq<Seq<char>>, allowed: Seq<Seq<char>>) -> Option<
    (Seq<Seq<char>>, Seq<(Seq<char>, Seq<char>)>),
>
    decreases toks.len(),
{
    if toks.len() == 0 {
        Some((Seq::empty(), Seq::empty()))
    } else {
        let t = toks[0];
        if ends_options(t) {
            Some((toks.skip(1), Seq::empty()))
        } else if is_long_option(t) {
            let name = option_parts(t).0;
            if !allowed.contains(name) {
                None
            } else {
                match option_parts(t).1 {
                    Some(v) => match scan(toks.skip(1), allowed) {
                        Some(r) => Some((r.0, seq![(name, v)] + r.1)),
                        None => None,
                    },
                    None => if toks.len() < 2 {
                        None
                    } else {
                        match scan(toks.skip(2), allowed) {
                            Some(r) => Some((r.0, seq![(name, toks[1])] + r.1)),
                            None => None,
                        }
                    },
                }
            }
        } else if is_flag_like(t) {
            None
        } else {
            match scan(toks.skip(1), allowed) {
                Some(r) => Some((seq![t] + r.0, r.1)),
                None => None,
            }
        }
    }
}

/// The first position of a character, searched from `i` on.
fn find_char_from(s: &str, c: char, i: usize) -> (r: Option<usize>)
    requires
        i <= s@.len(),
    ensures
        match first_index(s@.skip(i as int), c) {
            Some(k) => r == Some((i + k) as usize),
            None => r is None,
        },
    decreases s@.len() - i,
{
    let n = s.unicode_len();
    if i >= n {
        assert(s@.skip(i as int).len() == 0);
        return None;
    }
    assert(s@.skip(i as int).drop_first() =~= s@.skip(i + 1));
    if s.get_char(i) == c {
        return Some(i);
    }
    match find_char_from(s, c, i + 1) {
        Some(k) => Some(k),
        None => None,
    }
}

/// The models of some option entries.
pub open spec fn options_view(v: Seq<(String, String)>) -> Seq<(Seq<char>, Seq<char>)> {
    Seq::new(v.len(), |i: int| (v[i].0@, v[i].1@))
}

fn name_allowed(name: &str, allowed: &Vec<&str>) -> (r: bool)
    ensures
        r == Seq::new(allowed@.len(), |i: int| allowed@[i]@).contains(name@),
{
    let ghost a = Seq::new(allowed@.len(), |i: int| allowed@[i]@);
    let mut i: usize = 0;
    while i < allowed.len()
        invariant
            i <= allowed@.len(),
            a == Seq::new(allowed@.len(), |i: int| allowed@[i]@),
            forall|j: int| 0 <= j < i ==> a[j] != name@,
        decreases allowed.len() - i,
    {
        if str_eq(allowed[i], name) {
            assert(a[i as int] == name@);
            return true;
        }
        i = i + 1;
    }
    false
}

/// Splits the words from position `i` on into positional words and options.
fn scan_from(toks: &Vec<String>, i: usize, allowed: &Vec<&str>) -> (r: Option<(Vec<String>, Vec<(String, String)>)>)
    requires
        i <= toks@.len(),
    ensures
        match scan(words_view(toks@).skip(i as int), Seq::new(allowed@.len(), |j: int| allowed@[j]@)) {
            Some(s) => r matches Some(x) && words_view(x.0@) == s.0 && options_view(x.1@) == s.1,
            None => r is None,
        },
    decreases toks@.len() - i,
{
    let ghost w = words_view(toks@).skip(i as int);
    let ghost a = Seq::new(allowed@.len(), |j: int| allowed@[j]@);
    if i >= toks.len() {
        assert(w.len() == 0);
        let p: Vec<String> = Vec::new();
        let o: Vec<(String, String)> = Vec::new();
        assert(words_view(p@) =~= Seq::<Seq<char>>::empty());
        assert(options_view(o@) =~= Seq::<(Seq<char>, Seq<char>)>::empty());
        return Some((p, o));
    }
    let t = toks[i].as_str();
    assert(w[0] == t@);
    assert(w.skip(1) =~= words_view(toks@).skip(i + 1));
    let n = t.unicode_len();
    if n == 2 && t.get_char(0) == '-' && t.get_char(1) == '-' {
        let mut p: Vec<String> = Vec::new();
        let mut j: usize = i + 1;
        while j < toks.len()
            invariant
                i + 1 <= j <= toks@.len(),
                words_view(p@) == words_view(toks@).subrange(i + 1, j as int),
            decreases toks@.len() - j,
        {
            let ghost pv = words_view(p@);
            p.push(toks[j].clone());
            assert(words_view(p@) =~= pv.push(toks@[j as int]@));
            assert(words_view(toks@).subrange(i + 1, j + 1) =~= words_view(toks@).subrange(i + 1, j as int).push(
                toks@[j as int]@,
            ));
            j = j + 1;
        }
        let o: Vec<(String, String)> = Vec::new();
        assert(words_view(p@) =~= w.skip(1));
        assert(options_view(o@) =~= Seq::<(Seq<char>, Seq<char>)>::empty());
        return Some((p, o));
    }
    if n > 2 && t.get_char(0) == '-' && t.get_char(1) == '-' {
        let eq = find_char_from(t, '=', 2);
        let ghost body = t@.skip(2);
        proof {
            lemma_first_index(body, '=');
        }
        let name: &str = match eq {
            Some(k) => t.substring_char(2, k),
            None => t.substring_char(2, n),
        };
        proof {
            match first_index(body, '=') {
                Some(kk) => {
                    assert(name@ =~= body.take(kk));
                },
                None => {
                    assert(name@ =~= body);
                },
            }
        }
        if !name_allowed(name, allowed) {
            return None;
        }
        match eq {
            Some(k) => {
                let value = t.substring_char(k + 1, n);
                proof {
                    let kk = first_index(body, '=')->0;
                    assert(value@ =~= body.skip(kk + 1));
                }
                match scan_from(toks, i + 1, allowed) {
                    Some((p, mut o)) => {
                        let ghost ov = options_view(o@);
                        o.insert(0, (name.to_owned(), value.to_owned()));
                        assert(options_view(o@) =~= seq![(name@, value@)] + ov);
                        Some((p, o))
                    },
                    None => None,
                }
            },
            None => {
                if i + 1 >= toks.len() {
                    return None;
                }
                let value = toks[i + 1].as_str();
                assert(w[1] == value@);
                assert(w.skip(2) =~= words_view(toks@).skip(i + 2));
                match scan_from(toks, i + 2, allowed) {
                    Some((p, mut o)) => {
                        let ghost ov = options_view(o@);
                        o.insert(0, (name.to_owned(), value.to_owned()));
                        assert(options_view(o@) =~= seq![(name@, value@)] + ov);
                        Some((p, o))
                    },
                    None => None,
                }
            },
        }
    } else if n > 1 && t.get_char(0) == '-' {
        None
    } else {
        match scan_from(toks, i + 1, allowed) {
            Some((mut p, o)) => {
                let ghost pv = words_view(p@);
                p.insert(0, t.to_owned());
                assert(words_view(p@) =~= seq![t@] + pv);
                Some((p, o))
            },
            None => None,
        }
    }
}

/// Why a command could not be read.
#[derive(Clone, Copy, Debug, PartialEq, Eq, Structural)]
pub enum MetaError {
    /// The line holds no words.
    NoCommand,
    /// The line has an unclosed quote or a trailing backslash.
    BadQuoting,
    /// The first word names no command.
    UnknownCommand,
    /// An unknown option, an option without a value, a stray flag, an option
    /// given twice, or too many words.
    BadArguments,
    /// A word the command needs is missing.
    MissingArgument,
    /// An offset is not a number.
    BadNumber,
    /// The remote path of a download names no file.
    NoFileName,
}

/// A command for a connected client.
#[derive(Debug)]
pub enum MetaCommand {
    /// `L local remote`: forward a local port to a remote address.
    LocalForward { local: String, remote: String },
    /// `R remote local`: forward a remote port to a local address.
    RemoteForward { remote: String, local: String },
    /// `download remote [local] [--start N] [--end N]`.
    Download { remote: String, local: String, start: Option<u64>, end: Option<u64> },
    /// `upload local [remote] [--start N]`.
    Upload { local: String, remote: String, start: Option<u64> },
    /// `tun local remote`: bridge two tun devices.
    Tun { local: String, remote: String },
    /// `tap local remote`: bridge two tap devices.
    Tap { local: String, remote: String },
    /// `socks bind`: serve SOCKS5 on a local address.
    Socks { bind: String },
    /// `pty [command]`: open a remote terminal.
    Pty { command: String },
    /// `sh command`: run a remote command without a terminal.
    Sh { command: String },
    /// `exit`.
    Exit,
    /// `f10`: send the F10 key.
    F10,
    /// `f12`: send the F12 key.
    F12,
    /// `hash path [--start N] [--end N]`: hash a remote file.
    Hash { path: String, start: Option<u64>, end: Option<u64> },
}

/// The model of a command.
pub enum MetaSpec {
    LocalForward { local: Seq<char>, remote: Seq<char> },
    RemoteForward { remote: Seq<char>, local: Seq<char> },
    Download { remote: Seq<char>, local: Seq<char>, start: Option<u64>, end: Option<u64> },
    Upload { local: Seq<char>, remote: Seq<char>, start: Option<u64> },
    Tun { local: Seq<char>, remote: Seq<char> },
    Tap { local: Seq<char>, remote: Seq<char> },
    Socks { bind: Seq<char> },
    Pty { command: Seq<char> },
    Sh { command: Seq<char> },
    Exit,
    F10,
    F12,
    Hash { path: Seq<char>, start: Option<u64>, end: Option<u64> },
}

impl MetaCommand {
    /// The model of this command.
    pub open spec fn spec_of(&self) -> MetaSpec {
        match self {
            MetaCommand::LocalForward { local, remote } => MetaSpec::LocalForward { local: local@, remote: remote@ },
            MetaCommand::RemoteForward { remote, local } => MetaSpec::RemoteForward { remote: remote@, local: local@ },
            MetaCommand::Download { remote, local, start, end } => MetaSpec::Download {
                remote: remote@,
                local: local@,
                start: *start,
                end: *end,
            },
            MetaCommand::Upload { local, remote, start } => MetaSpec::Upload { local: local@, remote: remote@, start: *start },
            MetaCommand::Tun { local, remote } => MetaSpec::Tun { local: local@, remote: remote@ },
            MetaCommand::Tap { local, remote } => MetaSpec::Tap { local: local@, remote: remote@ },
            MetaCommand::Socks { bind } => MetaSpec::Socks { bind: bind@ },
            MetaCommand::Pty { command } => MetaSpec::Pty { command: command@ },
            MetaCommand::Sh { command } => MetaSpec::Sh { command: command@ },
            MetaCommand::Exit => MetaSpec::Exit,
            MetaCommand::F10 => MetaSpec::F10,
            MetaCommand::F12 => MetaSpec::F12,
            MetaCommand::Hash { path, start, end } => MetaSpec::Hash { path: path@, start: *start, end: *end },
        }
    }
}

/// The model of a parse result.
pub open spec fn meta_result_view(r: Result<MetaCommand, MetaError>) -> Result<MetaSpec, MetaError> {
    match r {
        Ok(c) => Ok(c.spec_of()),
        Err(e) => Err(e),
    }
}

/// The options each command takes.
pub open spec fn allowed_options(name: Seq<char>) -> Seq<Seq<char>> {
    if name == "download"@ || name == "hash"@ {
        seq!["start"@, "end"@]
    } else if name == "upload"@ {
        seq!["start"@]
    } else {
        Seq::empty()
    }
}

/// The most positional words each command takes.
pub open spec fn max_positionals(name: Seq<char>) -> nat {
    if name == "exit"@ || name == "f10"@ || name == "f12"@ {
        0
    } else if name == "socks"@ || name == "pty"@ || name == "sh"@ || name == "hash"@ {
        1
    } else {
        2
    }
}

/// The fewest positional words each command needs.
pub open spec fn min_positionals(name: Seq<char>) -> nat {
    if name == "L"@ || name == "R"@ || name == "tun"@ || name == "tap"@ {
        2
    } else if name == "download"@ || name == "upload"@ || name == "socks"@ || name == "sh"@ || name == "hash"@ {
        1
    } else {
        0
    }
}

/// Whether a word names a command.
pub open spec fn known_command(name: Seq<char>) -> bool {
    ||| name == "L"@
    ||| name == "R"@
    ||| name == "download"@
    ||| name == "upload"@
    ||| name == "tun"@
    ||| name == "tap"@
    ||| name == "socks"@
    ||| name == "pty"@
    ||| name == "sh"@
    ||| name == "exit"@
    ||| name == "f10"@
    ||| name == "f12"@
    ||| name == "hash"@
}

/// Whether no option is given twice.
pub open spec fn distinct_options(o: Seq<(Seq<char>, Seq<char>)>) -> bool {
    forall|i: int, j: int| 0 <= i < j < o.len() ==> o[i].0 != o[j].0
}

/// The value given for an option.
pub open spec fn option_value(o: Seq<(Seq<char>, Seq<char>)>, name: Seq<char>) -> Option<Seq<char>>
    decreases o.len(),
{
    if o.len() == 0 {
        None
    } else if o[0].0 == name {
        Some(o[0].1)
    } else {
        option_value(o.drop_first(), name)
    }
}

/// The number given for an option, if it was given.
pub open spec fn number_option(o: Seq<(Seq<char>, Seq<char>)>, name: Seq<char>) -> Result<Option<u64>, MetaError> {
    match option_value(o, name) {
        None => Ok(None),
        Some(v) => match parse_u64_spec(v) {
            Some(n) => Ok(Some(n)),
            None => Err(MetaError::BadNumber),
        },
    }
}

/// The command for a known name, its positional words and its options, once
/// their numbers are checked.
pub open spec fn build_command(
    name: Seq<char>,
    p: Seq<Seq<char>>,
    o: Seq<(Seq<char>, Seq<char>)>,
    default_pty: Seq<char>,
) -> Result<MetaSpec, MetaError> {
    if name == "L"@ {
        Ok(MetaSpec::LocalForward { local: p[0], remote: p[1] })
    } else if name == "R"@ {
        Ok(MetaSpec::RemoteForward { remote: p[0], local: p[1] })
    } else if name == "download"@ {
        match path_file_name(p[0]) {
            None => Err(MetaError::NoFileName),
            Some(f) => match number_option(o, "start"@) {
                Err(e) => Err(e),
                Ok(start) => match number_option(o, "end"@) {
                    Err(e) => Err(e),
                    Ok(end) => Ok(
                        MetaSpec::Download {
                            remote: p[0],
                            local: if p.len() > 1 {
                                p[1]
                            } else {
                                f
                            },
                            start,
                            end,
                        },
                    ),
                },
            },
        }
    } else if name == "upload"@ {
        match number_option(o, "start"@) {
            Err(e) => Err(e),
            Ok(start) => Ok(
                MetaSpec::Upload {
                    local: p[0],
                    remote: if p.len() > 1 {
                        p[1]
                    } else {
                        Seq::empty()
                    },
                    start,
                },
            ),
        }
    } else if name == "tun"@ {
        Ok(MetaSpec::Tun { local: p[0], remote: p[1] })
    } else if name == "tap"@ {
        Ok(MetaSpec::Tap { local: p[0], remote: p[1] })
    } else if name == "socks"@ {
        Ok(MetaSpec::Socks { bind: p[0] })
    } else if name == "pty"@ {
        Ok(
            MetaSpec::Pty {
                command: if p.len() > 0 {
                    p[0]
                } else {
                    default_pty
                },
            },
        )
    } else if name == "sh"@ {
        Ok(MetaSpec::Sh { command: p[0] })
    } else if name == "exit"@ {
        Ok(MetaSpec::Exit)
    } else if name == "f10"@ {
        Ok(MetaSpec::F10)
    } else if name == "f12"@ {
        Ok(MetaSpec::F12)
    } else {
        match number_option(o, "start"@) {
            Err(e) => Err(e),
            Ok(start) => match number_option(o, "end"@) {
                Err(e) => Err(e),
                Ok(end) => Ok(MetaSpec::Hash { path: p[0], start, end }),
            },
        }
    }
}

/// What a command's words mean. `default_pty` is the command a bare `pty`
/// runs.
pub open spec fn parse_spec(words: Seq<Seq<char>>, default_pty: Seq<char>) -> Result<MetaSpec, MetaError> {
    if words.len() == 0 {
        Err(MetaError::NoCommand)
    } else if !known_command(words[0]) {
        Err(MetaError::UnknownCommand)
    } else {
        let name = words[0];
        match scan(words.skip(1), allowed_options(name)) {
            None => Err(MetaError::BadArguments),
            Some(r) => if r.0.len() > max_positionals(name) || !distinct_options(r.1) {
                Err(MetaError::BadArguments)
            } else if r.0.len() < min_positionals(name) {
                Err(MetaError::MissingArgument)
            } else {
                build_command(name, r.0, r.1, default_pty)
            },
        }
    }
}

/// For `tun` and `tap`, the first word after the command is the local
/// device and the second the remote one: `tun a b` sets up the local device
/// `a` and asks the server for the device `b`. Likewise `L a b` forwards the
/// local address `a` to the remote `b`, and `R a b` the remote address `a`
/// to the local `b`.
pub proof fn law_two_word_commands_in_order(a: Seq<char>, b: Seq<char>, default_pty: Seq<char>)
    requires
        !is_flag_like(a),
        !is_flag_like(b),
    ensures
        parse_spec(seq!["tun"@, a, b], default_pty) == Ok::<MetaSpec, MetaError>(MetaSpec::Tun { local: a, remote: b }),
        parse_spec(seq!["tap"@, a, b], default_pty) == Ok::<MetaSpec, MetaError>(MetaSpec::Tap { local: a, remote: b }),
        parse_spec(seq!["L"@, a, b], default_pty) == Ok::<MetaSpec, MetaError>(
            MetaSpec::LocalForward { local: a, remote: b },
        ),
        parse_spec(seq!["R"@, a, b], default_pty) == Ok::<MetaSpec, MetaError>(
            MetaSpec::RemoteForward { remote: a, local: b },
        ),
{
    reveal_strlit("tun");
    reveal_strlit("tap");
    reveal_strlit("L");
    reveal_strlit("R");
    reveal_strlit("download");
    reveal_strlit("upload");
    reveal_strlit("hash");
    reveal_strlit("socks");
    reveal_strlit("exit");
    reveal_strlit("f10");
    reveal_strlit("f12");
    reveal_strlit("pty");
    reveal_strlit("sh");
    assert("tun"@ != "tap"@) by {
        assert("tun"@[1] != "tap"@[1]);
    }
    assert("tun"@ != "f10"@ && "tun"@ != "f12"@ && "tap"@ != "f10"@ && "tap"@ != "f12"@) by {
        assert("tun"@[0] != "f10"@[0]);
        assert("tap"@[0] != "f10"@[0]);
        assert("tun"@[0] != "f12"@[0]);
        assert("tap"@[0] != "f12"@[0]);
    }
    assert("tun"@ != "pty"@ && "tap"@ != "pty"@) by {
        assert("tun"@[0] != "pty"@[0]);
        assert("tap"@[0] != "pty"@[0]);
    }
    let w = seq![a, b];
    assert(seq!["tun"@, a, b].skip(1) =~= w);
    assert(seq!["tap"@, a, b].skip(1) =~= w);
    assert(w.skip(1) =~= seq![b]);
    assert(seq![b].skip(1) =~= Seq::<Seq<char>>::empty());
    assert(!ends_options(a) && !is_long_option(a));
    assert(!ends_options(b) && !is_long_option(b));
    let empty = Seq::<Seq<char>>::empty();
    assert(scan(seq![b].skip(1), empty) == Some((Seq::<Seq<char>>::empty(), Seq::<(Seq<char>, Seq<char>)>::empty())));
    assert(scan(seq![b], empty) == Some((seq![b], Seq::<(Seq<char>, Seq<char>)>::empty()))) by {
        assert(seq![b][0] == b);
        assert(seq![b] =~= seq![b] + Seq::<Seq<char>>::empty());
    }
    assert(scan(w, empty) == Some((seq![a, b], Seq::<(Seq<char>, Seq<char>)>::empty()))) by {
        assert(w[0] == a);
        assert(seq![a] + seq![b] =~= seq![a, b]);
    }
    assert("tun"@.len() == 3 && "tap"@.len() == 3 && "download"@.len() == 8 && "hash"@.len() == 4 && "upload"@.len() == 6);
    assert("exit"@.len() == 4 && "socks"@.len() == 5 && "sh"@.len() == 2 && "L"@.len() == 1 && "R"@.len() == 1);
    assert(known_command("tun"@) && known_command("tap"@));
    assert(allowed_options("tun"@) == empty && allowed_options("tap"@) == empty) by {
        assert("tun"@ != "download"@ && "tun"@ != "hash"@ && "tun"@ != "upload"@);
        assert("tap"@ != "download"@ && "tap"@ != "hash"@ && "tap"@ != "upload"@);
    }
    assert(max_positionals("tun"@) == 2 && max_positionals("tap"@) == 2) by {
        assert("tun"@ != "exit"@ && "tun"@ != "socks"@ && "tun"@ != "sh"@ && "tun"@ != "hash"@);
        assert("tap"@ != "exit"@ && "tap"@ != "socks"@ && "tap"@ != "sh"@ && "tap"@ != "hash"@);
    }
    assert(min_positionals("tun"@) == 2 && min_positionals("tap"@) == 2);
    assert(distinct_options(Seq::<(Seq<char>, Seq<char>)>::empty()));
    assert(build_command("tun"@, seq![a, b], Seq::empty(), default_pty) == Ok::<MetaSpec, MetaError>(
        MetaSpec::Tun { local: a, remote: b },
    )) by {
        assert("tun"@ != "L"@ && "tun"@ != "R"@ && "tun"@ != "download"@ && "tun"@ != "upload"@);
    }
    assert(build_command("tap"@, seq![a, b], Seq::empty(), default_pty) == Ok::<MetaSpec, MetaError>(
        MetaSpec::Tap { local: a, remote: b },
    )) by {
        assert("tap"@ != "L"@ && "tap"@ != "R"@ && "tap"@ != "download"@ && "tap"@ != "upload"@);
    }
    assert(seq!["tun"@, a, b][0] == "tun"@);
    assert(seq!["tap"@, a, b][0] == "tap"@);
    assert(seq!["L"@, a, b].skip(1) =~= w);
    assert(seq!["R"@, a, b].skip(1) =~= w);
    assert(seq!["L"@, a, b][0] == "L"@);
    assert(seq!["R"@, a, b][0] == "R"@);
    assert("L"@ != "R"@) by {
        assert("L"@[0] != "R"@[0]);
    }
    assert(known_command("L"@) && known_command("R"@));
    assert(allowed_options("L"@) == empty && allowed_options("R"@) == empty);
    assert(max_positionals("L"@) == 2 && max_positionals("R"@) == 2);
    assert(min_positionals("L"@) == 2 && min_positionals("R"@) == 2);
}

fn is_known_command(name: &str) -> (r: bool)
    ensures
        r == known_command(name@),
{
    str_eq(name, "L") || str_eq(name, "R") || str_eq(name, "download") || str_eq(name, "upload") || str_eq(name, "tun")
        || str_eq(name, "tap") || str_eq(name, "socks") || str_eq(name, "pty") || str_eq(name, "sh") || str_eq(name, "exit")
        || str_eq(name, "f10") || str_eq(name, "f12") || str_eq(name, "hash")
}

fn allowed_for(name: &str) -> (r: Vec<&'static str>)
    ensures
        Seq::new(r@.len(), |i: int| r@[i]@) == allowed_options(name@),
{
    let mut r: Vec<&'static str> = Vec::new();
    if str_eq(name, "download") || str_eq(name, "hash") {
        r.push("start");
        r.push("end");
        assert(Seq::new(r@.len(), |i: int| r@[i]@) =~= seq!["start"@, "end"@]);
    } else if str_eq(name, "upload") {
        r.push("start");
        assert(Seq::new(r@.len(), |i: int| r@[i]@) =~= seq!["start"@]);
    } else {
        assert(Seq::new(r@.len(), |i: int| r@[i]@) =~= Seq::<Seq<char>>::empty());
    }
    r
}

fn max_positionals_exec(name: &str) -> (r: usize)
    ensures
        r == max_positionals(name@),
{
    if str_eq(name, "exit") || str_eq(name, "f10") || str_eq(name, "f12") {
        0
    } else if str_eq(name, "socks") || str_eq(name, "pty") || str_eq(name, "sh") || str_eq(name, "hash") {
        1
    } else {
        2
    }
}

fn min_positionals_exec(name: &str) -> (r: usize)
    ensures
        r == min_positionals(name@),
{
    if str_eq(name, "L") || str_eq(name, "R") || str_eq(name, "tun") || str_eq(name, "tap") {
        2
    } else if str_eq(name, "download") || str_eq(name, "upload") || str_eq(name, "socks") || str_eq(name, "sh")
        || str_eq(name, "hash") {
        1
    } else {
        0
    }
}

fn distinct_options_exec(o: &Vec<(String, String)>) -> (r: bool)
    ensures
        r == distinct_options(options_view(o@)),
{
    let ghost ov = options_view(o@);
    let mut i: usize = 0;
    while i < o.len()
        invariant
            i <= o@.len(),
            ov == options_view(o@),
            forall|a: int, b: int| 0 <= a < b < ov.len() && a < i ==> ov[a].0 != ov[b].0,
        decreases o.len() - i,
    {
        let mut j: usize = i + 1;
        while j < o.len()
            invariant
                i < j <= o@.len(),
                i < o@.len(),
                ov == options_view(o@),
                forall|a: int, b: int| 0 <= a < b < ov.len() && a < i ==> ov[a].0 != ov[b].0,
                forall|b: int| i < b < j ==> ov[i as int].0 != ov[b].0,
            decreases o.len() - j,
        {
            if str_eq(o[i].0.as_str(), o[j].0.as_str()) {
                assert(ov[i as int].0 == ov[j as int].0);
                return false;
            }
            j = j + 1;
        }
        i = i + 1;
    }
    true
}

fn option_value_exec<'a>(o: &'a Vec<(String, String)>, name: &str) -> (r: Option<&'a str>)
    ensures
        opt_str(r) == option_value(options_view(o@), name@),
{
    let ghost ov = options_view(o@);
    assert(ov.skip(0) =~= ov);
    let mut i: usize = 0;
    while i < o.len()
        invariant
            i <= o@.len(),
            ov == options_view(o@),
            option_value(ov, name@) == option_value(ov.skip(i as int), name@),
        decreases o.len() - i,
    {
        assert(ov.skip(i as int)[0] == ov[i as int]);
        assert(ov.skip(i as int).drop_first() =~= ov.skip(i + 1));
        if str_eq(o[i].0.as_str(), name) {
            return Some(o[i].1.as_str());
        }
        i = i + 1;
    }
    assert(ov.skip(i as int).len() == 0);
    None
}

/// The model of an optional text.
pub open spec fn opt_str(v: Option<&str>) -> Option<Seq<char>> {
    match v {
        Some(x) => Some(x@),
        None => None,
    }
}

fn number_option_exec(o: &Vec<(String, String)>, name: &str) -> (r: Result<Option<u64>, MetaError>)
    ensures
        r == number_option(options_view(o@), name@),
{
    match option_value_exec(o, name) {
        None => Ok(None),
        Some(v) => match parse_u64(v) {
            Some(n) => Ok(Some(n)),
            None => Err(MetaError::BadNumber),
        },
    }
}

fn build_command_exec(name: &str, p: &Vec<String>, o: &Vec<(String, String)>, default_pty: &str) -> (r: Result<
    MetaCommand,
    MetaError,
>)
    requires
        known_command(name@),
        min_positionals(name@) <= p@.len() <= max_positionals(name@),
    ensures
        meta_result_view(r) == build_command(name@, words_view(p@), options_view(o@), default_pty@),
{
    let ghost pv = words_view(p@);
    if p.len() > 0 {
        assert(pv[0] == p@[0]@);
    }
    if p.len() > 1 {
        assert(pv[1] == p@[1]@);
    }
    if str_eq(name, "L") {
        Ok(MetaCommand::LocalForward { local: p[0].clone(), remote: p[1].clone() })
    } else if str_eq(name, "R") {
        Ok(MetaCommand::RemoteForward { remote: p[0].clone(), local: p[1].clone() })
    } else if str_eq(name, "download") {
        let f = match file_name_of(p[0].as_str()) {
            Some(f) => f,
            None => return Err(MetaError::NoFileName),
        };
        let start = number_option_exec(o, "start")?;
        let end = number_option_exec(o, "end")?;
        let local = if p.len() > 1 {
            p[1].clone()
        } else {
            f
        };
        Ok(MetaCommand::Download { remote: p[0].clone(), local, start, end })
    } else if str_eq(name, "upload") {
        let start = number_option_exec(o, "start")?;
        let remote = if p.len() > 1 {
            p[1].clone()
        } else {
            String::new()
        };
        Ok(MetaCommand::Upload { local: p[0].clone(), remote, start })
    } else if str_eq(name, "tun") {
        Ok(MetaCommand::Tun { local: p[0].clone(), remote: p[1].clone() })
    } else if str_eq(name, "tap") {
        Ok(MetaCommand::Tap { local: p[0].clone(), remote: p[1].clone() })
    } else if str_eq(name, "socks") {
        Ok(MetaCommand::Socks { bind: p[0].clone() })
    } else if str_eq(name, "pty") {
        let command = if p.len() > 0 {
            p[0].clone()
        } else {
            default_pty.to_owned()
        };
        Ok(MetaCommand::Pty { command })
    } else if str_eq(name, "sh") {
        Ok(MetaCommand::Sh { command: p[0].clone() })
    } else if str_eq(name, "exit") {
        Ok(MetaCommand::Exit)
    } else if str_eq(name, "f10") {
        Ok(MetaCommand::F10)
    } else if str_eq(name, "f12") {
        Ok(MetaCommand::F12)
    } else {
        let start = number_option_exec(o, "start")?;
        let end = number_option_exec(o, "end")?;
        Ok(MetaCommand::Hash { path: p[0].clone(), start, end })
    }
}

/// Reads a command from its words. `default_pty` is the command a bare `pty`
/// runs.
pub fn parse_metacommand(words: &Vec<String>, default_pty: &str) -> (r: Result<MetaCommand, MetaError>)
    ensures
        meta_result_view(r) == parse_spec(words_view(words@), default_pty@),
{
    let ghost w = words_view(words@);
    if words.len() == 0 {
        return Err(MetaError::NoCommand);
    }
    let name = words[0].as_str();
    assert(w[0] == name@);
    if !is_known_command(name) {
        return Err(MetaError::UnknownCommand);
    }
    let allowed = allowed_for(name);
    assert(words_view(words@).skip(1) =~= w.skip(1));
    let (p, o) = match scan_from(words, 1, &allowed) {
        Some(x) => x,
        None => return Err(MetaError::BadArguments),
    };
    assert(words_view(p@).len() == p@.len());
    if p.len() > max_positionals_exec(name) || !distinct_options_exec(&o) {
        return Err(MetaError::BadArguments);
    }
    if p.len() < min_positionals_exec(name) {
        return Err(MetaError::MissingArgument);
    }
    build_command_exec(name, &p, &o, default_pty)
}

/// Reads a command from a line, split into words the way a shell would.
pub fn parse_metacommand_line(line: &str, default_pty: &str) -> (r: Result<MetaCommand, MetaError>)
    ensures
        match shell_words(line@) {
            Some(w) => meta_result_view(r) == parse_spec(w, default_pty@),
            None => r == Err::<MetaCommand, MetaError>(MetaError::BadQuoting),
        },
{
    match split_words(line) {
        Some(words) => parse_metacommand(&words, default_pty),
        None => Err(MetaError::BadQuoting),
    }
}

/// The key sequence of F10.
pub open spec fn f10_keys() -> Seq<u8> {
    seq![27u8, 91u8, 50u8, 49u8, 126u8]
}

/// The key sequence of F12.
pub open spec fn f12_keys() -> Seq<u8> {
    seq![27u8, 91u8, 50u8, 52u8, 126u8]
}

/// The message a command sends first, where it sends one straight away:
/// `sh` a basic command, `pty` a terminal request, `download` a stat of the
/// remote path, `R` a remote bind, `tun` and `tap` a tunnel request, and the
/// function keys their key sequences as terminal input.
pub fn first_message(cmd: &MetaCommand) -> (r: Option<OxyMessage>)
    ensures
        match cmd.spec_of() {
            MetaSpec::Sh { command } => r matches Some(OxyMessage::BasicCommand { command: c }) && c@ == command,
            MetaSpec::Pty { command } => r matches Some(OxyMessage::PtyRequest { command: c }) && c@ == command,
            MetaSpec::Download { remote, .. } => r matches Some(OxyMessage::StatRequest { path }) && path@ == remote,
            MetaSpec::RemoteForward { remote, .. } => r matches Some(OxyMessage::RemoteBind { addr }) && addr@ == remote,
            MetaSpec::Tun { remote, .. } => r matches Some(OxyMessage::TunnelRequest { tap, name }) && !tap && name@
                == remote,
            MetaSpec::Tap { remote, .. } => r matches Some(OxyMessage::TunnelRequest { tap, name }) && tap && name@
                == remote,
            MetaSpec::F10 => r matches Some(OxyMessage::PtyInput { data }) && data@ == f10_keys(),
            MetaSpec::F12 => r matches Some(OxyMessage::PtyInput { data }) && data@ == f12_keys(),
            _ => r is None,
        },
{
    match cmd {
        MetaCommand::Sh { command } => Some(OxyMessage::BasicCommand { command: command.clone() }),
        MetaCommand::Pty { command } => Some(OxyMessage::PtyRequest { command: command.clone() }),
        MetaCommand::Download { remote, .. } => Some(OxyMessage::StatRequest { path: remote.clone() }),
        MetaCommand::RemoteForward { remote, .. } => Some(OxyMessage::RemoteBind { addr: remote.clone() }),
        MetaCommand::Tun { remote, .. } => Some(OxyMessage::TunnelRequest { tap: false, name: remote.clone() }),
        MetaCommand::Tap { remote, .. } => Some(OxyMessage::TunnelRequest { tap: true, name: remote.clone() }),
        MetaCommand::F10 => {
            let data: Vec<u8> = vec![27u8, 91u8, 50u8, 49u8, 126u8];
            assert(data@ =~= f10_keys());
            Some(OxyMessage::PtyInput { data })
        },
        MetaCommand::F12 => {
            let data: Vec<u8> = vec![27u8, 91u8, 50u8, 52u8, 126u8];
            assert(data@ =~= f12_keys());
            Some(OxyMessage::PtyInput { data })
        },
        _ => None,
    }
}

/// The local addresses that remote listeners forward to, by the number of
/// the bind request that set each up.
pub struct RemoteBinds {
    pub entries: Vec<(u64, String)>,
}

/// The map recorded pairs make: a later pair for a number replaces an
/// earlier one.
pub open spec fn binds_map(s: Seq<(u64, String)>) -> Map<u64, Seq<char>>
    decreases s.len(),
{
    if s.len() == 0 {
        Map::empty()
    } else {
        binds_map(s.drop_last()).insert(s.last().0, s.last().1@)
    }
}

impl RemoteBinds {
    /// The local address each bind request's listener forwards to.
    pub open spec fn view_map(&self) -> Map<u64, Seq<char>> {
        binds_map(self.entries@)
    }

    /// No remote listeners yet.
    pub fn new() -> (r: RemoteBinds)
        ensures
            r.view_map() == Map::<u64, Seq<char>>::empty(),
    {
        RemoteBinds { entries: Vec::new() }
    }

    /// Records, for a command sent as the request numbered `number`, where
    /// its remote listener forwards to: the local address of a remote
    /// forward (`R`); other commands record nothing.
    pub fn record(&mut self, cmd: &MetaCommand, number: u64)
        ensures
            match cmd.spec_of() {
                MetaSpec::RemoteForward { local, .. } => final(self).view_map() == old(self).view_map().insert(
                    number,
                    local,
                ),
                _ => final(self).view_map() == old(self).view_map(),
            },
    {
        match cmd {
            MetaCommand::RemoteForward { local, .. } => {
                let ghost before = self.entries@;
                self.entries.push((number, local.clone()));
                assert(self.entries@.drop_last() =~= before);
            },
            _ => {},
        }
    }

    /// The local address the listener set up by request `number` forwards
    /// to, if one was recorded.
    pub fn destination(&self, number: u64) -> (r: Option<String>)
        ensures
            match r {
                Some(d) => self.view_map().dom().contains(number) && self.view_map()[number] == d@,
                None => !self.view_map().dom().contains(number),
            },
    {
        let mut i: usize = self.entries.len();
        while i > 0
            invariant
                i <= self.entries@.len(),
                forall|j: int| i <= j < self.entries@.len() ==> self.entries@[j].0 != number,
            decreases i,
        {
            i = i - 1;
            if self.entries[i].0 == number {
                proof {
                    lemma_binds_last(self.entries@, i as int, number);
                }
                return Some(self.entries[i].1.clone());
            }
        }
        proof {
            lemma_binds_absent(self.entries@, number);
        }
        None
    }
}

/// The map holds the last pair recorded for a number.
proof fn lemma_binds_last(s: Seq<(u64, String)>, i: int, n: u64)
    requires
        0 <= i < s.len(),
        s[i].0 == n,
        forall|j: int| i < j < s.len() ==> s[j].0 != n,
    ensures
        binds_map(s).dom().contains(n),
        binds_map(s)[n] == s[i].1@,
    decreases s.len(),
{
    if i < s.len() - 1 {
        lemma_binds_last(s.drop_last(), i, n);
    }
}

/// A number no pair carries is not in the map.
proof fn lemma_binds_absent(s: Seq<(u64, String)>, n: u64)
    requires
        forall|j: int| 0 <= j < s.len() ==> s[j].0 != n,
    ensures
        !binds_map(s).dom().contains(n),
    decreases s.len(),
{
    if s.len() > 0 {
        lemma_binds_absent(s.drop_last(), n);
    }
}

} // verus!
