//! Small decisions of the command line: how verbose to log, the implicit
//! `client` subcommand, default addresses, and which file modes are too
//! open for a configuration file.

use vstd::prelude::*;
use vstd::string::*;

verus! {

/// The log level for a number of `-v` flags.
pub open spec fn log_level_spec(verbosity: u64) -> Seq<char> {
    if verbosity == 0 {
        "info"@
    } else if verbosity == 1 {
        "debug"@
    } else {
        "trace"@
    }
}

/// The log level for a number of `-v` flags.
pub fn log_level(verbosity: u64) -> (r: &'static str)
    ensures
        r@ == log_level_spec(verbosity),
{
    if verbosity == 0 {
        "info"
    } else if verbosity == 1 {
        "debug"
    } else {
        "trace"
    }
}

/// The `RUST_LOG` setting for a number of `-v` flags: this crate's logs at
/// that level.
pub fn rust_log_setting(verbosity: u64) -> (r: String)
    ensures
        r@ == "oxy="@ + log_level_spec(verbosity),
{
    let mut s = String::from_str("oxy=");
    s.append(log_level(verbosity));
    s
}

/// The models of some words.
pub open spec fn words_of(v: Seq<String>) -> Seq<Seq<char>> {
    Seq::new(v.len(), |i: int| v[i]@)
}

/// The command line read as a client's where it names no subcommand:
/// `client` goes in after the program's name.
pub fn with_client_subcommand(args: &Vec<String>) -> (r: Vec<String>)
    requires
        args@.len() >= 1,
    ensures
        words_of(r@) == words_of(args@).insert(1, "client"@),
{
    let mut r: Vec<String> = Vec::new();
    let mut i: usize = 0;
    while i < args.len()
        invariant
            i <= args@.len(),
            args@.len() >= 1,
            i >= 1 ==> words_of(r@) == words_of(args@).take(i as int).insert(1, "client"@),
            i == 0 ==> r@.len() == 0,
        decreases args.len() - i,
    {
        let ghost before = words_of(r@);
        r.push(args[i].clone());
        if i == 0 {
            r.push(String::from_str("client"));
            assert(words_of(r@) =~= words_of(args@).take(1).insert(1, "client"@));
        } else {
            assert(words_of(r@) =~= before.push(args@[i as int]@));
            assert(words_of(args@).take(i + 1).insert(1, "client"@) =~= words_of(args@).take(i as int).insert(1, "client"@).push(
                args@[i as int]@,
            ));
        }
        i = i + 1;
    }
    assert(words_of(args@).take(args@.len() as int) =~= words_of(args@));
    r
}

/// The address a reverse client listens on: the one given, else all IPv4
/// addresses.
pub fn bind_address(given: Option<&str>) -> (r: String)
    ensures
        r@ == match given {
            Some(g) => g@,
            None => "0.0.0.0"@,
        },
{
    match given {
        Some(g) => g.to_owned(),
        None => String::from_str("0.0.0.0"),
    }
}

/// Whether a configuration file's mode lets its group or others in.
pub fn permissions_too_loose(mode: u32) -> (r: bool)
    ensures
        r == (mode & 0o077 != 0),
{
    mode & 0o077 != 0
}

} // verus!
