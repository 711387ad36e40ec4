//! Admission at the server: a knock admits its address for a while, TCP
//! listeners exist only while some address is admitted, and each accepted
//! connection is handed to a fresh process with the server's settings.

use vstd::prelude::*;
use vstd::string::*;
use crate::util::{append_dec, dec};

verus! {

/// An address that knocked: whether it is IPv6, and its bits.
pub type Address = (bool, u128);

/// How long a knock admits its address, in seconds.
pub const KNOCK_OPEN_SECONDS: u64 = 50;

/// The most open knocks kept.
pub const MAX_OPEN_KNOCKS: usize = 1000;

/// Knocks accepted recently: when (in seconds on a monotonic clock) and from
/// where.
pub struct OpenKnocks {
    pub open: Vec<(u64, Address)>,
}

/// What became of a knock.
#[derive(Clone, Copy, Debug, PartialEq, Eq, Structural)]
pub enum KnockOutcome {
    /// The knock value was wrong.
    Rejected,
    /// The knock was right and its address may now connect.
    Opened,
    /// The knock was right but too many knocks are open to keep it.
    Full,
}

/// What to do with the TCP listeners.
#[derive(Clone, Copy, Debug, PartialEq, Eq, Structural)]
pub enum ListenerChange {
    /// Start listening.
    Bind,
    /// Stop listening.
    Unbind,
    /// Leave them as they are.
    Keep,
}

/// Whether a knock at `t` is still open at `now`.
pub open spec fn still_open(t: u64, now: u64) -> bool {
    now < t || now - t < KNOCK_OPEN_SECONDS
}

/// The knocks still open at `now`, in order.
pub open spec fn open_at(s: Seq<(u64, Address)>, now: u64) -> Seq<(u64, Address)>
    decreases s.len(),
{
    if s.len() == 0 {
        s
    } else {
        let r = open_at(s.drop_last(), now);
        if still_open(s.last().0, now) {
            r.push(s.last())
        } else {
            r
        }
    }
}

impl OpenKnocks {
    /// No open knocks.
    pub fn new() -> (r: OpenKnocks)
        ensures
            r.open@.len() == 0,
    {
        OpenKnocks { open: Vec::new() }
    }

    /// Takes a knock from an address at `now`; `valid` says whether its
    /// value was right.
    pub fn knock(&mut self, valid: bool, now: u64, from: Address) -> (r: KnockOutcome)
        ensures
            !valid ==> r == KnockOutcome::Rejected && final(self).open@ == old(self).open@,
            valid && old(self).open@.len() < MAX_OPEN_KNOCKS ==> r == KnockOutcome::Opened && final(self).open@
                == old(self).open@.push((now, from)),
            valid && old(self).open@.len() >= MAX_OPEN_KNOCKS ==> r == KnockOutcome::Full && final(self).open@
                == old(self).open@,
    {
        if !valid {
            return KnockOutcome::Rejected;
        }
        if self.open.len() < MAX_OPEN_KNOCKS {
            self.open.push((now, from));
            KnockOutcome::Opened
        } else {
            KnockOutcome::Full
        }
    }

    /// Forgets the knocks that are no longer open at `now`; says whether any
    /// are left.
    pub fn prune(&mut self, now: u64) -> (r: bool)
        ensures
            final(self).open@ == open_at(old(self).open@, now),
            r == (final(self).open@.len() > 0),
    {
        let ghost s = self.open@;
        let mut kept: Vec<(u64, Address)> = Vec::new();
        let mut i: usize = 0;
        while i < self.open.len()
            invariant
                i <= s.len(),
                s == self.open@,
                kept@ == open_at(s.take(i as int), now),
            decreases s.len() - i,
        {
            assert(s.take(i + 1).drop_last() =~= s.take(i as int));
            let e = self.open[i];
            if now < e.0 || now - e.0 < KNOCK_OPEN_SECONDS {
                kept.push(e);
            }
            i = i + 1;
        }
        assert(s.take(s.len() as int) =~= s);
        self.open = kept;
        self.open.len() > 0
    }

    /// Whether an address knocked and may connect.
    pub fn may_connect(&self, from: Address) -> (r: bool)
        ensures
            r == exists|i: int| 0 <= i < self.open@.len() && self.open@[i].1 == from,
    {
        let mut i: usize = 0;
        while i < self.open.len()
            invariant
                i <= self.open@.len(),
                forall|j: int| 0 <= j < i ==> self.open@[j].1 != from,
            decreases self.open.len() - i,
        {
            let a = self.open[i].1;
            if a.0 == from.0 && a.1 == from.1 {
                return true;
            }
            i = i + 1;
        }
        false
    }
}

/// A knock just accepted still admits its address when the open knocks are
/// pruned at that same moment, and for 49 seconds after.
pub proof fn law_fresh_knock_stays_open(s: Seq<(u64, Address)>, t: u64, from: Address, now: u64)
    requires
        t <= now < t + KNOCK_OPEN_SECONDS,
    ensures
        open_at(s.push((t, from)), now).len() > 0,
        open_at(s.push((t, from)), now).last() == (t, from),
{
    assert(s.push((t, from)).drop_last() =~= s);
}

/// How the TCP listeners follow the open knocks: listen while some are
/// open, stop once none are.
pub fn listener_change(pending: bool, listening: bool) -> (r: ListenerChange)
    ensures
        pending && listening ==> r == ListenerChange::Keep,
        pending && !listening ==> r == ListenerChange::Bind,
        !pending ==> r == ListenerChange::Unbind,
{
    if pending {
        if listening {
            ListenerChange::Keep
        } else {
            ListenerChange::Bind
        }
    } else {
        ListenerChange::Unbind
    }
}

/// The models of some words.
pub open spec fn words_of(v: Seq<String>) -> Seq<Seq<char>> {
    Seq::new(v.len(), |i: int| v[i]@)
}

/// The arguments a fresh process serving one connection is started with:
/// the connection's descriptor, and the server's forced command,
/// multiplexer (where one was given) and tmux setting.
pub open spec fn reexec_args_spec(
    fd: u32,
    forced_command: Option<Seq<char>>,
    multiplexer: Option<Seq<char>>,
    no_tmux: bool,
) -> Seq<Seq<char>> {
    let a = seq!["reexec"@, "--fd="@ + dec(fd as nat)];
    let b = match forced_command {
        Some(c) => a.push("--forced-command="@ + c),
        None => a,
    };
    let c = match multiplexer {
        Some(m) => b.push("--multiplexer="@ + m),
        None => b,
    };
    if no_tmux {
        c.push("--no-tmux"@)
    } else {
        c
    }
}

/// The arguments a fresh process serving one connection is started with.
pub fn reexec_args(fd: u32, forced_command: Option<&str>, multiplexer: Option<&str>, no_tmux: bool) -> (r: Vec<String>)
    ensures
        words_of(r@) == reexec_args_spec(
            fd,
            match forced_command {
                Some(c) => Some(c@),
                None => None,
            },
            match multiplexer {
                Some(m) => Some(m@),
                None => None,
            },
            no_tmux,
        ),
{
    let mut args: Vec<String> = Vec::new();
    args.push(String::from_str("reexec"));
    let mut fd_arg = String::from_str("--fd=");
    append_dec(&mut fd_arg, fd as u64);
    args.push(fd_arg);
    let ghost a = words_of(args@);
    assert(a =~= seq!["reexec"@, "--fd="@ + dec(fd as nat)]);
    if let Some(c) = forced_command {
        let mut s = String::from_str("--forced-command=");
        s.append(c);
        let ghost before = words_of(args@);
        args.push(s);
        assert(words_of(args@) =~= before.push("--forced-command="@ + c@));
    }
    if let Some(m) = multiplexer {
        let mut s = String::from_str("--multiplexer=");
        s.append(m);
        let ghost before = words_of(args@);
        args.push(s);
        assert(words_of(args@) =~= before.push("--multiplexer="@ + m@));
    }
    if no_tmux {
        let ghost before = words_of(args@);
        args.push(String::from_str("--no-tmux"));
        assert(words_of(args@) =~= before.push("--no-tmux"@));
    }
    args
}

/// Pruning keeps exactly the knocks younger than 50 seconds (or stamped
/// after `now`), in their order: no knock older than that is kept, whatever
/// knocks came after it, and none younger is dropped.
pub proof fn law_prune_keeps_young_knocks(s: Seq<(u64, Address)>, now: u64)
    ensures
        open_at(s, now) == s.filter(|e: (u64, Address)| now < e.0 || now - e.0 < 50),
        forall|i: int|
            0 <= i < open_at(s, now).len() ==> (now < (#[trigger] open_at(s, now)[i]).0 || now - open_at(s, now)[i].0
                < 50),
    decreases s.len(),
{
    reveal(Seq::filter);
    let pred = |e: (u64, Address)| now < e.0 || now - e.0 < 50;
    if s.len() > 0 {
        law_prune_keeps_young_knocks(s.drop_last(), now);
    }
    assert(open_at(s, now) == s.filter(pred));
    let r = open_at(s, now);
    assert forall|i: int| 0 <= i < r.len() implies (now < (#[trigger] r[i]).0 || now - r[i].0 < 50) by {
        s.filter_lemma(pred);
        assert(r.contains(r[i]));
    }
}

} // verus!
