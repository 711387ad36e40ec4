//! Port knocking: time-based knock values derived from a shared secret, the
//! knock port, and looking up peers by key.

use vstd::prelude::*;
use vstd::utf8::encode_utf8;
use vstd::slice::slice_to_vec;
use crate::conf::{Conf, ConfView, RunMode, client_spec, decoded_field, first_named, peer_list, text_lt, names_of, is_name_list};
use crate::crypto::{pbkdf2_derive, pbkdf2_sha512, unix_time_secs};
use crate::util::{be16, be64_bytes, read_be16, push_be64, bytes_eq};
use crate::value::{opt_str_view, opt_bytes_view, opt_string_view, str_eq};

verus! {

/// The length of a knock period, in seconds.
pub const KNOCK_ROTATION_TIME: u64 = 60;

/// The most knock values kept for reuse.
pub const KNOCK_CACHE_LIMIT: usize = 100;

/// The secret that knocks for a peer are derived from: the peer's own knock
/// secret where one is configured, else the instance's.
pub open spec fn knock_data_spec(c: ConfView, mode: RunMode, peer: Option<Seq<char>>) -> Option<Seq<u8>> {
    let own = if mode.knocks_as_server() {
        decoded_field(c.server, "knock"@)
    } else if mode.knocks_as_client() {
        decoded_field(c.client, "knock"@)
    } else {
        None
    };
    match peer {
        Some(p) => match decoded_field(
            if mode.knocks_as_server() {
                client_spec(c, p)
            } else if mode.knocks_as_client() {
                crate::conf::server_spec(c, p)
            } else {
                None
            },
            "knock"@,
        ) {
            Some(d) => Some(d),
            None => own,
        },
        None => own,
    }
}

/// The start of the knock period that a time falls in.
pub open spec fn period_start(now: u64) -> int {
    now - now % 60
}

/// The knock value for a secret and a period start: 100 bytes of
/// PBKDF2-HMAC-SHA512 with 1024 iterations, salt `timeknock`, over the
/// secret followed by the big-endian period start.
pub open spec fn knock_value(secret: Seq<u8>, period: u64) -> Seq<u8> {
    pbkdf2_sha512(1024, encode_utf8("timeknock"@), secret + be64_bytes(period), 100)
}

/// The knock values accepted at a time: those of the current period and of
/// the periods just before and after it.
pub open spec fn knock_accepted(secret: Seq<u8>, now: u64, knock: Seq<u8>) -> bool {
    let p = period_start(now);
    ||| knock == knock_value(secret, p as u64)
    ||| knock == knock_value(secret, (p + 60) as u64)
    ||| knock == knock_value(secret, (p - 60) as u64)
}

/// Times at which the neighbouring periods are representable.
pub open spec fn time_in_range(now: u64) -> bool {
    60 <= now <= u64::MAX - 120
}

/// Why no knock could be made.
#[derive(Clone, Copy, Debug, PartialEq, Eq, Structural)]
pub enum KnockError {
    /// No knock secret is configured.
    NoKnockKey,
    /// The configured knock secret is shorter than two bytes (or too long to
    /// derive from).
    BadKnockKey,
    /// The knock port search ran out of iteration counts.
    SearchExhausted,
    /// The clock is before the Unix epoch or out of range.
    Clock,
}

/// The model of a peer name.
pub open spec fn opt_name_view(p: Option<String>) -> Option<Seq<char>> {
    opt_string_view(p)
}

/// Knock values already derived, kept for reuse.
pub struct KnockCache {
    entries: Vec<(u64, Option<String>, Vec<u8>)>,
}

/// A kept entry holds the knock value for its period and peer under the
/// given configuration.
#[verifier::opaque]
pub open spec fn entry_ok(c: ConfView, mode: RunMode, e: (u64, Option<String>, Vec<u8>)) -> bool {
    match knock_data_spec(c, mode, opt_name_view(e.1)) {
        Some(d) => e.2@ == knock_value(d, e.0),
        None => false,
    }
}

/// Whether a kept entry is the one for a peer and period.
pub open spec fn kept_for(e: (u64, Option<String>, Vec<u8>), peer: Option<Seq<char>>, period: u64) -> bool {
    e.0 == period && opt_name_view(e.1) == peer
}

impl KnockCache {
    /// Every kept value is the knock value for its period and peer, under the
    /// given configuration; at most `KNOCK_CACHE_LIMIT` are kept.
    pub closed spec fn wf(&self, c: ConfView, mode: RunMode) -> bool {
        &&& self.entries@.len() <= KNOCK_CACHE_LIMIT
        &&& forall|i: int| 0 <= i < self.entries@.len() ==> entry_ok(c, mode, #[trigger] self.entries@[i])
    }

    /// An empty cache.
    pub fn new() -> (r: KnockCache)
        ensures
            forall|c: ConfView, mode: RunMode| r.wf(c, mode),
    {
        KnockCache { entries: Vec::new() }
    }

    /// A kept knock value for a period and peer, if there is one.
    fn lookup(&self, conf: &Conf, mode: RunMode, peer: Option<&str>, period: u64) -> (r: Option<Vec<u8>>)
        requires
            self.wf(conf@, mode),
        ensures
            r is Some <==> exists|i: int|
                0 <= i < self.entries@.len() && #[trigger] kept_for(self.entries@[i], opt_str_view(peer), period),
            r matches Some(v) ==> exists|i: int| {
                &&& 0 <= i < self.entries@.len()
                &&& #[trigger] kept_for(self.entries@[i], opt_str_view(peer), period)
                &&& v@ == self.entries@[i].2@
                &&& forall|j: int| 0 <= j < i ==> !kept_for(#[trigger] self.entries@[j], opt_str_view(peer), period)
            },
            r matches Some(v) ==> {
                &&& knock_data_spec(conf@, mode, opt_str_view(peer)) is Some
                &&& v@ == knock_value(knock_data_spec(conf@, mode, opt_str_view(peer))->0, period)
            },
    {
        let mut i: usize = 0;
        while i < self.entries.len()
            invariant
                i <= self.entries@.len(),
                self.wf(conf@, mode),
                forall|j: int| 0 <= j < i ==> !kept_for(#[trigger] self.entries@[j], opt_str_view(peer), period),
            decreases self.entries@.len() - i,
        {
            if self.entries[i].0 == period && same_peer(&self.entries[i].1, peer) {
                proof {
                    let e = self.entries@[i as int];
                    assert(entry_ok(conf@, mode, e));
                    reveal(entry_ok);
                    assert(opt_name_view(e.1) == opt_str_view(peer));
                }
                let v = copy_bytes(&self.entries[i].2);
                assert(kept_for(self.entries@[i as int], opt_str_view(peer), period));
                return Some(v);
            }
            i = i + 1;
        }
        None
    }
}

fn same_peer(a: &Option<String>, b: Option<&str>) -> (r: bool)
    ensures
        r == (opt_string_view(*a) == opt_str_view(b)),
{
    match (a, b) {
        (Some(x), Some(y)) => str_eq(x.as_str(), y),
        (None, None) => true,
        _ => false,
    }
}

fn copy_bytes(v: &Vec<u8>) -> (r: Vec<u8>)
    ensures
        r@ == v@,
{
    let r = v.clone();
    assert(r@ =~= v@);
    r
}

/// The secret that knocks for a peer are derived from.
pub fn knock_data(conf: &Conf, mode: RunMode, peer: Option<&str>) -> (r: Option<Vec<u8>>)
    ensures
        opt_bytes_view(r) == knock_data_spec(conf@, mode, opt_str_view(peer)),
{
    if let Some(peer) = peer {
        if let Some(data) = conf.peer_knock(mode, peer) {
            return Some(data);
        }
    }
    conf.default_knock(mode)
}

/// Derives the knock value for a secret and a period start.
pub fn derive_knock(secret: &[u8], period: u64) -> (r: Vec<u8>)
    ensures
        r@ == knock_value(secret@, period),
{
    let mut input: Vec<u8> = slice_to_vec(secret);
    push_be64(&mut input, period);
    let salt = "timeknock".as_bytes();
    pbkdf2_derive(1024, salt, input.as_slice(), 100)
}

impl KnockCache {
    /// The knock value for the period `plus` seconds after and `minus`
    /// seconds before the start of the period `now` falls in. A value derived
    /// before for the same period and peer is reused; a new one is kept, the
    /// oldest dropped when more than `KNOCK_CACHE_LIMIT` would be kept.
    pub fn make_knock_internal(
        &mut self,
        conf: &Conf,
        mode: RunMode,
        peer: Option<&str>,
        now: u64,
        plus: u64,
        minus: u64,
    ) -> (r: Result<Vec<u8>, KnockError>)
        requires
            old(self).wf(conf@, mode),
            0 <= period_start(now) + plus - minus,
            period_start(now) + plus <= u64::MAX,
        ensures
            final(self).wf(conf@, mode),
            match knock_data_spec(conf@, mode, opt_str_view(peer)) {
                Some(d) => r matches Ok(v) && v@ == knock_value(d, (period_start(now) + plus - minus) as u64),
                None => r == Err::<Vec<u8>, KnockError>(KnockError::NoKnockKey),
            },
    {
        let mut timebytes = now - now % KNOCK_ROTATION_TIME;
        timebytes = timebytes + plus;
        timebytes = timebytes - minus;
        if let Some(v) = self.lookup(conf, mode, peer, timebytes) {
            return Ok(v);
        }
        let data = match knock_data(conf, mode, peer) {
            Some(d) => d,
            None => return Err(KnockError::NoKnockKey),
        };
        let result = derive_knock(data.as_slice(), timebytes);
        let name: Option<String> = match peer {
            Some(p) => Some(p.to_owned()),
            None => None,
        };
        let ghost old_entries = self.entries@;
        let result_copy = copy_bytes(&result);
        let ghost e = (timebytes, name, result_copy);
        self.entries.push((timebytes, name, result_copy));
        if self.entries.len() > KNOCK_CACHE_LIMIT {
            self.entries.remove(0);
        }
        proof {
            assert(entry_ok(conf@, mode, old_entries.push(e).last())) by {
                reveal(entry_ok);
            }
            assert forall|j: int| 0 <= j < self.entries@.len() implies entry_ok(conf@, mode, #[trigger] self.entries@[j]) by {
                if old_entries.len() + 1 > KNOCK_CACHE_LIMIT {
                    assert(self.entries@[j] == old_entries.push(e)[j + 1]);
                } else {
                    assert(self.entries@[j] == old_entries.push(e)[j]);
                }
            }
        }
        Ok(result)
    }

    /// The knock value for the current period.
    pub fn make_knock_at(&mut self, conf: &Conf, mode: RunMode, peer: Option<&str>, now: u64) -> (r: Result<Vec<u8>, KnockError>)
        requires
            old(self).wf(conf@, mode),
        ensures
            final(self).wf(conf@, mode),
            match knock_data_spec(conf@, mode, opt_str_view(peer)) {
                Some(d) => r matches Ok(v) && v@ == knock_value(d, period_start(now) as u64),
                None => r == Err::<Vec<u8>, KnockError>(KnockError::NoKnockKey),
            },
    {
        self.make_knock_internal(conf, mode, peer, now, 0, 0)
    }

    /// The knock value for the current period, by the system clock.
    /// `NoKnockKey` where no knock secret is configured, else `Clock` where
    /// the clock cannot be read.
    pub fn make_knock(&mut self, conf: &Conf, mode: RunMode, peer: Option<&str>) -> (r: Result<Vec<u8>, KnockError>)
        requires
            old(self).wf(conf@, mode),
        ensures
            final(self).wf(conf@, mode),
            knock_data_spec(conf@, mode, opt_str_view(peer)) is None ==> r == Err::<Vec<u8>, KnockError>(
                KnockError::NoKnockKey,
            ),
            knock_data_spec(conf@, mode, opt_str_view(peer)) is Some ==> (r is Ok || r == Err::<Vec<u8>, KnockError>(
                KnockError::Clock,
            )),
            r matches Ok(v) ==> exists|now: u64| v@ == knock_value(
                knock_data_spec(conf@, mode, opt_str_view(peer))->0,
                period_start(now) as u64,
            ),
    {
        match unix_time_secs() {
            Some(now) => {
                let r = self.make_knock_at(conf, mode, peer, now);
                r
            },
            None => {
                if knock_data(conf, mode, peer).is_none() {
                    return Err(KnockError::NoKnockKey);
                }
                Err(KnockError::Clock)
            },
        }
    }

    /// Whether a received knock is valid at time `now`: it must be the knock
    /// value of the current period or of one of its two neighbours.
    pub fn verify_knock_at(&mut self, conf: &Conf, mode: RunMode, peer: Option<&str>, knock: &[u8], now: u64) -> (r: Result<bool, KnockError>)
        requires
            old(self).wf(conf@, mode),
            time_in_range(now),
        ensures
            final(self).wf(conf@, mode),
            match knock_data_spec(conf@, mode, opt_str_view(peer)) {
                Some(d) => r == Ok::<bool, KnockError>(knock_accepted(d, now, knock@)),
                None => r == Err::<bool, KnockError>(KnockError::NoKnockKey),
            },
    {
        let c = self.make_knock_internal(conf, mode, peer, now, 0, KNOCK_ROTATION_TIME)?;
        let a = self.make_knock_internal(conf, mode, peer, now, 0, 0)?;
        let b = self.make_knock_internal(conf, mode, peer, now, KNOCK_ROTATION_TIME, 0)?;
        Ok(bytes_eq(knock, a.as_slice()) || bytes_eq(knock, b.as_slice()) || bytes_eq(knock, c.as_slice()))
    }

    /// Whether a received knock is valid now, by the system clock.
    /// `NoKnockKey` where no knock secret is configured, else `Clock` where
    /// the clock cannot be read or is out of range.
    pub fn verify_knock(&mut self, conf: &Conf, mode: RunMode, peer: Option<&str>, knock: &[u8]) -> (r: Result<bool, KnockError>)
        requires
            old(self).wf(conf@, mode),
        ensures
            final(self).wf(conf@, mode),
            knock_data_spec(conf@, mode, opt_str_view(peer)) is None ==> r == Err::<bool, KnockError>(
                KnockError::NoKnockKey,
            ),
            knock_data_spec(conf@, mode, opt_str_view(peer)) is Some ==> (r is Ok || r == Err::<bool, KnockError>(
                KnockError::Clock,
            )),
            r matches Ok(b) ==> exists|now: u64| time_in_range(now) && b == knock_accepted(
                knock_data_spec(conf@, mode, opt_str_view(peer))->0,
                now,
                knock@,
            ),
    {
        match unix_time_secs() {
            Some(now) => {
                if 60 <= now && now <= u64::MAX - 120 {
                    let r = self.verify_knock_at(conf, mode, peer, knock, now);
                    proof {
                        if let Ok(b) = r {
                            let d = knock_data_spec(conf@, mode, opt_str_view(peer))->0;
                            assert(time_in_range(now) && b == knock_accepted(d, now, knock@));
                        }
                    }
                    return r;
                }
            },
            None => {},
        }
        if knock_data(conf, mode, peer).is_none() {
            return Err(KnockError::NoKnockKey);
        }
        Err(KnockError::Clock)
    }
}

/// The knock port derived from a secret: the first derivation whose first
/// two bytes, big-endian, exceed 1024. The secret itself is the first
/// derivation; each next one is PBKDF2-HMAC-SHA512 with salt `knock` over the
/// previous one, with iteration counts 6, 7, and so on. `None` where the
/// iteration count would overflow.
pub open spec fn knock_port_search(data: Seq<u8>, iterations: u32) -> Option<u16>
    decreases u32::MAX - iterations,
{
    if be16(data) > 1024 {
        Some(be16(data))
    } else if iterations == u32::MAX {
        None
    } else {
        knock_port_search(
            pbkdf2_sha512((iterations + 1) as u32, encode_utf8("knock"@), data, data.len()),
            (iterations + 1) as u32,
        )
    }
}

/// Searches for the knock port from a secret of at least two bytes.
pub fn knock_port_from(secret: &[u8]) -> (r: Option<u16>)
    requires
        secret@.len() >= 2,
        secret@.len() <= u32::MAX,
    ensures
        r == knock_port_search(secret@, 5),
        r matches Some(p) ==> p > 1024,
{
    let mut data: Vec<u8> = slice_to_vec(secret);
    let ghost len = data@.len();
    let ghost start = secret@;
    assert(data@ =~= start);
    let mut iter_count: u32 = 5;
    loop
        invariant
            data@.len() == len,
            len >= 2,
            len <= u32::MAX,
            start == secret@,
            knock_port_search(data@, iter_count) == knock_port_search(start, 5),
        decreases u32::MAX - iter_count,
    {
        let val = read_be16(data.as_slice());
        if val > 1024 {
            return Some(val);
        }
        if iter_count == u32::MAX {
            return None;
        }
        iter_count = iter_count + 1;
        let salt = "knock".as_bytes();
        data = pbkdf2_derive(iter_count, salt, data.as_slice(), data.len());
    }
}

/// The knock port for a peer.
pub fn knock_port(conf: &Conf, mode: RunMode, peer: Option<&str>) -> (r: Result<u16, KnockError>)
    ensures
        match knock_data_spec(conf@, mode, opt_str_view(peer)) {
            None => r == Err::<u16, KnockError>(KnockError::NoKnockKey),
            Some(d) => if d.len() < 2 || d.len() > u32::MAX {
                r == Err::<u16, KnockError>(KnockError::BadKnockKey)
            } else {
                match knock_port_search(d, 5) {
                    Some(p) => r == Ok::<u16, KnockError>(p),
                    None => r == Err::<u16, KnockError>(KnockError::SearchExhausted),
                }
            },
        },
{
    let data = match knock_data(conf, mode, peer) {
        Some(d) => d,
        None => return Err(KnockError::NoKnockKey),
    };
    if data.len() < 2 || data.len() > 4294967295 {
        return Err(KnockError::BadKnockKey);
    }
    match knock_port_from(data.as_slice()) {
        Some(p) => Ok(p),
        None => Err(KnockError::SearchExhausted),
    }
}

/// Whether the configured public key of a client is the given key.
pub open spec fn pubkey_matches(c: ConfView, name: Seq<char>, key: Seq<u8>) -> bool {
    decoded_field(client_spec(c, name), "pubkey"@) == Some(key)
}

/// The client whose configured public key is the given key; where several
/// are, the first in name order.
pub fn get_peer_for_public_key(conf: &Conf, key: &[u8]) -> (r: Option<String>)
    ensures
        r matches Some(n) ==> {
            &&& first_named(peer_list(conf@.server, "clients"@), n@) is Some
            &&& pubkey_matches(conf@, n@, key@)
            &&& forall|m: Seq<char>|
                #![trigger first_named(peer_list(conf@.server, "clients"@), m)]
                first_named(peer_list(conf@.server, "clients"@), m) is Some && pubkey_matches(conf@, m, key@)
                    ==> m == n@ || text_lt(n@, m)
        },
        r is None ==> forall|m: Seq<char>|
            #![trigger first_named(peer_list(conf@.server, "clients"@), m)]
            first_named(peer_list(conf@.server, "clients"@), m) is Some ==> !pubkey_matches(conf@, m, key@),
{
    let names = conf.client_names();
    let ghost nv = names_of(names@);
    let ghost list = peer_list(conf@.server, "clients"@);
    let mut i: usize = 0;
    while i < names.len()
        invariant
            i <= names@.len(),
            nv == names_of(names@),
            list == peer_list(conf@.server, "clients"@),
            is_name_list(nv, list),
            forall|j: int| 0 <= j < i ==> !pubkey_matches(conf@, #[trigger] nv[j], key@),
        decreases names.len() - i,
    {
        let confkey = conf.pubkey_for_client(names[i].as_str());
        match confkey {
            Some(k) => {
                if bytes_eq(k.as_slice(), key) {
                    proof {
                        assert(nv[i as int] == names@[i as int]@);
                        assert forall|m: Seq<char>|
                            #![trigger first_named(list, m)]
                            first_named(list, m) is Some && pubkey_matches(conf@, m, key@)
                                implies m == nv[i as int] || text_lt(nv[i as int], m) by {
                            assert(nv.contains(m));
                            let j = choose|j: int| 0 <= j < nv.len() && nv[j] == m;
                            if j < i {
                                assert(!pubkey_matches(conf@, nv[j], key@));
                            } else if j > i {
                                assert(text_lt(nv[i as int], nv[j]));
                            }
                        }
                    }
                    return Some(names[i].clone());
                }
            },
            None => {},
        }
        proof {
            assert(nv[i as int] == names@[i as int]@);
        }
        i = i + 1;
    }
    proof {
        assert forall|m: Seq<char>|
            #![trigger first_named(list, m)]
            first_named(list, m) is Some implies !pubkey_matches(conf@, m, key@) by {
            assert(nv.contains(m));
            let j = choose|j: int| 0 <= j < nv.len() && nv[j] == m;
        }
    }
    None
}

/// A knock made at one time is accepted at any time in the same knock
/// period or in the period just before or after it.
pub proof fn law_knock_accepted_nearby(secret: Seq<u8>, made: u64, checked: u64)
    requires
        time_in_range(checked),
        period_start(checked) - 60 <= period_start(made) <= period_start(checked) + 60,
    ensures
        knock_accepted(secret, checked, knock_value(secret, period_start(made) as u64)),
{
    let pm = period_start(made);
    let pc = period_start(checked);
    assert(pm == 60 * (made as int / 60)) by (nonlinear_arith)
        requires
            pm == made - made % 60,
            made as int == 60 * (made as int / 60) + made % 60;
    assert(pc == 60 * (checked as int / 60)) by (nonlinear_arith)
        requires
            pc == checked - checked % 60,
            checked as int == 60 * (checked as int / 60) + checked % 60;
    let d = made as int / 60 - checked as int / 60;
    assert(pm - pc == 60 * d) by (nonlinear_arith)
        requires
            pm == 60 * (made as int / 60),
            pc == 60 * (checked as int / 60),
            d == made as int / 60 - checked as int / 60;
    assert(-1 <= d <= 1) by (nonlinear_arith)
        requires
            pm - pc == 60 * d,
            -60 <= pm - pc <= 60;
}

/// A knock made at a time is accepted at that same time.
pub proof fn law_knock_accepted_same_time(secret: Seq<u8>, now: u64)
    requires
        time_in_range(now),
    ensures
        knock_accepted(secret, now, knock_value(secret, period_start(now) as u64)),
{
    law_knock_accepted_nearby(secret, now, now);
}

} // verus!
