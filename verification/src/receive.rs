use vstd::prelude::*;
use std::collections::HashMap;
use crate::address::{dot_x_x, masked_v6, octet, push_chars, push_masked_v6, push_octet, PeerAddr};
use crate::text::{decimal, digits_value, is_digit, lemma_decimal_spells, push_char, push_decimal, trim_str, trimmed};
use vstd::string::StringSliceAdditionalSpecFns;
use vstd::utf8::{decode_utf8, encode_utf8_decode_utf8};

verus! {

broadcast use vstd::std_specs::hash::group_hash_axioms;

/// Length of the rate-limit window: 60 seconds, in nanoseconds.
pub const RATE_WINDOW_NANOS: u64 = 60000000000;

/// Connection attempts each address gets per window.
pub const MAX_ATTEMPTS: u32 = 3;

/// What one attempt from an address does to its record `(count, window start)`
/// at time `now` (nanoseconds on a monotonic clock): a window that started at
/// least `RATE_WINDOW_NANOS` ago is restarted; then the attempt is allowed and
/// counted unless `MAX_ATTEMPTS` were already counted.
pub open spec fn rate_step(entry: Option<(u32, u64)>, now: u64) -> ((u32, u64), bool) {
    let (count, start) = match entry {
        Some(e) => e,
        None => (0u32, now),
    };
    let (count, start) = if now >= start && now - start >= RATE_WINDOW_NANOS {
        (0u32, now)
    } else {
        (count, start)
    };
    if count >= MAX_ATTEMPTS {
        ((count, start), false)
    } else {
        (((count + 1) as u32, start), true)
    }
}

/// Per-address record of recent connection attempts.
pub struct RateLimit {
    v4: HashMap<u32, (u32, u64)>,
    v6: HashMap<u128, (u32, u64)>,
}

impl RateLimit {
    /// The record kept for `ip`: attempts counted in its window, and when the
    /// window started.
    pub closed spec fn entry(&self, ip: PeerAddr) -> Option<(u32, u64)> {
        match ip {
            PeerAddr::V4(a) => if self.v4@.contains_key(a) {
                Some(self.v4@[a])
            } else {
                None
            },
            PeerAddr::V6(a) => if self.v6@.contains_key(a) {
                Some(self.v6@[a])
            } else {
                None
            },
        }
    }

    /// Every address's count is at most `MAX_ATTEMPTS`.
    pub open spec fn counts_bounded(&self) -> bool {
        forall|ip: PeerAddr| #[trigger] self.entry(ip) matches Some(e) ==> e.0 <= MAX_ATTEMPTS
    }

    /// A limiter with no records.
    pub fn new() -> (r: RateLimit)
        ensures
            forall|ip: PeerAddr| r.entry(ip) is None,
            r.counts_bounded(),
    {
        RateLimit { v4: HashMap::new(), v6: HashMap::new() }
    }

    /// Records one attempt from `ip` at time `now` and says whether it is allowed.
    pub fn check_and_record(&mut self, ip: PeerAddr, now: u64) -> (allowed: bool)
        ensures
            (final(self).entry(ip)->0, allowed) == rate_step(old(self).entry(ip), now),
            final(self).entry(ip) is Some,
            forall|other: PeerAddr| other != ip ==> final(self).entry(other) == old(self).entry(other),
            !allowed ==> final(self).entry(ip) == old(self).entry(ip),
            old(self).counts_bounded() ==> final(self).counts_bounded(),
    {
        let current: Option<(u32, u64)> = match ip {
            PeerAddr::V4(a) => match self.v4.get(&a) {
                Some(e) => Some(*e),
                None => None,
            },
            PeerAddr::V6(a) => match self.v6.get(&a) {
                Some(e) => Some(*e),
                None => None,
            },
        };
        assert(current == self.entry(ip));
        let (mut count, mut start) = match current {
            Some(e) => e,
            None => (0u32, now),
        };
        if now >= start && now - start >= RATE_WINDOW_NANOS {
            count = 0;
            start = now;
        }
        let allowed = count < MAX_ATTEMPTS;
        if allowed {
            count = count + 1;
        }
        match ip {
            PeerAddr::V4(a) => {
                self.v4.insert(a, (count, start));
            },
            PeerAddr::V6(a) => {
                self.v6.insert(a, (count, start));
            },
        }
        proof {
            if old(self).counts_bounded() {
                assert(count <= MAX_ATTEMPTS);
                assert forall|other: PeerAddr| #[trigger] self.entry(other) is Some
                    implies (self.entry(other)->0).0 <= MAX_ATTEMPTS by {
                    if other != ip {
                        assert(self.entry(other) == old(self).entry(other));
                    }
                }
            }
        }
        allowed
    }
}

/// The answers the limiter gives to attempts from one address at the given
/// times, starting from the record `entry`.
pub open spec fn rate_run(entry: Option<(u32, u64)>, times: Seq<u64>) -> Seq<bool>
    decreases times.len(),
{
    if times.len() == 0 {
        Seq::empty()
    } else {
        let (next, allowed) = rate_step(entry, times[0]);
        seq![allowed] + rate_run(Some(next), times.drop_first())
    }
}

/// How many attempts were allowed.
pub open spec fn allowed_count(answers: Seq<bool>) -> nat
    decreases answers.len(),
{
    if answers.len() == 0 {
        0
    } else {
        (if answers[0] {
            1nat
        } else {
            0nat
        }) + allowed_count(answers.drop_first())
    }
}

/// The smaller of two numbers.
pub open spec fn min_nat(a: nat, b: nat) -> nat {
    if a <= b {
        a
    } else {
        b
    }
}

proof fn lemma_window_from(count: u32, start: u64, times: Seq<u64>)
    requires
        count <= MAX_ATTEMPTS,
        forall|i: int| 0 <= i < times.len() ==> start <= #[trigger] times[i] < start + RATE_WINDOW_NANOS,
    ensures
        allowed_count(rate_run(Some((count, start)), times)) == min_nat(
            (MAX_ATTEMPTS - count) as nat,
            times.len(),
        ),
    decreases times.len(),
{
    if times.len() > 0 {
        let rest = times.drop_first();
        assert forall|i: int| 0 <= i < rest.len() implies start <= #[trigger] rest[i] < start
            + RATE_WINDOW_NANOS by {
            assert(rest[i] == times[i + 1]);
        }
        let t0 = times[0];
        assert(start <= t0 < start + RATE_WINDOW_NANOS);
        if count >= MAX_ATTEMPTS {
            assert(rate_step(Some((count, start)), t0) == ((count, start), false));
            lemma_window_from(count, start, rest);
        } else {
            assert(rate_step(Some((count, start)), t0) == (((count + 1) as u32, start), true));
            lemma_window_from((count + 1) as u32, start, rest);
        }
        let answers = rate_run(Some((count, start)), times);
        assert(answers.drop_first() == rate_run(Some(rate_step(Some((count, start)), t0).0), rest));
    }
}

/// Rate limiting, 3 attempts per address per 60 seconds: of the attempts an
/// address with no record makes within 60 seconds of its first one, exactly
/// the first three are counted as allowed (all of them if there are fewer).
pub proof fn lemma_rate_limit(times: Seq<u64>)
    requires
        times.len() > 0,
        forall|i: int| 0 <= i < times.len() ==> times[0] <= #[trigger] times[i] < times[0] + RATE_WINDOW_NANOS,
    ensures
        allowed_count(rate_run(None, times)) == min_nat(MAX_ATTEMPTS as nat, times.len()),
{
    let t0 = times[0];
    let rest = times.drop_first();
    assert(rate_step(None, t0) == ((1u32, t0), true));
    assert forall|i: int| 0 <= i < rest.len() implies t0 <= #[trigger] rest[i] < t0
        + RATE_WINDOW_NANOS by {
        assert(rest[i] == times[i + 1]);
    }
    lemma_window_from(1, t0, rest);
    assert(rate_run(None, times).drop_first() == rate_run(Some((1u32, t0)), rest));
}

/// Once the window of an address has lasted 60 seconds, its next attempt is
/// allowed again and opens a new window.
pub proof fn lemma_window_restart(count: u32, start: u64, now: u64)
    requires
        now >= start + RATE_WINDOW_NANOS,
    ensures
        rate_step(Some((count, start)), now) == ((1u32, now), true),
{
}

/// The count kept for an address never exceeds `MAX_ATTEMPTS`.
pub proof fn lemma_count_bounded(entry: Option<(u32, u64)>, now: u64)
    requires
        entry matches Some(e) ==> e.0 <= MAX_ATTEMPTS,
    ensures
        rate_step(entry, now).0.0 <= MAX_ATTEMPTS,
{
}

/// How the receiver writes a peer's address in its messages: the first two
/// octets (IPv4) or segments (IPv6), the rest hidden.
pub open spec fn masked(addr: PeerAddr) -> Seq<char> {
    match addr {
        PeerAddr::V4(a) => decimal(octet(a, 0)) + seq!['.'] + decimal(octet(a, 1)) + dot_x_x(),
        PeerAddr::V6(a) => masked_v6(a),
    }
}

/// Masks a peer address: `a.b.x.x` or `a:b:x:x:x:x:x:x`.
pub fn mask_ip(addr: PeerAddr) -> (m: String)
    ensures
        m@ == masked(addr),
{
    let mut s = String::new();
    match addr {
        PeerAddr::V4(a) => {
            push_octet(&mut s, a, 0);
            push_char(&mut s, '.');
            push_octet(&mut s, a, 1);
            let tail: [char; 4] = ['.', 'x', '.', 'x'];
            push_chars(&mut s, tail.as_slice());
            assert(tail@ =~= dot_x_x());
            assert(s@ =~= masked(addr));
        },
        PeerAddr::V6(a) => {
            push_masked_v6(&mut s, a);
        },
    }
    s
}

/// The masked form reveals only the network part: two IPv4 addresses that
/// share their first two octets, or two IPv6 addresses that share their first
/// two segments, are written alike.
pub proof fn lemma_mask_hides_host(a: PeerAddr, b: PeerAddr)
    ensures
        (a matches PeerAddr::V4(x) && b matches PeerAddr::V4(y) && octet(x, 0) == octet(y, 0)
            && octet(x, 1) == octet(y, 1)) ==> masked(a) == masked(b),
        (a matches PeerAddr::V6(x) && b matches PeerAddr::V6(y) && crate::address::segment(x, 0)
            == crate::address::segment(y, 0) && crate::address::segment(x, 1)
            == crate::address::segment(y, 1)) ==> masked(a) == masked(b),
{
}

/// The label under which a relayed peer is named.
pub open spec fn relay_label_of(relay: Seq<char>) -> Seq<char> {
    seq!['r', 'e', 'l', 'a', 'y', ':'] + relay
}

/// Names a peer reached through the relay: `relay:<address>`.
pub fn relay_label(relay: &str) -> (label: String)
    ensures
        label@ == relay_label_of(relay@),
{
    let head: [char; 6] = ['r', 'e', 'l', 'a', 'y', ':'];
    let mut label = String::new();
    push_chars(&mut label, head.as_slice());
    label.append(relay);
    assert(head@ =~= seq!['r', 'e', 'l', 'a', 'y', ':']);
    assert(label@ =~= relay_label_of(relay@));
    label
}

/// Whether the user's answer to the confirmation prompt is a yes: once
/// trimmed, exactly `y` or `Y`.
pub open spec fn affirmative(input: Seq<char>) -> bool {
    trimmed(input) == seq!['y'] || trimmed(input) == seq!['Y']
}

/// Reads the user's answer: yes only for `y` or `Y`, surrounding whitespace ignored.
pub fn is_affirmative(input: &str) -> (yes: bool)
    ensures
        yes == affirmative(input@),
        yes <==> (trimmed(input@).len() == 1 && (trimmed(input@)[0] == 'y' || trimmed(input@)[0]
            == 'Y')),
{
    let t = trim_str(input);
    if t.unicode_len() != 1 {
        assert(t@ != seq!['y'] && t@ != seq!['Y']);
        return false;
    }
    let c = t.get_char(0);
    if c == 'y' || c == 'Y' {
        assert(t@ =~= seq![c]);
        true
    } else {
        assert(t@ != seq!['y'] && t@ != seq!['Y']);
        false
    }
}

/// Only a lone `y`, either case, is a yes: an answer counts as yes exactly
/// when, without its surrounding whitespace, it is one character and that
/// character is `y` or `Y`; `n`, `N`, an empty line, a word, or any other
/// letter is a no.
pub proof fn lemma_only_y_is_yes(input: Seq<char>)
    ensures
        affirmative(input) <==> (trimmed(input).len() == 1 && (trimmed(input)[0] == 'y'
            || trimmed(input)[0] == 'Y')),
        trimmed(input) == seq!['n'] || trimmed(input) == seq!['N'] ==> !affirmative(input),
        trimmed(input).len() != 1 ==> !affirmative(input),
{
    let t = trimmed(input);
    if t.len() == 1 && (t[0] == 'y' || t[0] == 'Y') {
        if t[0] == 'y' {
            assert(t =~= seq!['y']);
        } else {
            assert(t =~= seq!['Y']);
        }
    }
}

/// The first two bytes of the pairing code, read as text.
pub open spec fn code_head(code: &str) -> Seq<char> {
    decode_utf8(code.spec_bytes().take(2))
}

/// The question asked before receiving.
pub open spec fn prompt_of(source_label: Seq<char>, head: Seq<char>) -> Seq<char> {
    "\n▶ "@ + source_label + " authenticated with code "@ + head
        + "... Receive SSH config? [y/N] "@
}

/// The question the receiver asks its user once a peer has authenticated:
/// it names the peer and shows the first two bytes of the code. Slicing the
/// code inside a character would panic, so such codes are left out.
pub fn confirmation_prompt(source_label: &str, code: &str) -> (prompt: String)
    requires
        code.spec_bytes().len() >= 2,
        vstd::utf8::is_char_boundary(code.spec_bytes(), 2),
    ensures
        prompt@ == prompt_of(source_label@, code_head(code)),
{
    let (head, _) = code.split_at(2);
    proof {
        encode_utf8_decode_utf8(head@);
        assert(head.spec_bytes() =~= code.spec_bytes().take(2));
    }
    let mut s = String::from_str("\n▶ ");
    s.append(source_label);
    s.append(" authenticated with code ");
    s.append(head);
    s.append("... Receive SSH config? [y/N] ");
    s
}

/// The banner shown when receiving directly.
pub open spec fn direct_banner_of(code: Seq<char>, local_ip: Seq<char>, port: u16) -> Seq<
    Seq<char>,
> {
    seq![
        "SSH Migrator - RECEIVE MODE"@,
        "Pairing code: "@ + code,
        "Local IP: "@ + local_ip,
        "Run on source machine:"@,
        "  sshmigrate send --to "@ + local_ip + ":"@ + decimal(port as nat) + " --code "@ + code,
    ]
}

/// The banner shown when receiving through a relay: six lines, the fourth
/// naming the rendezvous room, and a send command that carries `--room` as
/// well as `--code`. The relay pairs the two ends by the room, a random number
/// unrelated to the code; the pairing code, from which the session's
/// pre-shared key is derived, never reaches the relay. A relay that paired by
/// the code itself could derive that key and sit between the two ends, which
/// the trust model (the relay only ever sees ciphertext) rules out.
pub open spec fn relay_banner_of(code: Seq<char>, relay: Seq<char>, room: Seq<char>) -> Seq<Seq<char>> {
    seq![
        "SSH Migrator - RELAY RECEIVE MODE"@,
        "Pairing code: "@ + code,
        "Relay: "@ + relay,
        "Relay room: "@ + room,
        "Run on source machine:"@,
        "  sshmigrate send --relay "@ + relay + " --to "@ + relay + " --room "@ + room
            + " --code "@ + code,
    ]
}

/// The direct banner's command carries the receiver's whole port: its last
/// line is the send command to this address whose port field (between `:`
/// and ` --code `) is all digits and spells `port`, whatever the port.
pub proof fn lemma_direct_command_names_port(code: Seq<char>, local_ip: Seq<char>, port: u16)
    ensures
        direct_banner_of(code, local_ip, port).len() == 5,
        exists|digits: Seq<char>|
            {
                &&& direct_banner_of(code, local_ip, port)[4] == "  sshmigrate send --to "@
                    + local_ip + ":"@ + digits + " --code "@ + code
                &&& digits.len() >= 1
                &&& forall|i: int| 0 <= i < digits.len() ==> is_digit(#[trigger] digits[i])
                &&& #[trigger] digits_value(digits) == port
            },
{
    lemma_decimal_spells(port as nat);
    let d = decimal(port as nat);
    assert(direct_banner_of(code, local_ip, port)[4] == "  sshmigrate send --to "@ + local_ip
        + ":"@ + d + " --code "@ + code);
    assert(digits_value(d) == port);
}

/// The lines printed when waiting for a direct connection: the code, this
/// machine's address, and the command to run on the source machine.
pub fn direct_banner(code: &str, local_ip: &str, port: u16) -> (lines: Vec<String>)
    ensures
        lines.deep_view() == direct_banner_of(code@, local_ip@, port),
{
    let mut lines: Vec<String> = Vec::new();
    lines.push(String::from_str("SSH Migrator - RECEIVE MODE"));
    let mut l2 = String::from_str("Pairing code: ");
    l2.append(code);
    lines.push(l2);
    let mut l3 = String::from_str("Local IP: ");
    l3.append(local_ip);
    lines.push(l3);
    lines.push(String::from_str("Run on source machine:"));
    let mut l5 = String::from_str("  sshmigrate send --to ");
    l5.append(local_ip);
    l5.append(":");
    push_decimal(&mut l5, port as u64);
    l5.append(" --code ");
    l5.append(code);
    lines.push(l5);
    assert(lines.deep_view() =~= direct_banner_of(code@, local_ip@, port));
    lines
}

/// The lines printed when waiting through a relay: the code, the relay, the
/// rendezvous room, and the command to run on the source machine, which
/// names the room (`--room`) so that the code itself is never sent to the
/// relay (see `relay_banner_of`).
pub fn relay_banner(code: &str, relay: &str, room: &str) -> (lines: Vec<String>)
    ensures
        lines.deep_view() == relay_banner_of(code@, relay@, room@),
{
    let mut lines: Vec<String> = Vec::new();
    lines.push(String::from_str("SSH Migrator - RELAY RECEIVE MODE"));
    let mut l2 = String::from_str("Pairing code: ");
    l2.append(code);
    lines.push(l2);
    let mut l3 = String::from_str("Relay: ");
    l3.append(relay);
    lines.push(l3);
    let mut l4 = String::from_str("Relay room: ");
    l4.append(room);
    lines.push(l4);
    lines.push(String::from_str("Run on source machine:"));
    let mut l6 = String::from_str("  sshmigrate send --relay ");
    l6.append(relay);
    l6.append(" --to ");
    l6.append(relay);
    l6.append(" --room ");
    l6.append(room);
    l6.append(" --code ");
    l6.append(code);
    lines.push(l6);
    assert(lines.deep_view() =~= relay_banner_of(code@, relay@, room@));
    lines
}

} // verus!
