use vstd::prelude::*;
use crate::address::{masked_v6, octet, push_chars, push_masked_v6, push_octet, PeerAddr};
use crate::text::{decimal, padded_decimal, push_char, push_padded_decimal, trim_str, trimmed, is_whitespace};
use crate::protocol::random_below;
use vstd::string::StringSliceAdditionalSpecFns;
use vstd::utf8::encode_utf8;

verus! {

/// Longest greeting line the relay reads, in bytes.
pub const MAX_HELLO_LEN: usize = 64;

/// Seconds the relay keeps a lone peer waiting for its partner.
pub const PAIR_TIMEOUT_SECS: u64 = 300;

/// Seconds the relay waits for a greeting line.
pub const HELLO_TIMEOUT_SECS: u64 = 10;

/// The greeting keyword, `HELLO `.
pub open spec fn hello_prefix() -> Seq<char> {
    seq!['H', 'E', 'L', 'L', 'O', ' ']
}

/// The line a peer sends the relay to be paired in `room`.
pub open spec fn hello_line_of(room: Seq<char>) -> Seq<char> {
    hello_prefix() + room + seq!['\n']
}

/// Number of distinct rendezvous rooms: nine decimal digits.
pub const ROOM_SPACE: u32 = 1000000000;

/// Number of digits in a rendezvous room.
pub const ROOM_DIGITS: usize = 9;

/// The room that the number `n` (below `ROOM_SPACE`) stands for.
pub open spec fn room_of(n: nat) -> Seq<char> {
    padded_decimal(n, 9)
}

/// The room the relay reads from a greeting line of `byte_len` bytes: none for
/// an empty or over-long line, else the trimmed line after `HELLO `.
pub open spec fn greeting_code(line: Seq<char>, byte_len: nat) -> Option<Seq<char>> {
    if byte_len == 0 || byte_len > MAX_HELLO_LEN {
        None
    } else {
        let t = trimmed(line);
        if t.len() >= 6 && t.take(6) == hello_prefix() {
            Some(t.skip(6))
        } else {
            None
        }
    }
}

/// The greeting a peer sends the relay: `HELLO <room>` and a newline. The
/// room is a rendezvous name drawn apart from the pairing code, so the relay
/// learns nothing of the key.
pub fn hello_line(room: &str) -> (line: String)
    ensures
        line@ == hello_line_of(room@),
{
    let prefix: [char; 6] = ['H', 'E', 'L', 'L', 'O', ' '];
    let mut line = String::new();
    push_chars(&mut line, prefix.as_slice());
    line.append(room);
    push_char(&mut line, '\n');
    assert(prefix@ =~= hello_prefix());
    assert(line@ =~= hello_line_of(room@));
    line
}

/// Draws a rendezvous room for the relay, independently of the pairing code:
/// nine random decimal digits.
pub fn random_room() -> (room: String)
    ensures
        room@.len() == 9,
        exists|n: nat| n < ROOM_SPACE && room@ == #[trigger] room_of(n),
{
    let n = random_below(ROOM_SPACE);
    let mut room = String::new();
    push_padded_decimal(&mut room, n as u64, ROOM_DIGITS);
    proof {
        assert(room@ =~= room_of(n as nat));
        crate::protocol::lemma_padded_decimal(n as nat, 9);
    }
    room
}

/// Reads the rendezvous room out of a greeting line: the line must be non-empty
/// and at most `MAX_HELLO_LEN` bytes, and once trimmed start with `HELLO `.
pub fn parse_hello(line: &str) -> (code: Option<String>)
    ensures
        match greeting_code(line@, line.spec_bytes().len()) {
            Some(c) => code is Some && code->0@ == c,
            None => code is None,
        },
{
    let n = line.as_bytes().len();
    if n == 0 || n > MAX_HELLO_LEN {
        return None;
    }
    let t = trim_str(line);
    let len = t.unicode_len();
    if len < 6 {
        return None;
    }
    let prefix: [char; 6] = ['H', 'E', 'L', 'L', 'O', ' '];
    let mut i: usize = 0;
    while i < 6
        invariant
            i <= 6,
            len == t@.len(),
            len >= 6,
            prefix@ == hello_prefix(),
            t@ == trimmed(line@),
            0 < line.spec_bytes().len() <= MAX_HELLO_LEN,
            forall|j: int| 0 <= j < i ==> t@[j] == hello_prefix()[j],
        decreases 6 - i,
    {
        if t.get_char(i) != prefix[i] {
            assert(t@.take(6)[i as int] != hello_prefix()[i as int]);
            assert(t@.take(6) != hello_prefix());
            return None;
        }
        i = i + 1;
    }
    assert(t@.take(6) =~= hello_prefix());
    let rest = t.substring_char(6, len);
    assert(rest@ =~= t@.skip(6));
    Some(String::from_str(rest))
}

/// At most the first two bytes of a room, for logs. Slicing a `str` inside a
/// character panics, so a code whose second byte ends inside a character is
/// left out.
pub fn code_prefix(code: &str) -> (prefix: &str)
    requires
        code.spec_bytes().len() >= 2 ==> vstd::utf8::is_char_boundary(code.spec_bytes(), 2),
    ensures
        code.spec_bytes().len() >= 2 ==> prefix.spec_bytes() == code.spec_bytes().take(2),
        code.spec_bytes().len() < 2 ==> prefix@ == code@,
{
    if code.as_bytes().len() >= 2 {
        let (head, _) = code.split_at(2);
        assert(head.spec_bytes() =~= code.spec_bytes().take(2));
        head
    } else {
        code
    }
}

/// How the relay writes a peer's address in its logs: an IPv4 address keeps
/// its first two octets and its last, an IPv6 address its first two segments.
pub open spec fn relay_masked(addr: PeerAddr) -> Seq<char> {
    match addr {
        PeerAddr::V4(a) => decimal(octet(a, 0)) + seq!['.'] + decimal(octet(a, 1)) + seq![
            '.',
            'x',
            '.',
        ] + decimal(octet(a, 3)),
        PeerAddr::V6(a) => masked_v6(a),
    }
}

/// Masks a peer address for the relay's logs: `a.b.x.d` or `a:b:x:x:x:x:x:x`.
pub fn mask_ip(addr: PeerAddr) -> (masked: String)
    ensures
        masked@ == relay_masked(addr),
{
    let mut s = String::new();
    match addr {
        PeerAddr::V4(a) => {
            push_octet(&mut s, a, 0);
            push_char(&mut s, '.');
            push_octet(&mut s, a, 1);
            let mid: [char; 3] = ['.', 'x', '.'];
            push_chars(&mut s, mid.as_slice());
            push_octet(&mut s, a, 3);
            assert(mid@ =~= seq!['.', 'x', '.']);
            assert(s@ =~= relay_masked(addr));
        },
        PeerAddr::V6(a) => {
            push_masked_v6(&mut s, a);
            assert(s@ =~= relay_masked(addr));
        },
    }
    s
}

/// The relay reads back the room from the greeting a peer sends, for every
/// non-empty room that neither starts nor ends with whitespace and whose
/// greeting fits in `MAX_HELLO_LEN` bytes.
pub proof fn lemma_hello_roundtrip(code: Seq<char>)
    requires
        code.len() > 0,
        !is_whitespace(code[0]),
        !is_whitespace(code.last()),
        encode_utf8(hello_line_of(code)).len() <= MAX_HELLO_LEN,
    ensures
        greeting_code(hello_line_of(code), encode_utf8(hello_line_of(code)).len()) == Some(code),
{
    let line = hello_line_of(code);
    let body = hello_prefix() + code;
    assert(encode_utf8(line).len() > 0) by {
        assert(vstd::utf8::encode_scalar(line[0] as u32).len() >= 1);
    }
    assert(line.drop_last() =~= body);
    assert(line.last() == '\n');
    assert(is_whitespace('\n'));
    assert(!is_whitespace('H'));
    assert(line[0] == 'H');
    assert(crate::text::trim_start(line) == line);
    assert(body.last() == code.last());
    assert(crate::text::trim_end(line) == crate::text::trim_end(body));
    assert(crate::text::trim_end(body) == body);
    assert(trimmed(line) == body);
    assert(body.take(6) =~= hello_prefix());
    assert(body.skip(6) =~= code);
}

/// What happens to a peer that greets the relay.
#[derive(Debug)]
pub enum Arrival<V> {
    /// A partner was waiting in the same room: here is its handle.
    Paired(V),
    /// No one was waiting: this peer now waits in the room.
    Waiting,
}

/// The room is among the waiting entries.
pub open spec fn holds_room<V>(s: Seq<(Seq<char>, V)>, room: Seq<char>) -> bool {
    exists|i: int| 0 <= i < s.len() && #[trigger] s[i].0 == room
}

/// Where the room waits.
pub open spec fn room_index<V>(s: Seq<(Seq<char>, V)>, room: Seq<char>) -> int {
    choose|i: int| 0 <= i < s.len() && #[trigger] s[i].0 == room
}

/// No room waits twice.
pub open spec fn rooms_distinct<V>(s: Seq<(Seq<char>, V)>) -> bool {
    forall|i: int, j: int| 0 <= i < j < s.len() ==> #[trigger] s[i].0 != #[trigger] s[j].0
}

/// A peer greets the relay for `room`: the first of a pair waits, the second
/// is paired with it and the room is freed.
pub open spec fn arrive_step<V>(s: Seq<(Seq<char>, V)>, room: Seq<char>, v: V) -> (Seq<(Seq<char>, V)>, Arrival<V>) {
    if holds_room(s, room) {
        let i = room_index(s, room);
        (s.remove(i), Arrival::Paired(s[i].1))
    } else {
        (s.push((room, v)), Arrival::Waiting)
    }
}

/// A waiting peer gives up (its pairing timeout passed): its room is freed.
pub open spec fn expire_step<V>(s: Seq<(Seq<char>, V)>, room: Seq<char>) -> (Seq<(Seq<char>, V)>, Option<V>) {
    if holds_room(s, room) {
        let i = room_index(s, room);
        (s.remove(i), Some(s[i].1))
    } else {
        (s, None)
    }
}

/// The relay's table of peers waiting for their partner, by room; `V` is how
/// the relay hands a connection over to a waiting peer.
pub struct PairTable<V> {
    waiting: Vec<(String, V)>,
}

impl<V> PairTable<V> {
    /// The waiting rooms, in arrival order, with their handles.
    pub closed spec fn entries(&self) -> Seq<(Seq<char>, V)> {
        Seq::new(self.waiting@.len(), |i: int| (self.waiting@[i].0@, self.waiting@[i].1))
    }

    /// An empty table.
    pub fn new() -> (t: PairTable<V>)
        ensures
            t.entries() == Seq::<(Seq<char>, V)>::empty(),
    {
        let t = PairTable { waiting: Vec::new() };
        assert(t.entries() =~= Seq::<(Seq<char>, V)>::empty());
        t
    }

    fn find(&self, room: &String) -> (r: Option<usize>)
        ensures
            r matches Some(i) ==> i < self.entries().len() && self.entries()[i as int].0 == room@,
            r is None ==> !holds_room(self.entries(), room@),
    {
        let mut i: usize = 0;
        while i < self.waiting.len()
            invariant
                i <= self.waiting@.len(),
                forall|j: int| 0 <= j < i ==> self.entries()[j].0 != room@,
            decreases self.waiting@.len() - i,
        {
            if self.waiting[i].0 == *room {
                return Some(i);
            }
            i = i + 1;
        }
        None
    }

    proof fn lemma_index_unique(&self, room: Seq<char>, i: int)
        requires
            rooms_distinct(self.entries()),
            0 <= i < self.entries().len(),
            self.entries()[i].0 == room,
        ensures
            holds_room(self.entries(), room),
            room_index(self.entries(), room) == i,
    {
        let s = self.entries();
        assert(s[i].0 == room);
        let k = room_index(s, room);
        if k != i {
            if k < i {
                assert(s[k].0 != s[i].0);
            } else {
                assert(s[i].0 != s[k].0);
            }
        }
    }

    proof fn lemma_remove(&self, old_entries: Seq<(Seq<char>, V)>, i: int)
        requires
            0 <= i < old_entries.len(),
            self.entries() =~= old_entries.remove(i),
            rooms_distinct(old_entries),
        ensures
            rooms_distinct(self.entries()),
    {
        let s = self.entries();
        assert forall|a: int, b: int| 0 <= a < b < s.len() implies #[trigger] s[a].0
            != #[trigger] s[b].0 by {
            let oa = if a < i { a } else { a + 1 };
            let ob = if b < i { b } else { b + 1 };
            assert(s[a] == old_entries[oa]);
            assert(s[b] == old_entries[ob]);
        }
    }

    /// A peer greets the relay for `room` with handle `v`: if a partner is
    /// waiting there it is handed back and leaves the table, else this peer
    /// waits.
    pub fn arrive(&mut self, room: String, v: V) -> (a: Arrival<V>)
        ensures
            rooms_distinct(old(self).entries()) ==> rooms_distinct(final(self).entries()),
            rooms_distinct(old(self).entries()) ==> (final(self).entries(), a) == arrive_step(
                old(self).entries(),
                room@,
                v,
            ),
    {
        let ghost before = self.entries();
        match self.find(&room) {
            Some(i) => {
                let (_, partner) = self.waiting.remove(i);
                proof {
                    assert(self.entries() =~= before.remove(i as int));
                    if rooms_distinct(before) {
                        old(self).lemma_index_unique(room@, i as int);
                        self.lemma_remove(before, i as int);
                    }
                }
                Arrival::Paired(partner)
            },
            None => {
                let ghost key = room@;
                self.waiting.push((room, v));
                proof {
                    assert(self.entries() =~= before.push((key, v)));
                    let s = self.entries();
                    assert forall|a: int, b: int| 0 <= a < b < s.len() && rooms_distinct(before)
                        implies #[trigger] s[a].0 != #[trigger] s[b].0 by {
                        if b == before.len() {
                            assert(s[a] == before[a]);
                        } else {
                            assert(s[a] == before[a]);
                            assert(s[b] == before[b]);
                        }
                    }
                }
                Arrival::Waiting
            },
        }
    }

    /// A waiting peer's timeout passed: its room is freed, and its handle
    /// given back if it was still waiting.
    pub fn expire(&mut self, room: &String) -> (r: Option<V>)
        ensures
            rooms_distinct(old(self).entries()) ==> rooms_distinct(final(self).entries()),
            rooms_distinct(old(self).entries()) ==> (final(self).entries(), r) == expire_step(
                old(self).entries(),
                room@,
            ),
    {
        let ghost before = self.entries();
        match self.find(room) {
            Some(i) => {
                let (_, handle) = self.waiting.remove(i);
                proof {
                    assert(self.entries() =~= before.remove(i as int));
                    if rooms_distinct(before) {
                        old(self).lemma_index_unique(room@, i as int);
                        self.lemma_remove(before, i as int);
                    }
                }
                Some(handle)
            },
            None => None,
        }
    }
}

/// The pairing rule: in a room where no one waits, the first peer to greet
/// waits and the second is paired with it, after which the table is as it
/// was before the first arrived; a peer whose timeout passes leaves the room
/// free again.
pub proof fn lemma_pairing<V>(s: Seq<(Seq<char>, V)>, room: Seq<char>, first: V, second: V)
    requires
        rooms_distinct(s),
        !holds_room(s, room),
    ensures
        arrive_step(s, room, first).1 == Arrival::<V>::Waiting,
        arrive_step(arrive_step(s, room, first).0, room, second) == (s, Arrival::Paired(first)),
        expire_step(arrive_step(s, room, first).0, room) == (s, Some(first)),
{
    let s1 = s.push((room, first));
    assert(arrive_step(s, room, first).0 == s1);
    let n = s.len() as int;
    assert(s1[n].0 == room);
    assert(holds_room(s1, room));
    let k = room_index(s1, room);
    if k != n {
        assert(s1[k] == s[k]);
        assert(holds_room(s, room));
    }
    assert(s1.remove(n) =~= s);
}

} // verus!
