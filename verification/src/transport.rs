use vstd::prelude::*;
use crate::protocol::{zero_key, zeroize_psk, NOISE_PATTERN};

verus! {

#[verifier::external_type_specification]
#[verifier::external_body]
pub struct ExNoiseParams(snow::params::NoiseParams);

#[verifier::external_type_specification]
#[verifier::external_body]
pub struct ExNoiseBuilder<'builder>(snow::Builder<'builder>);

#[verifier::external_type_specification]
#[verifier::external_body]
pub struct ExHandshakeState(snow::HandshakeState);

#[verifier::external_type_specification]
#[verifier::external_body]
pub struct ExTransportState(snow::TransportState);

#[verifier::external_type_specification]
#[verifier::external_body]
pub struct ExNoiseError(snow::Error);

/// Largest Noise message, in bytes.
pub const MAX_NOISE_MESSAGE: usize = 65535;

/// Length of the authentication tag that every transport message carries.
pub const TAG_LEN: usize = 16;

/// What each `NNpsk2` handshake message adds to its payload: the sender's
/// 32-byte ephemeral public key and the 16-byte tag of the encrypted payload.
pub const HANDSHAKE_OVERHEAD: usize = 48;

/// Which side of the handshake this end plays.
#[derive(Clone, Copy, Debug, PartialEq, Eq, Structural)]
pub enum Role {
    /// Writes the first handshake message (the sender).
    Initiator,
    /// Reads the first handshake message (the receiver).
    Responder,
}

/// A failure of the Noise layer.
#[derive(Debug)]
pub enum TransportError {
    Noise(snow::Error),
}

/// No pre-shared key registered.
pub open spec fn no_psks() -> Map<u8, Seq<u8>> {
    Map::empty()
}

/// The parameters of a Noise protocol, with the protocol name they were parsed from.
struct NoiseSetup {
    params: snow::params::NoiseParams,
    name: Ghost<Seq<char>>,
}

/// A `snow::Builder`, with the protocol name and the pre-shared keys (by token
/// position) registered in it.
struct NoiseBuilder<'a> {
    inner: snow::Builder<'a>,
    name: Ghost<Seq<char>>,
    psks: Ghost<Map<u8, Seq<u8>>>,
}

/// A `snow::HandshakeState`, with the side, protocol name and pre-shared keys
/// it was built with, its position in the message pattern (the messages it has
/// written or read), the messages it wrote and the messages it accepted.
struct NoiseHandshake {
    state: snow::HandshakeState,
    role: Ghost<Role>,
    name: Ghost<Seq<char>>,
    psks: Ghost<Map<u8, Seq<u8>>>,
    position: Ghost<nat>,
    written: Ghost<Seq<Seq<u8>>>,
    received: Ghost<Seq<Seq<u8>>>,
}

/// Parses a Noise protocol name (`<snow::params::NoiseParams as FromStr>::from_str`).
/// The crate parses the name this library uses, which names only primitives
/// its default resolver provides, without error; the parameters remember the
/// name they came from.
#[verifier::external_body]
fn parse_noise_params(pattern: &str) -> (res: Result<NoiseSetup, snow::Error>)
    ensures
        pattern@ == NOISE_PATTERN@ ==> res is Ok,
        res matches Ok(p) ==> p.name@ == pattern@,
{
    match pattern.parse() {
        Ok(params) => Ok(NoiseSetup { params, name: Ghost(pattern@) }),
        Err(e) => Err(e),
    }
}

/// `snow::Builder::new` with the default crypto resolver: a builder for the
/// given protocol with no pre-shared key registered yet.
#[verifier::external_body]
fn noise_builder<'a>(setup: NoiseSetup) -> (res: NoiseBuilder<'a>)
    ensures
        res.name@ == setup.name@,
        res.psks@ == no_psks(),
{
    NoiseBuilder { inner: snow::Builder::new(setup.params), name: setup.name, psks: Ghost(Map::empty()) }
}

/// `snow::Builder::psk`: registers `key` as the pre-shared key for token
/// position `location`. The builder indexes a ten-slot array by `location`,
/// so a position of ten or more would panic.
#[verifier::external_body]
fn builder_psk<'a>(b: NoiseBuilder<'a>, location: u8, key: &'a [u8]) -> (res: NoiseBuilder<'a>)
    requires
        location < 10,
    ensures
        res.name@ == b.name@,
        res.psks@ == b.psks@.insert(location, key@),
{
    NoiseBuilder { inner: b.inner.psk(location, key), name: b.name, psks: Ghost(b.psks@.insert(location, key@)) }
}

/// `snow::Builder::build_initiator`: the handshake state of the side that
/// writes first, for the builder's protocol and keys. For this library's
/// protocol (no static keys needed, primitives all in the default resolver)
/// with one 32-byte key at position 2, the crate builds it without error.
#[verifier::external_body]
fn build_initiator(b: NoiseBuilder<'_>) -> (res: Result<NoiseHandshake, snow::Error>)
    ensures
        (b.name@ == NOISE_PATTERN@ && exists|k: Seq<u8>| k.len() == 32 && b.psks@ == map![2u8 => k])
            ==> res is Ok,
        res matches Ok(h) ==> {
            &&& h.role@ == Role::Initiator
            &&& h.name@ == b.name@
            &&& h.psks@ == b.psks@
            &&& h.position@ == 0
            &&& h.written@ == Seq::<Seq<u8>>::empty()
            &&& h.received@ == Seq::<Seq<u8>>::empty()
        },
{
    match b.inner.build_initiator() {
        Ok(state) => Ok(NoiseHandshake {
            state,
            role: Ghost(Role::Initiator),
            name: b.name,
            psks: b.psks,
            position: Ghost(0),
            written: Ghost(Seq::empty()),
            received: Ghost(Seq::empty()),
        }),
        Err(e) => Err(e),
    }
}

/// `snow::Builder::build_responder`: the handshake state of the side that
/// reads first; as for the initiator, this library's protocol and key build
/// without error.
#[verifier::external_body]
fn build_responder(b: NoiseBuilder<'_>) -> (res: Result<NoiseHandshake, snow::Error>)
    ensures
        (b.name@ == NOISE_PATTERN@ && exists|k: Seq<u8>| k.len() == 32 && b.psks@ == map![2u8 => k])
            ==> res is Ok,
        res matches Ok(h) ==> {
            &&& h.role@ == Role::Responder
            &&& h.name@ == b.name@
            &&& h.psks@ == b.psks@
            &&& h.position@ == 0
            &&& h.written@ == Seq::<Seq<u8>>::empty()
            &&& h.received@ == Seq::<Seq<u8>>::empty()
        },
{
    match b.inner.build_responder() {
        Ok(state) => Ok(NoiseHandshake {
            state,
            role: Ghost(Role::Responder),
            name: b.name,
            psks: b.psks,
            position: Ghost(0),
            written: Ghost(Seq::empty()),
            received: Ghost(Seq::empty()),
        }),
        Err(e) => Err(e),
    }
}

/// `snow::HandshakeState::write_message` into the whole of `message`. As the
/// crate's source shows, it refuses to write when the pattern says it is the
/// peer's turn or the handshake is over, and leaves the buffer's length alone.
/// For this library's protocol, when it is this side's turn (and the
/// pre-shared key is registered for the second message), a buffer with room
/// for the payload plus the 48 bytes of key and tag is written without error:
/// the ephemeral key comes from the operating system's generator, which panics
/// rather than fail, and the X25519 exchange of the default resolver cannot
/// fail. A written message is exactly payload plus those 48 bytes, moves the
/// pattern one message on, and joins the record of written messages. The bytes
/// themselves depend on the fresh ephemeral key and are not stated.
#[verifier::external_body]
fn handshake_write(
    hs: &mut NoiseHandshake,
    payload: &[u8],
    message: &mut Vec<u8>,
) -> (res: Result<usize, snow::Error>)
    ensures
        final(message)@.len() == old(message)@.len(),
        res matches Ok(n) ==> n <= old(message)@.len() && n <= MAX_NOISE_MESSAGE,
        old(hs).name@ == NOISE_PATTERN@ && action_at(old(hs).role@, old(hs).position@)
            != HandshakeAction::Write ==> res is Err,
        old(hs).name@ == NOISE_PATTERN@ && action_at(old(hs).role@, old(hs).position@)
            == HandshakeAction::Write && old(hs).psks@.dom().contains(2u8) && payload@.len()
            + HANDSHAKE_OVERHEAD <= old(message)@.len() && payload@.len() + HANDSHAKE_OVERHEAD
            <= MAX_NOISE_MESSAGE ==> res is Ok,
        old(hs).name@ == NOISE_PATTERN@ ==> (res matches Ok(n) ==> n == payload@.len()
            + HANDSHAKE_OVERHEAD),
        res matches Ok(n) ==> final(hs).written@ == old(hs).written@.push(
            final(message)@.take(n as int),
        ),
        res is Ok ==> final(hs).position@ == old(hs).position@ + 1,
        res is Err ==> final(hs).written@ == old(hs).written@,
        res is Err ==> final(hs).position@ == old(hs).position@,
        final(hs).role@ == old(hs).role@,
        final(hs).name@ == old(hs).name@,
        final(hs).psks@ == old(hs).psks@,
        final(hs).received@ == old(hs).received@,
{
    match hs.state.write_message(payload, message.as_mut_slice()) {
        Ok(n) => {
            hs.position = Ghost(hs.position@ + 1);
            hs.written = Ghost(hs.written@.push(message@.take(n as int)));
            Ok(n)
        },
        Err(e) => Err(e),
    }
}

/// `snow::HandshakeState::read_message` of `message` into the whole of
/// `payload`. As the crate's source shows, it refuses messages longer than
/// 65535 bytes, and refuses to read when the pattern says it is this side's
/// turn to write or the handshake is over; it leaves the buffer's length
/// alone. An accepted message moves the pattern one message on and joins the
/// handshake's record. Whether a message is accepted otherwise depends on the
/// keys and is not stated.
#[verifier::external_body]
fn handshake_read(
    hs: &mut NoiseHandshake,
    message: &[u8],
    payload: &mut Vec<u8>,
) -> (res: Result<usize, snow::Error>)
    ensures
        final(payload)@.len() == old(payload)@.len(),
        message@.len() > MAX_NOISE_MESSAGE ==> res is Err,
        old(hs).name@ == NOISE_PATTERN@ && action_at(old(hs).role@, old(hs).position@)
            != HandshakeAction::Read ==> res is Err,
        res is Ok ==> final(hs).received@ == old(hs).received@.push(message@),
        res is Ok ==> final(hs).position@ == old(hs).position@ + 1,
        res is Err ==> final(hs).received@ == old(hs).received@,
        res is Err ==> final(hs).position@ == old(hs).position@,
        final(hs).role@ == old(hs).role@,
        final(hs).name@ == old(hs).name@,
        final(hs).psks@ == old(hs).psks@,
        final(hs).written@ == old(hs).written@,
{
    match hs.state.read_message(message, payload.as_mut_slice()) {
        Ok(n) => {
            hs.position = Ghost(hs.position@ + 1);
            hs.received = Ghost(hs.received@.push(message@));
            Ok(n)
        },
        Err(e) => Err(e),
    }
}

/// `snow::HandshakeState::into_transport_mode`: the transport state keeps the
/// handshake's side, protocol and keys, and starts with nothing sent or
/// received (both nonces at zero). As the crate's source shows, the switch
/// fails only while the handshake is unfinished, which for this library's
/// two-message protocol means before both messages are done.
#[verifier::external_body]
fn into_transport(hs: NoiseHandshake) -> (res: Result<Session, snow::Error>)
    ensures
        hs.name@ == NOISE_PATTERN@ && hs.position@ == 2 ==> res is Ok,
        res matches Ok(s) ==> {
            &&& s.role@ == hs.role@
            &&& s.name@ == hs.name@
            &&& s.psks@ == hs.psks@
            &&& s.sent@ == Seq::<Seq<u8>>::empty()
            &&& s.wire_sent@ == Seq::<Seq<u8>>::empty()
            &&& s.received@ == Seq::<Seq<u8>>::empty()
            &&& s.opened@ == Seq::<Seq<u8>>::empty()
        },
{
    match hs.state.into_transport_mode() {
        Ok(transport) => Ok(Session {
            transport,
            role: hs.role,
            name: hs.name,
            psks: hs.psks,
            sent: Ghost(Seq::empty()),
            wire_sent: Ghost(Seq::empty()),
            received: Ghost(Seq::empty()),
            opened: Ghost(Seq::empty()),
        }),
        Err(e) => Err(e),
    }
}

/// `snow::TransportState::write_message` of `payload` into the whole of
/// `message`. As the crate's source shows, it refuses a payload whose
/// ciphertext (payload plus the 16-byte tag) would exceed 65535 bytes or the
/// buffer; for this library's (two-way) protocol it otherwise fails only once
/// the sending nonce, which counts the messages sent, is exhausted. On success
/// it reports exactly payload plus tag; the payload joins the record of what
/// was sent and the bytes written (the ciphertext) the record of what went on
/// the wire. The ciphertext's values depend on the session key and are not
/// stated.
#[verifier::external_body]
fn transport_write(
    s: &mut Session,
    payload: &[u8],
    message: &mut Vec<u8>,
) -> (res: Result<usize, snow::Error>)
    ensures
        final(message)@.len() == old(message)@.len(),
        payload@.len() + TAG_LEN > MAX_NOISE_MESSAGE ==> res is Err,
        payload@.len() + TAG_LEN > old(message)@.len() ==> res is Err,
        old(s).name@ == NOISE_PATTERN@ ==> (res is Ok <==> (payload@.len() + TAG_LEN
            <= MAX_NOISE_MESSAGE && payload@.len() + TAG_LEN <= old(message)@.len() && old(
            s,
        ).sent@.len() < u64::MAX)),
        res matches Ok(n) ==> n == payload@.len() + TAG_LEN,
        res is Ok ==> final(s).sent@ == old(s).sent@.push(payload@),
        res matches Ok(n) ==> final(s).wire_sent@ == old(s).wire_sent@.push(
            final(message)@.take(n as int),
        ),
        res is Err ==> final(s).sent@ == old(s).sent@,
        res is Err ==> final(s).wire_sent@ == old(s).wire_sent@,
        final(s).received@ == old(s).received@,
        final(s).opened@ == old(s).opened@,
        final(s).role@ == old(s).role@,
        final(s).name@ == old(s).name@,
        final(s).psks@ == old(s).psks@,
{
    match s.transport.write_message(payload, message.as_mut_slice()) {
        Ok(n) => {
            s.sent = Ghost(s.sent@.push(payload@));
            s.wire_sent = Ghost(s.wire_sent@.push(message@.take(n as int)));
            Ok(n)
        },
        Err(e) => Err(e),
    }
}

/// `snow::TransportState::read_message` of `message` into the whole of
/// `payload`. As the crate's source shows, it refuses messages over 65535
/// bytes or shorter than the 16-byte tag, and on success reports the message
/// length minus the tag; the accepted message joins the record of what was
/// received and the bytes written (the plaintext) the record of what was
/// opened. Whether the tag verifies, and the plaintext's values, depend on the
/// session key and are not stated.
#[verifier::external_body]
fn transport_read(
    s: &mut Session,
    message: &[u8],
    payload: &mut Vec<u8>,
) -> (res: Result<usize, snow::Error>)
    ensures
        final(payload)@.len() == old(payload)@.len(),
        message@.len() > MAX_NOISE_MESSAGE ==> res is Err,
        message@.len() < TAG_LEN ==> res is Err,
        res matches Ok(n) ==> n + TAG_LEN == message@.len(),
        res is Ok ==> final(s).received@ == old(s).received@.push(message@),
        res matches Ok(n) ==> final(s).opened@ == old(s).opened@.push(
            final(payload)@.take(n as int),
        ),
        res is Err ==> final(s).received@ == old(s).received@,
        res is Err ==> final(s).opened@ == old(s).opened@,
        final(s).sent@ == old(s).sent@,
        final(s).wire_sent@ == old(s).wire_sent@,
        final(s).role@ == old(s).role@,
        final(s).name@ == old(s).name@,
        final(s).psks@ == old(s).psks@,
{
    match s.transport.read_message(message, payload.as_mut_slice()) {
        Ok(n) => {
            s.received = Ghost(s.received@.push(message@));
            s.opened = Ghost(s.opened@.push(payload@.take(n as int)));
            Ok(n)
        },
        Err(e) => Err(e),
    }
}

/// What the next handshake step of a side is.
#[derive(Clone, Copy, Debug, PartialEq, Eq, Structural)]
pub enum HandshakeAction {
    /// Write a handshake message and send it.
    Write,
    /// Receive a handshake message and read it.
    Read,
    /// Both messages are done: switch to transport mode.
    Finish,
}

/// The message order of `NNpsk2` (`-> e`, `<- e, ee, psk`): the initiator
/// writes then reads, the responder reads then writes; after two messages the
/// handshake is finished.
pub open spec fn action_at(role: Role, step: nat) -> HandshakeAction {
    if step >= 2 {
        HandshakeAction::Finish
    } else if (role == Role::Initiator) == (step == 0) {
        HandshakeAction::Write
    } else {
        HandshakeAction::Read
    }
}

/// A Noise handshake in progress, with the number of its messages done.
pub struct Handshake {
    noise: NoiseHandshake,
    side: Role,
    step: u8,
}

/// An established encrypted session, with the record of the plaintexts it
/// encrypted and the ciphertexts they became, and of the ciphertexts it
/// accepted and the plaintexts they opened to.
pub struct Session {
    transport: snow::TransportState,
    role: Ghost<Role>,
    name: Ghost<Seq<char>>,
    psks: Ghost<Map<u8, Seq<u8>>>,
    sent: Ghost<Seq<Seq<u8>>>,
    wire_sent: Ghost<Seq<Seq<u8>>>,
    received: Ghost<Seq<Seq<u8>>>,
    opened: Ghost<Seq<Seq<u8>>>,
}

impl Handshake {
    /// The side this handshake was built for.
    pub closed spec fn role(&self) -> Role {
        self.noise.role@
    }

    /// The Noise protocol name it was built for.
    pub closed spec fn pattern(&self) -> Seq<char> {
        self.noise.name@
    }

    /// The pre-shared keys it was built with, by token position.
    pub closed spec fn psks(&self) -> Map<u8, Seq<u8>> {
        self.noise.psks@
    }

    /// The handshake messages of the peer it has accepted.
    pub closed spec fn received(&self) -> Seq<Seq<u8>> {
        self.noise.received@
    }

    /// The handshake messages this side has written, as Noise wrote them.
    pub closed spec fn written(&self) -> Seq<Seq<u8>> {
        self.noise.written@
    }

    /// How many of the pattern's two messages are done.
    pub closed spec fn step(&self) -> nat {
        self.step as nat
    }

    /// A handshake of this library's protocol with its key registered, whose
    /// runtime side and step agree with the Noise state it drives.
    pub closed spec fn wf(&self) -> bool {
        &&& self.side == self.noise.role@
        &&& self.step as nat == self.noise.position@
        &&& self.step <= 2
        &&& self.noise.name@ == NOISE_PATTERN@
        &&& self.noise.psks@.dom().contains(2u8)
    }
}

impl Session {
    /// The side of the handshake this session came from.
    pub closed spec fn role(&self) -> Role {
        self.role@
    }

    /// The Noise protocol name of that handshake.
    pub closed spec fn pattern(&self) -> Seq<char> {
        self.name@
    }

    /// The pre-shared keys of that handshake, by token position.
    pub closed spec fn psks(&self) -> Map<u8, Seq<u8>> {
        self.psks@
    }

    /// The plaintexts encrypted so far, in order.
    pub closed spec fn sent(&self) -> Seq<Seq<u8>> {
        self.sent@
    }

    /// The ciphertexts that encryption produced so far, in order.
    pub closed spec fn wire_sent(&self) -> Seq<Seq<u8>> {
        self.wire_sent@
    }

    /// The ciphertexts accepted so far, in order.
    pub closed spec fn received(&self) -> Seq<Seq<u8>> {
        self.received@
    }

    /// The plaintexts that decryption produced so far, in order.
    pub closed spec fn opened(&self) -> Seq<Seq<u8>> {
        self.opened@
    }
}

/// Sets up the `Noise_NNpsk2_25519_ChaChaPoly_BLAKE2s` handshake for `role`,
/// keyed by `psk` at token position 2; the local copy of the key is wiped
/// once the handshake state holds it.
pub fn start_handshake(role: Role, psk: [u8; 32]) -> (res: Result<Handshake, TransportError>)
    ensures
        res is Ok,
        res matches Ok(h) ==> {
            &&& h.role() == role
            &&& h.pattern() == NOISE_PATTERN@
            &&& h.psks() == map![2u8 => psk@]
            &&& h.step() == 0
            &&& h.written() == Seq::<Seq<u8>>::empty()
            &&& h.received() == Seq::<Seq<u8>>::empty()
            &&& h.wf()
        },
{
    let ghost key = psk@;
    let mut psk = psk;
    let params = match parse_noise_params(NOISE_PATTERN) {
        Ok(p) => p,
        Err(e) => {
            zeroize_psk(&mut psk);
            return Err(TransportError::Noise(e));
        },
    };
    let built = {
        let builder = builder_psk(noise_builder(params), 2, psk.as_slice());
        assert(builder.psks@ =~= map![2u8 => key]);
        assert(key.len() == 32);
        assert(exists|k: Seq<u8>| k.len() == 32 && builder.psks@ == map![2u8 => k]);
        match role {
            Role::Initiator => build_initiator(builder),
            Role::Responder => build_responder(builder),
        }
    };
    zeroize_psk(&mut psk);
    assert(psk@ == zero_key());
    match built {
        Ok(noise) => Ok(Handshake { noise, side: role, step: 0 }),
        Err(e) => Err(TransportError::Noise(e)),
    }
}

impl Handshake {
    /// What this side does next: `NNpsk2` has the initiator write then read,
    /// and the responder read then write.
    pub fn next_action(&self) -> (a: HandshakeAction)
        requires
            self.wf(),
        ensures
            a == action_at(self.role(), self.step()),
    {
        if self.step >= 2 {
            HandshakeAction::Finish
        } else if (self.side == Role::Initiator) == (self.step == 0) {
            HandshakeAction::Write
        } else {
            HandshakeAction::Read
        }
    }

    /// Writes this end's next handshake message, with an empty payload, into a
    /// 65535-byte buffer and returns the bytes Noise wrote; a written message
    /// counts as one step of the pattern. It succeeds exactly when the pattern
    /// gives this side the next message, which is then 48 bytes long.
    pub fn write_message(&mut self) -> (res: Result<Vec<u8>, TransportError>)
        ensures
            old(self).wf() && action_at(old(self).role(), old(self).step())
                == HandshakeAction::Write ==> res is Ok,
            old(self).wf() && action_at(old(self).role(), old(self).step())
                != HandshakeAction::Write ==> res is Err,
            old(self).wf() ==> (res matches Ok(m) ==> m@.len() == HANDSHAKE_OVERHEAD),
            res matches Ok(m) ==> m@.len() <= MAX_NOISE_MESSAGE,
            res matches Ok(m) ==> final(self).written() == old(self).written().push(m@),
            res is Err ==> final(self).written() == old(self).written(),
            final(self).role() == old(self).role(),
            final(self).pattern() == old(self).pattern(),
            final(self).psks() == old(self).psks(),
            final(self).received() == old(self).received(),
            old(self).wf() ==> final(self).wf(),
            res is Ok ==> final(self).step() == if old(self).step() < 2 {
                old(self).step() + 1
            } else {
                old(self).step()
            },
            res is Err ==> final(self).step() == old(self).step(),
    {
        let mut buf: Vec<u8> = vec![0u8; MAX_NOISE_MESSAGE];
        let empty: Vec<u8> = Vec::new();
        match handshake_write(&mut self.noise, empty.as_slice(), &mut buf) {
            Ok(len) => {
                if self.step < 2 {
                    self.step = self.step + 1;
                }
                buf.truncate(len);
                Ok(buf)
            },
            Err(e) => Err(TransportError::Noise(e)),
        }
    }

    /// Reads the peer's handshake message (its payload is discarded); an
    /// accepted message is recorded and counts as one step of the pattern.
    /// A message is refused when the pattern gives this side the next message
    /// to write, or the handshake is finished.
    pub fn read_message(&mut self, message: &[u8]) -> (res: Result<(), TransportError>)
        ensures
            message@.len() > MAX_NOISE_MESSAGE ==> res is Err,
            old(self).wf() && action_at(old(self).role(), old(self).step())
                != HandshakeAction::Read ==> res is Err,
            res is Ok ==> final(self).received() == old(self).received().push(message@),
            res is Err ==> final(self).received() == old(self).received(),
            final(self).written() == old(self).written(),
            final(self).role() == old(self).role(),
            final(self).pattern() == old(self).pattern(),
            final(self).psks() == old(self).psks(),
            old(self).wf() ==> final(self).wf(),
            res is Ok ==> final(self).step() == if old(self).step() < 2 {
                old(self).step() + 1
            } else {
                old(self).step()
            },
            res is Err ==> final(self).step() == old(self).step(),
    {
        let mut buf: Vec<u8> = vec![0u8; MAX_NOISE_MESSAGE];
        match handshake_read(&mut self.noise, message, &mut buf) {
            Ok(_) => {
                if self.step < 2 {
                    self.step = self.step + 1;
                }
                Ok(())
            },
            Err(e) => Err(TransportError::Noise(e)),
        }
    }

    /// Finishes the handshake and switches to transport mode; the session
    /// keeps the handshake's side, protocol and keys, with nothing sent or
    /// received yet. Once both messages are done the switch succeeds.
    pub fn into_session(self) -> (res: Result<Session, TransportError>)
        ensures
            self.wf() && self.step() == 2 ==> res is Ok,
            res matches Ok(s) ==> {
                &&& s.role() == self.role()
                &&& s.pattern() == self.pattern()
                &&& s.psks() == self.psks()
                &&& s.sent() == Seq::<Seq<u8>>::empty()
                &&& s.wire_sent() == Seq::<Seq<u8>>::empty()
                &&& s.received() == Seq::<Seq<u8>>::empty()
                &&& s.opened() == Seq::<Seq<u8>>::empty()
            },
    {
        let Handshake { noise, side: _, step: _ } = self;
        match into_transport(noise) {
            Ok(session) => Ok(session),
            Err(e) => Err(TransportError::Noise(e)),
        }
    }
}

impl Session {
    /// Encrypts one message: the ciphertext, as Noise wrote it, is the
    /// plaintext's length plus the 16-byte tag; the plaintext joins the record
    /// of what was sent and the ciphertext the record of what went on the wire.
    /// Plaintexts too long for one Noise message are refused; for this
    /// library's protocol every other plaintext is encrypted until the sending
    /// nonce is exhausted.
    pub fn encrypt(&mut self, plaintext: &[u8]) -> (res: Result<Vec<u8>, TransportError>)
        requires
            plaintext@.len() + TAG_LEN <= usize::MAX,
        ensures
            plaintext@.len() + TAG_LEN > MAX_NOISE_MESSAGE ==> res is Err,
            old(self).pattern() == NOISE_PATTERN@ && plaintext@.len() + TAG_LEN
                <= MAX_NOISE_MESSAGE && old(self).sent().len() < u64::MAX ==> res is Ok,
            res matches Ok(c) ==> c@.len() == plaintext@.len() + TAG_LEN,
            res matches Ok(c) ==> final(self).wire_sent() == old(self).wire_sent().push(c@),
            res is Ok ==> final(self).sent() == old(self).sent().push(plaintext@),
            res is Err ==> final(self).sent() == old(self).sent(),
            res is Err ==> final(self).wire_sent() == old(self).wire_sent(),
            final(self).received() == old(self).received(),
            final(self).opened() == old(self).opened(),
            final(self).role() == old(self).role(),
            final(self).pattern() == old(self).pattern(),
            final(self).psks() == old(self).psks(),
    {
        let mut buf: Vec<u8> = vec![0u8; plaintext.len() + TAG_LEN];
        match transport_write(self, plaintext, &mut buf) {
            Ok(len) => {
                buf.truncate(len);
                Ok(buf)
            },
            Err(e) => Err(TransportError::Noise(e)),
        }
    }

    /// Decrypts one message: the plaintext, as Noise wrote it, is the
    /// ciphertext's length minus the 16-byte tag; the accepted ciphertext joins
    /// the record of what was received and the plaintext the record of what was
    /// opened. Messages shorter than a tag or longer than a Noise message are
    /// refused.
    pub fn decrypt(&mut self, ciphertext: &[u8]) -> (res: Result<Vec<u8>, TransportError>)
        ensures
            ciphertext@.len() > MAX_NOISE_MESSAGE ==> res is Err,
            ciphertext@.len() < TAG_LEN ==> res is Err,
            res matches Ok(p) ==> p@.len() + TAG_LEN == ciphertext@.len(),
            res matches Ok(p) ==> final(self).opened() == old(self).opened().push(p@),
            res is Ok ==> final(self).received() == old(self).received().push(ciphertext@),
            res is Err ==> final(self).received() == old(self).received(),
            res is Err ==> final(self).opened() == old(self).opened(),
            final(self).sent() == old(self).sent(),
            final(self).wire_sent() == old(self).wire_sent(),
            final(self).role() == old(self).role(),
            final(self).pattern() == old(self).pattern(),
            final(self).psks() == old(self).psks(),
    {
        let mut buf: Vec<u8> = vec![0u8; ciphertext.len()];
        match transport_read(self, ciphertext, &mut buf) {
            Ok(len) => {
                buf.truncate(len);
                Ok(buf)
            },
            Err(e) => Err(TransportError::Noise(e)),
        }
    }
}

/// The order of the `NNpsk2` handshake: the initiator writes the first
/// message and reads the second, the responder reads the first and writes
/// the second, and both are then done.
pub proof fn lemma_handshake_order()
    ensures
        action_at(Role::Initiator, 0) == HandshakeAction::Write,
        action_at(Role::Initiator, 1) == HandshakeAction::Read,
        action_at(Role::Initiator, 2) == HandshakeAction::Finish,
        action_at(Role::Responder, 0) == HandshakeAction::Read,
        action_at(Role::Responder, 1) == HandshakeAction::Write,
        action_at(Role::Responder, 2) == HandshakeAction::Finish,
{
}

} // verus!
