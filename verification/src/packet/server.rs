//! Serverbound packets: what the client sends, one enum per phase, with
//! an explicit packet-id decode table. Fields that the reference protocol
//! carries as floating point travel as fixed-width words here and are
//! held as their IEEE-754 bit patterns.

use vstd::prelude::*;

use crate::protocol::DecodeError;
use crate::protocol::ProtocolRead;
use crate::protocol::ProtocolWrite;
use crate::protocol::lemma_skip_skip;
use crate::position::Position;
use crate::slot::Slot;
use crate::slot::SlotView;
use crate::var::Var;

verus! {

/// Which sub-protocol a handshake selects.
#[derive(Debug, Clone, Copy, PartialEq, Eq, Structural)]
pub enum NextState {
    Status,
    Login,
}

impl View for NextState {
    type V = NextState;

    open spec fn view(&self) -> NextState {
        *self
    }
}

impl DeepView for NextState {
    type V = NextState;

    open spec fn deep_view(&self) -> NextState {
        *self
    }
}

impl NextState {
    /// The wire discriminant: 1 selects Status, 2 selects Login.
    pub open spec fn id(self) -> i32 {
        match self {
            NextState::Status => 1,
            NextState::Login => 2,
        }
    }
}

impl ProtocolWrite for NextState {
    open spec fn valid(&self) -> bool {
        true
    }

    open spec fn wire(&self) -> Seq<u8> {
        Var(self.id()).wire()
    }

    fn proto_len(&self) -> (n: usize) {
        assert(self.wire() =~= seq![self.id() as u8]);
        1
    }

    fn proto_encode(&self, dst: &mut Vec<u8>) {
        let b: u8 = match self {
            NextState::Status => 1,
            NextState::Login => 2,
        };
        dst.push(b);
        assert(self.wire() =~= seq![self.id() as u8]);
        assert(dst@ =~= old(dst)@ + self.wire());
    }
}

impl ProtocolRead for NextState {
    open spec fn dec(s: Seq<u8>) -> Result<(NextState, int), DecodeError> {
        match Var::<i32>::dec(s) {
            Err(e) => Err(e),
            Ok((v, n)) => if v == Var(1i32) {
                Ok((NextState::Status, n))
            } else if v == Var(2i32) {
                Ok((NextState::Login, n))
            } else {
                Err(DecodeError::InvalidEnum)
            },
        }
    }

    proof fn dec_sound(s: Seq<u8>) {
        Var::<i32>::dec_sound(s);
    }

    proof fn dec_complete(v: Self, rest: Seq<u8>) {
        Var::<i32>::dec_complete(Var(v.id()), rest);
    }

    fn proto_decode(src: &[u8], pos: usize) -> (r: Result<(Self, usize), DecodeError>) {
        match Var::<i32>::proto_decode(src, pos) {
            Err(e) => Err(e),
            Ok((v, end)) => if v.0 == 1 {
                Ok((NextState::Status, end))
            } else if v.0 == 2 {
                Ok((NextState::Login, end))
            } else {
                Err(DecodeError::InvalidEnum)
            },
        }
    }
}

/// The face of a block, on the wire as a variable-length integer 0..=5.
#[derive(Debug, Clone, Copy, PartialEq, Eq, Structural)]
pub enum BlockFace {
    Bottom,
    Top,
    North,
    South,
    West,
    East,
}

impl View for BlockFace {
    type V = BlockFace;

    open spec fn view(&self) -> BlockFace {
        *self
    }
}

impl DeepView for BlockFace {
    type V = BlockFace;

    open spec fn deep_view(&self) -> BlockFace {
        *self
    }
}

impl BlockFace {
    pub open spec fn id(self) -> i32 {
        match self {
            BlockFace::Bottom => 0,
            BlockFace::Top => 1,
            BlockFace::North => 2,
            BlockFace::South => 3,
            BlockFace::West => 4,
            BlockFace::East => 5,
        }
    }

    /// The face selected by a wire discriminant.
    pub open spec fn from_id(n: i32) -> Option<BlockFace> {
        if n == 0 {
            Some(BlockFace::Bottom)
        } else if n == 1 {
            Some(BlockFace::Top)
        } else if n == 2 {
            Some(BlockFace::North)
        } else if n == 3 {
            Some(BlockFace::South)
        } else if n == 4 {
            Some(BlockFace::West)
        } else if n == 5 {
            Some(BlockFace::East)
        } else {
            None
        }
    }

    fn face_of(n: i32) -> (r: Option<BlockFace>)
        ensures
            r == BlockFace::from_id(n),
    {
        if n == 0 {
            Some(BlockFace::Bottom)
        } else if n == 1 {
            Some(BlockFace::Top)
        } else if n == 2 {
            Some(BlockFace::North)
        } else if n == 3 {
            Some(BlockFace::South)
        } else if n == 4 {
            Some(BlockFace::West)
        } else if n == 5 {
            Some(BlockFace::East)
        } else {
            None
        }
    }
}

impl ProtocolWrite for BlockFace {
    open spec fn valid(&self) -> bool {
        true
    }

    open spec fn wire(&self) -> Seq<u8> {
        Var(self.id()).wire()
    }

    fn proto_len(&self) -> (n: usize) {
        assert(self.wire() =~= seq![self.id() as u8]);
        1
    }

    fn proto_encode(&self, dst: &mut Vec<u8>) {
        let b: u8 = match self {
            BlockFace::Bottom => 0,
            BlockFace::Top => 1,
            BlockFace::North => 2,
            BlockFace::South => 3,
            BlockFace::West => 4,
            BlockFace::East => 5,
        };
        dst.push(b);
        assert(self.wire() =~= seq![self.id() as u8]);
        assert(dst@ =~= old(dst)@ + self.wire());
    }
}

impl ProtocolRead for BlockFace {
    open spec fn dec(s: Seq<u8>) -> Result<(BlockFace, int), DecodeError> {
        match Var::<i32>::dec(s) {
            Err(e) => Err(e),
            Ok((v, n)) => match BlockFace::from_id(v.0) {
                Some(f) => Ok((f, n)),
                None => Err(DecodeError::InvalidEnum),
            },
        }
    }

    proof fn dec_sound(s: Seq<u8>) {
        Var::<i32>::dec_sound(s);
    }

    proof fn dec_complete(v: Self, rest: Seq<u8>) {
        Var::<i32>::dec_complete(Var(v.id()), rest);
    }

    fn proto_decode(src: &[u8], pos: usize) -> (r: Result<(Self, usize), DecodeError>) {
        match Var::<i32>::proto_decode(src, pos) {
            Err(e) => Err(e),
            Ok((v, end)) => match BlockFace::face_of(v.0) {
                Some(f) => Ok((f, end)),
                None => Err(DecodeError::InvalidEnum),
            },
        }
    }
}

/// The face of a block, on the wire as a single byte 0..=5.
#[derive(Debug, Clone, Copy, PartialEq, Eq, Structural)]
pub enum BlockFaceU8 {
    Bottom,
    Top,
    North,
    South,
    West,
    East,
}

impl View for BlockFaceU8 {
    type V = BlockFaceU8;

    open spec fn view(&self) -> BlockFaceU8 {
        *self
    }
}

impl DeepView for BlockFaceU8 {
    type V = BlockFaceU8;

    open spec fn deep_view(&self) -> BlockFaceU8 {
        *self
    }
}

impl BlockFaceU8 {
    pub open spec fn id(self) -> u8 {
        match self {
            BlockFaceU8::Bottom => 0,
            BlockFaceU8::Top => 1,
            BlockFaceU8::North => 2,
            BlockFaceU8::South => 3,
            BlockFaceU8::West => 4,
            BlockFaceU8::East => 5,
        }
    }

    pub open spec fn from_id(n: u8) -> Option<BlockFaceU8> {
        if n == 0 {
            Some(BlockFaceU8::Bottom)
        } else if n == 1 {
            Some(BlockFaceU8::Top)
        } else if n == 2 {
            Some(BlockFaceU8::North)
        } else if n == 3 {
            Some(BlockFaceU8::South)
        } else if n == 4 {
            Some(BlockFaceU8::West)
        } else if n == 5 {
            Some(BlockFaceU8::East)
        } else {
            None
        }
    }
}

impl ProtocolWrite for BlockFaceU8 {
    open spec fn valid(&self) -> bool {
        true
    }

    open spec fn wire(&self) -> Seq<u8> {
        seq![self.id()]
    }

    fn proto_len(&self) -> (n: usize) {
        1
    }

    fn proto_encode(&self, dst: &mut Vec<u8>) {
        let b: u8 = match self {
            BlockFaceU8::Bottom => 0,
            BlockFaceU8::Top => 1,
            BlockFaceU8::North => 2,
            BlockFaceU8::South => 3,
            BlockFaceU8::West => 4,
            BlockFaceU8::East => 5,
        };
        dst.push(b);
        assert(dst@ =~= old(dst)@ + self.wire());
    }
}

impl ProtocolRead for BlockFaceU8 {
    open spec fn dec(s: Seq<u8>) -> Result<(BlockFaceU8, int), DecodeError> {
        if s.len() < 1 {
            Err(DecodeError::Eof)
        } else {
            match BlockFaceU8::from_id(s[0]) {
                Some(f) => Ok((f, 1)),
                None => Err(DecodeError::InvalidEnum),
            }
        }
    }

    proof fn dec_sound(s: Seq<u8>) {
    }

    proof fn dec_complete(v: Self, rest: Seq<u8>) {
        assert((v.wire() + rest)[0] == v.id());
    }

    fn proto_decode(src: &[u8], pos: usize) -> (r: Result<(Self, usize), DecodeError>) {
        if pos >= src.len() {
            return Err(DecodeError::Eof);
        }
        assert(src@.skip(pos as int)[0] == src@[pos as int]);
        let b = src[pos];
        if b == 0 {
            Ok((BlockFaceU8::Bottom, pos + 1))
        } else if b == 1 {
            Ok((BlockFaceU8::Top, pos + 1))
        } else if b == 2 {
            Ok((BlockFaceU8::North, pos + 1))
        } else if b == 3 {
            Ok((BlockFaceU8::South, pos + 1))
        } else if b == 4 {
            Ok((BlockFaceU8::West, pos + 1))
        } else if b == 5 {
            Ok((BlockFaceU8::East, pos + 1))
        } else {
            Err(DecodeError::InvalidEnum)
        }
    }
}

/// What a digging packet reports, on the wire as a variable-length
/// integer 0..=6.
#[derive(Debug, Clone, Copy, PartialEq, Eq, Structural)]
pub enum DiggingStatus {
    StartedDigging,
    CancelledDigging,
    FinishedDigging,
    DropItemStack,
    DropItem,
    ShootArrowOrFinishEating,
    SwapItemInHand,
}

impl View for DiggingStatus {
    type V = DiggingStatus;

    open spec fn view(&self) -> DiggingStatus {
        *self
    }
}

impl DeepView for DiggingStatus {
    type V = DiggingStatus;

    open spec fn deep_view(&self) -> DiggingStatus {
        *self
    }
}

impl DiggingStatus {
    pub open spec fn id(self) -> i32 {
        match self {
            DiggingStatus::StartedDigging => 0,
            DiggingStatus::CancelledDigging => 1,
            DiggingStatus::FinishedDigging => 2,
            DiggingStatus::DropItemStack => 3,
            DiggingStatus::DropItem => 4,
            DiggingStatus::ShootArrowOrFinishEating => 5,
            DiggingStatus::SwapItemInHand => 6,
        }
    }

    pub open spec fn from_id(n: i32) -> Option<DiggingStatus> {
        if n == 0 {
            Some(DiggingStatus::StartedDigging)
        } else if n == 1 {
            Some(DiggingStatus::CancelledDigging)
        } else if n == 2 {
            Some(DiggingStatus::FinishedDigging)
        } else if n == 3 {
            Some(DiggingStatus::DropItemStack)
        } else if n == 4 {
            Some(DiggingStatus::DropItem)
        } else if n == 5 {
            Some(DiggingStatus::ShootArrowOrFinishEating)
        } else if n == 6 {
            Some(DiggingStatus::SwapItemInHand)
        } else {
            None
        }
    }

    fn status_of(n: i32) -> (r: Option<DiggingStatus>)
        ensures
            r == DiggingStatus::from_id(n),
    {
        if n == 0 {
            Some(DiggingStatus::StartedDigging)
        } else if n == 1 {
            Some(DiggingStatus::CancelledDigging)
        } else if n == 2 {
            Some(DiggingStatus::FinishedDigging)
        } else if n == 3 {
            Some(DiggingStatus::DropItemStack)
        } else if n == 4 {
            Some(DiggingStatus::DropItem)
        } else if n == 5 {
            Some(DiggingStatus::ShootArrowOrFinishEating)
        } else if n == 6 {
            Some(DiggingStatus::SwapItemInHand)
        } else {
            None
        }
    }
}

impl ProtocolWrite for DiggingStatus {
    open spec fn valid(&self) -> bool {
        true
    }

    open spec fn wire(&self) -> Seq<u8> {
        Var(self.id()).wire()
    }

    fn proto_len(&self) -> (n: usize) {
        assert(self.wire() =~= seq![self.id() as u8]);
        1
    }

    fn proto_encode(&self, dst: &mut Vec<u8>) {
        let b: u8 = match self {
            DiggingStatus::StartedDigging => 0,
            DiggingStatus::CancelledDigging => 1,
            DiggingStatus::FinishedDigging => 2,
            DiggingStatus::DropItemStack => 3,
            DiggingStatus::DropItem => 4,
            DiggingStatus::ShootArrowOrFinishEating => 5,
            DiggingStatus::SwapItemInHand => 6,
        };
        dst.push(b);
        assert(self.wire() =~= seq![self.id() as u8]);
        assert(dst@ =~= old(dst)@ + self.wire());
    }
}

impl ProtocolRead for DiggingStatus {
    open spec fn dec(s: Seq<u8>) -> Result<(DiggingStatus, int), DecodeError> {
        match Var::<i32>::dec(s) {
            Err(e) => Err(e),
            Ok((v, n)) => match DiggingStatus::from_id(v.0) {
                Some(f) => Ok((f, n)),
                None => Err(DecodeError::InvalidEnum),
            },
        }
    }

    proof fn dec_sound(s: Seq<u8>) {
        Var::<i32>::dec_sound(s);
    }

    proof fn dec_complete(v: Self, rest: Seq<u8>) {
        Var::<i32>::dec_complete(Var(v.id()), rest);
    }

    fn proto_decode(src: &[u8], pos: usize) -> (r: Result<(Self, usize), DecodeError>) {
        match Var::<i32>::proto_decode(src, pos) {
            Err(e) => Err(e),
            Ok((v, end)) => match DiggingStatus::status_of(v.0) {
                Some(f) => Ok((f, end)),
                None => Err(DecodeError::InvalidEnum),
            },
        }
    }
}

/// The one handshake-phase packet: protocol version, address and port the
/// client dialed, and which sub-protocol comes next.
#[derive(Debug, Clone)]
pub struct Handshake {
    pub protocol_version: Var<i32>,
    pub server_address: String,
    pub server_port: u16,
    pub next_state: NextState,
}

/// The mathematical model of a `Handshake`.
pub struct HandshakeView {
    pub protocol_version: Var<i32>,
    pub server_address: Seq<char>,
    pub server_port: u16,
    pub next_state: NextState,
}

impl DeepView for Handshake {
    type V = HandshakeView;

    open spec fn deep_view(&self) -> HandshakeView {
        HandshakeView {
            protocol_version: self.protocol_version,
            server_address: self.server_address@,
            server_port: self.server_port,
            next_state: self.next_state,
        }
    }
}

impl ProtocolWrite for Handshake {
    open spec fn valid(&self) -> bool {
        self.server_address.valid()
    }

    open spec fn wire(&self) -> Seq<u8> {
        self.protocol_version.wire() + self.server_address.wire() + self.server_port.wire()
            + self.next_state.wire()
    }

    fn proto_len(&self) -> (n: usize) {
        self.protocol_version.proto_len() + self.server_address.proto_len()
            + self.server_port.proto_len() + self.next_state.proto_len()
    }

    fn proto_encode(&self, dst: &mut Vec<u8>) {
        self.protocol_version.proto_encode(dst);
        self.server_address.proto_encode(dst);
        self.server_port.proto_encode(dst);
        self.next_state.proto_encode(dst);
        assert(dst@ =~= old(dst)@ + self.wire());
    }
}

impl ProtocolRead for Handshake {
    open spec fn dec(s: Seq<u8>) -> Result<(HandshakeView, int), DecodeError> {
        match <(Var<i32>, (String, (u16, NextState)))>::dec(s) {
            Err(e) => Err(e),
            Ok(((pv, (addr, (port, ns))), n)) => Ok(
                (
                    HandshakeView {
                        protocol_version: pv,
                        server_address: addr,
                        server_port: port,
                        next_state: ns,
                    },
                    n,
                ),
            ),
        }
    }

    proof fn dec_sound(s: Seq<u8>) {
        <(Var<i32>, (String, (u16, NextState)))>::dec_sound(s);
    }

    proof fn dec_complete(v: Self, rest: Seq<u8>) {
        let t = (v.protocol_version, (v.server_address, (v.server_port, v.next_state)));
        assert(t.wire() =~= v.wire());
        <(Var<i32>, (String, (u16, NextState)))>::dec_complete(t, rest);
    }

    fn proto_decode(src: &[u8], pos: usize) -> (r: Result<(Self, usize), DecodeError>) {
        match <(Var<i32>, (String, (u16, NextState)))>::proto_decode(src, pos) {
            Err(e) => Err(e),
            Ok(((pv, (addr, (port, ns))), end)) => {
                let h = Handshake {
                    protocol_version: pv,
                    server_address: addr,
                    server_port: port,
                    next_state: ns,
                };
                proof {
                    assert(h.wire() =~= (
                        h.protocol_version,
                        (h.server_address, (h.server_port, h.next_state)),
                    ).wire());
                }
                Ok((h, end))
            },
        }
    }
}

/// The handshake-phase packet table: id 0 only.
#[derive(Debug, Clone)]
pub enum HandshakePacket {
    Handshake(Handshake),
}

/// The mathematical model of a `HandshakePacket`.
pub enum HandshakePacketView {
    Handshake(HandshakeView),
}

impl DeepView for HandshakePacket {
    type V = HandshakePacketView;

    open spec fn deep_view(&self) -> HandshakePacketView {
        match self {
            HandshakePacket::Handshake(h) => HandshakePacketView::Handshake(h.deep_view()),
        }
    }
}

impl ProtocolWrite for HandshakePacket {
    open spec fn valid(&self) -> bool {
        match self {
            HandshakePacket::Handshake(h) => h.valid(),
        }
    }

    open spec fn wire(&self) -> Seq<u8> {
        match self {
            HandshakePacket::Handshake(h) => Var(0i32).wire() + h.wire(),
        }
    }

    fn proto_len(&self) -> (n: usize) {
        match self {
            HandshakePacket::Handshake(h) => {
                assert(Var(0i32).wire() =~= seq![0u8]);
                1 + h.proto_len()
            },
        }
    }

    fn proto_encode(&self, dst: &mut Vec<u8>) {
        match self {
            HandshakePacket::Handshake(h) => {
                assert(Var(0i32).wire() =~= seq![0u8]);
                dst.push(0u8);
                h.proto_encode(dst);
                assert(dst@ =~= old(dst)@ + self.wire());
            },
        }
    }
}

impl ProtocolRead for HandshakePacket {
    open spec fn dec(s: Seq<u8>) -> Result<(HandshakePacketView, int), DecodeError> {
        match Var::<i32>::dec(s) {
            Err(e) => Err(e),
            Ok((id, n)) => if id == Var(0i32) {
                match Handshake::dec(s.skip(n)) {
                    Err(e) => Err(e),
                    Ok((h, m)) => Ok((HandshakePacketView::Handshake(h), n + m)),
                }
            } else {
                Err(DecodeError::InvalidEnum)
            },
        }
    }

    proof fn dec_sound(s: Seq<u8>) {
        Var::<i32>::dec_sound(s);
        match Var::<i32>::dec(s) {
            Err(_) => {},
            Ok((id, n)) => {
                Handshake::dec_sound(s.skip(n));
            },
        }
    }

    proof fn dec_complete(v: Self, rest: Seq<u8>) {
        match v {
            HandshakePacket::Handshake(h) => {
                let s = v.wire() + rest;
                assert(s =~= Var(0i32).wire() + (h.wire() + rest));
                Var::<i32>::dec_complete(Var(0i32), h.wire() + rest);
                assert(s.skip(Var(0i32).wire().len() as int) =~= h.wire() + rest);
                Handshake::dec_complete(h, rest);
            },
        }
    }

    fn proto_decode(src: &[u8], pos: usize) -> (r: Result<(Self, usize), DecodeError>) {
        match Var::<i32>::proto_decode(src, pos) {
            Err(e) => Err(e),
            Ok((id, p1)) => {
                proof {
                    lemma_skip_skip(src@, pos as int, p1 - pos);
                }
                if id.0 == 0 {
                    match Handshake::proto_decode(src, p1) {
                        Err(e) => Err(e),
                        Ok((h, end)) => Ok((HandshakePacket::Handshake(h), end)),
                    }
                } else {
                    Err(DecodeError::InvalidEnum)
                }
            },
        }
    }
}

/// An empty status request body.
#[derive(Debug, Clone, PartialEq, Eq, Structural)]
pub struct Request {}

impl DeepView for Request {
    type V = Request;

    open spec fn deep_view(&self) -> Request {
        *self
    }
}

impl ProtocolWrite for Request {
    open spec fn valid(&self) -> bool {
        true
    }

    open spec fn wire(&self) -> Seq<u8> {
        Seq::empty()
    }

    fn proto_len(&self) -> (n: usize) {
        0
    }

    fn proto_encode(&self, dst: &mut Vec<u8>) {
        assert(dst@ =~= old(dst)@ + self.wire());
    }
}

impl ProtocolRead for Request {
    open spec fn dec(s: Seq<u8>) -> Result<(Request, int), DecodeError> {
        Ok((Request {  }, 0))
    }

    proof fn dec_sound(s: Seq<u8>) {
    }

    proof fn dec_complete(v: Self, rest: Seq<u8>) {
    }

    fn proto_decode(src: &[u8], pos: usize) -> (r: Result<(Self, usize), DecodeError>) {
        Ok((Request {  }, pos))
    }
}

/// A status ping, echoed back verbatim.
#[derive(Debug, Clone, Copy, PartialEq, Eq, Structural)]
pub struct Ping {
    pub payload: u64,
}

impl DeepView for Ping {
    type V = Ping;

    open spec fn deep_view(&self) -> Ping {
        *self
    }
}

impl ProtocolWrite for Ping {
    open spec fn valid(&self) -> bool {
        true
    }

    open spec fn wire(&self) -> Seq<u8> {
        self.payload.wire()
    }

    fn proto_len(&self) -> (n: usize) {
        self.payload.proto_len()
    }

    fn proto_encode(&self, dst: &mut Vec<u8>) {
        self.payload.proto_encode(dst);
    }
}

impl ProtocolRead for Ping {
    open spec fn dec(s: Seq<u8>) -> Result<(Ping, int), DecodeError> {
        match u64::dec(s) {
            Err(e) => Err(e),
            Ok((p, n)) => Ok((Ping { payload: p }, n)),
        }
    }

    proof fn dec_sound(s: Seq<u8>) {
        u64::dec_sound(s);
    }

    proof fn dec_complete(v: Self, rest: Seq<u8>) {
        u64::dec_complete(v.payload, rest);
    }

    fn proto_decode(src: &[u8], pos: usize) -> (r: Result<(Self, usize), DecodeError>) {
        match u64::proto_decode(src, pos) {
            Err(e) => Err(e),
            Ok((p, end)) => Ok((Ping { payload: p }, end)),
        }
    }
}

/// The status-phase packet table: 0 request, 1 ping.
#[derive(Debug, Clone)]
pub enum StatusPacket {
    Request(Request),
    Ping(Ping),
}

impl DeepView for StatusPacket {
    type V = StatusPacket;

    open spec fn deep_view(&self) -> StatusPacket {
        match self {
            StatusPacket::Request(q) => StatusPacket::Request(*q),
            StatusPacket::Ping(p) => StatusPacket::Ping(*p),
        }
    }
}

impl ProtocolWrite for StatusPacket {
    open spec fn valid(&self) -> bool {
        true
    }

    open spec fn wire(&self) -> Seq<u8> {
        match self {
            StatusPacket::Request(q) => Var(0i32).wire() + q.wire(),
            StatusPacket::Ping(p) => Var(1i32).wire() + p.wire(),
        }
    }

    fn proto_len(&self) -> (n: usize) {
        match self {
            StatusPacket::Request(q) => {
                assert(Var(0i32).wire() =~= seq![0u8]);
                1 + q.proto_len()
            },
            StatusPacket::Ping(p) => {
                assert(Var(1i32).wire() =~= seq![1u8]);
                1 + p.proto_len()
            },
        }
    }

    fn proto_encode(&self, dst: &mut Vec<u8>) {
        match self {
            StatusPacket::Request(q) => {
                assert(Var(0i32).wire() =~= seq![0u8]);
                dst.push(0u8);
                q.proto_encode(dst);
            },
            StatusPacket::Ping(p) => {
                assert(Var(1i32).wire() =~= seq![1u8]);
                dst.push(1u8);
                p.proto_encode(dst);
            },
        }
        assert(dst@ =~= old(dst)@ + self.wire());
    }
}

impl ProtocolRead for StatusPacket {
    open spec fn dec(s: Seq<u8>) -> Result<(StatusPacket, int), DecodeError> {
        match Var::<i32>::dec(s) {
            Err(e) => Err(e),
            Ok((id, n)) => if id == Var(0i32) {
                match Request::dec(s.skip(n)) {
                    Err(e) => Err(e),
                    Ok((q, m)) => Ok((StatusPacket::Request(q), n + m)),
                }
            } else if id == Var(1i32) {
                match Ping::dec(s.skip(n)) {
                    Err(e) => Err(e),
                    Ok((p, m)) => Ok((StatusPacket::Ping(p), n + m)),
                }
            } else {
                Err(DecodeError::InvalidEnum)
            },
        }
    }

    proof fn dec_sound(s: Seq<u8>) {
        Var::<i32>::dec_sound(s);
        match Var::<i32>::dec(s) {
            Err(_) => {},
            Ok((id, n)) => {
                Request::dec_sound(s.skip(n));
                Ping::dec_sound(s.skip(n));
            },
        }
    }

    proof fn dec_complete(v: Self, rest: Seq<u8>) {
        match v {
            StatusPacket::Request(q) => {
                let s = v.wire() + rest;
                assert(s =~= Var(0i32).wire() + (q.wire() + rest));
                Var::<i32>::dec_complete(Var(0i32), q.wire() + rest);
                assert(s.skip(Var(0i32).wire().len() as int) =~= q.wire() + rest);
                Request::dec_complete(q, rest);
            },
            StatusPacket::Ping(p) => {
                let s = v.wire() + rest;
                assert(s =~= Var(1i32).wire() + (p.wire() + rest));
                Var::<i32>::dec_complete(Var(1i32), p.wire() + rest);
                assert(s.skip(Var(1i32).wire().len() as int) =~= p.wire() + rest);
                Ping::dec_complete(p, rest);
            },
        }
    }

    fn proto_decode(src: &[u8], pos: usize) -> (r: Result<(Self, usize), DecodeError>) {
        match Var::<i32>::proto_decode(src, pos) {
            Err(e) => Err(e),
            Ok((id, p1)) => {
                proof {
                    lemma_skip_skip(src@, pos as int, p1 - pos);
                }
                if id.0 == 0 {
                    match Request::proto_decode(src, p1) {
                        Err(e) => Err(e),
                        Ok((q, end)) => Ok((StatusPacket::Request(q), end)),
                    }
                } else if id.0 == 1 {
                    match Ping::proto_decode(src, p1) {
                        Err(e) => Err(e),
                        Ok((p, end)) => Ok((StatusPacket::Ping(p), end)),
                    }
                } else {
                    Err(DecodeError::InvalidEnum)
                }
            },
        }
    }
}

/// A login request: the player's claimed name.
#[derive(Debug, Clone)]
pub struct LoginStart {
    pub name: String,
}

/// The mathematical model of a `LoginStart`.
pub struct LoginStartView {
    pub name: Seq<char>,
}

impl DeepView for LoginStart {
    type V = LoginStartView;

    open spec fn deep_view(&self) -> LoginStartView {
        LoginStartView { name: self.name@ }
    }
}

impl ProtocolWrite for LoginStart {
    open spec fn valid(&self) -> bool {
        self.name.valid()
    }

    open spec fn wire(&self) -> Seq<u8> {
        self.name.wire()
    }

    fn proto_len(&self) -> (n: usize) {
        self.name.proto_len()
    }

    fn proto_encode(&self, dst: &mut Vec<u8>) {
        self.name.proto_encode(dst);
    }
}

impl ProtocolRead for LoginStart {
    open spec fn dec(s: Seq<u8>) -> Result<(LoginStartView, int), DecodeError> {
        match String::dec(s) {
            Err(e) => Err(e),
            Ok((nm, n)) => Ok((LoginStartView { name: nm }, n)),
        }
    }

    proof fn dec_sound(s: Seq<u8>) {
        String::dec_sound(s);
    }

    proof fn dec_complete(v: Self, rest: Seq<u8>) {
        String::dec_complete(v.name, rest);
    }

    fn proto_decode(src: &[u8], pos: usize) -> (r: Result<(Self, usize), DecodeError>) {
        match String::proto_decode(src, pos) {
            Err(e) => Err(e),
            Ok((nm, end)) => Ok((LoginStart { name: nm }, end)),
        }
    }
}

/// The client's half of the key exchange: both fields arrive encrypted
/// under the server's public key.
#[derive(Debug, Clone)]
pub struct EncryptionResponse {
    pub shared_secret: Vec<u8>,
    pub verify_token: Vec<u8>,
}

/// The mathematical model of an `EncryptionResponse`.
pub struct EncryptionResponseView {
    pub shared_secret: Seq<u8>,
    pub verify_token: Seq<u8>,
}

impl DeepView for EncryptionResponse {
    type V = EncryptionResponseView;

    open spec fn deep_view(&self) -> EncryptionResponseView {
        EncryptionResponseView {
            shared_secret: self.shared_secret.deep_view(),
            verify_token: self.verify_token.deep_view(),
        }
    }
}

impl ProtocolWrite for EncryptionResponse {
    open spec fn valid(&self) -> bool {
        self.shared_secret.valid() && self.verify_token.valid()
    }

    open spec fn wire(&self) -> Seq<u8> {
        self.shared_secret.wire() + self.verify_token.wire()
    }

    fn proto_len(&self) -> (n: usize) {
        self.shared_secret.proto_len() + self.verify_token.proto_len()
    }

    fn proto_encode(&self, dst: &mut Vec<u8>) {
        self.shared_secret.proto_encode(dst);
        self.verify_token.proto_encode(dst);
        assert(dst@ =~= old(dst)@ + self.wire());
    }
}

impl ProtocolRead for EncryptionResponse {
    open spec fn dec(s: Seq<u8>) -> Result<(EncryptionResponseView, int), DecodeError> {
        match <(Vec<u8>, Vec<u8>)>::dec(s) {
            Err(e) => Err(e),
            Ok(((ss, vt), n)) => Ok((EncryptionResponseView { shared_secret: ss, verify_token: vt }, n)),
        }
    }

    proof fn dec_sound(s: Seq<u8>) {
        <(Vec<u8>, Vec<u8>)>::dec_sound(s);
    }

    proof fn dec_complete(v: Self, rest: Seq<u8>) {
        let t = (v.shared_secret, v.verify_token);
        assert(t.wire() =~= v.wire());
        <(Vec<u8>, Vec<u8>)>::dec_complete(t, rest);
    }

    fn proto_decode(src: &[u8], pos: usize) -> (r: Result<(Self, usize), DecodeError>) {
        match <(Vec<u8>, Vec<u8>)>::proto_decode(src, pos) {
            Err(e) => Err(e),
            Ok(((ss, vt), end)) => {
                let p = EncryptionResponse { shared_secret: ss, verify_token: vt };
                proof {
                    assert(p.wire() =~= (p.shared_secret, p.verify_token).wire());
                }
                Ok((p, end))
            },
        }
    }
}

/// The login-phase packet table: 0 login start, 1 encryption response.
#[derive(Debug, Clone)]
pub enum LoginPacket {
    LoginStart(LoginStart),
    EncryptionResponse(EncryptionResponse),
}

/// The mathematical model of a `LoginPacket`.
pub enum LoginPacketView {
    LoginStart(LoginStartView),
    EncryptionResponse(EncryptionResponseView),
}

impl DeepView for LoginPacket {
    type V = LoginPacketView;

    open spec fn deep_view(&self) -> LoginPacketView {
        match self {
            LoginPacket::LoginStart(p) => LoginPacketView::LoginStart(p.deep_view()),
            LoginPacket::EncryptionResponse(p) => LoginPacketView::EncryptionResponse(
                p.deep_view(),
            ),
        }
    }
}

impl ProtocolWrite for LoginPacket {
    open spec fn valid(&self) -> bool {
        match self {
            LoginPacket::LoginStart(p) => p.valid(),
            LoginPacket::EncryptionResponse(p) => p.valid(),
        }
    }

    open spec fn wire(&self) -> Seq<u8> {
        match self {
            LoginPacket::LoginStart(p) => Var(0i32).wire() + p.wire(),
            LoginPacket::EncryptionResponse(p) => Var(1i32).wire() + p.wire(),
        }
    }

    fn proto_len(&self) -> (n: usize) {
        match self {
            LoginPacket::LoginStart(p) => {
                assert(Var(0i32).wire() =~= seq![0u8]);
                1 + p.proto_len()
            },
            LoginPacket::EncryptionResponse(p) => {
                assert(Var(1i32).wire() =~= seq![1u8]);
                1 + p.proto_len()
            },
        }
    }

    fn proto_encode(&self, dst: &mut Vec<u8>) {
        match self {
            LoginPacket::LoginStart(p) => {
                assert(Var(0i32).wire() =~= seq![0u8]);
                dst.push(0u8);
                p.proto_encode(dst);
            },
            LoginPacket::EncryptionResponse(p) => {
                assert(Var(1i32).wire() =~= seq![1u8]);
                dst.push(1u8);
                p.proto_encode(dst);
            },
        }
        assert(dst@ =~= old(dst)@ + self.wire());
    }
}

impl ProtocolRead for LoginPacket {
    open spec fn dec(s: Seq<u8>) -> Result<(LoginPacketView, int), DecodeError> {
        match Var::<i32>::dec(s) {
            Err(e) => Err(e),
            Ok((id, n)) => if id == Var(0i32) {
                match LoginStart::dec(s.skip(n)) {
                    Err(e) => Err(e),
                    Ok((p, m)) => Ok((LoginPacketView::LoginStart(p), n + m)),
                }
            } else if id == Var(1i32) {
                match EncryptionResponse::dec(s.skip(n)) {
                    Err(e) => Err(e),
                    Ok((p, m)) => Ok((LoginPacketView::EncryptionResponse(p), n + m)),
                }
            } else {
                Err(DecodeError::InvalidEnum)
            },
        }
    }

    proof fn dec_sound(s: Seq<u8>) {
        Var::<i32>::dec_sound(s);
        match Var::<i32>::dec(s) {
            Err(_) => {},
            Ok((id, n)) => {
                LoginStart::dec_sound(s.skip(n));
                EncryptionResponse::dec_sound(s.skip(n));
            },
        }
    }

    proof fn dec_complete(v: Self, rest: Seq<u8>) {
        match v {
            LoginPacket::LoginStart(p) => {
                let s = v.wire() + rest;
                assert(s =~= Var(0i32).wire() + (p.wire() + rest));
                Var::<i32>::dec_complete(Var(0i32), p.wire() + rest);
                assert(s.skip(Var(0i32).wire().len() as int) =~= p.wire() + rest);
                LoginStart::dec_complete(p, rest);
            },
            LoginPacket::EncryptionResponse(p) => {
                let s = v.wire() + rest;
                assert(s =~= Var(1i32).wire() + (p.wire() + rest));
                Var::<i32>::dec_complete(Var(1i32), p.wire() + rest);
                assert(s.skip(Var(1i32).wire().len() as int) =~= p.wire() + rest);
                EncryptionResponse::dec_complete(p, rest);
            },
        }
    }

    fn proto_decode(src: &[u8], pos: usize) -> (r: Result<(Self, usize), DecodeError>) {
        match Var::<i32>::proto_decode(src, pos) {
            Err(e) => Err(e),
            Ok((id, p1)) => {
                proof {
                    lemma_skip_skip(src@, pos as int, p1 - pos);
                }
                if id.0 == 0 {
                    match LoginStart::proto_decode(src, p1) {
                        Err(e) => Err(e),
                        Ok((p, end)) => Ok((LoginPacket::LoginStart(p), end)),
                    }
                } else if id.0 == 1 {
                    match EncryptionResponse::proto_decode(src, p1) {
                        Err(e) => Err(e),
                        Ok((p, end)) => Ok((LoginPacket::EncryptionResponse(p), end)),
                    }
                } else {
                    Err(DecodeError::InvalidEnum)
                }
            },
        }
    }
}

/// The client confirms a teleport by echoing its id.
#[derive(Debug, Clone, Copy, PartialEq, Eq, Structural)]
pub struct TeleportConfirm {
    pub teleport_id: Var<i32>,
}

impl View for TeleportConfirm {
    type V = TeleportConfirm;

    open spec fn view(&self) -> TeleportConfirm {
        *self
    }
}

impl DeepView for TeleportConfirm {
    type V = TeleportConfirm;

    open spec fn deep_view(&self) -> TeleportConfirm {
        *self
    }
}

impl ProtocolWrite for TeleportConfirm {
    open spec fn valid(&self) -> bool {
        true
    }

    open spec fn wire(&self) -> Seq<u8> {
        self.teleport_id.wire()
    }

    fn proto_len(&self) -> (n: usize) {
        self.teleport_id.proto_len()
    }

    fn proto_encode(&self, dst: &mut Vec<u8>) {
        self.teleport_id.proto_encode(dst);
        assert(dst@ =~= old(dst)@ + self.wire());
    }
}

impl ProtocolRead for TeleportConfirm {
    open spec fn dec(s: Seq<u8>) -> Result<(TeleportConfirm, int), DecodeError> {
        match <Var<i32>>::dec(s) {
            Err(e) => Err(e),
            Ok((teleport_id, n)) => Ok((TeleportConfirm { teleport_id: teleport_id }, n)),
        }
    }

    proof fn dec_sound(s: Seq<u8>) {
        <Var<i32>>::dec_sound(s);
    }

    proof fn dec_complete(v: Self, rest: Seq<u8>) {
        let t = v.teleport_id;
        assert(t.wire() =~= v.wire());
        <Var<i32>>::dec_complete(t, rest);
    }

    fn proto_decode(src: &[u8], pos: usize) -> (r: Result<(Self, usize), DecodeError>) {
        match <Var<i32>>::proto_decode(src, pos) {
            Err(e) => Err(e),
            Ok((teleport_id, end)) => {
                let p = TeleportConfirm { teleport_id: teleport_id };
                proof {
                    assert(p.wire() =~= p.teleport_id.wire());
                }
                Ok((p, end))
            },
        }
    }
}

/// The client's display and chat settings.
#[derive(Debug, Clone)]
pub struct ClientSettings {
    pub locale: String,
    pub view_distance: u8,
    pub chat_mode: Var<i32>,
    pub chat_colors: bool,
    pub displayed_skin_parts: u8,
    pub main_hand: Var<i32>,
}

/// The mathematical model of a `ClientSettings`.
pub struct ClientSettingsView {
    pub locale: Seq<char>,
    pub view_distance: u8,
    pub chat_mode: Var<i32>,
    pub chat_colors: bool,
    pub displayed_skin_parts: u8,
    pub main_hand: Var<i32>,
}

impl DeepView for ClientSettings {
    type V = ClientSettingsView;

    open spec fn deep_view(&self) -> ClientSettingsView {
        ClientSettingsView {
            locale: self.locale.deep_view(),
            view_distance: self.view_distance.deep_view(),
            chat_mode: self.chat_mode.deep_view(),
            chat_colors: self.chat_colors.deep_view(),
            displayed_skin_parts: self.displayed_skin_parts.deep_view(),
            main_hand: self.main_hand.deep_view(),
        }
    }
}

impl ProtocolWrite for ClientSettings {
    open spec fn valid(&self) -> bool {
        self.locale.valid()
    }

    open spec fn wire(&self) -> Seq<u8> {
        self.locale.wire() + self.view_distance.wire() + self.chat_mode.wire() + self.chat_colors.wire() + self.displayed_skin_parts.wire() + self.main_hand.wire()
    }

    fn proto_len(&self) -> (n: usize) {
        self.locale.proto_len() + self.view_distance.proto_len() + self.chat_mode.proto_len() + self.chat_colors.proto_len() + self.displayed_skin_parts.proto_len() + self.main_hand.proto_len()
    }

    fn proto_encode(&self, dst: &mut Vec<u8>) {
        self.locale.proto_encode(dst);
        self.view_distance.proto_encode(dst);
        self.chat_mode.proto_encode(dst);
        self.chat_colors.proto_encode(dst);
        self.displayed_skin_parts.proto_encode(dst);
        self.main_hand.proto_encode(dst);
        assert(dst@ =~= old(dst)@ + self.wire());
    }
}

impl ProtocolRead for ClientSettings {
    open spec fn dec(s: Seq<u8>) -> Result<(ClientSettingsView, int), DecodeError> {
        match <(String, (u8, (Var<i32>, (bool, (u8, Var<i32>)))))>::dec(s) {
            Err(e) => Err(e),
            Ok(((locale, (view_distance, (chat_mode, (chat_colors, (displayed_skin_parts, main_hand))))), n)) => Ok((ClientSettingsView { locale: locale, view_distance: view_distance, chat_mode: chat_mode, chat_colors: chat_colors, displayed_skin_parts: displayed_skin_parts, main_hand: main_hand }, n)),
        }
    }

    proof fn dec_sound(s: Seq<u8>) {
        <(String, (u8, (Var<i32>, (bool, (u8, Var<i32>)))))>::dec_sound(s);
    }

    proof fn dec_complete(v: Self, rest: Seq<u8>) {
        let t = (v.locale, (v.view_distance, (v.chat_mode, (v.chat_colors, (v.displayed_skin_parts, v.main_hand)))));
        assert(t.wire() =~= v.wire());
        <(String, (u8, (Var<i32>, (bool, (u8, Var<i32>)))))>::dec_complete(t, rest);
    }

    fn proto_decode(src: &[u8], pos: usize) -> (r: Result<(Self, usize), DecodeError>) {
        match <(String, (u8, (Var<i32>, (bool, (u8, Var<i32>)))))>::proto_decode(src, pos) {
            Err(e) => Err(e),
            Ok(((locale, (view_distance, (chat_mode, (chat_colors, (displayed_skin_parts, main_hand))))), end)) => {
                let p = ClientSettings { locale: locale, view_distance: view_distance, chat_mode: chat_mode, chat_colors: chat_colors, displayed_skin_parts: displayed_skin_parts, main_hand: main_hand };
                proof {
                    assert(p.wire() =~= (p.locale, (p.view_distance, (p.chat_mode, (p.chat_colors, (p.displayed_skin_parts, p.main_hand))))).wire());
                }
                Ok((p, end))
            },
        }
    }
}

/// The client echoes a keep-alive id.
#[derive(Debug, Clone, Copy, PartialEq, Eq, Structural)]
pub struct KeepAlive {
    pub id: i64,
}

impl View for KeepAlive {
    type V = KeepAlive;

    open spec fn view(&self) -> KeepAlive {
        *self
    }
}

impl DeepView for KeepAlive {
    type V = KeepAlive;

    open spec fn deep_view(&self) -> KeepAlive {
        *self
    }
}

impl ProtocolWrite for KeepAlive {
    open spec fn valid(&self) -> bool {
        true
    }

    open spec fn wire(&self) -> Seq<u8> {
        self.id.wire()
    }

    fn proto_len(&self) -> (n: usize) {
        self.id.proto_len()
    }

    fn proto_encode(&self, dst: &mut Vec<u8>) {
        self.id.proto_encode(dst);
        assert(dst@ =~= old(dst)@ + self.wire());
    }
}

impl ProtocolRead for KeepAlive {
    open spec fn dec(s: Seq<u8>) -> Result<(KeepAlive, int), DecodeError> {
        match <i64>::dec(s) {
            Err(e) => Err(e),
            Ok((id, n)) => Ok((KeepAlive { id: id }, n)),
        }
    }

    proof fn dec_sound(s: Seq<u8>) {
        <i64>::dec_sound(s);
    }

    proof fn dec_complete(v: Self, rest: Seq<u8>) {
        let t = v.id;
        assert(t.wire() =~= v.wire());
        <i64>::dec_complete(t, rest);
    }

    fn proto_decode(src: &[u8], pos: usize) -> (r: Result<(Self, usize), DecodeError>) {
        match <i64>::proto_decode(src, pos) {
            Err(e) => Err(e),
            Ok((id, end)) => {
                let p = KeepAlive { id: id };
                proof {
                    assert(p.wire() =~= p.id.wire());
                }
                Ok((p, end))
            },
        }
    }
}

/// A player position update; the coordinates are IEEE-754 double
/// bit patterns.
#[derive(Debug, Clone, Copy, PartialEq, Eq, Structural)]
pub struct PlayerPosition {
    pub x: u64,
    pub feet_y: u64,
    pub z: u64,
    pub on_ground: bool,
}

impl View for PlayerPosition {
    type V = PlayerPosition;

    open spec fn view(&self) -> PlayerPosition {
        *self
    }
}

impl DeepView for PlayerPosition {
    type V = PlayerPosition;

    open spec fn deep_view(&self) -> PlayerPosition {
        *self
    }
}

impl ProtocolWrite for PlayerPosition {
    open spec fn valid(&self) -> bool {
        true
    }

    open spec fn wire(&self) -> Seq<u8> {
        self.x.wire() + self.feet_y.wire() + self.z.wire() + self.on_ground.wire()
    }

    fn proto_len(&self) -> (n: usize) {
        self.x.proto_len() + self.feet_y.proto_len() + self.z.proto_len() + self.on_ground.proto_len()
    }

    fn proto_encode(&self, dst: &mut Vec<u8>) {
        self.x.proto_encode(dst);
        self.feet_y.proto_encode(dst);
        self.z.proto_encode(dst);
        self.on_ground.proto_encode(dst);
        assert(dst@ =~= old(dst)@ + self.wire());
    }
}

impl ProtocolRead for PlayerPosition {
    open spec fn dec(s: Seq<u8>) -> Result<(PlayerPosition, int), DecodeError> {
        match <(u64, (u64, (u64, bool)))>::dec(s) {
            Err(e) => Err(e),
            Ok(((x, (feet_y, (z, on_ground))), n)) => Ok((PlayerPosition { x: x, feet_y: feet_y, z: z, on_ground: on_ground }, n)),
        }
    }

    proof fn dec_sound(s: Seq<u8>) {
        <(u64, (u64, (u64, bool)))>::dec_sound(s);
    }

    proof fn dec_complete(v: Self, rest: Seq<u8>) {
        let t = (v.x, (v.feet_y, (v.z, v.on_ground)));
        assert(t.wire() =~= v.wire());
        <(u64, (u64, (u64, bool)))>::dec_complete(t, rest);
    }

    fn proto_decode(src: &[u8], pos: usize) -> (r: Result<(Self, usize), DecodeError>) {
        match <(u64, (u64, (u64, bool)))>::proto_decode(src, pos) {
            Err(e) => Err(e),
            Ok(((x, (feet_y, (z, on_ground))), end)) => {
                let p = PlayerPosition { x: x, feet_y: feet_y, z: z, on_ground: on_ground };
                proof {
                    assert(p.wire() =~= (p.x, (p.feet_y, (p.z, p.on_ground))).wire());
                }
                Ok((p, end))
            },
        }
    }
}

/// A combined position and look update; coordinates are IEEE-754
/// double bit patterns, angles single bit patterns.
#[derive(Debug, Clone, Copy, PartialEq, Eq, Structural)]
pub struct PlayerPositionAndRotation {
    pub x: u64,
    pub feet_y: u64,
    pub z: u64,
    pub yaw: u32,
    pub pitch: u32,
    pub on_ground: bool,
}

impl View for PlayerPositionAndRotation {
    type V = PlayerPositionAndRotation;

    open spec fn view(&self) -> PlayerPositionAndRotation {
        *self
    }
}

impl DeepView for PlayerPositionAndRotation {
    type V = PlayerPositionAndRotation;

    open spec fn deep_view(&self) -> PlayerPositionAndRotation {
        *self
    }
}

impl ProtocolWrite for PlayerPositionAndRotation {
    open spec fn valid(&self) -> bool {
        true
    }

    open spec fn wire(&self) -> Seq<u8> {
        self.x.wire() + self.feet_y.wire() + self.z.wire() + self.yaw.wire() + self.pitch.wire() + self.on_ground.wire()
    }

    fn proto_len(&self) -> (n: usize) {
        self.x.proto_len() + self.feet_y.proto_len() + self.z.proto_len() + self.yaw.proto_len() + self.pitch.proto_len() + self.on_ground.proto_len()
    }

    fn proto_encode(&self, dst: &mut Vec<u8>) {
        self.x.proto_encode(dst);
        self.feet_y.proto_encode(dst);
        self.z.proto_encode(dst);
        self.yaw.proto_encode(dst);
        self.pitch.proto_encode(dst);
        self.on_ground.proto_encode(dst);
        assert(dst@ =~= old(dst)@ + self.wire());
    }
}

impl ProtocolRead for PlayerPositionAndRotation {
    open spec fn dec(s: Seq<u8>) -> Result<(PlayerPositionAndRotation, int), DecodeError> {
        match <(u64, (u64, (u64, (u32, (u32, bool)))))>::dec(s) {
            Err(e) => Err(e),
            Ok(((x, (feet_y, (z, (yaw, (pitch, on_ground))))), n)) => Ok((PlayerPositionAndRotation { x: x, feet_y: feet_y, z: z, yaw: yaw, pitch: pitch, on_ground: on_ground }, n)),
        }
    }

    proof fn dec_sound(s: Seq<u8>) {
        <(u64, (u64, (u64, (u32, (u32, bool)))))>::dec_sound(s);
    }

    proof fn dec_complete(v: Self, rest: Seq<u8>) {
        let t = (v.x, (v.feet_y, (v.z, (v.yaw, (v.pitch, v.on_ground)))));
        assert(t.wire() =~= v.wire());
        <(u64, (u64, (u64, (u32, (u32, bool)))))>::dec_complete(t, rest);
    }

    fn proto_decode(src: &[u8], pos: usize) -> (r: Result<(Self, usize), DecodeError>) {
        match <(u64, (u64, (u64, (u32, (u32, bool)))))>::proto_decode(src, pos) {
            Err(e) => Err(e),
            Ok(((x, (feet_y, (z, (yaw, (pitch, on_ground))))), end)) => {
                let p = PlayerPositionAndRotation { x: x, feet_y: feet_y, z: z, yaw: yaw, pitch: pitch, on_ground: on_ground };
                proof {
                    assert(p.wire() =~= (p.x, (p.feet_y, (p.z, (p.yaw, (p.pitch, p.on_ground))))).wire());
                }
                Ok((p, end))
            },
        }
    }
}

/// A look update; the angles are IEEE-754 single bit patterns.
#[derive(Debug, Clone, Copy, PartialEq, Eq, Structural)]
pub struct PlayerRotation {
    pub yaw: u32,
    pub pitch: u32,
    pub on_ground: bool,
}

impl View for PlayerRotation {
    type V = PlayerRotation;

    open spec fn view(&self) -> PlayerRotation {
        *self
    }
}

impl DeepView for PlayerRotation {
    type V = PlayerRotation;

    open spec fn deep_view(&self) -> PlayerRotation {
        *self
    }
}

impl ProtocolWrite for PlayerRotation {
    open spec fn valid(&self) -> bool {
        true
    }

    open spec fn wire(&self) -> Seq<u8> {
        self.yaw.wire() + self.pitch.wire() + self.on_ground.wire()
    }

    fn proto_len(&self) -> (n: usize) {
        self.yaw.proto_len() + self.pitch.proto_len() + self.on_ground.proto_len()
    }

    fn proto_encode(&self, dst: &mut Vec<u8>) {
        self.yaw.proto_encode(dst);
        self.pitch.proto_encode(dst);
        self.on_ground.proto_encode(dst);
        assert(dst@ =~= old(dst)@ + self.wire());
    }
}

impl ProtocolRead for PlayerRotation {
    open spec fn dec(s: Seq<u8>) -> Result<(PlayerRotation, int), DecodeError> {
        match <(u32, (u32, bool))>::dec(s) {
            Err(e) => Err(e),
            Ok(((yaw, (pitch, on_ground)), n)) => Ok((PlayerRotation { yaw: yaw, pitch: pitch, on_ground: on_ground }, n)),
        }
    }

    proof fn dec_sound(s: Seq<u8>) {
        <(u32, (u32, bool))>::dec_sound(s);
    }

    proof fn dec_complete(v: Self, rest: Seq<u8>) {
        let t = (v.yaw, (v.pitch, v.on_ground));
        assert(t.wire() =~= v.wire());
        <(u32, (u32, bool))>::dec_complete(t, rest);
    }

    fn proto_decode(src: &[u8], pos: usize) -> (r: Result<(Self, usize), DecodeError>) {
        match <(u32, (u32, bool))>::proto_decode(src, pos) {
            Err(e) => Err(e),
            Ok(((yaw, (pitch, on_ground)), end)) => {
                let p = PlayerRotation { yaw: yaw, pitch: pitch, on_ground: on_ground };
                proof {
                    assert(p.wire() =~= (p.yaw, (p.pitch, p.on_ground)).wire());
                }
                Ok((p, end))
            },
        }
    }
}

/// The client's ability flags; the speeds are IEEE-754 single bit
/// patterns.
#[derive(Debug, Clone, Copy, PartialEq, Eq, Structural)]
pub struct PlayerAbilities {
    pub flags: u8,
    pub flying_speed: u32,
    pub walking_speed: u32,
}

impl View for PlayerAbilities {
    type V = PlayerAbilities;

    open spec fn view(&self) -> PlayerAbilities {
        *self
    }
}

impl DeepView for PlayerAbilities {
    type V = PlayerAbilities;

    open spec fn deep_view(&self) -> PlayerAbilities {
        *self
    }
}

impl ProtocolWrite for PlayerAbilities {
    open spec fn valid(&self) -> bool {
        true
    }

    open spec fn wire(&self) -> Seq<u8> {
        self.flags.wire() + self.flying_speed.wire() + self.walking_speed.wire()
    }

    fn proto_len(&self) -> (n: usize) {
        self.flags.proto_len() + self.flying_speed.proto_len() + self.walking_speed.proto_len()
    }

    fn proto_encode(&self, dst: &mut Vec<u8>) {
        self.flags.proto_encode(dst);
        self.flying_speed.proto_encode(dst);
        self.walking_speed.proto_encode(dst);
        assert(dst@ =~= old(dst)@ + self.wire());
    }
}

impl ProtocolRead for PlayerAbilities {
    open spec fn dec(s: Seq<u8>) -> Result<(PlayerAbilities, int), DecodeError> {
        match <(u8, (u32, u32))>::dec(s) {
            Err(e) => Err(e),
            Ok(((flags, (flying_speed, walking_speed)), n)) => Ok((PlayerAbilities { flags: flags, flying_speed: flying_speed, walking_speed: walking_speed }, n)),
        }
    }

    proof fn dec_sound(s: Seq<u8>) {
        <(u8, (u32, u32))>::dec_sound(s);
    }

    proof fn dec_complete(v: Self, rest: Seq<u8>) {
        let t = (v.flags, (v.flying_speed, v.walking_speed));
        assert(t.wire() =~= v.wire());
        <(u8, (u32, u32))>::dec_complete(t, rest);
    }

    fn proto_decode(src: &[u8], pos: usize) -> (r: Result<(Self, usize), DecodeError>) {
        match <(u8, (u32, u32))>::proto_decode(src, pos) {
            Err(e) => Err(e),
            Ok(((flags, (flying_speed, walking_speed)), end)) => {
                let p = PlayerAbilities { flags: flags, flying_speed: flying_speed, walking_speed: walking_speed };
                proof {
                    assert(p.wire() =~= (p.flags, (p.flying_speed, p.walking_speed)).wire());
                }
                Ok((p, end))
            },
        }
    }
}

/// A digging action at a block.
#[derive(Debug, Clone, Copy, PartialEq, Eq, Structural)]
pub struct PlayerDigging {
    pub status: DiggingStatus,
    pub location: Position,
    pub face: BlockFaceU8,
}

impl View for PlayerDigging {
    type V = PlayerDigging;

    open spec fn view(&self) -> PlayerDigging {
        *self
    }
}

impl DeepView for PlayerDigging {
    type V = PlayerDigging;

    open spec fn deep_view(&self) -> PlayerDigging {
        *self
    }
}

impl ProtocolWrite for PlayerDigging {
    open spec fn valid(&self) -> bool {
        self.location.valid()
    }

    open spec fn wire(&self) -> Seq<u8> {
        self.status.wire() + self.location.wire() + self.face.wire()
    }

    fn proto_len(&self) -> (n: usize) {
        self.status.proto_len() + self.location.proto_len() + self.face.proto_len()
    }

    fn proto_encode(&self, dst: &mut Vec<u8>) {
        self.status.proto_encode(dst);
        self.location.proto_encode(dst);
        self.face.proto_encode(dst);
        assert(dst@ =~= old(dst)@ + self.wire());
    }
}

impl ProtocolRead for PlayerDigging {
    open spec fn dec(s: Seq<u8>) -> Result<(PlayerDigging, int), DecodeError> {
        match <(DiggingStatus, (Position, BlockFaceU8))>::dec(s) {
            Err(e) => Err(e),
            Ok(((status, (location, face)), n)) => Ok((PlayerDigging { status: status, location: location, face: face }, n)),
        }
    }

    proof fn dec_sound(s: Seq<u8>) {
        <(DiggingStatus, (Position, BlockFaceU8))>::dec_sound(s);
    }

    proof fn dec_complete(v: Self, rest: Seq<u8>) {
        let t = (v.status, (v.location, v.face));
        assert(t.wire() =~= v.wire());
        <(DiggingStatus, (Position, BlockFaceU8))>::dec_complete(t, rest);
    }

    fn proto_decode(src: &[u8], pos: usize) -> (r: Result<(Self, usize), DecodeError>) {
        match <(DiggingStatus, (Position, BlockFaceU8))>::proto_decode(src, pos) {
            Err(e) => Err(e),
            Ok(((status, (location, face)), end)) => {
                let p = PlayerDigging { status: status, location: location, face: face };
                proof {
                    assert(p.wire() =~= (p.status, (p.location, p.face)).wire());
                }
                Ok((p, end))
            },
        }
    }
}

/// An entity state change (sneak, sprint, and the like).
#[derive(Debug, Clone, Copy, PartialEq, Eq, Structural)]
pub struct EntityAction {
    pub entity_id: Var<i32>,
    pub action_id: Var<i32>,
    pub jump_boost: Var<i32>,
}

impl View for EntityAction {
    type V = EntityAction;

    open spec fn view(&self) -> EntityAction {
        *self
    }
}

impl DeepView for EntityAction {
    type V = EntityAction;

    open spec fn deep_view(&self) -> EntityAction {
        *self
    }
}

impl ProtocolWrite for EntityAction {
    open spec fn valid(&self) -> bool {
        true
    }

    open spec fn wire(&self) -> Seq<u8> {
        self.entity_id.wire() + self.action_id.wire() + self.jump_boost.wire()
    }

    fn proto_len(&self) -> (n: usize) {
        self.entity_id.proto_len() + self.action_id.proto_len() + self.jump_boost.proto_len()
    }

    fn proto_encode(&self, dst: &mut Vec<u8>) {
        self.entity_id.proto_encode(dst);
        self.action_id.proto_encode(dst);
        self.jump_boost.proto_encode(dst);
        assert(dst@ =~= old(dst)@ + self.wire());
    }
}

impl ProtocolRead for EntityAction {
    open spec fn dec(s: Seq<u8>) -> Result<(EntityAction, int), DecodeError> {
        match <(Var<i32>, (Var<i32>, Var<i32>))>::dec(s) {
            Err(e) => Err(e),
            Ok(((entity_id, (action_id, jump_boost)), n)) => Ok((EntityAction { entity_id: entity_id, action_id: action_id, jump_boost: jump_boost }, n)),
        }
    }

    proof fn dec_sound(s: Seq<u8>) {
        <(Var<i32>, (Var<i32>, Var<i32>))>::dec_sound(s);
    }

    proof fn dec_complete(v: Self, rest: Seq<u8>) {
        let t = (v.entity_id, (v.action_id, v.jump_boost));
        assert(t.wire() =~= v.wire());
        <(Var<i32>, (Var<i32>, Var<i32>))>::dec_complete(t, rest);
    }

    fn proto_decode(src: &[u8], pos: usize) -> (r: Result<(Self, usize), DecodeError>) {
        match <(Var<i32>, (Var<i32>, Var<i32>))>::proto_decode(src, pos) {
            Err(e) => Err(e),
            Ok(((entity_id, (action_id, jump_boost)), end)) => {
                let p = EntityAction { entity_id: entity_id, action_id: action_id, jump_boost: jump_boost };
                proof {
                    assert(p.wire() =~= (p.entity_id, (p.action_id, p.jump_boost)).wire());
                }
                Ok((p, end))
            },
        }
    }
}

/// The client selects a hotbar slot.
#[derive(Debug, Clone, Copy, PartialEq, Eq, Structural)]
pub struct HeldItemChange {
    pub slot: i16,
}

impl View for HeldItemChange {
    type V = HeldItemChange;

    open spec fn view(&self) -> HeldItemChange {
        *self
    }
}

impl DeepView for HeldItemChange {
    type V = HeldItemChange;

    open spec fn deep_view(&self) -> HeldItemChange {
        *self
    }
}

impl ProtocolWrite for HeldItemChange {
    open spec fn valid(&self) -> bool {
        true
    }

    open spec fn wire(&self) -> Seq<u8> {
        self.slot.wire()
    }

    fn proto_len(&self) -> (n: usize) {
        self.slot.proto_len()
    }

    fn proto_encode(&self, dst: &mut Vec<u8>) {
        self.slot.proto_encode(dst);
        assert(dst@ =~= old(dst)@ + self.wire());
    }
}

impl ProtocolRead for HeldItemChange {
    open spec fn dec(s: Seq<u8>) -> Result<(HeldItemChange, int), DecodeError> {
        match <i16>::dec(s) {
            Err(e) => Err(e),
            Ok((slot, n)) => Ok((HeldItemChange { slot: slot }, n)),
        }
    }

    proof fn dec_sound(s: Seq<u8>) {
        <i16>::dec_sound(s);
    }

    proof fn dec_complete(v: Self, rest: Seq<u8>) {
        let t = v.slot;
        assert(t.wire() =~= v.wire());
        <i16>::dec_complete(t, rest);
    }

    fn proto_decode(src: &[u8], pos: usize) -> (r: Result<(Self, usize), DecodeError>) {
        match <i16>::proto_decode(src, pos) {
            Err(e) => Err(e),
            Ok((slot, end)) => {
                let p = HeldItemChange { slot: slot };
                proof {
                    assert(p.wire() =~= p.slot.wire());
                }
                Ok((p, end))
            },
        }
    }
}

/// A block placement; the cursor point components are IEEE-754
/// single bit patterns.
#[derive(Debug, Clone, Copy, PartialEq, Eq, Structural)]
pub struct PlayerBlockPlacement {
    pub hand: Var<i32>,
    pub location: Position,
    pub face: BlockFace,
    pub cursor_point_x: u32,
    pub cursor_point_y: u32,
    pub cursor_point_z: u32,
    pub inside_block: bool,
}

impl View for PlayerBlockPlacement {
    type V = PlayerBlockPlacement;

    open spec fn view(&self) -> PlayerBlockPlacement {
        *self
    }
}

impl DeepView for PlayerBlockPlacement {
    type V = PlayerBlockPlacement;

    open spec fn deep_view(&self) -> PlayerBlockPlacement {
        *self
    }
}

impl ProtocolWrite for PlayerBlockPlacement {
    open spec fn valid(&self) -> bool {
        self.location.valid()
    }

    open spec fn wire(&self) -> Seq<u8> {
        self.hand.wire() + self.location.wire() + self.face.wire() + self.cursor_point_x.wire() + self.cursor_point_y.wire() + self.cursor_point_z.wire() + self.inside_block.wire()
    }

    fn proto_len(&self) -> (n: usize) {
        self.hand.proto_len() + self.location.proto_len() + self.face.proto_len() + self.cursor_point_x.proto_len() + self.cursor_point_y.proto_len() + self.cursor_point_z.proto_len() + self.inside_block.proto_len()
    }

    fn proto_encode(&self, dst: &mut Vec<u8>) {
        self.hand.proto_encode(dst);
        self.location.proto_encode(dst);
        self.face.proto_encode(dst);
        self.cursor_point_x.proto_encode(dst);
        self.cursor_point_y.proto_encode(dst);
        self.cursor_point_z.proto_encode(dst);
        self.inside_block.proto_encode(dst);
        assert(dst@ =~= old(dst)@ + self.wire());
    }
}

impl ProtocolRead for PlayerBlockPlacement {
    open spec fn dec(s: Seq<u8>) -> Result<(PlayerBlockPlacement, int), DecodeError> {
        match <(Var<i32>, (Position, (BlockFace, (u32, (u32, (u32, bool))))))>::dec(s) {
            Err(e) => Err(e),
            Ok(((hand, (location, (face, (cursor_point_x, (cursor_point_y, (cursor_point_z, inside_block)))))), n)) => Ok((PlayerBlockPlacement { hand: hand, location: location, face: face, cursor_point_x: cursor_point_x, cursor_point_y: cursor_point_y, cursor_point_z: cursor_point_z, inside_block: inside_block }, n)),
        }
    }

    proof fn dec_sound(s: Seq<u8>) {
        <(Var<i32>, (Position, (BlockFace, (u32, (u32, (u32, bool))))))>::dec_sound(s);
    }

    #[verifier::rlimit(100)]
    #[verifier::spinoff_prover]
    proof fn dec_complete(v: Self, rest: Seq<u8>) {
        let t = (v.hand, (v.location, (v.face, (v.cursor_point_x, (v.cursor_point_y, (v.cursor_point_z, v.inside_block))))));
        assert(t.wire() =~= v.wire());
        <(Var<i32>, (Position, (BlockFace, (u32, (u32, (u32, bool))))))>::dec_complete(t, rest);
    }

    fn proto_decode(src: &[u8], pos: usize) -> (r: Result<(Self, usize), DecodeError>) {
        match <(Var<i32>, (Position, (BlockFace, (u32, (u32, (u32, bool))))))>::proto_decode(src, pos) {
            Err(e) => Err(e),
            Ok(((hand, (location, (face, (cursor_point_x, (cursor_point_y, (cursor_point_z, inside_block)))))), end)) => {
                let p = PlayerBlockPlacement { hand: hand, location: location, face: face, cursor_point_x: cursor_point_x, cursor_point_y: cursor_point_y, cursor_point_z: cursor_point_z, inside_block: inside_block };
                proof {
                    assert(p.wire() =~= (p.hand, (p.location, (p.face, (p.cursor_point_x, (p.cursor_point_y, (p.cursor_point_z, p.inside_block)))))).wire());
                }
                Ok((p, end))
            },
        }
    }
}


/// A creative-mode inventory edit: the slot number and what was placed
/// there.
#[derive(Debug, Clone)]
pub struct CreativeInventoryAction {
    pub slot: i16,
    pub clicked_item: Option<Slot>,
}

/// The mathematical model of a `CreativeInventoryAction`.
pub struct CreativeInventoryActionView {
    pub slot: i16,
    pub clicked_item: Option<SlotView>,
}

impl DeepView for CreativeInventoryAction {
    type V = CreativeInventoryActionView;

    open spec fn deep_view(&self) -> CreativeInventoryActionView {
        CreativeInventoryActionView {
            slot: self.slot,
            clicked_item: match self.clicked_item {
                Some(it) => Some(it.deep_view()),
                None => None,
            },
        }
    }
}

impl ProtocolWrite for CreativeInventoryAction {
    open spec fn valid(&self) -> bool {
        match self.clicked_item {
            Some(it) => it.valid(),
            None => true,
        }
    }

    open spec fn wire(&self) -> Seq<u8> {
        self.slot.wire() + (match self.clicked_item {
            Some(it) => seq![1u8] + it.wire(),
            None => seq![0u8],
        })
    }

    fn proto_len(&self) -> (n: usize) {
        match &self.clicked_item {
            Some(it) => 3 + it.proto_len(),
            None => 3,
        }
    }

    fn proto_encode(&self, dst: &mut Vec<u8>) {
        self.slot.proto_encode(dst);
        match &self.clicked_item {
            Some(it) => {
                dst.push(1u8);
                it.proto_encode(dst);
            },
            None => {
                dst.push(0u8);
            },
        }
        assert(dst@ =~= old(dst)@ + self.wire());
    }
}

impl ProtocolRead for CreativeInventoryAction {
    open spec fn dec(s: Seq<u8>) -> Result<(CreativeInventoryActionView, int), DecodeError> {
        match <(i16, bool)>::dec(s) {
            Err(e) => Err(e),
            Ok(((sl, b), n)) => if !b {
                Ok((CreativeInventoryActionView { slot: sl, clicked_item: None }, n))
            } else {
                match Slot::dec(s.skip(n)) {
                    Err(e) => Err(e),
                    Ok((it, m)) => Ok(
                        (CreativeInventoryActionView { slot: sl, clicked_item: Some(it) }, n + m),
                    ),
                }
            },
        }
    }

    proof fn dec_sound(s: Seq<u8>) {
        <(i16, bool)>::dec_sound(s);
        match <(i16, bool)>::dec(s) {
            Err(_) => {},
            Ok(((sl, b), n)) => {
                Slot::dec_sound(s.skip(n));
            },
        }
    }

    proof fn dec_complete(v: Self, rest: Seq<u8>) {
        let s = v.wire() + rest;
        match v.clicked_item {
            None => {
                let t = (v.slot, false);
                assert(t.wire() =~= v.slot.wire() + seq![0u8]);
                assert(s =~= t.wire() + rest);
                <(i16, bool)>::dec_complete(t, rest);
            },
            Some(it) => {
                let t = (v.slot, true);
                assert(t.wire() =~= v.slot.wire() + seq![1u8]);
                assert(s =~= t.wire() + (it.wire() + rest));
                <(i16, bool)>::dec_complete(t, it.wire() + rest);
                assert(s.skip(t.wire().len() as int) =~= it.wire() + rest);
                Slot::dec_complete(it, rest);
            },
        }
    }

    fn proto_decode(src: &[u8], pos: usize) -> (r: Result<(Self, usize), DecodeError>) {
        let ghost s = src@.skip(pos as int);
        match <(i16, bool)>::proto_decode(src, pos) {
            Err(e) => Err(e),
            Ok(((sl, b), p1)) => {
                proof {
                    lemma_skip_skip(src@, pos as int, p1 - pos);
                }
                if !b {
                    Ok((CreativeInventoryAction { slot: sl, clicked_item: None }, p1))
                } else {
                    match Slot::proto_decode(src, p1) {
                        Err(e) => Err(e),
                        Ok((it, end)) => Ok(
                            (CreativeInventoryAction { slot: sl, clicked_item: Some(it) }, end),
                        ),
                    }
                }
            },
        }
    }
}

/// The play-phase serverbound packet table.
#[derive(Debug, Clone)]
pub enum PlayPacket {
    TeleportConfirm(TeleportConfirm),
    ClientSettings(ClientSettings),
    KeepAlive(KeepAlive),
    PlayerPosition(PlayerPosition),
    PlayerPositionAndRotation(PlayerPositionAndRotation),
    PlayerRotation(PlayerRotation),
    PlayerAbilities(PlayerAbilities),
    PlayerDigging(PlayerDigging),
    EntityAction(EntityAction),
    HeldItemChange(HeldItemChange),
    CreativeInventoryAction(CreativeInventoryAction),
    PlayerBlockPlacement(PlayerBlockPlacement),
}

/// The mathematical model of a `PlayPacket`.
pub enum PlayPacketView {
    TeleportConfirm(TeleportConfirm),
    ClientSettings(ClientSettingsView),
    KeepAlive(KeepAlive),
    PlayerPosition(PlayerPosition),
    PlayerPositionAndRotation(PlayerPositionAndRotation),
    PlayerRotation(PlayerRotation),
    PlayerAbilities(PlayerAbilities),
    PlayerDigging(PlayerDigging),
    EntityAction(EntityAction),
    HeldItemChange(HeldItemChange),
    CreativeInventoryAction(CreativeInventoryActionView),
    PlayerBlockPlacement(PlayerBlockPlacement),
}

impl DeepView for PlayPacket {
    type V = PlayPacketView;

    open spec fn deep_view(&self) -> PlayPacketView {
        match self {
            PlayPacket::TeleportConfirm(p) => PlayPacketView::TeleportConfirm(p.deep_view()),
            PlayPacket::ClientSettings(p) => PlayPacketView::ClientSettings(p.deep_view()),
            PlayPacket::KeepAlive(p) => PlayPacketView::KeepAlive(p.deep_view()),
            PlayPacket::PlayerPosition(p) => PlayPacketView::PlayerPosition(p.deep_view()),
            PlayPacket::PlayerPositionAndRotation(p) => PlayPacketView::PlayerPositionAndRotation(p.deep_view()),
            PlayPacket::PlayerRotation(p) => PlayPacketView::PlayerRotation(p.deep_view()),
            PlayPacket::PlayerAbilities(p) => PlayPacketView::PlayerAbilities(p.deep_view()),
            PlayPacket::PlayerDigging(p) => PlayPacketView::PlayerDigging(p.deep_view()),
            PlayPacket::EntityAction(p) => PlayPacketView::EntityAction(p.deep_view()),
            PlayPacket::HeldItemChange(p) => PlayPacketView::HeldItemChange(p.deep_view()),
            PlayPacket::CreativeInventoryAction(p) => PlayPacketView::CreativeInventoryAction(p.deep_view()),
            PlayPacket::PlayerBlockPlacement(p) => PlayPacketView::PlayerBlockPlacement(p.deep_view()),
        }
    }
}

impl ProtocolWrite for PlayPacket {
    open spec fn valid(&self) -> bool {
        match self {
            PlayPacket::TeleportConfirm(p) => p.valid(),
            PlayPacket::ClientSettings(p) => p.valid(),
            PlayPacket::KeepAlive(p) => p.valid(),
            PlayPacket::PlayerPosition(p) => p.valid(),
            PlayPacket::PlayerPositionAndRotation(p) => p.valid(),
            PlayPacket::PlayerRotation(p) => p.valid(),
            PlayPacket::PlayerAbilities(p) => p.valid(),
            PlayPacket::PlayerDigging(p) => p.valid(),
            PlayPacket::EntityAction(p) => p.valid(),
            PlayPacket::HeldItemChange(p) => p.valid(),
            PlayPacket::CreativeInventoryAction(p) => p.valid(),
            PlayPacket::PlayerBlockPlacement(p) => p.valid(),
        }
    }

    open spec fn wire(&self) -> Seq<u8> {
        match self {
            PlayPacket::TeleportConfirm(p) => Var(0x00i32).wire() + p.wire(),
            PlayPacket::ClientSettings(p) => Var(0x05i32).wire() + p.wire(),
            PlayPacket::KeepAlive(p) => Var(0x0fi32).wire() + p.wire(),
            PlayPacket::PlayerPosition(p) => Var(0x11i32).wire() + p.wire(),
            PlayPacket::PlayerPositionAndRotation(p) => Var(0x12i32).wire() + p.wire(),
            PlayPacket::PlayerRotation(p) => Var(0x13i32).wire() + p.wire(),
            PlayPacket::PlayerAbilities(p) => Var(0x19i32).wire() + p.wire(),
            PlayPacket::PlayerDigging(p) => Var(0x1ai32).wire() + p.wire(),
            PlayPacket::EntityAction(p) => Var(0x1bi32).wire() + p.wire(),
            PlayPacket::HeldItemChange(p) => Var(0x23i32).wire() + p.wire(),
            PlayPacket::CreativeInventoryAction(p) => Var(0x26i32).wire() + p.wire(),
            PlayPacket::PlayerBlockPlacement(p) => Var(0x2ci32).wire() + p.wire(),
        }
    }

    fn proto_len(&self) -> (n: usize) {
        match self {
            PlayPacket::TeleportConfirm(p) => {
                assert(Var(0x00i32).wire() =~= seq![0x00u8]);
                1 + p.proto_len()
            },
            PlayPacket::ClientSettings(p) => {
                assert(Var(0x05i32).wire() =~= seq![0x05u8]);
                1 + p.proto_len()
            },
            PlayPacket::KeepAlive(p) => {
                assert(Var(0x0fi32).wire() =~= seq![0x0fu8]);
                1 + p.proto_len()
            },
            PlayPacket::PlayerPosition(p) => {
                assert(Var(0x11i32).wire() =~= seq![0x11u8]);
                1 + p.proto_len()
            },
            PlayPacket::PlayerPositionAndRotation(p) => {
                assert(Var(0x12i32).wire() =~= seq![0x12u8]);
                1 + p.proto_len()
            },
            PlayPacket::PlayerRotation(p) => {
                assert(Var(0x13i32).wire() =~= seq![0x13u8]);
                1 + p.proto_len()
            },
            PlayPacket::PlayerAbilities(p) => {
                assert(Var(0x19i32).wire() =~= seq![0x19u8]);
                1 + p.proto_len()
            },
            PlayPacket::PlayerDigging(p) => {
                assert(Var(0x1ai32).wire() =~= seq![0x1au8]);
                1 + p.proto_len()
            },
            PlayPacket::EntityAction(p) => {
                assert(Var(0x1bi32).wire() =~= seq![0x1bu8]);
                1 + p.proto_len()
            },
            PlayPacket::HeldItemChange(p) => {
                assert(Var(0x23i32).wire() =~= seq![0x23u8]);
                1 + p.proto_len()
            },
            PlayPacket::CreativeInventoryAction(p) => {
                assert(Var(0x26i32).wire() =~= seq![0x26u8]);
                1 + p.proto_len()
            },
            PlayPacket::PlayerBlockPlacement(p) => {
                assert(Var(0x2ci32).wire() =~= seq![0x2cu8]);
                1 + p.proto_len()
            },
        }
    }

    fn proto_encode(&self, dst: &mut Vec<u8>) {
        match self {
            PlayPacket::TeleportConfirm(p) => {
                assert(Var(0x00i32).wire() =~= seq![0x00u8]);
                dst.push(0x00u8);
                p.proto_encode(dst);
            },
            PlayPacket::ClientSettings(p) => {
                assert(Var(0x05i32).wire() =~= seq![0x05u8]);
                dst.push(0x05u8);
                p.proto_encode(dst);
            },
            PlayPacket::KeepAlive(p) => {
                assert(Var(0x0fi32).wire() =~= seq![0x0fu8]);
                dst.push(0x0fu8);
                p.proto_encode(dst);
            },
            PlayPacket::PlayerPosition(p) => {
                assert(Var(0x11i32).wire() =~= seq![0x11u8]);
                dst.push(0x11u8);
                p.proto_encode(dst);
            },
            PlayPacket::PlayerPositionAndRotation(p) => {
                assert(Var(0x12i32).wire() =~= seq![0x12u8]);
                dst.push(0x12u8);
                p.proto_encode(dst);
            },
            PlayPacket::PlayerRotation(p) => {
                assert(Var(0x13i32).wire() =~= seq![0x13u8]);
                dst.push(0x13u8);
                p.proto_encode(dst);
            },
            PlayPacket::PlayerAbilities(p) => {
                assert(Var(0x19i32).wire() =~= seq![0x19u8]);
                dst.push(0x19u8);
                p.proto_encode(dst);
            },
            PlayPacket::PlayerDigging(p) => {
                assert(Var(0x1ai32).wire() =~= seq![0x1au8]);
                dst.push(0x1au8);
                p.proto_encode(dst);
            },
            PlayPacket::EntityAction(p) => {
                assert(Var(0x1bi32).wire() =~= seq![0x1bu8]);
                dst.push(0x1bu8);
                p.proto_encode(dst);
            },
            PlayPacket::HeldItemChange(p) => {
                assert(Var(0x23i32).wire() =~= seq![0x23u8]);
                dst.push(0x23u8);
                p.proto_encode(dst);
            },
            PlayPacket::CreativeInventoryAction(p) => {
                assert(Var(0x26i32).wire() =~= seq![0x26u8]);
                dst.push(0x26u8);
                p.proto_encode(dst);
            },
            PlayPacket::PlayerBlockPlacement(p) => {
                assert(Var(0x2ci32).wire() =~= seq![0x2cu8]);
                dst.push(0x2cu8);
                p.proto_encode(dst);
            },
        }
        assert(dst@ =~= old(dst)@ + self.wire());
    }
}


/// The round trip for one play-packet arm.
#[verifier::rlimit(100)]
#[verifier::spinoff_prover]
proof fn lemma_play_complete_teleportconfirm(p: TeleportConfirm, rest: Seq<u8>)
    requires
        p.valid(),
    ensures
        PlayPacket::dec(PlayPacket::TeleportConfirm(p).wire() + rest) == Ok::<
            (PlayPacketView, int),
            DecodeError,
        >(
            (
                PlayPacketView::TeleportConfirm(p.deep_view()),
                PlayPacket::TeleportConfirm(p).wire().len() as int,
            ),
        ),
{
    let v = PlayPacket::TeleportConfirm(p);
    let s = v.wire() + rest;
    assert(s =~= Var(0x00i32).wire() + (p.wire() + rest));
    Var::<i32>::dec_complete(Var(0x00i32), p.wire() + rest);
    assert(s.skip(Var(0x00i32).wire().len() as int) =~= p.wire() + rest);
    TeleportConfirm::dec_complete(p, rest);
}


/// The round trip for one play-packet arm.
#[verifier::rlimit(100)]
#[verifier::spinoff_prover]
proof fn lemma_play_complete_clientsettings(p: ClientSettings, rest: Seq<u8>)
    requires
        p.valid(),
    ensures
        PlayPacket::dec(PlayPacket::ClientSettings(p).wire() + rest) == Ok::<
            (PlayPacketView, int),
            DecodeError,
        >(
            (
                PlayPacketView::ClientSettings(p.deep_view()),
                PlayPacket::ClientSettings(p).wire().len() as int,
            ),
        ),
{
    let v = PlayPacket::ClientSettings(p);
    let s = v.wire() + rest;
    assert(s =~= Var(0x05i32).wire() + (p.wire() + rest));
    Var::<i32>::dec_complete(Var(0x05i32), p.wire() + rest);
    assert(s.skip(Var(0x05i32).wire().len() as int) =~= p.wire() + rest);
    ClientSettings::dec_complete(p, rest);
}


/// The round trip for one play-packet arm.
#[verifier::rlimit(100)]
#[verifier::spinoff_prover]
proof fn lemma_play_complete_keepalive(p: KeepAlive, rest: Seq<u8>)
    requires
        p.valid(),
    ensures
        PlayPacket::dec(PlayPacket::KeepAlive(p).wire() + rest) == Ok::<
            (PlayPacketView, int),
            DecodeError,
        >(
            (
                PlayPacketView::KeepAlive(p.deep_view()),
                PlayPacket::KeepAlive(p).wire().len() as int,
            ),
        ),
{
    let v = PlayPacket::KeepAlive(p);
    let s = v.wire() + rest;
    assert(s =~= Var(0x0fi32).wire() + (p.wire() + rest));
    Var::<i32>::dec_complete(Var(0x0fi32), p.wire() + rest);
    assert(s.skip(Var(0x0fi32).wire().len() as int) =~= p.wire() + rest);
    KeepAlive::dec_complete(p, rest);
}


/// The round trip for one play-packet arm.
#[verifier::rlimit(100)]
#[verifier::spinoff_prover]
proof fn lemma_play_complete_playerposition(p: PlayerPosition, rest: Seq<u8>)
    requires
        p.valid(),
    ensures
        PlayPacket::dec(PlayPacket::PlayerPosition(p).wire() + rest) == Ok::<
            (PlayPacketView, int),
            DecodeError,
        >(
            (
                PlayPacketView::PlayerPosition(p.deep_view()),
                PlayPacket::PlayerPosition(p).wire().len() as int,
            ),
        ),
{
    let v = PlayPacket::PlayerPosition(p);
    let s = v.wire() + rest;
    assert(s =~= Var(0x11i32).wire() + (p.wire() + rest));
    Var::<i32>::dec_complete(Var(0x11i32), p.wire() + rest);
    assert(s.skip(Var(0x11i32).wire().len() as int) =~= p.wire() + rest);
    PlayerPosition::dec_complete(p, rest);
}


/// The round trip for one play-packet arm.
#[verifier::rlimit(100)]
#[verifier::spinoff_prover]
proof fn lemma_play_complete_playerpositionandrotation(p: PlayerPositionAndRotation, rest: Seq<u8>)
    requires
        p.valid(),
    ensures
        PlayPacket::dec(PlayPacket::PlayerPositionAndRotation(p).wire() + rest) == Ok::<
            (PlayPacketView, int),
            DecodeError,
        >(
            (
                PlayPacketView::PlayerPositionAndRotation(p.deep_view()),
                PlayPacket::PlayerPositionAndRotation(p).wire().len() as int,
            ),
        ),
{
    let v = PlayPacket::PlayerPositionAndRotation(p);
    let s = v.wire() + rest;
    assert(s =~= Var(0x12i32).wire() + (p.wire() + rest));
    Var::<i32>::dec_complete(Var(0x12i32), p.wire() + rest);
    assert(s.skip(Var(0x12i32).wire().len() as int) =~= p.wire() + rest);
    PlayerPositionAndRotation::dec_complete(p, rest);
}


/// The round trip for one play-packet arm.
#[verifier::rlimit(100)]
#[verifier::spinoff_prover]
proof fn lemma_play_complete_playerrotation(p: PlayerRotation, rest: Seq<u8>)
    requires
        p.valid(),
    ensures
        PlayPacket::dec(PlayPacket::PlayerRotation(p).wire() + rest) == Ok::<
            (PlayPacketView, int),
            DecodeError,
        >(
            (
                PlayPacketView::PlayerRotation(p.deep_view()),
                PlayPacket::PlayerRotation(p).wire().len() as int,
            ),
        ),
{
    let v = PlayPacket::PlayerRotation(p);
    let s = v.wire() + rest;
    assert(s =~= Var(0x13i32).wire() + (p.wire() + rest));
    Var::<i32>::dec_complete(Var(0x13i32), p.wire() + rest);
    assert(s.skip(Var(0x13i32).wire().len() as int) =~= p.wire() + rest);
    PlayerRotation::dec_complete(p, rest);
}


/// The round trip for one play-packet arm.
#[verifier::rlimit(100)]
#[verifier::spinoff_prover]
proof fn lemma_play_complete_playerabilities(p: PlayerAbilities, rest: Seq<u8>)
    requires
        p.valid(),
    ensures
        PlayPacket::dec(PlayPacket::PlayerAbilities(p).wire() + rest) == Ok::<
            (PlayPacketView, int),
            DecodeError,
        >(
            (
                PlayPacketView::PlayerAbilities(p.deep_view()),
                PlayPacket::PlayerAbilities(p).wire().len() as int,
            ),
        ),
{
    let v = PlayPacket::PlayerAbilities(p);
    let s = v.wire() + rest;
    assert(s =~= Var(0x19i32).wire() + (p.wire() + rest));
    Var::<i32>::dec_complete(Var(0x19i32), p.wire() + rest);
    assert(s.skip(Var(0x19i32).wire().len() as int) =~= p.wire() + rest);
    PlayerAbilities::dec_complete(p, rest);
}


/// The round trip for one play-packet arm.
#[verifier::rlimit(100)]
#[verifier::spinoff_prover]
proof fn lemma_play_complete_playerdigging(p: PlayerDigging, rest: Seq<u8>)
    requires
        p.valid(),
    ensures
        PlayPacket::dec(PlayPacket::PlayerDigging(p).wire() + rest) == Ok::<
            (PlayPacketView, int),
            DecodeError,
        >(
            (
                PlayPacketView::PlayerDigging(p.deep_view()),
                PlayPacket::PlayerDigging(p).wire().len() as int,
            ),
        ),
{
    let v = PlayPacket::PlayerDigging(p);
    let s = v.wire() + rest;
    assert(s =~= Var(0x1ai32).wire() + (p.wire() + rest));
    Var::<i32>::dec_complete(Var(0x1ai32), p.wire() + rest);
    assert(s.skip(Var(0x1ai32).wire().len() as int) =~= p.wire() + rest);
    PlayerDigging::dec_complete(p, rest);
}


/// The round trip for one play-packet arm.
#[verifier::rlimit(100)]
#[verifier::spinoff_prover]
proof fn lemma_play_complete_entityaction(p: EntityAction, rest: Seq<u8>)
    requires
        p.valid(),
    ensures
        PlayPacket::dec(PlayPacket::EntityAction(p).wire() + rest) == Ok::<
            (PlayPacketView, int),
            DecodeError,
        >(
            (
                PlayPacketView::EntityAction(p.deep_view()),
                PlayPacket::EntityAction(p).wire().len() as int,
            ),
        ),
{
    let v = PlayPacket::EntityAction(p);
    let s = v.wire() + rest;
    assert(s =~= Var(0x1bi32).wire() + (p.wire() + rest));
    Var::<i32>::dec_complete(Var(0x1bi32), p.wire() + rest);
    assert(s.skip(Var(0x1bi32).wire().len() as int) =~= p.wire() + rest);
    EntityAction::dec_complete(p, rest);
}


/// The round trip for one play-packet arm.
#[verifier::rlimit(100)]
#[verifier::spinoff_prover]
proof fn lemma_play_complete_helditemchange(p: HeldItemChange, rest: Seq<u8>)
    requires
        p.valid(),
    ensures
        PlayPacket::dec(PlayPacket::HeldItemChange(p).wire() + rest) == Ok::<
            (PlayPacketView, int),
            DecodeError,
        >(
            (
                PlayPacketView::HeldItemChange(p.deep_view()),
                PlayPacket::HeldItemChange(p).wire().len() as int,
            ),
        ),
{
    let v = PlayPacket::HeldItemChange(p);
    let s = v.wire() + rest;
    assert(s =~= Var(0x23i32).wire() + (p.wire() + rest));
    Var::<i32>::dec_complete(Var(0x23i32), p.wire() + rest);
    assert(s.skip(Var(0x23i32).wire().len() as int) =~= p.wire() + rest);
    HeldItemChange::dec_complete(p, rest);
}


/// The round trip for one play-packet arm.
#[verifier::rlimit(100)]
#[verifier::spinoff_prover]
proof fn lemma_play_complete_creativeinventoryaction(p: CreativeInventoryAction, rest: Seq<u8>)
    requires
        p.valid(),
    ensures
        PlayPacket::dec(PlayPacket::CreativeInventoryAction(p).wire() + rest) == Ok::<
            (PlayPacketView, int),
            DecodeError,
        >(
            (
                PlayPacketView::CreativeInventoryAction(p.deep_view()),
                PlayPacket::CreativeInventoryAction(p).wire().len() as int,
            ),
        ),
{
    let v = PlayPacket::CreativeInventoryAction(p);
    let s = v.wire() + rest;
    assert(s =~= Var(0x26i32).wire() + (p.wire() + rest));
    Var::<i32>::dec_complete(Var(0x26i32), p.wire() + rest);
    assert(s.skip(Var(0x26i32).wire().len() as int) =~= p.wire() + rest);
    CreativeInventoryAction::dec_complete(p, rest);
}


/// The round trip for one play-packet arm.
#[verifier::rlimit(100)]
#[verifier::spinoff_prover]
proof fn lemma_play_complete_playerblockplacement(p: PlayerBlockPlacement, rest: Seq<u8>)
    requires
        p.valid(),
    ensures
        PlayPacket::dec(PlayPacket::PlayerBlockPlacement(p).wire() + rest) == Ok::<
            (PlayPacketView, int),
            DecodeError,
        >(
            (
                PlayPacketView::PlayerBlockPlacement(p.deep_view()),
                PlayPacket::PlayerBlockPlacement(p).wire().len() as int,
            ),
        ),
{
    let v = PlayPacket::PlayerBlockPlacement(p);
    let s = v.wire() + rest;
    assert(s =~= Var(0x2ci32).wire() + (p.wire() + rest));
    Var::<i32>::dec_complete(Var(0x2ci32), p.wire() + rest);
    assert(s.skip(Var(0x2ci32).wire().len() as int) =~= p.wire() + rest);
    PlayerBlockPlacement::dec_complete(p, rest);
}


/// Decode the payload of one play-packet arm, the id already consumed.
#[verifier::rlimit(100)]
#[verifier::spinoff_prover]
fn decode_play_teleportconfirm(src: &[u8], p1: usize, pos: Ghost<usize>) -> (r: Result<
    (PlayPacket, usize),
    DecodeError,
>)
    requires
        pos@ <= p1 <= src@.len(),
        Var::<i32>::dec(src@.skip(pos@ as int)) == Ok::<(Var<i32>, int), DecodeError>(
            (Var(0x00i32), p1 - pos@),
        ),
    ensures
        (match r {
            Ok((v, end)) => pos@ <= end <= src@.len() && v.valid() && PlayPacket::dec(
                src@.skip(pos@ as int),
            ) == Ok::<(PlayPacketView, int), DecodeError>((v.deep_view(), end - pos@)),
            Err(e) => PlayPacket::dec(src@.skip(pos@ as int)) == Err::<
                (PlayPacketView, int),
                DecodeError,
            >(e),
        }),
{
    proof {
        lemma_skip_skip(src@, pos@ as int, p1 - pos@);
    }
    match TeleportConfirm::proto_decode(src, p1) {
        Err(e) => Err(e),
        Ok((p, end)) => Ok((PlayPacket::TeleportConfirm(p), end)),
    }
}


/// Decode the payload of one play-packet arm, the id already consumed.
#[verifier::rlimit(100)]
#[verifier::spinoff_prover]
fn decode_play_clientsettings(src: &[u8], p1: usize, pos: Ghost<usize>) -> (r: Result<
    (PlayPacket, usize),
    DecodeError,
>)
    requires
        pos@ <= p1 <= src@.len(),
        Var::<i32>::dec(src@.skip(pos@ as int)) == Ok::<(Var<i32>, int), DecodeError>(
            (Var(0x05i32), p1 - pos@),
        ),
    ensures
        (match r {
            Ok((v, end)) => pos@ <= end <= src@.len() && v.valid() && PlayPacket::dec(
                src@.skip(pos@ as int),
            ) == Ok::<(PlayPacketView, int), DecodeError>((v.deep_view(), end - pos@)),
            Err(e) => PlayPacket::dec(src@.skip(pos@ as int)) == Err::<
                (PlayPacketView, int),
                DecodeError,
            >(e),
        }),
{
    proof {
        lemma_skip_skip(src@, pos@ as int, p1 - pos@);
    }
    match ClientSettings::proto_decode(src, p1) {
        Err(e) => Err(e),
        Ok((p, end)) => Ok((PlayPacket::ClientSettings(p), end)),
    }
}


/// Decode the payload of one play-packet arm, the id already consumed.
#[verifier::rlimit(100)]
#[verifier::spinoff_prover]
fn decode_play_keepalive(src: &[u8], p1: usize, pos: Ghost<usize>) -> (r: Result<
    (PlayPacket, usize),
    DecodeError,
>)
    requires
        pos@ <= p1 <= src@.len(),
        Var::<i32>::dec(src@.skip(pos@ as int)) == Ok::<(Var<i32>, int), DecodeError>(
            (Var(0x0fi32), p1 - pos@),
        ),
    ensures
        (match r {
            Ok((v, end)) => pos@ <= end <= src@.len() && v.valid() && PlayPacket::dec(
                src@.skip(pos@ as int),
            ) == Ok::<(PlayPacketView, int), DecodeError>((v.deep_view(), end - pos@)),
            Err(e) => PlayPacket::dec(src@.skip(pos@ as int)) == Err::<
                (PlayPacketView, int),
                DecodeError,
            >(e),
        }),
{
    proof {
        lemma_skip_skip(src@, pos@ as int, p1 - pos@);
    }
    match KeepAlive::proto_decode(src, p1) {
        Err(e) => Err(e),
        Ok((p, end)) => Ok((PlayPacket::KeepAlive(p), end)),
    }
}


/// Decode the payload of one play-packet arm, the id already consumed.
#[verifier::rlimit(100)]
#[verifier::spinoff_prover]
fn decode_play_playerposition(src: &[u8], p1: usize, pos: Ghost<usize>) -> (r: Result<
    (PlayPacket, usize),
    DecodeError,
>)
    requires
        pos@ <= p1 <= src@.len(),
        Var::<i32>::dec(src@.skip(pos@ as int)) == Ok::<(Var<i32>, int), DecodeError>(
            (Var(0x11i32), p1 - pos@),
        ),
    ensures
        (match r {
            Ok((v, end)) => pos@ <= end <= src@.len() && v.valid() && PlayPacket::dec(
                src@.skip(pos@ as int),
            ) == Ok::<(PlayPacketView, int), DecodeError>((v.deep_view(), end - pos@)),
            Err(e) => PlayPacket::dec(src@.skip(pos@ as int)) == Err::<
                (PlayPacketView, int),
                DecodeError,
            >(e),
        }),
{
    proof {
        lemma_skip_skip(src@, pos@ as int, p1 - pos@);
    }
    match PlayerPosition::proto_decode(src, p1) {
        Err(e) => Err(e),
        Ok((p, end)) => Ok((PlayPacket::PlayerPosition(p), end)),
    }
}


/// Decode the payload of one play-packet arm, the id already consumed.
#[verifier::rlimit(100)]
#[verifier::spinoff_prover]
fn decode_play_playerpositionandrotation(src: &[u8], p1: usize, pos: Ghost<usize>) -> (r: Result<
    (PlayPacket, usize),
    DecodeError,
>)
    requires
        pos@ <= p1 <= src@.len(),
        Var::<i32>::dec(src@.skip(pos@ as int)) == Ok::<(Var<i32>, int), DecodeError>(
            (Var(0x12i32), p1 - pos@),
        ),
    ensures
        (match r {
            Ok((v, end)) => pos@ <= end <= src@.len() && v.valid() && PlayPacket::dec(
                src@.skip(pos@ as int),
            ) == Ok::<(PlayPacketView, int), DecodeError>((v.deep_view(), end - pos@)),
            Err(e) => PlayPacket::dec(src@.skip(pos@ as int)) == Err::<
                (PlayPacketView, int),
                DecodeError,
            >(e),
        }),
{
    proof {
        lemma_skip_skip(src@, pos@ as int, p1 - pos@);
    }
    match PlayerPositionAndRotation::proto_decode(src, p1) {
        Err(e) => Err(e),
        Ok((p, end)) => Ok((PlayPacket::PlayerPositionAndRotation(p), end)),
    }
}


/// Decode the payload of one play-packet arm, the id already consumed.
#[verifier::rlimit(100)]
#[verifier::spinoff_prover]
fn decode_play_playerrotation(src: &[u8], p1: usize, pos: Ghost<usize>) -> (r: Result<
    (PlayPacket, usize),
    DecodeError,
>)
    requires
        pos@ <= p1 <= src@.len(),
        Var::<i32>::dec(src@.skip(pos@ as int)) == Ok::<(Var<i32>, int), DecodeError>(
            (Var(0x13i32), p1 - pos@),
        ),
    ensures
        (match r {
            Ok((v, end)) => pos@ <= end <= src@.len() && v.valid() && PlayPacket::dec(
                src@.skip(pos@ as int),
            ) == Ok::<(PlayPacketView, int), DecodeError>((v.deep_view(), end - pos@)),
            Err(e) => PlayPacket::dec(src@.skip(pos@ as int)) == Err::<
                (PlayPacketView, int),
                DecodeError,
            >(e),
        }),
{
    proof {
        lemma_skip_skip(src@, pos@ as int, p1 - pos@);
    }
    match PlayerRotation::proto_decode(src, p1) {
        Err(e) => Err(e),
        Ok((p, end)) => Ok((PlayPacket::PlayerRotation(p), end)),
    }
}


/// Decode the payload of one play-packet arm, the id already consumed.
#[verifier::rlimit(100)]
#[verifier::spinoff_prover]
fn decode_play_playerabilities(src: &[u8], p1: usize, pos: Ghost<usize>) -> (r: Result<
    (PlayPacket, usize),
    DecodeError,
>)
    requires
        pos@ <= p1 <= src@.len(),
        Var::<i32>::dec(src@.skip(pos@ as int)) == Ok::<(Var<i32>, int), DecodeError>(
            (Var(0x19i32), p1 - pos@),
        ),
    ensures
        (match r {
            Ok((v, end)) => pos@ <= end <= src@.len() && v.valid() && PlayPacket::dec(
                src@.skip(pos@ as int),
            ) == Ok::<(PlayPacketView, int), DecodeError>((v.deep_view(), end - pos@)),
            Err(e) => PlayPacket::dec(src@.skip(pos@ as int)) == Err::<
                (PlayPacketView, int),
                DecodeError,
            >(e),
        }),
{
    proof {
        lemma_skip_skip(src@, pos@ as int, p1 - pos@);
    }
    match PlayerAbilities::proto_decode(src, p1) {
        Err(e) => Err(e),
        Ok((p, end)) => Ok((PlayPacket::PlayerAbilities(p), end)),
    }
}


/// Decode the payload of one play-packet arm, the id already consumed.
#[verifier::rlimit(100)]
#[verifier::spinoff_prover]
fn decode_play_playerdigging(src: &[u8], p1: usize, pos: Ghost<usize>) -> (r: Result<
    (PlayPacket, usize),
    DecodeError,
>)
    requires
        pos@ <= p1 <= src@.len(),
        Var::<i32>::dec(src@.skip(pos@ as int)) == Ok::<(Var<i32>, int), DecodeError>(
            (Var(0x1ai32), p1 - pos@),
        ),
    ensures
        (match r {
            Ok((v, end)) => pos@ <= end <= src@.len() && v.valid() && PlayPacket::dec(
                src@.skip(pos@ as int),
            ) == Ok::<(PlayPacketView, int), DecodeError>((v.deep_view(), end - pos@)),
            Err(e) => PlayPacket::dec(src@.skip(pos@ as int)) == Err::<
                (PlayPacketView, int),
                DecodeError,
            >(e),
        }),
{
    proof {
        lemma_skip_skip(src@, pos@ as int, p1 - pos@);
    }
    match PlayerDigging::proto_decode(src, p1) {
        Err(e) => Err(e),
        Ok((p, end)) => Ok((PlayPacket::PlayerDigging(p), end)),
    }
}


/// Decode the payload of one play-packet arm, the id already consumed.
#[verifier::rlimit(100)]
#[verifier::spinoff_prover]
fn decode_play_entityaction(src: &[u8], p1: usize, pos: Ghost<usize>) -> (r: Result<
    (PlayPacket, usize),
    DecodeError,
>)
    requires
        pos@ <= p1 <= src@.len(),
        Var::<i32>::dec(src@.skip(pos@ as int)) == Ok::<(Var<i32>, int), DecodeError>(
            (Var(0x1bi32), p1 - pos@),
        ),
    ensures
        (match r {
            Ok((v, end)) => pos@ <= end <= src@.len() && v.valid() && PlayPacket::dec(
                src@.skip(pos@ as int),
            ) == Ok::<(PlayPacketView, int), DecodeError>((v.deep_view(), end - pos@)),
            Err(e) => PlayPacket::dec(src@.skip(pos@ as int)) == Err::<
                (PlayPacketView, int),
                DecodeError,
            >(e),
        }),
{
    proof {
        lemma_skip_skip(src@, pos@ as int, p1 - pos@);
    }
    match EntityAction::proto_decode(src, p1) {
        Err(e) => Err(e),
        Ok((p, end)) => Ok((PlayPacket::EntityAction(p), end)),
    }
}


/// Decode the payload of one play-packet arm, the id already consumed.
#[verifier::rlimit(100)]
#[verifier::spinoff_prover]
fn decode_play_helditemchange(src: &[u8], p1: usize, pos: Ghost<usize>) -> (r: Result<
    (PlayPacket, usize),
    DecodeError,
>)
    requires
        pos@ <= p1 <= src@.len(),
        Var::<i32>::dec(src@.skip(pos@ as int)) == Ok::<(Var<i32>, int), DecodeError>(
            (Var(0x23i32), p1 - pos@),
        ),
    ensures
        (match r {
            Ok((v, end)) => pos@ <= end <= src@.len() && v.valid() && PlayPacket::dec(
                src@.skip(pos@ as int),
            ) == Ok::<(PlayPacketView, int), DecodeError>((v.deep_view(), end - pos@)),
            Err(e) => PlayPacket::dec(src@.skip(pos@ as int)) == Err::<
                (PlayPacketView, int),
                DecodeError,
            >(e),
        }),
{
    proof {
        lemma_skip_skip(src@, pos@ as int, p1 - pos@);
    }
    match HeldItemChange::proto_decode(src, p1) {
        Err(e) => Err(e),
        Ok((p, end)) => Ok((PlayPacket::HeldItemChange(p), end)),
    }
}


/// Decode the payload of one play-packet arm, the id already consumed.
#[verifier::rlimit(100)]
#[verifier::spinoff_prover]
fn decode_play_creativeinventoryaction(src: &[u8], p1: usize, pos: Ghost<usize>) -> (r: Result<
    (PlayPacket, usize),
    DecodeError,
>)
    requires
        pos@ <= p1 <= src@.len(),
        Var::<i32>::dec(src@.skip(pos@ as int)) == Ok::<(Var<i32>, int), DecodeError>(
            (Var(0x26i32), p1 - pos@),
        ),
    ensures
        (match r {
            Ok((v, end)) => pos@ <= end <= src@.len() && v.valid() && PlayPacket::dec(
                src@.skip(pos@ as int),
            ) == Ok::<(PlayPacketView, int), DecodeError>((v.deep_view(), end - pos@)),
            Err(e) => PlayPacket::dec(src@.skip(pos@ as int)) == Err::<
                (PlayPacketView, int),
                DecodeError,
            >(e),
        }),
{
    proof {
        lemma_skip_skip(src@, pos@ as int, p1 - pos@);
    }
    match CreativeInventoryAction::proto_decode(src, p1) {
        Err(e) => Err(e),
        Ok((p, end)) => Ok((PlayPacket::CreativeInventoryAction(p), end)),
    }
}


/// Decode the payload of one play-packet arm, the id already consumed.
#[verifier::rlimit(100)]
#[verifier::spinoff_prover]
fn decode_play_playerblockplacement(src: &[u8], p1: usize, pos: Ghost<usize>) -> (r: Result<
    (PlayPacket, usize),
    DecodeError,
>)
    requires
        pos@ <= p1 <= src@.len(),
        Var::<i32>::dec(src@.skip(pos@ as int)) == Ok::<(Var<i32>, int), DecodeError>(
            (Var(0x2ci32), p1 - pos@),
        ),
    ensures
        (match r {
            Ok((v, end)) => pos@ <= end <= src@.len() && v.valid() && PlayPacket::dec(
                src@.skip(pos@ as int),
            ) == Ok::<(PlayPacketView, int), DecodeError>((v.deep_view(), end - pos@)),
            Err(e) => PlayPacket::dec(src@.skip(pos@ as int)) == Err::<
                (PlayPacketView, int),
                DecodeError,
            >(e),
        }),
{
    proof {
        lemma_skip_skip(src@, pos@ as int, p1 - pos@);
    }
    match PlayerBlockPlacement::proto_decode(src, p1) {
        Err(e) => Err(e),
        Ok((p, end)) => Ok((PlayPacket::PlayerBlockPlacement(p), end)),
    }
}

impl ProtocolRead for PlayPacket {
    open spec fn dec(s: Seq<u8>) -> Result<(PlayPacketView, int), DecodeError> {
        match Var::<i32>::dec(s) {
            Err(e) => Err(e),
            Ok((id, n)) => {
                if id.0 == 0x00 {
                    match TeleportConfirm::dec(s.skip(n)) {
                        Err(e) => Err(e),
                        Ok((p, m)) => Ok((PlayPacketView::TeleportConfirm(p), n + m)),
                    }
                } else if id.0 == 0x05 {
                    match ClientSettings::dec(s.skip(n)) {
                        Err(e) => Err(e),
                        Ok((p, m)) => Ok((PlayPacketView::ClientSettings(p), n + m)),
                    }
                } else if id.0 == 0x0f {
                    match KeepAlive::dec(s.skip(n)) {
                        Err(e) => Err(e),
                        Ok((p, m)) => Ok((PlayPacketView::KeepAlive(p), n + m)),
                    }
                } else if id.0 == 0x11 {
                    match PlayerPosition::dec(s.skip(n)) {
                        Err(e) => Err(e),
                        Ok((p, m)) => Ok((PlayPacketView::PlayerPosition(p), n + m)),
                    }
                } else if id.0 == 0x12 {
                    match PlayerPositionAndRotation::dec(s.skip(n)) {
                        Err(e) => Err(e),
                        Ok((p, m)) => Ok((PlayPacketView::PlayerPositionAndRotation(p), n + m)),
                    }
                } else if id.0 == 0x13 {
                    match PlayerRotation::dec(s.skip(n)) {
                        Err(e) => Err(e),
                        Ok((p, m)) => Ok((PlayPacketView::PlayerRotation(p), n + m)),
                    }
                } else if id.0 == 0x19 {
                    match PlayerAbilities::dec(s.skip(n)) {
                        Err(e) => Err(e),
                        Ok((p, m)) => Ok((PlayPacketView::PlayerAbilities(p), n + m)),
                    }
                } else if id.0 == 0x1a {
                    match PlayerDigging::dec(s.skip(n)) {
                        Err(e) => Err(e),
                        Ok((p, m)) => Ok((PlayPacketView::PlayerDigging(p), n + m)),
                    }
                } else if id.0 == 0x1b {
                    match EntityAction::dec(s.skip(n)) {
                        Err(e) => Err(e),
                        Ok((p, m)) => Ok((PlayPacketView::EntityAction(p), n + m)),
                    }
                } else if id.0 == 0x23 {
                    match HeldItemChange::dec(s.skip(n)) {
                        Err(e) => Err(e),
                        Ok((p, m)) => Ok((PlayPacketView::HeldItemChange(p), n + m)),
                    }
                } else if id.0 == 0x26 {
                    match CreativeInventoryAction::dec(s.skip(n)) {
                        Err(e) => Err(e),
                        Ok((p, m)) => Ok((PlayPacketView::CreativeInventoryAction(p), n + m)),
                    }
                } else if id.0 == 0x2c {
                    match PlayerBlockPlacement::dec(s.skip(n)) {
                        Err(e) => Err(e),
                        Ok((p, m)) => Ok((PlayPacketView::PlayerBlockPlacement(p), n + m)),
                    }
                } else {
                    Err(DecodeError::InvalidEnum)
                }
            },
        }
    }

    #[verifier::rlimit(100)]
    proof fn dec_sound(s: Seq<u8>) {
        Var::<i32>::dec_sound(s);
        match Var::<i32>::dec(s) {
            Err(_) => {},
            Ok((id, n)) => {
                TeleportConfirm::dec_sound(s.skip(n));
                ClientSettings::dec_sound(s.skip(n));
                KeepAlive::dec_sound(s.skip(n));
                PlayerPosition::dec_sound(s.skip(n));
                PlayerPositionAndRotation::dec_sound(s.skip(n));
                PlayerRotation::dec_sound(s.skip(n));
                PlayerAbilities::dec_sound(s.skip(n));
                PlayerDigging::dec_sound(s.skip(n));
                EntityAction::dec_sound(s.skip(n));
                HeldItemChange::dec_sound(s.skip(n));
                CreativeInventoryAction::dec_sound(s.skip(n));
                PlayerBlockPlacement::dec_sound(s.skip(n));
            },
        }
    }

    proof fn dec_complete(v: Self, rest: Seq<u8>) {
        match v {
            PlayPacket::TeleportConfirm(p) => lemma_play_complete_teleportconfirm(p, rest),
            PlayPacket::ClientSettings(p) => lemma_play_complete_clientsettings(p, rest),
            PlayPacket::KeepAlive(p) => lemma_play_complete_keepalive(p, rest),
            PlayPacket::PlayerPosition(p) => lemma_play_complete_playerposition(p, rest),
            PlayPacket::PlayerPositionAndRotation(p) => lemma_play_complete_playerpositionandrotation(p, rest),
            PlayPacket::PlayerRotation(p) => lemma_play_complete_playerrotation(p, rest),
            PlayPacket::PlayerAbilities(p) => lemma_play_complete_playerabilities(p, rest),
            PlayPacket::PlayerDigging(p) => lemma_play_complete_playerdigging(p, rest),
            PlayPacket::EntityAction(p) => lemma_play_complete_entityaction(p, rest),
            PlayPacket::HeldItemChange(p) => lemma_play_complete_helditemchange(p, rest),
            PlayPacket::CreativeInventoryAction(p) => lemma_play_complete_creativeinventoryaction(p, rest),
            PlayPacket::PlayerBlockPlacement(p) => lemma_play_complete_playerblockplacement(p, rest),
        }
    }

    fn proto_decode(src: &[u8], pos: usize) -> (r: Result<(Self, usize), DecodeError>) {
        match Var::<i32>::proto_decode(src, pos) {
            Err(e) => Err(e),
            Ok((id, p1)) => {
                if id.0 == 0x00 {
                    decode_play_teleportconfirm(src, p1, Ghost(pos))
                } else if id.0 == 0x05 {
                    decode_play_clientsettings(src, p1, Ghost(pos))
                } else if id.0 == 0x0f {
                    decode_play_keepalive(src, p1, Ghost(pos))
                } else if id.0 == 0x11 {
                    decode_play_playerposition(src, p1, Ghost(pos))
                } else if id.0 == 0x12 {
                    decode_play_playerpositionandrotation(src, p1, Ghost(pos))
                } else if id.0 == 0x13 {
                    decode_play_playerrotation(src, p1, Ghost(pos))
                } else if id.0 == 0x19 {
                    decode_play_playerabilities(src, p1, Ghost(pos))
                } else if id.0 == 0x1a {
                    decode_play_playerdigging(src, p1, Ghost(pos))
                } else if id.0 == 0x1b {
                    decode_play_entityaction(src, p1, Ghost(pos))
                } else if id.0 == 0x23 {
                    decode_play_helditemchange(src, p1, Ghost(pos))
                } else if id.0 == 0x26 {
                    decode_play_creativeinventoryaction(src, p1, Ghost(pos))
                } else if id.0 == 0x2c {
                    decode_play_playerblockplacement(src, p1, Ghost(pos))
                } else {
                    Err(DecodeError::InvalidEnum)
                }
            },
        }
    }
}

} // verus!
