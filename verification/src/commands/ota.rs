//! Flashing firmware: what is checked before a byte is written, and the transfer that
//! the light's acknowledgements drive.

use vstd::prelude::*;
use crate::clock::Nanos;
use crate::protocol::ota::{
    ack_in, block_at, block_body, block_bytes, block_count, block_frame, blocks, joined,
    kind_named, law_blocks_rebuild_the_image, parse_ack, parse_type_reply, Ack, BlockKind, Header,
    HEADER_STD,
};
use crate::protocol::sealed;

verus! {

/// Why a file is not a firmware image.
#[derive(Debug, Clone, Copy, PartialEq, Eq, Structural)]
pub enum ImageError {
    /// Too few bytes to be one.
    TooShort { len: usize },
    /// Its first word is not the stack pointer of an ARM Cortex-M.
    NotArm { sp: u32 },
}

/// The first word of an image, little-endian.
pub open spec fn first_word(image: Seq<u8>) -> int {
    image[0] + image[1] * 0x100 + image[2] * 0x1_0000 + image[3] * 0x100_0000
}

/// Check an image before anything is sent: long enough, and beginning with a stack
/// pointer into the RAM of an ARM Cortex-M. Gives the stack pointer.
pub fn check_image(image: &[u8]) -> (r: Result<u32, ImageError>)
    ensures
        match r {
            Ok(sp) => {
                &&& image@.len() >= 1024
                &&& sp == first_word(image@)
                &&& 0x2000_0000 <= sp < 0x2008_0000
            },
            Err(ImageError::TooShort { len }) => len == image@.len() && len < 1024,
            Err(ImageError::NotArm { sp }) => {
                &&& image@.len() >= 1024
                &&& sp == first_word(image@)
                &&& !(0x2000_0000 <= sp < 0x2008_0000)
            },
        },
{
    if image.len() < 1024 {
        return Err(ImageError::TooShort { len: image.len() });
    }
    let sp: u32 = image[0] as u32 + image[1] as u32 * 0x100 + image[2] as u32 * 0x1_0000
        + image[3] as u32 * 0x100_0000;
    if 0x2000_0000 <= sp && sp < 0x2008_0000 {
        Ok(sp)
    } else {
        Err(ImageError::NotArm { sp })
    }
}

/// Something that the stability check of a link hears.
#[derive(Debug, Clone, Copy, PartialEq, Eq, Structural)]
pub enum LinkEvent {
    /// Whether the platform reports the light as connected.
    Connected(bool),
    /// The light was poked, so long after the start.
    Poked { elapsed: Nanos },
    /// The pause is over.
    Rested,
}

/// What the stability check of a link does next.
#[derive(Debug, Clone, Copy, PartialEq, Eq, Structural)]
pub enum LinkAction {
    /// Ask whether the light is connected.
    Check,
    /// Send a query that changes nothing.
    Poke,
    /// Pause for a second.
    Rest,
    /// The link held: go on. It was checked that many times.
    Held { checks: u32 },
    /// The link dropped: do not flash.
    Dropped,
}

/// The stability check of a link: it must hold for a while before a transfer of
/// several minutes begins.
#[derive(Debug, Clone, Copy, PartialEq, Eq, Structural)]
pub struct LinkCheck {
    pub settle: Nanos,
    pub checks: u32,
}

impl LinkCheck {
    /// A check that takes `settle`, with its first action.
    pub fn new(settle: Nanos) -> (r: (Self, LinkAction))
        ensures
            r == (LinkCheck { settle, checks: 0 }, LinkAction::Check),
    {
        (LinkCheck { settle, checks: 0 }, LinkAction::Check)
    }

    /// The check goes on with what was heard. However short the time to settle, the
    /// link is only said to hold once it has been checked and poked.
    pub fn step(&mut self, event: LinkEvent) -> (r: LinkAction)
        requires
            old(self).checks < u32::MAX,
        ensures
            final(self).settle == old(self).settle,
            final(self).checks == old(self).checks + if event is Poked {
                1int
            } else {
                0
            },
            r == match event {
                LinkEvent::Connected(up) => if up {
                    LinkAction::Poke
                } else {
                    LinkAction::Dropped
                },
                LinkEvent::Poked { elapsed } => if elapsed >= old(self).settle {
                    LinkAction::Held { checks: final(self).checks }
                } else {
                    LinkAction::Rest
                },
                LinkEvent::Rested => LinkAction::Check,
            },
    {
        match event {
            LinkEvent::Connected(up) => if up {
                LinkAction::Poke
            } else {
                LinkAction::Dropped
            },
            LinkEvent::Poked { elapsed } => {
                self.checks = self.checks + 1;
                if elapsed >= self.settle {
                    LinkAction::Held { checks: self.checks }
                } else {
                    LinkAction::Rest
                }
            },
            LinkEvent::Rested => LinkAction::Check,
        }
    }
}

/// How long the light has to name its block size.
pub const TYPE_PROBE_WINDOW: Nanos = 3_000_000_000;

/// What the probe for the block size has found.
#[derive(Debug, Clone, Copy, PartialEq, Eq, Structural)]
pub enum ProbeStep {
    /// The light named its block size.
    Answered(BlockKind),
    /// The light did not answer: the small blocks are assumed.
    Silent,
    /// Something else came in; keep listening.
    Listen,
}

impl ProbeStep {
    /// The block size, once the probe is over.
    pub fn kind(self) -> (r: Option<BlockKind>)
        ensures
            r == match self {
                ProbeStep::Answered(kind) => Some(kind),
                ProbeStep::Silent => Some(BlockKind::Std128),
                ProbeStep::Listen => None,
            },
    {
        match self {
            ProbeStep::Answered(kind) => Some(kind),
            ProbeStep::Silent => Some(BlockKind::Std128),
            ProbeStep::Listen => None,
        }
    }
}

/// One step of the probe: the frame that came in, if one did, and the time since the
/// probe was sent. Frames that are no answer use up time, not tries.
pub fn probe_step(frame: Option<&[u8]>, elapsed: Nanos) -> (r: ProbeStep)
    ensures
        r == match frame {
            None => ProbeStep::Silent,
            Some(f) => match kind_named(f@) {
                Some(kind) => ProbeStep::Answered(kind),
                None => if elapsed < TYPE_PROBE_WINDOW {
                    ProbeStep::Listen
                } else {
                    ProbeStep::Silent
                },
            },
        },
        frame is Some && kind_named(frame->0@) is None ==> (r == ProbeStep::Listen <==> elapsed
            < 3_000_000_000),
{
    match frame {
        None => ProbeStep::Silent,
        Some(f) => match parse_type_reply(f) {
            Some(kind) => ProbeStep::Answered(kind),
            None => if elapsed < TYPE_PROBE_WINDOW {
                ProbeStep::Listen
            } else {
                ProbeStep::Silent
            },
        },
    }
}

/// Whether firmware may be written.
#[derive(Debug, Clone, Copy, PartialEq, Eq, Structural)]
pub enum FlashGate {
    /// Only a check was asked for.
    CheckOnly,
    /// The flash was not confirmed.
    Unconfirmed,
    /// Write.
    Flash,
}

/// Whether firmware may be written: never on a check, and only when confirmed.
pub fn flash_gate(check_only: bool, confirm: bool) -> (r: FlashGate)
    ensures
        r == if check_only {
            FlashGate::CheckOnly
        } else if !confirm {
            FlashGate::Unconfirmed
        } else {
            FlashGate::Flash
        },
{
    if check_only {
        FlashGate::CheckOnly
    } else if !confirm {
        FlashGate::Unconfirmed
    } else {
        FlashGate::Flash
    }
}

/// How often a header is sent before the transfer is given up.
pub const MAX_HEADER_ATTEMPTS: u32 = 5;

/// Where a transfer stands.
#[derive(Debug, Clone, Copy, PartialEq, Eq, Structural)]
pub struct Progress {
    /// The block that was sent last, -1 before the first.
    pub block: i64,
    /// Whether the light has acknowledged anything yet.
    pub started: bool,
    /// How often the header had to be sent again.
    pub header_attempts: u32,
    /// How often the light asked for something again.
    pub resends: u64,
}

/// Why a transfer was given up. Nothing has been committed in any of these cases.
#[derive(Debug, Clone, Copy, PartialEq, Eq, Structural)]
pub enum Abort {
    /// The header was never acknowledged.
    HeaderIgnored,
    /// The light keeps asking for the header.
    HeaderRejected,
    /// The light fell silent.
    Silent,
    /// The light rejected the image.
    Rejected,
}

/// What a transfer does next.
#[derive(Debug, Clone, Copy, PartialEq, Eq, Structural)]
pub enum Move {
    /// Send the header again.
    Header,
    /// Send the block at this position.
    Block(usize),
    /// Wait for the light.
    Wait,
    /// The light has committed the image.
    Finish,
    /// Give up.
    Abort(Abort),
}

/// A transfer whose header has been sent once.
pub open spec fn fresh() -> Progress {
    Progress { block: (-1) as i64, started: false, header_attempts: 0, resends: 0 }
}

/// The block at a position, if the image has it.
pub open spec fn block_or_wait(block: int, count: int) -> Move {
    if 0 <= block < count {
        Move::Block(block as usize)
    } else {
        Move::Wait
    }
}

/// Where a transfer stands after an acknowledgement, or after a time-out (`None`), and
/// what it does next. `count` is the number of blocks of the image.
pub open spec fn decided(p: Progress, heard: Option<Ack>, count: int) -> (Progress, Move) {
    let again = Progress { header_attempts: (p.header_attempts + 1) as u32, ..p };
    let awake = Progress { started: true, ..p };
    match heard {
        None => if p.started {
            (p, Move::Abort(Abort::Silent))
        } else if again.header_attempts >= MAX_HEADER_ATTEMPTS {
            (again, Move::Abort(Abort::HeaderIgnored))
        } else {
            (again, Move::Header)
        },
        Some(Ack::Next) => (
            Progress { block: (p.block + 1) as i64, ..awake },
            block_or_wait(p.block + 1, count),
        ),
        Some(Ack::Resend) => {
            let asked = Progress { resends: (p.resends + 1) as u64, ..awake };
            let header = Progress { header_attempts: again.header_attempts, ..asked };
            if p.block >= 0 {
                (asked, block_or_wait(p.block as int, count))
            } else if again.header_attempts >= MAX_HEADER_ATTEMPTS {
                (header, Move::Abort(Abort::HeaderRejected))
            } else {
                (header, Move::Header)
            }
        },
        Some(Ack::Restart) => (Progress { block: 0, ..awake }, block_or_wait(0, count)),
        Some(Ack::Done) => (awake, Move::Finish),
        Some(Ack::Fail) => (awake, Move::Abort(Abort::Rejected)),
        Some(Ack::Unknown(_)) => (awake, Move::Wait),
    }
}

impl Progress {
    /// Whether the counters are as a running transfer has them, with room for one
    /// step more. No block is sent before the light has answered.
    pub open spec fn wf(self) -> bool {
        &&& -1 <= self.block < i64::MAX
        &&& !self.started ==> self.block == -1
        &&& self.header_attempts < MAX_HEADER_ATTEMPTS
        &&& self.resends < u64::MAX
    }

    /// Where the transfer stands after an acknowledgement or a time-out, and what it
    /// does next.
    pub fn decide(self, heard: Option<Ack>, count: usize) -> (r: (Progress, Move))
        requires
            self.wf(),
        ensures
            r == decided(self, heard, count as int),
            !(r.1 is Abort) && r.0.block < i64::MAX && r.0.resends < u64::MAX ==> r.0.wf(),
    {
        let mut p = self;
        match heard {
            None => {
                if p.started {
                    return (p, Move::Abort(Abort::Silent));
                }
                p.header_attempts = p.header_attempts + 1;
                if p.header_attempts >= MAX_HEADER_ATTEMPTS {
                    (p, Move::Abort(Abort::HeaderIgnored))
                } else {
                    (p, Move::Header)
                }
            },
            Some(ack) => {
                p.started = true;
                match ack {
                    Ack::Next => {
                        p.block = p.block + 1;
                        (p, at_block(p.block, count))
                    },
                    Ack::Resend => {
                        p.resends = p.resends + 1;
                        if p.block >= 0 {
                            return (p, at_block(p.block, count));
                        }
                        p.header_attempts = p.header_attempts + 1;
                        if p.header_attempts >= MAX_HEADER_ATTEMPTS {
                            (p, Move::Abort(Abort::HeaderRejected))
                        } else {
                            (p, Move::Header)
                        }
                    },
                    Ack::Restart => {
                        p.block = 0;
                        (p, at_block(0, count))
                    },
                    Ack::Done => (p, Move::Finish),
                    Ack::Fail => (p, Move::Abort(Abort::Rejected)),
                    Ack::Unknown(_) => (p, Move::Wait),
                }
            },
        }
    }
}

fn at_block(block: i64, count: usize) -> (r: Move)
    requires
        block >= 0,
    ensures
        r == block_or_wait(block as int, count as int),
{
    if (block as u64) < count as u64 {
        Move::Block(block as usize)
    } else {
        Move::Wait
    }
}

/// What the application has to do for a transfer.
#[derive(Debug, Clone)]
pub enum Action {
    /// Write this frame. For a block that is worth a progress line, its position and
    /// the percentage that has been sent.
    Send { frame: Vec<u8>, report: Option<(usize, u128)> },
    /// Wait for the next frame.
    Wait,
    /// The frame is no acknowledgement; wait for the next one.
    Ignore,
    /// Everything is done.
    Finish,
    /// Give up.
    Abort(Abort),
}

/// A firmware transfer.
#[derive(Debug)]
pub struct Transfer {
    pub image: Vec<u8>,
    pub kind: BlockKind,
    pub header: Header,
    pub progress: Progress,
    /// The percentage of the last progress line.
    pub last_percent: Option<u128>,
}

/// The frame of a block.
pub open spec fn framed(image: Seq<u8>, kind: BlockKind, block: int) -> Seq<u8> {
    sealed(block_body(kind, block_bytes(image, kind, block), HEADER_STD))
}

/// The percentage of an image that has been sent with a block.
pub open spec fn percent(image: Seq<u8>, kind: BlockKind, block: int, size: u32) -> int {
    (block * kind.size() + block_bytes(image, kind, block).len()) * 100 / size as int
}

/// Whether a percentage is worth a progress line: two points more than the last one.
pub open spec fn worth_a_line(percent: int, block: int, last: Option<u128>) -> bool {
    block == 0 || match last {
        Some(l) => percent >= l + 2,
        None => percent >= 1,
    }
}

impl Transfer {
    /// Whether the transfer can go on.
    pub open spec fn wf(self) -> bool {
        self.header.size > 0 && self.progress.wf()
    }

    /// The number of blocks.
    pub open spec fn count(self) -> int {
        blocks(self.image@.len() as int, self.kind)
    }

    /// Begin a transfer. The header is the first frame to write.
    pub fn new(image: Vec<u8>, kind: BlockKind, header: Header) -> (r: (Self, Vec<u8>))
        requires
            header.size > 0,
        ensures
            r.0.wf(),
            r.0.image@ == image@,
            r.0.kind == kind,
            r.0.header == header,
            r.0.progress == fresh(),
            r.0.last_percent is None,
            r.1@ == sealed(header.body()),
    {
        let first = header.frame();
        let progress = Progress { block: -1, started: false, header_attempts: 0, resends: 0 };
        (Transfer { image, kind, header, progress, last_percent: None }, first)
    }

    /// Whether this is another transfer but for where it stands.
    pub open spec fn same_flash(self, other: Transfer) -> bool {
        self.image@ == other.image@ && self.kind == other.kind && self.header == other.header
    }

    /// What the light has said with a frame: nothing where it is no acknowledgement.
    pub open spec fn heard(frame: Option<Seq<u8>>) -> Option<Option<Ack>> {
        match frame {
            None => Some(None),
            Some(f) => match ack_in(f) {
                Some(ack) => Some(Some(ack)),
                None => None,
            },
        }
    }

    /// One step, with the frame that came in (`None`: none did in time).
    pub fn step(&mut self, frame: Option<&[u8]>) -> (r: Action)
        requires
            old(self).wf(),
        ensures
            final(self).same_flash(*old(self)),
            !(r is Abort) && final(self).progress.block < i64::MAX && final(self).progress.resends
                < u64::MAX ==> final(self).wf(),
            ({
                let seen = match frame {
                    Some(f) => Some(f@),
                    None => None,
                };
                match Transfer::heard(seen) {
                    None => r is Ignore && final(self).progress == old(self).progress
                        && final(self).last_percent == old(self).last_percent,
                    Some(ack) => {
                        let next = decided(old(self).progress, ack, old(self).count());
                        &&& final(self).progress == next.0
                        &&& match next.1 {
                            Move::Header => {
                                &&& r matches Action::Send { frame, report }
                                &&& frame@ == sealed(old(self).header.body())
                                &&& report is None
                                &&& final(self).last_percent == old(self).last_percent
                            },
                            Move::Block(b) => {
                                let image = old(self).image@;
                                let kind = old(self).kind;
                                let part = percent(image, kind, b as int, old(self).header.size);
                                let line = ack == Some(Ack::Next) && worth_a_line(
                                    part,
                                    b as int,
                                    old(self).last_percent,
                                );
                                &&& r matches Action::Send { frame, report }
                                &&& frame@ == framed(image, kind, b as int)
                                &&& report == if line {
                                    Some((b, part as u128))
                                } else {
                                    None
                                }
                                &&& final(self).last_percent == if line {
                                    Some(part as u128)
                                } else if ack == Some(Ack::Restart) {
                                    None
                                } else {
                                    old(self).last_percent
                                }
                            },
                            Move::Wait => r is Wait && final(self).last_percent == old(
                                self,
                            ).last_percent,
                            Move::Finish => r is Finish && final(self).last_percent == old(
                                self,
                            ).last_percent,
                            Move::Abort(why) => r == Action::Abort(why)
                                && final(self).last_percent == old(self).last_percent,
                        }
                    },
                }
            }),
    {
        let heard: Option<Ack> = match frame {
            None => None,
            Some(f) => match parse_ack(f) {
                None => {
                    return Action::Ignore;
                },
                Some(ack) => Some(ack),
            },
        };
        let count: usize = block_count(self.image.len(), self.kind);
        let (progress, next) = self.progress.decide(heard, count);
        self.progress = progress;
        match next {
            Move::Header => Action::Send { frame: self.header.frame(), report: None },
            Move::Block(b) => {
                match block_at(&self.image, self.kind, b) {
                    Some(data) => {
                        let out = block_frame(self.kind, data, HEADER_STD);
                        let size: u128 = self.kind.block_size() as u128;
                        assert(0 <= b * size <= usize::MAX * 4096) by (nonlinear_arith)
                            requires
                                0 <= b <= usize::MAX,
                                0 <= size <= 4096,
                        ;
                        let sent: u128 = b as u128 * size + data.len() as u128;
                        let part: u128 = sent * 100 / self.header.size as u128;
                        let mut report: Option<(usize, u128)> = None;
                        match heard {
                            Some(Ack::Next) => {
                                let line = b == 0 || match self.last_percent {
                                    Some(l) => part >= 2 && part - 2 >= l,
                                    None => part >= 1,
                                };
                                if line {
                                    report = Some((b, part));
                                    self.last_percent = Some(part);
                                }
                            },
                            Some(Ack::Restart) => {
                                self.last_percent = None;
                            },
                            _ => {},
                        }
                        Action::Send { frame: out, report }
                    },
                    None => Action::Wait,
                }
            },
            Move::Wait => Action::Wait,
            Move::Finish => Action::Finish,
            Move::Abort(why) => Action::Abort(why),
        }
    }
}

/// A transfer ends well only when the light says that it has committed the image, and
/// then at once.
pub proof fn law_only_done_finishes(p: Progress, heard: Option<Ack>, count: int)
    ensures
        decided(p, heard, count).1 is Finish <==> heard == Some(Ack::Done),
{
}

/// Every time the header is sent again is counted, and a transfer in which it was sent
/// the greatest number of times does not send it once more: it is given up, or goes on
/// with blocks.
pub proof fn law_header_attempts_are_bounded(p: Progress, heard: Option<Ack>, count: int)
    requires
        p.wf(),
    ensures
        decided(p, heard, count).1 is Header ==> decided(p, heard, count).0.header_attempts
            == p.header_attempts + 1,
        decided(p, heard, count).1 is Header ==> decided(p, heard, count).0.header_attempts
            < MAX_HEADER_ATTEMPTS,
        decided(p, heard, count).0.header_attempts >= p.header_attempts,
{
}

/// The header is sent again only before the first block, and a transfer that has sent a
/// block does not go back behind the first one.
pub proof fn law_header_comes_before_the_blocks(p: Progress, heard: Option<Ack>, count: int)
    requires
        p.wf(),
    ensures
        decided(p, heard, count).1 is Header ==> p.block == -1 && decided(p, heard, count).0.block
            == -1,
        p.block >= 0 ==> decided(p, heard, count).0.block >= 0,
        decided(p, heard, count).1 is Block ==> decided(p, heard, count).0.started,
{
}

/// Asking for a block again sends the block that was sent last, and changes nothing
/// about which one comes next.
pub proof fn law_resend_repeats_the_block(p: Progress, count: int)
    requires
        p.wf(),
        0 <= p.block < count,
    ensures
        decided(p, Some(Ack::Resend), count).1 == Move::Block(p.block as usize),
        decided(decided(p, Some(Ack::Resend), count).0, Some(Ack::Next), count).1 == decided(
            p,
            Some(Ack::Next),
            count,
        ).1,
{
}

/// Where a transfer stands after `n` requests for the next block.
pub open spec fn after_nexts(p: Progress, n: nat, count: int) -> Progress
    decreases n,
{
    if n == 0 {
        p
    } else {
        decided(after_nexts(p, (n - 1) as nat, count), Some(Ack::Next), count).0
    }
}

/// The blocks' contents that `n` requests for the next block put on the wire.
pub open spec fn flashed(image: Seq<u8>, kind: BlockKind, p: Progress, n: nat) -> Seq<u8>
    decreases n,
{
    if n == 0 {
        Seq::empty()
    } else {
        let count = blocks(image.len() as int, kind);
        let before = flashed(image, kind, p, (n - 1) as nat);
        match decided(after_nexts(p, (n - 1) as nat, count), Some(Ack::Next), count).1 {
            Move::Block(b) => before + block_bytes(image, kind, b as int),
            _ => before,
        }
    }
}

proof fn lemma_nexts(image: Seq<u8>, kind: BlockKind, n: nat)
    requires
        n <= blocks(image.len() as int, kind),
        blocks(image.len() as int, kind) <= usize::MAX,
        blocks(image.len() as int, kind) < i64::MAX,
    ensures
        after_nexts(fresh(), n, blocks(image.len() as int, kind)).block == n - 1,
        flashed(image, kind, fresh(), n) == joined(image, kind, n),
    decreases n,
{
    if n > 0 {
        lemma_nexts(image, kind, (n - 1) as nat);
    }
}

/// A light that asks for one block after the other receives the image: as many
/// requests as it has blocks put the whole of it on the wire, in order, and the next
/// request puts nothing there.
pub proof fn law_nexts_send_the_image(image: Seq<u8>, kind: BlockKind)
    requires
        image.len() <= usize::MAX,
        image.len() < i64::MAX,
    ensures
        ({
            let count = blocks(image.len() as int, kind);
            &&& flashed(image, kind, fresh(), count as nat) == image
            &&& decided(after_nexts(fresh(), count as nat, count), Some(Ack::Next), count).1
                == Move::Wait
        }),
{
    lemma_nexts(image, kind, blocks(image.len() as int, kind) as nat);
    law_blocks_rebuild_the_image(image, kind);
}

/// A transfer answers each acknowledgement: next sends the block behind the last one and
/// waits past the end, restart sends the first, done finishes, fail gives up, anything
/// unknown waits; each of them counts as an answer, and nothing else about the transfer
/// changes.
pub proof fn law_answers(p: Progress, count: int, op: u8)
    requires
        p.wf(),
        0 <= count <= usize::MAX,
    ensures
        ({
            let (q, m) = decided(p, Some(Ack::Next), count);
            &&& q.block == p.block + 1 && q.started && q.header_attempts == p.header_attempts
                && q.resends == p.resends
            &&& p.block + 1 < count ==> m is Block && m->Block_0 == p.block + 1
            &&& p.block + 1 >= count ==> m == Move::Wait
        }),
        ({
            let (q, m) = decided(p, Some(Ack::Restart), count);
            &&& q.block == 0 && q.started && q.header_attempts == p.header_attempts && q.resends
                == p.resends
            &&& count > 0 ==> m is Block && m->Block_0 == 0
            &&& count == 0 ==> m == Move::Wait
        }),
        ({
            let (q, m) = decided(p, Some(Ack::Done), count);
            q == (Progress { started: true, ..p }) && m == Move::Finish
        }),
        ({
            let (q, m) = decided(p, Some(Ack::Fail), count);
            q == (Progress { started: true, ..p }) && m == Move::Abort(Abort::Rejected)
        }),
        ({
            let (q, m) = decided(p, Some(Ack::Unknown(op)), count);
            q == (Progress { started: true, ..p }) && m == Move::Wait
        }),
{
}

/// A light that asks again gets the same block again, and, before the first block, the
/// header; the asking is counted. The header is sent five times at most.
pub proof fn law_asking_again(p: Progress, count: int)
    requires
        p.wf(),
        0 <= count <= usize::MAX,
    ensures
        ({
            let (q, m) = decided(p, Some(Ack::Resend), count);
            &&& q.resends == p.resends + 1 && q.started && q.block == p.block
            &&& 0 <= p.block < count ==> m is Block && m->Block_0 == p.block
            &&& p.block >= count ==> m == Move::Wait
            &&& p.block >= 0 ==> q.header_attempts == p.header_attempts
            &&& p.block < 0 ==> q.header_attempts == p.header_attempts + 1
            &&& p.block < 0 && p.header_attempts + 1 < 5 ==> m == Move::Header
            &&& p.block < 0 && p.header_attempts + 1 >= 5 ==> m == Move::Abort(
                Abort::HeaderRejected,
            )
        }),
{
}

/// Silence ends a transfer that has been answered; before that the header is sent again,
/// five times at most.
pub proof fn law_silence(p: Progress, count: int)
    requires
        p.wf(),
    ensures
        ({
            let (q, m) = decided(p, None, count);
            &&& p.started ==> q == p && m == Move::Abort(Abort::Silent)
            &&& !p.started ==> {
                &&& q == (Progress { header_attempts: (p.header_attempts + 1) as u32, ..p })
                &&& p.header_attempts + 1 < 5 ==> m == Move::Header
                &&& p.header_attempts + 1 >= 5 ==> m == Move::Abort(Abort::HeaderIgnored)
            }
        }),
{
}

/// A transfer starts before its first block, with nothing heard and nothing counted.
pub proof fn law_a_transfer_starts_at_the_header(count: int)
    requires
        0 < count <= usize::MAX,
    ensures
        fresh().block == -1 && !fresh().started && fresh().header_attempts == 0 && fresh().resends
            == 0,
        decided(fresh(), Some(Ack::Next), count).1 is Block,
        decided(fresh(), Some(Ack::Next), count).1->Block_0 == 0,
{
}

/// The share of an image that has been sent with a block: everything up to the end of
/// that block, in whole percent; with the last block it is all of it.
pub proof fn law_percent_of_the_image(image: Seq<u8>, kind: BlockKind, block: int)
    requires
        0 < image.len() <= u32::MAX,
        0 <= block < blocks(image.len() as int, kind),
    ensures
        ({
            let part = percent(image, kind, block, image.len() as u32);
            let size = if kind == BlockKind::Std128 {
                128int
            } else {
                4096int
            };
            let end = if (block + 1) * size < image.len() {
                (block + 1) * size
            } else {
                image.len() as int
            };
            &&& part * image.len() <= end * 100 < (part + 1) * image.len()
            &&& end == image.len() ==> part == 100
        }),
{
    let size = kind.size();
    let end = block * size + block_bytes(image, kind, block).len();
    assert(block * size < image.len()) by {
        if kind == BlockKind::Std128 {
            assert(block * size == block * 128) by (nonlinear_arith)
                requires
                    size == 128,
            ;
        } else {
            assert(block * size == block * 4096) by (nonlinear_arith)
                requires
                    size == 4096,
            ;
        }
    }
    assert((block + 1) * size == block * size + size) by (nonlinear_arith);
    let len = image.len() as int;
    let part = end * 100 / len;
    vstd::arithmetic::div_mod::lemma_fundamental_div_mod(end * 100, len);
    vstd::arithmetic::div_mod::lemma_mod_bound(end * 100, len);
    assert(len * part == part * len) by (nonlinear_arith);
    assert((part + 1) * len == part * len + len) by (nonlinear_arith);
    if end == len {
        assert(len * 100 / len == 100) by (nonlinear_arith)
            requires
                len > 0,
        ;
    }
}

/// A progress line comes with the first block, and then whenever the share has grown by
/// two points; without a line so far, from the first point on.
pub proof fn law_progress_lines(share: int, block: int, last: u128)
    ensures
        worth_a_line(share, 0, Some(last)) && worth_a_line(share, 0, None),
        block != 0 ==> (worth_a_line(share, block, Some(last)) <==> share - last >= 2),
        block != 0 ==> (worth_a_line(share, block, None) <==> share >= 1),
{
}

/// A block is framed with the ordinary header byte around its own stretch of the image.
pub proof fn law_framed_blocks(image: Seq<u8>, i: int, j: int)
    requires
        0 <= i,
        0 <= j < 128,
        i * 128 + j < image.len(),
    ensures
        framed(image, BlockKind::Std128, i)[0] == 0x78,
        framed(image, BlockKind::Std128, i)[1] == 0x97,
        framed(image, BlockKind::Std128, i)[3 + j] == image[i * 128 + j],
{
    crate::protocol::ota::law_blocks_are_stretches(image, i, j);
    crate::protocol::ota::law_block_layout(block_bytes(image, BlockKind::Std128, i), 0x78, j);
}

/// The same of large blocks.
pub proof fn law_framed_large_blocks(image: Seq<u8>, i: int, j: int)
    requires
        0 <= i,
        0 <= j < 4096,
        i * 4096 + j < image.len(),
    ensures
        framed(image, BlockKind::Pro4096, i)[0] == 0x78,
        framed(image, BlockKind::Pro4096, i)[1] == 0xCF,
        framed(image, BlockKind::Pro4096, i)[4 + j] == image[i * 4096 + j],
{
    crate::protocol::ota::law_blocks_are_stretches(image, i, j);
    crate::protocol::ota::law_block_layout(block_bytes(image, BlockKind::Pro4096, i), 0x78, j);
}

/// The first word of an image is its first four bytes, the first one lowest.
pub proof fn law_first_word(image: Seq<u8>, word: u32)
    requires
        image.len() >= 4,
        image[0] == word % 256,
        image[1] == word / 256 % 256,
        image[2] == word / 65536 % 256,
        image[3] == word / 16777216,
    ensures
        first_word(image) == word,
{
}

/// Steps of one transfer send one image, in one block size, under one header.
pub proof fn law_one_flash(a: Transfer, b: Transfer)
    ensures
        a.same_flash(b) <==> a.image@ == b.image@ && a.kind == b.kind && a.header == b.header,
{
}

} // verus!
