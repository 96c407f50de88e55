//! Framing of the packets that the server sends its client: the payload
//! length as a `usize` in this machine's width and byte order, the payload,
//! zero padding of as many bytes as the payload's length modulo 8, and an
//! 8-byte separator.

use vstd::prelude::*;
use vstd::endian::{endianness, Endian};

verus! {

/// The width of a `usize` on this machine, in bytes.
pub open spec fn usize_width() -> nat {
    vstd::layout::size_of::<usize>()
}

/// The `n` lowest bytes of `x`, least significant first.
pub open spec fn le_bytes(x: nat, n: nat) -> Seq<u8>
    decreases n,
{
    if n == 0 {
        Seq::empty()
    } else {
        seq![(x % 256) as u8] + le_bytes(x / 256, (n - 1) as nat)
    }
}

/// The number that the bytes `s` make, least significant first.
pub open spec fn le_value(s: Seq<u8>) -> nat
    decreases s.len(),
{
    if s.len() == 0 {
        0
    } else {
        s[0] as nat + 256 * le_value(s.drop_first())
    }
}

/// The bytes of `x` in this machine's width and byte order.
pub open spec fn native_bytes(x: usize) -> Seq<u8> {
    let le = le_bytes(x as nat, usize_width());
    match endianness() {
        Endian::Little => le,
        Endian::Big => le.reverse(),
    }
}

/// The number that the bytes `s` make in this machine's byte order.
pub open spec fn native_value(s: Seq<u8>) -> nat {
    match endianness() {
        Endian::Little => le_value(s),
        Endian::Big => le_value(s.reverse()),
    }
}

/// Calls `usize::to_ne_bytes`. The contract claims that it gives the bytes of
/// `x`, as many as a `usize` is wide, in this machine's byte order.
#[verifier::external_body]
fn usize_to_ne_bytes(x: usize) -> (r: Vec<u8>)
    ensures
        r@ == native_bytes(x),
{
    x.to_ne_bytes().to_vec()
}

/// Calls `usize::from_ne_bytes` on the bytes `b`, as many as a `usize` is
/// wide. The contract claims that it reads them as a number in this machine's
/// byte order.
#[verifier::external_body]
fn usize_from_ne_bytes(b: &[u8]) -> (r: usize)
    requires
        b@.len() == usize_width(),
    ensures
        r == native_value(b@),
{
    usize::from_ne_bytes(b.try_into().unwrap())
}

/// A `usize` is 4 or 8 bytes wide.
pub proof fn lemma_usize_width()
    ensures
        usize_width() == 4 || usize_width() == 8,
{
    broadcast use vstd::layout::layout_of_primitives;

    assert(vstd::layout::size_of::<usize>() * 8 == usize::BITS);
}

/// The `n` lowest bytes of a number below 256 to the `n` make that number.
proof fn lemma_le_round_trip(x: nat, n: nat)
    requires
        x < vstd::arithmetic::power::pow(256, n),
    ensures
        le_bytes(x, n).len() == n,
        le_value(le_bytes(x, n)) == x,
    decreases n,
{
    if n > 0 {
        let m = (n - 1) as nat;
        let p = vstd::arithmetic::power::pow(256, m);
        assert(vstd::arithmetic::power::pow(256, n) == 256 * p) by {
            reveal(vstd::arithmetic::power::pow);
        }
        assert(x / 256 < p) by (nonlinear_arith)
            requires
                x < 256 * p,
        ;
        lemma_le_round_trip(x / 256, m);
        assert(le_bytes(x, n).drop_first() =~= le_bytes(x / 256, m));
        assert(x == x % 256 + 256 * (x / 256)) by (nonlinear_arith);
        assert(le_bytes(x, n)[0] as nat == x % 256);
    } else {
        assert(x == 0) by {
            reveal(vstd::arithmetic::power::pow);
        }
    }
}

/// Reversing a sequence twice gives it back.
proof fn lemma_reverse_twice(s: Seq<u8>)
    ensures
        s.reverse().len() == s.len(),
        s.reverse().reverse() == s,
{
    if s.len() == 0 {
        assert(s.reverse() =~= s);
    }
    assert(s.reverse().reverse() =~= s);
}

/// What `usize::to_ne_bytes` gives, `usize::from_ne_bytes` reads back.
pub proof fn lemma_native_round_trip(x: usize)
    ensures
        native_bytes(x).len() == usize_width(),
        native_value(native_bytes(x)) == x,
{
    vstd::layout::unsigned_int_max_values();
    lemma_le_round_trip(x as nat, usize_width());
    lemma_reverse_twice(le_bytes(x as nat, usize_width()));
}

/// The separator that ends every frame.
pub open spec fn separator() -> Seq<u8> {
    seq![0x8cu8, 0x0fu8, 0xfeu8, 0xe4u8, 0x8cu8, 0x0fu8, 0xfeu8, 0xe4u8]
}

/// The separator that ends every frame.
pub fn separator_bytes() -> (r: Vec<u8>)
    ensures
        r@ == separator(),
{
    let r = vec![0x8cu8, 0x0fu8, 0xfeu8, 0xe4u8, 0x8cu8, 0x0fu8, 0xfeu8, 0xe4u8];
    assert(r@ =~= separator());
    r
}

/// `n` zero bytes.
pub open spec fn zeros(n: nat) -> Seq<u8> {
    Seq::new(n, |i: int| 0u8)
}

/// The frame that carries `payload`.
pub open spec fn framed(payload: Seq<u8>) -> Seq<u8> {
    native_bytes(payload.len() as usize) + payload + zeros(payload.len() % 8) + separator()
}

/// Frames `payload` (see [`framed`]).
pub fn frame_packet(payload: &Vec<u8>) -> (r: Vec<u8>)
    ensures
        r@ == framed(payload@),
{
    let size = payload.len();
    let ex = size % 8;
    let mut data = usize_to_ne_bytes(size);
    let ghost header = data@;
    for i in 0..size
        invariant
            size == payload@.len(),
            data@ == header + payload@.take(i as int),
    {
        data.push(payload[i]);
        assert(payload@.take(i + 1) =~= payload@.take(i as int).push(payload@[i as int]));
    }
    assert(payload@.take(size as int) =~= payload@);
    for i in 0..ex
        invariant
            data@ == header + payload@ + zeros(i as nat),
    {
        data.push(0u8);
        assert(zeros((i + 1) as nat) =~= zeros(i as nat).push(0u8));
    }
    let sep = separator_bytes();
    let ghost before = data@;
    for i in 0..8
        invariant
            sep@ == separator(),
            data@ == before + separator().take(i as int),
    {
        data.push(sep[i]);
        assert(separator().take(i + 1) =~= separator().take(i as int).push(separator()[i as int]));
    }
    assert(separator().take(8) =~= separator());
    assert(data@ =~= framed(payload@));
    data
}

/// Whether the bytes `b` end a frame: more than 16 of them, ending in the
/// separator.
pub open spec fn frame_ends(b: Seq<u8>) -> bool {
    b.len() > 16 && b.skip(b.len() - 8) == separator()
}

/// The payload length that the header of `b` announces.
pub open spec fn announced_len(b: Seq<u8>) -> int {
    native_value(b.take(usize_width() as int)) as int
}

/// Whether the announced payload of an ended frame lies inside `b`.
pub open spec fn payload_in_bounds(b: Seq<u8>) -> bool {
    frame_ends(b) ==> usize_width() + announced_len(b) <= b.len()
}

/// The payload that the bytes `b` carry, where they end a frame.
pub open spec fn unframed(b: Seq<u8>) -> Option<Seq<u8>> {
    if frame_ends(b) {
        Some(b.subrange(usize_width() as int, usize_width() + announced_len(b)))
    } else {
        None
    }
}

/// The bytes a client has received since its last complete packet.
#[derive(Debug)]
pub struct PacketBuffer {
    buf: Vec<u8>,
}

impl View for PacketBuffer {
    type V = Seq<u8>;

    closed spec fn view(&self) -> Seq<u8> {
        self.buf@
    }
}

impl PacketBuffer {
    /// An empty buffer.
    pub fn new() -> (r: PacketBuffer)
        ensures
            r@ == Seq::<u8>::empty(),
    {
        PacketBuffer { buf: Vec::new() }
    }

    /// The number of bytes held.
    pub fn len(&self) -> (r: usize)
        ensures
            r == self@.len(),
    {
        self.buf.len()
    }

    /// Appends the received bytes `chunk`.
    pub fn extend(&mut self, chunk: &[u8])
        ensures
            final(self)@ == old(self)@ + chunk@,
    {
        let ghost before = self.buf@;
        let n = chunk.len();
        for i in 0..n
            invariant
                n == chunk@.len(),
                self.buf@ == before + chunk@.take(i as int),
        {
            self.buf.push(chunk[i]);
            assert(chunk@.take(i + 1) =~= chunk@.take(i as int).push(chunk@[i as int]));
        }
        assert(chunk@.take(n as int) =~= chunk@);
    }

    /// Drops the bytes held, once a packet has been taken from them.
    pub fn finish_read(&mut self)
        ensures
            final(self)@ == Seq::<u8>::empty(),
    {
        self.buf.clear();
    }

    fn ends_frame(&self) -> (b: bool)
        ensures
            b == frame_ends(self@),
    {
        let n = self.buf.len();
        if n <= 16 {
            return false;
        }
        let sep = separator_bytes();
        for i in 0..8
            invariant
                n == self.buf@.len(),
                n > 16,
                sep@ == separator(),
                forall|j: int| 0 <= j < i ==> self.buf@[n - 8 + j] == separator()[j],
        {
            if self.buf[n - 8 + i] != sep[i] {
                assert(self.buf@.skip(n - 8)[i as int] != separator()[i as int]);
                return false;
            }
        }
        assert(self.buf@.skip(n - 8) =~= separator());
        true
    }

    /// Decides [`payload_in_bounds`] of the bytes held.
    pub fn payload_in_bounds(&self) -> (b: bool)
        ensures
            b == payload_in_bounds(self@),
    {
        if !self.ends_frame() {
            return true;
        }
        let w = core::mem::size_of::<usize>();
        proof {
            lemma_usize_width();
        }
        let head = self.buf.as_slice().split_at(w).0;
        assert(head@ =~= self.buf@.take(w as int));
        let size = usize_from_ne_bytes(head);
        size <= self.buf.len() - w
    }

    /// The payload of the frame that the bytes held end, if they end one
    /// (see [`unframed`]).
    pub fn handle_buff(&self) -> (r: Option<Vec<u8>>)
        requires
            payload_in_bounds(self@),
        ensures
            match r {
                Some(p) => unframed(self@) == Some(p@),
                None => unframed(self@) is None,
            },
    {
        if !self.ends_frame() {
            return None;
        }
        let w = core::mem::size_of::<usize>();
        proof {
            lemma_usize_width();
        }
        let head = self.buf.as_slice().split_at(w).0;
        assert(head@ =~= self.buf@.take(w as int));
        let size = usize_from_ne_bytes(head);
        assert(size == announced_len(self@));
        assert(w == usize_width());
        let len = self.buf.len();
        assert(w + size <= len);
        let end = w + size;
        let mut payload: Vec<u8> = Vec::new();
        for i in w..end
            invariant
                w == usize_width(),
                end == usize_width() + announced_len(self@),
                end <= self.buf@.len(),
                payload@ == self.buf@.subrange(w as int, i as int),
        {
            payload.push(self.buf[i]);
            assert(self.buf@.subrange(w as int, i + 1) =~= self.buf@.subrange(w as int, i as int).push(
                self.buf@[i as int],
            ));
        }
        Some(payload)
    }
}

/// What a frame gives back is what was framed: a frame longer than 16 bytes
/// ends a frame, its announced payload lies inside it, and it carries
/// exactly the payload it was made of. A frame of 16 bytes or fewer (that of
/// an empty payload, and on a machine with a 4-byte `usize` that of a payload
/// of up to 2 bytes) ends none.
pub proof fn lemma_unframe_framed(payload: Seq<u8>)
    requires
        payload.len() <= usize::MAX,
    ensures
        framed(payload).len() > 16 ==> payload_in_bounds(framed(payload)) && unframed(
            framed(payload),
        ) == Some(payload),
        framed(payload).len() <= 16 ==> unframed(framed(payload)) is None,
{
    let h = native_bytes(payload.len() as usize);
    lemma_native_round_trip(payload.len() as usize);
    lemma_frame_parts(h, payload);
}

/// The parts of a frame with the header `h`: its first bytes are the header,
/// then comes the payload, and it ends in the separator.
proof fn lemma_frame_parts(h: Seq<u8>, payload: Seq<u8>)
    ensures
        ({
            let f = h + payload + zeros(payload.len() % 8) + separator();
            &&& f.len() == h.len() + payload.len() + payload.len() % 8 + 8
            &&& f.take(h.len() as int) == h
            &&& f.subrange(h.len() as int, (h.len() + payload.len()) as int) == payload
            &&& f.skip(f.len() - 8) == separator()
        }),
{
    let f = h + payload + zeros(payload.len() % 8) + separator();
    assert(f.take(h.len() as int) =~= h);
    assert(f.subrange(h.len() as int, (h.len() + payload.len()) as int) =~= payload);
    assert(f.skip(f.len() - 8) =~= separator());
}

} // verus!
