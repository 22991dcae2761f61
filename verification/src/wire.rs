//! Big-endian integers and UUIDs on the wire, read from a cursor over a byte buffer
//! and appended to an output buffer.
use vstd::prelude::*;
use vstd::string::StringExecFns;
use crate::ids::{Uuid, half_base, uuid_value_from_u64_pair};

verus! {

/// The value of the two bytes at `i` and `i + 1`, most significant first.
pub open spec fn be_u16_at(s: Seq<u8>, i: int) -> int {
    s[i] * 0x100 + s[i + 1]
}

/// The value of the four bytes from `i`, most significant first.
pub open spec fn be_u32_at(s: Seq<u8>, i: int) -> int {
    s[i] * 0x100_0000 + s[i + 1] * 0x1_0000 + s[i + 2] * 0x100 + s[i + 3]
}

/// The value of the eight bytes from `i`, most significant first.
pub open spec fn be_u64_at(s: Seq<u8>, i: int) -> int {
    be_u32_at(s, i) * 0x1_0000_0000 + be_u32_at(s, i + 4)
}

/// The UUID held by the sixteen bytes from `i`: its upper half first, each half
/// most significant byte first.
pub open spec fn uuid_at(s: Seq<u8>, i: int) -> Uuid {
    Uuid((be_u64_at(s, i) * half_base() + be_u64_at(s, i + 8)) as u128)
}

/// The `n` UUIDs stored back to back from `i`.
pub open spec fn uuids_at(s: Seq<u8>, i: int, n: int) -> Seq<Uuid> {
    Seq::new(n as nat, |k: int| uuid_at(s, i + 16 * k))
}

/// The eight bytes of `v`, most significant first.
#[verifier::opaque]
pub open spec fn be_u64_bytes(v: u64) -> Seq<u8> {
    seq![
        (v / 0x100_0000_0000_0000) as u8,
        (v / 0x1_0000_0000_0000 % 0x100) as u8,
        (v / 0x100_0000_0000 % 0x100) as u8,
        (v / 0x1_0000_0000 % 0x100) as u8,
        (v / 0x100_0000 % 0x100) as u8,
        (v / 0x1_0000 % 0x100) as u8,
        (v / 0x100 % 0x100) as u8,
        (v % 0x100) as u8,
    ]
}

/// The sixteen bytes of a UUID: its upper half, then its lower half.
pub open spec fn uuid_bytes(u: Uuid) -> Seq<u8> {
    be_u64_bytes(u.high() as u64) + be_u64_bytes(u.low() as u64)
}

/// The bytes of a UUID are those of its upper half followed by those of its lower half.
pub proof fn lemma_uuid_bytes_halves(u: Uuid, high: u64, low: u64)
    requires
        high == u.high(),
        low == u.low(),
    ensures
        be_u64_bytes(high) + be_u64_bytes(low) == uuid_bytes(u),
{
}

/// The eight bytes of `v`, read back most significant first, give `v`.
pub proof fn lemma_be_u64_round_trip(v: u64)
    ensures
        be_u64_at(be_u64_bytes(v), 0) == v,
        be_u64_bytes(v).len() == 8,
{
    reveal(be_u64_bytes);
    assert((((v / 0x100_0000_0000_0000) as u8) as u64 * 0x100_0000 + ((v / 0x1_0000_0000_0000
        % 0x100) as u8) as u64 * 0x1_0000 + ((v / 0x100_0000_0000 % 0x100) as u8) as u64 * 0x100
        + ((v / 0x1_0000_0000 % 0x100) as u8) as u64) * 0x1_0000_0000 + (((v / 0x100_0000
        % 0x100) as u8) as u64 * 0x100_0000 + ((v / 0x1_0000 % 0x100) as u8) as u64 * 0x1_0000
        + ((v / 0x100 % 0x100) as u8) as u64 * 0x100 + ((v % 0x100) as u8) as u64) == v)
        by (bit_vector);
}

/// Eight bytes equal to those of `t` read as the same number.
proof fn lemma_be_u64_at_same_bytes(s: Seq<u8>, i: int, t: Seq<u8>)
    requires
        0 <= i,
        i + 8 <= s.len(),
        t.len() == 8,
        forall|k: int| 0 <= k < 8 ==> s[i + k] == t[k],
    ensures
        be_u64_at(s, i) == be_u64_at(t, 0),
{
    assert(s[i] == t[0] && s[i + 1] == t[1] && s[i + 2] == t[2] && s[i + 3] == t[3]);
    assert(s[i + 4] == t[4] && s[i + 5] == t[5] && s[i + 6] == t[6] && s[i + 7] == t[7]);
}

/// The sixteen bytes of a UUID, read back, give the UUID.
pub proof fn lemma_uuid_round_trip(u: Uuid)
    ensures
        uuid_at(uuid_bytes(u), 0) == u,
{
    let x: u128 = u.0;
    assert(x / 0x1_0000_0000_0000_0000 < 0x1_0000_0000_0000_0000) by (bit_vector);
    let hi = u.high();
    let lo = u.low();
    assert(0 <= hi < half_base() && 0 <= lo < half_base());
    let a = be_u64_bytes(hi as u64);
    let b = be_u64_bytes(lo as u64);
    let s = uuid_bytes(u);
    assert(s == a + b);
    lemma_be_u64_round_trip(hi as u64);
    lemma_be_u64_round_trip(lo as u64);
    lemma_be_u64_at_same_bytes(s, 0, a);
    lemma_be_u64_at_same_bytes(s, 8, b);
    assert(hi * half_base() + lo == x) by {
        vstd::arithmetic::div_mod::lemma_fundamental_div_mod(x as int, half_base());
    };
}

/// Bytes appended after a UUID do not change it.
pub proof fn lemma_uuid_at_extended(s: Seq<u8>, t: Seq<u8>, i: int)
    requires
        0 <= i,
        i + 16 <= s.len(),
    ensures
        uuid_at(s + t, i) == uuid_at(s, i),
{
    lemma_be_u64_at_same_bytes(s + t, i, s.subrange(i, i + 8));
    lemma_be_u64_at_same_bytes(s, i, s.subrange(i, i + 8));
    lemma_be_u64_at_same_bytes(s + t, i + 8, s.subrange(i + 8, i + 16));
    lemma_be_u64_at_same_bytes(s, i + 8, s.subrange(i + 8, i + 16));
}

/// Bytes appended after a list of UUIDs do not change it.
pub proof fn lemma_uuids_at_extended(s: Seq<u8>, t: Seq<u8>, i: int, n: int)
    requires
        0 <= i,
        0 <= n,
        i + 16 * n <= s.len(),
    ensures
        uuids_at(s + t, i, n) == uuids_at(s, i, n),
{
    assert forall|k: int| 0 <= k < n implies #[trigger] uuids_at(s + t, i, n)[k] == uuids_at(s, i, n)[k] by {
        lemma_uuid_at_extended(s, t, i + 16 * k);
    }
    assert(uuids_at(s + t, i, n) =~= uuids_at(s, i, n));
}

/// Bytes placed before a UUID shift it without changing it.
pub proof fn lemma_uuid_at_shift(a: Seq<u8>, b: Seq<u8>, i: int)
    requires
        0 <= i,
        i + 16 <= b.len(),
    ensures
        uuid_at(a + b, a.len() + i) == uuid_at(b, i),
{
    let s = a + b;
    let j = a.len() + i;
    lemma_be_u64_at_same_bytes(s, j, b.subrange(i, i + 8));
    lemma_be_u64_at_same_bytes(b, i, b.subrange(i, i + 8));
    lemma_be_u64_at_same_bytes(s, j + 8, b.subrange(i + 8, i + 16));
    lemma_be_u64_at_same_bytes(b, i + 8, b.subrange(i + 8, i + 16));
}

/// A UUID has sixteen bytes.
pub proof fn lemma_uuid_bytes_len(u: Uuid)
    ensures
        uuid_bytes(u).len() == 16,
{
    lemma_be_u64_round_trip(u.high() as u64);
    lemma_be_u64_round_trip(u.low() as u64);
}

/// The bytes of a UUID, wherever they stand in a frame, read back as the UUID.
pub proof fn lemma_uuid_read_back(a: Seq<u8>, u: Uuid, rest: Seq<u8>)
    ensures
        uuid_at(a + uuid_bytes(u) + rest, a.len() as int) == u,
{
    lemma_uuid_bytes_len(u);
    let b = uuid_bytes(u) + rest;
    assert(a + uuid_bytes(u) + rest =~= a + b);
    lemma_uuid_at_shift(a, b, 0);
    assert(uuid_bytes(u) + rest == uuid_bytes(u) + rest);
    lemma_uuid_at_extended(uuid_bytes(u), rest, 0);
    lemma_uuid_round_trip(u);
}

/// The four bytes of `n`, most significant first.
pub open spec fn be_u32_bytes(n: u32) -> Seq<u8> {
    seq![
        (n / 0x100_0000) as u8,
        (n / 0x1_0000 % 0x100) as u8,
        (n / 0x100 % 0x100) as u8,
        (n % 0x100) as u8,
    ]
}

/// The two bytes of `n`, most significant first.
pub open spec fn be_u16_bytes(n: u16) -> Seq<u8> {
    seq![(n / 0x100) as u8, (n % 0x100) as u8]
}

/// The four bytes of `n`, wherever they stand in a frame, read back as `n`.
pub proof fn lemma_be_u32_read_back(a: Seq<u8>, n: u32, rest: Seq<u8>)
    ensures
        be_u32_at(a + be_u32_bytes(n) + rest, a.len() as int) == n,
{
    let s = a + be_u32_bytes(n) + rest;
    let i = a.len() as int;
    assert(s[i] == (n / 0x100_0000) as u8);
    assert(s[i + 1] == (n / 0x1_0000 % 0x100) as u8);
    assert(s[i + 2] == (n / 0x100 % 0x100) as u8);
    assert(s[i + 3] == (n % 0x100) as u8);
    assert(((n / 0x100_0000) as u8) as u32 * 0x100_0000 + ((n / 0x1_0000 % 0x100) as u8) as u32
        * 0x1_0000 + ((n / 0x100 % 0x100) as u8) as u32 * 0x100 + ((n % 0x100) as u8) as u32 == n)
        by (bit_vector);
}

/// The two bytes of `n`, wherever they stand in a frame, read back as `n`.
pub proof fn lemma_be_u16_read_back(a: Seq<u8>, n: u16, rest: Seq<u8>)
    ensures
        be_u16_at(a + be_u16_bytes(n) + rest, a.len() as int) == n,
{
    let s = a + be_u16_bytes(n) + rest;
    let i = a.len() as int;
    assert(s[i] == (n / 0x100) as u8);
    assert(s[i + 1] == (n % 0x100) as u8);
    assert(((n / 0x100) as u8) as u16 * 0x100 + ((n % 0x100) as u8) as u16 == n) by (bit_vector);
}

/// The bytes of UUIDs stored back to back, in order.
pub open spec fn uuids_bytes(us: Seq<Uuid>) -> Seq<u8>
    decreases us.len(),
{
    if us.len() == 0 {
        Seq::empty()
    } else {
        uuids_bytes(us.drop_last()) + uuid_bytes(us.last())
    }
}

/// UUIDs stored back to back take sixteen bytes each.
pub proof fn lemma_uuids_bytes_len(us: Seq<Uuid>)
    ensures
        uuids_bytes(us).len() == 16 * us.len(),
    decreases us.len(),
{
    if us.len() > 0 {
        lemma_uuids_bytes_len(us.drop_last());
        lemma_uuid_bytes_len(us.last());
    }
}

/// UUIDs stored back to back, wherever they stand in a frame, read back as the same
/// UUIDs in the same order.
pub proof fn lemma_uuids_read_back(a: Seq<u8>, us: Seq<Uuid>, rest: Seq<u8>)
    ensures
        uuids_at(a + uuids_bytes(us) + rest, a.len() as int, us.len() as int) == us,
    decreases us.len(),
{
    let s = a + uuids_bytes(us) + rest;
    if us.len() == 0 {
        assert(uuids_at(s, a.len() as int, 0) =~= us);
    } else {
        let p = us.drop_last();
        let x = us.last();
        let n = us.len() as int;
        lemma_uuids_bytes_len(p);
        let rest2 = uuid_bytes(x) + rest;
        assert(s =~= a + uuids_bytes(p) + rest2);
        lemma_uuids_read_back(a, p, rest2);
        assert(s =~= (a + uuids_bytes(p)) + uuid_bytes(x) + rest);
        lemma_uuid_read_back(a + uuids_bytes(p), x, rest);
        assert forall|k: int| 0 <= k < n implies #[trigger] uuids_at(s, a.len() as int, n)[k] == us[k] by {
            if k < n - 1 {
                assert(uuids_at(s, a.len() as int, n - 1)[k] == p[k]);
            }
        }
        assert(uuids_at(s, a.len() as int, n) =~= us);
    }
}

/// A read position in an owned byte buffer.
pub struct ByteCursor {
    data: Vec<u8>,
    pos: usize,
}

/// Why a read from a cursor stopped.
#[derive(Clone, Copy, Debug, PartialEq, Eq, Structural)]
pub enum WireError {
    /// The buffer ended before the value did.
    UnexpectedEof,
}

impl WireError {
    /// The text of the error.
    pub open spec fn text(self) -> Seq<char> {
        "unexpected end of file"@
    }

    /// Renders the error as its text.
    pub fn to_string(&self) -> (s: String)
        ensures
            s@ == self.text(),
    {
        String::from_str("unexpected end of file")
    }
}

impl ByteCursor {
    /// The whole buffer.
    pub closed spec fn bytes(&self) -> Seq<u8> {
        self.data@
    }

    /// The index of the next byte to read.
    pub closed spec fn position(&self) -> int {
        self.pos as int
    }

    /// The bytes not read yet: none when the position lies past the end.
    pub open spec fn remaining(&self) -> Seq<u8> {
        if self.position() <= self.bytes().len() {
            self.bytes().skip(self.position())
        } else {
            Seq::empty()
        }
    }

    /// Where a read that runs out of bytes leaves the cursor: at the end of the buffer,
    /// or where it was when that lies past the end.
    pub open spec fn end_position(&self) -> int {
        if self.position() > self.bytes().len() {
            self.position()
        } else {
            self.bytes().len() as int
        }
    }

    /// A cursor at the start of `data`.
    pub fn new(data: Vec<u8>) -> (c: Self)
        ensures
            c.bytes() == data@,
            c.position() == 0,
            c.remaining() == data@,
    {
        let c = ByteCursor { data, pos: 0 };
        assert(c.remaining() =~= data@);
        c
    }

    /// Moves the cursor to `pos`, which may lie past the end of the buffer.
    pub fn set_position(&mut self, pos: usize)
        ensures
            final(self).bytes() == old(self).bytes(),
            final(self).position() == pos,
    {
        self.pos = pos;
    }

    /// The number of bytes not read yet.
    fn available(&self) -> (n: usize)
        ensures
            n == self.remaining().len(),
            self.position() < self.bytes().len() ==> n == self.bytes().len() - self.position(),
            self.position() >= self.bytes().len() ==> n == 0,
    {
        if self.pos < self.data.len() {
            self.data.len() - self.pos
        } else {
            0
        }
    }

    /// Moves the cursor to where a read that runs out of bytes leaves it.
    fn exhaust(&mut self)
        ensures
            final(self).bytes() == old(self).bytes(),
            final(self).position() == old(self).end_position(),
    {
        if self.pos < self.data.len() {
            self.pos = self.data.len();
        }
    }

    /// The index of the next byte to read.
    pub fn position_index(&self) -> (p: usize)
        ensures
            p == self.position(),
    {
        self.pos
    }

    /// Gives the buffer back.
    pub fn into_inner(self) -> (data: Vec<u8>)
        ensures
            data@ == self.bytes(),
    {
        self.data
    }

    /// Reads one byte. When none is left the cursor stays where it is and the read fails.
    pub fn read_u8(&mut self) -> (res: Result<u8, WireError>)
        ensures
            final(self).bytes() == old(self).bytes(),
            old(self).remaining().len() >= 1 ==> {
                &&& res == Ok::<u8, WireError>(old(self).remaining()[0])
                &&& final(self).position() == old(self).position() + 1
                &&& final(self).remaining() == old(self).remaining().skip(1)
            },
            old(self).remaining().len() < 1 ==> {
                &&& res == Err::<u8, WireError>(WireError::UnexpectedEof)
                &&& final(self).position() == old(self).end_position()
            },
    {
        if self.pos < self.data.len() {
            let b: u8 = self.data[self.pos];
            self.pos = self.pos + 1;
            Ok(b)
        } else {
            Err(WireError::UnexpectedEof)
        }
    }

    /// Reads a big-endian `u16`. When fewer than two bytes are left, the read fails and the
    /// cursor moves to its end position.
    pub fn read_u16(&mut self) -> (res: Result<u16, WireError>)
        ensures
            final(self).bytes() == old(self).bytes(),
            old(self).remaining().len() >= 2 ==> {
                &&& res matches Ok(v) && v == be_u16_at(old(self).remaining(), 0)
                &&& final(self).position() == old(self).position() + 2
                &&& final(self).remaining() == old(self).remaining().skip(2)
            },
            old(self).remaining().len() < 2 ==> {
                &&& res == Err::<u16, WireError>(WireError::UnexpectedEof)
                &&& final(self).position() == old(self).end_position()
            },
    {
        if self.available() < 2 {
            self.exhaust();
            return Err(WireError::UnexpectedEof);
        }
        let len: usize = self.data.len();
        assert(self.pos < len && len - self.pos >= 2);
        let p: usize = self.pos;
        let v: u16 = (self.data[p] as u16) * 0x100 + (self.data[p + 1] as u16);
        self.pos = p + 2;
        Ok(v)
    }

    /// Reads a big-endian `u32`. When fewer than four bytes are left, the read fails and the
    /// cursor moves to its end position.
    pub fn read_u32(&mut self) -> (res: Result<u32, WireError>)
        ensures
            final(self).bytes() == old(self).bytes(),
            old(self).remaining().len() >= 4 ==> {
                &&& res matches Ok(v) && v == be_u32_at(old(self).remaining(), 0)
                &&& final(self).position() == old(self).position() + 4
                &&& final(self).remaining() == old(self).remaining().skip(4)
            },
            old(self).remaining().len() < 4 ==> {
                &&& res == Err::<u32, WireError>(WireError::UnexpectedEof)
                &&& final(self).position() == old(self).end_position()
            },
    {
        if self.available() < 4 {
            self.exhaust();
            return Err(WireError::UnexpectedEof);
        }
        let len: usize = self.data.len();
        assert(self.pos < len && len - self.pos >= 4);
        let p: usize = self.pos;
        let v: u32 = (self.data[p] as u32) * 0x100_0000 + (self.data[p + 1] as u32) * 0x1_0000
            + (self.data[p + 2] as u32) * 0x100 + (self.data[p + 3] as u32);
        self.pos = p + 4;
        Ok(v)
    }

    /// Reads a big-endian `u64`. When fewer than eight bytes are left, the read fails and the
    /// cursor moves to its end position.
    pub fn read_u64(&mut self) -> (res: Result<u64, WireError>)
        ensures
            final(self).bytes() == old(self).bytes(),
            old(self).remaining().len() >= 8 ==> {
                &&& res matches Ok(v) && v == be_u64_at(old(self).remaining(), 0)
                &&& final(self).position() == old(self).position() + 8
                &&& final(self).remaining() == old(self).remaining().skip(8)
            },
            old(self).remaining().len() < 8 ==> {
                &&& res == Err::<u64, WireError>(WireError::UnexpectedEof)
                &&& final(self).position() == old(self).end_position()
            },
    {
        if self.available() < 8 {
            self.exhaust();
            return Err(WireError::UnexpectedEof);
        }
        let len: usize = self.data.len();
        assert(self.pos < len && len - self.pos >= 8);
        let p: usize = self.pos;
        let hi: u32 = (self.data[p] as u32) * 0x100_0000 + (self.data[p + 1] as u32) * 0x1_0000
            + (self.data[p + 2] as u32) * 0x100 + (self.data[p + 3] as u32);
        let lo: u32 = (self.data[p + 4] as u32) * 0x100_0000 + (self.data[p + 5] as u32)
            * 0x1_0000 + (self.data[p + 6] as u32) * 0x100 + (self.data[p + 7] as u32);
        let v: u64 = (hi as u64) * 0x1_0000_0000 + (lo as u64);
        self.pos = p + 8;
        Ok(v)
    }

    /// Reads a UUID as two big-endian `u64`, upper half first. When fewer than sixteen bytes are left, the read fails and the
    /// cursor moves to its end position.
    pub fn read_uuid(&mut self) -> (res: Result<Uuid, WireError>)
        ensures
            final(self).bytes() == old(self).bytes(),
            old(self).remaining().len() >= 16 ==> {
                &&& res == Ok::<Uuid, WireError>(uuid_at(old(self).remaining(), 0))
                &&& final(self).position() == old(self).position() + 16
                &&& final(self).remaining() == old(self).remaining().skip(16)
            },
            old(self).remaining().len() < 16 ==> {
                &&& res == Err::<Uuid, WireError>(WireError::UnexpectedEof)
                &&& final(self).position() == old(self).end_position()
            },
    {
        let ghost s = self.remaining();
        let high: u64 = match self.read_u64() {
            Ok(v) => v,
            Err(e) => return Err(e),
        };
        assert(self.remaining() =~= s.skip(8));
        let low: u64 = match self.read_u64() {
            Ok(v) => v,
            Err(e) => return Err(e),
        };
        let value: u128 = uuid_value_from_u64_pair(high, low);
        Ok(Uuid(value))
    }

    /// Reads a big-endian `u16` and gives back an empty string: the value only sizes the
    /// capacity of the string's buffer, whose length stays 0, so no byte of the string
    /// is read. When fewer than two bytes are left, the cursor moves to the end of the
    /// buffer and the read fails.
    #[allow(dead_code)]
    pub(crate) fn read_string(&mut self) -> (res: Result<String, WireError>)
        ensures
            final(self).bytes() == old(self).bytes(),
            old(self).remaining().len() >= 2 ==> {
                &&& res matches Ok(s) && s@ == Seq::<char>::empty()
                &&& final(self).position() == old(self).position() + 2
                &&& final(self).remaining() == old(self).remaining().skip(2)
            },
            old(self).remaining().len() < 2 ==> {
                &&& res == Err::<String, WireError>(WireError::UnexpectedEof)
                &&& final(self).position() == old(self).end_position()
            },
    {
        let _capacity: u16 = match self.read_u16() {
            Ok(n) => n,
            Err(e) => return Err(e),
        };
        Ok(String::new())
    }

    /// Reads a big-endian `u32` count, then that many UUIDs. When the buffer ends first,
    /// the read fails and the cursor moves to its end position.
    pub fn read_uuid_list(&mut self) -> (res: Result<Vec<Uuid>, WireError>)
        ensures
            final(self).bytes() == old(self).bytes(),
            ({
                let r = old(self).remaining();
                if r.len() >= 4 && r.len() >= 4 + 16 * be_u32_at(r, 0) {
                    &&& res matches Ok(v) && v@ == uuids_at(r, 4, be_u32_at(r, 0))
                    &&& final(self).position() == old(self).position() + 4 + 16 * be_u32_at(r, 0)
                    &&& final(self).remaining() == r.skip(4 + 16 * be_u32_at(r, 0))
                } else {
                    &&& res == Err::<Vec<Uuid>, WireError>(WireError::UnexpectedEof)
                    &&& final(self).position() == old(self).end_position()
                }
            }),
    {
        let ghost r = self.remaining();
        let ghost p0 = self.position();
        let count: u32 = match self.read_u32() {
            Ok(n) => n,
            Err(e) => return Err(e),
        };
        let mut result: Vec<Uuid> = Vec::new();
        let mut i: u32 = 0;
        while i < count
            invariant
                self.bytes() == old(self).bytes(),
                r == old(self).remaining(),
                p0 == old(self).position(),
                r.len() >= 4,
                p0 + 4 <= old(self).bytes().len(),
                count == be_u32_at(r, 0),
                i <= count,
                self.position() == p0 + 4 + 16 * i,
                p0 + 4 + 16 * i <= old(self).bytes().len(),
                result@ == uuids_at(r, 4, i as int),
            decreases count - i,
        {
            let ghost before = self.remaining();
            assert(before =~= r.skip(4 + 16 * i));
            let u: Uuid = match self.read_uuid() {
                Ok(u) => u,
                Err(e) => return Err(e),
            };
            assert(uuid_at(before, 0) == uuid_at(r, 4 + 16 * i));
            result.push(u);
            i = i + 1;
            assert(result@ =~= uuids_at(r, 4, i as int));
        }
        assert(self.remaining() =~= r.skip(4 + 16 * count));
        Ok(result)
    }
}

/// The buffer `o` made long enough to reach `p`: zero bytes fill the gap when `p`
/// lies past its end.
pub open spec fn padded(o: Seq<u8>, p: nat) -> Seq<u8> {
    if p <= o.len() {
        o
    } else {
        o + Seq::new((p - o.len()) as nat, |k: int| 0u8)
    }
}

/// The buffer `o` after `new` is written at `p`: the bytes before `p` stay (zero bytes
/// fill any gap between the end and `p`), `new` replaces as many bytes as it has, and
/// those after them stay; the buffer grows where `new` runs past its end.
#[verifier::opaque]
pub open spec fn spliced(o: Seq<u8>, p: nat, new: Seq<u8>) -> Seq<u8> {
    let q = padded(o, p);
    q.take(p as int) + new + if p + new.len() < q.len() {
        q.skip(p + new.len() as int)
    } else {
        Seq::empty()
    }
}

/// Writing `a` then `b` right after it is writing `a + b`.
pub proof fn lemma_spliced_concat(o: Seq<u8>, p: nat, a: Seq<u8>, b: Seq<u8>)
    ensures
        spliced(spliced(o, p, a), p + a.len(), b) == spliced(o, p, a + b),
{
    reveal(spliced);
    let q = padded(o, p);
    let m = spliced(o, p, a);
    assert(padded(m, p + a.len()) == m);
    assert(m.take(p + a.len() as int) =~= q.take(p as int) + a);
    assert(spliced(m, p + a.len(), b) =~= spliced(o, p, a + b));
}

/// Writing at the end of a buffer appends.
pub proof fn lemma_spliced_at_end(o: Seq<u8>, new: Seq<u8>)
    ensures
        spliced(o, o.len(), new) == o + new,
{
    reveal(spliced);
    assert(o.take(o.len() as int) =~= o);
    assert(spliced(o, o.len(), new) =~= o + new);
}

/// A write position in an owned byte buffer. A write replaces the bytes at the position
/// and extends the buffer where it runs past the end.
pub struct ByteWriter {
    data: Vec<u8>,
    pos: usize,
}

impl ByteWriter {
    /// The whole buffer.
    pub closed spec fn bytes(&self) -> Seq<u8> {
        self.data@
    }

    /// The index where the next byte is written.
    pub closed spec fn position(&self) -> nat {
        self.pos as nat
    }

    /// A writer at the start of `data`.
    pub fn new(data: Vec<u8>) -> (w: Self)
        ensures
            w.bytes() == data@,
            w.position() == 0,
    {
        ByteWriter { data, pos: 0 }
    }

    /// Moves the write position to `pos`, which may lie past the end of the buffer.
    pub fn set_position(&mut self, pos: usize)
        ensures
            final(self).bytes() == old(self).bytes(),
            final(self).position() == pos,
    {
        self.pos = pos;
    }

    /// The index where the next byte is written.
    pub fn position_index(&self) -> (p: usize)
        ensures
            p == self.position(),
    {
        self.pos
    }

    /// Gives the buffer back.
    pub fn into_inner(self) -> (data: Vec<u8>)
        ensures
            data@ == self.bytes(),
    {
        self.data
    }

    /// Fills the gap between the end of the buffer and the position with zero bytes.
    fn pad(&mut self)
        ensures
            final(self).bytes() == padded(old(self).bytes(), old(self).position()),
            final(self).position() == old(self).position(),
    {
        let ghost o = self.data@;
        if self.data.len() >= self.pos {
            return;
        }
        while self.data.len() < self.pos
            invariant
                self.pos == old(self).pos,
                o == old(self).data@,
                o.len() <= self.data@.len() <= self.pos,
                self.data@ == o + Seq::new((self.data@.len() - o.len()) as nat, |k: int| 0u8),
            decreases self.pos - self.data@.len(),
        {
            self.data.push(0);
            assert(self.data@ =~= o + Seq::new((self.data@.len() - o.len()) as nat, |k: int| 0u8));
        }
        assert(self.data@ =~= padded(o, self.pos as nat));
    }

    /// Writes one byte at the position and moves past it.
    pub fn write_u8(&mut self, b: u8)
        ensures
            final(self).bytes() == spliced(old(self).bytes(), old(self).position(), seq![b]),
            final(self).position() == old(self).position() + 1,
    {
        self.pad();
        if self.pos < self.data.len() {
            self.data.set(self.pos, b);
            self.pos = self.pos + 1;
        } else {
            self.data.push(b);
            self.pos = self.data.len();
        }
        assert(self.data@ =~= spliced(old(self).bytes(), old(self).position(), seq![b])) by {
            reveal(spliced);
        };
    }

    /// Writes `bytes` at the position and moves past them.
    pub fn write_bytes(&mut self, bytes: &[u8])
        ensures
            final(self).bytes() == spliced(old(self).bytes(), old(self).position(), bytes@),
            final(self).position() == old(self).position() + bytes@.len(),
    {
        let ghost o = self.bytes();
        let ghost p = self.position();
        self.pad();
        assert(spliced(o, p, bytes@.take(0)) =~= padded(o, p)) by {
            reveal(spliced);
        };
        let mut i: usize = 0;
        while i < bytes.len()
            invariant
                0 <= p,
                0 <= i <= bytes@.len(),
                self.bytes() == spliced(o, p, bytes@.take(i as int)),
                self.position() == p + i,
            decreases bytes@.len() - i,
        {
            let b: u8 = bytes[i];
            self.write_u8(b);
            proof {
                lemma_spliced_concat(o, p, bytes@.take(i as int), seq![b]);
                assert(bytes@.take(i as int) + seq![b] =~= bytes@.take(i + 1));
            }
            i = i + 1;
        }
        assert(bytes@.take(i as int) =~= bytes@);
    }

    /// Writes `v`, most significant byte first, and moves past it.
    pub fn write_u64(&mut self, v: u64)
        ensures
            final(self).bytes() == spliced(old(self).bytes(), old(self).position(), be_u64_bytes(v)),
            final(self).position() == old(self).position() + 8,
    {
        let bytes: [u8; 8] = [
            (v / 0x100_0000_0000_0000) as u8,
            (v / 0x1_0000_0000_0000 % 0x100) as u8,
            (v / 0x100_0000_0000 % 0x100) as u8,
            (v / 0x1_0000_0000 % 0x100) as u8,
            (v / 0x100_0000 % 0x100) as u8,
            (v / 0x1_0000 % 0x100) as u8,
            (v / 0x100 % 0x100) as u8,
            (v % 0x100) as u8,
        ];
        assert(bytes@ =~= be_u64_bytes(v)) by {
            reveal(be_u64_bytes);
        };
        self.write_bytes(&bytes);
    }
}

} // verus!
