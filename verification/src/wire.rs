//! The byte codec of the calling convention.
//!
//! Every message crossing the plugin boundary, and every persisted record,
//! is a tree of plain values encoded as tagged, length-prefixed bytes: a
//! compact self-describing binary format of the MessagePack family, with
//! a proved round trip. It is this crate's own convention: a module must
//! encode its calls and replies in this format, not in another member of
//! that family.

use vstd::prelude::*;

verus! {

broadcast use vstd::seq::axiom_seq_index_decreases, vstd::std_specs::vec::axiom_vec_decreases_to_view, vstd::std_specs::vec::axiom_vec_index_decreases;

/// A node of an encoded message: nil, a boolean, an integer, a string,
/// or an array of nodes.
#[derive(Debug)]
pub enum Wire {
    /// The nil node.
    Nil,
    /// A boolean node.
    Bool(bool),
    /// An integer node.
    Int(i64),
    /// A string node.
    Str(String),
    /// An array node.
    Arr(Vec<Wire>),
}

/// The mathematical model of a [`Wire`] node.
pub enum WireV {
    /// The nil node.
    Nil,
    /// A boolean node.
    Bool(bool),
    /// An integer node.
    Int(i64),
    /// A string node.
    Str(Seq<char>),
    /// An array node.
    Arr(Seq<WireV>),
}

/// The deep views of a sequence of wire nodes.
pub open spec fn wires_view(ws: Seq<Wire>) -> Seq<WireV>
    decreases ws,
{
    Seq::new(
        ws.len(),
        |i: int|
            if 0 <= i < ws.len() {
                ws[i].deep_view()
            } else {
                WireV::Nil
            },
    )
}

impl DeepView for Wire {
    type V = WireV;

    open spec fn deep_view(&self) -> WireV
        decreases self,
    {
        match self {
            Wire::Nil => WireV::Nil,
            Wire::Bool(b) => WireV::Bool(*b),
            Wire::Int(i) => WireV::Int(*i),
            Wire::Str(s) => WireV::Str(s@),
            Wire::Arr(ws) => WireV::Arr(wires_view(ws@)),
        }
    }
}

/// The eight bytes of a 64-bit value, least significant first.
pub open spec fn le_bytes(x: u64) -> Seq<u8> {
    seq![
        (x & 0xff) as u8,
        ((x >> 8) & 0xff) as u8,
        ((x >> 16) & 0xff) as u8,
        ((x >> 24) & 0xff) as u8,
        ((x >> 32) & 0xff) as u8,
        ((x >> 40) & 0xff) as u8,
        ((x >> 48) & 0xff) as u8,
        ((x >> 56) & 0xff) as u8,
    ]
}

/// The 64-bit value read from eight bytes, least significant first.
pub open spec fn le_val(b: Seq<u8>) -> u64
    recommends
        b.len() == 8,
{
    (b[0] as u64) | ((b[1] as u64) << 8) | ((b[2] as u64) << 16) | ((b[3] as u64) << 24) | ((
    b[4] as u64) << 32) | ((b[5] as u64) << 40) | ((b[6] as u64) << 48) | ((b[7] as u64) << 56)
}

/// Reading back the written bytes of a value gives the value.
pub proof fn lemma_le_roundtrip(x: u64)
    ensures
        le_val(le_bytes(x)) == x,
{
    let b0 = (x & 0xff) as u8;
    let b1 = ((x >> 8) & 0xff) as u8;
    let b2 = ((x >> 16) & 0xff) as u8;
    let b3 = ((x >> 24) & 0xff) as u8;
    let b4 = ((x >> 32) & 0xff) as u8;
    let b5 = ((x >> 40) & 0xff) as u8;
    let b6 = ((x >> 48) & 0xff) as u8;
    let b7 = ((x >> 56) & 0xff) as u8;
    assert((b0 as u64) | ((b1 as u64) << 8) | ((b2 as u64) << 16) | ((b3 as u64) << 24) | ((
    b4 as u64) << 32) | ((b5 as u64) << 40) | ((b6 as u64) << 48) | ((b7 as u64) << 56) == x)
        by (bit_vector)
        requires
            b0 == (x & 0xff) as u8,
            b1 == ((x >> 8) & 0xff) as u8,
            b2 == ((x >> 16) & 0xff) as u8,
            b3 == ((x >> 24) & 0xff) as u8,
            b4 == ((x >> 32) & 0xff) as u8,
            b5 == ((x >> 40) & 0xff) as u8,
            b6 == ((x >> 48) & 0xff) as u8,
            b7 == ((x >> 56) & 0xff) as u8,
    ;
}

/// Appends the eight bytes of a 64-bit value.
fn write_u64(out: &mut Vec<u8>, x: u64)
    ensures
        final(out)@ == old(out)@ + le_bytes(x),
{
    out.push(#[verifier::truncate] ((x & 0xff) as u8));
    out.push(#[verifier::truncate] (((x >> 8) & 0xff) as u8));
    out.push(#[verifier::truncate] (((x >> 16) & 0xff) as u8));
    out.push(#[verifier::truncate] (((x >> 24) & 0xff) as u8));
    out.push(#[verifier::truncate] (((x >> 32) & 0xff) as u8));
    out.push(#[verifier::truncate] (((x >> 40) & 0xff) as u8));
    out.push(#[verifier::truncate] (((x >> 48) & 0xff) as u8));
    out.push(#[verifier::truncate] (((x >> 56) & 0xff) as u8));
    proof {
        assert(final(out)@ =~= old(out)@ + le_bytes(x));
    }
}

/// Reads the 64-bit value whose eight bytes start at a position.
fn read_u64(bytes: &Vec<u8>, pos: usize) -> (x: u64)
    requires
        pos + 8 <= bytes@.len(),
    ensures
        x == le_val(bytes@.subrange(pos as int, pos as int + 8)),
{
    let l = bytes.len();
    let x = (bytes[pos] as u64) | ((bytes[pos + 1] as u64) << 8u64) | ((bytes[pos + 2] as u64)
        << 16u64) | ((bytes[pos + 3] as u64) << 24u64) | ((bytes[pos + 4] as u64) << 32u64) | ((
    bytes[pos + 5] as u64) << 40u64) | ((bytes[pos + 6] as u64) << 48u64) | ((bytes[pos
        + 7] as u64) << 56u64);
    proof {
        let s = bytes@.subrange(pos as int, pos as int + 8);
        assert(s[0] == bytes@[pos as int]);
        assert(s[1] == bytes@[pos as int + 1]);
        assert(s[2] == bytes@[pos as int + 2]);
        assert(s[3] == bytes@[pos as int + 3]);
        assert(s[4] == bytes@[pos as int + 4]);
        assert(s[5] == bytes@[pos as int + 5]);
        assert(s[6] == bytes@[pos as int + 6]);
        assert(s[7] == bytes@[pos as int + 7]);
    }
    x
}

/// The encoding of a wire node: a tag byte, then the node's payload;
/// strings and arrays carry a length prefix.
pub open spec fn sp_encode(w: WireV) -> Seq<u8>
    decreases w,
{
    match w {
        WireV::Nil => seq![0u8],
        WireV::Bool(b) => if b {
            seq![2u8]
        } else {
            seq![1u8]
        },
        WireV::Int(i) => seq![3u8] + le_bytes(i as u64),
        WireV::Str(s) => {
            let bs = vstd::utf8::encode_utf8(s);
            seq![4u8] + le_bytes(bs.len() as u64) + bs
        },
        WireV::Arr(ws) => seq![5u8] + le_bytes(ws.len() as u64) + sp_encode_seq(ws),
    }
}

/// The concatenated encodings of a sequence of wire nodes.
pub open spec fn sp_encode_seq(ws: Seq<WireV>) -> Seq<u8>
    decreases ws,
{
    if ws.len() == 0 {
        Seq::empty()
    } else {
        sp_encode(ws.first()) + sp_encode_seq(ws.drop_first())
    }
}

/// Appends the encoding of a wire node to a buffer.
pub fn encode_wire(w: &Wire, out: &mut Vec<u8>)
    ensures
        final(out)@ == old(out)@ + sp_encode(w.deep_view()),
    decreases w,
{
    match w {
        Wire::Nil => {
            out.push(0);
            proof {
                assert(final(out)@ =~= old(out)@ + sp_encode(w.deep_view()));
            }
        },
        Wire::Bool(b) => {
            out.push(if *b {
                2
            } else {
                1
            });
            proof {
                assert(final(out)@ =~= old(out)@ + sp_encode(w.deep_view()));
            }
        },
        Wire::Int(i) => {
            out.push(3);
            write_u64(out, #[verifier::truncate] (*i as u64));
            proof {
                assert(final(out)@ =~= old(out)@ + sp_encode(w.deep_view()));
            }
        },
        Wire::Str(s) => {
            out.push(4);
            let bs = s.as_str().as_bytes_vec();
            write_u64(out, bs.len() as u64);
            let n = bs.len();
            let ghost mid = out@;
            #[verifier::loop_isolation(false)]
            for i in 0..n
                invariant
                    n == bs@.len(),
                    out@ =~= mid + bs@.subrange(0, i as int),
            {
                out.push(bs[i]);
                proof {
                    assert(out@ =~= mid + bs@.subrange(0, i + 1));
                }
            }
            proof {
                assert(out@ =~= old(out)@ + sp_encode(w.deep_view()));
            }
        },
        Wire::Arr(ws) => {
            out.push(5);
            write_u64(out, ws.len() as u64);
            let n = ws.len();
            let ghost mid = out@;
            #[verifier::loop_isolation(false)]
            for i in 0..n
                invariant
                    n == ws@.len(),
                    out@ =~= mid + sp_encode_seq(wires_view(ws@).subrange(0, i as int)),
                decreases n - i,
            {
                encode_wire(&ws[i], out);
                proof {
                    lemma_sp_encode_seq_push(wires_view(ws@).subrange(0, i as int), ws@[i as int].deep_view());
                    assert(wires_view(ws@).subrange(0, i as int).push(ws@[i as int].deep_view())
                        =~= wires_view(ws@).subrange(0, i + 1));
                }
            }
            proof {
                assert(wires_view(ws@).subrange(0, n as int) =~= wires_view(ws@));
                assert(out@ =~= old(out)@ + sp_encode(w.deep_view()));
            }
        },
    }
}

/// Appending a node to a sequence appends its encoding to the bytes.
pub proof fn lemma_sp_encode_seq_push(ws: Seq<WireV>, w: WireV)
    ensures
        sp_encode_seq(ws.push(w)) == sp_encode_seq(ws) + sp_encode(w),
    decreases ws.len(),
{
    if ws.len() == 0 {
        assert(ws.push(w).drop_first() =~= Seq::<WireV>::empty());
        assert(ws.push(w).first() == w);
        assert(sp_encode_seq(ws.push(w)) == sp_encode(w) + sp_encode_seq(Seq::<WireV>::empty()));
        assert(sp_encode(w) + sp_encode_seq(Seq::<WireV>::empty()) =~= sp_encode(w));
        assert(sp_encode_seq(ws) + sp_encode(w) =~= sp_encode(w));
    } else {
        lemma_sp_encode_seq_push(ws.drop_first(), w);
        assert(ws.push(w).drop_first() =~= ws.drop_first().push(w));
        assert(ws.push(w).first() == ws.first());
        assert(sp_encode_seq(ws.push(w)) == sp_encode(ws.first()) + sp_encode_seq(
            ws.drop_first().push(w),
        ));
        assert(sp_encode_seq(ws) + sp_encode(w) =~= sp_encode(ws.first()) + (sp_encode_seq(
            ws.drop_first(),
        ) + sp_encode(w)));
    }
}


/// Relies on `String::from_utf8` of std: decodes the characters whose
/// UTF-8 encoding the bytes are, and rejects bytes that are not UTF-8.
#[verifier::external_body]
fn string_from_utf8(v: Vec<u8>) -> (r: Option<String>)
    ensures
        match r {
            Some(s) => vstd::utf8::valid_utf8(v@) && s@ == vstd::utf8::decode_utf8(v@),
            None => !vstd::utf8::valid_utf8(v@),
        },
{
    match String::from_utf8(v) {
        Ok(s) => Some(s),
        Err(_) => None,
    }
}

/// The node decoded at a position, with the position after it;
/// `None` when the bytes are malformed.
pub open spec fn sp_decode(bytes: Seq<u8>, pos: int) -> Option<(WireV, int)>
    decreases bytes.len() - pos, 0int, 0int,
    when pos >= 0
{
    if bytes.len() <= pos {
        None
    } else {
        let tag = bytes[pos];
        if tag == 0 {
            Some((WireV::Nil, pos + 1))
        } else if tag == 1 {
            Some((WireV::Bool(false), pos + 1))
        } else if tag == 2 {
            Some((WireV::Bool(true), pos + 1))
        } else if tag == 3 {
            if pos + 9 <= bytes.len() {
                Some((WireV::Int(le_val(bytes.subrange(pos + 1, pos + 9)) as i64), pos + 9))
            } else {
                None
            }
        } else if tag == 4 {
            if pos + 9 <= bytes.len() {
                let n = le_val(bytes.subrange(pos + 1, pos + 9)) as int;
                if pos + 9 + n <= bytes.len() {
                    let bs = bytes.subrange(pos + 9, pos + 9 + n);
                    if vstd::utf8::valid_utf8(bs) {
                        Some((WireV::Str(vstd::utf8::decode_utf8(bs)), pos + 9 + n))
                    } else {
                        None
                    }
                } else {
                    None
                }
            } else {
                None
            }
        } else if tag == 5 {
            if pos + 9 <= bytes.len() {
                let n = le_val(bytes.subrange(pos + 1, pos + 9)) as int;
                match sp_decode_seq(bytes, pos + 9, n) {
                    Some((ws, p2)) => Some((WireV::Arr(ws), p2)),
                    None => None,
                }
            } else {
                None
            }
        } else {
            None
        }
    }
}

/// The given number of nodes decoded from a position.
pub open spec fn sp_decode_seq(bytes: Seq<u8>, pos: int, count: int) -> Option<
    (Seq<WireV>, int),
>
    decreases bytes.len() - pos, 1int, 0int,
    when pos >= 0
{
    if count < 0 || bytes.len() < pos {
        None
    } else if count == 0 {
        Some((Seq::empty(), pos))
    } else {
        match sp_decode(bytes, pos) {
            None => None,
            Some((w, p2)) => if p2 <= pos || p2 > bytes.len() {
                None
            } else {
                match sp_decode_seq(bytes, p2, count - 1) {
                    None => None,
                    Some((ws, p3)) => Some((seq![w] + ws, p3)),
                }
            },
        }
    }
}

/// Decodes the node starting at a position of a buffer.
pub fn decode_wire(bytes: &Vec<u8>, pos: usize) -> (r: Option<(Wire, usize)>)
    ensures
        match r {
            Some((w, p2)) => sp_decode(bytes@, pos as int) == Some((w.deep_view(), p2 as int))
                && pos < p2 <= bytes@.len(),
            None => sp_decode(bytes@, pos as int) is None,
        },
    decreases bytes@.len() - pos,
{
    let l = bytes.len();
    if l <= pos {
        return None;
    }
    let tag = bytes[pos];
    if tag == 0 {
        Some((Wire::Nil, pos + 1))
    } else if tag == 1 {
        Some((Wire::Bool(false), pos + 1))
    } else if tag == 2 {
        Some((Wire::Bool(true), pos + 1))
    } else if tag == 3 {
        if l - pos >= 9 {
            let x = read_u64(bytes, pos + 1);
            Some((Wire::Int(#[verifier::truncate] (x as i64)), pos + 9))
        } else {
            None
        }
    } else if tag == 4 {
        if l - pos >= 9 {
            let n64 = read_u64(bytes, pos + 1);
            let rem = l - (pos + 9);
            if n64 > rem as u64 {
                return None;
            }
            let n = n64 as usize;
            let sub = vstd::slice::slice_subrange(bytes.as_slice(), pos + 9, pos + 9 + n);
            let v = vstd::slice::slice_to_vec(sub);
            match string_from_utf8(v) {
                Some(s) => Some((Wire::Str(s), pos + 9 + n)),
                None => None,
            }
        } else {
            None
        }
    } else if tag == 5 {
        if l - pos >= 9 {
            let n64 = read_u64(bytes, pos + 1);
            let ghost total = n64 as int;
            let ghost start = pos + 9 as int;
            let mut elems: Vec<Wire> = Vec::new();
            let mut cur: usize = pos + 9;
            let mut k: u64 = 0;
            if cur > l {
                // the nine header bytes exist, so this cannot happen
                proof {
                    assert(false);
                }
                return None;
            }
            #[verifier::loop_isolation(false)]
            while k < n64
                invariant
                    k <= n64,
                    pos < cur <= l,
                    l == bytes@.len(),
                    sp_decode(bytes@, pos as int) == (match sp_decode_seq(
                        bytes@,
                        cur as int,
                        n64 - k,
                    ) {
                        None => None::<(WireV, int)>,
                        Some((ws, p3)) => Some((WireV::Arr(wires_view(elems@) + ws), p3)),
                    }),
                decreases n64 - k,
            {
                match decode_wire(bytes, cur) {
                    None => {
                        return None;
                    },
                    Some((w, p2)) => {
                        proof {
                            let tail = sp_decode_seq(bytes@, p2 as int, n64 - k - 1);
                            if tail is Some {
                                assert(wires_view(elems@) + (seq![w.deep_view()]
                                    + tail->Some_0.0) =~= (wires_view(elems@).push(w.deep_view())
                                    + tail->Some_0.0));
                                assert(wires_view(elems@.push(w)) =~= wires_view(elems@).push(
                                    w.deep_view(),
                                ));
                            }
                        }
                        elems.push(w);
                        cur = p2;
                        k = k + 1;
                    },
                }
            }
            proof {
                assert(sp_decode_seq(bytes@, cur as int, 0) == Some(
                    (Seq::<WireV>::empty(), cur as int),
                ));
                assert(wires_view(elems@) + Seq::<WireV>::empty() =~= wires_view(elems@));
            }
            Some((Wire::Arr(elems), cur))
        } else {
            None
        }
    } else {
        None
    }
}


/// Whether a wire node respects the machine limits of the encoding:
/// every length prefix fits in 64 bits.
pub open spec fn wire_wf(w: WireV) -> bool
    decreases w,
{
    match w {
        WireV::Str(s) => vstd::utf8::encode_utf8(s).len() < 0x1_0000_0000_0000_0000,
        WireV::Arr(ws) => ws.len() < 0x1_0000_0000_0000_0000 && (forall|i: int|
            0 <= i < ws.len() ==> wire_wf(#[trigger] ws[i])),
        _ => true,
    }
}

/// Every encoding starts with its tag byte.
pub proof fn lemma_sp_encode_len(w: WireV)
    ensures
        sp_encode(w).len() >= 1,
{
}

/// Decoding an encoded node gives the node back, wherever it stands
/// in a buffer.
pub proof fn lemma_wire_roundtrip(w: WireV, prefix: Seq<u8>, suffix: Seq<u8>)
    requires
        wire_wf(w),
    ensures
        sp_decode(prefix + sp_encode(w) + suffix, prefix.len() as int) == Some(
            (w, prefix.len() + sp_encode(w).len() as int),
        ),
    decreases w, 0int,
{
    broadcast use vstd::utf8::encode_utf8_valid_utf8, vstd::utf8::encode_utf8_decode_utf8;

    let bytes = prefix + sp_encode(w) + suffix;
    let pos = prefix.len() as int;
    lemma_sp_encode_len(w);
    assert(bytes[pos] == sp_encode(w)[0]);
    match w {
        WireV::Nil => {},
        WireV::Bool(b) => {},
        WireV::Int(i) => {
            let x = i as u64;
            assert(bytes.subrange(pos + 1, pos + 9) =~= le_bytes(x));
            lemma_le_roundtrip(x);
            assert((x as i64) == i) by (bit_vector)
                requires
                    x == i as u64,
            ;
        },
        WireV::Str(str_chars) => {
            let bs = vstd::utf8::encode_utf8(str_chars);
            let x = bs.len() as u64;
            assert(bytes.subrange(pos + 1, pos + 9) =~= le_bytes(x));
            lemma_le_roundtrip(x);
            assert(le_val(bytes.subrange(pos + 1, pos + 9)) as int == bs.len());
            assert(bytes.subrange(pos + 9, pos + 9 + bs.len()) =~= bs);
        },
        WireV::Arr(ws) => {
            let x = ws.len() as u64;
            assert(bytes.subrange(pos + 1, pos + 9) =~= le_bytes(x));
            lemma_le_roundtrip(x);
            assert(le_val(bytes.subrange(pos + 1, pos + 9)) as int == ws.len());
            let prefix2 = prefix + seq![5u8] + le_bytes(x);
            assert(prefix2 + sp_encode_seq(ws) + suffix =~= bytes);
            lemma_wire_roundtrip_seq(ws, prefix2, suffix);
            assert(sp_decode_seq(bytes, pos + 9, ws.len() as int) == Some(
                (ws, prefix2.len() + sp_encode_seq(ws).len() as int),
            ));
            assert(prefix2.len() + sp_encode_seq(ws).len() == prefix.len() + sp_encode(w).len());
        },
    }
}

/// Decoding the encodings of a sequence of nodes gives the nodes back.
pub proof fn lemma_wire_roundtrip_seq(ws: Seq<WireV>, prefix: Seq<u8>, suffix: Seq<u8>)
    requires
        forall|i: int| 0 <= i < ws.len() ==> wire_wf(#[trigger] ws[i]),
    ensures
        sp_decode_seq(prefix + sp_encode_seq(ws) + suffix, prefix.len() as int, ws.len() as int)
            == Some((ws, prefix.len() + sp_encode_seq(ws).len() as int)),
    decreases ws, 1int,
{
    broadcast use vstd::seq::axiom_seq_subrange_decreases;

    let bytes = prefix + sp_encode_seq(ws) + suffix;
    let pos = prefix.len() as int;
    if ws.len() == 0 {
        assert(sp_encode_seq(ws).len() == 0);
        assert(sp_decode_seq(bytes, pos, 0) == Some((Seq::<WireV>::empty(), pos)));
        assert(ws =~= Seq::<WireV>::empty());
    } else {
        let head = ws.first();
        let tail = ws.drop_first();
        assert(decreases_to!(ws => head));
        assert(decreases_to!(ws => tail));
        assert(bytes =~= prefix + sp_encode(head) + (sp_encode_seq(tail) + suffix));
        lemma_wire_roundtrip(head, prefix, sp_encode_seq(tail) + suffix);
        let p2: int = prefix.len() + sp_encode(head).len() as int;
        lemma_sp_encode_len(head);
        assert(sp_decode(bytes, pos) == Some((head, p2)));
        let prefix2 = prefix + sp_encode(head);
        assert(prefix2.len() == p2);
        assert(bytes =~= prefix2 + sp_encode_seq(tail) + suffix);
        lemma_wire_roundtrip_seq(tail, prefix2, suffix);
        assert(sp_decode_seq(bytes, p2, tail.len() as int) == Some(
            (tail, prefix2.len() + sp_encode_seq(tail).len() as int),
        ));
        assert(p2 <= bytes.len());
        assert(seq![head] + tail =~= ws);
        assert(sp_encode_seq(ws) == sp_encode(head) + sp_encode_seq(tail));
    }
}


/// Packs a reply for the calling convention: the byte length in the high
/// half, the pointer in the low half.
pub fn pack_reply(len: u32, ptr: u32) -> (r: u64)
    ensures
        r == ((len as u64) << 32) | (ptr as u64),
{
    ((len as u64) << 32u64) | (ptr as u64)
}

/// Unpacks a reply of the calling convention: the byte length from the
/// high half, the pointer from the low half.
pub fn unpack_reply(packed: u64) -> (r: (u32, u32))
    ensures
        r.0 == (packed >> 32) as u32,
        r.1 == packed as u32,
{
    (
        #[verifier::truncate] ((packed >> 32u64) as u32),
        #[verifier::truncate] (packed as u32),
    )
}

/// Unpacking a packed reply gives the length and the pointer back.
pub proof fn lemma_reply_roundtrip(len: u32, ptr: u32)
    ensures
        ((((len as u64) << 32) | (ptr as u64)) >> 32) as u32 == len,
        (((len as u64) << 32) | (ptr as u64)) as u32 == ptr,
{
    let packed: u64 = ((len as u64) << 32) | (ptr as u64);
    assert(((packed >> 32) as u32) == len && (packed as u32) == ptr) by (bit_vector)
        requires
            packed == ((len as u64) << 32) | (ptr as u64),
    ;
}

} // verus!
