use vstd::bytes::{spec_u32_from_le_bytes, spec_u32_to_le_bytes, spec_u64_from_le_bytes, spec_u64_to_le_bytes};
use vstd::prelude::*;
use vstd::utf8::{decode_utf8, encode_utf8, valid_utf8};

use crate::address::Address;
use crate::state::{opt_view, Bounty, BountyView, Submission, SubmissionView};

verus! {

/// `piece` stands in `data` from position `pos` on.
pub open spec fn prefix_at(data: Seq<u8>, pos: int, piece: Seq<u8>) -> bool {
    0 <= pos && pos + piece.len() <= data.len() && data.subrange(pos, pos + piece.len()) == piece
}

/// A text as the record holds it: its byte length in four bytes, little-endian,
/// then its UTF-8 bytes.
pub open spec fn text_bytes(s: Seq<char>) -> Seq<u8> {
    spec_u32_to_le_bytes(encode_utf8(s).len() as u32) + encode_utf8(s)
}

/// A text short enough for its length to fit in four bytes.
pub open spec fn text_fits(s: Seq<char>) -> bool {
    encode_utf8(s).len() <= u32::MAX
}

pub proof fn lemma_prefix_concat(data: Seq<u8>, pos: int, a: Seq<u8>, b: Seq<u8>)
    ensures
        prefix_at(data, pos, a + b) <==> prefix_at(data, pos, a) && prefix_at(data, pos + a.len(), b),
{
    if prefix_at(data, pos, a + b) {
        let whole = data.subrange(pos, pos + (a + b).len());
        assert(data.subrange(pos, pos + a.len()) =~= whole.subrange(0, a.len() as int));
        assert(whole.subrange(0, a.len() as int) =~= a);
        assert(data.subrange(pos + a.len(), pos + a.len() + b.len()) =~= whole.subrange(
            a.len() as int,
            (a.len() + b.len()) as int,
        ));
        assert(whole.subrange(a.len() as int, (a.len() + b.len()) as int) =~= b);
    }
    if prefix_at(data, pos, a) && prefix_at(data, pos + a.len(), b) {
        assert(data.subrange(pos, pos + (a + b).len()) =~= a + b) by {
            assert forall|i: int| 0 <= i < (a + b).len() implies data.subrange(pos, pos + (a + b).len())[i] == (a + b)[i] by {
                if i < a.len() {
                    assert(data.subrange(pos, pos + a.len())[i] == a[i]);
                } else {
                    assert(data.subrange(pos + a.len(), pos + a.len() + b.len())[i - a.len()] == b[i - a.len()]);
                }
            }
        }
    }
}

/// UTF-8 bytes, checked, as a string.
///
/// Relies on `String::from_utf8`, which returns the string whose bytes are `b`
/// exactly when `b` is valid UTF-8, and an error otherwise.
#[verifier::external_body]
fn string_from_utf8(b: Vec<u8>) -> (r: Option<String>)
    ensures
        match r {
            Some(s) => valid_utf8(b@) && s@ == decode_utf8(b@),
            None => !valid_utf8(b@),
        },
{
    String::from_utf8(b).ok()
}

/// The bytes `data[from..to]` as a vector.
fn copy_range(data: &[u8], from: usize, to: usize) -> (r: Vec<u8>)
    requires
        from <= to <= data@.len(),
    ensures
        r@ == data@.subrange(from as int, to as int),
{
    let mut r: Vec<u8> = Vec::new();
    let mut i: usize = from;
    while i < to
        invariant
            from <= i <= to <= data@.len(),
            r@ == data@.subrange(from as int, i as int),
        decreases to - i,
    {
        r.push(data[i]);
        i = i + 1;
        assert(r@ =~= data@.subrange(from as int, i as int));
    }
    r
}

/// Appends the bytes of `src`.
fn append_bytes(out: &mut Vec<u8>, src: &[u8])
    ensures
        final(out)@ == old(out)@ + src@,
{
    let mut i: usize = 0;
    while i < src.len()
        invariant
            0 <= i <= src@.len(),
            out@ == old(out)@ + src@.subrange(0, i as int),
        decreases src@.len() - i,
    {
        out.push(src[i]);
        i = i + 1;
        assert(out@ =~= old(out)@ + src@.subrange(0, i as int));
    }
    assert(src@.subrange(0, src@.len() as int) =~= src@);
}

/// Appends a text as the record holds it.
pub fn write_text(out: &mut Vec<u8>, s: &String)
    requires
        text_fits(s@),
    ensures
        final(out)@ == old(out)@ + text_bytes(s@),
{
    let bytes = s.as_str().as_bytes();
    let len = vstd::bytes::u32_to_le_bytes(bytes.len() as u32);
    append_bytes(out, len.as_slice());
    append_bytes(out, bytes);
    assert(final(out)@ =~= old(out)@ + text_bytes(s@));
}

/// Reads one byte at `pos`.
pub fn read_u8(data: &[u8], pos: usize) -> (r: Option<u8>)
    ensures
        match r {
            Some(x) => prefix_at(data@, pos as int, seq![x]),
            None => forall|x: u8| !prefix_at(data@, pos as int, seq![x]),
        },
{
    if pos < data.len() {
        let x = data[pos];
        assert(data@.subrange(pos as int, pos + 1) =~= seq![x]);
        Some(x)
    } else {
        None
    }
}

/// Reads a little-endian `u64` at `pos`.
pub fn read_u64(data: &[u8], pos: usize) -> (r: Option<u64>)
    ensures
        match r {
            Some(x) => prefix_at(data@, pos as int, spec_u64_to_le_bytes(x)),
            None => forall|x: u64| !prefix_at(data@, pos as int, spec_u64_to_le_bytes(x)),
        },
        forall|x: u64| prefix_at(data@, pos as int, spec_u64_to_le_bytes(x)) ==> r == Some(x),
{
    proof {
        vstd::bytes::lemma_auto_spec_u64_to_from_le_bytes();
    }
    if pos <= data.len() && data.len() - pos >= 8 {
        let chunk = vstd::slice::slice_subrange(data, pos, pos + 8);
        let x = vstd::bytes::u64_from_le_bytes(chunk);
        assert(prefix_at(data@, pos as int, spec_u64_to_le_bytes(x)));
        Some(x)
    } else {
        None
    }
}

/// Reads a 32-byte address at `pos`.
pub fn read_address(data: &[u8], pos: usize) -> (r: Option<Address>)
    ensures
        match r {
            Some(a) => prefix_at(data@, pos as int, a@),
            None => forall|a: Seq<u8>| a.len() == 32 ==> !prefix_at(data@, pos as int, a),
        },
        forall|a: Seq<u8>| a.len() == 32 && prefix_at(data@, pos as int, a) ==> (r matches Some(x) && x@ == a),
{
    if pos <= data.len() && data.len() - pos >= 32 {
        let mut bytes: [u8; 32] = [0u8; 32];
        let end: usize = pos + 32;
        let mut i: usize = 0;
        while i < 32
            invariant
                0 <= i <= 32,
                end == pos + 32,
                end <= data@.len(),
                bytes@.len() == 32,
                forall|j: int| 0 <= j < i ==> bytes@[j] == data@[pos + j],
            decreases 32 - i,
        {
            bytes[i] = data[pos + i];
            i = i + 1;
        }
        let a = Address { bytes };
        assert(data@.subrange(pos as int, pos + 32) =~= a@);
        Some(a)
    } else {
        None
    }
}

/// Reads a text at `pos`; returns it and the position after it.
pub fn read_text(data: &[u8], pos: usize) -> (r: Option<(String, usize)>)
    ensures
        match r {
            Some((s, next)) => prefix_at(data@, pos as int, text_bytes(s@)) && next == pos
                + text_bytes(s@).len() && text_fits(s@),
            None => forall|c: Seq<char>| text_fits(c) ==> !prefix_at(data@, pos as int, text_bytes(c)),
        },
        forall|c: Seq<char>|
            text_fits(c) && prefix_at(data@, pos as int, text_bytes(c))
                ==> (r matches Some((s, next)) && s@ == c && next == pos + text_bytes(c).len()),
{
    proof {
        vstd::bytes::lemma_auto_spec_u32_to_from_le_bytes();
    }
    if !(pos <= data.len() && data.len() - pos >= 4) {
        proof {
            assert forall|c: Seq<char>| text_fits(c) implies !prefix_at(data@, pos as int, text_bytes(c)) by {}
        }
        return None;
    }
    let head = vstd::slice::slice_subrange(data, pos, pos + 4);
    let len = vstd::bytes::u32_from_le_bytes(head) as usize;
    proof {
        assert forall|c: Seq<char>| text_fits(c) && prefix_at(data@, pos as int, text_bytes(c))
            implies encode_utf8(c).len() == len by {
            lemma_prefix_concat(data@, pos as int, spec_u32_to_le_bytes(encode_utf8(c).len() as u32), encode_utf8(c));
            assert(head@ == spec_u32_to_le_bytes(encode_utf8(c).len() as u32));
        }
    }
    if !(data.len() - pos - 4 >= len) {
        proof {
            assert forall|c: Seq<char>| text_fits(c) implies !prefix_at(data@, pos as int, text_bytes(c)) by {
                if prefix_at(data@, pos as int, text_bytes(c)) {
                    assert(encode_utf8(c).len() == len);
                }
            }
        }
        return None;
    }
    let body = copy_range(data, pos + 4, pos + 4 + len);
    let ghost body_v = body@;
    proof {
        assert forall|c: Seq<char>| text_fits(c) && prefix_at(data@, pos as int, text_bytes(c))
            implies encode_utf8(c) == body_v by {
            lemma_prefix_concat(data@, pos as int, spec_u32_to_le_bytes(encode_utf8(c).len() as u32), encode_utf8(c));
            assert(encode_utf8(c).len() == len);
        }
    }
    match string_from_utf8(body) {
        Some(s) => {
            proof {
                vstd::utf8::decode_utf8_encode_utf8(body_v);
                assert(encode_utf8(s@) == body_v);
                assert(spec_u32_to_le_bytes(len as u32) == head@);
                assert(data@.subrange(pos as int, pos + 4 + len) =~= head@ + body_v);
                assert forall|c: Seq<char>| text_fits(c) && prefix_at(data@, pos as int, text_bytes(c))
                    implies s@ == c by {
                    vstd::utf8::encode_utf8_decode_utf8(c);
                }
            }
            Some((s, pos + 4 + len))
        },
        None => {
            proof {
                assert forall|c: Seq<char>| text_fits(c) implies !prefix_at(data@, pos as int, text_bytes(c)) by {
                    if prefix_at(data@, pos as int, text_bytes(c)) {
                        vstd::utf8::encode_utf8_valid_utf8(c);
                    }
                }
            }
            None
        },
    }
}

/// The first byte of a bounty record.
pub const BOUNTY_TAG: u8 = 1;

/// The first byte of a submission record.
pub const SUBMISSION_TAG: u8 = 2;

/// The address of 32 zero bytes, which a record holds for "no submission".
pub open spec fn zero_address() -> Seq<u8> {
    Seq::new(32, |i: int| 0u8)
}

/// The accepted submission as a record holds it.
pub open spec fn accepted_bytes(a: Option<Seq<u8>>) -> Seq<u8> {
    match a {
        Some(x) => x,
        None => zero_address(),
    }
}

/// The bytes of a bounty record, up to and including its mint.
pub open spec fn bounty_head(v: BountyView) -> Seq<u8> {
    seq![BOUNTY_TAG] + spec_u64_to_le_bytes(v.seed) + text_bytes(v.description) + text_bytes(v.link)
        + spec_u64_to_le_bytes(v.reward) + seq![v.bump] + v.maker + v.mint
}

/// The bytes of a bounty record: its tag, then seed, description, link, reward,
/// bump, maker, mint and accepted submission, in that order.
pub open spec fn bounty_record(v: BountyView) -> Seq<u8> {
    bounty_head(v) + accepted_bytes(v.accepted_submission)
}

/// The bytes of a submission record: its tag, then the bounty it answers, its
/// link, its hunter and its notes. The bounty comes right after the tag, so
/// that records can be picked by bounty.
pub open spec fn submission_record(v: SubmissionView) -> Seq<u8> {
    seq![SUBMISSION_TAG] + v.bounty + text_bytes(v.link) + v.hunter + text_bytes(v.notes)
}

/// A bounty that a record can hold: addresses of 32 bytes, texts whose length
/// fits the length field, and an accepted submission other than the zero address.
pub open spec fn bounty_encodable(v: BountyView) -> bool {
    &&& v.maker.len() == 32
    &&& v.mint.len() == 32
    &&& text_fits(v.description)
    &&& text_fits(v.link)
    &&& (v.accepted_submission matches Some(x) ==> x.len() == 32 && x != zero_address())
}

/// A submission that a record can hold.
pub open spec fn submission_encodable(v: SubmissionView) -> bool {
    &&& v.bounty.len() == 32
    &&& v.hunter.len() == 32
    &&& text_fits(v.link)
    &&& text_fits(v.notes)
}

proof fn lemma_bounty_parts(data: Seq<u8>, v: BountyView)
    ensures
        ({
            let o_link: int = 9 + text_bytes(v.description).len() as int;
            let o_reward: int = o_link + text_bytes(v.link).len() as int;
            prefix_at(data, 0, bounty_record(v)) <==> {
                &&& prefix_at(data, 0, seq![BOUNTY_TAG])
                &&& prefix_at(data, 1, spec_u64_to_le_bytes(v.seed))
                &&& prefix_at(data, 9, text_bytes(v.description))
                &&& prefix_at(data, o_link, text_bytes(v.link))
                &&& prefix_at(data, o_reward, spec_u64_to_le_bytes(v.reward))
                &&& prefix_at(data, o_reward + 8, seq![v.bump])
                &&& prefix_at(data, o_reward + 9, v.maker)
                &&& prefix_at(data, o_reward + 9 + v.maker.len() as int, v.mint)
                &&& prefix_at(data, o_reward + 9 + v.maker.len() as int + v.mint.len() as int, accepted_bytes(v.accepted_submission))
            }
        }),
{
    vstd::bytes::lemma_auto_spec_u64_to_from_le_bytes();
    let p1 = seq![BOUNTY_TAG];
    let p2 = p1 + spec_u64_to_le_bytes(v.seed);
    let p3 = p2 + text_bytes(v.description);
    let p4 = p3 + text_bytes(v.link);
    let p5 = p4 + spec_u64_to_le_bytes(v.reward);
    let p6 = p5 + seq![v.bump];
    let p7 = p6 + v.maker;
    let p8 = p7 + v.mint;
    lemma_prefix_concat(data, 0int, p8, accepted_bytes(v.accepted_submission));
    lemma_prefix_concat(data, 0int, p7, v.mint);
    lemma_prefix_concat(data, 0int, p6, v.maker);
    lemma_prefix_concat(data, 0int, p5, seq![v.bump]);
    lemma_prefix_concat(data, 0int, p4, spec_u64_to_le_bytes(v.reward));
    lemma_prefix_concat(data, 0int, p3, text_bytes(v.link));
    lemma_prefix_concat(data, 0int, p2, text_bytes(v.description));
    lemma_prefix_concat(data, 0int, p1, spec_u64_to_le_bytes(v.seed));
}

proof fn lemma_submission_parts(data: Seq<u8>, v: SubmissionView)
    ensures
        ({
            let o_hunter: int = 1 + v.bounty.len() as int + text_bytes(v.link).len() as int;
            prefix_at(data, 0, submission_record(v)) <==> {
                &&& prefix_at(data, 0, seq![SUBMISSION_TAG])
                &&& prefix_at(data, 1, v.bounty)
                &&& prefix_at(data, 1 + v.bounty.len() as int, text_bytes(v.link))
                &&& prefix_at(data, o_hunter, v.hunter)
                &&& prefix_at(data, o_hunter + v.hunter.len() as int, text_bytes(v.notes))
            }
        }),
{
    let p1 = seq![SUBMISSION_TAG];
    let p2 = p1 + v.bounty;
    let p3 = p2 + text_bytes(v.link);
    let p4 = p3 + v.hunter;
    lemma_prefix_concat(data, 0int, p4, text_bytes(v.notes));
    lemma_prefix_concat(data, 0int, p3, v.hunter);
    lemma_prefix_concat(data, 0int, p2, text_bytes(v.link));
    lemma_prefix_concat(data, 0int, p1, v.bounty);
}

impl Address {
    /// Whether every byte of the address is zero.
    pub fn is_zero(&self) -> (r: bool)
        ensures
            r == (self@ == zero_address()),
    {
        let mut i: usize = 0;
        while i < 32
            invariant
                0 <= i <= 32,
                self@.len() == 32,
                forall|j: int| 0 <= j < i ==> self@[j] == 0u8,
            decreases 32 - i,
        {
            if self.bytes[i] != 0 {
                assert(self@[i as int] != zero_address()[i as int]);
                return false;
            }
            i = i + 1;
        }
        assert(self@ =~= zero_address());
        true
    }
}

/// Appends the bytes of an address.
fn write_address(out: &mut Vec<u8>, a: &Address)
    ensures
        final(out)@ == old(out)@ + a@,
{
    append_bytes(out, a.bytes.as_slice());
}

impl Bounty {
    /// The bounty as a record.
    pub fn to_record(&self) -> (r: Vec<u8>)
        requires
            text_fits(self.description@),
            text_fits(self.link@),
        ensures
            r@ == bounty_record(self@),
    {
        let mut out: Vec<u8> = Vec::new();
        out.push(BOUNTY_TAG);
        let seed = vstd::bytes::u64_to_le_bytes(self.seed);
        append_bytes(&mut out, seed.as_slice());
        write_text(&mut out, &self.description);
        write_text(&mut out, &self.link);
        let reward = vstd::bytes::u64_to_le_bytes(self.reward);
        append_bytes(&mut out, reward.as_slice());
        out.push(self.bump);
        write_address(&mut out, &self.maker);
        write_address(&mut out, &self.mint);
        match &self.accepted_submission {
            Some(a) => write_address(&mut out, a),
            None => {
                let zero = Address { bytes: [0u8; 32] };
                assert(zero@ =~= zero_address());
                write_address(&mut out, &zero);
            },
        }
        assert(out@ =~= bounty_record(self@));
        out
    }

    /// The bounty that a record holds at the start of `data`; trailing bytes are
    /// ignored. None when `data` starts with no bounty record.
    pub fn from_record(data: &[u8]) -> (r: Option<Bounty>)
        ensures
            match r {
                Some(b) => bounty_encodable(b@) && prefix_at(data@, 0, bounty_record(b@)),
                None => forall|v: BountyView| bounty_encodable(v) ==> !prefix_at(data@, 0, bounty_record(v)),
            },
            forall|v: BountyView|
                bounty_encodable(v) && prefix_at(data@, 0, bounty_record(v)) ==> (r matches Some(b) && b@ == v),
    {
        proof {
            vstd::bytes::lemma_auto_spec_u64_to_from_le_bytes();
        }
        let tag = match read_u8(data, 0) {
            Some(t) => t,
            None => {
                proof {
                    assert forall|v: BountyView| bounty_encodable(v) implies !prefix_at(data@, 0, bounty_record(v)) by {
                        lemma_bounty_parts(data@, v);
                    }
                }
                return None;
            },
        };
        if tag != BOUNTY_TAG {
            proof {
                assert forall|v: BountyView| bounty_encodable(v) implies !prefix_at(data@, 0, bounty_record(v)) by {
                    lemma_bounty_parts(data@, v);
                    assert(seq![tag][0] == tag);
                    if prefix_at(data@, 0, seq![BOUNTY_TAG]) {
                        assert(data@.subrange(0, 1)[0] == data@[0]);
                    }
                }
            }
            return None;
        }
        let seed = read_u64(data, 1);
        let description = read_text(data, 9);
        let (seed, description, pos) = match (seed, description) {
            (Some(seed), Some((d, pos))) => (seed, d, pos),
            _ => {
                proof {
                    assert forall|v: BountyView| bounty_encodable(v) implies !prefix_at(data@, 0, bounty_record(v)) by {
                        lemma_bounty_parts(data@, v);
                    }
                }
                return None;
            },
        };
        let link = read_text(data, pos);
        let (link, pos) = match link {
            Some(found) => found,
            None => {
                proof {
                    assert forall|v: BountyView| bounty_encodable(v) implies !prefix_at(data@, 0, bounty_record(v)) by {
                        lemma_bounty_parts(data@, v);
                    }
                }
                return None;
            },
        };
        let n = data.len();
        if !(pos <= usize::MAX - 105) {
            proof {
                assert forall|v: BountyView| bounty_encodable(v) implies !prefix_at(data@, 0, bounty_record(v)) by {
                    lemma_bounty_parts(data@, v);
                    assert(accepted_bytes(v.accepted_submission).len() == 32);
                    assert(n == data@.len());
                }
            }
            return None;
        }
        let reward = read_u64(data, pos);
        let bump = read_u8(data, pos + 8);
        let maker = read_address(data, pos + 9);
        let mint = read_address(data, pos + 41);
        let accepted = read_address(data, pos + 73);
        match (reward, bump, maker, mint, accepted) {
            (Some(reward), Some(bump), Some(maker), Some(mint), Some(accepted)) => {
                let accepted_submission = if accepted.is_zero() {
                    None
                } else {
                    Some(accepted)
                };
                let b = Bounty { seed, description, link, reward, bump, maker, mint, accepted_submission };
                proof {
                    assert(accepted_bytes(b@.accepted_submission) == accepted@);
                    lemma_bounty_parts(data@, b@);
                    assert forall|v: BountyView| bounty_encodable(v) && prefix_at(data@, 0, bounty_record(v))
                        implies b@ == v by {
                        lemma_bounty_parts(data@, v);
                        assert(seq![v.bump][0] == v.bump);
                        assert(seq![bump][0] == bump);
                        assert(data@.subrange(pos + 8, pos + 9)[0] == data@[pos + 8]);
                        if v.accepted_submission is None {
                            assert(accepted@ == zero_address());
                        }
                    }
                }
                Some(b)
            },
            _ => {
                proof {
                    assert forall|v: BountyView| bounty_encodable(v) implies !prefix_at(data@, 0, bounty_record(v)) by {
                        lemma_bounty_parts(data@, v);
                    }
                }
                None
            },
        }
    }
}

impl Submission {
    /// The submission as a record.
    pub fn to_record(&self) -> (r: Vec<u8>)
        requires
            text_fits(self.link@),
            text_fits(self.notes@),
        ensures
            r@ == submission_record(self@),
    {
        let mut out: Vec<u8> = Vec::new();
        out.push(SUBMISSION_TAG);
        write_address(&mut out, &self.bounty);
        write_text(&mut out, &self.link);
        write_address(&mut out, &self.hunter);
        write_text(&mut out, &self.notes);
        assert(out@ =~= submission_record(self@));
        out
    }

    /// The submission that a record holds at the start of `data`; trailing bytes
    /// are ignored. None when `data` starts with no submission record.
    pub fn from_record(data: &[u8]) -> (r: Option<Submission>)
        ensures
            match r {
                Some(s) => submission_encodable(s@) && prefix_at(data@, 0, submission_record(s@)),
                None => forall|v: SubmissionView|
                    submission_encodable(v) ==> !prefix_at(data@, 0, submission_record(v)),
            },
            forall|v: SubmissionView|
                submission_encodable(v) && prefix_at(data@, 0, submission_record(v)) ==> (r matches Some(s)
                    && s@ == v),
    {
        let tag = read_u8(data, 0);
        let bounty = read_address(data, 1);
        let link = read_text(data, 33);
        let (bounty, link, pos) = match (tag, bounty, link) {
            (Some(t), Some(b), Some((l, pos))) => {
                if t != SUBMISSION_TAG {
                    proof {
                        assert forall|v: SubmissionView| submission_encodable(v) implies !prefix_at(
                            data@,
                            0,
                            submission_record(v),
                        ) by {
                            lemma_submission_parts(data@, v);
                            if prefix_at(data@, 0, seq![SUBMISSION_TAG]) {
                                assert(data@.subrange(0, 1)[0] == data@[0]);
                                assert(seq![t][0] == t);
                            }
                        }
                    }
                    return None;
                }
                (b, l, pos)
            },
            _ => {
                proof {
                    assert forall|v: SubmissionView| submission_encodable(v) implies !prefix_at(
                        data@,
                        0,
                        submission_record(v),
                    ) by {
                        lemma_submission_parts(data@, v);
                    }
                }
                return None;
            },
        };
        let n = data.len();
        if !(pos <= usize::MAX - 32) {
            proof {
                assert forall|v: SubmissionView| submission_encodable(v) implies !prefix_at(
                    data@,
                    0,
                    submission_record(v),
                ) by {
                    lemma_submission_parts(data@, v);
                    assert(n == data@.len());
                }
            }
            return None;
        }
        let hunter = read_address(data, pos);
        let notes = read_text(data, pos + 32);
        match (hunter, notes) {
            (Some(hunter), Some((notes, _))) => {
                let s = Submission { bounty, link, hunter, notes };
                proof {
                    lemma_submission_parts(data@, s@);
                    assert forall|v: SubmissionView|
                        submission_encodable(v) && prefix_at(data@, 0, submission_record(v)) implies s@ == v by {
                        lemma_submission_parts(data@, v);
                    }
                }
                Some(s)
            },
            _ => {
                proof {
                    assert forall|v: SubmissionView| submission_encodable(v) implies !prefix_at(
                        data@,
                        0,
                        submission_record(v),
                    ) by {
                        lemma_submission_parts(data@, v);
                    }
                }
                None
            },
        }
    }
}

/// Whether `data` starts with the tag of a bounty record.
pub fn is_bounty_record(data: &[u8]) -> (r: bool)
    ensures
        r == prefix_at(data@, 0, seq![BOUNTY_TAG]),
{
    let r = data.len() >= 1 && data[0] == BOUNTY_TAG;
    proof {
        if data@.len() >= 1 {
            assert(data@.subrange(0, 1)[0] == data@[0]);
            if data@[0] == BOUNTY_TAG {
                assert(data@.subrange(0, 1) =~= seq![BOUNTY_TAG]);
            }
        }
    }
    r
}

/// Whether `data` starts with the tag of a submission record followed by
/// the address of `bounty`.
pub fn is_submission_of(data: &[u8], bounty: &Address) -> (r: bool)
    ensures
        r == (prefix_at(data@, 0, seq![SUBMISSION_TAG]) && prefix_at(data@, 1, bounty@)),
{
    let tagged = data.len() >= 1 && data[0] == SUBMISSION_TAG;
    proof {
        if data@.len() >= 1 {
            assert(data@.subrange(0, 1)[0] == data@[0]);
            if data@[0] == SUBMISSION_TAG {
                assert(data@.subrange(0, 1) =~= seq![SUBMISSION_TAG]);
            }
        }
    }
    if !tagged {
        return false;
    }
    match read_address(data, 1) {
        Some(a) => a.same(bounty),
        None => false,
    }
}

} // verus!
