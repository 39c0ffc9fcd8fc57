//! Full-snapshot persistence of the collection index: the index serialized to
//! one byte image and reconstructed from it. The caller writes the image to
//! durable storage so that the last written snapshot always reflects every
//! merge acknowledged so far; a snapshot that does not decode whole is
//! rejected, never half-loaded. Numbers are little endian; characters travel
//! as their scalar values.

use vstd::prelude::*;

use vstd::utf8::is_scalar;

use crate::collection::model_wf;
use crate::collection::CollectionIndex;
use crate::collection::CollectionRecord;

verus! {

/// A 32-bit number as four little-endian bytes.
pub open spec fn enc_u32(v: u32) -> Seq<u8> {
    seq![v as u8, (v >> 8) as u8, (v >> 16) as u8, (v >> 24) as u8]
}

/// The number four little-endian bytes hold.
pub open spec fn dec_u32(b: Seq<u8>) -> u32 {
    (b[0] as u32) | ((b[1] as u32) << 8) | ((b[2] as u32) << 16) | ((b[3] as u32) << 24)
}

/// A 64-bit number as eight little-endian bytes.
pub open spec fn enc_u64(v: u64) -> Seq<u8> {
    seq![
        v as u8,
        (v >> 8) as u8,
        (v >> 16) as u8,
        (v >> 24) as u8,
        (v >> 32) as u8,
        (v >> 40) as u8,
        (v >> 48) as u8,
        (v >> 56) as u8,
    ]
}

/// The number eight little-endian bytes hold.
pub open spec fn dec_u64(b: Seq<u8>) -> u64 {
    (b[0] as u64) | ((b[1] as u64) << 8) | ((b[2] as u64) << 16) | ((b[3] as u64) << 24) | ((
    b[4] as u64) << 32) | ((b[5] as u64) << 40) | ((b[6] as u64) << 48) | ((b[7] as u64) << 56)
}

proof fn lemma_u32_round_trip(v: u32)
    ensures
        dec_u32(enc_u32(v)) == v,
{
    assert(((v as u8) as u32) | (((v >> 8) as u8) as u32) << 8 | (((v >> 16) as u8) as u32) << 16
        | (((v >> 24) as u8) as u32) << 24 == v) by (bit_vector);
}

proof fn lemma_u64_round_trip(v: u64)
    ensures
        dec_u64(enc_u64(v)) == v,
{
    assert(((v as u8) as u64) | (((v >> 8) as u8) as u64) << 8 | (((v >> 16) as u8) as u64) << 16
        | (((v >> 24) as u8) as u64) << 24 | (((v >> 32) as u8) as u64) << 32 | (((v
        >> 40) as u8) as u64) << 40 | (((v >> 48) as u8) as u64) << 48 | (((v >> 56) as u8) as u64)
        << 56 == v) by (bit_vector);
}

/// A character sequence as the little-endian scalar value of each character.
pub open spec fn enc_chars(s: Seq<char>) -> Seq<u8>
    decreases s.len(),
{
    if s.len() == 0 {
        Seq::empty()
    } else {
        enc_u32(s[0] as u32) + enc_chars(s.drop_first())
    }
}

/// A string as its length and then its characters.
pub open spec fn enc_str(s: Seq<char>) -> Seq<u8> {
    enc_u64(s.len() as u64) + enc_chars(s)
}

/// A checksum list as each checksum in order (its count travels beside it).
pub open spec fn enc_hash_list(cs: Seq<Seq<char>>) -> Seq<u8>
    decreases cs.len(),
{
    if cs.len() == 0 {
        Seq::empty()
    } else {
        enc_str(cs[0]) + enc_hash_list(cs.drop_first())
    }
}

/// The records in order: per record its name, its checksum count and its
/// checksums.
pub open spec fn enc_records(m: Seq<(Seq<char>, Seq<Seq<char>>)>) -> Seq<u8>
    decreases m.len(),
{
    if m.len() == 0 {
        Seq::empty()
    } else {
        enc_str(m[0].0) + enc_u64(m[0].1.len() as u64) + enc_hash_list(m[0].1) + enc_records(
            m.drop_first(),
        )
    }
}

/// The whole snapshot image: the record count and then the records.
pub open spec fn spec_snapshot(m: Seq<(Seq<char>, Seq<Seq<char>>)>) -> Seq<u8> {
    enc_u64(m.len() as u64) + enc_records(m)
}

/// Reads `n` characters off the front of `b`: the characters and what is
/// left, or nothing when the bytes run out or hold no character scalar.
pub open spec fn parse_chars(b: Seq<u8>, n: nat) -> Option<(Seq<char>, Seq<u8>)>
    decreases n,
{
    if n == 0 {
        Some((Seq::empty(), b))
    } else if b.len() < 4 {
        None
    } else {
        let u = dec_u32(b.subrange(0, 4));
        if is_scalar(u) {
            match parse_chars(b.skip(4), (n - 1) as nat) {
                Some((s, rest)) => Some((seq![u as char] + s, rest)),
                None => None,
            }
        } else {
            None
        }
    }
}

/// Reads one length-prefixed string off the front of `b`.
pub open spec fn parse_str(b: Seq<u8>) -> Option<(Seq<char>, Seq<u8>)> {
    if b.len() < 8 {
        None
    } else {
        parse_chars(b.skip(8), dec_u64(b.subrange(0, 8)) as nat)
    }
}

/// Reads `n` length-prefixed strings off the front of `b`.
pub open spec fn parse_str_list(b: Seq<u8>, n: nat) -> Option<(Seq<Seq<char>>, Seq<u8>)>
    decreases n,
{
    if n == 0 {
        Some((Seq::empty(), b))
    } else {
        match parse_str(b) {
            Some((s, rest)) => match parse_str_list(rest, (n - 1) as nat) {
                Some((ss, rest2)) => Some((seq![s] + ss, rest2)),
                None => None,
            },
            None => None,
        }
    }
}

/// Reads `n` records off the front of `b`.
pub open spec fn parse_records(b: Seq<u8>, n: nat) -> Option<
    (Seq<(Seq<char>, Seq<Seq<char>>)>, Seq<u8>),
>
    decreases n,
{
    if n == 0 {
        Some((Seq::empty(), b))
    } else {
        match parse_str(b) {
            Some((name, rest)) => if rest.len() < 8 {
                None
            } else {
                let count = dec_u64(rest.subrange(0, 8));
                match parse_str_list(rest.skip(8), count as nat) {
                    Some((hashes, rest2)) => match parse_records(rest2, (n - 1) as nat) {
                        Some((m, rest3)) => Some((seq![(name, hashes)] + m, rest3)),
                        None => None,
                    },
                    None => None,
                }
            },
            None => None,
        }
    }
}

/// What a snapshot image holds: the index it encodes, or nothing when the
/// image is truncated, damaged, or followed by trailing bytes.
pub open spec fn spec_parse(b: Seq<u8>) -> Option<Seq<(Seq<char>, Seq<Seq<char>>)>> {
    if b.len() < 8 {
        None
    } else {
        match parse_records(b.skip(8), dec_u64(b.subrange(0, 8)) as nat) {
            Some((m, rest)) => if rest.len() == 0 {
                Some(m)
            } else {
                None
            },
            None => None,
        }
    }
}

/// Every count in the index fits the length fields of the image.
pub open spec fn encodable(m: Seq<(Seq<char>, Seq<Seq<char>>)>) -> bool {
    &&& m.len() <= u64::MAX
    &&& forall|i: int|
        0 <= i < m.len() ==> #[trigger] m[i].0.len() <= u64::MAX && m[i].1.len() <= u64::MAX
            && (forall|j: int| 0 <= j < m[i].1.len() ==> #[trigger] m[i].1[j].len() <= u64::MAX)
}

proof fn lemma_parse_chars_of_enc(s: Seq<char>, rest: Seq<u8>)
    ensures
        parse_chars(enc_chars(s) + rest, s.len()) == Some((s, rest)),
    decreases s.len(),
{
    if s.len() == 0 {
        assert(enc_chars(s) + rest =~= rest);
        assert(parse_chars(rest, 0) == Some((Seq::<char>::empty(), rest)));
    } else {
        let b = enc_chars(s) + rest;
        let u = s[0] as u32;
        assert(enc_chars(s) == enc_u32(u) + enc_chars(s.drop_first()));
        assert(b.subrange(0, 4) =~= enc_u32(u));
        lemma_u32_round_trip(u);
        vstd::utf8::char_is_scalar(s[0]);
        assert(is_scalar(u));
        vstd::utf8::char_u32_cast(s[0], u);
        assert((u as char) == s[0]);
        assert(b.skip(4) =~= enc_chars(s.drop_first()) + rest);
        lemma_parse_chars_of_enc(s.drop_first(), rest);
        assert(seq![s[0]] + s.drop_first() =~= s);
    }
}

proof fn lemma_parse_str_of_enc(s: Seq<char>, rest: Seq<u8>)
    requires
        s.len() <= u64::MAX,
    ensures
        parse_str(enc_str(s) + rest) == Some((s, rest)),
{
    let b = enc_str(s) + rest;
    assert(b.subrange(0, 8) =~= enc_u64(s.len() as u64));
    lemma_u64_round_trip(s.len() as u64);
    assert(b.skip(8) =~= enc_chars(s) + rest);
    lemma_parse_chars_of_enc(s, rest);
}

proof fn lemma_parse_str_list_of_enc(cs: Seq<Seq<char>>, rest: Seq<u8>)
    requires
        forall|j: int| 0 <= j < cs.len() ==> #[trigger] cs[j].len() <= u64::MAX,
    ensures
        parse_str_list(enc_hash_list(cs) + rest, cs.len()) == Some((cs, rest)),
    decreases cs.len(),
{
    if cs.len() == 0 {
        assert(enc_hash_list(cs) + rest =~= rest);
    } else {
        let b = enc_hash_list(cs) + rest;
        assert(b =~= enc_str(cs[0]) + (enc_hash_list(cs.drop_first()) + rest));
        lemma_parse_str_of_enc(cs[0], enc_hash_list(cs.drop_first()) + rest);
        lemma_parse_str_list_of_enc(cs.drop_first(), rest);
        assert(seq![cs[0]] + cs.drop_first() =~= cs);
    }
}

#[verifier::rlimit(50)]
proof fn lemma_parse_records_of_enc(m: Seq<(Seq<char>, Seq<Seq<char>>)>, rest: Seq<u8>)
    requires
        encodable(m),
    ensures
        parse_records(enc_records(m) + rest, m.len()) == Some((m, rest)),
    decreases m.len(),
{
    if m.len() == 0 {
        assert(enc_records(m) + rest =~= rest);
    } else {
        let b = enc_records(m) + rest;
        let name = m[0].0;
        let hashes = m[0].1;
        let tail = enc_u64(hashes.len() as u64) + enc_hash_list(hashes) + enc_records(
            m.drop_first(),
        ) + rest;
        assert(b =~= enc_str(name) + tail);
        lemma_parse_str_of_enc(name, tail);
        assert(tail.subrange(0, 8) =~= enc_u64(hashes.len() as u64));
        lemma_u64_round_trip(hashes.len() as u64);
        let tail2 = enc_hash_list(hashes) + (enc_records(m.drop_first()) + rest);
        assert(tail.skip(8) =~= tail2);
        lemma_parse_str_list_of_enc(hashes, enc_records(m.drop_first()) + rest);
        assert(forall|i: int|
            0 <= i < m.drop_first().len() ==> #[trigger] m.drop_first()[i] == m[i + 1]);
        lemma_parse_records_of_enc(m.drop_first(), rest);
        assert(seq![(name, hashes)] + m.drop_first() =~= m);
    }
}

fn push_u32(out: &mut Vec<u8>, v: u32)
    ensures
        final(out)@ == old(out)@ + enc_u32(v),
{
    out.push(#[verifier::truncate] (v as u8));
    out.push(#[verifier::truncate] ((v >> 8) as u8));
    out.push(#[verifier::truncate] ((v >> 16) as u8));
    out.push(#[verifier::truncate] ((v >> 24) as u8));
    proof {
        assert(out@ =~= old(out)@ + enc_u32(v));
    }
}

fn push_u64(out: &mut Vec<u8>, v: u64)
    ensures
        final(out)@ == old(out)@ + enc_u64(v),
{
    out.push(#[verifier::truncate] (v as u8));
    out.push(#[verifier::truncate] ((v >> 8) as u8));
    out.push(#[verifier::truncate] ((v >> 16) as u8));
    out.push(#[verifier::truncate] ((v >> 24) as u8));
    out.push(#[verifier::truncate] ((v >> 32) as u8));
    out.push(#[verifier::truncate] ((v >> 40) as u8));
    out.push(#[verifier::truncate] ((v >> 48) as u8));
    out.push(#[verifier::truncate] ((v >> 56) as u8));
    proof {
        assert(out@ =~= old(out)@ + enc_u64(v));
    }
}

fn push_str(out: &mut Vec<u8>, s: &str)
    ensures
        final(out)@ == old(out)@ + enc_str(s@),
{
    let len = s.unicode_len();
    push_u64(out, len as u64);
    let ghost mid = out@;
    let mut i: usize = 0;
    proof {
        assert(s@.skip(0) =~= s@);
    }
    while i < len
        invariant
            len == s@.len(),
            i <= len,
            mid + enc_chars(s@) == out@ + enc_chars(s@.skip(i as int)),
        decreases len - i,
    {
        let c = s.get_char(i);
        let ghost pending = s@.skip(i as int);
        proof {
            assert(pending[0] == s@[i as int]);
            assert(pending.drop_first() =~= s@.skip(i + 1));
            assert(enc_chars(pending) == enc_u32(c as u32) + enc_chars(s@.skip(i + 1)));
        }
        let ghost before = out@;
        push_u32(out, c as u32);
        proof {
            assert(before + (enc_u32(c as u32) + enc_chars(s@.skip(i + 1))) =~= (before + enc_u32(
                c as u32,
            )) + enc_chars(s@.skip(i + 1)));
        }
        i = i + 1;
    }
    proof {
        assert(s@.skip(len as int) =~= Seq::<char>::empty());
        assert(out@ + enc_chars(Seq::<char>::empty()) =~= out@);
        assert(mid =~= old(out)@ + enc_u64(s@.len() as u64));
        assert(old(out)@ + (enc_u64(s@.len() as u64) + enc_chars(s@)) =~= (old(out)@ + enc_u64(
            s@.len() as u64,
        )) + enc_chars(s@));
    }
}

/// Serializes the whole index into one snapshot image.
pub fn to_bytes(index: &CollectionIndex) -> (r: Vec<u8>)
    ensures
        r@ == spec_snapshot(index.model()),
{
    let ghost m = index.model();
    let mut out: Vec<u8> = Vec::new();
    let n = index.records.len();
    push_u64(&mut out, n as u64);
    let ghost head = out@;
    proof {
        assert(head =~= enc_u64(m.len() as u64));
        assert(m.skip(0) =~= m);
    }
    let mut j: usize = 0;
    while j < n
        invariant
            n == index.records@.len(),
            j <= n,
            m == index.model(),
            head + enc_records(m) == out@ + enc_records(m.skip(j as int)),
        decreases n - j,
    {
        let ghost pending = m.skip(j as int);
        let record = &index.records[j];
        proof {
            assert(pending[0] == m[j as int]);
            assert(m[j as int] == record.deep_view());
            assert(pending.drop_first() =~= m.skip(j + 1));
        }
        let ghost before = out@;
        push_str(&mut out, record.name.as_str());
        let cn = record.checksums.len();
        push_u64(&mut out, cn as u64);
        let ghost hashes = record.checksums.deep_view();
        let ghost mid = out@;
        proof {
            assert(hashes.skip(0) =~= hashes);
        }
        let mut k: usize = 0;
        while k < cn
            invariant
                cn == record.checksums@.len(),
                k <= cn,
                hashes == record.checksums.deep_view(),
                mid + enc_hash_list(hashes) == out@ + enc_hash_list(hashes.skip(k as int)),
            decreases cn - k,
        {
            let ghost hpending = hashes.skip(k as int);
            proof {
                assert(hpending[0] == hashes[k as int]);
                assert(hashes[k as int] == record.checksums@[k as int]@);
                assert(hpending.drop_first() =~= hashes.skip(k + 1));
            }
            let ghost hbefore = out@;
            push_str(&mut out, record.checksums[k].as_str());
            proof {
                assert(hbefore + (enc_str(hashes[k as int]) + enc_hash_list(hashes.skip(k + 1)))
                    =~= (hbefore + enc_str(hashes[k as int])) + enc_hash_list(hashes.skip(k + 1)));
            }
            k = k + 1;
        }
        proof {
            assert(hashes.skip(cn as int) =~= Seq::<Seq<char>>::empty());
            assert(out@ + enc_hash_list(Seq::<Seq<char>>::empty()) =~= out@);
            assert(enc_records(pending) == enc_str(record.name@) + enc_u64(hashes.len() as u64)
                + enc_hash_list(hashes) + enc_records(m.skip(j + 1)));
            assert(out@ =~= before + (enc_str(record.name@) + enc_u64(hashes.len() as u64)
                + enc_hash_list(hashes)));
            assert(before + enc_records(pending) =~= out@ + enc_records(m.skip(j + 1)));
        }
        j = j + 1;
    }
    proof {
        assert(m.skip(n as int) =~= Seq::<(Seq<char>, Seq<Seq<char>>)>::empty());
        assert(out@ + enc_records(Seq::<(Seq<char>, Seq<Seq<char>>)>::empty()) =~= out@);
        assert(head + enc_records(m) =~= spec_snapshot(m));
    }
    out
}

/// Relies on char::from_u32: the character with this scalar value, nothing
/// when the value is a surrogate or lies beyond the last code point.
#[verifier::external_body]
fn char_from_u32(u: u32) -> (r: Option<char>)
    ensures
        r == (if is_scalar(u) {
            Some(u as char)
        } else {
            None::<char>
        }),
{
    char::from_u32(u)
}

/// Relies on String::push: appends one character at the end.
#[verifier::external_body]
fn push_char(s: &mut String, c: char)
    ensures
        final(s)@ == old(s)@.push(c),
{
    s.push(c);
}

fn read_u64(bytes: &Vec<u8>, pos: usize) -> (r: Option<u64>)
    ensures
        pos + 8 <= bytes@.len() ==> r == Some(
            dec_u64(bytes@.subrange(pos as int, pos as int + 8)),
        ),
        pos + 8 > bytes@.len() ==> r is None,
{
    if bytes.len() < 8 || pos > bytes.len() - 8 {
        return None;
    }
    let v = (bytes[pos] as u64) | ((bytes[pos + 1] as u64) << 8) | ((bytes[pos + 2] as u64) << 16)
        | ((bytes[pos + 3] as u64) << 24) | ((bytes[pos + 4] as u64) << 32) | ((bytes[pos
        + 5] as u64) << 40) | ((bytes[pos + 6] as u64) << 48) | ((bytes[pos + 7] as u64) << 56);
    proof {
        let sub = bytes@.subrange(pos as int, pos as int + 8);
        assert(forall|k: int| 0 <= k < 8 ==> sub[k] == bytes@[pos + k]);
    }
    Some(v)
}

fn read_char(bytes: &Vec<u8>, pos: usize) -> (r: Option<char>)
    ensures
        pos + 4 <= bytes@.len() ==> r == (if is_scalar(
            dec_u32(bytes@.subrange(pos as int, pos as int + 4)),
        ) {
            Some(dec_u32(bytes@.subrange(pos as int, pos as int + 4)) as char)
        } else {
            None::<char>
        }),
        pos + 4 > bytes@.len() ==> r is None,
{
    if bytes.len() < 4 || pos > bytes.len() - 4 {
        return None;
    }
    let v = (bytes[pos] as u32) | ((bytes[pos + 1] as u32) << 8) | ((bytes[pos + 2] as u32) << 16)
        | ((bytes[pos + 3] as u32) << 24);
    proof {
        let sub = bytes@.subrange(pos as int, pos as int + 4);
        assert(forall|k: int| 0 <= k < 4 ==> sub[k] == bytes@[pos + k]);
    }
    char_from_u32(v)
}

#[verifier::loop_isolation(false)]
fn read_string(bytes: &Vec<u8>, pos: usize) -> (r: Option<(String, usize)>)
    requires
        pos <= bytes@.len(),
    ensures
        match r {
            Some(sp) => pos <= sp.1 <= bytes@.len() && parse_str(bytes@.skip(pos as int)) == Some(
                (sp.0@, bytes@.skip(sp.1 as int)),
            ),
            None => parse_str(bytes@.skip(pos as int)) is None,
        },
{
    let blen = bytes.len();
    let ghost whole = bytes@.skip(pos as int);
    let n = match read_u64(bytes, pos) {
        Some(n) => n,
        None => {
            assert(whole.len() < 8);
            return None;
        },
    };
    proof {
        assert(whole.subrange(0, 8) =~= bytes@.subrange(pos as int, pos as int + 8));
        assert(whole.skip(8) =~= bytes@.skip(pos as int + 8));
        assert(forall|t0: Seq<char>| (Seq::<char>::empty() + t0) =~= t0);
    }
    let mut s = String::new();
    let mut p: usize = pos + 8;
    let mut j: u64 = 0;
    while j < n
        invariant
            j <= n,
            pos + 8 <= p <= bytes@.len(),
            parse_chars(bytes@.skip(pos as int + 8), n as nat) == (match parse_chars(
                bytes@.skip(p as int),
                (n - j) as nat,
            ) {
                Some(t) => Some((s@ + t.0, t.1)),
                None => None::<(Seq<char>, Seq<u8>)>,
            }),
        decreases n - j,
    {
        let ghost cur = bytes@.skip(p as int);
        let c = match read_char(bytes, p) {
            Some(c) => c,
            None => {
                proof {
                    if p + 4 <= bytes@.len() {
                        assert(cur.subrange(0, 4) =~= bytes@.subrange(p as int, p as int + 4));
                    } else {
                        assert(cur.len() < 4);
                    }
                    assert(parse_chars(cur, (n - j) as nat) is None);
                }
                return None;
            },
        };
        proof {
            assert(cur.subrange(0, 4) =~= bytes@.subrange(p as int, p as int + 4));
            assert(cur.skip(4) =~= bytes@.skip(p as int + 4));
            assert(parse_chars(cur, (n - j) as nat) == (match parse_chars(
                bytes@.skip(p as int + 4),
                (n - j - 1) as nat,
            ) {
                Some(t) => Some((seq![c] + t.0, t.1)),
                None => None::<(Seq<char>, Seq<u8>)>,
            }));
            assert(forall|t0: Seq<char>| s@ + (seq![c] + t0) =~= s@.push(c) + t0);
        }
        push_char(&mut s, c);
        p = p + 4;
        j = j + 1;
    }
    proof {
        assert(parse_chars(bytes@.skip(p as int), 0) == Some(
            (Seq::<char>::empty(), bytes@.skip(p as int)),
        ));
        assert(s@ + Seq::<char>::empty() =~= s@);
    }
    Some((s, p))
}

fn names_unique(records: &Vec<CollectionRecord>) -> (r: bool)
    ensures
        r == model_wf(records.deep_view()),
{
    let ghost m = records.deep_view();
    let n = records.len();
    let mut i: usize = 0;
    while i < n
        invariant
            n == records@.len(),
            m == records.deep_view(),
            i <= n,
            forall|a: int, b: int| 0 <= a < b < n && a < i ==> m[a].0 != m[b].0,
        decreases n - i,
    {
        let mut j: usize = i + 1;
        while j < n
            invariant
                n == records@.len(),
                m == records.deep_view(),
                i < j <= n || (i + 1 == j && j > n),
                i < n,
                forall|b: int| i < b < j ==> m[i as int].0 != m[b].0,
            decreases n - j,
        {
            assert(m[i as int].0 == records@[i as int].name@);
            assert(m[j as int].0 == records@[j as int].name@);
            if crate::text::str_eq(records[i].name.as_str(), records[j].name.as_str()) {
                assert(!model_wf(m));
                return false;
            }
            j = j + 1;
        }
        i = i + 1;
    }
    true
}

/// Reconstructs the index from a snapshot image: the encoded index when the
/// image decodes whole and its record names are unique, nothing otherwise.
#[verifier::loop_isolation(false)]
pub fn from_bytes(bytes: &Vec<u8>) -> (r: Option<CollectionIndex>)
    ensures
        match r {
            Some(idx) => idx.wf() && spec_parse(bytes@) == Some(idx.model()),
            None => !(spec_parse(bytes@) matches Some(m) && model_wf(m)),
        },
{
    let blen = bytes.len();
    let n = match read_u64(bytes, 0) {
        Some(n) => n,
        None => {
            return None;
        },
    };
    proof {
        assert(bytes@.subrange(0, 8) =~= bytes@.subrange(0 as int, 0 as int + 8));
    }
    let mut records: Vec<CollectionRecord> = Vec::new();
    let mut p: usize = 8;
    let mut j: u64 = 0;
    proof {
        assert(records.deep_view() =~= Seq::<(Seq<char>, Seq<Seq<char>>)>::empty());
    }
    while j < n
        invariant
            j <= n,
            8 <= p <= bytes@.len(),
            parse_records(bytes@.skip(8), n as nat) == (match parse_records(
                bytes@.skip(p as int),
                (n - j) as nat,
            ) {
                Some(t) => Some((records.deep_view() + t.0, t.1)),
                None => None::<(Seq<(Seq<char>, Seq<Seq<char>>)>, Seq<u8>)>,
            }),
        decreases n - j,
    {
        let ghost cur = bytes@.skip(p as int);
        let ghost acc = records.deep_view();
        let (name, p1) = match read_string(bytes, p) {
            Some(sp) => sp,
            None => {
                return None;
            },
        };
        let cn = match read_u64(bytes, p1) {
            Some(cn) => cn,
            None => {
                proof {
                    assert(bytes@.skip(p1 as int).len() < 8);
                }
                return None;
            },
        };
        let ghost after_name = bytes@.skip(p1 as int);
        proof {
            assert(after_name.subrange(0, 8) =~= bytes@.subrange(p1 as int, p1 as int + 8));
            assert(after_name.skip(8) =~= bytes@.skip(p1 as int + 8));
        }
        let mut checksums: Vec<String> = Vec::new();
        let mut q: usize = p1 + 8;
        let mut k: u64 = 0;
        proof {
            assert(checksums.deep_view() =~= Seq::<Seq<char>>::empty());
        }
        while k < cn
            invariant
                k <= cn,
                p1 + 8 <= q <= bytes@.len(),
                parse_str_list(bytes@.skip(p1 as int + 8), cn as nat) == (match parse_str_list(
                    bytes@.skip(q as int),
                    (cn - k) as nat,
                ) {
                    Some(t) => Some((checksums.deep_view() + t.0, t.1)),
                    None => None::<(Seq<Seq<char>>, Seq<u8>)>,
                }),
            decreases cn - k,
        {
            let ghost hacc = checksums.deep_view();
            let (h, q1) = match read_string(bytes, q) {
                Some(sp) => sp,
                None => {
                    return None;
                },
            };
            proof {
                assert(forall|t0: Seq<Seq<char>>| hacc + (seq![h@] + t0) =~= hacc.push(h@) + t0);
            }
            checksums.push(h);
            proof {
                assert(checksums.deep_view() =~= hacc.push(h@));
            }
            q = q1;
            k = k + 1;
        }
        proof {
            assert(parse_str_list(bytes@.skip(q as int), 0) == Some(
                (Seq::<Seq<char>>::empty(), bytes@.skip(q as int)),
            ));
            assert(checksums.deep_view() + Seq::<Seq<char>>::empty() =~= checksums.deep_view());
        }
        let record = CollectionRecord { name, checksums };
        proof {
            assert(forall|t0: Seq<(Seq<char>, Seq<Seq<char>>)>|
                acc + (seq![record.deep_view()] + t0) =~= acc.push(record.deep_view()) + t0);
        }
        records.push(record);
        proof {
            assert(records.deep_view() =~= acc.push(record.deep_view()));
        }
        p = q;
        j = j + 1;
    }
    if p != bytes.len() {
        proof {
            assert(bytes@.skip(p as int).len() > 0);
        }
        return None;
    }
    proof {
        assert(parse_records(bytes@.skip(p as int), 0) == Some(
            (Seq::<(Seq<char>, Seq<Seq<char>>)>::empty(), bytes@.skip(p as int)),
        ));
        assert(records.deep_view() + Seq::<(Seq<char>, Seq<Seq<char>>)>::empty()
            =~= records.deep_view());
        assert(bytes@.skip(p as int).len() == 0);
    }
    if names_unique(&records) {
        Some(CollectionIndex { records })
    } else {
        None
    }
}

/// A snapshot image decodes to exactly the index it was taken from: reloading
/// after an interruption sees every merge the image was written with, once.
pub proof fn lemma_snapshot_round_trip(m: Seq<(Seq<char>, Seq<Seq<char>>)>)
    requires
        encodable(m),
    ensures
        spec_parse(spec_snapshot(m)) == Some(m),
{
    let b = spec_snapshot(m);
    assert(b.subrange(0, 8) =~= enc_u64(m.len() as u64));
    lemma_u64_round_trip(m.len() as u64);
    assert(b.skip(8) =~= enc_records(m) + Seq::<u8>::empty());
    lemma_parse_records_of_enc(m, Seq::empty());
}

} // verus!
