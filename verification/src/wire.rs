//! Length-prefixed byte strings and lists of them, the building blocks of the
//! wire form. Lengths and counts are written as compact integers: one, two,
//! four or five bytes, the mode in the two low bits of the first byte, the
//! rest little-endian. A decoder accepts the shortest form of a number only.

use vstd::prelude::*;

verus! {

/// The largest length or count that a prefix can carry.
pub const MAX_LEN: usize = 0xFFFF_FFFF;

/// The compact form of `n`.
pub open spec fn compact(n: nat) -> Seq<u8> {
    if n < 64 {
        seq![(4 * n) as u8]
    } else if n < 16384 {
        seq![((4 * n + 1) % 256) as u8, ((4 * n + 1) / 256) as u8]
    } else if n < 0x4000_0000 {
        seq![
            ((4 * n + 2) % 256) as u8,
            ((4 * n + 2) / 256 % 256) as u8,
            ((4 * n + 2) / 65536 % 256) as u8,
            ((4 * n + 2) / 16777216) as u8,
        ]
    } else {
        seq![
            3u8,
            (n % 256) as u8,
            (n / 256 % 256) as u8,
            (n / 65536 % 256) as u8,
            (n / 16777216 % 256) as u8,
        ]
    }
}

/// The number read at `pos` and the position behind it, or `None` where the
/// input ends early or the number is not in its shortest form.
pub open spec fn parse_compact(s: Seq<u8>, pos: int) -> Option<(nat, int)> {
    if pos < 0 || pos >= s.len() {
        None
    } else {
        let b0 = s[pos] as nat;
        if b0 % 4 == 0 {
            Some((b0 / 4, pos + 1))
        } else if b0 % 4 == 1 {
            if pos + 2 > s.len() {
                None
            } else {
                let n = (b0 + 256 * (s[pos + 1] as nat)) / 4;
                if n < 64 { None } else { Some((n, pos + 2)) }
            }
        } else if b0 % 4 == 2 {
            if pos + 4 > s.len() {
                None
            } else {
                let n = (b0 + 256 * (s[pos + 1] as nat) + 65536 * (s[pos + 2] as nat)
                    + 16777216 * (s[pos + 3] as nat)) / 4;
                if n < 16384 { None } else { Some((n, pos + 4)) }
            }
        } else {
            if b0 != 3 || pos + 5 > s.len() {
                None
            } else {
                let n = (s[pos + 1] as nat) + 256 * (s[pos + 2] as nat) + 65536 * (s[pos + 3] as nat)
                    + 16777216 * (s[pos + 4] as nat);
                if n < 0x4000_0000 { None } else { Some((n, pos + 5)) }
            }
        }
    }
}

/// A byte string on the wire: its length, then its bytes.
pub open spec fn blob(b: Seq<u8>) -> Seq<u8> {
    compact(b.len()) + b
}

pub open spec fn parse_blob(s: Seq<u8>, pos: int) -> Option<(Seq<u8>, int)> {
    match parse_compact(s, pos) {
        Some((n, p)) => if p + n <= s.len() {
            Some((s.subrange(p, p + n), p + n))
        } else {
            None
        },
        None => None,
    }
}

/// The byte strings of `items` one after the other, without a count.
pub open spec fn blobs(items: Seq<Seq<u8>>) -> Seq<u8>
    decreases items.len(),
{
    if items.len() == 0 {
        Seq::empty()
    } else {
        blobs(items.drop_last()) + blob(items.last())
    }
}

/// The first `k` byte strings read from `pos` on, and the position behind them.
pub open spec fn parse_blobs(s: Seq<u8>, pos: int, k: nat) -> Option<(Seq<Seq<u8>>, int)>
    decreases k,
{
    if k == 0 {
        Some((Seq::empty(), pos))
    } else {
        match parse_blobs(s, pos, (k - 1) as nat) {
            Some((items, p)) => match parse_blob(s, p) {
                Some((b, q)) => Some((items.push(b), q)),
                None => None,
            },
            None => None,
        }
    }
}

/// A list on the wire: the count of its byte strings, then each of them.
pub open spec fn list(items: Seq<Seq<u8>>) -> Seq<u8> {
    compact(items.len()) + blobs(items)
}

pub open spec fn parse_list(s: Seq<u8>, pos: int) -> Option<(Seq<Seq<u8>>, int)> {
    match parse_compact(s, pos) {
        Some((k, p)) => parse_blobs(s, p, k),
        None => None,
    }
}

/// Every byte string of `items`, and their count, fits a length prefix.
pub open spec fn list_fits(items: Seq<Seq<u8>>) -> bool {
    &&& items.len() <= MAX_LEN
    &&& forall|i: int| 0 <= i < items.len() ==> (#[trigger] items[i]).len() <= MAX_LEN
}

/// The contents of a vector of byte vectors.
pub open spec fn contents(v: Seq<Vec<u8>>) -> Seq<Seq<u8>> {
    Seq::new(v.len(), |i: int| v[i]@)
}

/// `s` holds `part` from `pos` on.
pub open spec fn holds_at(s: Seq<u8>, pos: int, part: Seq<u8>) -> bool {
    &&& 0 <= pos
    &&& pos + part.len() <= s.len()
    &&& s.subrange(pos, pos + part.len()) == part
}

pub proof fn lemma_holds_at_index(s: Seq<u8>, pos: int, part: Seq<u8>, j: int)
    requires
        holds_at(s, pos, part),
        0 <= j < part.len(),
    ensures
        s[pos + j] == part[j],
{
    assert(s.subrange(pos, pos + part.len())[j] == s[pos + j]);
}

pub proof fn lemma_holds_at_split(s: Seq<u8>, pos: int, a: Seq<u8>, b: Seq<u8>)
    requires
        holds_at(s, pos, a + b),
    ensures
        holds_at(s, pos, a),
        holds_at(s, pos + a.len(), b),
{
    let whole = s.subrange(pos, pos + (a + b).len());
    assert(s.subrange(pos, pos + a.len()) =~= whole.subrange(0, a.len() as int));
    assert((a + b).subrange(0, a.len() as int) =~= a);
    assert(s.subrange(pos + a.len(), pos + a.len() + b.len())
        =~= whole.subrange(a.len() as int, (a.len() + b.len()) as int));
    assert((a + b).subrange(a.len() as int, (a.len() + b.len()) as int) =~= b);
}

proof fn lemma_two_byte_form(n: nat)
    requires
        64 <= n < 16384,
    ensures
        (4 * n + 1) % 256 % 4 == 1,
        (4 * n + 1) / 256 < 256,
        ((4 * n + 1) % 256 + 256 * ((4 * n + 1) / 256)) / 4 == n,
{
}

proof fn lemma_four_byte_form(n: nat)
    requires
        16384 <= n < 0x4000_0000,
    ensures
        (4 * n + 2) % 256 % 4 == 2,
        (4 * n + 2) / 16777216 < 256,
        ((4 * n + 2) % 256 + 256 * ((4 * n + 2) / 256 % 256) + 65536 * ((4 * n + 2) / 65536 % 256)
            + 16777216 * ((4 * n + 2) / 16777216)) / 4 == n,
{
}

proof fn lemma_five_byte_form(n: nat)
    requires
        0x4000_0000 <= n <= 0xFFFF_FFFF,
    ensures
        n % 256 + 256 * (n / 256 % 256) + 65536 * (n / 65536 % 256) + 16777216 * (n / 16777216
            % 256) == n,
{
}

/// A compact number is read back as it was written.
pub proof fn lemma_parse_compact(s: Seq<u8>, pos: int, n: nat)
    requires
        n <= MAX_LEN,
        holds_at(s, pos, compact(n)),
    ensures
        parse_compact(s, pos) == Some((n, pos + compact(n).len())),
{
    let c = compact(n);
    lemma_holds_at_index(s, pos, c, 0);
    if n < 64 {
        assert(s[pos] == (4 * n) as u8);
    } else if n < 16384 {
        lemma_two_byte_form(n);
        lemma_holds_at_index(s, pos, c, 1);
        assert(s[pos] as nat == (4 * n + 1) % 256);
        assert(s[pos + 1] as nat == (4 * n + 1) / 256);
    } else if n < 0x4000_0000 {
        lemma_four_byte_form(n);
        lemma_holds_at_index(s, pos, c, 1);
        lemma_holds_at_index(s, pos, c, 2);
        lemma_holds_at_index(s, pos, c, 3);
        assert(s[pos] as nat == (4 * n + 2) % 256);
        assert(s[pos + 1] as nat == (4 * n + 2) / 256 % 256);
        assert(s[pos + 2] as nat == (4 * n + 2) / 65536 % 256);
        assert(s[pos + 3] as nat == (4 * n + 2) / 16777216);
    } else {
        lemma_five_byte_form(n);
        lemma_holds_at_index(s, pos, c, 1);
        lemma_holds_at_index(s, pos, c, 2);
        lemma_holds_at_index(s, pos, c, 3);
        lemma_holds_at_index(s, pos, c, 4);
        assert(s[pos] == 3u8);
        assert(s[pos + 1] as nat == n % 256);
        assert(s[pos + 2] as nat == n / 256 % 256);
        assert(s[pos + 3] as nat == n / 65536 % 256);
        assert(s[pos + 4] as nat == n / 16777216 % 256);
    }
}

/// A byte string is read back as it was written.
pub proof fn lemma_parse_blob(s: Seq<u8>, pos: int, b: Seq<u8>)
    requires
        b.len() <= MAX_LEN,
        holds_at(s, pos, blob(b)),
    ensures
        parse_blob(s, pos) == Some((b, pos + blob(b).len())),
{
    lemma_holds_at_split(s, pos, compact(b.len()), b);
    lemma_parse_compact(s, pos, b.len());
}

/// Byte strings written one after the other are read back in the same order.
pub proof fn lemma_parse_blobs(s: Seq<u8>, pos: int, items: Seq<Seq<u8>>)
    requires
        list_fits(items),
        holds_at(s, pos, blobs(items)),
    ensures
        parse_blobs(s, pos, items.len()) == Some((items, pos + blobs(items).len())),
    decreases items.len(),
{
    if items.len() > 0 {
        let front = items.drop_last();
        lemma_holds_at_split(s, pos, blobs(front), blob(items.last()));
        lemma_parse_blobs(s, pos, front);
        lemma_parse_blob(s, pos + blobs(front).len(), items.last());
        assert(front.push(items.last()) =~= items);
    } else {
        assert(items =~= Seq::empty());
    }
}

/// A list is read back as it was written.
pub proof fn lemma_parse_list(s: Seq<u8>, pos: int, items: Seq<Seq<u8>>)
    requires
        list_fits(items),
        holds_at(s, pos, list(items)),
    ensures
        parse_list(s, pos) == Some((items, pos + list(items).len())),
{
    lemma_holds_at_split(s, pos, compact(items.len()), blobs(items));
    lemma_parse_compact(s, pos, items.len());
    lemma_parse_blobs(s, pos + compact(items.len()).len(), items);
}

/// Once reading fails, reading more fails too.
pub proof fn lemma_parse_blobs_stays_none(s: Seq<u8>, pos: int, k: nat, m: nat)
    requires
        parse_blobs(s, pos, k) is None,
        k <= m,
    ensures
        parse_blobs(s, pos, m) is None,
    decreases m,
{
    if k < m {
        lemma_parse_blobs_stays_none(s, pos, k, (m - 1) as nat);
    }
}

proof fn lemma_bytes_of_sum(b0: nat, b1: nat, b2: nat, b3: nat)
    requires
        b0 < 256,
        b1 < 256,
        b2 < 256,
        b3 < 256,
    ensures
        (b0 + 256 * b1 + 65536 * b2 + 16777216 * b3) % 256 == b0,
        (b0 + 256 * b1 + 65536 * b2 + 16777216 * b3) / 256 % 256 == b1,
        (b0 + 256 * b1 + 65536 * b2 + 16777216 * b3) / 65536 % 256 == b2,
        (b0 + 256 * b1 + 65536 * b2 + 16777216 * b3) / 16777216 == b3,
{
}

/// `s` holds two parts one behind the other, and so their concatenation.
pub proof fn lemma_holds_at_join(s: Seq<u8>, pos: int, a: Seq<u8>, b: Seq<u8>)
    requires
        holds_at(s, pos, a),
        holds_at(s, pos + a.len(), b),
    ensures
        holds_at(s, pos, a + b),
{
    assert(s.subrange(pos, pos + (a + b).len()) =~= s.subrange(pos, pos + a.len()) + s.subrange(
        pos + a.len(),
        pos + a.len() + b.len(),
    ));
}

/// A number that is read stands at that place in its compact form, and no
/// other form is read.
pub proof fn lemma_compact_canonical(s: Seq<u8>, pos: int)
    requires
        parse_compact(s, pos) is Some,
    ensures
        parse_compact(s, pos)->Some_0.0 <= MAX_LEN,
        holds_at(s, pos, compact(parse_compact(s, pos)->Some_0.0)),
        parse_compact(s, pos)->Some_0.1 == pos + compact(parse_compact(s, pos)->Some_0.0).len(),
{
    let n = parse_compact(s, pos)->Some_0.0;
    let b0 = s[pos] as nat;
    if b0 % 4 == 0 {
        assert(compact(n) =~= seq![s[pos]]);
        assert(s.subrange(pos, pos + 1) =~= seq![s[pos]]);
    } else if b0 % 4 == 1 {
        let b1 = s[pos + 1] as nat;
        lemma_bytes_of_sum(b0, b1, 0, 0);
        assert(4 * n + 1 == b0 + 256 * b1);
        assert(compact(n) =~= seq![s[pos], s[pos + 1]]);
        assert(s.subrange(pos, pos + 2) =~= seq![s[pos], s[pos + 1]]);
    } else if b0 % 4 == 2 {
        let b1 = s[pos + 1] as nat;
        let b2 = s[pos + 2] as nat;
        let b3 = s[pos + 3] as nat;
        lemma_bytes_of_sum(b0, b1, b2, b3);
        assert(4 * n + 2 == b0 + 256 * b1 + 65536 * b2 + 16777216 * b3);
        assert(compact(n) =~= seq![s[pos], s[pos + 1], s[pos + 2], s[pos + 3]]);
        assert(s.subrange(pos, pos + 4) =~= seq![s[pos], s[pos + 1], s[pos + 2], s[pos + 3]]);
    } else {
        let b1 = s[pos + 1] as nat;
        let b2 = s[pos + 2] as nat;
        let b3 = s[pos + 3] as nat;
        let b4 = s[pos + 4] as nat;
        lemma_bytes_of_sum(b1, b2, b3, b4);
        assert(n == b1 + 256 * b2 + 65536 * b3 + 16777216 * b4);
        assert(n / 16777216 % 256 == b4);
        assert(compact(n) =~= seq![3u8, s[pos + 1], s[pos + 2], s[pos + 3], s[pos + 4]]);
        assert(s.subrange(pos, pos + 5) =~= seq![
            s[pos],
            s[pos + 1],
            s[pos + 2],
            s[pos + 3],
            s[pos + 4],
        ]);
    }
}

/// A byte string that is read stands at that place in its wire form.
pub proof fn lemma_blob_canonical(s: Seq<u8>, pos: int)
    requires
        parse_blob(s, pos) is Some,
    ensures
        parse_blob(s, pos)->Some_0.0.len() <= MAX_LEN,
        holds_at(s, pos, blob(parse_blob(s, pos)->Some_0.0)),
        parse_blob(s, pos)->Some_0.1 == pos + blob(parse_blob(s, pos)->Some_0.0).len(),
{
    lemma_compact_canonical(s, pos);
    let b = parse_blob(s, pos)->Some_0.0;
    let p = parse_compact(s, pos)->Some_0.1;
    assert(holds_at(s, p, b));
    lemma_holds_at_join(s, pos, compact(b.len()), b);
}

/// Byte strings that are read stand at that place one behind the other.
pub proof fn lemma_blobs_canonical(s: Seq<u8>, pos: int, k: nat)
    requires
        0 <= pos <= s.len(),
        parse_blobs(s, pos, k) is Some,
    ensures
        parse_blobs(s, pos, k)->Some_0.0.len() == k,
        forall|i: int|
            0 <= i < k ==> (#[trigger] parse_blobs(s, pos, k)->Some_0.0[i]).len() <= MAX_LEN,
        holds_at(s, pos, blobs(parse_blobs(s, pos, k)->Some_0.0)),
        parse_blobs(s, pos, k)->Some_0.1 == pos + blobs(parse_blobs(s, pos, k)->Some_0.0).len(),
    decreases k,
{
    if k == 0 {
        assert(s.subrange(pos, pos) =~= Seq::<u8>::empty());
    } else {
        let front = parse_blobs(s, pos, (k - 1) as nat)->Some_0.0;
        let p = parse_blobs(s, pos, (k - 1) as nat)->Some_0.1;
        lemma_blobs_canonical(s, pos, (k - 1) as nat);
        lemma_blob_canonical(s, p);
        let b = parse_blob(s, p)->Some_0.0;
        let items = front.push(b);
        assert(items.drop_last() =~= front);
        assert(items.last() == b);
        lemma_holds_at_join(s, pos, blobs(front), blob(b));
    }
}

/// A list that is read stands at that place in its wire form.
pub proof fn lemma_list_canonical(s: Seq<u8>, pos: int)
    requires
        parse_list(s, pos) is Some,
    ensures
        list_fits(parse_list(s, pos)->Some_0.0),
        holds_at(s, pos, list(parse_list(s, pos)->Some_0.0)),
        parse_list(s, pos)->Some_0.1 == pos + list(parse_list(s, pos)->Some_0.0).len(),
{
    lemma_compact_canonical(s, pos);
    let k = parse_compact(s, pos)->Some_0.0;
    let p = parse_compact(s, pos)->Some_0.1;
    lemma_blobs_canonical(s, p, k);
    let items = parse_list(s, pos)->Some_0.0;
    lemma_holds_at_join(s, pos, compact(k), blobs(items));
}

/// Appends the compact form of `n` to `out`.
pub fn write_compact(out: &mut Vec<u8>, n: usize)
    requires
        n <= MAX_LEN,
    ensures
        final(out)@ == old(out)@ + compact(n as nat),
{
    let ghost before = out@;
    let v: u64 = n as u64;
    if v < 64 {
        out.push((4 * v) as u8);
        assert(out@ =~= before + compact(n as nat));
    } else if v < 16384 {
        let w: u64 = 4 * v + 1;
        out.push((w % 256) as u8);
        out.push((w / 256) as u8);
        assert(out@ =~= before + compact(n as nat));
    } else if v < 0x4000_0000 {
        let w: u64 = 4 * v + 2;
        out.push((w % 256) as u8);
        out.push((w / 256 % 256) as u8);
        out.push((w / 65536 % 256) as u8);
        out.push((w / 16777216) as u8);
        assert(out@ =~= before + compact(n as nat));
    } else {
        out.push(3u8);
        out.push((v % 256) as u8);
        out.push((v / 256 % 256) as u8);
        out.push((v / 65536 % 256) as u8);
        out.push((v / 16777216 % 256) as u8);
        assert(out@ =~= before + compact(n as nat));
    }
}

/// Reads a compact number at `pos`.
pub fn read_compact(buf: &[u8], pos: usize) -> (r: Option<(usize, usize)>)
    requires
        pos <= buf@.len(),
    ensures
        match r {
            Some((n, next)) => parse_compact(buf@, pos as int) == Some((n as nat, next as int))
                && n <= MAX_LEN && next <= buf@.len(),
            None => parse_compact(buf@, pos as int) is None,
        },
{
    let len: usize = buf.len();
    if pos >= len {
        return None;
    }
    let b0: u64 = buf[pos] as u64;
    let mode: u64 = b0 % 4;
    if mode == 0 {
        Some(((b0 / 4) as usize, pos + 1))
    } else if mode == 1 {
        if len - pos < 2 {
            return None;
        }
        let n: u64 = (b0 + 256 * (buf[pos + 1] as u64)) / 4;
        if n < 64 {
            None
        } else {
            Some((n as usize, pos + 2))
        }
    } else if mode == 2 {
        if len - pos < 4 {
            return None;
        }
        let n: u64 = (b0 + 256 * (buf[pos + 1] as u64) + 65536 * (buf[pos + 2] as u64) + 16777216
            * (buf[pos + 3] as u64)) / 4;
        if n < 16384 {
            None
        } else {
            Some((n as usize, pos + 4))
        }
    } else {
        if b0 != 3 || len - pos < 5 {
            return None;
        }
        let n: u64 = (buf[pos + 1] as u64) + 256 * (buf[pos + 2] as u64) + 65536 * (buf[pos
            + 3] as u64) + 16777216 * (buf[pos + 4] as u64);
        if n < 0x4000_0000 {
            None
        } else {
            Some((n as usize, pos + 5))
        }
    }
}

/// Appends `b`, with its length before it, to `out`.
pub fn write_blob(out: &mut Vec<u8>, b: &Vec<u8>)
    requires
        b@.len() <= MAX_LEN,
    ensures
        final(out)@ == old(out)@ + blob(b@),
{
    let ghost before = out@;
    write_compact(out, b.len());
    out.extend_from_slice(b.as_slice());
    assert(out@ =~= before + blob(b@));
}

/// Reads a byte string at `pos`.
pub fn read_blob(buf: &[u8], pos: usize) -> (r: Option<(Vec<u8>, usize)>)
    requires
        pos <= buf@.len(),
    ensures
        match r {
            Some((b, next)) => parse_blob(buf@, pos as int) == Some((b@, next as int))
                && next <= buf@.len() && b@.len() <= MAX_LEN,
            None => parse_blob(buf@, pos as int) is None,
        },
{
    match read_compact(buf, pos) {
        Some((n, p)) => {
            if buf.len() - p < n {
                None
            } else {
                let part = vstd::slice::slice_subrange(buf, p, p + n);
                let b = vstd::slice::slice_to_vec(part);
                Some((b, p + n))
            }
        },
        None => None,
    }
}

/// Whether every byte string of `items`, and their count, fits a length
/// prefix.
pub fn fits(items: &Vec<Vec<u8>>) -> (b: bool)
    ensures
        b == list_fits(contents(items@)),
{
    if items.len() > MAX_LEN {
        return false;
    }
    let mut i: usize = 0;
    while i < items.len()
        invariant
            i <= items@.len(),
            items@.len() <= MAX_LEN,
            forall|j: int| 0 <= j < i ==> (#[trigger] contents(items@)[j]).len() <= MAX_LEN,
        decreases items@.len() - i,
    {
        if items[i].len() > MAX_LEN {
            assert(contents(items@)[i as int].len() > MAX_LEN);
            return false;
        }
        i = i + 1;
    }
    true
}

/// Appends the list `items` to `out`: the count, then each byte string.
pub fn write_list(out: &mut Vec<u8>, items: &Vec<Vec<u8>>)
    requires
        list_fits(contents(items@)),
    ensures
        final(out)@ == old(out)@ + list(contents(items@)),
{
    let ghost before = out@;
    let ghost all = contents(items@);
    write_compact(out, items.len());
    let mut i: usize = 0;
    assert(all.take(0) =~= Seq::<Seq<u8>>::empty());
    while i < items.len()
        invariant
            i <= items@.len(),
            all == contents(items@),
            list_fits(all),
            out@ =~= before + compact(items@.len()) + blobs(all.take(i as int)),
        decreases items@.len() - i,
    {
        assert(all[i as int] == items@[i as int]@);
        write_blob(out, &items[i]);
        assert(all.take(i + 1).drop_last() =~= all.take(i as int));
        assert(all.take(i + 1).last() == all[i as int]);
        i = i + 1;
    }
    assert(all.take(i as int) =~= all);
    assert(out@ =~= before + list(all));
}

/// Reads a list at `pos`.
pub fn read_list(buf: &[u8], pos: usize) -> (r: Option<(Vec<Vec<u8>>, usize)>)
    requires
        pos <= buf@.len(),
    ensures
        match r {
            Some((items, next)) => parse_list(buf@, pos as int) == Some(
                (contents(items@), next as int),
            ) && next <= buf@.len() && list_fits(contents(items@)),
            None => parse_list(buf@, pos as int) is None,
        },
{
    let (count, start) = match read_compact(buf, pos) {
        Some(pair) => pair,
        None => {
            return None;
        },
    };
    let mut items: Vec<Vec<u8>> = Vec::new();
    let mut at: usize = start;
    let mut i: usize = 0;
    assert(contents(items@) =~= Seq::<Seq<u8>>::empty());
    while i < count
        invariant
            i <= count,
            count <= MAX_LEN,
            items@.len() == i,
            list_fits(contents(items@)),
            at <= buf@.len(),
            parse_compact(buf@, pos as int) == Some((count as nat, start as int)),
            parse_blobs(buf@, start as int, i as nat) == Some((contents(items@), at as int)),
        decreases count - i,
    {
        match read_blob(buf, at) {
            Some((b, next)) => {
                let ghost prior = contents(items@);
                items.push(b);
                assert(contents(items@) =~= prior.push(b@));
                at = next;
                i = i + 1;
            },
            None => {
                proof {
                    assert(parse_blobs(buf@, start as int, (i + 1) as nat) is None);
                    lemma_parse_blobs_stays_none(buf@, start as int, (i + 1) as nat, count as nat);
                }
                return None;
            },
        }
    }
    Some((items, at))
}

} // verus!
