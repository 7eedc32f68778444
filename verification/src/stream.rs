//! Splitting of the byte stream of a receiver, which carries NMEA text lines
//! and UBX binary frames one after the other, into its items. Neither kind
//! of item needs to end where a read ends: what is incomplete is held back
//! until more bytes arrive.

use crate::text::{decode_lossy, text_from};
use crate::ubx_config::{
    decode_at, find_sync, lemma_find_sync_is_first, sync_at, sync_offset, ubx_decode, UbxError,
    UbxFrame,
};
use vstd::prelude::*;
use vstd::slice::{slice_subrange, slice_to_vec};

verus! {

/// Largest number of bytes that are held back. A stream that piles up more
/// without completing an item is cleared.
pub const PENDING_CAPACITY: usize = 8192;

/// One item of the stream.
#[derive(Debug)]
pub enum StreamItem {
    /// A text line without its line ending.
    Sentence(String),
    /// A UBX frame with a valid checksum.
    Frame(UbxFrame),
}

/// Mathematical value of a `StreamItem`.
pub ghost enum ItemView {
    Sentence(Seq<char>),
    Frame((u8, u8, Seq<u8>)),
}

impl View for StreamItem {
    type V = ItemView;

    open spec fn view(&self) -> ItemView {
        match self {
            StreamItem::Sentence(text) => ItemView::Sentence(text@),
            StreamItem::Frame(frame) => ItemView::Frame(frame@),
        }
    }
}

/// The values of a list of items.
pub open spec fn item_views(items: Seq<StreamItem>) -> Seq<ItemView> {
    items.map_values(|i: StreamItem| i@)
}

/// Offset of the first line feed at or after `from`; `data.len()` when there
/// is none.
pub open spec fn newline_offset(data: Seq<u8>, from: int) -> int
    decreases data.len() - from,
{
    if from < 0 || from >= data.len() {
        data.len() as int
    } else if data[from] == 0x0Au8 {
        from
    } else {
        newline_offset(data, from + 1)
    }
}

/// The first line feed at or after `from` lies at or after `from`.
pub proof fn lemma_newline_offset_bounds(data: Seq<u8>, from: int)
    requires
        0 <= from <= data.len(),
    ensures
        from <= newline_offset(data, from) <= data.len(),
        newline_offset(data, from) < data.len() ==> data[newline_offset(data, from)] == 0x0Au8,
    decreases data.len() - from,
{
    if from < data.len() && data[from] != 0x0Au8 {
        lemma_newline_offset_bounds(data, from + 1);
    }
}

/// A line without a carriage return at its end.
pub open spec fn line_bytes(line: Seq<u8>) -> Seq<u8> {
    if line.len() > 0 && line.last() == 0x0Du8 {
        line.drop_last()
    } else {
        line
    }
}

/// What stands at the front of the bytes held.
pub ghost enum Cut {
    /// Nothing complete: more bytes are needed.
    Wait,
    /// So many bytes that belong to no item.
    Skip(int),
    /// An item that takes so many bytes.
    Emit(ItemView, int),
}

/// What stands at the front of `data`.
///
/// A line feed in front of the first sync pair ends a text line; an empty
/// line is skipped. Otherwise bytes in front of the first sync pair belong to
/// nothing and are skipped. At a sync pair stands a frame, or a sync pair
/// alone when the checksum is wrong, or the beginning of a frame whose rest
/// has not arrived.
pub open spec fn next_cut(data: Seq<u8>) -> Cut {
    let s = find_sync(data, 0);
    let n = newline_offset(data, 0);
    if n < s {
        let line = line_bytes(data.subrange(0, n));
        if line.len() == 0 {
            Cut::Skip(n + 1)
        } else {
            Cut::Emit(ItemView::Sentence(text_from(line)), n + 1)
        }
    } else if s < data.len() {
        if s > 0 {
            Cut::Skip(s)
        } else {
            match decode_at(data, 0) {
                Ok((frame, end)) => Cut::Emit(ItemView::Frame(frame), end),
                Err(UbxError::BadChecksum { start }) => Cut::Skip(2),
                Err(_) => Cut::Wait,
            }
        }
    } else {
        Cut::Wait
    }
}

/// The items that `data` holds completely, in order, and the bytes that
/// remain.
pub open spec fn split(data: Seq<u8>) -> (Seq<ItemView>, Seq<u8>)
    decreases data.len(),
{
    match next_cut(data) {
        Cut::Wait => (Seq::empty(), data),
        Cut::Skip(k) => if 0 < k <= data.len() {
            split(data.skip(k))
        } else {
            (Seq::empty(), data)
        },
        Cut::Emit(item, k) => if 0 < k <= data.len() {
            (seq![item] + split(data.skip(k)).0, split(data.skip(k)).1)
        } else {
            (Seq::empty(), data)
        },
    }
}

/// The bytes that are held back of what remains: all of them up to the
/// capacity, none beyond.
pub open spec fn held(rest: Seq<u8>) -> Seq<u8> {
    if rest.len() > PENDING_CAPACITY {
        Seq::empty()
    } else {
        rest
    }
}

/// What is cut off the front is never empty and never more than there is.
pub proof fn lemma_cut_is_in_range(data: Seq<u8>)
    ensures
        match next_cut(data) {
            Cut::Wait => true,
            Cut::Skip(k) => 0 < k <= data.len(),
            Cut::Emit(item, k) => 0 < k <= data.len(),
        },
{
    lemma_find_sync_is_first(data, 0);
    lemma_newline_offset_bounds(data, 0);
}

/// More bytes at the end do not move a sync pair that is there already; a
/// sync pair that they complete begins at the last byte at the earliest.
pub proof fn lemma_find_sync_append(a: Seq<u8>, b: Seq<u8>, from: int)
    requires
        0 <= from <= a.len(),
    ensures
        find_sync(a, from) < a.len() ==> find_sync(a + b, from) == find_sync(a, from),
        find_sync(a, from) >= a.len() ==> find_sync(a + b, from) >= a.len() - 1,
    decreases a.len() - from,
{
    let ab = a + b;
    if from + 1 >= a.len() {
        lemma_find_sync_is_first(ab, from);
    } else {
        assert(ab[from] == a[from]);
        assert(ab[from + 1] == a[from + 1]);
        if !sync_at(a, from) {
            lemma_find_sync_append(a, b, from + 1);
        }
    }
}

/// More bytes at the end do not move a line feed that is there already.
pub proof fn lemma_newline_offset_append(a: Seq<u8>, b: Seq<u8>, from: int)
    requires
        0 <= from <= a.len(),
    ensures
        newline_offset(a, from) < a.len() ==> newline_offset(a + b, from) == newline_offset(
            a,
            from,
        ),
        newline_offset(a, from) >= a.len() ==> newline_offset(a + b, from) >= a.len(),
    decreases a.len() - from,
{
    let ab = a + b;
    if from >= a.len() {
        lemma_newline_offset_bounds(ab, from);
    } else {
        assert(ab[from] == a[from]);
        if a[from] != 0x0Au8 {
            lemma_newline_offset_append(a, b, from + 1);
        }
    }
}

/// What stands complete at the front stays what it is when more bytes
/// arrive.
pub proof fn lemma_cut_is_stable(a: Seq<u8>, b: Seq<u8>)
    requires
        next_cut(a) != Cut::Wait,
    ensures
        next_cut(a + b) == next_cut(a),
{
    let ab = a + b;
    let s = find_sync(a, 0);
    let n = newline_offset(a, 0);
    lemma_find_sync_append(a, b, 0);
    lemma_newline_offset_append(a, b, 0);
    lemma_find_sync_is_first(a, 0);
    lemma_newline_offset_bounds(a, 0);
    lemma_find_sync_is_first(ab, 0);
    lemma_newline_offset_bounds(ab, 0);
    if n < s {
        assert(newline_offset(ab, 0) == n);
        lemma_newline_is_no_sync(ab, n);
        assert(ab.subrange(0, n) =~= a.subrange(0, n));
    } else {
        assert(s < a.len());
        assert(find_sync(ab, 0) == s);
        if s == 0 {
            assert(a.len() >= 6);
            let len = a[4] as int + 256 * (a[5] as int);
            assert(ab[4] == a[4] && ab[5] == a[5]);
            assert(8 + len <= a.len());
            assert(ab.subrange(2, 6 + len) =~= a.subrange(2, 6 + len));
            assert(ab.subrange(6, 6 + len) =~= a.subrange(6, 6 + len));
            assert(ab[2] == a[2] && ab[3] == a[3]);
            assert(ab[6 + len] == a[6 + len] && ab[7 + len] == a[7 + len]);
            assert(decode_at(ab, 0) == decode_at(a, 0));
        }
    }
}

/// Where a line feed stands no sync pair begins, so the first sync pair lies
/// elsewhere.
pub proof fn lemma_newline_is_no_sync(data: Seq<u8>, n: int)
    requires
        0 <= n < data.len(),
        data[n] == 0x0Au8,
        newline_offset(data, 0) == n,
        n <= find_sync(data, 0),
    ensures
        n < find_sync(data, 0),
{
    lemma_find_sync_is_first(data, 0);
}

/// Splitting does not depend on how the stream arrives in pieces: the items
/// of a stream that came in two parts are those of the first part followed
/// by those that the second part completes, and the same bytes remain.
pub proof fn lemma_split_is_independent_of_cuts(a: Seq<u8>, b: Seq<u8>)
    ensures
        split(a + b).0 == split(a).0 + split(split(a).1 + b).0,
        split(a + b).1 == split(split(a).1 + b).1,
    decreases a.len(),
{
    lemma_cut_is_in_range(a);
    match next_cut(a) {
        Cut::Wait => {
            assert(split(a).0 + split(a + b).0 =~= split(a + b).0);
        },
        Cut::Skip(k) => {
            lemma_cut_is_stable(a, b);
            assert((a + b).skip(k) =~= a.skip(k) + b);
            lemma_split_is_independent_of_cuts(a.skip(k), b);
        },
        Cut::Emit(item, k) => {
            lemma_cut_is_stable(a, b);
            assert((a + b).skip(k) =~= a.skip(k) + b);
            lemma_split_is_independent_of_cuts(a.skip(k), b);
            assert(seq![item] + (split(a.skip(k)).0 + split(split(a.skip(k)).1 + b).0) =~= (
            seq![item] + split(a.skip(k)).0) + split(split(a.skip(k)).1 + b).0);
        },
    }
}

/// What remains after splitting holds nothing complete: splitting it again
/// yields no item and leaves it as it is.
pub proof fn lemma_rest_holds_nothing_complete(data: Seq<u8>)
    ensures
        split(split(data).1) == (Seq::<ItemView>::empty(), split(data).1),
    decreases data.len(),
{
    lemma_cut_is_in_range(data);
    match next_cut(data) {
        Cut::Wait => {},
        Cut::Skip(k) => {
            lemma_rest_holds_nothing_complete(data.skip(k));
        },
        Cut::Emit(item, k) => {
            lemma_rest_holds_nothing_complete(data.skip(k));
        },
    }
}

fn newline_at(data: &[u8]) -> (at: usize)
    ensures
        at == newline_offset(data@, 0),
        at <= data@.len(),
{
    let mut i: usize = 0;
    while i < data.len()
        invariant
            i <= data@.len(),
            newline_offset(data@, 0) == newline_offset(data@, i as int),
        decreases data@.len() - i,
    {
        if data[i] == 0x0A {
            return i;
        }
        i += 1;
    }
    i
}

/// Splitter of one byte stream.
#[derive(Debug)]
pub struct StreamSplitter {
    /// Bytes that arrived and belong to no complete item yet.
    pub pending: Vec<u8>,
}

impl StreamSplitter {
    /// A splitter that holds nothing.
    pub fn new() -> (splitter: StreamSplitter)
        ensures
            splitter.pending@ == Seq::<u8>::empty(),
    {
        StreamSplitter { pending: Vec::new() }
    }

    /// Takes the bytes of one read and returns the items that are complete
    /// now.
    pub fn push(&mut self, chunk: &[u8]) -> (items: Vec<StreamItem>)
        ensures
            item_views(items@) == split(old(self).pending@ + chunk@).0,
            final(self).pending@ == held(split(old(self).pending@ + chunk@).1),
    {
        self.pending.extend_from_slice(chunk);
        let ghost total = self.pending@;
        proof {
            assert(total =~= old(self).pending@ + chunk@);
        }
        let mut items: Vec<StreamItem> = Vec::new();
        let mut pos: usize = 0;
        let len: usize = self.pending.len();
        proof {
            assert(total.skip(0) =~= total);
            assert(item_views(items@) =~= Seq::empty());
        }
        loop
            invariant
                pos <= len == total.len(),
                self.pending@ == total,
                split(total).0 == item_views(items@) + split(total.skip(pos as int)).0,
                split(total).1 == split(total.skip(pos as int)).1,
            ensures
                pos <= len == total.len(),
                self.pending@ == total,
                split(total).0 == item_views(items@),
                split(total).1 == total.skip(pos as int),
            decreases len - pos,
        {
            let tail: &[u8] = slice_subrange(self.pending.as_slice(), pos, len);
            let ghost rest = total.skip(pos as int);
            proof {
                assert(tail@ =~= rest);
                lemma_cut_is_in_range(rest);
                lemma_find_sync_is_first(rest, 0);
            }
            let s: usize = sync_offset(tail);
            let n: usize = newline_at(tail);
            if n < s {
                let raw: &[u8] = slice_subrange(tail, 0, n);
                let line: &[u8] = if n > 0 && raw[n - 1] == 0x0D {
                    slice_subrange(raw, 0, n - 1)
                } else {
                    raw
                };
                proof {
                    assert(line@ =~= line_bytes(rest.subrange(0, n as int)));
                    assert(rest.skip(n + 1) =~= total.skip(pos + n + 1));
                }
                if line.len() > 0 {
                    let ghost before = item_views(items@);
                    items.push(StreamItem::Sentence(decode_lossy(line)));
                    proof {
                        assert(item_views(items@) =~= before.push(
                            ItemView::Sentence(text_from(line@)),
                        ));
                        assert(before + (seq![ItemView::Sentence(text_from(line@))] + split(
                            rest.skip(n + 1),
                        ).0) =~= item_views(items@) + split(rest.skip(n + 1)).0);
                    }
                }
                pos = pos + n + 1;
            } else if s < tail.len() {
                if s > 0 {
                    proof {
                        assert(rest.skip(s as int) =~= total.skip(pos + s));
                    }
                    pos = pos + s;
                } else {
                    match ubx_decode(tail) {
                        Ok((frame, end)) => {
                            let ghost before = item_views(items@);
                            let ghost view = frame@;
                            items.push(StreamItem::Frame(frame));
                            proof {
                                assert(rest.skip(end as int) =~= total.skip(pos + end));
                                assert(item_views(items@) =~= before.push(ItemView::Frame(view)));
                                assert(before + (seq![ItemView::Frame(view)] + split(
                                    rest.skip(end as int),
                                ).0) =~= item_views(items@) + split(rest.skip(end as int)).0);
                            }
                            pos = pos + end;
                        },
                        Err(UbxError::BadChecksum { start }) => {
                            proof {
                                assert(rest.skip(2) =~= total.skip(pos + 2));
                            }
                            pos = pos + 2;
                        },
                        Err(_) => {
                            proof {
                                assert(item_views(items@) + Seq::<ItemView>::empty()
                                    =~= item_views(items@));
                            }
                            break ;
                        },
                    }
                }
            } else {
                proof {
                    assert(item_views(items@) + Seq::<ItemView>::empty() =~= item_views(items@));
                }
                break ;
            }
        }
        let kept: Vec<u8> = if len - pos > PENDING_CAPACITY {
            Vec::new()
        } else {
            slice_to_vec(slice_subrange(self.pending.as_slice(), pos, len))
        };
        proof {
            assert(kept@ =~= held(total.skip(pos as int)));
        }
        self.pending = kept;
        items
    }
}

} // verus!
