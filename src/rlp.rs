use vstd::prelude::*;

verus! {

/// The value of big-endian bytes.
pub open spec fn be_value(s: Seq<u8>) -> nat
    decreases s.len(),
{
    if s.len() == 0 {
        0
    } else {
        (be_value(s.drop_last()) * 256 + s.last()) as nat
    }
}

/// The RLP header at the start of `buf`, as `alloy_rlp::Header::decode` reads
/// it: whether the item is a list, its payload length and the header's own
/// length. `None` where the header is malformed, not canonical, or announces
/// more bytes than `buf` holds.
pub open spec fn rlp_header(buf: Seq<u8>) -> Option<(bool, nat, nat)> {
    if buf.len() == 0 {
        None
    } else {
        let b = buf[0];
        if b < 0x80 {
            Some((false, 1, 0))
        } else if b <= 0xb7 {
            let pl = (b - 0x80) as nat;
            if pl == 1 && (buf.len() < 2 || buf[1] < 0x80) {
                None
            } else if buf.len() - 1 < pl {
                None
            } else {
                Some((false, pl, 1))
            }
        } else if b < 0xc0 || b >= 0xf8 {
            let list = b >= 0xf8;
            let lol = (if list {
                b - 0xf7
            } else {
                b - 0xb7
            }) as nat;
            if buf.len() - 1 < lol {
                None
            } else {
                let len_bytes = buf.subrange(1, 1 + lol as int);
                let v = be_value(len_bytes);
                if len_bytes[0] == 0 {
                    None
                } else if v > usize::MAX {
                    None
                } else if v < 56 {
                    None
                } else if buf.len() - 1 - lol < v {
                    None
                } else {
                    Some((list, v, 1 + lol))
                }
            }
        } else {
            let pl = (b - 0xc0) as nat;
            if buf.len() - 1 < pl {
                None
            } else {
                Some((true, pl, 1))
            }
        }
    }
}

/// Relies on `alloy_rlp::Header::decode`: the header of the item at the start
/// of `buf`, and the bytes that follow the header.
#[verifier::external_body]
fn decode_header(buf: &[u8]) -> (r: Option<(bool, usize, &[u8])>)
    ensures
        match r {
            Some((list, pl, rest)) => rlp_header(buf@) matches Some((l2, p2, h2)) && l2 == list
                && p2 == pl && h2 <= buf@.len() && rest@ == buf@.subrange(h2 as int, buf@.len() as int),
            None => rlp_header(buf@) is None,
        },
{
    let mut rest = buf;
    match alloy_rlp::Header::decode(&mut rest) {
        Ok(h) => Some((h.list, h.payload_length, rest)),
        Err(_) => None,
    }
}

/// One item of an RLP list: whether it is itself a list, its whole encoding
/// and its payload.
pub struct RlpItem<'a> {
    pub list: bool,
    pub encoding: &'a [u8],
    pub payload: &'a [u8],
}

/// The items that a run of RLP encodings holds, each as (is a list, encoding,
/// payload); `None` where one of them is malformed.
pub open spec fn rlp_items(s: Seq<u8>) -> Option<Seq<(bool, Seq<u8>, Seq<u8>)>>
    decreases s.len(),
{
    if s.len() == 0 {
        Some(Seq::empty())
    } else {
        match rlp_header(s) {
            None => None,
            Some((list, pl, hl)) => {
                let t = hl + pl;
                if t == 0 || t > s.len() {
                    None
                } else {
                    match rlp_items(s.subrange(t as int, s.len() as int)) {
                        None => None,
                        Some(rest) => Some(
                            seq![(list, s.subrange(0, t as int), s.subrange(hl as int, t as int))]
                                + rest,
                        ),
                    }
                }
            },
        }
    }
}

/// The items of an RLP list that spans exactly `node`.
pub open spec fn list_items(node: Seq<u8>) -> Option<Seq<(bool, Seq<u8>, Seq<u8>)>> {
    match rlp_header(node) {
        Some((true, pl, hl)) => if hl + pl == node.len() {
            rlp_items(node.subrange(hl as int, node.len() as int))
        } else {
            None
        },
        _ => None,
    }
}

/// The view of an item.
pub open spec fn item_view(it: RlpItem) -> (bool, Seq<u8>, Seq<u8>) {
    (it.list, it.encoding@, it.payload@)
}

/// The views of a list of items.
pub open spec fn items_view(v: Seq<RlpItem>) -> Seq<(bool, Seq<u8>, Seq<u8>)> {
    v.map_values(|it: RlpItem| item_view(it))
}

/// Splits a run of RLP encodings into its items.
pub fn decode_items<'a>(s: &'a [u8]) -> (r: Option<Vec<RlpItem<'a>>>)
    ensures
        match r {
            Some(v) => rlp_items(s@) == Some(items_view(v@)),
            None => rlp_items(s@) is None,
        },
    decreases s@.len(),
{
    if s.len() == 0 {
        let v: Vec<RlpItem<'a>> = Vec::new();
        assert(items_view(v@) =~= Seq::<(bool, Seq<u8>, Seq<u8>)>::empty());
        return Some(v);
    }
    let (list, pl, rest) = match decode_header(s) {
        Some(h) => h,
        None => return None,
    };
    let hl = s.len() - rest.len();
    if pl > s.len() - hl {
        return None;
    }
    let t = hl + pl;
    if t == 0 {
        return None;
    }
    let item = RlpItem { list, encoding: &s[0..t], payload: &s[hl..t] };
    let mut tail = match decode_items(&s[t..s.len()]) {
        Some(v) => v,
        None => return None,
    };
    let ghost tail_view = items_view(tail@);
    tail.insert(0, item);
    proof {
        assert(items_view(tail@) =~= seq![item_view(item)] + tail_view);
    }
    Some(tail)
}

/// The items of the RLP list that spans exactly `node`.
pub fn decode_list<'a>(node: &'a [u8]) -> (r: Option<Vec<RlpItem<'a>>>)
    ensures
        match r {
            Some(v) => list_items(node@) == Some(items_view(v@)),
            None => list_items(node@) is None,
        },
{
    let (list, pl, rest) = match decode_header(node) {
        Some(h) => h,
        None => return None,
    };
    let hl = node.len() - rest.len();
    if !list || pl != rest.len() {
        return None;
    }
    decode_items(&node[hl..node.len()])
}

/// Whether `s` is exactly one RLP list, with nothing after it.
pub open spec fn single_list(s: Seq<u8>) -> bool {
    rlp_header(s) matches Some((list, pl, hl)) && list && hl + pl == s.len()
}

/// Whether `b` is exactly one RLP list, with nothing after it.
pub fn is_single_list(b: &[u8]) -> (r: bool)
    ensures
        r == single_list(b@),
{
    match decode_header(b) {
        Some((list, pl, rest)) => list && pl == rest.len(),
        None => false,
    }
}

} // verus!
