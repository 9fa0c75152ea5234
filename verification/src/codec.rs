//! The wire format of the dispatch channel. A request is one UTF-8 JSON
//! object, `{"order_id": N, "items": [{"item_id": N, "quantity": N}, ...]}`,
//! with the two keys in that order and any amount of blank space between
//! tokens (a trailing newline included). The grammar is stated by the
//! `spec_` functions here, each executable function is proved to decide
//! exactly that grammar, and a number must fit in 32 unsigned bits.
use vstd::prelude::*;
use vstd::utf8::encode_utf8;
use crate::ledger::DispatchItem;

verus! {

/// Blank space between tokens: space, tab, carriage return, newline.
pub open spec fn is_ws(b: u8) -> bool {
    b == 32 || b == 9 || b == 13 || b == 10
}

/// An ASCII decimal digit.
pub open spec fn is_digit(b: u8) -> bool {
    48 <= b <= 57
}

/// The first position at or after `i` that does not hold blank space.
pub open spec fn spec_skip_ws(s: Seq<u8>, i: int) -> int
    decreases s.len() - i,
{
    if 0 <= i < s.len() && is_ws(s[i]) {
        spec_skip_ws(s, i + 1)
    } else {
        i
    }
}

/// `pat` occurs in `s` at position `i`.
pub open spec fn spec_match(s: Seq<u8>, i: int, pat: Seq<u8>) -> bool {
    0 <= i && i + pat.len() <= s.len() && s.subrange(i, i + pat.len()) == pat
}

/// The byte `b` stands at position `i`; the position after it.
pub open spec fn spec_expect(s: Seq<u8>, i: int, b: u8) -> Option<int> {
    if 0 <= i < s.len() && s[i] == b {
        Some(i + 1)
    } else {
        None
    }
}

/// A decimal number starting at `i`: the longest digit run, provided its
/// value fits in a `u32`; the value and the position after the last digit.
pub open spec fn spec_parse_u32_loop(s: Seq<u8>, i: int, acc: u32) -> Option<(u32, int)>
    decreases s.len() - i,
{
    if 0 <= i < s.len() && is_digit(s[i]) {
        if acc * 10 + (s[i] - 48) <= u32::MAX {
            spec_parse_u32_loop(s, i + 1, ((acc * 10 + (s[i] - 48)) as u32))
        } else {
            None
        }
    } else {
        Some((acc, i))
    }
}

pub open spec fn spec_parse_u32(s: Seq<u8>, i: int) -> Option<(u32, int)> {
    if 0 <= i < s.len() && is_digit(s[i]) {
        spec_parse_u32_loop(s, i, 0)
    } else {
        None
    }
}

/// A quoted key followed by a colon: `"name"`, blank space, `:`, blank
/// space; the position after.
pub open spec fn spec_key(s: Seq<u8>, i: int, name: Seq<u8>) -> Option<int> {
    match spec_expect(s, i, 34) {
        None => None,
        Some(j) => if spec_match(s, j, name) {
            match spec_expect(s, j + name.len(), 34) {
                None => None,
                Some(j2) => {
                    let j3 = spec_skip_ws(s, j2);
                    match spec_expect(s, j3, 58) {
                        None => None,
                        Some(j4) => Some(spec_skip_ws(s, j4)),
                    }
                }
            }
        } else {
            None
        },
    }
}

/// One request line: `{"item_id": N, "quantity": N}`.
pub open spec fn spec_parse_item(s: Seq<u8>, i: int) -> Option<(DispatchItem, int)> {
    match spec_expect(s, i, 123) {
        None => None,
        Some(j0) => {
            let j1 = spec_skip_ws(s, j0);
            match spec_key(s, j1, encode_utf8("item_id"@)) {
                None => None,
                Some(j2) => match spec_parse_u32(s, j2) {
                    None => None,
                    Some((item_id, j3)) => {
                        let j4 = spec_skip_ws(s, j3);
                        match spec_expect(s, j4, 44) {
                            None => None,
                            Some(j5) => {
                                let j6 = spec_skip_ws(s, j5);
                                match spec_key(s, j6, encode_utf8("quantity"@)) {
                                    None => None,
                                    Some(j7) => match spec_parse_u32(s, j7) {
                                        None => None,
                                        Some((quantity, j8)) => {
                                            let j9 = spec_skip_ws(s, j8);
                                            match spec_expect(s, j9, 125) {
                                                None => None,
                                                Some(j10) => Some(
                                                    (DispatchItem { item_id, quantity }, j10),
                                                ),
                                            }
                                        }
                                    },
                                }
                            }
                        }
                    }
                },
            }
        }
    }
}

/// The lines after the first: at `i` stands `]` (done) or `,` and another
/// line, each line followed by blank space.
pub open spec fn spec_parse_items_rest(s: Seq<u8>, i: int, acc: Seq<DispatchItem>) -> Option<
    (Seq<DispatchItem>, int),
>
    decreases s.len() - i,
{
    match spec_expect(s, i, 93) {
        Some(j) => Some((acc, j)),
        None => match spec_expect(s, i, 44) {
            None => None,
            Some(j0) => {
                let j1 = spec_skip_ws(s, j0);
                match spec_parse_item(s, j1) {
                    None => None,
                    Some((it, j2)) => {
                        let j3 = spec_skip_ws(s, j2);
                        if i < j3 <= s.len() {
                            spec_parse_items_rest(s, j3, acc.push(it))
                        } else {
                            None
                        }
                    }
                }
            }
        },
    }
}

/// The line list: `[` then `]` at once, or lines separated by commas.
pub open spec fn spec_parse_items(s: Seq<u8>, i: int) -> Option<(Seq<DispatchItem>, int)> {
    match spec_expect(s, i, 91) {
        None => None,
        Some(j0) => {
            let j1 = spec_skip_ws(s, j0);
            match spec_expect(s, j1, 93) {
                Some(j2) => Some((Seq::empty(), j2)),
                None => match spec_parse_item(s, j1) {
                    None => None,
                    Some((it, j2)) => {
                        let j3 = spec_skip_ws(s, j2);
                        if j1 < j3 <= s.len() {
                            spec_parse_items_rest(s, j3, seq![it])
                        } else {
                            None
                        }
                    }
                },
            }
        }
    }
}

/// A whole request message: the object with its two keys in order, nothing
/// but blank space around it, the order identifier and the line list.
pub open spec fn spec_decode_request(s: Seq<u8>) -> Option<(u32, Seq<DispatchItem>)> {
    let i0 = spec_skip_ws(s, 0);
    match spec_expect(s, i0, 123) {
        None => None,
        Some(i1) => {
            let i2 = spec_skip_ws(s, i1);
            match spec_key(s, i2, encode_utf8("order_id"@)) {
                None => None,
                Some(i3) => match spec_parse_u32(s, i3) {
                    None => None,
                    Some((order_id, i4)) => {
                        let i5 = spec_skip_ws(s, i4);
                        match spec_expect(s, i5, 44) {
                            None => None,
                            Some(i6) => {
                                let i7 = spec_skip_ws(s, i6);
                                match spec_key(s, i7, encode_utf8("items"@)) {
                                    None => None,
                                    Some(i8) => match spec_parse_items(s, i8) {
                                        None => None,
                                        Some((items, i9)) => {
                                            let i10 = spec_skip_ws(s, i9);
                                            match spec_expect(s, i10, 125) {
                                                None => None,
                                                Some(i11) => if spec_skip_ws(s, i11) == s.len() {
                                                    Some((order_id, items))
                                                } else {
                                                    None
                                                },
                                            }
                                        }
                                    },
                                }
                            }
                        }
                    }
                },
            }
        }
    }
}

/// The decimal digits of `v`, most significant first.
pub open spec fn spec_u32_bytes(v: nat) -> Seq<u8>
    decreases v,
{
    if v < 10 {
        seq![((48 + v) as u8)]
    } else {
        spec_u32_bytes(v / 10).push(((48 + v % 10) as u8))
    }
}

fn skip_ws(s: &[u8], i: usize) -> (r: usize)
    requires
        i <= s@.len(),
    ensures
        r == spec_skip_ws(s@, i as int),
        i <= r <= s@.len(),
    decreases s@.len() - i,
{
    if i < s.len() {
        let b = s[i];
        if b == 32 || b == 9 || b == 13 || b == 10 {
            return skip_ws(s, i + 1);
        }
    }
    i
}

/// Whether `pat` occurs in `s` at position `i`.
pub fn match_bytes(s: &[u8], i: usize, pat: &[u8]) -> (r: bool)
    requires
        i <= s@.len(),
    ensures
        r == spec_match(s@, i as int, pat@),
{
    if s.len() - i < pat.len() {
        return false;
    }
    let mut k: usize = 0;
    while k < pat.len()
        invariant
            i + pat@.len() <= s@.len(),
            s@.len() <= usize::MAX,
            k <= pat@.len(),
            forall|l: int| 0 <= l < k ==> s@[i + l] == pat@[l],
        decreases pat@.len() - k,
    {
        if s[i + k] != pat[k] {
            proof {
                if spec_match(s@, i as int, pat@) {
                    assert(s@.subrange(i as int, i + pat@.len())[k as int] == pat@[k as int]);
                }
            }
            return false;
        }
        k += 1;
    }
    proof {
        assert(s@.subrange(i as int, i + pat@.len()) =~= pat@);
    }
    true
}

fn expect(s: &[u8], i: usize, b: u8) -> (r: Option<usize>)
    requires
        i <= s@.len(),
    ensures
        match r {
            Some(j) => spec_expect(s@, i as int, b) == Some(j as int) && j <= s@.len(),
            None => spec_expect(s@, i as int, b) == None::<int>,
        },
{
    if i < s.len() && s[i] == b {
        Some(i + 1)
    } else {
        None
    }
}

fn parse_u32_loop(s: &[u8], i: usize, acc: u32) -> (r: Option<(u32, usize)>)
    requires
        i <= s@.len(),
    ensures
        match r {
            Some(p) => spec_parse_u32_loop(s@, i as int, acc) == Some((p.0, p.1 as int)) && i
                <= p.1 <= s@.len(),
            None => spec_parse_u32_loop(s@, i as int, acc) == None::<(u32, int)>,
        },
    decreases s@.len() - i,
{
    if i < s.len() {
        let b = s[i];
        if 48 <= b && b <= 57 {
            let d = (b - 48) as u32;
            // acc * 10 + d stays within u32 exactly when acc is below
            // 429496729, or equals it and d is at most 5 (u32::MAX is
            // 4294967295).
            if acc < 429496729 || (acc == 429496729 && d <= 5) {
                return parse_u32_loop(s, i + 1, acc * 10 + d);
            } else {
                return None;
            }
        }
    }
    Some((acc, i))
}

fn parse_u32(s: &[u8], i: usize) -> (r: Option<(u32, usize)>)
    requires
        i <= s@.len(),
    ensures
        match r {
            Some(p) => spec_parse_u32(s@, i as int) == Some((p.0, p.1 as int)) && p.1 <= s@.len(),
            None => spec_parse_u32(s@, i as int) == None::<(u32, int)>,
        },
{
    if i < s.len() {
        let b = s[i];
        if 48 <= b && b <= 57 {
            return parse_u32_loop(s, i, 0);
        }
    }
    None
}

fn parse_key(s: &[u8], i: usize, name: &[u8]) -> (r: Option<usize>)
    requires
        i <= s@.len(),
    ensures
        match r {
            Some(j) => spec_key(s@, i as int, name@) == Some(j as int) && j <= s@.len(),
            None => spec_key(s@, i as int, name@) == None::<int>,
        },
{
    let j = match expect(s, i, 34) {
        Some(j) => j,
        None => {
            return None;
        },
    };
    if !match_bytes(s, j, name) {
        return None;
    }
    let n = s.len();
    proof {
        assert(j + name@.len() <= n);
    }
    let j2 = match expect(s, j + name.len(), 34) {
        Some(x) => x,
        None => {
            return None;
        },
    };
    let j3 = skip_ws(s, j2);
    let j4 = match expect(s, j3, 58) {
        Some(x) => x,
        None => {
            return None;
        },
    };
    Some(skip_ws(s, j4))
}

fn parse_item(s: &[u8], i: usize) -> (r: Option<(DispatchItem, usize)>)
    requires
        i <= s@.len(),
    ensures
        match r {
            Some(p) => spec_parse_item(s@, i as int) == Some((p.0, p.1 as int)) && p.1 <= s@.len(),
            None => spec_parse_item(s@, i as int) == None::<(DispatchItem, int)>,
        },
{
    let j0 = match expect(s, i, 123) {
        Some(x) => x,
        None => {
            return None;
        },
    };
    let j1 = skip_ws(s, j0);
    let j2 = match parse_key(s, j1, "item_id".as_bytes()) {
        Some(x) => x,
        None => {
            return None;
        },
    };
    let (item_id, j3) = match parse_u32(s, j2) {
        Some(x) => x,
        None => {
            return None;
        },
    };
    let j4 = skip_ws(s, j3);
    let j5 = match expect(s, j4, 44) {
        Some(x) => x,
        None => {
            return None;
        },
    };
    let j6 = skip_ws(s, j5);
    let j7 = match parse_key(s, j6, "quantity".as_bytes()) {
        Some(x) => x,
        None => {
            return None;
        },
    };
    let (quantity, j8) = match parse_u32(s, j7) {
        Some(x) => x,
        None => {
            return None;
        },
    };
    let j9 = skip_ws(s, j8);
    let j10 = match expect(s, j9, 125) {
        Some(x) => x,
        None => {
            return None;
        },
    };
    Some((DispatchItem { item_id, quantity }, j10))
}

fn parse_items_rest(s: &[u8], i: usize, acc: Vec<DispatchItem>) -> (r: Option<
    (Vec<DispatchItem>, usize),
>)
    requires
        i <= s@.len(),
    ensures
        match r {
            Some(p) => spec_parse_items_rest(s@, i as int, acc@) == Some((p.0@, p.1 as int)) && p.1
                <= s@.len(),
            None => spec_parse_items_rest(s@, i as int, acc@) == None::<(Seq<DispatchItem>, int)>,
        },
    decreases s@.len() - i,
{
    match expect(s, i, 93) {
        Some(j) => {
            return Some((acc, j));
        },
        None => {},
    }
    let j0 = match expect(s, i, 44) {
        Some(x) => x,
        None => {
            return None;
        },
    };
    let j1 = skip_ws(s, j0);
    let (it, j2) = match parse_item(s, j1) {
        Some(x) => x,
        None => {
            return None;
        },
    };
    let j3 = skip_ws(s, j2);
    if i < j3 && j3 <= s.len() {
        let mut acc2 = acc;
        acc2.push(it);
        parse_items_rest(s, j3, acc2)
    } else {
        None
    }
}

fn parse_items(s: &[u8], i: usize) -> (r: Option<(Vec<DispatchItem>, usize)>)
    requires
        i <= s@.len(),
    ensures
        match r {
            Some(p) => spec_parse_items(s@, i as int) == Some((p.0@, p.1 as int)) && p.1
                <= s@.len(),
            None => spec_parse_items(s@, i as int) == None::<(Seq<DispatchItem>, int)>,
        },
{
    let j0 = match expect(s, i, 91) {
        Some(x) => x,
        None => {
            return None;
        },
    };
    let j1 = skip_ws(s, j0);
    match expect(s, j1, 93) {
        Some(j2) => {
            let empty: Vec<DispatchItem> = Vec::new();
            proof {
                assert(empty@ =~= Seq::<DispatchItem>::empty());
            }
            return Some((empty, j2));
        },
        None => {},
    }
    let (it, j2) = match parse_item(s, j1) {
        Some(x) => x,
        None => {
            return None;
        },
    };
    let j3 = skip_ws(s, j2);
    if j1 < j3 && j3 <= s.len() {
        let mut acc: Vec<DispatchItem> = Vec::new();
        acc.push(it);
        proof {
            assert(acc@ =~= seq![it]);
        }
        parse_items_rest(s, j3, acc)
    } else {
        None
    }
}

/// Decode one request message; `None` exactly when the bytes do not spell
/// the grammar above.
pub fn decode_request(s: &[u8]) -> (r: Option<(u32, Vec<DispatchItem>)>)
    ensures
        match r {
            Some(p) => spec_decode_request(s@) == Some((p.0, p.1@)),
            None => spec_decode_request(s@) == None::<(u32, Seq<DispatchItem>)>,
        },
{
    let i0 = skip_ws(s, 0);
    let i1 = match expect(s, i0, 123) {
        Some(x) => x,
        None => {
            return None;
        },
    };
    let i2 = skip_ws(s, i1);
    let i3 = match parse_key(s, i2, "order_id".as_bytes()) {
        Some(x) => x,
        None => {
            return None;
        },
    };
    let (order_id, i4) = match parse_u32(s, i3) {
        Some(x) => x,
        None => {
            return None;
        },
    };
    let i5 = skip_ws(s, i4);
    let i6 = match expect(s, i5, 44) {
        Some(x) => x,
        None => {
            return None;
        },
    };
    let i7 = skip_ws(s, i6);
    let i8 = match parse_key(s, i7, "items".as_bytes()) {
        Some(x) => x,
        None => {
            return None;
        },
    };
    let (items, i9) = match parse_items(s, i8) {
        Some(x) => x,
        None => {
            return None;
        },
    };
    let i10 = skip_ws(s, i9);
    let i11 = match expect(s, i10, 125) {
        Some(x) => x,
        None => {
            return None;
        },
    };
    if skip_ws(s, i11) == s.len() {
        Some((order_id, items))
    } else {
        None
    }
}

/// Append the decimal digits of `v`.
pub fn push_u32(out: &mut Vec<u8>, v: u32)
    ensures
        final(out)@ == old(out)@ + spec_u32_bytes(v as nat),
    decreases v,
{
    if v < 10 {
        out.push(48 + (v as u8));
        proof {
            assert(out@ =~= old(out)@ + spec_u32_bytes(v as nat));
        }
    } else {
        push_u32(out, v / 10);
        out.push(48 + ((v % 10) as u8));
        proof {
            assert(out@ =~= old(out)@ + spec_u32_bytes(v as nat));
        }
    }
}

} // verus!
