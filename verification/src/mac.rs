//! Ethernet hardware addresses in their textual form `xx:xx:xx:xx:xx:xx`.

use vstd::prelude::*;
use crate::text::{hex_u8, parse_hex_u8, split_on, str_chars};

verus! {

/// The address that `s` writes: exactly six `:`-separated hexadecimal
/// bytes, each as `u8::from_str_radix(_, 16)` reads it; `None` otherwise.
pub open spec fn spec_parse_mac(s: Seq<char>) -> Option<Seq<u8>> {
    let p = split_on(s, ':');
    if p.len() == 6 && forall|k: int| 0 <= k < 6 ==> #[trigger] hex_u8(p[k]) is Some {
        Some(Seq::new(6, |k: int| hex_u8(p[k]).unwrap()))
    } else {
        None
    }
}

/// Whether `values` are the bytes of `pieces`, one each.
pub open spec fn bytes_of_pieces(pieces: Seq<Seq<char>>, values: Seq<u8>) -> bool {
    &&& values.len() == pieces.len()
    &&& forall|k: int| 0 <= k < pieces.len() ==> hex_u8(#[trigger] pieces[k]) == Some(values[k])
}

/// Whether some piece is not a hexadecimal byte.
pub open spec fn some_piece_invalid(pieces: Seq<Seq<char>>) -> bool {
    exists|k: int| 0 <= k < pieces.len() && hex_u8(#[trigger] pieces[k]) is None
}

/// Reads a hardware address such as `c6:1b:39:d1:b3:a0`.
pub fn parse_mac(s: &str) -> (r: Option<[u8; 6]>)
    ensures
        r matches Some(m) ==> spec_parse_mac(s@) == Some(m@),
        r is None ==> spec_parse_mac(s@) is None,
{
    let chars = str_chars(s);
    let n = chars.len();
    let mut values: Vec<u8> = Vec::new();
    let mut ok = true;
    let ghost mut done: Seq<Seq<char>> = Seq::empty();
    let mut start: usize = 0;
    let mut i: usize = 0;
    assert(chars@.subrange(0, 0) =~= Seq::<char>::empty());
    while i < n
        invariant
            n == chars.len(),
            start <= i <= n,
            split_on(chars@.subrange(0, i as int), ':') == done + seq![
                chars@.subrange(start as int, i as int),
            ],
            ok ==> bytes_of_pieces(done, values@),
            !ok ==> some_piece_invalid(done),
        decreases n - i,
    {
        let ghost pre = chars@.subrange(0, i as int);
        let ghost next = chars@.subrange(0, i + 1);
        assert(next.drop_last() =~= pre);
        assert(next.last() == chars@[i as int]);
        if chars[i] == ':' {
            let ghost piece = chars@.subrange(start as int, i as int);
            let ghost done_next = done.push(piece);
            let ghost prev_values = values@;
            match parse_hex_u8(&chars, start, i) {
                Some(v) => {
                    if ok {
                        values.push(v);
                    }
                },
                None => {
                    ok = false;
                },
            }
            proof {
                if ok {
                    assert(bytes_of_pieces(done_next, values@)) by {
                        assert forall|k: int| 0 <= k < done_next.len() implies hex_u8(
                            #[trigger] done_next[k],
                        ) == Some(values@[k]) by {
                            if k < done.len() {
                                assert(done_next[k] == done[k]);
                            }
                        }
                    }
                } else {
                    if hex_u8(piece) is None {
                        assert(hex_u8(done_next[done.len() as int]) is None);
                    } else {
                        let k = choose|k: int| 0 <= k < done.len() && hex_u8(#[trigger] done[k]) is None;
                        assert(done_next[k] == done[k]);
                    }
                }
                done = done_next;
                assert(chars@.subrange(i + 1, i + 1) =~= Seq::<char>::empty());
                assert(split_on(next, ':') =~= done + seq![chars@.subrange(i + 1, i + 1)]);
            }
            start = i + 1;
        } else {
            proof {
                let r = split_on(pre, ':');
                assert(chars@.subrange(start as int, i + 1) =~= chars@.subrange(
                    start as int,
                    i as int,
                ).push(chars@[i as int]));
                assert(r.update(r.len() - 1, r.last().push(next.last())) =~= done + seq![
                    chars@.subrange(start as int, i + 1),
                ]);
            }
        }
        i = i + 1;
    }
    assert(chars@.subrange(0, n as int) =~= s@);
    let ghost piece = chars@.subrange(start as int, n as int);
    let ghost all = done.push(piece);
    assert(split_on(s@, ':') =~= all);
    match parse_hex_u8(&chars, start, n) {
        Some(v) => {
            if ok {
                values.push(v);
            }
        },
        None => {
            ok = false;
        },
    }
    proof {
        if ok {
            assert forall|k: int| 0 <= k < all.len() implies hex_u8(#[trigger] all[k]) == Some(
                values@[k],
            ) by {
                if k < done.len() {
                    assert(all[k] == done[k]);
                }
            }
        } else {
            if hex_u8(piece) is None {
                assert(hex_u8(all[done.len() as int]) is None);
            } else {
                let k = choose|k: int| 0 <= k < done.len() && hex_u8(#[trigger] done[k]) is None;
                assert(all[k] == done[k]);
            }
        }
    }
    if ok && values.len() == 6 {
        let m = [values[0], values[1], values[2], values[3], values[4], values[5]];
        proof {
            assert forall|k: int| 0 <= k < 6 implies #[trigger] hex_u8(all[k]) is Some by {
                assert(hex_u8(all[k]) == Some(values@[k]));
            }
            assert(m@ =~= Seq::new(6, |k: int| hex_u8(all[k]).unwrap()));
        }
        Some(m)
    } else {
        proof {
            if !ok && all.len() == 6 {
                let k = choose|k: int| 0 <= k < all.len() && hex_u8(#[trigger] all[k]) is None;
                assert(!(forall|j: int| 0 <= j < 6 ==> #[trigger] hex_u8(all[j]) is Some));
            }
        }
        None
    }
}

} // verus!
