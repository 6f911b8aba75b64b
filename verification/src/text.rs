//! Character-level helpers: splitting on a separator and reading a
//! hexadecimal byte, each with the mathematical statement it meets.

use vstd::prelude::*;
use vstd::string::*;

verus! {

/// The value of a hexadecimal digit (`0-9`, `a-f`, `A-F`), if `c` is one.
pub open spec fn hex_digit_value(c: char) -> Option<int> {
    let n = c as int;
    if 48 <= n <= 57 {
        Some(n - 48)
    } else if 97 <= n <= 102 {
        Some(n - 87)
    } else if 65 <= n <= 70 {
        Some(n - 55)
    } else {
        None
    }
}

/// The number written by `s` in base 16, or `None` when some character of
/// `s` is not a hexadecimal digit. The empty sequence has value 0.
pub open spec fn hex_digits_value(s: Seq<char>) -> Option<int>
    decreases s.len(),
{
    if s.len() == 0 {
        Some(0)
    } else {
        match (hex_digits_value(s.drop_last()), hex_digit_value(s.last())) {
            (Some(v), Some(d)) => Some(v * 16 + d),
            _ => None,
        }
    }
}

/// The byte that `u8::from_str_radix(s, 16)` returns for `s`, or `None` where
/// it fails: `s` is empty, or only a sign, or has a character that is not a
/// hexadecimal digit after an optional leading `+`, or its value exceeds 255.
pub open spec fn hex_u8(s: Seq<char>) -> Option<u8> {
    if s.len() == 0 {
        None
    } else if (s[0] == '+' || s[0] == '-') && s.len() == 1 {
        None
    } else {
        let digits = if s[0] == '+' {
            s.drop_first()
        } else {
            s
        };
        match hex_digits_value(digits) {
            Some(v) => if v <= 255 {
                Some(v as u8)
            } else {
                None
            },
            None => None,
        }
    }
}

/// The pieces of `s` between occurrences of `sep`, as `str::split` yields
/// them: the empty sequence gives one empty piece, and `k` separators give
/// `k + 1` pieces.
pub open spec fn split_on(s: Seq<char>, sep: char) -> Seq<Seq<char>>
    decreases s.len(),
{
    if s.len() == 0 {
        seq![Seq::<char>::empty()]
    } else {
        let r = split_on(s.drop_last(), sep);
        if s.last() == sep {
            r.push(Seq::<char>::empty())
        } else {
            r.update(r.len() - 1, r.last().push(s.last()))
        }
    }
}

/// Splitting never yields an empty list of pieces.
pub proof fn lemma_split_nonempty(s: Seq<char>, sep: char)
    ensures
        split_on(s, sep).len() >= 1,
    decreases s.len(),
{
    if s.len() > 0 {
        lemma_split_nonempty(s.drop_last(), sep);
    }
}

/// Without a separator, `s` is its own only piece.
pub proof fn lemma_split_no_sep(s: Seq<char>, sep: char)
    requires
        !s.contains(sep),
    ensures
        split_on(s, sep) == seq![s],
    decreases s.len(),
{
    if s.len() > 0 {
        assert(!s.drop_last().contains(sep)) by {
            if s.drop_last().contains(sep) {
                let k = choose|k: int| 0 <= k < s.drop_last().len() && s.drop_last()[k] == sep;
                assert(s[k] == sep);
            }
        }
        lemma_split_no_sep(s.drop_last(), sep);
        assert(s.last() != sep) by {
            assert(s[s.len() - 1] == s.last());
        }
        assert(s.drop_last().push(s.last()) =~= s);
        let r = split_on(s.drop_last(), sep);
        assert(r.update(r.len() - 1, r.last().push(s.last())) =~= seq![s]);
    } else {
        assert(s =~= Seq::<char>::empty());
    }
}

/// A separator in the middle splits the pieces of both sides apart.
pub proof fn lemma_split_concat(x: Seq<char>, y: Seq<char>, sep: char)
    ensures
        split_on(x + seq![sep] + y, sep) == split_on(x, sep) + split_on(y, sep),
    decreases y.len(),
{
    let xs = x + seq![sep];
    if y.len() == 0 {
        assert(xs + y =~= xs);
        assert(xs.drop_last() =~= x);
        assert(split_on(y, sep) =~= seq![Seq::<char>::empty()]);
        assert(split_on(x, sep).push(Seq::<char>::empty()) =~= split_on(x, sep) + split_on(y, sep));
    } else {
        let y1 = y.drop_last();
        let c = y.last();
        lemma_split_concat(x, y1, sep);
        lemma_split_nonempty(y1, sep);
        lemma_split_nonempty(x, sep);
        assert((xs + y).drop_last() =~= xs + y1);
        assert((xs + y).last() == c);
        let a = split_on(x, sep);
        let b = split_on(y1, sep);
        if c == sep {
            assert((a + b).push(Seq::<char>::empty()) =~= a + b.push(Seq::<char>::empty()));
        } else {
            let ab = a + b;
            assert(ab.last() == b.last());
            assert(ab.update(ab.len() - 1, ab.last().push(c)) =~= a + b.update(
                b.len() - 1,
                b.last().push(c),
            ));
        }
    }
}

/// With the first separator at `i`, the first piece is everything before it.
pub proof fn lemma_split_at_first(s: Seq<char>, i: int, sep: char)
    requires
        0 <= i < s.len(),
        s[i] == sep,
        !s.take(i).contains(sep),
    ensures
        split_on(s, sep) == seq![s.take(i)] + split_on(s.skip(i + 1), sep),
{
    assert(s =~= s.take(i) + seq![sep] + s.skip(i + 1));
    lemma_split_concat(s.take(i), s.skip(i + 1), sep);
    lemma_split_no_sep(s.take(i), sep);
}

/// The index of the first `c` in `s`, or `s.len()` when there is none.
pub open spec fn first_index_of(s: Seq<char>, c: char) -> int
    decreases s.len(),
{
    if s.len() == 0 {
        0
    } else if s[0] == c {
        0
    } else {
        1 + first_index_of(s.drop_first(), c)
    }
}

/// `first_index_of` is the first occurrence, or the length when there is none.
pub proof fn lemma_first_index_of(s: Seq<char>, c: char)
    ensures
        0 <= first_index_of(s, c) <= s.len(),
        first_index_of(s, c) < s.len() ==> s[first_index_of(s, c)] == c,
        !s.take(first_index_of(s, c)).contains(c),
    decreases s.len(),
{
    let i = first_index_of(s, c);
    if s.len() > 0 && s[0] != c {
        let t = s.drop_first();
        lemma_first_index_of(t, c);
        if i < s.len() {
            assert(s[i] == t[i - 1]);
        }
        if s.take(i).contains(c) {
            let k = choose|k: int| 0 <= k < s.take(i).len() && #[trigger] s.take(i)[k] == c;
            assert(k != 0);
            assert(t.take(i - 1)[k - 1] == c);
        }
    } else {
        assert(s.take(i) =~= Seq::<char>::empty());
    }
}

/// The first piece of a split is everything before the first separator,
/// and the other pieces are the pieces of what follows it.
pub proof fn lemma_split_first_piece(s: Seq<char>, sep: char)
    ensures
        ({
            let i = first_index_of(s, sep);
            &&& split_on(s, sep)[0] == s.take(i)
            &&& i < s.len() ==> split_on(s, sep).drop_first() == split_on(s.skip(i + 1), sep)
            &&& i == s.len() ==> split_on(s, sep).len() == 1
        }),
{
    let i = first_index_of(s, sep);
    lemma_first_index_of(s, sep);
    if i < s.len() {
        lemma_split_at_first(s, i, sep);
        assert((seq![s.take(i)] + split_on(s.skip(i + 1), sep)).drop_first() =~= split_on(
            s.skip(i + 1),
            sep,
        ));
    } else {
        assert(s.take(i) =~= s);
        lemma_split_no_sep(s, sep);
    }
}

/// The value of one hexadecimal digit character.
pub fn hex_digit(c: char) -> (r: Option<u32>)
    ensures
        r is None <==> hex_digit_value(c) is None,
        r matches Some(d) ==> hex_digit_value(c) == Some(d as int) && d < 16,
{
    let n = c as u32;
    if 48 <= n && n <= 57 {
        Some(n - 48)
    } else if 97 <= n && n <= 102 {
        Some(n - 87)
    } else if 65 <= n && n <= 70 {
        Some(n - 55)
    } else {
        None
    }
}

/// Reads `chars[start..end]` as `u8::from_str_radix(_, 16)` does.
pub fn parse_hex_u8(chars: &Vec<char>, start: usize, end: usize) -> (r: Option<u8>)
    requires
        start <= end <= chars.len(),
    ensures
        r == hex_u8(chars@.subrange(start as int, end as int)),
{
    let ghost s = chars@.subrange(start as int, end as int);
    if start == end {
        return None;
    }
    let first = chars[start];
    if (first == '+' || first == '-') && end - start == 1 {
        return None;
    }
    let d0: usize = if first == '+' {
        start + 1
    } else {
        start
    };
    let ghost digits = chars@.subrange(d0 as int, end as int);
    assert(digits =~= (if s[0] == '+' {
        s.drop_first()
    } else {
        s
    }));
    // `acc` is the value read so far, held at 256 once it passes 255.
    let mut acc: u32 = 0;
    let mut ok = true;
    let mut i = d0;
    while i < end
        invariant
            d0 <= i <= end <= chars.len(),
            acc <= 256,
            ok <==> hex_digits_value(chars@.subrange(d0 as int, i as int)) is Some,
            ok ==> {
                let v = hex_digits_value(chars@.subrange(d0 as int, i as int)).unwrap();
                acc == (if v <= 256 {
                    v
                } else {
                    256
                })
            },
        decreases end - i,
    {
        let ghost pre = chars@.subrange(d0 as int, i as int);
        let ghost next = chars@.subrange(d0 as int, i + 1);
        assert(next.drop_last() =~= pre);
        assert(next.last() == chars@[i as int]);
        match hex_digit(chars[i]) {
            Some(d) => {
                if ok {
                    let t = acc * 16 + d;
                    acc = if t > 256 {
                        256
                    } else {
                        t
                    };
                }
            },
            None => {
                ok = false;
            },
        }
        proof {
            if ok {
                let v = hex_digits_value(pre).unwrap();
                assert(hex_digits_value(next) == Some(v * 16 + hex_digit_value(chars@[i as int]).unwrap()));
            }
        }
        i = i + 1;
    }
    if ok && acc <= 255 {
        Some(acc as u8)
    } else {
        None
    }
}

/// The characters of `s`, one element each.
pub fn str_chars(s: &str) -> (v: Vec<char>)
    ensures
        v@ == s@,
{
    let n = s.unicode_len();
    let mut v: Vec<char> = Vec::new();
    let mut i: usize = 0;
    while i < n
        invariant
            n == s@.len(),
            i <= n,
            v@ == s@.take(i as int),
        decreases n - i,
    {
        let c = s.get_char(i);
        v.push(c);
        assert(s@.take(i + 1) =~= s@.take(i as int).push(c));
        i = i + 1;
    }
    assert(s@.take(n as int) =~= s@);
    v
}

/// The index of the first `c` in `chars[from..end]`, or `end` when there is none.
pub fn find_char(chars: &Vec<char>, from: usize, end: usize, c: char) -> (r: usize)
    requires
        from <= end <= chars.len(),
    ensures
        from <= r <= end,
        r < end ==> chars@[r as int] == c,
        !chars@.subrange(from as int, r as int).contains(c),
{
    let mut i = from;
    while i < end
        invariant
            from <= i <= end <= chars.len(),
            !chars@.subrange(from as int, i as int).contains(c),
        decreases end - i,
    {
        if chars[i] == c {
            return i;
        }
        proof {
            let sub = chars@.subrange(from as int, i + 1);
            let pre = chars@.subrange(from as int, i as int);
            if sub.contains(c) {
                let k = choose|k: int| 0 <= k < sub.len() && #[trigger] sub[k] == c;
                if k < pre.len() {
                    assert(pre[k] == c);
                }
            }
        }
        i = i + 1;
    }
    i
}

} // verus!
