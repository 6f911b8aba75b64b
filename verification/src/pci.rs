//! PCI locations: a slot and function on one logical bus (`SS.F`), and
//! paths of them through bridges (`SS.F/SS.F/...`).

use vstd::prelude::*;
use crate::text::{
    find_char, hex_u8, lemma_split_at_first, lemma_split_concat, lemma_split_no_sep,
    lemma_split_nonempty, parse_hex_u8, split_on, str_chars,
};

verus! {

/// Bits of a slot (device) number.
pub const SLOT_BITS: u8 = 5;

/// Largest slot number.
pub const SLOT_MAX: u8 = 31;

/// Bits of a function number.
pub const FUNCTION_BITS: u8 = 3;

/// Largest function number.
pub const FUNCTION_MAX: u8 = 7;

/// Why a PCI location could not be read.
#[derive(Debug, Clone, Copy, PartialEq, Eq, Structural)]
pub enum PciError {
    /// A slot/function has more than one `.`.
    SlotFnFormat,
    /// The slot is not a hexadecimal byte.
    InvalidSlot,
    /// The function is not a hexadecimal byte.
    InvalidFunction,
    /// The slot exceeds `SLOT_MAX`.
    SlotTooLarge(u8),
    /// The function exceeds `FUNCTION_MAX`.
    FunctionTooLarge(u8),
    /// A path has no element.
    EmptyPath,
}

/// A PCI function's slot and function numbers, giving its location on a
/// single logical bus.
#[derive(Debug, Clone, Copy, PartialEq, Eq, Structural)]
pub struct SlotFn(u8);

impl View for SlotFn {
    /// The slot and the function number.
    type V = (u8, u8);

    closed spec fn view(&self) -> (u8, u8) {
        ((self.0 / 8) as u8, (self.0 % 8) as u8)
    }
}

/// What `SlotFn::new` gives for a slot and a function number.
pub open spec fn spec_slot_fn(slot: u8, func: u8) -> Result<(u8, u8), PciError> {
    if slot > SLOT_MAX {
        Err(PciError::SlotTooLarge(slot))
    } else if func > FUNCTION_MAX {
        Err(PciError::FunctionTooLarge(func))
    } else {
        Ok((slot, func))
    }
}

/// What `SlotFn::from_str` gives for `s`: `SS` or `SS.F`, each part a
/// hexadecimal byte; a missing function is 0.
pub open spec fn spec_parse_slot_fn(s: Seq<char>) -> Result<(u8, u8), PciError> {
    let tokens = split_on(s, '.');
    if tokens.len() > 2 {
        Err(PciError::SlotFnFormat)
    } else {
        match hex_u8(tokens[0]) {
            None => Err(PciError::InvalidSlot),
            Some(slot) => if tokens.len() == 2 {
                match hex_u8(tokens[1]) {
                    None => Err(PciError::InvalidFunction),
                    Some(func) => spec_slot_fn(slot, func),
                }
            } else {
                spec_slot_fn(slot, 0)
            },
        }
    }
}

/// The slot/functions of `segs` in order, or the error of the first one
/// that cannot be read.
pub open spec fn spec_parse_slot_fns(segs: Seq<Seq<char>>) -> Result<Seq<(u8, u8)>, PciError>
    decreases segs.len(),
{
    if segs.len() == 0 {
        Ok(Seq::empty())
    } else {
        match spec_parse_slot_fns(segs.drop_last()) {
            Err(e) => Err(e),
            Ok(v) => match spec_parse_slot_fn(segs.last()) {
                Err(e) => Err(e),
                Ok(x) => Ok(v.push(x)),
            },
        }
    }
}

/// What `Path::from_str` gives for `s`: the `/`-separated slot/functions.
pub open spec fn spec_parse_path(s: Seq<char>) -> Result<Seq<(u8, u8)>, PciError> {
    match spec_parse_slot_fns(split_on(s, '/')) {
        Err(e) => Err(e),
        Ok(v) => if v.len() == 0 {
            Err(PciError::EmptyPath)
        } else {
            Ok(v)
        },
    }
}

/// The plain value of a parse result.
pub open spec fn slot_fn_result_view(r: Result<SlotFn, PciError>) -> Result<(u8, u8), PciError> {
    match r {
        Ok(sf) => Ok(sf@),
        Err(e) => Err(e),
    }
}

/// An error in the first pieces is the error of the whole.
proof fn lemma_parse_slot_fns_prefix_err(a: Seq<Seq<char>>, b: Seq<Seq<char>>)
    requires
        spec_parse_slot_fns(a) is Err,
    ensures
        spec_parse_slot_fns(a + b) == spec_parse_slot_fns(a),
    decreases b.len(),
{
    if b.len() == 0 {
        assert(a + b =~= a);
    } else {
        lemma_parse_slot_fns_prefix_err(a, b.drop_last());
        assert((a + b).drop_last() =~= a + b.drop_last());
    }
}

/// A successful reading gives one slot/function per piece.
pub proof fn lemma_parse_slot_fns_len(segs: Seq<Seq<char>>)
    ensures
        spec_parse_slot_fns(segs) matches Ok(v) ==> v.len() == segs.len(),
    decreases segs.len(),
{
    if segs.len() > 0 {
        lemma_parse_slot_fns_len(segs.drop_last());
    }
}

impl SlotFn {
    /// The slot/function with the given numbers.
    pub fn new(slot: u8, func: u8) -> (r: Result<SlotFn, PciError>)
        ensures
            slot_fn_result_view(r) == spec_slot_fn(slot, func),
    {
        if slot > SLOT_MAX {
            return Err(PciError::SlotTooLarge(slot));
        }
        if func > FUNCTION_MAX {
            return Err(PciError::FunctionTooLarge(func));
        }
        let raw: u8 = (slot << FUNCTION_BITS) | func;
        assert(((slot << 3u8) | func) / 8 == slot && ((slot << 3u8) | func) % 8 == func)
            by (bit_vector)
            requires
                slot <= 31,
                func <= 7,
        ;
        Ok(SlotFn(raw))
    }

    /// The slot (device) number.
    pub fn slot(self) -> (r: u8)
        ensures
            r == self@.0,
    {
        let x = self.0;
        assert(x >> 3u8 == x / 8) by (bit_vector);
        x >> FUNCTION_BITS
    }

    /// The function number.
    pub fn function(self) -> (r: u8)
        ensures
            r == self@.1,
    {
        let x = self.0;
        assert(x & 7u8 == x % 8) by (bit_vector);
        x & FUNCTION_MAX
    }

    /// Every slot/function has a slot of at most `SLOT_MAX` and a function of
    /// at most `FUNCTION_MAX`.
    pub proof fn lemma_bounds(self)
        ensures
            self@.0 <= SLOT_MAX,
            self@.1 <= FUNCTION_MAX,
    {
    }

    /// Reads `s` as `SS` or `SS.F`.
    pub fn from_str(s: &str) -> (r: Result<SlotFn, PciError>)
        ensures
            slot_fn_result_view(r) == spec_parse_slot_fn(s@),
    {
        let chars = str_chars(s);
        assert(chars@.subrange(0, chars@.len() as int) =~= s@);
        parse_slot_fn_chars(&chars, 0, chars.len())
    }
}

/// Reads `chars[start..end]` as a slot/function.
pub fn parse_slot_fn_chars(chars: &Vec<char>, start: usize, end: usize) -> (r: Result<
    SlotFn,
    PciError,
>)
    requires
        start <= end <= chars.len(),
    ensures
        slot_fn_result_view(r) == spec_parse_slot_fn(chars@.subrange(start as int, end as int)),
{
    let ghost seg = chars@.subrange(start as int, end as int);
    let p1 = find_char(chars, start, end, '.');
    let slot_end: usize;
    let mut func_start: usize = end;
    let has_func: bool;
    if p1 == end {
        proof {
            assert(seg =~= chars@.subrange(start as int, p1 as int));
            lemma_split_no_sep(seg, '.');
        }
        slot_end = end;
        has_func = false;
    } else {
        let p2 = find_char(chars, p1 + 1, end, '.');
        let ghost i = p1 - start;
        let ghost rest = chars@.subrange(p1 + 1, end as int);
        proof {
            assert(seg.take(i) =~= chars@.subrange(start as int, p1 as int));
            assert(seg.skip(i + 1) =~= rest);
            assert(seg[i] == '.');
            lemma_split_at_first(seg, i, '.');
        }
        if p2 < end {
            proof {
                let j = p2 - (p1 + 1);
                assert(rest.take(j) =~= chars@.subrange(p1 + 1, p2 as int));
                assert(rest[j] == '.');
                lemma_split_at_first(rest, j, '.');
                lemma_split_nonempty(rest.skip(j + 1), '.');
            }
            return Err(PciError::SlotFnFormat);
        }
        proof {
            assert(rest =~= chars@.subrange(p1 + 1, p2 as int));
            lemma_split_no_sep(rest, '.');
        }
        slot_end = p1;
        func_start = p1 + 1;
        has_func = true;
    }
    let slot = match parse_hex_u8(chars, start, slot_end) {
        Some(v) => v,
        None => {
            return Err(PciError::InvalidSlot);
        },
    };
    let func = if has_func {
        match parse_hex_u8(chars, func_start, end) {
            Some(v) => v,
            None => {
                return Err(PciError::InvalidFunction);
            },
        }
    } else {
        0
    };
    SlotFn::new(slot, func)
}

/// A PCI path: the slot/functions from the root bus through each bridge to
/// the device.
#[derive(Debug, Clone, PartialEq, Eq)]
pub struct Path(Vec<SlotFn>);

impl View for Path {
    /// The slot and function number of each step.
    type V = Seq<(u8, u8)>;

    closed spec fn view(&self) -> Seq<(u8, u8)> {
        self.0@.map_values(|sf: SlotFn| sf@)
    }
}

impl Path {
    /// The path through `slots`, which must not be empty.
    pub fn new(slots: Vec<SlotFn>) -> (r: Result<Path, PciError>)
        ensures
            slots@.len() == 0 ==> r == Err::<Path, PciError>(PciError::EmptyPath),
            slots@.len() > 0 ==> (r matches Ok(p) && p@ == slots@.map_values(|sf: SlotFn| sf@)),
    {
        if slots.len() == 0 {
            return Err(PciError::EmptyPath);
        }
        Ok(Path(slots))
    }

    /// The number of steps.
    pub fn len(&self) -> (r: usize)
        ensures
            r == self@.len(),
    {
        self.0.len()
    }

    /// The `i`-th step.
    pub fn at(&self, i: usize) -> (r: SlotFn)
        requires
            i < self@.len(),
        ensures
            r@ == self@[i as int],
    {
        self.0[i]
    }

    /// Reads `s` as `/`-separated slot/functions.
    pub fn from_str(s: &str) -> (r: Result<Path, PciError>)
        ensures
            path_result_view(r) == spec_parse_path(s@),
    {
        let chars = str_chars(s);
        assert(chars@.skip(0) =~= s@);
        parse_path_chars(&chars, 0)
    }
}

/// The plain value of a path parse result.
pub open spec fn path_result_view(r: Result<Path, PciError>) -> Result<Seq<(u8, u8)>, PciError> {
    match r {
        Ok(p) => Ok(p@),
        Err(e) => Err(e),
    }
}

/// Reads `chars[from..]` as a path.
pub fn parse_path_chars(chars: &Vec<char>, from: usize) -> (r: Result<Path, PciError>)
    requires
        from <= chars.len(),
    ensures
        path_result_view(r) == spec_parse_path(chars@.skip(from as int)),
{
    let n = chars.len();
    let ghost whole = chars@.skip(from as int);
    let mut slots: Vec<SlotFn> = Vec::new();
    let ghost mut done: Seq<Seq<char>> = Seq::empty();
    let mut start = from;
    let mut i = from;
    assert(chars@.subrange(from as int, from as int) =~= Seq::<char>::empty());
    assert(slots@.map_values(|sf: SlotFn| sf@) =~= Seq::<(u8, u8)>::empty());
    while i < n
        invariant
            n == chars.len(),
            from <= start <= i <= n,
            whole == chars@.skip(from as int),
            split_on(chars@.subrange(from as int, i as int), '/') == done + seq![
                chars@.subrange(start as int, i as int),
            ],
            spec_parse_slot_fns(done) == Ok::<Seq<(u8, u8)>, PciError>(
                slots@.map_values(|sf: SlotFn| sf@),
            ),
        decreases n - i,
    {
        let ghost pre = chars@.subrange(from as int, i as int);
        let ghost next = chars@.subrange(from as int, i + 1);
        assert(next.drop_last() =~= pre);
        assert(next.last() == chars@[i as int]);
        if chars[i] == '/' {
            let ghost seg = chars@.subrange(start as int, i as int);
            let ghost done_next = done.push(seg);
            assert(done_next.drop_last() =~= done);
            match parse_slot_fn_chars(chars, start, i) {
                Ok(sf) => {
                    let ghost prev = slots@;
                    slots.push(sf);
                    assert(slots@.map_values(|sf: SlotFn| sf@) =~= prev.map_values(
                        |sf: SlotFn| sf@,
                    ).push(sf@));
                },
                Err(e) => {
                    proof {
                        let rest = chars@.subrange(i + 1, n as int);
                        assert(whole =~= pre + seq!['/'] + rest);
                        lemma_split_concat(pre, rest, '/');
                        assert(done + seq![seg] + split_on(rest, '/') =~= done_next + split_on(
                            rest,
                            '/',
                        ));
                        lemma_parse_slot_fns_prefix_err(done_next, split_on(rest, '/'));
                    }
                    return Err(e);
                },
            }
            proof {
                done = done_next;
                assert(chars@.subrange(i + 1, i + 1) =~= Seq::<char>::empty());
                assert(split_on(next, '/') =~= done + seq![chars@.subrange(i + 1, i + 1)]);
            }
            start = i + 1;
        } else {
            proof {
                let r = split_on(pre, '/');
                assert(chars@.subrange(start as int, i + 1) =~= chars@.subrange(
                    start as int,
                    i as int,
                ).push(chars@[i as int]));
                assert(r.update(r.len() - 1, r.last().push(next.last())) =~= done + seq![
                    chars@.subrange(start as int, i + 1),
                ]);
            }
        }
        i = i + 1;
    }
    assert(chars@.subrange(from as int, n as int) =~= whole);
    let ghost seg = chars@.subrange(start as int, n as int);
    let ghost all = done.push(seg);
    assert(all.drop_last() =~= done);
    assert(split_on(whole, '/') =~= all);
    let last = match parse_slot_fn_chars(chars, start, n) {
        Ok(sf) => sf,
        Err(e) => {
            return Err(e);
        },
    };
    let ghost prev = slots@;
    slots.push(last);
    assert(slots@.map_values(|sf: SlotFn| sf@) =~= prev.map_values(|sf: SlotFn| sf@).push(last@));
    Path::new(slots)
}

} // verus!
