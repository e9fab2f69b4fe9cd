//! Positions in a filesystem: a btree, and a position in it.
use crate::btree::bkey;
use crate::btree::bkey::{bpos, bpos_lt};
use crate::btree::types;
use crate::btree::types::btree_id;
use crate::errcode::{BchError, Errcodes};
use crate::text;
use crate::text::{find_char, to_chars, to_text};
use core::cmp::Ordering;
use vstd::prelude::*;
use vstd::slice::slice_subrange;

verus! {

/// A btree and a position in it. These are ordered by btree, then by position.
#[allow(non_camel_case_types)]
#[derive(Clone, Copy, PartialEq, Eq, Structural, Debug)]
pub struct bbpos {
    pub btree: btree_id,
    pub pos: bpos,
}

/// Whether `l` precedes `r`.
pub open spec fn bb_lt(l: bbpos, r: bbpos) -> bool {
    ||| l.btree.0 < r.btree.0
    ||| l.btree.0 == r.btree.0 && bkey::pos_lt(l.pos, r.pos)
}

impl PartialOrd for bbpos {
    fn partial_cmp(&self, other: &Self) -> (r: Option<Ordering>) {
        if self.btree.0 < other.btree.0 {
            Some(Ordering::Less)
        } else if self.btree.0 > other.btree.0 {
            Some(Ordering::Greater)
        } else if bpos_lt(self.pos, other.pos) {
            Some(Ordering::Less)
        } else if bpos_lt(other.pos, self.pos) {
            Some(Ordering::Greater)
        } else {
            Some(Ordering::Equal)
        }
    }
}

impl vstd::std_specs::cmp::PartialOrdSpecImpl for bbpos {
    open spec fn obeys_partial_cmp_spec() -> bool {
        true
    }

    open spec fn partial_cmp_spec(&self, other: &Self) -> Option<Ordering> {
        if bb_lt(*self, *other) {
            Some(Ordering::Less)
        } else if bb_lt(*other, *self) {
            Some(Ordering::Greater)
        } else {
            Some(Ordering::Equal)
        }
    }
}

/// These are totally ordered.
pub proof fn law_btree_positions_are_totally_ordered(a: bbpos, b: bbpos, c: bbpos)
    ensures
        bb_lt(a, b) || a == b || bb_lt(b, a),
        !(bb_lt(a, b) && bb_lt(b, a)),
        bb_lt(a, b) && bb_lt(b, c) ==> bb_lt(a, c),
{
}

/// What the text `s` stands for: the name of a btree, a colon, and a position.
pub open spec fn text_bbpos(known: Seq<Seq<char>>, s: Seq<char>) -> Option<bbpos> {
    let n = text::char_at(s, ':');
    if n < s.len() {
        match (types::c_string_at(known, s.take(n)), bkey::text_pos(s.skip(n + 1))) {
            (Some(id), Some(pos)) => Some(bbpos { btree: btree_id(id as u32), pos }),
            _ => None,
        }
    } else {
        None
    }
}

fn read_bbpos(known: &[String], cs: &[char], codes: &Errcodes) -> (r: Option<bbpos>)
    requires
        known@.len() <= u32::MAX,
    ensures
        r == text_bbpos(known.deep_view(), cs@),
{
    assert(cs@.skip(0) == cs@);
    let n: usize = find_char(cs, 0, ':');
    if n == cs.len() {
        return None;
    }
    let name = to_text(slice_subrange(cs, 0, n));
    let pos = to_text(slice_subrange(cs, n + 1, cs.len()));
    assert(name@ == cs@.take(n as int));
    assert(pos@ == cs@.skip(n + 1));
    match (btree_id::from_str(known, name.as_str(), codes), bpos::from_str(pos.as_str(), codes)) {
        (Ok(btree), Ok(pos)) => Some(bbpos { btree, pos }),
        _ => None,
    }
}

impl bbpos {
    /// Parses the name of a known btree and a position in it.
    pub fn from_str(known: &[String], s: &str, codes: &Errcodes) -> (r: Result<Self, BchError>)
        requires
            known@.len() <= u32::MAX,
        ensures
            match r {
                Ok(p) => text_bbpos(known.deep_view(), s@) == Some(p),
                Err(e) => text_bbpos(known.deep_view(), s@) is None && e.code()
                    == codes.einval_parse_bbpos.0 as i32,
            },
    {
        let cs = to_chars(s);
        match read_bbpos(known, cs.as_slice(), codes) {
            Some(p) => Ok(p),
            None => Err(BchError::from_errcode(codes.einval_parse_bbpos)),
        }
    }
}

/// A range of positions, from `start` to `end`, both of them in it.
#[derive(Clone, Copy, PartialEq, Eq, Structural, Debug)]
pub struct BbposRange {
    pub start: bbpos,
    pub end: bbpos,
}

/// The range that the text `s` stands for: two positions with a hyphen between them, or one that
/// is start and end.
pub open spec fn text_range(known: Seq<Seq<char>>, s: Seq<char>) -> Option<BbposRange> {
    let n = text::char_at(s, '-');
    if n < s.len() {
        match (text_bbpos(known, s.take(n)), text_bbpos(known, s.skip(n + 1))) {
            (Some(start), Some(end)) => Some(BbposRange { start, end }),
            _ => None,
        }
    } else {
        match text_bbpos(known, s) {
            Some(p) => Some(BbposRange { start: p, end: p }),
            None => None,
        }
    }
}

/// Parses a range of positions.
pub fn bbpos_range_parse(known: &[String], s: &str, codes: &Errcodes) -> (r: Result<
    BbposRange,
    BchError,
>)
    requires
        known@.len() <= u32::MAX,
    ensures
        match r {
            Ok(range) => text_range(known.deep_view(), s@) == Some(range),
            Err(e) => text_range(known.deep_view(), s@) is None && e.code()
                == codes.einval_parse_bbpos.0 as i32,
        },
{
    let chars = to_chars(s);
    let cs = chars.as_slice();
    assert(cs@.skip(0) == cs@);
    let n: usize = find_char(cs, 0, '-');
    let first = slice_subrange(cs, 0, n);
    assert(first@ == cs@.take(n as int));
    let start = read_bbpos(known, first, codes);
    let end = if n < cs.len() {
        let second = slice_subrange(cs, n + 1, cs.len());
        assert(second@ == cs@.skip(n + 1));
        read_bbpos(known, second, codes)
    } else {
        assert(cs@.take(n as int) == cs@);
        start
    };
    match (start, end) {
        (Some(start), Some(end)) => Ok(BbposRange { start, end }),
        _ => Err(BchError::from_errcode(codes.einval_parse_bbpos)),
    }
}

/// A single position stands for the range that holds it alone.
pub proof fn law_single_position_is_a_range(known: Seq<Seq<char>>, s: Seq<char>)
    requires
        text::char_at(s, '-') == s.len(),
        text_bbpos(known, s) is Some,
    ensures
        text_range(known, s) == Some(
            BbposRange { start: text_bbpos(known, s)->0, end: text_bbpos(known, s)->0 },
        ),
{
}

/// A btree and a position as text.
pub open spec fn bbpos_text(known: Seq<Seq<char>>, p: bbpos) -> Seq<char> {
    types::id_name(known, p.btree.0) + seq![':'] + bkey::pos_text(p.pos)
}

/// What is written with the name of the btree and the three numbers of the position is read back,
/// where the names are C strings without a colon and no two are the same.
pub proof fn law_btree_position_text_round_trip(known: Seq<Seq<char>>, p: bbpos)
    requires
        p.btree.0 < known.len(),
        !known[p.btree.0 as int].contains('\0'),
        !known[p.btree.0 as int].contains(':'),
        forall|i: int, j: int| 0 <= i < j < known.len() ==> known[i] != known[j],
    ensures
        text_bbpos(known, bbpos_text(known, p)) == Some(p),
{
    let name = known[p.btree.0 as int];
    let s = bbpos_text(known, p);
    let n = name.len() as int;
    assert(s[n] == ':');
    assert forall|j: int| 0 <= j < n implies s[j] != ':' by {
        assert(s[j] == name[j]);
        assert(name.contains(name[j]));
    }
    text::lemma_char_at_unique(s, ':', n);
    assert(s.take(n) == name);
    assert(s.skip(n + 1) == bkey::pos_text(p.pos));
    types::law_btree_names_round_trip(known, p.btree.0);
    bkey::law_position_text_round_trip(p.pos);
}

/// Positions of several btrees are ordered by the number of the btree first, then by position.
pub proof fn law_btree_positions_order_as_numbers(a: bbpos, b: bbpos)
    ensures
        bb_lt(a, b) == (a.btree.0 < b.btree.0 || (a.btree.0 == b.btree.0 && bkey::pos_number(a.pos)
            < bkey::pos_number(b.pos))),
{
    bkey::law_positions_order_as_numbers(a.pos, b.pos);
}

/// A position of a btree is read from the name of the btree, the first colon, and the position behind
/// it; without a colon there is none.
pub proof fn law_btree_positions_are_read_at_the_first_colon(
    known: Seq<Seq<char>>,
    name: Seq<char>,
    pos: Seq<char>,
)
    requires
        bkey::is_field(name),
    ensures
        text_bbpos(known, name + seq![':'] + pos) == (match (
            types::c_string_at(known, name),
            bkey::text_pos(pos),
        ) {
            (Some(id), Some(p)) => Some(bbpos { btree: btree_id(id as u32), pos: p }),
            _ => None,
        }),
        text_bbpos(known, name) is None,
{
    let s = name + seq![':'] + pos;
    let n = name.len() as int;
    assert forall|j: int| 0 <= j < n implies s[j] != ':' by {
        assert(s[j] == name[j]);
    }
    text::lemma_char_at_unique(s, ':', n);
    text::lemma_char_at_unique(name, ':', n);
    assert(s.take(n) == name);
    assert(s.skip(n + 1) == pos);
}

/// A range is read from its start, the first hyphen, and its end; without a hyphen it starts and ends
/// at one position.
pub proof fn law_ranges_are_read_at_the_first_hyphen(
    known: Seq<Seq<char>>,
    start: Seq<char>,
    end: Seq<char>,
)
    requires
        forall|i: int| 0 <= i < start.len() ==> #[trigger] start[i] != '-',
    ensures
        text_range(known, start + seq!['-'] + end) == (match (
            text_bbpos(known, start),
            text_bbpos(known, end),
        ) {
            (Some(s), Some(e)) => Some(BbposRange { start: s, end: e }),
            _ => None,
        }),
        text_range(known, start) == (match text_bbpos(known, start) {
            Some(s) => Some(BbposRange { start: s, end: s }),
            None => None,
        }),
{
    let s = start + seq!['-'] + end;
    let n = start.len() as int;
    assert forall|j: int| 0 <= j < n implies s[j] != '-' by {
        assert(s[j] == start[j]);
    }
    text::lemma_char_at_unique(s, '-', n);
    text::lemma_char_at_unique(start, '-', n);
    assert(s.take(n) == start);
    assert(s.skip(n + 1) == end);
}

/// Comparing positions of several btrees says how the btrees compare, and how the positions do within
/// one btree.
pub proof fn law_comparing_btree_positions_compares_numbers(a: bbpos, b: bbpos)
    ensures
        ({
            let p = bkey::pos_number(a.pos);
            let q = bkey::pos_number(b.pos);
            vstd::std_specs::cmp::PartialOrdSpec::partial_cmp_spec(&a, &b) == (if a.btree.0
                < b.btree.0 || (a.btree.0 == b.btree.0 && p < q) {
                Some(Ordering::Less)
            } else if a.btree.0 > b.btree.0 || (a.btree.0 == b.btree.0 && p > q) {
                Some(Ordering::Greater)
            } else {
                Some(Ordering::Equal)
            })
        }),
{
    bkey::law_positions_order_as_numbers(a.pos, b.pos);
    bkey::law_positions_order_as_numbers(b.pos, a.pos);
}

} // verus!
