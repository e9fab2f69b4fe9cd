//! The btrees and the types of keys, by number and by name. The names come from the C headers.
use crate::btree::bkey::bch_bkey_type;
use crate::errcode::{BchError, Errcodes};
use crate::text::{same_chars, to_chars};
use crate::util::decimal;
use crate::util::decimal::to_decimal;
use vstd::prelude::*;

verus! {

/// A known btree.
#[allow(non_camel_case_types)]
#[derive(Clone, Copy, PartialEq, Eq, Structural, Debug)]
pub struct btree_id(pub u32);

impl From<btree_id> for u32 {
    fn from(id: btree_id) -> (r: u32) {
        id.0
    }
}

impl vstd::std_specs::convert::FromSpecImpl<btree_id> for u32 {
    open spec fn obeys_from_spec() -> bool {
        true
    }

    open spec fn from_spec(id: btree_id) -> u32 {
        id.0
    }
}

/// The place of the first of `names` that is `name`.
pub open spec fn name_at(names: Seq<Seq<char>>, name: Seq<char>) -> Option<nat>
    decreases names.len(),
{
    if names.len() == 0 {
        None
    } else if names[0] == name {
        Some(0)
    } else {
        match name_at(names.skip(1), name) {
            Some(i) => Some(i + 1),
            None => None,
        }
    }
}

/// Where the name `s` stands in a list of C strings. A text with a NUL character is no C string.
pub open spec fn c_string_at(names: Seq<Seq<char>>, s: Seq<char>) -> Option<nat> {
    if s.contains('\0') {
        None
    } else {
        name_at(names, s)
    }
}

proof fn lemma_name_at(names: Seq<Seq<char>>, name: Seq<char>)
    ensures
        match name_at(names, name) {
            Some(i) => i < names.len() && names[i as int] == name,
            None => !names.contains(name),
        },
    decreases names.len(),
{
    if names.len() > 0 && names[0] != name {
        lemma_name_at(names.skip(1), name);
        if name_at(names.skip(1), name) is None {
            assert forall|i: int| 0 <= i < names.len() implies names[i] != name by {
                if i > 0 {
                    assert(names.skip(1)[i - 1] == names[i]);
                    assert(names.skip(1).contains(names[i]));
                }
            }
        }
    }
}

fn find_name(names: &[String], s: &str) -> (r: Option<usize>)
    ensures
        match r {
            Some(i) => i < names.len() && c_string_at(names.deep_view(), s@) == Some(i as nat),
            None => c_string_at(names.deep_view(), s@) is None,
        },
{
    let cs = to_chars(s);
    let mut k: usize = 0;
    while k < cs.len()
        invariant
            k <= cs.len(),
            cs@ == s@,
            forall|j: int| 0 <= j < k ==> cs@[j] != '\0',
        decreases cs.len() - k,
    {
        if cs[k] == '\0' {
            assert(s@.contains('\0'));
            return None;
        }
        k = k + 1;
    }
    assert(!s@.contains('\0'));
    let ghost all = names.deep_view();
    let mut i: usize = 0;
    assert(all.skip(0) == all);
    while i < names.len()
        invariant
            i <= names.len(),
            cs@ == s@,
            !s@.contains('\0'),
            all == names.deep_view(),
            match name_at(all.skip(i as int), s@) {
                Some(j) => name_at(all, s@) == Some(j + i as nat),
                None => name_at(all, s@) is None,
            },
        decreases names.len() - i,
    {
        let name = to_chars(names[i].as_str());
        assert(all.skip(i as int)[0] == name@);
        if same_chars(name.as_slice(), cs.as_slice()) {
            return Some(i);
        }
        assert(all.skip(i as int).skip(1) == all.skip(i + 1));
        i = i + 1;
    }
    None
}

impl btree_id {
    /// The btree with the number `id`, where it is one of the `known`.
    pub fn from_raw(known: &[String], id: u32) -> (r: Option<Self>)
        ensures
            r == (if id < known@.len() {
                Some(btree_id(id))
            } else {
                None
            }),
    {
        if (id as u64) < known.len() as u64 {
            Some(btree_id(id))
        } else {
            None
        }
    }

    /// All the known btrees. There are at most as many as a number of a btree can tell apart.
    pub fn iter_known(known: &[String]) -> (r: Vec<Self>)
        requires
            known@.len() <= u32::MAX,
        ensures
            r@ == Seq::new(known@.len(), |i: int| btree_id(i as u32)),
    {
        let mut r: Vec<btree_id> = Vec::new();
        let mut i: u32 = 0;
        while (i as u64) < known.len() as u64
            invariant
                i <= known@.len() <= u32::MAX,
                r@ == Seq::new(i as nat, |j: int| btree_id(j as u32)),
            decreases known@.len() - i,
        {
            r.push(btree_id(i));
            i = i + 1;
            assert(r@ == Seq::new(i as nat, |j: int| btree_id(j as u32)));
        }
        r
    }

    /// Parses the name of a known btree.
    pub fn from_str(known: &[String], s: &str, codes: &Errcodes) -> (r: Result<Self, BchError>)
        requires
            known@.len() <= u32::MAX,
        ensures
            match r {
                Ok(id) => c_string_at(known.deep_view(), s@) == Some(id.0 as nat) && id.0
                    < known@.len(),
                Err(e) => c_string_at(known.deep_view(), s@) is None && e.code()
                    == codes.einval_parse_btree_id.0 as i32,
            },
    {
        match find_name(known, s) {
            Some(i) => Ok(btree_id(i as u32)),
            None => Err(BchError::from_errcode(codes.einval_parse_btree_id)),
        }
    }
}

/// The name of the btree with the number `id`.
pub open spec fn id_name(known: Seq<Seq<char>>, id: u32) -> Seq<char> {
    if id < known.len() {
        known[id as int]
    } else {
        "(unknown btree "@ + decimal::digits_of(id as nat) + ")"@
    }
}

/// The name of the btree with the number `id`.
pub fn btree_id_str(known: &[String], id: u32) -> (r: String)
    ensures
        r@ == id_name(known.deep_view(), id),
{
    match btree_id::from_raw(known, id) {
        Some(known_id) => {
            let i: usize = known_id.0 as usize;
            known[i].clone()
        },
        None => {
            let number = to_decimal(id as u64);
            let mut r = String::new();
            r.append("(unknown btree ");
            r.append(number.as_str());
            r.append(")");
            assert(r@ == id_name(known.deep_view(), id));
            r
        },
    }
}

impl bch_bkey_type {
    /// Parses the name of a key type, one of `names`.
    pub fn from_str(names: &[String], s: &str, codes: &Errcodes) -> (r: Result<Self, BchError>)
        requires
            names@.len() <= u32::MAX,
        ensures
            match r {
                Ok(t) => c_string_at(names.deep_view(), s@) == Some(t.0 as nat),
                Err(e) => c_string_at(names.deep_view(), s@) is None && e.code()
                    == codes.einval_parse_bkey_type.0 as i32,
            },
    {
        match find_name(names, s) {
            Some(i) => Ok(bch_bkey_type(i as u32)),
            None => Err(BchError::from_errcode(codes.einval_parse_bkey_type)),
        }
    }
}

/// The name of a known btree is parsed back to its number, where the names are C strings and no
/// two are the same.
pub proof fn law_btree_names_round_trip(known: Seq<Seq<char>>, id: u32)
    requires
        id < known.len(),
        !known[id as int].contains('\0'),
        forall|i: int, j: int| 0 <= i < j < known.len() ==> known[i] != known[j],
    ensures
        c_string_at(known, id_name(known, id)) == Some(id as nat),
{
    lemma_name_at(known, known[id as int]);
    assert(known.contains(known[id as int]));
}

/// The btrees that hold the state of the allocator.
pub open spec fn spec_alloc_btrees() -> Seq<&'static str> {
    seq![
        "alloc",
        "backpointers",
        "stripe_backpointers",
        "need_discard",
        "freespace",
        "bucket_gens",
        "lru",
        "accounting",
        "reconcile_work",
        "reconcile_hipri",
        "reconcile_pending",
        "reconcile_scan",
    ]
}

/// Whether the btree with the number `id` holds state of the allocator.
pub open spec fn is_alloc(known: Seq<Seq<char>>, id: u32) -> bool {
    id < known.len() && exists|i: int|
        0 <= i < spec_alloc_btrees().len() && known[id as int]
            == (#[trigger] spec_alloc_btrees()[i])@
}

/// Whether the btree with the number `id` holds state of the allocator.
pub fn btree_id_is_alloc(known: &[String], id: u32) -> (r: bool)
    ensures
        r == is_alloc(known.deep_view(), id),
{
    match btree_id::from_raw(known, id) {
        None => false,
        Some(known_id) => {
            let at: usize = known_id.0 as usize;
            let name = to_chars(known[at].as_str());
            let alloc = vec![
                "alloc",
                "backpointers",
                "stripe_backpointers",
                "need_discard",
                "freespace",
                "bucket_gens",
                "lru",
                "accounting",
                "reconcile_work",
                "reconcile_hipri",
                "reconcile_pending",
                "reconcile_scan",
            ];
            assert(alloc@ == spec_alloc_btrees());
            let mut i: usize = 0;
            while i < alloc.len()
                invariant
                    i <= alloc.len(),
                    id < known@.len(),
                    alloc@ == spec_alloc_btrees(),
                    name@ == known.deep_view()[id as int],
                    forall|j: int|
                        0 <= j < i ==> name@ != (#[trigger] spec_alloc_btrees()[j])@,
                decreases alloc.len() - i,
            {
                let one = to_chars(alloc[i]);
                if same_chars(name.as_slice(), one.as_slice()) {
                    assert(name@ == spec_alloc_btrees()[i as int]@);
                    return true;
                }
                i = i + 1;
            }
            false
        },
    }
}

/// The number of a name is the first place where it stands in the list, and a name that does not stand
/// there has none.
pub proof fn law_names_are_numbered_by_place(names: Seq<Seq<char>>, name: Seq<char>)
    ensures
        match name_at(names, name) {
            Some(i) => i < names.len() && names[i as int] == name && forall|j: int|
                0 <= j < i ==> #[trigger] names[j] != name,
            None => forall|j: int| 0 <= j < names.len() ==> #[trigger] names[j] != name,
        },
        c_string_at(names, name) == (if exists|i: int|
            0 <= i < name.len() && #[trigger] name[i] == '\0' {
            None
        } else {
            name_at(names, name)
        }),
    decreases names.len(),
{
    if names.len() > 0 && names[0] != name {
        let rest = names.skip(1);
        law_names_are_numbered_by_place(rest, name);
        match name_at(rest, name) {
            Some(i) => {
                assert(names[i as int + 1] == rest[i as int]);
                assert forall|j: int| 0 <= j < i + 1 implies #[trigger] names[j] != name by {
                    if j > 0 {
                        assert(names[j] == rest[j - 1]);
                    }
                }
            },
            None => {
                assert forall|j: int| 0 <= j < names.len() implies #[trigger] names[j] != name by {
                    if j > 0 {
                        assert(names[j] == rest[j - 1]);
                    }
                }
            },
        }
    }
}

/// A btree is called by its name, and one that is not known by its number.
pub proof fn law_unknown_btrees_are_called_by_number(known: Seq<Seq<char>>, id: u32)
    ensures
        id < known.len() ==> id_name(known, id) == known[id as int],
        id >= known.len() ==> id_name(known, id) == "(unknown btree "@ + decimal::digits_of(
            id as nat,
        ) + ")"@,
{
}

/// The btrees of the allocator are these twelve, and no others.
pub proof fn law_btrees_of_the_allocator(known: Seq<Seq<char>>, id: u32)
    ensures
        is_alloc(known, id) == (id < known.len() && ({
            let name = known[id as int];
            ||| name == "alloc"@
            ||| name == "backpointers"@
            ||| name == "stripe_backpointers"@
            ||| name == "need_discard"@
            ||| name == "freespace"@
            ||| name == "bucket_gens"@
            ||| name == "lru"@
            ||| name == "accounting"@
            ||| name == "reconcile_work"@
            ||| name == "reconcile_hipri"@
            ||| name == "reconcile_pending"@
            ||| name == "reconcile_scan"@
        })),
{
    if id < known.len() {
        let name = known[id as int];
        let all = spec_alloc_btrees();
        assert((exists|i: int| 0 <= i < all.len() && name == (#[trigger] all[i])@) == (name
            == all[0]@ || name == all[1]@ || name == all[2]@ || name == all[3]@ || name == all[4]@
            || name == all[5]@ || name == all[6]@ || name == all[7]@ || name == all[8]@ || name
            == all[9]@ || name == all[10]@ || name == all[11]@));
    }
}

/// A btree stands for its number.
pub proof fn law_btrees_stand_for_their_number(id: btree_id)
    ensures
        <u32 as vstd::std_specs::convert::FromSpec<btree_id>>::from_spec(id) == id.0,
{
}

} // verus!
