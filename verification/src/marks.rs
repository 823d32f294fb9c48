//! Candidate-digit marks for a cell: a center set (possible values of the
//! cell) and a corner set (values pinned to a few cells of a square).
//!
//! Each set holds digits from 1 to 9 and is stored as a bitmask in which bit
//! `d` stands for digit `d`. The representation is canonical: two marks with
//! the same digits are equal as values, so the structural equality that the
//! selection logic uses agrees with equality of the digit sets.

use vstd::prelude::*;
use vstd::string::StringExecFns;

verus! {

/// Bits 1 through 9 are the only ones a digit mask may set.
pub open spec fn mask_wf(m: u16) -> bool {
    m & 0xFC01u16 == 0u16
}

/// Digit `d` is present in mask `m`.
pub open spec fn mask_has(m: u16, d: u8) -> bool {
    m & (1u16 << (d as u16)) != 0u16
}

/// The set of digits a mask holds.
pub open spec fn mask_digits(m: u16) -> Set<u8> {
    Set::new(|d: u8| 1 <= d <= 9 && mask_has(m, d))
}

/// Removes `d` from `s` when present, inserts it otherwise.
pub open spec fn toggle_digit(s: Set<u8>, d: u8) -> Set<u8> {
    if s.contains(d) {
        s.remove(d)
    } else {
        s.insert(d)
    }
}

/// The character a digit is displayed as.
pub open spec fn spec_digit_char(d: u8) -> char {
    match d {
        1u8 => '1',
        2u8 => '2',
        3u8 => '3',
        4u8 => '4',
        5u8 => '5',
        6u8 => '6',
        7u8 => '7',
        8u8 => '8',
        _ => '9',
    }
}

/// The digits of `s` from `d` up to 9, in ascending order, as characters.
pub open spec fn digits_string_from(s: Set<u8>, d: int) -> Seq<char>
    decreases 10 - d,
{
    if d < 1 || d > 9 {
        Seq::empty()
    } else {
        (if s.contains(d as u8) {
            seq![spec_digit_char(d as u8)]
        } else {
            Seq::empty()
        }) + digits_string_from(s, d + 1)
    }
}

/// All digits of `s` in ascending order, as characters.
pub open spec fn digits_string(s: Set<u8>) -> Seq<char> {
    digits_string_from(s, 1)
}

proof fn lemma_mask_new(d: u8)
    requires
        1 <= d <= 9,
    ensures
        mask_wf(1u16 << (d as u16)),
        mask_digits(1u16 << (d as u16)) == set![d],
{
    let dd = d as u16;
    assert((1u16 << dd) & 0xFC01u16 == 0u16) by (bit_vector)
        requires
            1 <= dd <= 9,
    ;
    assert forall|e: u8| 1 <= e <= 9 implies mask_has(1u16 << dd, e) == (e == d) by {
        let ee = e as u16;
        assert(((1u16 << dd) & (1u16 << ee) != 0u16) == (dd == ee)) by (bit_vector)
            requires
                1 <= dd <= 9 && 1 <= ee <= 9,
        ;
    }
    assert(mask_digits(1u16 << dd) =~= set![d]);
}

proof fn lemma_mask_insert(m: u16, d: u8)
    requires
        mask_wf(m),
        1 <= d <= 9,
    ensures
        mask_wf(m | (1u16 << (d as u16))),
        mask_digits(m | (1u16 << (d as u16))) == mask_digits(m).insert(d),
{
    let dd = d as u16;
    let m2 = m | (1u16 << dd);
    assert(m2 & 0xFC01u16 == 0u16) by (bit_vector)
        requires
            m & 0xFC01u16 == 0u16 && 1 <= dd <= 9 && m2 == m | (1u16 << dd),
    ;
    assert forall|e: u8| 1 <= e <= 9 implies mask_has(m2, e) == (e == d || mask_has(m, e)) by {
        let ee = e as u16;
        assert((m2 & (1u16 << ee) != 0u16) == (dd == ee || m & (1u16 << ee) != 0u16))
            by (bit_vector)
            requires
                m2 == m | (1u16 << dd) && 1 <= dd <= 9 && 1 <= ee <= 9,
        ;
    }
    assert(mask_digits(m2) =~= mask_digits(m).insert(d));
}

proof fn lemma_mask_remove(m: u16, d: u8)
    requires
        mask_wf(m),
        1 <= d <= 9,
    ensures
        mask_wf(m & !(1u16 << (d as u16))),
        mask_digits(m & !(1u16 << (d as u16))) == mask_digits(m).remove(d),
{
    let dd = d as u16;
    let m2 = m & !(1u16 << dd);
    assert(m2 & 0xFC01u16 == 0u16) by (bit_vector)
        requires
            m & 0xFC01u16 == 0u16 && 1 <= dd <= 9 && m2 == m & !(1u16 << dd),
    ;
    assert forall|e: u8| 1 <= e <= 9 implies mask_has(m2, e) == (e != d && mask_has(m, e)) by {
        let ee = e as u16;
        assert((m2 & (1u16 << ee) != 0u16) == (dd != ee && m & (1u16 << ee) != 0u16))
            by (bit_vector)
            requires
                m2 == m & !(1u16 << dd) && 1 <= dd <= 9 && 1 <= ee <= 9,
        ;
    }
    assert(mask_digits(m2) =~= mask_digits(m).remove(d));
}

/// A well-formed mask is zero exactly when it holds no digit.
proof fn lemma_mask_empty(m: u16)
    requires
        mask_wf(m),
    ensures
        (m == 0u16) <==> mask_digits(m).is_empty(),
{
    if m == 0u16 {
        assert forall|e: u8| 1 <= e <= 9 implies !mask_has(m, e) by {
            let ee = e as u16;
            assert(0u16 & (1u16 << ee) == 0u16) by (bit_vector);
        }
        assert(mask_digits(m) =~= Set::empty());
    } else {
        assert(m & (1u16 << 1u16) != 0u16 || m & (1u16 << 2u16) != 0u16 || m & (1u16 << 3u16)
            != 0u16 || m & (1u16 << 4u16) != 0u16 || m & (1u16 << 5u16) != 0u16 || m & (1u16
            << 6u16) != 0u16 || m & (1u16 << 7u16) != 0u16 || m & (1u16 << 8u16) != 0u16 || m & (
        1u16 << 9u16) != 0u16) by (bit_vector)
            requires
                m & 0xFC01u16 == 0u16 && m != 0u16,
        ;
        if m & (1u16 << 1u16) != 0u16 {
            assert(mask_digits(m).contains(1u8));
        } else if m & (1u16 << 2u16) != 0u16 {
            assert(mask_digits(m).contains(2u8));
        } else if m & (1u16 << 3u16) != 0u16 {
            assert(mask_digits(m).contains(3u8));
        } else if m & (1u16 << 4u16) != 0u16 {
            assert(mask_digits(m).contains(4u8));
        } else if m & (1u16 << 5u16) != 0u16 {
            assert(mask_digits(m).contains(5u8));
        } else if m & (1u16 << 6u16) != 0u16 {
            assert(mask_digits(m).contains(6u8));
        } else if m & (1u16 << 7u16) != 0u16 {
            assert(mask_digits(m).contains(7u8));
        } else if m & (1u16 << 8u16) != 0u16 {
            assert(mask_digits(m).contains(8u8));
        } else {
            assert(mask_digits(m).contains(9u8));
        }
    }
}

/// Well-formed masks are a canonical representation: equal digit sets give
/// equal masks.
proof fn lemma_mask_canonical(a: u16, b: u16)
    requires
        mask_wf(a),
        mask_wf(b),
        mask_digits(a) == mask_digits(b),
    ensures
        a == b,
{
    assert forall|e: u8| 1 <= e <= 9 implies mask_has(a, e) == mask_has(b, e) by {
        assert(mask_digits(a).contains(e) == (1 <= e <= 9 && mask_has(a, e)));
        assert(mask_digits(b).contains(e) == (1 <= e <= 9 && mask_has(b, e)));
        assert(mask_digits(a).contains(e) == mask_digits(b).contains(e));
    }
    assert(mask_has(a, 1u8) == mask_has(b, 1u8));
    assert(mask_has(a, 2u8) == mask_has(b, 2u8));
    assert(mask_has(a, 3u8) == mask_has(b, 3u8));
    assert(mask_has(a, 4u8) == mask_has(b, 4u8));
    assert(mask_has(a, 5u8) == mask_has(b, 5u8));
    assert(mask_has(a, 6u8) == mask_has(b, 6u8));
    assert(mask_has(a, 7u8) == mask_has(b, 7u8));
    assert(mask_has(a, 8u8) == mask_has(b, 8u8));
    assert(mask_has(a, 9u8) == mask_has(b, 9u8));
    assert(a == b) by (bit_vector)
        requires
            a & 0xFC01u16 == 0u16,
            b & 0xFC01u16 == 0u16,
            (a & (1u16 << (1u8 as u16)) != 0u16) == (b & (1u16 << (1u8 as u16)) != 0u16),
            (a & (1u16 << (2u8 as u16)) != 0u16) == (b & (1u16 << (2u8 as u16)) != 0u16),
            (a & (1u16 << (3u8 as u16)) != 0u16) == (b & (1u16 << (3u8 as u16)) != 0u16),
            (a & (1u16 << (4u8 as u16)) != 0u16) == (b & (1u16 << (4u8 as u16)) != 0u16),
            (a & (1u16 << (5u8 as u16)) != 0u16) == (b & (1u16 << (5u8 as u16)) != 0u16),
            (a & (1u16 << (6u8 as u16)) != 0u16) == (b & (1u16 << (6u8 as u16)) != 0u16),
            (a & (1u16 << (7u8 as u16)) != 0u16) == (b & (1u16 << (7u8 as u16)) != 0u16),
            (a & (1u16 << (8u8 as u16)) != 0u16) == (b & (1u16 << (8u8 as u16)) != 0u16),
            (a & (1u16 << (9u8 as u16)) != 0u16) == (b & (1u16 << (9u8 as u16)) != 0u16),
    ;
}

/// Center marks store a set: two marks holding the same digits are equal as
/// values, so structural equality of cell values agrees with set equality.
pub proof fn lemma_center_marks_canonical(a: CenterMarks, b: CenterMarks)
    requires
        a.wf(),
        b.wf(),
        a@ == b@,
    ensures
        a == b,
{
    lemma_mask_canonical(a.0, b.0);
}

/// Corner marks store a set: two marks holding the same digits are equal as
/// values, so structural equality of cell values agrees with set equality.
pub proof fn lemma_corner_marks_canonical(a: CornerMarks, b: CornerMarks)
    requires
        a.wf(),
        b.wf(),
        a@ == b@,
    ensures
        a == b,
{
    lemma_mask_canonical(a.0, b.0);
}

/// The character a digit is displayed as.
fn digit_str(d: u8) -> (r: &'static str)
    requires
        1 <= d <= 9,
    ensures
        r@ == seq![spec_digit_char(d)],
{
    let r: &'static str = match d {
        1u8 => "1",
        2u8 => "2",
        3u8 => "3",
        4u8 => "4",
        5u8 => "5",
        6u8 => "6",
        7u8 => "7",
        8u8 => "8",
        _ => "9",
    };
    proof {
        reveal_strlit("1");
        reveal_strlit("2");
        reveal_strlit("3");
        reveal_strlit("4");
        reveal_strlit("5");
        reveal_strlit("6");
        reveal_strlit("7");
        reveal_strlit("8");
        reveal_strlit("9");
        assert(r@ =~= seq![spec_digit_char(d)]);
    }
    r
}

/// The value of this cell could be any of the digits written in its center.
#[derive(Clone, Copy, PartialEq, Eq, Structural, Debug)]
pub struct CenterMarks(u16);

impl View for CenterMarks {
    type V = Set<u8>;

    closed spec fn view(&self) -> Set<u8> {
        mask_digits(self.0)
    }
}

impl CenterMarks {
    /// The mask holds digit bits only.
    pub closed spec fn wf(self) -> bool {
        mask_wf(self.0)
    }

    /// Marks holding only the digit entered.
    pub fn new(num: u8) -> (r: Self)
        requires
            1 <= num <= 9,
        ensures
            r.wf(),
            r@ == set![num],
    {
        proof {
            lemma_mask_new(num);
        }
        CenterMarks(1u16 << (num as u16))
    }

    /// Toggles the digit entered: removes it when present, inserts it otherwise.
    pub fn update(&self, num: u8) -> (r: Self)
        requires
            self.wf(),
            1 <= num <= 9,
        ensures
            r.wf(),
            r@ == toggle_digit(self@, num),
    {
        let bit: u16 = 1u16 << (num as u16);
        if self.0 & bit != 0 {
            proof {
                lemma_mask_remove(self.0, num);
                assert(self@.contains(num));
            }
            CenterMarks(self.0 & !bit)
        } else {
            proof {
                lemma_mask_insert(self.0, num);
                assert(!self@.contains(num));
            }
            CenterMarks(self.0 | bit)
        }
    }

    /// Whether the digit is among these marks.
    pub fn contains(&self, num: u8) -> (b: bool)
        requires
            1 <= num <= 9,
        ensures
            b == self@.contains(num),
    {
        self.0 & (1u16 << (num as u16)) != 0
    }

    /// Whether no digit is marked.
    pub fn is_empty(&self) -> (b: bool)
        requires
            self.wf(),
        ensures
            b == self@.is_empty(),
    {
        proof {
            lemma_mask_empty(self.0);
        }
        self.0 == 0
    }

    /// The marked digits in ascending order, for display.
    pub fn to_string(&self) -> (s: String)
        requires
            self.wf(),
        ensures
            s@ == digits_string(self@),
    {
        marks_string(self.0)
    }
}

/// The value marked in a corner must lie in one of a few cells of its square.
#[derive(Clone, Copy, PartialEq, Eq, Structural, Debug)]
pub struct CornerMarks(u16);

impl View for CornerMarks {
    type V = Set<u8>;

    closed spec fn view(&self) -> Set<u8> {
        mask_digits(self.0)
    }
}

impl CornerMarks {
    /// The mask holds digit bits only.
    pub closed spec fn wf(self) -> bool {
        mask_wf(self.0)
    }

    /// Marks holding only the digit entered.
    pub fn new(num: u8) -> (r: Self)
        requires
            1 <= num <= 9,
        ensures
            r.wf(),
            r@ == set![num],
    {
        proof {
            lemma_mask_new(num);
        }
        CornerMarks(1u16 << (num as u16))
    }

    /// Toggles the digit entered: removes it when present, inserts it otherwise.
    pub fn update(&self, num: u8) -> (r: Self)
        requires
            self.wf(),
            1 <= num <= 9,
        ensures
            r.wf(),
            r@ == toggle_digit(self@, num),
    {
        let bit: u16 = 1u16 << (num as u16);
        if self.0 & bit != 0 {
            proof {
                lemma_mask_remove(self.0, num);
                assert(self@.contains(num));
            }
            CornerMarks(self.0 & !bit)
        } else {
            proof {
                lemma_mask_insert(self.0, num);
                assert(!self@.contains(num));
            }
            CornerMarks(self.0 | bit)
        }
    }

    /// Whether the digit is among these marks.
    pub fn contains(&self, num: u8) -> (b: bool)
        requires
            1 <= num <= 9,
        ensures
            b == self@.contains(num),
    {
        self.0 & (1u16 << (num as u16)) != 0
    }

    /// Whether no digit is marked.
    pub fn is_empty(&self) -> (b: bool)
        requires
            self.wf(),
        ensures
            b == self@.is_empty(),
    {
        proof {
            lemma_mask_empty(self.0);
        }
        self.0 == 0
    }

    /// The marked digits in ascending order, for display.
    pub fn to_string(&self) -> (s: String)
        requires
            self.wf(),
        ensures
            s@ == digits_string(self@),
    {
        marks_string(self.0)
    }
}

impl Default for CenterMarks {
    /// Marks holding no digit.
    fn default() -> (r: Self)
        ensures
            r.wf(),
            r@ == Set::<u8>::empty(),
    {
        proof {
            assert(0u16 & 0xFC01u16 == 0u16) by (bit_vector);
            lemma_mask_empty(0u16);
            assert(mask_digits(0u16) =~= Set::<u8>::empty());
        }
        CenterMarks(0)
    }
}

impl Default for CornerMarks {
    /// Marks holding no digit.
    fn default() -> (r: Self)
        ensures
            r.wf(),
            r@ == Set::<u8>::empty(),
    {
        proof {
            assert(0u16 & 0xFC01u16 == 0u16) by (bit_vector);
            lemma_mask_empty(0u16);
            assert(mask_digits(0u16) =~= Set::<u8>::empty());
        }
        CornerMarks(0)
    }
}

/// Renders the digits of a mask in ascending order; the storage is a set, so
/// the order comes from walking the digits, not the representation.
fn marks_string(m: u16) -> (s: String)
    requires
        mask_wf(m),
    ensures
        s@ == digits_string(mask_digits(m)),
{
    let mut s = String::new();
    let mut d: u8 = 1;
    while d <= 9
        invariant
            1 <= d <= 10,
            mask_wf(m),
            s@ + digits_string_from(mask_digits(m), d as int) == digits_string(mask_digits(m)),
        decreases 10 - d,
    {
        if m & (1u16 << (d as u16)) != 0 {
            proof {
                assert(mask_digits(m).contains(d));
            }
            s.append(digit_str(d));
        } else {
            proof {
                assert(!mask_digits(m).contains(d));
            }
        }
        assert(s@ + digits_string_from(mask_digits(m), d + 1) == digits_string(mask_digits(m)));
        d = d + 1;
    }
    s
}

} // verus!
