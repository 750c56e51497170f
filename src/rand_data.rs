use vstd::prelude::*;

use crate::text::{push_char, push_text};

verus! {

pub open spec fn is_upper(c: char) -> bool {
    'A' <= c && c <= 'Z'
}

pub open spec fn is_digit(c: char) -> bool {
    '0' <= c && c <= '9'
}

pub open spec fn all_upper(s: Seq<char>) -> bool {
    forall|i: int| 0 <= i < s.len() ==> is_upper(#[trigger] s[i])
}

pub open spec fn all_digits(s: Seq<char>) -> bool {
    forall|i: int| 0 <= i < s.len() ==> is_digit(#[trigger] s[i])
}

/// The number of characters a requested count stands for: none when it is negative.
pub open spec fn seg_len(n: i32) -> nat {
    if n < 0 {
        0
    } else {
        n as nat
    }
}

/// The character of a decimal digit.
pub open spec fn digit_char(d: nat) -> char {
    ((d + 48) as u8) as char
}

/// The most significant decimal digit of `n`.
pub open spec fn leading_digit(n: nat) -> nat
    decreases n,
{
    if n < 10 {
        n
    } else {
        leading_digit(n / 10)
    }
}

/// The first character of the decimal text of `x`.
pub open spec fn lead_char(x: int) -> char {
    if x < 0 {
        '-'
    } else {
        digit_char(leading_digit(x as nat))
    }
}

/// One segment of a generated code: `seg_len(n)` letters when its kind is `'0'`,
/// `seg_len(n)` digits otherwise.
pub open spec fn seg_ok(seg: Seq<char>, kind: char, n: i32) -> bool {
    &&& seg.len() == seg_len(n)
    &&& if kind == '0' {
        all_upper(seg)
    } else {
        all_digits(seg)
    }
}

/// `s` is made of one segment per character of `mask`, of the kind that character
/// names and of the length given in `lens` at the same place, joined by `'_'`.
pub open spec fn shape_ok(s: Seq<char>, mask: Seq<char>, lens: Seq<i32>) -> bool
    decreases mask.len(),
{
    if mask.len() == 0 {
        s.len() == 0
    } else if mask.len() == 1 {
        seg_ok(s, mask[0], lens[0])
    } else {
        let k = mask.len() - 1;
        let n = seg_len(lens[k]) as int;
        &&& s.len() >= n + 1
        &&& seg_ok(s.subrange(s.len() - n, s.len() as int), mask[k], lens[k])
        &&& s[s.len() - n - 1] == '_'
        &&& shape_ok(s.subrange(0, s.len() - n - 1), mask.drop_last(), lens.drop_last())
    }
}

/// A segment grammar whose mask and lengths differ in length.
#[derive(Clone, Copy, Debug, PartialEq, Eq, Structural)]
pub struct GrammarMismatchError {
    pub mask_len: usize,
    pub lengths_len: usize,
}

/// Relies on `rand::thread_rng` and `rand::Rng::gen_range` over an inclusive range:
/// the value drawn lies in `[Min, Max]`. `gen_range` panics on an empty range, which
/// `requires` leaves out.
#[verifier::external_body]
pub fn GetRandInt(Min: i32, Max: i32) -> (r: i32)
    requires
        Min <= Max,
    ensures
        Min <= r <= Max,
{
    let mut rng = rand::thread_rng();
    rand::Rng::gen_range(&mut rng, Min..=Max)
}

/// `count` random integers in `[min, max]` (none when `count` is not positive).
fn draw_ints(count: i32, min: i32, max: i32) -> (r: Vec<i32>)
    requires
        min <= max,
    ensures
        r@.len() == seg_len(count),
        forall|k: int| 0 <= k < r@.len() ==> min <= #[trigger] r@[k] <= max,
{
    let mut res: Vec<i32> = Vec::new();
    let mut i: i32 = 0;
    while i < count
        invariant
            min <= max,
            0 <= i,
            count >= 0 ==> i <= count,
            count < 0 ==> i == 0,
            res@.len() == i,
            forall|k: int| 0 <= k < res@.len() ==> min <= #[trigger] res@[k] <= max,
        decreases count - i,
    {
        res.push(GetRandInt(min, max));
        i = i + 1;
    }
    res
}

/// The letters whose character codes were drawn, one for each draw.
pub fn LettersFromDraws(draws: &Vec<i32>) -> (r: String)
    requires
        forall|k: int| 0 <= k < draws@.len() ==> 65 <= #[trigger] draws@[k] <= 90,
    ensures
        r@.len() == draws@.len(),
        forall|k: int| 0 <= k < r@.len() ==> #[trigger] r@[k] == (draws@[k] as u8) as char,
        all_upper(r@),
{
    let mut res = String::new();
    let mut i: usize = 0;
    while i < draws.len()
        invariant
            forall|k: int| 0 <= k < draws@.len() ==> 65 <= #[trigger] draws@[k] <= 90,
            i <= draws@.len(),
            res@.len() == i,
            forall|k: int| 0 <= k < i ==> #[trigger] res@[k] == (draws@[k] as u8) as char,
            all_upper(res@),
        decreases draws@.len() - i,
    {
        let c = (draws[i] as u8) as char;
        push_char(&mut res, c);
        i = i + 1;
    }
    res
}

/// `count` random uppercase letters (none when `count` is not positive).
pub fn GetRandString(count: i32) -> (r: String)
    ensures
        r@.len() == seg_len(count),
        all_upper(r@),
{
    let draws = draw_ints(count, 65, 90);
    LettersFromDraws(&draws)
}

/// `count` random decimal digits as integers (none when `count` is not positive).
pub fn GetRandVecInt(count: i32) -> (r: Vec<i32>)
    ensures
        r@.len() == seg_len(count),
        forall|k: int| 0 <= k < r@.len() ==> 0 <= #[trigger] r@[k] <= 9,
{
    draw_ints(count, 0, 9)
}

/// The first character of the decimal text of `x`.
fn first_char_of(x: i32) -> (c: char)
    ensures
        c == lead_char(x as int),
{
    if x < 0 {
        return '-';
    }
    let mut n: i32 = x;
    while n >= 10
        invariant
            0 <= n,
            leading_digit(n as nat) == leading_digit(x as nat),
        decreases n,
    {
        n = n / 10;
    }
    ((n as u8) + 48) as char
}

/// The first character of the decimal text of each integer: for a digit, the digit.
pub fn GetRandVecIntAsString(data: Vec<i32>) -> (r: String)
    ensures
        r@.len() == data@.len(),
        forall|k: int| 0 <= k < r@.len() ==> #[trigger] r@[k] == lead_char(data@[k] as int),
{
    let mut res = String::new();
    let mut i: usize = 0;
    while i < data.len()
        invariant
            i <= data@.len(),
            res@.len() == i,
            forall|k: int| 0 <= k < i ==> #[trigger] res@[k] == lead_char(data@[k] as int),
        decreases data@.len() - i,
    {
        let c = first_char_of(data[i]);
        push_char(&mut res, c);
        i = i + 1;
    }
    res
}

/// The text `GetRandVecIntAsString` writes for a vector of digits, as
/// `GetRandVecInt` makes, is a digit sequence of the same length.
pub proof fn lemma_digit_sequence(data: Seq<i32>, s: Seq<char>)
    requires
        forall|k: int| 0 <= k < data.len() ==> 0 <= #[trigger] data[k] <= 9,
        s.len() == data.len(),
        forall|k: int| 0 <= k < s.len() ==> #[trigger] s[k] == lead_char(data[k] as int),
    ensures
        all_digits(s),
{
    assert forall|k: int| 0 <= k < s.len() implies is_digit(#[trigger] s[k]) by {
        let d = data[k];
        assert(leading_digit(d as nat) == d as nat);
    }
}

/// A random code of one segment per character of `comb`: `comLen[i]` uppercase
/// letters where `comb`'s `i`-th character is `'0'`, `comLen[i]` digits otherwise,
/// joined by `'_'`.
pub fn GetRandComb(comb: String, comLen: Vec<i32>) -> (r: Result<String, GrammarMismatchError>)
    ensures
        match r {
            Ok(s) => comb@.len() == comLen@.len() && shape_ok(s@, comb@, comLen@),
            Err(e) => comb@.len() != comLen@.len() && e.mask_len == comb@.len()
                && e.lengths_len == comLen@.len(),
        },
{
    let n = comb.as_str().unicode_len();
    if n != comLen.len() {
        return Err(GrammarMismatchError { mask_len: n, lengths_len: comLen.len() });
    }
    let mut res = String::new();
    let mut idx: usize = 0;
    while idx < n
        invariant
            n == comb@.len(),
            n == comLen@.len(),
            idx <= n,
            shape_ok(res@, comb@.take(idx as int), comLen@.take(idx as int)),
        decreases n - idx,
    {
        let kind = comb.as_str().get_char(idx);
        let seg = if kind == '0' {
            GetRandString(comLen[idx])
        } else {
            let digits = GetRandVecInt(comLen[idx]);
            let t = GetRandVecIntAsString(digits);
            proof {
                lemma_digit_sequence(digits@, t@);
            }
            t
        };
        assert(seg_ok(seg@, kind, comLen@[idx as int]));
        let ghost before = res@;
        if idx > 0 {
            push_char(&mut res, '_');
        }
        push_text(&mut res, seg.as_str());
        proof {
            let m = comb@.take(idx + 1);
            let l = comLen@.take(idx + 1);
            assert(m.drop_last() =~= comb@.take(idx as int));
            assert(l.drop_last() =~= comLen@.take(idx as int));
            assert(m[idx as int] == kind);
            if idx > 0 {
                assert(res@.subrange(res@.len() - seg@.len(), res@.len() as int) =~= seg@);
                assert(res@.subrange(0, res@.len() - seg@.len() - 1) =~= before);
            } else {
                assert(res@ =~= seg@);
            }
        }
        idx = idx + 1;
    }
    assert(comb@.take(n as int) =~= comb@);
    assert(comLen@.take(n as int) =~= comLen@);
    Ok(res)
}

/// A code of the grammar `"001"` / `[3, 3, 4]` is three uppercase letters, `'_'`,
/// three more uppercase letters, `'_'` and four digits. Note the middle block: a
/// `'0'` segment is letters wherever it stands, so this grammar does not give the
/// letters-digits-digits ground code that one might expect from its use; the
/// generator's rule is kept, and the discrepancy is left visible here.
pub proof fn lemma_ground_code_shape(s: Seq<char>)
    requires
        shape_ok(s, seq!['0', '0', '1'], seq![3i32, 3, 4]),
    ensures
        s.len() == 12,
        all_upper(s.subrange(0, 3)),
        s[3] == '_',
        all_upper(s.subrange(4, 7)),
        s[7] == '_',
        all_digits(s.subrange(8, 12)),
{
    let m = seq!['0', '0', '1'];
    let l = seq![3i32, 3, 4];
    assert(m.drop_last() =~= seq!['0', '0']);
    assert(l.drop_last() =~= seq![3i32, 3]);
    assert(m.drop_last().drop_last() =~= seq!['0']);
    assert(l.drop_last().drop_last() =~= seq![3i32]);
    let a = s.subrange(0, s.len() - 5);
    assert(shape_ok(a, seq!['0', '0'], seq![3i32, 3]));
    let b = a.subrange(0, a.len() - 4);
    assert(shape_ok(b, seq!['0'], seq![3i32]));
    assert(s.len() == 12);
    assert(b =~= s.subrange(0, 3));
    assert(a.subrange(a.len() - 3, a.len() as int) =~= s.subrange(4, 7));
}

/// A code of the grammar `"1"` / `[4]` is four digits.
pub proof fn lemma_helmet_code_shape(s: Seq<char>)
    requires
        shape_ok(s, seq!['1'], seq![4i32]),
    ensures
        s.len() == 4,
        all_digits(s),
{
}

proof fn lemma_seg_classes(seg: Seq<char>, kind: char, n: i32, i: int)
    requires
        seg_ok(seg, kind, n),
        0 <= i < seg.len(),
    ensures
        seg[i] != '_',
        is_upper(seg[i]) == (kind == '0'),
{
    if kind == '0' {
        assert(is_upper(seg[i]));
    } else {
        assert(is_digit(seg[i]));
    }
}

/// Two codes of one grammar have the same shape: the same length, the separators
/// at the same places, and letters at the same places; only the letters and
/// digits themselves differ.
pub proof fn lemma_same_shape(r1: Seq<char>, r2: Seq<char>, mask: Seq<char>, lens: Seq<i32>)
    requires
        mask.len() == lens.len(),
        shape_ok(r1, mask, lens),
        shape_ok(r2, mask, lens),
    ensures
        r1.len() == r2.len(),
        forall|i: int|
            0 <= i < r1.len() ==> ((#[trigger] r1[i] == '_') == (r2[i] == '_') && is_upper(r1[i])
                == is_upper(r2[i])),
    decreases mask.len(),
{
    if mask.len() == 0 {
    } else if mask.len() == 1 {
        assert forall|i: int| 0 <= i < r1.len() implies ((#[trigger] r1[i] == '_') == (r2[i]
            == '_') && is_upper(r1[i]) == is_upper(r2[i])) by {
            lemma_seg_classes(r1, mask[0], lens[0], i);
            lemma_seg_classes(r2, mask[0], lens[0], i);
        }
    } else {
        let k = mask.len() - 1;
        let n = seg_len(lens[k]) as int;
        let a1 = r1.subrange(0, r1.len() - n - 1);
        let a2 = r2.subrange(0, r2.len() - n - 1);
        let t1 = r1.subrange(r1.len() - n, r1.len() as int);
        let t2 = r2.subrange(r2.len() - n, r2.len() as int);
        lemma_same_shape(a1, a2, mask.drop_last(), lens.drop_last());
        assert forall|i: int| 0 <= i < r1.len() implies ((#[trigger] r1[i] == '_') == (r2[i]
            == '_') && is_upper(r1[i]) == is_upper(r2[i])) by {
            if i < a1.len() {
                assert(r1[i] == a1[i] && r2[i] == a2[i]);
            } else if i == a1.len() {
            } else {
                let j = i - a1.len() - 1;
                assert(r1[i] == t1[j] && r2[i] == t2[j]);
                lemma_seg_classes(t1, mask[k], lens[k], j);
                lemma_seg_classes(t2, mask[k], lens[k], j);
            }
        }
    }
}

} // verus!
