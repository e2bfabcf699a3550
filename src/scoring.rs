//! Sortable scoring strings: one descending string sort on a single field
//! ranks manual entries first, then by category, then newest first.
use vstd::prelude::*;
use crate::decimal::{nat_text, push_nat_text, digit_char};

verus! {

/// The category of a memory.
#[derive(Debug, Clone, Copy, PartialEq, Eq, Structural)]
pub enum MemoryCategory {
    Interesting,
    System,
    Manual,
}

/// The boost a category adds to a memory's rank.
pub open spec fn category_boost(c: MemoryCategory) -> int {
    match c {
        MemoryCategory::Interesting => 1,
        MemoryCategory::System => 0,
        MemoryCategory::Manual => 1,
    }
}

/// `s` with zeros in front up to `w` characters.
pub open spec fn zero_pad(s: Seq<char>, w: nat) -> Seq<char> {
    if s.len() >= w {
        s
    } else {
        Seq::new((w - s.len()) as nat, |i: int| '0') + s
    }
}

/// The text `format!("{:0w$}", n)` gives: zero padding after any sign.
pub open spec fn padded_int(n: int, w: nat) -> Seq<char> {
    if n < 0 {
        seq!['-'] + zero_pad(nat_text((-n) as nat), (w - 1) as nat)
    } else {
        zero_pad(nat_text(n as nat), w)
    }
}

/// The scoring string `MM_CCC_TTTTTTTTTT`: the manual boost in two digits,
/// 999 less the category boost in three, and the creation time in ten.
pub open spec fn scoring_text(c: MemoryCategory, created_at: int, manually_added: bool) -> Seq<char> {
    padded_int(if manually_added { 1 } else { 0 }, 2) + seq!['_'] + padded_int(
        999 - category_boost(c),
        3,
    ) + seq!['_'] + padded_int(created_at, 10)
}

fn push_padded(out: &mut String, n: i64, w: usize)
    requires
        w >= 1,
    ensures
        final(out)@ == old(out)@ + padded_int(n as int, w as nat),
{
    let mut digits = String::new();
    let mut width = w;
    if n < 0 {
        proof {
            reveal_strlit("-");
        }
        out.append("-");
        width = w - 1;
        push_nat_text(&mut digits, (0i128 - n as i128) as u64);
    } else {
        push_nat_text(&mut digits, n as u64);
    }
    assert(digits@ =~= Seq::<char>::empty() + nat_text(
        if n < 0 { (-(n as int)) as nat } else { n as nat },
    ));
    let len = digits.as_str().unicode_len();
    let ghost before = out@;
    let mut k: usize = len;
    while k < width
        invariant
            len == digits@.len(),
            len <= k,
            k <= width || len > width,
            len >= width ==> k == len,
            out@ == before + Seq::new((k - len) as nat, |i: int| '0'),
        decreases width - k,
    {
        proof {
            reveal_strlit("0");
        }
        out.append("0");
        k += 1;
        assert(out@ =~= before + Seq::new((k - len) as nat, |i: int| '0'));
    }
    let ghost zeros = out@;
    out.append(digits.as_str());
    proof {
        if len >= width {
            assert(zeros =~= before);
        }
        assert(out@ =~= old(out)@ + padded_int(n as int, w as nat));
    }
}

/// The scoring string of a memory created at `created_at` (seconds since
/// the Unix epoch).
pub fn calculate_scoring(category: &MemoryCategory, created_at: i64, manually_added: bool) -> (r: String)
    ensures
        r@ == scoring_text(*category, created_at as int, manually_added),
{
    let manual_boost: i64 = if manually_added { 1 } else { 0 };
    let category_boost: i64 = match category {
        MemoryCategory::Interesting => 1,
        MemoryCategory::System => 0,
        MemoryCategory::Manual => 1,
    };
    let cat_boost = 999 - category_boost;
    let mut out = String::new();
    push_padded(&mut out, manual_boost, 2);
    proof {
        reveal_strlit("_");
    }
    out.append("_");
    push_padded(&mut out, cat_boost, 3);
    out.append("_");
    push_padded(&mut out, created_at, 10);
    out
}

/// `a` sorts after `b` when strings are compared character by character.
pub open spec fn text_after(a: Seq<char>, b: Seq<char>) -> bool
    decreases a.len(),
{
    if a.len() == 0 {
        false
    } else if b.len() == 0 {
        true
    } else if a[0] != b[0] {
        (a[0] as u32) > (b[0] as u32)
    } else {
        text_after(a.drop_first(), b.drop_first())
    }
}

proof fn lemma_first_difference(a: Seq<char>, b: Seq<char>, k: int)
    requires
        0 <= k < a.len(),
        k < b.len(),
        forall|i: int| 0 <= i < k ==> a[i] == b[i],
        (a[k] as u32) > (b[k] as u32),
    ensures
        text_after(a, b),
    decreases k,
{
    if k > 0 {
        assert(a[0] == b[0]);
        lemma_first_difference(a.drop_first(), b.drop_first(), k - 1);
    }
}

/// A memory that is manual where the other is not, or that has the same
/// manual flag and a greater category group, scores higher, whatever the
/// creation times.
pub proof fn law_scoring_monotone(
    ca: MemoryCategory,
    ta: int,
    ma: bool,
    cb: MemoryCategory,
    tb: int,
    mb: bool,
)
    requires
        (ma && !mb) || (ma == mb && 999 - category_boost(ca) > 999 - category_boost(cb)),
        ta >= tb,
    ensures
        text_after(scoring_text(ca, ta, ma), scoring_text(cb, tb, mb)),
{
    reveal_with_fuel(nat_text, 3);
    let a = scoring_text(ca, ta, ma);
    let b = scoring_text(cb, tb, mb);
    assert(nat_text(1) == seq!['1']);
    assert(nat_text(0) == seq!['0']);
    assert(padded_int(1, 2) =~= seq!['0', '1']);
    assert(padded_int(0, 2) =~= seq!['0', '0']);
    assert(nat_text(999) =~= seq!['9', '9', '9']);
    assert(nat_text(998) =~= seq!['9', '9', '8']);
    assert(padded_int(999, 3) =~= seq!['9', '9', '9']);
    assert(padded_int(998, 3) =~= seq!['9', '9', '8']);
    if ma && !mb {
        assert(a[0] == b[0]);
        lemma_first_difference(a, b, 1);
    } else {
        assert(a[0] == b[0]);
        assert(a[1] == b[1]);
        assert(a[2] == b[2]);
        assert(a[3] == b[3]);
        assert(a[4] == b[4]);
        assert(('9' as u32) > ('8' as u32));
        lemma_first_difference(a, b, 5);
    }
}

/// Ten to the power `w`.
pub open spec fn pow10(w: nat) -> nat
    decreases w,
{
    if w == 0 {
        1
    } else {
        10 * pow10((w - 1) as nat)
    }
}

proof fn lemma_digit_order(x: int, y: int)
    requires
        0 <= y < x < 10,
    ensures
        (digit_char(x) as u32) > (digit_char(y) as u32),
{
    assert(('0' as u32) == 48 && ('1' as u32) == 49 && ('2' as u32) == 50 && ('3' as u32) == 51);
    assert(('4' as u32) == 52 && ('5' as u32) == 53 && ('6' as u32) == 54 && ('7' as u32) == 55);
    assert(('8' as u32) == 56 && ('9' as u32) == 57);
}

proof fn lemma_text_fits(n: nat, w: nat)
    requires
        w >= 1,
        n < pow10(w),
    ensures
        nat_text(n).len() <= w,
    decreases n,
{
    if n >= 10 {
        assert(w >= 2) by {
            if w == 1 {
                assert(pow10(0) == 1);
            }
        }
        assert(n / 10 < pow10((w - 1) as nat));
        lemma_text_fits(n / 10, (w - 1) as nat);
    }
}

proof fn lemma_pad_step(n: nat, w: nat)
    requires
        w >= 2,
        n < pow10(w),
    ensures
        zero_pad(nat_text(n), w) == zero_pad(nat_text(n / 10), (w - 1) as nat).push(digit_char((n % 10) as int)),
{
    assert(n / 10 < pow10((w - 1) as nat));
    lemma_text_fits(n / 10, (w - 1) as nat);
    if n >= 10 {
        lemma_text_fits(n, w);
        assert(zero_pad(nat_text(n), w) =~= zero_pad(nat_text(n / 10), (w - 1) as nat).push(
            digit_char((n % 10) as int),
        ));
    } else {
        assert(nat_text(0) == seq![digit_char(0)]);
        assert(zero_pad(nat_text(n), w) =~= zero_pad(nat_text(n / 10), (w - 1) as nat).push(
            digit_char((n % 10) as int),
        ));
    }
}

proof fn lemma_padded_order(a: nat, b: nat, w: nat) -> (k: int)
    requires
        w >= 1,
        b < a < pow10(w),
    ensures
        zero_pad(nat_text(a), w).len() == w,
        zero_pad(nat_text(b), w).len() == w,
        0 <= k < w,
        forall|j: int| 0 <= j < k ==> zero_pad(nat_text(a), w)[j] == zero_pad(nat_text(b), w)[j],
        (zero_pad(nat_text(a), w)[k] as u32) > (zero_pad(nat_text(b), w)[k] as u32),
    decreases w,
{
    lemma_text_fits(a, w);
    lemma_text_fits(b, w);
    if w == 1 {
        assert(pow10(1) == 10) by {
            assert(pow10(0) == 1);
        }
        lemma_digit_order(a as int, b as int);
        0
    } else {
        lemma_pad_step(a, w);
        lemma_pad_step(b, w);
        let pa = zero_pad(nat_text(a / 10), (w - 1) as nat);
        let pb = zero_pad(nat_text(b / 10), (w - 1) as nat);
        assert(a / 10 < pow10((w - 1) as nat));
        lemma_text_fits(a / 10, (w - 1) as nat);
        lemma_text_fits(b / 10, (w - 1) as nat);
        if a / 10 == b / 10 {
            lemma_digit_order((a % 10) as int, (b % 10) as int);
            (w - 1) as int
        } else {
            let k = lemma_padded_order(a / 10, b / 10, (w - 1) as nat);
            assert forall|j: int| 0 <= j < k implies zero_pad(nat_text(a), w)[j] == zero_pad(nat_text(b), w)[j] by {
                assert(zero_pad(nat_text(a), w)[j] == pa[j]);
                assert(zero_pad(nat_text(b), w)[j] == pb[j]);
            }
            assert(zero_pad(nat_text(a), w)[k] == pa[k]);
            assert(zero_pad(nat_text(b), w)[k] == pb[k]);
            k
        }
    }
}

/// With the same manual flag and category, a memory created later scores
/// higher, for creation times of ten digits or fewer.
pub proof fn law_scoring_recency(c: MemoryCategory, m: bool, ta: int, tb: int)
    requires
        0 <= tb < ta < 10000000000,
    ensures
        text_after(scoring_text(c, ta, m), scoring_text(c, tb, m)),
{
    reveal_with_fuel(pow10, 11);
    assert(pow10(10) == 10000000000);
    let k = lemma_padded_order(ta as nat, tb as nat, 10);
    let pa = padded_int(ta, 10);
    let pb = padded_int(tb, 10);
    let head = padded_int(if m { 1 } else { 0 }, 2) + seq!['_'] + padded_int(999 - category_boost(c), 3) + seq!['_'];
    let a = scoring_text(c, ta, m);
    let b = scoring_text(c, tb, m);
    assert(a == head + pa);
    assert(b == head + pb);
    assert forall|j: int| 0 <= j < head.len() + k implies a[j] == b[j] by {
        if j < head.len() {
            assert(a[j] == head[j]);
            assert(b[j] == head[j]);
        } else {
            assert(a[j] == pa[j - head.len()]);
            assert(b[j] == pb[j - head.len()]);
        }
    }
    assert(a[head.len() + k] == pa[k]);
    assert(b[head.len() + k] == pb[k]);
    lemma_first_difference(a, b, head.len() + k);
}

} // verus!
