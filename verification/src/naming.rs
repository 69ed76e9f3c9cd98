use vstd::prelude::*;

use crate::text::{decimal, digit_char, push_decimal};

verus! {

/// The file name tried at attempt `index`: `<base>.<ext>` first, then
/// `<base> (1).<ext>`, `<base> (2).<ext>`, and so on.
pub open spec fn candidate_name(base: Seq<char>, ext: Seq<char>, index: nat) -> Seq<char> {
    if index == 0 {
        base + seq!['.'] + ext
    } else {
        base + seq![' ', '('] + decimal(index) + seq![')', '.'] + ext
    }
}

/// The file name tried at attempt `index` (see `candidate_name`).
pub fn output_file_name(base: &str, ext: &str, index: u32) -> (r: String)
    ensures
        r@ == candidate_name(base@, ext@, index as nat),
{
    let mut r = String::from_str(base);
    if index == 0 {
        r.push('.');
    } else {
        r.push(' ');
        r.push('(');
        push_decimal(&mut r, index as u64);
        r.push(')');
        r.push('.');
    }
    r.append(ext);
    assert(r@ =~= candidate_name(base@, ext@, index as nat));
    r
}

/// The last attempt made before giving up on finding a free name.
pub open spec fn last_attempt() -> nat {
    9999
}

/// What to do after looking whether the name of an attempt is taken.
#[derive(Clone, Copy, Debug, PartialEq, Eq, Structural)]
pub enum CandidateStep {
    /// The name is free: write there.
    Use,
    /// The name is taken: try the attempt with this index.
    Try(u32),
    /// The name is taken and no attempt is left.
    GiveUp,
}

/// The next step of the search for a free output name, after the name of
/// attempt `index` was found `taken` or not. An existing file is never
/// chosen, and at most 10000 names are tried.
pub fn next_candidate(index: u32, taken: bool) -> (r: CandidateStep)
    ensures
        !taken ==> r == CandidateStep::Use,
        taken && index < last_attempt() ==> r == CandidateStep::Try((index + 1) as u32),
        taken && index >= last_attempt() ==> r == CandidateStep::GiveUp,
{
    if !taken {
        CandidateStep::Use
    } else if index >= 9999 {
        CandidateStep::GiveUp
    } else {
        CandidateStep::Try(index + 1)
    }
}

// ---------------------------------------------------------------------------
// Laws
// ---------------------------------------------------------------------------

/// The number that a string of decimal digits denotes.
pub open spec fn decimal_value(s: Seq<char>) -> nat
    decreases s.len(),
{
    if s.len() == 0 {
        0
    } else {
        decimal_value(s.drop_last()) * 10 + ((s.last() as int - 48) as nat)
    }
}

/// The digit characters stand for their digits.
proof fn lemma_digit_char_value(d: nat)
    requires
        d < 10,
    ensures
        digit_char(d) as int - 48 == d,
{
    assert(digit_char(d) as int == d + 48);
}

/// Reading back the decimal notation of `n` gives `n`.
pub proof fn lemma_decimal_value(n: nat)
    ensures
        decimal_value(decimal(n)) == n,
    decreases n,
{
    lemma_digit_char_value(n % 10);
    if n >= 10 {
        lemma_decimal_value(n / 10);
        assert(decimal(n).drop_last() =~= decimal(n / 10));
        assert(decimal(n).last() == digit_char(n % 10));
        let s = decimal(n);
        assert(decimal_value(s) == decimal_value(s.drop_last()) * 10 + ((s.last() as int - 48) as nat));
        assert(decimal_value(s) == (n / 10) * 10 + n % 10);
    } else {
        assert(decimal(n).drop_last() =~= Seq::<char>::empty());
        assert(decimal(n).last() == digit_char(n));
        let s = decimal(n);
        assert(decimal_value(s.drop_last()) == 0);
        assert(decimal_value(s) == decimal_value(s.drop_last()) * 10 + ((s.last() as int - 48) as nat));
    }
}

/// Different numbers have different decimal notations.
pub proof fn lemma_decimal_injective(a: nat, b: nat)
    requires
        decimal(a) == decimal(b),
    ensures
        a == b,
{
    lemma_decimal_value(a);
    lemma_decimal_value(b);
}

/// Every decimal notation has at least one digit.
pub proof fn lemma_decimal_nonempty(n: nat)
    ensures
        decimal(n).len() >= 1,
    decreases n,
{
    if n >= 10 {
        lemma_decimal_nonempty(n / 10);
    }
}

/// No two attempts of the search for a free output name try the same name,
/// so the `(n)` suffix never lands on a name that was already looked at.
pub proof fn lemma_candidate_names_distinct(base: Seq<char>, ext: Seq<char>, a: nat, b: nat)
    requires
        a != b,
    ensures
        candidate_name(base, ext, a) != candidate_name(base, ext, b),
{
    let x = candidate_name(base, ext, a);
    let y = candidate_name(base, ext, b);
    lemma_decimal_nonempty(a);
    lemma_decimal_nonempty(b);
    if x == y {
        let da = decimal(a);
        let db = decimal(b);
        assert(x.len() == y.len());
        if a == 0 || b == 0 {
            assert(false);
        }
        assert(x =~= base + seq![' ', '('] + da + seq![')', '.'] + ext);
        assert(y =~= base + seq![' ', '('] + db + seq![')', '.'] + ext);
        assert(da.len() == db.len());
        let off: int = base.len() + 2int;
        assert(x.subrange(off, off + da.len() as int) =~= da);
        assert(y.subrange(off, off + db.len() as int) =~= db);
        lemma_decimal_injective(a, b);
    }
}


/// Every name tried ends with `.` and the extension, so the output keeps the
/// extension it was given (that of the source).
pub proof fn lemma_candidate_keeps_extension(base: Seq<char>, ext: Seq<char>, index: nat)
    ensures
        ({
            let n = candidate_name(base, ext, index);
            &&& n.len() > ext.len()
            &&& n[n.len() - ext.len() - 1] == '.'
            &&& n.subrange(n.len() - ext.len(), n.len() as int) == ext
        }),
{
    let n = candidate_name(base, ext, index);
    assert(n.subrange(n.len() - ext.len(), n.len() as int) =~= ext);
}

} // verus!
