use vstd::prelude::*;
use vstd::string::*;

verus! {

/// `word` stands in `text` starting at character position `i`.
pub open spec fn occurs_at(text: Seq<char>, word: Seq<char>, i: int) -> bool {
    &&& 0 <= i
    &&& i + word.len() <= text.len()
    &&& text.subrange(i, i + word.len()) == word
}

/// `word` is a substring of `text`, compared character by character.
pub open spec fn text_contains(text: Seq<char>, word: Seq<char>) -> bool {
    exists|i: int| #[trigger] occurs_at(text, word, i)
}

/// The ten decimal digits, in order of value.
pub open spec fn digit(d: nat) -> char {
    "0123456789"@[d as int]
}

/// The decimal notation of `n`, without leading zeros.
pub open spec fn decimal(n: nat) -> Seq<char>
    decreases n,
{
    if n < 10 {
        seq![digit(n)]
    } else {
        decimal(n / 10).push(digit(n % 10))
    }
}

/// The characters of `s`, in order.
fn chars_of(s: &str) -> (r: Vec<char>)
    ensures
        r@ == s@,
{
    broadcast use vstd::string::group_string_axioms;
    let mut r: Vec<char> = Vec::new();
    for c in it: s.chars()
        invariant
            r@ == it.seq().take(it.index() as int),
    {
        r.push(c);
    }
    r
}

/// Whether `word` occurs in `text` as an exact substring (the empty word occurs everywhere).
pub fn contains_word(text: &str, word: &str) -> (r: bool)
    ensures
        r == text_contains(text@, word@),
{
    let t = chars_of(text);
    let w = chars_of(word);
    if w.len() > t.len() {
        assert forall|i: int| !occurs_at(t@, w@, i) by {}
        return false;
    }
    let last: usize = t.len() - w.len();
    let mut i: usize = 0;
    while i <= last
        invariant
            t@ == text@,
            w@ == word@,
            last == t.len() - w.len(),
            w.len() <= t.len(),
            forall|k: int| 0 <= k < i ==> !#[trigger] occurs_at(t@, w@, k),
        decreases last + 1 - i,
    {
        let mut j: usize = 0;
        let mut differs = false;
        while j < w.len() && !differs
            invariant
                i <= last,
                last == t.len() - w.len(),
                0 <= j <= w.len(),
                forall|m: int| 0 <= m < j ==> t@[i + m] == w@[m],
                differs ==> j < w.len() && t@[i + j] != w@[j as int],
            decreases w.len() - j + if differs { 0int } else { 1int },
        {
            if t[i + j] != w[j] {
                differs = true;
            } else {
                j += 1;
            }
        }
        if !differs {
            assert(t@.subrange(i as int, i + w.len()) =~= w@);
            assert(occurs_at(t@, w@, i as int));
            return true;
        }
        assert(!occurs_at(t@, w@, i as int)) by {
            if occurs_at(t@, w@, i as int) {
                assert(t@.subrange(i as int, i + w.len())[j as int] == t@[i + j]);
            }
        }
        i += 1;
    }
    assert forall|k: int| !occurs_at(t@, w@, k) by {
        if 0 <= k < i {
        }
    }
    false
}

/// Appends the decimal notation of `n` to `out`.
fn push_decimal(out: &mut String, n: u32)
    ensures
        final(out)@ == old(out)@ + decimal(n as nat),
    decreases n,
{
    let digits = "0123456789";
    proof {
        reveal_strlit("0123456789");
    }
    let d: usize = (n % 10) as usize;
    if n >= 10 {
        push_decimal(out, n / 10);
    }
    let s = digits.substring_char(d, d + 1);
    assert(s@ =~= seq![digit(d as nat)]);
    out.append(s);
    assert(n >= 10 ==> (n / 10) as nat == n as nat / 10);
}

/// The decimal notation of `n`.
pub fn decimal_string(n: u32) -> (r: String)
    ensures
        r@ == decimal(n as nat),
{
    let mut out = String::new();
    push_decimal(&mut out, n);
    assert(out@ =~= decimal(n as nat));
    out
}

} // verus!
