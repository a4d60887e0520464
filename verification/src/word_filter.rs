//! Selecting the words that contain the letter p (either case).
use vstd::prelude::*;

verus! {

pub open spec fn has_p(w: Seq<char>) -> bool {
    exists|i: int| 0 <= i < w.len() && (w[i] == 'p' || w[i] == 'P')
}

/// Whether the word contains 'p' or 'P'.
pub fn contains_p(word: &str) -> (r: bool)
    ensures
        r == has_p(word@),
{
    let n = word.unicode_len();
    let mut i: usize = 0;
    while i < n
        invariant
            i <= n,
            n == word@.len(),
            forall|k: int| 0 <= k < i ==> !(word@[k] == 'p' || word@[k] == 'P'),
        decreases n - i,
    {
        let c = word.get_char(i);
        if c == 'p' || c == 'P' {
            return true;
        }
        i = i + 1;
    }
    false
}

/// The words containing p, in the order given.
pub fn sequential<'a>(words: &'a [&'a str]) -> (r: Vec<&'a str>)
    ensures
        r@ == words@.filter(|w: &str| has_p(w@)),
{
    let mut out: Vec<&'a str> = Vec::new();
    let mut i: usize = 0;
    while i < words.len()
        invariant
            i <= words@.len(),
            out@ == words@.take(i as int).filter(|w: &str| has_p(w@)),
        decreases words@.len() - i,
    {
        let w = words[i];
        proof {
            let f = |w: &str| has_p(w@);
            assert(words@.take(i + 1).drop_last() =~= words@.take(i as int));
            words@.take(i as int).lemma_filter_push(w, f);
            assert(words@.take(i + 1) =~= words@.take(i as int).push(w));
        }
        if contains_p(w) {
            out.push(w);
        }
        i = i + 1;
    }
    assert(words@.take(i as int) =~= words@);
    out
}

} // verus!
