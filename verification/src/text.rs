//! Character-level text helpers.
use vstd::prelude::*;
use vstd::string::*;

verus! {

/// `needle` occurs in `hay`.
pub open spec fn has_text(hay: Seq<char>, needle: Seq<char>) -> bool {
    exists|i: int|
        0 <= i && i + needle.len() <= hay.len() && #[trigger] hay.subrange(i, i + needle.len())
            == needle
}

/// The characters of a string.
pub fn chars_of(s: &str) -> (r: Vec<char>)
    ensures
        r@ == s@,
{
    let n = s.unicode_len();
    let mut r: Vec<char> = Vec::new();
    let mut i: usize = 0;
    while i < n
        invariant
            n == s@.len(),
            i <= n,
            r@ =~= s@.take(i as int),
        decreases n - i,
    {
        r.push(s.get_char(i));
        i = i + 1;
    }
    assert(s@.take(n as int) =~= s@);
    r
}

/// `needle` occurs in `hay` at position `at`.
pub(crate) fn occurs_at(hay: &Vec<char>, needle: &Vec<char>, at: usize) -> (r: bool)
    requires
        at + needle.len() <= hay.len(),
    ensures
        r == (hay@.subrange(at as int, at + needle@.len()) == needle@),
{
    let mut j: usize = 0;
    while j < needle.len()
        invariant
            at + needle.len() <= hay.len(),
            j <= needle@.len(),
            forall|k: int| 0 <= k < j ==> hay@[at + k] == needle@[k],
        decreases needle.len() - j,
    {
        if hay[at + j] != needle[j] {
            assert(hay@.subrange(at as int, at + needle@.len())[j as int] != needle@[j as int]);
            return false;
        }
        j = j + 1;
    }
    assert(hay@.subrange(at as int, at + needle@.len()) =~= needle@);
    true
}

/// Whether `needle` occurs in `hay`, as `str::find(..).is_some()` tells.
pub fn contains_text(hay: &str, needle: &str) -> (r: bool)
    ensures
        r == has_text(hay@, needle@),
{
    let h = chars_of(hay);
    let nd = chars_of(needle);
    if nd.len() > h.len() {
        return false;
    }
    let last = h.len() - nd.len();
    let mut i: usize = 0;
    loop
        invariant
            h@ == hay@,
            nd@ == needle@,
            last + nd@.len() == h@.len(),
            i <= last,
            forall|k: int| 0 <= k < i ==> #[trigger] h@.subrange(k, k + nd@.len()) != nd@,
        ensures
            forall|k: int| 0 <= k <= last ==> #[trigger] h@.subrange(k, k + nd@.len()) != nd@,
        decreases last - i,
    {
        if occurs_at(&h, &nd, i) {
            return true;
        }
        if i == last {
            break;
        }
        i = i + 1;
    }
    false
}


/// `s` with every occurrence of `pat` taken out, scanning from the left as
/// `str::replace(pat, "")` does.
pub open spec fn without_text(s: Seq<char>, pat: Seq<char>) -> Seq<char>
    decreases s.len(),
{
    if pat.len() == 0 || s.len() < pat.len() {
        s
    } else if s.take(pat.len() as int) == pat {
        without_text(s.skip(pat.len() as int), pat)
    } else {
        seq![s[0]] + without_text(s.drop_first(), pat)
    }
}

proof fn lemma_without_text_short(s: Seq<char>, pat: Seq<char>)
    requires
        s.len() < pat.len(),
    ensures
        without_text(s, pat) == s,
{
}

/// `s` with every occurrence of `pat` removed (`s.replace(pat, "")`).
pub fn remove_text(s: &str, pat: &str) -> (r: String)
    ensures
        r@ == without_text(s@, pat@),
{
    let h = chars_of(s);
    let p = chars_of(pat);
    let plen = p.len();
    if plen == 0 {
        return String::from_str(s);
    }
    let n = h.len();
    let mut out = String::new();
    let mut seg: usize = 0;
    let mut i: usize = 0;
    proof {
        assert(s@.skip(0) =~= s@);
        assert(out@ + s@.subrange(0, 0) =~= Seq::<char>::empty());
    }
    while i < n
        invariant
            h@ == s@,
            p@ == pat@,
            plen == p@.len(),
            plen > 0,
            n == h@.len(),
            seg <= i <= n,
            out@ + s@.subrange(seg as int, i as int) + without_text(s@.skip(i as int), pat@)
                == without_text(s@, pat@),
        decreases n - i,
    {
        let ghost rest = s@.skip(i as int);
        if n - i >= plen && occurs_at(&h, &p, i) {
            proof {
                assert(rest.take(plen as int) =~= s@.subrange(i as int, i + plen));
                assert(rest.skip(plen as int) =~= s@.skip(i + plen));
            }
            out.append(s.substring_char(seg, i));
            i = i + plen;
            seg = i;
            proof {
                assert(s@.subrange(seg as int, i as int) =~= Seq::<char>::empty());
            }
        } else {
            proof {
                assert(rest.drop_first() =~= s@.skip(i + 1));
                assert(rest[0] == s@[i as int]);
                if rest.len() >= plen {
                    assert(rest.take(plen as int) =~= s@.subrange(i as int, i + plen));
                } else {
                    lemma_without_text_short(rest, pat@);
                    lemma_without_text_short(rest.drop_first(), pat@);
                }
                assert(without_text(rest, pat@) =~= seq![s@[i as int]] + without_text(
                    s@.skip(i + 1),
                    pat@,
                ));
                assert(s@.subrange(seg as int, i + 1) =~= s@.subrange(seg as int, i as int)
                    + seq![s@[i as int]]);
            }
            i = i + 1;
        }
    }
    proof {
        assert(s@.skip(n as int) =~= Seq::<char>::empty());
    }
    out.append(s.substring_char(seg, n));
    proof {
        assert(out@ =~= without_text(s@, pat@));
    }
    out
}

} // verus!
