//! Splitting a sequence of characters on a literal separator, scanning
//! left to right, together with the statement that splitting recovers
//! whatever was joined with that separator.

use vstd::prelude::*;

verus! {

/// The views of a vector of character vectors.
pub open spec fn parts_view(r: Seq<Vec<char>>) -> Seq<Seq<char>> {
    Seq::new(r.len(), |i: int| r[i]@)
}

/// Holds when the characters of `sep` occur in `s` starting at index `i`.
pub open spec fn sep_at(s: Seq<char>, sep: Seq<char>, i: int) -> bool {
    &&& 0 <= i
    &&& i + sep.len() <= s.len()
    &&& forall|k: int| 0 <= k < sep.len() ==> s[i + k] == sep[k]
}

/// Splits `s` on literal occurrences of `sep`, scanning left to right and
/// taking a separator match at the earliest position; `cur` is the part
/// collected so far.
pub open spec fn split_scan(s: Seq<char>, sep: Seq<char>, cur: Seq<char>) -> Seq<Seq<char>>
    decreases s.len(),
{
    if sep.len() == 0 || s.len() < sep.len() {
        seq![cur + s]
    } else if sep_at(s, sep, 0) {
        seq![cur] + split_scan(s.skip(sep.len() as int), sep, Seq::empty())
    } else {
        split_scan(s.skip(1), sep, cur.push(s[0]))
    }
}

/// The parts of `s` delimited by literal occurrences of `sep`: the
/// earliest occurrence wins, occurrences do not overlap, and the text is
/// matched character for character, never as a pattern language.
pub open spec fn spec_split(s: Seq<char>, sep: Seq<char>) -> Seq<Seq<char>> {
    split_scan(s, sep, Seq::empty())
}

/// `parts` joined with `sep` between consecutive parts.
pub open spec fn join(parts: Seq<Seq<char>>, sep: Seq<char>) -> Seq<char>
    decreases parts.len(),
{
    if parts.len() == 0 {
        Seq::empty()
    } else if parts.len() == 1 {
        parts[0]
    } else {
        parts[0] + sep + join(parts.drop_first(), sep)
    }
}

/// Holds when no character of `sep` occurs in `part`.
pub open spec fn avoids_sep(part: Seq<char>, sep: Seq<char>) -> bool {
    forall|i: int, j: int|
        0 <= i < part.len() && 0 <= j < sep.len() ==> part[i] != sep[j]
}

/// The characters of a string slice, in order.
pub fn chars_of(s: &str) -> (r: Vec<char>)
    ensures
        r@ == s@,
{
    let n = s.unicode_len();
    let mut r: Vec<char> = Vec::new();
    let mut i: usize = 0;
    while i < n
        invariant
            i <= n,
            n == s@.len(),
            r@.len() == i,
            forall|j: int| 0 <= j < i ==> r@[j] == s@[j],
        decreases n - i,
    {
        r.push(s.get_char(i));
        i += 1;
    }
    proof {
        assert(r@ =~= s@);
    }
    r
}

/// Checks whether `sep` occurs in `s` at index `i`.
fn is_sep_at(s: &Vec<char>, sep: &Vec<char>, i: usize) -> (b: bool)
    requires
        i + sep@.len() <= s@.len(),
    ensures
        b == sep_at(s@, sep@, i as int),
{
    let n = s.len();
    let mut k: usize = 0;
    while k < sep.len()
        invariant
            k <= sep@.len(),
            i + sep@.len() <= s@.len(),
            n == s@.len(),
            forall|m: int| 0 <= m < k ==> s@[i + m] == sep@[m],
        decreases sep@.len() - k,
    {
        if s[i + k] != sep[k] {
            return false;
        }
        k += 1;
    }
    true
}

/// Splits `s` on literal occurrences of the non-empty separator `sep`,
/// scanning left to right.
pub fn split_chars(s: &Vec<char>, sep: &Vec<char>) -> (r: Vec<Vec<char>>)
    requires
        sep@.len() >= 1,
    ensures
        parts_view(r@) == spec_split(s@, sep@),
{
    let mut r: Vec<Vec<char>> = Vec::new();
    let mut cur: Vec<char> = Vec::new();
    let mut i: usize = 0;
    proof {
        assert(s@.skip(0) =~= s@);
        assert(parts_view(r@) =~= Seq::<Seq<char>>::empty());
        assert(parts_view(r@) + split_scan(s@, sep@, cur@) =~= split_scan(s@, sep@, cur@));
    }
    while i < s.len()
        invariant
            sep@.len() >= 1,
            i <= s@.len(),
            spec_split(s@, sep@) == parts_view(r@) + split_scan(s@.skip(i as int), sep@, cur@),
        decreases s@.len() - i,
    {
        let ghost rem = s@.skip(i as int);
        if sep.len() <= s.len() - i && is_sep_at(s, sep, i) {
            proof {
                assert forall|k: int| 0 <= k < sep@.len() implies rem[k] == sep@[k] by {
                    assert(s@[i + k] == sep@[k]);
                }
                assert(sep_at(rem, sep@, 0));
                assert(rem.skip(sep@.len() as int) =~= s@.skip(i + sep@.len()));
            }
            let ghost old_r = r@;
            let ghost old_cur = cur@;
            r.push(cur);
            cur = Vec::new();
            i = i + sep.len();
            proof {
                assert(parts_view(r@) =~= parts_view(old_r).push(old_cur));
                assert(parts_view(old_r) + (seq![old_cur] + split_scan(
                    s@.skip(i as int),
                    sep@,
                    cur@,
                )) =~= parts_view(r@) + split_scan(s@.skip(i as int), sep@, cur@));
            }
        } else {
            proof {
                if sep@.len() <= rem.len() {
                    // no separator match at this position
                    assert(!sep_at(s@, sep@, i as int));
                    if sep_at(rem, sep@, 0) {
                        assert forall|k: int| 0 <= k < sep@.len() implies s@[i + k]
                            == sep@[k] by {
                            assert(rem[k] == sep@[k]);
                        }
                        assert(sep_at(s@, sep@, i as int));
                    }
                    assert(!sep_at(rem, sep@, 0));
                }
            }
            let ghost old_cur = cur@;
            cur.push(s[i]);
            i = i + 1;
            proof {
                assert(rem[0] == s@[i - 1]);
                assert(rem.skip(1) =~= s@.skip(i as int));
                if sep@.len() <= rem.len() {
                    assert(split_scan(rem, sep@, old_cur) == split_scan(
                        s@.skip(i as int),
                        sep@,
                        cur@,
                    ));
                } else {
                    // the remainder is shorter than the separator: both
                    // sides are the single final part
                    assert(split_scan(rem, sep@, old_cur) =~= seq![old_cur + rem]);
                    assert(split_scan(s@.skip(i as int), sep@, cur@) =~= seq![
                        cur@ + s@.skip(i as int),
                    ]);
                    assert(old_cur + rem =~= cur@ + s@.skip(i as int));
                }
            }
        }
    }
    let ghost old_r = r@;
    let ghost old_cur = cur@;
    r.push(cur);
    proof {
        assert(s@.skip(s@.len() as int) =~= Seq::<char>::empty());
        assert(split_scan(Seq::<char>::empty(), sep@, old_cur) =~= seq![
            old_cur + Seq::<char>::empty(),
        ]);
        assert(old_cur + Seq::<char>::empty() =~= old_cur);
        assert(parts_view(r@) =~= parts_view(old_r).push(old_cur));
        assert(parts_view(r@) =~= parts_view(old_r) + seq![old_cur]);
    }
    r
}

/// Scanning text that holds no character of the separator collects it
/// into a single part.
proof fn lemma_scan_no_sep(p: Seq<char>, sep: Seq<char>, cur: Seq<char>)
    requires
        sep.len() >= 1,
        avoids_sep(p, sep),
    ensures
        split_scan(p, sep, cur) == seq![cur + p],
    decreases p.len(),
{
    if p.len() < sep.len() {
    } else {
        assert(p[0] != sep[0]);
        assert(!sep_at(p, sep, 0));
        assert(avoids_sep(p.skip(1), sep)) by {
            assert forall|i: int, j: int|
                0 <= i < p.skip(1).len() && 0 <= j < sep.len() implies p.skip(1)[i]
                != sep[j] by {
                assert(p.skip(1)[i] == p[i + 1]);
            }
        }
        lemma_scan_no_sep(p.skip(1), sep, cur.push(p[0]));
        assert(cur.push(p[0]) + p.skip(1) =~= cur + p);
    }
}

/// Scanning a part with no separator character, then the separator, then
/// a remainder, emits the part and goes on with the remainder.
proof fn lemma_scan_part(p: Seq<char>, sep: Seq<char>, rest: Seq<char>, cur: Seq<char>)
    requires
        sep.len() >= 1,
        avoids_sep(p, sep),
    ensures
        split_scan(p + sep + rest, sep, cur) == seq![cur + p] + split_scan(
            rest,
            sep,
            Seq::empty(),
        ),
    decreases p.len(),
{
    let s = p + sep + rest;
    if p.len() == 0 {
        assert forall|k: int| 0 <= k < sep.len() implies s[k] == sep[k] by {
            assert(s[k] == (p + sep)[k]);
        }
        assert(sep_at(s, sep, 0));
        assert(s.skip(sep.len() as int) =~= rest);
        assert(cur + p =~= cur);
        assert(seq![cur] =~= seq![cur + p]);
    } else {
        assert(s[0] == p[0]);
        assert(p[0] != sep[0]);
        assert(!sep_at(s, sep, 0));
        assert(s.len() >= sep.len());
        assert(avoids_sep(p.skip(1), sep)) by {
            assert forall|i: int, j: int|
                0 <= i < p.skip(1).len() && 0 <= j < sep.len() implies p.skip(1)[i]
                != sep[j] by {
                assert(p.skip(1)[i] == p[i + 1]);
            }
        }
        lemma_scan_part(p.skip(1), sep, rest, cur.push(p[0]));
        assert(p.skip(1) + sep + rest =~= s.skip(1));
        assert(cur.push(p[0]) + p.skip(1) =~= cur + p);
        assert(split_scan(s, sep, cur) == split_scan(s.skip(1), sep, cur.push(s[0])));
    }
}

/// Splitting recovers exactly the parts that were joined, in order,
/// provided no part holds a character of the separator.
pub proof fn lemma_split_join(parts: Seq<Seq<char>>, sep: Seq<char>)
    requires
        parts.len() >= 1,
        sep.len() >= 1,
        forall|i: int| 0 <= i < parts.len() ==> avoids_sep(#[trigger] parts[i], sep),
    ensures
        spec_split(join(parts, sep), sep) == parts,
    decreases parts.len(),
{
    if parts.len() == 1 {
        lemma_scan_no_sep(parts[0], sep, Seq::empty());
        assert(Seq::<char>::empty() + parts[0] =~= parts[0]);
        assert(seq![parts[0]] =~= parts);
    } else {
        let rest = parts.drop_first();
        lemma_scan_part(parts[0], sep, join(rest, sep), Seq::empty());
        assert(forall|i: int| 0 <= i < rest.len() ==> avoids_sep(#[trigger] rest[i], sep));
        lemma_split_join(rest, sep);
        assert(Seq::<char>::empty() + parts[0] =~= parts[0]);
        assert(seq![parts[0]] + rest =~= parts);
    }
}

} // verus!
