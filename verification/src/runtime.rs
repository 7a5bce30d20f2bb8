//! The behaviour of the routine the generator emits, stated and proved:
//! split the input on the separator, parse every part in order with the
//! item type's own conversion, and stop at the first failure; the empty
//! input short-circuits to the empty result.

use vstd::prelude::*;
use crate::generator::{Separator, sep_char_vec, sep_chars};
use crate::items::ItemFromStr;
use crate::split::{avoids_sep, chars_of, join, lemma_split_join, parts_view, spec_split,
    split_chars};

verus! {

/// Parse results of the parts, folded left to right: the values in
/// order, or the first failure.
pub open spec fn spec_parse_all<T: ItemFromStr>(parts: Seq<Seq<char>>) -> Result<
    Seq<T>,
    T::ParseErr,
>
    decreases parts.len(),
{
    if parts.len() == 0 {
        Ok(Seq::empty())
    } else {
        match T::spec_parse(parts[0]) {
            Err(e) => Err(e),
            Ok(v) => match spec_parse_all::<T>(parts.drop_first()) {
                Err(e) => Err(e),
                Ok(vs) => Ok(seq![v] + vs),
            },
        }
    }
}

/// What the emitted routine returns on input `s` with separator
/// characters `sep`: the empty input becomes the empty result directly;
/// any other input is split on the separator and every part parsed in
/// order, the first failure winning with no partial result.
pub open spec fn spec_generated_parse<T: ItemFromStr>(s: Seq<char>, sep: Seq<char>) -> Result<
    Seq<T>,
    T::ParseErr,
> {
    if s.len() == 0 {
        Ok(Seq::empty())
    } else {
        spec_parse_all::<T>(spec_split(s, sep))
    }
}

/// Holds when the runtime result `r` carries the sequence-level result
/// `m`.
pub open spec fn result_matches<T: ItemFromStr>(
    r: Result<Vec<T>, T::ParseErr>,
    m: Result<Seq<T>, T::ParseErr>,
) -> bool {
    match r {
        Ok(v) => m == Ok::<Seq<T>, T::ParseErr>(v@),
        Err(e) => m == Err::<Seq<T>, T::ParseErr>(e),
    }
}

/// When every part parses, the fold returns exactly the parsed values in
/// order.
pub proof fn lemma_parse_all_ok<T: ItemFromStr>(parts: Seq<Seq<char>>, vals: Seq<T>)
    requires
        vals.len() == parts.len(),
        forall|i: int|
            0 <= i < parts.len() ==> T::spec_parse(#[trigger] parts[i]) == Ok::<T, T::ParseErr>(
                vals[i],
            ),
    ensures
        spec_parse_all::<T>(parts) == Ok::<Seq<T>, T::ParseErr>(vals),
    decreases parts.len(),
{
    if parts.len() == 0 {
        assert(vals =~= Seq::<T>::empty());
    } else {
        assert forall|i: int|
            0 <= i < parts.drop_first().len() implies T::spec_parse(
            #[trigger] parts.drop_first()[i],
        ) == Ok::<T, T::ParseErr>(vals.drop_first()[i]) by {
            assert(parts.drop_first()[i] == parts[i + 1]);
            assert(vals.drop_first()[i] == vals[i + 1]);
        }
        lemma_parse_all_ok::<T>(parts.drop_first(), vals.drop_first());
        assert(T::spec_parse(parts[0]) == Ok::<T, T::ParseErr>(vals[0]));
        assert(seq![vals[0]] + vals.drop_first() =~= vals);
    }
}

/// The earliest failing part determines the whole fold's error; nothing
/// parsed before it shows in the result.
pub proof fn lemma_parse_all_first_error<T: ItemFromStr>(parts: Seq<Seq<char>>, i: int)
    requires
        0 <= i < parts.len(),
        forall|j: int| 0 <= j < i ==> T::spec_parse(#[trigger] parts[j]) is Ok,
        T::spec_parse(parts[i]) is Err,
    ensures
        spec_parse_all::<T>(parts) == Err::<Seq<T>, T::ParseErr>(
            T::spec_parse(parts[i])->Err_0,
        ),
    decreases i,
{
    if i == 0 {
    } else {
        assert(T::spec_parse(parts[0]) is Ok);
        assert forall|j: int|
            0 <= j < i - 1 implies T::spec_parse(#[trigger] parts.drop_first()[j]) is Ok by {
            assert(parts.drop_first()[j] == parts[j + 1]);
        }
        assert(parts.drop_first()[i - 1] == parts[i]);
        lemma_parse_all_first_error::<T>(parts.drop_first(), i - 1);
    }
}

/// Runs the routine the generator emits: the empty input yields the
/// empty result; any other input is split on the separator, every part
/// parsed in order, and the first failure returned as the whole result.
#[verifier::loop_isolation(false)]
pub fn run_generated_parse<T: ItemFromStr>(s: &str, sep: &Separator) -> (r: Result<
    Vec<T>,
    T::ParseErr,
>)
    requires
        sep_chars(*sep).len() >= 1,
    ensures
        result_matches(r, spec_generated_parse::<T>(s@, sep_chars(*sep))),
{
    let chars = chars_of(s);
    if chars.len() == 0 {
        let empty: Vec<T> = Vec::new();
        proof {
            assert(empty@ =~= Seq::<T>::empty());
        }
        return Ok(empty);
    }
    let sepv = sep_char_vec(sep);
    let parts = split_chars(&chars, &sepv);
    let ghost pseq = spec_split(s@, sep_chars(*sep));
    let mut out: Vec<T> = Vec::new();
    let mut i: usize = 0;
    while i < parts.len()
        invariant
            i <= parts@.len(),
            parts_view(parts@) == pseq,
            out@.len() == i,
            forall|j: int|
                0 <= j < i ==> T::spec_parse(#[trigger] pseq[j]) == Ok::<T, T::ParseErr>(
                    out@[j],
                ),
        decreases parts@.len() - i,
    {
        proof {
            assert(parts@[i as int]@ == pseq[i as int]);
        }
        match T::parse_item(&parts[i]) {
            Ok(v) => {
                out.push(v);
            },
            Err(e) => {
                proof {
                    lemma_parse_all_first_error::<T>(pseq, i as int);
                }
                return Err(e);
            },
        }
        i += 1;
    }
    proof {
        lemma_parse_all_ok::<T>(pseq, out@);
    }
    Ok(out)
}

/// Joining one or more item texts with the separator and parsing the
/// joined input recovers exactly those items, in order, provided no item
/// text holds a character of the separator and the joined input is not
/// empty.
pub proof fn lemma_parse_joined<T: ItemFromStr>(parts: Seq<Seq<char>>, sep: Seq<char>, vals: Seq<T>)
    requires
        parts.len() >= 1,
        sep.len() >= 1,
        forall|i: int| 0 <= i < parts.len() ==> avoids_sep(#[trigger] parts[i], sep),
        join(parts, sep).len() >= 1,
        vals.len() == parts.len(),
        forall|i: int|
            0 <= i < parts.len() ==> T::spec_parse(#[trigger] parts[i]) == Ok::<T, T::ParseErr>(
                vals[i],
            ),
    ensures
        spec_generated_parse::<T>(join(parts, sep), sep) == Ok::<Seq<T>, T::ParseErr>(vals),
{
    lemma_split_join(parts, sep);
    lemma_parse_all_ok::<T>(parts, vals);
}

/// The empty input yields the empty result directly, although splitting
/// the empty text on any separator would itself yield one empty part.
pub proof fn lemma_parse_empty<T: ItemFromStr>(sep: Seq<char>)
    requires
        sep.len() >= 1,
    ensures
        spec_generated_parse::<T>(Seq::empty(), sep) == Ok::<Seq<T>, T::ParseErr>(Seq::empty()),
        spec_split(Seq::empty(), sep) == seq![Seq::<char>::empty()],
{
    assert(Seq::<char>::empty() + Seq::<char>::empty() =~= Seq::<char>::empty());
    assert(seq![Seq::<char>::empty() + Seq::<char>::empty()] =~= seq![Seq::<char>::empty()]);
}

/// A failing part makes the whole result that part's own parse error,
/// with no partial results observable.
pub proof fn lemma_parse_first_error<T: ItemFromStr>(s: Seq<char>, sep: Seq<char>, i: int)
    requires
        s.len() >= 1,
        sep.len() >= 1,
        0 <= i < spec_split(s, sep).len(),
        forall|j: int| 0 <= j < i ==> T::spec_parse(#[trigger] spec_split(s, sep)[j]) is Ok,
        T::spec_parse(spec_split(s, sep)[i]) is Err,
    ensures
        spec_generated_parse::<T>(s, sep) == Err::<Seq<T>, T::ParseErr>(
            T::spec_parse(spec_split(s, sep)[i])->Err_0,
        ),
{
    lemma_parse_all_first_error::<T>(spec_split(s, sep), i);
}

} // verus!
