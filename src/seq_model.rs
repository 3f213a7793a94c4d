use vstd::prelude::*;

use crate::error::ConversionError;

verus! {

/// Converts every element of `s` with `f`, in order. The result is the
/// converted sequence when every element converts, and otherwise the error of
/// the first element that does not.
pub open spec fn map_all<A, B>(
    s: Seq<A>,
    f: spec_fn(A) -> Result<B, ConversionError>,
) -> Result<Seq<B>, ConversionError>
    decreases s.len(),
{
    if s.len() == 0 {
        Ok(Seq::empty())
    } else {
        match map_all(s.drop_last(), f) {
            Err(e) => Err(e),
            Ok(prefix) => match f(s.last()) {
                Err(e) => Err(e),
                Ok(b) => Ok(prefix.push(b)),
            },
        }
    }
}

/// One more element converted: how the result on a prefix grows by one.
pub proof fn lemma_map_all_step<A, B>(
    s: Seq<A>,
    i: int,
    f: spec_fn(A) -> Result<B, ConversionError>,
)
    requires
        0 <= i < s.len(),
    ensures
        map_all(s.take(i + 1), f) == match map_all(s.take(i), f) {
            Err(e) => Err(e),
            Ok(prefix) => match f(s[i]) {
                Err(e) => Err(e),
                Ok(b) => Ok(prefix.push(b)),
            },
        },
{
    assert(s.take(i + 1).drop_last() =~= s.take(i));
}

/// Once a prefix fails, the whole sequence fails with the same error.
pub proof fn lemma_map_all_prefix_err<A, B>(
    s: Seq<A>,
    i: int,
    f: spec_fn(A) -> Result<B, ConversionError>,
)
    requires
        0 <= i <= s.len(),
        map_all(s.take(i), f) is Err,
    ensures
        map_all(s, f) == map_all(s.take(i), f),
    decreases s.len() - i,
{
    if i < s.len() {
        lemma_map_all_step(s, i, f);
        lemma_map_all_prefix_err(s, i + 1, f);
    } else {
        assert(s.take(i) =~= s);
    }
}

/// Converting a concatenation converts each part: the first part's error
/// comes first, then the second part's, and otherwise the results are joined.
pub proof fn lemma_map_all_concat<A, B>(
    a: Seq<A>,
    b: Seq<A>,
    f: spec_fn(A) -> Result<B, ConversionError>,
)
    ensures
        map_all(a + b, f) == match map_all(a, f) {
            Err(e) => Err(e),
            Ok(x) => match map_all(b, f) {
                Err(e) => Err(e),
                Ok(y) => Ok(x + y),
            },
        },
    decreases b.len(),
{
    if b.len() == 0 {
        assert(a + b =~= a);
        if let Ok(x) = map_all(a, f) {
            assert(x + Seq::<B>::empty() =~= x);
        }
    } else {
        lemma_map_all_concat(a, b.drop_last(), f);
        assert((a + b).drop_last() =~= a + b.drop_last());
        assert((a + b).last() == b.last());
        if let Ok(x) = map_all(a, f) {
            if let Ok(y) = map_all(b.drop_last(), f) {
                if let Ok(z) = f(b.last()) {
                    assert((x + y).push(z) =~= x + y.push(z));
                }
            }
        }
    }
}

/// What `map_all` returns, element by element: it succeeds exactly when every
/// element converts, keeps the length and converts position `i` to what `f`
/// gives for it; on failure its error is that of the first element that fails.
pub proof fn lemma_map_all_pointwise<A, B>(
    s: Seq<A>,
    f: spec_fn(A) -> Result<B, ConversionError>,
)
    ensures
        map_all(s, f) is Ok <==> forall|i: int| 0 <= i < s.len() ==> f(s[i]) is Ok,
        map_all(s, f) is Ok ==> {
            let out = map_all(s, f)->Ok_0;
            &&& out.len() == s.len()
            &&& forall|i: int| 0 <= i < s.len() ==> f(s[i]) == Ok::<B, ConversionError>(out[i])
        },
        map_all(s, f) is Err ==> exists|i: int|
            0 <= i < s.len()
            && f(s[i]) == Err::<B, ConversionError>(map_all(s, f)->Err_0)
            && forall|j: int| 0 <= j < i ==> f(s[j]) is Ok,
    decreases s.len(),
{
    if s.len() > 0 {
        let p = s.drop_last();
        lemma_map_all_pointwise(p, f);
        assert forall|i: int| 0 <= i < p.len() implies p[i] == s[i] by {}
        if map_all(p, f) is Err {
            let i = choose|i: int|
                0 <= i < p.len()
                && f(p[i]) == Err::<B, ConversionError>(map_all(p, f)->Err_0)
                && forall|j: int| 0 <= j < i ==> f(p[j]) is Ok;
            assert(f(s[i]) == Err::<B, ConversionError>(map_all(s, f)->Err_0));
        } else if f(s.last()) is Err {
            let i = s.len() - 1;
            assert(f(s[i]) == Err::<B, ConversionError>(map_all(s, f)->Err_0));
        }
    }
}

} // verus!
