//! Child URIs: standard URL syntax, with an optional `uuid` query
//! parameter conveying a stable identity.

use vstd::prelude::*;
use vstd::string::StringExecFns;

verus! {

/// The percent-decoded query pairs of a URI, in order; `None` when the
/// text is not a valid URL.  Named for `url::Url::query_pairs`, a function
/// of the URI text alone.
pub uninterp spec fn uri_query_pairs_of(s: Seq<char>) -> Option<Seq<(Seq<char>, Seq<char>)>>;

/// Relies on `url::Url::parse` and `url::Url::query_pairs`: parses the URI
/// and hands back its percent-decoded query pairs, in order; `None` when
/// the URI is not a valid URL.
#[verifier::external_body]
fn parse_query_pairs(uri: &str) -> (r: Option<Vec<(String, String)>>)
    ensures
        (r is Some) == (uri_query_pairs_of(uri@) is Some),
        r matches Some(v) ==> {
            let pairs = uri_query_pairs_of(uri@)->Some_0;
            &&& v@.len() == pairs.len()
            &&& forall|i: int|
                0 <= i < pairs.len() ==> v@[i].0@ == (#[trigger] pairs[i]).0 && v@[i].1@
                    == pairs[i].1
        },
{
    match url::Url::parse(uri) {
        Ok(u) => Some(u.query_pairs().map(|(k, v)| (k.to_string(), v.to_string())).collect()),
        Err(_) => None,
    }
}

/// The value of the first `uuid` pair, if any.
pub open spec fn spec_first_uuid(pairs: Seq<(Seq<char>, Seq<char>)>) -> Option<Seq<char>>
    decreases pairs.len(),
{
    if pairs.len() == 0 {
        None
    } else if pairs[0].0 == "uuid"@ {
        Some(pairs[0].1)
    } else {
        spec_first_uuid(pairs.skip(1))
    }
}

/// The UUID a URI carries: the value of its first `uuid` query pair;
/// `None` when the URI does not parse or has no such pair.
pub open spec fn spec_uri_uuid(s: Seq<char>) -> Option<Seq<char>> {
    match uri_query_pairs_of(s) {
        Some(pairs) => spec_first_uuid(pairs),
        None => None,
    }
}

proof fn lemma_first_uuid_skip(pairs: Seq<(Seq<char>, Seq<char>)>, i: int)
    requires
        0 <= i <= pairs.len(),
        forall|j: int| 0 <= j < i ==> (#[trigger] pairs[j]).0 != "uuid"@,
    ensures
        spec_first_uuid(pairs) == spec_first_uuid(pairs.skip(i)),
    decreases i,
{
    if i > 0 {
        assert(pairs[0].0 != "uuid"@);
        assert(forall|j: int|
            0 <= j < i - 1 ==> (#[trigger] pairs.skip(1)[j]).0 == pairs[j + 1].0
                && pairs[j + 1].0 != "uuid"@);
        lemma_first_uuid_skip(pairs.skip(1), i - 1);
        assert(pairs.skip(1).skip(i - 1) =~= pairs.skip(i));
    } else {
        assert(pairs.skip(0) =~= pairs);
    }
}

/// Extract the UUID from a URI, if the URI parses and carries one.
pub fn uri_uuid(uri: &str) -> (r: Option<String>)
    ensures
        (r is Some) == (spec_uri_uuid(uri@) is Some),
        r matches Some(s) ==> Some(s@) == spec_uri_uuid(uri@),
{
    let key = String::from_str("uuid");
    match parse_query_pairs(uri) {
        None => None,
        Some(pairs) => {
            let ghost gpairs = uri_query_pairs_of(uri@)->Some_0;
            let n = pairs.len();
            let mut i: usize = 0;
            while i < n
                invariant
                    n == pairs.len(),
                    i <= n,
                    key@ == "uuid"@,
                    uri_query_pairs_of(uri@) == Some(gpairs),
                    pairs@.len() == gpairs.len(),
                    forall|k: int|
                        0 <= k < gpairs.len() ==> pairs@[k].0@ == (#[trigger] gpairs[k]).0
                            && pairs@[k].1@ == gpairs[k].1,
                    forall|j: int| 0 <= j < i ==> (#[trigger] gpairs[j]).0 != "uuid"@,
                decreases n - i,
            {
                if pairs[i].0 == key {
                    proof {
                        lemma_first_uuid_skip(gpairs, i as int);
                        assert(gpairs.skip(i as int)[0] == gpairs[i as int]);
                    }
                    return Some(pairs[i].1.clone());
                }
                i += 1;
            }
            proof {
                lemma_first_uuid_skip(gpairs, n as int);
            }
            None
        },
    }
}

} // verus!
