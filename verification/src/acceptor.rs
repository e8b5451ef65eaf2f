//! What the acceptor of connections takes from a request: the name under
//! which a client connects.

use vstd::prelude::*;

verus! {

/// The position of the last `=` in `query`, or -1 if it holds none.
pub open spec fn last_equals(query: Seq<char>) -> int
    decreases query.len(),
{
    if query.len() == 0 {
        -1
    } else if query.last() == '=' {
        query.len() - 1
    } else {
        last_equals(query.drop_last())
    }
}

/// Why a request is turned away before any session exists.
#[derive(Debug, Clone, Copy, PartialEq, Eq, Structural)]
pub enum Rejection {
    /// The query string holds no `=`.
    Malformed,
    /// Nothing follows the last `=` of the query string.
    MissingName,
}

/// The name that `query` gives: what follows its last `=`, up to its end.
/// A query without `=` is malformed, and one that ends with its last `=`
/// lacks the name.
pub open spec fn name_in(query: Seq<char>) -> Result<Seq<char>, Rejection> {
    if last_equals(query) < 0 {
        Err(Rejection::Malformed)
    } else if last_equals(query) + 1 == query.len() {
        Err(Rejection::MissingName)
    } else {
        Ok(query.skip(last_equals(query) + 1))
    }
}

/// `last_equals` finds the last `=`: it is -1 exactly when `query` holds no
/// `=`; else it points at one, and none follows.
pub proof fn lemma_last_equals(query: Seq<char>)
    ensures
        -1 <= last_equals(query) < query.len(),
        last_equals(query) == -1 <==> !query.contains('='),
        last_equals(query) >= 0 ==> query[last_equals(query)] == '=',
        forall|j: int| last_equals(query) < j < query.len() ==> query[j] != '=',
    decreases query.len(),
{
    if query.len() > 0 {
        let front = query.drop_last();
        lemma_last_equals(front);
        if query.last() == '=' {
            assert(query[query.len() - 1] == '=');
        } else {
            if front.contains('=') {
                let k = choose|k: int| 0 <= k < front.len() && front[k] == '=';
                assert(query[k] == '=');
            }
            if query.contains('=') {
                let k = choose|k: int| 0 <= k < query.len() && query[k] == '=';
                assert(front[k] == '=');
            }
            assert forall|j: int| last_equals(query) < j < query.len() implies query[j] != '=' by {
                if j < front.len() {
                    assert(front[j] == query[j]);
                }
            }
        }
    }
}

/// A query is malformed exactly when it holds no `=`, and lacks the name
/// exactly when its last character is a `=`. Any other query gives a
/// name: the name is not empty and holds no `=`, and the query ends with
/// a `=` followed by the name.
pub proof fn lemma_name_in(query: Seq<char>)
    ensures
        name_in(query) == Err::<Seq<char>, Rejection>(Rejection::Malformed) <==> !query.contains(
            '=',
        ),
        name_in(query) == Err::<Seq<char>, Rejection>(Rejection::MissingName) <==> (query.len() > 0
            && query.last() == '='),
        name_in(query) matches Ok(name) ==> name.len() > 0 && !name.contains('=') && query
            == query.take(last_equals(query)) + seq!['='] + name,
{
    lemma_last_equals(query);
    if let Ok(name) = name_in(query) {
        let at = last_equals(query);
        if name.contains('=') {
            let k = choose|k: int| 0 <= k < name.len() && name[k] == '=';
            assert(query[at + 1 + k] == '=');
        }
        assert(query =~= query.take(at) + seq!['='] + name);
    }
}

/// Reads the client's name from the query string of its request: what
/// follows the last `=`. A request whose query string holds no `=`, or
/// nothing after the last one, is turned away.
pub fn client_name(query: &str) -> (name: Result<String, Rejection>)
    ensures
        match name {
            Ok(text) => name_in(query@) == Ok::<Seq<char>, Rejection>(text@),
            Err(why) => name_in(query@) == Err::<Seq<char>, Rejection>(why),
        },
{
    let len: usize = query.unicode_len();
    let mut found: Option<usize> = None;
    let mut i: usize = 0;
    for c in it: query.chars()
        invariant
            it.seq() == query@,
            i == it.index(),
            len == query@.len(),
            match found {
                Some(at) => at == last_equals(query@.take(i as int)),
                None => last_equals(query@.take(i as int)) == -1,
            },
    {
        proof {
            assert(query@.take(i + 1).drop_last() =~= query@.take(i as int));
        }
        if c == '=' {
            found = Some(i);
        }
        i += 1;
    }
    proof {
        assert(query@.take(i as int) =~= query@);
        lemma_last_equals(query@);
    }
    match found {
        None => Err(Rejection::Malformed),
        Some(at) => {
            if at + 1 == len {
                Err(Rejection::MissingName)
            } else {
                Ok(String::from_str(query.substring_char(at + 1, len)))
            }
        },
    }
}

} // verus!
