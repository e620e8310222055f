//! The WebSocket signaling server's request rules: which session a connection
//! belongs to, and the server's errors.
use vstd::prelude::*;
use crate::text::{find_char, find_char_in, str_eq, owned, lemma_find_char};

verus! {

/// `std::io::Error`, carried as an opaque value.
#[verifier::external_type_specification]
#[verifier::external_body]
pub struct ExIoError(std::io::Error);

/// Failures of the signaling server.
#[derive(Debug)]
pub enum ServerError {
    Bind(std::io::Error),
    Accept(std::io::Error),
}

/// The value of a `session_id=<value>` piece of a query string: the first
/// `&`-separated piece whose name is `session_id` and whose value is not empty.
pub open spec fn session_param(q: Seq<char>) -> Option<Seq<char>>
    decreases q.len(),
{
    let a = find_char(q, '&');
    let piece = q.subrange(0, a as int);
    let e = find_char(piece, '=');
    if e < piece.len() && piece.subrange(0, e as int) == "session_id"@ && e + 1 < piece.len() {
        Some(piece.subrange(e as int + 1, piece.len() as int))
    } else if a >= q.len() {
        None
    } else {
        session_param(q.subrange(a as int + 1, q.len() as int))
    }
}

/// The session a WebSocket request path is for: taken from the query (the text
/// between the first `?` and the next `?` or the end).
pub open spec fn session_id_of(path: Seq<char>) -> Option<Seq<char>> {
    let i = find_char(path, '?');
    if i >= path.len() {
        None
    } else {
        let rest = path.subrange(i as int + 1, path.len() as int);
        session_param(rest.subrange(0, find_char(rest, '?') as int))
    }
}

/// The session id of a request path such as `/ws?session_id=abc-123`.
pub fn extract_session_id(path_and_query: &str) -> (id: Option<String>)
    ensures
        id matches Some(s) ==> session_id_of(path_and_query@) == Some(s@),
        id is None ==> session_id_of(path_and_query@) is None,
{
    let n = path_and_query.unicode_len();
    let i = find_char_in(path_and_query, '?', 0, n);
    proof {
        assert(path_and_query@.subrange(0, n as int) =~= path_and_query@);
    }
    if i >= n {
        return None;
    }
    let qend = find_char_in(path_and_query, '?', i + 1, n);
    let ghost rest = path_and_query@.subrange(i + 1, n as int);
    let ghost query = rest.subrange(0, find_char(rest, '?') as int);
    proof {
        assert(query =~= path_and_query@.subrange(i + 1, qend as int));
    }
    let mut start = i + 1;
    loop
        invariant
            i + 1 <= start <= qend <= n,
            n == path_and_query@.len(),
            query == path_and_query@.subrange(i + 1, qend as int),
            session_id_of(path_and_query@) == session_param(
                path_and_query@.subrange(start as int, qend as int),
            ),
        decreases qend - start,
    {
        let ghost q = path_and_query@.subrange(start as int, qend as int);
        let a = find_char_in(path_and_query, '&', start, qend);
        let ghost piece = q.subrange(0, (a - start) as int);
        proof {
            assert(piece =~= path_and_query@.subrange(start as int, a as int));
        }
        let e = find_char_in(path_and_query, '=', start, a);
        proof {
            assert(path_and_query@.subrange(start as int, a as int) =~= piece);
        }
        if e < a && e + 1 < a {
            let key = path_and_query.substring_char(start, e);
            proof {
                reveal_strlit("session_id");
                assert(key@ =~= piece.subrange(0, (e - start) as int));
            }
            if str_eq(key, "session_id") {
                let v = path_and_query.substring_char(e + 1, a);
                proof {
                    assert(v@ =~= piece.subrange((e - start) + 1, piece.len() as int));
                }
                return Some(owned(v));
            }
        }
        if a >= qend {
            return None;
        }
        proof {
            assert(q.subrange((a - start) + 1, q.len() as int) =~= path_and_query@.subrange(
                a + 1,
                qend as int,
            ));
        }
        start = a + 1;
    }
}

/// A connection to `<path>?session_id=<id>` belongs to session `id`, for every
/// path without a `?` and every non-empty id without `&` or `?`.
pub proof fn law_session_query_names_its_session(path: Seq<char>, id: Seq<char>)
    requires
        !path.contains('?'),
        id.len() > 0,
        !id.contains('&'),
        !id.contains('?'),
    ensures
        session_id_of(path + "?session_id="@ + id) == Some(id),
{
    reveal_strlit("?session_id=");
    reveal_strlit("session_id");
    let full = path + "?session_id="@ + id;
    assert forall|j: int| 0 <= j < path.len() implies full[j] != '?' by {
        assert(full[j] == path[j]);
        if path[j] == '?' {
            assert(path.contains('?'));
        }
    }
    lemma_find_char(full, '?', path.len() as int);
    let rest = full.subrange(path.len() as int + 1, full.len() as int);
    let q = seq!['s', 'e', 's', 's', 'i', 'o', 'n', '_', 'i', 'd', '='] + id;
    assert(rest =~= q);
    assert forall|j: int| 0 <= j < q.len() implies q[j] != '?' && q[j] != '&' by {
        if j >= 11 {
            assert(q[j] == id[j - 11]);
            if id[j - 11] == '?' {
                assert(id.contains('?'));
            }
            if id[j - 11] == '&' {
                assert(id.contains('&'));
            }
        }
    }
    lemma_find_char(q, '?', q.len() as int);
    lemma_find_char(q, '&', q.len() as int);
    assert(q.subrange(0, q.len() as int) =~= q);
    lemma_find_char(q, '=', 10);
    assert(q.subrange(0, 10) =~= "session_id"@);
    assert(q.subrange(11, q.len() as int) =~= id);
}

} // verus!
