//! Embedding requests: splitting the texts into request-sized batches and
//! checking and ordering each batch's answer.
use vstd::prelude::*;
use vstd::string::*;

verus! {

broadcast use vstd::string::group_string_axioms;

#[verifier::external_type_specification]
#[verifier::external_body]
pub struct ExReqwestError(reqwest::Error);

/// The embedding model that documents and queries are embedded with.
pub fn default_model() -> (s: &'static str)
    ensures
        s@ == "voyage-3-large"@,
{
    "voyage-3-large"
}

/// How many texts one embedding request may carry.
pub const BATCH_SIZE: usize = 128;

/// How the embedded texts are used.
#[derive(Debug, Clone, Copy, PartialEq, Eq, Structural)]
pub enum InputType {
    /// Texts being stored, such as knowledge-base chunks.
    Document,
    /// Texts used as search queries.
    Query,
}

/// The name of an input type in embedding requests.
pub open spec fn input_type_name(t: InputType) -> Seq<char> {
    match t {
        InputType::Document => "document"@,
        InputType::Query => "query"@,
    }
}

impl InputType {
    pub fn as_str(self) -> (s: &'static str)
        ensures
            s@ == input_type_name(self),
    {
        match self {
            InputType::Document => "document",
            InputType::Query => "query",
        }
    }
}

/// Failure of an embedding request.
#[derive(Debug)]
pub enum EmbedError {
    Http(reqwest::Error),
    Api { message: String },
    BadResponse,
}

/// The bounds of batch `k` of `n` texts: `BATCH_SIZE` texts each, the last
/// one possibly shorter.
pub open spec fn batch_range(n: nat, k: nat) -> (nat, nat) {
    (k * 128, if k * 128 + 128 < n { k * 128 + 128 } else { n })
}

/// Splits `n` texts into request-sized batches, as `chunks(BATCH_SIZE)`
/// does: the `[start, end)` bounds of each batch, in order.
pub fn batch_bounds(n: usize) -> (r: Vec<(usize, usize)>)
    ensures
        r@.len() == (n + 127) / 128,
        forall|k: int| 0 <= k < r@.len() ==> (#[trigger] r@[k]).0 == batch_range(n as nat, k as nat).0
            && r@[k].1 == batch_range(n as nat, k as nat).1,
{
    let count: usize = n / 128 + if n % 128 == 0 { 0 } else { 1 };
    assert(count == (n + 127) / 128);
    let mut out: Vec<(usize, usize)> = Vec::new();
    let mut k: usize = 0;
    while k < count
        invariant
            k <= count,
            count == (n + 127) / 128,
            out@.len() == k,
            forall|i: int| 0 <= i < out@.len() ==> (#[trigger] out@[i]).0 == batch_range(
                n as nat,
                i as nat,
            ).0 && out@[i].1 == batch_range(n as nat, i as nat).1,
        decreases count - k,
    {
        assert(k * 128 < n) by (nonlinear_arith)
            requires
                k < count,
                count == (n + 127) / 128,
        ;
        let start = k * 128;
        let end = if n - start > 128 { start + 128 } else { n };
        out.push((start, end));
        k = k + 1;
    }
    out
}

/// Whether item `a` comes before item `b` when items are ordered by their
/// `keys`, ties kept in their original order.
pub open spec fn comes_before(keys: Seq<usize>, a: usize, b: usize) -> bool {
    keys[a as int] < keys[b as int] || (keys[a as int] == keys[b as int] && a < b)
}

/// Whether `order` lists the positions `0..keys.len()` sorted by key, ties
/// in their original order, as a stable sort by key leaves them.
pub open spec fn is_stable_order(keys: Seq<usize>, order: Seq<usize>) -> bool {
    &&& order.len() == keys.len()
    &&& forall|i: int| 0 <= i < order.len() ==> #[trigger] order[i] < keys.len()
    &&& forall|x: usize| x < keys.len() ==> order.contains(x)
    &&& forall|i: int, j: int| 0 <= i < j < order.len() ==> comes_before(keys, #[trigger] order[i], #[trigger] order[j])
}

/// The positions of `keys` in the order a stable sort by key gives.
pub fn stable_order(keys: &Vec<usize>) -> (r: Vec<usize>)
    ensures
        is_stable_order(keys@, r@),
{
    let n = keys.len();
    let mut order: Vec<usize> = Vec::new();
    let mut j: usize = 0;
    while j < n
        invariant
            j <= n,
            n == keys@.len(),
            order@.len() == j,
            forall|i: int| 0 <= i < order@.len() ==> #[trigger] order@[i] < j,
            forall|x: usize| x < j ==> order@.contains(x),
            forall|a: int, b: int| 0 <= a < b < order@.len() ==> comes_before(keys@, #[trigger] order@[a], #[trigger] order@[b]),
        decreases n - j,
    {
        let kj = keys[j];
        let mut p: usize = 0;
        while p < order.len() && keys[order[p]] <= kj
            invariant
                p <= order@.len(),
                j < n,
                n == keys@.len(),
                kj == keys@[j as int],
                forall|i: int| 0 <= i < order@.len() ==> #[trigger] order@[i] < j,
                forall|q: int| 0 <= q < p ==> keys@[#[trigger] order@[q] as int] <= kj,
            decreases order@.len() - p,
        {
            p = p + 1;
        }
        let ghost old_order = order@;
        proof {
            assert forall|q: int| p <= q < old_order.len() implies kj < keys@[#[trigger] old_order[q] as int] by {
                if q > p {
                    assert(comes_before(keys@, old_order[p as int], old_order[q]));
                }
            }
        }
        order.insert(p, j);
        proof {
            assert(order@ == old_order.insert(p as int, j));
            assert forall|i: int| 0 <= i < order@.len() implies #[trigger] order@[i] < j + 1 by {
                if i < p {
                    assert(order@[i] == old_order[i]);
                } else if i > p {
                    assert(order@[i] == old_order[i - 1]);
                }
            }
            assert forall|x: usize| x < j + 1 implies order@.contains(x) by {
                if x == j {
                    assert(order@[p as int] == j);
                } else {
                    assert(old_order.contains(x));
                    let q = choose|q: int| 0 <= q < old_order.len() && old_order[q] == x;
                    if q < p {
                        assert(order@[q] == x);
                    } else {
                        assert(order@[q + 1] == x);
                    }
                }
            }
            assert forall|a: int, b: int| 0 <= a < b < order@.len() implies comes_before(keys@, #[trigger] order@[a], #[trigger] order@[b]) by {
                if a < p && b < p {
                    assert(order@[a] == old_order[a] && order@[b] == old_order[b]);
                } else if a < p && b == p {
                    assert(order@[a] == old_order[a]);
                    assert(keys@[old_order[a] as int] <= kj);
                } else if a < p && b > p {
                    assert(order@[a] == old_order[a] && order@[b] == old_order[b - 1]);
                } else if a == p {
                    assert(order@[b] == old_order[b - 1]);
                    assert(kj < keys@[old_order[b - 1] as int]);
                } else {
                    assert(order@[a] == old_order[a - 1] && order@[b] == old_order[b - 1]);
                }
            }
        }
        j = j + 1;
    }
    order
}

/// What the answer to one embedding batch of `batch_len` texts gives: the
/// API's error message, a malformed answer (no data, or not one embedding per
/// text), or the order in which to take the returned embeddings so that they
/// follow the texts (a stable sort by their `index`).
pub fn check_batch_response(
    detail: Option<String>,
    indices: Option<Vec<usize>>,
    batch_len: usize,
) -> (r: Result<Vec<usize>, EmbedError>)
    ensures
        detail is Some ==> (r matches Err(EmbedError::Api { message }) && message == detail->Some_0),
        detail is None && indices is None ==> r matches Err(EmbedError::BadResponse),
        detail is None && indices is Some && indices->Some_0@.len() != batch_len ==> r matches Err(
            EmbedError::BadResponse,
        ),
        detail is None && indices is Some && indices->Some_0@.len() == batch_len ==> (r matches Ok(
            o,
        ) && is_stable_order(indices->Some_0@, o@)),
{
    if let Some(m) = detail {
        return Err(EmbedError::Api { message: m });
    }
    let ix = match indices {
        Some(ix) => ix,
        None => return Err(EmbedError::BadResponse),
    };
    if ix.len() != batch_len {
        return Err(EmbedError::BadResponse);
    }
    Ok(stable_order(&ix))
}

/// The batches of `n` texts cover them all, in order and without overlap:
/// the first starts at 0, each ends where the next starts, the last ends at
/// `n`, and each holds between 1 and `BATCH_SIZE` texts.
pub proof fn lemma_batches_cover(n: nat)
    requires
        n > 0,
    ensures
        batch_range(n, 0).0 == 0,
        batch_range(n, ((n + 127) / 128 - 1) as nat).1 == n,
        forall|k: nat| k + 1 < (n + 127) / 128 ==> #[trigger] batch_range(n, k).1 == batch_range(n, k + 1).0,
        forall|k: nat| k < (n + 127) / 128 ==> 0 < #[trigger] batch_range(n, k).1 - batch_range(n, k).0 <= 128,
{
    let count = (n + 127) / 128;
    assert(count >= 1);
    assert((count - 1) * 128 < n && n <= count * 128) by (nonlinear_arith)
        requires
            count == (n + 127) / 128,
            n > 0,
    ;
    assert forall|k: nat| k + 1 < count implies #[trigger] batch_range(n, k).1 == batch_range(n, k + 1).0 by {
        assert((k + 1) * 128 < n) by (nonlinear_arith)
            requires
                k + 1 < count,
                count == (n + 127) / 128,
        ;
    }
    assert forall|k: nat| k < count implies 0 < #[trigger] batch_range(n, k).1 - batch_range(n, k).0 <= 128 by {
        assert(k * 128 < n) by (nonlinear_arith)
            requires
                k < count,
                count == (n + 127) / 128,
        ;
    }
}

} // verus!
