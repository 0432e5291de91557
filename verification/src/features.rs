//! Counting for per-signal features (the zero-crossing count of a signal,
//! taken over the sign of each sample), and the layout of feature tables.

use vstd::prelude::*;

verus! {

/// The number of positions `i` (`1 <= i < s.len()`) at which `s[i]` differs
/// from `s[i - 1]`.
pub open spec fn sign_changes(s: Seq<bool>) -> int
    decreases s.len(),
{
    if s.len() < 2 {
        0
    } else {
        sign_changes(s.drop_last()) + if s.last() != s[s.len() - 2] { 1int } else { 0int }
    }
}

proof fn lemma_sign_changes_bound(s: Seq<bool>)
    ensures
        0 <= sign_changes(s),
        s.len() > 0 ==> sign_changes(s) < s.len(),
    decreases s.len(),
{
    if s.len() >= 2 {
        lemma_sign_changes_bound(s.drop_last());
    }
}

/// The number of zero crossings of a signal, given for each sample whether it
/// is non-negative: the adjacent pairs whose flags differ. Fewer than the
/// number of samples, when there is any.
pub fn count_sign_changes(nonnegative: &Vec<bool>) -> (r: usize)
    ensures
        r == sign_changes(nonnegative@),
        nonnegative@.len() > 0 ==> r < nonnegative@.len(),
{
    let n = nonnegative.len();
    let mut count: usize = 0;
    if n < 2 {
        return 0;
    }
    let mut i: usize = 1;
    while i < n
        invariant
            n == nonnegative@.len(),
            1 <= i <= n,
            count == sign_changes(nonnegative@.subrange(0, i as int)),
            count < i,
        decreases n - i,
    {
        assert(nonnegative@.subrange(0, i + 1).drop_last() =~= nonnegative@.subrange(0, i as int));
        if nonnegative[i] != nonnegative[i - 1] {
            count = count + 1;
        }
        i = i + 1;
    }
    assert(nonnegative@.subrange(0, n as int) =~= nonnegative@);
    proof {
        lemma_sign_changes_bound(nonnegative@);
    }
    count
}

/// Whether a feature table column labels its rows rather than holding a
/// feature: `file_name`, `path` and `segment_id`.
pub open spec fn is_label_column(name: Seq<char>) -> bool {
    name == "file_name"@ || name == "path"@ || name == "segment_id"@
}

/// Whether `a` holds the text `b`.
fn text_equals(a: &String, b: &str) -> (r: bool)
    ensures
        r == (a@ == b@),
{
    *a == String::from_str(b)
}

/// The positions of the feature columns of a table with column names
/// `headers`, in order: every column that is not a label column.
pub fn feature_columns(headers: &Vec<String>) -> (r: Vec<usize>)
    ensures
        forall|k: int| 0 <= k < r@.len() ==> #[trigger] r@[k] < headers@.len() && !is_label_column(headers@[r@[k] as int]@),
        forall|k: int, l: int| 0 <= k < l < r@.len() ==> r@[k] < r@[l],
        forall|i: int| 0 <= i < headers@.len() && !is_label_column(#[trigger] headers@[i]@) ==> exists|k: int| 0 <= k < r@.len() && r@[k] == i,
{
    let n = headers.len();
    let mut out: Vec<usize> = Vec::new();
    let mut i: usize = 0;
    while i < n
        invariant
            n == headers@.len(),
            i <= n,
            forall|k: int| 0 <= k < out@.len() ==> #[trigger] out@[k] < i && !is_label_column(headers@[out@[k] as int]@),
            forall|k: int, l: int| 0 <= k < l < out@.len() ==> out@[k] < out@[l],
            forall|j: int| 0 <= j < i && !is_label_column(#[trigger] headers@[j]@) ==> exists|k: int| 0 <= k < out@.len() && out@[k] == j,
        decreases n - i,
    {
        let h = &headers[i];
        let label = text_equals(h, "file_name") || text_equals(h, "path") || text_equals(h, "segment_id");
        if !label {
            let ghost before = out@;
            out.push(i);
            assert forall|j: int| 0 <= j < i + 1 && !is_label_column(#[trigger] headers@[j]@) implies exists|k: int| 0 <= k < out@.len() && out@[k] == j by {
                if j < i {
                    let k = choose|k: int| 0 <= k < before.len() && before[k] == j;
                    assert(out@[k] == j);
                } else {
                    assert(out@[out@.len() - 1] == j);
                }
            }
        }
        i = i + 1;
    }
    out
}

/// The position of the first column named `name`, if any.
pub fn column_position(headers: &Vec<String>, name: &str) -> (r: Option<usize>)
    ensures
        match r {
            Some(i) => i < headers@.len() && headers@[i as int]@ == name@ && forall|j: int| 0 <= j < i ==> headers@[j]@ != name@,
            None => forall|j: int| 0 <= j < headers@.len() ==> headers@[j]@ != name@,
        },
{
    let n = headers.len();
    let mut i: usize = 0;
    while i < n
        invariant
            n == headers@.len(),
            i <= n,
            forall|j: int| 0 <= j < i ==> headers@[j]@ != name@,
        decreases n - i,
    {
        if text_equals(&headers[i], name) {
            return Some(i);
        }
        i = i + 1;
    }
    None
}

} // verus!
