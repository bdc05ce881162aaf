//! The choices made when the log files are exported: which files are logs,
//! which of them go into the archive, and the archive's name.

use vstd::prelude::*;

verus! {

/// Whether a file name has the extension `log`: it ends with `.log` and has
/// a stem before that.
pub open spec fn is_log_name(name: Seq<char>) -> bool {
    name.len() > 4 && name.subrange(name.len() - 4, name.len() as int) == ".log"@
}

/// Whether a file name has the extension `log`.
pub fn is_log_file_name(name: &str) -> (r: bool)
    ensures
        r == is_log_name(name@),
{
    let n = name.unicode_len();
    if n <= 4 {
        return false;
    }
    let tail = name.substring_char(n - 4, n);
    crate::text::same_text(tail, ".log")
}

/// The text with every `:` replaced by `-`.
pub open spec fn colons_to_dashes(s: Seq<char>) -> Seq<char> {
    s.map_values(|c: char| if c == ':' { '-' } else { c })
}

/// The archive's file name for an export made at `timestamp`; colons, which
/// some file systems refuse, become dashes.
pub open spec fn archive_name_of(timestamp: Seq<char>) -> Seq<char> {
    "aiden-logs-"@ + colons_to_dashes(timestamp) + ".zip"@
}

/// The archive's file name for an export made at `timestamp`.
pub fn archive_name(timestamp: &str) -> (r: String)
    ensures
        r@ == archive_name_of(timestamp@),
{
    let mut r = "aiden-logs-".to_string();
    let n = timestamp.unicode_len();
    let mut i: usize = 0;
    while i < n
        invariant
            n == timestamp@.len(),
            i <= n,
            r@ == "aiden-logs-"@ + colons_to_dashes(timestamp@.subrange(0, i as int)),
        decreases n - i,
    {
        let c = timestamp.get_char(i);
        let start = i;
        if c == ':' {
            r.append("-");
            proof {
                reveal_strlit("-");
            }
        } else {
            r.append(timestamp.substring_char(start, start + 1));
        }
        assert(colons_to_dashes(timestamp@.subrange(0, i + 1)) =~= colons_to_dashes(
            timestamp@.subrange(0, i as int),
        ).push(if c == ':' { '-' } else { c }));
        i = i + 1;
    }
    assert(timestamp@.subrange(0, n as int) =~= timestamp@);
    r.append(".zip");
    r
}

/// The number of log files that an export keeps.
pub const EXPORTED_LOGS: usize = 3;

/// Whether `picked` lists the newest files of `mtimes` by index: distinct
/// valid indices, newest first, `min(limit, n)` of them, and no file left out
/// is newer than the last one picked.
pub open spec fn newest_first(mtimes: Seq<u64>, limit: nat, picked: Seq<usize>) -> bool {
    &&& picked.len() == if limit < mtimes.len() { limit } else { mtimes.len() }
    &&& forall|i: int| 0 <= i < picked.len() ==> #[trigger] picked[i] < mtimes.len()
    &&& forall|i: int, j: int| 0 <= i < j < picked.len() ==> picked[i] != picked[j]
    &&& forall|i: int, j: int|
        0 <= i < j < picked.len() ==> mtimes[picked[i] as int] >= mtimes[picked[j] as int]
    &&& forall|k: int, i: int|
        #![trigger mtimes[k], picked[i]]
        0 <= k < mtimes.len() && !picked.contains(k as usize) && 0 <= i < picked.len()
            ==> mtimes[k] <= mtimes[picked[i] as int]
}

/// The indices of the `limit` most recently modified files, newest first.
pub fn newest_files(mtimes: &Vec<u64>, limit: usize) -> (r: Vec<usize>)
    ensures
        newest_first(mtimes@, limit as nat, r@),
{
    let n = mtimes.len();
    let want = if limit < n {
        limit
    } else {
        n
    };
    let mut picked: Vec<usize> = Vec::new();
    let mut taken: Vec<bool> = Vec::new();
    let mut t: usize = 0;
    while t < n
        invariant
            n == mtimes@.len(),
            t <= n,
            taken@.len() == t,
            forall|i: int| 0 <= i < t ==> !taken@[i],
        decreases n - t,
    {
        taken.push(false);
        t = t + 1;
    }
    while picked.len() < want
        invariant
            n == mtimes@.len(),
            want <= n,
            want == if limit < n { limit } else { n },
            picked@.len() <= want,
            taken@.len() == n,
            forall|i: int| 0 <= i < picked@.len() ==> #[trigger] picked@[i] < n,
            forall|k: int| 0 <= k < n ==> (taken@[k] <==> picked@.contains(k as usize)),
            forall|i: int, j: int| 0 <= i < j < picked@.len() ==> picked@[i] != picked@[j],
            forall|i: int, j: int|
                0 <= i < j < picked@.len() ==> mtimes@[picked@[i] as int]
                    >= mtimes@[picked@[j] as int],
            forall|k: int, i: int|
                #![trigger taken@[k], picked@[i]]
                0 <= k < n && !taken@[k] && 0 <= i < picked@.len() ==> mtimes@[k]
                    <= mtimes@[picked@[i] as int],
        decreases want - picked@.len(),
    {
        let mut best: usize = n;
        let mut k: usize = 0;
        while k < n
            invariant
                n == mtimes@.len(),
                taken@.len() == n,
                k <= n,
                best == n || (best < k && !taken@[best as int]),
                forall|j: int|
                    0 <= j < k && !taken@[j] ==> best < n && mtimes@[j] <= mtimes@[best as int],
            decreases n - k,
        {
            if !taken[k] && (best == n || mtimes[k] >= mtimes[best]) {
                best = k;
            }
            k = k + 1;
        }
        proof {
            if best == n {
                assert(picked@.len() < n);
                assert(exists|j: int| 0 <= j < n && !taken@[j]) by {
                    if forall|j: int| 0 <= j < n ==> taken@[j] {
                        assert forall|j: usize| (j as int) < n implies #[trigger] picked@.contains(j) by {
                            assert(taken@[j as int]);
                        }
                        lemma_all_taken(picked@, n as int);
                    }
                }
            }
        }
        let ghost old_picked = picked@;
        picked.push(best);
        taken.set(best, true);
        assert forall|k2: int| 0 <= k2 < n implies (taken@[k2] <==> picked@.contains(
            k2 as usize,
        )) by {
            if k2 == best as int {
                assert(picked@[old_picked.len() as int] == best);
            } else {
                if picked@.contains(k2 as usize) {
                    let q = choose|q: int| 0 <= q < picked@.len() && picked@[q] == k2 as usize;
                    if q < old_picked.len() {
                        assert(old_picked[q] == k2 as usize);
                    }
                }
                if old_picked.contains(k2 as usize) {
                    let q = choose|q: int| 0 <= q < old_picked.len() && old_picked[q] == k2 as usize;
                    assert(picked@[q] == k2 as usize);
                }
            }
        }
        assert forall|i: int, j: int| 0 <= i < j < picked@.len() implies picked@[i] != picked@[j] by {
            if j == old_picked.len() as int {
                assert(old_picked.contains(picked@[i]));
            }
        }
    }
    assert forall|k: int, i: int|
        #![trigger mtimes@[k], picked@[i]]
        0 <= k < mtimes@.len() && !picked@.contains(k as usize) && 0 <= i < picked@.len()
            implies mtimes@[k] <= mtimes@[picked@[i] as int] by {
        assert(!taken@[k]);
    }
    picked
}

proof fn lemma_all_taken(picked: Seq<usize>, n: int)
    requires
        0 <= n <= usize::MAX,
        forall|k: usize| (k as int) < n ==> #[trigger] picked.contains(k),
    ensures
        picked.len() >= n,
{
    let ints = picked.map_values(|x: usize| x as int);
    let p = ints.to_set();
    let r = vstd::set_lib::set_int_range(0, n);
    assert forall|k: int| r.contains(k) implies p.contains(k) by {
        assert(picked.contains(k as usize));
        let q = choose|q: int| 0 <= q < picked.len() && picked[q] == k as usize;
        assert(ints[q] == k);
        assert(ints.contains(k));
    }
    vstd::set_lib::lemma_int_range(0, n);
    vstd::seq_lib::seq_to_set_is_finite(ints);
    vstd::set_lib::lemma_len_subset(r, p);
    ints.lemma_cardinality_of_set();
}

} // verus!
