//! Which authoring media a build prepares, and in which order.
//!
//! The first media object with a given id is prepared when its export
//! filename is valid; later objects with the same id are not. Prepared
//! objects are handled in ascending order of export filename, then of id.
//! (The order of code points compared here is the order of UTF-8 bytes.)

use vstd::prelude::*;

use crate::product::lowering::strs;
use crate::str_map::StrMap;
use crate::text::{lemma_lt_irreflexive, lemma_lt_total, lemma_lt_transitive, owned, seq_lt, str_eq, str_lt};

verus! {

/// Whether object `i` is prepared: its filename is valid and no earlier
/// object has its id.
pub open spec fn job_selected(ids: Seq<Seq<char>>, valid: Seq<bool>, i: int) -> bool {
    &&& valid[i]
    &&& forall|j: int| 0 <= j < i ==> #[trigger] ids[j] != ids[i]
}

/// Whether object `a` is handled before object `b`: by export filename, then
/// by id.
pub open spec fn job_before(filenames: Seq<Seq<char>>, ids: Seq<Seq<char>>, a: int, b: int) -> bool {
    seq_lt(filenames[a], filenames[b]) || (filenames[a] == filenames[b] && seq_lt(ids[a], ids[b]))
}

proof fn lemma_job_before_transitive(filenames: Seq<Seq<char>>, ids: Seq<Seq<char>>, a: int, b: int, c: int)
    requires
        job_before(filenames, ids, a, b),
        job_before(filenames, ids, b, c),
    ensures
        job_before(filenames, ids, a, c),
{
    if seq_lt(filenames[a], filenames[b]) {
        if seq_lt(filenames[b], filenames[c]) {
            lemma_lt_transitive(filenames[a], filenames[b], filenames[c]);
        }
    } else if seq_lt(filenames[b], filenames[c]) {
    } else {
        lemma_lt_transitive(ids[a], ids[b], ids[c]);
    }
}

proof fn lemma_job_before_total(filenames: Seq<Seq<char>>, ids: Seq<Seq<char>>, a: int, b: int)
    requires
        ids[a] != ids[b],
    ensures
        job_before(filenames, ids, a, b) || job_before(filenames, ids, b, a),
        !(job_before(filenames, ids, a, b) && job_before(filenames, ids, b, a)),
{
    lemma_lt_total(filenames[a], filenames[b]);
    lemma_lt_total(ids[a], ids[b]);
    lemma_lt_irreflexive(filenames[a]);
}

/// Whether `order` holds indices below `n` in strictly ascending job order.
pub open spec fn in_job_order(order: Seq<usize>, filenames: Seq<Seq<char>>, ids: Seq<Seq<char>>) -> bool {
    forall|k: int, l: int|
        0 <= k < l < order.len() ==> job_before(filenames, ids, #[trigger] order[k] as int, #[trigger] order[l] as int)
}

fn first_before(filenames: &[String], ids: &[String], a: usize, b: usize) -> (r: bool)
    requires
        a < filenames@.len(),
        b < filenames@.len(),
        a < ids@.len(),
        b < ids@.len(),
    ensures
        r == job_before(strs(filenames@), strs(ids@), a as int, b as int),
{
    let fa = filenames[a].as_str();
    let fb = filenames[b].as_str();
    str_lt(fa, fb) || (str_eq(fa, fb) && str_lt(ids[a].as_str(), ids[b].as_str()))
}

/// The media objects a build prepares, by index, in the order it handles
/// them: the first object with each id whose export filename is valid
/// (`filename_valid`), ordered by export filename, then by id.
pub fn media_preparation_jobs(ids: &[String], filenames: &[String], filename_valid: &[bool]) -> (r: Vec<usize>)
    requires
        ids@.len() == filenames@.len(),
        ids@.len() == filename_valid@.len(),
    ensures
        forall|k: int| 0 <= k < r@.len() ==> (#[trigger] r@[k]) < ids@.len() && job_selected(
            strs(ids@),
            filename_valid@,
            r@[k] as int,
        ),
        forall|i: int| 0 <= i < ids@.len() && job_selected(strs(ids@), filename_valid@, i) ==> r@.contains(i as usize),
        in_job_order(r@, strs(filenames@), strs(ids@)),
        forall|k: int, l: int|
            0 <= k < l < r@.len() ==> strs(ids@)[#[trigger] r@[k] as int] != strs(ids@)[#[trigger] r@[l] as int],
{
    let ghost is = strs(ids@);
    let ghost fs = strs(filenames@);
    let ghost valid = filename_valid@;
    let mut seen: StrMap<bool> = StrMap::new();
    let mut r: Vec<usize> = Vec::new();
    let mut i: usize = 0;
    while i < ids.len()
        invariant
            i <= ids@.len(),
            ids@.len() == filenames@.len(),
            ids@.len() == filename_valid@.len(),
            is == strs(ids@),
            fs == strs(filenames@),
            valid == filename_valid@,
            forall|k: Seq<char>| #[trigger] seen.get_spec(k) is Some <==> exists|j: int| 0 <= j < i && is[j] == k,
            forall|k: int| 0 <= k < r@.len() ==> (#[trigger] r@[k]) < i && job_selected(is, valid, r@[k] as int),
            forall|j: int| 0 <= j < i && job_selected(is, valid, j) ==> r@.contains(j as usize),
            in_job_order(r@, fs, is),
        decreases ids.len() - i,
    {
        let first = !seen.contains_key(ids[i].as_str());
        proof {
            assert(is[i as int] == ids@[i as int]@);
            if !first {
                let j = choose|j: int| 0 <= j < i && is[j] == ids@[i as int]@;
                assert(is[j] == is[i as int]);
            } else {
                assert forall|j: int| 0 <= j < i implies #[trigger] is[j] != is[i as int] by {
                    if is[j] == is[i as int] {
                        assert(seen.get_spec(is[i as int]) is Some);
                    }
                }
            }
        }
        let ghost selected = first && valid[i as int];
        assert(selected == job_selected(is, valid, i as int));
        seen.insert(owned(ids[i].as_str()), true);
        if first && filename_valid[i] {
            let mut p: usize = 0;
            while p < r.len() && !first_before(filenames, ids, i, r[p])
                invariant
                    p <= r@.len(),
                    i < ids@.len(),
                    ids@.len() == filenames@.len(),
                    is == strs(ids@),
                    fs == strs(filenames@),
                    forall|k: int| 0 <= k < r@.len() ==> (#[trigger] r@[k]) < i,
                    forall|k: int| 0 <= k < p ==> !job_before(fs, is, i as int, #[trigger] r@[k] as int),
                decreases r.len() - p,
            {
                p += 1;
            }
            let ghost old_r = r@;
            proof {
                assert forall|k: int| 0 <= k < old_r.len() implies job_before(fs, is, #[trigger] old_r[k] as int, i as int)
                    || job_before(fs, is, i as int, old_r[k] as int) by {
                    assert(is[old_r[k] as int] != is[i as int]);
                    lemma_job_before_total(fs, is, old_r[k] as int, i as int);
                }
                if p < old_r.len() {
                    assert forall|k: int| p <= k < old_r.len() implies job_before(fs, is, i as int, #[trigger] old_r[k] as int) by {
                        if k > p {
                            lemma_job_before_transitive(fs, is, i as int, old_r[p as int] as int, old_r[k] as int);
                        }
                    }
                }
            }
            r.insert(p, i);
            proof {
                let nr = r@;
                assert(nr =~= old_r.insert(p as int, i));
                assert forall|k: int, l: int| 0 <= k < l < nr.len() implies job_before(
                    fs,
                    is,
                    #[trigger] nr[k] as int,
                    #[trigger] nr[l] as int,
                ) by {
                    if k < p && l < p {
                        assert(nr[k] == old_r[k] && nr[l] == old_r[l]);
                    } else if k < p && l == p {
                        assert(nr[k] == old_r[k]);
                        lemma_job_before_total(fs, is, old_r[k] as int, i as int);
                    } else if k < p && l > p {
                        assert(nr[k] == old_r[k] && nr[l] == old_r[l - 1]);
                    } else if k == p {
                        assert(nr[l] == old_r[l - 1]);
                    } else {
                        assert(nr[k] == old_r[k - 1] && nr[l] == old_r[l - 1]);
                    }
                }
                assert forall|j: int| 0 <= j < i + 1 && job_selected(is, valid, j) implies nr.contains(j as usize) by {
                    if j < i {
                        let k = choose|k: int| 0 <= k < old_r.len() && old_r[k] == j as usize;
                        if k < p {
                            assert(nr[k] == j as usize);
                        } else {
                            assert(nr[k + 1] == j as usize);
                        }
                    } else {
                        assert(nr[p as int] == i);
                    }
                }
                assert forall|k: int| 0 <= k < nr.len() implies (#[trigger] nr[k]) < i + 1 && job_selected(
                    is,
                    valid,
                    nr[k] as int,
                ) by {
                    if k < p {
                        assert(nr[k] == old_r[k]);
                    } else if k > p {
                        assert(nr[k] == old_r[k - 1]);
                    }
                }
            }
        } else {
            proof {
                assert forall|j: int| 0 <= j < i + 1 && job_selected(is, valid, j) implies r@.contains(j as usize) by {
                }
            }
        }
        proof {
            assert forall|k: Seq<char>| #[trigger] seen.get_spec(k) is Some <==> exists|j: int| 0 <= j < i + 1 && is[j] == k by {
                if k == is[i as int] {
                    assert(exists|j: int| 0 <= j < i + 1 && is[j] == k) by {
                        assert(is[i as int] == k);
                    }
                } else {
                    if exists|j: int| 0 <= j < i + 1 && is[j] == k {
                        let j = choose|j: int| 0 <= j < i + 1 && is[j] == k;
                        assert(j < i);
                    }
                }
            }
        }
        i += 1;
    }
    proof {
        assert forall|k: int, l: int| 0 <= k < l < r@.len() implies is[#[trigger] r@[k] as int] != is[#[trigger] r@[l] as int] by {
            let a = r@[k] as int;
            let b = r@[l] as int;
            assert(job_selected(is, valid, a) && job_selected(is, valid, b));
            if a == b {
                assert(job_before(fs, is, a, b));
                lemma_lt_irreflexive(fs[a]);
                lemma_lt_irreflexive(is[a]);
            } else if a < b {
                assert(is[a] != is[b]);
            } else {
                assert(is[b] != is[a]);
            }
        }
    }
    r
}

} // verus!
