//! The percentage does not depend on the order of the records.
//!
//! A tracker keeps its records in the order in which the names first came.
//! That order says nothing: two sets of records that hold the same entries
//! stand for the same percentage.

use crate::progress::{
    download_unbounded, download_undefined, downloads_unbounded, downloads_undefined,
    install_sum, install_unbounded, install_undefined, installs_unbounded, installs_undefined,
    progress_numerator, progress_percent, ratio_den, ratio_num, ProgressView,
};
use vstd::prelude::*;
use vstd::seq_lib::{to_multiset_contains, to_multiset_len, to_multiset_remove};

verus! {

/// The download ratios of `s` in terms of those of `s` without entry `i`.
pub proof fn lemma_ratio_remove(s: Seq<(Seq<char>, (usize, usize))>, i: int)
    requires
        0 <= i < s.len(),
    ensures
        ratio_den(s) == ratio_den(s.remove(i)) * (s[i].1.1 as nat),
        ratio_num(s) == ratio_num(s.remove(i)) * (s[i].1.1 as nat) + (s[i].1.0 as nat)
            * ratio_den(s.remove(i)),
    decreases s.len(),
{
    if i == s.len() - 1 {
        assert(s.remove(i) =~= s.drop_last());
    } else {
        let p = s.drop_last();
        let q = p.remove(i);
        lemma_ratio_remove(p, i);
        assert(s.remove(i).drop_last() =~= q);
        assert(s.remove(i).last() == s.last());
        assert(p[i] == s[i]);
        let lt: nat = s.last().1.1 as nat;
        let ld: nat = s.last().1.0 as nat;
        let t: nat = s[i].1.1 as nat;
        let d: nat = s[i].1.0 as nat;
        let qd: nat = ratio_den(q);
        let qn: nat = ratio_num(q);
        assert(ratio_den(s) == ratio_den(p) * lt);
        assert(ratio_den(s.remove(i)) == qd * lt);
        assert(ratio_num(s) == ratio_num(p) * lt + ld * ratio_den(p));
        assert(ratio_num(s.remove(i)) == qn * lt + ld * qd);
        assert((qd * t) * lt == (qd * lt) * t) by (nonlinear_arith);
        assert((qn * t + d * qd) * lt + ld * (qd * t) == (qn * lt + ld * qd) * t + d * (qd * lt))
            by (nonlinear_arith);
    }
}

/// The sum of the install percentages of `s` in terms of that of `s`
/// without entry `i`.
pub proof fn lemma_install_sum_remove(s: Seq<(Seq<char>, usize)>, i: int)
    requires
        0 <= i < s.len(),
    ensures
        install_sum(s) == install_sum(s.remove(i)) + (s[i].1 as nat),
    decreases s.len(),
{
    if i == s.len() - 1 {
        assert(s.remove(i) =~= s.drop_last());
    } else {
        let p = s.drop_last();
        lemma_install_sum_remove(p, i);
        assert(s.remove(i).drop_last() =~= p.remove(i));
        assert(s.remove(i).last() == s.last());
        assert(p[i] == s[i]);
    }
}

/// A place in `t` that holds the last entry of `s`, where the two hold the
/// same entries.
proof fn lemma_find_last<A>(s: Seq<A>, t: Seq<A>) -> (i: int)
    requires
        s.len() > 0,
        s.to_multiset() == t.to_multiset(),
    ensures
        0 <= i < t.len(),
        t[i] == s.last(),
        s.drop_last().to_multiset() == t.remove(i).to_multiset(),
        t.len() == s.len(),
{
    let last = s.last();
    to_multiset_len(s);
    to_multiset_len(t);
    assert(s[s.len() - 1] == last);
    assert(s.contains(last));
    to_multiset_contains(s, last);
    to_multiset_contains(t, last);
    let i: int = choose|i: int| 0 <= i < t.len() && t[i] == last;
    to_multiset_remove(s, s.len() - 1);
    to_multiset_remove(t, i);
    assert(s.remove(s.len() - 1) =~= s.drop_last());
    i
}

/// Download records that hold the same entries have the same ratios.
pub proof fn lemma_ratio_ignores_order(
    s: Seq<(Seq<char>, (usize, usize))>,
    t: Seq<(Seq<char>, (usize, usize))>,
)
    requires
        s.to_multiset() == t.to_multiset(),
    ensures
        ratio_den(s) == ratio_den(t),
        ratio_num(s) == ratio_num(t),
    decreases s.len(),
{
    to_multiset_len(s);
    to_multiset_len(t);
    if s.len() > 0 {
        let i: int = lemma_find_last(s, t);
        lemma_ratio_ignores_order(s.drop_last(), t.remove(i));
        lemma_ratio_remove(t, i);
    }
}

/// Install records that hold the same entries have the same sum.
pub proof fn lemma_install_sum_ignores_order(s: Seq<(Seq<char>, usize)>, t: Seq<(Seq<char>, usize)>)
    requires
        s.to_multiset() == t.to_multiset(),
    ensures
        install_sum(s) == install_sum(t),
    decreases s.len(),
{
    to_multiset_len(s);
    to_multiset_len(t);
    if s.len() > 0 {
        let i: int = lemma_find_last(s, t);
        lemma_install_sum_ignores_order(s.drop_last(), t.remove(i));
        lemma_install_sum_remove(t, i);
    }
}

/// What holds of some entry of `v` holds of some entry of `w`, where `w`
/// holds the entries of `v`.
proof fn lemma_shares_carry_over(v: ProgressView, w: ProgressView)
    requires
        v.downloads.to_multiset() == w.downloads.to_multiset(),
        v.installs.to_multiset() == w.installs.to_multiset(),
        v.download_finished == w.download_finished,
        v.total_num == w.total_num,
    ensures
        downloads_undefined(v) ==> downloads_undefined(w),
        downloads_unbounded(v) ==> downloads_unbounded(w),
        installs_undefined(v) ==> installs_undefined(w),
        installs_unbounded(v) ==> installs_unbounded(w),
{
    let n = v.total_num;
    assert forall|i: int| 0 <= i < v.downloads.len() implies exists|j: int|
        0 <= j < w.downloads.len() && w.downloads[j] == #[trigger] v.downloads[i] by {
        let entry = v.downloads[i];
        assert(v.downloads.contains(entry));
        to_multiset_contains(v.downloads, entry);
        to_multiset_contains(w.downloads, entry);
        let j: int = choose|j: int| 0 <= j < w.downloads.len() && w.downloads[j] == entry;
        assert(w.downloads[j] == entry);
    }
    assert forall|i: int| 0 <= i < v.installs.len() implies exists|j: int|
        0 <= j < w.installs.len() && w.installs[j] == #[trigger] v.installs[i] by {
        let entry = v.installs[i];
        assert(v.installs.contains(entry));
        to_multiset_contains(v.installs, entry);
        to_multiset_contains(w.installs, entry);
        let j: int = choose|j: int| 0 <= j < w.installs.len() && w.installs[j] == entry;
        assert(w.installs[j] == entry);
    }
    if downloads_undefined(v) {
        let i: int = choose|i: int|
            0 <= i < v.downloads.len() && #[trigger] download_undefined(v.downloads[i], n);
        let entry = v.downloads[i];
        let j: int = choose|j: int| 0 <= j < w.downloads.len() && w.downloads[j] == entry;
        assert(download_undefined(w.downloads[j], n));
    }
    if downloads_unbounded(v) {
        let i: int = choose|i: int|
            0 <= i < v.downloads.len() && #[trigger] download_unbounded(v.downloads[i], n);
        let entry = v.downloads[i];
        let j: int = choose|j: int| 0 <= j < w.downloads.len() && w.downloads[j] == entry;
        assert(download_unbounded(w.downloads[j], n));
    }
    if installs_undefined(v) {
        let i: int = choose|i: int|
            0 <= i < v.installs.len() && #[trigger] install_undefined(v.installs[i], n);
        let entry = v.installs[i];
        let j: int = choose|j: int| 0 <= j < w.installs.len() && w.installs[j] == entry;
        assert(install_undefined(w.installs[j], n));
    }
    if installs_unbounded(v) {
        let i: int = choose|i: int|
            0 <= i < v.installs.len() && #[trigger] install_unbounded(v.installs[i], n);
        let entry = v.installs[i];
        let j: int = choose|j: int| 0 <= j < w.installs.len() && w.installs[j] == entry;
        assert(install_unbounded(w.installs[j], n));
    }
}

/// Two sets of records that hold the same entries, in whatever order,
/// stand for the same percentage.
pub proof fn lemma_percent_ignores_order(v: ProgressView, w: ProgressView)
    requires
        v.downloads.to_multiset() == w.downloads.to_multiset(),
        v.installs.to_multiset() == w.installs.to_multiset(),
        v.download_finished == w.download_finished,
        v.total_num == w.total_num,
    ensures
        progress_percent(v) == progress_percent(w),
{
    lemma_shares_carry_over(v, w);
    lemma_shares_carry_over(w, v);
    lemma_ratio_ignores_order(v.downloads, w.downloads);
    lemma_install_sum_ignores_order(v.installs, w.installs);
    assert(progress_numerator(v) == progress_numerator(w));
}

} // verus!
