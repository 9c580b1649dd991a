//! The percentage never falls when a file or a package gets further.
//!
//! The tracker keeps no history: it shows what was recorded last. So the
//! percentage can fall when an event reports less than the one before it.
//! It cannot fall otherwise: an event that reports more bytes of the same
//! file, of the same size, or a higher percentage of the same package,
//! leaves the percentage as it was or raises it.

use crate::order::{lemma_install_sum_remove, lemma_ratio_remove};
use crate::progress::{
    capped_quotient, download_unbounded, download_undefined, downloads_unbounded,
    downloads_undefined, install_sum, install_unbounded, install_undefined, installs_unbounded,
    installs_undefined, lemma_denominator_positive, progress_numerator, progress_percent,
    ratio_den, ratio_num, ProgressView,
};
use crate::table::{has_name, index_of_name, lookup};
use vstd::arithmetic::div_mod::lemma_div_is_ordered;
use vstd::prelude::*;

verus! {

/// Over one positive denominator the larger numerator gives the larger
/// capped quotient.
proof fn lemma_capped_quotient_grows(less: nat, more: nat, denominator: nat)
    requires
        less <= more,
        denominator > 0,
    ensures
        capped_quotient(less, denominator) <= capped_quotient(more, denominator),
{
    lemma_div_is_ordered(less as int, more as int, denominator as int);
}

/// A download event that reports at least as many bytes of a file as the
/// record holds, of the same total, does not lower the percentage.
pub proof fn lemma_download_progress_is_monotone(
    v: ProgressView,
    filename: Seq<char>,
    downloaded: usize,
    more: usize,
    total: usize,
)
    requires
        lookup(v.downloads, filename) == Some((downloaded, total)),
        downloaded <= more,
    ensures
        progress_percent(v) <= progress_percent(v.record_download(filename, more, total)),
{
    let n = v.total_num;
    let s = v.downloads;
    let w = v.record_download(filename, more, total);
    let t = w.downloads;
    assert(has_name(s, filename));
    let k: int = index_of_name(s, filename);
    assert(t == s.update(k, (filename, (more, total))));
    assert(s[k].1 == (downloaded, total));
    assert(t[k].1 == (more, total));
    if downloads_undefined(w) {
        let i: int = choose|i: int|
            0 <= i < t.len() && #[trigger] download_undefined(t[i], n);
        if i == k {
            assert(download_undefined(s[k], n));
        } else {
            assert(t[i] == s[i]);
            assert(download_undefined(s[i], n));
        }
        assert(downloads_undefined(v));
    }
    if downloads_unbounded(v) {
        let i: int = choose|i: int|
            0 <= i < s.len() && #[trigger] download_unbounded(s[i], n);
        if i == k {
            assert(download_unbounded(t[k], n));
        } else {
            assert(t[i] == s[i]);
            assert(download_unbounded(t[i], n));
        }
        assert(downloads_unbounded(w));
    }
    if downloads_undefined(v) && !downloads_undefined(w) {
        // the share that had no value is the one that grew
        let i: int = choose|i: int|
            0 <= i < s.len() && #[trigger] download_undefined(s[i], n);
        if i != k {
            assert(t[i] == s[i]);
            assert(download_undefined(t[i], n));
        }
        assert(!download_undefined(t[k], n));
        assert(download_unbounded(t[k], n));
        assert(downloads_unbounded(w));
    }
    lemma_ratio_remove(s, k);
    lemma_ratio_remove(t, k);
    assert(s.remove(k) =~= t.remove(k));
    let rest_den: nat = ratio_den(s.remove(k));
    assert((downloaded as nat) * rest_den <= (more as nat) * rest_den) by (nonlinear_arith)
        requires
            downloaded <= more,
    ;
    assert(ratio_den(t) == ratio_den(s));
    assert(ratio_num(s) <= ratio_num(t));
    assert(progress_numerator(v) <= progress_numerator(w));
    if n > 0 && !downloads_undefined(v) && !downloads_unbounded(w) {
        lemma_denominator_positive(v);
        lemma_capped_quotient_grows(
            progress_numerator(v),
            progress_numerator(w),
            ratio_den(s) * (2 * n),
        );
    }
}

/// An install event that reports at least as high a percentage of a
/// package as the record holds does not lower the percentage.
pub proof fn lemma_install_progress_is_monotone(
    v: ProgressView,
    package_name: Seq<char>,
    percent: usize,
    more: usize,
)
    requires
        lookup(v.installs, package_name) == Some(percent),
        percent <= more,
        v.download_finished,
    ensures
        progress_percent(v) <= progress_percent(v.record_install(package_name, more)),
{
    let n = v.total_num;
    let s = v.installs;
    let w = v.record_install(package_name, more);
    let t = w.installs;
    assert(has_name(s, package_name));
    let k: int = index_of_name(s, package_name);
    assert(t == s.update(k, (package_name, more)));
    assert(s[k].1 == percent);
    assert(t[k].1 == more);
    if installs_undefined(w) {
        let i: int = choose|i: int| 0 <= i < t.len() && #[trigger] install_undefined(t[i], n);
        if i == k {
            assert(install_undefined(s[k], n));
        } else {
            assert(t[i] == s[i]);
            assert(install_undefined(s[i], n));
        }
        assert(installs_undefined(v));
    }
    if installs_unbounded(v) {
        let i: int = choose|i: int| 0 <= i < s.len() && #[trigger] install_unbounded(s[i], n);
        if i == k {
            assert(install_unbounded(t[k], n));
        } else {
            assert(t[i] == s[i]);
            assert(install_unbounded(t[i], n));
        }
        assert(installs_unbounded(w));
    }
    if n == 0 {
        // every install share lacks a divisor: one of them decides
        assert(install_undefined(s[k], n) || install_unbounded(s[k], n));
        assert(install_undefined(t[k], n) || install_unbounded(t[k], n));
    } else {
        lemma_install_sum_remove(s, k);
        lemma_install_sum_remove(t, k);
        assert(s.remove(k) =~= t.remove(k));
        assert(install_sum(s) <= install_sum(t));
        if downloads_undefined(v) {
            lemma_capped_quotient_grows(
                50 * (2 * n) + install_sum(s),
                50 * (2 * n) + install_sum(t),
                2 * n,
            );
        } else if !downloads_unbounded(v) {
            lemma_denominator_positive(v);
            let unit: nat = ratio_den(v.downloads);
            assert(install_sum(s) * unit <= install_sum(t) * unit) by (nonlinear_arith)
                requires
                    install_sum(s) <= install_sum(t),
            ;
            lemma_capped_quotient_grows(
                progress_numerator(v),
                progress_numerator(w),
                unit * (2 * n),
            );
        }
    }
}

} // verus!
