//! The two-phase progress aggregator.
//!
//! Downloading and installing are each worth half of the range. With `n`
//! packages to change, a file of which `downloaded` of `total` bytes have
//! arrived adds `downloaded / total * 100 / (2 * n)`, and a package that is
//! installed to `percent` adds `percent / (2 * n)`. From the first install
//! event on the download half counts as at least 50. The sum is computed in
//! exact arithmetic, rounded down and capped at 100.
//!
//! A share whose divisor is zero (a file without size, a transaction of no
//! packages) cannot be computed. Where its dividend is zero as well it has
//! no value, and neither has a sum that holds it. Otherwise it is beyond
//! every bound, and so is a sum that holds it and no share without value:
//! the percentage is then 100. A download sum without value is reported as
//! 0 while downloading; once installing it counts as the 50 that the
//! download half is then worth at least. An install sum without value
//! leaves the percentage at that 50.

use crate::bignat::BigNat;
use crate::table::{
    has_name, lemma_upsert, lemma_upsert_twice, lookup, names_distinct, upsert, NameTable,
};
use vstd::arithmetic::div_mod::{lemma_div_is_ordered, lemma_div_multiples_vanish};
use vstd::prelude::*;

verus! {

/// What a tracker has recorded.
pub struct ProgressView {
    /// For each file, in the order in which the files first appeared, the
    /// bytes downloaded and the bytes in total.
    pub downloads: Seq<(Seq<char>, (usize, usize))>,
    /// For each package, in the order in which the packages first
    /// appeared, how far it is installed, in percent.
    pub installs: Seq<(Seq<char>, usize)>,
    /// Whether an install event has been recorded.
    pub download_finished: bool,
    /// The number of packages that the transaction changes.
    pub total_num: nat,
}

impl ProgressView {
    /// Nothing recorded yet, for a transaction of `total_num` packages.
    pub open spec fn initial(total_num: nat) -> ProgressView {
        ProgressView {
            downloads: Seq::empty(),
            installs: Seq::empty(),
            download_finished: false,
            total_num,
        }
    }

    /// `self` after a download event.
    pub open spec fn record_download(
        self,
        filename: Seq<char>,
        downloaded: usize,
        total: usize,
    ) -> ProgressView {
        ProgressView { downloads: upsert(self.downloads, filename, (downloaded, total)), ..self }
    }

    /// `self` after an install event.
    pub open spec fn record_install(self, package_name: Seq<char>, percent: usize) -> ProgressView {
        ProgressView {
            installs: upsert(self.installs, package_name, percent),
            download_finished: true,
            ..self
        }
    }

    /// No file and no package is recorded twice.
    pub open spec fn valid(self) -> bool {
        names_distinct(self.downloads) && names_distinct(self.installs)
    }
}

/// The share of a download entry has no value: nothing was downloaded and
/// the divisor `total * 2 * n` is zero.
pub open spec fn download_undefined(entry: (Seq<char>, (usize, usize)), n: nat) -> bool {
    entry.1.0 == 0 && (entry.1.1 == 0 || n == 0)
}

/// The share of a download entry is beyond every bound: something was
/// downloaded and the divisor `total * 2 * n` is zero.
pub open spec fn download_unbounded(entry: (Seq<char>, (usize, usize)), n: nat) -> bool {
    entry.1.0 > 0 && (entry.1.1 == 0 || n == 0)
}

/// The share of an install entry has no value: its percentage and the
/// divisor `2 * n` are zero.
pub open spec fn install_undefined(entry: (Seq<char>, usize), n: nat) -> bool {
    entry.1 == 0 && n == 0
}

/// The share of an install entry is beyond every bound: its percentage is
/// not zero and the divisor `2 * n` is.
pub open spec fn install_unbounded(entry: (Seq<char>, usize), n: nat) -> bool {
    entry.1 > 0 && n == 0
}

/// Some download share has no value, and so the download sum has none.
pub open spec fn downloads_undefined(v: ProgressView) -> bool {
    exists|i: int|
        0 <= i < v.downloads.len() && #[trigger] download_undefined(v.downloads[i], v.total_num)
}

/// Some download share is beyond every bound.
pub open spec fn downloads_unbounded(v: ProgressView) -> bool {
    exists|i: int|
        0 <= i < v.downloads.len() && #[trigger] download_unbounded(v.downloads[i], v.total_num)
}

/// Some install share has no value, and so the install sum has none.
pub open spec fn installs_undefined(v: ProgressView) -> bool {
    exists|j: int|
        0 <= j < v.installs.len() && #[trigger] install_undefined(v.installs[j], v.total_num)
}

/// Some install share is beyond every bound.
pub open spec fn installs_unbounded(v: ProgressView) -> bool {
    exists|j: int|
        0 <= j < v.installs.len() && #[trigger] install_unbounded(v.installs[j], v.total_num)
}

/// The product of the totals of `s`: the common denominator of the ratios
/// `downloaded / total`.
pub open spec fn ratio_den(s: Seq<(Seq<char>, (usize, usize))>) -> nat
    decreases s.len(),
{
    if s.len() == 0 {
        1
    } else {
        ratio_den(s.drop_last()) * (s.last().1.1 as nat)
    }
}

/// The sum of the ratios `downloaded / total` of `s`, as a numerator over
/// `ratio_den(s)`.
pub open spec fn ratio_num(s: Seq<(Seq<char>, (usize, usize))>) -> nat
    decreases s.len(),
{
    if s.len() == 0 {
        0
    } else {
        ratio_num(s.drop_last()) * (s.last().1.1 as nat) + (s.last().1.0 as nat) * ratio_den(
            s.drop_last(),
        )
    }
}

/// The sum of the percentages of `s`.
pub open spec fn install_sum(s: Seq<(Seq<char>, usize)>) -> nat
    decreases s.len(),
{
    if s.len() == 0 {
        0
    } else {
        install_sum(s.drop_last()) + (s.last().1 as nat)
    }
}

/// `numerator / denominator`, rounded down and capped at 100.
pub open spec fn capped_quotient(numerator: nat, denominator: nat) -> nat {
    if numerator / denominator < 100 {
        numerator / denominator
    } else {
        100
    }
}

/// The percentage that `v` stands for.
pub open spec fn progress_percent(v: ProgressView) -> nat {
    if v.download_finished {
        installing_percent(v)
    } else {
        downloading_percent(v)
    }
}

/// The percentage before any install event: the sum of the download
/// shares. It is 0 where that sum has no value and 100 where it is beyond
/// every bound.
pub open spec fn downloading_percent(v: ProgressView) -> nat {
    if downloads_undefined(v) {
        0
    } else if downloads_unbounded(v) {
        100
    } else if v.total_num == 0 {
        0
    } else {
        capped_quotient(progress_numerator(v), ratio_den(v.downloads) * (2 * v.total_num))
    }
}

/// The percentage once an install event is recorded: the sum of the
/// download shares, but at least 50, plus the sum of the install shares.
/// A download sum without value counts as 50. Where the install sum has
/// no value the percentage is 50, and where a sum is beyond every bound it
/// is 100.
pub open spec fn installing_percent(v: ProgressView) -> nat {
    if installs_undefined(v) {
        50
    } else if installs_unbounded(v) {
        100
    } else if v.total_num == 0 {
        // no install share counts, and no download share has a divisor
        if downloads_unbounded(v) && !downloads_undefined(v) {
            100
        } else {
            50
        }
    } else if downloads_undefined(v) {
        capped_quotient(50 * (2 * v.total_num) + install_sum(v.installs), 2 * v.total_num)
    } else if downloads_unbounded(v) {
        100
    } else {
        capped_quotient(progress_numerator(v), ratio_den(v.downloads) * (2 * v.total_num))
    }
}

/// The numerator of the exact sum over `ratio_den(v.downloads) * 2 * n`,
/// where every share has a value.
pub open spec fn progress_numerator(v: ProgressView) -> nat {
    let denominator = ratio_den(v.downloads) * (2 * v.total_num);
    let download_part = 100 * ratio_num(v.downloads);
    if v.download_finished {
        let floored = if download_part < 50 * denominator {
            50 * denominator
        } else {
            download_part
        };
        floored + install_sum(v.installs) * ratio_den(v.downloads)
    } else {
        download_part
    }
}

proof fn lemma_ratio_den_positive(s: Seq<(Seq<char>, (usize, usize))>)
    requires
        forall|i: int| 0 <= i < s.len() ==> (#[trigger] s[i]).1.1 > 0,
    ensures
        ratio_den(s) > 0,
    decreases s.len(),
{
    if s.len() > 0 {
        lemma_ratio_den_positive(s.drop_last());
        let a: nat = ratio_den(s.drop_last());
        let t: nat = s.last().1.1 as nat;
        assert(a * t > 0) by (nonlinear_arith)
            requires
                a > 0,
                t > 0,
        ;
    }
}

/// Where every download share has a value and `n` is positive, the
/// denominator of the exact sum is positive.
pub proof fn lemma_denominator_positive(v: ProgressView)
    requires
        !downloads_undefined(v),
        !downloads_unbounded(v),
        v.total_num > 0,
    ensures
        ratio_den(v.downloads) > 0,
        ratio_den(v.downloads) * (2 * v.total_num) > 0,
{
    let s = v.downloads;
    assert forall|i: int| 0 <= i < s.len() implies (#[trigger] s[i]).1.1 > 0 by {
        if s[i].1.1 == 0 {
            assert(download_undefined(s[i], v.total_num) || download_unbounded(s[i], v.total_num));
        }
    }
    lemma_ratio_den_positive(s);
    let a: nat = ratio_den(s);
    let b: nat = 2 * v.total_num;
    assert(a * b > 0) by (nonlinear_arith)
        requires
            a > 0,
            b > 0,
    ;
}

/// The percentage never exceeds 100.
pub proof fn lemma_percent_bounded(v: ProgressView)
    ensures
        progress_percent(v) <= 100,
{
}

/// A quotient whose numerator is at least 50 times its positive
/// denominator is at least 50.
proof fn lemma_quotient_floor(numerator: nat, denominator: nat)
    requires
        denominator > 0,
        50 * denominator <= numerator,
    ensures
        capped_quotient(numerator, denominator) >= 50,
{
    let d: int = denominator as int;
    assert(d * 50 == 50 * d) by (nonlinear_arith);
    lemma_div_multiples_vanish(50, d);
    lemma_div_is_ordered(d * 50, numerator as int, d);
}

/// Once an install event is recorded the percentage is at least 50,
/// whatever was downloaded.
pub proof fn lemma_install_floor(v: ProgressView)
    requires
        v.download_finished,
    ensures
        progress_percent(v) >= 50,
{
    if !installs_undefined(v) && !installs_unbounded(v) && v.total_num > 0 {
        if downloads_undefined(v) {
            lemma_quotient_floor(
                50 * (2 * v.total_num) + install_sum(v.installs),
                2 * v.total_num,
            );
        } else if !downloads_unbounded(v) {
            lemma_denominator_positive(v);
            lemma_quotient_floor(
                progress_numerator(v),
                ratio_den(v.downloads) * (2 * v.total_num),
            );
        }
    }
}

/// After any install event the percentage is at least 50, whatever was
/// recorded before.
pub proof fn lemma_install_event_floor(v: ProgressView, package_name: Seq<char>, percent: usize)
    ensures
        progress_percent(v.record_install(package_name, percent)) >= 50,
{
    lemma_install_floor(v.record_install(package_name, percent));
}

/// A single download entry, with no more downloaded than there is in
/// total, stands for `downloaded * 100 / (total * 2 * n)` rounded down,
/// which is at most 50. With a total of zero it stands for 0.
pub proof fn lemma_single_download(n: nat, filename: Seq<char>, downloaded: usize, total: usize)
    requires
        n >= 1,
        downloaded <= total,
    ensures
        progress_percent(ProgressView::initial(n).record_download(filename, downloaded, total))
            <= 50,
        total > 0 ==> progress_percent(
            ProgressView::initial(n).record_download(filename, downloaded, total),
        ) == (100 * downloaded) / (total * (2 * n)),
        total == 0 ==> progress_percent(
            ProgressView::initial(n).record_download(filename, downloaded, total),
        ) == 0,
{
    let v = ProgressView::initial(n).record_download(filename, downloaded, total);
    let s = v.downloads;
    let entry = (filename, (downloaded, total));
    assert(!has_name(ProgressView::initial(n).downloads, filename));
    assert(s =~= seq![entry]);
    assert(s[0] == entry);
    if total == 0 {
        assert(download_undefined(s[0], n));
    } else {
        assert(s.drop_last() =~= Seq::empty());
        assert(ratio_den(s.drop_last()) == 1);
        assert(ratio_num(s.drop_last()) == 0);
        assert(ratio_den(s) == total) by (nonlinear_arith)
            requires
                ratio_den(s) == 1 * (total as nat),
        ;
        assert(ratio_num(s) == downloaded) by (nonlinear_arith)
            requires
                ratio_num(s) == 0 * (total as nat) + (downloaded as nat) * 1,
        ;
        assert(!downloads_undefined(v));
        assert(!downloads_unbounded(v));
        let d: int = total * (2 * n);
        let x: int = 100 * downloaded;
        assert(d > 0 && x <= 50 * d && d * 50 == 50 * d) by (nonlinear_arith)
            requires
                d == total * (2 * n),
                x == 100 * downloaded,
                n >= 1,
                0 <= downloaded <= total,
                total > 0,
        ;
        lemma_div_multiples_vanish(50, d);
        lemma_div_is_ordered(x, d * 50, d);
        assert(progress_numerator(v) == x);
    }
}

/// Recording the same download event twice leaves the records, and so the
/// percentage, as they were after the first time.
pub proof fn lemma_download_idempotent(
    v: ProgressView,
    filename: Seq<char>,
    downloaded: usize,
    total: usize,
)
    requires
        v.valid(),
    ensures
        v.record_download(filename, downloaded, total).record_download(
            filename,
            downloaded,
            total,
        ) == v.record_download(filename, downloaded, total),
        progress_percent(
            v.record_download(filename, downloaded, total).record_download(
                filename,
                downloaded,
                total,
            ),
        ) == progress_percent(v.record_download(filename, downloaded, total)),
{
    lemma_upsert_twice(v.downloads, filename, (downloaded, total), (downloaded, total));
}

/// Recording the same install event twice leaves the records, and so the
/// percentage, as they were after the first time.
pub proof fn lemma_install_idempotent(v: ProgressView, package_name: Seq<char>, percent: usize)
    requires
        v.valid(),
    ensures
        v.record_install(package_name, percent).record_install(package_name, percent)
            == v.record_install(package_name, percent),
        progress_percent(v.record_install(package_name, percent).record_install(package_name, percent))
            == progress_percent(v.record_install(package_name, percent)),
{
    lemma_upsert_twice(v.installs, package_name, percent, percent);
}

/// Of two download events for one file only the later one stays: the
/// records, and so the percentage, are as if the earlier one had never
/// come. The later values are the ones found under the name, and no other
/// file is touched.
pub proof fn lemma_download_last_write_wins(
    v: ProgressView,
    filename: Seq<char>,
    first: (usize, usize),
    second: (usize, usize),
)
    requires
        v.valid(),
    ensures
        v.record_download(filename, first.0, first.1).record_download(filename, second.0, second.1)
            == v.record_download(filename, second.0, second.1),
        progress_percent(
            v.record_download(filename, first.0, first.1).record_download(
                filename,
                second.0,
                second.1,
            ),
        ) == progress_percent(v.record_download(filename, second.0, second.1)),
        lookup(v.record_download(filename, second.0, second.1).downloads, filename) == Some(second),
        forall|other: Seq<char>|
            other != filename ==> lookup(
                v.record_download(filename, second.0, second.1).downloads,
                other,
            ) == lookup(v.downloads, other),
        v.record_download(filename, second.0, second.1).valid(),
{
    lemma_upsert_twice(v.downloads, filename, first, second);
    lemma_upsert(v.downloads, filename, second);
}

/// Of two install events for one package only the later one stays: the
/// records, and so the percentage, are as if the earlier one had never
/// come. The later value is the one found under the name, and no other
/// package is touched.
pub proof fn lemma_install_last_write_wins(
    v: ProgressView,
    package_name: Seq<char>,
    first: usize,
    second: usize,
)
    requires
        v.valid(),
    ensures
        v.record_install(package_name, first).record_install(package_name, second)
            == v.record_install(package_name, second),
        progress_percent(v.record_install(package_name, first).record_install(package_name, second))
            == progress_percent(v.record_install(package_name, second)),
        lookup(v.record_install(package_name, second).installs, package_name) == Some(second),
        forall|other: Seq<char>|
            other != package_name ==> lookup(
                v.record_install(package_name, second).installs,
                other,
            ) == lookup(v.installs, other),
        v.record_install(package_name, second).valid(),
{
    lemma_upsert_twice(v.installs, package_name, first, second);
    lemma_upsert(v.installs, package_name, second);
}

/// Accumulates download and install events of one transaction and turns
/// them into one percentage.
pub struct ProgressTracker {
    downloads: NameTable<(usize, usize)>,
    installs: NameTable<usize>,
    download_finished: bool,
    total_num: usize,
}

impl View for ProgressTracker {
    type V = ProgressView;

    closed spec fn view(&self) -> ProgressView {
        ProgressView {
            downloads: self.downloads@,
            installs: self.installs@,
            download_finished: self.download_finished,
            total_num: self.total_num as nat,
        }
    }
}

impl ProgressTracker {
    #[verifier::type_invariant]
    spec fn well_formed(&self) -> bool {
        self@.valid()
    }

    /// A tracker for a transaction that changes `total_num` packages.
    pub fn new(total_num: usize) -> (r: ProgressTracker)
        ensures
            r@ == ProgressView::initial(total_num as nat),
    {
        ProgressTracker {
            downloads: NameTable::new(),
            installs: NameTable::new(),
            download_finished: false,
            total_num,
        }
    }

    /// Records that `downloaded` of `total` bytes of `filename` have
    /// arrived. A later event for the same file replaces the earlier one.
    pub fn update_download_progress(&mut self, filename: &str, downloaded: usize, total: usize)
        ensures
            final(self)@ == old(self)@.record_download(filename@, downloaded, total),
            final(self)@.valid(),
    {
        proof {
            use_type_invariant(&*self);
        }
        let mut downloads: NameTable<(usize, usize)> = NameTable::new();
        std::mem::swap(&mut self.downloads, &mut downloads);
        downloads.record(filename, (downloaded, total));
        std::mem::swap(&mut self.downloads, &mut downloads);
    }

    /// Records that `package_name` is installed to `percent`, and that the
    /// download phase is over. A later event for the same package replaces
    /// the earlier one.
    pub fn update_install_progress(&mut self, package_name: &str, percent: usize)
        ensures
            final(self)@ == old(self)@.record_install(package_name@, percent),
            final(self)@.valid(),
    {
        proof {
            use_type_invariant(&*self);
        }
        self.download_finished = true;
        let mut installs: NameTable<usize> = NameTable::new();
        std::mem::swap(&mut self.installs, &mut installs);
        installs.record(package_name, percent);
        std::mem::swap(&mut self.installs, &mut installs);
    }

    /// The percentage that the recorded events stand for. It is at least
    /// 50 once an install event is recorded.
    pub fn get_current_progress(&self) -> (percent: usize)
        ensures
            percent == progress_percent(self@),
            percent <= 100,
            self@.download_finished ==> percent >= 50,
            self@.valid(),
    {
        proof {
            use_type_invariant(self);
            if self@.download_finished {
                lemma_install_floor(self@);
            }
        }
        let downloads: (bool, bool) = self.scan_downloads();
        if self.download_finished {
            let installs: (bool, bool) = self.scan_installs();
            if installs.0 {
                return 50;
            }
            if installs.1 {
                return 100;
            }
            if self.total_num == 0 {
                return if downloads.1 && !downloads.0 {
                    100
                } else {
                    50
                };
            }
            if downloads.0 {
                return self.percent_after_unknown_downloads();
            }
            if downloads.1 {
                return 100;
            }
        } else {
            if downloads.0 {
                return 0;
            }
            if downloads.1 {
                return 100;
            }
            if self.total_num == 0 {
                return 0;
            }
        }
        proof {
            lemma_denominator_positive(self@);
        }
        let ratio: (BigNat, BigNat) = self.download_ratio();
        let denominator = ratio.1.scale(2).scale(self.total_num as u64);
        let download_part = ratio.0.scale(100);
        proof {
            let d: nat = ratio_den(self@.downloads);
            let n: nat = self.total_num as nat;
            assert(d * 2 * n == d * (2 * n)) by (nonlinear_arith);
            assert(ratio_num(self@.downloads) * 100 == 100 * ratio_num(self@.downloads))
                by (nonlinear_arith);
        }
        let numerator = if self.download_finished {
            let floor = denominator.scale(50);
            assert(denominator@ * 50 == 50 * denominator@) by (nonlinear_arith);
            let floored = if download_part.at_most(&floor) {
                floor
            } else {
                download_part
            };
            self.add_installs(floored, &ratio.1)
        } else {
            download_part
        };
        assert(numerator@ == progress_numerator(self@));
        match numerator.quotient_capped(&denominator, 100) {
            Some(q) => q as usize,
            None => 0,
        }
    }

    /// The percentage once installing, where the download sum has no value
    /// and counts as 50: 50 plus the sum of the install shares.
    fn percent_after_unknown_downloads(&self) -> (percent: usize)
        requires
            self@.total_num > 0,
        ensures
            percent == capped_quotient(
                50 * (2 * self@.total_num) + install_sum(self@.installs),
                2 * self@.total_num,
            ),
    {
        let unit = BigNat::from_u64(1);
        let denominator = unit.scale(2).scale(self.total_num as u64);
        let floor = denominator.scale(50);
        proof {
            let n: nat = self.total_num as nat;
            assert(1 * 2 * n == 2 * n) by (nonlinear_arith);
            assert((2 * n) * 50 == 50 * (2 * n)) by (nonlinear_arith);
            assert(install_sum(self@.installs) * 1 == install_sum(self@.installs))
                by (nonlinear_arith);
        }
        let numerator = self.add_installs(floor, &unit);
        match numerator.quotient_capped(&denominator, 100) {
            Some(q) => q as usize,
            None => 0,
        }
    }

    /// Whether a download share has no value, and whether one is beyond
    /// every bound.
    fn scan_downloads(&self) -> (r: (bool, bool))
        ensures
            r.0 == exists|i: int|
                0 <= i < self@.downloads.len() && #[trigger] download_undefined(
                    self@.downloads[i],
                    self@.total_num,
                ),
            r.1 == exists|i: int|
                0 <= i < self@.downloads.len() && #[trigger] download_unbounded(
                    self@.downloads[i],
                    self@.total_num,
                ),
    {
        let len: usize = self.downloads.len();
        let ghost s = self@.downloads;
        let ghost n = self@.total_num;
        let mut undefined: bool = false;
        let mut unbounded: bool = false;
        let mut i: usize = 0;
        while i < len
            invariant
                i <= len,
                len == s.len(),
                s == self.downloads@,
                n == self.total_num as nat,
                undefined == exists|j: int| 0 <= j < i && #[trigger] download_undefined(s[j], n),
                unbounded == exists|j: int| 0 <= j < i && #[trigger] download_unbounded(s[j], n),
            decreases len - i,
        {
            let entry: (usize, usize) = self.downloads.value_at(i);
            let zero_divisor: bool = entry.1 == 0 || self.total_num == 0;
            let here_undefined: bool = entry.0 == 0 && zero_divisor;
            let here_unbounded: bool = entry.0 > 0 && zero_divisor;
            assert(here_undefined == download_undefined(s[i as int], n));
            assert(here_unbounded == download_unbounded(s[i as int], n));
            undefined = undefined || here_undefined;
            unbounded = unbounded || here_unbounded;
            i = i + 1;
        }
        (undefined, unbounded)
    }

    /// Whether an install share has no value, and whether one is beyond
    /// every bound.
    fn scan_installs(&self) -> (r: (bool, bool))
        ensures
            r.0 == exists|j: int|
                0 <= j < self@.installs.len() && #[trigger] install_undefined(
                    self@.installs[j],
                    self@.total_num,
                ),
            r.1 == exists|j: int|
                0 <= j < self@.installs.len() && #[trigger] install_unbounded(
                    self@.installs[j],
                    self@.total_num,
                ),
    {
        let len: usize = self.installs.len();
        let ghost s = self@.installs;
        let ghost n = self@.total_num;
        let mut undefined: bool = false;
        let mut unbounded: bool = false;
        let mut i: usize = 0;
        while i < len
            invariant
                i <= len,
                len == s.len(),
                s == self.installs@,
                n == self.total_num as nat,
                undefined == exists|j: int| 0 <= j < i && #[trigger] install_undefined(s[j], n),
                unbounded == exists|j: int| 0 <= j < i && #[trigger] install_unbounded(s[j], n),
            decreases len - i,
        {
            let percent: usize = self.installs.value_at(i);
            let here_undefined: bool = percent == 0 && self.total_num == 0;
            let here_unbounded: bool = percent > 0 && self.total_num == 0;
            assert(here_undefined == install_undefined(s[i as int], n));
            assert(here_unbounded == install_unbounded(s[i as int], n));
            undefined = undefined || here_undefined;
            unbounded = unbounded || here_unbounded;
            i = i + 1;
        }
        (undefined, unbounded)
    }

    /// The sum of the download ratios as an exact fraction: its numerator
    /// and its denominator.
    fn download_ratio(&self) -> (r: (BigNat, BigNat))
        ensures
            r.0@ == ratio_num(self@.downloads),
            r.1@ == ratio_den(self@.downloads),
    {
        let len: usize = self.downloads.len();
        let ghost s = self@.downloads;
        let mut num = BigNat::from_u64(0);
        let mut den = BigNat::from_u64(1);
        let mut i: usize = 0;
        assert(s.take(0) =~= Seq::empty());
        while i < len
            invariant
                i <= len,
                len == s.len(),
                s == self.downloads@,
                num@ == ratio_num(s.take(i as int)),
                den@ == ratio_den(s.take(i as int)),
            decreases len - i,
        {
            let entry: (usize, usize) = self.downloads.value_at(i);
            proof {
                let next = s.take(i + 1);
                assert(next.drop_last() =~= s.take(i as int));
                assert(next.last() == s[i as int]);
                assert((entry.0 as nat) * den@ == den@ * entry.0) by (nonlinear_arith);
            }
            let scaled = num.scale(entry.1 as u64);
            let added = den.scale(entry.0 as u64);
            num = scaled.sum(&added);
            den = den.scale(entry.1 as u64);
            i = i + 1;
        }
        assert(s.take(len as int) =~= s);
        (num, den)
    }

    /// `base` plus the sum of the install percentages times `unit`.
    fn add_installs(&self, base: BigNat, unit: &BigNat) -> (r: BigNat)
        ensures
            r@ == base@ + install_sum(self@.installs) * unit@,
    {
        let len: usize = self.installs.len();
        let ghost s = self@.installs;
        let ghost start = base@;
        let mut total = base;
        let mut i: usize = 0;
        assert(s.take(0) =~= Seq::empty());
        assert(install_sum(s.take(0)) * unit@ == 0) by (nonlinear_arith)
            requires
                install_sum(s.take(0)) == 0,
        ;
        while i < len
            invariant
                i <= len,
                len == s.len(),
                s == self.installs@,
                total@ == start + install_sum(s.take(i as int)) * unit@,
            decreases len - i,
        {
            let percent: usize = self.installs.value_at(i);
            proof {
                let next = s.take(i + 1);
                assert(next.drop_last() =~= s.take(i as int));
                assert(next.last() == s[i as int]);
                let before: nat = install_sum(s.take(i as int));
                assert((before + percent) * unit@ == before * unit@ + unit@ * percent)
                    by (nonlinear_arith);
            }
            let share = unit.scale(percent as u64);
            total = total.sum(&share);
            i = i + 1;
        }
        assert(s.take(len as int) =~= s);
        total
    }
}

} // verus!
