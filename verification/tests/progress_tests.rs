use molyuu_updater::progress::ProgressTracker;

#[test]
fn half_downloaded_single_package_is_a_quarter() {
    let mut tracker = ProgressTracker::new(1);
    tracker.update_download_progress("core.tar.zst", 500, 1000);
    assert_eq!(tracker.get_current_progress(), 25);
}

#[test]
fn two_packages_one_done_one_half_downloaded() {
    let mut tracker = ProgressTracker::new(2);
    tracker.update_download_progress("a.tar.zst", 1000, 1000);
    tracker.update_download_progress("b.tar.zst", 500, 1000);
    assert_eq!(tracker.get_current_progress(), 37);
}

#[test]
fn first_install_event_floors_at_fifty() {
    let mut tracker = ProgressTracker::new(1);
    tracker.update_install_progress("vim", 0);
    assert_eq!(tracker.get_current_progress(), 50);
}

#[test]
fn install_floor_applies_to_incomplete_download() {
    let mut tracker = ProgressTracker::new(1);
    tracker.update_download_progress("vim.tar.zst", 1, 1000);
    assert_eq!(tracker.get_current_progress(), 0);
    tracker.update_install_progress("vim", 0);
    assert_eq!(tracker.get_current_progress(), 50);
}

#[test]
fn fully_installed_single_package_is_one_hundred() {
    let mut tracker = ProgressTracker::new(1);
    tracker.update_install_progress("vim", 100);
    assert_eq!(tracker.get_current_progress(), 100);
}

#[test]
fn fresh_tracker_reports_zero() {
    assert_eq!(ProgressTracker::new(5).get_current_progress(), 0);
    assert_eq!(ProgressTracker::new(0).get_current_progress(), 0);
}

#[test]
fn single_download_follows_the_formula() {
    // 7 / 9 * 100 / 6 = 12.96...
    let mut tracker = ProgressTracker::new(3);
    tracker.update_download_progress("x.tar.zst", 7, 9);
    assert_eq!(tracker.get_current_progress(), 12);
    // a complete download of the only package is exactly the download half
    let mut done = ProgressTracker::new(1);
    done.update_download_progress("x.tar.zst", 9, 9);
    assert_eq!(done.get_current_progress(), 50);
}

#[test]
fn single_download_stays_within_the_download_half() {
    for n in 1..6usize {
        for total in 1..40usize {
            for downloaded in 0..=total {
                let mut tracker = ProgressTracker::new(n);
                tracker.update_download_progress("x.tar.zst", downloaded, total);
                let percent = tracker.get_current_progress();
                assert_eq!(percent, downloaded * 100 / (total * 2 * n));
                assert!(percent <= 50);
            }
        }
    }
}

#[test]
fn sum_is_exact_where_binary_fractions_are_not() {
    // 58 / 100 * 100 / 2 is 29 exactly
    let mut tracker = ProgressTracker::new(1);
    tracker.update_download_progress("x.tar.zst", 58, 100);
    assert_eq!(tracker.get_current_progress(), 29);
    // three thirds are one whole
    let mut thirds = ProgressTracker::new(1);
    thirds.update_download_progress("a.tar.zst", 1, 3);
    thirds.update_download_progress("b.tar.zst", 1, 3);
    thirds.update_download_progress("c.tar.zst", 1, 3);
    assert_eq!(thirds.get_current_progress(), 50);
}

#[test]
fn sum_is_rounded_down_once_not_per_entry() {
    // each entry is 12.5; rounded per entry the sum would be 24
    let mut tracker = ProgressTracker::new(4);
    tracker.update_download_progress("a.tar.zst", 1, 1);
    tracker.update_download_progress("b.tar.zst", 1, 1);
    assert_eq!(tracker.get_current_progress(), 25);
}

#[test]
fn downloads_and_installs_add_up() {
    let mut tracker = ProgressTracker::new(2);
    tracker.update_download_progress("a.tar.zst", 10, 10);
    tracker.update_download_progress("b.tar.zst", 20, 20);
    assert_eq!(tracker.get_current_progress(), 50);
    tracker.update_install_progress("a", 100);
    assert_eq!(tracker.get_current_progress(), 75);
    tracker.update_install_progress("b", 50);
    assert_eq!(tracker.get_current_progress(), 87);
    tracker.update_install_progress("b", 100);
    assert_eq!(tracker.get_current_progress(), 100);
}

#[test]
fn percentage_is_capped_at_one_hundred() {
    let mut tracker = ProgressTracker::new(1);
    tracker.update_download_progress("a.tar.zst", 10, 10);
    tracker.update_download_progress("b.tar.zst", 10, 10);
    tracker.update_download_progress("c.tar.zst", 10, 10);
    assert_eq!(tracker.get_current_progress(), 100);
    tracker.update_install_progress("a", 100);
    tracker.update_install_progress("b", 100);
    assert_eq!(tracker.get_current_progress(), 100);
    let mut over = ProgressTracker::new(1);
    over.update_download_progress("a.tar.zst", 5000, 10);
    assert_eq!(over.get_current_progress(), 100);
    let mut huge = ProgressTracker::new(1);
    huge.update_install_progress("a", usize::MAX);
    huge.update_install_progress("b", usize::MAX);
    assert_eq!(huge.get_current_progress(), 100);
}

#[test]
fn percentage_stays_in_range_over_a_run_of_events() {
    let mut tracker = ProgressTracker::new(3);
    let names = ["a.tar.zst", "b.tar.zst", "c.tar.zst"];
    for step in 0..=10usize {
        for name in names {
            tracker.update_download_progress(name, step * 37, 370);
            assert!(tracker.get_current_progress() <= 100);
        }
    }
    assert_eq!(tracker.get_current_progress(), 50);
    for step in 0..=10usize {
        for name in ["a", "b", "c"] {
            tracker.update_install_progress(name, step * 10);
            let percent = tracker.get_current_progress();
            assert!(percent >= 50 && percent <= 100);
        }
    }
    assert_eq!(tracker.get_current_progress(), 100);
}

#[test]
fn recording_the_same_download_twice_changes_nothing() {
    let mut tracker = ProgressTracker::new(2);
    tracker.update_download_progress("a.tar.zst", 300, 1000);
    tracker.update_download_progress("b.tar.zst", 700, 1000);
    let once = tracker.get_current_progress();
    tracker.update_download_progress("a.tar.zst", 300, 1000);
    tracker.update_download_progress("b.tar.zst", 700, 1000);
    assert_eq!(tracker.get_current_progress(), once);
    assert_eq!(once, 25);
}

#[test]
fn recording_the_same_install_twice_changes_nothing() {
    let mut tracker = ProgressTracker::new(2);
    tracker.update_install_progress("a", 40);
    let once = tracker.get_current_progress();
    tracker.update_install_progress("a", 40);
    assert_eq!(tracker.get_current_progress(), once);
    assert_eq!(once, 60);
}

#[test]
fn later_download_event_replaces_the_earlier_one() {
    let mut tracker = ProgressTracker::new(1);
    tracker.update_download_progress("a.tar.zst", 100, 1000);
    assert_eq!(tracker.get_current_progress(), 5);
    tracker.update_download_progress("a.tar.zst", 900, 1000);
    assert_eq!(tracker.get_current_progress(), 45);
    // a smaller value replaces a larger one as well
    tracker.update_download_progress("a.tar.zst", 200, 1000);
    assert_eq!(tracker.get_current_progress(), 10);
}

#[test]
fn later_install_event_replaces_the_earlier_one() {
    let mut tracker = ProgressTracker::new(1);
    tracker.update_install_progress("a", 20);
    assert_eq!(tracker.get_current_progress(), 60);
    tracker.update_install_progress("a", 80);
    assert_eq!(tracker.get_current_progress(), 90);
}

#[test]
fn installs_are_kept_apart_from_downloads_of_the_same_name() {
    let mut tracker = ProgressTracker::new(1);
    tracker.update_download_progress("a", 1, 2);
    tracker.update_install_progress("a", 10);
    assert_eq!(tracker.get_current_progress(), 55);
}

#[test]
fn zero_of_zero_bytes_has_no_value_while_downloading() {
    let mut tracker = ProgressTracker::new(1);
    tracker.update_download_progress("a.tar.zst", 0, 0);
    assert_eq!(tracker.get_current_progress(), 0);
    tracker.update_download_progress("b.tar.zst", 10, 10);
    assert_eq!(tracker.get_current_progress(), 0);
    // once the file has a size the value is back
    tracker.update_download_progress("a.tar.zst", 0, 10);
    assert_eq!(tracker.get_current_progress(), 50);
}

#[test]
fn download_without_value_counts_as_fifty_once_installing() {
    let mut tracker = ProgressTracker::new(1);
    tracker.update_download_progress("a.tar.zst", 0, 0);
    assert_eq!(tracker.get_current_progress(), 0);
    tracker.update_install_progress("a", 0);
    assert_eq!(tracker.get_current_progress(), 50);
    tracker.update_install_progress("a", 40);
    assert_eq!(tracker.get_current_progress(), 70);
    tracker.update_install_progress("a", 100);
    assert_eq!(tracker.get_current_progress(), 100);
    let mut two = ProgressTracker::new(2);
    two.update_download_progress("a.tar.zst", 0, 0);
    two.update_download_progress("b.tar.zst", 10, 10);
    two.update_install_progress("b", 50);
    // 50 + 50 / 4 = 62.5
    assert_eq!(two.get_current_progress(), 62);
    // with a size for the first file: 50 + 50 / 4 as well, both halves exact
    two.update_download_progress("a.tar.zst", 10, 10);
    assert_eq!(two.get_current_progress(), 62);
}

#[test]
fn any_install_event_lifts_the_percentage_to_fifty() {
    let sizes = [(0usize, 0usize), (0, 7), (3, 7), (7, 7), (9, 0), (usize::MAX, 1)];
    for n in 0..4usize {
        for first in sizes {
            for second in sizes {
                for percent in [0usize, 1, 50, 100, usize::MAX] {
                    let mut tracker = ProgressTracker::new(n);
                    tracker.update_download_progress("a.tar.zst", first.0, first.1);
                    tracker.update_download_progress("b.tar.zst", second.0, second.1);
                    tracker.update_install_progress("a", percent);
                    let now = tracker.get_current_progress();
                    assert!(now >= 50 && now <= 100);
                    tracker.update_download_progress("a.tar.zst", second.0, second.1);
                    let later = tracker.get_current_progress();
                    assert!(later >= 50 && later <= 100);
                }
            }
        }
    }
}

#[test]
fn bytes_of_a_file_without_size_are_unbounded() {
    let mut tracker = ProgressTracker::new(4);
    tracker.update_download_progress("a.tar.zst", 1, 0);
    assert_eq!(tracker.get_current_progress(), 100);
    tracker.update_download_progress("b.tar.zst", 0, 0);
    assert_eq!(tracker.get_current_progress(), 0);
}

#[test]
fn transaction_of_no_packages() {
    let mut downloading = ProgressTracker::new(0);
    downloading.update_download_progress("a.tar.zst", 5, 10);
    assert_eq!(downloading.get_current_progress(), 100);
    downloading.update_download_progress("b.tar.zst", 0, 10);
    assert_eq!(downloading.get_current_progress(), 0);
    let mut installing = ProgressTracker::new(0);
    installing.update_install_progress("a", 5);
    assert_eq!(installing.get_current_progress(), 100);
    // an install share without value leaves the floor
    installing.update_install_progress("b", 0);
    assert_eq!(installing.get_current_progress(), 50);
    let mut nothing = ProgressTracker::new(0);
    nothing.update_download_progress("a.tar.zst", 5, 10);
    nothing.update_install_progress("a", 0);
    assert_eq!(nothing.get_current_progress(), 50);
}

#[test]
fn sizes_at_the_machine_limit() {
    let mut tracker = ProgressTracker::new(4);
    let names = ["a.tar.zst", "b.tar.zst", "c.tar.zst", "d.tar.zst"];
    for name in names {
        tracker.update_download_progress(name, usize::MAX, usize::MAX);
    }
    assert_eq!(tracker.get_current_progress(), 50);
    tracker.update_download_progress("d.tar.zst", usize::MAX - 1, usize::MAX);
    assert_eq!(tracker.get_current_progress(), 49);
    tracker.update_download_progress("d.tar.zst", usize::MAX / 2, usize::MAX);
    assert_eq!(tracker.get_current_progress(), 43);
}

#[test]
fn many_files_with_unlike_sizes() {
    let n = 40usize;
    let mut tracker = ProgressTracker::new(n);
    let mut expected_num: u128 = 0;
    for i in 0..n {
        let name = format!("pkg{}.tar.zst", i);
        // every file is half done, whatever its size
        let total = 1_000_003usize * (i + 1) * 2;
        tracker.update_download_progress(&name, total / 2, total);
        expected_num += 50;
    }
    assert_eq!(tracker.get_current_progress() as u128, expected_num / (2 * n as u128));
    assert_eq!(tracker.get_current_progress(), 25);
}

#[test]
fn order_of_the_records_does_not_matter() {
    let files = [("a.tar.zst", 1usize, 3usize), ("b.tar.zst", 2, 7), ("c.tar.zst", 5, 11)];
    let packages = [("a", 10usize), ("b", 35), ("c", 60)];
    let orders = [[0usize, 1, 2], [0, 2, 1], [1, 0, 2], [1, 2, 0], [2, 0, 1], [2, 1, 0]];
    for order in orders {
        let mut downloading = ProgressTracker::new(3);
        for i in order {
            downloading.update_download_progress(files[i].0, files[i].1, files[i].2);
        }
        // (1/3 + 2/7 + 5/11) * 100 / 6 = 17.89...
        assert_eq!(downloading.get_current_progress(), 17);
        let mut installing = ProgressTracker::new(3);
        for i in order {
            installing.update_install_progress(packages[i].0, packages[i].1);
        }
        // 50 + 105 / 6 = 67.5
        assert_eq!(installing.get_current_progress(), 67);
    }
}

#[test]
fn progress_of_a_file_or_a_package_never_lowers_the_percentage() {
    for n in 0..4usize {
        for total in [0usize, 1, 7, 1000] {
            let mut tracker = ProgressTracker::new(n);
            tracker.update_download_progress("a.tar.zst", 3, 9);
            tracker.update_download_progress("b.tar.zst", 0, total);
            let mut last = tracker.get_current_progress();
            for downloaded in [0usize, 1, 2, 7, 500, 1000, 5000] {
                tracker.update_download_progress("b.tar.zst", downloaded, total);
                let now = tracker.get_current_progress();
                assert!(now >= last);
                last = now;
            }
            tracker.update_install_progress("a", 0);
            tracker.update_install_progress("b", 0);
            let mut last = tracker.get_current_progress();
            for percent in [0usize, 10, 50, 99, 100] {
                for name in ["a", "b"] {
                    tracker.update_install_progress(name, percent);
                    let now = tracker.get_current_progress();
                    assert!(now >= last);
                    last = now;
                }
            }
        }
    }
}

#[test]
fn an_event_that_reports_less_can_lower_the_percentage() {
    let mut tracker = ProgressTracker::new(1);
    tracker.update_download_progress("a.tar.zst", 800, 1000);
    assert_eq!(tracker.get_current_progress(), 40);
    tracker.update_download_progress("a.tar.zst", 200, 1000);
    assert_eq!(tracker.get_current_progress(), 10);
}
