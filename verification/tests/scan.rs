use lfs_fetch::scan::{cache_marker, Entry, EntryKind, Scanner, Verdict, MAX_POINTER_FILE_SIZE};

fn file(depth: usize, size: u64) -> Entry {
    Entry { depth, kind: EntryKind::File, size: Some(size), has_marker: false }
}

fn dir(depth: usize) -> Entry {
    Entry { depth, kind: EntryKind::Directory, size: Some(4096), has_marker: false }
}

fn marked_dir(depth: usize) -> Entry {
    Entry { depth, kind: EntryKind::Directory, size: Some(4096), has_marker: true }
}

fn verdicts(walk: &[Entry]) -> Vec<Verdict> {
    let mut scanner = Scanner::new();
    let mut out = Vec::new();
    for entry in walk {
        out.push(scanner.visit(*entry));
    }
    out
}

#[test]
fn marker_and_limit_have_their_values() {
    assert_eq!(cache_marker(), "CACHEDIR.TAG");
    assert_eq!(MAX_POINTER_FILE_SIZE, 200);
}

#[test]
fn small_files_are_candidates() {
    assert_eq!(
        verdicts(&[file(1, 0), file(1, 1), file(1, 130), file(1, 199)]),
        vec![Verdict::Candidate, Verdict::Candidate, Verdict::Candidate, Verdict::Candidate]
    );
}

#[test]
fn files_of_200_bytes_or_more_are_left_out() {
    assert_eq!(
        verdicts(&[file(1, 200), file(1, 201), file(1, 4096), file(1, u64::MAX)]),
        vec![Verdict::Skip, Verdict::Skip, Verdict::Skip, Verdict::Skip]
    );
}

#[test]
fn entries_of_unknown_size_are_left_out() {
    let unknown = Entry { depth: 1, kind: EntryKind::File, size: None, has_marker: false };
    assert_eq!(verdicts(&[unknown]), vec![Verdict::Skip]);
}

#[test]
fn only_regular_files_are_candidates() {
    let small_dir = Entry { depth: 1, kind: EntryKind::Directory, size: Some(40), has_marker: false };
    let link = Entry { depth: 1, kind: EntryKind::Other, size: Some(12), has_marker: false };
    assert_eq!(verdicts(&[small_dir, link]), vec![Verdict::Skip, Verdict::Skip]);
}

#[test]
fn the_root_itself_is_left_out() {
    assert_eq!(verdicts(&[file(0, 10)]), vec![Verdict::Skip]);
    assert_eq!(verdicts(&[dir(0), file(1, 10)]), vec![Verdict::Skip, Verdict::Candidate]);
}

#[test]
fn a_marker_in_the_root_cuts_nothing_off() {
    assert_eq!(
        verdicts(&[marked_dir(0), file(1, 10), dir(1), file(2, 10)]),
        vec![Verdict::Skip, Verdict::Candidate, Verdict::Skip, Verdict::Candidate]
    );
}

#[test]
fn a_marked_directory_is_left_out_with_all_below_it() {
    let walk = [
        file(1, 10),
        marked_dir(1),
        file(2, 10),
        dir(2),
        file(3, 10),
        marked_dir(3),
        file(4, 10),
        file(2, 10),
        file(1, 10),
        dir(1),
        file(2, 10),
    ];
    assert_eq!(
        verdicts(&walk),
        vec![
            Verdict::Candidate,
            Verdict::Prune,
            Verdict::Skip,
            Verdict::Skip,
            Verdict::Skip,
            Verdict::Skip,
            Verdict::Skip,
            Verdict::Skip,
            Verdict::Candidate,
            Verdict::Skip,
            Verdict::Candidate,
        ]
    );
}

#[test]
fn a_walk_that_does_not_descend_into_marked_directories_gives_the_same() {
    let walk = [file(1, 10), marked_dir(1), file(1, 10), dir(1), marked_dir(2), file(2, 10)];
    assert_eq!(
        verdicts(&walk),
        vec![
            Verdict::Candidate,
            Verdict::Prune,
            Verdict::Candidate,
            Verdict::Skip,
            Verdict::Prune,
            Verdict::Candidate,
        ]
    );
}

#[test]
fn marked_directories_side_by_side_are_each_cut_off() {
    let walk = [marked_dir(1), file(2, 10), marked_dir(1), file(2, 10), dir(1), file(2, 10)];
    assert_eq!(
        verdicts(&walk),
        vec![
            Verdict::Prune,
            Verdict::Skip,
            Verdict::Prune,
            Verdict::Skip,
            Verdict::Skip,
            Verdict::Candidate,
        ]
    );
}

#[test]
fn a_marked_entry_that_is_no_directory_is_left_out() {
    let link = Entry { depth: 1, kind: EntryKind::Other, size: Some(12), has_marker: true };
    assert_eq!(verdicts(&[link, file(1, 10)]), vec![Verdict::Prune, Verdict::Candidate]);
}
