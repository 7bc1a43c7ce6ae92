use liminescreen::digest::{hash, to_hex};
use liminescreen::display::{
    classify_openers, driver_holds, graphics_child, graphics_step, is_display_controller, should_connect,
    GraphicsStep, ModeQuery, OpenerList, MAX_OPEN_ENTRIES,
};
use liminescreen::error::Error;
use liminescreen::lock::{lock_step, LockAttempt, LockStep, LOCK_RETRY_MS, LOCK_TIMEOUT_MS};
use liminescreen::text::{find_value, first_word, lines_of, same_path, trimmed};

fn chars(s: &str) -> Vec<char> {
    s.chars().collect()
}

#[test]
fn hash_of_nothing_is_the_known_digest() {
    assert_eq!(
        hash(b""),
        "e3b0c44298fc1c149afbf4c8996fb92427ae41e4649b934ca495991b7852b855"
    );
}

#[test]
fn hash_of_abc_is_the_known_digest() {
    assert_eq!(
        hash(b"abc"),
        "ba7816bf8f01cfea414140de5dae2223b00361a396177a9cb410ff61f20015ad"
    );
}

#[test]
fn hex_is_lower_case_two_digits_per_byte() {
    assert_eq!(to_hex(&[0x00, 0x0f, 0xa0, 0xff]), "000fa0ff");
    assert_eq!(to_hex(&[]), "");
}

#[test]
fn errors_read_as_the_manager_prints_them() {
    assert_eq!(Error::NotRoot.message(), "run through sudo or pkexec");
    assert_eq!(Error::EmptyBootOrder.message(), "refusing an empty BootOrder");
    assert_eq!(
        Error::UnknownArgument("--x".to_string()).message(),
        "unknown argument: --x"
    );
    assert_eq!(
        Error::OtherBootNext.message(),
        "another BootNext is scheduled; leaving it intact"
    );
}

#[test]
fn only_class_three_reads_are_displays() {
    assert!(is_display_controller(true, 0x03));
    assert!(!is_display_controller(false, 0x03));
    assert!(!is_display_controller(true, 0x02));
}

#[test]
fn opener_lists_are_checked_before_reading() {
    assert_eq!(classify_openers(0, false), OpenerList::Empty);
    assert_eq!(classify_openers(0, true), OpenerList::Empty);
    assert_eq!(classify_openers(3, false), OpenerList::Untrusted);
    assert_eq!(classify_openers(MAX_OPEN_ENTRIES + 1, true), OpenerList::Untrusted);
    assert_eq!(classify_openers(MAX_OPEN_ENTRIES, true), OpenerList::Readable(MAX_OPEN_ENTRIES));
}

#[test]
fn drivers_hold_by_driver_or_exclusive_opens() {
    assert!(!driver_holds(&[]));
    assert!(!driver_holds(&[0x01, 0x02, 0x04, 0x20]));
    assert!(driver_holds(&[0x01, 0x08]));
    assert!(driver_holds(&[0x10]));
}

#[test]
fn displays_without_graphics_are_connected_bound_or_not() {
    assert!(should_connect(Some(true), Some(false), Some(false)));
    assert!(should_connect(Some(true), Some(true), Some(false)));
    assert!(!should_connect(Some(true), Some(true), Some(true)));
    assert!(!should_connect(Some(true), Some(false), Some(true)));
    assert!(!should_connect(Some(true), None, Some(false)));
    assert!(!should_connect(Some(true), Some(false), None));
    assert!(!should_connect(Some(false), Some(false), Some(false)));
    assert!(!should_connect(None, Some(false), Some(false)));
}

const END: [u8; 4] = [0x7f, 0xff, 0x04, 0x00];

fn path(nodes: &[u8]) -> Vec<u8> {
    let mut bytes = nodes.to_vec();
    bytes.extend_from_slice(&END);
    bytes
}

#[test]
fn graphics_children_are_found_by_device_path() {
    let controller = path(&[1, 2, 3]);
    assert_eq!(graphics_child(&controller, &[]), Some(false));
    assert_eq!(graphics_child(&controller, &[path(&[1, 2, 3, 9])]), Some(true));
    assert_eq!(graphics_child(&controller, &[path(&[1, 2, 3])]), Some(true));
    assert_eq!(graphics_child(&controller, &[path(&[1, 2]), path(&[4, 2, 3, 1])]), Some(false));
    assert_eq!(graphics_child(&[1, 2, 3], &[path(&[1, 2, 3, 9])]), None);
    assert_eq!(graphics_child(&controller, &[path(&[1, 2, 3, 9]), vec![1, 2]]), None);
}

#[test]
fn only_unstarted_graphics_are_started() {
    assert_eq!(
        graphics_step(ModeQuery::Answered { info_returned: true }),
        GraphicsStep::Leave { free_info: true }
    );
    assert_eq!(
        graphics_step(ModeQuery::Answered { info_returned: false }),
        GraphicsStep::Leave { free_info: false }
    );
    assert_eq!(graphics_step(ModeQuery::NotStarted), GraphicsStep::StartModeZero);
    assert_eq!(graphics_step(ModeQuery::Failed), GraphicsStep::ReportFailure);
}

#[test]
fn command_output_is_trimmed() {
    assert_eq!(trimmed("  0\n"), "0");
    assert_eq!(trimmed("\t a b \r\n"), "a b");
    assert_eq!(trimmed("   "), "");
}

#[test]
fn lines_split_like_str_lines() {
    let lines = lines_of(&chars("a\r\nb\n\nc"));
    let expected: Vec<Vec<char>> = vec![chars("a"), chars("b"), chars(""), chars("c")];
    assert_eq!(lines, expected);
    assert!(lines_of(&chars("")).is_empty());
    assert_eq!(lines_of(&chars("x\n")), vec![chars("x")]);
}

#[test]
fn first_word_stops_at_whitespace() {
    assert_eq!(first_word(&chars("/dev/sda1 vfat")), chars("/dev/sda1"));
    assert_eq!(first_word(&chars(" x")), chars(""));
}

#[test]
fn values_come_from_the_first_matching_line() {
    let lines = vec![chars("BootCurrent: 0001"), chars("BootOrder: 0003,0001"), chars("BootOrder: 9")];
    assert_eq!(find_value(&lines, &chars("BootOrder: ")), Some(chars("0003,0001")));
    assert_eq!(find_value(&lines, &chars("BootNext: ")), None);
}

#[test]
fn paths_compare_by_components() {
    assert!(same_path("/boot", "/boot/"));
    assert!(same_path("/boot//efi/./", "/boot/efi"));
    assert!(!same_path("/boot", "/efi"));
    assert!(!same_path("/boot", "boot"));
    assert!(!same_path("./boot", "boot"));
    assert!(same_path("a/./b", "a/b"));
    assert!(!same_path("/boot/..", "/"));
}

#[test]
fn the_lock_is_retried_for_thirty_seconds() {
    assert_eq!(LOCK_TIMEOUT_MS, 30000);
    assert_eq!(lock_step(LockAttempt::Taken, 0), LockStep::Proceed);
    assert_eq!(lock_step(LockAttempt::Taken, 40000), LockStep::Proceed);
    assert_eq!(lock_step(LockAttempt::Busy, 0), LockStep::Retry(LOCK_RETRY_MS));
    assert_eq!(lock_step(LockAttempt::Busy, 29999), LockStep::Retry(100));
    assert_eq!(lock_step(LockAttempt::Busy, 30000), LockStep::GiveUp);
    assert_eq!(lock_step(LockAttempt::Failed, 0), LockStep::GiveUp);
}
