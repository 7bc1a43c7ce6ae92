use liminescreen::bootmgr::{boot_next, boot_order, desired_order, find_entry};
use liminescreen::error::Error;

const LOADER: &str = r"\EFI\liminescreen\liminescreen.efi";

#[test]
fn boot_entries_and_order_preserve_other_choices() {
    let original = boot_order("BootCurrent: 0004\nBootOrder: 0004,0000,2001").unwrap();
    let enabled = desired_order(&original, "0010", true);
    assert_eq!(enabled, ["0010", "0004", "0000", "2001"]);
    assert_eq!(desired_order(&enabled, "0010", true), enabled);
    assert_eq!(desired_order(&enabled, "0010", false), original);
    for path in [
        format!("File({LOADER})"),
        format!("HD(1,GPT,example)/{LOADER}"),
    ] {
        let text = format!("Boot0010* liminescreen\t{path}\n");
        assert_eq!(find_entry(&text).unwrap().as_deref(), Some("0010"));
        assert!(find_entry(&(text.clone() + &text)).is_err());
    }
    assert!(boot_order("BootOrder: invalid").is_err());
}

#[test]
fn boot_order_is_upper_case_and_checked() {
    assert_eq!(
        boot_order("BootOrder: 000a,2001\r\nBootNext: 0001\n").unwrap(),
        ["000A", "2001"]
    );
    assert_eq!(boot_order("BootCurrent: 0001\n"), Err(Error::NoBootOrder));
    assert_eq!(boot_order("BootOrder: "), Err(Error::InvalidBootOrder));
    assert_eq!(boot_order("BootOrder: 0001,,0002"), Err(Error::InvalidBootOrder));
    assert_eq!(boot_order("BootOrder: 00012"), Err(Error::InvalidBootOrder));
    assert_eq!(boot_order("BootOrder: 00g1"), Err(Error::InvalidBootOrder));
    // The first BootOrder line is the one read.
    assert_eq!(
        boot_order("BootOrder: 0003\nBootOrder: 0004").unwrap(),
        ["0003"]
    );
}

#[test]
fn addon_entries_need_the_label_and_the_loader() {
    let listing = format!(
        "BootCurrent: 0000\nBoot0000* Limine\tHD(1,GPT,x)/\\EFI\\limine\\limine_x64.efi\n\
         Boot000a* liminescreen\thd(1,gpt,x)/\\efi\\LIMINESCREEN\\liminescreen.EFI\n\
         Boot0011* liminescreenx\tHD(1,GPT,x)/{LOADER}\n\
         Boot0012* other\tHD(1,GPT,x)/{LOADER}\n\
         Boot0013  liminescreen\tHD(1,GPT,x)/\\EFI\\other.efi\n"
    );
    assert_eq!(find_entry(&listing).unwrap().as_deref(), Some("000A"));
    assert_eq!(find_entry("BootOrder: 0000\n").unwrap(), None);
    assert_eq!(find_entry("Bootxyz1* liminescreen\tFile(\\EFI\\liminescreen\\liminescreen.efi)\n").unwrap(), None);
    assert_eq!(
        find_entry(&format!("Boot0001* liminescreen\tFile({LOADER})\nBoot0002 liminescreen File({LOADER})\n")),
        Err(Error::AmbiguousEntry)
    );
}

#[test]
fn disabling_removes_only_the_addon() {
    let order: Vec<String> = ["0010", "0004", "0010", "0000"].iter().map(|s| s.to_string()).collect();
    assert_eq!(desired_order(&order, "0010", false), ["0004", "0000"]);
    assert_eq!(desired_order(&order, "0010", true), ["0010", "0004", "0000"]);
    assert!(desired_order(&["0010".to_string()], "0010", false).is_empty());
}

#[test]
fn boot_next_is_read_from_its_line() {
    assert_eq!(
        boot_next("BootCurrent: 0001\nBootNext: 0010\nBootOrder: 0001"),
        Some("0010".chars().collect())
    );
    assert_eq!(boot_next("BootOrder: 0001"), None);
}
