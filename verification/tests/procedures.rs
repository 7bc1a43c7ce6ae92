use liminescreen::cli::ManageAction;
use liminescreen::digest::hash;
use liminescreen::error::Error;
use liminescreen::install::Installation;
use liminescreen::manage::Management;
use liminescreen::procedure::{Answer, Place, Request, State};

const LISTING: &str = "BootCurrent: 0001\nBootOrder: 0001,0002\n\
Boot0001* Limine\tHD(1,GPT,x)/\\EFI\\limine\\limine_x64.efi\n\
Boot0010* liminescreen\tHD(1,GPT,x)/\\EFI\\liminescreen\\liminescreen.efi\n";

fn image() -> Vec<u8> {
    let mut data = vec![0; 256];
    data[..2].copy_from_slice(b"MZ");
    data[0x3c..0x40].copy_from_slice(&64u32.to_le_bytes());
    data[64..68].copy_from_slice(b"PE\0\0");
    data[68..70].copy_from_slice(&0x8664u16.to_le_bytes());
    data[88..90].copy_from_slice(&0x20bu16.to_le_bytes());
    data[156..158].copy_from_slice(&10u16.to_le_bytes());
    data
}

fn out(s: &str) -> Answer {
    Answer::Output(s.to_string())
}

fn strings(words: &[&str]) -> Vec<String> {
    words.iter().map(|w| w.to_string()).collect()
}

fn is_run(request: &Request, words: &[&str]) -> bool {
    matches!(request, Request::Run(args) if *args == strings(words))
}

fn install_step(machine: Installation, answer: Answer) -> (Installation, Request) {
    assert!(machine.accepts(&answer));
    machine.resume(answer)
}

fn manage_step(machine: Management, answer: Answer) -> (Management, Request) {
    assert!(machine.accepts(&answer));
    machine.resume(answer)
}

/// Walks a fresh installation up to its first check of the firmware
/// listing, answering `listing` to `efibootmgr -v`.
fn fresh_until_backup(listing: &str) -> (Installation, Request) {
    let (m, r) = Installation::new("/boot".to_string());
    assert!(is_run(&r, &["findmnt", "-n", "-o", "FSTYPE", "--mountpoint", "/boot"]));
    let (m, r) = install_step(m, out("vfat"));
    assert!(matches!(&r, Request::Read(Place::OfficialLoader(esp)) if esp == "/boot"));
    let (m, r) = install_step(m, Answer::Bytes(b"official".to_vec()));
    assert!(matches!(r, Request::Read(Place::NewImage)));
    let (m, r) = install_step(m, Answer::Bytes(image()));
    assert!(is_run(&r, &["findmnt", "-n", "-o", "SOURCE", "--mountpoint", "/boot"]));
    let (m, r) = install_step(m, out("/dev/nvme0n1p1"));
    assert!(is_run(&r, &["lsblk", "-n", "-o", "PKNAME", "/dev/nvme0n1p1"]));
    let (m, r) = install_step(m, out("nvme0n1"));
    assert!(is_run(&r, &["lsblk", "-n", "-o", "PARTN", "/dev/nvme0n1p1"]));
    let (m, r) = install_step(m, out("1"));
    assert!(is_run(&r, &["efibootmgr", "-v"]));
    let (m, r) = install_step(m, out(listing));
    assert!(matches!(&r, Request::Exists(places) if places.len() == 1 && matches!(places[0], Place::StateFile)));
    let (m, r) = install_step(m, Answer::Flag(false));
    assert!(matches!(&r, Request::Exists(places) if places.len() == 3));
    let (m, r) = install_step(m, Answer::Flag(false));
    assert!(matches!(r, Request::MakeBackupDir));
    let (m, r) = install_step(m, out("/var/lib/liminescreen/backup-1"));
    match &r {
        Request::Write(Place::Backup(dir, name), data, mode) => {
            assert_eq!(dir, "/var/lib/liminescreen/backup-1");
            assert_eq!(name, "firmware.txt");
            assert_eq!(data, listing.as_bytes());
            assert_eq!(*mode, 0o600);
        }
        other => panic!("unexpected {other:?}"),
    }
    let (m, r) = install_step(m, Answer::Done);
    assert!(matches!(&r, Request::Exists(places) if places.len() == 1));
    install_step(m, Answer::Flag(false))
}

#[test]
fn fresh_installation_creates_the_entry_and_keeps_official_limine() {
    let listing = "BootCurrent: 0001\nBootOrder: 0001,0002\n";
    let (m, r) = fresh_until_backup(listing);
    assert!(is_run(
        &r,
        &[
            "efibootmgr", "--create-only", "--disk", "/dev/nvme0n1", "--part", "1", "--label",
            "liminescreen", "--loader", "\\EFI\\liminescreen\\liminescreen.efi",
        ]
    ));
    let (m, r) = install_step(m, out(""));
    assert!(is_run(&r, &["efibootmgr", "-v"]));
    let (m, r) = install_step(m, out(LISTING));
    assert!(is_run(&r, &["efibootmgr"]));
    let (m, r) = install_step(m, out("BootOrder: 0001,0002"));
    match &r {
        Request::SaveState(state) => {
            assert_eq!(state.esp, "/boot");
            assert!(!state.enabled);
            assert_eq!(state.original_order, strings(&["0001", "0002"]));
            assert_eq!(state.entry, "0010");
            assert_eq!(state.image_sha256, hash(&image()));
        }
        other => panic!("unexpected {other:?}"),
    }
    let (m, r) = install_step(m, Answer::Done);
    assert!(matches!(&r, Request::Write(Place::AddonImage(esp), data, 0o644) if esp == "/boot" && *data == image()));
    let (m, r) = install_step(m, Answer::Done);
    assert!(matches!(r, Request::IsInstalledTool));
    let (m, r) = install_step(m, Answer::Flag(false));
    assert!(matches!(r, Request::Read(Place::OwnExecutable)));
    let (m, r) = install_step(m, Answer::Bytes(b"tool".to_vec()));
    assert!(matches!(&r, Request::Write(Place::InstalledTool, data, 0o755) if data == b"tool"));
    let (m, r) = install_step(m, Answer::Done);
    assert!(matches!(&r, Request::Write(Place::UpdateHook, data, 0o644)
        if String::from_utf8_lossy(data).ends_with("Exec = /usr/local/bin/liminescreenctl repair\n")));
    let (m, r) = install_step(m, Answer::Done);
    assert!(matches!(r, Request::Read(Place::OfficialLoader(_))));
    let (m, r) = install_step(m, Answer::Bytes(b"official".to_vec()));
    let expected = format!(
        "installed entry 0010; official limine checksum unchanged: {}",
        hash(b"official")
    );
    assert!(matches!(&r, Request::Print(line) if *line == expected));
    let (m, r) = install_step(m, Answer::Done);
    assert!(matches!(&r, Request::Print(line) if line == "recovery record: /var/lib/liminescreen/backup-1"));
    let (m, r) = install_step(m, Answer::Done);
    assert!(matches!(r, Request::Finish(Ok(()))));
    assert!(!m.accepts(&Answer::Done));
}

#[test]
fn installation_refuses_a_changed_official_limine() {
    let (m, r) = fresh_until_backup(LISTING);
    assert!(is_run(&r, &["efibootmgr"]));
    let (m, _) = install_step(m, out("BootOrder: 0001,0002"));
    let (m, _) = install_step(m, Answer::Done);
    let (m, _) = install_step(m, Answer::Done);
    let (m, r) = install_step(m, Answer::Flag(true));
    assert!(matches!(r, Request::Write(Place::UpdateHook, _, _)));
    let (m, _) = install_step(m, Answer::Done);
    let (_, r) = install_step(m, Answer::Bytes(b"changed".to_vec()));
    assert!(matches!(r, Request::Finish(Err(Error::OfficialChanged))));
}

#[test]
fn installation_refuses_a_changed_boot_order() {
    let (m, _) = fresh_until_backup(LISTING);
    let (_, r) = install_step(m, out("BootOrder: 0002,0001"));
    assert!(matches!(r, Request::Finish(Err(Error::BootOrderChanged))));
}

#[test]
fn installation_refuses_when_no_entry_appears() {
    let (m, _) = fresh_until_backup("BootOrder: 0001\n");
    let (m, _) = install_step(m, out(""));
    let (_, r) = install_step(m, out("BootOrder: 0001\n"));
    assert!(matches!(r, Request::Finish(Err(Error::EntryNotCreated))));
}

#[test]
fn installation_needs_a_fat_esp() {
    let (m, _) = Installation::new("/boot".to_string());
    let (m, r) = install_step(m, out("ext4"));
    assert!(matches!(r, Request::Finish(Err(Error::NotFat))));
    assert!(!m.accepts(&out("vfat")));
}

#[test]
fn installation_refuses_invalid_images_and_partitions() {
    let (m, _) = Installation::new("/boot".to_string());
    let (m, _) = install_step(m, out("vfat"));
    let (m, _) = install_step(m, Answer::Bytes(b"official".to_vec()));
    let (_, r) = install_step(m, Answer::Bytes(b"MZ".to_vec()));
    assert!(matches!(r, Request::Finish(Err(Error::NotPe))));

    let (m, _) = Installation::new("/boot".to_string());
    let (m, _) = install_step(m, out("vfat"));
    let (m, _) = install_step(m, Answer::Bytes(b"official".to_vec()));
    let (m, _) = install_step(m, Answer::Bytes(image()));
    let (m, _) = install_step(m, out("/dev/sda1"));
    let (m, _) = install_step(m, out("sda"));
    let (_, r) = install_step(m, out("1a"));
    assert!(matches!(r, Request::Finish(Err(Error::UnknownPartition))));
}

fn until_records(listing: &str) -> (Installation, Request) {
    let (m, _) = Installation::new("/boot".to_string());
    let (m, _) = install_step(m, out("vfat"));
    let (m, _) = install_step(m, Answer::Bytes(b"official".to_vec()));
    let (m, _) = install_step(m, Answer::Bytes(image()));
    let (m, _) = install_step(m, out("/dev/sda1"));
    let (m, _) = install_step(m, out("sda"));
    let (m, _) = install_step(m, out("1"));
    install_step(m, out(listing))
}

#[test]
fn installation_refuses_unowned_files_and_other_esps() {
    let (m, _) = until_records(LISTING);
    let (m, _) = install_step(m, Answer::Flag(false));
    let (_, r) = install_step(m, Answer::Flag(true));
    assert!(matches!(r, Request::Finish(Err(Error::UnownedFiles))));

    let (m, _) = until_records(LISTING);
    let (m, r) = install_step(m, Answer::Flag(true));
    assert!(matches!(r, Request::LoadState));
    let (_, r) = install_step(m, Answer::Loaded(record("/efi", false)));
    assert!(matches!(r, Request::Finish(Err(Error::OtherEsp))));

    let (_, r) = until_records("BootCurrent: 0001\n");
    assert!(matches!(r, Request::Finish(Err(Error::NoBootOrder))));
}

#[test]
fn reinstallation_backs_up_and_keeps_the_record() {
    let (m, _) = until_records(LISTING);
    let (m, _) = install_step(m, Answer::Flag(true));
    let (m, r) = install_step(m, Answer::Loaded(record("/boot", true)));
    assert!(matches!(r, Request::MakeBackupDir));
    let (m, _) = install_step(m, out("/b"));
    let (m, _) = install_step(m, Answer::Done);
    let (m, r) = install_step(m, Answer::Flag(true));
    assert!(matches!(r, Request::Read(Place::AddonImage(_))));
    let (m, r) = install_step(m, Answer::Bytes(b"old".to_vec()));
    assert!(matches!(&r, Request::Write(Place::Backup(d, n), data, 0o600) if d == "/b" && n == "liminescreen.efi" && data == b"old"));
    let (m, r) = install_step(m, Answer::Done);
    assert!(matches!(r, Request::Read(Place::StateFile)));
    let (m, r) = install_step(m, Answer::Bytes(b"{}".to_vec()));
    assert!(matches!(&r, Request::Write(Place::Backup(_, n), _, 0o600) if n == "state.json"));
    let (m, r) = install_step(m, Answer::Done);
    assert!(is_run(&r, &["efibootmgr"]));
    let (_, r) = install_step(m, out("BootOrder: 0001,0002"));
    match &r {
        Request::SaveState(state) => {
            assert!(state.enabled);
            assert_eq!(state.original_order, strings(&["0009"]));
            assert_eq!(state.entry, "0010");
            assert_eq!(state.image_sha256, hash(&image()));
        }
        other => panic!("unexpected {other:?}"),
    }
}

fn record(esp: &str, enabled: bool) -> State {
    State {
        esp: esp.to_string(),
        enabled,
        original_order: strings(&["0009"]),
        entry: "0010".to_string(),
        image_sha256: hash(&image()),
    }
}

/// Walks a management action through the record, the listing and the
/// image checks.
fn managed(action: ManageAction, state: State, listing: &str) -> (Management, Request) {
    let (m, r) = Management::new(action);
    assert!(matches!(r, Request::LoadState));
    let (m, r) = manage_step(m, Answer::Loaded(state));
    assert!(is_run(&r, &["efibootmgr", "-v"]));
    let (m, r) = manage_step(m, out(listing));
    if action == ManageAction::Disable || matches!(r, Request::Finish(_)) {
        return (m, r);
    }
    assert!(matches!(r, Request::Read(Place::OfficialLoader(_))));
    let (m, r) = manage_step(m, Answer::Bytes(b"official".to_vec()));
    assert!(matches!(r, Request::Read(Place::AddonImage(_))));
    manage_step(m, Answer::Bytes(image()))
}

#[test]
fn test_schedules_one_trial_boot() {
    let (m, r) = managed(ManageAction::Test, record("/boot", false), LISTING);
    assert!(is_run(&r, &["efibootmgr", "--bootnext", "0010"]));
    let (m, r) = manage_step(m, out(""));
    assert!(matches!(&r, Request::Print(line)
        if line == "next boot uses 0010 once; normal boot order is unchanged"));
    let (m, r) = manage_step(m, Answer::Done);
    assert!(matches!(r, Request::Finish(Ok(()))));
    assert!(!m.accepts(&Answer::Done));
}

#[test]
fn test_leaves_another_boot_next_alone() {
    let listing = format!("{LISTING}BootNext: 0001\n");
    let (_, r) = managed(ManageAction::Test, record("/boot", false), &listing);
    assert!(matches!(r, Request::Finish(Err(Error::OtherBootNext))));
    let listing = format!("{LISTING}BootNext: 0010\n");
    let (_, r) = managed(ManageAction::Test, record("/boot", false), &listing);
    assert!(is_run(&r, &["efibootmgr", "--bootnext", "0010"]));
}

#[test]
fn enable_records_and_puts_the_addon_first() {
    let (m, r) = managed(ManageAction::Enable, record("/boot", false), LISTING);
    assert!(matches!(&r, Request::SaveState(state) if state.enabled && state.entry == "0010"));
    let (m, r) = manage_step(m, Answer::Done);
    assert!(is_run(&r, &["efibootmgr", "--bootorder", "0010,0001,0002"]));
    let (m, r) = manage_step(m, out(""));
    assert!(matches!(&r, Request::Print(line)
        if line == "persistent addon selection: true; official target exists"));
    let (_, r) = manage_step(m, Answer::Done);
    assert!(matches!(r, Request::Finish(Ok(()))));
}

#[test]
fn disable_removes_the_addon_and_its_own_trial() {
    let listing = "BootOrder: 0010,0001\nBootNext: 0010\n\
Boot0010* liminescreen\tFile(\\EFI\\liminescreen\\liminescreen.efi)\n";
    let (m, r) = managed(ManageAction::Disable, record("/boot", true), listing);
    assert!(matches!(&r, Request::SaveState(state) if !state.enabled));
    let (m, r) = manage_step(m, Answer::Done);
    assert!(is_run(&r, &["efibootmgr", "--bootorder", "0001"]));
    let (m, r) = manage_step(m, out(""));
    assert!(is_run(&r, &["efibootmgr", "--delete-bootnext"]));
    let (m, r) = manage_step(m, out(""));
    assert!(matches!(&r, Request::Print(line)
        if line == "persistent addon selection: false; official target exists"));
    let (_, r) = manage_step(m, Answer::Done);
    assert!(matches!(r, Request::Finish(Ok(()))));
}

#[test]
fn disable_refuses_to_empty_the_boot_order() {
    let listing = "BootOrder: 0010\n\
Boot0010* liminescreen\tFile(\\EFI\\liminescreen\\liminescreen.efi)\n";
    let (m, _) = managed(ManageAction::Disable, record("/boot", true), listing);
    let (_, r) = manage_step(m, Answer::Done);
    assert!(matches!(r, Request::Finish(Err(Error::EmptyBootOrder))));
}

#[test]
fn repair_of_a_disabled_addon_changes_nothing() {
    let (m, r) = managed(ManageAction::Repair, record("/boot", false), LISTING);
    assert!(matches!(&r, Request::Print(line)
        if line == "persistent addon selection: false; official target exists"));
    let (_, r) = manage_step(m, Answer::Done);
    assert!(matches!(r, Request::Finish(Ok(()))));
}

#[test]
fn repair_restores_an_enabled_addon_first() {
    let (m, r) = managed(ManageAction::Repair, record("/boot", true), LISTING);
    assert!(is_run(&r, &["efibootmgr", "--bootorder", "0010,0001,0002"]));
    let listing = "BootOrder: 0010,0001\n\
Boot0010* liminescreen\tFile(\\EFI\\liminescreen\\liminescreen.efi)\n";
    drop(m);
    let (_, r) = managed(ManageAction::Repair, record("/boot", true), listing);
    assert!(matches!(r, Request::Print(_)));
}

#[test]
fn management_checks_the_entry_and_the_image() {
    let (_, r) = managed(ManageAction::Test, record("/boot", false), "BootOrder: 0001\n");
    assert!(matches!(r, Request::Finish(Err(Error::EntryChanged))));
    let mut changed = record("/boot", false);
    changed.image_sha256 = hash(b"other");
    let (_, r) = managed(ManageAction::Enable, changed, LISTING);
    assert!(matches!(r, Request::Finish(Err(Error::ImageChanged))));
}

#[test]
fn a_record_of_the_same_esp_written_otherwise_is_accepted() {
    let (m, _) = until_records(LISTING);
    let (m, _) = install_step(m, Answer::Flag(true));
    let (_, r) = install_step(m, Answer::Loaded(record("/boot/", false)));
    assert!(matches!(r, Request::MakeBackupDir));
}
