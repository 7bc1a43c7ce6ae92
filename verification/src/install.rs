//! Installing or updating the addon.
//!
//! The procedure checks that the ESP is a mounted FAT filesystem, records
//! the official Limine image's checksum, validates the addon image, finds
//! the ESP's disk and partition, and reads the firmware's boot order. It
//! refuses to touch an installation made on another ESP or addon files that
//! no recorded installation owns. It then saves a recovery record, reuses
//! or creates the addon's firmware entry, checks that the firmware kept its
//! boot order, records the installation, writes the image, the manager and
//! the package hook, and finally checks that the official Limine image is
//! unchanged.

use vstd::prelude::*;
use vstd::string::*;
use vstd::utf8::encode_utf8;
use crate::bootmgr::{boot_order, find_entry, listed_boot_order, listed_entry};
use crate::digest::{hash, hex_lower, sha256};
use crate::error::Error;
use crate::image::{image_check, validate_image};
use crate::procedure::{Answer, AnswerView, Place, PlaceView, Request, RequestView, State, StateView};
use crate::text::{all_decimal, all_decimal_digits, chars_of, copy_strings, lemma_deeper_path_differs, owned, path_components, paths_equal, same_path, same_strings, string_views};

verus! {

broadcast use vstd::string::group_string_axioms;

/// The package manager hook that checks the installation after updates.
pub open spec fn hook_text() -> Seq<char> {
    "[Trigger]\nOperation = Install\nOperation = Upgrade\nType = Package\nTarget = limine\nTarget = limine-mkinitcpio-hook\nTarget = omarchy\n\n[Action]\nDescription = Verify liminescreen without modifying Limine\nWhen = PostTransaction\nExec = /usr/local/bin/liminescreenctl repair\n"@
}

/// Permission bits of the recovery record's files.
pub const PRIVATE_MODE: u32 = 0o600;

/// Permission bits of the addon image and the hook.
pub const PUBLIC_MODE: u32 = 0o644;

/// Permission bits of the installed manager.
pub const EXECUTABLE_MODE: u32 = 0o755;

/// Where an installation stands: what answer it waits for.
#[derive(Debug, Clone, Copy, PartialEq, Eq, Structural)]
pub enum InstallStage {
    /// The ESP's filesystem type.
    FsType,
    /// The official Limine image, before anything is written.
    OfficialBefore,
    /// The image to install.
    Image,
    /// The device the ESP is mounted from.
    Source,
    /// The disk that holds that device.
    Disk,
    /// The ESP's partition number.
    Partition,
    /// The firmware listing.
    Listing,
    /// Whether an installation record exists.
    StateExists,
    /// The installation record.
    Previous,
    /// Whether addon files exist that no record owns.
    Unowned,
    /// The new backup directory.
    BackupDir,
    /// The listing saved in the recovery record.
    BackupFirmware,
    /// Whether an addon image is installed.
    DestExists,
    /// The installed addon image.
    OldImage,
    /// The installed addon image saved in the recovery record.
    OldImageSaved,
    /// The installation record's bytes.
    OldState,
    /// The installation record saved in the recovery record.
    OldStateSaved,
    /// The command that created the addon's entry.
    Created,
    /// The listing after the entry was created.
    NewListing,
    /// The boot order after the entry was found or created.
    CheckOrder,
    /// The new installation record written.
    Saved,
    /// The addon image written.
    ImageWritten,
    /// Whether the running manager is its installed copy.
    IsTool,
    /// The manager's own executable.
    OwnExe,
    /// The manager installed.
    ToolWritten,
    /// The hook written.
    HookWritten,
    /// The official Limine image, after everything was written.
    OfficialAfter,
    /// The first report line printed.
    Reported,
    /// The second report line printed.
    Finishing,
    /// Over.
    Finished,
}

/// An installation in progress.
#[derive(Debug)]
pub struct Installation {
    stage: InstallStage,
    esp: String,
    official_before: String,
    image: Vec<u8>,
    source: String,
    disk: String,
    partition: String,
    listing: String,
    original_order: Vec<String>,
    previous: Option<State>,
    backup: String,
    entry: String,
}

/// The contents of an `Installation`.
pub struct InstallationView {
    pub stage: InstallStage,
    /// The ESP's canonical path.
    pub esp: Seq<char>,
    /// The official Limine image's checksum before anything was written.
    pub official_before: Seq<char>,
    /// The image to install.
    pub image: Seq<u8>,
    /// The device the ESP is mounted from.
    pub source: Seq<char>,
    /// The disk that holds it.
    pub disk: Seq<char>,
    /// The ESP's partition number.
    pub partition: Seq<char>,
    /// The firmware listing read before any change.
    pub listing: Seq<char>,
    /// The boot order read before any change.
    pub original_order: Seq<Seq<char>>,
    /// The installation record, if one existed.
    pub previous: Option<StateView>,
    /// The backup directory.
    pub backup: Seq<char>,
    /// The addon's firmware entry.
    pub entry: Seq<char>,
}

/// The view of an optional record.
pub open spec fn optional_state(s: Option<State>) -> Option<StateView> {
    match s {
        Some(v) => Some(v@),
        None => None,
    }
}

impl View for Installation {
    type V = InstallationView;

    closed spec fn view(&self) -> InstallationView {
        InstallationView {
            stage: self.stage,
            esp: self.esp@,
            official_before: self.official_before@,
            image: self.image@,
            source: self.source@,
            disk: self.disk@,
            partition: self.partition@,
            listing: self.listing@,
            original_order: string_views(self.original_order@),
            previous: optional_state(self.previous),
            backup: self.backup@,
            entry: self.entry@,
        }
    }
}

/// The view of `v` moved to `stage`.
pub open spec fn at(v: InstallationView, stage: InstallStage) -> InstallationView {
    InstallationView { stage, ..v }
}

/// The procedure ends with `outcome`.
pub open spec fn finish(v: InstallationView, outcome: Result<(), Error>) -> (InstallationView, RequestView) {
    (at(v, InstallStage::Finished), RequestView::Finish(outcome))
}

/// The record written by the installation: the previous record, or a new
/// disabled one with the boot order found, naming the entry and the image's
/// checksum.
pub open spec fn new_record(v: InstallationView) -> StateView {
    let base = match v.previous {
        Some(p) => p,
        None => StateView {
            esp: v.esp,
            enabled: false,
            original_order: v.original_order,
            entry: Seq::<char>::empty(),
            image_sha256: Seq::<char>::empty(),
        },
    };
    StateView { entry: v.entry, image_sha256: hex_lower(sha256(v.image)), ..base }
}

/// Once the recovery record is saved: find the addon's entry in the
/// listing, or create it.
pub open spec fn entry_phase(v: InstallationView) -> (InstallationView, RequestView) {
    match listed_entry(v.listing) {
        Err(e) => finish(v, Err(e)),
        Ok(Some(entry)) => (
            InstallationView { stage: InstallStage::CheckOrder, entry, ..v },
            RequestView::Run(seq!["efibootmgr"@]),
        ),
        Ok(None) => (
            at(v, InstallStage::Created),
            RequestView::Run(
                seq![
                    "efibootmgr"@,
                    "--create-only"@,
                    "--disk"@,
                    v.disk,
                    "--part"@,
                    v.partition,
                    "--label"@,
                    "liminescreen"@,
                    "--loader"@,
                    "\\EFI\\liminescreen\\liminescreen.efi"@,
                ],
            ),
        ),
    }
}

/// The first report line.
pub open spec fn installed_message(entry: Seq<char>, checksum: Seq<char>) -> Seq<char> {
    "installed entry "@ + entry + "; official limine checksum unchanged: "@ + checksum
}

/// The second report line.
pub open spec fn recovery_message(backup: Seq<char>) -> Seq<char> {
    "recovery record: "@ + backup
}

/// A new installation on the ESP at `esp`.
pub open spec fn started(esp: Seq<char>) -> InstallationView {
    InstallationView {
        stage: InstallStage::FsType,
        esp,
        official_before: Seq::<char>::empty(),
        image: Seq::<u8>::empty(),
        source: Seq::<char>::empty(),
        disk: Seq::<char>::empty(),
        partition: Seq::<char>::empty(),
        listing: Seq::<char>::empty(),
        original_order: Seq::<Seq<char>>::empty(),
        previous: None,
        backup: Seq::<char>::empty(),
        entry: Seq::<char>::empty(),
    }
}

/// Whether an installation standing at `v` takes `answer` next.
pub open spec fn takes(v: InstallationView, answer: AnswerView) -> bool {
    match v.stage {
        InstallStage::FsType | InstallStage::Source | InstallStage::Disk | InstallStage::Partition
        | InstallStage::Listing | InstallStage::BackupDir | InstallStage::Created
        | InstallStage::NewListing | InstallStage::CheckOrder => answer is Output,
        InstallStage::OfficialBefore | InstallStage::Image | InstallStage::OldImage
        | InstallStage::OldState | InstallStage::OwnExe | InstallStage::OfficialAfter => answer is Bytes,
        InstallStage::StateExists | InstallStage::Unowned | InstallStage::DestExists
        | InstallStage::IsTool => answer is Flag,
        InstallStage::Previous => answer is Loaded,
        InstallStage::BackupFirmware | InstallStage::OldImageSaved | InstallStage::OldStateSaved
        | InstallStage::Saved | InstallStage::ImageWritten | InstallStage::ToolWritten
        | InstallStage::HookWritten | InstallStage::Reported | InstallStage::Finishing => answer is Done,
        InstallStage::Finished => false,
    }
}

/// One step of an installation: where it goes and what it asks for, given
/// the answer to its previous request.
pub open spec fn install_step(v: InstallationView, answer: AnswerView) -> (InstallationView, RequestView) {
    match v.stage {
        InstallStage::FsType => if answer->Output_0 != "vfat"@ {
            finish(v, Err(Error::NotFat))
        } else {
            (at(v, InstallStage::OfficialBefore), RequestView::Read(PlaceView::OfficialLoader(v.esp)))
        },
        InstallStage::OfficialBefore => (
            InstallationView {
                stage: InstallStage::Image,
                official_before: hex_lower(sha256(answer->Bytes_0)),
                ..v
            },
            RequestView::Read(PlaceView::NewImage),
        ),
        InstallStage::Image => match image_check(answer->Bytes_0) {
            Err(e) => finish(v, Err(e)),
            Ok(_) => (
                InstallationView { stage: InstallStage::Source, image: answer->Bytes_0, ..v },
                RequestView::Run(
                    seq!["findmnt"@, "-n"@, "-o"@, "SOURCE"@, "--mountpoint"@, v.esp],
                ),
            ),
        },
        InstallStage::Source => (
            InstallationView { stage: InstallStage::Disk, source: answer->Output_0, ..v },
            RequestView::Run(seq!["lsblk"@, "-n"@, "-o"@, "PKNAME"@, answer->Output_0]),
        ),
        InstallStage::Disk => (
            InstallationView {
                stage: InstallStage::Partition,
                disk: "/dev/"@ + answer->Output_0,
                ..v
            },
            RequestView::Run(seq!["lsblk"@, "-n"@, "-o"@, "PARTN"@, v.source]),
        ),
        InstallStage::Partition => {
            let number = answer->Output_0;
            if number.len() == 0 || !all_decimal(number) {
                finish(v, Err(Error::UnknownPartition))
            } else {
                (
                    InstallationView { stage: InstallStage::Listing, partition: number, ..v },
                    RequestView::Run(seq!["efibootmgr"@, "-v"@]),
                )
            }
        },
        InstallStage::Listing => match listed_boot_order(answer->Output_0) {
            Err(e) => finish(v, Err(e)),
            Ok(order) => (
                InstallationView {
                    stage: InstallStage::StateExists,
                    listing: answer->Output_0,
                    original_order: order,
                    ..v
                },
                RequestView::Exists(seq![PlaceView::StateFile]),
            ),
        },
        InstallStage::StateExists => if answer->Flag_0 {
            (at(v, InstallStage::Previous), RequestView::LoadState)
        } else {
            (
                at(v, InstallStage::Unowned),
                RequestView::Exists(
                    seq![
                        PlaceView::AddonImage(v.esp),
                        PlaceView::InstalledTool,
                        PlaceView::UpdateHook,
                    ],
                ),
            )
        },
        InstallStage::Previous => if !paths_equal(answer->Loaded_0.esp, v.esp) {
            finish(v, Err(Error::OtherEsp))
        } else {
            (
                InstallationView {
                    stage: InstallStage::BackupDir,
                    previous: Some(answer->Loaded_0),
                    ..v
                },
                RequestView::MakeBackupDir,
            )
        },
        InstallStage::Unowned => if answer->Flag_0 {
            finish(v, Err(Error::UnownedFiles))
        } else {
            (at(v, InstallStage::BackupDir), RequestView::MakeBackupDir)
        },
        InstallStage::BackupDir => (
            InstallationView { stage: InstallStage::BackupFirmware, backup: answer->Output_0, ..v },
            RequestView::Write(
                PlaceView::Backup(answer->Output_0, "firmware.txt"@),
                encode_utf8(v.listing),
                PRIVATE_MODE,
            ),
        ),
        InstallStage::BackupFirmware => (
            at(v, InstallStage::DestExists),
            RequestView::Exists(seq![PlaceView::AddonImage(v.esp)]),
        ),
        InstallStage::DestExists => if answer->Flag_0 {
            (at(v, InstallStage::OldImage), RequestView::Read(PlaceView::AddonImage(v.esp)))
        } else {
            entry_phase(v)
        },
        InstallStage::OldImage => (
            at(v, InstallStage::OldImageSaved),
            RequestView::Write(
                PlaceView::Backup(v.backup, "liminescreen.efi"@),
                answer->Bytes_0,
                PRIVATE_MODE,
            ),
        ),
        InstallStage::OldImageSaved => (
            at(v, InstallStage::OldState),
            RequestView::Read(PlaceView::StateFile),
        ),
        InstallStage::OldState => (
            at(v, InstallStage::OldStateSaved),
            RequestView::Write(
                PlaceView::Backup(v.backup, "state.json"@),
                answer->Bytes_0,
                PRIVATE_MODE,
            ),
        ),
        InstallStage::OldStateSaved => entry_phase(v),
        InstallStage::Created => (at(v, InstallStage::NewListing), RequestView::Run(seq!["efibootmgr"@, "-v"@])),
        InstallStage::NewListing => match listed_entry(answer->Output_0) {
            Err(e) => finish(v, Err(e)),
            Ok(None) => finish(v, Err(Error::EntryNotCreated)),
            Ok(Some(entry)) => (
                InstallationView { stage: InstallStage::CheckOrder, entry, ..v },
                RequestView::Run(seq!["efibootmgr"@]),
            ),
        },
        InstallStage::CheckOrder => match listed_boot_order(answer->Output_0) {
            Err(e) => finish(v, Err(e)),
            Ok(order) => if order != v.original_order {
                finish(v, Err(Error::BootOrderChanged))
            } else {
                (
                    InstallationView { stage: InstallStage::Saved, previous: None, ..v },
                    RequestView::SaveState(new_record(v)),
                )
            },
        },
        InstallStage::Saved => (
            at(v, InstallStage::ImageWritten),
            RequestView::Write(PlaceView::AddonImage(v.esp), v.image, PUBLIC_MODE),
        ),
        InstallStage::ImageWritten => (at(v, InstallStage::IsTool), RequestView::IsInstalledTool),
        InstallStage::IsTool => if answer->Flag_0 {
            (
                at(v, InstallStage::HookWritten),
                RequestView::Write(PlaceView::UpdateHook, encode_utf8(hook_text()), PUBLIC_MODE),
            )
        } else {
            (at(v, InstallStage::OwnExe), RequestView::Read(PlaceView::OwnExecutable))
        },
        InstallStage::OwnExe => (
            at(v, InstallStage::ToolWritten),
            RequestView::Write(PlaceView::InstalledTool, answer->Bytes_0, EXECUTABLE_MODE),
        ),
        InstallStage::ToolWritten => (
            at(v, InstallStage::HookWritten),
            RequestView::Write(PlaceView::UpdateHook, encode_utf8(hook_text()), PUBLIC_MODE),
        ),
        InstallStage::HookWritten => (
            at(v, InstallStage::OfficialAfter),
            RequestView::Read(PlaceView::OfficialLoader(v.esp)),
        ),
        InstallStage::OfficialAfter => if hex_lower(sha256(answer->Bytes_0)) != v.official_before {
            finish(v, Err(Error::OfficialChanged))
        } else {
            (
                at(v, InstallStage::Reported),
                RequestView::Print(installed_message(v.entry, v.official_before)),
            )
        },
        InstallStage::Reported => (
            at(v, InstallStage::Finishing),
            RequestView::Print(recovery_message(v.backup)),
        ),
        InstallStage::Finishing => finish(v, Ok(())),
        InstallStage::Finished => finish(v, Ok(())),
    }
}

/// Whether the image an installation at `v` holds has been validated, where
/// it matters: from the moment the image is kept until the procedure ends.
pub open spec fn image_validated(v: InstallationView) -> bool {
    match v.stage {
        InstallStage::FsType | InstallStage::OfficialBefore | InstallStage::Image
        | InstallStage::Finished => true,
        _ => image_check(v.image) is Ok,
    }
}

/// Only a validated x86_64 UEFI application is ever installed: a new
/// installation starts with nothing to write, every step keeps the image
/// it holds validated, and the one request that writes the addon image
/// writes a validated one.
pub proof fn lemma_only_valid_images_installed(v: InstallationView, answer: AnswerView)
    requires
        image_validated(v),
        takes(v, answer),
    ensures
        image_validated(install_step(v, answer).0),
        install_step(v, answer).1 matches RequestView::Write(PlaceView::AddonImage(_), data, _)
            ==> image_check(data) is Ok,
{
}

/// A new installation holds no image yet.
pub proof fn lemma_started_validated(esp: Seq<char>)
    ensures
        image_validated(started(esp)),
{
}

/// The installation never writes the official Limine image, nor the
/// addon image anywhere but on the ESP it was started on.
pub proof fn lemma_official_never_written(v: InstallationView, answer: AnswerView)
    ensures
        !(install_step(v, answer).1 matches RequestView::Write(PlaceView::OfficialLoader(_), _, _)),
        install_step(v, answer).1 matches RequestView::Write(PlaceView::AddonImage(esp), _, _) ==> esp
            == v.esp,
        install_step(v, answer).0.esp == v.esp,
{
}

/// Nothing is written on a first installation while addon files that no
/// record owns exist: the procedure stops instead.
pub proof fn lemma_unowned_files_refused(v: InstallationView)
    requires
        v.stage == InstallStage::Unowned,
    ensures
        install_step(v, AnswerView::Flag(true)) == finish(v, Err(Error::UnownedFiles)),
{
}

/// An installation goes on over an existing record only when the record
/// names the same ESP, paths compared component by component as `Path`'s
/// `==` compares them: a record made on another ESP stops it with
/// `OtherEsp`, and a record on the same ESP, however its path is written, is
/// kept as the base of the new record.
pub proof fn lemma_record_on_same_esp_only(v: InstallationView, record: StateView)
    requires
        v.stage == InstallStage::Previous,
    ensures
        path_components(record.esp) != path_components(v.esp) ==> install_step(
            v,
            AnswerView::Loaded(record),
        ) == finish(v, Err(Error::OtherEsp)),
        path_components(record.esp) == path_components(v.esp) ==> {
            &&& install_step(v, AnswerView::Loaded(record)).1 == RequestView::MakeBackupDir
            &&& install_step(v, AnswerView::Loaded(record)).0.previous == Some(record)
        },
{
}

/// An existing record made on a directory below the ESP being installed,
/// or above it, stops the installation.
pub proof fn lemma_nested_esp_refused(v: InstallationView, record: StateView, name: Seq<char>)
    requires
        v.stage == InstallStage::Previous,
        name.len() > 0,
        name != seq!['.'],
        !name.contains('/'),
        record.esp == v.esp + seq!['/'] + name || v.esp == record.esp + seq!['/'] + name,
    ensures
        install_step(v, AnswerView::Loaded(record)) == finish(v, Err(Error::OtherEsp)),
{
    if record.esp == v.esp + seq!['/'] + name {
        lemma_deeper_path_differs(v.esp, name);
    } else {
        lemma_deeper_path_differs(record.esp, name);
    }
}

/// The addon's record is written only after the firmware was seen to keep
/// the boot order found at the start, and it names the entry found and the
/// checksum of the image that is then written.
pub proof fn lemma_record_after_order_check(v: InstallationView, answer: AnswerView)
    requires
        takes(v, answer),
        install_step(v, answer).1 is SaveState,
    ensures
        v.stage == InstallStage::CheckOrder,
        listed_boot_order(answer->Output_0) == Ok::<Seq<Seq<char>>, Error>(v.original_order),
        install_step(v, answer).1->SaveState_0.entry == v.entry,
        install_step(v, answer).1->SaveState_0.image_sha256 == hex_lower(sha256(v.image)),
        install_step(v, answer).0.image == v.image,
{
}

fn output_of(answer: Answer) -> (text: String)
    requires
        answer@ is Output,
    ensures
        text@ == answer@->Output_0,
{
    match answer {
        Answer::Output(text) => text,
        _ => String::new(),
    }
}

fn bytes_of(answer: Answer) -> (data: Vec<u8>)
    requires
        answer@ is Bytes,
    ensures
        data@ == answer@->Bytes_0,
{
    match answer {
        Answer::Bytes(data) => data,
        _ => Vec::new(),
    }
}

fn flag_of(answer: &Answer) -> (flag: bool)
    requires
        answer@ is Flag,
    ensures
        flag == answer@->Flag_0,
{
    match answer {
        Answer::Flag(b) => *b,
        _ => false,
    }
}

fn state_of(answer: Answer) -> (state: State)
    requires
        answer@ is Loaded,
    ensures
        state@ == answer@->Loaded_0,
{
    match answer {
        Answer::Loaded(state) => state,
        _ => {
            assert(false);
            State {
                esp: String::new(),
                enabled: false,
                original_order: Vec::new(),
                entry: String::new(),
                image_sha256: String::new(),
            }
        },
    }
}

/// A command line of one word.
fn command1(program: &str) -> (args: Vec<String>)
    ensures
        string_views(args@) == seq![program@],
{
    let mut args: Vec<String> = Vec::new();
    args.push(owned(program));
    assert(string_views(args@) =~= seq![program@]);
    args
}

/// The command line `program a b c d`, then `last`.
fn command6(program: &str, a: &str, b: &str, c: &str, d: &str, last: String) -> (args: Vec<String>)
    ensures
        string_views(args@) == seq![program@, a@, b@, c@, d@, last@],
{
    let mut args: Vec<String> = Vec::new();
    args.push(owned(program));
    args.push(owned(a));
    args.push(owned(b));
    args.push(owned(c));
    args.push(owned(d));
    args.push(last);
    assert(string_views(args@) =~= seq![program@, a@, b@, c@, d@, last@]);
    args
}

/// The command line `lsblk -n -o column device`.
fn lsblk(column: &str, device: String) -> (args: Vec<String>)
    ensures
        string_views(args@) == seq!["lsblk"@, "-n"@, "-o"@, column@, device@],
{
    let mut args: Vec<String> = Vec::new();
    args.push(owned("lsblk"));
    args.push(owned("-n"));
    args.push(owned("-o"));
    args.push(owned(column));
    args.push(device);
    assert(string_views(args@) =~= seq!["lsblk"@, "-n"@, "-o"@, column@, device@]);
    args
}

/// The command line that creates the addon's firmware entry.
fn create_entry_command(disk: String, partition: String) -> (args: Vec<String>)
    ensures
        string_views(args@) == seq![
            "efibootmgr"@,
            "--create-only"@,
            "--disk"@,
            disk@,
            "--part"@,
            partition@,
            "--label"@,
            "liminescreen"@,
            "--loader"@,
            "\\EFI\\liminescreen\\liminescreen.efi"@,
        ],
{
    let mut args: Vec<String> = Vec::new();
    args.push(owned("efibootmgr"));
    args.push(owned("--create-only"));
    args.push(owned("--disk"));
    args.push(disk);
    args.push(owned("--part"));
    args.push(partition);
    args.push(owned("--label"));
    args.push(owned("liminescreen"));
    args.push(owned("--loader"));
    args.push(owned("\\EFI\\liminescreen\\liminescreen.efi"));
    assert(string_views(args@) =~= seq![
        "efibootmgr"@,
        "--create-only"@,
        "--disk"@,
        disk@,
        "--part"@,
        partition@,
        "--label"@,
        "liminescreen"@,
        "--loader"@,
        "\\EFI\\liminescreen\\liminescreen.efi"@,
    ]);
    args
}

/// The command line `efibootmgr -v`.
fn command_verbose_listing() -> (args: Vec<String>)
    ensures
        string_views(args@) == seq!["efibootmgr"@, "-v"@],
{
    let mut args: Vec<String> = Vec::new();
    args.push(owned("efibootmgr"));
    args.push(owned("-v"));
    assert(string_views(args@) =~= seq!["efibootmgr"@, "-v"@]);
    args
}

fn places1(p: Place) -> (v: Vec<Place>)
    ensures
        crate::procedure::place_views(v@) == seq![p@],
{
    let ghost pv = p@;
    let mut v: Vec<Place> = Vec::new();
    v.push(p);
    assert(crate::procedure::place_views(v@) =~= seq![pv]);
    v
}

fn hook_bytes() -> (data: Vec<u8>)
    ensures
        data@ == encode_utf8(hook_text()),
{
    "[Trigger]\nOperation = Install\nOperation = Upgrade\nType = Package\nTarget = limine\nTarget = limine-mkinitcpio-hook\nTarget = omarchy\n\n[Action]\nDescription = Verify liminescreen without modifying Limine\nWhen = PostTransaction\nExec = /usr/local/bin/liminescreenctl repair\n".as_bytes_vec()
}

impl Installation {
    /// Starts an installation on the ESP at `esp`, a canonical path: its
    /// filesystem type is asked for first.
    pub fn new(esp: String) -> (begun: (Self, Request))
        ensures
            begun.0@ == started(esp@),
            begun.1@ == RequestView::Run(
                seq!["findmnt"@, "-n"@, "-o"@, "FSTYPE"@, "--mountpoint"@, esp@],
            ),
    {
        let args = command6("findmnt", "-n", "-o", "FSTYPE", "--mountpoint", esp.clone());
        let installation = Installation {
            stage: InstallStage::FsType,
            esp,
            official_before: String::new(),
            image: Vec::new(),
            source: String::new(),
            disk: String::new(),
            partition: String::new(),
            listing: String::new(),
            original_order: Vec::new(),
            previous: None,
            backup: String::new(),
            entry: String::new(),
        };
        assert(string_views(installation.original_order@) =~= Seq::<Seq<char>>::empty());
        assert(installation@ == started(installation.esp@));
        (installation, Request::Run(args))
    }

    fn finished(self, outcome: Result<(), Error>) -> (next: (Self, Request))
        ensures
            (next.0@, next.1@) == finish(self@, outcome),
    {
        let mut s = self;
        s.stage = InstallStage::Finished;
        (s, Request::Finish(outcome))
    }

    fn moved(self, stage: InstallStage) -> (next: Self)
        ensures
            next@ == at(self@, stage),
    {
        let mut s = self;
        s.stage = stage;
        s
    }

    fn entry_phase(self) -> (next: (Self, Request))
        ensures
            (next.0@, next.1@) == entry_phase(self@),
    {
        match find_entry(self.listing.as_str()) {
            Err(e) => self.finished(Err(e)),
            Ok(Some(entry)) => {
                let mut s = self;
                s.stage = InstallStage::CheckOrder;
                s.entry = entry;
                (s, Request::Run(command1("efibootmgr")))
            },
            Ok(None) => {
                let args = create_entry_command(self.disk.clone(), self.partition.clone());
                (self.moved(InstallStage::Created), Request::Run(args))
            },
        }
    }

    /// Whether the installation takes `answer` next.
    pub fn accepts(&self, answer: &Answer) -> (ok: bool)
        ensures
            ok == takes(self@, answer@),
    {
        match self.stage {
            InstallStage::FsType | InstallStage::Source | InstallStage::Disk
            | InstallStage::Partition | InstallStage::Listing | InstallStage::BackupDir
            | InstallStage::Created | InstallStage::NewListing | InstallStage::CheckOrder => matches!(answer, Answer::Output(_)),
            InstallStage::OfficialBefore | InstallStage::Image | InstallStage::OldImage
            | InstallStage::OldState | InstallStage::OwnExe | InstallStage::OfficialAfter => matches!(answer, Answer::Bytes(_)),
            InstallStage::StateExists | InstallStage::Unowned | InstallStage::DestExists
            | InstallStage::IsTool => matches!(answer, Answer::Flag(_)),
            InstallStage::Previous => matches!(answer, Answer::Loaded(_)),
            InstallStage::BackupFirmware | InstallStage::OldImageSaved
            | InstallStage::OldStateSaved | InstallStage::Saved | InstallStage::ImageWritten
            | InstallStage::ToolWritten | InstallStage::HookWritten | InstallStage::Reported
            | InstallStage::Finishing => matches!(answer, Answer::Done),
            InstallStage::Finished => false,
        }
    }

    /// Takes the answer to the previous request and hands out the next one.
    pub fn resume(self, answer: Answer) -> (next: (Self, Request))
        requires
            takes(self@, answer@),
        ensures
            (next.0@, next.1@) == install_step(self@, answer@),
    {
        match self.stage {
            InstallStage::FsType => {
                let fs = output_of(answer);
                if fs != owned("vfat") {
                    return self.finished(Err(Error::NotFat));
                }
                let esp = self.esp.clone();
                (self.moved(InstallStage::OfficialBefore), Request::Read(Place::OfficialLoader(esp)))
            },
            InstallStage::OfficialBefore => {
                let data = bytes_of(answer);
                let mut s = self;
                s.official_before = hash(&data);
                s.stage = InstallStage::Image;
                (s, Request::Read(Place::NewImage))
            },
            InstallStage::Image => {
                let data = bytes_of(answer);
                match validate_image(&data) {
                    Err(e) => self.finished(Err(e)),
                    Ok(()) => {
                        let args = command6("findmnt", "-n", "-o", "SOURCE", "--mountpoint", self.esp.clone());
                        let mut s = self;
                        s.image = data;
                        s.stage = InstallStage::Source;
                        (s, Request::Run(args))
                    },
                }
            },
            InstallStage::Source => {
                let source = output_of(answer);
                let args = lsblk("PKNAME", source.clone());
                let mut s = self;
                s.source = source;
                s.stage = InstallStage::Disk;
                (s, Request::Run(args))
            },
            InstallStage::Disk => {
                let parent = output_of(answer);
                let mut disk = owned("/dev/");
                disk.append(parent.as_str());
                let args = lsblk("PARTN", self.source.clone());
                let mut s = self;
                s.disk = disk;
                s.stage = InstallStage::Partition;
                (s, Request::Run(args))
            },
            InstallStage::Partition => {
                let number = output_of(answer);
                let digits = chars_of(number.as_str());
                if digits.len() == 0 || !all_decimal_digits(&digits) {
                    return self.finished(Err(Error::UnknownPartition));
                }
                let mut s = self;
                s.partition = number;
                s.stage = InstallStage::Listing;
                (s, Request::Run(command_verbose_listing()))
            },
            InstallStage::Listing => {
                let listing = output_of(answer);
                match boot_order(listing.as_str()) {
                    Err(e) => self.finished(Err(e)),
                    Ok(order) => {
                        let mut s = self;
                        s.listing = listing;
                        s.original_order = order;
                        s.stage = InstallStage::StateExists;
                        (s, Request::Exists(places1(Place::StateFile)))
                    },
                }
            },
            InstallStage::StateExists => {
                if flag_of(&answer) {
                    (self.moved(InstallStage::Previous), Request::LoadState)
                } else {
                    let mut places: Vec<Place> = Vec::new();
                    places.push(Place::AddonImage(self.esp.clone()));
                    places.push(Place::InstalledTool);
                    places.push(Place::UpdateHook);
                    assert(crate::procedure::place_views(places@) =~= seq![
                        PlaceView::AddonImage(self.esp@),
                        PlaceView::InstalledTool,
                        PlaceView::UpdateHook,
                    ]);
                    (self.moved(InstallStage::Unowned), Request::Exists(places))
                }
            },
            InstallStage::Previous => {
                let previous = state_of(answer);
                if !same_path(previous.esp.as_str(), self.esp.as_str()) {
                    return self.finished(Err(Error::OtherEsp));
                }
                let mut s = self;
                s.previous = Some(previous);
                s.stage = InstallStage::BackupDir;
                (s, Request::MakeBackupDir)
            },
            InstallStage::Unowned => {
                if flag_of(&answer) {
                    return self.finished(Err(Error::UnownedFiles));
                }
                (self.moved(InstallStage::BackupDir), Request::MakeBackupDir)
            },
            InstallStage::BackupDir => {
                let dir = output_of(answer);
                let data = self.listing.as_str().as_bytes_vec();
                let place = Place::Backup(dir.clone(), owned("firmware.txt"));
                let mut s = self;
                s.backup = dir;
                s.stage = InstallStage::BackupFirmware;
                (s, Request::Write(place, data, PRIVATE_MODE))
            },
            InstallStage::BackupFirmware => {
                let place = Place::AddonImage(self.esp.clone());
                (self.moved(InstallStage::DestExists), Request::Exists(places1(place)))
            },
            InstallStage::DestExists => {
                if flag_of(&answer) {
                    let place = Place::AddonImage(self.esp.clone());
                    (self.moved(InstallStage::OldImage), Request::Read(place))
                } else {
                    self.entry_phase()
                }
            },
            InstallStage::OldImage => {
                let data = bytes_of(answer);
                let place = Place::Backup(self.backup.clone(), owned("liminescreen.efi"));
                (self.moved(InstallStage::OldImageSaved), Request::Write(place, data, PRIVATE_MODE))
            },
            InstallStage::OldImageSaved => {
                (self.moved(InstallStage::OldState), Request::Read(Place::StateFile))
            },
            InstallStage::OldState => {
                let data = bytes_of(answer);
                let place = Place::Backup(self.backup.clone(), owned("state.json"));
                (self.moved(InstallStage::OldStateSaved), Request::Write(place, data, PRIVATE_MODE))
            },
            InstallStage::OldStateSaved => self.entry_phase(),
            InstallStage::Created => {
                (self.moved(InstallStage::NewListing), Request::Run(command_verbose_listing()))
            },
            InstallStage::NewListing => {
                let listing = output_of(answer);
                match find_entry(listing.as_str()) {
                    Err(e) => self.finished(Err(e)),
                    Ok(None) => self.finished(Err(Error::EntryNotCreated)),
                    Ok(Some(entry)) => {
                        let mut s = self;
                        s.entry = entry;
                        s.stage = InstallStage::CheckOrder;
                        (s, Request::Run(command1("efibootmgr")))
                    },
                }
            },
            InstallStage::CheckOrder => {
                let listing = output_of(answer);
                match boot_order(listing.as_str()) {
                    Err(e) => self.finished(Err(e)),
                    Ok(order) => {
                        if !same_strings(&order, &self.original_order) {
                            return self.finished(Err(Error::BootOrderChanged));
                        }
                        let mut s = self;
                        let state = s.record();
                        s.stage = InstallStage::Saved;
                        (s, Request::SaveState(state))
                    },
                }
            },
            InstallStage::Saved => {
                let place = Place::AddonImage(self.esp.clone());
                let mut s = self;
                let data = s.image.clone();
                s.stage = InstallStage::ImageWritten;
                (s, Request::Write(place, data, PUBLIC_MODE))
            },
            InstallStage::ImageWritten => {
                (self.moved(InstallStage::IsTool), Request::IsInstalledTool)
            },
            InstallStage::IsTool => {
                if flag_of(&answer) {
                    (
                        self.moved(InstallStage::HookWritten),
                        Request::Write(Place::UpdateHook, hook_bytes(), PUBLIC_MODE),
                    )
                } else {
                    (self.moved(InstallStage::OwnExe), Request::Read(Place::OwnExecutable))
                }
            },
            InstallStage::OwnExe => {
                let data = bytes_of(answer);
                (
                    self.moved(InstallStage::ToolWritten),
                    Request::Write(Place::InstalledTool, data, EXECUTABLE_MODE),
                )
            },
            InstallStage::ToolWritten => {
                (
                    self.moved(InstallStage::HookWritten),
                    Request::Write(Place::UpdateHook, hook_bytes(), PUBLIC_MODE),
                )
            },
            InstallStage::HookWritten => {
                let place = Place::OfficialLoader(self.esp.clone());
                (self.moved(InstallStage::OfficialAfter), Request::Read(place))
            },
            InstallStage::OfficialAfter => {
                let data = bytes_of(answer);
                if hash(&data) != self.official_before {
                    return self.finished(Err(Error::OfficialChanged));
                }
                let mut line = owned("installed entry ");
                line.append(self.entry.as_str());
                line.append("; official limine checksum unchanged: ");
                line.append(self.official_before.as_str());
                (self.moved(InstallStage::Reported), Request::Print(line))
            },
            InstallStage::Reported => {
                let mut line = owned("recovery record: ");
                line.append(self.backup.as_str());
                (self.moved(InstallStage::Finishing), Request::Print(line))
            },
            InstallStage::Finishing => self.finished(Ok(())),
            InstallStage::Finished => self.finished(Ok(())),
        }
    }

    /// The record the installation writes.
    fn record(&mut self) -> (state: State)
        ensures
            state@ == new_record(old(self)@),
            final(self)@ == (InstallationView { previous: None, ..old(self)@ }),
    {
        let mut previous: Option<State> = None;
        std::mem::swap(&mut previous, &mut self.previous);
        let mut base = match previous {
            Some(p) => p,
            None => State {
                esp: self.esp.clone(),
                enabled: false,
                original_order: copy_strings(&self.original_order),
                entry: String::new(),
                image_sha256: String::new(),
            },
        };
        base.entry = self.entry.clone();
        base.image_sha256 = hash(&self.image);
        base
    }
}

} // verus!
