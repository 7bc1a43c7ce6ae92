//! The reasons the manager refuses to go on.

use vstd::prelude::*;
use vstd::string::*;

verus! {

/// Why an installation, a management action or a command line was refused.
#[derive(Debug, PartialEq, Eq)]
pub enum Error {
    /// No line of the firmware listing starts with `BootOrder: `.
    NoBootOrder,
    /// The `BootOrder` value is not a list of four-digit hexadecimal numbers.
    InvalidBootOrder,
    /// More than one firmware entry is the addon's.
    AmbiguousEntry,
    /// The image is too short or does not start with `MZ`.
    NotPe,
    /// The PE header offset is out of range or does not point at `PE\0\0`.
    InvalidPeHeader,
    /// The image is not an x86_64 UEFI application.
    WrongImageKind,
    /// The ESP is not a mounted FAT filesystem.
    NotFat,
    /// The ESP's partition number could not be read.
    UnknownPartition,
    /// A previous installation was made on another ESP.
    OtherEsp,
    /// Addon files exist that no recorded installation owns.
    UnownedFiles,
    /// The firmware did not list the entry that was created.
    EntryNotCreated,
    /// The firmware's `BootOrder` changed while the entry was created.
    BootOrderChanged,
    /// The official Limine image changed during installation.
    OfficialChanged,
    /// The recorded firmware entry is missing or is not the addon's.
    EntryChanged,
    /// The installed addon image is not the recorded one.
    ImageChanged,
    /// A one-time boot of another entry is already scheduled.
    OtherBootNext,
    /// The boot order to write would be empty.
    EmptyBootOrder,
    /// The action named on the command line is unknown.
    UnknownAction,
    /// `--esp` was given without a path.
    MissingEspPath,
    /// `--image` was given without a path.
    MissingImagePath,
    /// A command line argument is not understood.
    UnknownArgument(String),
    /// An installation was asked for without `--image`.
    ImageRequired,
    /// The manager does not run as root.
    NotRoot,
}

/// The sentence that describes `error`.
pub open spec fn description(error: Error) -> Seq<char> {
    match error {
            Error::NoBootOrder => "firmware has no readable BootOrder"@,
            Error::InvalidBootOrder => "invalid BootOrder"@,
            Error::AmbiguousEntry => "multiple addon entries; refusing ambiguous edits"@,
            Error::NotPe => "image is not a PE executable"@,
            Error::InvalidPeHeader => "invalid PE header"@,
            Error::WrongImageKind => "expected an x86_64 UEFI application"@,
            Error::NotFat => "ESP must be a mounted FAT filesystem"@,
            Error::UnknownPartition => "cannot identify the ESP partition"@,
            Error::OtherEsp => "an installation exists on a different ESP"@,
            Error::UnownedFiles => "existing unowned addon files; refusing to overwrite"@,
            Error::EntryNotCreated => "firmware did not create the addon entry"@,
            Error::BootOrderChanged => "firmware changed BootOrder unexpectedly; see the recovery record"@,
            Error::OfficialChanged => "official Limine changed during installation"@,
            Error::EntryChanged => "installed firmware entry is missing or changed"@,
            Error::ImageChanged => "addon image changed; reinstall before selecting it"@,
            Error::OtherBootNext => "another BootNext is scheduled; leaving it intact"@,
            Error::EmptyBootOrder => "refusing an empty BootOrder"@,
            Error::UnknownAction => "unknown action; run liminescreenctl help"@,
            Error::MissingEspPath => "--esp needs a path"@,
            Error::MissingImagePath => "--image needs a path"@,
            Error::UnknownArgument(arg) => "unknown argument: "@ + arg@,
            Error::ImageRequired => "installation requires --image"@,
            Error::NotRoot => "run through sudo or pkexec"@,
    }
}

impl Error {
    /// A sentence that tells the user what went wrong.
    pub fn message(&self) -> (text: String)
        ensures
            text@ == description(*self),
    {
        match self {
            Error::NoBootOrder => String::from_str("firmware has no readable BootOrder"),
            Error::InvalidBootOrder => String::from_str("invalid BootOrder"),
            Error::AmbiguousEntry => String::from_str(
                "multiple addon entries; refusing ambiguous edits",
            ),
            Error::NotPe => String::from_str("image is not a PE executable"),
            Error::InvalidPeHeader => String::from_str("invalid PE header"),
            Error::WrongImageKind => String::from_str("expected an x86_64 UEFI application"),
            Error::NotFat => String::from_str("ESP must be a mounted FAT filesystem"),
            Error::UnknownPartition => String::from_str("cannot identify the ESP partition"),
            Error::OtherEsp => String::from_str("an installation exists on a different ESP"),
            Error::UnownedFiles => String::from_str(
                "existing unowned addon files; refusing to overwrite",
            ),
            Error::EntryNotCreated => String::from_str("firmware did not create the addon entry"),
            Error::BootOrderChanged => String::from_str(
                "firmware changed BootOrder unexpectedly; see the recovery record",
            ),
            Error::OfficialChanged => String::from_str(
                "official Limine changed during installation",
            ),
            Error::EntryChanged => String::from_str("installed firmware entry is missing or changed"),
            Error::ImageChanged => String::from_str(
                "addon image changed; reinstall before selecting it",
            ),
            Error::OtherBootNext => String::from_str(
                "another BootNext is scheduled; leaving it intact",
            ),
            Error::EmptyBootOrder => String::from_str("refusing an empty BootOrder"),
            Error::UnknownAction => String::from_str("unknown action; run liminescreenctl help"),
            Error::MissingEspPath => String::from_str("--esp needs a path"),
            Error::MissingImagePath => String::from_str("--image needs a path"),
            Error::UnknownArgument(arg) => {
                let mut text = String::from_str("unknown argument: ");
                text.append(arg.as_str());
                text
            },
            Error::ImageRequired => String::from_str("installation requires --image"),
            Error::NotRoot => String::from_str("run through sudo or pkexec"),
        }
    }
}

} // verus!
