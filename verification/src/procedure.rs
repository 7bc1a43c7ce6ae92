//! What the install and management procedures ask of the system, and what
//! they are answered.
//!
//! A procedure is a step machine: it hands out one `Request` at a time, the
//! caller carries it out (runs a command, reads or writes a file, prints)
//! and hands back the `Answer`. A failure of the outside work itself ends
//! the procedure with that failure; the procedure's own refusals come as
//! `Request::Finish(Err(..))`.

use vstd::prelude::*;
use crate::error::Error;
use crate::text::string_views;

verus! {

/// The manager's record of an installation.
#[derive(Debug)]
pub struct State {
    /// The ESP the addon is installed on.
    pub esp: String,
    /// Whether the addon is first in the persistent boot order.
    pub enabled: bool,
    /// The boot order found at the first installation.
    pub original_order: Vec<String>,
    /// The number of the addon's firmware entry.
    pub entry: String,
    /// The SHA-256 checksum of the installed addon image.
    pub image_sha256: String,
}

/// The contents of a `State`.
pub struct StateView {
    pub esp: Seq<char>,
    pub enabled: bool,
    pub original_order: Seq<Seq<char>>,
    pub entry: Seq<char>,
    pub image_sha256: Seq<char>,
}

impl View for State {
    type V = StateView;

    open spec fn view(&self) -> StateView {
        StateView {
            esp: self.esp@,
            enabled: self.enabled,
            original_order: string_views(self.original_order@),
            entry: self.entry@,
            image_sha256: self.image_sha256@,
        }
    }
}

/// A file the procedures read, test or write.
#[derive(Debug)]
pub enum Place {
    /// The image given on the command line.
    NewImage,
    /// The official Limine image on the ESP at this path.
    OfficialLoader(String),
    /// The addon image on the ESP at this path.
    AddonImage(String),
    /// The manager's installation record.
    StateFile,
    /// The installed copy of the manager.
    InstalledTool,
    /// The package manager hook that repairs the installation.
    UpdateHook,
    /// The manager's own executable.
    OwnExecutable,
    /// The file with this name in the backup directory at this path.
    Backup(String, String),
}

/// The contents of a `Place`.
pub enum PlaceView {
    NewImage,
    OfficialLoader(Seq<char>),
    AddonImage(Seq<char>),
    StateFile,
    InstalledTool,
    UpdateHook,
    OwnExecutable,
    Backup(Seq<char>, Seq<char>),
}

impl View for Place {
    type V = PlaceView;

    open spec fn view(&self) -> PlaceView {
        match self {
            Place::NewImage => PlaceView::NewImage,
            Place::OfficialLoader(esp) => PlaceView::OfficialLoader(esp@),
            Place::AddonImage(esp) => PlaceView::AddonImage(esp@),
            Place::StateFile => PlaceView::StateFile,
            Place::InstalledTool => PlaceView::InstalledTool,
            Place::UpdateHook => PlaceView::UpdateHook,
            Place::OwnExecutable => PlaceView::OwnExecutable,
            Place::Backup(dir, name) => PlaceView::Backup(dir@, name@),
        }
    }
}

/// The views of a sequence of places.
pub open spec fn place_views(v: Seq<Place>) -> Seq<PlaceView> {
    v.map_values(|p: Place| p@)
}

/// One piece of outside work, or the end of a procedure.
#[derive(Debug)]
pub enum Request {
    /// Run this command line; answer with its standard output, trimmed.
    Run(Vec<String>),
    /// Read this file; answer with its bytes.
    Read(Place),
    /// Answer whether any of these files exists.
    Exists(Vec<Place>),
    /// Answer whether the running manager is its installed copy.
    IsInstalledTool,
    /// Read the installation record; answer with it.
    LoadState,
    /// Write the installation record.
    SaveState(State),
    /// Replace this file atomically with these bytes and permission bits.
    Write(Place, Vec<u8>, u32),
    /// Create a new backup directory; answer with its path.
    MakeBackupDir,
    /// Print this line.
    Print(String),
    /// The procedure is over, with this outcome.
    Finish(Result<(), Error>),
}

/// The contents of a `Request`.
pub enum RequestView {
    Run(Seq<Seq<char>>),
    Read(PlaceView),
    Exists(Seq<PlaceView>),
    IsInstalledTool,
    LoadState,
    SaveState(StateView),
    Write(PlaceView, Seq<u8>, u32),
    MakeBackupDir,
    Print(Seq<char>),
    Finish(Result<(), Error>),
}

impl View for Request {
    type V = RequestView;

    open spec fn view(&self) -> RequestView {
        match self {
            Request::Run(args) => RequestView::Run(string_views(args@)),
            Request::Read(place) => RequestView::Read(place@),
            Request::Exists(places) => RequestView::Exists(place_views(places@)),
            Request::IsInstalledTool => RequestView::IsInstalledTool,
            Request::LoadState => RequestView::LoadState,
            Request::SaveState(state) => RequestView::SaveState(state@),
            Request::Write(place, data, mode) => RequestView::Write(place@, data@, *mode),
            Request::MakeBackupDir => RequestView::MakeBackupDir,
            Request::Print(line) => RequestView::Print(line@),
            Request::Finish(outcome) => RequestView::Finish(*outcome),
        }
    }
}

/// The views of a sequence of requests.
pub open spec fn request_views(v: Seq<Request>) -> Seq<RequestView> {
    v.map_values(|r: Request| r@)
}

/// The result of a piece of outside work.
#[derive(Debug)]
pub enum Answer {
    /// A command's trimmed standard output, or a path.
    Output(String),
    /// A file's bytes.
    Bytes(Vec<u8>),
    /// A yes or no.
    Flag(bool),
    /// The installation record.
    Loaded(State),
    /// The work was done.
    Done,
}

/// The contents of an `Answer`.
pub enum AnswerView {
    Output(Seq<char>),
    Bytes(Seq<u8>),
    Flag(bool),
    Loaded(StateView),
    Done,
}

impl View for Answer {
    type V = AnswerView;

    open spec fn view(&self) -> AnswerView {
        match self {
            Answer::Output(text) => AnswerView::Output(text@),
            Answer::Bytes(data) => AnswerView::Bytes(data@),
            Answer::Flag(b) => AnswerView::Flag(*b),
            Answer::Loaded(state) => AnswerView::Loaded(state@),
            Answer::Done => AnswerView::Done,
        }
    }
}

/// Whether `answer` is the kind of answer that `request` calls for.
pub open spec fn answers(request: RequestView, answer: AnswerView) -> bool {
    match request {
        RequestView::Run(_) => answer is Output,
        RequestView::Read(_) => answer is Bytes,
        RequestView::Exists(_) => answer is Flag,
        RequestView::IsInstalledTool => answer is Flag,
        RequestView::LoadState => answer is Loaded,
        RequestView::SaveState(_) => answer is Done,
        RequestView::Write(_, _, _) => answer is Done,
        RequestView::MakeBackupDir => answer is Output,
        RequestView::Print(_) => answer is Done,
        RequestView::Finish(_) => false,
    }
}

/// Whether `answer` is the kind of answer that `request` calls for.
pub fn answers_request(request: &Request, answer: &Answer) -> (fits: bool)
    ensures
        fits == answers(request@, answer@),
{
    match (request, answer) {
        (Request::Run(_), Answer::Output(_)) => true,
        (Request::Read(_), Answer::Bytes(_)) => true,
        (Request::Exists(_), Answer::Flag(_)) => true,
        (Request::IsInstalledTool, Answer::Flag(_)) => true,
        (Request::LoadState, Answer::Loaded(_)) => true,
        (Request::SaveState(_), Answer::Done) => true,
        (Request::Write(_, _, _), Answer::Done) => true,
        (Request::MakeBackupDir, Answer::Output(_)) => true,
        (Request::Print(_), Answer::Done) => true,
        _ => false,
    }
}

} // verus!
