//! The state of one side of a transfer, and the decisions taken on it.

use vstd::prelude::*;
use vstd::utf8::*;
use crate::args::UserEnvironment;
use crate::chunks::{iteration_count, spec_iterations, BUFFER_SIZE};
use crate::decimal::{decimal_digits, format_decimal, lemma_decimal_roundtrip, parse_bounded, parse_unsigned};
use crate::paths::{file_name_of, join_path, path_file_name, path_joined};

verus! {

/// The kinds of entry a path can name.
#[derive(PartialEq, Eq, Structural, Clone, Copy, Debug)]
pub enum FileKind {
    Symlink,
    File,
    Dir,
    Other,
}

/// What the sender learns of the file to send.
#[derive(PartialEq, Eq, Structural, Clone, Copy, Debug)]
pub struct FileMeta {
    pub kind: FileKind,
    pub len: u64,
}

/// One side of a transfer.
#[derive(Debug)]
pub struct FileInfo {
    /// The file being sent, or being written.
    pub location: Option<String>,
    /// The location the user gave; restored after each receive.
    pub sign: Option<String>,
    /// The announced size of the file.
    pub size_total: u64,
    /// Bytes sent or received so far.
    pub size_current: u64,
    /// What was last learnt of the file to send.
    pub metadata: Option<FileMeta>,
    /// The last progress shown, in percent.
    pub progress: u8,
}

/// The header code of a symbolic link.
pub const KIND_SYMLINK: u8 = 100u8;
/// The header code of a regular file.
pub const KIND_FILE: u8 = 101u8;
/// The header code of a folder.
pub const KIND_FOLDER: u8 = 102u8;

pub open spec fn known_kind(t: u8) -> bool {
    t == KIND_SYMLINK || t == KIND_FILE || t == KIND_FOLDER
}

/// The state after `pass_user_environment`.
pub open spec fn passed(fi: FileInfo, env: UserEnvironment) -> FileInfo {
    FileInfo { location: env.location, sign: env.location, ..fi }
}

/// The state after `cleaning`.
pub open spec fn cleaned(fi: FileInfo) -> FileInfo {
    FileInfo { location: fi.sign, size_current: 0, ..fi }
}

/// Where a received file named `name` is written, given the current location.
pub open spec fn forged_location(location: Option<String>, name: Seq<char>) -> Seq<char> {
    match location {
        Some(base) => path_joined(base@, name),
        None => name,
    }
}

/// What the sender does once the file's metadata is known.
#[derive(PartialEq, Eq, Structural, Debug)]
pub enum ReadingAction {
    /// The metadata could not be read.
    NoMetadata,
    /// Symbolic links are not sent.
    SymlinkUnsupported,
    /// A regular file: send it.
    SendFile,
    /// Folders are not sent.
    FolderUnsupported,
    /// Neither file, folder nor link.
    UndefinedType,
}

/// The headers the sender announces a file with.
pub enum SendPlan {
    /// The entry code is none of the known ones: nothing is sent.
    UndefinedType,
    Headers {
        /// The entry code, in decimal.
        kind: Vec<u8>,
        /// The size, in decimal.
        size: Vec<u8>,
        /// The file's name; `None` when the path has no final component.
        name: Option<Vec<u8>>,
        /// How many chunks follow.
        iterations: u64,
    },
}

/// What the receiver does with an announced entry code.
#[derive(PartialEq, Eq, Structural, Debug)]
pub enum ReceiveStep {
    /// The location must be shown but there is none.
    LocationMissing,
    /// Unknown code: stop.
    UndefinedType,
    /// A symbolic link: create the entry, receive no data.
    Symlink,
    /// A regular file: create it and receive its data.
    File,
    /// A folder: create the entry and receive data as for a file.
    Folder,
}

/// The headers for an entry of code `what_type` and `size_total` bytes,
/// whose final path component is `name`.
pub open spec fn plan_matches(plan: SendPlan, what_type: u8, size_total: u64, name: Option<Seq<char>>) -> bool {
    match plan {
        SendPlan::UndefinedType => !known_kind(what_type),
        SendPlan::Headers { kind, size, name: sent_name, iterations } => {
            &&& known_kind(what_type)
            &&& kind@ == decimal_digits(what_type as nat)
            &&& size@ == decimal_digits(size_total as nat)
            &&& iterations == spec_iterations(size_total as nat)
            &&& (sent_name is Some <==> name is Some)
            &&& (sent_name matches Some(n) ==> n@ == encode_utf8(name.unwrap()))
        },
    }
}

/// The receiver's step for code `what_type`; the location is shown (and must
/// exist) for every unknown code, and for every known one in debug mode.
pub open spec fn spec_receive_step(what_type: u8, has_location: bool, debug: bool) -> ReceiveStep {
    if !has_location && (debug || !known_kind(what_type)) {
        ReceiveStep::LocationMissing
    } else if what_type == KIND_SYMLINK {
        ReceiveStep::Symlink
    } else if what_type == KIND_FILE {
        ReceiveStep::File
    } else if what_type == KIND_FOLDER {
        ReceiveStep::Folder
    } else {
        ReceiveStep::UndefinedType
    }
}

/// The headers for an entry, given the final component of its path.
pub fn plan_headers(what_type: u8, size_total: u64, name: Option<String>) -> (plan: SendPlan)
    ensures
        plan_matches(plan, what_type, size_total, match name { Some(n) => Some(n@), None => None }),
{
    if !(what_type == KIND_SYMLINK || what_type == KIND_FILE || what_type == KIND_FOLDER) {
        return SendPlan::UndefinedType;
    }
    let kind = format_decimal(what_type as u64);
    let size = format_decimal(size_total);
    let sent_name = match name {
        Some(n) => Some(vstd::slice::slice_to_vec(n.as_str().as_bytes())),
        None => None,
    };
    SendPlan::Headers { kind, size, name: sent_name, iterations: iteration_count(size_total) }
}

/// Reads the entry code of a received header.
pub fn header_kind(text: &str) -> (res: Option<u8>)
    ensures
        match parse_unsigned(encode_utf8(text@), 255) {
            Some(v) => res == Some(v as u8),
            None => res is None,
        },
{
    match parse_bounded(text.as_bytes(), 255) {
        Some(v) => Some(v as u8),
        None => None,
    }
}

/// Reads the size of a received header.
pub fn header_size(text: &str) -> (res: Option<u64>)
    ensures
        match parse_unsigned(encode_utf8(text@), u64::MAX as nat) {
            Some(v) => res == Some(v as u64),
            None => res is None,
        },
{
    parse_bounded(text.as_bytes(), u64::MAX)
}

/// Whether progress is shown at this point: when the number of chunks still
/// to come is a multiple of ten.
pub fn progress_due(iteration: u64) -> (due: bool)
    ensures
        due == (iteration % 10 == 0),
{
    iteration % 10 == 0
}

fn clone_location(location: &Option<String>) -> (res: Option<String>)
    ensures
        res == *location,
{
    match location {
        Some(l) => Some(l.clone()),
        None => None,
    }
}

impl FileInfo {
    /// Nothing known yet.
    pub fn new() -> (fi: FileInfo)
        ensures
            fi.location is None,
            fi.sign is None,
            fi.size_total == 0,
            fi.size_current == 0,
            fi.metadata is None,
            fi.progress == 0,
    {
        FileInfo { location: None, sign: None, size_total: 0, size_current: 0, metadata: None, progress: 0 }
    }

    /// Takes the location the user gave, both as the current one and as the
    /// one to come back to.
    pub fn pass_user_environment(&mut self, user_environment: &UserEnvironment)
        ensures
            *final(self) == passed(*old(self), *user_environment),
    {
        self.location = clone_location(&user_environment.location);
        self.sign = clone_location(&user_environment.location);
    }

    /// Goes back to the user's location and to a zero byte count.
    pub fn cleaning(&mut self)
        ensures
            *final(self) == cleaned(*old(self)),
    {
        self.location = clone_location(&self.sign);
        self.size_current = 0;
    }

    /// Keeps what reading the metadata gave; a failed read keeps what was known.
    pub fn record_metadata(&mut self, found: Option<FileMeta>)
        ensures
            final(self).metadata == (match found {
                Some(m) => Some(m),
                None => old(self).metadata,
            }),
            final(self).location == old(self).location,
            final(self).sign == old(self).sign,
            final(self).size_total == old(self).size_total,
            final(self).size_current == old(self).size_current,
            final(self).progress == old(self).progress,
    {
        if found.is_some() {
            self.metadata = found;
        }
    }

    /// What the sender does with the metadata it has.
    pub fn reading_action(&self) -> (action: ReadingAction)
        ensures
            action == (match self.metadata {
                None => ReadingAction::NoMetadata,
                Some(m) => match m.kind {
                    FileKind::Symlink => ReadingAction::SymlinkUnsupported,
                    FileKind::File => ReadingAction::SendFile,
                    FileKind::Dir => ReadingAction::FolderUnsupported,
                    FileKind::Other => ReadingAction::UndefinedType,
                },
            }),
    {
        match self.metadata {
            None => ReadingAction::NoMetadata,
            Some(m) => match m.kind {
                FileKind::Symlink => ReadingAction::SymlinkUnsupported,
                FileKind::File => ReadingAction::SendFile,
                FileKind::Dir => ReadingAction::FolderUnsupported,
                FileKind::Other => ReadingAction::UndefinedType,
            },
        }
    }

    /// Takes the size from the metadata and plans the headers that announce
    /// the file at the current location as an entry of code `what_type`.
    pub fn begin_send(&mut self, what_type: u8) -> (plan: SendPlan)
        requires
            old(self).metadata is Some,
            old(self).location is Some,
        ensures
            final(self).size_total == old(self).metadata.unwrap().len,
            final(self).location == old(self).location,
            final(self).sign == old(self).sign,
            final(self).size_current == old(self).size_current,
            final(self).metadata == old(self).metadata,
            final(self).progress == old(self).progress,
            plan_matches(
                plan,
                what_type,
                old(self).metadata.unwrap().len,
                path_file_name(old(self).location.unwrap()@),
            ),
    {
        let size_total: u64 = match self.metadata {
            Some(m) => m.len,
            None => 0,
        };
        self.size_total = size_total;
        let name = match &self.location {
            Some(l) => file_name_of(l.as_str()),
            None => None,
        };
        plan_headers(what_type, size_total, name)
    }

    /// The receiver's step for an announced entry code.
    pub fn receive_step(&self, what_type: u8, debug: bool) -> (step: ReceiveStep)
        ensures
            step == spec_receive_step(what_type, self.location is Some, debug),
    {
        let known = what_type == KIND_SYMLINK || what_type == KIND_FILE || what_type == KIND_FOLDER;
        if self.location.is_none() && (debug || !known) {
            ReceiveStep::LocationMissing
        } else if what_type == KIND_SYMLINK {
            ReceiveStep::Symlink
        } else if what_type == KIND_FILE {
            ReceiveStep::File
        } else if what_type == KIND_FOLDER {
            ReceiveStep::Folder
        } else {
            ReceiveStep::UndefinedType
        }
    }

    /// Decides where the received entry `name` is written and makes that the
    /// current location. Returns the folder to create first: the previous
    /// location, when there was one.
    pub fn forge_target(&mut self, name: String) -> (folder: Option<String>)
        ensures
            folder == old(self).location,
            final(self).location matches Some(l) && l@ == forged_location(old(self).location, name@),
            old(self).location matches Some(base) ==> (final(self).location matches Some(l) && l@
                == path_joined(base@, name@)),
            old(self).location is None ==> final(self).location == Some(name),
            final(self).sign == old(self).sign,
            final(self).size_total == old(self).size_total,
            final(self).size_current == old(self).size_current,
            final(self).metadata == old(self).metadata,
            final(self).progress == old(self).progress,
    {
        let folder = clone_location(&self.location);
        match &folder {
            Some(base) => {
                self.location = Some(join_path(base.as_str(), name.as_str()));
            },
            None => {
                self.location = Some(name);
            },
        }
        folder
    }

    /// Counts `n` more bytes sent or received.
    pub fn record_transfer(&mut self, n: u64)
        requires
            old(self).size_current + n <= u64::MAX,
        ensures
            final(self).size_current == old(self).size_current + n,
            final(self).location == old(self).location,
            final(self).sign == old(self).sign,
            final(self).size_total == old(self).size_total,
            final(self).metadata == old(self).metadata,
            final(self).progress == old(self).progress,
    {
        self.size_current = self.size_current + n;
    }

    /// Takes a newly computed progress; tells whether it differs from the
    /// last one shown (and so is to be shown).
    pub fn record_progress(&mut self, progress: u8) -> (changed: bool)
        ensures
            changed == (progress != old(self).progress),
            final(self).progress == progress,
            final(self).location == old(self).location,
            final(self).sign == old(self).sign,
            final(self).size_total == old(self).size_total,
            final(self).size_current == old(self).size_current,
            final(self).metadata == old(self).metadata,
    {
        if progress != self.progress {
            self.progress = progress;
            true
        } else {
            false
        }
    }
}

/// Whatever a receive wrote in between, cleaning afterwards brings back the
/// location the user gave and a zero byte count, ready for the next connection.
pub proof fn lemma_cleaning_restores_location(fi: FileInfo, env: UserEnvironment, during: FileInfo)
    requires
        during.sign == passed(fi, env).sign,
    ensures
        cleaned(during).location == env.location,
        cleaned(during).sign == env.location,
        cleaned(during).size_current == 0,
{
}

/// What the sender announces is what the receiver reads: when the texts the
/// receiver decoded carry the bytes of a planned entry code and size, the code
/// and the size read back are those planned, and a receiver with a location
/// takes the entry as the kind it was sent as.
pub proof fn lemma_announced_headers_read_back(
    what_type: u8,
    size_total: u64,
    kind_text: Seq<char>,
    size_text: Seq<char>,
    debug: bool,
)
    requires
        known_kind(what_type),
        encode_utf8(kind_text) == decimal_digits(what_type as nat),
        encode_utf8(size_text) == decimal_digits(size_total as nat),
    ensures
        parse_unsigned(encode_utf8(kind_text), 255) == Some(what_type as nat),
        parse_unsigned(encode_utf8(size_text), u64::MAX as nat) == Some(size_total as nat),
        what_type == KIND_SYMLINK ==> spec_receive_step(what_type, true, debug) == ReceiveStep::Symlink,
        what_type == KIND_FILE ==> spec_receive_step(what_type, true, debug) == ReceiveStep::File,
        what_type == KIND_FOLDER ==> spec_receive_step(what_type, true, debug) == ReceiveStep::Folder,
{
    lemma_decimal_roundtrip(what_type as nat, 255);
    lemma_decimal_roundtrip(size_total as nat, u64::MAX as nat);
}


/// A received entry goes under the receiving location, whatever that
/// location looks like: it is that location with the entry's name pushed
/// onto it; without a location the entry's name is used as it is.
pub proof fn lemma_forged_location(base: String, name: Seq<char>)
    ensures
        forged_location(Some(base), name) == path_joined(base@, name),
        forged_location(None, name) == name,
{
}

/// Which step each entry code leads to: with a location, code 100 is a link,
/// 101 a file, 102 a folder and every other code is refused; the location is
/// missing exactly when there is none and it would be shown (debug mode, or
/// an unknown code).
pub proof fn lemma_receive_step_codes(what_type: u8, has_location: bool, debug: bool)
    ensures
        (spec_receive_step(what_type, has_location, debug) == ReceiveStep::LocationMissing) <==> (
        !has_location && (debug || !(what_type == 100 || what_type == 101 || what_type == 102))),
        has_location ==> ((spec_receive_step(what_type, has_location, debug) == ReceiveStep::Symlink)
            <==> what_type == 100),
        has_location ==> ((spec_receive_step(what_type, has_location, debug) == ReceiveStep::File)
            <==> what_type == 101),
        has_location ==> ((spec_receive_step(what_type, has_location, debug) == ReceiveStep::Folder)
            <==> what_type == 102),
        has_location ==> ((spec_receive_step(what_type, has_location, debug)
            == ReceiveStep::UndefinedType) <==> !(what_type == 100 || what_type == 101 || what_type
            == 102)),
{
}

/// Planned headers say what they were planned for: the code and the size
/// read back as the code and size of the entry, the name is the UTF-8 of the
/// entry's name, and the chunks announced carry the whole size with less
/// than one chunk to spare; only the codes 100, 101 and 102 are announced.
pub proof fn lemma_planned_headers(plan: SendPlan, what_type: u8, size_total: u64, name: Option<Seq<char>>)
    requires
        plan_matches(plan, what_type, size_total, name),
    ensures
        (plan is Headers) <==> (what_type == 100 || what_type == 101 || what_type == 102),
        plan matches SendPlan::Headers { kind, size, name: sent, iterations } ==> {
            &&& parse_unsigned(kind@, 255) == Some(what_type as nat)
            &&& parse_unsigned(size@, u64::MAX as nat) == Some(size_total as nat)
            &&& (sent is Some <==> name is Some)
            &&& (sent matches Some(n) ==> decode_utf8(n@) == name.unwrap())
            &&& size_total < iterations * BUFFER_SIZE <= size_total + BUFFER_SIZE
        },
{
    lemma_decimal_roundtrip(what_type as nat, 255);
    lemma_decimal_roundtrip(size_total as nat, u64::MAX as nat);
    if let Some(nm) = name {
        vstd::utf8::encode_utf8_decode_utf8(nm);
    }
    let b = BUFFER_SIZE as nat;
    let st = size_total as nat;
    assert((st / b) * b + st % b == st) by (nonlinear_arith)
        requires
            b > 0,
    ;
    assert((st / b + 1) * b == (st / b) * b + b) by (nonlinear_arith);
}


/// Passing the user's settings makes their location both the current one
/// and the one to come back to, and touches nothing else.
pub proof fn lemma_passed(fi: FileInfo, env: UserEnvironment)
    ensures
        passed(fi, env).location == env.location,
        passed(fi, env).sign == env.location,
        passed(fi, env).size_total == fi.size_total,
        passed(fi, env).size_current == fi.size_current,
        passed(fi, env).metadata == fi.metadata,
        passed(fi, env).progress == fi.progress,
        cleaned(fi).location == fi.sign,
        cleaned(fi).sign == fi.sign,
        cleaned(fi).size_current == 0,
        cleaned(fi).size_total == fi.size_total,
        cleaned(fi).metadata == fi.metadata,
        cleaned(fi).progress == fi.progress,
{
}

} // verus!
