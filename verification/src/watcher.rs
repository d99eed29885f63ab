//! The vocabulary shared by every backend: what changed, and the name of
//! the entry it happened to.

use vstd::prelude::*;

verus! {

/// What happened to an entry under the watched root.
#[derive(Clone, Copy, Debug, PartialEq, Eq, Structural)]
pub enum FileChange {
    Created,
    Modified,
    Deleted,
    /// First half of a rename: the name the entry had.
    RenamedFrom,
    /// Second half of a rename: the name the entry has now.
    RenamedTo,
    Unknown,
}

/// How the watched root itself went away.
#[derive(Clone, Copy, Debug, PartialEq, Eq, Structural)]
pub enum RootEvent {
    Deleted,
    Moved,
}

/// A file name as the kernel wrote it: relative to the watched root, in the
/// platform's own text width, and not necessarily valid Unicode.
#[derive(Clone, Debug, PartialEq, Eq)]
pub enum NativeName {
    /// 8-bit path bytes.
    Bytes(Vec<u8>),
    /// 16-bit code units.
    Wide(Vec<u16>),
}

/// The units of a [`NativeName`].
pub enum NameView {
    Bytes(Seq<u8>),
    Wide(Seq<u16>),
}

impl View for NativeName {
    type V = NameView;

    open spec fn view(&self) -> NameView {
        match self {
            NativeName::Bytes(units) => NameView::Bytes(units@),
            NativeName::Wide(units) => NameView::Wide(units@),
        }
    }
}

/// One change, as handed to the consumer.
#[derive(Clone, Debug, PartialEq, Eq)]
pub struct FileChangeNotification {
    pub action: FileChange,
    pub file: NativeName,
}

/// A [`FileChangeNotification`] with the units of its name.
pub struct NotificationView {
    pub action: FileChange,
    pub file: NameView,
}

impl View for FileChangeNotification {
    type V = NotificationView;

    open spec fn view(&self) -> NotificationView {
        NotificationView { action: self.action, file: self.file@ }
    }
}

/// The views of a run of notifications, in the same order.
pub open spec fn views(run: Seq<FileChangeNotification>) -> Seq<NotificationView> {
    Seq::new(run.len(), |i: int| run[i]@)
}

/// Why decoding a buffer came to an end.
#[derive(Clone, Copy, Debug, PartialEq, Eq, Structural)]
pub enum DecodeEnd {
    /// Every filled byte belonged to a whole record, or the last record
    /// said that none follows.
    Complete,
    /// What was left at the cursor was not a whole record; it was dropped.
    Truncated,
    /// A record said that the watched root is gone. Nothing behind it was
    /// decoded.
    RootInvalidated(RootEvent),
}

/// What one buffer held.
#[derive(Clone, Debug, PartialEq, Eq)]
pub struct Decoded {
    /// One notification for each record, in the order of the records.
    pub notifications: Vec<FileChangeNotification>,
    pub end: DecodeEnd,
    /// The kernel said that it had more changes than it could report:
    /// some were lost before this buffer was filled.
    pub overflowed: bool,
}

/// A [`Decoded`] with the views of its notifications.
pub struct DecodedView {
    pub notifications: Seq<NotificationView>,
    pub end: DecodeEnd,
    pub overflowed: bool,
}

impl View for Decoded {
    type V = DecodedView;

    open spec fn view(&self) -> DecodedView {
        DecodedView {
            notifications: views(self.notifications@),
            end: self.end,
            overflowed: self.overflowed,
        }
    }
}

/// The text that `String::from_utf8_lossy` makes of a run of bytes.
pub uninterp spec fn utf8_lossy(bytes: Seq<u8>) -> Seq<char>;

/// The text that `String::from_utf16_lossy` makes of a run of 16-bit units.
pub uninterp spec fn utf16_lossy(units: Seq<u16>) -> Seq<char>;

/// Calls `String::from_utf8_lossy`, which decodes the bytes as UTF-8 and
/// puts U+FFFD in place of what is not. The text depends on the bytes
/// alone; the contract gives it a name and says no more of it.
#[verifier::external_body]
fn text_of_bytes(bytes: &Vec<u8>) -> (text: String)
    ensures
        text@ == utf8_lossy(bytes@),
{
    String::from_utf8_lossy(bytes).into_owned()
}

/// Calls `String::from_utf16_lossy`, which decodes the units as UTF-16 and
/// puts U+FFFD in place of what is not. The text depends on the units
/// alone; the contract gives it a name and says no more of it.
#[verifier::external_body]
fn text_of_wide(units: &Vec<u16>) -> (text: String)
    ensures
        text@ == utf16_lossy(units@),
{
    String::from_utf16_lossy(units)
}

/// A name as text, with U+FFFD for what is not valid in its encoding.
pub open spec fn lossy_text(name: NameView) -> Seq<char> {
    match name {
        NameView::Bytes(bytes) => utf8_lossy(bytes),
        NameView::Wide(units) => utf16_lossy(units),
    }
}

/// The word that stands for a kind of change in a rendered notification.
pub open spec fn label_of(action: FileChange) -> Seq<char> {
    match action {
        FileChange::Created => "Created"@,
        FileChange::Modified => "modified"@,
        FileChange::Deleted => "deleted"@,
        FileChange::RenamedFrom => "renamed old name"@,
        FileChange::RenamedTo => "renamed new name"@,
        FileChange::Unknown => "unknown"@,
    }
}

/// A notification as a line of text.
pub open spec fn rendered(action: FileChange, name: Seq<char>) -> Seq<char> {
    "Action: "@ + label_of(action) + ", File Name: "@ + name
}

impl FileChange {
    /// The word that stands for this kind of change in a rendered
    /// notification.
    pub fn label(&self) -> (word: &'static str)
        ensures
            word@ == label_of(*self),
    {
        match self {
            FileChange::Created => "Created",
            FileChange::Modified => "modified",
            FileChange::Deleted => "deleted",
            FileChange::RenamedFrom => "renamed old name",
            FileChange::RenamedTo => "renamed new name",
            FileChange::Unknown => "unknown",
        }
    }
}

/// Says whether two runs of bytes are the same.
fn same_bytes(left: &Vec<u8>, right: &Vec<u8>) -> (same: bool)
    ensures
        same == (left@ == right@),
{
    if left.len() != right.len() {
        return false;
    }
    let mut i: usize = 0;
    while i < left.len()
        invariant
            i <= left@.len(),
            left@.len() == right@.len(),
            forall|j: int| 0 <= j < i ==> left@[j] == right@[j],
        decreases left@.len() - i,
    {
        if left[i] != right[i] {
            return false;
        }
        i += 1;
    }
    assert(left@ =~= right@);
    true
}

/// Says whether two runs of 16-bit units are the same.
fn same_units(left: &Vec<u16>, right: &Vec<u16>) -> (same: bool)
    ensures
        same == (left@ == right@),
{
    if left.len() != right.len() {
        return false;
    }
    let mut i: usize = 0;
    while i < left.len()
        invariant
            i <= left@.len(),
            left@.len() == right@.len(),
            forall|j: int| 0 <= j < i ==> left@[j] == right@[j],
        decreases left@.len() - i,
    {
        if left[i] != right[i] {
            return false;
        }
        i += 1;
    }
    assert(left@ =~= right@);
    true
}

impl NativeName {
    /// Says whether two names have the same width and the same units.
    pub fn same_as(&self, other: &NativeName) -> (same: bool)
        ensures
            same == (self@ == other@),
    {
        match (self, other) {
            (NativeName::Bytes(left), NativeName::Bytes(right)) => same_bytes(left, right),
            (NativeName::Wide(left), NativeName::Wide(right)) => same_units(left, right),
            _ => false,
        }
    }

    /// The name as text, with U+FFFD for what is not valid in its encoding.
    pub fn to_text(&self) -> (text: String)
        ensures
            text@ == lossy_text(self@),
    {
        match self {
            NativeName::Bytes(bytes) => text_of_bytes(bytes),
            NativeName::Wide(units) => text_of_wide(units),
        }
    }
}

/// Renders a kind of change and a name that is already text as
/// `Action: <kind>, File Name: <name>`.
pub fn render(action: FileChange, name: &str) -> (line: String)
    ensures
        line@ == rendered(action, name@),
{
    let mut line = String::from_str("Action: ");
    line.append(action.label());
    line.append(", File Name: ");
    line.append(name);
    line
}

impl FileChangeNotification {
    /// The notification as `Action: <kind>, File Name: <name>`, the name
    /// made into text as [`NativeName::to_text`] does.
    pub fn to_string(&self) -> (line: String)
        ensures
            line@ == rendered(self.action, lossy_text(self.file@)),
    {
        let name = self.file.to_text();
        render(self.action, name.as_str())
    }
}

/// Why a root cannot be watched at all.
#[derive(Clone, Copy, Debug, PartialEq, Eq, Structural)]
pub enum ConfigError {
    /// The root is the empty string.
    EmptyRoot,
    /// The root holds a NUL, which no path handed to the kernel can.
    NulInRoot,
}

/// What to watch.
#[derive(Clone, Debug, PartialEq, Eq)]
pub struct WatchDog {
    /// The root of the watch.
    pub dir: String,
    /// Whether the entries below the root's own are watched too.
    pub watch_sub_dir: bool,
}

/// The verdict on a root, by its text alone: an empty root is refused
/// first, then one whose UTF-8 bytes hold a zero.
pub open spec fn root_verdict(dir: Seq<char>) -> Result<(), ConfigError> {
    if dir.len() == 0 {
        Err(ConfigError::EmptyRoot)
    } else if vstd::utf8::encode_utf8(dir).contains(0u8) {
        Err(ConfigError::NulInRoot)
    } else {
        Ok(())
    }
}

impl WatchDog {
    /// Says whether the root can be handed to the kernel, before any
    /// session is started on it.
    pub fn validate(&self) -> (verdict: Result<(), ConfigError>)
        ensures
            verdict == root_verdict(self.dir@),
    {
        let dir = self.dir.as_str();
        if dir.is_empty() {
            return Err(ConfigError::EmptyRoot);
        }
        let bytes = dir.as_bytes();
        let mut i: usize = 0;
        while i < bytes.len()
            invariant
                i <= bytes@.len(),
                bytes@ == vstd::utf8::encode_utf8(self.dir@),
                forall|j: int| 0 <= j < i ==> bytes@[j] != 0u8,
            decreases bytes@.len() - i,
        {
            if bytes[i] == 0 {
                assert(bytes@[i as int] == 0u8);
                return Err(ConfigError::NulInRoot);
            }
            i += 1;
        }
        Ok(())
    }
}

} // verus!
