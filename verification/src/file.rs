//! Classification of a file by the signature in its first bytes, with an
//! optional check of the extension in its name.

use vstd::prelude::*;
use vstd::slice::slice_subrange;
use crate::text::{lowercased, to_lowercase, chars_of};

verus! {

/// The broad kind of a recognised signature.
#[derive(Clone, Copy, Debug, PartialEq, Eq, Structural)]
pub enum MediaKind {
    App,
    Archive,
    Audio,
    Book,
    Doc,
    Font,
    Image,
    Text,
    Video,
    Custom,
}

/// What sniffing found: the kind of the signature and the extension that
/// files of that type carry.
#[derive(Debug)]
pub struct Signature {
    pub kind: MediaKind,
    pub extension: String,
}

/// A `Signature` as a plain value.
pub struct SignatureView {
    pub kind: MediaKind,
    pub extension: Seq<char>,
}

impl View for Signature {
    type V = SignatureView;

    open spec fn view(&self) -> SignatureView {
        SignatureView { kind: self.kind, extension: self.extension@ }
    }
}

/// The verdict on a file.
#[derive(Clone, Copy, Debug, PartialEq, Eq, Structural)]
pub enum Classification {
    /// Neither an image nor a video, or the extension does not fit the content.
    Invalid,
    Image,
    Video,
}

/// Why a file got no verdict.
#[derive(Debug, PartialEq, Eq)]
pub enum FileError {
    /// The file could not be read; the text is the reason that the system gave.
    Io(String),
    /// The file was read, and its first bytes hold no known signature.
    UnknownFileType,
}

/// A `FileError` as a plain value.
pub enum FileErrorView {
    Io(Seq<char>),
    UnknownFileType,
}

impl View for FileError {
    type V = FileErrorView;

    open spec fn view(&self) -> FileErrorView {
        match self {
            FileError::Io(reason) => FileErrorView::Io(reason@),
            FileError::UnknownFileType => FileErrorView::UnknownFileType,
        }
    }
}

/// How many leading bytes of a file are looked at.
pub const SNIFFED_PREFIX_LEN: usize = 8192;

/// The part of `content` that is looked at: its first `SNIFFED_PREFIX_LEN`
/// bytes, or all of it if it is shorter.
pub open spec fn sniffed_prefix(content: Seq<u8>) -> Seq<u8> {
    if content.len() > SNIFFED_PREFIX_LEN {
        content.take(SNIFFED_PREFIX_LEN as int)
    } else {
        content
    }
}

/// `text` ends in `suffix`, character for character.
pub open spec fn ends_with(text: Seq<char>, suffix: Seq<char>) -> bool {
    &&& suffix.len() <= text.len()
    &&& text.skip(text.len() - suffix.len()) == suffix
}

/// `filename` ends in `extension` when letter case is ignored: the
/// lower-case form of the name ends in the lower-case form of the extension.
pub open spec fn has_extension(filename: Seq<char>, extension: Seq<char>) -> bool {
    ends_with(lowercased(filename), lowercased(extension))
}

/// What a kind of signature counts as.
pub open spec fn category(kind: MediaKind) -> Classification {
    match kind {
        MediaKind::Image => Classification::Image,
        MediaKind::Video => Classification::Video,
        _ => Classification::Invalid,
    }
}

/// The verdict from the kind of a signature and from the name and the
/// extension as they are written. When the extension is to be checked and
/// the name does not end in it, the file is invalid; otherwise the kind of
/// the signature alone decides.
pub open spec fn literal_classification(
    kind: MediaKind,
    extension: Seq<char>,
    filename: Seq<char>,
    check_extension: bool,
) -> Classification {
    if check_extension && !ends_with(filename, extension) {
        Classification::Invalid
    } else {
        category(kind)
    }
}

/// The verdict on a file with a recognised signature: the literal one on the
/// lower-case forms of the name and of the signature's extension.
pub open spec fn classification(
    signature: SignatureView,
    filename: Seq<char>,
    check_extension: bool,
) -> Classification {
    literal_classification(
        signature.kind,
        lowercased(signature.extension),
        lowercased(filename),
        check_extension,
    )
}

/// Decides whether `text` ends in `suffix`, character for character.
pub fn ends_in(text: &str, suffix: &str) -> (r: bool)
    ensures
        r == ends_with(text@, suffix@),
{
    let whole = chars_of(text);
    let end = chars_of(suffix);
    if end.len() > whole.len() {
        return false;
    }
    let start = whole.len() - end.len();
    let mut i: usize = 0;
    while i < end.len()
        invariant
            i <= end.len(),
            whole@ == text@,
            end@ == suffix@,
            start + end.len() == whole.len(),
            forall|k: int| 0 <= k < i ==> whole@[start + k] == #[trigger] end@[k],
        decreases end.len() - i,
    {
        if whole[start + i] != end[i] {
            assert(whole@.skip(start as int)[i as int] != end@[i as int]);
            return false;
        }
        i += 1;
    }
    assert(whole@.skip(start as int) =~= end@);
    true
}

/// Decides whether `filename` ends in `extension` when letter case is
/// ignored.
pub fn matches_extension(filename: &str, extension: &str) -> (r: bool)
    ensures
        r == has_extension(filename@, extension@),
{
    let name = to_lowercase(filename);
    let ext = to_lowercase(extension);
    ends_in(name.as_str(), ext.as_str())
}

/// What sniffing finds in `content`: the first signature, in the order in
/// which the `infer` crate tries its matchers, that fits, or `None` where
/// none fits.
pub uninterp spec fn sniffed(content: Seq<u8>) -> Option<SignatureView>;

/// `usize` is wider than 32 bits. Sniffing needs it: the matchers add
/// lengths that they read from the content to offsets of type `usize`, and
/// with 32 bits such a sum can overflow.
pub open spec fn usize_is_wide() -> bool {
    usize::MAX > 0xffff_ffff
}

/// Calls `infer::get` on `content` and copies out of the type it finds the
/// kind (`matcher_type`) and the extension (`extension`). Trusted: where
/// `usize` is wide the call returns for every content; what comes back is
/// what `sniffed` names, a function of the bytes alone, since the set of
/// matchers is the crate's fixed one.
#[verifier::external_body]
fn sniff(content: &[u8]) -> (found: Option<Signature>)
    requires
        usize_is_wide(),
    ensures
        match found {
            Some(signature) => sniffed(content@) == Some(signature@),
            None => sniffed(content@) is None,
        },
{
    infer::get(content).map(|found| Signature {
        kind: match found.matcher_type() {
            infer::MatcherType::App => MediaKind::App,
            infer::MatcherType::Archive => MediaKind::Archive,
            infer::MatcherType::Audio => MediaKind::Audio,
            infer::MatcherType::Book => MediaKind::Book,
            infer::MatcherType::Doc => MediaKind::Doc,
            infer::MatcherType::Font => MediaKind::Font,
            infer::MatcherType::Image => MediaKind::Image,
            infer::MatcherType::Text => MediaKind::Text,
            infer::MatcherType::Video => MediaKind::Video,
            infer::MatcherType::Custom => MediaKind::Custom,
        },
        extension: String::from(found.extension()),
    })
}

/// The answer owed for a file, given what reading it gave and what sniffing
/// found in the bytes read.
pub open spec fn file_verdict(
    readable: Result<Option<SignatureView>, Seq<char>>,
    filename: Seq<char>,
    check_extension: bool,
) -> Result<Classification, FileErrorView> {
    match readable {
        Err(reason) => Err(FileErrorView::Io(reason)),
        Ok(None) => Err(FileErrorView::UnknownFileType),
        Ok(Some(signature)) => Ok(classification(signature, filename, check_extension)),
    }
}

/// A verdict as a plain value.
pub open spec fn verdict_view(r: Result<Classification, FileError>) -> Result<
    Classification,
    FileErrorView,
> {
    match r {
        Ok(c) => Ok(c),
        Err(e) => Err(e@),
    }
}

/// What `validate_file` is handed as the outcome of reading, with the
/// bytes replaced by what sniffing finds in their prefix.
pub open spec fn sniffed_read(read: Result<Vec<u8>, String>) -> Result<
    Option<SignatureView>,
    Seq<char>,
> {
    match read {
        Ok(content) => Ok(sniffed(sniffed_prefix(content@))),
        Err(reason) => Err(reason@),
    }
}

/// Classifies a file from the kind of its signature and from its name
/// and the signature's extension as they are written.
///
/// With `check_extension`, a name that does not end in the extension,
/// character for character, makes the file `Invalid`. Otherwise an image
/// is `Image`, a video is `Video` and anything else is `Invalid`.
pub fn classify_literally(
    kind: MediaKind,
    extension: &str,
    filename: &str,
    check_extension: bool,
) -> (r: Classification)
    ensures
        r == literal_classification(kind, extension@, filename@, check_extension),
{
    if check_extension && !ends_in(filename, extension) {
        return Classification::Invalid;
    }
    match kind {
        MediaKind::Image => Classification::Image,
        MediaKind::Video => Classification::Video,
        _ => Classification::Invalid,
    }
}

/// Classifies a file whose signature has been sniffed.
///
/// With `check_extension`, a name whose lower-case form does not end in
/// the lower-case form of the signature's extension makes the file
/// `Invalid`. Otherwise an image is `Image`, a video is `Video` and
/// anything else is `Invalid`.
pub fn classify(signature: &Signature, filename: &str, check_extension: bool) -> (r: Classification)
    ensures
        r == classification(signature@, filename@, check_extension),
{
    if check_extension {
        let name = to_lowercase(filename);
        let ext = to_lowercase(signature.extension.as_str());
        classify_literally(signature.kind, ext.as_str(), name.as_str(), true)
    } else {
        classify_literally(signature.kind, signature.extension.as_str(), filename, false)
    }
}

/// Validates a file from its name and the outcome of reading it.
///
/// `read` holds the file's bytes, of which the first `SNIFFED_PREFIX_LEN`
/// are looked at, or the reason why it could not be read. A failed read is
/// an `Io` error with that reason; bytes without a known signature are an
/// `UnknownFileType` error; a recognised file gets its classification.
///
/// To be called only where `usize` is wider than 32 bits.
pub fn validate_file(filename: &str, read: Result<Vec<u8>, String>, check_extension: bool) -> (r:
    Result<Classification, FileError>)
    requires
        usize_is_wide(),
    ensures
        verdict_view(r) == file_verdict(sniffed_read(read), filename@, check_extension),
{
    let content = match read {
        Ok(content) => content,
        Err(reason) => {
            return Err(FileError::Io(reason));
        },
    };
    let n = if content.len() > SNIFFED_PREFIX_LEN {
        SNIFFED_PREFIX_LEN
    } else {
        content.len()
    };
    let prefix = slice_subrange(content.as_slice(), 0, n);
    assert(prefix@ =~= sniffed_prefix(content@));
    match sniff(prefix) {
        None => Err(FileError::UnknownFileType),
        Some(signature) => Ok(classify(&signature, filename, check_extension)),
    }
}

/// A name that ends in the signature's extension, written in any letter
/// case, passes the extension check: the verdict is the one that the kind
/// of the signature gives. "Ends in it in any letter case" is said of the
/// lower-case forms: that of the name ends in that of what is `written`,
/// which is that of the extension.
pub proof fn lemma_extension_in_any_case(
    filename: Seq<char>,
    lowered_stem: Seq<char>,
    written: Seq<char>,
    signature: SignatureView,
)
    requires
        lowercased(filename) == lowered_stem + lowercased(written),
        lowercased(written) == lowercased(signature.extension),
    ensures
        has_extension(filename, signature.extension),
        classification(signature, filename, true) == category(signature.kind),
        file_verdict(Ok(Some(signature)), filename, true) == Ok::<Classification, FileErrorView>(
            category(signature.kind),
        ),
{
    let end = lowercased(written);
    assert((lowered_stem + end).skip(lowered_stem.len() as int) =~= end);
}

/// Only the end of a text counts: one that ends in `<suffix>.<other>` ends
/// in `<suffix>` exactly if `<suffix>.<other>` itself does, whatever stands
/// before it.
pub proof fn lemma_only_the_end_counts(stem: Seq<char>, suffix: Seq<char>, other: Seq<char>)
    ensures
        ends_with(stem + suffix + seq!['.'] + other, suffix) == ends_with(
            suffix + seq!['.'] + other,
            suffix,
        ),
{
    let end = suffix + seq!['.'] + other;
    let text = stem + suffix + seq!['.'] + other;
    assert(text.skip(text.len() - suffix.len()) =~= end.skip(end.len() - suffix.len()));
}

/// For a suffix without a dot, `<suffix>.<other>` ends in `<suffix>` only
/// if `<other>` does.
pub proof fn lemma_suffix_without_dot(suffix: Seq<char>, other: Seq<char>)
    requires
        !suffix.contains('.'),
    ensures
        ends_with(suffix + seq!['.'] + other, suffix) == ends_with(other, suffix),
{
    let end = suffix + seq!['.'] + other;
    let n = suffix.len() as int;
    if other.len() >= n {
        assert(end.skip(end.len() - n) =~= other.skip(other.len() - n));
    } else if ends_with(end, suffix) {
        // The dot before `other` would be a character of the suffix.
        assert(end.skip(end.len() - n)[n - other.len() - 1] == '.');
        assert(suffix[n - other.len() - 1] == '.');
    }
}

/// A name whose lower-case form ends in `<extension>.<other>`, the
/// extension in lower case too, does not pass the check for the extension.
/// Left out are the names where `<extension>.<other>` ends in
/// `<extension>` once more, as `jpg.jpg` does.
pub proof fn lemma_appended_suffix_rejected(
    filename: Seq<char>,
    lowered_stem: Seq<char>,
    extension: Seq<char>,
    other: Seq<char>,
)
    requires
        lowercased(filename) == lowered_stem + lowercased(extension) + seq!['.'] + other,
        !ends_with(lowercased(extension) + seq!['.'] + other, lowercased(extension)),
    ensures
        !has_extension(filename, extension),
        forall|kind: MediaKind|
            classification((SignatureView { kind, extension }), filename, true)
                == Classification::Invalid,
{
    lemma_only_the_end_counts(lowered_stem, lowercased(extension), other);
}

/// The same for an extension whose lower-case form holds no dot: the name
/// does not pass unless `<other>` alone ends in the extension.
pub proof fn lemma_appended_suffix_rejected_without_dot(
    filename: Seq<char>,
    lowered_stem: Seq<char>,
    extension: Seq<char>,
    other: Seq<char>,
)
    requires
        lowercased(filename) == lowered_stem + lowercased(extension) + seq!['.'] + other,
        !lowercased(extension).contains('.'),
        !ends_with(other, lowercased(extension)),
    ensures
        !has_extension(filename, extension),
        forall|kind: MediaKind|
            classification((SignatureView { kind, extension }), filename, true)
                == Classification::Invalid,
{
    lemma_suffix_without_dot(lowercased(extension), other);
    lemma_appended_suffix_rejected(filename, lowered_stem, extension, other);
}

/// A file that could be read gets exactly one answer: an error if no
/// signature was found, else one of the three classifications.
pub proof fn lemma_verdict_total(
    found: Option<SignatureView>,
    filename: Seq<char>,
    check_extension: bool,
)
    ensures
        match file_verdict(Ok(found), filename, check_extension) {
            Ok(c) => found is Some && (c == Classification::Invalid || c == Classification::Image
                || c == Classification::Video),
            Err(e) => found is None && e == FileErrorView::UnknownFileType,
        },
{
}

impl Classification {
    /// The verdict as a small number: zero for `Invalid`, one for `Image`,
    /// two for `Video`.
    pub open spec fn code_of(self) -> u8 {
        match self {
            Classification::Invalid => 0,
            Classification::Image => 1,
            Classification::Video => 2,
        }
    }

    pub fn code(&self) -> (n: u8)
        ensures
            n == self.code_of(),
    {
        match self {
            Classification::Invalid => 0,
            Classification::Image => 1,
            Classification::Video => 2,
        }
    }
}

impl FileError {
    /// The text of the error, for a reader.
    pub open spec fn message_text(self) -> Seq<char> {
        match self {
            FileError::Io(reason) => reason@,
            FileError::UnknownFileType => "File type is unknown."@,
        }
    }

    /// A description of the error: the system's reason for a failed read,
    /// else a fixed sentence.
    pub fn message(&self) -> (text: String)
        ensures
            text@ == self.message_text(),
    {
        match self {
            FileError::Io(reason) => reason.clone(),
            FileError::UnknownFileType => "File type is unknown.".to_string(),
        }
    }
}

} // verus!
