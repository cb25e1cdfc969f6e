//! Recorded segments: their names, what is known of them while they are recorded, and what is
//! written down once they are finished.

use crate::clock::{clock_millis, current_time, millis_of, UtcTime};
use crate::order::Dated;
use crate::text::{
    chars_of, contains_text, decimal, decimal_is_digits, decimal_is_injective, is_digit,
    option_text, push_decimal, text_between,
};
use vstd::prelude::*;
use vstd::string::*;

verus! {

pub const MP4_RECORDING_MIME_TYPE: &'static str = "video/mp4";

pub const QUICKTIME_RECORDING_MIME_TYPE: &'static str = "video/quicktime";

/// What is written down of a finished segment. `path` is where its recording lies.
#[derive(Clone, Debug)]
pub struct ScreenMemorySegmentMetadata {
    pub id: String,
    pub path: String,
    pub file_name: String,
    pub mime_type: String,
    pub started_at: String,
    pub ended_at: String,
    pub duration_ms: u128,
    pub width: Option<u32>,
    pub height: Option<u32>,
    pub bytes: u64,
    pub corrupt: bool,
    pub error: Option<String>,
}

impl Dated for ScreenMemorySegmentMetadata {
    open spec fn date(&self) -> Seq<char> {
        self.ended_at@
    }

    fn date_text(&self) -> (r: &str) {
        self.ended_at.as_str()
    }
}

/// A segment that is being recorded. `backend` is the handle of whatever records it.
pub struct ActiveScreenMemorySegment<B> {
    pub id: String,
    pub path: String,
    pub mime_type: String,
    pub backend: B,
    pub started_at_iso: String,
    pub width: Option<u32>,
    pub height: Option<u32>,
}

/// A character that an id may keep: an ASCII letter or digit, a dash or an underscore.
pub open spec fn safe_char(c: char) -> bool {
    ||| is_digit(c)
    ||| 'A' as u32 <= c as u32 <= 'Z' as u32
    ||| 'a' as u32 <= c as u32 <= 'z' as u32
    ||| c == '-'
    ||| c == '_'
}

/// All characters are safe.
pub open spec fn all_safe(text: Seq<char>) -> bool {
    forall|i: int| 0 <= i < text.len() ==> safe_char(#[trigger] text[i])
}

/// The id under which a segment is filed: the safe characters of `value`, or `segment` where it
/// has none.
pub open spec fn sanitized(value: Seq<char>) -> Seq<char> {
    let safe = value.filter(|c: char| safe_char(c));
    if safe.len() == 0 {
        "segment"@
    } else {
        safe
    }
}

fn is_safe_char(c: char) -> (r: bool)
    ensures
        r == safe_char(c),
{
    let code = c as u32;
    ('0' as u32 <= code && code <= '9' as u32) || ('A' as u32 <= code && code <= 'Z' as u32) || (
    'a' as u32 <= code && code <= 'z' as u32) || c == '-' || c == '_'
}

/// The id under which a segment is filed.
pub fn sanitize_segment_id(value: &str) -> (r: String)
    ensures
        r@ == sanitized(value@),
{
    let chars = chars_of(value);
    let mut safe = String::new();
    let ghost pred = |c: char| safe_char(c);
    proof {
        reveal(Seq::filter);
        assert(chars@.take(0).filter(pred) =~= Seq::<char>::empty());
    }
    let mut i: usize = 0;
    while i < chars.len()
        invariant
            i <= chars.len(),
            pred == (|c: char| safe_char(c)),
            safe@ == chars@.take(i as int).filter(pred),
        decreases chars.len() - i,
    {
        let c = chars[i];
        proof {
            reveal(Seq::filter);
            assert(chars@.take(i + 1).drop_last() =~= chars@.take(i as int));
        }
        if is_safe_char(c) {
            safe.push(c);
        }
        i += 1;
    }
    assert(chars@.take(chars@.len() as int) =~= chars@);
    if safe.as_str().is_empty() {
        "segment".to_string()
    } else {
        safe
    }
}

/// The id of a segment that starts at `millis` as the `counter`-th of the process.
pub open spec fn segment_id_text(millis: nat, counter: nat) -> Seq<char> {
    "segment-"@ + decimal(millis) + "-"@ + decimal(counter)
}

/// The id of a segment that starts at `millis` as the `counter`-th of the process.
pub fn segment_id(millis: u64, counter: u64) -> (r: String)
    ensures
        r@ == segment_id_text(millis as nat, counter as nat),
        r@ == "segment-"@ + decimal(millis as nat) + "-"@ + decimal(counter as nat),
{
    let mut id = "segment-".to_string();
    push_decimal(&mut id, millis);
    id.append("-");
    push_decimal(&mut id, counter);
    id
}

/// The id of a segment that starts now.
pub fn next_segment_id(counter: u64) -> (r: String)
    ensures
        exists|now: UtcTime|
            #[trigger] now.shown_by_clock() && now.is_clock_time() && r@ == segment_id_text(
                millis_of(now) as nat,
                counter as nat,
            ) && r@ == "segment-"@ + decimal((now.secs * 1000 + now.nanos / 1_000_000) as nat)
                + "-"@ + decimal(counter as nat),
{
    let now = current_time();
    let millis: u64 = clock_millis(now);
    assert(now.shown_by_clock());
    segment_id(millis, counter)
}

/// The text left once dots are taken off the front.
pub open spec fn without_leading_dots(s: Seq<char>) -> Seq<char>
    decreases s.len(),
{
    if s.len() > 0 && s[0] == '.' {
        without_leading_dots(s.drop_first())
    } else {
        s
    }
}

fn push_without_leading_dots(out: &mut String, extension: &str)
    ensures
        final(out)@ == old(out)@ + without_leading_dots(extension@),
{
    let chars = chars_of(extension);
    let mut i: usize = 0;
    assert(chars@.skip(0) =~= chars@);
    while i < chars.len() && chars[i] == '.'
        invariant
            i <= chars.len(),
            without_leading_dots(chars@) == without_leading_dots(chars@.skip(i as int)),
        decreases chars.len() - i,
    {
        assert(chars@.skip(i as int).drop_first() =~= chars@.skip(i + 1));
        i += 1;
    }
    let ghost start = i;
    assert(without_leading_dots(chars@) == chars@.skip(start as int));
    while i < chars.len()
        invariant
            start <= i <= chars.len(),
            out@ == old(out)@ + chars@.subrange(start as int, i as int),
        decreases chars.len() - i,
    {
        out.push(chars[i]);
        assert(chars@.subrange(start as int, i + 1) =~= chars@.subrange(start as int, i as int).push(
            chars@[i as int],
        ));
        i += 1;
    }
    assert(chars@.subrange(start as int, i as int) =~= chars@.skip(start as int));
}

/// Where the last dot of `name` stands, or -1.
pub open spec fn last_dot(name: Seq<char>) -> int
    decreases name.len(),
{
    if name.len() == 0 {
        -1
    } else if name.last() == '.' {
        name.len() - 1
    } else {
        last_dot(name.drop_last())
    }
}

/// The extension of a file name: what follows the last dot, unless that dot comes first.
pub open spec fn extension_of(name: Seq<char>) -> Option<Seq<char>> {
    if last_dot(name) <= 0 || name == seq!['.', '.'] {
        None
    } else {
        Some(name.skip(last_dot(name) + 1))
    }
}

/// The extension of a file name: what follows the last dot, unless that dot comes first. This is
/// how `Path::extension` reads the last component of a path.
pub fn file_extension(name: &str) -> (r: Option<String>)
    ensures
        option_text(r) == extension_of(name@),
{
    let chars = chars_of(name);
    let mut i: usize = chars.len();
    assert(chars@.take(i as int) =~= chars@);
    while i > 0 && chars[i - 1] != '.'
        invariant
            i <= chars.len(),
            last_dot(chars@) == last_dot(chars@.take(i as int)),
        decreases i,
    {
        assert(chars@.take(i as int).drop_last() =~= chars@.take(i - 1));
        i -= 1;
    }
    if i <= 1 {
        return None;
    }
    if chars.len() == 2 && chars[0] == '.' && chars[1] == '.' {
        assert(chars@ =~= seq!['.', '.']);
        return None;
    }
    assert(name@ == seq!['.', '.'] ==> name@[0] == '.' && name@[1] == '.');
    Some(text_between(&chars, i, chars.len()))
}

/// Where the last slash of `path` stands, or -1.
pub open spec fn last_slash(path: Seq<char>) -> int
    decreases path.len(),
{
    if path.len() == 0 {
        -1
    } else if path.last() == '/' {
        path.len() - 1
    } else {
        last_slash(path.drop_last())
    }
}

/// A character that separates the components of a path on some system.
pub open spec fn is_separator(c: char) -> bool {
    c == '/' || c == '\\'
}

/// A file name that every system reads alike: it has no separator and no colon, and it is none of
/// the two names that stand for a folder.
pub open spec fn is_plain_name(name: Seq<char>) -> bool {
    &&& name.len() > 0
    &&& name != seq!['.']
    &&& name != seq!['.', '.']
    &&& forall|i: int|
        0 <= i < name.len() ==> !is_separator(#[trigger] name[i]) && name[i] != ':'
}

/// The path starts with two separators, which on some systems makes a device or a share of it.
pub open spec fn names_a_share(path: Seq<char>) -> bool {
    path.len() >= 2 && is_separator(path[0]) && is_separator(path[1])
}

/// `path` without the slashes at its end, and without the components there that are one dot.
pub open spec fn without_trailing_slashes(path: Seq<char>) -> Seq<char>
    decreases path.len(),
{
    if path.len() > 0 && path.last() == '/' {
        without_trailing_slashes(path.drop_last())
    } else if path.len() > 1 && path.last() == '.' && path[path.len() - 2] == '/' {
        without_trailing_slashes(path.drop_last())
    } else {
        path
    }
}

/// The last part of a path that slashes separate.
pub open spec fn last_part(path: Seq<char>) -> Seq<char> {
    let path = without_trailing_slashes(path);
    path.skip(last_slash(path) + 1)
}

/// Every system finds the same file name at the end of the path: the path does not start with two
/// separators, and its last part has neither a backslash nor a colon.
pub open spec fn reads_alike(path: Seq<char>) -> bool {
    &&& !names_a_share(path)
    &&& forall|i: int|
        0 <= i < last_part(path).len() ==> !is_separator(#[trigger] last_part(path)[i])
            && last_part(path)[i] != ':'
}

/// The file name at the end of a path that reads alike: its last part, unless that is empty or
/// stands for a folder.
pub open spec fn file_name_of(path: Seq<char>) -> Option<Seq<char>> {
    let name = last_part(path);
    if name.len() == 0 || name == seq!['.'] || name == seq!['.', '.'] {
        None
    } else {
        Some(name)
    }
}

/// `Path::file_name` of the path `path`, as text: its last component, if it has one. Claimed of
/// Unix and of Windows: the name is not empty and is a piece of the path; and of a path that the two
/// read alike, the name is what follows the last slash, once slashes and single dots at the end are
/// passed over, and there is none where that is nothing, one dot or two. How the two read other
/// paths (with a backslash or a colon in the last part, or two separators in front) differs, and of
/// those nothing more is stated.
#[verifier::external_body]
pub(crate) fn path_file_name(path: &str) -> (r: Option<String>)
    ensures
        r matches Some(name) ==> name@.len() > 0 && contains_text(path@, name@),
        reads_alike(path@) ==> option_text(r) == file_name_of(path@),
{
    match std::path::Path::new(path).file_name() {
        Some(name) => Some(name.to_string_lossy().to_string()),
        None => None,
    }
}

/// The name of the file that holds a segment's metadata.
pub open spec fn metadata_file(segment_id: Seq<char>) -> Seq<char> {
    sanitized(segment_id) + ".json"@
}

/// The name of the file that holds a segment's recording.
pub open spec fn media_file(segment_id: Seq<char>, extension: Seq<char>) -> Seq<char> {
    sanitized(segment_id) + "."@ + without_leading_dots(extension)
}

/// The name of the file that holds a segment's metadata, within the storage folder.
pub fn segment_metadata_file(segment_id: &str) -> (r: String)
    ensures
        r@ == metadata_file(segment_id@),
        r@ == sanitized(segment_id@) + ".json"@,
{
    sanitize_segment_id(segment_id).concat(".json")
}

/// The name of the file that holds a segment's recording, within the storage folder.
pub fn segment_media_file(segment_id: &str, extension: &str) -> (r: String)
    ensures
        r@ == media_file(segment_id@, extension@),
        r@ == sanitized(segment_id@) + "."@ + without_leading_dots(extension@),
{
    let mut name = sanitize_segment_id(segment_id).concat(".");
    push_without_leading_dots(&mut name, extension);
    name
}

/// Whether the two texts are the same.
fn same_text(a: &str, b: &str) -> (r: bool)
    ensures
        r == (a@ == b@),
{
    let x = chars_of(a);
    let y = chars_of(b);
    if x.len() != y.len() {
        return false;
    }
    let mut i: usize = 0;
    while i < x.len()
        invariant
            x.len() == y.len(),
            x@ == a@,
            y@ == b@,
            i <= x.len(),
            forall|k: int| 0 <= k < i ==> a@[k] == b@[k],
        decreases x.len() - i,
    {
        if x[i] != y[i] {
            return false;
        }
        i += 1;
    }
    assert(a@ =~= b@);
    true
}

/// The kind of recording keeps an index that can be missing.
pub open spec fn has_playback_index(mime_type: Seq<char>) -> bool {
    mime_type == MP4_RECORDING_MIME_TYPE@ || mime_type == QUICKTIME_RECORDING_MIME_TYPE@
}

/// Why a segment without a recording is given up.
pub open spec fn missing_message(stop_error: Option<Seq<char>>, cause: Seq<char>) -> Seq<char> {
    let suffix = match stop_error {
        Some(err) => " after stop error: "@ + err,
        None => Seq::<char>::empty(),
    };
    "Screen Memory segment missing"@ + suffix + ": "@ + cause
}

/// What a stopped recording left behind, and what to do about it.
pub enum StoppedFile {
    /// There is no file: the segment is given up, for this reason.
    Missing(String),
    /// The file is empty: it is removed and the segment is given up, for this reason.
    Empty(String),
    /// The file has this size, and its playback index is to be looked up.
    CheckPlayback(u64),
    /// The file has this size, and its kind has no playback index.
    Complete(u64),
}

/// Decides what is done about the file of a segment whose recording was stopped. `size` is the size
/// of the file, or why it could not be told.
pub fn examine_stopped_file(
    mime_type: &str,
    stop_error: &Option<String>,
    size: Result<u64, String>,
) -> (r: StoppedFile)
    ensures
        match size {
            Err(cause) => r matches StoppedFile::Missing(message) && message@ == missing_message(
                option_text(*stop_error),
                cause@,
            ),
            Ok(bytes) => if bytes == 0 {
                r matches StoppedFile::Empty(message) && message@
                    == "Screen Memory segment produced an empty file."@
            } else if has_playback_index(mime_type@) {
                r == StoppedFile::CheckPlayback(bytes)
            } else {
                r == StoppedFile::Complete(bytes)
            },
        },
        r is CheckPlayback <==> (size matches Ok(bytes) && bytes > 0) && (mime_type@
            == "video/mp4"@ || mime_type@ == "video/quicktime"@),
        r matches StoppedFile::Missing(message) ==> (size matches Err(cause) && message@
            == "Screen Memory segment missing"@ + (match *stop_error {
            Some(err) => " after stop error: "@ + err@,
            None => Seq::<char>::empty(),
        }) + ": "@ + cause@),
{
    match size {
        Err(cause) => {
            let mut message = "Screen Memory segment missing".to_string();
            if let Some(err) = stop_error {
                message.append(" after stop error: ");
                message.append(err.as_str());
            }
            message.append(": ");
            message.append(cause.as_str());
            assert(message@ =~= missing_message(option_text(*stop_error), cause@));
            StoppedFile::Missing(message)
        },
        Ok(bytes) => {
            if bytes == 0 {
                StoppedFile::Empty("Screen Memory segment produced an empty file.".to_string())
            } else if same_text(mime_type, MP4_RECORDING_MIME_TYPE) || same_text(
                mime_type,
                QUICKTIME_RECORDING_MIME_TYPE,
            ) {
                StoppedFile::CheckPlayback(bytes)
            } else {
                StoppedFile::Complete(bytes)
            }
        },
    }
}

/// What was found out about a stopped recording.
pub struct StoppedRecording {
    /// The error that stopping the recording ended in.
    pub stop_error: Option<String>,
    pub ended_at: String,
    pub duration_ms: u128,
    /// Whether the file has its playback index, where that was looked up and could be told.
    pub has_index: Option<bool>,
}

/// The recording lacks the index that its kind needs.
pub open spec fn is_corrupt(mime_type: Seq<char>, has_index: Option<bool>) -> bool {
    has_playback_index(mime_type) && has_index == Some(false)
}

/// The error to note for a segment.
pub open spec fn noted_error(corrupt: bool, stop_error: Option<Seq<char>>) -> Option<Seq<char>> {
    if corrupt && stop_error is None {
        Some("Screen Memory segment is missing playback metadata."@)
    } else {
        stop_error
    }
}

/// `metadata` is what is written down of `active` once its recording was stopped and left a file of
/// `bytes`.
pub open spec fn is_metadata_of<B>(
    metadata: ScreenMemorySegmentMetadata,
    active: ActiveScreenMemorySegment<B>,
    stopped: StoppedRecording,
    bytes: u64,
) -> bool {
    &&& metadata.id == active.id
    &&& metadata.path == active.path
    &&& metadata.mime_type == active.mime_type
    &&& metadata.started_at == active.started_at_iso
    &&& metadata.ended_at == stopped.ended_at
    &&& metadata.duration_ms == stopped.duration_ms
    &&& metadata.width == active.width
    &&& metadata.height == active.height
    &&& metadata.bytes == bytes
    &&& metadata.corrupt == is_corrupt(active.mime_type@, stopped.has_index)
    &&& option_text(metadata.error) == noted_error(
        metadata.corrupt,
        option_text(stopped.stop_error),
    )
}

/// The metadata of a segment whose recording was stopped, or why the segment is given up. `size` is
/// the size of its file, or why it could not be told.
pub fn finalize_active_segment<B>(
    active: ActiveScreenMemorySegment<B>,
    stopped: StoppedRecording,
    size: Result<u64, String>,
) -> (r: Result<ScreenMemorySegmentMetadata, String>)
    ensures
        match size {
            Err(cause) => r matches Err(message) && message@ == missing_message(
                option_text(stopped.stop_error),
                cause@,
            ),
            Ok(bytes) => if bytes == 0 {
                r matches Err(message) && message@
                    == "Screen Memory segment produced an empty file."@
            } else {
                r matches Ok(segment) && {
                    &&& is_metadata_of(segment, active, stopped, bytes)
                    &&& contains_text(active.path@, segment.file_name@)
                    &&& reads_alike(active.path@) ==> segment.file_name@ == (match file_name_of(
                        active.path@,
                    ) {
                        Some(name) => name,
                        None => Seq::<char>::empty(),
                    })
                }
            },
        },
        r is Ok <==> (size matches Ok(bytes) && bytes > 0),
        r matches Ok(segment) ==> (segment.id == active.id),
        r matches Ok(segment) ==> (segment.path == active.path),
        r matches Ok(segment) ==> (segment.mime_type == active.mime_type),
        r matches Ok(segment) ==> (segment.started_at == active.started_at_iso),
        r matches Ok(segment) ==> (segment.ended_at == stopped.ended_at),
        r matches Ok(segment) ==> (segment.duration_ms == stopped.duration_ms),
        r matches Ok(segment) ==> (segment.width == active.width),
        r matches Ok(segment) ==> (segment.height == active.height),
        r matches Ok(segment) ==> (segment.bytes == size->Ok_0),
        r matches Ok(segment) ==> (segment.corrupt <==> (stopped.has_index == Some(false) && (active.mime_type@
            == "video/mp4"@ || active.mime_type@ == "video/quicktime"@))),
        r matches Ok(segment) ==> (stopped.stop_error is Some ==> segment.error
            == stopped.stop_error),
        r matches Ok(segment) ==> (stopped.stop_error is None && !segment.corrupt
            ==> segment.error is None),
        r matches Ok(segment) ==> (stopped.stop_error is None && segment.corrupt
            ==> (segment.error matches Some(text)
            && text@ == "Screen Memory segment is missing playback metadata."@)),
{
    match examine_stopped_file(active.mime_type.as_str(), &stopped.stop_error, size) {
        StoppedFile::Missing(message) => Err(message),
        StoppedFile::Empty(message) => Err(message),
        StoppedFile::CheckPlayback(bytes) | StoppedFile::Complete(bytes) => {
            let file_name = path_file_name(active.path.as_str());
            let segment = segment_metadata(active, stopped, bytes, file_name);
            proof {
                if file_name is None {
                    assert(active.path@.subrange(0, 0int + segment.file_name@.len())
                        =~= segment.file_name@);
                }
            }
            Ok(segment)
        },
    }
}

/// The metadata of a segment whose recording was stopped and left a file of `bytes`, of the name
/// `file_name`.
pub fn segment_metadata<B>(
    active: ActiveScreenMemorySegment<B>,
    stopped: StoppedRecording,
    bytes: u64,
    file_name: Option<String>,
) -> (r: ScreenMemorySegmentMetadata)
    ensures
        is_metadata_of(r, active, stopped, bytes),
        r.id == active.id,
        r.path == active.path,
        r.mime_type == active.mime_type,
        r.started_at == active.started_at_iso,
        r.ended_at == stopped.ended_at,
        r.duration_ms == stopped.duration_ms,
        r.width == active.width,
        r.height == active.height,
        r.bytes == bytes,
        r.corrupt <==> (stopped.has_index == Some(false) && (active.mime_type@
            == "video/mp4"@ || active.mime_type@ == "video/quicktime"@)),
        stopped.stop_error is Some ==> r.error == stopped.stop_error,
        stopped.stop_error is None && !r.corrupt ==> r.error is None,
        stopped.stop_error is None && r.corrupt ==> (r.error matches Some(text)
            && text@ == "Screen Memory segment is missing playback metadata."@),
        r.file_name@ == (match file_name {
            Some(name) => name@,
            None => Seq::<char>::empty(),
        }),
{
    let index_missing = match stopped.has_index {
        Some(has_index) => !has_index,
        None => false,
    };
    let corrupt = (same_text(active.mime_type.as_str(), MP4_RECORDING_MIME_TYPE) || same_text(
        active.mime_type.as_str(),
        QUICKTIME_RECORDING_MIME_TYPE,
    )) && index_missing;
    let error = match stopped.stop_error {
        Some(err) => Some(err),
        None => if corrupt {
            Some("Screen Memory segment is missing playback metadata.".to_string())
        } else {
            None
        },
    };
    ScreenMemorySegmentMetadata {
        id: active.id,
        path: active.path,
        file_name: match file_name {
            Some(name) => name,
            None => String::new(),
        },
        mime_type: active.mime_type,
        started_at: active.started_at_iso,
        ended_at: stopped.ended_at,
        duration_ms: stopped.duration_ms,
        width: active.width,
        height: active.height,
        bytes,
        corrupt,
        error,
    }
}

/// A segment that is noted as corrupt always says why.
pub proof fn corrupt_segment_has_error(stop_error: Option<Seq<char>>)
    ensures
        noted_error(true, stop_error) is Some,
{
}

proof fn filter_keeps_all(text: Seq<char>)
    requires
        all_safe(text),
    ensures
        text.filter(|c: char| safe_char(c)) == text,
    decreases text.len(),
{
    reveal(Seq::filter);
    let pred = |c: char| safe_char(c);
    if text.len() > 0 {
        let rest = text.drop_last();
        assert forall|i: int| 0 <= i < rest.len() implies safe_char(#[trigger] rest[i]) by {
            assert(rest[i] == text[i]);
        }
        filter_keeps_all(rest);
        assert(safe_char(text[text.len() - 1]));
        assert(text =~= rest.push(text.last()));
    } else {
        assert(text.filter(pred) =~= text);
    }
}

/// An id is never empty and has no character but ASCII letters, digits, dashes and underscores.
pub proof fn sanitized_is_safe(value: Seq<char>)
    ensures
        sanitized(value).len() > 0,
        all_safe(sanitized(value)),
{
    reveal_strlit("segment");
    let pred = |c: char| safe_char(c);
    let safe = value.filter(pred);
    assert forall|i: int| 0 <= i < safe.len() implies safe_char(#[trigger] safe[i]) by {
        value.lemma_filter_pred(pred, i);
    }
}

/// A text that is fit to be an id is its own id.
pub proof fn sanitized_keeps_safe_text(value: Seq<char>)
    requires
        value.len() > 0,
        all_safe(value),
    ensures
        sanitized(value) == value,
{
    filter_keeps_all(value);
}

/// Sanitizing twice is sanitizing once.
pub proof fn sanitized_is_idempotent(value: Seq<char>)
    ensures
        sanitized(sanitized(value)) == sanitized(value),
{
    sanitized_is_safe(value);
    sanitized_keeps_safe_text(sanitized(value));
}

/// The ids that the recorder makes are filed under themselves.
pub proof fn made_id_is_its_own_id(millis: nat, counter: nat)
    ensures
        sanitized(segment_id_text(millis, counter)) == segment_id_text(millis, counter),
{
    reveal_strlit("segment-");
    reveal_strlit("-");
    decimal_is_digits(millis);
    decimal_is_digits(counter);
    let id = segment_id_text(millis, counter);
    let head = "segment-"@ + decimal(millis);
    assert forall|i: int| 0 <= i < id.len() implies safe_char(#[trigger] id[i]) by {
        if i < 8 {
            assert(id[i] == "segment-"@[i]);
        } else if i < head.len() {
            assert(id[i] == decimal(millis)[i - 8]);
        } else if i == head.len() {
            assert(id[i] == '-');
        } else {
            assert(id[i] == decimal(counter)[i - head.len() - 1]);
        }
    }
    sanitized_keeps_safe_text(id);
}

/// Segments made at different times, or as different segments of one process, have different ids.
pub proof fn made_ids_differ(millis: nat, counter: nat, other_millis: nat, other_counter: nat)
    requires
        segment_id_text(millis, counter) == segment_id_text(other_millis, other_counter),
    ensures
        millis == other_millis,
        counter == other_counter,
{
    reveal_strlit("segment-");
    reveal_strlit("-");
    decimal_is_digits(millis);
    decimal_is_digits(counter);
    decimal_is_digits(other_millis);
    decimal_is_digits(other_counter);
    let (a, b) = (segment_id_text(millis, counter), segment_id_text(other_millis, other_counter));
    let (m, n) = (decimal(millis), decimal(other_millis));
    let (c, d) = (decimal(counter), decimal(other_counter));
    assert(a[8int + m.len()] == '-');
    assert(b[8int + n.len()] == '-');
    if m.len() < n.len() {
        assert(b[8int + m.len()] == n[m.len() as int]);
        assert(is_digit(n[m.len() as int]));
    }
    if n.len() < m.len() {
        assert(a[8int + n.len()] == m[n.len() as int]);
        assert(is_digit(m[n.len() as int]));
    }
    assert forall|i: int| 0 <= i < m.len() implies m[i] == n[i] by {
        assert(a[8 + i] == m[i]);
        assert(b[8 + i] == n[i]);
    }
    assert(m =~= n);
    decimal_is_injective(millis, other_millis);
    assert(a.len() == 8 + m.len() + 1 + c.len());
    assert(b.len() == 8 + n.len() + 1 + d.len());
    assert forall|i: int| 0 <= i < c.len() implies c[i] == d[i] by {
        assert(a[8 + m.len() + 1 + i] == c[i]);
        assert(b[8 + n.len() + 1 + i] == d[i]);
    }
    assert(c =~= d);
    decimal_is_injective(counter, other_counter);
}

/// Whatever id is asked for, its metadata file lies in the storage folder itself: the name starts
/// with a safe character and has no path separator in it.
pub proof fn metadata_file_stays_in_folder(segment_id: Seq<char>)
    ensures
        safe_char(metadata_file(segment_id)[0]),
        forall|i: int|
            0 <= i < metadata_file(segment_id).len() ==> safe_char(
                #[trigger] metadata_file(segment_id)[i],
            ) || metadata_file(segment_id)[i] == '.',
        !metadata_file(segment_id).contains('/'),
        !metadata_file(segment_id).contains('\\'),
{
    reveal_strlit(".json");
    sanitized_is_safe(segment_id);
    let name = metadata_file(segment_id);
    assert(name[0] == sanitized(segment_id)[0]);
    assert forall|i: int| 0 <= i < name.len() implies safe_char(#[trigger] name[i]) || name[i]
        == '.' by {
        if i < sanitized(segment_id).len() {
            assert(name[i] == sanitized(segment_id)[i]);
        }
    }
}

/// Whatever id is asked for, its recording lies in the storage folder itself, for every extension
/// of safe characters.
pub proof fn media_file_stays_in_folder(segment_id: Seq<char>, extension: Seq<char>)
    requires
        all_safe(without_leading_dots(extension)),
    ensures
        safe_char(media_file(segment_id, extension)[0]),
        !media_file(segment_id, extension).contains('/'),
        !media_file(segment_id, extension).contains('\\'),
{
    reveal_strlit(".");
    sanitized_is_safe(segment_id);
    let name = media_file(segment_id, extension);
    let id = sanitized(segment_id);
    assert(name[0] == id[0]);
    assert forall|i: int| 0 <= i < name.len() implies safe_char(#[trigger] name[i]) || name[i]
        == '.' by {
        if i < id.len() {
            assert(name[i] == id[i]);
        } else if i > id.len() {
            assert(name[i] == without_leading_dots(extension)[i - id.len() - 1]);
        }
    }
}

proof fn last_slash_before_name(folder: Seq<char>, name: Seq<char>)
    requires
        forall|i: int| 0 <= i < name.len() ==> #[trigger] name[i] != '/',
    ensures
        last_slash(folder + seq!['/'] + name) == folder.len(),
        last_slash(name) == -1,
    decreases name.len(),
{
    let path = folder + seq!['/'] + name;
    if name.len() > 0 {
        let shorter = name.drop_last();
        assert(name[name.len() - 1] != '/');
        assert(path.last() == name.last());
        assert forall|i: int| 0 <= i < shorter.len() implies #[trigger] shorter[i] != '/' by {
            assert(shorter[i] == name[i]);
        }
        last_slash_before_name(folder, shorter);
        assert(path.drop_last() =~= folder + seq!['/'] + shorter);
    }
}

proof fn plain_name_is_last_part(path: Seq<char>, name: Seq<char>)
    requires
        is_plain_name(name),
        name.len() <= path.len(),
        path.skip(path.len() - name.len()) == name,
        last_slash(path) == path.len() - name.len() - 1,
        !names_a_share(path),
    ensures
        without_trailing_slashes(path) == path,
        reads_alike(path),
        file_name_of(path) == Some(name),
{
    let start = path.len() - name.len();
    assert(path.last() == name[name.len() - 1]);
    assert(!is_separator(name[name.len() - 1]));
    if path.len() > 1 && path.last() == '.' && path[path.len() - 2] == '/' {
        if name.len() == 1 {
            assert(name =~= seq!['.']);
        } else {
            assert(path[path.len() - 2] == name[name.len() - 2]);
            assert(!is_separator(name[name.len() - 2]));
        }
    }
    assert(last_part(path) == name);
}

/// A plain name is read back from a path that consists of it, and from one that ends with a slash
/// and it, also where a slash or a single dot follows.
pub proof fn plain_name_is_read_back(folder: Seq<char>, name: Seq<char>)
    requires
        is_plain_name(name),
        !names_a_share(folder + seq!['/']),
    ensures
        reads_alike(name),
        file_name_of(name) == Some(name),
        reads_alike(folder + seq!['/'] + name),
        file_name_of(folder + seq!['/'] + name) == Some(name),
        reads_alike(folder + seq!['/'] + name + seq!['/']),
        file_name_of(folder + seq!['/'] + name + seq!['/']) == Some(name),
        reads_alike(folder + seq!['/'] + name + seq!['/', '.']),
        file_name_of(folder + seq!['/'] + name + seq!['/', '.']) == Some(name),
{
    let path = folder + seq!['/'] + name;
    assert forall|i: int| 0 <= i < name.len() implies #[trigger] name[i] != '/' by {
        assert(!is_separator(name[i]));
    }
    last_slash_before_name(folder, name);
    assert(!is_separator(name[0]));
    assert(name.skip(0) =~= name);
    assert(path.skip(path.len() - name.len()) =~= name);
    if folder.len() == 0 {
        assert(path[1] == name[0]);
    } else {
        assert(path[0] == (folder + seq!['/'])[0]);
        assert(path[1] == (folder + seq!['/'])[1]);
    }
    plain_name_is_last_part(name, name);
    plain_name_is_last_part(path, name);
    let slash = path + seq!['/'];
    let dot = path + seq!['/', '.'];
    assert(slash[0] == path[0] && slash[1] == path[1]);
    assert(dot[0] == path[0] && dot[1] == path[1]);
    assert(slash.drop_last() =~= path);
    assert(dot.drop_last() =~= slash);
    assert(without_trailing_slashes(slash) == path);
    assert(without_trailing_slashes(dot) == path);
}

/// A recording that lies in a folder under the name made for it is noted under that name.
pub proof fn recording_is_noted_under_its_name(
    folder: Seq<char>,
    segment_id: Seq<char>,
    extension: Seq<char>,
)
    requires
        all_safe(without_leading_dots(extension)),
        !names_a_share(folder + seq!['/']),
    ensures
        reads_alike(folder + seq!['/'] + media_file(segment_id, extension)),
        file_name_of(folder + seq!['/'] + media_file(segment_id, extension)) == Some(
            media_file(segment_id, extension),
        ),
{
    reveal_strlit(".");
    sanitized_is_safe(segment_id);
    let name = media_file(segment_id, extension);
    let id = sanitized(segment_id);
    assert(name[0] == id[0]);
    assert(safe_char(id[0]));
    assert forall|i: int| 0 <= i < name.len() implies !is_separator(#[trigger] name[i]) && name[i]
        != ':' by {
        if i < id.len() {
            assert(name[i] == id[i]);
        } else if i > id.len() {
            assert(name[i] == without_leading_dots(extension)[i - id.len() - 1]);
        }
    }
    plain_name_is_read_back(folder, name);
}

proof fn last_dot_before(name: Seq<char>, extension: Seq<char>)
    requires
        forall|i: int| 0 <= i < extension.len() ==> #[trigger] extension[i] != '.',
    ensures
        last_dot(name + seq!['.'] + extension) == name.len(),
    decreases extension.len(),
{
    let whole = name + seq!['.'] + extension;
    if extension.len() > 0 {
        let shorter = extension.drop_last();
        assert(extension[extension.len() - 1] != '.');
        assert(whole.last() == extension.last());
        assert forall|i: int| 0 <= i < shorter.len() implies #[trigger] shorter[i] != '.' by {
            assert(shorter[i] == extension[i]);
        }
        last_dot_before(name, shorter);
        assert(whole.drop_last() =~= name + seq!['.'] + shorter);
    }
}

/// A name, a dot and an extension of safe characters have that extension.
pub proof fn extension_is_read_back(name: Seq<char>, extension: Seq<char>)
    requires
        name.len() > 0,
        all_safe(extension),
        name != seq!['.'] || extension.len() > 0,
    ensures
        extension_of(name + seq!['.'] + extension) == Some(extension),
{
    assert forall|i: int| 0 <= i < extension.len() implies #[trigger] extension[i] != '.' by {
        assert(safe_char(extension[i]));
    }
    extension_follows_the_last_dot(name, extension);
}

/// The extension of a file name is what follows its last dot, whatever characters it is made of.
pub proof fn extension_follows_the_last_dot(name: Seq<char>, extension: Seq<char>)
    requires
        name.len() > 0,
        forall|i: int| 0 <= i < extension.len() ==> #[trigger] extension[i] != '.',
        name != seq!['.'] || extension.len() > 0,
    ensures
        extension_of(name + seq!['.'] + extension) == Some(extension),
{
    last_dot_before(name, extension);
    let whole = name + seq!['.'] + extension;
    assert(whole.skip(name.len() + 1int) =~= extension);
    if whole == seq!['.', '.'] {
        assert(extension.len() == 0);
        assert(whole[0] == name[0]);
        assert(name =~= seq!['.']);
    }
}

/// Two segments share a metadata file only if they are filed under the same id.
pub proof fn metadata_files_differ(a: Seq<char>, b: Seq<char>)
    requires
        metadata_file(a) == metadata_file(b),
    ensures
        sanitized(a) == sanitized(b),
{
    let (x, y) = (sanitized(a), sanitized(b));
    assert(metadata_file(a).len() == x.len() + ".json"@.len());
    assert(metadata_file(b).len() == y.len() + ".json"@.len());
    assert(x =~= metadata_file(a).take(x.len() as int));
    assert(y =~= metadata_file(b).take(y.len() as int));
}

proof fn no_dot_is_none(name: Seq<char>)
    requires
        forall|i: int| 0 <= i < name.len() ==> #[trigger] name[i] != '.',
    ensures
        last_dot(name) == -1,
    decreases name.len(),
{
    if name.len() > 0 {
        let shorter = name.drop_last();
        assert(name[name.len() - 1] != '.');
        assert forall|i: int| 0 <= i < shorter.len() implies #[trigger] shorter[i] != '.' by {
            assert(shorter[i] == name[i]);
        }
        no_dot_is_none(shorter);
    }
}

/// A file name without a dot has no extension, nor has one whose only dot comes first, nor the name
/// of two dots.
pub proof fn name_without_inner_dot_has_no_extension(name: Seq<char>)
    requires
        forall|i: int| 0 <= i < name.len() ==> #[trigger] name[i] != '.',
    ensures
        extension_of(name) is None,
        extension_of(seq!['.'] + name) is None,
        extension_of(seq!['.', '.']) is None,
{
    no_dot_is_none(name);
    last_dot_before(Seq::empty(), name);
    assert(Seq::<char>::empty() + seq!['.'] + name =~= seq!['.'] + name);
}

/// Safe characters are the ASCII letters and digits, the dash and the underscore.
pub proof fn safe_characters_are_these(c: char)
    ensures
        safe_char(c) <==> (48 <= c as int <= 57 || 65 <= c as int <= 90 || 97 <= c as int <= 122
            || c == '-' || c == '_'),
{
}

proof fn filter_of_parts(a: Seq<char>, b: Seq<char>)
    ensures
        (a + b).filter(|c: char| safe_char(c)) == a.filter(|c: char| safe_char(c)) + b.filter(
            |c: char| safe_char(c),
        ),
{
    Seq::filter_distributes_over_add(a, b, |c: char| safe_char(c));
}

/// A character that is not safe changes no id, wherever it stands; a text without safe characters is
/// filed as `segment`.
pub proof fn unsafe_character_changes_no_id(a: Seq<char>, c: char, b: Seq<char>)
    requires
        !safe_char(c),
    ensures
        sanitized(a + seq![c] + b) == sanitized(a + b),
        sanitized(Seq::empty()) == "segment"@,
        sanitized(seq![c]) == "segment"@,
{
    reveal(Seq::filter);
    let pred = |x: char| safe_char(x);
    assert(seq![c].drop_last() =~= Seq::<char>::empty());
    assert(Seq::<char>::empty().filter(pred) =~= Seq::<char>::empty());
    assert(seq![c].filter(pred) =~= Seq::<char>::empty());
    filter_of_parts(a, b);
    filter_of_parts(a + seq![c], b);
    filter_of_parts(a, seq![c]);
    assert(a.filter(pred) + Seq::<char>::empty() =~= a.filter(pred));
}

/// The safe characters of a text stay in order: a text of safe characters that stands between others
/// is part of the id.
pub proof fn safe_text_stays_in_the_id(a: Seq<char>, safe: Seq<char>, b: Seq<char>)
    requires
        safe.len() > 0,
        all_safe(safe),
    ensures
        contains_text(sanitized(a + safe + b), safe),
        sanitized(safe + b) == safe + b.filter(|c: char| safe_char(c)),
{
    filter_of_parts(a + safe, b);
    filter_of_parts(a, safe);
    filter_of_parts(safe, b);
    filter_keeps_all(safe);
    let pred = |c: char| safe_char(c);
    crate::text::text_is_found_where_it_stands(a.filter(pred), safe, b.filter(pred));
}

/// An id and the names of a segment's files are put together from these pieces.
pub proof fn names_are_made_of_their_pieces(
    millis: nat,
    counter: nat,
    id: Seq<char>,
    extension: Seq<char>,
)
    ensures
        segment_id_text(millis, counter) == "segment-"@ + decimal(millis) + "-"@ + decimal(counter),
        metadata_file(id) == sanitized(id) + ".json"@,
        media_file(id, extension) == sanitized(id) + "."@ + without_leading_dots(extension),
{
}

/// Dots before an extension are passed over, and the rest of it is kept.
pub proof fn leading_dots_are_passed_over(dots: Seq<char>, extension: Seq<char>)
    requires
        forall|i: int| 0 <= i < dots.len() ==> #[trigger] dots[i] == '.',
        extension.len() > 0 ==> extension[0] != '.',
    ensures
        without_leading_dots(dots + extension) == extension,
    decreases dots.len(),
{
    if dots.len() > 0 {
        let fewer = dots.drop_first();
        assert(dots[0] == '.');
        assert((dots + extension).drop_first() =~= fewer + extension);
        assert forall|i: int| 0 <= i < fewer.len() implies #[trigger] fewer[i] == '.' by {
            assert(fewer[i] == dots[i + 1]);
        }
        leading_dots_are_passed_over(fewer, extension);
    } else {
        assert(dots + extension =~= extension);
    }
}

/// What is written down of a finished segment, field by field.
pub proof fn metadata_keeps_every_field<B>(
    metadata: ScreenMemorySegmentMetadata,
    active: ActiveScreenMemorySegment<B>,
    stopped: StoppedRecording,
    bytes: u64,
)
    requires
        is_metadata_of(metadata, active, stopped, bytes),
    ensures
        metadata.id == active.id,
        metadata.path == active.path,
        metadata.mime_type == active.mime_type,
        metadata.started_at == active.started_at_iso,
        metadata.ended_at == stopped.ended_at,
        metadata.duration_ms == stopped.duration_ms,
        metadata.width == active.width,
        metadata.height == active.height,
        metadata.bytes == bytes,
        metadata.corrupt <==> (stopped.has_index == Some(false) && (active.mime_type@
            == "video/mp4"@ || active.mime_type@ == "video/quicktime"@)),
        option_text(metadata.error) == (match stopped.stop_error {
            Some(err) => Some(err@),
            None => if metadata.corrupt {
                Some("Screen Memory segment is missing playback metadata."@)
            } else {
                None
            },
        }),
{
}

/// Why a segment without a recording is given up: with the error of the stop, where there was one,
/// and the cause.
pub proof fn missing_recording_is_told_with_its_causes(
    stop_error: Option<Seq<char>>,
    cause: Seq<char>,
)
    ensures
        missing_message(stop_error, cause) == (match stop_error {
            Some(err) => "Screen Memory segment missing"@ + (" after stop error: "@ + err) + ": "@
                + cause,
            None => "Screen Memory segment missing"@ + Seq::<char>::empty() + ": "@ + cause,
        }),
{
}

/// A segment sorts by when it ended.
pub proof fn segments_are_dated_by_their_end(segment: ScreenMemorySegmentMetadata)
    ensures
        segment.date() == segment.ended_at@,
{
}

/// Slashes and single dots at the end of a path change nothing about the file name that it ends with.
pub proof fn trailing_slashes_are_passed_over(path: Seq<char>)
    requires
        path.len() > 0,
    ensures
        last_part(path + seq!['/']) == last_part(path),
        last_part(path + seq!['/', '.']) == last_part(path),
        file_name_of(path + seq!['/']) == file_name_of(path),
{
    let slash = path + seq!['/'];
    let dot = path + seq!['/', '.'];
    assert(slash.drop_last() =~= path);
    assert(dot.drop_last() =~= slash);
}

/// A path whose last part stands for a folder, or is empty, has no file name.
pub proof fn folders_have_no_file_name(path: Seq<char>)
    ensures
        last_part(path) == seq!['.', '.'] ==> file_name_of(path) is None,
        last_part(path) == seq!['.'] ==> file_name_of(path) is None,
        last_part(path).len() == 0 ==> file_name_of(path) is None,
        file_name_of(path) matches Some(name) ==> name == last_part(path) && name.len() > 0,
{
}

/// What makes a name plain, and a path one that is read alike: no separator and no colon in the name,
/// and not two separators in front of the path.
pub proof fn plain_names_and_shares_are_these(name: Seq<char>, path: Seq<char>)
    ensures
        is_plain_name(name) <==> name.len() > 0 && name != seq!['.'] && name != seq!['.', '.'] && (
        forall|i: int|
            0 <= i < name.len() ==> #[trigger] name[i] != '/' && name[i] != '\\' && name[i] != ':'),
        names_a_share(path) <==> path.len() >= 2 && (path[0] == '/' || path[0] == '\\') && (path[1]
            == '/' || path[1] == '\\'),
        reads_alike(path) <==> !names_a_share(path) && (forall|i: int|
            0 <= i < last_part(path).len() ==> #[trigger] last_part(path)[i] != '/' && last_part(
                path,
            )[i] != '\\' && last_part(path)[i] != ':'),
        all_safe(name) <==> (forall|i: int| 0 <= i < name.len() ==> safe_char(#[trigger] name[i])),
{
    if is_plain_name(name) {
        assert forall|i: int| 0 <= i < name.len() implies #[trigger] name[i] != '/' && name[i]
            != '\\' && name[i] != ':' by {
            assert(!is_separator(name[i]));
        }
    }
    if reads_alike(path) {
        assert forall|i: int| 0 <= i < last_part(path).len() implies #[trigger] last_part(path)[i]
            != '/' && last_part(path)[i] != '\\' && last_part(path)[i] != ':' by {
            assert(!is_separator(last_part(path)[i]));
        }
    }
}

} // verus!
