//! Output paths: where an encrypted or decrypted file goes, and the event
//! name under which progress for a path is reported.
//!
//! Paths are `/`-separated text. The file name is what follows the last `/`;
//! its extension is what follows its last `.`, unless that `.` is the first
//! character of the name.

use vstd::prelude::*;

use crate::types::ResponseTextCode;

verus! {

/// The index of the last `c` in `s`, or -1 when there is none.
pub open spec fn last_index(s: Seq<char>, c: char) -> int
    decreases s.len(),
{
    if s.len() == 0 {
        -1
    } else if s.last() == c {
        s.len() - 1
    } else {
        last_index(s.drop_last(), c)
    }
}

proof fn lemma_last_index(s: Seq<char>, c: char)
    ensures
        -1 <= last_index(s, c) < s.len(),
        last_index(s, c) >= 0 ==> s[last_index(s, c)] == c,
        forall|j: int| last_index(s, c) < j < s.len() ==> #[trigger] s[j] != c,
    decreases s.len(),
{
    if s.len() > 0 && s.last() != c {
        let t = s.drop_last();
        lemma_last_index(t, c);
        assert forall|j: int| last_index(s, c) < j < s.len() implies #[trigger] s[j] != c by {
            if j < t.len() {
                assert(s[j] == t[j]);
            }
        }
    }
}

/// No character of `s` is `c`.
pub open spec fn lacks(s: Seq<char>, c: char) -> bool {
    forall|i: int| 0 <= i < s.len() ==> #[trigger] s[i] != c
}

proof fn lemma_last_index_append(a: Seq<char>, b: Seq<char>, c: char)
    requires
        lacks(b, c),
    ensures
        last_index(a + b, c) == last_index(a, c),
    decreases b.len(),
{
    if b.len() == 0 {
        assert(a + b =~= a);
    } else {
        assert((a + b).last() == b.last());
        assert((a + b).drop_last() =~= a + b.drop_last());
        assert(lacks(b.drop_last(), c)) by {
            assert forall|i: int| 0 <= i < b.drop_last().len() implies #[trigger] b.drop_last()[i] != c by {
                assert(b.drop_last()[i] == b[i]);
            }
        }
        lemma_last_index_append(a, b.drop_last(), c);
    }
}

proof fn lemma_lacks_concat(a: Seq<char>, b: Seq<char>, c: char)
    requires
        lacks(a, c),
        lacks(b, c),
    ensures
        lacks(a + b, c),
{
    assert forall|i: int| 0 <= i < (a + b).len() implies #[trigger] (a + b)[i] != c by {
        if i < a.len() {
            assert((a + b)[i] == a[i]);
        } else {
            assert((a + b)[i] == b[i - a.len()]);
        }
    }
}

proof fn lemma_lacks_subrange(s: Seq<char>, i: int, j: int, c: char)
    requires
        lacks(s, c),
        0 <= i <= j <= s.len(),
    ensures
        lacks(s.subrange(i, j), c),
{
    assert forall|k: int| 0 <= k < s.subrange(i, j).len() implies #[trigger] s.subrange(i, j)[k] != c by {
        assert(s.subrange(i, j)[k] == s[i + k]);
    }
}

/// The directory part of a path, with its trailing `/` (empty when there is none).
pub open spec fn dir_part(path: Seq<char>) -> Seq<char> {
    path.subrange(0, last_index(path, '/') + 1)
}

/// The file name: what follows the last `/`.
pub open spec fn name_part(path: Seq<char>) -> Seq<char> {
    path.subrange(last_index(path, '/') + 1, path.len() as int)
}

/// A name that stands for a file: not empty, `.` or `..`.
pub open spec fn valid_name(name: Seq<char>) -> bool {
    name.len() > 0 && name != seq!['.'] && name != seq!['.', '.']
}

/// The name without its extension.
pub open spec fn stem_of(name: Seq<char>) -> Seq<char> {
    if last_index(name, '.') <= 0 {
        name
    } else {
        name.subrange(0, last_index(name, '.'))
    }
}

/// The name's extension, without the dot.
pub open spec fn extension_of(name: Seq<char>) -> Option<Seq<char>> {
    if last_index(name, '.') <= 0 {
        None
    } else {
        Some(name.subrange(last_index(name, '.') + 1, name.len() as int))
    }
}

/// `.` and the extension, or nothing when there is no extension.
pub open spec fn dotted(ext: Option<Seq<char>>) -> Seq<char> {
    match ext {
        Some(e) => seq!['.'] + e,
        None => Seq::empty(),
    }
}

/// The extension that marks an encrypted file, with its dot.
pub open spec fn marker() -> Seq<char> {
    seq!['.', 'e', 'n', 'c']
}

/// The name with `_` and the timestamp put in before its extension.
pub open spec fn stamped_name(name: Seq<char>, timestamp: Seq<char>) -> Seq<char> {
    stem_of(name) + seq!['_'] + timestamp + dotted(extension_of(name))
}

/// Where the output of encrypting (`encrypt`) or decrypting a file at `path`
/// goes; with `timestamp`, the variant used when the first choice is taken.
/// Encryption appends `.enc` to the name; decryption strips the last
/// extension, which it requires.
pub open spec fn output_path(path: Seq<char>, encrypt: bool, timestamp: Option<Seq<char>>) -> Result<Seq<char>, ResponseTextCode> {
    let dir = dir_part(path);
    let name = name_part(path);
    if path.len() == 0 {
        Err(ResponseTextCode::ParentDirectoryRetrieveFailed)
    } else if !valid_name(name) {
        Err(ResponseTextCode::FileNameExtractionFailed)
    } else if encrypt {
        match timestamp {
            None => Ok(dir + name + marker()),
            Some(ts) => Ok(dir + stamped_name(name, ts) + marker()),
        }
    } else if extension_of(name) is None {
        Err(ResponseTextCode::FileExtensionExtractionFailed)
    } else if !valid_name(stem_of(name)) {
        Err(ResponseTextCode::FileNameExtractionFailed)
    } else {
        match timestamp {
            None => Ok(dir + stem_of(name)),
            Some(ts) => Ok(dir + stamped_name(stem_of(name), ts)),
        }
    }
}

/// The view of a path result.
pub open spec fn path_view(r: Result<String, ResponseTextCode>) -> Result<Seq<char>, ResponseTextCode> {
    match r {
        Ok(s) => Ok(s@),
        Err(e) => Err(e),
    }
}

/// The last `c` in `s`.
fn find_last(s: &str, c: char) -> (r: Option<usize>)
    ensures
        match r {
            Some(i) => i as int == last_index(s@, c) && i < s@.len(),
            None => last_index(s@, c) == -1,
        },
{
    let n = s.unicode_len();
    let mut i: usize = n;
    assert(s@.subrange(0, n as int) =~= s@);
    while i > 0
        invariant
            i <= n,
            n == s@.len(),
            last_index(s@, c) == last_index(s@.subrange(0, i as int), c),
        decreases i,
    {
        let ch = s.get_char(i - 1);
        assert(s@.subrange(0, i as int).drop_last() =~= s@.subrange(0, i - 1));
        if ch == c {
            return Some(i - 1);
        }
        i = i - 1;
    }
    None
}

} // verus!

verus! {

/// Splits a path into its directory part and its file name.
fn split_path(path: &str) -> (r: (&str, &str))
    ensures
        r.0@ == dir_part(path@),
        r.1@ == name_part(path@),
{
    let n = path.unicode_len();
    match find_last(path, '/') {
        Some(i) => (path.substring_char(0, i + 1), path.substring_char(i + 1, n)),
        None => (path.substring_char(0, 0), path.substring_char(0, n)),
    }
}

/// Splits a file name into its stem and its extension.
fn split_name(name: &str) -> (r: (&str, Option<&str>))
    ensures
        r.0@ == stem_of(name@),
        match r.1 {
            Some(e) => extension_of(name@) == Some(e@),
            None => extension_of(name@) is None,
        },
{
    let n = name.unicode_len();
    match find_last(name, '.') {
        Some(i) => {
            if i == 0 {
                (name, None)
            } else {
                (name.substring_char(0, i), Some(name.substring_char(i + 1, n)))
            }
        },
        None => (name, None),
    }
}

fn is_valid_name(name: &str) -> (r: bool)
    ensures
        r == valid_name(name@),
{
    let n = name.unicode_len();
    if n == 0 {
        return false;
    }
    let first = name.get_char(0);
    if n == 1 {
        assert(first == '.' ==> name@ =~= seq!['.']);
        return first != '.';
    }
    if n == 2 {
        let second = name.get_char(1);
        assert(first == '.' && second == '.' ==> name@ =~= seq!['.', '.']);
        return !(first == '.' && second == '.');
    }
    true
}

/// The name with `_` and the timestamp put in before its extension.
fn stamp_name(name: &str, timestamp: &str) -> (r: String)
    ensures
        r@ == stamped_name(name@, timestamp@),
{
    proof {
        reveal_strlit("_");
        reveal_strlit(".");
    }
    let (stem, ext) = split_name(name);
    let mut out = String::from_str(stem);
    out.append("_");
    out.append(timestamp);
    match ext {
        Some(e) => {
            out.append(".");
            out.append(e);
            assert(out@ =~= stamped_name(name@, timestamp@));
        },
        None => {
            assert(out@ =~= stamped_name(name@, timestamp@));
        },
    }
    out
}

/// The view of an optional timestamp.
pub open spec fn timestamp_view(timestamp: Option<&str>) -> Option<Seq<char>> {
    match timestamp {
        Some(t) => Some(t@),
        None => None,
    }
}

fn resolve_output_path(input_path: &str, is_encryption: bool, timestamp: Option<&str>) -> (r: Result<String, ResponseTextCode>)
    ensures
        path_view(r) == output_path(input_path@, is_encryption, timestamp_view(timestamp)),
{
    proof {
        reveal_strlit(".enc");
        assert(".enc"@ =~= marker());
    }
    if input_path.unicode_len() == 0 {
        return Err(ResponseTextCode::ParentDirectoryRetrieveFailed);
    }
    let (dir, name) = split_path(input_path);
    if !is_valid_name(name) {
        return Err(ResponseTextCode::FileNameExtractionFailed);
    }
    let mut out = String::from_str(dir);
    if is_encryption {
        match timestamp {
            None => out.append(name),
            Some(ts) => {
                let stamped = stamp_name(name, ts);
                out.append(stamped.as_str());
            },
        }
        out.append(".enc");
        assert(out@ =~= output_path(input_path@, is_encryption, timestamp_view(timestamp))->Ok_0);
        return Ok(out);
    }
    let (inner, ext) = split_name(name);
    if ext.is_none() {
        return Err(ResponseTextCode::FileExtensionExtractionFailed);
    }
    if !is_valid_name(inner) {
        return Err(ResponseTextCode::FileNameExtractionFailed);
    }
    match timestamp {
        None => out.append(inner),
        Some(ts) => {
            let stamped = stamp_name(inner, ts);
            out.append(stamped.as_str());
        },
    }
    Ok(out)
}

/// The first choice of output path for `input_path`: `name.ext.enc` when
/// encrypting, the name without its last extension when decrypting.
pub fn default_output_path(input_path: &str, is_encryption: bool) -> (r: Result<String, ResponseTextCode>)
    ensures
        path_view(r) == output_path(input_path@, is_encryption, None),
        r matches Ok(q) ==> placed_beside(input_path@, is_encryption, q@),
{
    let r = resolve_output_path(input_path, is_encryption, None);
    proof {
        if r is Ok {
            lemma_output_path_placed(input_path@, is_encryption, None);
        }
    }
    r
}

/// The output path used when the first choice is taken: `_` and the timestamp
/// go in before the file's own extension (`name_<ts>.ext.enc`, `name_<ts>.ext`).
pub fn timestamped_output_path(input_path: &str, is_encryption: bool, timestamp: &str) -> (r: Result<String, ResponseTextCode>)
    ensures
        path_view(r) == output_path(input_path@, is_encryption, Some(timestamp@)),
{
    resolve_output_path(input_path, is_encryption, Some(timestamp))
}

/// A character chrono writes for `%Y%m%dT%H%M%S`: a digit, the `T`, or the
/// sign of a year outside 0 to 9999.
pub open spec fn is_timestamp_char(c: char) -> bool {
    ('0' <= c <= '9') || c == 'T' || c == '+' || c == '-'
}

/// What every rendering of `%Y%m%dT%H%M%S` looks like: at least 15
/// characters (the year has at least 4 digits, the other fields 2 each),
/// each a timestamp character.
pub open spec fn is_timestamp_text(t: Seq<char>) -> bool {
    t.len() >= 15 && forall|i: int| 0 <= i < t.len() ==> is_timestamp_char(#[trigger] t[i])
}

/// Relies on chrono: `Local::now()` rendered by `format`, here with the
/// second-resolution pattern `%Y%m%dT%H%M%S` (a valid pattern, so rendering
/// does not fail). chrono documents `%Y` as the year zero-padded to 4 digits,
/// with a sign before years outside 0 to 9999, and `%m`, `%d`, `%H`, `%M`,
/// `%S` as two digits each; which digits come depends on the clock.
#[verifier::external_body]
fn local_time_text(pattern: &str) -> (r: String)
    requires
        pattern@ == "%Y%m%dT%H%M%S"@,
    ensures
        is_timestamp_text(r@),
{
    chrono::Local::now().format(pattern).to_string()
}

/// The output path for `input_path`, given whether the first choice is
/// already taken on disk; when it is, the current local time, to the second,
/// goes into the name.
pub fn create_unique_output_path(input_path: &str, is_encryption: bool, default_taken: bool) -> (r: Result<String, ResponseTextCode>)
    ensures
        !default_taken ==> path_view(r) == output_path(input_path@, is_encryption, None),
        default_taken ==> exists|ts: Seq<char>|
            is_timestamp_text(ts) && path_view(r) == output_path(input_path@, is_encryption, Some(ts)),
        r matches Ok(q) ==> placed_beside(input_path@, is_encryption, q@),
{
    if !default_taken {
        default_output_path(input_path, is_encryption)
    } else {
        let timestamp = local_time_text("%Y%m%dT%H%M%S");
        let r = timestamped_output_path(input_path, is_encryption, timestamp.as_str());
        proof {
            if r is Ok {
                assert(lacks(timestamp@, '/')) by {
                    assert forall|i: int| 0 <= i < timestamp@.len() implies #[trigger] timestamp@[i] != '/' by {
                        assert(is_timestamp_char(timestamp@[i]));
                    }
                }
                lemma_output_path_placed(input_path@, is_encryption, Some(timestamp@));
            }
        }
        r
    }
}

} // verus!

verus! {

/// `stamped_name` differs from `name + tail` at the end of the stem, where
/// one has `_` and the other `.`, whenever `tail` starts with `.` or the name
/// has an extension.
proof fn lemma_stamp_differs(dir: Seq<char>, name: Seq<char>, ts: Seq<char>, tail: Seq<char>)
    requires
        tail.len() > 0,
        tail[0] == '.',
    ensures
        dir + name + tail != dir + stamped_name(name, ts) + tail,
{
    lemma_last_index(name, '.');
    let a = dir + name + tail;
    let b = dir + stamped_name(name, ts) + tail;
    let k: int = dir.len() + stem_of(name).len() as int;
    assert(b[k] == '_');
    if extension_of(name) is Some {
        assert(a[k] == name[last_index(name, '.')]);
    } else {
        assert(a[k] == tail[0]);
    }
    assert(a[k] != b[k]);
}

/// Resolving a collision never lands on the path that collided: for every
/// timestamp, the timestamped output path differs from the first choice.
pub proof fn lemma_timestamped_path_differs(path: Seq<char>, encrypt: bool, timestamp: Seq<char>)
    requires
        output_path(path, encrypt, None) is Ok,
    ensures
        output_path(path, encrypt, Some(timestamp)) is Ok,
        output_path(path, encrypt, Some(timestamp))->Ok_0 != output_path(path, encrypt, None)->Ok_0,
{
    let dir = dir_part(path);
    let name = name_part(path);
    if encrypt {
        lemma_stamp_differs(dir, name, timestamp, marker());
    } else {
        let inner = stem_of(name);
        lemma_last_index(inner, '.');
        let a = dir + inner;
        let b = dir + stamped_name(inner, timestamp);
        if extension_of(inner) is Some {
            let k: int = dir.len() + stem_of(inner).len() as int;
            assert(b[k] == '_');
            assert(a[k] == inner[last_index(inner, '.')]);
            assert(a[k] != b[k]);
        } else {
            assert(b.len() > a.len());
        }
    }
}

} // verus!

verus! {

/// A character that stays as it is in an event name: an ASCII letter or
/// digit, `-`, `/`, `:` or `_`.
pub open spec fn is_event_safe(c: char) -> bool {
    ('a' <= c <= 'z') || ('A' <= c <= 'Z') || ('0' <= c <= '9') || c == '-' || c == '/' || c == ':'
        || c == '_'
}

/// The path with every character that is not event-safe replaced by `_`.
pub open spec fn sanitized(path: Seq<char>) -> Seq<char> {
    path.map_values(|c: char| if is_event_safe(c) { c } else { '_' })
}

proof fn lemma_sanitized_push(s: Seq<char>, c: char)
    ensures
        sanitized(s.push(c)) == sanitized(s).push(if is_event_safe(c) { c } else { '_' }),
{
    assert(sanitized(s.push(c)) =~= sanitized(s).push(if is_event_safe(c) { c } else { '_' }));
}

/// Makes a path safe to use inside an event name.
pub fn sanitize_path(path: &str) -> (r: String)
    ensures
        r@ == sanitized(path@),
{
    let n = path.unicode_len();
    let mut out = String::new();
    let mut i: usize = 0;
    while i < n
        invariant
            i <= n,
            n == path@.len(),
            out@ == sanitized(path@.subrange(0, i as int)),
        decreases n - i,
    {
        let c = path.get_char(i);
        let safe = ('a' <= c && c <= 'z') || ('A' <= c && c <= 'Z') || ('0' <= c && c <= '9')
            || c == '-' || c == '/' || c == ':' || c == '_';
        assert(safe == is_event_safe(c));
        assert(path@.subrange(0, i + 1) =~= path@.subrange(0, i as int).push(c));
        proof {
            lemma_sanitized_push(path@.subrange(0, i as int), c);
        }
        if safe {
            let one = path.substring_char(i, i + 1);
            assert(one@ =~= seq![c]);
            out.append(one);
        } else {
            proof {
                reveal_strlit("_");
            }
            assert("_"@ =~= seq!['_']);
            out.append("_");
        }
        assert(out@ =~= sanitized(path@.subrange(0, i + 1)));
        i = i + 1;
    }
    assert(path@.subrange(0, n as int) =~= path@);
    out
}

/// The name of the event that carries progress for the file at `path`.
pub open spec fn progress_event_name(is_encryption: bool, path: Seq<char>) -> Seq<char> {
    if is_encryption {
        "encryption_progress_"@ + sanitized(path)
    } else {
        "decryption_progress_"@ + sanitized(path)
    }
}

/// The event name under which progress for the file at `path` is reported.
pub fn progress_event(is_encryption: bool, path: &str) -> (r: String)
    ensures
        r@ == progress_event_name(is_encryption, path@),
{
    let safe = sanitize_path(path);
    let mut name = if is_encryption {
        String::from_str("encryption_progress_")
    } else {
        String::from_str("decryption_progress_")
    };
    name.append(safe.as_str());
    name
}


/// Where an output path stands relative to its input: in the same directory,
/// not the input itself, and, when encrypting, ending in `.enc`.
pub open spec fn placed_beside(input: Seq<char>, encrypt: bool, output: Seq<char>) -> bool {
    &&& dir_part(output) == dir_part(input)
    &&& output != input
    &&& encrypt ==> output.len() >= marker().len() && output.subrange(
        output.len() - marker().len(),
        output.len() as int,
    ) == marker()
}

/// The stem, extension and stamped name of a name without `c` have no `c`
/// either, provided the timestamp has none.
proof fn lemma_name_parts_lack(name: Seq<char>, ts: Seq<char>, c: char)
    requires
        lacks(name, c),
        lacks(ts, c),
        c != '.',
        c != '_',
    ensures
        lacks(stem_of(name), c),
        lacks(dotted(extension_of(name)), c),
        lacks(stamped_name(name, ts), c),
{
    lemma_last_index(name, '.');
    let d = last_index(name, '.');
    if d > 0 {
        lemma_lacks_subrange(name, 0, d, c);
        lemma_lacks_subrange(name, d + 1, name.len() as int, c);
        lemma_lacks_concat(seq!['.'], name.subrange(d + 1, name.len() as int), c);
    }
    assert(lacks(seq!['_'], c));
    lemma_lacks_concat(stem_of(name), seq!['_'], c);
    lemma_lacks_concat(stem_of(name) + seq!['_'], ts, c);
    lemma_lacks_concat(stem_of(name) + seq!['_'] + ts, dotted(extension_of(name)), c);
}

/// The stem followed by the dotted extension is the name again.
proof fn lemma_name_split(name: Seq<char>)
    ensures
        stem_of(name) + dotted(extension_of(name)) == name,
        extension_of(name) is Some ==> stem_of(name).len() < name.len() && name[stem_of(name).len() as int] == '.',
{
    lemma_last_index(name, '.');
    let d = last_index(name, '.');
    if d > 0 {
        assert(stem_of(name) + dotted(extension_of(name)) =~= name);
    } else {
        assert(stem_of(name) + dotted(extension_of(name)) =~= name);
    }
}

/// Every output path the resolver gives, first choice or timestamped with a
/// timestamp free of `/`, lies in the input's directory, is not the input,
/// and ends in `.enc` when encrypting.
pub proof fn lemma_output_path_placed(path: Seq<char>, encrypt: bool, timestamp: Option<Seq<char>>)
    requires
        output_path(path, encrypt, timestamp) is Ok,
        timestamp matches Some(t) ==> lacks(t, '/'),
    ensures
        placed_beside(path, encrypt, output_path(path, encrypt, timestamp)->Ok_0),
{
    let q = output_path(path, encrypt, timestamp)->Ok_0;
    let li = last_index(path, '/');
    lemma_last_index(path, '/');
    let dir = dir_part(path);
    let name = name_part(path);
    let ts = match timestamp {
        Some(t) => t,
        None => Seq::<char>::empty(),
    };
    assert(lacks(name, '/')) by {
        assert forall|i: int| 0 <= i < name.len() implies #[trigger] name[i] != '/' by {
            assert(name[i] == path[li + 1 + i]);
        }
    }
    assert(lacks(marker(), '/'));
    lemma_name_parts_lack(name, ts, '/');
    lemma_name_split(name);
    let inner = stem_of(name);
    lemma_name_parts_lack(inner, ts, '/');
    lemma_name_split(inner);
    let rest = if encrypt {
        match timestamp {
            None => name + marker(),
            Some(t) => stamped_name(name, t) + marker(),
        }
    } else {
        match timestamp {
            None => inner,
            Some(t) => stamped_name(inner, t),
        }
    };
    assert(q == dir + rest);
    if encrypt {
        match timestamp {
            None => lemma_lacks_concat(name, marker(), '/'),
            Some(t) => lemma_lacks_concat(stamped_name(name, t), marker(), '/'),
        }
    }
    assert(lacks(rest, '/'));
    // The directory part of the output is the input's.
    lemma_last_index_append(dir, rest, '/');
    if li >= 0 {
        assert(dir.last() == path[li]);
    } else {
        assert(dir =~= Seq::<char>::empty());
    }
    assert(last_index(dir, '/') == li);
    assert(dir_part(q) =~= dir);
    // The output is not the input: the part after the directory differs.
    assert(path =~= dir + name);
    assert(rest != name) by {
        if encrypt {
            if timestamp is Some {
                assert(rest.len() > name.len());
            } else {
                assert(rest.len() > name.len());
            }
        } else if timestamp is None {
            assert(rest.len() < name.len());
        } else {
            let k: int = stem_of(inner).len() as int;
            assert(rest[k] == '_');
            assert(inner =~= name.subrange(0, inner.len() as int));
            assert(name[k] == '.');
        }
    }
    assert(q.subrange(dir.len() as int, q.len() as int) =~= rest);
    assert(path.subrange(dir.len() as int, path.len() as int) =~= name);
    if encrypt {
        assert(q.subrange(q.len() - marker().len(), q.len() as int) =~= marker());
    }
}

} // verus!
