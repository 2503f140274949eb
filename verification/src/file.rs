//! Stored files: the rows that describe them, the media paths they live
//! under, and the byte-level helpers around them. A file's directory name is
//! derived from a digest: the first byte names the directory and the rest
//! the file, both in lowercase hex. A fresh file is written under a
//! temporary name and renamed once the row is in place.

use vstd::prelude::*;

use base64::Engine;
use sha1::Digest;

verus! {

/// A media path, kept as `/`-separated text.
pub struct Path(pub String);

/// A file row as persisted: where the bytes live and when they changed.
pub struct FileRow {
    pub uid: u128,
    pub filename: String,
    pub mime_type: String,
    pub location: String,
    pub created_at: i64,
    pub updated_at: i64,
}

/// A file as handed out: contents as base64 text.
pub struct File {
    pub uid: u128,
    pub filename: String,
    pub mime_type: String,
    pub data: String,
    pub last_modified: i64,
}

/// The client-supplied part of a file: contents as base64 text.
pub struct FileDescription {
    pub filename: String,
    pub mime_type: String,
    pub data: String,
}

impl FileDescription {
    /// A file needs a name.
    pub fn is_valid(&self) -> (r: bool)
        ensures
            r == (self.filename@.len() > 0),
    {
        self.filename.unicode_len() > 0
    }
}

/// The lowercase hex digit of a value below 16.
pub open spec fn hex_digit(n: u8) -> char {
    if n == 0 {
        '0'
    } else if n == 1 {
        '1'
    } else if n == 2 {
        '2'
    } else if n == 3 {
        '3'
    } else if n == 4 {
        '4'
    } else if n == 5 {
        '5'
    } else if n == 6 {
        '6'
    } else if n == 7 {
        '7'
    } else if n == 8 {
        '8'
    } else if n == 9 {
        '9'
    } else if n == 10 {
        'a'
    } else if n == 11 {
        'b'
    } else if n == 12 {
        'c'
    } else if n == 13 {
        'd'
    } else if n == 14 {
        'e'
    } else {
        'f'
    }
}

/// The lowercase hex encoding of a byte sequence: two digits per byte, high
/// half first.
pub open spec fn hex_of(bytes: Seq<u8>) -> Seq<char>
    decreases bytes.len(),
{
    if bytes.len() == 0 {
        Seq::empty()
    } else {
        seq![hex_digit(bytes.first() / 16), hex_digit(bytes.first() % 16)] + hex_of(
            bytes.drop_first(),
        )
    }
}

/// Appending a byte appends its two digits.
pub proof fn lemma_hex_of_push(s: Seq<u8>, b: u8)
    ensures
        hex_of(s.push(b)) == hex_of(s) + seq![hex_digit(b / 16), hex_digit(b % 16)],
    decreases s.len(),
{
    if s.len() == 0 {
        let t = s.push(b);
        assert(t.len() == 1);
        assert(t.first() == b);
        assert(t.drop_first() =~= Seq::<u8>::empty());
        assert(hex_of(t.drop_first()) == Seq::<char>::empty());
        assert(hex_of(t) == seq![hex_digit(b / 16), hex_digit(b % 16)] + Seq::<char>::empty());
        assert(hex_of(t) =~= hex_of(s) + seq![hex_digit(b / 16), hex_digit(b % 16)]);
    } else {
        lemma_hex_of_push(s.drop_first(), b);
        assert(s.push(b).drop_first() =~= s.drop_first().push(b));
        assert(s.push(b).first() == s.first());
        assert(hex_of(s.push(b)) =~= hex_of(s) + seq![hex_digit(b / 16), hex_digit(b % 16)]);
    }
}

/// Relies on String::push: appends exactly the one character.
#[verifier::external_body]
fn push_char(s: &mut String, c: char)
    ensures
        final(s)@ == old(s)@ + seq![c],
{
    s.push(c);
}

/// The lowercase hex digit of a value below 16.
pub fn hex_digit_char(n: u8) -> (r: char)
    requires
        n < 16,
    ensures
        r == hex_digit(n),
{
    match n {
        0 => '0',
        1 => '1',
        2 => '2',
        3 => '3',
        4 => '4',
        5 => '5',
        6 => '6',
        7 => '7',
        8 => '8',
        9 => '9',
        10 => 'a',
        11 => 'b',
        12 => 'c',
        13 => 'd',
        14 => 'e',
        _ => 'f',
    }
}

/// Encodes `bytes[from..to]` as lowercase hex.
pub fn to_hex_range(bytes: &[u8], from: usize, to: usize) -> (r: String)
    requires
        from <= to <= bytes@.len(),
    ensures
        r@ == hex_of(bytes@.subrange(from as int, to as int)),
{
    let mut out = String::new();
    let mut i: usize = from;
    proof {
        assert(bytes@.subrange(from as int, from as int) =~= Seq::<u8>::empty());
    }
    while i < to
        invariant
            from <= i <= to <= bytes@.len(),
            out@ == hex_of(bytes@.subrange(from as int, i as int)),
        decreases to - i,
    {
        let b = bytes[i];
        let hi = hex_digit_char(b / 16);
        let lo = hex_digit_char(b % 16);
        push_char(&mut out, hi);
        push_char(&mut out, lo);
        proof {
            lemma_hex_of_push(bytes@.subrange(from as int, i as int), b);
            assert(bytes@.subrange(from as int, i as int + 1) =~= bytes@.subrange(
                from as int,
                i as int,
            ).push(b));
            assert(out@ =~= hex_of(bytes@.subrange(from as int, i as int + 1)));
        }
        i += 1;
    }
    out
}

/// Encodes a whole byte slice as lowercase hex.
pub fn to_hex(bytes: &[u8]) -> (r: String)
    ensures
        r@ == hex_of(bytes@),
{
    let n = bytes.len();
    let r = to_hex_range(bytes, 0, n);
    proof {
        assert(bytes@.subrange(0, bytes@.len() as int) =~= bytes@);
    }
    r
}

/// The text a path join produces, with the platform's push rules on `/`
/// separators: an absolute second part replaces the base outright, an empty
/// base contributes nothing, and a separator is inserted only where the
/// base does not already end in one.
pub open spec fn spec_join_path(base: Seq<char>, path: Seq<char>) -> Seq<char> {
    if path.len() > 0 && path[0] == '/' {
        path
    } else if base.len() == 0 {
        path
    } else if base[base.len() - 1] == '/' {
        base + path
    } else {
        base + "/"@ + path
    }
}

impl Path {
    /// Joins the media base path and a further part, with the push rules of
    /// `spec_join_path`: an absolute part replaces the base.
    pub fn from_relative_path(base_path: &str, path: &str) -> (r: Path)
        ensures
            r.0@ == spec_join_path(base_path@, path@),
    {
        let path_len = path.unicode_len();
        if path_len > 0 && path.get_char(0) == '/' {
            return Path(String::from_str(path));
        }
        let base_len = base_path.unicode_len();
        if base_len == 0 {
            return Path(String::from_str(path));
        }
        if base_path.get_char(base_len - 1) == '/' {
            let joined = String::from_str(base_path).concat(path);
            return Path(joined);
        }
        let joined = String::from_str(base_path).concat("/").concat(path);
        proof {
            assert(joined@ =~= base_path@ + "/"@ + path@);
        }
        Path(joined)
    }

    /// The media path of a stored file row.
    pub fn from_file_row(base_path: &str, file_row: &FileRow) -> (r: Path)
        ensures
            r.0@ == spec_join_path(base_path@, file_row.location@),
    {
        Self::from_relative_path(base_path, file_row.location.as_str())
    }

    /// The media path a digest maps to under the base: the first byte names
    /// the directory, the remaining bytes the file, both in lowercase hex.
    pub fn from_hash(base_path: &str, dir_hash: &[u8]) -> (r: Path)
        requires
            dir_hash@.len() >= 1,
        ensures
            r.0@ == spec_join_path(
                base_path@,
                hex_of(dir_hash@.subrange(0, 1)) + "/"@ + hex_of(
                    dir_hash@.subrange(1, dir_hash@.len() as int),
                ),
            ),
    {
        let n = dir_hash.len();
        let dir = to_hex_range(dir_hash, 0, 1);
        let filename = to_hex_range(dir_hash, 1, n);
        let relative = dir.concat("/").concat(filename.as_str());
        proof {
            assert(relative@ =~= hex_of(dir_hash@.subrange(0, 1)) + "/"@ + hex_of(
                dir_hash@.subrange(1, dir_hash@.len() as int),
            ));
        }
        Self::from_relative_path(base_path, relative.as_str())
    }
}

/// The name a file is written under before its row exists.
pub fn get_temp_file_name(orig_name: &str) -> (r: String)
    ensures
        r@ == orig_name@ + ".tmp"@,
{
    String::from_str(orig_name).concat(".tmp")
}

/// The stored name behind a temporary name: the suffix cut off.
pub fn strip_tmp_suffix(temp_file_name: &str) -> (r: &str)
    requires
        temp_file_name@.len() >= 4,
    ensures
        r@ == temp_file_name@.subrange(0, temp_file_name@.len() - 4),
{
    let n = temp_file_name.unicode_len();
    temp_file_name.substring_char(0, n - 4)
}

/// Cutting the suffix off a temporary name gives the original name back.
pub proof fn lemma_temp_name_round_trip(name: Seq<char>)
    ensures
        (name + ".tmp"@).len() >= 4,
        (name + ".tmp"@).subrange(0, (name + ".tmp"@).len() - 4) == name,
{
    reveal_strlit(".tmp");
    assert((name + ".tmp"@).subrange(0, (name + ".tmp"@).len() - 4) =~= name);
}

/// The digest that stored contents are named by.
pub uninterp spec fn sha1_of(data: Seq<u8>) -> Seq<u8>;

/// Relies on Sha1::digest: a 20-byte digest, a function of the input bytes
/// alone.
#[verifier::external_body]
pub fn sha1_digest(data: &[u8]) -> (r: Vec<u8>)
    ensures
        r@ == sha1_of(data@),
        r@.len() == 20,
{
    sha1::Sha1::digest(data).to_vec()
}

/// The base64 text (standard alphabet, no padding) of a byte sequence.
pub uninterp spec fn base64_of(data: Seq<u8>) -> Seq<char>;

/// Relies on the STANDARD_NO_PAD engine's encode: standard alphabet, no
/// padding, a function of the input bytes alone; empty input gives empty
/// text.
#[verifier::external_body]
pub fn base64_encode(data: &[u8]) -> (r: String)
    ensures
        r@ == base64_of(data@),
        data@.len() == 0 ==> r@.len() == 0,
{
    base64::engine::general_purpose::STANDARD_NO_PAD.encode(data)
}

/// Relies on the STANDARD_NO_PAD engine's decode: it accepts exactly the
/// canonical unpadded encodings (no padding, no trailing bits), so what it
/// accepts is the encoding of what it returns.
#[verifier::external_body]
pub fn base64_decode(text: &str) -> (r: Option<Vec<u8>>)
    ensures
        r matches Some(v) ==> text@ == base64_of(v@),
{
    match base64::engine::general_purpose::STANDARD_NO_PAD.decode(text) {
        Ok(v) => Some(v),
        Err(_) => None,
    }
}

/// Assembles the file handed out for a stored row and its encoded contents.
pub fn file_from_row(row: &FileRow, data: String) -> (r: File)
    ensures
        r.uid == row.uid,
        r.filename@ == row.filename@,
        r.mime_type@ == row.mime_type@,
        r.data@ == data@,
        r.last_modified == row.updated_at,
{
    File {
        uid: row.uid,
        filename: row.filename.clone(),
        mime_type: row.mime_type.clone(),
        data,
        last_modified: row.updated_at,
    }
}

} // verus!
