//! Paths as the operating system holds them. A path is bytes that need not be
//! text; it is kept as it is, and turned into text only to be shown.

use crate::wire::{append_bytes, copy_bytes};
use vstd::prelude::*;
use vstd::string::*;
use vstd::utf8::*;

verus! {

/// A path in the bytes of the operating system.
#[derive(Clone, Debug, PartialEq, Eq, Hash)]
pub struct NativePath {
    bytes: Vec<u8>,
}

impl View for NativePath {
    type V = Seq<u8>;

    closed spec fn view(&self) -> Seq<u8> {
        self.bytes@
    }
}

/// The text that is shown for bytes that need not be text.
pub uninterp spec fn lossy_text(bytes: Seq<u8>) -> Seq<char>;

/// `String::from_utf8_lossy` puts the replacement character for what is not
/// UTF-8; bytes that are UTF-8 give the text that they encode.
#[verifier::external_body]
fn text_from_utf8_lossy(bytes: &[u8]) -> (s: String)
    ensures
        s@ == lossy_text(bytes@),
        valid_utf8(bytes@) ==> s@ == decode_utf8(bytes@),
{
    String::from_utf8_lossy(bytes).into_owned()
}

/// A path below a directory.
pub open spec fn below(directory: Seq<u8>, name: Seq<char>) -> Seq<u8> {
    if directory.len() == 0 || directory.last() == 47 {
        directory + encode_utf8(name)
    } else {
        directory + seq![47u8] + encode_utf8(name)
    }
}

impl NativePath {
    /// The path with these bytes.
    pub fn new(bytes: Vec<u8>) -> (p: NativePath)
        ensures
            p@ == bytes@,
    {
        NativePath { bytes }
    }

    /// The bytes of this path.
    pub fn as_bytes(&self) -> (b: &[u8])
        ensures
            b@ == self@,
    {
        self.bytes.as_slice()
    }

    /// The bytes of this path.
    pub fn into_bytes(self) -> (b: Vec<u8>)
        ensures
            b@ == self@,
    {
        self.bytes
    }

    /// Another path with the same bytes.
    pub fn copied(&self) -> (p: NativePath)
        ensures
            p@ == self@,
    {
        NativePath { bytes: copy_bytes(&self.bytes) }
    }

    /// Whether this path has no bytes.
    pub fn is_empty(&self) -> (b: bool)
        ensures
            b == (self@.len() == 0),
    {
        self.bytes.len() == 0
    }

    /// The path of a file or a directory with this name below this one.
    pub fn join(&self, name: &str) -> (p: NativePath)
        ensures
            p@ == below(self@, name@),
    {
        let mut bytes = copy_bytes(&self.bytes);
        if bytes.len() > 0 && bytes[bytes.len() - 1] != 47 {
            bytes.push(47);
            assert(bytes@ =~= self@ + seq![47u8]);
        }
        append_bytes(&mut bytes, name.as_bytes());
        NativePath { bytes }
    }

    /// The text that is shown for this path.
    pub fn shown(&self) -> (s: String)
        ensures
            s@ == lossy_text(self@),
            valid_utf8(self@) ==> s@ == decode_utf8(self@),
    {
        text_from_utf8_lossy(self.bytes.as_slice())
    }
}

/// Different names below one directory are different paths.
pub proof fn law_names_tell_paths_apart(directory: Seq<u8>, a: Seq<char>, b: Seq<char>)
    requires
        a != b,
    ensures
        below(directory, a) != below(directory, b),
{
    let front = if directory.len() == 0 || directory.last() == 47 {
        directory
    } else {
        directory + seq![47u8]
    };
    if below(directory, a) == below(directory, b) {
        encode_utf8_decode_utf8(a);
        encode_utf8_decode_utf8(b);
        assert(below(directory, a).skip(front.len() as int) =~= encode_utf8(a));
        assert(below(directory, b).skip(front.len() as int) =~= encode_utf8(b));
    }
}

/// A path below a directory begins with the directory and ends with the name. Between
/// them stands one slash, which a directory that ends with a slash brings along; the
/// empty directory adds nothing.
pub proof fn law_names_follow_their_directory(directory: Seq<u8>, name: Seq<char>)
    ensures
        directory.is_prefix_of(below(directory, name)),
        encode_utf8(name).is_suffix_of(below(directory, name)),
        directory.len() == 0 ==> below(directory, name) == encode_utf8(name),
        directory.len() > 0 && directory.last() == 47 ==> below(directory, name).len()
            == directory.len() + encode_utf8(name).len(),
        directory.len() > 0 && directory.last() != 47 ==> below(directory, name).len()
            == directory.len() + 1 + encode_utf8(name).len() && below(
            directory,
            name,
        )[directory.len() as int] == 47,
{
    let path = below(directory, name);
    let tail = encode_utf8(name);
    assert(path.take(directory.len() as int) =~= directory);
    assert(path.skip(path.len() - tail.len()) =~= tail);
    if directory.len() == 0 {
        assert(path =~= tail);
    }
}

} // verus!
