//! Unix paths as the bytes that they are made of.

use vstd::prelude::*;
use vstd::string::*;

use crate::text;

verus! {

broadcast use vstd::string::group_string_axioms;

/// The bytes of a string.
pub open spec fn bytes_of(s: Seq<char>) -> Seq<u8> {
    vstd::utf8::encode_utf8(s)
}

/// A path put behind a directory: an absolute path stands for itself, and a
/// separator is added unless the directory ends with one or is empty.
pub open spec fn joined(dir: Seq<u8>, path: Seq<u8>) -> Seq<u8> {
    if path.len() > 0 && path[0] == 0x2f {
        path
    } else if dir.len() == 0 || dir.last() == 0x2f {
        dir + path
    } else {
        dir.push(0x2f) + path
    }
}

/// Bytes added to the end of a buffer.
pub fn append_bytes(buffer: &mut Vec<u8>, bytes: &[u8])
    ensures
        final(buffer)@ == old(buffer)@ + bytes@,
{
    let mut i: usize = 0;
    while i < bytes.len()
        invariant
            i <= bytes.len(),
            buffer@ == old(buffer)@ + bytes@.take(i as int),
        decreases bytes.len() - i,
    {
        buffer.push(bytes[i]);
        i = i + 1;
        assert(buffer@ =~= old(buffer)@ + bytes@.take(i as int));
    }
    assert(bytes@.take(i as int) =~= bytes@);
}

/// A copy of the bytes.
pub fn copy_bytes(bytes: &[u8]) -> (r: Vec<u8>)
    ensures
        r@ == bytes@,
{
    let mut r: Vec<u8> = Vec::new();
    append_bytes(&mut r, bytes);
    r
}

/// Whether two rows of bytes are the same.
pub fn same_bytes(a: &[u8], b: &[u8]) -> (r: bool)
    ensures
        r == (a@ == b@),
{
    if a.len() != b.len() {
        return false;
    }
    let mut i: usize = 0;
    while i < a.len()
        invariant
            i <= a.len(),
            a.len() == b.len(),
            forall|j: int| 0 <= j < i ==> a@[j] == b@[j],
        decreases a.len() - i,
    {
        if a[i] != b[i] {
            return false;
        }
        i = i + 1;
    }
    assert(a@ =~= b@);
    true
}

/// A path put behind a directory.
pub fn join(dir: &[u8], path: &[u8]) -> (r: Vec<u8>)
    ensures
        r@ == joined(dir@, path@),
{
    if path.len() > 0 && path[0] == 0x2f {
        return copy_bytes(path);
    }
    let mut r = copy_bytes(dir);
    if dir.len() > 0 && dir[dir.len() - 1] != 0x2f {
        r.push(0x2f);
    }
    append_bytes(&mut r, path);
    r
}

/// A path put behind a directory, where both are text.
pub open spec fn joined_text(dir: Seq<char>, path: Seq<char>) -> Seq<char> {
    if path.len() > 0 && path[0] == '/' {
        path
    } else if dir.len() == 0 || dir.last() == '/' {
        dir + path
    } else {
        dir.push('/') + path
    }
}

/// A path put behind a directory, where both are text.
pub fn join_text(dir: &str, path: &str) -> (r: String)
    ensures
        r@ == joined_text(dir@, path@),
{
    let d = text::chars_of(dir);
    let p = text::chars_of(path);
    if p.len() > 0 && p[0] == '/' {
        return path.to_owned();
    }
    let mut r = dir.to_owned();
    if d.len() > 0 && d[d.len() - 1] != '/' {
        r.push('/');
    }
    r.append(path);
    r
}

/// ASCII text has one byte for each character, with the character's code.
pub proof fn lemma_ascii_bytes(s: Seq<char>)
    requires
        forall|i: int| 0 <= i < s.len() ==> 0 <= (#[trigger] s[i]) as int && (s[i] as int) < 128,
    ensures
        bytes_of(s).len() == s.len(),
        forall|i: int| 0 <= i < s.len() ==> #[trigger] bytes_of(s)[i] as int == s[i] as int,
{
    assert forall|i: int| 0 <= i < s.len() implies '\0' <= #[trigger] s[i] <= '\u{7f}' by {
        assert((s[i] as int) < 128);
    }
    vstd::utf8::is_ascii_chars_encode_utf8(s);
    assert forall|i: int| 0 <= i < s.len() implies #[trigger] bytes_of(s)[i] as int
        == s[i] as int by {
        assert((s[i] as int) < 128);
        assert(s[i] as u8 == vstd::utf8::encode_utf8(s)[i]);
    }
}

/// A relative path stands behind the directory, byte for byte, with one slash
/// between them unless the directory is empty or ends with one; an absolute path
/// stands for itself.
pub proof fn law_joined_path_holds_both(dir: Seq<u8>, path: Seq<u8>)
    ensures
        path.len() > 0 && path[0] == 47 ==> joined(dir, path) == path,
        !(path.len() > 0 && path[0] == 47) ==> {
            let n = joined(dir, path).len() - path.len();
            &&& n == dir.len() || n == dir.len() + 1
            &&& n == dir.len() <==> dir.len() == 0 || dir.last() == 47
            &&& n == dir.len() + 1 ==> joined(dir, path)[dir.len() as int] == 47
            &&& joined(dir, path).take(dir.len() as int) == dir
            &&& joined(dir, path).skip(n) == path
        },
{
    let r = joined(dir, path);
    if !(path.len() > 0 && path[0] == 47) {
        assert(r.take(dir.len() as int) =~= dir);
        assert(r.skip(r.len() - path.len()) =~= path);
    }
}

/// The same for text.
pub proof fn law_joined_text_holds_both(dir: Seq<char>, path: Seq<char>)
    ensures
        path.len() > 0 && path[0] == '/' ==> joined_text(dir, path) == path,
        !(path.len() > 0 && path[0] == '/') ==> {
            let n = joined_text(dir, path).len() - path.len();
            &&& n == dir.len() || n == dir.len() + 1
            &&& n == dir.len() <==> dir.len() == 0 || dir.last() == '/'
            &&& n == dir.len() + 1 ==> joined_text(dir, path)[dir.len() as int] == '/'
            &&& joined_text(dir, path).take(dir.len() as int) == dir
            &&& joined_text(dir, path).skip(n) == path
        },
{
    let r = joined_text(dir, path);
    if !(path.len() > 0 && path[0] == '/') {
        assert(r.take(dir.len() as int) =~= dir);
        assert(r.skip(r.len() - path.len()) =~= path);
    }
}

} // verus!
