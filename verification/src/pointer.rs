//! Pointer files: the three-line text stubs that stand in a source tree for
//! large objects kept elsewhere.
//!
//! A pointer file has exactly three lines: the format line, a line that
//! names the object by its SHA-256 digest, and a line that gives the
//! object's size in bytes.

use crate::lines::{lemma_lines_of_ended_line, line_spans, lines, spans_of, strip_cr};
use crate::number::{is_digit, parse_usize, parse_usize_at, without_plus};
use crate::text::{chars_of, equals_at, has_prefix_at};
use std::path::PathBuf;
use vstd::prelude::*;

verus! {

/// A path of the file system, carried through as it is.
#[verifier::external_type_specification]
#[verifier::external_body]
pub struct ExPathBuf(PathBuf);

/// The first line of every pointer file.
pub open spec fn version_line() -> Seq<char> {
    "version https://git-lfs.github.com/spec/v1"@
}

/// What the second line begins with; the object's identifier follows.
pub open spec fn oid_prefix() -> Seq<char> {
    "oid sha256:"@
}

/// What the third line begins with; the object's size follows.
pub open spec fn size_prefix() -> Seq<char> {
    "size "@
}

/// Why a text is no pointer file. Of several reasons the first in this
/// order is given.
#[derive(Debug, Clone, Copy, PartialEq, Eq, Structural)]
pub enum PointerError {
    /// The text does not have exactly three lines.
    LineCount,
    /// The first line is not the format line.
    Version,
    /// The second line does not begin with the identifier prefix.
    InvalidOid,
    /// The third line does not begin with the size prefix, or what follows
    /// is no number.
    InvalidSize,
}

/// What a pointer file says: the object's identifier and its size.
pub open spec fn pointer_fields(content: Seq<char>) -> Result<(Seq<char>, usize), PointerError> {
    let ls = lines(content);
    if ls.len() != 3 {
        Err(PointerError::LineCount)
    } else if ls[0] != version_line() {
        Err(PointerError::Version)
    } else if !oid_prefix().is_prefix_of(ls[1]) {
        Err(PointerError::InvalidOid)
    } else if !size_prefix().is_prefix_of(ls[2]) {
        Err(PointerError::InvalidSize)
    } else {
        match parse_usize(ls[2].skip(size_prefix().len() as int)) {
            Some(size) => Ok((ls[1].skip(oid_prefix().len() as int), size)),
            None => Err(PointerError::InvalidSize),
        }
    }
}

/// A pointer file that was read: which object it stands for, and where the
/// object's bytes are to be written.
#[derive(Debug, PartialEq, Eq)]
pub struct LfsPointer {
    /// The object's identifier: its SHA-256 digest as the file gives it.
    pub sha256: String,
    /// The object's size in bytes as the file gives it.
    pub size: usize,
    /// The pointer file's own path, which the object's bytes replace.
    pub filename: PathBuf,
}

/// A pointer as plain values.
pub struct PointerView {
    /// The object's identifier.
    pub content_id: Seq<char>,
    /// The object's size in bytes as the pointer file gives it.
    pub declared_size: nat,
    /// The file that the object's bytes are to be written over.
    pub target: PathBuf,
}

impl View for LfsPointer {
    type V = PointerView;

    open spec fn view(&self) -> PointerView {
        PointerView {
            content_id: self.sha256@,
            declared_size: self.size as nat,
            target: self.filename,
        }
    }
}

/// The pointer that a file at `filename` with the text `content` is, if it
/// is one.
pub open spec fn pointer_at(filename: PathBuf, content: Seq<char>) -> Option<PointerView> {
    match pointer_fields(content) {
        Ok((id, size)) => Some(
            PointerView { content_id: id, declared_size: size as nat, target: filename },
        ),
        Err(_) => None,
    }
}

/// The text of a pointer file in its usual form: the format line, the
/// identifier line and the size line, each ended by a line feed.
pub open spec fn pointer_text(id: Seq<char>, size_text: Seq<char>) -> Seq<char> {
    version_line() + seq!['\n'] + (oid_prefix() + id) + seq!['\n'] + (size_prefix() + size_text)
        + seq!['\n']
}

/// A pointer file in its usual form says the identifier and the size that
/// it was written with, provided that the identifier holds no line feed and
/// does not end with a carriage return, and that the size is a number.
pub proof fn lemma_pointer_text_is_read(id: Seq<char>, size_text: Seq<char>)
    requires
        forall|i: int| 0 <= i < id.len() ==> id[i] != '\n',
        id.len() > 0 ==> id.last() != '\r',
        parse_usize(size_text) is Some,
    ensures
        pointer_fields(pointer_text(id, size_text)) == Ok::<(Seq<char>, usize), PointerError>(
            (id, parse_usize(size_text)->Some_0),
        ),
{
    reveal_strlit("version https://git-lfs.github.com/spec/v1");
    reveal_strlit("oid sha256:");
    reveal_strlit("size ");
    let nl = seq!['\n'];
    let first = version_line();
    let second = oid_prefix() + id;
    let third = size_prefix() + size_text;
    let digits = without_plus(size_text);
    assert forall|i: int| 0 <= i < size_text.len() implies size_text[i] != '\n' && size_text[i]
        != '\r' by {
        if size_text[0] == '+' {
            if i > 0 {
                assert(is_digit(digits[i - 1]));
            }
        } else {
            assert(is_digit(digits[i]));
        }
    }
    assert(strip_cr(first) == first);
    assert(strip_cr(second) == second);
    assert(strip_cr(third) == third);
    let tail3 = Seq::<char>::empty();
    let tail2 = third + nl + tail3;
    let tail1 = second + nl + tail2;
    lemma_lines_of_ended_line(third, tail3);
    lemma_lines_of_ended_line(second, tail2);
    lemma_lines_of_ended_line(first, tail1);
    assert(pointer_text(id, size_text) =~= first + nl + tail1);
    let ls = lines(pointer_text(id, size_text));
    assert(lines(tail3) =~= Seq::<Seq<char>>::empty());
    assert(ls =~= seq![first, second, third]);
    assert(second.subrange(0, oid_prefix().len() as int) =~= oid_prefix());
    assert(third.subrange(0, size_prefix().len() as int) =~= size_prefix());
    assert(second.skip(oid_prefix().len() as int) =~= id);
    assert(third.skip(size_prefix().len() as int) =~= size_text);
}

/// A text is no pointer file exactly if it breaks one of the four rules:
/// three lines, the format line first, the identifier prefix on the second
/// line, and the size prefix with a number on the third.
pub proof fn lemma_rejected_iff_rule_broken(content: Seq<char>)
    ensures
        pointer_fields(content) is Err <==> {
            let ls = lines(content);
            ||| ls.len() != 3
            ||| ls[0] != version_line()
            ||| !oid_prefix().is_prefix_of(ls[1])
            ||| !size_prefix().is_prefix_of(ls[2])
            ||| parse_usize(ls[2].skip(size_prefix().len() as int)) is None
        },
{
}

impl LfsPointer {
    /// Reads the text of the file at `filename` as a pointer file.
    pub fn parse(filename: PathBuf, content: &str) -> (r: Result<LfsPointer, PointerError>)
        ensures
            match pointer_fields(content@) {
                Ok(_) => r is Ok && Some(r->Ok_0@) == pointer_at(filename, content@),
                Err(e) => r == Err::<LfsPointer, PointerError>(e),
            },
    {
        let text = chars_of(content);
        let spans = line_spans(&text);
        let ghost ls = lines(content@);
        if spans.len() != 3 {
            return Err(PointerError::LineCount);
        }
        let (s0, e0) = spans[0];
        let (s1, e1) = spans[1];
        let (s2, e2) = spans[2];
        proof {
            assert(spans_of(text@, spans@)[0] == ls[0]);
            assert(spans_of(text@, spans@)[1] == ls[1]);
            assert(spans_of(text@, spans@)[2] == ls[2]);
            assert(spans@[0].0 <= spans@[0].1 <= text.len());
            assert(spans@[1].0 <= spans@[1].1 <= text.len());
            assert(spans@[2].0 <= spans@[2].1 <= text.len());
        }
        let version = chars_of("version https://git-lfs.github.com/spec/v1");
        if !equals_at(&text, s0, e0, &version) {
            return Err(PointerError::Version);
        }
        let oid = chars_of("oid sha256:");
        if !has_prefix_at(&text, s1, e1, &oid) {
            return Err(PointerError::InvalidOid);
        }
        let size_word = chars_of("size ");
        if !has_prefix_at(&text, s2, e2, &size_word) {
            return Err(PointerError::InvalidSize);
        }
        let id_from: usize = s1 + oid.len();
        let size_from: usize = s2 + size_word.len();
        proof {
            assert(ls[1].skip(oid@.len() as int) =~= text@.subrange(id_from as int, e1 as int));
            assert(ls[2].skip(size_word@.len() as int) =~= text@.subrange(
                size_from as int,
                e2 as int,
            ));
        }
        match parse_usize_at(&text, size_from, e2) {
            None => Err(PointerError::InvalidSize),
            Some(size) => {
                let sha256 = content.substring_char(id_from, e1).to_owned();
                Ok(LfsPointer { sha256, size, filename })
            },
        }
    }
}

/// Reads the text of the file at `filename` and adds the pointer to `found`
/// if the text is a pointer file. A text that is none is passed over:
/// `found` stays as it was.
pub fn keep_pointer(found: &mut Vec<LfsPointer>, filename: PathBuf, content: &str) -> (kept: bool)
    ensures
        kept == pointer_fields(content@) is Ok,
        kept ==> {
            &&& final(found)@.len() == old(found)@.len() + 1
            &&& final(found)@.drop_last() == old(found)@
            &&& Some(final(found)@.last()@) == pointer_at(filename, content@)
        },
        !kept ==> final(found)@ == old(found)@,
{
    match LfsPointer::parse(filename, content) {
        Ok(pointer) => {
            found.push(pointer);
            assert(found@.drop_last() =~= old(found)@);
            true
        },
        Err(_) => false,
    }
}

} // verus!
