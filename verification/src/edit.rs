//! The one-line text fields of the attach menu.
//!
//! A field is a text, a cursor and the last complaint about it. The cursor is a
//! byte offset that always stands between two characters; what an input does is
//! said in characters ([`edited`]).

use crate::bytes::same_bytes;
use crate::text::{byte_offset, byte_offset_grows};
use vstd::prelude::*;

verus! {

/// Whether `cursor` is the byte offset of the character index `k`.
pub open spec fn stands_at(text: Seq<char>, cursor: int, k: int) -> bool {
    0 <= k <= text.len() && byte_offset(text, k) == cursor
}

/// Whether `cursor` stands between two characters of `text`, or at an end.
pub open spec fn on_boundary(text: Seq<char>, cursor: int) -> bool {
    exists|k: int| #[trigger] stands_at(text, cursor, k)
}

/// How many characters stand before the cursor.
pub open spec fn cursor_index(text: Seq<char>, cursor: int) -> int {
    choose|k: int| #[trigger] stands_at(text, cursor, k)
}

/// A byte offset belongs to one character index at most.
proof fn cursor_index_is(text: Seq<char>, cursor: int, k: int)
    requires
        stands_at(text, cursor, k),
    ensures
        on_boundary(text, cursor),
        cursor_index(text, cursor) == k,
{
    let j = cursor_index(text, cursor);
    assert(stands_at(text, cursor, j));
    if j < k {
        byte_offset_grows(text, j, k);
    } else if k < j {
        byte_offset_grows(text, k, j);
    }
}

/// What an input asks of a field.
#[derive(Debug, Clone, Copy, PartialEq, Eq, Structural)]
pub enum Edit {
    /// Delete the character before the cursor.
    Backspace,
    /// Delete the character after the cursor.
    Delete,
    Left,
    Right,
    Home,
    End,
    /// An escape sequence that means nothing here.
    Unknown,
    /// Text to insert.
    Insert,
}

/// What the input `bytes` asks of a field.
pub open spec fn edit_of(bytes: Seq<u8>) -> Edit {
    if bytes == seq![0x7fu8] || bytes == seq![0x08u8] {
        Edit::Backspace
    } else if bytes == seq![0x1bu8, 0x5b, 0x33, 0x7e] {
        Edit::Delete
    } else if bytes == seq![0x1bu8, 0x5b, 0x44] {
        Edit::Left
    } else if bytes == seq![0x1bu8, 0x5b, 0x43] {
        Edit::Right
    } else if bytes == seq![0x1bu8, 0x5b, 0x48] || bytes == seq![0x1bu8, 0x5b, 0x31, 0x7e] {
        Edit::Home
    } else if bytes == seq![0x1bu8, 0x5b, 0x46] || bytes == seq![0x1bu8, 0x5b, 0x34, 0x7e] {
        Edit::End
    } else if bytes.len() > 0 && bytes[0] == 0x1b {
        Edit::Unknown
    } else {
        Edit::Insert
    }
}

/// What becomes of `text` with `k` characters before the cursor: the new text
/// and the new number of characters before the cursor. `None` where the input
/// does nothing at all: nothing to delete, nowhere to go, an unknown escape
/// sequence, or bytes that are no text.
pub open spec fn edited(text: Seq<char>, k: int, bytes: Seq<u8>) -> Option<(Seq<char>, int)> {
    match edit_of(bytes) {
        Edit::Backspace => if k > 0 {
            Some((text.remove(k - 1), k - 1))
        } else {
            None
        },
        Edit::Delete => if k < text.len() {
            Some((text.remove(k), k))
        } else {
            None
        },
        Edit::Left => if k > 0 {
            Some((text, k - 1))
        } else {
            None
        },
        Edit::Right => if k < text.len() {
            Some((text, k + 1))
        } else {
            None
        },
        Edit::Home => if k > 0 {
            Some((text, 0))
        } else {
            None
        },
        Edit::End => if k < text.len() {
            Some((text, text.len() as int))
        } else {
            None
        },
        Edit::Unknown => None,
        Edit::Insert => if vstd::utf8::valid_utf8(bytes) {
            let inserted = vstd::utf8::decode_utf8(bytes);
            Some((text.take(k) + inserted + text.skip(k), k + inserted.len()))
        } else {
            None
        },
    }
}

/// What the input `bytes` asks of a field.
fn parse_edit(bytes: &[u8]) -> (r: Edit)
    ensures
        r == edit_of(bytes@),
{
    let n = bytes.len();
    let backspace: [u8; 1] = [0x7f];
    let ctrl_h: [u8; 1] = [0x08];
    let delete: [u8; 4] = [0x1b, 0x5b, 0x33, 0x7e];
    let left: [u8; 3] = [0x1b, 0x5b, 0x44];
    let right: [u8; 3] = [0x1b, 0x5b, 0x43];
    let home: [u8; 3] = [0x1b, 0x5b, 0x48];
    let home_tilde: [u8; 4] = [0x1b, 0x5b, 0x31, 0x7e];
    let end: [u8; 3] = [0x1b, 0x5b, 0x46];
    let end_tilde: [u8; 4] = [0x1b, 0x5b, 0x34, 0x7e];
    assert(backspace@ =~= seq![0x7fu8]);
    assert(ctrl_h@ =~= seq![0x08u8]);
    assert(delete@ =~= seq![0x1bu8, 0x5b, 0x33, 0x7e]);
    assert(left@ =~= seq![0x1bu8, 0x5b, 0x44]);
    assert(right@ =~= seq![0x1bu8, 0x5b, 0x43]);
    assert(home@ =~= seq![0x1bu8, 0x5b, 0x48]);
    assert(home_tilde@ =~= seq![0x1bu8, 0x5b, 0x31, 0x7e]);
    assert(end@ =~= seq![0x1bu8, 0x5b, 0x46]);
    assert(end_tilde@ =~= seq![0x1bu8, 0x5b, 0x34, 0x7e]);
    if same_bytes(bytes, &backspace) || same_bytes(bytes, &ctrl_h) {
        Edit::Backspace
    } else if same_bytes(bytes, &delete) {
        Edit::Delete
    } else if same_bytes(bytes, &left) {
        Edit::Left
    } else if same_bytes(bytes, &right) {
        Edit::Right
    } else if same_bytes(bytes, &home) || same_bytes(bytes, &home_tilde) {
        Edit::Home
    } else if same_bytes(bytes, &end) || same_bytes(bytes, &end_tilde) {
        Edit::End
    } else if n > 0 && bytes[0] == 0x1b {
        Edit::Unknown
    } else {
        Edit::Insert
    }
}

/// The byte offset of the character index `k`.
fn offset_of(text: &str, k: usize) -> (r: usize)
    requires
        k <= text@.len(),
    ensures
        r == byte_offset(text@, k as int),
        stands_at(text@, r as int, k as int),
{
    let head = text.substring_char(0, k);
    assert(head@ =~= text@.take(k as int));
    head.as_bytes().len()
}

/// How many characters stand before `cursor`.
fn index_of(text: &str, cursor: usize) -> (k: usize)
    requires
        on_boundary(text@, cursor as int),
    ensures
        k == cursor_index(text@, cursor as int),
        stands_at(text@, cursor as int, k as int),
{
    let ghost at = cursor_index(text@, cursor as int);
    assert(stands_at(text@, cursor as int, at));
    let len: usize = text.unicode_len();
    let mut k: usize = 0;
    while offset_of(text, k) != cursor
        invariant
            0 <= k <= at <= len,
            len == text@.len(),
            stands_at(text@, cursor as int, at),
        decreases at - k,
    {
        k += 1;
    }
    proof {
        cursor_index_is(text@, cursor as int, k as int);
    }
    k
}

/// The text before the character index `from` and that from `to` on.
fn cut(text: &str, from: usize, to: usize) -> (r: String)
    requires
        from <= to <= text@.len(),
    ensures
        r@ == text@.take(from as int) + text@.skip(to as int),
{
    let mut out = text.substring_char(0, from).to_owned();
    out.append(text.substring_char(to, text.unicode_len()));
    assert(out@ =~= text@.take(from as int) + text@.skip(to as int));
    out
}

/// Apply one input chunk to a field. Anything that changes text or cursor also
/// clears the last complaint; an input that does nothing leaves it.
pub fn apply_text_edit(
    text: &mut String,
    cursor: &mut usize,
    error: &mut Option<String>,
    bytes: &[u8],
)
    requires
        on_boundary(old(text)@, *old(cursor) as int),
    ensures
        match edited(old(text)@, cursor_index(old(text)@, *old(cursor) as int), bytes@) {
            Some((t, k)) => final(text)@ == t && stands_at(t, *final(cursor) as int, k)
                && *final(error) is None,
            None => *final(text) == *old(text) && *final(cursor) == *old(cursor) && *final(error)
                == *old(error),
        },
        on_boundary(final(text)@, *final(cursor) as int),
{
    let ghost before = text@;
    let k = index_of(text.as_str(), *cursor);
    let len: usize = text.as_str().unicode_len();
    match parse_edit(bytes) {
        Edit::Backspace => {
            if k == 0 {
                return ;
            }
            let t = cut(text.as_str(), k - 1, k);
            assert(t@ =~= before.remove(k - 1));
            *cursor = offset_of(t.as_str(), k - 1);
            *text = t;
        },
        Edit::Delete => {
            if k == len {
                return ;
            }
            let t = cut(text.as_str(), k, k + 1);
            assert(t@ =~= before.remove(k as int));
            assert(t@.take(k as int) =~= before.take(k as int));
            assert(stands_at(t@, *cursor as int, k as int));
            *text = t;
        },
        Edit::Left => {
            if k == 0 {
                return ;
            }
            *cursor = offset_of(text.as_str(), k - 1);
        },
        Edit::Right => {
            if k == len {
                return ;
            }
            *cursor = offset_of(text.as_str(), k + 1);
        },
        Edit::Home => {
            if k == 0 {
                return ;
            }
            *cursor = offset_of(text.as_str(), 0);
        },
        Edit::End => {
            if k == len {
                return ;
            }
            *cursor = offset_of(text.as_str(), len);
        },
        Edit::Unknown => {
            return ;
        },
        Edit::Insert => {
            match std::str::from_utf8(bytes) {
                Err(_) => {
                    return ;
                },
                Ok(inserted) => {
                    proof {
                        vstd::utf8::encode_utf8_decode_utf8(inserted@);
                    }
                    let mut t = text.as_str().substring_char(0, k).to_owned();
                    t.append(inserted);
                    t.append(text.as_str().substring_char(k, len));
                    assert(t@ =~= before.take(k as int) + inserted@ + before.skip(k as int));
                    let at: usize = t.as_str().unicode_len() - (len - k);
                    *cursor = offset_of(t.as_str(), at);
                    *text = t;
                },
            }
        },
    }
    *error = None;
}

/// Backspace takes back a character that was just typed, wherever the cursor
/// stands.
pub proof fn backspace_undoes_insert(text: Seq<char>, k: int, c: char, bytes: Seq<u8>)
    requires
        0 <= k <= text.len(),
        edit_of(bytes) == Edit::Insert,
        bytes == vstd::utf8::encode_utf8(seq![c]),
    ensures
        edited(text, k, bytes) matches Some((t, j)) && edited(t, j, seq![0x7fu8]) == Some((text, k)),
{
    vstd::utf8::encode_utf8_decode_utf8(seq![c]);
    vstd::utf8::encode_utf8_valid_utf8(seq![c]);
    let t = text.take(k) + seq![c] + text.skip(k);
    assert(t.remove(k) =~= text);
}

/// The cursor never leaves the text.
pub proof fn edit_keeps_cursor_inside(text: Seq<char>, k: int, bytes: Seq<u8>)
    requires
        0 <= k <= text.len(),
    ensures
        edited(text, k, bytes) matches Some((t, j)) ==> 0 <= j <= t.len(),
{
}

/// Left and right undo each other where both can move.
pub proof fn right_undoes_left(text: Seq<char>, k: int)
    requires
        0 < k <= text.len(),
    ensures
        edited(text, k, seq![0x1bu8, 0x5b, 0x44]) == Some((text, k - 1)),
        edited(text, k - 1, seq![0x1bu8, 0x5b, 0x43]) == Some((text, k)),
{
    let left = seq![0x1bu8, 0x5b, 0x44];
    let right = seq![0x1bu8, 0x5b, 0x43];
    assert(left[2] != right[2]);
    assert(left.len() == 3 && right.len() == 3);
    assert(left != seq![0x7fu8] && left != seq![0x08u8] && right != seq![0x7fu8] && right
        != seq![0x08u8]) by {
        assert(seq![0x7fu8].len() == 1 && seq![0x08u8].len() == 1);
    }
    assert(left != seq![0x1bu8, 0x5b, 0x33, 0x7e] && right != seq![0x1bu8, 0x5b, 0x33, 0x7e]) by {
        assert(seq![0x1bu8, 0x5b, 0x33, 0x7e].len() == 4);
    }
}

} // verus!
