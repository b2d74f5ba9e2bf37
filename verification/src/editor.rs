//! A one-line text editor whose cursor is a byte offset into the UTF-8 text, kept
//! between characters.

use vstd::prelude::*;
use crate::text::{
    chars_of, char_width, len_utf8, lemma_char_width, lemma_encode_concat, lemma_prefix_len,
    lemma_prefix_monotone, push_char, text_of, utf8_len,
};

verus! {

/// `cursor` is the byte offset of a position between two characters of `s` (or at one of
/// its ends).
pub open spec fn is_boundary(s: Seq<char>, cursor: int) -> bool {
    exists|ci: int| 0 <= ci <= s.len() && utf8_len(s.take(ci)) == cursor
}

/// The number of characters before the byte offset `cursor`.
pub open spec fn char_pos(s: Seq<char>, cursor: int) -> int {
    choose|ci: int| 0 <= ci <= s.len() && utf8_len(s.take(ci)) == cursor
}

/// Each character position has its own byte offset.
pub proof fn lemma_char_pos(s: Seq<char>, ci: int)
    requires
        0 <= ci <= s.len(),
    ensures
        is_boundary(s, utf8_len(s.take(ci)) as int),
        char_pos(s, utf8_len(s.take(ci)) as int) == ci,
{
    let k = utf8_len(s.take(ci)) as int;
    assert(is_boundary(s, k));
    let c = char_pos(s, k);
    if c < ci {
        lemma_prefix_monotone(s, c, ci);
    } else if ci < c {
        lemma_prefix_monotone(s, ci, c);
    }
}

/// A prefix takes no more bytes than the whole text.
pub proof fn lemma_prefix_bound(s: Seq<char>, ci: int)
    requires
        0 <= ci <= s.len(),
    ensures
        utf8_len(s.take(ci)) <= utf8_len(s),
{
    assert(s.take(s.len() as int) =~= s);
    if ci < s.len() {
        lemma_prefix_monotone(s, ci, s.len() as int);
    }
}

/// The text and cursor after typing `c` at the cursor.
pub open spec fn edit_insert(s: Seq<char>, cursor: int, c: char) -> (Seq<char>, int) {
    let ci = char_pos(s, cursor);
    let t = s.take(ci) + seq![c] + s.skip(ci);
    (t, utf8_len(t.take(ci + 1)) as int)
}

/// The text and cursor after deleting the character before the cursor, if any.
pub open spec fn edit_backspace(s: Seq<char>, cursor: int) -> (Seq<char>, int) {
    if cursor > 0 {
        let ci = char_pos(s, cursor);
        (s.take(ci - 1) + s.skip(ci), utf8_len(s.take(ci - 1)) as int)
    } else {
        (s, cursor)
    }
}

/// The text and cursor after deleting the character after the cursor, if any.
pub open spec fn edit_delete(s: Seq<char>, cursor: int) -> (Seq<char>, int) {
    if cursor < utf8_len(s) {
        let ci = char_pos(s, cursor);
        (s.take(ci) + s.skip(ci + 1), cursor)
    } else {
        (s, cursor)
    }
}

/// The cursor moved back over one character, if there is one.
pub open spec fn edit_left(s: Seq<char>, cursor: int) -> int {
    if cursor > 0 {
        utf8_len(s.take(char_pos(s, cursor) - 1)) as int
    } else {
        cursor
    }
}

/// The cursor moved forward over one character, if there is one.
pub open spec fn edit_right(s: Seq<char>, cursor: int) -> int {
    if cursor < utf8_len(s) {
        utf8_len(s.take(char_pos(s, cursor) + 1)) as int
    } else {
        cursor
    }
}

/// Finds the character position of a byte offset between characters.
pub(crate) fn locate(chars: &Vec<char>, total: usize, cursor: usize) -> (ci: usize)
    requires
        total == utf8_len(chars@),
        is_boundary(chars@, cursor as int),
    ensures
        ci == char_pos(chars@, cursor as int),
        0 <= ci <= chars@.len(),
        utf8_len(chars@.take(ci as int)) == cursor,
{
    let ghost s = chars@;
    let ghost target = char_pos(s, cursor as int);
    proof {
        lemma_char_pos(s, target);
    }
    let mut i: usize = 0;
    let mut b: usize = 0;
    assert(s.take(0) =~= Seq::<char>::empty());
    while i < chars.len() && b < cursor
        invariant
            s == chars@,
            total == utf8_len(s),
            0 <= target <= s.len(),
            utf8_len(s.take(target)) == cursor,
            i <= target,
            b == utf8_len(s.take(i as int)),
        decreases s.len() - i,
    {
        proof {
            lemma_prefix_len(s, i as int);
            lemma_prefix_bound(s, i + 1);
            if target == i {
                assert(false);
            }
        }
        b = b + len_utf8(chars[i]);
        i = i + 1;
    }
    proof {
        if i < target {
            lemma_prefix_monotone(s, i as int, target);
        }
    }
    i
}

/// Byte offsets of the same character position are equal; used to turn a character
/// position back into an offset.
fn prefix_bytes(chars: &Vec<char>, ci: usize) -> (n: usize)
    requires
        ci <= chars@.len(),
    ensures
        n == utf8_len(chars@.take(ci as int)),
{
    let prefix = text_of(chars, 0, ci);
    let n = prefix.as_str().as_bytes().len();
    assert(chars@.subrange(0, ci as int) =~= chars@.take(ci as int));
    n
}

/// A one-line input with a cursor between its characters.
#[derive(Debug)]
pub struct LineEditor {
    pub text: String,
    /// Byte offset of the cursor in the UTF-8 text.
    pub cursor: usize,
}

impl LineEditor {
    /// The cursor lies between characters.
    pub open spec fn wf(&self) -> bool {
        is_boundary(self.text@, self.cursor as int)
    }

    /// An empty line.
    pub fn new() -> (e: LineEditor)
        ensures
            e.wf(),
            e.text@.len() == 0,
            e.cursor == 0,
    {
        let e = LineEditor { text: String::new(), cursor: 0 };
        proof {
            lemma_char_pos(e.text@, 0);
            assert(e.text@.take(0) =~= Seq::<char>::empty());
        }
        e
    }

    fn parts(&self) -> (r: (Vec<char>, usize, usize))
        requires
            self.wf(),
        ensures
            r.0@ == self.text@,
            r.1 == utf8_len(self.text@),
            r.2 == char_pos(self.text@, self.cursor as int),
            r.2 <= self.text@.len(),
            utf8_len(self.text@.take(r.2 as int)) == self.cursor,
    {
        let chars = chars_of(self.text.as_str());
        let total = self.text.as_str().as_bytes().len();
        let ci = locate(&chars, total, self.cursor);
        (chars, total, ci)
    }

    /// Types `c` at the cursor, which moves past it.
    pub fn insert(&mut self, c: char)
        requires
            old(self).wf(),
        ensures
            final(self).wf(),
            (final(self).text@, final(self).cursor as int) == edit_insert(
                old(self).text@,
                old(self).cursor as int,
                c,
            ),
    {
        let (chars, _total, ci) = self.parts();
        let mut t = text_of(&chars, 0, ci);
        push_char(&mut t, c);
        let rest = text_of(&chars, ci, chars.len());
        let ghost head = t@;
        t.append(rest.as_str());
        let new_chars = chars_of(t.as_str());
        proof {
            assert(chars@.subrange(0, ci as int) =~= chars@.take(ci as int));
            assert(chars@.subrange(ci as int, chars@.len() as int) =~= chars@.skip(ci as int));
            assert(t@ =~= chars@.take(ci as int) + seq![c] + chars@.skip(ci as int));
            assert(new_chars@.len() == chars@.len() + 1);
            lemma_char_pos(t@, ci + 1);
        }
        let new_len = new_chars.len();
        assert(ci < new_len);
        let new_cursor = prefix_bytes(&new_chars, ci + 1);
        self.text = t;
        self.cursor = new_cursor;
    }

    /// Deletes the character before the cursor, which moves back over it.
    pub fn backspace(&mut self)
        requires
            old(self).wf(),
        ensures
            final(self).wf(),
            (final(self).text@, final(self).cursor as int) == edit_backspace(
                old(self).text@,
                old(self).cursor as int,
            ),
    {
        if self.cursor > 0 {
            let (chars, _total, ci) = self.parts();
            proof {
                if ci == 0 {
                    assert(chars@.take(0) =~= Seq::<char>::empty());
                }
            }
            let mut t = text_of(&chars, 0, ci - 1);
            let rest = text_of(&chars, ci, chars.len());
            t.append(rest.as_str());
            let new_cursor = prefix_bytes(&chars, ci - 1);
            proof {
                assert(chars@.subrange(0, ci - 1) =~= chars@.take(ci - 1));
                assert(chars@.subrange(ci as int, chars@.len() as int) =~= chars@.skip(ci as int));
                assert(t@ =~= chars@.take(ci - 1) + chars@.skip(ci as int));
                assert(t@.take(ci - 1) =~= chars@.take(ci - 1));
                lemma_char_pos(t@, ci - 1);
            }
            self.text = t;
            self.cursor = new_cursor;
        }
    }

    /// Deletes the character after the cursor; the cursor stays.
    pub fn delete(&mut self)
        requires
            old(self).wf(),
        ensures
            final(self).wf(),
            (final(self).text@, final(self).cursor as int) == edit_delete(
                old(self).text@,
                old(self).cursor as int,
            ),
    {
        let (chars, total, ci) = self.parts();
        let n = chars.len();
        if self.cursor < total {
            proof {
                if ci == chars@.len() {
                    assert(chars@.take(ci as int) =~= chars@);
                }
                assert(ci < n);
            }
            let mut t = text_of(&chars, 0, ci);
            let rest = text_of(&chars, ci + 1, chars.len());
            t.append(rest.as_str());
            proof {
                assert(chars@.subrange(0, ci as int) =~= chars@.take(ci as int));
                assert(chars@.subrange(ci + 1, chars@.len() as int) =~= chars@.skip(ci + 1));
                assert(t@ =~= chars@.take(ci as int) + chars@.skip(ci + 1));
                assert(t@.take(ci as int) =~= chars@.take(ci as int));
                lemma_char_pos(t@, ci as int);
            }
            self.text = t;
        }
    }

    /// Moves the cursor back over one character.
    pub fn move_left(&mut self)
        requires
            old(self).wf(),
        ensures
            final(self).wf(),
            final(self).text == old(self).text,
            final(self).cursor == edit_left(old(self).text@, old(self).cursor as int),
    {
        if self.cursor > 0 {
            let (chars, _total, ci) = self.parts();
            proof {
                if ci == 0 {
                    assert(chars@.take(0) =~= Seq::<char>::empty());
                }
                lemma_char_pos(chars@, ci - 1);
            }
            self.cursor = prefix_bytes(&chars, ci - 1);
        }
    }

    /// Moves the cursor forward over one character.
    pub fn move_right(&mut self)
        requires
            old(self).wf(),
        ensures
            final(self).wf(),
            final(self).text == old(self).text,
            final(self).cursor == edit_right(old(self).text@, old(self).cursor as int),
    {
        let (chars, total, ci) = self.parts();
        let n = chars.len();
        if self.cursor < total {
            proof {
                if ci == chars@.len() {
                    assert(chars@.take(ci as int) =~= chars@);
                }
                assert(ci < n);
                lemma_char_pos(chars@, ci + 1);
            }
            self.cursor = prefix_bytes(&chars, ci + 1);
        }
    }

    /// Moves the cursor to the start of the line.
    pub fn home(&mut self)
        requires
            old(self).wf(),
        ensures
            final(self).wf(),
            final(self).text == old(self).text,
            final(self).cursor == 0,
    {
        self.cursor = 0;
        proof {
            assert(self.text@.take(0) =~= Seq::<char>::empty());
            lemma_char_pos(self.text@, 0);
        }
    }

    /// Moves the cursor to the end of the line.
    pub fn end(&mut self)
        requires
            old(self).wf(),
        ensures
            final(self).wf(),
            final(self).text == old(self).text,
            final(self).cursor == utf8_len(old(self).text@),
    {
        self.cursor = self.text.as_str().as_bytes().len();
        proof {
            assert(self.text@.take(self.text@.len() as int) =~= self.text@);
            lemma_char_pos(self.text@, self.text@.len() as int);
        }
    }

    /// Replaces the line with `text` and puts the cursor at its end.
    pub fn replace(&mut self, text: String)
        ensures
            final(self).wf(),
            final(self).text == text,
            final(self).cursor == utf8_len(text@),
    {
        self.text = text;
        self.cursor = self.text.as_str().as_bytes().len();
        proof {
            assert(self.text@.take(self.text@.len() as int) =~= self.text@);
            lemma_char_pos(self.text@, self.text@.len() as int);
        }
    }

    /// Hands out the line and starts a new, empty one.
    pub fn take(&mut self) -> (line: String)
        requires
            old(self).wf(),
        ensures
            final(self).wf(),
            line == old(self).text,
            final(self).text@.len() == 0,
            final(self).cursor == 0,
    {
        let line = self.text.clone();
        self.text = String::new();
        self.cursor = 0;
        proof {
            assert(self.text@.take(0) =~= Seq::<char>::empty());
            lemma_char_pos(self.text@, 0);
        }
        line
    }
}

/// Typing a character and then deleting it with backspace gives back the line and the
/// cursor as they were.
pub proof fn law_backspace_undoes_insert(s: Seq<char>, cursor: int, c: char)
    requires
        is_boundary(s, cursor),
    ensures
        edit_backspace(edit_insert(s, cursor, c).0, edit_insert(s, cursor, c).1) == (s, cursor),
{
    let ci = char_pos(s, cursor);
    let t = s.take(ci) + seq![c] + s.skip(ci);
    lemma_char_width(c);
    assert(t.take(ci + 1) =~= s.take(ci) + seq![c]);
    lemma_encode_concat(s.take(ci), seq![c]);
    lemma_char_pos(t, ci + 1);
    assert(t.take(ci) =~= s.take(ci));
    assert(t.skip(ci + 1) =~= s.skip(ci));
    assert(t.take(ci) + t.skip(ci + 1) =~= s);
}

/// Moving the cursor back over a character and forward again puts it where it was.
pub proof fn law_right_undoes_left(s: Seq<char>, cursor: int)
    requires
        is_boundary(s, cursor),
        cursor > 0,
    ensures
        edit_right(s, edit_left(s, cursor)) == cursor,
{
    let ci = char_pos(s, cursor);
    if ci == 0 {
        assert(s.take(0) =~= Seq::<char>::empty());
    }
    lemma_char_pos(s, ci - 1);
    lemma_prefix_bound(s, ci - 1);
    lemma_prefix_monotone(s, ci - 1, ci);
    lemma_prefix_bound(s, ci);
}

/// Typing a character and then deleting the character after the cursor where it was
/// typed gives back the text as it was.
pub proof fn law_delete_undoes_insert(s: Seq<char>, cursor: int, c: char)
    requires
        is_boundary(s, cursor),
    ensures
        edit_delete(edit_insert(s, cursor, c).0, cursor) == (s, cursor),
{
    let ci = char_pos(s, cursor);
    let t = s.take(ci) + seq![c] + s.skip(ci);
    assert(t.take(ci) =~= s.take(ci));
    assert(t.skip(ci + 1) =~= s.skip(ci));
    lemma_char_pos(t, ci);
    lemma_prefix_monotone(t, ci, t.len() as int);
    assert(t.take(t.len() as int) =~= t);
    assert(t.take(ci) + t.skip(ci + 1) =~= s);
}

/// Typing a character puts it just before the new cursor and adds one character.
pub proof fn law_insert_puts_the_character_before_the_cursor(s: Seq<char>, cursor: int, c: char)
    requires
        is_boundary(s, cursor),
    ensures
        edit_insert(s, cursor, c).0.len() == s.len() + 1,
        is_boundary(edit_insert(s, cursor, c).0, edit_insert(s, cursor, c).1),
        edit_insert(s, cursor, c).0[char_pos(edit_insert(s, cursor, c).0, edit_insert(s, cursor, c).1)
            - 1] == c,
        edit_insert(s, cursor, c).1 > cursor,
{
    let ci = char_pos(s, cursor);
    let t = s.take(ci) + seq![c] + s.skip(ci);
    assert(t.take(ci) =~= s.take(ci));
    lemma_char_pos(t, ci + 1);
    lemma_prefix_monotone(t, ci, ci + 1);
}

} // verus!
