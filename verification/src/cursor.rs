use crate::chars::{CharClass, END_OF_INPUT};
use vstd::prelude::*;

verus! {

/// The longest source that a cursor takes: its line and column counters are `i32`.
pub const MAX_SOURCE_LEN: usize = 2147483645;

/// The character at index `i` of the source, or `END_OF_INPUT` outside it.
pub open spec fn char_at(src: Seq<u8>, i: int) -> char {
    if 0 <= i < src.len() {
        src[i] as char
    } else {
        END_OF_INPUT
    }
}

/// The characters of the source from index `from` up to, not including, index `to`.
pub open spec fn text(src: Seq<u8>, from: int, to: int) -> Seq<char> {
    Seq::new((to - from) as nat, |k: int| char_at(src, from + k))
}

/// The line counter once the character at index `i` has been read: 1 plus the number of line
/// feeds among the characters at indices 0 to `i`.
pub open spec fn line_at(src: Seq<u8>, i: int) -> int
    decreases i + 1,
{
    if i < 0 {
        1
    } else if char_at(src, i) == '\n' {
        line_at(src, i - 1) + 1
    } else {
        line_at(src, i - 1)
    }
}

/// The column counter once the character at index `i` has been read: the number of characters
/// read since the last line feed, which itself stands in column 0.
pub open spec fn column_at(src: Seq<u8>, i: int) -> int
    decreases i + 1,
{
    if i < 0 {
        0
    } else if char_at(src, i) == '\n' {
        0
    } else {
        column_at(src, i - 1) + 1
    }
}

/// The current character of a cursor at `index`: the null character before anything was read.
pub open spec fn spec_current(src: Seq<u8>, index: int) -> char {
    if index < 0 {
        '\0'
    } else {
        char_at(src, index)
    }
}

/// Where the maximal run of characters of `class` that starts at index `i` ends: the first
/// index from `i` on that holds no character of the class, or the length of the source.
pub open spec fn run_end(src: Seq<u8>, class: CharClass, i: int) -> int
    decreases src.len() - i,
{
    if 0 <= i < src.len() && class.contains(char_at(src, i)) {
        run_end(src, class, i + 1)
    } else {
        i
    }
}

/// Both counters stay within reach of the number of characters read.
pub proof fn lemma_location_bounds(src: Seq<u8>, i: int)
    requires
        -1 <= i,
    ensures
        1 <= line_at(src, i) <= i + 2,
        0 <= column_at(src, i) <= i + 1,
    decreases i + 1,
{
    if i >= 0 {
        lemma_location_bounds(src, i - 1);
    }
}

/// A run ends inside the source, holds only characters of its class, and cannot be extended.
pub proof fn lemma_run_end(src: Seq<u8>, class: CharClass, i: int)
    requires
        0 <= i <= src.len(),
    ensures
        i <= run_end(src, class, i) <= src.len(),
        forall|k: int| i <= k < run_end(src, class, i) ==> class.contains(#[trigger] char_at(src, k)),
        run_end(src, class, i) < src.len() ==> !class.contains(
            char_at(src, run_end(src, class, i)),
        ),
    decreases src.len() - i,
{
    if i < src.len() && class.contains(char_at(src, i)) {
        lemma_run_end(src, class, i + 1);
    }
}

/// A cursor over the bytes of a source. It reads one character at a time, each byte being one
/// character, looks ahead without reading, and counts lines and columns.
pub struct Cursor {
    source_: Vec<u8>,
    /// How many bytes have been read.
    next_: usize,
    current_char_: char,
    eof_flag_: bool,
    line_: i32,
    column_: i32,
}

impl Cursor {
    /// The bytes that the cursor moves over.
    pub closed spec fn source(&self) -> Seq<u8> {
        self.source_@
    }

    /// The index of the current character: -1 before anything was read, the length of the
    /// source once its end was reached.
    pub closed spec fn index(&self) -> int {
        if self.eof_flag_ {
            self.next_ as int
        } else {
            self.next_ - 1
        }
    }

    pub closed spec fn wf(&self) -> bool {
        &&& self.source_@.len() <= MAX_SOURCE_LEN
        &&& self.next_ <= self.source_@.len()
        &&& self.eof_flag_ ==> self.next_ == self.source_@.len()
        &&& self.current_char_ == spec_current(self.source(), self.index())
        &&& self.line_ == line_at(self.source(), self.index())
        &&& self.column_ == column_at(self.source(), self.index())
    }

    /// A cursor in front of the first character of `source`.
    pub fn new(source: Vec<u8>) -> (cursor: Self)
        requires
            source@.len() <= MAX_SOURCE_LEN,
        ensures
            cursor.wf(),
            cursor.source() == source@,
            cursor.index() == -1,
    {
        Cursor {
            source_: source,
            next_: 0,
            current_char_: '\0',
            eof_flag_: false,
            line_: 1,
            column_: 0,
        }
    }

    pub proof fn lemma_index_in_range(&self)
        requires
            self.wf(),
        ensures
            -1 <= self.index() <= self.source().len() <= MAX_SOURCE_LEN,
    {
    }

    /// The last character read, or `END_OF_INPUT` once the end was reached.
    pub fn current(&self) -> (c: char)
        requires
            self.wf(),
        ensures
            c == spec_current(self.source(), self.index()),
    {
        self.current_char_
    }

    /// The character that `advance` would read, without reading it.
    pub fn peek(&self) -> (c: char)
        requires
            self.wf(),
        ensures
            c == char_at(self.source(), self.index() + 1),
    {
        if self.next_ < self.source_.len() {
            self.source_[self.next_] as char
        } else {
            END_OF_INPUT
        }
    }

    /// Whether the end of the source was reached.
    pub fn is_eof(&self) -> (eof: bool)
        requires
            self.wf(),
        ensures
            eof == (self.index() >= self.source().len()),
    {
        self.eof_flag_
    }

    /// The line counter.
    pub fn line(&self) -> (line: i32)
        requires
            self.wf(),
        ensures
            line == line_at(self.source(), self.index()),
    {
        self.line_
    }

    /// The column counter.
    pub fn column(&self) -> (column: i32)
        requires
            self.wf(),
        ensures
            column == column_at(self.source(), self.index()),
    {
        self.column_
    }

    /// The bytes of the source.
    pub fn bytes(&self) -> (bytes: &Vec<u8>)
        ensures
            bytes@ == self.source(),
    {
        &self.source_
    }

    /// The index of the current character.
    pub fn offset(&self) -> (offset: usize)
        requires
            self.wf(),
            self.index() >= 0,
        ensures
            offset == self.index(),
    {
        if self.eof_flag_ {
            self.next_
        } else {
            self.next_ - 1
        }
    }

    /// Reads one character: it becomes the current one, and the counters follow. A line feed
    /// starts a new line in column 0, any other character moves one column on. At the end of the
    /// source `END_OF_INPUT` is read, once: from then on nothing changes.
    pub fn advance(&mut self)
        requires
            old(self).wf(),
        ensures
            final(self).wf(),
            final(self).source() == old(self).source(),
            final(self).index() == if old(self).index() < old(self).source().len() {
                old(self).index() + 1
            } else {
                old(self).index()
            },
    {
        if self.eof_flag_ {
            return ;
        }
        proof {
            lemma_location_bounds(self.source(), self.index());
        }
        if self.next_ < self.source_.len() {
            self.current_char_ = self.source_[self.next_] as char;
            self.next_ = self.next_ + 1;
        } else {
            self.eof_flag_ = true;
            self.current_char_ = END_OF_INPUT;
        }
        if self.current_char_ == '\n' {
            self.line_ = self.line_ + 1;
            self.column_ = 0;
        } else {
            self.column_ = self.column_ + 1;
        }
    }

    /// Reads `count` characters, which the source still has.
    pub fn advance_by(&mut self, count: usize)
        requires
            old(self).wf(),
            old(self).index() + count <= old(self).source().len(),
        ensures
            final(self).wf(),
            final(self).source() == old(self).source(),
            final(self).index() == old(self).index() + count,
    {
        let mut k: usize = 0;
        while k < count
            invariant
                self.wf(),
                self.source() == old(self).source(),
                k <= count,
                self.index() == old(self).index() + k,
                old(self).index() + count <= old(self).source().len(),
            decreases count - k,
        {
            self.advance();
            k = k + 1;
        }
    }

    /// Reads on until the current character is none of `class`, or the end is reached.
    pub fn skip_run(&mut self, class: CharClass)
        requires
            old(self).wf(),
            old(self).index() >= 0,
        ensures
            final(self).wf(),
            final(self).source() == old(self).source(),
            final(self).index() == run_end(old(self).source(), class, old(self).index()),
    {
        while !self.eof_flag_ && class.contains(self.current_char_)
            invariant
                self.wf(),
                self.index() >= 0,
                self.source() == old(self).source(),
                run_end(self.source(), class, self.index()) == run_end(
                    old(self).source(),
                    class,
                    old(self).index(),
                ),
            decreases self.source().len() - self.index(),
        {
            self.advance();
        }
    }

    /// The characters from index `from` up to, not including, index `to`.
    pub fn lexeme(&self, from: usize, to: usize) -> (lexeme: String)
        requires
            self.wf(),
            from <= to <= self.source().len(),
        ensures
            lexeme@ == text(self.source(), from as int, to as int),
    {
        let mut lexeme = String::new();
        let mut k: usize = from;
        while k < to
            invariant
                from <= k <= to <= self.source_@.len(),
                lexeme@ == text(self.source_@, from as int, k as int),
            decreases to - k,
        {
            lexeme.push(self.source_[k] as char);
            k = k + 1;
            assert(lexeme@ =~= text(self.source_@, from as int, k as int));
        }
        lexeme
    }

    /// Whether the current character and those that follow it spell `expected`.
    pub fn matches_ahead(&self, expected: &str) -> (found: bool)
        requires
            self.wf(),
            self.index() >= 0,
        ensures
            found == (self.index() + expected@.len() <= self.source().len() && text(
                self.source(),
                self.index(),
                self.index() + expected@.len(),
            ) == expected@),
    {
        let count = expected.unicode_len();
        let start = self.offset();
        if count > self.source_.len() - start {
            return false;
        }
        let ghost ahead = text(self.source(), start as int, start + count);
        let mut k: usize = 0;
        while k < count
            invariant
                k <= count,
                count == expected@.len(),
                start == self.index(),
                start + count <= self.source_@.len() <= MAX_SOURCE_LEN,
                ahead == text(self.source_@, start as int, start + count),
                forall|j: int| 0 <= j < k ==> ahead[j] == expected@[j],
            decreases count - k,
        {
            if expected.get_char(k) != (self.source_[start + k] as char) {
                assert(ahead[k as int] != expected@[k as int]);
                return false;
            }
            k = k + 1;
        }
        assert(ahead =~= expected@);
        true
    }
}

} // verus!
