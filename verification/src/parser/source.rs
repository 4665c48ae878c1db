use vstd::prelude::*;

verus! {

/// The number of bytes that UTF-8 takes for `c`.
pub open spec fn utf8_len(c: char) -> nat {
    if (c as u32) < 0x80 {
        1
    } else if (c as u32) < 0x800 {
        2
    } else if (c as u32) < 0x10000 {
        3
    } else {
        4
    }
}

/// The number of bytes that UTF-8 takes for the characters of `s` from index `a` up to `b`.
pub open spec fn utf8_len_between(s: Seq<char>, a: int, b: int) -> nat
    decreases b - a,
{
    if b <= a {
        0
    } else {
        utf8_len_between(s, a, b - 1) + utf8_len(s[b - 1])
    }
}

/// Taking more characters never takes fewer bytes.
pub proof fn lemma_utf8_len_between_monotone(s: Seq<char>, a: int, m: int, b: int)
    requires
        a <= m <= b,
    ensures
        utf8_len_between(s, a, m) <= utf8_len_between(s, a, b),
    decreases b - m,
{
    if m < b {
        lemma_utf8_len_between_monotone(s, a, m, b - 1);
    }
}

/// The number of bytes that UTF-8 takes for `c`.
pub fn utf8_char_len(c: char) -> (r: u32)
    ensures
        r == utf8_len(c),
{
    let v = c as u32;
    if v < 0x80 {
        1
    } else if v < 0x800 {
        2
    } else if v < 0x10000 {
        3
    } else {
        4
    }
}

/// The (line, column) reached after reading `c` from position (`line`, `column`).
/// Both counters saturate at `u32::MAX`.
pub open spec fn advance_line_column(line: u32, column: u32, c: char) -> (u32, u32) {
    if c != '\n' {
        (line, if column == u32::MAX { column } else { (column + 1) as u32 })
    } else {
        (if line == u32::MAX { line } else { (line + 1) as u32 }, 1u32)
    }
}

/// The (line, column) of the character at index `i` of `s`: both start at 1, a newline starts
/// the next line, and every other character moves one column to the right.
pub open spec fn line_column_at(s: Seq<char>, i: int) -> (u32, u32)
    decreases i,
{
    if i <= 0 {
        (1u32, 1u32)
    } else {
        let prev = line_column_at(s, i - 1);
        advance_line_column(prev.0, prev.1, s[i - 1])
    }
}

/// Number of newlines among the first `i` characters of `s`.
pub open spec fn newline_count(s: Seq<char>, i: int) -> int
    decreases i,
{
    if i <= 0 {
        0
    } else {
        newline_count(s, i - 1) + if s[i - 1] == '\n' { 1int } else { 0int }
    }
}

/// Index of the first character of the line that holds index `i` of `s`.
pub open spec fn line_start(s: Seq<char>, i: int) -> int
    decreases i,
{
    if i <= 0 {
        0
    } else if s[i - 1] == '\n' {
        i
    } else {
        line_start(s, i - 1)
    }
}

/// Lexicographic order on (line, column) pairs.
pub open spec fn line_column_le(a: (u32, u32), b: (u32, u32)) -> bool {
    a.0 < b.0 || (a.0 == b.0 && a.1 <= b.1)
}

/// A line and a column in a source text, both counted from 1.
#[derive(Clone, Copy, Debug, PartialEq, Eq, Structural, PartialOrd, Ord)]
pub struct SourcePos {
    line: u32,
    column: u32,
}

impl SourcePos {
    pub closed spec fn view_pair(&self) -> (u32, u32) {
        (self.line, self.column)
    }

    pub open spec fn spec_line(&self) -> u32 {
        self.view_pair().0
    }

    pub open spec fn spec_column(&self) -> u32 {
        self.view_pair().1
    }

    fn advance(&mut self, c: char)
        ensures
            final(self).view_pair() == advance_line_column(
                old(self).view_pair().0,
                old(self).view_pair().1,
                c,
            ),
    {
        if c != '\n' {
            self.column = self.column.saturating_add(1);
        } else {
            self.column = 1;
            self.line = self.line.saturating_add(1);
        }
    }

    fn new() -> (r: Self)
        ensures
            r.view_pair() == (1u32, 1u32),
    {
        SourcePos { line: 1, column: 1 }
    }

    /// The line, counted from 1.
    pub fn line(&self) -> (r: u32)
        ensures
            r == self.spec_line(),
    {
        self.line
    }

    /// The column, counted from 1.
    pub fn column(&self) -> (r: u32)
        ensures
            r == self.spec_column(),
    {
        self.column
    }

    /// The earlier of two positions (by line, then column).
    fn min_pos(self, other: SourcePos) -> (r: SourcePos)
        ensures
            r.view_pair() == if line_column_le(self.view_pair(), other.view_pair()) {
                self.view_pair()
            } else {
                other.view_pair()
            },
    {
        if self.line < other.line || (self.line == other.line && self.column <= other.column) {
            self
        } else {
            other
        }
    }

    /// The later of two positions (by line, then column).
    fn max_pos(self, other: SourcePos) -> (r: SourcePos)
        ensures
            r.view_pair() == if line_column_le(self.view_pair(), other.view_pair()) {
                other.view_pair()
            } else {
                self.view_pair()
            },
    {
        if self.line < other.line || (self.line == other.line && self.column <= other.column) {
            other
        } else {
            self
        }
    }
}

/// While no counter saturates, the line of index `i` is one more than the number of newlines
/// before it, and the column is one more than the distance from the start of its line.
pub proof fn lemma_line_column_counts(s: Seq<char>, i: int)
    requires
        0 <= i <= s.len(),
        i < u32::MAX,
    ensures
        line_column_at(s, i).0 == 1 + newline_count(s, i),
        line_column_at(s, i).1 == 1 + i - line_start(s, i),
        0 <= newline_count(s, i) <= i,
        0 <= line_start(s, i) <= i,
    decreases i,
{
    if i > 0 {
        lemma_line_column_counts(s, i - 1);
    }
}

/// Positions grow strictly with the index (as long as no counter saturates).
pub proof fn lemma_line_column_strictly_increasing(s: Seq<char>, i: int, j: int)
    requires
        0 <= i < j <= s.len(),
        j < u32::MAX,
    ensures
        line_column_le(line_column_at(s, i), line_column_at(s, j)),
        line_column_at(s, i) != line_column_at(s, j),
    decreases j - i,
{
    lemma_line_column_counts(s, j - 1);
    if i < j - 1 {
        lemma_line_column_strictly_increasing(s, i, j - 1);
    }
}

/// Line and column order agrees with index order.
pub proof fn lemma_line_column_order(s: Seq<char>, i: int, j: int)
    requires
        0 <= i <= s.len(),
        0 <= j <= s.len(),
        s.len() < u32::MAX,
    ensures
        line_column_le(line_column_at(s, i), line_column_at(s, j)) <==> i <= j,
{
    if i < j {
        lemma_line_column_strictly_increasing(s, i, j);
    } else if j < i {
        lemma_line_column_strictly_increasing(s, j, i);
    }
}

/// A span of a source text: the characters from `start` up to `end`, and the positions of
/// both ends.
#[derive(Clone, Copy)]
pub struct SourceSpan<'a> {
    file_path: Option<&'a str>,
    source: &'a [char],
    span: (u32, u32),
    start_pos: SourcePos,
    end_pos: SourcePos,
}

impl<'a> SourceSpan<'a> {
    pub open spec fn src(&self) -> Seq<char> {
        self.src_ref()@
    }

    pub closed spec fn src_ref(&self) -> &'a [char] {
        self.source
    }

    pub closed spec fn path(&self) -> Option<&'a str> {
        self.file_path
    }

    pub closed spec fn start(&self) -> int {
        self.span.0 as int
    }

    pub closed spec fn end(&self) -> int {
        self.span.1 as int
    }

    pub closed spec fn spec_start_pos(&self) -> SourcePos {
        self.start_pos
    }

    pub closed spec fn spec_end_pos(&self) -> SourcePos {
        self.end_pos
    }

    /// The span of `source` from `start` to `end`, with the positions those indices have.
    pub closed spec fn spec_new(
        file_path: Option<&'a str>,
        source: &'a [char],
        start: int,
        end: int,
    ) -> SourceSpan<'a> {
        let sp = line_column_at(source@, start);
        let ep = line_column_at(source@, end);
        SourceSpan {
            file_path,
            source,
            span: (start as u32, end as u32),
            start_pos: SourcePos { line: sp.0, column: sp.1 },
            end_pos: SourcePos { line: ep.0, column: ep.1 },
        }
    }

    /// The span is a range of its source and both positions are those of its ends.
    pub open spec fn wf(&self) -> bool {
        &&& self.src().len() < u32::MAX
        &&& 0 <= self.start() <= self.end() <= self.src().len()
        &&& self == Self::spec_new(self.path(), self.src_ref(), self.start(), self.end())
    }

    /// The span is a well-formed span of the given source text and file path.
    pub open spec fn wf_in(&self, file_path: Option<&'a str>, source: &'a [char]) -> bool {
        &&& self.wf()
        &&& self.src_ref() == source
        &&& self.path() == file_path
    }

    pub proof fn lemma_spec_new(file_path: Option<&'a str>, source: &'a [char], start: int, end: int)
        requires
            source@.len() < u32::MAX,
            0 <= start <= end <= source@.len(),
        ensures
            ({
                let r = Self::spec_new(file_path, source, start, end);
                &&& r.wf()
                &&& r.src_ref() == source
                &&& r.src() == source@
                &&& r.path() == file_path
                &&& r.start() == start
                &&& r.end() == end
                &&& r.spec_start_pos().view_pair() == line_column_at(source@, start)
                &&& r.spec_end_pos().view_pair() == line_column_at(source@, end)
            }),
    {
    }

    pub proof fn lemma_wf(&self)
        requires
            self.wf(),
        ensures
            self.spec_start_pos().view_pair() == line_column_at(self.src(), self.start()),
            self.spec_end_pos().view_pair() == line_column_at(self.src(), self.end()),
            self.src() == self.src_ref()@,
    {
    }

    /// The position of the first character of the span.
    pub fn start_pos(&self) -> (r: SourcePos)
        ensures
            r == self.spec_start_pos(),
    {
        self.start_pos
    }

    /// The position just after the last character of the span.
    pub fn end_pos(&self) -> (r: SourcePos)
        ensures
            r == self.spec_end_pos(),
    {
        self.end_pos
    }

    /// The characters that the span covers (none, if its ends do not lie within its text in
    /// order, which never holds of a well-formed span).
    pub open spec fn covered(&self) -> Seq<char> {
        if 0 <= self.start() <= self.end() <= self.src().len() {
            self.src().subrange(self.start(), self.end())
        } else {
            Seq::empty()
        }
    }

    /// The characters that the span covers.
    pub fn slice(&self) -> (r: &'a [char])
        ensures
            r@ == self.covered(),
    {
        if self.span.0 <= self.span.1 && (self.span.1 as usize) <= self.source.len() {
            &self.source[self.span.0 as usize..self.span.1 as usize]
        } else {
            &self.source[0..0]
        }
    }

    /// The file path of the source, if it has one.
    pub fn file_path(&self) -> (r: Option<&'a str>)
        ensures
            r == self.path(),
    {
        self.file_path
    }

    /// The smallest span that covers both spans.
    pub open spec fn spec_join(&self, rhs: Self) -> Self {
        Self::spec_new(
            self.path(),
            self.src_ref(),
            if self.start() <= rhs.start() { self.start() } else { rhs.start() },
            if self.end() >= rhs.end() { self.end() } else { rhs.end() },
        )
    }

    /// The smallest span that covers both spans. Both must be spans of the same source.
    pub fn join(self, rhs: Self) -> (r: Self)
        requires
            self.wf(),
            rhs.wf(),
            self.src_ref() == rhs.src_ref(),
            self.path() == rhs.path(),
        ensures
            r.wf(),
            r.src_ref() == self.src_ref(),
            r.path() == self.path(),
            r.start() == if self.start() <= rhs.start() { self.start() } else { rhs.start() },
            r.end() == if self.end() >= rhs.end() { self.end() } else { rhs.end() },
            r == self.spec_join(rhs),
    {
        proof {
            lemma_line_column_order(self.src(), self.start(), rhs.start());
            lemma_line_column_order(self.src(), self.end(), rhs.end());
            lemma_line_column_order(self.src(), rhs.end(), self.end());
            if self.start() != rhs.start() {
                lemma_line_column_strictly_increasing(
                    self.src(),
                    if self.start() < rhs.start() { self.start() } else { rhs.start() },
                    if self.start() < rhs.start() { rhs.start() } else { self.start() },
                );
            }
        }
        let lo = if self.span.0 <= rhs.span.0 { self.span.0 } else { rhs.span.0 };
        let hi = if self.span.1 >= rhs.span.1 { self.span.1 } else { rhs.span.1 };
        SourceSpan {
            file_path: self.file_path,
            source: self.source,
            span: (lo, hi),
            start_pos: self.start_pos.min_pos(rhs.start_pos),
            end_pos: self.end_pos.max_pos(rhs.end_pos),
        }
    }

    /// Pairs the span with a value.
    pub fn into_spanned<T>(self, value: T) -> (r: Spanned<'a, T>)
        ensures
            r.span == self,
            r.value == value,
    {
        Spanned { span: self, value }
    }
}

/// Joining spans is commutative.
pub proof fn lemma_join_commutative<'a>(a: SourceSpan<'a>, b: SourceSpan<'a>)
    requires
        a.wf(),
        b.wf(),
        a.src() == b.src(),
        a.path() == b.path(),
    ensures
        join_bounds(a, b) == join_bounds(b, a),
{
}

/// Joining spans is associative.
pub proof fn lemma_join_associative<'a>(a: SourceSpan<'a>, b: SourceSpan<'a>, c: SourceSpan<'a>)
    ensures
        join_bounds_of(join_bounds(a, b), c.start(), c.end()) == join_bounds_of(
            (a.start(), a.end()),
            join_bounds(b, c).0,
            join_bounds(b, c).1,
        ),
{
}

/// The (start, end) of the join of two spans.
pub open spec fn join_bounds<'a>(a: SourceSpan<'a>, b: SourceSpan<'a>) -> (int, int) {
    join_bounds_of((a.start(), a.end()), b.start(), b.end())
}

pub open spec fn join_bounds_of(a: (int, int), start: int, end: int) -> (int, int) {
    (if a.0 <= start { a.0 } else { start }, if a.1 >= end { a.1 } else { end })
}

/// A value together with the span of source text that it was parsed from.
pub struct Spanned<'a, T> {
    pub span: SourceSpan<'a>,
    pub value: T,
}

impl<'a, T> Spanned<'a, T> {
    /// Applies `f` to the value and keeps the span.
    pub fn map<U, F: FnOnce(T) -> U>(self, f: F) -> (r: Spanned<'a, U>)
        requires
            f.requires((self.value,)),
        ensures
            r.span == self.span,
            f.ensures((self.value,), r.value),
    {
        Spanned { span: self.span, value: f(self.value) }
    }
}

/// A position in a source text that can be moved forward character by character, and a
/// rollback point: the start of the text that the next `commit` will hand out.
pub struct SourceCursor<'a> {
    file_path: Option<&'a str>,
    source: &'a [char],
    current_index: u32,
    current_pos: SourcePos,
    rollback_index: u32,
    rollback_pos: SourcePos,
}

/// `pat` occurs in `s` at index `i`.
pub open spec fn starts_with_at(s: Seq<char>, i: int, pat: Seq<char>) -> bool {
    &&& 0 <= i
    &&& i + pat.len() <= s.len()
    &&& s.subrange(i, i + pat.len()) == pat
}

/// Indices of cursors and spans are never negative.
pub broadcast proof fn lemma_cursor_idx_nonneg(c: &SourceCursor)
    ensures
        0 <= #[trigger] c.idx(),
{
}

pub broadcast proof fn lemma_cursor_rb_nonneg(c: &SourceCursor)
    ensures
        0 <= #[trigger] c.rb(),
{
}

pub broadcast proof fn lemma_span_start_nonneg(s: &SourceSpan)
    ensures
        0 <= #[trigger] s.start(),
{
}

pub broadcast proof fn lemma_span_end_nonneg(s: &SourceSpan)
    ensures
        0 <= #[trigger] s.end(),
{
}

pub broadcast group group_index_nonneg {
    lemma_cursor_idx_nonneg,
    lemma_cursor_rb_nonneg,
    lemma_span_start_nonneg,
    lemma_span_end_nonneg,
}

/// A one-character pattern occurs at `i` when the character at `i` is that character.
pub proof fn lemma_starts_with_single(s: Seq<char>, i: int, c: char)
    ensures
        starts_with_at(s, i, seq![c]) <==> (0 <= i < s.len() && s[i] == c),
{
    if 0 <= i < s.len() && s[i] == c {
        assert(s.subrange(i, i + 1) =~= seq![c]);
    }
    if starts_with_at(s, i, seq![c]) {
        assert(s.subrange(i, i + 1)[0] == c);
    }
}

/// A two-character pattern occurs at `i` when the characters at `i` and `i + 1` are those.
pub proof fn lemma_starts_with_pair(s: Seq<char>, i: int, c: char, d: char)
    ensures
        starts_with_at(s, i, seq![c, d]) <==> (0 <= i && i + 1 < s.len() && s[i] == c && s[i + 1] == d),
{
    if 0 <= i && i + 1 < s.len() && s[i] == c && s[i + 1] == d {
        assert(s.subrange(i, i + 2) =~= seq![c, d]);
    }
    if starts_with_at(s, i, seq![c, d]) {
        assert(s.subrange(i, i + 2)[0] == c);
        assert(s.subrange(i, i + 2)[1] == d);
    }
}

impl<'a> SourceCursor<'a> {
    pub open spec fn src(&self) -> Seq<char> {
        self.src_ref()@
    }

    pub closed spec fn src_ref(&self) -> &'a [char] {
        self.source
    }

    pub closed spec fn path(&self) -> Option<&'a str> {
        self.file_path
    }

    /// Index of the current character.
    pub closed spec fn idx(&self) -> int {
        self.current_index as int
    }

    /// Index of the rollback point.
    pub closed spec fn rb(&self) -> int {
        self.rollback_index as int
    }

    pub closed spec fn wf(&self) -> bool {
        &&& self.source@.len() < u32::MAX
        &&& self.rollback_index <= self.current_index <= self.source@.len()
        &&& self.current_pos.view_pair() == line_column_at(self.source@, self.current_index as int)
        &&& self.rollback_pos.view_pair() == line_column_at(
            self.source@,
            self.rollback_index as int,
        )
    }

    pub proof fn lemma_wf(&self)
        requires
            self.wf(),
        ensures
            self.src().len() < u32::MAX,
            0 <= self.rb() <= self.idx() <= self.src().len(),
            self.src() == self.src_ref()@,
    {
    }

    /// The same text and file, the same rollback point.
    pub open spec fn same_text(&self, other: &Self) -> bool {
        &&& self.src() == other.src()
        &&& self.src_ref() == other.src_ref()
        &&& self.path() == other.path()
    }

    /// The character at index `i`, if there is one.
    pub open spec fn char_at(&self, i: int) -> Option<char> {
        if 0 <= i < self.src().len() {
            Some(self.src()[i])
        } else {
            None
        }
    }

    /// A cursor at the start of `source`.
    pub fn new(source: &'a [char], file_path: Option<&'a str>) -> (r: Self)
        requires
            source@.len() < u32::MAX,
        ensures
            r.wf(),
            r.src_ref() == source,
            r.src() == source@,
            r.path() == file_path,
            r.idx() == 0,
            r.rb() == 0,
    {
        SourceCursor {
            file_path,
            source,
            current_index: 0,
            current_pos: SourcePos::new(),
            rollback_index: 0,
            rollback_pos: SourcePos::new(),
        }
    }

    /// The empty span at the start of the source.
    pub fn empty_span(&self) -> (r: SourceSpan<'a>)
        requires
            self.wf(),
        ensures
            r == SourceSpan::spec_new(self.path(), self.src_ref(), 0, 0),
            r.wf_in(self.path(), self.src_ref()),
    {
        proof {
            SourceSpan::lemma_spec_new(self.file_path, self.source, 0, 0);
        }
        SourceSpan {
            file_path: self.file_path,
            source: self.source,
            span: (0, 0),
            start_pos: SourcePos::new(),
            end_pos: SourcePos::new(),
        }
    }

    /// The current character, or `None` at the end of the source.
    pub fn current(&self) -> (r: Option<char>)
        requires
            self.wf(),
        ensures
            r == self.char_at(self.idx()),
    {
        if (self.current_index as usize) < self.source.len() {
            Some(self.source[self.current_index as usize])
        } else {
            None
        }
    }

    /// Moves past the current character and returns it; at the end of the source, does
    /// nothing and returns `None`.
    pub fn advance(&mut self) -> (r: Option<char>)
        requires
            old(self).wf(),
        ensures
            final(self).wf(),
            final(self).same_text(old(self)),
            final(self).rb() == old(self).rb(),
            r == old(self).char_at(old(self).idx()),
            final(self).idx() == if r is Some { old(self).idx() + 1 } else { old(self).idx() },
    {
        let c = match self.current() {
            Some(c) => c,
            None => return None,
        };
        self.current_index = self.current_index + 1;
        self.current_pos.advance(c);
        Some(c)
    }

    /// The current character is `c`.
    pub fn is_char(&self, c: char) -> (r: bool)
        requires
            self.wf(),
        ensures
            r == (self.char_at(self.idx()) == Some(c)),
    {
        match self.current() {
            Some(x) => x == c,
            None => false,
        }
    }

    /// The current character is `c` and `f` holds of the character after it.
    pub fn is_char_and_then_fn<F: Fn(char) -> bool>(&self, c: char, f: F) -> (r: bool)
        requires
            self.wf(),
            forall|x: char| f.requires((x,)),
        ensures
            r ==> self.char_at(self.idx()) == Some(c) && self.idx() + 1 < self.src().len()
                && f.ensures((self.src()[self.idx() + 1],), true),
            !r ==> self.char_at(self.idx()) != Some(c) || self.idx() + 1 >= self.src().len()
                || f.ensures((self.src()[self.idx() + 1],), false),
    {
        if !self.is_char(c) {
            return false;
        }
        let next = self.current_index as usize + 1;
        if next < self.source.len() {
            f(self.source[next])
        } else {
            false
        }
    }

    /// The source continues with `s` at the current character.
    pub fn is_str(&self, s: &str) -> (r: bool)
        requires
            self.wf(),
        ensures
            r == starts_with_at(self.src(), self.idx(), s@),
    {
        let n = s.unicode_len();
        let start = self.current_index as usize;
        if n > self.source.len() - start {
            return false;
        }
        let mut k: usize = 0;
        while k < n
            invariant
                self.wf(),
                start == self.idx(),
                n == s@.len(),
                start + n <= self.src().len(),
                self.src() == self.source@,
                0 <= k <= n,
                forall|j: int| 0 <= j < k ==> self.src()[start + j] == s@[j],
            decreases n - k,
        {
            if self.source[start + k] != s.get_char(k) {
                assert(self.src().subrange(start as int, start + n)[k as int] != s@[k as int]);
                return false;
            }
            k = k + 1;
        }
        assert(self.src().subrange(start as int, start + n) =~= s@);
        true
    }

    /// `f` holds of the current character.
    pub fn is_fn<F: Fn(char) -> bool>(&self, f: F) -> (r: bool)
        requires
            self.wf(),
            forall|x: char| f.requires((x,)),
        ensures
            r ==> self.idx() < self.src().len() && f.ensures((self.src()[self.idx()],), true),
            !r ==> self.idx() >= self.src().len() || f.ensures((self.src()[self.idx()],), false),
    {
        match self.current() {
            Some(c) => f(c),
            None => false,
        }
    }

    /// Moves past the current character if it is `c`.
    pub fn consume_char(&mut self, c: char) -> (r: bool)
        requires
            old(self).wf(),
        ensures
            final(self).wf(),
            final(self).same_text(old(self)),
            final(self).rb() == old(self).rb(),
            r == (old(self).char_at(old(self).idx()) == Some(c)),
            final(self).idx() == if r { old(self).idx() + 1 } else { old(self).idx() },
    {
        if !self.is_char(c) {
            return false;
        }
        let _ = self.advance();
        true
    }

    /// Moves past `s` if the source continues with it.
    pub fn consume_str(&mut self, s: &str) -> (r: bool)
        requires
            old(self).wf(),
        ensures
            final(self).wf(),
            final(self).same_text(old(self)),
            final(self).rb() == old(self).rb(),
            r == starts_with_at(old(self).src(), old(self).idx(), s@),
            final(self).idx() == if r { old(self).idx() + s@.len() } else { old(self).idx() },
    {
        if !self.is_str(s) {
            return false;
        }
        let n = s.unicode_len();
        let ghost start = self.idx();
        let mut k: usize = 0;
        while k < n
            invariant
                self.wf(),
                self.same_text(old(self)),
                self.rb() == old(self).rb(),
                start == old(self).idx(),
                n == s@.len(),
                start + n <= self.src().len(),
                0 <= k <= n,
                self.idx() == start + k,
            decreases n - k,
        {
            let _ = self.advance();
            k = k + 1;
        }
        true
    }

    /// Moves past the current character if `f` holds of it.
    pub fn consume_fn<F: Fn(char) -> bool>(&mut self, f: F) -> (r: bool)
        requires
            old(self).wf(),
            forall|x: char| f.requires((x,)),
        ensures
            final(self).wf(),
            final(self).same_text(old(self)),
            final(self).rb() == old(self).rb(),
            r ==> old(self).idx() < old(self).src().len() && f.ensures(
                (old(self).src()[old(self).idx()],),
                true,
            ),
            !r ==> old(self).idx() >= old(self).src().len() || f.ensures(
                (old(self).src()[old(self).idx()],),
                false,
            ),
            final(self).idx() == if r { old(self).idx() + 1 } else { old(self).idx() },
    {
        if !self.is_fn(f) {
            return false;
        }
        let _ = self.advance();
        true
    }

    /// Moves past every `c` in a row; tells whether there was any.
    pub fn while_char(&mut self, c: char) -> (r: bool)
        requires
            old(self).wf(),
        ensures
            final(self).wf(),
            final(self).same_text(old(self)),
            final(self).rb() == old(self).rb(),
            old(self).idx() <= final(self).idx() <= old(self).src().len(),
            forall|j: int|
                old(self).idx() <= j < final(self).idx() ==> #[trigger] old(self).src()[j] == c,
            final(self).char_at(final(self).idx()) != Some(c),
            r == (final(self).idx() > old(self).idx()),
    {
        let mut consumed = false;
        while self.consume_char(c)
            invariant_except_break
                self.wf(),
                self.same_text(old(self)),
                self.rb() == old(self).rb(),
                old(self).idx() <= self.idx() <= old(self).src().len(),
                forall|j: int| old(self).idx() <= j < self.idx() ==> #[trigger] old(self).src()[j] == c,
                consumed == (self.idx() > old(self).idx()),
            ensures
                self.wf(),
                self.same_text(old(self)),
                self.rb() == old(self).rb(),
                old(self).idx() <= self.idx() <= old(self).src().len(),
                forall|j: int| old(self).idx() <= j < self.idx() ==> #[trigger] old(self).src()[j] == c,
                self.char_at(self.idx()) != Some(c),
                consumed == (self.idx() > old(self).idx()),
            decreases old(self).src().len() - self.idx(),
        {
            consumed = true;
        }
        consumed
    }

    /// Moves past every character in a row of which `f` holds; tells whether there was any.
    pub fn while_fn<F: Fn(char) -> bool>(&mut self, f: F) -> (r: bool)
        requires
            old(self).wf(),
            forall|x: char| f.requires((x,)),
        ensures
            final(self).wf(),
            final(self).same_text(old(self)),
            final(self).rb() == old(self).rb(),
            old(self).idx() <= final(self).idx() <= old(self).src().len(),
            forall|j: int|
                old(self).idx() <= j < final(self).idx() ==> f.ensures(
                    (#[trigger] old(self).src()[j],),
                    true,
                ),
            final(self).idx() == old(self).src().len() || f.ensures(
                (old(self).src()[final(self).idx()],),
                false,
            ),
            r == (final(self).idx() > old(self).idx()),
    {
        let mut consumed = false;
        loop
            invariant
                self.wf(),
                self.same_text(old(self)),
                self.rb() == old(self).rb(),
                forall|x: char| f.requires((x,)),
                old(self).idx() <= self.idx() <= old(self).src().len(),
                forall|j: int|
                    old(self).idx() <= j < self.idx() ==> f.ensures(
                        (#[trigger] old(self).src()[j],),
                        true,
                    ),
                consumed == (self.idx() > old(self).idx()),
            ensures
                self.idx() == old(self).src().len() || f.ensures(
                    (old(self).src()[self.idx()],),
                    false,
                ),
            decreases old(self).src().len() - self.idx(),
        {
            let c = match self.current() {
                Some(c) => c,
                None => break,
            };
            if !f(c) {
                break;
            }
            let _ = self.advance();
            consumed = true;
        }
        consumed
    }

    /// Hands out the span from the rollback point to the current character, and moves the
    /// rollback point there.
    pub fn commit(&mut self) -> (r: SourceSpan<'a>)
        requires
            old(self).wf(),
        ensures
            final(self).wf(),
            final(self).same_text(old(self)),
            final(self).idx() == old(self).idx(),
            final(self).rb() == old(self).idx(),
            r == SourceSpan::spec_new(old(self).path(), old(self).src_ref(), old(self).rb(), old(self).idx()),
            r.wf_in(old(self).path(), old(self).src_ref()),
    {
        proof {
            SourceSpan::lemma_spec_new(self.file_path, self.source, self.rb(), self.idx());
        }
        let span = (self.rollback_index, self.current_index);
        let start_pos = self.rollback_pos;
        let end_pos = self.current_pos;
        self.rollback_index = self.current_index;
        self.rollback_pos = self.current_pos;
        SourceSpan { file_path: self.file_path, source: self.source, span, start_pos, end_pos }
    }

    /// Moves back to the rollback point.
    pub fn rollback(&mut self)
        requires
            old(self).wf(),
        ensures
            final(self).wf(),
            final(self).same_text(old(self)),
            final(self).idx() == old(self).rb(),
            final(self).rb() == old(self).rb(),
    {
        self.current_index = self.rollback_index;
        self.current_pos = self.rollback_pos;
    }

    /// The cursor is at the end of the source.
    pub fn is_eof(&self) -> (r: bool)
        requires
            self.wf(),
        ensures
            r == (self.idx() >= self.src().len()),
    {
        self.current().is_none()
    }

    /// The length in UTF-8 bytes of the text from the rollback point to the current
    /// character (which must fit in a `u32`).
    pub fn relative_offset(&self) -> (r: u32)
        requires
            self.wf(),
            utf8_len_between(self.src(), self.rb(), self.idx()) <= u32::MAX,
        ensures
            r == utf8_len_between(self.src(), self.rb(), self.idx()),
    {
        let mut total: u32 = 0;
        let mut k: u32 = self.rollback_index;
        while k < self.current_index
            invariant
                self.wf(),
                self.rb() <= k <= self.idx(),
                total == utf8_len_between(self.src(), self.rb(), k as int),
                utf8_len_between(self.src(), self.rb(), self.idx()) <= u32::MAX,
            decreases self.idx() - k,
        {
            let c = self.source[k as usize];
            proof {
                lemma_utf8_len_between_monotone(self.src(), self.rb(), k + 1, self.idx());
            }
            total = total + utf8_char_len(c);
            k = k + 1;
        }
        total
    }

    /// The number of characters from the rollback point to the current character: the
    /// unit that spans and offsets into a span count in.
    pub fn relative_char_offset(&self) -> (r: u32)
        requires
            self.wf(),
        ensures
            r == self.idx() - self.rb(),
    {
        self.current_index - self.rollback_index
    }
}

/// Rolling back undoes every move since the rollback point was set: a cursor `c0` at its
/// rollback point (as after `new` or `commit`), moved on to `c1` by calls that keep the
/// rollback point (`advance`, the `consume_` and `while_` methods), and then rolled back to
/// `c2`, is `c0` again, so every later call gives what it gave at `c0`.
pub proof fn lemma_rollback_restores<'a>(c0: SourceCursor<'a>, c1: SourceCursor<'a>, c2: SourceCursor<'a>)
    requires
        c0.wf(),
        c0.rb() == c0.idx(),
        c1.wf(),
        c1.same_text(&c0),
        c1.rb() == c0.rb(),
        c2.wf(),
        c2.same_text(&c1),
        c2.idx() == c1.rb(),
        c2.rb() == c1.rb(),
    ensures
        c2 == c0,
{
    assert(c2.current_pos == c0.current_pos);
    assert(c2.rollback_pos == c0.rollback_pos);
}

/// A fresh cursor stands at the start of its text with nothing since the rollback point:
/// its first commit is the empty span at line 1, column 1.
pub proof fn lemma_new_cursor_commits_empty_start<'a>(c: SourceCursor<'a>)
    requires
        c.wf(),
        c.idx() == 0,
        c.rb() == 0,
    ensures
        ({
            let span = SourceSpan::spec_new(c.path(), c.src_ref(), c.rb(), c.idx());
            &&& span.wf()
            &&& span.start() == 0
            &&& span.end() == 0
            &&& span.src().subrange(span.start(), span.end()) == Seq::<char>::empty()
            &&& span.spec_start_pos().view_pair() == (1u32, 1u32)
            &&& span.spec_end_pos().view_pair() == (1u32, 1u32)
        }),
        c.char_at(c.idx()) == if c.src().len() == 0 { None::<char> } else { Some(c.src()[0]) },
        (c.idx() >= c.src().len()) == (c.src().len() == 0),
{
    SourceSpan::lemma_spec_new(c.path(), c.src_ref(), 0, 0);
    let span = SourceSpan::spec_new(c.path(), c.src_ref(), 0, 0);
    assert(span.src().subrange(0, 0) =~= Seq::<char>::empty());
}

/// Moving forward and rolling back returns to the last commit; a commit then starts the next
/// span where the last one ended.
pub proof fn lemma_commit_spans_adjacent<'a>(
    c0: SourceCursor<'a>,
    c1: SourceCursor<'a>,
    c2: SourceCursor<'a>,
    first: SourceSpan<'a>,
    second: SourceSpan<'a>,
)
    requires
        c0.wf(),
        c1.wf(),
        c1.rb() == c0.idx(),
        first == SourceSpan::spec_new(c0.path(), c0.src_ref(), c0.rb(), c0.idx()),
        c2.rb() == c1.rb(),
        second == SourceSpan::spec_new(c2.path(), c2.src_ref(), c2.rb(), c2.idx()),
        c2.same_text(&c0),
        c1.same_text(&c0),
        c2.idx() <= c2.src().len(),
        c2.rb() <= c2.idx(),
    ensures
        first.end() == second.start(),
{
    c0.lemma_wf();
    SourceSpan::lemma_spec_new(c0.path(), c0.src_ref(), c0.rb(), c0.idx());
    SourceSpan::lemma_spec_new(c2.path(), c2.src_ref(), c2.rb(), c2.idx());
}

} // verus!
