//! Recognition of member access (`root.`) to the left of the cursor.
//!
//! The scan works on the text of one line, because a line that ends in a dot does not parse:
//! whatever syntax tree there is belongs to an earlier state of the document.

use vstd::prelude::*;
use vstd::string::*;
use vstd::utf8::*;

verus! {

/// `.`
pub const DOT: u8 = 0x2E;

/// `#`
pub const HASH: u8 = 0x23;

/// `'`
pub const SINGLE_QUOTE: u8 = 0x27;

/// `"`
pub const DOUBLE_QUOTE: u8 = 0x22;

/// `_`
pub const UNDERSCORE: u8 = 0x5F;

/// `0`
pub const DIGIT_0: u8 = 0x30;

/// `9`
pub const DIGIT_9: u8 = 0x39;

/// `A`
pub const UPPER_A: u8 = 0x41;

/// `Z`
pub const UPPER_Z: u8 = 0x5A;

/// `a`
pub const LOWER_A: u8 = 0x61;

/// `z`
pub const LOWER_Z: u8 = 0x7A;

/// What stands to the left of the cursor, where it is a member access.
#[derive(Debug, PartialEq, Eq)]
pub enum DotContext {
    /// The cursor is behind `root.`, possibly within the member's name: the members of `root`
    /// are to be offered.
    Member {
        /// The identifier in front of the dot.
        root: String,
    },
    /// A member access that is not completed: a chained one (`a.b.`), or one in a comment.
    /// Other than with `None`, nothing else is to be offered in its place.
    Suppress,
}

/// The mathematical counterpart of [`DotContext`].
pub enum DotView {
    /// Members of `root` are wanted.
    Member {
        /// The characters of the root identifier.
        root: Seq<char>,
    },
    /// Nothing is to be offered.
    Suppress,
}

impl View for DotContext {
    type V = DotView;

    open spec fn view(&self) -> DotView {
        match self {
            DotContext::Member { root } => DotView::Member { root: root@ },
            DotContext::Suppress => DotView::Suppress,
        }
    }
}

/// A decimal digit in ASCII.
pub open spec fn digit_byte(b: u8) -> bool {
    DIGIT_0 <= b <= DIGIT_9
}

/// A byte that can stand in an identifier: an ASCII letter, an ASCII digit or `_`.
pub open spec fn ident_byte(b: u8) -> bool {
    ||| digit_byte(b)
    ||| UPPER_A <= b <= UPPER_Z
    ||| LOWER_A <= b <= LOWER_Z
    ||| b == UNDERSCORE
}

/// Where the longest run of identifier bytes that ends just before `end` begins.
pub open spec fn run_start(bytes: Seq<u8>, end: int) -> int
    decreases end,
{
    if end > 0 && ident_byte(bytes[end - 1]) {
        run_start(bytes, end - 1)
    } else {
        end
    }
}

/// Whether a place in a line is within a string literal, and within which kind.
pub enum Quote {
    /// Not within a string literal.
    Outside,
    /// Within `'...'`.
    Single,
    /// Within `"..."`.
    Double,
}

impl Quote {
    /// The state behind one more byte.
    pub open spec fn step(self, b: u8) -> Quote {
        match self {
            Quote::Outside => if b == SINGLE_QUOTE {
                Quote::Single
            } else if b == DOUBLE_QUOTE {
                Quote::Double
            } else {
                Quote::Outside
            },
            Quote::Single => if b == SINGLE_QUOTE {
                Quote::Outside
            } else {
                Quote::Single
            },
            Quote::Double => if b == DOUBLE_QUOTE {
                Quote::Outside
            } else {
                Quote::Double
            },
        }
    }
}

/// The state behind `bytes`, for a line that starts with them.
pub open spec fn quote_after(bytes: Seq<u8>) -> Quote
    decreases bytes.len(),
{
    if bytes.len() == 0 {
        Quote::Outside
    } else {
        quote_after(bytes.drop_last()).step(bytes.last())
    }
}

/// Whether `bytes`, the beginning of a line, hold a `#` outside string literals: what follows
/// them is then part of a comment.
pub open spec fn opens_comment(bytes: Seq<u8>) -> bool {
    exists|k: int|
        0 <= k < bytes.len() && #[trigger] bytes[k] == HASH && quote_after(bytes.take(k))
            == Quote::Outside
}

/// The characters of ASCII text.
pub open spec fn ascii_text(bytes: Seq<u8>) -> Seq<char> {
    Seq::new(bytes.len(), |i: int| bytes[i] as char)
}

/// The completion context at byte column `character` of a line.
pub open spec fn dot_context(bytes: Seq<u8>, character: int) -> Option<DotView> {
    let cursor = if character < bytes.len() {
        character
    } else {
        bytes.len() as int
    };
    // The member's name, as far as it is typed, starts at `word`.
    let word = run_start(bytes, cursor);
    if word == 0 || bytes[word - 1] != DOT {
        None
    } else {
        let dot = word - 1;
        let root = run_start(bytes, dot);
        if root == dot || digit_byte(bytes[root]) {
            None
        } else if root > 0 && bytes[root - 1] == DOT {
            Some(DotView::Suppress)
        } else if opens_comment(bytes.take(root)) {
            Some(DotView::Suppress)
        } else {
            Some(DotView::Member { root: ascii_text(bytes.subrange(root, dot)) })
        }
    }
}

/// Whether `b` can stand in an identifier.
///
/// No byte of a multi-byte character can: all identifier bytes are ASCII.
pub fn is_ident_byte(b: u8) -> (r: bool)
    ensures
        r == ident_byte(b),
        r ==> b < 0x80,
{
    (DIGIT_0 <= b && b <= DIGIT_9) || (UPPER_A <= b && b <= UPPER_Z) || (LOWER_A <= b && b
        <= LOWER_Z) || b == UNDERSCORE
}

/// Classifies what stands to the left of byte column `character` of `line`. `None` means that
/// it is no member access, and that completion goes on as usual.
pub fn scan_dot_context(line: &str, character: u32) -> (r: Option<DotContext>)
    ensures
        dot_context(line.spec_bytes(), character as int) == (match r {
            Some(context) => Some(context@),
            None => None,
        }),
{
    let bytes = line.as_bytes();
    let cursor: usize = if (character as usize) < bytes.len() {
        character as usize
    } else {
        bytes.len()
    };

    // Skip back over the member's name, as far as it is typed (`re` of `helpers.re`).
    let word: usize = scan_run(bytes, cursor);
    if word == 0 || bytes[word - 1] != DOT {
        return None;
    }
    let dot: usize = word - 1;

    // Skip back over the root identifier (`helpers` of `helpers.`).
    let root_start: usize = scan_run(bytes, dot);
    // An empty root (`f().`, `"s".`) or one like a number (`1.`) is no identifier.
    if root_start == dot || (DIGIT_0 <= bytes[root_start] && bytes[root_start] <= DIGIT_9) {
        return None;
    }
    if root_start > 0 && bytes[root_start - 1] == DOT {
        return Some(DotContext::Suppress);
    }
    if scan_comment(bytes, root_start) {
        return Some(DotContext::Suppress);
    }
    Some(DotContext::Member { root: ascii_slice(line, root_start, dot) })
}

/// Walks back over identifier bytes from `end`, and returns where they begin.
fn scan_run(bytes: &[u8], end: usize) -> (start: usize)
    requires
        end <= bytes@.len(),
    ensures
        start == run_start(bytes@, end as int),
        start <= end,
        forall|j: int| start <= j < end ==> ident_byte(#[trigger] bytes@[j]),
{
    let mut i: usize = end;
    while i > 0 && is_ident_byte(bytes[i - 1])
        invariant
            i <= end <= bytes@.len(),
            run_start(bytes@, i as int) == run_start(bytes@, end as int),
            forall|j: int| i <= j < end ==> ident_byte(#[trigger] bytes@[j]),
        decreases i,
    {
        i = i - 1;
    }
    i
}

/// Whether a comment is open at `end`: there is a `#` before it that no string literal holds.
/// The scan sees one line only, so a literal that began on an earlier line is not known to it.
fn scan_comment(bytes: &[u8], end: usize) -> (r: bool)
    requires
        end <= bytes@.len(),
    ensures
        r == opens_comment(bytes@.take(end as int)),
{
    let ghost prefix = bytes@.take(end as int);
    let ghost mut quote = Quote::Outside;
    let mut in_single: bool = false;
    let mut in_double: bool = false;
    let mut i: usize = 0;
    while i < end
        invariant
            i <= end <= bytes@.len(),
            prefix == bytes@.take(end as int),
            quote == quote_after(prefix.take(i as int)),
            in_single == (quote == Quote::Single),
            in_double == (quote == Quote::Double),
            forall|k: int|
                0 <= k < i && #[trigger] prefix[k] == HASH ==> quote_after(prefix.take(k))
                    != Quote::Outside,
        decreases end - i,
    {
        let b: u8 = bytes[i];
        proof {
            assert(prefix[i as int] == b);
            lemma_quote_step(prefix, i as int);
            quote = quote.step(b);
        }
        if b == SINGLE_QUOTE && !in_double {
            in_single = !in_single;
        } else if b == DOUBLE_QUOTE && !in_single {
            in_double = !in_double;
        } else if b == HASH && !in_single && !in_double {
            return true;
        }
        i = i + 1;
    }
    false
}

proof fn lemma_quote_step(bytes: Seq<u8>, i: int)
    requires
        0 <= i < bytes.len(),
    ensures
        quote_after(bytes.take(i + 1)) == quote_after(bytes.take(i)).step(bytes[i]),
{
    assert(bytes.take(i + 1).drop_last() =~= bytes.take(i));
}

/// The part of `line` from byte `start` to byte `end`, all of it identifier bytes.
fn ascii_slice(line: &str, start: usize, end: usize) -> (r: String)
    requires
        start <= end < line.spec_bytes().len(),
        forall|j: int| start <= j < end ==> ident_byte(#[trigger] line.spec_bytes()[j]),
        line.spec_bytes()[end as int] == DOT,
    ensures
        r@ == ascii_text(line.spec_bytes().subrange(start as int, end as int)),
{
    let ghost bytes = line.spec_bytes();
    proof {
        encode_utf8_valid_utf8(line@);
        is_char_boundary_iff_not_is_continuation_byte(bytes, end as int);
        lemma_ascii_is_not_continuation(bytes[end as int]);
    }
    let head: &str = line.split_at(end).0;
    let ghost head_bytes = head.spec_bytes();
    proof {
        encode_utf8_valid_utf8(head@);
        if start < end {
            assert(head_bytes[start as int] == bytes[start as int]);
            is_char_boundary_iff_not_is_continuation_byte(head_bytes, start as int);
            lemma_ascii_is_not_continuation(bytes[start as int]);
        } else {
            is_char_boundary_start_end_of_seq(head_bytes);
        }
    }
    let root: &str = head.split_at(start).1;
    proof {
        let text = bytes.subrange(start as int, end as int);
        assert(root.spec_bytes() =~= text);
        assert forall|i: int| 0 <= i < text.len() implies #[trigger] text[i] < 0x80 by {
            assert(ident_byte(bytes[start + i]));
        }
        lemma_ascii_text_encoding(text);
        encode_utf8_decode_utf8(root@);
        encode_utf8_decode_utf8(ascii_text(text));
    }
    root.to_owned()
}

proof fn lemma_ascii_is_not_continuation(b: u8)
    requires
        b < 0x80,
    ensures
        !is_continuation_byte(b),
{
}

/// ASCII text is encoded as itself.
proof fn lemma_ascii_text_encoding(bytes: Seq<u8>)
    requires
        forall|i: int| 0 <= i < bytes.len() ==> #[trigger] bytes[i] < 0x80,
    ensures
        encode_utf8(ascii_text(bytes)) == bytes,
{
    let chars = ascii_text(bytes);
    assert(is_ascii_chars(chars)) by {
        assert forall|i: int| 0 <= i < chars.len() implies '\0' <= #[trigger] chars[i]
            <= '\u{7f}' by {
            assert(bytes[i] < 0x80);
        }
    }
    is_ascii_chars_encode_utf8(chars);
    assert forall|i: int| 0 <= i < bytes.len() implies encode_utf8(chars)[i] == bytes[i] by {
        assert(bytes[i] < 0x80);
        assert(chars[i] == bytes[i] as char);
        assert(chars[i] as u8 == encode_utf8(chars)[i]);
    }
    assert(encode_utf8(chars) =~= bytes);
}

/// What a run of identifier bytes is: it lies before `end`, holds identifier bytes only, and
/// cannot be made longer.
proof fn lemma_run(bytes: Seq<u8>, end: int)
    requires
        0 <= end <= bytes.len(),
    ensures
        0 <= run_start(bytes, end) <= end,
        forall|j: int| run_start(bytes, end) <= j < end ==> ident_byte(#[trigger] bytes[j]),
        run_start(bytes, end) > 0 ==> !ident_byte(bytes[run_start(bytes, end) - 1]),
    decreases end,
{
    if end > 0 && ident_byte(bytes[end - 1]) {
        lemma_run(bytes, end - 1);
    }
}

/// A run is known by its two ends.
proof fn lemma_run_from_shape(bytes: Seq<u8>, start: int, end: int)
    requires
        0 <= start <= end <= bytes.len(),
        forall|j: int| start <= j < end ==> ident_byte(#[trigger] bytes[j]),
        start > 0 ==> !ident_byte(bytes[start - 1]),
    ensures
        run_start(bytes, end) == start,
    decreases end,
{
    if start < end {
        assert(ident_byte(bytes[end - 1]));
        lemma_run_from_shape(bytes, start, end - 1);
    }
}

/// What a run before `end` is depends on the bytes before `end` alone.
proof fn lemma_run_of_prefix(a: Seq<u8>, b: Seq<u8>, end: int)
    requires
        0 <= end <= a.len(),
        end <= b.len(),
        a.take(end) == b.take(end),
    ensures
        run_start(a, end) == run_start(b, end),
    decreases end,
{
    if end > 0 {
        assert(a[end - 1] == a.take(end)[end - 1]);
        assert(b[end - 1] == b.take(end)[end - 1]);
        assert(a.take(end - 1) =~= a.take(end).take(end - 1));
        assert(b.take(end - 1) =~= b.take(end).take(end - 1));
        lemma_run_of_prefix(a, b, end - 1);
    }
}

/// A line in which a member of the identifier at `start .. dot` is typed at `cursor`: the dot
/// follows the identifier, and the cursor follows the dot, at most with the beginning of the
/// member's name between them. The identifier is no number, is not itself a member of
/// something else, and is not part of a comment.
pub open spec fn member_access(bytes: Seq<u8>, cursor: int, start: int, dot: int) -> bool {
    &&& 0 <= start < dot < cursor <= bytes.len()
    &&& bytes[dot] == DOT
    &&& forall|j: int| start <= j < dot ==> ident_byte(#[trigger] bytes[j])
    &&& forall|j: int| dot < j < cursor ==> ident_byte(#[trigger] bytes[j])
    &&& !digit_byte(bytes[start])
    &&& start > 0 ==> !ident_byte(bytes[start - 1]) && bytes[start - 1] != DOT
    &&& !opens_comment(bytes.take(start))
}

/// Members are offered for a member access that is typed at the cursor, and for nothing else:
/// the root is the whole identifier in front of the dot.
pub proof fn members_are_offered_iff_accessed(bytes: Seq<u8>, cursor: int, root: Seq<char>)
    requires
        0 <= cursor <= bytes.len(),
    ensures
        dot_context(bytes, cursor) == Some(DotView::Member { root }) <==> exists|
            start: int,
            dot: int,
        |
            #[trigger] member_access(bytes, cursor, start, dot) && root == ascii_text(
                bytes.subrange(start, dot),
            ),
{
    let word = run_start(bytes, cursor);
    lemma_run(bytes, cursor);
    if word > 0 {
        lemma_run(bytes, word - 1);
    }
    if dot_context(bytes, cursor) == Some(DotView::Member { root }) {
        assert(member_access(bytes, cursor, run_start(bytes, word - 1), word - 1));
    }
    if exists|start: int, dot: int|
        #[trigger] member_access(bytes, cursor, start, dot) && root == ascii_text(
            bytes.subrange(start, dot),
        ) {
        let (start, dot) = choose|start: int, dot: int|
            #[trigger] member_access(bytes, cursor, start, dot) && root == ascii_text(
                bytes.subrange(start, dot),
            );
        lemma_run_from_shape(bytes, dot + 1, cursor);
        lemma_run_from_shape(bytes, start, dot);
    }
}

/// The root of a member access is an identifier: it is not empty, consists of ASCII letters,
/// ASCII digits and `_`, and does not begin with a digit.
pub proof fn root_is_identifier(bytes: Seq<u8>, character: int, root: Seq<char>)
    requires
        0 <= character,
        dot_context(bytes, character) == Some(DotView::Member { root }),
    ensures
        root.len() > 0,
        forall|i: int|
            0 <= i < root.len() ==> ident_byte(#[trigger] root[i] as u8) && root[i] as u32 <= 0x7F,
        !digit_byte(root[0] as u8),
{
    let cursor = if character < bytes.len() {
        character
    } else {
        bytes.len() as int
    };
    lemma_run(bytes, cursor);
    let dot = run_start(bytes, cursor) - 1;
    lemma_run(bytes, dot);
    let start = run_start(bytes, dot);
    assert(root == ascii_text(bytes.subrange(start, dot)));
    assert forall|i: int| 0 <= i < root.len() implies #[trigger] root[i] as u8 == bytes[start + i]
        && ident_byte(bytes[start + i]) by {
        assert(bytes.subrange(start, dot)[i] == bytes[start + i]);
    }
}

/// Everything to the right of the cursor is ignored.
pub proof fn right_of_cursor_is_ignored(a: Seq<u8>, b: Seq<u8>, cursor: int)
    requires
        0 <= cursor <= a.len(),
        cursor <= b.len(),
        a.take(cursor) == b.take(cursor),
    ensures
        dot_context(a, cursor) == dot_context(b, cursor),
{
    lemma_run_of_prefix(a, b, cursor);
    lemma_run(a, cursor);
    let word = run_start(a, cursor);
    if word > 0 {
        let dot = word - 1;
        assert(a[dot] == a.take(cursor)[dot]);
        assert(b[dot] == b.take(cursor)[dot]);
        assert(a.take(dot) =~= a.take(cursor).take(dot));
        assert(b.take(dot) =~= b.take(cursor).take(dot));
        lemma_run_of_prefix(a, b, dot);
        lemma_run(a, dot);
        let root = run_start(a, dot);
        assert forall|j: int| 0 <= j < dot implies a[j] == b[j] by {
            assert(a[j] == a.take(dot)[j]);
            assert(b[j] == b.take(dot)[j]);
        }
        assert(a.take(root) =~= b.take(root));
        assert(a.subrange(root, dot) =~= b.subrange(root, dot));
    }
}

/// A cursor beyond the end of the line is taken to be at its end.
pub proof fn cursor_is_clamped(bytes: Seq<u8>, character: int)
    requires
        character >= bytes.len(),
    ensures
        dot_context(bytes, character) == dot_context(bytes, bytes.len() as int),
{
}

/// How much of the member's name is typed makes no difference: moving the cursor over
/// identifier bytes keeps the context.
pub proof fn typing_a_name_keeps_context(bytes: Seq<u8>, from: int, to: int)
    requires
        0 <= from <= to <= bytes.len(),
        forall|j: int| from <= j < to ==> ident_byte(#[trigger] bytes[j]),
    ensures
        dot_context(bytes, to) == dot_context(bytes, from),
    decreases to - from,
{
    if from < to {
        assert(ident_byte(bytes[to - 1]));
        typing_a_name_keeps_context(bytes, from, to - 1);
    }
}

/// No members are offered in a comment.
pub proof fn no_members_in_comment(bytes: Seq<u8>, cursor: int)
    requires
        0 <= cursor <= bytes.len(),
        opens_comment(bytes.take(cursor)),
    ensures
        dot_context(bytes, cursor) is None || dot_context(bytes, cursor) == Some(
            DotView::Suppress,
        ),
{
    if dot_context(bytes, cursor) is Some {
        lemma_run(bytes, cursor);
        let dot = run_start(bytes, cursor) - 1;
        lemma_run(bytes, dot);
        let root = run_start(bytes, dot);
        let prefix = bytes.take(cursor);
        let k = choose|k: int|
            0 <= k < prefix.len() && #[trigger] prefix[k] == HASH && quote_after(prefix.take(k))
                == Quote::Outside;
        assert(bytes[k] == HASH);
        assert(k < root);
        assert(bytes.take(root).take(k) =~= prefix.take(k));
        assert(bytes.take(root)[k] == HASH);
    }
}

/// A chained member access (`a.b.`) is recognised and offers nothing.
pub proof fn chained_access_is_suppressed(bytes: Seq<u8>, cursor: int, start: int, dot: int)
    requires
        0 < start < dot < cursor <= bytes.len(),
        bytes[dot] == DOT,
        bytes[start - 1] == DOT,
        forall|j: int| start <= j < dot ==> ident_byte(#[trigger] bytes[j]),
        forall|j: int| dot < j < cursor ==> ident_byte(#[trigger] bytes[j]),
        !digit_byte(bytes[start]),
    ensures
        dot_context(bytes, cursor) == Some(DotView::Suppress),
{
    lemma_run_from_shape(bytes, dot + 1, cursor);
    lemma_run_from_shape(bytes, start, dot);
}

} // verus!
