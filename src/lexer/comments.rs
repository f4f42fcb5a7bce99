//! Comments: `//` up to and including the end of the line, and `/*` up to
//! and including the first `*/`.  They are discarded and yield no token.
use vstd::prelude::*;

use super::{has_text, text_at, LexError, Lexer, Scan};

verus! {

/// The position just past the line comment whose text continues at `j`:
/// after the first line feed at or after `j`, or the end of the source.
pub open spec fn line_end(src: Seq<char>, j: int) -> int
    decreases src.len() - j,
{
    if j < 0 || j >= src.len() {
        src.len() as int
    } else if src[j] == '\n' {
        j + 1
    } else {
        line_end(src, j + 1)
    }
}

/// The position just past the first `*/` at or after `j`, if there is one.
pub open spec fn block_end(src: Seq<char>, j: int) -> Option<int>
    decreases src.len() - j,
{
    if j < 0 || j >= src.len() {
        None
    } else if text_at(src, j, "*/"@) {
        Some(j + 2)
    } else {
        block_end(src, j + 1)
    }
}

/// What a comment starting at `i` amounts to: where lexing goes on after it,
/// or the error of an unterminated block comment.  `None` where no comment
/// starts at `i`.
pub open spec fn comment_at(src: Seq<char>, i: int) -> Option<Scan> {
    if text_at(src, i, "//"@) {
        Some(Scan::Skip(line_end(src, i + 2)))
    } else if text_at(src, i, "/*"@) {
        match block_end(src, i + 2) {
            Some(k) => Some(Scan::Skip(k)),
            None => Some(Scan::Fail(LexError::UnterminatedComment(i as usize))),
        }
    } else {
        None
    }
}

pub proof fn lemma_line_end_bounds(src: Seq<char>, j: int)
    requires
        0 <= j,
    ensures
        j <= line_end(src, j) <= src.len() || (j > src.len() && line_end(src, j) == src.len()),
    decreases src.len() - j,
{
    if j < src.len() && src[j] != '\n' {
        lemma_line_end_bounds(src, j + 1);
    }
}

pub proof fn lemma_block_end_bounds(src: Seq<char>, j: int)
    requires
        0 <= j,
    ensures
        block_end(src, j) matches Some(k) ==> j + 2 <= k <= src.len(),
    decreases src.len() - j,
{
    reveal_strlit("*/");
    if j < src.len() && !text_at(src, j, "*/"@) {
        lemma_block_end_bounds(src, j + 1);
    }
}

/// Skips a comment at the cursor, if one starts there.
/// Returns whether one did.
pub fn skip_comments(l: &mut Lexer) -> (r: Result<bool, LexError>)
    requires
        old(l).wf(),
    ensures
        final(l).wf(),
        final(l).src == old(l).src,
        final(l).tokens == old(l).tokens,
        match comment_at(old(l).src@, old(l).i as int) {
            None => r == Ok::<bool, LexError>(false) && final(l).i == old(l).i,
            Some(Scan::Skip(k)) => r == Ok::<bool, LexError>(true) && final(l).i == k,
            Some(Scan::Fail(e)) => r == Err::<bool, LexError>(e),
            Some(Scan::Emit(_, _)) => false,
        },
{
    let start = l.i;
    if has_text(&l.src, l.i, "//") {
        proof {
            reveal_strlit("//");
        }
        l.advance_with(2);
        skip_line_comment(l);
        Ok(true)
    } else if has_text(&l.src, l.i, "/*") {
        proof {
            reveal_strlit("/*");
        }
        l.advance_with(2);
        if skip_block_comment(l) {
            Ok(true)
        } else {
            Err(LexError::UnterminatedComment(start))
        }
    } else {
        Ok(false)
    }
}

/// Skips a line comment: moves the cursor past the next line feed, or to the
/// end of the source.
pub fn skip_line_comment(l: &mut Lexer)
    requires
        old(l).wf(),
    ensures
        final(l).wf(),
        final(l).src == old(l).src,
        final(l).tokens == old(l).tokens,
        final(l).i == line_end(old(l).src@, old(l).i as int),
{
    while l.i < l.src.len()
        invariant
            l.wf(),
            l.src == old(l).src,
            l.tokens == old(l).tokens,
            line_end(l.src@, l.i as int) == line_end(old(l).src@, old(l).i as int),
        decreases l.src.len() - l.i,
    {
        if l.src[l.i] == '\n' {
            l.advance();
            return ;
        }
        l.advance();
    }
}

/// Skips a block comment: moves the cursor past the next `*/`.  Returns
/// false, with the cursor at the end of the source, where there is none.
pub fn skip_block_comment(l: &mut Lexer) -> (r: bool)
    requires
        old(l).wf(),
    ensures
        final(l).wf(),
        final(l).src == old(l).src,
        final(l).tokens == old(l).tokens,
        match block_end(old(l).src@, old(l).i as int) {
            Some(k) => r && final(l).i == k,
            None => !r,
        },
{
    while l.i < l.src.len()
        invariant
            l.wf(),
            l.src == old(l).src,
            l.tokens == old(l).tokens,
            block_end(l.src@, l.i as int) == block_end(old(l).src@, old(l).i as int),
        decreases l.src.len() - l.i,
    {
        if has_text(&l.src, l.i, "*/") {
            proof {
                reveal_strlit("*/");
            }
            l.advance_with(2);
            return true;
        }
        l.advance();
    }
    false
}

} // verus!
