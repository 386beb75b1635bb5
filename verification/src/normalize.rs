//! The source normalizer: a bare expression handed to the harness is
//! wrapped into a minimal complete module whose single entry point is
//! bound to that expression, each of its lines indented one level. Text
//! that already begins with a module declaration is used unmodified. No
//! validation happens here; syntactic correctness is the downstream
//! compiler's business.
use vstd::prelude::*;
use vstd::string::StrSliceExecFns;
use vstd::string::StringExecFns;

verus! {

/// The synthetic module wrapper put before the indented expression.
pub open spec fn module_header_text() -> Seq<char> {
    "app \"test\" provides [ main ] to \"./platform\"\n\nmain =\n"@
}

/// One level of indentation.
pub open spec fn indent_text() -> Seq<char> {
    seq![' ', ' ', ' ', ' ']
}

/// Index of the first line feed in `src`, or `src.len()` if there is
/// none.
pub open spec fn first_nl(src: Seq<char>) -> nat
    decreases src.len(),
{
    if src.len() == 0 {
        0
    } else if src[0] == '\n' {
        0
    } else {
        1 + first_nl(src.skip(1))
    }
}

/// `first_nl` is pinned by its characterization: if nothing before `m`
/// is a line feed and `m` is one (or the end), then `m` is it.
pub proof fn lemma_first_nl_at(src: Seq<char>, m: int)
    requires
        0 <= m <= src.len(),
        forall|k: int| 0 <= k < m ==> src[k] != '\n',
        m < src.len() ==> src[m] == '\n',
    ensures
        first_nl(src) == m,
    decreases m,
{
    if m > 0 {
        lemma_first_nl_at(src.skip(1), m - 1);
    }
}

/// The indented body: each line of `src` (terminated by a line feed or
/// by the end of the text, a carriage return before a line feed being
/// part of the terminator) re-emitted as one indent, the line's content,
/// and a line feed.
pub open spec fn promoted_body(src: Seq<char>) -> Seq<char>
    decreases src.len(),
{
    if src.len() == 0 {
        Seq::empty()
    } else {
        let j = first_nl(src) as int;
        let terminated = j < src.len();
        let end = if terminated && j >= 1 && src[j - 1] == '\r' {
            j - 1
        } else {
            j
        };
        let rest = if terminated {
            promoted_body(src.skip(j + 1))
        } else {
            Seq::<char>::empty()
        };
        indent_text() + src.subrange(0, end) + seq!['\n'] + rest
    }
}

/// What promoting an expression yields: the synthetic module header
/// followed by the indented body.
pub open spec fn promoted_module_text(src: Seq<char>) -> Seq<char> {
    module_header_text() + promoted_body(src)
}

/// Source text that already is a module: it begins with the module
/// declaration keyword.
pub open spec fn is_module_text(src: Seq<char>) -> bool {
    src.len() >= 3 && src[0] == 'a' && src[1] == 'p' && src[2] == 'p'
}

/// Wrap a bare expression into a minimal complete module: a synthetic
/// header binding a single entry point, then the expression with every
/// line indented one level.
pub fn promote_expr_to_module(src: &str) -> (out: String)
    ensures
        out@ == promoted_module_text(src@),
{
    let mut buffer = String::from_str(
        "app \"test\" provides [ main ] to \"./platform\"\n\nmain =\n",
    );
    let n = src.unicode_len();
    let mut i: usize = 0;
    proof {
        assert(src@.skip(0) =~= src@);
    }
    while i < n
        invariant
            n == src@.len(),
            i <= n,
            promoted_module_text(src@) == buffer@ + promoted_body(src@.skip(i as int)),
        decreases n - i,
    {
        let ghost tail = src@.skip(i as int);
        // Scan to the line's terminator.
        let mut j: usize = i;
        while j < n && src.get_char(j) != '\n'
            invariant
                n == src@.len(),
                i <= j <= n,
                forall|k: int| i <= k < j ==> src@[k] != '\n',
            decreases n - j,
        {
            j = j + 1;
        }
        proof {
            lemma_first_nl_at(tail, j - i);
        }
        // A carriage return directly before the line feed belongs to the
        // terminator, not to the line.
        let end = if j < n && j > i && src.get_char(j - 1) == '\r' {
            j - 1
        } else {
            j
        };
        buffer.append("    ");
        buffer.append(src.substring_char(i, end));
        buffer.append("\n");
        proof {
            reveal_strlit("    ");
            reveal_strlit("\n");
            assert("    "@ =~= indent_text());
            assert("\n"@ =~= seq!['\n']);
            assert(tail.subrange(0, end - i) =~= src@.subrange(i as int, end as int));
            if j < n {
                assert(tail.skip(j - i + 1) =~= src@.skip(j + 1));
            } else {
                assert(src@.skip(n as int) =~= Seq::<char>::empty());
            }
        }
        i = if j < n {
            j + 1
        } else {
            n
        };
    }
    proof {
        assert(src@.skip(n as int) =~= Seq::<char>::empty());
    }
    buffer
}

/// Hand a module source through unchanged; promote anything else.
pub fn normalize_source(src: &str) -> (out: String)
    ensures
        is_module_text(src@) ==> out@ == src@,
        !is_module_text(src@) ==> out@ == promoted_module_text(src@),
{
    let n = src.unicode_len();
    if n >= 3 && src.get_char(0) == 'a' && src.get_char(1) == 'p' && src.get_char(2) == 'p' {
        src.to_owned()
    } else {
        promote_expr_to_module(src)
    }
}

} // verus!
