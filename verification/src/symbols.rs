//! Symbol classification for the native code generator's module setup.
//!
//! The builtins base module brings its own symbols along. Before code
//! generation the driver walks every function of the module: a symbol
//! with the builtins prefix is given internal linkage, so that it never
//! leaks into the host symbol table; the hot dictionary builtins are
//! additionally tagged always-inline. Applying the linkage and the
//! attribute is the code generator's business — which symbol gets what
//! is decided here.
use vstd::prelude::*;
use vstd::string::StrSliceExecFns;

verus! {

/// `p` is a prefix of `s`.
pub open spec fn has_prefix(s: Seq<char>, p: Seq<char>) -> bool {
    p.len() <= s.len() && s.subrange(0, p.len() as int) == p
}

/// Whether `s` begins with `prefix`.
pub fn starts_with(s: &str, prefix: &str) -> (b: bool)
    ensures
        b == has_prefix(s@, prefix@),
{
    let n = s.unicode_len();
    let m = prefix.unicode_len();
    if m > n {
        return false;
    }
    let mut i: usize = 0;
    while i < m
        invariant
            n == s@.len(),
            m == prefix@.len(),
            m <= n,
            i <= m,
            forall|k: int| 0 <= k < i ==> s@[k] == prefix@[k],
        decreases m - i,
    {
        if s.get_char(i) != prefix.get_char(i) {
            proof {
                assert(s@.subrange(0, m as int)[i as int] == s@[i as int]);
            }
            return false;
        }
        i = i + 1;
    }
    proof {
        assert(s@.subrange(0, m as int) =~= prefix@);
    }
    true
}

/// A symbol of the builtins module: the driver marks it internal.
pub fn is_builtin_symbol(name: &str) -> (b: bool)
    ensures
        b == has_prefix(name@, "roc_builtins"@),
{
    starts_with(name, "roc_builtins")
}

/// A hot dictionary builtin: the driver additionally tags it
/// always-inline.
pub fn is_hot_builtin_symbol(name: &str) -> (b: bool)
    ensures
        b == has_prefix(name@, "roc_builtins.dict"@),
{
    starts_with(name, "roc_builtins.dict")
}

/// Every symbol tagged always-inline is also marked internal: the hot
/// prefix refines the builtins prefix.
pub proof fn lemma_hot_builtin_is_builtin(name: Seq<char>)
    requires
        has_prefix(name, "roc_builtins.dict"@),
    ensures
        has_prefix(name, "roc_builtins"@),
{
    reveal_strlit("roc_builtins");
    reveal_strlit("roc_builtins.dict");
    assert forall|k: int| 0 <= k < 12 implies name.subrange(0, 12)[k] == "roc_builtins"@[k] by {
        assert(name.subrange(0, 17)[k] == "roc_builtins.dict"@[k]);
    }
    assert(name.subrange(0, 12) =~= "roc_builtins"@);
}

} // verus!
