//! Comparing and splitting strings by their characters.
use vstd::prelude::*;
use vstd::string::StrSliceExecFns;
use vstd::utf8::encode_utf8;

verus! {

/// What is left of `text` once a leading `prefix` is removed, if it begins with one.
pub open spec fn without_prefix(text: Seq<char>, prefix: Seq<char>) -> Option<Seq<char>> {
    if prefix.is_prefix_of(text) {
        Some(text.skip(prefix.len() as int))
    } else {
        None
    }
}

/// Whether two strings hold the same characters.
pub fn same_text(a: &str, b: &str) -> (same: bool)
    ensures
        same == (a@ == b@),
{
    let x = a.as_bytes();
    let y = b.as_bytes();
    proof {
        vstd::utf8::encode_utf8_decode_utf8(a@);
        vstd::utf8::encode_utf8_decode_utf8(b@);
    }
    if x.len() != y.len() {
        return false;
    }
    let mut i: usize = 0;
    while i < x.len()
        invariant
            i <= x.len() == y.len(),
            x@ == encode_utf8(a@),
            y@ == encode_utf8(b@),
            forall|j: int| 0 <= j < i ==> x@[j] == y@[j],
        decreases x.len() - i,
    {
        if x[i] != y[i] {
            return false;
        }
        i = i + 1;
    }
    assert(x@ =~= y@);
    true
}

/// Removes a leading `prefix` from `text`, once; `None` where `text` does not begin with it.
pub fn strip_prefix<'a>(text: &'a str, prefix: &str) -> (rest: Option<&'a str>)
    ensures
        match rest {
            Some(r) => without_prefix(text@, prefix@) == Some(r@),
            None => without_prefix(text@, prefix@) is None,
        },
        match rest {
            Some(r) => text@ == prefix@ + r@,
            None => forall|r: Seq<char>| text@ != #[trigger] (prefix@ + r),
        },
{
    let len = text.unicode_len();
    let cut = prefix.unicode_len();
    if len < cut {
        proof {
            law_prefix_comes_off_whole(text@, prefix@);
        }
        return None;
    }
    let head = text.substring_char(0, cut);
    if same_text(head, prefix) {
        let rest = text.substring_char(cut, len);
        assert(prefix@.is_prefix_of(text@)) by {
            assert(prefix@ =~= text@.subrange(0, cut as int));
        }
        assert(rest@ =~= text@.skip(cut as int));
        assert(text@ =~= prefix@ + rest@);
        Some(rest)
    } else {
        assert(!prefix@.is_prefix_of(text@));
        proof {
            law_prefix_comes_off_whole(text@, prefix@);
        }
        None
    }
}

/// What is left without a prefix is the text that follows it, and something is left exactly where the
/// text is the prefix with a text behind it.
pub proof fn law_prefix_comes_off_whole(text: Seq<char>, prefix: Seq<char>)
    ensures
        without_prefix(text, prefix) matches Some(rest) ==> text == prefix + rest,
        forall|rest: Seq<char>|
            text == #[trigger] (prefix + rest) ==> without_prefix(text, prefix) == Some(rest),
{
    if let Some(rest) = without_prefix(text, prefix) {
        assert(text =~= prefix + rest);
    }
    assert forall|rest: Seq<char>| text == #[trigger] (prefix + rest) implies without_prefix(
        text,
        prefix,
    ) == Some(rest) by {
        assert(prefix =~= text.subrange(0, prefix.len() as int));
        assert(text.skip(prefix.len() as int) =~= rest);
    }
}

} // verus!
