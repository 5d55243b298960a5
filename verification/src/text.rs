//! Text helpers: trimming and lowercasing, as the standard library does them.
use vstd::prelude::*;

verus! {

/// Whether `c` has the Unicode `White_Space` property, the set that
/// `char::is_whitespace` and `str::trim` go by.
pub open spec fn is_white_space(c: char) -> bool {
    let n = c as int;
    ||| 0x9 <= n <= 0xD
    ||| n == 0x20
    ||| n == 0x85
    ||| n == 0xA0
    ||| n == 0x1680
    ||| 0x2000 <= n <= 0x200A
    ||| n == 0x2028
    ||| n == 0x2029
    ||| n == 0x202F
    ||| n == 0x205F
    ||| n == 0x3000
}

/// `s` without its leading white space.
pub open spec fn trim_start_chars(s: Seq<char>) -> Seq<char>
    decreases s.len(),
{
    if s.len() > 0 && is_white_space(s[0]) {
        trim_start_chars(s.drop_first())
    } else {
        s
    }
}

/// `s` without its trailing white space.
pub open spec fn trim_end_chars(s: Seq<char>) -> Seq<char>
    decreases s.len(),
{
    if s.len() > 0 && is_white_space(s.last()) {
        trim_end_chars(s.drop_last())
    } else {
        s
    }
}

/// `s` without its leading and trailing white space.
pub open spec fn trim_chars(s: Seq<char>) -> Seq<char> {
    trim_end_chars(trim_start_chars(s))
}

/// Trimming the start of a text that holds something besides white space
/// does not reach into what is appended after it.
pub proof fn lemma_trim_start_append(a: Seq<char>, l: Seq<char>)
    requires
        trim_start_chars(a).len() > 0,
    ensures
        trim_start_chars(a + l) == trim_start_chars(a) + l,
    decreases a.len(),
{
    if a.len() == 0 {
    } else if is_white_space(a[0]) {
        assert((a + l).drop_first() =~= a.drop_first() + l);
        assert((a + l)[0] == a[0]);
        lemma_trim_start_append(a.drop_first(), l);
    } else {
        assert((a + l)[0] == a[0]);
    }
}

/// Trimming the end of a text leaves a prefix of it.
pub proof fn lemma_trim_end_prefix(x: Seq<char>)
    ensures
        trim_end_chars(x).len() <= x.len(),
        trim_end_chars(x) == x.take(trim_end_chars(x).len() as int),
    decreases x.len(),
{
    if x.len() > 0 && is_white_space(x.last()) {
        lemma_trim_end_prefix(x.drop_last());
        assert(x.drop_last().take(trim_end_chars(x).len() as int) =~= x.take(
            trim_end_chars(x).len() as int,
        ));
    } else {
        assert(x.take(x.len() as int) =~= x);
    }
}

/// What trimming the end of `x` keeps is still there, in front, when more is
/// appended to `x`.
pub proof fn lemma_trim_end_append(x: Seq<char>, y: Seq<char>)
    ensures
        trim_end_chars(x).len() <= trim_end_chars(x + y).len(),
        trim_end_chars(x + y).take(trim_end_chars(x).len() as int) == trim_end_chars(x),
    decreases y.len(),
{
    if y.len() == 0 {
        assert(x + y =~= x);
    } else if is_white_space(y.last()) {
        assert((x + y).drop_last() =~= x + y.drop_last());
        assert((x + y).last() == y.last());
        lemma_trim_end_append(x, y.drop_last());
    } else {
        assert((x + y).last() == y.last());
        lemma_trim_end_prefix(x);
        let k = trim_end_chars(x).len() as int;
        assert((x + y).take(k) =~= x.take(k));
    }
}

/// The lowercase form of `s` by the Unicode case mapping that std's
/// `str::to_lowercase` applies.
pub uninterp spec fn lowercase(s: Seq<char>) -> Seq<char>;

/// Calls std's `str::trim`: the slice without leading and trailing white space
/// (the `White_Space` property, `is_white_space`).
#[verifier::external_body]
pub(crate) fn str_trim(s: &str) -> (r: &str)
    ensures
        r@ == trim_chars(s@),
{
    s.trim()
}

/// Calls std's `str::to_lowercase`. The Unicode case mapping is not written out:
/// the result is named `lowercase` of the input's characters, and nothing more is
/// claimed of it.
#[verifier::external_body]
pub(crate) fn str_to_lowercase(s: &str) -> (r: String)
    ensures
        r@ == lowercase(s@),
{
    s.to_lowercase()
}

} // verus!
