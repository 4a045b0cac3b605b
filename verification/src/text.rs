//! Character classes and runs of characters: the pieces that the wire
//! grammar is made of, with the executable scans that compute them.

use vstd::prelude::*;

verus! {

/// The character classes of the wire grammar.
#[derive(Clone, Copy, Debug)]
pub enum CharClass {
    /// `A` to `Z`: what a method token is made of.
    Upper,
    /// Anything but a space: what a request target is made of.
    NonSpace,
    /// Anything but `?`: what the path inside a target is made of.
    NonQuery,
    /// ASCII letters and `-`: what a header name is made of.
    HeaderName,
    /// Anything but CR and LF: what a header value is made of.
    HeaderValue,
}

impl CharClass {
    /// Whether `c` belongs to the class.
    pub open spec fn has(self, c: char) -> bool {
        match self {
            CharClass::Upper => 'A' <= c && c <= 'Z',
            CharClass::NonSpace => c != ' ',
            CharClass::NonQuery => c != '?',
            CharClass::HeaderName => ('A' <= c && c <= 'Z') || ('a' <= c && c <= 'z') || c == '-',
            CharClass::HeaderValue => c != '\r' && c != '\n',
        }
    }

    /// Whether every character of `s` belongs to the class.
    pub open spec fn has_all(self, s: Seq<char>) -> bool {
        forall|k: int| 0 <= k < s.len() ==> self.has(#[trigger] s[k])
    }

    /// Tests one character against the class.
    pub fn contains(self, c: char) -> (b: bool)
        ensures
            b == self.has(c),
    {
        match self {
            CharClass::Upper => 'A' <= c && c <= 'Z',
            CharClass::NonSpace => c != ' ',
            CharClass::NonQuery => c != '?',
            CharClass::HeaderName => ('A' <= c && c <= 'Z') || ('a' <= c && c <= 'z') || c == '-',
            CharClass::HeaderValue => c != '\r' && c != '\n',
        }
    }
}

/// Whether `c` is one of `0` to `9`.
pub open spec fn is_digit(c: char) -> bool {
    '0' <= c && c <= '9'
}

/// The end of the longest run of `class` characters that starts at `from`:
/// the first index at or after `from` that holds no such character.
pub open spec fn run_end(s: Seq<char>, class: CharClass, from: int) -> int
    decreases s.len() - from,
{
    if 0 <= from < s.len() && class.has(s[from]) {
        run_end(s, class, from + 1)
    } else {
        from
    }
}

/// Whether `lit` stands in `s` at index `at`.
pub open spec fn has_at(s: Seq<char>, at: int, lit: Seq<char>) -> bool {
    0 <= at && at + lit.len() <= s.len() && s.subrange(at, at + lit.len()) == lit
}

/// A run ends inside the text, covers only characters of its class, and
/// stops at the first character outside it.
pub proof fn lemma_run_end(s: Seq<char>, class: CharClass, from: int)
    requires
        0 <= from <= s.len(),
    ensures
        from <= run_end(s, class, from) <= s.len(),
        forall|k: int| from <= k < run_end(s, class, from) ==> class.has(#[trigger] s[k]),
        run_end(s, class, from) < s.len() ==> !class.has(s[run_end(s, class, from)]),
    decreases s.len() - from,
{
    if from < s.len() && class.has(s[from]) {
        lemma_run_end(s, class, from + 1);
    }
}

/// An index that a run of `class` characters leads up to, and that holds no
/// such character itself, is where the run ends.
pub proof fn lemma_run_end_is(s: Seq<char>, class: CharClass, from: int, end: int)
    requires
        0 <= from <= end <= s.len(),
        forall|k: int| from <= k < end ==> class.has(#[trigger] s[k]),
        end < s.len() ==> !class.has(s[end]),
    ensures
        run_end(s, class, from) == end,
    decreases end - from,
{
    if from < end {
        lemma_run_end_is(s, class, from + 1, end);
    }
}

/// A text is found at the start of itself.
pub proof fn lemma_has_at_whole(s: Seq<char>)
    ensures
        has_at(s, 0, s),
{
    assert(s.subrange(0, s.len() as int) =~= s);
}

/// Where two texts, one after the other, are found, each of them is found
/// at its place.
pub proof fn lemma_has_at_split(s: Seq<char>, at: int, first: Seq<char>, second: Seq<char>)
    requires
        has_at(s, at, first + second),
    ensures
        has_at(s, at, first),
        has_at(s, at + first.len(), second),
{
    let both = first + second;
    assert(s.subrange(at, at + first.len()) =~= first) by {
        assert forall|k: int| 0 <= k < first.len() implies s.subrange(at, at + first.len())[k]
            == first[k] by {
            assert(s.subrange(at, at + both.len())[k] == both[k]);
        }
    }
    assert(s.subrange(at + first.len(), at + first.len() + second.len()) =~= second) by {
        assert forall|k: int| 0 <= k < second.len() implies s.subrange(
            at + first.len(),
            at + first.len() + second.len(),
        )[k] == second[k] by {
            assert(s.subrange(at, at + both.len())[first.len() + k] == both[first.len() + k]);
        }
    }
}

/// Where a text is found, its first character is.
pub proof fn lemma_has_at_first(s: Seq<char>, at: int, lit: Seq<char>)
    requires
        has_at(s, at, lit),
        lit.len() > 0,
    ensures
        at < s.len(),
        s[at] == lit[0],
{
    assert(s.subrange(at, at + lit.len())[0] == lit[0]);
}

/// A run of `class` characters that is found at `from`, with no such
/// character behind it, is the run that starts at `from`.
pub proof fn lemma_run_end_found(s: Seq<char>, class: CharClass, from: int, run: Seq<char>)
    requires
        has_at(s, from, run),
        class.has_all(run),
        from + run.len() < s.len() ==> !class.has(s[from + run.len()]),
    ensures
        run_end(s, class, from) == from + run.len(),
{
    assert forall|k: int| from <= k < from + run.len() implies class.has(#[trigger] s[k]) by {
        assert(s.subrange(from, from + run.len())[k - from] == run[k - from]);
    }
    lemma_run_end_is(s, class, from, from + run.len());
}

/// Collects the characters of `s` into a vector, so that scans can index
/// them in constant time.
pub fn chars_of(s: &str) -> (v: Vec<char>)
    ensures
        v@ == s@,
{
    let mut v: Vec<char> = Vec::new();
    for c in it: s.chars()
        invariant
            v@ == it.seq().take(it.index() as int),
    {
        v.push(c);
    }
    v
}

/// Finds the end of the run of `class` characters that starts at `from`.
pub fn scan_run(v: &Vec<char>, class: CharClass, from: usize) -> (end: usize)
    requires
        from <= v.len(),
    ensures
        end == run_end(v@, class, from as int),
        from <= end <= v.len(),
{
    let mut i: usize = from;
    while i < v.len() && class.contains(v[i])
        invariant
            from <= i <= v.len(),
            run_end(v@, class, from as int) == run_end(v@, class, i as int),
        decreases v.len() - i,
    {
        i = i + 1;
    }
    i
}

/// Tests whether the characters of `lit` stand in `v` at index `at`.
pub fn found_at(v: &Vec<char>, at: usize, lit: &Vec<char>) -> (b: bool)
    ensures
        b == has_at(v@, at as int, lit@),
{
    if lit.len() > v.len() || at > v.len() - lit.len() {
        return false;
    }
    let mut k: usize = 0;
    while k < lit.len()
        invariant
            at + lit.len() <= v.len(),
            k <= lit.len(),
            forall|j: int| 0 <= j < k ==> v@[at + j] == lit@[j],
        decreases lit.len() - k,
    {
        if v[at + k] != lit[k] {
            proof {
                assert(v@.subrange(at as int, at + lit.len())[k as int] == v@[at + k]);
            }
            return false;
        }
        k = k + 1;
    }
    proof {
        assert(v@.subrange(at as int, at + lit.len()) =~= lit@);
    }
    true
}

/// Builds the text that `v` holds from index `from` up to `to`.
pub fn text_between(v: &Vec<char>, from: usize, to: usize) -> (out: String)
    requires
        from <= to <= v.len(),
    ensures
        out@ == v@.subrange(from as int, to as int),
{
    let mut out = String::new();
    let mut i: usize = from;
    while i < to
        invariant
            from <= i <= to <= v.len(),
            out@ == v@.subrange(from as int, i as int),
        decreases to - i,
    {
        out.push(v[i]);
        proof {
            assert(v@.subrange(from as int, i + 1) =~= v@.subrange(from as int, i as int).push(
                v@[i as int],
            ));
        }
        i = i + 1;
    }
    out
}

/// What `String::from_utf8_lossy` of std makes of `bytes`: the text that
/// they encode, with U+FFFD in place of every part that is no UTF-8.
pub uninterp spec fn utf8_lossy(bytes: Seq<u8>) -> Seq<char>;

/// Whether `bytes`, if they are UTF-8 throughout, are read as the text that
/// they encode.
pub open spec fn reads_utf8_as_it_is(bytes: Seq<u8>) -> bool {
    vstd::utf8::valid_utf8(bytes) ==> utf8_lossy(bytes) == vstd::utf8::decode_utf8(bytes)
}

/// Calls `String::from_utf8_lossy` of std, which does not fail, and takes
/// the text out of what it returns. The text is named [`utf8_lossy`]; of
/// bytes that are UTF-8 throughout it is the text that they encode, as std
/// then hands the same bytes back as a string.
#[verifier::external_body]
pub(crate) fn text_from_bytes(bytes: &[u8]) -> (text: String)
    ensures
        text@ == utf8_lossy(bytes@),
        vstd::utf8::valid_utf8(bytes@) ==> text@ == vstd::utf8::decode_utf8(bytes@),
{
    String::from_utf8_lossy(bytes).into_owned()
}

/// `String::push` of std: the string afterwards is the string before it
/// with `ch` added at its end.
pub assume_specification[ String::push ](s: &mut String, ch: char)
    ensures
        final(s)@ == old(s)@.push(ch),
;

} // verus!
