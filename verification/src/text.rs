//! Character-level text utilities: white-space trimming and splitting.
//!
//! Everything here is executable and verified against small recursive
//! specifications over `Seq<char>`; the rest of the crate states its
//! contracts in terms of these spec functions.

use vstd::prelude::*;
use vstd::string::StrSliceExecFns;
use vstd::string::StringExecFns;

verus! {

/// The Unicode white-space characters, the class `str::trim` removes.
pub open spec fn is_space_char(c: char) -> bool {
    let u = c as u32;
    ||| u == 0x20
    ||| (0x09 <= u && u <= 0x0D)
    ||| u == 0x85
    ||| u == 0xA0
    ||| u == 0x1680
    ||| (0x2000 <= u && u <= 0x200A)
    ||| u == 0x2028
    ||| u == 0x2029
    ||| u == 0x202F
    ||| u == 0x205F
    ||| u == 0x3000
}

/// Decides [`is_space_char`].
pub fn is_space(c: char) -> (r: bool)
    ensures
        r == is_space_char(c),
{
    let u = c as u32;
    u == 0x20 || (0x09 <= u && u <= 0x0D) || u == 0x85 || u == 0xA0 || u == 0x1680 || (0x2000 <= u
        && u <= 0x200A) || u == 0x2028 || u == 0x2029 || u == 0x202F || u == 0x205F || u == 0x3000
}

/// `s` without its leading white space.
pub open spec fn trim_start_spec(s: Seq<char>) -> Seq<char>
    decreases s.len(),
{
    if s.len() > 0 && is_space_char(s[0]) {
        trim_start_spec(s.drop_first())
    } else {
        s
    }
}

/// `s` without its trailing white space.
pub open spec fn trim_end_spec(s: Seq<char>) -> Seq<char>
    decreases s.len(),
{
    if s.len() > 0 && is_space_char(s.last()) {
        trim_end_spec(s.drop_last())
    } else {
        s
    }
}

/// What `str::trim` returns: `s` without surrounding white space.
pub open spec fn trim_spec(s: Seq<char>) -> Seq<char> {
    trim_end_spec(trim_start_spec(s))
}

/// A sequence that trimming leaves as it is.
pub open spec fn is_trimmed(s: Seq<char>) -> bool {
    s.len() == 0 || (!is_space_char(s[0]) && !is_space_char(s.last()))
}

proof fn lemma_trim_start_at(s: Seq<char>, i: int)
    requires
        0 <= i <= s.len(),
        forall|j: int| 0 <= j < i ==> is_space_char(s[j]),
        i < s.len() ==> !is_space_char(s[i]),
    ensures
        trim_start_spec(s) == s.subrange(i, s.len() as int),
    decreases i,
{
    if i == 0 {
        assert(s.subrange(0, s.len() as int) =~= s);
    } else {
        lemma_trim_start_at(s.drop_first(), i - 1);
        assert(s.drop_first().subrange(i - 1, s.len() - 1) =~= s.subrange(i, s.len() as int));
    }
}

proof fn lemma_trim_end_at(s: Seq<char>, i: int)
    requires
        0 <= i <= s.len(),
        forall|j: int| i <= j < s.len() ==> is_space_char(s[j]),
        i > 0 ==> !is_space_char(s[i - 1]),
    ensures
        trim_end_spec(s) == s.subrange(0, i),
    decreases s.len(),
{
    if i == s.len() {
        assert(s.subrange(0, i) =~= s);
    } else {
        lemma_trim_end_at(s.drop_last(), i);
        assert(s.drop_last().subrange(0, i) =~= s.subrange(0, i));
    }
}

proof fn lemma_trim_start_no_leading(s: Seq<char>)
    ensures
        trim_start_spec(s).len() > 0 ==> !is_space_char(trim_start_spec(s)[0]),
    decreases s.len(),
{
    if s.len() > 0 && is_space_char(s[0]) {
        lemma_trim_start_no_leading(s.drop_first());
    }
}

proof fn lemma_trim_end_prefix(s: Seq<char>)
    ensures
        trim_end_spec(s).len() > 0 ==> !is_space_char(trim_end_spec(s).last()),
        trim_end_spec(s).len() <= s.len(),
        trim_end_spec(s) == s.subrange(0, trim_end_spec(s).len() as int),
    decreases s.len(),
{
    if s.len() > 0 && is_space_char(s.last()) {
        lemma_trim_end_prefix(s.drop_last());
        let m = trim_end_spec(s).len() as int;
        assert(s.drop_last().subrange(0, m) =~= s.subrange(0, m));
    } else {
        assert(s.subrange(0, s.len() as int) =~= s);
    }
}

/// Trimming yields a trimmed sequence.
pub proof fn lemma_trim_trimmed(s: Seq<char>)
    ensures
        is_trimmed(trim_spec(s)),
{
    lemma_trim_start_no_leading(s);
    let t = trim_start_spec(s);
    lemma_trim_end_prefix(t);
    if trim_spec(s).len() > 0 {
        assert(trim_spec(s)[0] == t.subrange(0, trim_end_spec(t).len() as int)[0]);
        assert(trim_spec(s)[0] == t[0]);
    }
}

/// Trimming an already trimmed sequence changes nothing; in particular
/// trimming is idempotent.
pub proof fn lemma_trim_of_trimmed(s: Seq<char>)
    requires
        is_trimmed(s),
    ensures
        trim_spec(s) == s,
{
}

/// `str::trim`, reimplemented so that its result is pinned to
/// [`trim_spec`].
pub fn trim(s: &str) -> (r: String)
    ensures
        r@ == trim_spec(s@),
{
    let len: usize = s.unicode_len();
    let mut i: usize = 0;
    while i < len && is_space(s.get_char(i))
        invariant
            i <= len,
            len == s@.len(),
            forall|j: int| 0 <= j < i ==> is_space_char(s@[j]),
        decreases len - i,
    {
        i = i + 1;
    }
    let mut j: usize = len;
    while j > i && is_space(s.get_char(j - 1))
        invariant
            i <= j <= len,
            len == s@.len(),
            forall|k: int| j <= k < len ==> is_space_char(s@[k]),
        decreases j,
    {
        j = j - 1;
    }
    proof {
        lemma_trim_start_at(s@, i as int);
        lemma_trim_end_at(s@.subrange(i as int, len as int), j - i);
        assert(s@.subrange(i as int, len as int).subrange(0, j - i) =~= s@.subrange(
            i as int,
            j as int,
        ));
    }
    String::from_str(s.substring_char(i, j))
}

/// The pieces of `s` between occurrences of `sep`; always at least one
/// piece, and empty pieces are kept.
pub open spec fn split_spec(s: Seq<char>, sep: char) -> Seq<Seq<char>>
    decreases s.len(),
{
    if s.len() == 0 {
        seq![Seq::<char>::empty()]
    } else if s[0] == sep {
        seq![Seq::<char>::empty()] + split_spec(s.drop_first(), sep)
    } else {
        let rest = split_spec(s.drop_first(), sep);
        seq![seq![s[0]] + rest[0]] + rest.drop_first()
    }
}

pub proof fn lemma_split_len(s: Seq<char>, sep: char)
    ensures
        split_spec(s, sep).len() >= 1,
    decreases s.len(),
{
    if s.len() > 0 {
        lemma_split_len(s.drop_first(), sep);
    }
}

spec fn prepend_first(c: Seq<char>, ss: Seq<Seq<char>>) -> Seq<Seq<char>> {
    seq![c + ss[0]] + ss.drop_first()
}

/// `str::split`, reimplemented so that its result is pinned to
/// [`split_spec`].
pub fn split(s: &str, sep: char) -> (r: Vec<String>)
    ensures
        r.deep_view() == split_spec(s@, sep),
{
    let len: usize = s.unicode_len();
    let mut pieces: Vec<String> = Vec::new();
    let mut start: usize = 0;
    let mut i: usize = 0;
    proof {
        lemma_split_len(s@, sep);
        assert(s@.skip(0) =~= s@);
        assert(s@.subrange(0, 0) =~= Seq::<char>::empty());
        assert(pieces.deep_view() =~~= Seq::<Seq<char>>::empty());
        assert(prepend_first(Seq::<char>::empty(), split_spec(s@, sep)) =~~= split_spec(s@, sep));
    }
    while i < len
        invariant
            start <= i <= len,
            len == s@.len(),
            split_spec(s@, sep) == pieces.deep_view() + prepend_first(
                s@.subrange(start as int, i as int),
                split_spec(s@.skip(i as int), sep),
            ),
        decreases len - i,
    {
        let ghost prev = s@.skip(i as int);
        let ghost cur = s@.subrange(start as int, i as int);
        let ghost rest = split_spec(s@.skip(i as int + 1), sep);
        proof {
            lemma_split_len(s@.skip(i as int + 1), sep);
            assert(prev.drop_first() =~= s@.skip(i as int + 1));
            assert(prev.len() > 0);
        }
        if s.get_char(i) == sep {
            let ghost old_pieces = pieces.deep_view();
            pieces.push(String::from_str(s.substring_char(start, i)));
            proof {
                assert(prev[0] == sep);
                assert(split_spec(prev, sep) == seq![Seq::<char>::empty()] + rest);
                assert(prepend_first(cur, seq![Seq::<char>::empty()] + rest) =~~= seq![cur] + rest);
                assert(pieces.deep_view() =~~= old_pieces + seq![cur]);
                assert(s@.subrange(i as int + 1, i as int + 1) =~= Seq::<char>::empty());
                assert(prepend_first(Seq::<char>::empty(), rest) =~~= rest);
                assert(split_spec(s@, sep) =~~= pieces.deep_view() + prepend_first(
                    s@.subrange(i as int + 1, i as int + 1),
                    rest,
                ));
            }
            start = i + 1;
        } else {
            proof {
                assert(prev[0] == s@[i as int]);
                assert(split_spec(prev, sep) == seq![seq![prev[0]] + rest[0]] + rest.drop_first());
                assert(prepend_first(cur, split_spec(prev, sep)) =~~= prepend_first(
                    s@.subrange(start as int, i as int + 1),
                    rest,
                ));
            }
        }
        i = i + 1;
    }
    let ghost old_pieces = pieces.deep_view();
    pieces.push(String::from_str(s.substring_char(start, len)));
    proof {
        assert(s@.skip(len as int) =~= Seq::<char>::empty());
        assert(split_spec(s@.skip(len as int), sep) == seq![Seq::<char>::empty()]);
        assert(prepend_first(s@.subrange(start as int, len as int), seq![Seq::<char>::empty()])
            =~~= seq![s@.subrange(start as int, len as int)]);
        assert(pieces.deep_view() =~~= old_pieces + seq![s@.subrange(start as int, len as int)]);
        assert(pieces.deep_view() =~~= split_spec(s@, sep));
    }
    pieces
}

/// The index of the first occurrence of `c` in `s`.
pub open spec fn find_spec(s: Seq<char>, c: char) -> Option<int>
    decreases s.len(),
{
    if s.len() == 0 {
        None
    } else if s[0] == c {
        Some(0int)
    } else {
        match find_spec(s.drop_first(), c) {
            Some(i) => Some(i + 1),
            None => None,
        }
    }
}

proof fn lemma_find_at(s: Seq<char>, c: char, i: int)
    requires
        0 <= i < s.len(),
        s[i] == c,
        forall|j: int| 0 <= j < i ==> s[j] != c,
    ensures
        find_spec(s, c) == Some(i),
    decreases i,
{
    if i > 0 {
        lemma_find_at(s.drop_first(), c, i - 1);
    }
}

proof fn lemma_find_none(s: Seq<char>, c: char)
    requires
        forall|j: int| 0 <= j < s.len() ==> s[j] != c,
    ensures
        find_spec(s, c) is None,
    decreases s.len(),
{
    if s.len() > 0 {
        lemma_find_none(s.drop_first(), c);
    }
}

/// The first occurrence of `c` in `s`, pinned to [`find_spec`].
pub fn find_char(s: &str, c: char) -> (r: Option<usize>)
    ensures
        (match r {
            Some(i) => find_spec(s@, c) == Some(i as int) && i < s@.len() && s@[i as int] == c,
            None => find_spec(s@, c) is None,
        }),
{
    let len = s.unicode_len();
    let mut i: usize = 0;
    while i < len
        invariant
            i <= len,
            len == s@.len(),
            forall|j: int| 0 <= j < i ==> s@[j] != c,
        decreases len - i,
    {
        if s.get_char(i) == c {
            proof {
                lemma_find_at(s@, c, i as int);
            }
            return Some(i);
        }
        i = i + 1;
    }
    proof {
        lemma_find_none(s@, c);
    }
    None
}

/// Equality of text, decided character by character.
pub fn str_eq(a: &str, b: &str) -> (r: bool)
    ensures
        r == (a@ == b@),
{
    let la = a.unicode_len();
    let lb = b.unicode_len();
    if la != lb {
        return false;
    }
    let mut i: usize = 0;
    while i < la
        invariant
            i <= la,
            la == a@.len(),
            la == b@.len(),
            forall|j: int| 0 <= j < i ==> a@[j] == b@[j],
        decreases la - i,
    {
        if a.get_char(i) != b.get_char(i) {
            return false;
        }
        i = i + 1;
    }
    proof {
        assert(a@ =~= b@);
    }
    true
}

/// Two characters that differ at most in ASCII letter case.
pub open spec fn chars_eq_ic_spec(a: char, b: char) -> bool {
    ||| a == b
    ||| (0x41 <= a as u32 && a as u32 <= 0x5A && a as u32 + 32 == b as u32)
    ||| (0x41 <= b as u32 && b as u32 <= 0x5A && b as u32 + 32 == a as u32)
}

/// Text equal up to ASCII letter case.
pub open spec fn str_eq_ic_spec(s: Seq<char>, t: Seq<char>) -> bool {
    s.len() == t.len() && forall|i: int| 0 <= i < s.len() ==> chars_eq_ic_spec(s[i], t[i])
}

fn char_eq_ic(a: char, b: char) -> (r: bool)
    ensures
        r == chars_eq_ic_spec(a, b),
{
    let au = a as u32;
    let bu = b as u32;
    a == b || (0x41 <= au && au <= 0x5A && au + 32 == bu) || (0x41 <= bu && bu <= 0x5A && bu + 32
        == au)
}

/// Decides [`str_eq_ic_spec`].
pub fn str_eq_ignore_ascii_case(a: &str, b: &str) -> (r: bool)
    ensures
        r == str_eq_ic_spec(a@, b@),
{
    let la = a.unicode_len();
    let lb = b.unicode_len();
    if la != lb {
        return false;
    }
    let mut i: usize = 0;
    while i < la
        invariant
            i <= la,
            la == a@.len(),
            la == b@.len(),
            forall|j: int| 0 <= j < i ==> chars_eq_ic_spec(a@[j], b@[j]),
        decreases la - i,
    {
        if !char_eq_ic(a.get_char(i), b.get_char(i)) {
            return false;
        }
        i = i + 1;
    }
    true
}

} // verus!
