//! Text primitives used by the feed parser: comparison, trimming, case
//! folding, quoting and decimal rendering of strings.

use vstd::prelude::*;
use vstd::std_specs::iter::IteratorSpec;
use vstd::string::*;

verus! {

/// Equality of string slices (`str::eq`): two slices are equal exactly when
/// they hold the same characters.
pub assume_specification[ <str as PartialEq>::eq ](a: &str, b: &str) -> (res: bool)
    ensures
        res == (a@ == b@),
;

/// Whether `c` is white space: what `char::is_whitespace` answers, which
/// goes by the Unicode property `White_Space`.
pub uninterp spec fn white_space(c: char) -> bool;

/// The lower-case form of `s` under the Unicode case mapping of
/// `str::to_lowercase`.
pub uninterp spec fn lowercased(s: Seq<char>) -> Seq<char>;

/// The quoted and escaped form of `s` that `{:?}` produces for a string.
pub uninterp spec fn debug_quoted(s: Seq<char>) -> Seq<char>;

/// `s` without its leading white space.
pub open spec fn trim_start(s: Seq<char>) -> Seq<char>
    decreases s.len(),
{
    if s.len() > 0 && white_space(s[0]) {
        trim_start(s.drop_first())
    } else {
        s
    }
}

/// `s` without its trailing white space.
pub open spec fn trim_end(s: Seq<char>) -> Seq<char>
    decreases s.len(),
{
    if s.len() > 0 && white_space(s.last()) {
        trim_end(s.drop_last())
    } else {
        s
    }
}

/// `s` without its leading and trailing white space.
pub open spec fn trimmed(s: Seq<char>) -> Seq<char> {
    trim_end(trim_start(s))
}

/// `char::is_whitespace`: the answer is named, not described.
pub assume_specification[ char::is_whitespace ](c: char) -> (b: bool)
    ensures
        b == white_space(c),
;

/// Dropping `k` leading characters that are all white space, up to one that
/// is not or to the end, is trimming at the start.
proof fn lemma_trim_start(s: Seq<char>, k: int)
    requires
        0 <= k <= s.len(),
        forall|i: int| 0 <= i < k ==> white_space(#[trigger] s[i]),
        k < s.len() ==> !white_space(s[k]),
    ensures
        trim_start(s) == s.skip(k),
    decreases k,
{
    if k == 0 {
        assert(s.skip(0) =~= s);
    } else {
        let rest = s.drop_first();
        assert forall|i: int| 0 <= i < k - 1 implies white_space(#[trigger] rest[i]) by {
            assert(rest[i] == s[i + 1]);
        }
        lemma_trim_start(rest, k - 1);
        assert(rest.skip(k - 1) =~= s.skip(k));
    }
}

/// Keeping the first `e` characters, where all behind them are white space
/// and the last of them is not, is trimming at the end.
proof fn lemma_trim_end(s: Seq<char>, e: int)
    requires
        0 <= e <= s.len(),
        forall|i: int| e <= i < s.len() ==> white_space(#[trigger] s[i]),
        e > 0 ==> !white_space(s[e - 1]),
    ensures
        trim_end(s) == s.take(e),
    decreases s.len() - e,
{
    if e == s.len() {
        assert(s.take(e) =~= s);
    } else {
        let rest = s.drop_last();
        lemma_trim_end(rest, e);
        assert(rest.take(e) =~= s.take(e));
    }
}

/// The text without its leading and trailing white space, as `str::trim`
/// gives it.
pub fn trim(s: &str) -> (r: String)
    ensures
        r@ == trimmed(s@),
{
    broadcast use vstd::string::group_string_axioms;

    let length = s.unicode_len();
    let mut rest = s.chars();
    let mut index: usize = 0;
    let mut start: usize = 0;
    let mut end: usize = 0;
    let mut found = false;
    loop
        invariant
            length == s@.len(),
            index <= length,
            rest.remaining() == s@.skip(index as int),
            !found ==> forall|i: int| 0 <= i < index ==> white_space(#[trigger] s@[i]),
            found ==> start < end <= index,
            found ==> forall|i: int| 0 <= i < start ==> white_space(#[trigger] s@[i]),
            found ==> !white_space(s@[start as int]) && !white_space(s@[end - 1]),
            found ==> forall|i: int| end <= i < index ==> white_space(#[trigger] s@[i]),
        ensures
            index == length,
        decreases length - index,
    {
        match rest.next() {
            Some(c) => {
                assert(c == s@[index as int]);
                if !c.is_whitespace() {
                    if !found {
                        start = index;
                        found = true;
                    }
                    end = index + 1;
                }
                index += 1;
                assert(s@.skip(index - 1).drop_first() =~= s@.skip(index as int));
            },
            None => {
                break ;
            },
        }
    }
    if found {
        proof {
            lemma_trim_start(s@, start as int);
            let tail = s@.skip(start as int);
            assert forall|i: int| end - start <= i < tail.len() implies white_space(
                #[trigger] tail[i],
            ) by {
                assert(tail[i] == s@[i + start]);
            }
            assert(tail[end - start - 1] == s@[end - 1]);
            lemma_trim_end(tail, end - start);
            assert(tail.take(end - start) =~= s@.subrange(start as int, end as int));
        }
        s.substring_char(start, end).to_owned()
    } else {
        proof {
            lemma_trim_start(s@, length as int);
            assert(s@.skip(length as int) =~= Seq::empty());
        }
        String::new()
    }
}

/// Calls `str::to_lowercase`; the result is named, not described.
#[verifier::external_body]
pub(crate) fn to_lowercase(s: &str) -> (r: String)
    ensures
        r@ == lowercased(s@),
{
    s.to_lowercase()
}

/// Formats `s` with `{:?}`: the text in double quotes, with the escapes of
/// `<str as Debug>::fmt`; the result is named, not described.
#[verifier::external_body]
pub(crate) fn quote(s: &str) -> (r: String)
    ensures
        r@ == debug_quoted(s@),
{
    format!("{:?}", s)
}

/// Whether two string slices hold the same text.
pub fn same_text(a: &str, b: &str) -> (res: bool)
    ensures
        res == (a@ == b@),
{
    *a == *b
}

/// The character that stands for the decimal digit `d`.
pub open spec fn digit_char(d: nat) -> char {
    if d == 0 {
        '0'
    } else if d == 1 {
        '1'
    } else if d == 2 {
        '2'
    } else if d == 3 {
        '3'
    } else if d == 4 {
        '4'
    } else if d == 5 {
        '5'
    } else if d == 6 {
        '6'
    } else if d == 7 {
        '7'
    } else if d == 8 {
        '8'
    } else {
        '9'
    }
}

/// The decimal numeral of `n`, most significant digit first, without
/// leading zeros.
pub open spec fn decimal_digits(n: nat) -> Seq<char>
    decreases n,
{
    if n < 10 {
        seq![digit_char(n)]
    } else {
        decimal_digits(n / 10).push(digit_char(n % 10))
    }
}

fn digit_text(d: u64) -> (r: &'static str)
    requires
        d < 10,
    ensures
        r@ == seq![digit_char(d as nat)],
{
    proof {
        reveal_strlit("0");
        reveal_strlit("1");
        reveal_strlit("2");
        reveal_strlit("3");
        reveal_strlit("4");
        reveal_strlit("5");
        reveal_strlit("6");
        reveal_strlit("7");
        reveal_strlit("8");
        reveal_strlit("9");
    }
    let r = if d == 0 {
        "0"
    } else if d == 1 {
        "1"
    } else if d == 2 {
        "2"
    } else if d == 3 {
        "3"
    } else if d == 4 {
        "4"
    } else if d == 5 {
        "5"
    } else if d == 6 {
        "6"
    } else if d == 7 {
        "7"
    } else if d == 8 {
        "8"
    } else {
        "9"
    };
    assert(r@ =~= seq![digit_char(d as nat)]);
    r
}

/// Renders `n` as a decimal numeral.
pub fn decimal(n: u64) -> (r: String)
    ensures
        r@ == decimal_digits(n as nat),
    decreases n,
{
    if n < 10 {
        digit_text(n).to_owned()
    } else {
        let mut r = decimal(n / 10);
        r.append(digit_text(n % 10));
        assert(r@ =~= decimal_digits((n / 10) as nat).push(digit_char((n % 10) as nat)));
        r
    }
}

} // verus!
