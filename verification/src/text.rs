//! Text as sequences of characters: the few operations on strings that the
//! collectors need, each stated over `Seq<char>`.

use vstd::prelude::*;
use vstd::string::StrSliceExecFns;
use vstd::string::StringExecFns;

verus! {

/// The characters of `s`.
pub fn chars_of(s: &str) -> (v: Vec<char>)
    ensures
        v@ == s@,
{
    let mut v: Vec<char> = Vec::new();
    for c in it: s.chars()
        invariant
            v@ == it.seq().take(it.index() as int),
    {
        v.push(c);
    }
    v
}

/// The texts of `strings`, in order.
pub open spec fn views(strings: Seq<String>) -> Seq<Seq<char>> {
    Seq::new(strings.len(), |i: int| strings[i]@)
}

/// The text of a pushed string is pushed onto the texts.
pub proof fn lemma_views_push(strings: Seq<String>, s: String)
    ensures
        views(strings.push(s)) == views(strings).push(s@),
{
    assert(views(strings.push(s)) =~= views(strings).push(s@));
}

/// Whether `s` and `t` hold the same text.
pub fn same_text(s: &str, t: &str) -> (r: bool)
    ensures
        r == (s@ == t@),
{
    s.to_owned() == t.to_owned()
}

/// Whether `c` is white space: one of the code points with the Unicode
/// property White_Space.
pub open spec fn is_space(c: char) -> bool {
    let u = c as u32;
    ||| 0x09 <= u <= 0x0D
    ||| u == 0x20
    ||| u == 0x85
    ||| u == 0xA0
    ||| u == 0x1680
    ||| 0x2000 <= u <= 0x200A
    ||| u == 0x2028
    ||| u == 0x2029
    ||| u == 0x202F
    ||| u == 0x205F
    ||| u == 0x3000
}

/// Whether `c` is white space.
pub fn is_whitespace(c: char) -> (r: bool)
    ensures
        r == is_space(c),
{
    let u: u32 = c as u32;
    (0x09 <= u && u <= 0x0D) || u == 0x20 || u == 0x85 || u == 0xA0 || u == 0x1680 || (0x2000 <= u
        && u <= 0x200A) || u == 0x2028 || u == 0x2029 || u == 0x202F || u == 0x205F || u == 0x3000
}

/// What parts a text: one given character, or any white space.
#[derive(Clone, Copy, Debug)]
pub enum Separator {
    Char(char),
    Whitespace,
}

impl Separator {
    /// Whether `c` parts the text.
    pub open spec fn parts_at(self, c: char) -> bool {
        match self {
            Separator::Char(d) => c == d,
            Separator::Whitespace => is_space(c),
        }
    }

    /// Whether `c` parts the text.
    pub fn is_at(&self, c: char) -> (r: bool)
        ensures
            r == self.parts_at(c),
    {
        match self {
            Separator::Char(d) => c == *d,
            Separator::Whitespace => is_whitespace(c),
        }
    }
}

/// The pieces of `s` between separators, in order: one more than there are
/// separators, and empty where two separators meet or one stands at an end.
pub open spec fn split_spec(s: Seq<char>, sep: Separator) -> Seq<Seq<char>>
    decreases s.len(),
{
    if s.len() == 0 {
        seq![Seq::<char>::empty()]
    } else {
        let before = split_spec(s.drop_last(), sep);
        if sep.parts_at(s.last()) {
            before.push(Seq::<char>::empty())
        } else {
            before.drop_last().push(before.last().push(s.last()))
        }
    }
}

/// The pieces of `text` between separators.
pub fn split(text: &str, sep: Separator) -> (r: Vec<String>)
    ensures
        views(r@) == split_spec(text@, sep),
{
    let chars = chars_of(text);
    let mut out: Vec<String> = Vec::new();
    let mut start: usize = 0;
    let mut i: usize = 0;
    assert(text@.take(0) =~= Seq::<char>::empty());
    assert(split_spec(text@.take(0), sep) =~= views(out@).push(text@.subrange(0, 0)));
    while i < chars.len()
        invariant
            i <= chars.len(),
            start <= i,
            chars@ == text@,
            split_spec(text@.take(i as int), sep) == views(out@).push(
                text@.subrange(start as int, i as int),
            ),
        decreases chars.len() - i,
    {
        let ghost before = split_spec(text@.take(i as int), sep);
        let ghost done = views(out@);
        proof {
            assert(text@.take(i + 1).drop_last() =~= text@.take(i as int));
            assert(text@.take(i + 1).last() == text@[i as int]);
            assert(before.last() == text@.subrange(start as int, i as int));
            assert(before.drop_last() =~= done);
        }
        if sep.is_at(chars[i]) {
            let piece = text.substring_char(start, i).to_owned();
            proof {
                lemma_views_push(out@, piece);
            }
            out.push(piece);
            start = i + 1;
            assert(text@.subrange(start as int, i + 1) =~= Seq::<char>::empty());
        } else {
            assert(text@.subrange(start as int, i + 1) =~= text@.subrange(
                start as int,
                i as int,
            ).push(text@[i as int]));
        }
        i += 1;
    }
    assert(text@.take(i as int) =~= text@);
    let piece = text.substring_char(start, i).to_owned();
    proof {
        lemma_views_push(out@, piece);
    }
    out.push(piece);
    out
}

/// The pieces that are not empty, in order.
pub open spec fn non_empty(pieces: Seq<Seq<char>>) -> Seq<Seq<char>>
    decreases pieces.len(),
{
    if pieces.len() == 0 {
        pieces
    } else if pieces.last().len() == 0 {
        non_empty(pieces.drop_last())
    } else {
        non_empty(pieces.drop_last()).push(pieces.last())
    }
}

/// The fields of a line: its runs of characters that are not white space.
pub open spec fn fields_spec(line: Seq<char>) -> Seq<Seq<char>> {
    non_empty(split_spec(line, Separator::Whitespace))
}

/// The fields of a line: its runs of characters that are not white space.
pub fn fields(line: &str) -> (r: Vec<String>)
    ensures
        views(r@) == fields_spec(line@),
{
    let mut pieces = split(line, Separator::Whitespace);
    let ghost all = views(pieces@);
    let mut out: Vec<String> = Vec::new();
    let n = pieces.len();
    let mut i: usize = 0;
    assert(all.take(0) =~= Seq::<Seq<char>>::empty());
    assert(views(out@) =~= Seq::<Seq<char>>::empty());
    while i < n
        invariant
            i <= n,
            n == pieces.len(),
            all == views(pieces@),
            views(out@) == non_empty(all.take(i as int)),
        decreases n - i,
    {
        proof {
            assert(all.take(i + 1).drop_last() =~= all.take(i as int));
            assert(all.take(i + 1).last() == pieces@[i as int]@);
        }
        if pieces[i].as_str().unicode_len() > 0 {
            let piece = pieces[i].clone();
            proof {
                lemma_views_push(out@, piece);
            }
            out.push(piece);
        }
        i += 1;
    }
    assert(all.take(n as int) =~= all);
    out
}

/// The lines of a text: its pieces between line feeds, without the empty
/// piece after the last line feed.
pub open spec fn lines_spec(text: Seq<char>) -> Seq<Seq<char>> {
    let pieces = split_spec(text, Separator::Char('\n'));
    if pieces.last().len() == 0 {
        pieces.drop_last()
    } else {
        pieces
    }
}

/// A split gives at least one piece.
pub proof fn lemma_split_not_empty(s: Seq<char>, sep: Separator)
    ensures
        split_spec(s, sep).len() >= 1,
    decreases s.len(),
{
    if s.len() > 0 {
        lemma_split_not_empty(s.drop_last(), sep);
    }
}

/// The lines of a text.
pub fn lines(text: &str) -> (r: Vec<String>)
    ensures
        views(r@) == lines_spec(text@),
{
    let mut pieces = split(text, Separator::Char('\n'));
    proof {
        lemma_split_not_empty(text@, Separator::Char('\n'));
    }
    let n = pieces.len();
    if pieces[n - 1].as_str().unicode_len() == 0 {
        let ghost before = pieces@;
        pieces.pop();
        assert(views(pieces@) =~= views(before).drop_last());
    }
    pieces
}

/// Whether `pat` stands in `s` from index `i` on.
pub open spec fn has_at(s: Seq<char>, i: int, pat: Seq<char>) -> bool {
    &&& 0 <= i
    &&& i + pat.len() <= s.len()
    &&& s.subrange(i, i + pat.len()) == pat
}

/// Whether `pat` stands somewhere in `s`.
pub open spec fn has_infix(s: Seq<char>, pat: Seq<char>) -> bool {
    exists|i: int| has_at(s, i, pat)
}

/// Whether `s` begins with `pat`.
pub open spec fn has_prefix(s: Seq<char>, pat: Seq<char>) -> bool {
    has_at(s, 0, pat)
}

/// Whether `pat` stands in `s` from index `i` on.
pub fn matches_at(s: &Vec<char>, i: usize, pat: &Vec<char>) -> (r: bool)
    ensures
        r == has_at(s@, i as int, pat@),
{
    if i > s.len() || pat.len() > s.len() - i {
        return false;
    }
    let mut k: usize = 0;
    while k < pat.len()
        invariant
            k <= pat.len(),
            i + pat.len() <= s.len(),
            forall|j: int| 0 <= j < k ==> s@[i + j] == pat@[j],
        decreases pat.len() - k,
    {
        if s[i + k] != pat[k] {
            assert(s@.subrange(i as int, i + pat.len())[k as int] != pat@[k as int]);
            return false;
        }
        k += 1;
    }
    assert(s@.subrange(i as int, i + pat.len()) =~= pat@);
    true
}

/// Whether `pat` stands somewhere in `text`.
pub fn contains(text: &str, pat: &str) -> (r: bool)
    ensures
        r == has_infix(text@, pat@),
{
    let s = chars_of(text);
    let p = chars_of(pat);
    let mut i: usize = 0;
    while i < s.len()
        invariant
            i <= s.len(),
            s@ == text@,
            p@ == pat@,
            forall|j: int| 0 <= j < i ==> !has_at(s@, j, p@),
        decreases s.len() - i,
    {
        if matches_at(&s, i, &p) {
            return true;
        }
        i += 1;
    }
    matches_at(&s, i, &p)
}

/// Whether `text` begins with `pat`.
pub fn starts_with(text: &str, pat: &str) -> (r: bool)
    ensures
        r == has_prefix(text@, pat@),
{
    let s = chars_of(text);
    let p = chars_of(pat);
    matches_at(&s, 0, &p)
}

/// `s` without the occurrences of `pat`, found from the left, none
/// overlapping another.
pub open spec fn without(s: Seq<char>, pat: Seq<char>) -> Seq<char>
    decreases s.len(),
{
    if pat.len() == 0 || s.len() == 0 {
        s
    } else if has_at(s, 0, pat) {
        without(s.skip(pat.len() as int), pat)
    } else {
        seq![s[0]] + without(s.skip(1), pat)
    }
}

/// `text` without the occurrences of `pat`.
pub fn remove_all(text: &str, pat: &str) -> (r: String)
    ensures
        r@ == without(text@, pat@),
{
    let s = chars_of(text);
    let p = chars_of(pat);
    if p.len() == 0 {
        return text.to_owned();
    }
    let mut out = String::new();
    let mut i: usize = 0;
    assert(text@.skip(0) =~= text@);
    while i < s.len()
        invariant
            i <= s.len(),
            s@ == text@,
            p@ == pat@,
            p@.len() > 0,
            without(text@, pat@) == out@ + without(text@.skip(i as int), pat@),
        decreases s.len() - i,
    {
        let ghost rest = text@.skip(i as int);
        proof {
            assert(has_at(rest, 0, pat@) == has_at(s@, i as int, p@)) by {
                if i + p@.len() <= s@.len() {
                    assert(rest.subrange(0, p@.len() as int) =~= s@.subrange(
                        i as int,
                        i + p@.len(),
                    ));
                }
            }
        }
        if matches_at(&s, i, &p) {
            assert(rest.skip(p@.len() as int) =~= text@.skip(i + p@.len()));
            i += p.len();
        } else {
            let piece = text.substring_char(i, i + 1);
            assert(piece@ =~= seq![rest[0]]);
            assert(rest.skip(1) =~= text@.skip(i + 1));
            let ghost before = out@;
            out.append(piece);
            assert(out@ + without(text@.skip(i + 1), pat@) =~= before + (seq![rest[0]] + without(
                rest.skip(1),
                pat@,
            )));
            i += 1;
        }
    }
    assert(out@ + Seq::<char>::empty() =~= out@);
    out
}

/// `a` followed by `b`.
pub fn join(a: &str, b: &str) -> (r: String)
    ensures
        r@ == a@ + b@,
{
    let mut r = a.to_owned();
    r.append(b);
    r
}

/// The decimal digit for `d`.
pub open spec fn digit_char(d: int) -> char {
    if d == 0 {
        '0'
    } else if d == 1 {
        '1'
    } else if d == 2 {
        '2'
    } else if d == 3 {
        '3'
    } else if d == 4 {
        '4'
    } else if d == 5 {
        '5'
    } else if d == 6 {
        '6'
    } else if d == 7 {
        '7'
    } else if d == 8 {
        '8'
    } else {
        '9'
    }
}

/// `n` in decimal digits, without leading zeros.
pub open spec fn decimal_spec(n: nat) -> Seq<char>
    decreases n,
{
    if n < 10 {
        seq![digit_char(n as int)]
    } else {
        decimal_spec(n / 10).push(digit_char((n % 10) as int))
    }
}

/// The decimal digit for `d`, as text.
pub fn digit(d: u128) -> (r: &'static str)
    requires
        d < 10,
    ensures
        r@ == seq![digit_char(d as int)],
{
    proof {
        reveal_strlit("0");
        reveal_strlit("1");
        reveal_strlit("2");
        reveal_strlit("3");
        reveal_strlit("4");
        reveal_strlit("5");
        reveal_strlit("6");
        reveal_strlit("7");
        reveal_strlit("8");
        reveal_strlit("9");
    }
    let r = if d == 0 {
        "0"
    } else if d == 1 {
        "1"
    } else if d == 2 {
        "2"
    } else if d == 3 {
        "3"
    } else if d == 4 {
        "4"
    } else if d == 5 {
        "5"
    } else if d == 6 {
        "6"
    } else if d == 7 {
        "7"
    } else if d == 8 {
        "8"
    } else {
        "9"
    };
    assert(r@ =~= seq![digit_char(d as int)]);
    r
}

/// `n` in decimal digits, without leading zeros.
pub fn decimal(n: u128) -> (r: String)
    ensures
        r@ == decimal_spec(n as nat),
    decreases n,
{
    if n < 10 {
        digit(n).to_owned()
    } else {
        let mut r = decimal(n / 10);
        let ghost before = r@;
        r.append(digit(n % 10));
        assert(r@ =~= before.push(digit_char((n % 10) as int)));
        r
    }
}

/// The lower-case form of a text, as `str::to_lowercase` of the standard
/// library gives it.
pub uninterp spec fn lowercase_of(s: Seq<char>) -> Seq<char>;

/// `str::to_lowercase` of the standard library: the text with each
/// character replaced by its Unicode lower-case form. The contract gives
/// the result its name and claims nothing else of it.
#[verifier::external_body]
fn lowercase(s: &str) -> (r: String)
    ensures
        r@ == lowercase_of(s@),
{
    s.to_lowercase()
}

/// Whether every character of `s` is an ASCII character.
pub open spec fn is_ascii_text(s: Seq<char>) -> bool {
    forall|i: int| 0 <= i < s.len() ==> (#[trigger] s[i]) as u32 <= 0x7F
}

/// The lower-case form of an ASCII character: the small letter for a
/// capital letter, and the character itself for any other.
pub open spec fn lower_char(c: char) -> char {
    if 'A' as u32 <= c as u32 <= 'Z' as u32 {
        "abcdefghijklmnopqrstuvwxyz"@[c as u32 - 'A' as u32]
    } else {
        c
    }
}

/// The lower-case form of each character of an ASCII text.
pub open spec fn ascii_lowered(s: Seq<char>) -> Seq<char> {
    Seq::new(s.len(), |i: int| lower_char(s[i]))
}

/// The lower-case form of a text: for an ASCII text that of each of its
/// characters, for any other text what the standard library gives.
pub open spec fn lowered(s: Seq<char>) -> Seq<char> {
    if is_ascii_text(s) {
        ascii_lowered(s)
    } else {
        lowercase_of(s)
    }
}

/// The lower-case form of a text.
pub fn to_lower(text: &str) -> (r: String)
    ensures
        r@ == lowered(text@),
{
    let chars = chars_of(text);
    let mut i: usize = 0;
    while i < chars.len()
        invariant
            i <= chars.len(),
            chars@ == text@,
            forall|k: int| 0 <= k < i ==> (#[trigger] text@[k]) as u32 <= 0x7F,
        decreases chars.len() - i,
    {
        if chars[i] as u32 > 0x7F {
            return lowercase(text);
        }
        i += 1;
    }
    let letters = "abcdefghijklmnopqrstuvwxyz";
    proof {
        reveal_strlit("abcdefghijklmnopqrstuvwxyz");
    }
    let mut out = String::new();
    let mut i: usize = 0;
    assert(out@ =~= ascii_lowered(text@.take(0)));
    while i < chars.len()
        invariant
            i <= chars.len(),
            chars@ == text@,
            letters@ == "abcdefghijklmnopqrstuvwxyz"@,
            letters@.len() == 26,
            out@ == ascii_lowered(text@.take(i as int)),
        decreases chars.len() - i,
    {
        let code: u32 = chars[i] as u32;
        let ghost before = out@;
        if 'A' as u32 <= code && code <= 'Z' as u32 {
            let k: usize = (code - 'A' as u32) as usize;
            let letter = letters.substring_char(k, k + 1);
            assert(letter@ =~= seq![lower_char(text@[i as int])]);
            out.append(letter);
        } else {
            let same = text.substring_char(i, i + 1);
            assert(same@ =~= seq![lower_char(text@[i as int])]);
            out.append(same);
        }
        assert(out@ =~= ascii_lowered(text@.take(i + 1))) by {
            assert(text@.take(i + 1).drop_last() =~= text@.take(i as int));
            assert(out@ == before + seq![lower_char(text@[i as int])]);
        }
        i += 1;
    }
    assert(text@.take(chars.len() as int) =~= text@);
    out
}

} // verus!
